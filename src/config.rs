use vstd::prelude::*;

use crate::engine::EngineConfiguration;

verus! {

/// Settings of the window and its surface.
#[derive(Debug, Clone, Copy, PartialEq, Eq)]
pub struct SdlWgpuConfiguration {
    pub title: &'static str,
    pub width: u32,
    pub height: u32,
    pub fullscreen: bool,
    pub vsync: bool,
}

/// Settings of the whole application.
#[derive(Debug, Clone, Copy, PartialEq, Eq)]
pub struct AppConfiguration {
    pub sdl_wgpu_cfg: SdlWgpuConfiguration,
    pub engine_cfg: EngineConfiguration,
    pub target_fps: i32,
}

impl AppConfiguration {
    pub fn new(
        title: &'static str,
        width: u32,
        height: u32,
        fullscreen: bool,
        vsync: bool,
        target_fps: i32,
    ) -> (r: AppConfiguration)
        ensures
            r.sdl_wgpu_cfg.title@ == title@,
            r.sdl_wgpu_cfg.width == width,
            r.sdl_wgpu_cfg.height == height,
            r.sdl_wgpu_cfg.fullscreen == fullscreen,
            r.sdl_wgpu_cfg.vsync == vsync,
            r.target_fps == target_fps,
    {
        let sdl_wgpu_cfg = SdlWgpuConfiguration { title, width, height, fullscreen, vsync };
        let engine_cfg = EngineConfiguration {  };
        AppConfiguration { sdl_wgpu_cfg, engine_cfg, target_fps }
    }
}

} // verus!
