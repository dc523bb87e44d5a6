use vstd::prelude::*;

verus! {

/// Why the engine could not be set up.
#[derive(Debug, Clone, Copy, PartialEq, Eq, Structural)]
pub enum EngineError {
    /// `width * height` does not fit in `usize`.
    FrameBufferSizeOverflow,
    /// Four bytes per pixel do not fit in `usize`.
    ColorBufferSizeOverflow,
}

/// Settings of the engine; none yet.
#[derive(Debug, Clone, Copy, PartialEq, Eq, Structural)]
pub struct EngineConfiguration {}

/// The simulated world, advanced once per update step.
#[derive(Debug)]
pub struct World {}

impl World {
    pub fn new() -> (r: Result<World, EngineError>)
        ensures
            r is Ok,
    {
        Ok(World {  })
    }

    /// Advances the world by one step of `step_ticks` ticks.
    pub fn update(&mut self, step_ticks: u64) -> (r: Result<(), EngineError>)
        ensures
            r is Ok,
    {
        Ok(())
    }
}

/// Bytes per pixel of the color buffer.
pub const COLOR_BYTES_PER_PIXEL: usize = 4;

/// The pixels the renderer draws into: four color bytes per pixel, all 0 at
/// first.
#[derive(Debug)]
pub struct FrameBuffer {
    pub width: u32,
    pub height: u32,
    pub color: Vec<u8>,
}

impl FrameBuffer {
    /// A cleared buffer of `width` by `height` pixels; fails when its size
    /// does not fit in `usize`.
    pub fn new(width: u32, height: u32) -> (r: Result<FrameBuffer, EngineError>)
        ensures
            match r {
                Ok(b) => {
                    &&& width as int * height as int * 4 <= usize::MAX
                    &&& b.width == width
                    &&& b.height == height
                    &&& b.color@.len() == width as int * height as int * 4
                    &&& forall|i: int| 0 <= i < b.color@.len() ==> b.color@[i] == 0
                },
                Err(e) => {
                    ||| e == EngineError::FrameBufferSizeOverflow && width as int * height as int
                        > usize::MAX
                    ||| e == EngineError::ColorBufferSizeOverflow && width as int * height as int
                        <= usize::MAX && width as int * height as int * 4 > usize::MAX
                },
            },
    {
        let num_pixels = match (width as usize).checked_mul(height as usize) {
            Some(n) => n,
            None => return Err(EngineError::FrameBufferSizeOverflow),
        };
        let color_size = match num_pixels.checked_mul(COLOR_BYTES_PER_PIXEL) {
            Some(n) => n,
            None => return Err(EngineError::ColorBufferSizeOverflow),
        };
        let color: Vec<u8> = vec![0u8; color_size];
        Ok(FrameBuffer { width, height, color })
    }

    /// Pixels in the buffer.
    pub fn num_pixels(&self) -> (r: usize)
        requires
            self.color@.len() == self.width as int * self.height as int * 4,
        ensures
            r == self.width as int * self.height as int,
    {
        self.color.len() / COLOR_BYTES_PER_PIXEL
    }
}

} // verus!
