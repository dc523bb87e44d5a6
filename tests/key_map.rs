use sdl_egui_wgpu_base::key_map::{find_key, insert_key, lookup, remove_key};

#[test]
fn insert_replaces_and_remove_forgets() {
    let mut v: Vec<(i32, usize)> = Vec::new();
    insert_key(&mut v, 5, 0);
    insert_key(&mut v, 7, 1);
    insert_key(&mut v, 5, 2);
    assert_eq!(v.len(), 2);
    assert_eq!(lookup(&v, 5), Some(2));
    assert_eq!(lookup(&v, 7), Some(1));
    assert_eq!(find_key(&v, 9), None);
    remove_key(&mut v, 5);
    assert_eq!(lookup(&v, 5), None);
    assert_eq!(lookup(&v, 7), Some(1));
    remove_key(&mut v, 5);
    assert_eq!(v.len(), 1);
}
