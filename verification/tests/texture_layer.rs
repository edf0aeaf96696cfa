use makepad_platform::cx::{Cx, TextureFormat};
use makepad_platform::ids::LiveId;
use makepad_platform::native_texture_layer::{NativeTextureLayerBridge, NativeTextureLayerFrame};

#[test]
fn native_texture_layer_allocates_external_texture() {
    let mut cx = Cx::new();
    let host_id = LiveId(42);
    let layer = cx.alloc_native_texture_layer(host_id);
    let texture_id = layer.texture_id();

    assert_eq!(layer.host_id, host_id);
    assert_eq!(layer.texture().texture_id(), texture_id);
    assert_eq!(layer.generation, 0);
    assert!(cx.textures[texture_id.0].format.is_video_external());
}

#[test]
fn native_texture_layer_allocates_distinct_texture_per_host() {
    let mut cx = Cx::new();
    let first = cx.alloc_native_texture_layer(LiveId(1));
    let second = cx.alloc_native_texture_layer(LiveId(2));

    assert_eq!(first.host_id, LiveId(1));
    assert_eq!(second.host_id, LiveId(2));
    assert_ne!(first.texture_id(), second.texture_id());
    assert!(cx.textures[first.texture_id().0].format.is_video_external());
    assert!(cx.textures[second.texture_id().0].format.is_video_external());
}

#[test]
fn native_texture_layer_marks_frame_generations() {
    let mut cx = Cx::new();
    let mut layer = cx.alloc_native_texture_layer(LiveId(7));
    let texture_id = layer.texture_id();

    let first_frame = layer.mark_frame_available();
    let second_frame = layer.mark_frame_available();

    assert_eq!(first_frame, NativeTextureLayerFrame { host_id: LiveId(7), texture_id, generation: 1 });
    assert_eq!(second_frame, NativeTextureLayerFrame { host_id: LiveId(7), texture_id, generation: 2 });
    assert_eq!(layer.generation, 2);
}

#[test]
fn frame_generation_saturates() {
    let mut cx = Cx::new();
    let mut layer = cx.alloc_native_texture_layer(LiveId(8));
    layer.generation = u64::MAX;
    let frame = layer.mark_frame_available();
    assert_eq!(frame.generation, u64::MAX);
    assert_eq!(layer.generation, u64::MAX);
}

#[test]
fn plain_texture_allocation_keeps_its_format() {
    let mut cx = Cx::new();
    let t = cx.alloc_texture(TextureFormat::Unknown);
    let layer = cx.alloc_native_texture_layer(LiveId(3));
    assert_eq!(t.texture_id().0, 0);
    assert_eq!(layer.texture_id().0, 1);
    assert!(!cx.textures[0].format.is_video_external());
    assert_eq!(cx.textures.len(), 2);
}
