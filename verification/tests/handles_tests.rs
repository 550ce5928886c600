use blade_graphics::handles::{
    map_color_space_to_format, ColorSpace, Frame, PlatformError, TextureFormat, TextureKey, TextureViewKey, NULL_KEY,
};

#[test]
fn frame_validity_and_handles() {
    let f: Frame<u32> = Frame { texture: None, view_key: None, target_size: [800, 600], format: TextureFormat::Bgra8Unorm };
    assert!(!f.is_valid());
    let t = f.texture();
    assert_eq!(t.raw, TextureKey(NULL_KEY));
    assert_eq!(t.raw, TextureKey::default());
    assert_eq!(t.format, TextureFormat::Bgra8Unorm);
    assert_eq!(t.target_size, [800, 600]);
    let v = f.texture_view();
    assert_eq!(v.raw, TextureViewKey(NULL_KEY));
    assert_eq!(v.aspects.bits, 1);
    let g: Frame<u32> = Frame { texture: Some(1), view_key: Some(TextureViewKey(42)), target_size: [1, 2], format: TextureFormat::Rgba8Unorm };
    assert!(g.is_valid());
    assert_eq!(g.texture_view().raw, TextureViewKey(42));
    assert_eq!(g.texture_view().target_size, [1, 2]);
}

#[test]
fn color_space_formats() {
    assert_eq!(map_color_space_to_format(ColorSpace::Linear), TextureFormat::Bgra8UnormSrgb);
    assert_eq!(map_color_space_to_format(ColorSpace::Srgb), TextureFormat::Bgra8Unorm);
}

#[test]
fn platform_error_message() {
    let e = PlatformError("Adapter request failed".to_string());
    assert_eq!(e.message(), "Adapter request failed");
}
