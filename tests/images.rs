use mcore::images::{AlphaType, ImageError, ImageManager, PixelFormat};

fn create_test_pixels(width: u32, height: u32) -> Vec<u8> {
    let size = (width * height * 4) as usize;
    vec![255u8; size]
}

#[test]
fn test_register_image() {
    let mut manager = ImageManager::new();
    let pixels = create_test_pixels(2, 2);

    let id = manager
        .register(&pixels, 2, 2, PixelFormat::Rgba8, AlphaType::Alpha)
        .unwrap();

    assert_eq!(id, 0);
    assert!(manager.get(id).is_some());
    assert_eq!(manager.refcount(id), Some(1));
}

#[test]
fn test_refcount() {
    let mut manager = ImageManager::new();
    let pixels = create_test_pixels(2, 2);

    let id = manager
        .register(&pixels, 2, 2, PixelFormat::Rgba8, AlphaType::Alpha)
        .unwrap();

    assert_eq!(manager.refcount(id), Some(1));

    manager.retain(id).unwrap();
    assert_eq!(manager.refcount(id), Some(2));

    let freed = manager.release(id).unwrap();
    assert!(!freed);
    assert_eq!(manager.refcount(id), Some(1));

    let freed = manager.release(id).unwrap();
    assert!(freed);
    assert!(manager.get(id).is_none());
}

#[test]
fn test_invalid_dimensions() {
    let mut manager = ImageManager::new();
    let pixels = create_test_pixels(2, 2);

    let result = manager.register(&pixels, 10, 10, PixelFormat::Rgba8, AlphaType::Alpha);
    assert!(result.is_err());
}

#[test]
fn test_rgba8_format() {
    let mut manager = ImageManager::new();
    let pixels = vec![255u8; 2 * 2 * 4];

    let id = manager
        .register(&pixels, 2, 2, PixelFormat::Rgba8, AlphaType::Alpha)
        .unwrap();

    assert!(manager.get(id).is_some());
}

#[test]
fn image_errors_and_ids() {
    let mut manager = ImageManager::default();
    assert!(manager.is_empty());
    let pixels = create_test_pixels(1, 3);
    assert_eq!(
        manager.register(&pixels, 1, 3, PixelFormat::Bgra8, AlphaType::Alpha),
        Err(ImageError::UnsupportedFormat)
    );
    assert_eq!(
        manager.register(&pixels, 2, 3, PixelFormat::Rgba8, AlphaType::Alpha),
        Err(ImageError::InvalidLength { expected: 24, actual: 12 })
    );
    let a = manager.register(&pixels, 1, 3, PixelFormat::Rgba8, AlphaType::Alpha).unwrap();
    let b = manager
        .register(&pixels, 3, 1, PixelFormat::Rgba8, AlphaType::AlphaPremultiplied)
        .unwrap();
    assert_eq!((a, b), (0, 1));
    assert_eq!(manager.len(), 2);
    assert_eq!(manager.get_dimensions(a), Some((1, 3)));
    assert_eq!(manager.get_dimensions(b), Some((3, 1)));
    assert_eq!(manager.get(b).unwrap().width, 3);
    assert_eq!(manager.retain(7), Err(ImageError::NotFound(7)));
    assert_eq!(manager.release(7), Err(ImageError::NotFound(7)));
    assert_eq!(manager.release(a), Ok(true));
    assert_eq!(manager.get_dimensions(a), None);
    let c = manager.register(&pixels, 1, 3, PixelFormat::Rgba8, AlphaType::Alpha).unwrap();
    assert_eq!(c, 2);
}

#[test]
fn decodes_and_registers_png() {
    let img = image::RgbaImage::from_pixel(3, 2, image::Rgba([10, 20, 30, 255]));
    let mut png: Vec<u8> = Vec::new();
    img.write_to(&mut std::io::Cursor::new(&mut png), image::ImageFormat::Png).unwrap();
    let (pixels, w, h) = ImageManager::load_image_bytes(&png).unwrap();
    assert_eq!((w, h), (3, 2));
    assert_eq!(pixels.len(), 24);
    assert_eq!(&pixels[..4], &[10, 20, 30, 255]);
    let mut manager = ImageManager::new();
    let id = manager.register_from_bytes(&png).unwrap();
    assert_eq!(manager.get_dimensions(id), Some((3, 2)));
}

#[test]
fn undecodable_bytes_are_refused() {
    let mut manager = ImageManager::new();
    assert!(ImageManager::load_image_bytes(b"not an image").is_err());
    match manager.register_from_bytes(b"not an image") {
        Err(ImageError::Decode(msg)) => assert!(msg.starts_with("Failed to decode image")),
        other => panic!("unexpected {:?}", other),
    }
    assert!(manager.is_empty());
}
