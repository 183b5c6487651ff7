use sample::blob::{
    rasterize_checkerboard, BlobImageDescriptor, BlobImageError, FakeBlobImageRenderer, ImageFormat,
    ImageKey,
};

fn descriptor(width: u32, height: u32, format: ImageFormat) -> BlobImageDescriptor {
    BlobImageDescriptor { width, height, format }
}

fn alpha_at(x: u32, y: u32) -> u8 {
    if (x % 20 >= 10) != (y % 20 >= 10) {
        255
    } else {
        0
    }
}

#[test]
fn rgba_first_cell_is_clear_and_opaque() {
    let image = rasterize_checkerboard(&descriptor(2, 1, ImageFormat::RGBA8)).unwrap();
    assert_eq!(image.width, 2);
    assert_eq!(image.height, 1);
    assert_eq!(image.data, vec![0, 0, 0, 255, 0, 0, 0, 255]);
}

#[test]
fn a8_row_switches_after_ten_pixels() {
    let image = rasterize_checkerboard(&descriptor(12, 1, ImageFormat::A8)).unwrap();
    assert_eq!(image.data, vec![0, 0, 0, 0, 0, 0, 0, 0, 0, 0, 255, 255]);
}

#[test]
fn a8_column_switches_after_ten_rows() {
    let image = rasterize_checkerboard(&descriptor(1, 12, ImageFormat::A8)).unwrap();
    assert_eq!(image.data, vec![0, 0, 0, 0, 0, 0, 0, 0, 0, 0, 255, 255]);
}

#[test]
fn diagonal_cells_match() {
    let image = rasterize_checkerboard(&descriptor(11, 11, ImageFormat::A8)).unwrap();
    assert_eq!(image.data.len(), 121);
    assert_eq!(image.data[10 * 11 + 10], 0);
    assert_eq!(image.data[10 * 11 + 9], 255);
    assert_eq!(image.data[9 * 11 + 10], 255);
    assert_eq!(image.data[0], 0);
}

#[test]
fn whole_rgba_image_follows_pattern() {
    let (w, h) = (45u32, 33u32);
    let image = rasterize_checkerboard(&descriptor(w, h, ImageFormat::RGBA8)).unwrap();
    assert_eq!(image.data.len(), (w * h * 4) as usize);
    for y in 0..h {
        for x in 0..w {
            let i = ((y * w + x) * 4) as usize;
            let a = alpha_at(x, y);
            assert_eq!(&image.data[i..i + 4], &[a, a, a, 255]);
        }
    }
    assert_eq!(image.data[((25 * w + 5) * 4) as usize], alpha_at(5, 5));
}

#[test]
fn unsupported_format_is_an_error() {
    match rasterize_checkerboard(&descriptor(1, 1, ImageFormat::RGB8)) {
        Err(BlobImageError::Other(msg)) => assert_eq!(msg, "Usupported image format RGB8"),
        other => panic!("unexpected {:?}", other),
    }
    match rasterize_checkerboard(&descriptor(3, 2, ImageFormat::RGBAF32)) {
        Err(BlobImageError::Other(msg)) => assert_eq!(msg, "Usupported image format RGBAF32"),
        other => panic!("unexpected {:?}", other),
    }
    match rasterize_checkerboard(&descriptor(4, 4, ImageFormat::Invalid)) {
        Err(BlobImageError::Other(msg)) => assert_eq!(msg, "Usupported image format Invalid"),
        other => panic!("unexpected {:?}", other),
    }
}

#[test]
fn empty_image_of_unsupported_format_is_empty() {
    let image = rasterize_checkerboard(&descriptor(0, 5, ImageFormat::RGB8)).unwrap();
    assert!(image.data.is_empty());
    assert_eq!((image.width, image.height), (0, 5));
    let image = rasterize_checkerboard(&descriptor(7, 0, ImageFormat::Invalid)).unwrap();
    assert!(image.data.is_empty());
    assert_eq!((image.width, image.height), (7, 0));
}

#[test]
fn format_names() {
    assert_eq!(ImageFormat::A8.name(), "A8");
    assert_eq!(ImageFormat::RGBA8.name(), "RGBA8");
    assert_eq!(ImageFormat::RGB8.name(), "RGB8");
    assert_eq!(ImageFormat::Invalid.name(), "Invalid");
    assert_eq!(ImageFormat::RGBAF32.name(), "RGBAF32");
}

#[test]
fn key_slot_packs_namespace_high() {
    assert_eq!(ImageKey { namespace: 1, id: 2 }.to_slot(), 0x1_0000_0002);
    assert_eq!(ImageKey { namespace: 0, id: 7 }.to_slot(), 7);
    assert_eq!(
        ImageKey { namespace: u32::MAX, id: u32::MAX }.to_slot(),
        u64::MAX
    );
}

#[test]
fn resolve_returns_requested_image_once() {
    let key = ImageKey { namespace: 0, id: 3 };
    let mut renderer = FakeBlobImageRenderer::new();
    renderer.request_blob_image(key, &descriptor(2, 1, ImageFormat::A8));
    let image = renderer.resolve_blob_image(key).unwrap();
    assert_eq!(image.data, vec![0, 0]);
    assert_eq!((image.width, image.height), (2, 1));
    assert!(matches!(
        renderer.resolve_blob_image(key),
        Err(BlobImageError::InvalidKey)
    ));
}

#[test]
fn resolve_of_unknown_key_is_invalid_key() {
    let mut renderer = FakeBlobImageRenderer::new();
    assert!(matches!(
        renderer.resolve_blob_image(ImageKey { namespace: 4, id: 4 }),
        Err(BlobImageError::InvalidKey)
    ));
}

#[test]
fn later_request_replaces_earlier() {
    let key = ImageKey { namespace: 2, id: 9 };
    let mut renderer = FakeBlobImageRenderer::new();
    renderer.request_blob_image(key, &descriptor(1, 1, ImageFormat::A8));
    renderer.request_blob_image(key, &descriptor(1, 1, ImageFormat::RGBA8));
    let image = renderer.resolve_blob_image(key).unwrap();
    assert_eq!(image.data, vec![0, 0, 0, 255]);
}

#[test]
fn requests_keep_other_keys() {
    let a = ImageKey { namespace: 1, id: 0 };
    let b = ImageKey { namespace: 0, id: 1 };
    let mut renderer = FakeBlobImageRenderer::new();
    renderer.request_blob_image(a, &descriptor(11, 1, ImageFormat::A8));
    renderer.request_blob_image(b, &descriptor(1, 1, ImageFormat::RGB8));
    assert!(matches!(
        renderer.resolve_blob_image(b),
        Err(BlobImageError::Other(_))
    ));
    let image = renderer.resolve_blob_image(a).unwrap();
    assert_eq!(image.data[10], 255);
}
