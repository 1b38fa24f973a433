use gia_gui::icon::{decode_icon, decode_logo, IconImage};

fn png(width: u32, height: u32) -> Vec<u8> {
    let img = image::RgbaImage::from_pixel(width, height, image::Rgba([10, 20, 30, 255]));
    let mut out = std::io::Cursor::new(Vec::new());
    img.write_to(&mut out, image::ImageFormat::Png).unwrap();
    out.into_inner()
}

#[test]
fn decodes_icon_at_its_size() {
    let icon = decode_icon(&png(3, 2)).unwrap();
    assert_eq!((icon.width, icon.height), (3, 2));
    assert_eq!(icon.rgba.len(), 24);
    assert_eq!(&icon.rgba[0..4], &[10, 20, 30, 255]);
}

#[test]
fn logo_is_scaled() {
    let logo = decode_logo(&png(5, 7), 80).unwrap();
    assert_eq!((logo.width, logo.height), (80, 80));
    assert_eq!(logo.rgba.len(), 80 * 80 * 4);
}

#[test]
fn garbage_is_refused() {
    assert!(decode_icon(b"not an image").is_none());
    assert!(decode_logo(b"", 80).is_none());
}

#[test]
fn samples_cut_to_size() {
    let img = IconImage::from_samples(vec![1, 2, 3, 4, 5, 6, 7, 8, 9], 1, 2).unwrap();
    assert_eq!(img.rgba, vec![1, 2, 3, 4, 5, 6, 7, 8]);
    assert!(IconImage::from_samples(vec![1, 2, 3], 1, 1).is_none());
    assert_eq!(IconImage::from_samples(Vec::new(), 0, 9).unwrap().rgba.len(), 0);
}
