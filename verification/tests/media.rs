use docx2tex::media::{
    classify_image, convert_image_if_needed, converted_media, entry_file_name, file_ext, png_file_name, rename_of,
    ImageKind,
};

#[test]
fn media_names_and_extensions() {
    assert_eq!(entry_file_name("word/media/image1.PNG"), "image1.PNG");
    assert_eq!(file_ext("image1.PNG"), "png");
    assert_eq!(file_ext("README"), "");
    assert_eq!(png_file_name("drawing.emf"), "drawing.png");
    assert_eq!(png_file_name("archive.tar.gz"), "archive.tar.png");
}

#[test]
fn image_kinds() {
    assert_eq!(classify_image("png"), ImageKind::Native);
    assert_eq!(classify_image("jpeg"), ImageKind::Native);
    assert_eq!(classify_image("svgz"), ImageKind::Vector);
    assert_eq!(classify_image("tif"), ImageKind::Raster);
    assert_eq!(classify_image("wmf"), ImageKind::Metafile);
    assert_eq!(classify_image("xyz"), ImageKind::Other);
    assert_eq!(classify_image("PNG"), ImageKind::Other);
}

#[test]
fn native_images_pass_through() {
    let (name, data) = convert_image_if_needed(b"abc".to_vec(), "a.png", "png", None);
    assert_eq!(name, "a.png");
    assert_eq!(data, b"abc".to_vec());
}

#[test]
fn metafiles_take_the_converter_output() {
    let (name, data) = convert_image_if_needed(b"emf".to_vec(), "fig.emf", "emf", Some(b"png!".to_vec()));
    assert_eq!(name, "fig.png");
    assert_eq!(data, b"png!".to_vec());
    let (name, data) = convert_image_if_needed(b"emf".to_vec(), "fig.emf", "emf", None);
    assert_eq!(name, "fig.emf");
    assert_eq!(data, b"emf".to_vec());
}

#[test]
fn broken_svg_is_kept() {
    let (name, data) = convert_image_if_needed(b"not svg".to_vec(), "x.svg", "svg", None);
    assert_eq!(name, "x.svg");
    assert_eq!(data, b"not svg".to_vec());
}

#[test]
fn svg_is_rendered_to_png() {
    let svg = br#"<svg xmlns="http://www.w3.org/2000/svg" width="4" height="3"><rect width="4" height="3" fill="red"/></svg>"#;
    let (name, data) = convert_image_if_needed(svg.to_vec(), "pic.svg", "svg", None);
    assert_eq!(name, "pic.png");
    assert_eq!(&data[..8], &[0x89, b'P', b'N', b'G', 0x0d, 0x0a, 0x1a, 0x0a]);
}

#[test]
fn bmp_is_reencoded_as_png() {
    // A 1×1 24-bit BMP.
    let mut bmp: Vec<u8> = vec![b'B', b'M'];
    bmp.extend_from_slice(&58u32.to_le_bytes());
    bmp.extend_from_slice(&[0, 0, 0, 0]);
    bmp.extend_from_slice(&54u32.to_le_bytes());
    bmp.extend_from_slice(&40u32.to_le_bytes());
    bmp.extend_from_slice(&1i32.to_le_bytes());
    bmp.extend_from_slice(&1i32.to_le_bytes());
    bmp.extend_from_slice(&1u16.to_le_bytes());
    bmp.extend_from_slice(&24u16.to_le_bytes());
    bmp.extend_from_slice(&[0; 24]);
    bmp.extend_from_slice(&[0, 0, 255, 0]);
    let (name, data) = convert_image_if_needed(bmp, "one.bmp", "bmp", None);
    assert_eq!(name, "one.png");
    assert_eq!(&data[1..4], b"PNG");
}

#[test]
fn conversion_outcomes() {
    let (n, d) = converted_media("a.tga", vec![1], ImageKind::Raster, Some(vec![2]));
    assert_eq!((n.as_str(), d), ("a.png", vec![2]));
    let (n, d) = converted_media("a.tga", vec![1], ImageKind::Other, Some(vec![2]));
    assert_eq!((n.as_str(), d), ("a.tga", vec![1]));
}

#[test]
fn renames_only_when_the_name_changes() {
    assert_eq!(rename_of("a.emf", "a.png"), Some(("media/a.emf".to_owned(), "media/a.png".to_owned())));
    assert_eq!(rename_of("a.png", "a.png"), None);
}
