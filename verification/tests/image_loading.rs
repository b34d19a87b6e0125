use std::io::Cursor;

use learnopengl::filesystem::get_path;

use learnopengl::util::image::{
    flip_vertical, load_image_data_rgb, load_image_data_rgb_without_flip, load_image_data_rgba,
    load_image_data_rgba_without_flip, LoadImageError,
};

/// Reads a file the way the program's loader does: open it through the image reader,
/// then take all of its bytes.
fn read(path: &str) -> Result<Vec<u8>, std::io::Error> {
    let reader = image::io::Reader::open(path)?;
    let mut bytes = Vec::new();
    std::io::Read::read_to_end(&mut reader.into_inner(), &mut bytes)?;
    Ok(bytes)
}

/// A 2x3 RGB image whose pixel (x, y) is (10 * y + x, 100 + y, 200).
fn sample_rgb() -> image::RgbImage {
    image::RgbImage::from_fn(2, 3, |x, y| image::Rgb([(10 * y + x) as u8, (100 + y) as u8, 200]))
}

fn encode(img: &image::RgbImage, format: image::ImageOutputFormat) -> Vec<u8> {
    let mut out = Cursor::new(Vec::new());
    img.write_to(&mut out, format).unwrap();
    out.into_inner()
}

#[test]
fn load_image_data_rgb_test_not_existing() {
    let img = load_image_data_rgb("I_AM_NOT_EXISTING".to_string(), read("I_AM_NOT_EXISTING"));
    if let Ok(_) = img {
        panic!("The file shouldn't exist.");
    }
}

#[test]
fn load_image_data_rgba_test_not_existing() {
    let img = load_image_data_rgba("I_AM_NOT_EXISTING".to_string(), read("I_AM_NOT_EXISTING"));
    if let Ok(_) = img {
        panic!("The file shouldn't exist.");
    }
}

#[test]
fn load_image_data_rgb_without_flip_test_not_existing() {
    let img = load_image_data_rgb_without_flip(
        "I_AM_NOT_EXISTING".to_string(),
        read("I_AM_NOT_EXISTING"),
    );
    if let Ok(_) = img {
        panic!("The file shouldn't exist.");
    }
}

#[test]
fn load_image_data_rgba_without_flip_test_not_existing() {
    let img = load_image_data_rgba_without_flip(
        "I_AM_NOT_EXISTING".to_string(),
        read("I_AM_NOT_EXISTING"),
    );
    if let Ok(_) = img {
        panic!("The file shouldn't exist.");
    }
}

#[test]
fn missing_file_reports_io_error() {
    let img = load_image_data_rgb("I_AM_NOT_EXISTING".to_string(), read("I_AM_NOT_EXISTING"));
    assert!(matches!(img, Err(LoadImageError::Io(_))));
}

#[test]
fn png_without_flip_keeps_row_order() {
    let bytes = encode(&sample_rgb(), image::ImageOutputFormat::Png);
    let img = load_image_data_rgb_without_flip("face.png".to_string(), Ok(bytes)).ok().unwrap();
    assert_eq!(img.width(), 2);
    assert_eq!(img.height(), 3);
    assert_eq!(img.channels(), 3);
    assert_eq!(
        img.as_raw().clone(),
        vec![0, 100, 200, 1, 100, 200, 10, 101, 200, 11, 101, 200, 20, 102, 200, 21, 102, 200]
    );
    assert_eq!(img.len(), 18);
}

#[test]
fn png_with_flip_reverses_rows() {
    let bytes = encode(&sample_rgb(), image::ImageOutputFormat::Png);
    let img = load_image_data_rgb("face.png".to_string(), Ok(bytes)).ok().unwrap();
    assert_eq!(
        img.as_raw().clone(),
        vec![20, 102, 200, 21, 102, 200, 10, 101, 200, 11, 101, 200, 0, 100, 200, 1, 100, 200]
    );
}

#[test]
fn rgba_conversion_adds_opaque_alpha() {
    let bytes = encode(&sample_rgb(), image::ImageOutputFormat::Png);
    let img = load_image_data_rgba_without_flip("face.png".to_string(), Ok(bytes.clone()))
        .ok()
        .unwrap();
    assert_eq!(img.channels(), 4);
    assert_eq!(&img.as_raw()[0..8], &[0, 100, 200, 255, 1, 100, 200, 255]);
    let flipped = load_image_data_rgba("face.png".to_string(), Ok(bytes)).ok().unwrap();
    assert_eq!(&flipped.as_raw()[0..8], &[20, 102, 200, 255, 21, 102, 200, 255]);
}

#[test]
fn extension_names_format_when_content_does_not() {
    // TGA files carry no signature at their start, so only the extension identifies them.
    let bytes = encode(&sample_rgb(), image::ImageOutputFormat::Tga);
    let img = load_image_data_rgb_without_flip("level.tga".to_string(), Ok(bytes.clone()))
        .ok()
        .unwrap();
    assert_eq!(img.width(), 2);
    assert_eq!(img.as_raw()[0..3].to_vec(), vec![0, 100, 200]);
    let unknown = load_image_data_rgb_without_flip("level.unknown".to_string(), Ok(bytes));
    assert!(matches!(unknown, Err(LoadImageError::UnknownFormat)));
}

#[test]
fn corrupt_png_reports_decode_error() {
    let mut bytes = encode(&sample_rgb(), image::ImageOutputFormat::Png);
    bytes.truncate(20);
    let img = load_image_data_rgb("face.png".to_string(), Ok(bytes));
    assert!(matches!(img, Err(LoadImageError::Decode(_))));
}

#[test]
fn empty_contents_have_no_format() {
    let img = load_image_data_rgba("noext".to_string(), Ok(Vec::new()));
    assert!(matches!(img, Err(LoadImageError::UnknownFormat)));
}

#[test]
fn flipping_twice_gives_the_image_back() {
    let bytes = encode(&sample_rgb(), image::ImageOutputFormat::Png);
    let img = load_image_data_rgb_without_flip("face.png".to_string(), Ok(bytes.clone())).ok().unwrap();
    let original = img.as_raw().clone();
    let once = flip_vertical(img);
    let flipped = load_image_data_rgb("face.png".to_string(), Ok(bytes)).ok().unwrap();
    assert_eq!(once.as_raw(), flipped.as_raw());
    let twice = flip_vertical(once);
    assert_eq!(twice.as_raw().clone(), original);
    assert_eq!((twice.width(), twice.height(), twice.channels()), (2, 3, 3));
}

/// The face texture's path and, standing in for the file's contents, an encoded PNG of
/// 2x3 RGBA pixels.
fn existing_face() -> (String, Result<Vec<u8>, std::io::Error>) {
    let img = image::RgbaImage::from_fn(2, 3, |x, y| image::Rgba([(10 * y + x) as u8, 50, 200, 128]));
    let mut out = Cursor::new(Vec::new());
    img.write_to(&mut out, image::ImageOutputFormat::Png).unwrap();
    (get_path("", "resources/textures/awesomeface.png".to_string()), Ok(out.into_inner()))
}

#[test]
fn load_image_data_rgb_test_existing() {
    let (path, contents) = existing_face();
    let img = load_image_data_rgb(path, contents).ok().expect("The file should exist.");
    assert_ne!(img.len(), 0, "The file should have contents.");
}

#[test]
fn load_image_data_rgba_test_existing() {
    let (path, contents) = existing_face();
    let img = load_image_data_rgba(path, contents).ok().expect("The file should exist.");
    assert_ne!(img.len(), 0, "The file should have contents.");
}

#[test]
fn load_image_data_rgb_without_flip_test_existing() {
    let (path, contents) = existing_face();
    let img = load_image_data_rgb_without_flip(path, contents).ok().expect("The file should exist.");
    assert_ne!(img.len(), 0, "The file should have contents.");
}

#[test]
fn load_image_data_rgba_without_flip_test_existing() {
    let (path, contents) = existing_face();
    let img = load_image_data_rgba_without_flip(path, contents).ok().expect("The file should exist.");
    assert_ne!(img.len(), 0, "The file should have contents.");
}

#[test]
fn rgb_loader_drops_alpha_of_rgba_loader() {
    let (path, contents) = existing_face();
    let bytes = contents.unwrap();
    let rgba = load_image_data_rgba_without_flip(path.clone(), Ok(bytes.clone())).ok().unwrap();
    let rgb = load_image_data_rgb_without_flip(path, Ok(bytes)).ok().unwrap();
    assert_eq!((rgb.width(), rgb.height()), (rgba.width(), rgba.height()));
    let dropped: Vec<u8> = rgba.as_raw().chunks(4).flat_map(|p| p[..3].to_vec()).collect();
    assert_eq!(rgb.as_raw().clone(), dropped);
}
