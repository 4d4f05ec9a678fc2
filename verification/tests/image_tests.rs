use agentic_terminal::content::{Image, ImageType};
use agentic_terminal::image::ImageLoadError;

#[test]
fn extension_mapping_is_case_insensitive() {
    assert!(matches!(ImageType::from_extension("jpg"), Some(ImageType::Jpeg)));
    assert!(matches!(ImageType::from_extension("JPEG"), Some(ImageType::Jpeg)));
    assert!(matches!(ImageType::from_extension("Png"), Some(ImageType::Png)));
    assert!(matches!(ImageType::from_extension("gif"), Some(ImageType::Gif)));
    assert!(matches!(ImageType::from_extension("WEBP"), Some(ImageType::Webp)));
    assert!(ImageType::from_extension("bmp").is_none());
    assert!(ImageType::from_extension("").is_none());
}

#[test]
fn extension_names_round_back() {
    assert_eq!(ImageType::Jpeg.extension(), "jpg");
    assert_eq!(ImageType::Png.extension(), "png");
    assert_eq!(ImageType::Gif.extension(), "gif");
    assert_eq!(ImageType::Webp.extension(), "webp");
}

#[test]
fn from_file_bytes_encodes_base64() {
    let img = Image::from_file_bytes("photos/cat.PNG", Ok(vec![0x89, 0x50])).expect("load failed");
    assert!(matches!(img.image_type, ImageType::Png));
    assert_eq!(img.data, "iVA=");
    assert_eq!(img.to_string(), "<png image>");

    let empty = Image::from_file_bytes("a.gif", Ok(vec![])).expect("load failed");
    assert_eq!(empty.data, "");
}

#[test]
fn from_file_bytes_checks_extension_first() {
    assert!(matches!(
        Image::from_file_bytes("noext", Ok(vec![1])),
        Err(ImageLoadError::NoExtension)
    ));
    assert!(matches!(
        Image::from_file_bytes(".bashrc", Ok(vec![1])),
        Err(ImageLoadError::NoExtension)
    ));
    assert!(matches!(
        Image::from_file_bytes("doc.txt", Ok(vec![1])),
        Err(ImageLoadError::UnsupportedExtension)
    ));
    // the extension verdict comes before the read outcome
    assert!(matches!(
        Image::from_file_bytes("doc.txt", Err("denied".to_string())),
        Err(ImageLoadError::UnsupportedExtension)
    ));
    match Image::from_file_bytes("cat.png", Err("denied".to_string())) {
        Err(e @ ImageLoadError::FileError(_)) => {
            assert_eq!(e.describe(), "Failed to read file: denied");
        },
        other => panic!("wrong outcome: {:?}", other),
    }
}

#[test]
fn error_texts() {
    assert_eq!(ImageLoadError::UnsupportedExtension.describe(), "Unsupported image extension");
    assert_eq!(ImageLoadError::NoExtension.describe(), "File has no extension");
}
