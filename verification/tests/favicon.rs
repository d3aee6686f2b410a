use obsidium::favicon::{
    create_favicon_from_data, generate_default_favicon, is_png_extension, is_suitable_file_size,
    is_valid_png, load_favicon_from_file, max_recommended_file_size,
};
use obsidium::error::{ErrorKind, ServerError};

#[test]
fn test_png_validation() {
    let valid_png_header = [0x89, 0x50, 0x4E, 0x47, 0x0D, 0x0A, 0x1A, 0x0A];
    assert!(is_valid_png(&valid_png_header));

    let invalid_data = [0x00, 0x01, 0x02, 0x03];
    assert!(!is_valid_png(&invalid_data));
}

#[test]
fn test_create_favicon_from_data() {
    let valid_png_data = [
        0x89, 0x50, 0x4E, 0x47, 0x0D, 0x0A, 0x1A,
        0x0A, // PNG signature
              // ... (rest would be actual PNG data)
    ];

    let result = create_favicon_from_data(&valid_png_data);
    assert!(result.is_ok());
    assert!(result.unwrap().starts_with("data:image/png;base64,"));
}

#[test]
fn favicon_text_is_standard_base64() {
    let valid_png_data = [0x89, 0x50, 0x4E, 0x47, 0x0D, 0x0A, 0x1A, 0x0A];
    assert_eq!(
        create_favicon_from_data(&valid_png_data).unwrap(),
        "data:image/png;base64,iVBORw0KGgo="
    );
    assert_eq!(
        generate_default_favicon(),
        "data:image/png;base64,iVBORw0KGgoAAAANSUhEUgAAAEAAAABACAIAAAAlC+aJ"
    );
}

#[test]
fn invalid_png_data_is_a_protocol_fault() {
    match create_favicon_from_data(&[0x89, 0x50, 0x4E, 0x47, 0x0D, 0x0A, 0x1A, 0x0B]) {
        Err(ServerError::Protocol(_)) => {}
        _ => panic!("data without the PNG signature must be refused"),
    }
    assert!(!is_valid_png(&[0x89, 0x50, 0x4E, 0x47, 0x0D, 0x0A, 0x1A]));
    assert!(!is_valid_png(&[]));
}

#[test]
fn recommended_file_size_is_24555() {
    assert_eq!(max_recommended_file_size(), 24555);
    assert!(is_suitable_file_size(24555));
    assert!(!is_suitable_file_size(24556));
    assert!(is_suitable_file_size(0));
}

#[test]
fn favicon_files_are_checked_before_they_are_encoded() {
    let mut png = vec![0x89, 0x50, 0x4E, 0x47, 0x0D, 0x0A, 0x1A, 0x0A];
    png.resize(24555, 0);
    let url = load_favicon_from_file(Some("PNG"), Ok(png.clone())).unwrap();
    assert_eq!(url.len(), 22 + 32740);
    assert!(url.len() <= 32767);
    assert!(load_favicon_from_file(Some("png"), Ok(png.clone())).is_ok());
    assert!(load_favicon_from_file(Some("jpg"), Ok(png.clone())).is_err());
    assert!(load_favicon_from_file(None, Ok(png.clone())).is_err());
    assert!(load_favicon_from_file(Some("png"), Err(ErrorKind::NotFound)).is_err());
    png.push(0);
    assert!(load_favicon_from_file(Some("png"), Ok(png)).is_err());
    assert!(load_favicon_from_file(Some("png"), Ok(vec![0; 100])).is_err());
    assert!(is_png_extension("pNg"));
    assert!(!is_png_extension("pngx"));
}
