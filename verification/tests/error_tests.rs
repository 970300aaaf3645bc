use geodot::GeodotError;

#[test]
fn formats_image_creation_error() {
    let err = GeodotError::ImageCreation("bad data".to_string());
    assert_eq!(err.message(), "could not create Godot image: bad data");
}

#[test]
fn formats_unsupported_format_error() {
    let err = GeodotError::UnsupportedFormat("Mixed".to_string());
    assert_eq!(err.message(), "unsupported format: Mixed");
}

#[test]
fn formats_gdal_error_with_prefix() {
    let err = GeodotError::Gdal("boom".to_string());
    assert_eq!(err.message(), "GDAL error: boom");
    assert!(err.message().starts_with("GDAL error:"));
}
