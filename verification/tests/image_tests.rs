use geodot::image::{image_format_for_band, image_format_for_raster};
use geodot::{most_common_byte_values, xy_to_index, Format, GeodotError, ImageFormat};

#[test]
fn raster_formats_map_to_image_formats() {
    assert_eq!(Format::Byte.image_format(), ImageFormat::R8);
    assert_eq!(Format::Rf.image_format(), ImageFormat::Rf);
    assert_eq!(Format::Rgb.image_format(), ImageFormat::Rgb8);
    assert_eq!(Format::Rgba.image_format(), ImageFormat::Rgba8);
    assert_eq!(Format::Mixed.image_format(), ImageFormat::Max);
    assert_eq!(Format::Unknown.image_format(), ImageFormat::Max);
}

#[test]
fn unsupported_raster_formats_are_errors() {
    assert!(matches!(image_format_for_raster(Format::Rgb), Ok(ImageFormat::Rgb8)));
    match image_format_for_raster(Format::Mixed) {
        Err(GeodotError::UnsupportedFormat(m)) => assert_eq!(m, "Mixed format. Not yet supported."),
        other => panic!("unexpected {other:?}"),
    }
    match image_format_for_raster(Format::Unknown) {
        Err(e) => assert_eq!(e.message(), "unsupported format: Unknown data type. Not supported."),
        other => panic!("unexpected {other:?}"),
    }
}

#[test]
fn only_byte_and_float_bands_become_images() {
    assert!(matches!(image_format_for_band(Format::Rf), Ok(ImageFormat::Rf)));
    assert!(matches!(image_format_for_band(Format::Byte), Ok(ImageFormat::R8)));
    match image_format_for_band(Format::Rgb) {
        Err(GeodotError::UnsupportedFormat(m)) => assert_eq!(m, "Unknown format for band."),
        other => panic!("unexpected {other:?}"),
    }
}

#[test]
fn pixel_indices_are_clamped_row_major() {
    assert_eq!(xy_to_index(0, 0, 4, 3), 0);
    assert_eq!(xy_to_index(3, 2, 4, 3), 11);
    assert_eq!(xy_to_index(1, 1, 4, 3), 5);
    assert_eq!(xy_to_index(-5, 1, 4, 3), 4);
    assert_eq!(xy_to_index(9, 9, 4, 3), 11);
}

#[test]
fn most_common_byte_values_skip_zero_and_stop_when_exhausted() {
    let data = vec![0u8, 0, 0, 0, 7, 7, 7, 3, 3, 200];
    // 0 is the most common value but is not reported; 200 and 3 follow 7.
    assert_eq!(most_common_byte_values(ImageFormat::R8, &data, 10), vec![7, 3, 200]);
    assert_eq!(most_common_byte_values(ImageFormat::R8, &data, 2), vec![7]);
    assert_eq!(most_common_byte_values(ImageFormat::R8, &data, -4), Vec::<i64>::new());
    assert_eq!(most_common_byte_values(ImageFormat::Rf, &data, 10), Vec::<i64>::new());
}

#[test]
fn most_common_byte_values_prefer_larger_value_on_ties() {
    let data = vec![5u8, 9, 5, 9];
    assert_eq!(most_common_byte_values(ImageFormat::R8, &data, 2), vec![9, 5]);
}

#[test]
fn most_common_byte_values_come_most_frequent_first() {
    let data: Vec<u8> = vec![4, 4, 4, 9, 9, 1, 4, 9, 6];
    let picked = most_common_byte_values(ImageFormat::R8, &data, 3);
    assert_eq!(picked, vec![4, 9, 6]);
    let count = |v: i64| data.iter().filter(|&&b| b as i64 == v).count();
    assert!(count(picked[0]) >= count(picked[1]));
    assert!(count(picked[1]) >= count(picked[2]));
    assert!(count(1) <= count(picked[2]));
}
