use geodot::layer::{
    feature_layer_epsg_code, overlay_read_for, raster_layer_epsg_code, value_write_for,
};
use geodot::{FeatureIdCounter, ImageFormat, OverlayRead, ValueKind, ValueWrite};

#[test]
fn created_feature_ids_skip_taken_ids() {
    let mut counter = FeatureIdCounter::new(5);
    assert_eq!(counter.next_candidate(), 5);
    // Ids 5 and 6 exist on disk already.
    let taken = |id: u64| id == 5 || id == 6;
    assert_eq!(counter.allocate_id(taken), Some(7));
    assert_eq!(counter.next_candidate(), 8);
    assert_eq!(counter.allocate_id(|_| false), Some(8));
    assert_eq!(counter.next_candidate(), 9);
}

#[test]
fn allocation_fails_only_when_every_id_is_taken() {
    let mut counter = FeatureIdCounter::new(u64::MAX - 2);
    assert_eq!(counter.allocate_id(|_| true), None);
    assert_eq!(counter.next_candidate(), u64::MAX - 2);
    assert_eq!(counter.allocate_id(|id| id < u64::MAX - 1), Some(u64::MAX - 1));
}

#[test]
fn values_are_written_only_into_matching_layers() {
    assert_eq!(value_write_for(ValueKind::Float, ImageFormat::Rf), ValueWrite::Float);
    assert_eq!(value_write_for(ValueKind::Color, ImageFormat::Rgb8), ValueWrite::Color);
    assert_eq!(value_write_for(ValueKind::Color, ImageFormat::Rgba8), ValueWrite::Color);
    assert_eq!(value_write_for(ValueKind::Int, ImageFormat::R8), ValueWrite::Int);
    assert_eq!(value_write_for(ValueKind::Int, ImageFormat::Rf), ValueWrite::Mismatch);
    assert_eq!(value_write_for(ValueKind::Other, ImageFormat::R8), ValueWrite::Mismatch);
}

#[test]
fn overlays_read_pixels_by_image_format() {
    assert_eq!(overlay_read_for(ImageFormat::R8, ImageFormat::R8), Some(OverlayRead::Byte));
    assert_eq!(overlay_read_for(ImageFormat::Rgb8, ImageFormat::Rgba8), Some(OverlayRead::Rgb));
    assert_eq!(overlay_read_for(ImageFormat::Rgba8, ImageFormat::Rgb8), Some(OverlayRead::Rgba));
    assert_eq!(overlay_read_for(ImageFormat::Rf, ImageFormat::Rf), Some(OverlayRead::Float));
    assert_eq!(overlay_read_for(ImageFormat::R8, ImageFormat::Rf), None);
    assert_eq!(OverlayRead::Rgba.stride(), 4);
    assert_eq!(OverlayRead::Byte.stride(), 1);
}

#[test]
fn layer_epsg_codes_use_sentinels() {
    assert_eq!(raster_layer_epsg_code(false, Some(4326)), -1);
    assert_eq!(raster_layer_epsg_code(true, None), -2);
    assert_eq!(raster_layer_epsg_code(true, Some(31256)), 31256);
    assert_eq!(feature_layer_epsg_code(false, Some(4326)), -1);
    assert_eq!(feature_layer_epsg_code(true, None), -1);
    assert_eq!(feature_layer_epsg_code(true, Some(3857)), 3857);
}

#[test]
fn repeated_allocations_hand_out_distinct_ids() {
    // Features 0..5 on disk plus id 7 taken by one added elsewhere.
    let mut counter = FeatureIdCounter::new(5);
    let taken = |id: u64| id < 5 || id == 7;
    let mut ids = Vec::new();
    for _ in 0..4 {
        ids.push(counter.allocate_id(taken).unwrap());
    }
    assert_eq!(ids, vec![5, 6, 8, 9]);
}
