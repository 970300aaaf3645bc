use geodot::raster::{get_format_for_gdal_dataset, histogram_of_samples, most_common_of_histogram, HISTOGRAM_BINS};
use geodot::{BandDataType, Format, GeoRaster, RasterDatasetInfo, RasterError, RasterTileExtractor, Resampling};

/// An 8x8 raster with `bands` bands of the given type.
fn mem_dataset(band_type: BandDataType, bands: usize) -> RasterDatasetInfo {
    RasterDatasetInfo {
        raster_size: (8, 8),
        band_types: vec![Some(band_type); bands],
    }
}

#[test]
fn detects_single_byte_band_as_byte() {
    let dataset = mem_dataset(BandDataType::UInt8, 1);
    assert_eq!(get_format_for_gdal_dataset(&dataset).unwrap(), Format::Byte);
}

#[test]
fn detects_three_byte_bands_as_rgb() {
    let dataset = mem_dataset(BandDataType::UInt8, 3);
    assert_eq!(get_format_for_gdal_dataset(&dataset).unwrap(), Format::Rgb);
}

#[test]
fn detects_four_byte_bands_as_rgba() {
    let dataset = mem_dataset(BandDataType::UInt8, 4);
    assert_eq!(get_format_for_gdal_dataset(&dataset).unwrap(), Format::Rgba);
}

#[test]
fn detects_float_band_as_rf() {
    let dataset = mem_dataset(BandDataType::Float32, 1);
    assert_eq!(get_format_for_gdal_dataset(&dataset).unwrap(), Format::Rf);
}

#[test]
fn pixel_size_matches_destination_window() {
    let dataset = mem_dataset(BandDataType::UInt8, 1);
    let raster = GeoRaster::new(dataset, 0, 0, 8, 16, Resampling::NearestNeighbour).unwrap();
    assert_eq!(raster.get_pixel_size_x(), 16);
    assert_eq!(raster.get_pixel_size_y(), 16);
    assert_eq!(raster.get_format(), Format::Byte);
}

#[test]
fn get_band_format_reports_band_data_type() {
    let dataset = mem_dataset(BandDataType::Float32, 1);
    let raster = GeoRaster::new(dataset, 0, 0, 8, 8, Resampling::NearestNeighbour).unwrap();
    assert_eq!(raster.get_band_format(1), Format::Rf);
    // A non-existent band index resolves to Unknown rather than panicking.
    assert_eq!(raster.get_band_format(99), Format::Unknown);
}

#[test]
fn mixed_and_unknown_band_types() {
    let mixed = RasterDatasetInfo {
        raster_size: (8, 8),
        band_types: vec![Some(BandDataType::Float32), Some(BandDataType::Float64)],
    };
    assert_eq!(get_format_for_gdal_dataset(&mixed).unwrap(), Format::Mixed);
    let byte_and_unreadable = RasterDatasetInfo {
        raster_size: (8, 8),
        band_types: vec![Some(BandDataType::UInt8), None],
    };
    assert_eq!(get_format_for_gdal_dataset(&byte_and_unreadable).unwrap(), Format::Mixed);
    // Four byte-typed first bands are RGBA whatever the other bands are.
    let four = RasterDatasetInfo {
        raster_size: (8, 8),
        band_types: vec![Some(BandDataType::UInt8), Some(BandDataType::Int16), None, None],
    };
    assert_eq!(get_format_for_gdal_dataset(&four).unwrap(), Format::Rgba);
    let int16 = mem_dataset(BandDataType::Int16, 1);
    assert_eq!(get_format_for_gdal_dataset(&int16).unwrap(), Format::Unknown);
}

#[test]
fn missing_first_band_is_an_error() {
    let empty = RasterDatasetInfo { raster_size: (8, 8), band_types: vec![] };
    assert_eq!(get_format_for_gdal_dataset(&empty), Err(RasterError::BandUnavailable(1)));
    let unreadable = RasterDatasetInfo { raster_size: (8, 8), band_types: vec![None] };
    assert!(GeoRaster::new(unreadable, 0, 0, 8, 8, Resampling::Bilinear).is_err());
}

#[test]
fn window_inside_raster_is_unchanged() {
    let raster = GeoRaster::new(mem_dataset(BandDataType::UInt8, 1), 2, 3, 4, 4, Resampling::Bilinear).unwrap();
    let helper = raster.get_raster_io_helper();
    assert_eq!(helper.clamped_pixel_offset_x, 2);
    assert_eq!(helper.clamped_pixel_offset_y, 3);
    assert_eq!(helper.usable_width, 4);
    assert_eq!(helper.usable_height, 4);
    assert_eq!(helper.min_raster_size, 8);
}

#[test]
fn window_is_cut_at_raster_edges() {
    let dataset = RasterDatasetInfo { raster_size: (10, 6), band_types: vec![Some(BandDataType::UInt8)] };
    let raster = GeoRaster::new(dataset, -3, 4, 5, 5, Resampling::Cubic).unwrap();
    let helper = raster.get_raster_io_helper();
    assert_eq!(helper.clamped_pixel_offset_x, 0);
    assert_eq!(helper.usable_width, 2); // columns 0 and 1 of [-3, 2)
    assert_eq!(helper.clamped_pixel_offset_y, 4);
    assert_eq!(helper.usable_height, 2); // rows 4 and 5 of [4, 9)
    assert_eq!(helper.min_raster_size, 6);
    // A window larger than the raster on both sides keeps only the raster.
    let dataset = RasterDatasetInfo { raster_size: (4, 4), band_types: vec![Some(BandDataType::UInt8)] };
    let raster = GeoRaster::new(dataset, -2, -2, 10, 10, Resampling::Cubic).unwrap();
    let helper = raster.get_raster_io_helper();
    assert_eq!(helper.usable_width, 4);
    assert_eq!(helper.usable_height, 4);
}

#[test]
fn read_resampling_is_nearest_when_shrinking() {
    let small = GeoRaster::new(mem_dataset(BandDataType::UInt8, 1), 0, 0, 8, 4, Resampling::Cubic).unwrap();
    assert_eq!(small.read_resampling(), Resampling::NearestNeighbour);
    let large = GeoRaster::new(mem_dataset(BandDataType::UInt8, 1), 0, 0, 4, 8, Resampling::Cubic).unwrap();
    assert_eq!(large.read_resampling(), Resampling::Cubic);
}

#[test]
fn array_band_counts_follow_format() {
    let rgb = GeoRaster::new(mem_dataset(BandDataType::UInt8, 3), 0, 0, 4, 2, Resampling::Bilinear).unwrap();
    assert_eq!(rgb.array_band_count(), Ok(3));
    let rf = GeoRaster::new(mem_dataset(BandDataType::Float64, 1), 0, 0, 4, 2, Resampling::Bilinear).unwrap();
    assert_eq!(rf.array_band_count(), Ok(1));
    let outside = GeoRaster::new(mem_dataset(BandDataType::UInt8, 3), 20, 0, 4, 2, Resampling::Bilinear).unwrap();
    assert_eq!(outside.array_band_count(), Ok(0));
    let unknown = GeoRaster::new(mem_dataset(BandDataType::Int32, 1), 0, 0, 4, 2, Resampling::Bilinear).unwrap();
    assert_eq!(unknown.array_band_count(), Err(RasterError::FormatNotReadable(Format::Unknown)));
}

#[test]
fn bands_are_interleaved_pixel_by_pixel() {
    let rgb = GeoRaster::new(mem_dataset(BandDataType::UInt8, 3), 0, 0, 4, 2, Resampling::Bilinear).unwrap();
    let bands = vec![vec![1u8, 2, 3, 4], vec![10u8, 20, 30, 40], vec![100u8, 200, 250, 255]];
    // Three values per pixel, pixel by pixel.
    assert_eq!(
        rgb.get_as_array(0u8, &bands),
        vec![1, 10, 100, 2, 20, 200, 3, 30, 250, 4, 40, 255]
    );
    let rgba = GeoRaster::new(mem_dataset(BandDataType::UInt8, 4), 0, 0, 4, 1, Resampling::Bilinear).unwrap();
    assert_eq!(rgba.get_as_array(0u8, &vec![vec![1u8], vec![2u8], vec![3u8], vec![4u8]]), vec![1, 2, 3, 4]);
    let rgb_outside = GeoRaster::new(mem_dataset(BandDataType::UInt8, 3), 50, 50, 4, 2, Resampling::Bilinear).unwrap();
    assert_eq!(rgb_outside.get_as_array(0u8, &vec![]), vec![0u8; 12]);
    let byte = GeoRaster::new(mem_dataset(BandDataType::UInt8, 1), 0, 0, 4, 2, Resampling::Bilinear).unwrap();
    assert_eq!(byte.get_as_array(0u8, &vec![vec![5u8, 6, 7, 8]]), vec![5, 6, 7, 8]);
    let outside = GeoRaster::new(mem_dataset(BandDataType::UInt8, 1), 50, 50, 4, 2, Resampling::Bilinear).unwrap();
    assert_eq!(outside.get_as_array(9u8, &vec![]), vec![9, 9, 9, 9]);
}

#[test]
fn band_reads_depend_on_band_format() {
    let raster = GeoRaster::new(
        RasterDatasetInfo {
            raster_size: (8, 8),
            band_types: vec![Some(BandDataType::UInt8), Some(BandDataType::Int16)],
        },
        0,
        0,
        4,
        4,
        Resampling::Bilinear,
    )
    .unwrap();
    assert_eq!(raster.band_array_needs_read(1), Ok(true));
    assert_eq!(raster.band_array_needs_read(2), Err(RasterError::BandFormatNotSupported(Format::Unknown)));
    assert_eq!(raster.band_array_needs_read(0), Err(RasterError::BandFormatNotSupported(Format::Unknown)));
    let outside = GeoRaster::new(mem_dataset(BandDataType::UInt8, 1), -9, 0, 4, 4, Resampling::Bilinear).unwrap();
    assert_eq!(outside.band_array_needs_read(1), Ok(false));
}

#[test]
fn histogram_counts_first_channel_of_each_pixel() {
    let rgb = GeoRaster::new(mem_dataset(BandDataType::UInt8, 3), 0, 0, 4, 2, Resampling::Bilinear).unwrap();
    let samples = vec![5u64, 1, 1, 5, 2, 2, 7, 3, 3];
    let histogram = rgb.get_histogram(&samples);
    assert_eq!(histogram.len(), HISTOGRAM_BINS);
    assert_eq!(histogram[5], 2);
    assert_eq!(histogram[7], 1);
    assert_eq!(histogram[1], 0);
    assert_eq!(histogram.iter().sum::<u64>(), 3);
}

#[test]
fn histogram_ignores_values_beyond_last_bin() {
    let histogram = histogram_of_samples(&vec![10999, 11000, 50000, 0], 1);
    assert_eq!(histogram[10999], 1);
    assert_eq!(histogram[0], 1);
    assert_eq!(histogram.iter().sum::<u64>(), 2);
}

#[test]
fn most_common_takes_largest_bins_last_of_ties_first() {
    let histogram = vec![3u64, 5, 1, 5, 0];
    assert_eq!(most_common_of_histogram(histogram.clone(), 0), Vec::<i64>::new());
    assert_eq!(most_common_of_histogram(histogram.clone(), 3), vec![3, 1, 0]);
    // Once all bins are empty, the last bin is taken again and again.
    assert_eq!(most_common_of_histogram(histogram, 6), vec![3, 1, 0, 2, 4, 4]);
}

#[test]
fn raster_most_common_values() {
    let byte = GeoRaster::new(mem_dataset(BandDataType::UInt8, 1), 0, 0, 4, 2, Resampling::Bilinear).unwrap();
    let samples = vec![9u64, 4, 9, 4, 9, 1];
    assert_eq!(byte.get_most_common(&samples, 2), vec![9, 4]);
}

#[test]
fn write_targets_by_band_type() {
    assert_eq!(RasterTileExtractor::write_targets(BandDataType::Float32, 1, 1), Ok(vec![(1, 0)]));
    assert_eq!(RasterTileExtractor::write_targets(BandDataType::Float64, 3, 1), Ok(vec![(1, 0)]));
    assert_eq!(
        RasterTileExtractor::write_targets(BandDataType::UInt8, 3, 3),
        Ok(vec![(1, 0), (2, 1), (3, 2)])
    );
    assert_eq!(
        RasterTileExtractor::write_targets(BandDataType::Int16, 1, 1),
        Err(RasterError::UnsupportedDataType(BandDataType::Int16))
    );
}

#[test]
fn write_targets_refuse_values_not_fitting_the_raster() {
    // A color (three values) does not fill an RGBA raster's four bands.
    assert_eq!(
        RasterTileExtractor::write_targets(BandDataType::UInt8, 4, 3),
        Err(RasterError::WrongValueCount(4, 3))
    );
    assert_eq!(
        RasterTileExtractor::write_targets(BandDataType::Float32, 1, 2),
        Err(RasterError::WrongValueCount(1, 2))
    );
    assert_eq!(
        RasterTileExtractor::write_targets(BandDataType::UInt8, 1, 3),
        Ok(vec![(1, 0)])
    );
}
