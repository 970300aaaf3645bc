//! Verified core of a GDAL/Godot geodata plugin: geometry classification,
//! feature records, raster window arithmetic, band assembly, histograms and
//! the decisions the engine-facing layer takes on their results.
mod text;
pub mod attributes;
pub mod geometry;
pub mod features;
pub mod raster;
pub mod error;
pub mod interpolation;
pub mod image;
pub mod dataset;
pub mod layer;
pub mod laws;

pub use attributes::AttributeMap;
pub use dataset::{epsg_code_from_authority, raster_layer_names, subdataset_layer_name, subdataset_path};
pub use error::GeodotError;
pub use features::{DynFeatureHolder, Feature, FeatureIdentity, FeatureState, UnknownFeature};
pub use geometry::GeometryType;
pub use image::{ImageFormat, most_common_byte_values, xy_to_index};
pub use interpolation::Interpolation;
pub use layer::{FeatureClass, FeatureIdCounter, OverlayRead, ValueKind, ValueWrite};
pub use raster::{
    BandDataType, Format, GeoRaster, RasterDatasetInfo, RasterError, RasterIOHelper,
    RasterTileExtractor, Resampling,
};
