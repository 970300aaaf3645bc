//! Layer-level decisions: ids of newly created features, which feature class
//! a geometry is shown as, and what a value or image written into a raster
//! layer is treated as.
use vstd::prelude::*;
use crate::geometry::GeometryType;
use crate::image::ImageFormat;

verus! {

/// Tracks the ids of features created in memory on top of those on disk, so
/// that each created feature gets an id not used before.
pub struct FeatureIdCounter {
    disk_feature_count: u64,
    ram_feature_count: u64,
}

/// The ids counted so far: features on disk (plus ids skipped because they
/// were taken) and features created in memory.
pub struct FeatureIdCounts {
    pub disk: int,
    pub ram: int,
}

/// One allocation: the id handed out is at or past where the search
/// started (the disk count plus the memory count), the ids skipped on the way
/// join the disk count, and the created feature joins the memory count.
pub open spec fn allocation_step(before: FeatureIdCounts, after: FeatureIdCounts, id: int) -> bool {
    &&& before.disk + before.ram <= id
    &&& after.disk == before.disk + (id - (before.disk + before.ram))
    &&& after.ram == before.ram + 1
}

impl View for FeatureIdCounter {
    type V = FeatureIdCounts;

    closed spec fn view(&self) -> FeatureIdCounts {
        FeatureIdCounts { disk: self.disk_feature_count as int, ram: self.ram_feature_count as int }
    }
}

impl FeatureIdCounter {
    #[verifier::type_invariant]
    closed spec fn sum_fits(self) -> bool {
        self.disk_feature_count + self.ram_feature_count <= u64::MAX
    }

    /// A counter for a layer holding `disk_feature_count` features.
    pub fn new(disk_feature_count: u64) -> (r: FeatureIdCounter)
        ensures
            r@.disk == disk_feature_count,
            r@.ram == 0,
    {
        FeatureIdCounter { disk_feature_count, ram_feature_count: 0 }
    }

    /// The first id tried for the next created feature.
    pub fn next_candidate(&self) -> (r: u64)
        ensures
            r == self@.disk + self@.ram,
    {
        proof {
            use_type_invariant(self);
        }
        self.disk_feature_count + self.ram_feature_count
    }

    /// Finds the id of a new feature: starting at the disk count plus the
    /// number of features created so far, ids reported taken are skipped.
    /// The skipped ids are added to the disk count and the created feature to
    /// the memory count. `None` when every id below `u64::MAX` from the start
    /// on is reported taken.
    pub fn allocate_id<F: Fn(u64) -> bool>(&mut self, is_taken: F) -> (r: Option<u64>)
        requires
            forall|id: u64| is_taken.requires((id,)),
        ensures
            ({
                let base = old(self)@.disk + old(self)@.ram;
                match r {
                    Some(id) => {
                        &&& base <= id < u64::MAX
                        &&& is_taken.ensures((id,), false)
                        &&& forall|i: u64| base <= i < id ==> is_taken.ensures((i,), true)
                        &&& allocation_step(old(self)@, final(self)@, id as int)
                    },
                    None => {
                        &&& final(self)@ == old(self)@
                        &&& forall|i: u64| base <= i < u64::MAX ==> is_taken.ensures((i,), true)
                    },
                }
            }),
    {
        proof {
            use_type_invariant(&*self);
        }
        let base = self.disk_feature_count + self.ram_feature_count;
        let mut id = base;
        loop
            invariant
                base == old(self)@.disk + old(self)@.ram,
                base <= id,
                forall|i: u64| is_taken.requires((i,)),
                forall|i: u64| base <= i < id ==> is_taken.ensures((i,), true),
                *self == *old(self),
            ensures
                forall|i: u64| base <= i < id ==> is_taken.ensures((i,), true),
                base <= id < u64::MAX,
                is_taken.ensures((id,), false),
                *self == *old(self),
            decreases u64::MAX - id,
        {
            if id == u64::MAX {
                return None;
            }
            let taken = is_taken(id);
            if !taken {
                break ;
            }
            id = id + 1;
        }
        let skipped = id - base;
        self.disk_feature_count = self.disk_feature_count + skipped;
        self.ram_feature_count = self.ram_feature_count + 1;
        Some(id)
    }
}

/// The engine-side feature class a feature is shown as.
#[derive(Debug, PartialEq, Eq, Structural, Copy, Clone)]
pub enum FeatureClass {
    Point,
    Line,
    Polygon,
    General,
}

/// Points, lines and polygons get their own classes; everything else is a
/// general feature.
pub open spec fn feature_class_of(g: GeometryType) -> FeatureClass {
    match g {
        GeometryType::Point => FeatureClass::Point,
        GeometryType::Line => FeatureClass::Line,
        GeometryType::Polygon => FeatureClass::Polygon,
        _ => FeatureClass::General,
    }
}

impl GeometryType {
    /// The feature class a feature of this geometry type is shown as.
    pub fn feature_class(self) -> (r: FeatureClass)
        ensures
            r == feature_class_of(self),
    {
        match self {
            GeometryType::Point => FeatureClass::Point,
            GeometryType::Line => FeatureClass::Line,
            GeometryType::Polygon => FeatureClass::Polygon,
            _ => FeatureClass::General,
        }
    }
}

/// Well-known-binary code of a point geometry.
pub const WKB_POINT: u32 = 1;

/// Well-known-binary code of a line string geometry.
pub const WKB_LINE_STRING: u32 = 2;

/// Well-known-binary code of a polygon geometry.
pub const WKB_POLYGON: u32 = 3;

/// The kind of feature created on a layer whose geometry type has the given
/// well-known-binary code: points, line strings and polygons get their own
/// kind, anything else a general feature.
pub fn feature_class_for_layer_geometry(wkb_geometry_type: u32) -> (r: FeatureClass)
    ensures
        r == (if wkb_geometry_type == WKB_POINT {
            FeatureClass::Point
        } else if wkb_geometry_type == WKB_LINE_STRING {
            FeatureClass::Line
        } else if wkb_geometry_type == WKB_POLYGON {
            FeatureClass::Polygon
        } else {
            FeatureClass::General
        }),
{
    if wkb_geometry_type == WKB_POINT {
        FeatureClass::Point
    } else if wkb_geometry_type == WKB_LINE_STRING {
        FeatureClass::Line
    } else if wkb_geometry_type == WKB_POLYGON {
        FeatureClass::Polygon
    } else {
        FeatureClass::General
    }
}

/// The kind of engine value handed in for writing into a raster layer.
#[derive(Debug, PartialEq, Eq, Structural, Copy, Clone)]
pub enum ValueKind {
    Float,
    Color,
    Int,
    Other,
}

/// How a value is written into a raster layer, or that it does not fit.
#[derive(Debug, PartialEq, Eq, Structural, Copy, Clone)]
pub enum ValueWrite {
    /// One float into a float layer.
    Float,
    /// The red, green and blue channels into an RGB or RGBA layer.
    Color,
    /// One byte into a single-band byte layer.
    Int,
    /// The value's kind does not fit the layer's format.
    Mismatch,
}

/// Floats go into float layers, colors into RGB(A) layers, integers into
/// single-band byte layers; anything else is a mismatch.
pub fn value_write_for(value: ValueKind, layer_format: ImageFormat) -> (r: ValueWrite)
    ensures
        r == (match (value, layer_format) {
            (ValueKind::Float, ImageFormat::Rf) => ValueWrite::Float,
            (ValueKind::Color, ImageFormat::Rgb8) => ValueWrite::Color,
            (ValueKind::Color, ImageFormat::Rgba8) => ValueWrite::Color,
            (ValueKind::Int, ImageFormat::R8) => ValueWrite::Int,
            _ => ValueWrite::Mismatch,
        }),
{
    match (value, layer_format) {
        (ValueKind::Float, ImageFormat::Rf) => ValueWrite::Float,
        (ValueKind::Color, ImageFormat::Rgb8) => ValueWrite::Color,
        (ValueKind::Color, ImageFormat::Rgba8) => ValueWrite::Color,
        (ValueKind::Int, ImageFormat::R8) => ValueWrite::Int,
        _ => ValueWrite::Mismatch,
    }
}

/// How the pixels of an image drawn onto a raster layer are read.
#[derive(Debug, PartialEq, Eq, Structural, Copy, Clone)]
pub enum OverlayRead {
    /// One byte per pixel, written as an integer.
    Byte,
    /// Three bytes per pixel, written as a color.
    Rgb,
    /// Four bytes per pixel, written as a color with alpha.
    Rgba,
    /// A four-byte float per pixel, written as a float.
    Float,
}

/// Bytes per pixel of an overlay read.
pub open spec fn overlay_stride(o: OverlayRead) -> int {
    match o {
        OverlayRead::Byte => 1,
        OverlayRead::Rgb => 3,
        OverlayRead::Rgba => 4,
        OverlayRead::Float => 4,
    }
}

impl OverlayRead {
    /// Bytes per pixel of this read.
    pub fn stride(self) -> (r: usize)
        ensures
            r == overlay_stride(self),
    {
        match self {
            OverlayRead::Byte => 1,
            OverlayRead::Rgb => 3,
            OverlayRead::Rgba => 4,
            OverlayRead::Float => 4,
        }
    }
}

/// Which read an image of `image_format` drawn onto a layer of
/// `layer_format` gets: byte images onto byte layers, RGB and RGBA images
/// onto RGB(A) layers, float images onto float layers; `None` otherwise.
pub fn overlay_read_for(image_format: ImageFormat, layer_format: ImageFormat) -> (r: Option<
    OverlayRead,
>)
    ensures
        r == (match (image_format, layer_format) {
            (ImageFormat::R8, ImageFormat::R8) => Some(OverlayRead::Byte),
            (ImageFormat::Rgb8, ImageFormat::Rgb8) => Some(OverlayRead::Rgb),
            (ImageFormat::Rgb8, ImageFormat::Rgba8) => Some(OverlayRead::Rgb),
            (ImageFormat::Rgba8, ImageFormat::Rgb8) => Some(OverlayRead::Rgba),
            (ImageFormat::Rgba8, ImageFormat::Rgba8) => Some(OverlayRead::Rgba),
            (ImageFormat::Rf, ImageFormat::Rf) => Some(OverlayRead::Float),
            _ => None,
        }),
{
    match (image_format, layer_format) {
        (ImageFormat::R8, ImageFormat::R8) => Some(OverlayRead::Byte),
        (ImageFormat::Rgb8, ImageFormat::Rgb8) => Some(OverlayRead::Rgb),
        (ImageFormat::Rgb8, ImageFormat::Rgba8) => Some(OverlayRead::Rgb),
        (ImageFormat::Rgba8, ImageFormat::Rgb8) => Some(OverlayRead::Rgba),
        (ImageFormat::Rgba8, ImageFormat::Rgba8) => Some(OverlayRead::Rgba),
        (ImageFormat::Rf, ImageFormat::Rf) => Some(OverlayRead::Float),
        _ => None,
    }
}

/// The EPSG code a raster layer reports: -1 for an invalid layer, -2 when
/// its dataset has no EPSG code.
pub fn raster_layer_epsg_code(is_valid: bool, dataset_code: Option<i32>) -> (r: i64)
    ensures
        r == (if !is_valid {
            -1
        } else {
            match dataset_code {
                Some(c) => c as int,
                None => -2,
            }
        }),
{
    if !is_valid {
        -1
    } else {
        match dataset_code {
            Some(c) => c as i64,
            None => -2,
        }
    }
}

/// The EPSG code a feature layer reports: -1 for an invalid layer or origin
/// dataset and when the dataset has no EPSG code.
pub fn feature_layer_epsg_code(is_valid: bool, dataset_code: Option<i32>) -> (r: i32)
    ensures
        r == (if !is_valid {
            -1i32
        } else {
            match dataset_code {
                Some(c) => c,
                None => -1i32,
            }
        }),
{
    if !is_valid {
        -1
    } else {
        match dataset_code {
            Some(c) => c,
            None => -1,
        }
    }
}

} // verus!
