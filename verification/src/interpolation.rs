//! The interpolation modes a raster tile can be requested with.
use vstd::prelude::*;
use vstd::string::StringExecFns;
use crate::text::{append_decimal, decimal};

verus! {

/// How pixel values are interpolated when a raster window is resampled.
#[derive(Debug, PartialEq, Eq, Structural, Copy, Clone)]
pub enum Interpolation {
    NearestNeighbour,
    Bilinear,
    Cubic,
    CubicSpline,
    Lanczos,
    Average,
    Mode,
    Max,
    Min,
    Med,
    Q1,
    Q2,
}

/// All interpolation modes, in their fixed order.
pub open spec fn interpolation_order() -> Seq<Interpolation> {
    seq![
        Interpolation::NearestNeighbour,
        Interpolation::Bilinear,
        Interpolation::Cubic,
        Interpolation::CubicSpline,
        Interpolation::Lanczos,
        Interpolation::Average,
        Interpolation::Mode,
        Interpolation::Max,
        Interpolation::Min,
        Interpolation::Med,
        Interpolation::Q1,
        Interpolation::Q2,
    ]
}

/// The name a mode is known by (its variant name).
pub open spec fn interpolation_name(i: Interpolation) -> Seq<char> {
    match i {
        Interpolation::NearestNeighbour => "NearestNeighbour"@,
        Interpolation::Bilinear => "Bilinear"@,
        Interpolation::Cubic => "Cubic"@,
        Interpolation::CubicSpline => "CubicSpline"@,
        Interpolation::Lanczos => "Lanczos"@,
        Interpolation::Average => "Average"@,
        Interpolation::Mode => "Mode"@,
        Interpolation::Max => "Max"@,
        Interpolation::Min => "Min"@,
        Interpolation::Med => "Med"@,
        Interpolation::Q1 => "Q1"@,
        Interpolation::Q2 => "Q2"@,
    }
}

/// The message of a failed conversion from an out-of-range index.
pub open spec fn out_of_range_message(value: nat) -> Seq<char> {
    "Value '"@ + decimal(value)
        + "' is not a possible value from [NearestNeighbour, Bilinear, Cubic, CubicSpline, Lanczos, Average, Mode, Max, Min, Med, Q1, Q2]"@
}

impl Default for Interpolation {
    fn default() -> (r: Self)
        ensures
            r == Interpolation::NearestNeighbour,
    {
        Interpolation::NearestNeighbour
    }
}

impl Interpolation {
    /// All modes, in their fixed order.
    pub fn iter() -> (r: Vec<Interpolation>)
        ensures
            r@ == interpolation_order(),
    {
        let r = vec![
            Interpolation::NearestNeighbour,
            Interpolation::Bilinear,
            Interpolation::Cubic,
            Interpolation::CubicSpline,
            Interpolation::Lanczos,
            Interpolation::Average,
            Interpolation::Mode,
            Interpolation::Max,
            Interpolation::Min,
            Interpolation::Med,
            Interpolation::Q1,
            Interpolation::Q2,
        ];
        assert(r@ =~= interpolation_order());
        r
    }

    /// The mode at the given position of the fixed order, or a message naming
    /// the value and all modes.
    pub fn try_from_usize(value: usize) -> (r: Result<Self, String>)
        ensures
            r is Ok <==> value < 12,
            r matches Ok(i) ==> i == interpolation_order()[value as int],
            r matches Err(m) ==> m@ == out_of_range_message(value as nat),
    {
        let all = Self::iter();
        if value < all.len() {
            return Ok(all[value]);
        }
        let mut message = String::from_str("Value '");
        append_decimal(&mut message, value);
        message.append(
            "' is not a possible value from [NearestNeighbour, Bilinear, Cubic, CubicSpline, Lanczos, Average, Mode, Max, Min, Med, Q1, Q2]",
        );
        Err(message)
    }

    /// The name this mode is known by in the engine and by GDAL's resampling
    /// names: its variant name.
    pub fn name(&self) -> (r: &'static str)
        ensures
            r@ == interpolation_name(*self),
    {
        match self {
            Interpolation::NearestNeighbour => "NearestNeighbour",
            Interpolation::Bilinear => "Bilinear",
            Interpolation::Cubic => "Cubic",
            Interpolation::CubicSpline => "CubicSpline",
            Interpolation::Lanczos => "Lanczos",
            Interpolation::Average => "Average",
            Interpolation::Mode => "Mode",
            Interpolation::Max => "Max",
            Interpolation::Min => "Min",
            Interpolation::Med => "Med",
            Interpolation::Q1 => "Q1",
            Interpolation::Q2 => "Q2",
        }
    }
}

} // verus!
