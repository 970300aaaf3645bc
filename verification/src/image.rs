//! Image-side logic: which engine image format raster data becomes, pixel
//! indexing, and the most common values of single-band byte images.
use vstd::prelude::*;
use vstd::string::StringExecFns;
use crate::error::GeodotError;
use crate::raster::{Format, last_argmax, lemma_last_argmax, highest_index};

verus! {

/// The engine image formats the raster logic produces or inspects; `Other`
/// stands for every format it does not handle.
#[derive(Debug, PartialEq, Eq, Structural, Copy, Clone)]
pub enum ImageFormat {
    R8,
    Rf,
    Rgb8,
    Rgba8,
    Max,
    Other,
}

/// The image format raster data of a format is shown as; `Max` (no usable
/// format) for mixed and unknown rasters.
pub open spec fn image_format_of(format: Format) -> ImageFormat {
    match format {
        Format::Byte => ImageFormat::R8,
        Format::Rf => ImageFormat::Rf,
        Format::Rgb => ImageFormat::Rgb8,
        Format::Rgba => ImageFormat::Rgba8,
        Format::Mixed | Format::Unknown => ImageFormat::Max,
    }
}

impl Format {
    /// The image format data of this format is shown as (`Max` for mixed and
    /// unknown rasters).
    pub fn image_format(self) -> (r: ImageFormat)
        ensures
            r == image_format_of(self),
    {
        match self {
            Format::Byte => ImageFormat::R8,
            Format::Rf => ImageFormat::Rf,
            Format::Rgb => ImageFormat::Rgb8,
            Format::Rgba => ImageFormat::Rgba8,
            Format::Mixed | Format::Unknown => ImageFormat::Max,
        }
    }
}

/// The image format a whole raster tile is turned into, or why it cannot be.
pub fn image_format_for_raster(format: Format) -> (r: Result<ImageFormat, GeodotError>)
    ensures
        format != Format::Mixed && format != Format::Unknown ==> r == Ok::<
            ImageFormat,
            GeodotError,
        >(image_format_of(format)),
        format == Format::Mixed ==> (r matches Err(GeodotError::UnsupportedFormat(m)) && m@
            == "Mixed format. Not yet supported."@),
        format == Format::Unknown ==> (r matches Err(GeodotError::UnsupportedFormat(m)) && m@
            == "Unknown data type. Not supported."@),
{
    match format {
        Format::Mixed => Err(
            GeodotError::UnsupportedFormat(String::from_str("Mixed format. Not yet supported.")),
        ),
        Format::Unknown => Err(
            GeodotError::UnsupportedFormat(String::from_str("Unknown data type. Not supported.")),
        ),
        f => Ok(f.image_format()),
    }
}

/// The image format a single band is turned into: byte and float bands only.
pub fn image_format_for_band(band_format: Format) -> (r: Result<ImageFormat, GeodotError>)
    ensures
        band_format == Format::Rf ==> r == Ok::<ImageFormat, GeodotError>(ImageFormat::Rf),
        band_format == Format::Byte ==> r == Ok::<ImageFormat, GeodotError>(ImageFormat::R8),
        band_format != Format::Rf && band_format != Format::Byte ==> (r matches Err(
            GeodotError::UnsupportedFormat(m),
        ) && m@ == "Unknown format for band."@),
{
    match band_format {
        Format::Rf => Ok(ImageFormat::Rf),
        Format::Byte => Ok(ImageFormat::R8),
        _ => Err(GeodotError::UnsupportedFormat(String::from_str("Unknown format for band."))),
    }
}

/// `v` moved into `[lo, hi]`.
pub open spec fn clamp(v: int, lo: int, hi: int) -> int {
    if v < lo {
        lo
    } else if v > hi {
        hi
    } else {
        v
    }
}

/// Row-major index of the pixel at `(x, y)`, with coordinates moved onto the
/// image first.
pub fn xy_to_index(x: i32, y: i32, width: i32, height: i32) -> (r: usize)
    requires
        width >= 1,
        height >= 1,
        width * height <= i32::MAX,
    ensures
        r == clamp(y as int, 0, height - 1) * width + clamp(x as int, 0, width - 1),
        r < width * height,
{
    let x = if x < 0 {
        0
    } else if x > width - 1 {
        width - 1
    } else {
        x
    };
    let y = if y < 0 {
        0
    } else if y > height - 1 {
        height - 1
    } else {
        y
    };
    assert(0 <= y * width + x < width * height) by (nonlinear_arith)
        requires
            0 <= x < width,
            0 <= y < height,
    ;
    (y * width + x) as usize
}

/// How often byte value `v` occurs in `s`.
pub open spec fn byte_count(s: Seq<u8>, v: int) -> nat
    decreases s.len(),
{
    if s.len() == 0 {
        0
    } else {
        byte_count(s.drop_last(), v) + (if s.last() == v {
            1nat
        } else {
            0nat
        })
    }
}

/// The 256-bin histogram of a byte sequence.
pub open spec fn byte_histogram(s: Seq<u8>) -> Seq<u64> {
    Seq::new(256, |v: int| byte_count(s, v) as u64)
}

/// The values taken one after another as the current largest bin (the last
/// of equal ones) for at most `k` steps: stops at an empty largest bin,
/// empties each taken bin, and leaves value 0 out of the result.
pub open spec fn image_picks(h: Seq<u64>, k: nat) -> Seq<i64>
    decreases k,
{
    if k == 0 {
        Seq::empty()
    } else {
        let i = last_argmax(h);
        if h[i] == 0 {
            Seq::empty()
        } else {
            let rest = image_picks(h.update(i, 0), (k - 1) as nat);
            if i == 0 {
                rest
            } else {
                seq![i as i64] + rest
            }
        }
    }
}

/// A byte occurs at most as often as the sequence is long.
pub proof fn lemma_byte_count_le_len(s: Seq<u8>, v: int)
    ensures
        byte_count(s, v) <= s.len(),
    decreases s.len(),
{
    if s.len() > 0 {
        lemma_byte_count_le_len(s.drop_last(), v);
    }
}

/// Every value image_picks yields is a distinct index with a nonempty bin
/// other than 0.
pub proof fn lemma_image_picks_distinct(h: Seq<u64>, k: nat)
    requires
        0 < h.len() <= i64::MAX,
    ensures
        forall|a: int| 0 <= a < image_picks(h, k).len() ==> {
            let v = #[trigger] image_picks(h, k)[a];
            &&& 1 <= v < h.len()
            &&& h[v as int] > 0
        },
        forall|a: int, b: int|
            0 <= a < b < image_picks(h, k).len() ==> image_picks(h, k)[a] != image_picks(
                h,
                k,
            )[b],
    decreases k,
{
    if k > 0 {
        lemma_last_argmax(h);
        let i = last_argmax(h);
        if h[i] != 0 {
            let h2 = h.update(i, 0);
            lemma_image_picks_distinct(h2, (k - 1) as nat);
            let rest = image_picks(h2, (k - 1) as nat);
            assert forall|a: int| 0 <= a < rest.len() implies #[trigger] rest[a] != i && h[rest[a] as int] > 0 by {
                assert(h2[rest[a] as int] > 0);
            }
            if i != 0 {
                let all = seq![i as i64] + rest;
                assert(all == image_picks(h, k));
                assert forall|a: int, b: int| 0 <= a < b < all.len() implies all[a] != all[b] by {
                    if a == 0 {
                        assert(all[b] == rest[b - 1]);
                    } else {
                        assert(all[a] == rest[a - 1]);
                        assert(all[b] == rest[b - 1]);
                    }
                }
                assert forall|a: int| 0 <= a < all.len() implies {
                    let v = #[trigger] all[a];
                    &&& 1 <= v < h.len()
                    &&& h[v as int] > 0
                } by {
                    if a > 0 {
                        assert(all[a] == rest[a - 1]);
                        let w = rest[a - 1];
                        assert(1 <= w < h2.len() && h2[w as int] > 0);
                        assert(w != i);
                    } else {
                        assert(all[a] == i as i64);
                    }
                }
            }
        }
    }
}

/// The most common values of a single-band byte image, most frequent first:
/// at most `number_of_entries` steps each take the largest remaining value
/// count (the largest value among equal counts) and stop once no value is
/// left; value 0 takes a step but is never reported. Other image formats
/// yield nothing.
pub fn most_common_byte_values(format: ImageFormat, data: &Vec<u8>, number_of_entries: i64) -> (r:
    Vec<i64>)
    ensures
        format != ImageFormat::R8 ==> r@.len() == 0,
        format == ImageFormat::R8 ==> r@ == image_picks(
            byte_histogram(data@),
            (if number_of_entries < 0 {
                0
            } else {
                number_of_entries
            }) as nat,
        ),
{
    let mut result: Vec<i64> = Vec::new();
    if format != ImageFormat::R8 {
        return result;
    }
    let mut histogram: Vec<u64> = Vec::new();
    let mut b: usize = 0;
    while b < 256
        invariant
            b <= 256,
            histogram@.len() == b,
            forall|v: int| 0 <= v < b ==> histogram@[v] == 0,
        decreases 256 - b,
    {
        histogram.push(0);
        b = b + 1;
    }
    let n = data.len();
    let mut i: usize = 0;
    while i < n
        invariant
            n == data@.len(),
            i <= n,
            histogram@.len() == 256,
            forall|v: int|
                0 <= v < 256 ==> #[trigger] histogram@[v] == byte_count(
                    data@.subrange(0, i as int),
                    v,
                ),
        decreases n - i,
    {
        let value = data[i];
        let ghost before = data@.subrange(0, i as int);
        assert(data@.subrange(0, i as int + 1).drop_last() =~= before);
        proof {
            lemma_byte_count_le_len(before, value as int);
        }
        let bin = value as usize;
        let count = histogram[bin];
        histogram.set(bin, count + 1);
        i = i + 1;
    }
    assert(data@.subrange(0, n as int) =~= data@);
    assert(histogram@ =~= byte_histogram(data@));
    let steps: i64 = if number_of_entries < 0 {
        0
    } else {
        number_of_entries
    };
    let ghost counted = histogram@;
    let mut k: i64 = 0;
    while k < steps
        invariant
            0 <= k <= steps,
            format == ImageFormat::R8,
            counted == byte_histogram(data@),
            steps == (if number_of_entries < 0 {
                0
            } else {
                number_of_entries
            }),
            histogram@.len() == 256,
            result@ + image_picks(histogram@, (steps - k) as nat) == image_picks(
                counted,
                steps as nat,
            ),
        decreases steps - k,
    {
        let ghost current = histogram@;
        let index = highest_index(&histogram);
        proof {
            lemma_last_argmax(histogram@);
        }
        let count = histogram[index];
        if count == 0 {
            assert(image_picks(current, (steps - k) as nat) =~= Seq::<i64>::empty());
            assert(result@ + Seq::<i64>::empty() =~= result@);
            return result;
        }
        histogram.set(index, 0);
        if index != 0 {
            result.push(index as i64);
            assert(result@ + image_picks(histogram@, (steps - k - 1) as nat) =~= result@.drop_last()
                + image_picks(current, (steps - k) as nat));
        }
        k = k + 1;
    }
    assert(result@ + image_picks(histogram@, 0) =~= result@);
    result
}

} // verus!
