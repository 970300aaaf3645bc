//! Raster tiles: how a dataset's bands are classified, which window of the
//! raster a tile reads, how band reads are assembled into one array, and the
//! histogram statistics taken over the result.
use vstd::prelude::*;

verus! {

/// The pixel data type of a raster band, as the dataset reports it.
#[derive(Debug, PartialEq, Eq, Structural, Copy, Clone)]
pub enum BandDataType {
    Unknown,
    UInt8,
    Int8,
    UInt16,
    Int16,
    UInt32,
    Int32,
    UInt64,
    Int64,
    Float32,
    Float64,
}

/// How the bands of a raster are interpreted as image data.
#[derive(Debug, PartialEq, Eq, Structural, Copy, Clone)]
pub enum Format {
    Rgb,
    Rgba,
    Rf,
    Byte,
    Mixed,
    Unknown,
}

/// Resampling used when a raster window is read at a different size.
#[derive(Debug, PartialEq, Eq, Structural, Copy, Clone)]
pub enum Resampling {
    NearestNeighbour,
    Bilinear,
    Cubic,
    CubicSpline,
    Lanczos,
    Average,
    Mode,
    Gauss,
}

/// Why a raster operation could not be carried out.
#[derive(Debug, PartialEq, Eq, Structural, Copy, Clone)]
pub enum RasterError {
    /// The band with this (1-based) index could not be opened.
    BandUnavailable(usize),
    /// The raster's format cannot be returned as an array.
    FormatNotReadable(Format),
    /// The requested band's format is not supported.
    BandFormatNotSupported(Format),
    /// Values cannot be written into a band of this data type.
    UnsupportedDataType(BandDataType),
    /// A write needs the first number of values but was given the second.
    WrongValueCount(usize, usize),
}

/// What the tile logic reads of an opened raster dataset: its size in pixels
/// and, for each band in order, its data type (`None` where the band could
/// not be opened).
pub struct RasterDatasetInfo {
    pub raster_size: (usize, usize),
    pub band_types: Vec<Option<BandDataType>>,
}

/// The format a dataset's bands amount to, or `None` where the first band
/// cannot be opened (or there is none).
pub open spec fn format_of_bands(types: Seq<Option<BandDataType>>) -> Option<Format> {
    if types.len() == 0 || types[0] is None {
        None
    } else {
        let first = types[0]->Some_0;
        let mismatch = exists|i: int| 0 <= i < types.len() && types[i] != Some(first);
        Some(
            match first {
                BandDataType::UInt8 => {
                    if types.len() == 4 {
                        Format::Rgba
                    } else if types.len() == 3 {
                        Format::Rgb
                    } else if mismatch {
                        Format::Mixed
                    } else {
                        Format::Byte
                    }
                },
                BandDataType::Float32 | BandDataType::Float64 => {
                    if mismatch {
                        Format::Mixed
                    } else {
                        Format::Rf
                    }
                },
                _ => Format::Unknown,
            },
        )
    }
}

/// The format of a single band of the given data type (`None`: the band
/// could not be opened).
pub open spec fn format_of_band(band: Option<BandDataType>) -> Format {
    match band {
        Some(BandDataType::UInt8) => Format::Byte,
        Some(BandDataType::Float32) => Format::Rf,
        Some(BandDataType::Float64) => Format::Rf,
        _ => Format::Unknown,
    }
}

/// Classifies the bands of a dataset: 4 byte bands are RGBA, 3 are RGB,
/// otherwise byte bands are `Byte` and float bands `Rf` when all bands share
/// the first band's type, `Mixed` when they do not; any other first type is
/// `Unknown`. Fails when the first band cannot be opened.
pub fn get_format_for_gdal_dataset(dataset: &RasterDatasetInfo) -> (r: Result<Format, RasterError>)
    ensures
        r matches Ok(f) ==> format_of_bands(dataset.band_types@) == Some(f),
        r matches Err(e) ==> format_of_bands(dataset.band_types@) is None && e
            == RasterError::BandUnavailable(1),
        r is Ok <==> format_of_bands(dataset.band_types@) is Some,
{
    let types = &dataset.band_types;
    let count = types.len();
    if count == 0 {
        return Err(RasterError::BandUnavailable(1));
    }
    let first = match types[0] {
        Some(t) => t,
        None => {
            return Err(RasterError::BandUnavailable(1));
        },
    };
    let mut mismatch = false;
    let mut i: usize = 0;
    while i < count
        invariant
            count == types@.len(),
            i <= count,
            types@[0] == Some(first),
            mismatch <==> exists|j: int| 0 <= j < i && types@[j] != Some(first),
        decreases count - i,
    {
        let same = match types[i] {
            Some(t) => t == first,
            None => false,
        };
        if !same {
            mismatch = true;
        }
        proof {
            if !same {
                assert(types@[i as int] != Some(first));
            }
            if mismatch && same {
                let j = choose|j: int| 0 <= j < i && types@[j] != Some(first);
                assert(0 <= j < i + 1);
            }
        }
        i = i + 1;
    }
    let format = match first {
        BandDataType::UInt8 => {
            if count == 4 {
                Format::Rgba
            } else if count == 3 {
                Format::Rgb
            } else if mismatch {
                Format::Mixed
            } else {
                Format::Byte
            }
        },
        BandDataType::Float32 | BandDataType::Float64 => {
            if mismatch {
                Format::Mixed
            } else {
                Format::Rf
            }
        },
        _ => Format::Unknown,
    };
    Ok(format)
}

/// Element `j` of an array interleaved from `bands`.
pub open spec fn interleaved_value<T>(bands: Seq<Vec<T>>, fill: T, j: int) -> T {
    if bands.len() == 0 {
        fill
    } else {
        bands[j % (bands.len() as int)]@[j / (bands.len() as int)]
    }
}

/// Number of histogram bins.
pub const HISTOGRAM_BINS: usize = 11000;

/// Distance between the samples of consecutive pixels for a format.
pub open spec fn histogram_step(format: Format) -> int {
    match format {
        Format::Rgb => 3,
        Format::Rgba => 4,
        _ => 1,
    }
}

/// How often `v` occurs in `s`.
pub open spec fn count_of(s: Seq<u64>, v: int) -> nat
    decreases s.len(),
{
    if s.len() == 0 {
        0
    } else {
        count_of(s.drop_last(), v) + (if s.last() == v {
            1nat
        } else {
            0nat
        })
    }
}

/// The samples among the first `i` whose position is a multiple of `step`.
pub open spec fn sampled_upto(s: Seq<u64>, step: int, i: int) -> Seq<u64>
    decreases i,
{
    if i <= 0 {
        Seq::empty()
    } else if (i - 1) % step == 0 {
        sampled_upto(s, step, i - 1).push(s[i - 1])
    } else {
        sampled_upto(s, step, i - 1)
    }
}

/// The histogram of the samples at multiples of `step`.
pub open spec fn histogram_spec(s: Seq<u64>, step: int) -> Seq<u64> {
    Seq::new(
        HISTOGRAM_BINS as nat,
        |v: int| count_of(sampled_upto(s, step, s.len() as int), v) as u64,
    )
}

proof fn lemma_count_le_len(s: Seq<u64>, v: int)
    ensures
        count_of(s, v) <= s.len(),
    decreases s.len(),
{
    if s.len() > 0 {
        lemma_count_le_len(s.drop_last(), v);
    }
}

proof fn lemma_sampled_len(s: Seq<u64>, step: int, i: int)
    ensures
        sampled_upto(s, step, i).len() <= if i < 0 {
            0
        } else {
            i
        },
    decreases i,
{
    if i > 0 {
        lemma_sampled_len(s, step, i - 1);
    }
}

/// Counts the samples at positions that are multiples of `step` into
/// `HISTOGRAM_BINS` bins.
pub fn histogram_of_samples(samples: &Vec<u64>, step: usize) -> (r: Vec<u64>)
    requires
        step >= 1,
    ensures
        r@.len() == HISTOGRAM_BINS,
        forall|v: int|
            0 <= v < HISTOGRAM_BINS ==> #[trigger] r@[v] == count_of(
                sampled_upto(samples@, step as int, samples@.len() as int),
                v,
            ),
{
    let mut result: Vec<u64> = Vec::new();
    let mut b: usize = 0;
    while b < HISTOGRAM_BINS
        invariant
            b <= HISTOGRAM_BINS,
            result@.len() == b,
            forall|v: int| 0 <= v < b ==> result@[v] == 0,
        decreases HISTOGRAM_BINS - b,
    {
        result.push(0);
        b = b + 1;
    }
    let n = samples.len();
    let mut i: usize = 0;
    while i < n
        invariant
            n == samples@.len(),
            step >= 1,
            i <= n,
            result@.len() == HISTOGRAM_BINS,
            forall|v: int|
                0 <= v < HISTOGRAM_BINS ==> #[trigger] result@[v] == count_of(
                    sampled_upto(samples@, step as int, i as int),
                    v,
                ),
        decreases n - i,
    {
        let ghost before = sampled_upto(samples@, step as int, i as int);
        proof {
            lemma_sampled_len(samples@, step as int, i as int);
        }
        if i % step == 0 {
            let value = samples[i];
            let ghost after = before.push(value);
            assert(after.drop_last() =~= before);
            if value < 11000 {
                let bin = value as usize;
                proof {
                    lemma_count_le_len(before, bin as int);
                }
                let old_count = result[bin];
                result.set(bin, old_count + 1);
            }
            assert forall|v: int| 0 <= v < HISTOGRAM_BINS implies #[trigger] result@[v] == count_of(
                after,
                v,
            ) by {}
        }
        i = i + 1;
    }
    result
}

/// Index of the largest value; the last one among equal largest values
/// (0 for an empty sequence).
pub open spec fn last_argmax(h: Seq<u64>) -> int
    decreases h.len(),
{
    if h.len() <= 1 {
        0
    } else {
        let m = last_argmax(h.drop_last());
        if h.last() >= h[m] {
            h.len() - 1
        } else {
            m
        }
    }
}

/// The indices taken one after another as the current largest bin (the last
/// of equal ones), each bin emptied once taken.
pub open spec fn histogram_picks(h: Seq<u64>, k: nat) -> Seq<i64>
    decreases k,
{
    if k == 0 {
        Seq::empty()
    } else {
        let i = last_argmax(h);
        seq![i as i64] + histogram_picks(h.update(i, 0), (k - 1) as nat)
    }
}

/// The largest value sits at the chosen index, and no later index holds as
/// much.
pub proof fn lemma_last_argmax(h: Seq<u64>)
    requires
        h.len() > 0,
    ensures
        0 <= last_argmax(h) < h.len(),
        forall|j: int| 0 <= j < h.len() ==> #[trigger] h[j] <= h[last_argmax(h)],
        forall|j: int| last_argmax(h) < j < h.len() ==> #[trigger] h[j] < h[last_argmax(h)],
    decreases h.len(),
{
    if h.len() > 1 {
        lemma_last_argmax(h.drop_last());
        let m = last_argmax(h.drop_last());
        assert forall|j: int| 0 <= j < h.len() - 1 implies h[j] <= h[m] by {
            assert(h.drop_last()[j] == h[j]);
        }
        assert forall|j: int| m < j < h.len() - 1 implies h[j] < h[m] by {
            assert(h.drop_last()[j] == h[j]);
        }
    }
}

/// Index of the largest bin, the last one among equal largest bins.
pub fn highest_index(h: &Vec<u64>) -> (r: usize)
    ensures
        r == last_argmax(h@),
{
    let n = h.len();
    if n == 0 {
        return 0;
    }
    let mut best: usize = 0;
    let mut j: usize = 1;
    assert(h@.subrange(0, 1).len() == 1);
    while j < n
        invariant
            n == h@.len(),
            1 <= j <= n,
            best < j,
            best == last_argmax(h@.subrange(0, j as int)),
        decreases n - j,
    {
        let ghost prefix = h@.subrange(0, j as int + 1);
        assert(prefix.drop_last() =~= h@.subrange(0, j as int));
        if h[j] >= h[best] {
            best = j;
        }
        j = j + 1;
    }
    assert(h@.subrange(0, n as int) =~= h@);
    best
}

/// The `number_of_elements` most common values of a histogram, most frequent
/// first: each step takes the largest bin (the last of equal ones) and
/// empties it.
pub fn most_common_of_histogram(histogram: Vec<u64>, number_of_elements: usize) -> (r: Vec<i64>)
    requires
        0 < histogram@.len() <= i64::MAX,
    ensures
        r@ == histogram_picks(histogram@, number_of_elements as nat),
{
    let ghost initial = histogram@;
    let mut histogram = histogram;
    let mut elements: Vec<i64> = Vec::new();
    let mut k: usize = 0;
    while k < number_of_elements
        invariant
            k <= number_of_elements,
            histogram@.len() == initial.len(),
            0 < histogram@.len() <= i64::MAX,
            elements@ + histogram_picks(histogram@, (number_of_elements - k) as nat)
                == histogram_picks(initial, number_of_elements as nat),
        decreases number_of_elements - k,
    {
        let ghost current = histogram@;
        let highest = highest_index(&histogram);
        proof {
            lemma_last_argmax(histogram@);
        }
        histogram.set(highest, 0);
        assert(histogram@ == current.update(highest as int, 0));
        elements.push(highest as i64);
        assert(elements@ + histogram_picks(histogram@, (number_of_elements - k - 1) as nat)
            =~= elements@.drop_last() + histogram_picks(current, (number_of_elements - k) as nat));
        k = k + 1;
    }
    assert(elements@ + histogram_picks(histogram@, 0) =~= elements@);
    elements
}

/// The window arithmetic of a tile: the part of a requested square window
/// that lies inside the raster, per axis.
pub struct RasterIOHelper {
    /// Left edge of the window, moved onto the raster when it starts left of it.
    pub clamped_pixel_offset_x: i64,
    /// Top edge of the window, moved onto the raster when it starts above it.
    pub clamped_pixel_offset_y: i64,
    /// The smaller of the raster's width and height.
    pub min_raster_size: i64,
    /// Height of the part of the window inside the raster.
    pub usable_height: i64,
    /// Width of the part of the window inside the raster.
    pub usable_width: i64,
}

/// A window edge moved onto the raster: negative offsets become 0.
pub open spec fn clamped_offset(offset: int) -> int {
    if offset < 0 {
        0
    } else {
        offset
    }
}

/// The extent of a window `[offset, offset + window)` that remains after
/// cutting away what lies before 0 and what lies at or beyond `available`.
pub open spec fn usable_extent(offset: int, window: int, available: int) -> int {
    let cut_before = if offset < 0 {
        -offset
    } else {
        0
    };
    let cut_after = if offset + window > available {
        offset + window - available
    } else {
        0
    };
    window - cut_before - cut_after
}

/// Whether `v` is a value of `i64`.
pub open spec fn fits_i64(v: int) -> bool {
    i64::MIN <= v <= i64::MAX
}

/// Number of values per pixel in the whole-tile array of a raster of this
/// format: three for RGB, four for RGBA, one otherwise.
pub open spec fn format_channels(f: Format) -> int {
    match f {
        Format::Rgb => 3,
        Format::Rgba => 4,
        _ => 1,
    }
}

/// The plain description of a tile: which window of which raster it reads,
/// at which output size and with which resampling.
pub struct GeoRasterModel {
    pub format: Format,
    pub pixel_offset_x: int,
    pub pixel_offset_y: int,
    pub source_window: int,
    pub destination_window: int,
    pub interpolation: Resampling,
    pub raster_width: int,
    pub raster_height: int,
    pub band_types: Seq<Option<BandDataType>>,
}

impl GeoRasterModel {
    /// The window arithmetic of this tile stays within `i64`: the far edges
    /// of the window, the usable extents and the raster's size are `i64`
    /// values.
    pub open spec fn window_fits(self) -> bool {
        &&& fits_i64(self.pixel_offset_x + self.source_window)
        &&& fits_i64(self.pixel_offset_y + self.source_window)
        &&& fits_i64(usable_extent(self.pixel_offset_x, self.source_window, self.raster_width))
        &&& fits_i64(usable_extent(self.pixel_offset_y, self.source_window, self.raster_height))
        &&& 0 <= self.raster_width <= i64::MAX
        &&& 0 <= self.raster_height <= i64::MAX
    }

    /// Number of elements of a tile array: the output size squared.
    pub open spec fn pixel_count(self) -> int {
        self.destination_window * self.destination_window
    }

    /// Length of the whole-tile array: the pixel count times the values per
    /// pixel of the format.
    pub open spec fn array_len(self) -> int {
        self.pixel_count() * format_channels(self.format)
    }

    /// The tile array's size can be computed and indexed for up to four bands.
    pub open spec fn array_fits(self) -> bool {
        &&& -0x8000_0000 < self.destination_window < 0x8000_0000
        &&& self.pixel_count() * 4 <= usize::MAX
    }

    /// Whether the window leaves any pixel of the raster to read.
    pub open spec fn has_usable_window(self) -> bool {
        usable_extent(self.pixel_offset_x, self.source_window, self.raster_width) > 0
            && usable_extent(self.pixel_offset_y, self.source_window, self.raster_height) > 0
    }

    /// Number of bands read for the whole-tile array, or the error.
    pub open spec fn array_band_count(self) -> Result<int, RasterError> {
        if !self.has_usable_window() {
            Ok(0)
        } else {
            match self.format {
                Format::Rf => Ok(1),
                Format::Rgba => Ok(4),
                Format::Rgb => Ok(3),
                Format::Byte => Ok(1),
                f => Err(RasterError::FormatNotReadable(f)),
            }
        }
    }

    /// Format of the band with the given 1-based index (`Unknown` if there is
    /// no such band).
    pub open spec fn band_format(self, band_index: int) -> Format {
        if 1 <= band_index <= self.band_types.len() {
            format_of_band(self.band_types[band_index - 1])
        } else {
            Format::Unknown
        }
    }
}

/// A tile of a raster dataset: a square window of `source_window_size_pixels`
/// starting at the given pixel offset, read at `destination_window_size_pixels`
/// per side.
pub struct GeoRaster {
    data: RasterDatasetInfo,
    format: Format,
    pixel_offset_x: i64,
    pixel_offset_y: i64,
    source_window_size_pixels: i64,
    destination_window_size_pixels: i64,
    interpolation_type: Resampling,
}

impl View for GeoRaster {
    type V = GeoRasterModel;

    closed spec fn view(&self) -> GeoRasterModel {
        GeoRasterModel {
            format: self.format,
            pixel_offset_x: self.pixel_offset_x as int,
            pixel_offset_y: self.pixel_offset_y as int,
            source_window: self.source_window_size_pixels as int,
            destination_window: self.destination_window_size_pixels as int,
            interpolation: self.interpolation_type,
            raster_width: self.data.raster_size.0 as int,
            raster_height: self.data.raster_size.1 as int,
            band_types: self.data.band_types@,
        }
    }
}

impl GeoRaster {
    #[verifier::type_invariant]
    closed spec fn format_matches_bands(self) -> bool {
        format_of_bands(self.data.band_types@) == Some(self.format)
    }

    /// Describes the tile; fails exactly when the dataset's first band cannot
    /// be opened.
    pub fn new(
        data: RasterDatasetInfo,
        pixel_offset_x: i64,
        pixel_offset_y: i64,
        source_window_size_pixels: i64,
        destination_window_size_pixels: i64,
        interpolation_type: Resampling,
    ) -> (r: Result<GeoRaster, RasterError>)
        ensures
            r is Ok <==> format_of_bands(data.band_types@) is Some,
            r matches Err(e) ==> e == RasterError::BandUnavailable(1),
            r matches Ok(g) ==> {
                &&& Some(g@.format) == format_of_bands(data.band_types@)
                &&& g@.pixel_offset_x == pixel_offset_x
                &&& g@.pixel_offset_y == pixel_offset_y
                &&& g@.source_window == source_window_size_pixels
                &&& g@.destination_window == destination_window_size_pixels
                &&& g@.interpolation == interpolation_type
                &&& g@.raster_width == data.raster_size.0
                &&& g@.raster_height == data.raster_size.1
                &&& g@.band_types == data.band_types@
            },
    {
        let format = match get_format_for_gdal_dataset(&data) {
            Ok(f) => f,
            Err(e) => {
                return Err(e);
            },
        };
        Ok(
            GeoRaster {
                data,
                format,
                pixel_offset_x,
                pixel_offset_y,
                source_window_size_pixels,
                destination_window_size_pixels,
                interpolation_type,
            },
        )
    }

    pub fn get_format(&self) -> (r: Format)
        ensures
            r == self@.format,
            Some(r) == format_of_bands(self@.band_types),
    {
        proof {
            use_type_invariant(self);
        }
        self.format
    }

    /// Width of the tile array in pixels: the destination window size.
    pub fn get_pixel_size_x(&self) -> (r: i64)
        ensures
            r == self@.destination_window,
    {
        self.destination_window_size_pixels
    }

    /// Height of the tile array in pixels: the destination window size.
    pub fn get_pixel_size_y(&self) -> (r: i64)
        ensures
            r == self@.destination_window,
    {
        self.destination_window_size_pixels
    }

    /// The resampling a read of this tile uses: nearest neighbour when the
    /// tile is read smaller than its source window, the chosen one otherwise.
    pub fn read_resampling(&self) -> (r: Resampling)
        ensures
            r == (if self@.destination_window < self@.source_window {
                Resampling::NearestNeighbour
            } else {
                self@.interpolation
            }),
    {
        if self.destination_window_size_pixels < self.source_window_size_pixels {
            Resampling::NearestNeighbour
        } else {
            self.interpolation_type
        }
    }

    /// The part of the tile's window that lies inside the raster.
    pub fn get_raster_io_helper(&self) -> (r: RasterIOHelper)
        requires
            self@.window_fits(),
        ensures
            r.clamped_pixel_offset_x == clamped_offset(self@.pixel_offset_x),
            r.clamped_pixel_offset_y == clamped_offset(self@.pixel_offset_y),
            r.usable_width == usable_extent(
                self@.pixel_offset_x,
                self@.source_window,
                self@.raster_width,
            ),
            r.usable_height == usable_extent(
                self@.pixel_offset_y,
                self@.source_window,
                self@.raster_height,
            ),
            r.min_raster_size == (if self@.raster_width <= self@.raster_height {
                self@.raster_width
            } else {
                self@.raster_height
            }),
    {
        let pixel_offset_x = self.pixel_offset_x;
        let pixel_offset_y = self.pixel_offset_y;
        let source_window_pixels = self.source_window_size_pixels;
        let available_x = self.data.raster_size.0 as i64;
        let available_y = self.data.raster_size.1 as i64;
        let min_raster_size = if available_x <= available_y {
            available_x
        } else {
            available_y
        };
        let mut usable_width = source_window_pixels;
        let mut usable_height = source_window_pixels;
        let mut clamped_pixel_offset_x = pixel_offset_x;
        let mut clamped_pixel_offset_y = pixel_offset_y;

        let is_left_outside = pixel_offset_x < 0;
        let is_right_outside = pixel_offset_x + source_window_pixels > available_x;
        if is_left_outside {
            usable_width = usable_width + pixel_offset_x;
            clamped_pixel_offset_x = 0;
        }
        if is_right_outside {
            usable_width = usable_width - (pixel_offset_x + source_window_pixels - available_x);
        }

        let is_up_outside = pixel_offset_y < 0;
        let is_down_outside = pixel_offset_y + source_window_pixels > available_y;
        if is_up_outside {
            usable_height = usable_height + pixel_offset_y;
            clamped_pixel_offset_y = 0;
        }
        if is_down_outside {
            usable_height = usable_height - (pixel_offset_y + source_window_pixels - available_y);
        }

        RasterIOHelper {
            clamped_pixel_offset_x,
            clamped_pixel_offset_y,
            min_raster_size,
            usable_height,
            usable_width,
        }
    }

    /// Number of bands the whole-tile array is assembled from: none when the
    /// window lies wholly outside the raster, one for float and byte rasters,
    /// three for RGB, four for RGBA; mixed and unknown formats cannot be read.
    pub fn array_band_count(&self) -> (r: Result<usize, RasterError>)
        requires
            self@.window_fits(),
        ensures
            r matches Ok(n) ==> self@.array_band_count() == Ok::<int, RasterError>(n as int),
            r matches Err(e) ==> self@.array_band_count() == Err::<int, RasterError>(e),
    {
        let helper = self.get_raster_io_helper();
        if helper.usable_width <= 0 || helper.usable_height <= 0 {
            return Ok(0);
        }
        match self.format {
            Format::Rf => Ok(1),
            Format::Rgba => Ok(4),
            Format::Rgb => Ok(3),
            Format::Byte => Ok(1),
            f => Err(RasterError::FormatNotReadable(f)),
        }
    }

    /// The whole-tile array assembled from the bands read over the tile
    /// window (each of `pixel_count` values, in band order). It holds
    /// `pixel_count` values per channel of the format (three for RGB, four
    /// for RGBA, one otherwise), interleaved pixel by pixel: element `j` is
    /// value `j / n` of band `j % n` for `n` bands. With no band read (the
    /// window lies outside the raster) every element is `fill`.
    pub fn get_as_array<T: Copy>(&self, fill: T, band_data: &Vec<Vec<T>>) -> (r: Vec<T>)
        requires
            self@.array_fits(),
            self@.window_fits(),
            self@.array_band_count() == Ok::<int, RasterError>(band_data@.len() as int),
            forall|b: int| 0 <= b < band_data@.len() ==> #[trigger] band_data@[b]@.len() == self@.pixel_count(),
        ensures
            r@.len() == self@.array_len(),
            forall|j: int| 0 <= j < r@.len() ==> r@[j] == interleaved_value(band_data@, fill, j),
    {
        let side = self.get_pixel_size_x();
        assert(0 <= side * side < 0x4000_0000_0000_0000) by (nonlinear_arith)
            requires
                -0x8000_0000 < side < 0x8000_0000,
        ;
        let size = (side * self.get_pixel_size_y()) as usize;
        let channels: usize = match self.format {
            Format::Rgb => 3,
            Format::Rgba => 4,
            _ => 1,
        };
        assert(size * channels <= size * 4) by (nonlinear_arith)
            requires
                1 <= channels <= 4,
        ;
        let length = size * channels;
        let total = band_data.len();
        assert(total == 0 || total == channels);
        let mut result: Vec<T> = Vec::new();
        let mut j: usize = 0;
        while j < length
            invariant
                size == self@.pixel_count(),
                length == size * channels,
                1 <= channels <= 4,
                total == band_data@.len(),
                total == 0 || total == channels,
                forall|b: int| 0 <= b < band_data@.len() ==> #[trigger] band_data@[b]@.len() == size,
                j <= length,
                result@.len() == j,
                forall|k: int| 0 <= k < j ==> result@[k] == interleaved_value(band_data@, fill, k),
            decreases length - j,
        {
            if total == 0 {
                result.push(fill);
            } else {
                let band = j % total;
                let index = j / total;
                assert(index < size) by (nonlinear_arith)
                    requires
                        total >= 1,
                        j < size * total,
                        index == j / total,
                ;
                result.push(band_data[band][index]);
            }
            j = j + 1;
        }
        result
    }

    /// Format of the band with the given 1-based index; `Unknown` where there
    /// is no such band or it cannot be opened.
    pub fn get_band_format(&self, band_index: usize) -> (r: Format)
        ensures
            r == self@.band_format(band_index as int),
    {
        if band_index >= 1 && band_index <= self.data.band_types.len() {
            match self.data.band_types[band_index - 1] {
                Some(BandDataType::UInt8) => Format::Byte,
                Some(BandDataType::Float32) => Format::Rf,
                Some(BandDataType::Float64) => Format::Rf,
                _ => Format::Unknown,
            }
        } else {
            Format::Unknown
        }
    }

    /// Whether the single-band array needs a read of band `band_index`:
    /// no read (all default values) when the window lies wholly outside the
    /// raster, a read for byte and float bands, an error for other bands.
    pub fn band_array_needs_read(&self, band_index: usize) -> (r: Result<bool, RasterError>)
        requires
            self@.window_fits(),
        ensures
            !self@.has_usable_window() ==> r == Ok::<bool, RasterError>(false),
            self@.has_usable_window() ==> r == (match self@.band_format(band_index as int) {
                Format::Byte | Format::Rf => Ok::<bool, RasterError>(true),
                f => Err(RasterError::BandFormatNotSupported(f)),
            }),
    {
        let helper = self.get_raster_io_helper();
        if helper.usable_width <= 0 || helper.usable_height <= 0 {
            return Ok(false);
        }
        match self.get_band_format(band_index) {
            Format::Byte => Ok(true),
            Format::Rf => Ok(true),
            f => Err(RasterError::BandFormatNotSupported(f)),
        }
    }

    /// Histogram over the tile's samples: for float rasters every sample (the
    /// float values truncated to integers), otherwise the first channel of
    /// each pixel; one bin per value below `HISTOGRAM_BINS`, larger values are
    /// not counted.
    pub fn get_histogram(&self, samples: &Vec<u64>) -> (r: Vec<u64>)
        ensures
            r@.len() == HISTOGRAM_BINS,
            forall|v: int|
                0 <= v < HISTOGRAM_BINS ==> #[trigger] r@[v] == count_of(
                    sampled_upto(samples@, histogram_step(self@.format), samples@.len() as int),
                    v,
                ),
    {
        let step: usize = match self.format {
            Format::Rgb => 3,
            Format::Rgba => 4,
            _ => 1,
        };
        histogram_of_samples(samples, step)
    }

    /// The `number_of_elements` most common sample values, most frequent
    /// first (see `most_common_of_histogram`).
    pub fn get_most_common(&self, samples: &Vec<u64>, number_of_elements: i64) -> (r: Vec<i64>)
        requires
            0 <= number_of_elements <= usize::MAX,
        ensures
            r@ == histogram_picks(
                histogram_spec(samples@, histogram_step(self@.format)),
                number_of_elements as nat,
            ),
    {
        let histogram = self.get_histogram(samples);
        assert(histogram@ =~= histogram_spec(samples@, histogram_step(self@.format)));
        most_common_of_histogram(histogram, number_of_elements as usize)
    }
}

/// Helper for extracting tiles from raster datasets and writing into them.
pub struct RasterTileExtractor;

/// Which values are written into which (1-based) bands of a raster whose
/// first band has `data_type` and which has `band_count` bands, given
/// `value_count` values: float rasters take exactly one value, into band 1;
/// byte rasters take value `i` into band `i + 1` for every band and need at
/// least as many values as bands. Other data types cannot be written.
pub open spec fn write_targets_spec(data_type: BandDataType, band_count: int, value_count: int) -> Result<
    Seq<(usize, usize)>,
    RasterError,
> {
    match data_type {
        BandDataType::Float32 | BandDataType::Float64 => if value_count == 1 {
            Ok(seq![(1usize, 0usize)])
        } else {
            Err(RasterError::WrongValueCount(1, value_count as usize))
        },
        BandDataType::UInt8 => if value_count >= band_count {
            Ok(Seq::new(band_count as nat, |i: int| ((i + 1) as usize, i as usize)))
        } else {
            Err(RasterError::WrongValueCount(band_count as usize, value_count as usize))
        },
        t => Err(RasterError::UnsupportedDataType(t)),
    }
}

impl RasterTileExtractor {
    /// The `(band, value index)` pairs a write of `value_count` values into a
    /// raster whose first band has `data_type` and which has `band_count`
    /// bands consists of (see `write_targets_spec`); a value count that does
    /// not fit the raster and other data types are refused.
    pub fn write_targets(data_type: BandDataType, band_count: usize, value_count: usize) -> (r:
        Result<Vec<(usize, usize)>, RasterError>)
        ensures
            match (r, write_targets_spec(data_type, band_count as int, value_count as int)) {
                (Ok(v), Ok(s)) => v@ == s,
                (Err(e), Err(f)) => e == f,
                _ => false,
            },
    {
        match data_type {
            BandDataType::Float32 | BandDataType::Float64 => {
                if value_count != 1 {
                    return Err(RasterError::WrongValueCount(1, value_count));
                }
                let mut v: Vec<(usize, usize)> = Vec::new();
                v.push((1, 0));
                assert(v@ =~= seq![(1usize, 0usize)]);
                Ok(v)
            },
            BandDataType::UInt8 => {
                if value_count < band_count {
                    return Err(RasterError::WrongValueCount(band_count, value_count));
                }
                let mut v: Vec<(usize, usize)> = Vec::new();
                let mut i: usize = 0;
                while i < band_count
                    invariant
                        i <= band_count,
                        v@ =~= Seq::new(i as nat, |j: int| ((j + 1) as usize, j as usize)),
                    decreases band_count - i,
                {
                    v.push((i + 1, i));
                    i = i + 1;
                }
                Ok(v)
            },
            t => Err(RasterError::UnsupportedDataType(t)),
        }
    }
}

} // verus!
