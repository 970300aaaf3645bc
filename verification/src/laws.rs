//! Properties of the library that relate several operations or hold of all
//! their inputs.
use vstd::prelude::*;
use crate::dataset::{after_last_colon, is_epsg_name, last_colon, lemma_last_colon};
use crate::features::{FeatureIdentity, FeatureModel, holder_eq, unknown_feature_eq};
use crate::geometry::{GeometryType, geometry_type_of_name};
use crate::image::{
    byte_count, byte_histogram, image_picks, lemma_byte_count_le_len, lemma_image_picks_distinct,
};
use crate::interpolation::{Interpolation, interpolation_name, interpolation_order, out_of_range_message};
use crate::text::decimal;
use crate::layer::{FeatureIdCounts, allocation_step};
use crate::raster::{
    BandDataType, Format, GeoRasterModel, HISTOGRAM_BINS, RasterError, clamped_offset, count_of,
    format_of_bands, histogram_picks, histogram_spec, histogram_step, interleaved_value,
    last_argmax, lemma_last_argmax, sampled_upto, usable_extent,
};

verus! {

/// Geometry keywords are matched case-sensitively: a keyword written in
/// lower case is not recognised.
pub proof fn law_geometry_keywords_are_case_sensitive()
    ensures
        geometry_type_of_name("point"@) == GeometryType::Unknown,
        geometry_type_of_name("POINT"@) == GeometryType::Point,
        geometry_type_of_name(""@) == GeometryType::Unknown,
{
    reveal_strlit("point");
    reveal_strlit("POINT");
    reveal_strlit("POLYGON");
    reveal_strlit("LINESTRING");
    reveal_strlit("MULTILINESTRING");
    reveal_strlit("MULTIPOLYGON");
    reveal_strlit("");
    assert("point"@[0] != "POINT"@[0]);
    assert("point"@ != "POLYGON"@);
    assert("point"@.len() != "LINESTRING"@.len());
    assert("point"@.len() != "MULTILINESTRING"@.len());
    assert("point"@.len() != "MULTIPOLYGON"@.len());
    assert(""@.len() != "POINT"@.len());
    assert(""@.len() != "POLYGON"@.len());
    assert(""@.len() != "LINESTRING"@.len());
    assert(""@.len() != "MULTILINESTRING"@.len());
    assert(""@.len() != "MULTIPOLYGON"@.len());
}

/// The fixed order of interpolation modes lists every mode exactly once, so
/// converting an index and taking a mode's position undo each other.
pub proof fn law_interpolation_order_is_a_bijection(x: Interpolation)
    ensures
        interpolation_order().len() == 12,
        exists|i: int| 0 <= i < 12 && interpolation_order()[i] == x,
        forall|i: int, j: int|
            0 <= i < j < 12 ==> interpolation_order()[i] != interpolation_order()[j],
{
    let o = interpolation_order();
    match x {
        Interpolation::NearestNeighbour => assert(o[0] == x),
        Interpolation::Bilinear => assert(o[1] == x),
        Interpolation::Cubic => assert(o[2] == x),
        Interpolation::CubicSpline => assert(o[3] == x),
        Interpolation::Lanczos => assert(o[4] == x),
        Interpolation::Average => assert(o[5] == x),
        Interpolation::Mode => assert(o[6] == x),
        Interpolation::Max => assert(o[7] == x),
        Interpolation::Min => assert(o[8] == x),
        Interpolation::Med => assert(o[9] == x),
        Interpolation::Q1 => assert(o[10] == x),
        Interpolation::Q2 => assert(o[11] == x),
    }
}

/// Reading an attribute after writing it gives the written value, and every
/// other attribute keeps its value.
pub proof fn law_attribute_read_after_write(
    before: FeatureModel,
    after: FeatureModel,
    name: String,
    value: String,
    other: Seq<char>,
)
    requires
        after.attributes == before.attributes.insert(name@, value@),
        other != name@,
    ensures
        after.attributes.dom().contains(name@),
        after.attributes[name@] == value@,
        after.attributes.dom().contains(other) == before.attributes.dom().contains(other),
        before.attributes.dom().contains(other) ==> after.attributes[other]
            == before.attributes[other],
{
}

/// Two holders are equal exactly when the features they hold are in the same
/// observable state: same geometry type, deletion flag, id and attributes.
pub proof fn law_holder_eq_is_state_equality(a: FeatureModel, b: FeatureModel)
    ensures
        holder_eq(a, b) <==> a == b,
{
}

/// Holder equality is reflexive and symmetric.
pub proof fn law_holder_eq_symmetric(a: FeatureModel, b: FeatureModel)
    ensures
        holder_eq(a, a),
        holder_eq(a, b) == holder_eq(b, a),
{
}

/// Holder equality is transitive.
pub proof fn law_holder_eq_transitive(a: FeatureModel, b: FeatureModel, c: FeatureModel)
    requires
        holder_eq(a, b),
        holder_eq(b, c),
    ensures
        holder_eq(a, c),
{
}

/// Holders differing in geometry type, deletion flag or id are not equal, so
/// equal holders have the same identity.
pub proof fn law_holder_eq_needs_same_identity(a: FeatureModel, b: FeatureModel)
    requires
        a.geometry_type != b.geometry_type || a.is_deleted != b.is_deleted || a.id != b.id,
    ensures
        !holder_eq(a, b),
{
}

/// Holders whose attributes differ are not equal.
pub proof fn law_holder_eq_needs_same_attributes(a: FeatureModel, b: FeatureModel)
    requires
        a.attributes != b.attributes,
    ensures
        !holder_eq(a, b),
        !holder_eq(b, a),
{
}

/// General features are equal exactly when their identities are, so hashing
/// the identity agrees with equality.
pub proof fn law_unknown_feature_eq_is_identity_eq(
    a: FeatureModel,
    b: FeatureModel,
    ia: FeatureIdentity,
    ib: FeatureIdentity,
)
    requires
        ia.geometry_type == a.geometry_type,
        ia.is_deleted == a.is_deleted,
        ia.fid == a.id,
        ib.geometry_type == b.geometry_type,
        ib.is_deleted == b.is_deleted,
        ib.fid == b.id,
    ensures
        unknown_feature_eq(a, b) <==> ia == ib,
{
}

/// The part of a tile window that is read lies inside the raster and within
/// the requested window.
pub proof fn law_read_window_inside_raster(offset: int, window: int, available: int)
    requires
        available >= 0,
        usable_extent(offset, window, available) > 0,
    ensures
        0 <= clamped_offset(offset),
        clamped_offset(offset) + usable_extent(offset, window, available) <= available,
        usable_extent(offset, window, available) <= window,
        offset <= clamped_offset(offset),
{
}

/// A window wholly inside the raster is read unchanged.
pub proof fn law_window_inside_is_unchanged(offset: int, window: int, available: int)
    requires
        0 <= offset,
        offset + window <= available,
    ensures
        clamped_offset(offset) == offset,
        usable_extent(offset, window, available) == window,
{
}

/// Value `i` of band `b` lands at position `b + i * n` of an array
/// interleaved from `n` bands.
pub proof fn law_interleaved_position<T>(bands: Seq<Vec<T>>, fill: T, b: int, i: int)
    requires
        0 <= b < bands.len(),
        0 <= i,
    ensures
        interleaved_value(bands, fill, b + i * bands.len()) == bands[b]@[i],
{
    let n = bands.len() as int;
    vstd::arithmetic::div_mod::lemma_fundamental_div_mod_converse(b + i * n, n, i, b);
}

proof fn lemma_histogram_picks_len(h: Seq<u64>, k: nat)
    ensures
        histogram_picks(h, k).len() == k,
    decreases k,
{
    if k > 0 {
        lemma_histogram_picks_len(h.update(last_argmax(h), 0), (k - 1) as nat);
    }
}

/// Asking for more of the most common values only extends the list: the
/// first `k` values do not depend on how many are asked for.
pub proof fn law_histogram_picks_prefix(h: Seq<u64>, k: nat)
    ensures
        histogram_picks(h, k) == histogram_picks(h, k + 1).subrange(0, k as int),
        histogram_picks(h, k).len() == k,
    decreases k,
{
    lemma_histogram_picks_len(h, k);
    lemma_histogram_picks_len(h, k + 1);
    if k > 0 {
        let i = last_argmax(h);
        let h2 = h.update(i, 0);
        law_histogram_picks_prefix(h2, (k - 1) as nat);
        lemma_histogram_picks_len(h2, k);
        let x = histogram_picks(h2, (k - 1) as nat);
        let y = histogram_picks(h2, k);
        assert(histogram_picks(h, k) == seq![i as i64] + x);
        assert(histogram_picks(h, k + 1) == seq![i as i64] + y);
        assert(histogram_picks(h, k) =~= histogram_picks(h, k + 1).subrange(0, k as int));
    } else {
        assert(histogram_picks(h, 0) =~= histogram_picks(h, 1).subrange(0, 0));
    }
}

/// The first of the most common values is a bin holding the largest count,
/// and no later bin holds as much.
pub proof fn law_first_pick_is_largest_bin(h: Seq<u64>)
    requires
        0 < h.len() <= i64::MAX,
    ensures
        histogram_picks(h, 1)[0] == last_argmax(h),
        forall|j: int| 0 <= j < h.len() ==> #[trigger] h[j] <= h[last_argmax(h)],
        forall|j: int| last_argmax(h) < j < h.len() ==> #[trigger] h[j] < h[last_argmax(h)],
{
    lemma_last_argmax(h);
}

/// Whether `x` occurs among the first `a` entries of `p`.
pub open spec fn picked_before(p: Seq<i64>, a: int, x: int) -> bool {
    exists|c: int| 0 <= c < a && p[c] == x
}

proof fn lemma_histogram_picks_greedy(g: Seq<u64>, h: Seq<u64>, taken: Set<int>, k: nat)
    requires
        g.len() == h.len(),
        0 < h.len() <= i64::MAX,
        forall|x: int| 0 <= x < h.len() ==> #[trigger] g[x] <= h[x],
        forall|x: int| 0 <= x < h.len() && !taken.contains(x) ==> #[trigger] g[x] == h[x],
    ensures
        histogram_picks(g, k).len() == k,
        forall|a: int| 0 <= a < k ==> 0 <= #[trigger] histogram_picks(g, k)[a] < h.len(),
        forall|a: int, x: int|
            #![trigger histogram_picks(g, k)[a], h[x]]
            0 <= a < k && 0 <= x < h.len() && !taken.contains(x) && !picked_before(
                histogram_picks(g, k),
                a,
                x,
            ) ==> h[x] <= h[histogram_picks(g, k)[a] as int],
    decreases k,
{
    if k > 0 {
        lemma_last_argmax(g);
        let i = last_argmax(g);
        let g2 = g.update(i, 0);
        let taken2 = taken.insert(i);
        assert forall|x: int| 0 <= x < h.len() implies #[trigger] g2[x] <= h[x] by {
            assert(g[x] <= h[x]);
        }
        assert forall|x: int| 0 <= x < h.len() && !taken2.contains(x) implies #[trigger] g2[x] == h[x] by {
            assert(g[x] == h[x]);
        }
        lemma_histogram_picks_greedy(g2, h, taken2, (k - 1) as nat);
        let rest = histogram_picks(g2, (k - 1) as nat);
        let p = histogram_picks(g, k);
        assert(p == seq![i as i64] + rest);
        assert(p[0] == i);
        assert forall|a: int| 0 <= a < k implies 0 <= #[trigger] p[a] < h.len() by {
            if a > 0 {
                assert(p[a] == rest[a - 1]);
            }
        }
        assert forall|a: int, x: int|
            #![trigger p[a], h[x]]
            0 <= a < k && 0 <= x < h.len() && !taken.contains(x) && !picked_before(p, a, x) implies h[x]
                <= h[p[a] as int] by {
            if a == 0 {
                assert(g[x] == h[x]);
                assert(g[x] <= g[i]);
                assert(g[i] <= h[i]);
            } else {
                assert(p[a] == rest[a - 1]);
                assert(x != i) by {
                    if x == i {
                        assert(p[0] == x);
                    }
                }
                assert(!picked_before(rest, a - 1, x)) by {
                    if picked_before(rest, a - 1, x) {
                        let c = choose|c: int| 0 <= c < a - 1 && rest[c] == x;
                        assert(p[c + 1] == rest[c]);
                    }
                }
                assert(!taken2.contains(x));
                assert(h[x] <= h[rest[a - 1] as int]);
            }
        }
    }
}

/// The most common values come most frequent first: each value reported has
/// a count at least that of every value not reported before it, so no value
/// left out of the list is more frequent than any value in it.
pub proof fn law_most_common_most_frequent_first(h: Seq<u64>, k: nat)
    requires
        0 < h.len() <= i64::MAX,
    ensures
        forall|a: int, x: int|
            #![trigger histogram_picks(h, k)[a], h[x]]
            0 <= a < k && 0 <= x < h.len() && !picked_before(histogram_picks(h, k), a, x) ==> h[x]
                <= h[histogram_picks(h, k)[a] as int],
        forall|a: int, x: int|
            #![trigger histogram_picks(h, k)[a], h[x]]
            0 <= a < k && 0 <= x < h.len() && !picked_before(histogram_picks(h, k), k as int, x)
                ==> h[x] <= h[histogram_picks(h, k)[a] as int],
{
    lemma_histogram_picks_greedy(h, h, Set::empty(), k);
    let p = histogram_picks(h, k);
    assert forall|a: int, x: int|
        #![trigger p[a], h[x]]
        0 <= a < k && 0 <= x < h.len() && !picked_before(p, k as int, x) implies h[x] <= h[p[a] as int] by {
        assert(!picked_before(p, a, x)) by {
            if picked_before(p, a, x) {
                let c = choose|c: int| 0 <= c < a && p[c] == x;
                assert(0 <= c < k && p[c] == x);
            }
        }
    }
}

/// The most common values of a byte image are distinct non-zero bytes that
/// occur in the image.
pub proof fn law_image_most_common_distinct_present(data: Seq<u8>, k: nat)
    ensures
        forall|a: int|
            0 <= a < image_picks(byte_histogram(data), k).len() ==> {
                let v = #[trigger] image_picks(byte_histogram(data), k)[a];
                &&& 1 <= v <= 255
                &&& byte_count(data, v as int) > 0
            },
        forall|a: int, b: int|
            0 <= a < b < image_picks(byte_histogram(data), k).len() ==> image_picks(
                byte_histogram(data),
                k,
            )[a] != image_picks(byte_histogram(data), k)[b],
{
    lemma_image_picks_distinct(byte_histogram(data), k);
    assert forall|a: int| 0 <= a < image_picks(byte_histogram(data), k).len() implies {
        let v = #[trigger] image_picks(byte_histogram(data), k)[a];
        &&& 1 <= v <= 255
        &&& byte_count(data, v as int) > 0
    } by {
        let v = image_picks(byte_histogram(data), k)[a];
        assert(byte_histogram(data)[v as int] > 0);
    }
}

proof fn lemma_image_picks_greedy(g: Seq<u64>, h: Seq<u64>, taken: Set<int>, k: nat)
    requires
        g.len() == h.len(),
        0 < h.len() <= i64::MAX,
        forall|x: int| 0 <= x < h.len() ==> #[trigger] g[x] <= h[x],
        forall|x: int| 0 <= x < h.len() && !taken.contains(x) ==> #[trigger] g[x] == h[x],
    ensures
        forall|a: int, x: int|
            #![trigger image_picks(g, k)[a], h[x]]
            0 <= a < image_picks(g, k).len() && 1 <= x < h.len() && !taken.contains(x)
                && !picked_before(image_picks(g, k), a, x) ==> h[x] <= h[image_picks(g, k)[a] as int],
    decreases k,
{
    if k > 0 {
        lemma_last_argmax(g);
        let i = last_argmax(g);
        if g[i] != 0 {
            let g2 = g.update(i, 0);
            let taken2 = taken.insert(i);
            assert forall|x: int| 0 <= x < h.len() implies #[trigger] g2[x] <= h[x] by {
                assert(g[x] <= h[x]);
            }
            assert forall|x: int| 0 <= x < h.len() && !taken2.contains(x) implies #[trigger] g2[x] == h[x] by {
                assert(g[x] == h[x]);
            }
            lemma_image_picks_greedy(g2, h, taken2, (k - 1) as nat);
            let rest = image_picks(g2, (k - 1) as nat);
            let p = image_picks(g, k);
            if i == 0 {
                assert(p == rest);
                assert forall|a: int, x: int|
                    #![trigger p[a], h[x]]
                    0 <= a < p.len() && 1 <= x < h.len() && !taken.contains(x) && !picked_before(p, a, x)
                        implies h[x] <= h[p[a] as int] by {
                    assert(!taken2.contains(x));
                }
            } else {
                assert(p == seq![i as i64] + rest);
                assert(p[0] == i);
                assert forall|a: int, x: int|
                    #![trigger p[a], h[x]]
                    0 <= a < p.len() && 1 <= x < h.len() && !taken.contains(x) && !picked_before(p, a, x)
                        implies h[x] <= h[p[a] as int] by {
                    if a == 0 {
                        assert(g[x] == h[x]);
                        assert(g[x] <= g[i]);
                        assert(g[i] <= h[i]);
                    } else {
                        assert(p[a] == rest[a - 1]);
                        assert(x != i) by {
                            if x == i {
                                assert(p[0] == x);
                            }
                        }
                        assert(!picked_before(rest, a - 1, x)) by {
                            if picked_before(rest, a - 1, x) {
                                let c = choose|c: int| 0 <= c < a - 1 && rest[c] == x;
                                assert(p[c + 1] == rest[c]);
                            }
                        }
                        assert(!taken2.contains(x));
                        assert(h[x] <= h[rest[a - 1] as int]);
                    }
                }
            }
        }
    }
}

/// The most common values of a byte image come most frequent first: each
/// reported value occurs at least as often as every non-zero byte not
/// reported before it, so the counts of the reported values never rise and
/// no non-zero byte left out occurs more often than a reported one (for
/// data of at most `u64::MAX` bytes, which every vector holds).
pub proof fn law_image_most_common_most_frequent_first(data: Seq<u8>, k: nat)
    requires
        data.len() <= u64::MAX,
    ensures
        forall|a: int, x: int|
            #![trigger image_picks(byte_histogram(data), k)[a], byte_count(data, x)]
            0 <= a < image_picks(byte_histogram(data), k).len() && 1 <= x < 256 && !picked_before(
                image_picks(byte_histogram(data), k),
                a,
                x,
            ) ==> byte_count(data, x) <= byte_count(
                data,
                image_picks(byte_histogram(data), k)[a] as int,
            ),
        forall|a: int, b: int|
            #![trigger image_picks(byte_histogram(data), k)[a], image_picks(byte_histogram(data), k)[b]]
            0 <= a < b < image_picks(byte_histogram(data), k).len() ==> byte_count(
                data,
                image_picks(byte_histogram(data), k)[b] as int,
            ) <= byte_count(data, image_picks(byte_histogram(data), k)[a] as int),
        forall|a: int, x: int|
            #![trigger image_picks(byte_histogram(data), k)[a], byte_count(data, x)]
            0 <= a < image_picks(byte_histogram(data), k).len() && 1 <= x < 256 && !picked_before(
                image_picks(byte_histogram(data), k),
                image_picks(byte_histogram(data), k).len() as int,
                x,
            ) ==> byte_count(data, x) <= byte_count(
                data,
                image_picks(byte_histogram(data), k)[a] as int,
            ),
{
    let h = byte_histogram(data);
    let p = image_picks(h, k);
    lemma_image_picks_greedy(h, h, Set::empty(), k);
    lemma_image_picks_distinct(h, k);
    assert forall|v: int| 0 <= v < 256 implies #[trigger] h[v] == byte_count(data, v) by {
        lemma_byte_count_le_len(data, v);
    }
    assert forall|a: int, x: int|
        #![trigger p[a], byte_count(data, x)]
        0 <= a < p.len() && 1 <= x < 256 && !picked_before(p, a, x) implies byte_count(data, x)
            <= byte_count(data, p[a] as int) by {
        assert(h[x] <= h[p[a] as int]);
        assert(h[x] == byte_count(data, x));
        assert(h[p[a] as int] == byte_count(data, p[a] as int));
    }
    assert forall|a: int, b: int|
        #![trigger p[a], p[b]]
        0 <= a < b < p.len() implies byte_count(data, p[b] as int) <= byte_count(data, p[a] as int) by {
        let x = p[b] as int;
        assert(!picked_before(p, a, x)) by {
            if picked_before(p, a, x) {
                let c = choose|c: int| 0 <= c < a && p[c] == x;
                assert(p[c] != p[b]);
            }
        }
        assert(h[x] <= h[p[a] as int]);
        assert(h[x] == byte_count(data, x));
        assert(h[p[a] as int] == byte_count(data, p[a] as int));
    }
    assert forall|a: int, x: int|
        #![trigger p[a], byte_count(data, x)]
        0 <= a < p.len() && 1 <= x < 256 && !picked_before(p, p.len() as int, x) implies byte_count(
            data,
            x,
        ) <= byte_count(data, p[a] as int) by {
        assert(!picked_before(p, a, x)) by {
            if picked_before(p, a, x) {
                let c = choose|c: int| 0 <= c < a && p[c] == x;
                assert(0 <= c < p.len() && p[c] == x);
            }
        }
        assert(h[x] <= h[p[a] as int]);
        assert(h[x] == byte_count(data, x));
        assert(h[p[a] as int] == byte_count(data, p[a] as int));
    }
}

/// An id handed out is below every id handed out later: the next search
/// starts just past it.
pub proof fn law_allocated_ids_increase(before: FeatureIdCounts, after: FeatureIdCounts, id: int)
    requires
        allocation_step(before, after, id),
    ensures
        after.disk + after.ram == id + 1,
{
}

proof fn lemma_allocation_counts_grow(counts: Seq<FeatureIdCounts>, ids: Seq<int>, i: int, j: int)
    requires
        counts.len() == ids.len() + 1,
        forall|n: int| 0 <= n < ids.len() ==> #[trigger] allocation_step(counts[n], counts[n + 1], ids[n]),
        0 <= i <= j < counts.len(),
    ensures
        counts[i].disk + counts[i].ram <= counts[j].disk + counts[j].ram,
    decreases j - i,
{
    if i < j {
        lemma_allocation_counts_grow(counts, ids, i, j - 1);
        let n = j - 1;
        assert(allocation_step(counts[n], counts[n + 1], ids[n]));
    }
}

/// Repeated allocations hand out strictly increasing, hence pairwise
/// distinct, ids, none below where the first search started: `counts[n]` is
/// the counter before allocation `n`, which hands out `ids[n]`.
pub proof fn law_allocated_ids_distinct(counts: Seq<FeatureIdCounts>, ids: Seq<int>)
    requires
        counts.len() == ids.len() + 1,
        forall|n: int| 0 <= n < ids.len() ==> #[trigger] allocation_step(counts[n], counts[n + 1], ids[n]),
    ensures
        forall|a: int, b: int| 0 <= a < b < ids.len() ==> ids[a] < ids[b],
        forall|a: int, b: int| 0 <= a < ids.len() && 0 <= b < ids.len() && a != b ==> ids[a] != ids[b],
        forall|a: int| 0 <= a < ids.len() ==> counts[0].disk + counts[0].ram <= #[trigger] ids[a],
{
    assert forall|a: int, b: int| 0 <= a < b < ids.len() implies ids[a] < ids[b] by {
        assert(allocation_step(counts[a], counts[a + 1], ids[a]));
        assert(allocation_step(counts[b], counts[b + 1], ids[b]));
        lemma_allocation_counts_grow(counts, ids, a + 1, b);
    }
    assert forall|a: int| 0 <= a < ids.len() implies counts[0].disk + counts[0].ram <= #[trigger] ids[a] by {
        assert(allocation_step(counts[a], counts[a + 1], ids[a]));
        lemma_allocation_counts_grow(counts, ids, 0, a);
    }
    assert forall|a: int, b: int| 0 <= a < ids.len() && 0 <= b < ids.len() && a != b implies ids[a] != ids[b] by {
        if a < b {
            assert(ids[a] < ids[b]);
        } else {
            assert(ids[b] < ids[a]);
        }
    }
}

/// The layer name taken from subdataset metadata holds no colon and ends the
/// entry; an entry without a colon is the name itself.
pub proof fn law_layer_name_is_colon_free_suffix(entry: Seq<char>)
    ensures
        forall|j: int| 0 <= j < after_last_colon(entry).len() ==> after_last_colon(entry)[j] != ':',
        entry.subrange(entry.len() - after_last_colon(entry).len(), entry.len() as int)
            == after_last_colon(entry),
        (forall|j: int| 0 <= j < entry.len() ==> entry[j] != ':') ==> after_last_colon(entry)
            == entry,
    decreases entry.len(),
{
    lemma_last_colon(entry);
    let s = after_last_colon(entry);
    let p = last_colon(entry);
    assert forall|j: int| 0 <= j < s.len() implies s[j] != ':' by {
        assert(s[j] == entry[p + 1 + j]);
    }
    assert(entry.subrange(entry.len() - s.len(), entry.len() as int) =~= s);
    if forall|j: int| 0 <= j < entry.len() ==> entry[j] != ':' {
        if p >= 0 {
            assert(entry[p] == ':');
        }
        assert(s =~= entry);
    }
}

/// The EPSG authority is recognised in any mix of ASCII cases.
pub proof fn law_epsg_name_ignores_case()
    ensures
        is_epsg_name("EPSG"@),
        is_epsg_name("epsg"@),
        is_epsg_name("Epsg"@),
        !is_epsg_name("ESRI"@),
{
    reveal_strlit("EPSG");
    reveal_strlit("epsg");
    reveal_strlit("Epsg");
    reveal_strlit("ESRI");
}


proof fn lemma_sampled_every_step(s: Seq<u64>, c: int, i: int)
    requires
        c >= 1,
        0 <= i <= s.len(),
    ensures
        sampled_upto(s, c, i) =~= Seq::new(((i + c - 1) / c) as nat, |p: int| s[c * p]),
    decreases i,
{
    if i > 0 {
        lemma_sampled_every_step(s, c, i - 1);
        let q = (i - 1) / c;
        let r = (i - 1) % c;
        assert(i - 1 == c * q + r && 0 <= r < c) by (nonlinear_arith)
            requires
                c >= 1,
                i >= 1,
                q == (i - 1) / c,
                r == (i - 1) % c,
        ;
        if r == 0 {
            assert((i + c - 1) / c == q + 1 && (i - 1 + c - 1) / c == q) by (nonlinear_arith)
                requires
                    c >= 1,
                    i - 1 == c * q,
                    q >= 0,
            ;
        } else {
            assert((i + c - 1) / c == q + 1 && (i - 1 + c - 1) / c == q + 1) by (nonlinear_arith)
                requires
                    c >= 1,
                    i - 1 == c * q + r,
                    1 <= r < c,
                    q >= 0,
            ;
        }
    } else {
        assert((c - 1) / c == 0) by (nonlinear_arith)
            requires
                c >= 1,
        ;
    }
}

/// The histogram of a tile counts one sample per pixel: for an RGBA tile the
/// first of every four samples, for an RGB tile the first of every three,
/// and every sample for the other formats; bin `v` of an RGB or RGBA tile's
/// histogram is the number of pixels whose first channel is `v`.
pub proof fn law_histogram_counts_first_channel_per_pixel(s: Seq<u64>)
    ensures
        sampled_upto(s, histogram_step(Format::Rgba), s.len() as int) =~= Seq::new(
            ((s.len() + 3) / 4) as nat,
            |p: int| s[4 * p],
        ),
        sampled_upto(s, histogram_step(Format::Rgb), s.len() as int) =~= Seq::new(
            ((s.len() + 2) / 3) as nat,
            |p: int| s[3 * p],
        ),
        sampled_upto(s, histogram_step(Format::Byte), s.len() as int) =~= s,
        sampled_upto(s, histogram_step(Format::Rf), s.len() as int) =~= s,
        sampled_upto(s, histogram_step(Format::Mixed), s.len() as int) =~= s,
        sampled_upto(s, histogram_step(Format::Unknown), s.len() as int) =~= s,
        forall|v: int|
            0 <= v < HISTOGRAM_BINS ==> #[trigger] histogram_spec(s, histogram_step(Format::Rgba))[v]
                == count_of(Seq::new(((s.len() + 3) / 4) as nat, |p: int| s[4 * p]), v) as u64,
        forall|v: int|
            0 <= v < HISTOGRAM_BINS ==> #[trigger] histogram_spec(s, histogram_step(Format::Rgb))[v]
                == count_of(Seq::new(((s.len() + 2) / 3) as nat, |p: int| s[3 * p]), v) as u64,
{
    lemma_sampled_every_step(s, 4, s.len() as int);
    lemma_sampled_every_step(s, 3, s.len() as int);
    lemma_sampled_every_step(s, 1, s.len() as int);
    assert((s.len() + 1 - 1) / 1 == s.len());
}

/// A whole-tile read reads every band that makes up a pixel: one band for
/// byte and float rasters, three for RGB, four for RGBA, and none only when
/// the window lies wholly outside the raster; mixed and unknown rasters
/// cannot be read. The array holds that many values per pixel.
pub proof fn law_whole_tile_reads_every_band_of_a_pixel(m: GeoRasterModel)
    ensures
        !m.has_usable_window() ==> m.array_band_count() == Ok::<int, RasterError>(0),
        m.has_usable_window() && (m.format == Format::Byte || m.format == Format::Rf)
            ==> m.array_band_count() == Ok::<int, RasterError>(1),
        m.has_usable_window() && m.format == Format::Rgb ==> m.array_band_count() == Ok::<
            int,
            RasterError,
        >(3),
        m.has_usable_window() && m.format == Format::Rgba ==> m.array_band_count() == Ok::<
            int,
            RasterError,
        >(4),
        m.has_usable_window() && (m.format == Format::Mixed || m.format == Format::Unknown)
            ==> m.array_band_count() == Err::<int, RasterError>(
            RasterError::FormatNotReadable(m.format),
        ),
        m.format == Format::Rgb ==> m.array_len() == m.pixel_count() * 3,
        m.format == Format::Rgba ==> m.array_len() == m.pixel_count() * 4,
        m.format != Format::Rgb && m.format != Format::Rgba ==> m.array_len() == m.pixel_count(),
{
}

/// A dataset's format follows its bands: RGBA exactly for four byte bands,
/// RGB exactly for three; byte when every band is a byte band and there are
/// neither three nor four; float when every band shares the first band's
/// float type; mixed when a byte (other than three or four bands) or float
/// raster has a band of another type; unknown for any other first band type;
/// none when the first band is missing.
pub proof fn law_format_follows_band_types(t: Seq<Option<BandDataType>>)
    ensures
        format_of_bands(t) is None <==> (t.len() == 0 || t[0] is None),
        format_of_bands(t) == Some(Format::Rgba) <==> (t.len() == 4 && t[0] == Some(
            BandDataType::UInt8,
        )),
        format_of_bands(t) == Some(Format::Rgb) <==> (t.len() == 3 && t[0] == Some(
            BandDataType::UInt8,
        )),
        format_of_bands(t) == Some(Format::Byte) <==> (t.len() > 0 && t.len() != 3 && t.len() != 4
            && forall|i: int| 0 <= i < t.len() ==> #[trigger] t[i] == Some(BandDataType::UInt8)),
        format_of_bands(t) == Some(Format::Rf) <==> (t.len() > 0 && (t[0] == Some(
            BandDataType::Float32,
        ) || t[0] == Some(BandDataType::Float64)) && forall|i: int|
            0 <= i < t.len() ==> #[trigger] t[i] == t[0]),
        format_of_bands(t) == Some(Format::Mixed) <==> (t.len() > 0 && ((t[0] == Some(
            BandDataType::UInt8,
        ) && t.len() != 3 && t.len() != 4) || t[0] == Some(BandDataType::Float32) || t[0] == Some(
            BandDataType::Float64,
        )) && exists|i: int| 0 <= i < t.len() && #[trigger] t[i] != t[0]),
        format_of_bands(t) == Some(Format::Unknown) <==> (t.len() > 0 && t[0] is Some && t[0]
            != Some(BandDataType::UInt8) && t[0] != Some(BandDataType::Float32) && t[0] != Some(
            BandDataType::Float64,
        )),
{
    if t.len() > 0 && t[0] is Some {
        assert(t[0] == Some(t[0]->Some_0));
    }
}

/// The format of a single band follows its data type: a byte band is
/// `Byte`, a 32- or 64-bit float band is `Rf`, and any other band, or a
/// band index that names no band, is `Unknown`.
pub proof fn law_band_format_follows_data_type(m: GeoRasterModel, i: int)
    ensures
        m.band_format(i) == Format::Byte <==> (1 <= i <= m.band_types.len() && m.band_types[i - 1]
            == Some(BandDataType::UInt8)),
        m.band_format(i) == Format::Rf <==> (1 <= i <= m.band_types.len() && (m.band_types[i - 1]
            == Some(BandDataType::Float32) || m.band_types[i - 1] == Some(BandDataType::Float64))),
        m.band_format(i) == Format::Byte || m.band_format(i) == Format::Rf || m.band_format(i)
            == Format::Unknown,
{
}


/// The names of the given modes, separated by `", "`.
pub open spec fn listed_names(modes: Seq<Interpolation>) -> Seq<char>
    decreases modes.len(),
{
    if modes.len() == 0 {
        Seq::empty()
    } else if modes.len() == 1 {
        interpolation_name(modes[0])
    } else {
        interpolation_name(modes[0]) + ", "@ + listed_names(modes.drop_first())
    }
}

/// The order in which modes are numbered is the order the conversion's
/// error message lists them in: the message names the value and then all
/// modes, the mode at index `i` being the `i`-th listed.
pub proof fn law_interpolation_order_is_the_listed_order(value: nat)
    ensures
        out_of_range_message(value) == "Value '"@ + decimal(value)
            + "' is not a possible value from ["@ + listed_names(interpolation_order()) + "]"@,
{
    reveal_strlit("Value '");
    reveal_strlit("' is not a possible value from [NearestNeighbour, Bilinear, Cubic, CubicSpline, Lanczos, Average, Mode, Max, Min, Med, Q1, Q2]");
    reveal_strlit("' is not a possible value from [");
    reveal_strlit("]");
    reveal_strlit(", ");
    reveal_strlit("NearestNeighbour");
    reveal_strlit("Bilinear");
    reveal_strlit("Cubic");
    reveal_strlit("CubicSpline");
    reveal_strlit("Lanczos");
    reveal_strlit("Average");
    reveal_strlit("Mode");
    reveal_strlit("Max");
    reveal_strlit("Min");
    reveal_strlit("Med");
    reveal_strlit("Q1");
    reveal_strlit("Q2");
    let o = interpolation_order();
    reveal_strlit("NearestNeighbour, Bilinear, Cubic, CubicSpline, Lanczos, Average, Mode, Max, Min, Med, Q1, Q2");
    assert(o.subrange(0, 12) =~= o);
    assert(listed_names(o.subrange(11, 12)) == "Q2"@);
    assert(o.subrange(10, 12).drop_first() =~= o.subrange(11, 12));
    assert(listed_names(o.subrange(10, 12)) == "Q1"@ + ", "@ + listed_names(o.subrange(11, 12)));
    assert(o.subrange(9, 12).drop_first() =~= o.subrange(10, 12));
    assert(listed_names(o.subrange(9, 12)) == "Med"@ + ", "@ + listed_names(o.subrange(10, 12)));
    assert(o.subrange(8, 12).drop_first() =~= o.subrange(9, 12));
    assert(listed_names(o.subrange(8, 12)) == "Min"@ + ", "@ + listed_names(o.subrange(9, 12)));
    assert(o.subrange(7, 12).drop_first() =~= o.subrange(8, 12));
    assert(listed_names(o.subrange(7, 12)) == "Max"@ + ", "@ + listed_names(o.subrange(8, 12)));
    assert(o.subrange(6, 12).drop_first() =~= o.subrange(7, 12));
    assert(listed_names(o.subrange(6, 12)) == "Mode"@ + ", "@ + listed_names(o.subrange(7, 12)));
    assert(o.subrange(5, 12).drop_first() =~= o.subrange(6, 12));
    assert(listed_names(o.subrange(5, 12)) == "Average"@ + ", "@ + listed_names(o.subrange(6, 12)));
    assert(o.subrange(4, 12).drop_first() =~= o.subrange(5, 12));
    assert(listed_names(o.subrange(4, 12)) == "Lanczos"@ + ", "@ + listed_names(o.subrange(5, 12)));
    assert(o.subrange(3, 12).drop_first() =~= o.subrange(4, 12));
    assert(listed_names(o.subrange(3, 12)) == "CubicSpline"@ + ", "@ + listed_names(o.subrange(4, 12)));
    assert(o.subrange(2, 12).drop_first() =~= o.subrange(3, 12));
    assert(listed_names(o.subrange(2, 12)) == "Cubic"@ + ", "@ + listed_names(o.subrange(3, 12)));
    assert(o.subrange(1, 12).drop_first() =~= o.subrange(2, 12));
    assert(listed_names(o.subrange(1, 12)) == "Bilinear"@ + ", "@ + listed_names(o.subrange(2, 12)));
    assert(o.subrange(0, 12).drop_first() =~= o.subrange(1, 12));
    assert(listed_names(o.subrange(0, 12)) == "NearestNeighbour"@ + ", "@ + listed_names(o.subrange(1, 12)));
    assert(listed_names(o) =~= "NearestNeighbour, Bilinear, Cubic, CubicSpline, Lanczos, Average, Mode, Max, Min, Med, Q1, Q2"@);
    assert("' is not a possible value from [NearestNeighbour, Bilinear, Cubic, CubicSpline, Lanczos, Average, Mode, Max, Min, Med, Q1, Q2]"@
        =~= "' is not a possible value from ["@ + listed_names(o) + "]"@);
}

} // verus!
