//! Dataset-level text logic: raster layer names from subdataset metadata,
//! subdataset paths, and EPSG codes from a spatial reference's authority.
use vstd::prelude::*;
use vstd::string::{StrSliceExecFns, StringExecFns};

verus! {

/// Position of the last `':'` in `s`, or -1 when there is none.
pub open spec fn last_colon(s: Seq<char>) -> int
    decreases s.len(),
{
    if s.len() == 0 {
        -1
    } else if s.last() == ':' {
        s.len() - 1
    } else {
        last_colon(s.drop_last())
    }
}

/// The part of `s` after its last `':'` (all of `s` when there is none).
pub open spec fn after_last_colon(s: Seq<char>) -> Seq<char> {
    s.subrange(last_colon(s) + 1, s.len() as int)
}

/// The position `last_colon` reports holds the last colon of `s`.
pub proof fn lemma_last_colon(s: Seq<char>)
    ensures
        -1 <= last_colon(s) < s.len(),
        last_colon(s) >= 0 ==> s[last_colon(s)] == ':',
        forall|j: int| last_colon(s) < j < s.len() ==> s[j] != ':',
    decreases s.len(),
{
    if s.len() > 0 && s.last() != ':' {
        lemma_last_colon(s.drop_last());
        assert forall|j: int| last_colon(s) < j < s.len() - 1 implies s[j] != ':' by {
            assert(s.drop_last()[j] == s[j]);
        }
    }
}

/// The name of a layer given by one entry of a dataset's subdataset metadata
/// (such as `SUBDATASET_1_NAME=GPKG:/data/file.gpkg:dhm`): the text after the
/// entry's last colon.
pub fn subdataset_layer_name(entry: &str) -> (r: String)
    ensures
        r@ == after_last_colon(entry@),
{
    let n = entry.unicode_len();
    let mut start: usize = 0;
    let mut i: usize = 0;
    while i < n
        invariant
            n == entry@.len(),
            i <= n,
            start == last_colon(entry@.subrange(0, i as int)) + 1,
        decreases n - i,
    {
        assert(entry@.subrange(0, i as int + 1).drop_last() =~= entry@.subrange(0, i as int));
        if entry.get_char(i) == ':' {
            start = i + 1;
        }
        i = i + 1;
    }
    assert(entry@.subrange(0, n as int) =~= entry@);
    proof {
        lemma_last_colon(entry@);
    }
    String::from_str(entry.substring_char(start, n))
}

/// Position of the first `'='` in `s`, or -1 when there is none.
pub open spec fn first_equals(s: Seq<char>) -> int
    decreases s.len(),
{
    if s.len() == 0 {
        -1
    } else if s.last() == '=' && first_equals(s.drop_last()) < 0 {
        s.len() - 1
    } else {
        first_equals(s.drop_last())
    }
}

/// Whether a subdataset metadata entry is a name entry: its key (the text
/// before the first `'='`) ends in `_NAME`, as in
/// `SUBDATASET_1_NAME=GPKG:/data/file.gpkg:dhm`; description entries
/// (`SUBDATASET_1_DESC=...`) are not.
pub open spec fn is_name_entry(s: Seq<char>) -> bool {
    let p = first_equals(s);
    &&& p >= 5
    &&& s[p - 5] == '_'
    &&& s[p - 4] == 'N'
    &&& s[p - 3] == 'A'
    &&& s[p - 2] == 'M'
    &&& s[p - 1] == 'E'
}

/// The layer names of the name entries among `entries`, in order.
pub open spec fn layer_names_of(entries: Seq<String>) -> Seq<Seq<char>>
    decreases entries.len(),
{
    if entries.len() == 0 {
        Seq::empty()
    } else if is_name_entry(entries.last()@) {
        layer_names_of(entries.drop_last()).push(after_last_colon(entries.last()@))
    } else {
        layer_names_of(entries.drop_last())
    }
}

proof fn lemma_first_equals(s: Seq<char>)
    ensures
        -1 <= first_equals(s) < s.len(),
        first_equals(s) >= 0 ==> s[first_equals(s)] == '=',
        forall|j: int| 0 <= j < s.len() && (first_equals(s) < 0 || j < first_equals(s)) ==> s[j]
            != '=',
    decreases s.len(),
{
    if s.len() > 0 {
        lemma_first_equals(s.drop_last());
        assert forall|j: int| 0 <= j < s.len() - 1 implies s.drop_last()[j] == s[j] by {}
    }
}

/// Whether `entry` is a name entry (see `is_name_entry`).
fn is_subdataset_name_entry(entry: &str) -> (r: bool)
    ensures
        r == is_name_entry(entry@),
{
    let n = entry.unicode_len();
    let mut i: usize = 0;
    while i < n
        invariant
            n == entry@.len(),
            i <= n,
            forall|j: int| 0 <= j < i ==> entry@[j] != '=',
        ensures
            i <= n,
            forall|j: int| 0 <= j < i ==> entry@[j] != '=',
            i < n ==> entry@[i as int] == '=',
        decreases n - i,
    {
        if entry.get_char(i) == '=' {
            break;
        }
        i = i + 1;
    }
    proof {
        lemma_first_equals(entry@);
    }
    if i == n {
        assert(first_equals(entry@) < 0);
        return false;
    }
    assert(first_equals(entry@) == i);
    if i < 5 {
        return false;
    }
    entry.get_char(i - 5) == '_' && entry.get_char(i - 4) == 'N' && entry.get_char(i - 3) == 'A'
        && entry.get_char(i - 2) == 'M' && entry.get_char(i - 1) == 'E'
}

/// The raster layer names listed in a dataset's subdataset metadata: each
/// name entry (`SUBDATASET_<n>_NAME=...`) contributes the text after its last
/// colon; description entries contribute nothing.
pub fn raster_layer_names(subdataset_metadata: &Vec<String>) -> (r: Vec<String>)
    ensures
        r@.len() == layer_names_of(subdataset_metadata@).len(),
        forall|i: int| 0 <= i < r@.len() ==> #[trigger] r@[i]@ == layer_names_of(subdataset_metadata@)[i],
{
    let mut names: Vec<String> = Vec::new();
    let n = subdataset_metadata.len();
    let mut i: usize = 0;
    while i < n
        invariant
            n == subdataset_metadata@.len(),
            i <= n,
            names@.len() == layer_names_of(subdataset_metadata@.subrange(0, i as int)).len(),
            forall|j: int|
                0 <= j < names@.len() ==> #[trigger] names@[j]@ == layer_names_of(
                    subdataset_metadata@.subrange(0, i as int),
                )[j],
        decreases n - i,
    {
        assert(subdataset_metadata@.subrange(0, i as int + 1).drop_last()
            =~= subdataset_metadata@.subrange(0, i as int));
        if is_subdataset_name_entry(subdataset_metadata[i].as_str()) {
            names.push(subdataset_layer_name(subdataset_metadata[i].as_str()));
        }
        i = i + 1;
    }
    assert(subdataset_metadata@.subrange(0, n as int) =~= subdataset_metadata@);
    names
}

/// The path that opens layer `name` of the GeoPackage at `path` as a
/// dataset of its own: `GPKG:<path>:<name>`.
pub fn subdataset_path(path: &str, name: &str) -> (r: String)
    ensures
        r@ == "GPKG:"@ + path@ + ":"@ + name@,
{
    let mut r = String::from_str("GPKG:");
    r.append(path);
    r.append(":");
    r.append(name);
    r
}

/// `c` with ASCII upper-case letters turned into lower-case ones.
pub open spec fn ascii_lower(c: char) -> char {
    if 'A' <= c <= 'Z' {
        ((c as u32) + 32) as char
    } else {
        c
    }
}

/// Whether `s` is `"epsg"` in any mix of ASCII cases.
pub open spec fn is_epsg_name(s: Seq<char>) -> bool {
    &&& s.len() == 4
    &&& ascii_lower(s[0]) == 'e'
    &&& ascii_lower(s[1]) == 'p'
    &&& ascii_lower(s[2]) == 's'
    &&& ascii_lower(s[3]) == 'g'
}

fn lower_is(c: char, lower: char, upper: char) -> (r: bool)
    requires
        'A' <= upper <= 'Z',
        lower as u32 == upper as u32 + 32,
    ensures
        r == (ascii_lower(c) == lower),
{
    c == lower || c == upper
}

/// The EPSG code of a spatial reference: its authority code, when the
/// authority is named "EPSG" (ignoring ASCII case) and the code is known.
pub fn epsg_code_from_authority(auth_name: Option<String>, auth_code: Option<i32>) -> (r: Option<
    i32,
>)
    ensures
        r == (match (auth_name, auth_code) {
            (Some(name), Some(code)) => if is_epsg_name(name@) {
                Some(code)
            } else {
                None
            },
            _ => None,
        }),
{
    match (auth_name, auth_code) {
        (Some(name), Some(code)) => {
            let s = name.as_str();
            if s.unicode_len() == 4 && lower_is(s.get_char(0), 'e', 'E') && lower_is(
                s.get_char(1),
                'p',
                'P',
            ) && lower_is(s.get_char(2), 's', 'S') && lower_is(s.get_char(3), 'g', 'G') {
                Some(code)
            } else {
                None
            }
        },
        _ => None,
    }
}

} // verus!
