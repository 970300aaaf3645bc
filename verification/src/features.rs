//! Vector features: the behaviour every feature offers, the general feature
//! record, and the holder that identifies features by their state.
use vstd::prelude::*;
use crate::attributes::AttributeMap;
use crate::geometry::GeometryType;

verus! {

/// Every name of `a` is a name of `b` with the same value.
pub open spec fn attributes_included(
    a: Map<Seq<char>, Seq<char>>,
    b: Map<Seq<char>, Seq<char>>,
) -> bool {
    forall|k: Seq<char>| #[trigger] a.dom().contains(k) ==> b.dom().contains(k) && b[k] == a[k]
}

/// What a vector feature offers: a deletion flag, string attributes, an
/// optional feature id and a geometry type.
pub trait Feature {
    fn set_deleted(&mut self, deleted: bool);

    fn is_deleted(&self) -> bool;

    fn get_attributes(&self) -> AttributeMap;

    fn get_attribute(&self, field_name: String) -> Option<String>;

    /// Updates the in-memory attribute; nothing is written to a dataset.
    fn set_attribute(&mut self, name: String, value: String);

    fn get_id(&self) -> Option<u64>;

    fn geometry_type(&self) -> GeometryType;
}

/// The observable state of a feature.
pub struct FeatureModel {
    pub geometry_type: GeometryType,
    pub is_deleted: bool,
    pub id: Option<u64>,
    pub attributes: Map<Seq<char>, Seq<char>>,
}

/// The observable state of a feature as plain values: geometry type,
/// deletion flag, id and attributes. Every kind of feature keeps its state
/// in one of these.
pub struct FeatureState {
    geometry_type: GeometryType,
    fid: Option<u64>,
    attributes: AttributeMap,
    is_deleted: bool,
}

impl View for FeatureState {
    type V = FeatureModel;

    closed spec fn view(&self) -> FeatureModel {
        FeatureModel {
            geometry_type: self.geometry_type,
            is_deleted: self.is_deleted,
            id: self.fid,
            attributes: self.attributes@,
        }
    }
}

impl FeatureState {
    /// A state with the given parts.
    pub fn from_parts(
        geometry_type: GeometryType,
        is_deleted: bool,
        fid: Option<u64>,
        attributes: AttributeMap,
    ) -> (r: FeatureState)
        ensures
            r@.geometry_type == geometry_type,
            r@.is_deleted == is_deleted,
            r@.id == fid,
            r@.attributes == attributes@,
    {
        FeatureState { geometry_type, fid, attributes, is_deleted }
    }

    /// The state of a feature just read from a dataset: the given geometry
    /// type and id, not deleted, and the attributes the field values yield
    /// (see `fields_map`).
    pub fn from_field_values(
        geometry_type: GeometryType,
        fid: Option<u64>,
        fields: Vec<(String, Option<String>)>,
    ) -> (r: FeatureState)
        ensures
            r@.geometry_type == geometry_type,
            !r@.is_deleted,
            r@.id == fid,
            r@.attributes == fields_map(fields@),
    {
        let mut attributes = AttributeMap::new();
        let n = fields.len();
        let mut i: usize = 0;
        while i < n
            invariant
                n == fields@.len(),
                i <= n,
                attributes@ == fields_map(fields@.subrange(0, i as int)),
            decreases n - i,
        {
            let ghost prefix = fields@.subrange(0, i as int + 1);
            assert(prefix.drop_last() =~= fields@.subrange(0, i as int));
            match &fields[i].1 {
                Some(value) => {
                    attributes.insert(fields[i].0.clone(), value.clone());
                },
                None => {},
            }
            i = i + 1;
        }
        assert(fields@.subrange(0, n as int) =~= fields@);
        FeatureState { geometry_type, fid, attributes, is_deleted: false }
    }

    pub fn set_deleted(&mut self, deleted: bool)
        ensures
            final(self)@.is_deleted == deleted,
            final(self)@.geometry_type == old(self)@.geometry_type,
            final(self)@.id == old(self)@.id,
            final(self)@.attributes == old(self)@.attributes,
    {
        self.is_deleted = deleted;
    }

    pub fn is_deleted(&self) -> (r: bool)
        ensures
            r == self@.is_deleted,
    {
        self.is_deleted
    }

    pub fn get_attributes(&self) -> (r: AttributeMap)
        ensures
            r@ == self@.attributes,
    {
        self.attributes.duplicate()
    }

    pub fn get_attribute(&self, field_name: String) -> (r: Option<String>)
        ensures
            r is Some <==> self@.attributes.dom().contains(field_name@),
            r matches Some(v) ==> v@ == self@.attributes[field_name@],
    {
        self.attributes.get(field_name.as_str())
    }

    /// Updates the in-memory attribute; nothing is written to a dataset.
    pub fn set_attribute(&mut self, name: String, value: String)
        ensures
            final(self)@.attributes == old(self)@.attributes.insert(name@, value@),
            final(self)@.is_deleted == old(self)@.is_deleted,
            final(self)@.geometry_type == old(self)@.geometry_type,
            final(self)@.id == old(self)@.id,
    {
        self.attributes.insert(name, value);
    }

    pub fn get_id(&self) -> (r: Option<u64>)
        ensures
            r == self@.id,
    {
        self.fid
    }

    pub fn geometry_type(&self) -> (r: GeometryType)
        ensures
            r == self@.geometry_type,
    {
        self.geometry_type
    }

    /// The identifying state: geometry type, deletion flag and id.
    pub fn identity(&self) -> (r: FeatureIdentity)
        ensures
            r.geometry_type == self@.geometry_type,
            r.is_deleted == self@.is_deleted,
            r.fid == self@.id,
    {
        FeatureIdentity { geometry_type: self.geometry_type, is_deleted: self.is_deleted, fid: self.fid }
    }

    /// A copy with the same state.
    pub fn duplicate(&self) -> (r: FeatureState)
        ensures
            r@ == self@,
    {
        FeatureState {
            geometry_type: self.geometry_type,
            fid: self.fid,
            attributes: self.attributes.duplicate(),
            is_deleted: self.is_deleted,
        }
    }
}

impl Clone for FeatureState {
    fn clone(&self) -> (r: Self)
        ensures
            r@ == self@,
    {
        self.duplicate()
    }
}

/// The part of a feature's state that decides equality of general features
/// and that hashing uses: geometry type, deletion flag and id.
#[derive(Debug, PartialEq, Eq, Structural, Copy, Clone, Hash)]
pub struct FeatureIdentity {
    pub geometry_type: GeometryType,
    pub is_deleted: bool,
    pub fid: Option<u64>,
}

/// The attributes a list of read field values yields: fields without a value
/// are skipped, and a later field overrides an earlier one of the same name.
pub open spec fn fields_map(fields: Seq<(String, Option<String>)>) -> Map<Seq<char>, Seq<char>>
    decreases fields.len(),
{
    if fields.len() == 0 {
        Map::empty()
    } else {
        let rest = fields_map(fields.drop_last());
        match fields.last().1 {
            Some(v) => rest.insert(fields.last().0@, v@),
            None => rest,
        }
    }
}

/// A feature whose geometry is not interpreted further: it only records
/// whether a geometry is present.
pub struct UnknownFeature {
    state: FeatureState,
}

impl View for UnknownFeature {
    type V = FeatureModel;

    closed spec fn view(&self) -> FeatureModel {
        self.state@
    }
}

impl UnknownFeature {
    /// Builds the feature from what was read of a dataset feature: whether it
    /// has a geometry, its id, and each field's name with its value as text
    /// (`None` where the field is null or has no text form).
    pub fn from_field_values(
        has_geometry: bool,
        fid: Option<u64>,
        fields: Vec<(String, Option<String>)>,
    ) -> (r: UnknownFeature)
        ensures
            r@.geometry_type == (if has_geometry {
                GeometryType::Unknown
            } else {
                GeometryType::NoGeometry
            }),
            r@.id == fid,
            r@.attributes == fields_map(fields@),
            !r@.is_deleted,
    {
        let geometry_type = if has_geometry {
            GeometryType::Unknown
        } else {
            GeometryType::NoGeometry
        };
        UnknownFeature { state: FeatureState::from_field_values(geometry_type, fid, fields) }
    }

    /// The feature's observable state.
    pub fn state(&self) -> (r: &FeatureState)
        ensures
            r@ == self@,
    {
        &self.state
    }

    /// The identifying state of this feature; equal features have equal
    /// identities, so it is what a hash of the feature is taken over.
    pub fn identity(&self) -> (r: FeatureIdentity)
        ensures
            r.geometry_type == self@.geometry_type,
            r.is_deleted == self@.is_deleted,
            r.fid == self@.id,
    {
        self.state.identity()
    }
}

impl Feature for UnknownFeature {
    fn set_deleted(&mut self, deleted: bool)
        ensures
            final(self)@.is_deleted == deleted,
            final(self)@.geometry_type == old(self)@.geometry_type,
            final(self)@.id == old(self)@.id,
            final(self)@.attributes == old(self)@.attributes,
    {
        self.state.set_deleted(deleted);
    }

    fn is_deleted(&self) -> (r: bool)
        ensures
            r == self@.is_deleted,
    {
        self.state.is_deleted()
    }

    fn get_attributes(&self) -> (r: AttributeMap)
        ensures
            r@ == self@.attributes,
    {
        self.state.get_attributes()
    }

    fn get_attribute(&self, field_name: String) -> (r: Option<String>)
        ensures
            r is Some <==> self@.attributes.dom().contains(field_name@),
            r matches Some(v) ==> v@ == self@.attributes[field_name@],
    {
        self.state.get_attribute(field_name)
    }

    fn set_attribute(&mut self, name: String, value: String)
        ensures
            final(self)@.attributes == old(self)@.attributes.insert(name@, value@),
            final(self)@.is_deleted == old(self)@.is_deleted,
            final(self)@.geometry_type == old(self)@.geometry_type,
            final(self)@.id == old(self)@.id,
    {
        self.state.set_attribute(name, value);
    }

    fn get_id(&self) -> (r: Option<u64>)
        ensures
            r == self@.id,
    {
        self.state.get_id()
    }

    fn geometry_type(&self) -> (r: GeometryType)
        ensures
            r == self@.geometry_type,
    {
        self.state.geometry_type()
    }
}

impl Clone for UnknownFeature {
    fn clone(&self) -> (r: Self)
        ensures
            r@ == self@,
    {
        UnknownFeature { state: self.state.duplicate() }
    }
}

/// Two general features are the same when geometry type, deletion flag and id
/// agree; attributes are not compared.
pub open spec fn unknown_feature_eq(a: FeatureModel, b: FeatureModel) -> bool {
    &&& a.geometry_type == b.geometry_type
    &&& a.is_deleted == b.is_deleted
    &&& a.id == b.id
}

impl PartialEq for UnknownFeature {
    fn eq(&self, other: &Self) -> (r: bool) {
        let a = self.identity();
        let b = other.identity();
        let same_id = match (a.fid, b.fid) {
            (Some(x), Some(y)) => x == y,
            (None, None) => true,
            _ => false,
        };
        a.geometry_type == b.geometry_type && a.is_deleted == b.is_deleted && same_id
    }
}

impl vstd::std_specs::cmp::PartialEqSpecImpl for UnknownFeature {
    open spec fn obeys_eq_spec() -> bool {
        true
    }

    open spec fn eq_spec(&self, other: &UnknownFeature) -> bool {
        unknown_feature_eq(self@, other@)
    }
}

impl Eq for UnknownFeature {

}

/// When a holder counts as equal to another: same geometry type, deletion
/// flag, id and attributes.
pub open spec fn holder_eq(a: FeatureModel, b: FeatureModel) -> bool {
    &&& a.geometry_type == b.geometry_type
    &&& a.is_deleted == b.is_deleted
    &&& a.id == b.id
    &&& a.attributes == b.attributes
}

/// Whether every attribute of `mine` is present with the same value in
/// `theirs`.
fn attributes_contained(mine: &AttributeMap, theirs: &AttributeMap) -> (r: bool)
    ensures
        r == attributes_included(mine@, theirs@),
{
    let entries = mine.entries();
    let n = entries.len();
    let mut i: usize = 0;
    while i < n
        invariant
            n == entries@.len(),
            i <= n,
            forall|j: int|
                0 <= j < entries@.len() ==> mine@.dom().contains(#[trigger] entries@[j].0@)
                    && mine@[entries@[j].0@] == entries@[j].1@,
            forall|k: Seq<char>|
                #![trigger mine@.dom().contains(k)]
                mine@.dom().contains(k) ==> exists|j: int|
                    0 <= j < entries@.len() && entries@[j].0@ == k,
            forall|j: int|
                0 <= j < i ==> theirs@.dom().contains(#[trigger] entries@[j].0@)
                    && theirs@[entries@[j].0@] == entries@[j].1@,
        decreases n - i,
    {
        match theirs.get(entries[i].0.as_str()) {
            Some(value) => {
                if !(value == entries[i].1) {
                    assert(mine@.dom().contains(entries@[i as int].0@));
                    return false;
                }
            },
            None => {
                assert(mine@.dom().contains(entries@[i as int].0@));
                return false;
            },
        }
        i = i + 1;
    }
    assert forall|k: Seq<char>| #[trigger] mine@.dom().contains(k) implies theirs@.dom().contains(
        k,
    ) && theirs@[k] == mine@[k] by {
        let j = choose|j: int| 0 <= j < entries@.len() && entries@[j].0@ == k;
        assert(theirs@.dom().contains(entries@[j].0@));
    }
    true
}

/// Holds the observable state of a feature so that features can be compared
/// (and cached) by that state rather than by identity.
pub struct DynFeatureHolder(pub FeatureState);

impl PartialEq for DynFeatureHolder {
    fn eq(&self, other: &Self) -> (r: bool) {
        if self.0.geometry_type() != other.0.geometry_type() {
            return false;
        }
        if self.0.is_deleted() != other.0.is_deleted() {
            return false;
        }
        let same_id = match (self.0.get_id(), other.0.get_id()) {
            (Some(a), Some(b)) => a == b,
            (None, None) => true,
            _ => false,
        };
        if !same_id {
            return false;
        }
        let mine = self.0.get_attributes();
        let theirs = other.0.get_attributes();
        if !attributes_contained(&mine, &theirs) {
            return false;
        }
        if !attributes_contained(&theirs, &mine) {
            return false;
        }
        assert(mine@ =~= theirs@);
        true
    }
}

impl vstd::std_specs::cmp::PartialEqSpecImpl for DynFeatureHolder {
    open spec fn obeys_eq_spec() -> bool {
        true
    }

    open spec fn eq_spec(&self, other: &DynFeatureHolder) -> bool {
        holder_eq(self.0@, other.0@)
    }
}

impl Eq for DynFeatureHolder {

}

} // verus!
