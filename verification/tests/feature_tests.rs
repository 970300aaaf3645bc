use std::collections::hash_map::DefaultHasher;
use std::hash::{Hash, Hasher};

use geodot::{AttributeMap, DynFeatureHolder, Feature, FeatureState, GeometryType, UnknownFeature};

/// The state of a feature with the given identity-relevant properties.
fn feature_state(
    geometry_type: GeometryType,
    is_deleted: bool,
    id: Option<u64>,
    attributes: Vec<(String, String)>,
) -> FeatureState {
    let mut map = AttributeMap::new();
    for (k, v) in attributes {
        map.insert(k, v);
    }
    FeatureState::from_parts(geometry_type, is_deleted, id, map)
}

fn hash_of<T: Hash>(value: &T) -> u64 {
    let mut hasher = DefaultHasher::new();
    value.hash(&mut hasher);
    hasher.finish()
}

fn vienna() -> Vec<(String, String)> {
    vec![("name".to_string(), "vienna".to_string())]
}

#[test]
fn holders_with_identical_state_are_equal() {
    let a = DynFeatureHolder(feature_state(GeometryType::Point, false, Some(1), vienna()));
    let b = DynFeatureHolder(feature_state(GeometryType::Point, false, Some(1), vienna()));
    assert!(a == b);
}

#[test]
fn holders_differing_in_geometry_type_are_not_equal() {
    let a = DynFeatureHolder(feature_state(GeometryType::Point, false, Some(1), vec![]));
    let b = DynFeatureHolder(feature_state(GeometryType::Line, false, Some(1), vec![]));
    assert!(a != b);
}

#[test]
fn holders_differing_in_attributes_are_not_equal() {
    let a = DynFeatureHolder(feature_state(GeometryType::Point, false, Some(1), vienna()));
    let b = DynFeatureHolder(feature_state(GeometryType::Point, false, Some(1), vec![]));
    assert!(a != b);
}

#[test]
fn holders_differing_in_deleted_flag_are_not_equal() {
    let a = DynFeatureHolder(feature_state(GeometryType::Point, false, Some(1), vec![]));
    let b = DynFeatureHolder(feature_state(GeometryType::Point, true, Some(1), vec![]));
    assert!(a != b);
}

#[test]
fn holders_differing_in_id_are_not_equal() {
    let a = DynFeatureHolder(feature_state(GeometryType::Point, false, Some(1), vec![]));
    let b = DynFeatureHolder(feature_state(GeometryType::Point, false, None, vec![]));
    assert!(a != b);
}

#[test]
fn holder_equality_is_symmetric_in_attributes() {
    // A holder missing an attribute of the other is unequal to it either way
    // round; holders with the same attributes are equal both ways.
    let fewer = DynFeatureHolder(feature_state(GeometryType::Point, false, Some(1), vec![]));
    let more = DynFeatureHolder(feature_state(GeometryType::Point, false, Some(1), vienna()));
    assert!(fewer != more);
    assert!(more != fewer);
    let same = DynFeatureHolder(feature_state(GeometryType::Point, false, Some(1), vienna()));
    assert!(more == same);
    assert!(same == more);
}

#[test]
fn holder_equality_compares_attribute_values() {
    let a = DynFeatureHolder(feature_state(GeometryType::Point, false, Some(1), vienna()));
    let b = DynFeatureHolder(feature_state(
        GeometryType::Point,
        false,
        Some(1),
        vec![("name".to_string(), "graz".to_string())],
    ));
    assert!(a != b);
}

fn point_feature_without_fields() -> UnknownFeature {
    UnknownFeature::from_field_values(true, None, vec![])
}

#[test]
fn geometry_type_is_unknown_when_geometry_present() {
    let unknown = point_feature_without_fields();
    assert_eq!(unknown.geometry_type(), GeometryType::Unknown);
}

#[test]
fn geometry_type_is_none_when_geometry_absent() {
    let unknown = UnknownFeature::from_field_values(false, None, vec![]);
    assert_eq!(unknown.geometry_type(), GeometryType::NoGeometry);
}

#[test]
fn extracts_and_overwrites_attributes() {
    let mut unknown = UnknownFeature::from_field_values(
        false,
        None,
        vec![("key".to_string(), Some("value".to_string()))],
    );
    assert_eq!(
        unknown.get_attribute("key".to_string()),
        Some("value".to_string())
    );
    unknown.set_attribute("key".to_string(), "updated".to_string());
    assert_eq!(
        unknown.get_attribute("key".to_string()),
        Some("updated".to_string())
    );
}

#[test]
fn unknown_feature_deletion_flag_round_trips() {
    let mut unknown = UnknownFeature::from_field_values(false, None, vec![]);
    assert!(!unknown.is_deleted());
    unknown.set_deleted(true);
    assert!(unknown.is_deleted());
}

#[test]
fn unknown_feature_equality_and_hashing_are_consistent() {
    let a = point_feature_without_fields();
    let b = a.clone();
    assert!(a == b);
    assert_eq!(hash_of(&a.identity()), hash_of(&b.identity()));

    let mut c = a.clone();
    c.set_deleted(true);
    assert!(a != c);
}

#[test]
fn null_fields_are_skipped_and_later_fields_win() {
    let feature = UnknownFeature::from_field_values(
        true,
        Some(7),
        vec![
            ("name".to_string(), Some("first".to_string())),
            ("empty".to_string(), None),
            ("name".to_string(), Some("second".to_string())),
        ],
    );
    assert_eq!(feature.get_id(), Some(7));
    assert_eq!(feature.get_attribute("name".to_string()), Some("second".to_string()));
    assert_eq!(feature.get_attribute("empty".to_string()), None);
    assert_eq!(feature.get_attributes().len(), 1);
}

#[test]
fn set_attribute_keeps_other_attributes_and_identity() {
    let mut feature = UnknownFeature::from_field_values(
        true,
        Some(3),
        vec![
            ("a".to_string(), Some("1".to_string())),
            ("b".to_string(), Some("2".to_string())),
        ],
    );
    feature.set_attribute("c".to_string(), "3".to_string());
    assert_eq!(feature.get_attribute("a".to_string()), Some("1".to_string()));
    assert_eq!(feature.get_attribute("b".to_string()), Some("2".to_string()));
    assert_eq!(feature.get_attribute("c".to_string()), Some("3".to_string()));
    assert_eq!(feature.get_attributes().len(), 3);
    assert_eq!(feature.get_id(), Some(3));
    assert_eq!(feature.geometry_type(), GeometryType::Unknown);
}

#[test]
fn unknown_features_are_equal_regardless_of_attributes() {
    let a = UnknownFeature::from_field_values(true, Some(1), vec![("x".to_string(), Some("1".to_string()))]);
    let b = UnknownFeature::from_field_values(true, Some(1), vec![]);
    assert!(a == b);
    assert_eq!(hash_of(&a.identity()), hash_of(&b.identity()));
    let c = UnknownFeature::from_field_values(true, Some(2), vec![]);
    assert!(a != c);
}

#[test]
fn attribute_map_entries_list_each_name_once() {
    let mut map = AttributeMap::new();
    map.insert("k".to_string(), "v1".to_string());
    map.insert("k".to_string(), "v2".to_string());
    map.insert("j".to_string(), "w".to_string());
    assert_eq!(map.len(), 2);
    assert_eq!(map.get("k"), Some("v2".to_string()));
    assert_eq!(map.get("missing"), None);
    let entries = map.entries();
    assert_eq!(entries.len(), 2);
    assert!(entries.contains(&("k".to_string(), "v2".to_string())));
    let copy = map.clone();
    assert_eq!(copy.get("j"), Some("w".to_string()));
}

#[test]
fn unknown_features_hold_in_holders() {
    let a = UnknownFeature::from_field_values(
        true,
        Some(4),
        vec![("name".to_string(), Some("vienna".to_string()))],
    );
    let b = a.clone();
    assert!(DynFeatureHolder(a.state().clone()) == DynFeatureHolder(b.state().clone()));
    let mut c = b.clone();
    c.set_attribute("name".to_string(), "graz".to_string());
    assert!(DynFeatureHolder(a.state().clone()) != DynFeatureHolder(c.state().clone()));
}

#[test]
fn feature_state_records_reads_and_writes() {
    let mut state = FeatureState::from_field_values(
        GeometryType::Point,
        Some(2),
        vec![("a".to_string(), Some("x".to_string()))],
    );
    assert_eq!(state.geometry_type(), GeometryType::Point);
    assert!(!state.is_deleted());
    state.set_deleted(true);
    assert!(state.is_deleted());
    state.set_attribute("b".to_string(), "y".to_string());
    assert_eq!(state.get_attribute("b".to_string()), Some("y".to_string()));
    assert_eq!(state.get_attributes().len(), 2);
    assert_eq!(state.identity().fid, Some(2));
}
