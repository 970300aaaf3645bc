use geodot::{epsg_code_from_authority, raster_layer_names, subdataset_layer_name, subdataset_path};

#[test]
fn layer_names_are_taken_after_the_last_colon() {
    let metadata = vec![
        "SUBDATASET_1_NAME=GPKG:/path/to/geopackage.gpkg:dhm".to_string(),
        "SUBDATASET_1_DESC=dhm - dhm".to_string(),
        "SUBDATASET_2_NAME=GPKG:/path/to/geopackage.gpkg:ndom".to_string(),
        "SUBDATASET_2_DESC=ndom - ndom".to_string(),
    ];
    assert_eq!(raster_layer_names(&metadata), vec!["dhm".to_string(), "ndom".to_string()]);
    let odd = vec![
        "NAME=x:y".to_string(),
        "SUBDATASET_3_DESC=a_NAME=b:c".to_string(),
        "no equals sign:z".to_string(),
        "S_NAME=a:plain".to_string(),
    ];
    assert_eq!(raster_layer_names(&odd), vec!["plain".to_string()]);
    assert_eq!(subdataset_layer_name("trailing:"), "");
    assert_eq!(subdataset_layer_name("ünïcode:näme"), "näme");
}

#[test]
fn subdataset_paths_name_the_geopackage_layer() {
    assert_eq!(subdataset_path("/data/vienna.gpkg", "dhm"), "GPKG:/data/vienna.gpkg:dhm");
}

#[test]
fn epsg_codes_need_an_epsg_authority() {
    assert_eq!(epsg_code_from_authority(Some("EPSG".to_string()), Some(31256)), Some(31256));
    assert_eq!(epsg_code_from_authority(Some("epsg".to_string()), Some(4326)), Some(4326));
    assert_eq!(epsg_code_from_authority(Some("ESRI".to_string()), Some(102100)), None);
    assert_eq!(epsg_code_from_authority(Some("EPSG".to_string()), None), None);
    assert_eq!(epsg_code_from_authority(None, Some(4326)), None);
    assert_eq!(epsg_code_from_authority(Some("EPSG2".to_string()), Some(4326)), None);
}
