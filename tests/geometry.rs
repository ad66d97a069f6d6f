use ogcapi_query::crs::{AxisOrder, CrsCode};
use ogcapi_query::envelope::{build_envelope, is_number_text, reduce_ordinates};
use ogcapi_query::error::QueryError;
use ogcapi_query::query::Query;

#[test]
fn inverted_bbox_still_builds() {
    let e = build_envelope("10,20,0,5", None).unwrap();
    assert_eq!(e.xmin, "10");
    assert_eq!(e.ymin, "20");
    assert_eq!(e.xmax, "0");
    assert_eq!(e.ymax, "5");
    assert_eq!(e.srid, 4326);
}

#[test]
fn six_ordinates_drop_the_heights() {
    let v: Vec<String> = ["1", "2", "3", "4", "5", "6"].iter().map(|s| s.to_string()).collect();
    assert_eq!(reduce_ordinates(v), vec!["1", "2", "4", "5"]);
    let e = build_envelope("1,2,3,4,5,6", Some("EPSG:2056")).unwrap();
    assert_eq!((e.xmin.as_str(), e.ymin.as_str(), e.xmax.as_str(), e.ymax.as_str()), ("1", "2", "4", "5"));
    assert_eq!(e.srid, 2056);
    assert_eq!(e.crs.authority, "EPSG");
}

#[test]
fn four_ordinates_are_kept() {
    let v: Vec<String> = ["1", "2", "3", "4"].iter().map(|s| s.to_string()).collect();
    assert_eq!(reduce_ordinates(v.clone()), v);
}

#[test]
fn bad_bboxes_are_refused() {
    assert_eq!(build_envelope("1,2,3", None), Err(QueryError::InvalidBbox));
    assert_eq!(build_envelope("1,2,3,4,5", None), Err(QueryError::InvalidBbox));
    assert_eq!(build_envelope("1,2,x,4", None), Err(QueryError::InvalidBbox));
    assert_eq!(build_envelope("1,2,,4", None), Err(QueryError::InvalidBbox));
    assert_eq!(build_envelope("", None), Err(QueryError::InvalidBbox));
}

#[test]
fn bbox_crs_must_resolve_and_be_storable() {
    assert_eq!(build_envelope("1,2,3,4", Some("nonsense")), Err(QueryError::InvalidCrs));
    assert_eq!(build_envelope("1,2,3,4", Some("IAU:30100")), Err(QueryError::InvalidCrs));
}

#[test]
fn number_texts() {
    for s in ["0", "-1", "+2.5", "7.", ".5", "1e10", "2.5E-3", "47"] {
        assert!(is_number_text(s), "{}", s);
    }
    for s in ["", "-", ".", "e5", "1e", "1.2.3", "nan", "inf", "1 ", "--1", "1e+"] {
        assert!(!is_number_text(s), "{}", s);
    }
}

#[test]
fn default_crs_is_crs84() {
    let c = CrsCode::resolve("").unwrap();
    assert_eq!(c.authority, "OGC");
    assert_eq!(c.code, 84);
    assert_eq!(c.axis_order(), AxisOrder::LongitudeFirst);
    assert_eq!(c.to_storage_code(), Some(4326));
    assert_eq!(CrsCode::default_crs(), c);
}

#[test]
fn epsg_code_round_trips_to_storage() {
    let c = CrsCode::resolve("EPSG:2056").unwrap();
    assert_eq!(c.to_storage_code(), Some(2056));
    assert_eq!(c.axis_order(), AxisOrder::LongitudeFirst);
}

#[test]
fn uri_form_is_resolved() {
    let c = CrsCode::resolve("http://www.opengis.net/def/crs/EPSG/0/4326").unwrap();
    assert_eq!(c.authority, "EPSG");
    assert_eq!(c.code, 4326);
    assert_eq!(c.axis_order(), AxisOrder::LatitudeFirst);
    let o = CrsCode::resolve("http://www.opengis.net/def/crs/OGC/1.3/84").unwrap();
    assert_eq!(o.to_storage_code(), Some(4326));
}

#[test]
fn bad_crs_identifiers() {
    for s in [
        "EPSG",
        "EPSG:",
        ":4326",
        "EPSG:43a",
        "EPSG:4294967296",
        "a:b:c",
        "http://www.opengis.net/def/crs/EPSG/0/",
        "http://www.opengis.net/def/xyz/EPSG/0/4326",
        "def/crs/EPSG/0/4326",
    ] {
        assert_eq!(CrsCode::resolve(s), Err(QueryError::InvalidCrs), "{}", s);
    }
}

#[test]
fn largest_code() {
    assert_eq!(CrsCode::resolve("EPSG:4294967295").unwrap().code, u32::MAX);
}

#[test]
fn query_envelope() {
    let q = Query::parse("bbox=5,45,10,48&bbox-crs=EPSG:4326").unwrap();
    let e = q.make_envelope().unwrap().unwrap();
    assert_eq!(e.srid, 4326);
    assert_eq!(e.ymax, "48");
    assert_eq!(Query::parse("limit=1").unwrap().make_envelope(), Ok(None));
    assert_eq!(
        Query::parse("bbox=1,2").unwrap().make_envelope(),
        Err(QueryError::InvalidBbox)
    );
}

#[test]
fn magnitudes_beyond_double_range_are_refused() {
    for s in [
        "1e308",
        "1.7976931348623157e308",
        "17976931348623157e292",
        "0.0001e310",
        "0e99999",
        "0.000e400",
        "1e-99999999999999999999999999999",
        "-1.7976931348623157e308",
    ] {
        assert!(is_number_text(s), "{}", s);
    }
    for s in [
        "1e400",
        "2e308",
        "10e308",
        "1.7976931348623158e308",
        "1.79769313486231570001e308",
        "1e99999999999999999999999999999",
    ] {
        assert!(!is_number_text(s), "{}", s);
    }
    assert_eq!(build_envelope("1e400,0,1,1", None), Err(QueryError::InvalidBbox));
}

#[test]
fn crs84_is_resolved() {
    let c = CrsCode::resolve("http://www.opengis.net/def/crs/OGC/1.3/CRS84").unwrap();
    assert_eq!(c, CrsCode::default_crs());
    assert_eq!(CrsCode::resolve("OGC:CRS84").unwrap().code, 84);
    assert_eq!(CrsCode::resolve("EPSG:CRS84"), Err(QueryError::InvalidCrs));
}
