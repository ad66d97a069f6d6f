use ogcapi_query::error::QueryError;
use ogcapi_query::query::Query;

fn pairs(v: &[(&str, &str)]) -> Vec<(String, String)> {
    v.iter().map(|(k, x)| (k.to_string(), x.to_string())).collect()
}

#[test]
fn canonical_string_survives_round_trip() {
    let s = "limit=10&offset=20&bbox=1,2,3,4&bboxCrs=EPSG:2056&datetime=2020-01-01T00:00:00Z&crs=EPSG:4326&filter=a=1&filter-lang=cql-text&filter-crs=EPSG:4326";
    let q = Query::parse(s).unwrap();
    assert_eq!(q.limit, Some(10));
    assert_eq!(q.offset, Some(20));
    assert_eq!(q.filter.as_deref(), Some("a=1"));
    assert_eq!(q.to_string(), s);
}

#[test]
fn partial_canonical_string_survives_round_trip() {
    let s = "limit=5&crs=EPSG:2056";
    assert_eq!(Query::parse(s).unwrap().to_string(), s);
}

#[test]
fn with_offset_reads_back() {
    let q = Query::parse("limit=10&bbox=0,0,1,1&filter-lang=cql-text").unwrap();
    let s = q.to_string_with_offset(20);
    assert_eq!(s, "limit=10&offset=20&bbox=0,0,1,1&filter-lang=cql-text");
    let back = Query::parse(&s).unwrap();
    assert_eq!(back.offset, Some(20));
    assert_eq!(back.limit, q.limit);
    assert_eq!(back.bbox, q.bbox);
    assert_eq!(back.filter_lang, q.filter_lang);
    assert_eq!(q.offset, None);
}

#[test]
fn as_string_with_offset_leaves_the_receiver() {
    let q = Query::parse("limit=3").unwrap();
    assert_eq!(q.as_string_with_offset(6), "limit=3&offset=6");
    assert_eq!(q.offset, None);
    assert_eq!(Query::parse(&q.as_string_with_offset(6)).unwrap().offset, Some(6));
}

#[test]
fn unknown_field_is_refused() {
    assert_eq!(
        Query::parse_pairs(&pairs(&[("foo", "bar")])),
        Err(QueryError::UnknownParameter("foo".to_string()))
    );
    assert_eq!(
        Query::parse("limit=1&foo=bar"),
        Err(QueryError::UnknownParameter("foo".to_string()))
    );
}

#[test]
fn malformed_number_is_refused() {
    assert_eq!(
        Query::parse_pairs(&pairs(&[("limit", "ten")])),
        Err(QueryError::InvalidParameter("limit".to_string()))
    );
    assert_eq!(
        Query::parse_pairs(&pairs(&[("offset", "-1")])),
        Err(QueryError::InvalidParameter("offset".to_string()))
    );
    assert_eq!(
        Query::parse_pairs(&pairs(&[("limit", "18446744073709551616")])),
        Err(QueryError::InvalidParameter("limit".to_string()))
    );
}

#[test]
fn largest_limit_is_read() {
    let q = Query::parse_pairs(&pairs(&[("limit", "18446744073709551615")])).unwrap();
    assert_eq!(q.limit, Some(u64::MAX));
    assert_eq!(q.to_string(), "limit=18446744073709551615");
}

#[test]
fn repeated_field_is_refused() {
    assert_eq!(
        Query::parse("bbox-crs=EPSG:4326&bboxCrs=EPSG:2056"),
        Err(QueryError::InvalidParameter("bboxCrs".to_string()))
    );
}

#[test]
fn both_spellings_of_bbox_crs() {
    let a = Query::parse("bbox-crs=EPSG:2056").unwrap();
    let b = Query::parse("bboxCrs=EPSG:2056").unwrap();
    assert_eq!(a, b);
    assert_eq!(a.to_string(), "bboxCrs=EPSG:2056");
}

#[test]
fn empty_query_string() {
    let q = Query::parse("").unwrap();
    assert_eq!(q, Query::empty());
    assert_eq!(q.to_string(), "");
    assert_eq!(Query::parse("&&limit=2&").unwrap().limit, Some(2));
}

#[test]
fn piece_without_equals_has_empty_value() {
    let q = Query::parse("datetime").unwrap();
    assert_eq!(q.datetime.as_deref(), Some(""));
}

#[test]
fn values_with_separators_survive_links() {
    let q = Query::parse_pairs(&pairs(&[
        ("limit", "10"),
        ("datetime", "a&b"),
        ("filter", "name = 'x+y' #1 100%"),
    ]))
    .unwrap();
    let s = q.to_string_with_offset(20);
    assert_eq!(s, "limit=10&offset=20&datetime=a%26b&filter=name%20=%20'x%2By'%20%231%20100%25");
    let back = Query::parse(&s).unwrap();
    assert_eq!(back.offset, Some(20));
    assert_eq!(back.datetime, q.datetime);
    assert_eq!(back.filter, q.filter);
    assert_eq!(back.limit, q.limit);
}

#[test]
fn escapes_are_decoded() {
    let q = Query::parse("bbox-crs=EPSG%3a2056&datetime=a+b&filter=%zz%7").unwrap();
    assert_eq!(q.bbox_crs.as_deref(), Some("EPSG:2056"));
    assert_eq!(q.datetime.as_deref(), Some("a b"));
    assert_eq!(q.filter.as_deref(), Some("%zz%7"));
}
