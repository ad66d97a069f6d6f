use ogcapi_query::error::{Exception, QueryError};
use ogcapi_query::link::{collection_href, item_collection_href, item_links, LinkRelation};
use ogcapi_query::page::{assemble_page, feature_collection, resolve_request};
use ogcapi_query::paging::{plan, PagePlan};
use ogcapi_query::query::Query;
use ogcapi_query::storage::{collection_location, feature_location, format_i64, items_table, TableRefusal};
use ogcapi_query::text::{format_u64, parse_u64};

#[test]
fn exception() {
    let e = Exception::new_from_status(500);
    println!("{:#?}", e);
    assert_eq!(e.status, Some(500));
    assert_eq!(e.problem_type, "https://httpwg.org/specs/rfc7231.html#status.500");
    assert!(e.additional_properties.is_empty());
}

#[test]
fn exception_from_client_error() {
    let e = Exception::from_error(&QueryError::UnknownParameter("foo".to_string()));
    assert_eq!(e.status, Some(400));
    assert_eq!(e.title.as_deref(), Some("Bad Request"));
    assert_eq!(e.detail.as_deref(), Some("unknown query parameter foo"));
    let b = Exception::from_error(&QueryError::InvalidBbox);
    assert_eq!(b.detail.as_deref(), Some("bbox must hold 4 or 6 numbers"));
    let mut base = Exception::new("about:blank");
    assert!(base.additional_properties.is_empty());
    base.additional_properties.insert("k".to_string(), serde_json::Value::Bool(true));
    let i = base.title("t").detail("d").instance("/x").status(418);
    assert_eq!(i.additional_properties.len(), 1);
    assert_eq!(i.title.as_deref(), Some("t"));
    let i = i.status(200);
    assert_eq!(i.status, Some(200));
    let i = Exception::new("about:blank").title("t").detail("d").instance("/x");
    assert_eq!(i.instance.as_deref(), Some("/x"));
    assert_eq!(i.status, None);
}

#[test]
fn last_page_has_no_next() {
    assert_eq!(
        plan(Some(10), 20, Some(25), 5),
        Some(PagePlan { has_previous: true, previous_offset: 10, has_next: false, next_offset: 30 })
    );
}

#[test]
fn first_page_has_no_previous() {
    let p = plan(Some(10), 0, Some(100), 10).unwrap();
    assert!(!p.has_previous);
    assert!(p.has_next);
    assert_eq!(p.next_offset, 10);
}

#[test]
fn no_limit_no_pagination() {
    assert_eq!(plan(None, 5, Some(100), 100), None);
}

#[test]
fn unknown_count_uses_page_size() {
    assert!(plan(Some(10), 0, None, 10).unwrap().has_next);
    assert!(!plan(Some(10), 0, None, 9).unwrap().has_next);
    assert!(!plan(Some(10), u64::MAX - 5, None, 10).unwrap().has_next);
    assert_eq!(plan(Some(10), 3, None, 0).unwrap().previous_offset, 0);
}

#[test]
fn decimal_helpers() {
    assert_eq!(format_u64(0), "0");
    assert_eq!(format_u64(1200), "1200");
    assert_eq!(format_u64(u64::MAX), "18446744073709551615");
    assert_eq!(parse_u64("0042"), Some(42));
    assert_eq!(parse_u64(""), None);
    assert_eq!(parse_u64("18446744073709551616"), None);
}

#[test]
fn collection_addresses() {
    assert_eq!(collection_href("http://h/collections/places/items"), "http://h/collections/places");
    assert_eq!(collection_href("http://h/collections/places"), "http://h/collections/places");
    assert_eq!(item_collection_href("http://h/collections/places/items/7"), "http://h/collections/places");
    assert_eq!(item_collection_href("http://h/collections/places/items/items"), "http://h/collections/places");
    assert_eq!(item_collection_href("http://h/collections/places"), "http://h/collections/places");
}

#[test]
fn collection_kind_name() {
    assert_eq!(feature_collection(), "FeatureCollection");
}

#[test]
fn page_links_and_counts() {
    let base = "http://h/collections/places/items";
    let q = Query::parse("limit=10&offset=20").unwrap();
    let features = vec![serde_json::Value::Null; 10];
    let fc = assemble_page(base, "limit=10&offset=20", &q, features, Some(100), "t".to_string());
    assert_eq!(fc.kind, "FeatureCollection");
    assert_eq!(fc.number_returned, Some(10));
    assert_eq!(fc.number_matched, Some(100));
    assert_eq!(fc.time_stamp.as_deref(), Some("t"));
    let links: Vec<(&str, LinkRelation)> = fc.links.iter().map(|l| (l.href.as_str(), l.rel)).collect();
    assert_eq!(
        links,
        vec![
            ("http://h/collections/places/items?limit=10&offset=20", LinkRelation::Current),
            ("http://h/collections/places", LinkRelation::Collection),
            ("http://h/collections/places/items?limit=10&offset=10", LinkRelation::Previous),
            ("http://h/collections/places/items?limit=10&offset=30", LinkRelation::Next),
        ]
    );
    assert_eq!(fc.links[0].media_type.as_deref(), Some("application/geo+json"));
    assert_eq!(fc.links[0].rel.name(), "self");
}

#[test]
fn page_without_limit_matches_everything() {
    let q = Query::parse("").unwrap();
    let fc = assemble_page("http://h/collections/places/items", "", &q, vec![serde_json::Value::Null; 3], Some(3), "t".to_string());
    assert_eq!(fc.number_matched, fc.number_returned.map(|n| n as u64));
    assert_eq!(fc.links.len(), 2);
    assert_eq!(fc.links[0].href, "http://h/collections/places/items");
}

#[test]
fn request_resolution() {
    let p = vec![
        ("limit".to_string(), "10".to_string()),
        ("bbox".to_string(), "6,45,9,49".to_string()),
        ("crs".to_string(), "EPSG:2056".to_string()),
    ];
    let r = resolve_request(&p).unwrap();
    assert_eq!(r.output_srid, 2056);
    assert_eq!(r.offset, 0);
    assert_eq!(r.limit, Some(10));
    assert_eq!(r.envelope.unwrap().srid, 4326);
    let bad = vec![("crs".to_string(), "IAU:1".to_string())];
    assert_eq!(resolve_request(&bad), Err(QueryError::InvalidCrs));
    let unknown = vec![("within".to_string(), "1000".to_string())];
    assert_eq!(resolve_request(&unknown), Err(QueryError::UnknownParameter("within".to_string())));
}

#[test]
fn table_names_come_from_known_collections() {
    let known = vec!["places".to_string(), "countries".to_string()];
    assert_eq!(items_table("places", &known), Ok("items.places".to_string()));
    assert_eq!(items_table("rivers", &known), Err(TableRefusal::UnknownCollection));
    assert_eq!(items_table("places; DROP TABLE x", &known), Err(TableRefusal::InvalidName));
    assert_eq!(items_table("", &known), Err(TableRefusal::InvalidName));
    assert_eq!(items_table("1places", &vec!["1places".to_string()]), Err(TableRefusal::InvalidName));
    let long = "a".repeat(64);
    assert_eq!(items_table(&long, &vec![long.clone()]), Err(TableRefusal::InvalidName));
}

#[test]
fn resource_locations() {
    assert_eq!(collection_location("test"), "collections/test");
    assert_eq!(feature_location("test", 42), "collections/test/items/42");
    assert_eq!(format_i64(i64::MIN), "-9223372036854775808");
    assert_eq!(format_i64(-7), "-7");
    assert_eq!(format_i64(0), "0");
}

#[test]
fn links_of_an_item() {
    let l = item_links("http://h/collections/places/items/7");
    assert_eq!(l.len(), 2);
    assert_eq!(l[0].href, "http://h/collections/places/items/7");
    assert_eq!(l[0].rel, LinkRelation::Current);
    assert_eq!(l[1].href, "http://h/collections/places");
    assert_eq!(l[1].rel, LinkRelation::Collection);
    assert_eq!(l[1].media_type.as_deref(), Some("application/geo+json"));
}
