//! Assembling a page of features: resolving a request before the storage
//! layer is asked, and building the response with its links and counts after.
use vstd::prelude::*;

use crate::crs::{resolve_spec, storage_code_spec, CrsCode};
use crate::envelope::{envelope_spec, Envelope};
use crate::error::{ErrorView, QueryError};
use crate::link::{
    collection_href, collection_href_spec, geojson, geojson_spec, json, json_spec, link_model,
    Link, LinkRelation,
};
use crate::paging::{plan, plan_spec};
use crate::query::{pairs_view, parse_pairs_spec, with_offset_spec, Query, QueryView};

verus! {

/// A set of features from a collection, with its links and counts.
#[derive(Debug, PartialEq)]
pub struct FeatureCollection {
    /// Always `FeatureCollection`.
    pub kind: String,
    pub features: Vec<serde_json::Value>,
    pub links: Vec<Link>,
    pub time_stamp: Option<String>,
    pub number_matched: Option<u64>,
    pub number_returned: Option<usize>,
}

pub open spec fn feature_collection_spec() -> Seq<char> {
    "FeatureCollection"@
}

/// The type name of a feature collection.
pub fn feature_collection() -> (r: String)
    ensures
        r@ == feature_collection_spec(),
{
    String::from_str("FeatureCollection")
}

/// What the storage layer is asked for: the decoded query, the bbox envelope,
/// the storage code of the output CRS, and the page bounds.
#[derive(Debug, Clone, PartialEq, Eq)]
pub struct ResolvedQuery {
    pub query: Query,
    pub envelope: Option<Envelope>,
    pub output_srid: u32,
    pub limit: Option<u64>,
    pub offset: u64,
}

/// The storage code of the output CRS; the default CRS when none is asked for.
pub open spec fn output_srid_spec(crs: Option<Seq<char>>) -> Option<u32> {
    let id = match crs {
        Some(c) => c,
        None => Seq::<char>::empty(),
    };
    match resolve_spec(id) {
        Some(c) => storage_code_spec(c.0, c.1),
        None => None,
    }
}

/// Validation, then resolution: the decoded query, its envelope model (if a
/// bbox is given) and the output storage code.
pub open spec fn resolve_request_spec(pairs: Seq<(Seq<char>, Seq<char>)>) -> Result<
    (QueryView, Option<(Seq<Seq<char>>, (Seq<char>, u32), u32)>, u32),
    ErrorView,
> {
    match parse_pairs_spec(pairs) {
        Err(e) => Err(e),
        Ok(q) => {
            let env = match q.bbox {
                None => Ok(None),
                Some(b) => match envelope_spec(b, q.bbox_crs) {
                    Ok(m) => Ok(Some(m)),
                    Err(e) => Err(e),
                },
            };
            match env {
                Err(e) => Err(e),
                Ok(m) => match output_srid_spec(q.crs) {
                    None => Err(ErrorView::InvalidCrs),
                    Some(srid) => Ok((q, m, srid)),
                },
            }
        },
    }
}

pub open spec fn envelope_model(e: Option<Envelope>) -> Option<(Seq<Seq<char>>, (Seq<char>, u32), u32)> {
    match e {
        Some(x) => Some(x.model()),
        None => None,
    }
}

impl ResolvedQuery {
    pub open spec fn model(&self) -> (QueryView, Option<(Seq<Seq<char>>, (Seq<char>, u32), u32)>, u32) {
        (self.query@, envelope_model(self.envelope), self.output_srid)
    }
}

/// Decodes and resolves a request's query parameters before any storage
/// access; a client error stops here.
pub fn resolve_request(pairs: &Vec<(String, String)>) -> (r: Result<ResolvedQuery, QueryError>)
    ensures
        match r {
            Ok(x) => {
                &&& resolve_request_spec(pairs_view(pairs@)) == Ok::<_, ErrorView>(x.model())
                &&& x.limit == x.query.limit
                &&& x.offset == match x.query.offset {
                    Some(o) => o,
                    None => 0u64,
                }
            },
            Err(e) => resolve_request_spec(pairs_view(pairs@)) == Err::<
                (QueryView, Option<(Seq<Seq<char>>, (Seq<char>, u32), u32)>, u32),
                _,
            >(e@),
        },
{
    let query = match Query::parse_pairs(pairs) {
        Ok(q) => q,
        Err(e) => {
            return Err(e);
        },
    };
    let envelope = match query.make_envelope() {
        Ok(e) => e,
        Err(e) => {
            return Err(e);
        },
    };
    proof {
        reveal_strlit("");
    }
    let crs = match &query.crs {
        Some(c) => CrsCode::resolve(c.as_str()),
        None => CrsCode::resolve(""),
    };
    let output_srid = match crs {
        Ok(c) => match c.to_storage_code() {
            Some(s) => s,
            None => {
                return Err(QueryError::InvalidCrs);
            },
        },
        Err(e) => {
            return Err(e);
        },
    };
    let limit = query.limit;
    let offset = match query.offset {
        Some(o) => o,
        None => 0,
    };
    Ok(ResolvedQuery { query, envelope, output_srid, limit, offset })
}

/// The address of the request itself.
pub open spec fn self_href_spec(base: Seq<char>, raw_query: Seq<char>) -> Seq<char> {
    if raw_query.len() == 0 {
        base
    } else {
        base + seq!['?'] + raw_query
    }
}

/// `base?query`, the query being that of `q` at another offset.
pub open spec fn page_href_spec(base: Seq<char>, q: QueryView, offset: u64) -> Seq<char> {
    base + seq!['?'] + with_offset_spec(q, offset)
}

pub open spec fn fixed_links_spec(base: Seq<char>, raw_query: Seq<char>) -> Seq<
    (Seq<char>, LinkRelation, Option<Seq<char>>),
> {
    seq![
        link_model(self_href_spec(base, raw_query), LinkRelation::Current, Some(geojson_spec())),
        link_model(collection_href_spec(base), LinkRelation::Collection, Some(json_spec())),
    ]
}

/// The links of a page: itself, its collection, then the previous and next
/// pages where they exist.
pub open spec fn page_links_spec(
    base: Seq<char>,
    raw_query: Seq<char>,
    q: QueryView,
    number_matched: Option<u64>,
    number_returned: u64,
) -> Seq<(Seq<char>, LinkRelation, Option<Seq<char>>)> {
    let fixed = fixed_links_spec(base, raw_query);
    let offset = match q.offset {
        Some(o) => o,
        None => 0u64,
    };
    match plan_spec(q.limit, offset, number_matched, number_returned) {
        None => fixed,
        Some(p) => {
            let prev = if p.has_previous {
                seq![
                    link_model(
                        page_href_spec(base, q, p.previous_offset),
                        LinkRelation::Previous,
                        Some(geojson_spec()),
                    ),
                ]
            } else {
                Seq::empty()
            };
            let next = if p.has_next {
                seq![
                    link_model(
                        page_href_spec(base, q, p.next_offset),
                        LinkRelation::Next,
                        Some(geojson_spec()),
                    ),
                ]
            } else {
                Seq::empty()
            };
            fixed + prev + next
        },
    }
}

pub open spec fn links_model(links: Seq<Link>) -> Seq<(Seq<char>, LinkRelation, Option<Seq<char>>)> {
    Seq::new(links.len(), |i: int| links[i].model())
}

fn page_href(base: &str, q: &Query, offset: u64) -> (r: String)
    ensures
        r@ == page_href_spec(base@, q@, offset),
{
    proof {
        reveal_strlit("?");
    }
    let mut s = String::from_str(base);
    s.append("?");
    let t = q.to_string_with_offset(offset);
    s.append(t.as_str());
    assert("?"@ =~= seq!['?']);
    assert(s@ =~= base@ + seq!['?'] + t@);
    s
}

/// Builds the response for a page of `features`: the request's address is
/// `base` with `raw_query`; `q` is the decoded query; `number_matched` is the
/// total count, if known.
pub fn assemble_page(
    base: &str,
    raw_query: &str,
    q: &Query,
    features: Vec<serde_json::Value>,
    number_matched: Option<u64>,
    time_stamp: String,
) -> (r: FeatureCollection)
    ensures
        r.kind@ == feature_collection_spec(),
        r.features@ == features@,
        links_model(r.links@) == page_links_spec(
            base@,
            raw_query@,
            q@,
            number_matched,
            features@.len() as u64,
        ),
        r.time_stamp == Some(time_stamp),
        r.number_matched == number_matched,
        r.number_returned == Some(features@.len() as usize),
{
    proof {
        reveal_strlit("?");
    }
    assert("?"@ =~= seq!['?']);
    let self_href = if raw_query.unicode_len() == 0 {
        String::from_str(base)
    } else {
        let mut s = String::from_str(base);
        s.append("?");
        s.append(raw_query);
        assert(s@ =~= base@ + seq!['?'] + raw_query@);
        s
    };
    assert(self_href@ == self_href_spec(base@, raw_query@));
    let mut links: Vec<Link> = Vec::new();
    links.push(Link::new(self_href, LinkRelation::Current, Some(geojson())));
    links.push(Link::new(collection_href(base), LinkRelation::Collection, Some(json())));
    let ghost fixed = fixed_links_spec(base@, raw_query@);
    assert(links_model(links@) =~= fixed);
    let offset = match q.offset {
        Some(o) => o,
        None => 0,
    };
    let n = features.len();
    match plan(q.limit, offset, number_matched, n as u64) {
        None => {},
        Some(p) => {
            let ghost m0 = links_model(links@);
            if p.has_previous {
                links.push(
                    Link::new(
                        page_href(base, q, p.previous_offset),
                        LinkRelation::Previous,
                        Some(geojson()),
                    ),
                );
                assert(links_model(links@) =~= m0.push(
                    link_model(
                        page_href_spec(base@, q@, p.previous_offset),
                        LinkRelation::Previous,
                        Some(geojson_spec()),
                    ),
                ));
            }
            let ghost m1 = links_model(links@);
            if p.has_next {
                links.push(
                    Link::new(page_href(base, q, p.next_offset), LinkRelation::Next, Some(geojson())),
                );
                assert(links_model(links@) =~= m1.push(
                    link_model(
                        page_href_spec(base@, q@, p.next_offset),
                        LinkRelation::Next,
                        Some(geojson_spec()),
                    ),
                ));
            }
        },
    }
    assert(links_model(links@) =~= page_links_spec(
        base@,
        raw_query@,
        q@,
        number_matched,
        n as u64,
    ));
    FeatureCollection {
        kind: feature_collection(),
        features,
        links,
        time_stamp: Some(time_stamp),
        number_matched,
        number_returned: Some(n),
    }
}

} // verus!
