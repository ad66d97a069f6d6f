//! Resource links: relation, target and media type.
use vstd::prelude::*;

use crate::text::{join, join_on, opt_string, split, split_on, text_eq};

verus! {

/// The relation of a link to the resource that carries it.
#[derive(Debug, Clone, Copy, PartialEq, Eq, Structural)]
pub enum LinkRelation {
    /// `self`: the resource itself.
    Current,
    Next,
    Previous,
    Collection,
    Item,
}

/// A link: where it points, how it relates, and the media type found there.
#[derive(Debug, Clone, PartialEq, Eq)]
pub struct Link {
    pub href: String,
    pub rel: LinkRelation,
    pub media_type: Option<String>,
}

/// The mathematical form of a [`Link`].
pub open spec fn link_model(href: Seq<char>, rel: LinkRelation, media_type: Option<Seq<char>>) -> (Seq<char>, LinkRelation, Option<Seq<char>>) {
    (href, rel, media_type)
}

impl Link {
    pub open spec fn model(&self) -> (Seq<char>, LinkRelation, Option<Seq<char>>) {
        link_model(self.href@, self.rel, opt_string(self.media_type))
    }

    /// A link to `href` with relation `rel` and the given media type.
    pub fn new(href: String, rel: LinkRelation, media_type: Option<String>) -> (r: Link)
        ensures
            r.href == href,
            r.rel == rel,
            r.media_type == media_type,
    {
        Link { href, rel, media_type }
    }
}

pub open spec fn rel_name(rel: LinkRelation) -> Seq<char> {
    match rel {
        LinkRelation::Current => "self"@,
        LinkRelation::Next => "next"@,
        LinkRelation::Previous => "prev"@,
        LinkRelation::Collection => "collection"@,
        LinkRelation::Item => "item"@,
    }
}

impl LinkRelation {
    /// The registered name of the relation.
    pub fn name(&self) -> (r: &'static str)
        ensures
            r@ == rel_name(*self),
    {
        match self {
            LinkRelation::Current => "self",
            LinkRelation::Next => "next",
            LinkRelation::Previous => "prev",
            LinkRelation::Collection => "collection",
            LinkRelation::Item => "item",
        }
    }
}

pub open spec fn geojson_spec() -> Seq<char> {
    "application/geo+json"@
}

pub open spec fn json_spec() -> Seq<char> {
    "application/json"@
}

/// The media type of GeoJSON.
pub fn geojson() -> (r: String)
    ensures
        r@ == geojson_spec(),
{
    String::from_str("application/geo+json")
}

/// The media type of JSON.
pub fn json() -> (r: String)
    ensures
        r@ == json_spec(),
{
    String::from_str("application/json")
}

/// The address of the collection whose items are listed at `path`: a
/// trailing `items` segment is cut off with its slash.
pub open spec fn collection_href_spec(path: Seq<char>) -> Seq<char> {
    let p = split(path, '/');
    let n = p.len();
    if n >= 2 && p[n - 1] == "items"@ {
        join(p.take(n - 1), '/')
    } else {
        path
    }
}

/// The address of the collection that holds the item at `path`: a trailing
/// `items/{id}` is cut off with its slashes, whatever the id.
pub open spec fn item_collection_href_spec(path: Seq<char>) -> Seq<char> {
    let p = split(path, '/');
    let n = p.len();
    if n >= 3 && p[n - 2] == "items"@ {
        join(p.take(n - 2), '/')
    } else {
        path
    }
}

/// The links of a single item at `url`: itself and its collection.
pub open spec fn item_links_spec(url: Seq<char>) -> Seq<(Seq<char>, LinkRelation, Option<Seq<char>>)> {
    seq![
        link_model(url, LinkRelation::Current, Some(geojson_spec())),
        link_model(item_collection_href_spec(url), LinkRelation::Collection, Some(geojson_spec())),
    ]
}

/// The links of the item at `url`.
pub fn item_links(url: &str) -> (r: Vec<Link>)
    ensures
        Seq::new(r@.len(), |i: int| r@[i].model()) == item_links_spec(url@),
{
    let mut v: Vec<Link> = Vec::new();
    v.push(Link::new(String::from_str(url), LinkRelation::Current, Some(geojson())));
    v.push(Link::new(item_collection_href(url), LinkRelation::Collection, Some(geojson())));
    assert(Seq::new(v@.len(), |i: int| v@[i].model()) =~= item_links_spec(url@));
    v
}

/// Cuts the last `cut` segments of `path`, with their slashes.
fn cut_segments(path: &str, cut: usize) -> (r: String)
    requires
        1 <= cut < split(path@, '/').len(),
    ensures
        r@ == join(split(path@, '/').take(split(path@, '/').len() - cut), '/'),
{
    let mut p = split_on(path, '/');
    let n = p.len();
    let ghost pv = p.deep_view();
    p.truncate(n - cut);
    assert(p.deep_view() =~= pv.take(n - cut));
    proof {
        reveal_strlit("/");
    }
    join_on(&p, "/")
}

/// The address of the collection whose items are listed at `path`.
pub fn collection_href(path: &str) -> (r: String)
    ensures
        r@ == collection_href_spec(path@),
{
    let p = split_on(path, '/');
    let n = p.len();
    if n >= 2 && text_eq(p[n - 1].as_str(), "items") {
        cut_segments(path, 1)
    } else {
        String::from_str(path)
    }
}

/// The address of the collection that holds the item at `path`.
pub fn item_collection_href(path: &str) -> (r: String)
    ensures
        r@ == item_collection_href_spec(path@),
{
    let p = split_on(path, '/');
    let n = p.len();
    if n >= 3 && text_eq(p[n - 2].as_str(), "items") {
        cut_segments(path, 2)
    } else {
        String::from_str(path)
    }
}

} // verus!
