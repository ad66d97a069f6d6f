//! The query parameters of a feature request: strict decoding, canonical
//! re-serialization for links, and the envelope of the `bbox` parameter.
use vstd::prelude::*;

use crate::envelope::{build_envelope, envelope_spec, Envelope};
use crate::error::{ErrorView, QueryError};
use crate::percent::{decode, decode_text, encode, encode_text, lemma_decode_encode};
use crate::text::{
    decimal_text, format_u64, free_of, join, join_on, opt_str, opt_string, parse_u64, split, split_on, text_eq,
    u64_of,
};

verus! {

/// The decoded query parameters of a feature request.
#[derive(Debug, Clone, PartialEq, Eq)]
pub struct Query {
    pub limit: Option<u64>,
    pub offset: Option<u64>,
    pub bbox: Option<String>,
    pub bbox_crs: Option<String>,
    pub datetime: Option<String>,
    pub crs: Option<String>,
    pub filter: Option<String>,
    pub filter_lang: Option<String>,
    pub filter_crs: Option<String>,
}

/// The mathematical form of a [`Query`].
pub struct QueryView {
    pub limit: Option<u64>,
    pub offset: Option<u64>,
    pub bbox: Option<Seq<char>>,
    pub bbox_crs: Option<Seq<char>>,
    pub datetime: Option<Seq<char>>,
    pub crs: Option<Seq<char>>,
    pub filter: Option<Seq<char>>,
    pub filter_lang: Option<Seq<char>>,
    pub filter_crs: Option<Seq<char>>,
}

impl View for Query {
    type V = QueryView;

    open spec fn view(&self) -> QueryView {
        QueryView {
            limit: self.limit,
            offset: self.offset,
            bbox: opt_string(self.bbox),
            bbox_crs: opt_string(self.bbox_crs),
            datetime: opt_string(self.datetime),
            crs: opt_string(self.crs),
            filter: opt_string(self.filter),
            filter_lang: opt_string(self.filter_lang),
            filter_crs: opt_string(self.filter_crs),
        }
    }
}

pub open spec fn empty_query() -> QueryView {
    QueryView {
        limit: None,
        offset: None,
        bbox: None,
        bbox_crs: None,
        datetime: None,
        crs: None,
        filter: None,
        filter_lang: None,
        filter_crs: None,
    }
}

/// The number of fields, in their canonical order.
pub open spec fn n_fields() -> nat {
    9
}

/// The key under which field `k` is written.
pub open spec fn field_key(k: nat) -> Seq<char> {
    if k == 0 {
        "limit"@
    } else if k == 1 {
        "offset"@
    } else if k == 2 {
        "bbox"@
    } else if k == 3 {
        "bboxCrs"@
    } else if k == 4 {
        "datetime"@
    } else if k == 5 {
        "crs"@
    } else if k == 6 {
        "filter"@
    } else if k == 7 {
        "filter-lang"@
    } else {
        "filter-crs"@
    }
}

/// The field that a key names; `bbox-crs` is accepted beside `bboxCrs`.
pub open spec fn field_of(key: Seq<char>) -> Option<nat> {
    if key == "limit"@ {
        Some(0)
    } else if key == "offset"@ {
        Some(1)
    } else if key == "bbox"@ {
        Some(2)
    } else if key == "bboxCrs"@ || key == "bbox-crs"@ {
        Some(3)
    } else if key == "datetime"@ {
        Some(4)
    } else if key == "crs"@ {
        Some(5)
    } else if key == "filter"@ {
        Some(6)
    } else if key == "filter-lang"@ {
        Some(7)
    } else if key == "filter-crs"@ {
        Some(8)
    } else {
        None
    }
}

pub open spec fn opt_decimal(o: Option<u64>) -> Option<Seq<char>> {
    match o {
        Some(n) => Some(decimal_text(n as nat)),
        None => None,
    }
}

pub open spec fn opt_encode(o: Option<Seq<char>>) -> Option<Seq<char>> {
    match o {
        Some(v) => Some(encode(v)),
        None => None,
    }
}

/// The text of field `k` as written in a query string, if it is set.
pub open spec fn field_text(q: QueryView, k: nat) -> Option<Seq<char>> {
    if k == 0 {
        opt_decimal(q.limit)
    } else if k == 1 {
        opt_decimal(q.offset)
    } else if k == 2 {
        opt_encode(q.bbox)
    } else if k == 3 {
        opt_encode(q.bbox_crs)
    } else if k == 4 {
        opt_encode(q.datetime)
    } else if k == 5 {
        opt_encode(q.crs)
    } else if k == 6 {
        opt_encode(q.filter)
    } else if k == 7 {
        opt_encode(q.filter_lang)
    } else {
        opt_encode(q.filter_crs)
    }
}

/// `key=value` when the value is present, nothing otherwise.
pub open spec fn entry_of(key: Seq<char>, value: Option<Seq<char>>) -> Seq<Seq<char>> {
    match value {
        Some(t) => seq![key + seq!['='] + t],
        None => Seq::<Seq<char>>::empty(),
    }
}

/// The entries of the first `k` fields, in canonical order.
pub open spec fn entries_upto(q: QueryView, k: nat) -> Seq<Seq<char>>
    decreases k,
{
    if k == 0 {
        Seq::<Seq<char>>::empty()
    } else {
        entries_upto(q, (k - 1) as nat) + entry_of(
            field_key((k - 1) as nat),
            field_text(q, (k - 1) as nat),
        )
    }
}

/// The canonical query string: the set fields in fixed order, joined by `&`.
pub open spec fn serialize_spec(q: QueryView) -> Seq<char> {
    join(entries_upto(q, n_fields()), '&')
}

pub open spec fn with_offset_spec(q: QueryView, offset: u64) -> Seq<char> {
    serialize_spec(QueryView { offset: Some(offset), ..q })
}

pub open spec fn is_set(q: QueryView, k: nat) -> bool {
    if k == 0 {
        q.limit is Some
    } else if k == 1 {
        q.offset is Some
    } else if k == 2 {
        q.bbox is Some
    } else if k == 3 {
        q.bbox_crs is Some
    } else if k == 4 {
        q.datetime is Some
    } else if k == 5 {
        q.crs is Some
    } else if k == 6 {
        q.filter is Some
    } else if k == 7 {
        q.filter_lang is Some
    } else {
        q.filter_crs is Some
    }
}

/// `q` with field `k` set from the text `v`; `None` where a number field is not a `u64`.
pub open spec fn set_field(q: QueryView, k: nat, v: Seq<char>) -> Option<QueryView> {
    if k == 0 {
        match u64_of(v) {
            Some(n) => Some(QueryView { limit: Some(n), ..q }),
            None => None,
        }
    } else if k == 1 {
        match u64_of(v) {
            Some(n) => Some(QueryView { offset: Some(n), ..q }),
            None => None,
        }
    } else if k == 2 {
        Some(QueryView { bbox: Some(v), ..q })
    } else if k == 3 {
        Some(QueryView { bbox_crs: Some(v), ..q })
    } else if k == 4 {
        Some(QueryView { datetime: Some(v), ..q })
    } else if k == 5 {
        Some(QueryView { crs: Some(v), ..q })
    } else if k == 6 {
        Some(QueryView { filter: Some(v), ..q })
    } else if k == 7 {
        Some(QueryView { filter_lang: Some(v), ..q })
    } else {
        Some(QueryView { filter_crs: Some(v), ..q })
    }
}

/// Reads one `key=value` pair into what has been read so far: an unknown key,
/// a field given twice, or a number field that is not a non-negative integer fails.
pub open spec fn read_pair(acc: Result<QueryView, ErrorView>, key: Seq<char>, value: Seq<char>) -> Result<QueryView, ErrorView> {
    match acc {
        Err(e) => Err(e),
        Ok(q) => match field_of(key) {
            None => Err(ErrorView::UnknownParameter(key)),
            Some(k) => if is_set(q, k) {
                Err(ErrorView::InvalidParameter(key))
            } else {
                match set_field(q, k, value) {
                    Some(q2) => Ok(q2),
                    None => Err(ErrorView::InvalidParameter(key)),
                }
            },
        },
    }
}

/// Decoding a sequence of pairs, from the first to the last.
pub open spec fn parse_pairs_spec(pairs: Seq<(Seq<char>, Seq<char>)>) -> Result<QueryView, ErrorView>
    decreases pairs.len(),
{
    if pairs.len() == 0 {
        Ok(empty_query())
    } else {
        read_pair(parse_pairs_spec(pairs.drop_last()), pairs.last().0, pairs.last().1)
    }
}

/// The key of a `key=value` piece: what comes before the first `=`.
pub open spec fn piece_key(p: Seq<char>) -> Seq<char> {
    split(p, '=')[0]
}

/// The value of a piece: what follows the first `=`, empty when there is none.
pub open spec fn piece_value(p: Seq<char>) -> Seq<char> {
    let k = piece_key(p);
    if k.len() < p.len() {
        p.subrange(k.len() + 1 as int, p.len() as int)
    } else {
        Seq::<char>::empty()
    }
}

/// Decoding the `&`-separated pieces of a query string; empty pieces are skipped.
pub open spec fn parse_pieces(pieces: Seq<Seq<char>>) -> Result<QueryView, ErrorView>
    decreases pieces.len(),
{
    if pieces.len() == 0 {
        Ok(empty_query())
    } else if pieces.last().len() == 0 {
        parse_pieces(pieces.drop_last())
    } else {
        read_pair(
            parse_pieces(pieces.drop_last()),
            decode(piece_key(pieces.last())),
            decode(piece_value(pieces.last())),
        )
    }
}

pub open spec fn parse_spec(s: Seq<char>) -> Result<QueryView, ErrorView> {
    parse_pieces(split(s, '&'))
}

pub open spec fn pairs_view(v: Seq<(String, String)>) -> Seq<(Seq<char>, Seq<char>)> {
    Seq::new(v.len(), |i: int| (v[i].0@, v[i].1@))
}

pub open spec fn result_view(r: Result<Query, QueryError>) -> Result<QueryView, ErrorView> {
    match r {
        Ok(q) => Ok(q@),
        Err(e) => Err(e@),
    }
}

fn field_index(key: &str) -> (r: Option<u8>)
    ensures
        match r {
            Some(k) => field_of(key@) == Some(k as nat) && k < 9,
            None => field_of(key@) is None,
        },
{
    if text_eq(key, "limit") {
        Some(0)
    } else if text_eq(key, "offset") {
        Some(1)
    } else if text_eq(key, "bbox") {
        Some(2)
    } else if text_eq(key, "bboxCrs") || text_eq(key, "bbox-crs") {
        Some(3)
    } else if text_eq(key, "datetime") {
        Some(4)
    } else if text_eq(key, "crs") {
        Some(5)
    } else if text_eq(key, "filter") {
        Some(6)
    } else if text_eq(key, "filter-lang") {
        Some(7)
    } else if text_eq(key, "filter-crs") {
        Some(8)
    } else {
        None
    }
}

fn text_of(o: &Option<String>) -> (r: Option<&str>)
    ensures
        opt_str(r) == opt_string(*o),
{
    match o {
        Some(s) => Some(s.as_str()),
        None => None,
    }
}

fn push_entry(v: &mut Vec<String>, key: &str, value: Option<&str>)
    ensures
        final(v).deep_view() == old(v).deep_view() + entry_of(key@, opt_str(value)),
{
    proof {
        reveal_strlit("=");
    }
    match value {
        Some(t) => {
            let ghost before = v.deep_view();
            let mut s = String::from_str(key);
            s.append("=");
            s.append(t);
            let ghost sv = s@;
            assert("="@ =~= seq!['=']);
            assert(sv =~= key@ + seq!['='] + t@);
            v.push(s);
            assert(v.deep_view() =~= before.push(sv));
            assert(before.push(sv) =~= before + entry_of(key@, opt_str(value)));
        },
        None => {
            assert(v.deep_view() =~= v.deep_view() + entry_of(key@, opt_str(value)));
        },
    }
}

fn push_text(v: &mut Vec<String>, key: &str, value: &Option<String>)
    ensures
        final(v).deep_view() == old(v).deep_view() + entry_of(key@, opt_encode(opt_string(*value))),
{
    match value {
        Some(t) => {
            let e = encode_text(t.as_str());
            push_entry(v, key, Some(e.as_str()));
        },
        None => {
            push_entry(v, key, None);
        },
    }
}

fn push_number(v: &mut Vec<String>, key: &str, value: Option<u64>)
    ensures
        final(v).deep_view() == old(v).deep_view() + entry_of(key@, opt_decimal(value)),
{
    match value {
        Some(n) => {
            let t = format_u64(n);
            push_entry(v, key, Some(t.as_str()));
        },
        None => {
            push_entry(v, key, None);
        },
    }
}

impl Query {
    /// A query with no field set.
    pub fn empty() -> (r: Query)
        ensures
            r@ == empty_query(),
    {
        Query {
            limit: None,
            offset: None,
            bbox: None,
            bbox_crs: None,
            datetime: None,
            crs: None,
            filter: None,
            filter_lang: None,
            filter_crs: None,
        }
    }

    /// Reads one pair into `self`; see [`read_pair`].
    pub fn read_pair(self, key: &str, value: &str) -> (r: Result<Query, QueryError>)
        ensures
            result_view(r) == read_pair(Ok(self@), key@, value@),
    {
        let k = match field_index(key) {
            Some(k) => k,
            None => {
                return Err(QueryError::UnknownParameter(String::from_str(key)));
            },
        };
        let mut q = self;
        let invalid = QueryError::InvalidParameter(String::from_str(key));
        if k == 0 {
            if q.limit.is_some() {
                return Err(invalid);
            }
            match parse_u64(value) {
                Some(n) => q.limit = Some(n),
                None => {
                    return Err(invalid);
                },
            }
        } else if k == 1 {
            if q.offset.is_some() {
                return Err(invalid);
            }
            match parse_u64(value) {
                Some(n) => q.offset = Some(n),
                None => {
                    return Err(invalid);
                },
            }
        } else if k == 2 {
            if q.bbox.is_some() {
                return Err(invalid);
            }
            q.bbox = Some(String::from_str(value));
        } else if k == 3 {
            if q.bbox_crs.is_some() {
                return Err(invalid);
            }
            q.bbox_crs = Some(String::from_str(value));
        } else if k == 4 {
            if q.datetime.is_some() {
                return Err(invalid);
            }
            q.datetime = Some(String::from_str(value));
        } else if k == 5 {
            if q.crs.is_some() {
                return Err(invalid);
            }
            q.crs = Some(String::from_str(value));
        } else if k == 6 {
            if q.filter.is_some() {
                return Err(invalid);
            }
            q.filter = Some(String::from_str(value));
        } else if k == 7 {
            if q.filter_lang.is_some() {
                return Err(invalid);
            }
            q.filter_lang = Some(String::from_str(value));
        } else {
            if q.filter_crs.is_some() {
                return Err(invalid);
            }
            q.filter_crs = Some(String::from_str(value));
        }
        Ok(q)
    }

    /// Decodes the query from its `(key, value)` pairs, strictly: unknown keys,
    /// repeated fields and malformed numbers are refused.
    pub fn parse_pairs(pairs: &Vec<(String, String)>) -> (r: Result<Query, QueryError>)
        ensures
            result_view(r) == parse_pairs_spec(pairs_view(pairs@)),
    {
        let mut acc = Query::empty();
        let mut i: usize = 0;
        assert(pairs_view(pairs@).take(0) =~= Seq::<(Seq<char>, Seq<char>)>::empty());
        while i < pairs.len()
            invariant
                i <= pairs.len(),
                parse_pairs_spec(pairs_view(pairs@).take(i as int)) == Ok::<_, ErrorView>(acc@),
            decreases pairs.len() - i,
        {
            let ghost pv = pairs_view(pairs@);
            assert(pv.take(i as int + 1).drop_last() =~= pv.take(i as int));
            let (k, v) = &pairs[i];
            match acc.read_pair(k.as_str(), v.as_str()) {
                Ok(q) => {
                    acc = q;
                },
                Err(e) => {
                    proof {
                        lemma_pairs_err_sticks(pv, i as int + 1);
                    }
                    return Err(e);
                },
            }
            i = i + 1;
        }
        assert(pairs_view(pairs@).take(pairs.len() as int) =~= pairs_view(pairs@));
        Ok(acc)
    }

    /// Decodes a raw query string: `&`-separated `key=value` pieces, empty
    /// pieces skipped, a piece without `=` read as a key with an empty value.
    /// Keys and values are percent-decoded.
    pub fn parse(s: &str) -> (r: Result<Query, QueryError>)
        ensures
            result_view(r) == parse_spec(s@),
    {
        let pieces = split_on(s, '&');
        let mut acc = Query::empty();
        let mut i: usize = 0;
        assert(pieces.deep_view().take(0) =~= Seq::<Seq<char>>::empty());
        while i < pieces.len()
            invariant
                i <= pieces.len(),
                pieces.deep_view() == split(s@, '&'),
                parse_pieces(pieces.deep_view().take(i as int)) == Ok::<_, ErrorView>(acc@),
            decreases pieces.len() - i,
        {
            let ghost pv = pieces.deep_view();
            assert(pv.take(i as int + 1).drop_last() =~= pv.take(i as int));
            let piece = pieces[i].as_str();
            let plen = piece.unicode_len();
            assert(piece@ == pv[i as int]);
            if plen > 0 {
                let kv = split_on(piece, '=');
                proof {
                    crate::text::lemma_split_len(piece@, '=');
                }
                let key = kv[0].as_str();
                let klen = key.unicode_len();
                proof {
                    reveal_strlit("");
                }
                let value = if klen < plen {
                    piece.substring_char(klen + 1, plen)
                } else {
                    ""
                };
                assert(key@ == kv.deep_view()[0]);
                assert(key@ == piece_key(piece@));
                assert(value@ == piece_value(piece@));
                let key = decode_text(key);
                let value = decode_text(value);
                match acc.read_pair(key.as_str(), value.as_str()) {
                    Ok(q) => {
                        acc = q;
                    },
                    Err(e) => {
                        proof {
                            lemma_pieces_err_sticks(pv, i as int + 1);
                        }
                        return Err(e);
                    },
                }
            }
            i = i + 1;
        }
        assert(pieces.deep_view().take(pieces.len() as int) =~= pieces.deep_view());
        Ok(acc)
    }

    /// The canonical query string: the set fields in the order limit, offset,
    /// bbox, bboxCrs, datetime, crs, filter, filter-lang, filter-crs; text
    /// values are percent-encoded.
    pub fn to_string(&self) -> (r: String)
        ensures
            r@ == serialize_spec(self@),
    {
        let q = self;
        let mut v: Vec<String> = Vec::new();
        assert(v.deep_view() =~= entries_upto(q@, 0));
        push_number(&mut v, "limit", q.limit);
        assert(v.deep_view() == entries_upto(q@, 1));
        push_number(&mut v, "offset", q.offset);
        assert(v.deep_view() == entries_upto(q@, 2));
        push_text(&mut v, "bbox", &q.bbox);
        assert(v.deep_view() == entries_upto(q@, 3));
        push_text(&mut v, "bboxCrs", &q.bbox_crs);
        assert(v.deep_view() == entries_upto(q@, 4));
        push_text(&mut v, "datetime", &q.datetime);
        assert(v.deep_view() == entries_upto(q@, 5));
        push_text(&mut v, "crs", &q.crs);
        assert(v.deep_view() == entries_upto(q@, 6));
        push_text(&mut v, "filter", &q.filter);
        assert(v.deep_view() == entries_upto(q@, 7));
        push_text(&mut v, "filter-lang", &q.filter_lang);
        assert(v.deep_view() == entries_upto(q@, 8));
        push_text(&mut v, "filter-crs", &q.filter_crs);
        assert(v.deep_view() == entries_upto(q@, 9));
        proof {
            reveal_strlit("&");
        }
        join_on(&v, "&")
    }

    /// The canonical query string as if `offset` were replaced; the receiver
    /// is not changed.
    pub fn as_string_with_offset(&self, offset: u64) -> (r: String)
        ensures
            r@ == with_offset_spec(self@, offset),
    {
        self.to_string_with_offset(offset)
    }

    /// The canonical query string of a copy of `self` with `offset` replaced;
    /// `self` is left as it is.
    pub fn to_string_with_offset(&self, offset: u64) -> (r: String)
        ensures
            r@ == with_offset_spec(self@, offset),
    {
        let q = Query {
            limit: self.limit,
            offset: Some(offset),
            bbox: clone_text(&self.bbox),
            bbox_crs: clone_text(&self.bbox_crs),
            datetime: clone_text(&self.datetime),
            crs: clone_text(&self.crs),
            filter: clone_text(&self.filter),
            filter_lang: clone_text(&self.filter_lang),
            filter_crs: clone_text(&self.filter_crs),
        };
        assert(q@ == (QueryView { offset: Some(offset), ..self@ }));
        q.to_string()
    }

    /// The envelope of the `bbox` parameter in its `bbox-crs`, if a bbox is given.
    pub fn make_envelope(&self) -> (r: Result<Option<Envelope>, QueryError>)
        ensures
            match self@.bbox {
                None => r == Ok::<Option<Envelope>, QueryError>(None),
                Some(b) => match r {
                    Ok(Some(e)) => envelope_spec(b, self@.bbox_crs) == Ok::<_, ErrorView>(
                        e.model(),
                    ),
                    Ok(None) => false,
                    Err(e) => envelope_spec(b, self@.bbox_crs) == Err::<
                        (Seq<Seq<char>>, (Seq<char>, u32), u32),
                        _,
                    >(e@),
                },
            },
    {
        match &self.bbox {
            None => Ok(None),
            Some(b) => match build_envelope(b.as_str(), text_of(&self.bbox_crs)) {
                Ok(e) => Ok(Some(e)),
                Err(e) => Err(e),
            },
        }
    }
}

fn clone_text(o: &Option<String>) -> (r: Option<String>)
    ensures
        opt_string(r) == opt_string(*o),
{
    match o {
        Some(s) => Some(s.clone()),
        None => None,
    }
}

proof fn lemma_pairs_err_sticks(pairs: Seq<(Seq<char>, Seq<char>)>, k: int)
    requires
        0 <= k <= pairs.len(),
        parse_pairs_spec(pairs.take(k)) is Err,
    ensures
        parse_pairs_spec(pairs) == parse_pairs_spec(pairs.take(k)),
    decreases pairs.len() - k,
{
    if k < pairs.len() {
        assert(pairs.take(k + 1).drop_last() =~= pairs.take(k));
        lemma_pairs_err_sticks(pairs, k + 1);
    } else {
        assert(pairs.take(k) =~= pairs);
    }
}

proof fn lemma_pieces_err_sticks(pieces: Seq<Seq<char>>, k: int)
    requires
        0 <= k <= pieces.len(),
        parse_pieces(pieces.take(k)) is Err,
    ensures
        parse_pieces(pieces) == parse_pieces(pieces.take(k)),
    decreases pieces.len() - k,
{
    if k < pieces.len() {
        assert(pieces.take(k + 1).drop_last() =~= pieces.take(k));
        lemma_pieces_err_sticks(pieces, k + 1);
    } else {
        assert(pieces.take(k) =~= pieces);
    }
}

/// The first `k` fields of `q`, the others unset.
pub open spec fn query_upto(q: QueryView, k: nat) -> QueryView {
    QueryView {
        limit: if k > 0 { q.limit } else { None },
        offset: if k > 1 { q.offset } else { None },
        bbox: if k > 2 { q.bbox } else { None },
        bbox_crs: if k > 3 { q.bbox_crs } else { None },
        datetime: if k > 4 { q.datetime } else { None },
        crs: if k > 5 { q.crs } else { None },
        filter: if k > 6 { q.filter } else { None },
        filter_lang: if k > 7 { q.filter_lang } else { None },
        filter_crs: if k > 8 { q.filter_crs } else { None },
    }
}

proof fn lemma_keys()
    ensures
        forall|k: nat|
            k < n_fields() ==> field_of(#[trigger] field_key(k)) == Some(k) && field_key(k).len()
                > 0 && free_of(field_key(k), '=') && free_of(field_key(k), '&') && free_of(
                field_key(k),
                '%',
            ) && free_of(field_key(k), '+'),
{
    reveal_strlit("limit");
    reveal_strlit("offset");
    reveal_strlit("bbox");
    reveal_strlit("bboxCrs");
    reveal_strlit("bbox-crs");
    reveal_strlit("datetime");
    reveal_strlit("crs");
    reveal_strlit("filter");
    reveal_strlit("filter-lang");
    reveal_strlit("filter-crs");
    assert("limit"@.len() == 5);
    assert("offset"@.len() == 6);
    assert("bbox"@.len() == 4);
    assert("bboxCrs"@.len() == 7);
    assert("bbox-crs"@.len() == 8);
    assert("datetime"@.len() == 8);
    assert("crs"@.len() == 3);
    assert("filter"@.len() == 6);
    assert("filter-lang"@.len() == 11);
    assert("filter-crs"@.len() == 10);
    assert("offset"@[0] != "filter"@[0]);
    assert("datetime"@[0] != "bbox-crs"@[0]);
}

/// A decimal notation decodes to itself and holds no `&`.
proof fn lemma_number_plain(n: nat)
    ensures
        decode(decimal_text(n)) == decimal_text(n),
        free_of(decimal_text(n), '&'),
        crate::text::is_digits(decimal_text(n)),
        crate::text::decimal_value(decimal_text(n)) == n,
{
    crate::text::lemma_decimal_text(n);
    let t = decimal_text(n);
    assert(free_of(t, '%') && free_of(t, '+')) by {
        assert forall|i: int| 0 <= i < t.len() implies t[i] != '%' && t[i] != '+' by {
            assert(crate::text::is_digit(t[i]));
        }
    }
    crate::percent::lemma_decode_plain(t);
}

/// A piece `key=t` reads back as `key` and `t`.
proof fn lemma_piece(key: Seq<char>, t: Seq<char>)
    requires
        free_of(key, '='),
    ensures
        piece_key(key + seq!['='] + t) == key,
        piece_value(key + seq!['='] + t) == t,
{
    let p = key + seq!['='] + t;
    crate::text::lemma_split_extend(Seq::<char>::empty(), key, '=');
    assert(Seq::<char>::empty() + key =~= key);
    crate::text::lemma_split_sep(key, '=');
    assert(split(key, '=') =~= seq![key]);
    assert(p.take(key.len() + 1 as int) =~= key.push('='));
    crate::text::lemma_split_prefix(p, key.len() + 1 as int, '=');
    assert(split(key.push('='), '=')[0] == key);
    assert(p.subrange(key.len() + 1 as int, p.len() as int) =~= t);
}

proof fn lemma_upto(q: QueryView, k: nat)
    requires
        k <= n_fields(),
    ensures
        parse_pieces(entries_upto(q, k)) == Ok::<_, ErrorView>(query_upto(q, k)),
        forall|i: int|
            0 <= i < entries_upto(q, k).len() ==> (#[trigger] entries_upto(q, k)[i]).len() > 0
                && free_of(entries_upto(q, k)[i], '&'),
    decreases k,
{
    if k == 0 {
        assert(query_upto(q, 0) == empty_query());
    } else {
        let j = (k - 1) as nat;
        lemma_upto(q, j);
        lemma_keys();
        let e = entries_upto(q, j);
        let key = field_key(j);
        assert(field_of(key) == Some(j));
        match field_text(q, j) {
            None => {
                assert(entries_upto(q, k) =~= e);
                assert(query_upto(q, k) == query_upto(q, j));
            },
            Some(t) => {
                let piece = key + seq!['='] + t;
                assert(entries_upto(q, k) =~= e.push(piece));
                assert(entries_upto(q, k).drop_last() =~= e);
                lemma_piece(key, t);
                crate::percent::lemma_decode_plain(key);
                if j == 0 {
                    lemma_number_plain(q.limit.unwrap() as nat);
                } else if j == 1 {
                    lemma_number_plain(q.offset.unwrap() as nat);
                } else if j == 2 {
                    lemma_decode_encode(q.bbox.unwrap());
                } else if j == 3 {
                    lemma_decode_encode(q.bbox_crs.unwrap());
                } else if j == 4 {
                    lemma_decode_encode(q.datetime.unwrap());
                } else if j == 5 {
                    lemma_decode_encode(q.crs.unwrap());
                } else if j == 6 {
                    lemma_decode_encode(q.filter.unwrap());
                } else if j == 7 {
                    lemma_decode_encode(q.filter_lang.unwrap());
                } else {
                    lemma_decode_encode(q.filter_crs.unwrap());
                }
                assert(free_of(t, '&'));
                assert(free_of(piece, '&'));
                assert(decode(key) == key);
                assert(set_field(query_upto(q, j), j, decode(t)) == Some(query_upto(q, k)));
                assert forall|i: int| 0 <= i < entries_upto(q, k).len() implies (
                #[trigger] entries_upto(q, k)[i]).len() > 0 && free_of(
                    entries_upto(q, k)[i],
                    '&',
                ) by {
                    if i < e.len() {
                        assert(entries_upto(q, k)[i] == e[i]);
                    }
                }
            },
        }
    }
}

/// Decoding the canonical query string of `q` gives `q` back, and serializing
/// the result gives the same string: a canonical string survives a round trip.
pub proof fn law_round_trip(q: QueryView)
    ensures
        parse_spec(serialize_spec(q)) == Ok::<_, ErrorView>(q),
        match parse_spec(serialize_spec(q)) {
            Ok(p) => serialize_spec(p) == serialize_spec(q),
            Err(_) => false,
        },
{
    lemma_upto(q, n_fields());
    let e = entries_upto(q, n_fields());
    assert(query_upto(q, n_fields()) == q);
    if e.len() == 0 {
        assert(serialize_spec(q) == Seq::<char>::empty());
        assert(split(Seq::<char>::empty(), '&') == seq![Seq::<char>::empty()]);
        assert(seq![Seq::<char>::empty()].drop_last() =~= Seq::<Seq<char>>::empty());
    } else {
        assert forall|i: int| 0 <= i < e.len() implies free_of(#[trigger] e[i], '&') by {}
        crate::text::lemma_split_join(e, '&');
    }
}

/// Replacing the offset of a query and decoding its string gives that offset,
/// with every other field as it was.
pub proof fn law_with_offset(q: QueryView, offset: u64)
    ensures
        parse_spec(with_offset_spec(q, offset)) == Ok::<_, ErrorView>(
            QueryView { offset: Some(offset), ..q },
        ),
{
    let q2 = QueryView { offset: Some(offset), ..q };
    law_round_trip(q2);
}

} // verus!
