//! Coordinate reference systems: resolving identifiers, the code that the
//! storage geometry column understands, and axis order.
use vstd::prelude::*;

use crate::error::QueryError;
use crate::text::{
    decimal_text, free_of, is_digit, join, lemma_decimal_text, lemma_split_extend,
    lemma_split_join, parse_u64, split, split_on, text_eq, u64_of,
};

verus! {

/// A resolved coordinate reference system: an authority and its numeric code.
#[derive(Debug, Clone, PartialEq, Eq)]
pub struct CrsCode {
    pub authority: String,
    pub code: u32,
}

/// The order of the two horizontal axes in a coordinate tuple.
#[derive(Debug, Clone, Copy, PartialEq, Eq, Structural)]
pub enum AxisOrder {
    LongitudeFirst,
    LatitudeFirst,
}

/// The numeric code spelled by `t`, if it is a run of digits that fits a `u32`.
pub open spec fn code_of(t: Seq<char>) -> Option<u32> {
    match u64_of(t) {
        Some(v) => if v <= u32::MAX {
            Some(v as u32)
        } else {
            None
        },
        None => None,
    }
}

/// The code spelled by `t` under `authority`: OGC's `CRS84` is code 84.
pub open spec fn code_in(authority: Seq<char>, t: Seq<char>) -> Option<u32> {
    if authority == "OGC"@ && t == "CRS84"@ {
        Some(84)
    } else {
        code_of(t)
    }
}

/// `.../def/crs/{authority}/{version}/{code}`.
pub open spec fn crs_of_uri(s: Seq<char>) -> Option<(Seq<char>, u32)> {
    let p = split(s, '/');
    let n = p.len();
    if n >= 6 && p[n - 5] == "def"@ && p[n - 4] == "crs"@ && p[n - 3].len() > 0 && p[n
        - 2].len() > 0 && code_in(p[n - 3], p[n - 1]) is Some {
        Some((p[n - 3], code_in(p[n - 3], p[n - 1]).unwrap()))
    } else {
        None
    }
}

/// `{authority}:{code}`.
pub open spec fn crs_of_pair(s: Seq<char>) -> Option<(Seq<char>, u32)> {
    let p = split(s, ':');
    if p.len() == 2 && p[0].len() > 0 && code_in(p[0], p[1]) is Some {
        Some((p[0], code_in(p[0], p[1]).unwrap()))
    } else {
        None
    }
}

/// The system default: OGC's CRS84, longitude before latitude.
pub open spec fn default_crs() -> (Seq<char>, u32) {
    ("OGC"@, 84)
}

/// What an identifier resolves to: the default when empty, a URI when it holds
/// a slash, the `AUTHORITY:CODE` form otherwise.
pub open spec fn resolve_spec(s: Seq<char>) -> Option<(Seq<char>, u32)> {
    if s.len() == 0 {
        Some(default_crs())
    } else if split(s, '/').len() > 1 {
        crs_of_uri(s)
    } else {
        crs_of_pair(s)
    }
}

/// The EPSG code under which the storage layer knows a CRS.
pub open spec fn storage_code_spec(authority: Seq<char>, code: u32) -> Option<u32> {
    if authority == "EPSG"@ {
        Some(code)
    } else if authority == "OGC"@ && code == 84 {
        Some(4326)
    } else {
        None
    }
}

/// EPSG geographic codes whose registry definition puts latitude first.
pub open spec fn is_lat_first_epsg(code: u32) -> bool {
    code == 4326 || code == 4258 || code == 4269 || code == 4267 || code == 4230 || code == 4283
        || code == 4617 || code == 4979 || code == 4937
}

pub open spec fn axis_order_spec(authority: Seq<char>, code: u32) -> AxisOrder {
    if authority == "EPSG"@ && is_lat_first_epsg(code) {
        AxisOrder::LatitudeFirst
    } else {
        AxisOrder::LongitudeFirst
    }
}

fn code_from(authority: &str, t: &str) -> (r: Option<u32>)
    ensures
        r == code_in(authority@, t@),
{
    if text_eq(authority, "OGC") && text_eq(t, "CRS84") {
        return Some(84);
    }
    match parse_u64(t) {
        Some(v) => if v <= 4294967295 {
            Some(v as u32)
        } else {
            None
        },
        None => None,
    }
}

impl CrsCode {
    /// The default CRS: OGC CRS84.
    pub fn default_crs() -> (r: CrsCode)
        ensures
            (r.authority@, r.code) == default_crs(),
    {
        CrsCode { authority: String::from_str("OGC"), code: 84 }
    }

    /// Resolves a CRS identifier (`AUTHORITY:CODE` or an `.../def/crs/...` URI);
    /// the empty identifier stands for the default.
    pub fn resolve(identifier: &str) -> (r: Result<CrsCode, QueryError>)
        ensures
            match r {
                Ok(c) => resolve_spec(identifier@) == Some((c.authority@, c.code)),
                Err(e) => resolve_spec(identifier@) is None && e == QueryError::InvalidCrs,
            },
    {
        if identifier.unicode_len() == 0 {
            return Ok(CrsCode::default_crs());
        }
        let segs = split_on(identifier, '/');
        if segs.len() > 1 {
            let n = segs.len();
            proof {
                assert(segs@.len() == split(identifier@, '/').len());
            }
            if n >= 6 && text_eq(segs[n - 5].as_str(), "def") && text_eq(
                segs[n - 4].as_str(),
                "crs",
            ) && segs[n - 3].as_str().unicode_len() > 0 && segs[n - 2].as_str().unicode_len()
                > 0 {
                let authority = segs[n - 3].clone();
                match code_from(segs[n - 3].as_str(), segs[n - 1].as_str()) {
                    Some(code) => {
                        return Ok(CrsCode { authority, code });
                    },
                    None => {
                        return Err(QueryError::InvalidCrs);
                    },
                }
            }
            return Err(QueryError::InvalidCrs);
        }
        let parts = split_on(identifier, ':');
        if parts.len() == 2 && parts[0].as_str().unicode_len() > 0 {
            let authority = parts[0].clone();
            match code_from(parts[0].as_str(), parts[1].as_str()) {
                Some(code) => Ok(CrsCode { authority, code }),
                None => Err(QueryError::InvalidCrs),
            }
        } else {
            Err(QueryError::InvalidCrs)
        }
    }

    /// The numeric EPSG code that the storage geometry column understands, if any.
    pub fn to_storage_code(&self) -> (r: Option<u32>)
        ensures
            r == storage_code_spec(self.authority@, self.code),
    {
        if text_eq(self.authority.as_str(), "EPSG") {
            Some(self.code)
        } else if text_eq(self.authority.as_str(), "OGC") && self.code == 84 {
            Some(4326)
        } else {
            None
        }
    }

    /// The axis order of this CRS, from a fixed table.
    pub fn axis_order(&self) -> (r: AxisOrder)
        ensures
            r == axis_order_spec(self.authority@, self.code),
    {
        let c = self.code;
        if text_eq(self.authority.as_str(), "EPSG") && (c == 4326 || c == 4258 || c == 4269 || c
            == 4267 || c == 4230 || c == 4283 || c == 4617 || c == 4979 || c == 4937) {
            AxisOrder::LatitudeFirst
        } else {
            AxisOrder::LongitudeFirst
        }
    }
}

/// Every EPSG code written `EPSG:{code}` resolves to that code, and the storage
/// layer knows it under the same number; the empty identifier resolves to the
/// default CRS84, longitude first, stored as 4326.
pub proof fn law_epsg_code_stored(code: u32)
    ensures
        resolve_spec("EPSG:"@ + decimal_text(code as nat)) == Some(("EPSG"@, code)),
        storage_code_spec("EPSG"@, code) == Some(code),
        resolve_spec(Seq::<char>::empty()) == Some(default_crs()),
        axis_order_spec(default_crs().0, default_crs().1) == AxisOrder::LongitudeFirst,
        storage_code_spec(default_crs().0, default_crs().1) == Some(4326u32),
{
    reveal_strlit("EPSG:");
    reveal_strlit("EPSG");
    reveal_strlit("OGC");
    let d = decimal_text(code as nat);
    lemma_decimal_text(code as nat);
    let e = "EPSG"@;
    assert(e.len() == 4 && "OGC"@.len() == 3);
    let s = "EPSG:"@ + d;
    assert("EPSG:"@ =~= e + seq![':']);
    let parts = seq![e, d];
    assert(parts.drop_last() =~= seq![e]);
    assert(join(parts.drop_last(), ':') == e);
    assert(parts.last() == d);
    assert(join(parts, ':') == e + seq![':'] + d);
    assert(s =~= join(parts, ':'));
    assert(free_of(d, ':') && free_of(d, '/')) by {
        assert forall|i: int| 0 <= i < d.len() implies d[i] != ':' && d[i] != '/' by {
            assert(is_digit(d[i]));
        }
    }
    assert(free_of(e, ':'));
    assert(free_of(s, '/')) by {
        assert forall|i: int| 0 <= i < s.len() implies s[i] != '/' by {
            if i >= 5 {
                assert(s[i] == d[i - 5]);
            }
        }
    }
    assert forall|i: int| 0 <= i < 2 implies free_of(#[trigger] parts[i], ':') by {}
    lemma_split_join(parts, ':');
    lemma_split_extend(Seq::<char>::empty(), s, '/');
    assert(Seq::<char>::empty() + s =~= s);
    assert(split(Seq::<char>::empty(), '/').len() == 1);
    assert(code_of(d) == Some(code));
    assert(code_in(e, d) == Some(code));
}

} // verus!
