//! Bounding boxes: from the `bbox` parameter and its CRS to a planar envelope
//! with the storage CRS code, handed to the storage layer as bind values.
use vstd::prelude::*;

use crate::crs::{resolve_spec, storage_code_spec, CrsCode};
use crate::error::QueryError;
use crate::text::{chars_of, opt_str, split, split_on};

verus! {

/// A planar bounding box. The ordinates keep the text in which they were
/// given, each a decimal number; `srid` is the storage CRS code.
#[derive(Debug, Clone, PartialEq, Eq)]
pub struct Envelope {
    pub xmin: String,
    pub ymin: String,
    pub xmax: String,
    pub ymax: String,
    pub crs: CrsCode,
    pub srid: u32,
}

/// One step of the recogniser of decimal numbers: an optional sign, digits with
/// an optional fraction (at least one digit in all), then an optional exponent.
/// State 9 rejects for good.
pub open spec fn number_step(state: u8, c: char) -> u8 {
    let digit = 48 <= (c as u32) <= 57;
    let sign = c == '+' || c == '-';
    let exp = c == 'e' || c == 'E';
    if state == 0 || state == 1 {
        if digit {
            2
        } else if c == '.' {
            4
        } else if state == 0 && sign {
            1
        } else {
            9
        }
    } else if state == 2 {
        if digit {
            2
        } else if c == '.' {
            3
        } else if exp {
            6
        } else {
            9
        }
    } else if state == 3 || state == 4 || state == 5 {
        if digit {
            5
        } else if exp && state != 4 {
            6
        } else {
            9
        }
    } else if state == 6 || state == 7 {
        if digit {
            8
        } else if state == 6 && sign {
            7
        } else {
            9
        }
    } else if state == 8 && digit {
        8
    } else {
        9
    }
}

pub open spec fn number_run(s: Seq<char>) -> u8
    decreases s.len(),
{
    if s.len() == 0 {
        0
    } else {
        number_step(number_run(s.drop_last()), s.last())
    }
}

/// What a scan of a number's text has learnt of its magnitude.
#[derive(Clone, Copy)]
pub struct Scan {
    /// A non-zero digit of the mantissa has been seen.
    pub nonzero: bool,
    /// The decimal order of the mantissa: its value lies in
    /// `[10^(order-1), 10^order)` once a non-zero digit is seen.
    pub order: i128,
    /// How many significant digits have been compared with the limit (at most 17).
    pub nsig: u8,
    /// How the significant digits compare with those of the limit:
    /// 0 equal so far, 1 below, 2 above.
    pub cmp: u8,
    /// The exponent's absolute value, held at `EXP_CAP` when larger.
    pub exp: u128,
    pub exp_neg: bool,
}

pub const ORDER_CAP: i128 = 1267650600228229401496703205376;

pub const EXP_CAP: u128 = 1208925819614629174706176;

/// The digits of 1.7976931348623157e308, the largest magnitude accepted: every
/// number up to it is a finite double.
pub open spec fn limit_digit_spec(k: u8) -> u8 {
    if k == 0 {
        1
    } else if k == 1 {
        7
    } else if k == 2 {
        9
    } else if k == 3 {
        7
    } else if k == 4 {
        6
    } else if k == 5 {
        9
    } else if k == 6 {
        3
    } else if k == 7 {
        1
    } else if k == 8 {
        3
    } else if k == 9 {
        4
    } else if k == 10 {
        8
    } else if k == 11 {
        6
    } else if k == 12 {
        2
    } else if k == 13 {
        3
    } else if k == 14 {
        1
    } else if k == 15 {
        5
    } else {
        7
    }
}

fn limit_digit(k: u8) -> (r: u8)
    ensures
        r == limit_digit_spec(k),
{
    if k == 0 {
        1
    } else if k == 1 {
        7
    } else if k == 2 {
        9
    } else if k == 3 {
        7
    } else if k == 4 {
        6
    } else if k == 5 {
        9
    } else if k == 6 {
        3
    } else if k == 7 {
        1
    } else if k == 8 {
        3
    } else if k == 9 {
        4
    } else if k == 10 {
        8
    } else if k == 11 {
        6
    } else if k == 12 {
        2
    } else if k == 13 {
        3
    } else if k == 14 {
        1
    } else if k == 15 {
        5
    } else {
        7
    }
}

pub open spec fn take_digit_spec(sc: Scan, d: u8) -> Scan {
    let cmp = if sc.cmp != 0 {
        sc.cmp
    } else if sc.nsig < 17 {
        let l = limit_digit_spec(sc.nsig);
        if d < l {
            1
        } else if d > l {
            2
        } else {
            0
        }
    } else if d != 0 {
        2
    } else {
        0
    };
    Scan { cmp, nsig: if sc.nsig < 17 { (sc.nsig + 1) as u8 } else { sc.nsig }, ..sc }
}

fn take_digit(sc: Scan, d: u8) -> (r: Scan)
    ensures
        r == take_digit_spec(sc, d),
{
    let cmp = if sc.cmp != 0 {
        sc.cmp
    } else if sc.nsig < 17 {
        let l = limit_digit(sc.nsig);
        if d < l {
            1
        } else if d > l {
            2
        } else {
            0
        }
    } else if d != 0 {
        2
    } else {
        0
    };
    Scan { cmp, nsig: if sc.nsig < 17 { sc.nsig + 1 } else { sc.nsig }, ..sc }
}

/// One character of a scan; `state` is the recogniser's state before it.
pub open spec fn scan_step(sc: Scan, state: u8, c: char) -> Scan {
    let v = c as u32;
    if !(48 <= v <= 57) {
        if state == 6 && c == '-' {
            Scan { exp_neg: true, ..sc }
        } else {
            sc
        }
    } else {
        let d = (v - 48) as u8;
        if state == 6 || state == 7 || state == 8 {
            let e = sc.exp * 10 + d as u128;
            Scan { exp: if e <= EXP_CAP { e as u128 } else { EXP_CAP }, ..sc }
        } else if state <= 2 {
            if sc.nonzero || d != 0 {
                let t = take_digit_spec(sc, d);
                Scan { nonzero: true, order: if t.order < ORDER_CAP { (t.order + 1) as i128 } else { t.order }, ..t }
            } else {
                sc
            }
        } else if state <= 5 {
            if sc.nonzero || d != 0 {
                Scan { nonzero: true, ..take_digit_spec(sc, d) }
            } else {
                Scan { order: if sc.order > -ORDER_CAP { (sc.order - 1) as i128 } else { sc.order }, ..sc }
            }
        } else {
            sc
        }
    }
}

fn scan_step_exec(sc: Scan, state: u8, c: char) -> (r: Scan)
    requires
        scan_bounded(sc),
    ensures
        r == scan_step(sc, state, c),
{
    let v = c as u32;
    if !(48 <= v && v <= 57) {
        if state == 6 && c == '-' {
            Scan { exp_neg: true, ..sc }
        } else {
            sc
        }
    } else {
        let d = (v - 48) as u8;
        if state == 6 || state == 7 || state == 8 {
            let e = sc.exp * 10 + d as u128;
            Scan { exp: if e <= EXP_CAP { e } else { EXP_CAP }, ..sc }
        } else if state <= 2 {
            if sc.nonzero || d != 0 {
                let t = take_digit(sc, d);
                Scan { nonzero: true, order: if t.order < ORDER_CAP { t.order + 1 } else { t.order }, ..t }
            } else {
                sc
            }
        } else if state <= 5 {
            if sc.nonzero || d != 0 {
                Scan { nonzero: true, ..take_digit(sc, d) }
            } else {
                Scan { order: if sc.order > -ORDER_CAP { sc.order - 1 } else { sc.order }, ..sc }
            }
        } else {
            sc
        }
    }
}

pub open spec fn scan_bounded(sc: Scan) -> bool {
    sc.exp <= EXP_CAP && -ORDER_CAP <= sc.order <= ORDER_CAP
}

proof fn lemma_scan_bounded(s: Seq<char>)
    ensures
        scan_bounded(scan_run(s)),
    decreases s.len(),
{
    if s.len() > 0 {
        lemma_scan_bounded(s.drop_last());
    }
}

pub open spec fn scan_start() -> Scan {
    Scan { nonzero: false, order: 0, nsig: 0, cmp: 0, exp: 0, exp_neg: false }
}

pub open spec fn scan_run(s: Seq<char>) -> Scan
    decreases s.len(),
{
    if s.len() == 0 {
        scan_start()
    } else {
        scan_step(scan_run(s.drop_last()), number_run(s.drop_last()), s.last())
    }
}

/// Whether the scanned number is at most 1.7976931348623157e308 in magnitude:
/// zero, of order at most 308, or of order 309 with its significant digits
/// not above the limit's.
pub open spec fn in_range(sc: Scan) -> bool {
    let total = sc.order + if sc.exp_neg {
        -(sc.exp as int)
    } else {
        sc.exp as int
    };
    !sc.nonzero || total <= 308 || (total == 309 && sc.cmp != 2)
}

/// Whether `s` is the text of a decimal number whose magnitude is at most
/// 1.7976931348623157e308, so that it reads as a finite double. An exponent
/// beyond `EXP_CAP` counts as `EXP_CAP`.
pub open spec fn is_number(s: Seq<char>) -> bool {
    let q = number_run(s);
    (q == 2 || q == 3 || q == 5 || q == 8) && in_range(scan_run(s))
}

/// The planar ordinates of a box of 4 or 6: a 3-D box loses its z-max, then its z-min.
pub open spec fn planar(ords: Seq<Seq<char>>) -> Seq<Seq<char>> {
    if ords.len() == 6 {
        ords.remove(5).remove(2)
    } else {
        ords
    }
}

/// What a box of ordinates and an optional CRS identifier give: the four planar
/// ordinates, the resolved CRS and its storage code. The ordinates keep the
/// order in which they were given, whatever the CRS's axis order: no swap is
/// made for a latitude-first CRS, and the storage layer receives them as written.
pub open spec fn envelope_of(ords: Seq<Seq<char>>, crs: Option<Seq<char>>) -> Result<
    (Seq<Seq<char>>, (Seq<char>, u32), u32),
    crate::error::ErrorView,
> {
    let id = match crs {
        Some(c) => c,
        None => Seq::<char>::empty(),
    };
    if !(ords.len() == 4 || ords.len() == 6) || exists|i: int|
        0 <= i < ords.len() && !is_number(#[trigger] ords[i]) {
        Err(crate::error::ErrorView::InvalidBbox)
    } else {
        match resolve_spec(id) {
            None => Err(crate::error::ErrorView::InvalidCrs),
            Some(c) => match storage_code_spec(c.0, c.1) {
                None => Err(crate::error::ErrorView::InvalidCrs),
                Some(srid) => Ok((planar(ords), c, srid)),
            },
        }
    }
}

pub open spec fn envelope_spec(bbox: Seq<char>, crs: Option<Seq<char>>) -> Result<
    (Seq<Seq<char>>, (Seq<char>, u32), u32),
    crate::error::ErrorView,
> {
    envelope_of(split(bbox, ','), crs)
}

impl Envelope {
    pub open spec fn model(&self) -> (Seq<Seq<char>>, (Seq<char>, u32), u32) {
        (
            seq![self.xmin@, self.ymin@, self.xmax@, self.ymax@],
            (self.crs.authority@, self.crs.code),
            self.srid,
        )
    }
}

fn number_step_exec(state: u8, c: char) -> (r: u8)
    ensures
        r == number_step(state, c),
{
    let d = c as u32;
    let digit = 48 <= d && d <= 57;
    let sign = c == '+' || c == '-';
    let exp = c == 'e' || c == 'E';
    if state == 0 || state == 1 {
        if digit {
            2
        } else if c == '.' {
            4
        } else if state == 0 && sign {
            1
        } else {
            9
        }
    } else if state == 2 {
        if digit {
            2
        } else if c == '.' {
            3
        } else if exp {
            6
        } else {
            9
        }
    } else if state == 3 || state == 4 || state == 5 {
        if digit {
            5
        } else if exp && state != 4 {
            6
        } else {
            9
        }
    } else if state == 6 || state == 7 {
        if digit {
            8
        } else if state == 6 && sign {
            7
        } else {
            9
        }
    } else if state == 8 && digit {
        8
    } else {
        9
    }
}

/// Whether `s` is the text of a decimal number.
pub fn is_number_text(s: &str) -> (r: bool)
    ensures
        r == is_number(s@),
{
    let cs = chars_of(s);
    let mut state: u8 = 0;
    let mut sc = Scan { nonzero: false, order: 0, nsig: 0, cmp: 0, exp: 0, exp_neg: false };
    let mut i: usize = 0;
    while i < cs.len()
        invariant
            cs@ == s@,
            i <= cs.len(),
            state == number_run(s@.take(i as int)),
            sc == scan_run(s@.take(i as int)),
        decreases cs.len() - i,
    {
        assert(s@.take(i as int + 1).drop_last() =~= s@.take(i as int));
        proof {
            lemma_scan_bounded(s@.take(i as int));
        }
        sc = scan_step_exec(sc, state, cs[i]);
        state = number_step_exec(state, cs[i]);
        i = i + 1;
    }
    assert(s@.take(cs.len() as int) =~= s@);
    proof {
        lemma_scan_bounded(s@);
    }
    let total: i128 = if sc.exp_neg {
        sc.order - sc.exp as i128
    } else {
        sc.order + sc.exp as i128
    };
    (state == 2 || state == 3 || state == 5 || state == 8) && (!sc.nonzero || total <= 308 || (
    total == 309 && sc.cmp != 2))
}

/// Reduces a box of 6 ordinates to its planar 4 by removing index 5, then index 2.
pub fn reduce_ordinates(ords: Vec<String>) -> (r: Vec<String>)
    ensures
        r.deep_view() == planar(ords.deep_view()),
{
    let mut v = ords;
    if v.len() == 6 {
        let ghost v0 = v.deep_view();
        v.remove(5);
        v.remove(2);
        assert(v.deep_view() =~= v0.remove(5).remove(2));
    }
    v
}

/// Builds the envelope of a `bbox` parameter with its optional CRS identifier
/// (the default CRS when absent). Min/max order is not checked.
pub fn build_envelope(bbox: &str, bbox_crs: Option<&str>) -> (r: Result<Envelope, QueryError>)
    ensures
        match r {
            Ok(e) => envelope_spec(bbox@, opt_str(bbox_crs)) == Ok::<
                _,
                crate::error::ErrorView,
            >(e.model()),
            Err(e) => envelope_spec(bbox@, opt_str(bbox_crs)) == Err::<
                (Seq<Seq<char>>, (Seq<char>, u32), u32),
                _,
            >(e@),
        },
{
    let ords = split_on(bbox, ',');
    let n = ords.len();
    assert(ords.deep_view().len() == n);
    if n != 4 && n != 6 {
        assert(split(bbox@, ',').len() == n);
        return Err(QueryError::InvalidBbox);
    }
    let mut i: usize = 0;
    while i < n
        invariant
            n == ords.len(),
            n == 4 || n == 6,
            ords.deep_view() == split(bbox@, ','),
            i <= n,
            forall|j: int| 0 <= j < i ==> is_number(#[trigger] ords.deep_view()[j]),
        decreases n - i,
    {
        if !is_number_text(ords[i].as_str()) {
            assert(!is_number(ords.deep_view()[i as int]));
            return Err(QueryError::InvalidBbox);
        }
        i = i + 1;
    }
    let crs = match bbox_crs {
        Some(c) => CrsCode::resolve(c),
        None => CrsCode::resolve(""),
    };
    proof {
        reveal_strlit("");
    }
    let crs = match crs {
        Ok(c) => c,
        Err(e) => {
            return Err(e);
        },
    };
    let srid = match crs.to_storage_code() {
        Some(s) => s,
        None => {
            return Err(QueryError::InvalidCrs);
        },
    };
    let p = reduce_ordinates(ords);
    let ghost pv = p.deep_view();
    assert(pv.len() == 4);
    assert(p@.len() == 4);
    let xmin = p[0].clone();
    let ymin = p[1].clone();
    let xmax = p[2].clone();
    let ymax = p[3].clone();
    let e = Envelope { xmin, ymin, xmax, ymax, crs, srid };
    assert(e.model().0 =~= pv);
    Ok(e)
}

/// The CRS identifier that stands for an optional one.
pub open spec fn crs_id(crs: Option<Seq<char>>) -> Seq<char> {
    match crs {
        Some(c) => c,
        None => Seq::<char>::empty(),
    }
}

/// Whether the CRS identifier (the default when absent) resolves to a CRS
/// that the storage layer knows.
pub open spec fn storable(crs: Option<Seq<char>>) -> bool {
    resolve_spec(crs_id(crs)) is Some && storage_code_spec(
        resolve_spec(crs_id(crs)).unwrap().0,
        resolve_spec(crs_id(crs)).unwrap().1,
    ) is Some
}

/// A box of four numbers in a storable CRS builds whatever their order: the
/// builder keeps them as given and never checks that a minimum lies below its
/// maximum.
pub proof fn law_order_not_checked(ords: Seq<Seq<char>>, crs: Option<Seq<char>>)
    requires
        ords.len() == 4,
        forall|i: int| 0 <= i < 4 ==> is_number(#[trigger] ords[i]),
        storable(crs),
    ensures
        envelope_of(ords, crs) is Ok,
        envelope_of(ords, crs)->Ok_0.0 == ords,
        envelope_of(seq![ords[2], ords[3], ords[0], ords[1]], crs) is Ok,
        envelope_of(seq![ords[2], ords[3], ords[0], ords[1]], crs)->Ok_0.0 == seq![
            ords[2],
            ords[3],
            ords[0],
            ords[1],
        ],
{
    let swapped = seq![ords[2], ords[3], ords[0], ords[1]];
    assert forall|i: int| 0 <= i < 4 implies is_number(#[trigger] swapped[i]) by {
        if i == 0 {
            assert(swapped[0] == ords[2]);
        } else if i == 1 {
            assert(swapped[1] == ords[3]);
        } else if i == 2 {
            assert(swapped[2] == ords[0]);
        } else {
            assert(swapped[3] == ords[1]);
        }
    }
}

/// A box of six numbers in a storable CRS builds, and its envelope holds
/// exactly the ordinates at indices 0, 1, 3 and 4, in that order.
pub proof fn law_six_ordinates_build(ords: Seq<Seq<char>>, crs: Option<Seq<char>>)
    requires
        ords.len() == 6,
        forall|i: int| 0 <= i < 6 ==> is_number(#[trigger] ords[i]),
        storable(crs),
    ensures
        envelope_of(ords, crs) is Ok,
        envelope_of(ords, crs)->Ok_0.0 == seq![ords[0], ords[1], ords[3], ords[4]],
{
    law_six_ordinates(ords);
}

/// A box of six ordinates loses exactly its z-max (index 5), then its z-min
/// (index 2).
pub proof fn law_six_ordinates(ords: Seq<Seq<char>>)
    requires
        ords.len() == 6,
    ensures
        planar(ords) == seq![ords[0], ords[1], ords[3], ords[4]],
{
    assert(ords.remove(5).remove(2) =~= seq![ords[0], ords[1], ords[3], ords[4]]);
}

} // verus!
