//! Displacement (terrain) data. A `dispinfo` block carries scalar keys and
//! row sub-blocks (`normals`, `distances`, `offsets`, `offset_normals`,
//! `alphas`, `triangle_tags`, `allowed_verts`). Each row block holds quoted
//! pairs whose values are whitespace-separated numbers; rows are decoded
//! independently and concatenated in file order. Point rows must hold a
//! multiple of three numbers.
use vstd::prelude::*;
use crate::block::{lemma_entry_sub_deep_view, parse_block_exact, spec_block_exact, Block, SpecBlock, SpecEntry, Entry};
use crate::bytes::{bytes_eq, copy_bytes, split_ws, split_ws_bytes, trim, trim_bytes};
use crate::error::{ParseError, ParseErrorKind};
use crate::lexer::{Tok, Token};
use crate::num::{is_number_body, is_number_body_bytes, parse_bool_bytes, parse_bool_text, parse_u32_bytes, parse_u32_text};
use crate::types::point::{spec_bracket_point, spec_point_zero, Point3D, SpecPoint};
use vstd::string::StringSliceAdditionalSpecFns;

verus! {

/// One displacement vertex, assembled by callers from the row arrays.
#[derive(Debug, Clone, PartialEq, Eq)]
pub struct DispVertex {
    pub position: Point3D,
    pub normal: Point3D,
    pub distance: Vec<u8>,
    pub alpha: Vec<u8>,
}

/// One displacement triangle: the indices of its corners.
#[derive(Debug, Clone, Copy, PartialEq, Eq)]
pub struct DispTri {
    pub indices: [u32; 3],
}

/// Displacement data for one side.
#[derive(Debug, Clone, PartialEq, Eq)]
pub struct DispInfo {
    pub power: u32,
    pub start_position: Point3D,
    pub elevation: Vec<u8>,
    pub subdiv: bool,
    pub normals: Vec<Point3D>,
    pub distances: Vec<Vec<u8>>,
    pub offsets: Vec<Point3D>,
    pub offset_normals: Vec<Point3D>,
    pub alphas: Vec<Vec<u8>>,
    pub triangle_tags: Vec<u32>,
    pub allowed_verts: Vec<u32>,
    pub flags: u32,
}

/// The mathematical image of a `DispInfo`.
#[verifier::ext_equal]
pub struct SpecDispInfo {
    pub power: u32,
    pub start_position: SpecPoint,
    pub elevation: Seq<u8>,
    pub subdiv: bool,
    pub normals: Seq<SpecPoint>,
    pub distances: Seq<Seq<u8>>,
    pub offsets: Seq<SpecPoint>,
    pub offset_normals: Seq<SpecPoint>,
    pub alphas: Seq<Seq<u8>>,
    pub triangle_tags: Seq<u32>,
    pub allowed_verts: Seq<u32>,
    pub flags: u32,
}

impl DeepView for DispInfo {
    type V = SpecDispInfo;

    open spec fn deep_view(&self) -> SpecDispInfo {
        SpecDispInfo {
            power: self.power,
            start_position: self.start_position.deep_view(),
            elevation: self.elevation@,
            subdiv: self.subdiv,
            normals: self.normals.deep_view(),
            distances: self.distances.deep_view(),
            offsets: self.offsets.deep_view(),
            offset_normals: self.offset_normals.deep_view(),
            alphas: self.alphas.deep_view(),
            triangle_tags: self.triangle_tags.deep_view(),
            allowed_verts: self.allowed_verts.deep_view(),
            flags: self.flags,
        }
    }
}

/// The record an empty `dispinfo` block folds to.
pub open spec fn spec_dispinfo_default() -> SpecDispInfo {
    SpecDispInfo {
        power: 0,
        start_position: spec_point_zero(),
        elevation: seq![48u8],
        subdiv: false,
        normals: Seq::empty(),
        distances: Seq::empty(),
        offsets: Seq::empty(),
        offset_normals: Seq::empty(),
        alphas: Seq::empty(),
        triangle_tags: Seq::empty(),
        allowed_verts: Seq::empty(),
        flags: 0,
    }
}

impl Default for DispInfo {
    fn default() -> (r: DispInfo)
        ensures
            r.deep_view() == spec_dispinfo_default(),
    {
        let r = DispInfo {
            power: 0,
            start_position: Point3D::default(),
            elevation: crate::types::point::zero_text(),
            subdiv: false,
            normals: Vec::new(),
            distances: Vec::new(),
            offsets: Vec::new(),
            offset_normals: Vec::new(),
            alphas: Vec::new(),
            triangle_tags: Vec::new(),
            allowed_verts: Vec::new(),
            flags: 0,
        };
        assert(r.deep_view() =~~= spec_dispinfo_default());
        r
    }
}

/// Decodes one point row: a multiple of three numeric literals, grouped in
/// threes.
pub open spec fn spec_point_row(v: Seq<u8>) -> Option<Seq<SpecPoint>> {
    let ps = split_ws(v);
    if ps.len() % 3 == 0 && (forall|j: int| 0 <= j < ps.len() ==> is_number_body(ps[j])) {
        Some(
            Seq::new(
                ps.len() / 3,
                |i: int| SpecPoint { x: ps[3 * i], y: ps[3 * i + 1], z: ps[3 * i + 2] },
            ),
        )
    } else {
        None
    }
}

/// Decodes one plain numeric row: every field a numeric literal, kept as
/// text.
pub open spec fn spec_number_row(v: Seq<u8>) -> Option<Seq<Seq<u8>>> {
    let ps = split_ws(v);
    if forall|j: int| 0 <= j < ps.len() ==> is_number_body(ps[j]) {
        Some(ps)
    } else {
        None
    }
}

/// Decodes one integer row.
pub open spec fn spec_u32_row(v: Seq<u8>) -> Option<Seq<u32>> {
    let ps = split_ws(v);
    if forall|j: int| 0 <= j < ps.len() ==> parse_u32_text(ps[j]) is Some {
        Some(Seq::new(ps.len(), |j: int| parse_u32_text(ps[j])->Some_0))
    } else {
        None
    }
}

pub fn decode_point_row(s: &[u8]) -> (r: Option<Vec<Point3D>>)
    ensures
        match r {
            Some(out) => spec_point_row(s@) == Some(out.deep_view()),
            None => spec_point_row(s@) is None,
        },
{
    let ps = split_ws_bytes(s);
    let ghost psv = split_ws(s@);
    assert(ps.deep_view() == psv);
    assert(ps@.len() == psv.len());
    if ps.len() % 3 != 0 {
        return None;
    }
    let mut j: usize = 0;
    while j < ps.len()
        invariant
            0 <= j <= ps@.len(),
            psv == split_ws(s@),
            ps.deep_view() == psv,
            ps@.len() == psv.len(),
            forall|k: int| 0 <= k < j ==> is_number_body(psv[k]),
        decreases ps@.len() - j,
    {
        assert(ps@[j as int]@ =~= psv[j as int]);
        if !is_number_body_bytes(ps[j].as_slice()) {
            proof {
                assert(!is_number_body(psv[j as int]));
                let pp = split_ws(s@);
                if forall|k: int| 0 <= k < pp.len() ==> is_number_body(pp[k]) {
                    assert(is_number_body(pp[j as int]));
                }
            }
            return None;
        }
        j += 1;
    }
    assert(forall|k: int| 0 <= k < psv.len() ==> is_number_body(psv[k]));
    let mut out: Vec<Point3D> = Vec::new();
    let mut i: usize = 0;
    let len = ps.len();
    let n = len / 3;
    proof {
        vstd::arithmetic::div_mod::lemma_fundamental_div_mod(len as int, 3);
        assert(3 * (n as int) == len as int);
    }
    while i < n
        invariant
            0 <= i <= n,
            ps@.len() == len,
            3 * (n as int) == ps@.len(),
            psv == split_ws(s@),
            ps.deep_view() == psv,
            ps@.len() == psv.len(),
            out@.len() == i,
            forall|k: int|
                0 <= k < i ==> #[trigger] out.deep_view()[k] == (SpecPoint {
                    x: psv[3 * k],
                    y: psv[3 * k + 1],
                    z: psv[3 * k + 2],
                }),
        decreases n - i,
    {
        assert(3 * (i as int) + 2 < ps@.len());
        assert(ps@[3 * i]@ =~= psv[3 * i]);
        assert(ps@[3 * i + 1]@ =~= psv[3 * i + 1]);
        assert(ps@[3 * i + 2]@ =~= psv[3 * i + 2]);
        let x = copy_bytes(&ps[3 * i]);
        let y = copy_bytes(&ps[3 * i + 1]);
        let z = copy_bytes(&ps[3 * i + 2]);
        let p = Point3D { x, y, z };
        let ghost pd = p.deep_view();
        let ghost pre = out.deep_view();
        out.push(p);
        proof {
            assert(out.deep_view() =~~= pre.push(pd));
        }
        i += 1;
    }
    proof {
        assert(spec_point_row(s@) is Some);
        assert(out.deep_view() =~~= spec_point_row(s@)->Some_0);
    }
    Some(out)
}

pub fn decode_number_row(s: &[u8]) -> (r: Option<Vec<Vec<u8>>>)
    ensures
        match r {
            Some(out) => spec_number_row(s@) == Some(out.deep_view()),
            None => spec_number_row(s@) is None,
        },
{
    let ps = split_ws_bytes(s);
    let ghost psv = split_ws(s@);
    assert(ps.deep_view() == psv);
    assert(ps@.len() == psv.len());
    let mut j: usize = 0;
    while j < ps.len()
        invariant
            0 <= j <= ps@.len(),
            psv == split_ws(s@),
            ps.deep_view() == psv,
            ps@.len() == psv.len(),
            forall|k: int| 0 <= k < j ==> is_number_body(psv[k]),
        decreases ps@.len() - j,
    {
        assert(ps@[j as int]@ =~= psv[j as int]);
        if !is_number_body_bytes(ps[j].as_slice()) {
            proof {
                assert(!is_number_body(psv[j as int]));
                let pp = split_ws(s@);
                if forall|k: int| 0 <= k < pp.len() ==> is_number_body(pp[k]) {
                    assert(is_number_body(pp[j as int]));
                }
            }
            return None;
        }
        j += 1;
    }
    assert(forall|k: int| 0 <= k < psv.len() ==> is_number_body(psv[k]));
    Some(ps)
}

pub fn decode_u32_row(s: &[u8]) -> (r: Option<Vec<u32>>)
    ensures
        match r {
            Some(out) => spec_u32_row(s@) == Some(out.deep_view()),
            None => spec_u32_row(s@) is None,
        },
{
    let ps = split_ws_bytes(s);
    let ghost psv = split_ws(s@);
    assert(ps.deep_view() == psv);
    assert(ps@.len() == psv.len());
    let mut out: Vec<u32> = Vec::new();
    let mut j: usize = 0;
    while j < ps.len()
        invariant
            0 <= j <= ps@.len(),
            psv == split_ws(s@),
            ps.deep_view() == psv,
            ps@.len() == psv.len(),
            out@.len() == j,
            forall|k: int| 0 <= k < j ==> parse_u32_text(psv[k]) is Some,
            forall|k: int| 0 <= k < j ==> #[trigger] out@[k] == parse_u32_text(psv[k])->Some_0,
        decreases ps@.len() - j,
    {
        assert(ps@[j as int]@ =~= psv[j as int]);
        match parse_u32_bytes(ps[j].as_slice()) {
            Some(n) => {
                out.push(n);
            },
            None => {
                proof {
                    assert(parse_u32_text(psv[j as int]) is None);
                    let pp = split_ws(s@);
                    if forall|k: int| 0 <= k < pp.len() ==> parse_u32_text(pp[k]) is Some {
                        assert(parse_u32_text(pp[j as int]) is Some);
                    }
                }
                return None;
            },
        }
        j += 1;
    }
    proof {
        assert(forall|k: int| 0 <= k < psv.len() ==> parse_u32_text(psv[k]) is Some);
        assert(spec_u32_row(s@) is Some);
        assert(out.deep_view() =~~= spec_u32_row(s@)->Some_0);
    }
    Some(out)
}

/// Decodes a row sub-block whose every entry is a point row; the rows are
/// concatenated in order.
pub open spec fn spec_point_rows(es: Seq<SpecEntry>, i: int) -> Option<Seq<SpecPoint>>
    decreases es.len() - i,
{
    if !(0 <= i < es.len()) {
        Some(Seq::empty())
    } else {
        match es[i] {
            SpecEntry::KV(k, v) => match spec_point_row(v) {
                Some(row) => match spec_point_rows(es, i + 1) {
                    Some(rest) => Some(row + rest),
                    None => None,
                },
                None => None,
            },
            SpecEntry::Sub(_) => None,
        }
    }
}

pub open spec fn spec_number_rows(es: Seq<SpecEntry>, i: int) -> Option<Seq<Seq<u8>>>
    decreases es.len() - i,
{
    if !(0 <= i < es.len()) {
        Some(Seq::empty())
    } else {
        match es[i] {
            SpecEntry::KV(k, v) => match spec_number_row(v) {
                Some(row) => match spec_number_rows(es, i + 1) {
                    Some(rest) => Some(row + rest),
                    None => None,
                },
                None => None,
            },
            SpecEntry::Sub(_) => None,
        }
    }
}

pub open spec fn spec_u32_rows(es: Seq<SpecEntry>, i: int) -> Option<Seq<u32>>
    decreases es.len() - i,
{
    if !(0 <= i < es.len()) {
        Some(Seq::empty())
    } else {
        match es[i] {
            SpecEntry::KV(k, v) => match spec_u32_row(v) {
                Some(row) => match spec_u32_rows(es, i + 1) {
                    Some(rest) => Some(row + rest),
                    None => None,
                },
                None => None,
            },
            SpecEntry::Sub(_) => None,
        }
    }
}

fn point_rows_from_block(b: &Block) -> (r: Result<Vec<Point3D>, ParseError>)
    ensures
        match r {
            Ok(out) => spec_point_rows(b.deep_view().entries, 0) == Some(out.deep_view()),
            Err(_) => spec_point_rows(b.deep_view().entries, 0) is None,
        },
{
    let ghost es = b.deep_view().entries;
    assert(es.len() == b.entries@.len());
    let mut out: Vec<Point3D> = Vec::new();
    let mut i: usize = 0;
    proof {
        assert(forall|rest: Seq<SpecPoint>| out.deep_view() + rest =~~= rest);
    }
    while i < b.entries.len()
        invariant
            0 <= i <= b.entries@.len(),
            es == b.deep_view().entries,
            es.len() == b.entries@.len(),
            spec_point_rows(es, 0) == match spec_point_rows(es, i as int) {
                None => None::<Seq<SpecPoint>>,
                Some(rest) => Some(out.deep_view() + rest),
            },
        decreases b.entries@.len() - i,
    {
        let e = &b.entries[i];
        assert(e.deep_view() == es[i as int]);
        match e {
            Entry::KV(_, v) => {
                match decode_point_row(v.as_slice()) {
                    Some(mut row) => {
                        let ghost rowv = row.deep_view();
                        let ghost pre = out.deep_view();
                        out.append(&mut row);
                        proof {
                            assert(out.deep_view() =~~= pre + rowv);
                            assert forall|rest: Seq<SpecPoint>| #[trigger]
                                (pre + (rowv + rest)) =~~= out.deep_view() + rest by {}
                        }
                    },
                    None => {
                        return Err(ParseError { at: i, kind: ParseErrorKind::BadValue });
                    },
                }
            },
            Entry::Sub(_) => {
                return Err(ParseError { at: i, kind: ParseErrorKind::UnknownBlock });
            },
        }
        i += 1;
    }
    proof {
        assert(spec_point_rows(es, i as int) == Some(Seq::<SpecPoint>::empty()));
        assert(out.deep_view() + Seq::<SpecPoint>::empty() =~~= out.deep_view());
    }
    Ok(out)
}

fn number_rows_from_block(b: &Block) -> (r: Result<Vec<Vec<u8>>, ParseError>)
    ensures
        match r {
            Ok(out) => spec_number_rows(b.deep_view().entries, 0) == Some(out.deep_view()),
            Err(_) => spec_number_rows(b.deep_view().entries, 0) is None,
        },
{
    let ghost es = b.deep_view().entries;
    assert(es.len() == b.entries@.len());
    let mut out: Vec<Vec<u8>> = Vec::new();
    let mut i: usize = 0;
    proof {
        assert(forall|rest: Seq<Seq<u8>>| out.deep_view() + rest =~~= rest);
    }
    while i < b.entries.len()
        invariant
            0 <= i <= b.entries@.len(),
            es == b.deep_view().entries,
            es.len() == b.entries@.len(),
            spec_number_rows(es, 0) == match spec_number_rows(es, i as int) {
                None => None::<Seq<Seq<u8>>>,
                Some(rest) => Some(out.deep_view() + rest),
            },
        decreases b.entries@.len() - i,
    {
        let e = &b.entries[i];
        assert(e.deep_view() == es[i as int]);
        match e {
            Entry::KV(_, v) => {
                match decode_number_row(v.as_slice()) {
                    Some(mut row) => {
                        let ghost rowv = row.deep_view();
                        let ghost pre = out.deep_view();
                        out.append(&mut row);
                        proof {
                            assert(out.deep_view() =~~= pre + rowv);
                            assert forall|rest: Seq<Seq<u8>>| #[trigger]
                                (pre + (rowv + rest)) =~~= out.deep_view() + rest by {}
                        }
                    },
                    None => {
                        return Err(ParseError { at: i, kind: ParseErrorKind::BadValue });
                    },
                }
            },
            Entry::Sub(_) => {
                return Err(ParseError { at: i, kind: ParseErrorKind::UnknownBlock });
            },
        }
        i += 1;
    }
    proof {
        assert(spec_number_rows(es, i as int) == Some(Seq::<Seq<u8>>::empty()));
        assert(out.deep_view() + Seq::<Seq<u8>>::empty() =~~= out.deep_view());
    }
    Ok(out)
}

fn u32_rows_from_block(b: &Block) -> (r: Result<Vec<u32>, ParseError>)
    ensures
        match r {
            Ok(out) => spec_u32_rows(b.deep_view().entries, 0) == Some(out.deep_view()),
            Err(_) => spec_u32_rows(b.deep_view().entries, 0) is None,
        },
{
    let ghost es = b.deep_view().entries;
    assert(es.len() == b.entries@.len());
    let mut out: Vec<u32> = Vec::new();
    let mut i: usize = 0;
    proof {
        assert(forall|rest: Seq<u32>| out.deep_view() + rest =~~= rest);
    }
    while i < b.entries.len()
        invariant
            0 <= i <= b.entries@.len(),
            es == b.deep_view().entries,
            es.len() == b.entries@.len(),
            spec_u32_rows(es, 0) == match spec_u32_rows(es, i as int) {
                None => None::<Seq<u32>>,
                Some(rest) => Some(out.deep_view() + rest),
            },
        decreases b.entries@.len() - i,
    {
        let e = &b.entries[i];
        assert(e.deep_view() == es[i as int]);
        match e {
            Entry::KV(_, v) => {
                match decode_u32_row(v.as_slice()) {
                    Some(mut row) => {
                        let ghost rowv = row.deep_view();
                        let ghost pre = out.deep_view();
                        out.append(&mut row);
                        proof {
                            assert(out.deep_view() =~~= pre + rowv);
                            assert forall|rest: Seq<u32>| #[trigger]
                                (pre + (rowv + rest)) =~~= out.deep_view() + rest by {}
                        }
                    },
                    None => {
                        return Err(ParseError { at: i, kind: ParseErrorKind::BadValue });
                    },
                }
            },
            Entry::Sub(_) => {
                return Err(ParseError { at: i, kind: ParseErrorKind::UnknownBlock });
            },
        }
        i += 1;
    }
    proof {
        assert(spec_u32_rows(es, i as int) == Some(Seq::<u32>::empty()));
        assert(out.deep_view() + Seq::<u32>::empty() =~~= out.deep_view());
    }
    Ok(out)
}

/// Applies one `dispinfo` body entry: the scalar keys assign, the row
/// sub-blocks replace their array; anything else fails.
pub open spec fn dispinfo_step(acc: SpecDispInfo, e: SpecEntry) -> Option<SpecDispInfo> {
    match e {
        SpecEntry::KV(k, v) => if k == "power".spec_bytes() {
            match parse_u32_text(v) {
                Some(x) => Some(SpecDispInfo { power: x, ..acc }),
                None => None,
            }
        } else if k == "startposition".spec_bytes() {
            match spec_bracket_point(v) {
                Some(p) => Some(SpecDispInfo { start_position: p, ..acc }),
                None => None,
            }
        } else if k == "elevation".spec_bytes() {
            if is_number_body(trim(v)) {
                Some(SpecDispInfo { elevation: trim(v), ..acc })
            } else {
                None
            }
        } else if k == "subdiv".spec_bytes() {
            match parse_bool_text(v) {
                Some(x) => Some(SpecDispInfo { subdiv: x, ..acc }),
                None => None,
            }
        } else if k == "flags".spec_bytes() {
            match parse_u32_text(v) {
                Some(x) => Some(SpecDispInfo { flags: x, ..acc }),
                None => None,
            }
        } else {
            None
        },
        SpecEntry::Sub(sub) => if sub.name == "normals".spec_bytes() {
            match spec_point_rows(sub.entries, 0) {
                Some(x) => Some(SpecDispInfo { normals: x, ..acc }),
                None => None,
            }
        } else if sub.name == "distances".spec_bytes() {
            match spec_number_rows(sub.entries, 0) {
                Some(x) => Some(SpecDispInfo { distances: x, ..acc }),
                None => None,
            }
        } else if sub.name == "offsets".spec_bytes() {
            match spec_point_rows(sub.entries, 0) {
                Some(x) => Some(SpecDispInfo { offsets: x, ..acc }),
                None => None,
            }
        } else if sub.name == "offset_normals".spec_bytes() {
            match spec_point_rows(sub.entries, 0) {
                Some(x) => Some(SpecDispInfo { offset_normals: x, ..acc }),
                None => None,
            }
        } else if sub.name == "alphas".spec_bytes() {
            match spec_number_rows(sub.entries, 0) {
                Some(x) => Some(SpecDispInfo { alphas: x, ..acc }),
                None => None,
            }
        } else if sub.name == "triangle_tags".spec_bytes() {
            match spec_u32_rows(sub.entries, 0) {
                Some(x) => Some(SpecDispInfo { triangle_tags: x, ..acc }),
                None => None,
            }
        } else if sub.name == "allowed_verts".spec_bytes() {
            match spec_u32_rows(sub.entries, 0) {
                Some(x) => Some(SpecDispInfo { allowed_verts: x, ..acc }),
                None => None,
            }
        } else {
            None
        },
    }
}

pub open spec fn dispinfo_fold(es: Seq<SpecEntry>, i: int, acc: SpecDispInfo) -> Option<
    SpecDispInfo,
>
    decreases es.len() - i,
{
    if !(0 <= i < es.len()) {
        Some(acc)
    } else {
        match dispinfo_step(acc, es[i]) {
            Some(a2) => dispinfo_fold(es, i + 1, a2),
            None => None,
        }
    }
}

/// Folds a `dispinfo` block: defaults, any entry order, last occurrence
/// wins.
pub open spec fn spec_dispinfo_block(b: SpecBlock) -> Option<SpecDispInfo> {
    if b.name == "dispinfo".spec_bytes() {
        dispinfo_fold(b.entries, 0, spec_dispinfo_default())
    } else {
        None
    }
}

/// Applies one body entry, executably.
#[verifier::rlimit(100)]
#[verifier::spinoff_prover]
fn dispinfo_apply(acc: DispInfo, e: &Entry) -> (r: Option<DispInfo>)
    ensures
        match r {
            Some(a2) => dispinfo_step(acc.deep_view(), e.deep_view()) == Some(a2.deep_view()),
            None => dispinfo_step(acc.deep_view(), e.deep_view()) is None,
        },
{
    match e {
        Entry::KV(k, v) => {
            if bytes_eq(k.as_slice(), "power".as_bytes()) {
                match parse_u32_bytes(v.as_slice()) {
                    Some(x) => Some(DispInfo { power: x, ..acc }),
                    None => None,
                }
            } else if bytes_eq(k.as_slice(), "startposition".as_bytes()) {
                match crate::types::point::decode_bracket_point(v.as_slice()) {
                    Some(p) => Some(DispInfo { start_position: p, ..acc }),
                    None => None,
                }
            } else if bytes_eq(k.as_slice(), "elevation".as_bytes()) {
                let t = trim_bytes(v.as_slice());
                if is_number_body_bytes(t.as_slice()) {
                    Some(DispInfo { elevation: t, ..acc })
                } else {
                    None
                }
            } else if bytes_eq(k.as_slice(), "subdiv".as_bytes()) {
                match parse_bool_bytes(v.as_slice()) {
                    Some(x) => Some(DispInfo { subdiv: x, ..acc }),
                    None => None,
                }
            } else if bytes_eq(k.as_slice(), "flags".as_bytes()) {
                match parse_u32_bytes(v.as_slice()) {
                    Some(x) => Some(DispInfo { flags: x, ..acc }),
                    None => None,
                }
            } else {
                None
            }
        },
        Entry::Sub(sub) => {
            proof {
                lemma_entry_sub_deep_view(*e);
            }
            if bytes_eq(sub.name.as_slice(), "normals".as_bytes()) {
                match point_rows_from_block(sub) {
                    Ok(x) => Some(DispInfo { normals: x, ..acc }),
                    Err(_) => None,
                }
            } else if bytes_eq(sub.name.as_slice(), "distances".as_bytes()) {
                match number_rows_from_block(sub) {
                    Ok(x) => Some(DispInfo { distances: x, ..acc }),
                    Err(_) => None,
                }
            } else if bytes_eq(sub.name.as_slice(), "offsets".as_bytes()) {
                match point_rows_from_block(sub) {
                    Ok(x) => Some(DispInfo { offsets: x, ..acc }),
                    Err(_) => None,
                }
            } else if bytes_eq(sub.name.as_slice(), "offset_normals".as_bytes()) {
                match point_rows_from_block(sub) {
                    Ok(x) => Some(DispInfo { offset_normals: x, ..acc }),
                    Err(_) => None,
                }
            } else if bytes_eq(sub.name.as_slice(), "alphas".as_bytes()) {
                match number_rows_from_block(sub) {
                    Ok(x) => Some(DispInfo { alphas: x, ..acc }),
                    Err(_) => None,
                }
            } else if bytes_eq(sub.name.as_slice(), "triangle_tags".as_bytes()) {
                match u32_rows_from_block(sub) {
                    Ok(x) => Some(DispInfo { triangle_tags: x, ..acc }),
                    Err(_) => None,
                }
            } else if bytes_eq(sub.name.as_slice(), "allowed_verts".as_bytes()) {
                match u32_rows_from_block(sub) {
                    Ok(x) => Some(DispInfo { allowed_verts: x, ..acc }),
                    Err(_) => None,
                }
            } else {
                None
            }
        },
    }
}

pub fn dispinfo_from_block(b: &Block) -> (r: Result<DispInfo, ParseError>)
    ensures
        match r {
            Ok(v) => spec_dispinfo_block(b.deep_view()) == Some(v.deep_view()),
            Err(_) => spec_dispinfo_block(b.deep_view()) is None,
        },
{
    let ghost bv = b.deep_view();
    assert(bv.entries.len() == b.entries@.len());
    if !bytes_eq(b.name.as_slice(), "dispinfo".as_bytes()) {
        return Err(ParseError { at: 0, kind: ParseErrorKind::WrongBlockName });
    }
    let mut acc = DispInfo::default();
    let mut i: usize = 0;
    while i < b.entries.len()
        invariant
            0 <= i <= b.entries@.len(),
            bv == b.deep_view(),
            bv.entries.len() == b.entries@.len(),
            dispinfo_fold(bv.entries, 0, spec_dispinfo_default()) == dispinfo_fold(
                bv.entries,
                i as int,
                acc.deep_view(),
            ),
        decreases b.entries@.len() - i,
    {
        let e = &b.entries[i];
        assert(e.deep_view() == bv.entries[i as int]);
        match dispinfo_apply(acc, e) {
            Some(a2) => {
                acc = a2;
            },
            None => {
                return Err(ParseError { at: i, kind: ParseErrorKind::UnknownKey });
            },
        }
        i += 1;
    }
    Ok(acc)
}

/// The whole token sequence as one `dispinfo` block.
pub open spec fn spec_parse_dispinfo(toks: Seq<Tok>) -> Option<SpecDispInfo> {
    match spec_block_exact(toks) {
        Some(b) => spec_dispinfo_block(b),
        None => None,
    }
}

impl DispInfo {
    /// Parses a complete token sequence as a `dispinfo` block.
    pub fn parse(toks: &Vec<Token>) -> (r: Result<DispInfo, ParseError>)
        ensures
            match r {
                Ok(v) => spec_parse_dispinfo(toks.deep_view()) == Some(v.deep_view()),
                Err(_) => spec_parse_dispinfo(toks.deep_view()) is None,
            },
    {
        match parse_block_exact(toks) {
            Ok(b) => dispinfo_from_block(&b),
            Err(e) => Err(e),
        }
    }
}

} // verus!
