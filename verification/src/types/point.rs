//! Three-component points and the micro-grammars that produce them: a bare
//! space-separated triple `x y z`, the parenthesized form `(x y z)`, the
//! bracketed form `[x y z]`, and the plane form of three parenthesized
//! triples. Components are kept as their validated numeric-literal text.
use vstd::prelude::*;
use crate::bytes::{copy_bytes, find_byte, find_byte_at, split_ws, split_ws_bytes, subrange_to_vec, trim, trim_bytes};
use crate::num::{is_number_body, is_number_body_bytes};

verus! {

/// A point with three numeric components, each held as its literal text.
#[derive(Debug, Clone, PartialEq, Eq)]
pub struct Point3D {
    pub x: Vec<u8>,
    pub y: Vec<u8>,
    pub z: Vec<u8>,
}

/// The mathematical image of a `Point3D`.
#[verifier::ext_equal]
pub struct SpecPoint {
    pub x: Seq<u8>,
    pub y: Seq<u8>,
    pub z: Seq<u8>,
}

impl DeepView for Point3D {
    type V = SpecPoint;

    open spec fn deep_view(&self) -> SpecPoint {
        SpecPoint { x: self.x@, y: self.y@, z: self.z@ }
    }
}

/// The point all of whose components read `0`.
pub open spec fn spec_point_zero() -> SpecPoint {
    SpecPoint { x: seq![48u8], y: seq![48u8], z: seq![48u8] }
}

/// The single byte of the digit zero.
pub fn zero_text() -> (r: Vec<u8>)
    ensures
        r@ =~= seq![48u8],
{
    let mut r: Vec<u8> = Vec::new();
    r.push(48);
    r
}

impl Default for Point3D {
    /// The origin: every component reads `0`.
    fn default() -> (r: Point3D)
        ensures
            r.deep_view() == spec_point_zero(),
    {
        let r = Point3D { x: zero_text(), y: zero_text(), z: zero_text() };
        assert(r.deep_view() =~~= spec_point_zero());
        r
    }
}

/// Decodes `x y z`: exactly three whitespace-separated numeric literals.
pub open spec fn spec_vec3(s: Seq<u8>) -> Option<SpecPoint> {
    let ps = split_ws(s);
    if ps.len() == 3 && is_number_body(ps[0]) && is_number_body(ps[1]) && is_number_body(ps[2]) {
        Some(SpecPoint { x: ps[0], y: ps[1], z: ps[2] })
    } else {
        None
    }
}

pub fn decode_vec3(s: &[u8]) -> (r: Option<Point3D>)
    ensures
        match r {
            Some(p) => spec_vec3(s@) == Some(p.deep_view()),
            None => spec_vec3(s@) is None,
        },
{
    let mut ps = split_ws_bytes(s);
    let ghost psv = split_ws(s@);
    if ps.len() != 3 {
        return None;
    }
    assert(ps@[0]@ == psv[0] && ps@[1]@ == psv[1] && ps@[2]@ == psv[2]);
    if is_number_body_bytes(ps[0].as_slice()) && is_number_body_bytes(ps[1].as_slice())
        && is_number_body_bytes(ps[2].as_slice()) {
        let z = ps.pop().unwrap();
        let y = ps.pop().unwrap();
        let x = ps.pop().unwrap();
        let p = Point3D { x, y, z };
        assert(spec_vec3(s@) == Some(p.deep_view()));
        Some(p)
    } else {
        None
    }
}

/// Decodes `(x y z)`: the trimmed text must be parenthesized; the interior
/// is a 3-vector.
pub open spec fn spec_paren_point(s: Seq<u8>) -> Option<SpecPoint> {
    let t = trim(s);
    if t.len() >= 2 && t[0] == 40 && t[t.len() - 1] == 41 {
        spec_vec3(t.subrange(1, t.len() - 1))
    } else {
        None
    }
}

pub fn decode_paren_point(s: &[u8]) -> (r: Option<Point3D>)
    ensures
        match r {
            Some(p) => spec_paren_point(s@) == Some(p.deep_view()),
            None => spec_paren_point(s@) is None,
        },
{
    let t = trim_bytes(s);
    if t.len() >= 2 && t[0] == 40 && t[t.len() - 1] == 41 {
        let inner = subrange_to_vec(t.as_slice(), 1, t.len() - 1);
        decode_vec3(inner.as_slice())
    } else {
        None
    }
}

/// Decodes `[x y z]`: the bracketed start-position form.
pub open spec fn spec_bracket_point(s: Seq<u8>) -> Option<SpecPoint> {
    let t = trim(s);
    if t.len() >= 2 && t[0] == 91 && t[t.len() - 1] == 93 {
        spec_vec3(t.subrange(1, t.len() - 1))
    } else {
        None
    }
}

pub fn decode_bracket_point(s: &[u8]) -> (r: Option<Point3D>)
    ensures
        match r {
            Some(p) => spec_bracket_point(s@) == Some(p.deep_view()),
            None => spec_bracket_point(s@) is None,
        },
{
    let t = trim_bytes(s);
    if t.len() >= 2 && t[0] == 91 && t[t.len() - 1] == 93 {
        let inner = subrange_to_vec(t.as_slice(), 1, t.len() - 1);
        decode_vec3(inner.as_slice())
    } else {
        None
    }
}

/// Scans the next `( ... )` group: everything before the `(` is skipped,
/// the interior decodes as a 3-vector, and the remainder after `)` is
/// handed back.
pub open spec fn spec_plane_group(s: Seq<u8>) -> Option<(SpecPoint, Seq<u8>)> {
    match find_byte(s, 40) {
        None => None,
        Some(o) => {
            let r1 = s.skip(o + 1);
            match find_byte(r1, 41) {
                None => None,
                Some(c) => match spec_vec3(r1.take(c)) {
                    None => None,
                    Some(p) => Some((p, r1.skip(c + 1))),
                },
            }
        },
    }
}

/// Decodes a plane: three parenthesized 3-vectors scanned in sequence from
/// the trimmed text; whatever follows the third group is ignored.
pub open spec fn spec_plane(s: Seq<u8>) -> Option<(SpecPoint, SpecPoint, SpecPoint)> {
    match spec_plane_group(trim(s)) {
        None => None,
        Some((p1, r1)) => match spec_plane_group(r1) {
            None => None,
            Some((p2, r2)) => match spec_plane_group(r2) {
                None => None,
                Some((p3, _)) => Some((p1, p2, p3)),
            },
        },
    }
}

/// Scans one `( ... )` group of `t` starting at `pos`; returns the point and
/// the index just past the closing parenthesis.
fn plane_group_at(t: &[u8], pos: usize) -> (r: Option<(Point3D, usize)>)
    requires
        pos <= t@.len(),
    ensures
        match r {
            Some((p, q)) => pos <= q <= t@.len() && spec_plane_group(t@.skip(pos as int)) == Some(
                (p.deep_view(), t@.skip(q as int)),
            ),
            None => spec_plane_group(t@.skip(pos as int)) is None,
        },
{
    let n = t.len();
    let ghost rem = t@.skip(pos as int);
    match find_byte_at(t, pos, 40) {
        None => None,
        Some(o) => {
            proof {
                crate::bytes::lemma_find_byte(rem, 40);
                assert(o < n);
                assert(rem.skip((o - pos) + 1) =~= t@.skip(o + 1));
            }
            let ghost r1 = rem.skip((o - pos) + 1);
            match find_byte_at(t, o + 1, 41) {
                None => None,
                Some(c) => {
                    proof {
                        crate::bytes::lemma_find_byte(r1, 41);
                        assert(c < n);
                        assert(r1.take(c - (o + 1)) =~= t@.subrange(o + 1, c as int));
                        assert(r1.skip((c - (o + 1)) + 1) =~= t@.skip(c + 1));
                    }
                    let inner = subrange_to_vec(t, o + 1, c);
                    match decode_vec3(inner.as_slice()) {
                        None => None,
                        Some(p) => Some((p, c + 1)),
                    }
                },
            }
        },
    }
}

pub fn decode_plane(s: &[u8]) -> (r: Option<(Point3D, Point3D, Point3D)>)
    ensures
        match r {
            Some(ps) => spec_plane(s@) == Some(ps.deep_view()),
            None => spec_plane(s@) is None,
        },
{
    let t = trim_bytes(s);
    assert(t@.skip(0) =~= t@);
    match plane_group_at(t.as_slice(), 0) {
        None => None,
        Some((p1, q1)) => match plane_group_at(t.as_slice(), q1) {
            None => None,
            Some((p2, q2)) => match plane_group_at(t.as_slice(), q2) {
                None => None,
                Some((p3, _)) => {
                    let ps = (p1, p2, p3);
                    assert(spec_plane(s@) == Some(ps.deep_view()));
                    Some(ps)
                },
            },
        },
    }
}

} // verus!
