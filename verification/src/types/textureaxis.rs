//! Texture projection axes: the micro-grammar `[x y z shift] scale`, where
//! the bracket interior holds exactly four numeric literals and the trailing
//! text after `]` is the scale, with nothing allowed after it.
use vstd::prelude::*;
use crate::bytes::{find_byte, find_byte_at, split_ws, split_ws_bytes, subrange_to_vec, trim, trim_bytes};
use crate::num::{is_number_body, is_number_body_bytes, is_number_bytes, is_number_text};
use crate::types::point::zero_text;

verus! {

/// A texture axis: a 3-vector, a shift and a scale, all kept as their
/// validated literal text.
#[derive(Debug, Clone, PartialEq, Eq)]
pub struct TextureAxis {
    pub x: Vec<u8>,
    pub y: Vec<u8>,
    pub z: Vec<u8>,
    pub shift: Vec<u8>,
    pub scale: Vec<u8>,
}

/// The mathematical image of a `TextureAxis`.
#[verifier::ext_equal]
pub struct SpecAxis {
    pub x: Seq<u8>,
    pub y: Seq<u8>,
    pub z: Seq<u8>,
    pub shift: Seq<u8>,
    pub scale: Seq<u8>,
}

impl DeepView for TextureAxis {
    type V = SpecAxis;

    open spec fn deep_view(&self) -> SpecAxis {
        SpecAxis { x: self.x@, y: self.y@, z: self.z@, shift: self.shift@, scale: self.scale@ }
    }
}

/// The axis all of whose components read `0`.
pub open spec fn spec_axis_zero() -> SpecAxis {
    SpecAxis {
        x: seq![48u8],
        y: seq![48u8],
        z: seq![48u8],
        shift: seq![48u8],
        scale: seq![48u8],
    }
}

impl Default for TextureAxis {
    /// Every component reads `0`.
    fn default() -> (r: TextureAxis)
        ensures
            r.deep_view() == spec_axis_zero(),
    {
        let r = TextureAxis {
            x: zero_text(),
            y: zero_text(),
            z: zero_text(),
            shift: zero_text(),
            scale: zero_text(),
        };
        assert(r.deep_view() =~~= spec_axis_zero());
        r
    }
}

/// Decodes `[x y z shift] scale`: anything before `[` is skipped, the
/// interior must hold exactly four numeric literals, and the trimmed text
/// after `]` must be one numeric literal, the scale.
pub open spec fn spec_axis(s: Seq<u8>) -> Option<SpecAxis> {
    let t = trim(s);
    match find_byte(t, 91) {
        None => None,
        Some(o) => {
            let r1 = t.skip(o + 1);
            match find_byte(r1, 93) {
                None => None,
                Some(c) => {
                    let ps = split_ws(r1.take(c));
                    let scale = trim(r1.skip(c + 1));
                    if ps.len() == 4 && is_number_body(ps[0]) && is_number_body(ps[1])
                        && is_number_body(ps[2]) && is_number_body(ps[3]) && scale.len() > 0
                        && is_number_body(scale) {
                        Some(
                            SpecAxis {
                                x: ps[0],
                                y: ps[1],
                                z: ps[2],
                                shift: ps[3],
                                scale: scale,
                            },
                        )
                    } else {
                        None
                    }
                },
            }
        },
    }
}

pub fn decode_axis(s: &[u8]) -> (r: Option<TextureAxis>)
    ensures
        match r {
            Some(a) => spec_axis(s@) == Some(a.deep_view()),
            None => spec_axis(s@) is None,
        },
{
    let t = trim_bytes(s);
    let tb = t.as_slice();
    let n = tb.len();
    assert(tb@.skip(0) =~= tb@);
    match find_byte_at(tb, 0, 91) {
        None => None,
        Some(o) => {
            proof {
                crate::bytes::lemma_find_byte(tb@, 91);
                assert(o < n);
            }
            let ghost r1 = tb@.skip(o + 1);
            match find_byte_at(tb, o + 1, 93) {
                None => None,
                Some(c) => {
                    proof {
                        crate::bytes::lemma_find_byte(r1, 93);
                        assert(c < n);
                        assert(r1.take(c - (o + 1)) =~= tb@.subrange(o + 1, c as int));
                        assert(r1.skip((c - (o + 1)) + 1) =~= tb@.skip(c + 1));
                    }
                    let inner = subrange_to_vec(tb, o + 1, c);
                    let tail = subrange_to_vec(tb, c + 1, n);
                    let mut ps = split_ws_bytes(inner.as_slice());
                    let ghost psv = split_ws(inner@);
                    let scale = trim_bytes(tail.as_slice());
                    if ps.len() != 4 {
                        return None;
                    }
                    assert(ps@[0]@ == psv[0] && ps@[1]@ == psv[1] && ps@[2]@ == psv[2] && ps@[3]@
                        == psv[3]);
                    if is_number_body_bytes(ps[0].as_slice()) && is_number_body_bytes(
                        ps[1].as_slice(),
                    ) && is_number_body_bytes(ps[2].as_slice()) && is_number_body_bytes(
                        ps[3].as_slice(),
                    ) && scale.len() > 0 && is_number_body_bytes(scale.as_slice()) {
                        let shift = ps.pop().unwrap();
                        let z = ps.pop().unwrap();
                        let y = ps.pop().unwrap();
                        let x = ps.pop().unwrap();
                        let a = TextureAxis { x, y, z, shift, scale };
                        assert(spec_axis(s@) == Some(a.deep_view()));
                        Some(a)
                    } else {
                        None
                    }
                },
            }
        },
    }
}

} // verus!
