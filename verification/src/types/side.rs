//! The `side` block: one face of a brush. Its keys may come in any order;
//! a `dispinfo` sub-block attaches displacement data; any other sub-block,
//! or a `dispinfo` whose content does not fold, is tolerated and skipped.
//! An unrecognized key fails the block.
use vstd::prelude::*;
use crate::block::{lemma_entry_sub_deep_view, parse_block_exact, spec_block_exact, Block, SpecBlock, SpecEntry, Entry};
use crate::bytes::{bytes_eq, trim, trim_bytes};
use crate::error::{ParseError, ParseErrorKind};
use crate::lexer::{Tok, Token};
use crate::num::{is_number_body, parse_u32_text};
use crate::types::displacement::{dispinfo_from_block, spec_dispinfo_block, DispInfo, SpecDispInfo};
use crate::types::point::{spec_plane, spec_point_zero, Point3D, SpecPoint};
use crate::types::textureaxis::{spec_axis, spec_axis_zero, SpecAxis, TextureAxis};
use vstd::string::StringSliceAdditionalSpecFns;

verus! {

/// One face of a solid brush.
#[derive(Debug, PartialEq, Eq)]
pub struct Side {
    pub id: u32,
    pub plane: (Point3D, Point3D, Point3D),
    pub material: Vec<u8>,
    pub uaxis: TextureAxis,
    pub vaxis: TextureAxis,
    pub rotation: Vec<u8>,
    pub lightmapscale: u32,
    pub smoothing_groups: u32,
    pub dispinfo: Option<DispInfo>,
}

/// The mathematical image of a `Side`.
#[verifier::ext_equal]
pub struct SpecSide {
    pub id: u32,
    pub plane: (SpecPoint, SpecPoint, SpecPoint),
    pub material: Seq<u8>,
    pub uaxis: SpecAxis,
    pub vaxis: SpecAxis,
    pub rotation: Seq<u8>,
    pub lightmapscale: u32,
    pub smoothing_groups: u32,
    pub dispinfo: Option<SpecDispInfo>,
}

impl DeepView for Side {
    type V = SpecSide;

    open spec fn deep_view(&self) -> SpecSide {
        SpecSide {
            id: self.id,
            plane: self.plane.deep_view(),
            material: self.material@,
            uaxis: self.uaxis.deep_view(),
            vaxis: self.vaxis.deep_view(),
            rotation: self.rotation@,
            lightmapscale: self.lightmapscale,
            smoothing_groups: self.smoothing_groups,
            dispinfo: self.dispinfo.deep_view(),
        }
    }
}

/// The record an empty `side` block folds to.
pub open spec fn spec_side_default() -> SpecSide {
    SpecSide {
        id: 0,
        plane: (spec_point_zero(), spec_point_zero(), spec_point_zero()),
        material: Seq::empty(),
        uaxis: spec_axis_zero(),
        vaxis: spec_axis_zero(),
        rotation: seq![48u8],
        lightmapscale: 0,
        smoothing_groups: 0,
        dispinfo: None,
    }
}

impl Default for Side {
    fn default() -> (r: Side)
        ensures
            r.deep_view() == spec_side_default(),
    {
        let r = Side {
            id: 0,
            plane: (Point3D::default(), Point3D::default(), Point3D::default()),
            material: Vec::new(),
            uaxis: TextureAxis::default(),
            vaxis: TextureAxis::default(),
            rotation: crate::types::point::zero_text(),
            lightmapscale: 0,
            smoothing_groups: 0,
            dispinfo: None,
        };
        assert(r.deep_view() =~~= spec_side_default());
        r
    }
}

/// Applies one body entry: recognized keys assign their field; a `dispinfo`
/// sub-block that folds assigns; every other sub-block is skipped; an
/// unrecognized key fails.
pub open spec fn side_step(acc: SpecSide, e: SpecEntry) -> Option<SpecSide> {
    match e {
        SpecEntry::KV(k, v) => if k == "id".spec_bytes() {
            match parse_u32_text(v) {
                Some(x) => Some(SpecSide { id: x, ..acc }),
                None => None,
            }
        } else if k == "plane".spec_bytes() {
            match spec_plane(v) {
                Some(p) => Some(SpecSide { plane: p, ..acc }),
                None => None,
            }
        } else if k == "material".spec_bytes() {
            Some(SpecSide { material: v, ..acc })
        } else if k == "uaxis".spec_bytes() {
            match spec_axis(v) {
                Some(a) => Some(SpecSide { uaxis: a, ..acc }),
                None => None,
            }
        } else if k == "vaxis".spec_bytes() {
            match spec_axis(v) {
                Some(a) => Some(SpecSide { vaxis: a, ..acc }),
                None => None,
            }
        } else if k == "rotation".spec_bytes() {
            if is_number_body(trim(v)) {
                Some(SpecSide { rotation: trim(v), ..acc })
            } else {
                None
            }
        } else if k == "lightmapscale".spec_bytes() {
            match parse_u32_text(v) {
                Some(x) => Some(SpecSide { lightmapscale: x, ..acc }),
                None => None,
            }
        } else if k == "smoothing_groups".spec_bytes() {
            match parse_u32_text(v) {
                Some(x) => Some(SpecSide { smoothing_groups: x, ..acc }),
                None => None,
            }
        } else {
            None
        },
        SpecEntry::Sub(sub) => if sub.name == "dispinfo".spec_bytes() {
            match spec_dispinfo_block(sub) {
                Some(d) => Some(SpecSide { dispinfo: Some(d), ..acc }),
                None => Some(acc),
            }
        } else {
            Some(acc)
        },
    }
}

pub open spec fn side_fold(es: Seq<SpecEntry>, i: int, acc: SpecSide) -> Option<SpecSide>
    decreases es.len() - i,
{
    if !(0 <= i < es.len()) {
        Some(acc)
    } else {
        match side_step(acc, es[i]) {
            Some(a2) => side_fold(es, i + 1, a2),
            None => None,
        }
    }
}

/// Folds a `side` block: defaults, any key order, last occurrence wins.
pub open spec fn spec_side_block(b: SpecBlock) -> Option<SpecSide> {
    if b.name == "side".spec_bytes() {
        side_fold(b.entries, 0, spec_side_default())
    } else {
        None
    }
}

/// Applies one body entry, executably.
#[verifier::rlimit(100)]
fn side_apply(acc: Side, e: &Entry) -> (r: Option<Side>)
    ensures
        match r {
            Some(a2) => side_step(acc.deep_view(), e.deep_view()) == Some(a2.deep_view()),
            None => side_step(acc.deep_view(), e.deep_view()) is None,
        },
{
    match e {
        Entry::KV(k, v) => {
            if bytes_eq(k.as_slice(), "id".as_bytes()) {
                match crate::num::parse_u32_bytes(v.as_slice()) {
                    Some(x) => Some(Side { id: x, ..acc }),
                    None => None,
                }
            } else if bytes_eq(k.as_slice(), "plane".as_bytes()) {
                match crate::types::point::decode_plane(v.as_slice()) {
                    Some(p) => Some(Side { plane: p, ..acc }),
                    None => None,
                }
            } else if bytes_eq(k.as_slice(), "material".as_bytes()) {
                Some(Side { material: crate::bytes::copy_bytes(v), ..acc })
            } else if bytes_eq(k.as_slice(), "uaxis".as_bytes()) {
                match crate::types::textureaxis::decode_axis(v.as_slice()) {
                    Some(a) => Some(Side { uaxis: a, ..acc }),
                    None => None,
                }
            } else if bytes_eq(k.as_slice(), "vaxis".as_bytes()) {
                match crate::types::textureaxis::decode_axis(v.as_slice()) {
                    Some(a) => Some(Side { vaxis: a, ..acc }),
                    None => None,
                }
            } else if bytes_eq(k.as_slice(), "rotation".as_bytes()) {
                let tr = trim_bytes(v.as_slice());
                if crate::num::is_number_body_bytes(tr.as_slice()) {
                    Some(Side { rotation: tr, ..acc })
                } else {
                    None
                }
            } else if bytes_eq(k.as_slice(), "lightmapscale".as_bytes()) {
                match crate::num::parse_u32_bytes(v.as_slice()) {
                    Some(x) => Some(Side { lightmapscale: x, ..acc }),
                    None => None,
                }
            } else if bytes_eq(k.as_slice(), "smoothing_groups".as_bytes()) {
                match crate::num::parse_u32_bytes(v.as_slice()) {
                    Some(x) => Some(Side { smoothing_groups: x, ..acc }),
                    None => None,
                }
            } else {
                None
            }
        },
        Entry::Sub(sub) => {
            proof {
                lemma_entry_sub_deep_view(*e);
            }
            if bytes_eq(sub.name.as_slice(), "dispinfo".as_bytes()) {
                match dispinfo_from_block(sub) {
                    Ok(d) => Some(Side { dispinfo: Some(d), ..acc }),
                    Err(_) => Some(acc),
                }
            } else {
                Some(acc)
            }
        },
    }
}

pub fn side_from_block(b: &Block) -> (r: Result<Side, ParseError>)
    ensures
        match r {
            Ok(v) => spec_side_block(b.deep_view()) == Some(v.deep_view()),
            Err(_) => spec_side_block(b.deep_view()) is None,
        },
{
    let ghost bv = b.deep_view();
    assert(bv.entries.len() == b.entries@.len());
    if !bytes_eq(b.name.as_slice(), "side".as_bytes()) {
        return Err(ParseError { at: 0, kind: ParseErrorKind::WrongBlockName });
    }
    let mut acc = Side::default();
    let mut i: usize = 0;
    while i < b.entries.len()
        invariant
            0 <= i <= b.entries@.len(),
            bv == b.deep_view(),
            bv.entries.len() == b.entries@.len(),
            side_fold(bv.entries, 0, spec_side_default()) == side_fold(
                bv.entries,
                i as int,
                acc.deep_view(),
            ),
        decreases b.entries@.len() - i,
    {
        let e = &b.entries[i];
        assert(e.deep_view() == bv.entries[i as int]);
        match side_apply(acc, e) {
            Some(a2) => {
                acc = a2;
            },
            None => {
                return Err(ParseError { at: i, kind: ParseErrorKind::UnknownKey });
            },
        }
        i += 1;
    }
    Ok(acc)
}

/// The whole token sequence as one `side` block.
pub open spec fn spec_parse_side(toks: Seq<Tok>) -> Option<SpecSide> {
    match spec_block_exact(toks) {
        Some(b) => spec_side_block(b),
        None => None,
    }
}

impl Side {
    /// Parses a complete token sequence as a `side` block.
    pub fn parse(toks: &Vec<Token>) -> (r: Result<Side, ParseError>)
        ensures
            match r {
                Ok(v) => spec_parse_side(toks.deep_view()) == Some(v.deep_view()),
                Err(_) => spec_parse_side(toks.deep_view()) is None,
            },
    {
        match parse_block_exact(toks) {
            Ok(b) => side_from_block(&b),
            Err(e) => Err(e),
        }
    }
}

} // verus!
