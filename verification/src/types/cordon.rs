//! The `cordon` block: a bounding box given as two parenthesized points and
//! an active flag. Keys may come in any order and each is optional:
//!
//! ```text
//! cordon
//! {
//!     "mins" "(-1024 -1024 -1024)"
//!     "maxs" "(1024 1024 1024)"
//!     "active" "0"
//! }
//! ```
use vstd::prelude::*;
use crate::block::{parse_block_exact, spec_block_exact, Block, SpecBlock, SpecEntry, Entry};
use crate::error::{ParseError, ParseErrorKind};
use crate::bytes::bytes_eq;
use crate::num::{parse_bool_bytes, parse_bool_text};
use crate::types::point::{decode_paren_point, spec_paren_point};
use crate::lexer::{Tok, Token};
use crate::types::point::{spec_point_zero, Point3D, SpecPoint};
use vstd::string::StringSliceAdditionalSpecFns;

verus! {

/// A cordon: the minimum and maximum corners of its box, and whether it is
/// active.
#[derive(Debug, Clone, PartialEq, Eq)]
pub struct Cordon {
    pub mins: Point3D,
    pub maxs: Point3D,
    pub active: bool,
}

/// The mathematical image of a `Cordon`.
#[verifier::ext_equal]
pub struct SpecCordon {
    pub mins: SpecPoint,
    pub maxs: SpecPoint,
    pub active: bool,
}

impl DeepView for Cordon {
    type V = SpecCordon;

    open spec fn deep_view(&self) -> SpecCordon {
        SpecCordon { mins: self.mins.deep_view(), maxs: self.maxs.deep_view(), active: self.active }
    }
}

/// The record an empty `cordon` block folds to: both corners at the origin,
/// inactive.
pub open spec fn spec_cordon_default() -> SpecCordon {
    SpecCordon { mins: spec_point_zero(), maxs: spec_point_zero(), active: false }
}

impl Default for Cordon {
    fn default() -> (r: Cordon)
        ensures
            r.deep_view() == spec_cordon_default(),
    {
        let r = Cordon { mins: Point3D::default(), maxs: Point3D::default(), active: false };
        assert(r.deep_view() =~~= spec_cordon_default());
        r
    }
}

/// Applies one body entry to the record.
pub open spec fn cordon_step(acc: SpecCordon, e: SpecEntry) -> Option<SpecCordon> {
    match e {
        SpecEntry::KV(k, v) => if k == "mins".spec_bytes() {
            match spec_paren_point(v) {
                Some(p) => Some(SpecCordon { mins: p, ..acc }),
                None => None,
            }
        } else if k == "maxs".spec_bytes() {
            match spec_paren_point(v) {
                Some(p) => Some(SpecCordon { maxs: p, ..acc }),
                None => None,
            }
        } else if k == "active".spec_bytes() {
            match parse_bool_text(v) {
                Some(x) => Some(SpecCordon { active: x, ..acc }),
                None => None,
            }
        } else {
            None
        },
        SpecEntry::Sub(sub) => None,
    }
}

pub open spec fn cordon_fold(es: Seq<SpecEntry>, i: int, acc: SpecCordon) -> Option<SpecCordon>
    decreases es.len() - i,
{
    if !(0 <= i < es.len()) {
        Some(acc)
    } else {
        match cordon_step(acc, es[i]) {
            Some(a2) => cordon_fold(es, i + 1, a2),
            None => None,
        }
    }
}

/// Folds a `cordon` block: defaults, any key order, last occurrence wins.
pub open spec fn spec_cordon_block(b: SpecBlock) -> Option<SpecCordon> {
    if b.name == "cordon".spec_bytes() {
        cordon_fold(b.entries, 0, spec_cordon_default())
    } else {
        None
    }
}

pub fn cordon_from_block(b: &Block) -> (r: Result<Cordon, ParseError>)
    ensures
        match r {
            Ok(v) => spec_cordon_block(b.deep_view()) == Some(v.deep_view()),
            Err(_) => spec_cordon_block(b.deep_view()) is None,
        },
{
    let ghost bv = b.deep_view();
    assert(bv.entries.len() == b.entries@.len());
    if !crate::bytes::bytes_eq(b.name.as_slice(), "cordon".as_bytes()) {
        return Err(ParseError { at: 0, kind: ParseErrorKind::WrongBlockName });
    }
    let mut acc = Cordon::default();
    let mut i: usize = 0;
    while i < b.entries.len()
        invariant
            0 <= i <= b.entries@.len(),
            bv == b.deep_view(),
            bv.entries.len() == b.entries@.len(),
            cordon_fold(bv.entries, 0, spec_cordon_default()) == cordon_fold(
                bv.entries,
                i as int,
                acc.deep_view(),
            ),
        decreases b.entries@.len() - i,
    {
        let e = &b.entries[i];
        assert(e.deep_view() == bv.entries[i as int]);
        let ghost pre = acc.deep_view();
        match e {
            Entry::KV(k, v) => {
                if bytes_eq(k.as_slice(), "mins".as_bytes()) {
                    match decode_paren_point(v.as_slice()) {
                        Some(p) => {
                            acc.mins = p;
                            assert(cordon_step(pre, e.deep_view()) == Some(acc.deep_view()));
                        },
                        None => {
                            return Err(ParseError { at: i, kind: ParseErrorKind::BadValue });
                        },
                    }
                } else if bytes_eq(k.as_slice(), "maxs".as_bytes()) {
                    match decode_paren_point(v.as_slice()) {
                        Some(p) => {
                            acc.maxs = p;
                            assert(cordon_step(pre, e.deep_view()) == Some(acc.deep_view()));
                        },
                        None => {
                            return Err(ParseError { at: i, kind: ParseErrorKind::BadValue });
                        },
                    }
                } else if bytes_eq(k.as_slice(), "active".as_bytes()) {
                    match parse_bool_bytes(v.as_slice()) {
                        Some(x) => {
                            acc.active = x;
                            assert(cordon_step(pre, e.deep_view()) == Some(acc.deep_view()));
                        },
                        None => {
                            return Err(ParseError { at: i, kind: ParseErrorKind::BadValue });
                        },
                    }
                } else {
                    return Err(ParseError { at: i, kind: ParseErrorKind::UnknownKey });
                }
            },
            Entry::Sub(_) => {
                return Err(ParseError { at: i, kind: ParseErrorKind::UnknownBlock });
            },
        }
        i += 1;
    }
    Ok(acc)
}

/// The whole token sequence as one `cordon` block.
pub open spec fn spec_parse_cordon(toks: Seq<Tok>) -> Option<SpecCordon> {
    match spec_block_exact(toks) {
        Some(b) => spec_cordon_block(b),
        None => None,
    }
}

impl Cordon {
    /// Parses a complete token sequence as a `cordon` block.
    pub fn parse(toks: &Vec<Token>) -> (r: Result<Cordon, ParseError>)
        ensures
            match r {
                Ok(v) => spec_parse_cordon(toks.deep_view()) == Some(v.deep_view()),
                Err(_) => spec_parse_cordon(toks.deep_view()) is None,
            },
    {
        match parse_block_exact(toks) {
            Ok(b) => cordon_from_block(&b),
            Err(e) => Err(e),
        }
    }
}

} // verus!
