//! The `solid` block: a brush with its numeric id, its faces in order, and
//! optional editor metadata. Entries may come in any order; the last `id`
//! and `editor` win; anything else fails the block.
use vstd::prelude::*;
use crate::block::{lemma_entry_sub_deep_view, parse_block_exact, spec_block_exact, Block, SpecBlock, SpecEntry, Entry};
use crate::bytes::bytes_eq;
use crate::error::{ParseError, ParseErrorKind};
use crate::lexer::{Tok, Token};
use crate::num::{parse_u32_bytes, parse_u32_text};
use crate::types::editor::{editor_from_block, spec_editor_block, EditorData, SpecEditorData};
use crate::types::side::{side_from_block, spec_side_block, Side, SpecSide};
use vstd::string::StringSliceAdditionalSpecFns;

verus! {

/// A solid brush.
#[derive(Debug, PartialEq, Eq)]
pub struct Solid {
    pub id: u32,
    pub sides: Vec<Side>,
    pub editor: Option<EditorData>,
}

/// The mathematical image of a `Solid`.
#[verifier::ext_equal]
pub struct SpecSolid {
    pub id: u32,
    pub sides: Seq<SpecSide>,
    pub editor: Option<SpecEditorData>,
}

impl DeepView for Solid {
    type V = SpecSolid;

    open spec fn deep_view(&self) -> SpecSolid {
        SpecSolid { id: self.id, sides: self.sides.deep_view(), editor: self.editor.deep_view() }
    }
}

/// The record an empty `solid` block folds to.
pub open spec fn spec_solid_default() -> SpecSolid {
    SpecSolid { id: 0, sides: Seq::empty(), editor: None }
}

impl Default for Solid {
    fn default() -> (r: Solid)
        ensures
            r.deep_view() == spec_solid_default(),
    {
        let r = Solid { id: 0, sides: Vec::new(), editor: None };
        assert(r.deep_view() =~~= spec_solid_default());
        r
    }
}

/// Applies one body entry: the `id` key assigns, a `side` sub-block appends
/// a face, an `editor` sub-block assigns; anything else fails.
pub open spec fn solid_step(acc: SpecSolid, e: SpecEntry) -> Option<SpecSolid> {
    match e {
        SpecEntry::KV(k, v) => if k == "id".spec_bytes() {
            match parse_u32_text(v) {
                Some(x) => Some(SpecSolid { id: x, ..acc }),
                None => None,
            }
        } else {
            None
        },
        SpecEntry::Sub(sub) => if sub.name == "side".spec_bytes() {
            match spec_side_block(sub) {
                Some(s) => Some(SpecSolid { sides: acc.sides.push(s), ..acc }),
                None => None,
            }
        } else if sub.name == "editor".spec_bytes() {
            match spec_editor_block(sub) {
                Some(ed) => Some(SpecSolid { editor: Some(ed), ..acc }),
                None => None,
            }
        } else {
            None
        },
    }
}

pub open spec fn solid_fold(es: Seq<SpecEntry>, i: int, acc: SpecSolid) -> Option<SpecSolid>
    decreases es.len() - i,
{
    if !(0 <= i < es.len()) {
        Some(acc)
    } else {
        match solid_step(acc, es[i]) {
            Some(a2) => solid_fold(es, i + 1, a2),
            None => None,
        }
    }
}

/// Folds a `solid` block: defaults, any entry order, faces kept in order.
pub open spec fn spec_solid_block(b: SpecBlock) -> Option<SpecSolid> {
    if b.name == "solid".spec_bytes() {
        solid_fold(b.entries, 0, spec_solid_default())
    } else {
        None
    }
}

pub fn solid_from_block(b: &Block) -> (r: Result<Solid, ParseError>)
    ensures
        match r {
            Ok(v) => spec_solid_block(b.deep_view()) == Some(v.deep_view()),
            Err(_) => spec_solid_block(b.deep_view()) is None,
        },
{
    let ghost bv = b.deep_view();
    assert(bv.entries.len() == b.entries@.len());
    if !bytes_eq(b.name.as_slice(), "solid".as_bytes()) {
        return Err(ParseError { at: 0, kind: ParseErrorKind::WrongBlockName });
    }
    let mut acc = Solid::default();
    let mut i: usize = 0;
    while i < b.entries.len()
        invariant
            0 <= i <= b.entries@.len(),
            bv == b.deep_view(),
            bv.entries.len() == b.entries@.len(),
            solid_fold(bv.entries, 0, spec_solid_default()) == solid_fold(
                bv.entries,
                i as int,
                acc.deep_view(),
            ),
        decreases b.entries@.len() - i,
    {
        let e = &b.entries[i];
        assert(e.deep_view() == bv.entries[i as int]);
        let ghost pre = acc.deep_view();
        match e {
            Entry::KV(k, v) => {
                if bytes_eq(k.as_slice(), "id".as_bytes()) {
                    match parse_u32_bytes(v.as_slice()) {
                        Some(x) => {
                            acc.id = x;
                            assert(solid_step(pre, e.deep_view()) == Some(acc.deep_view()));
                        },
                        None => {
                            return Err(ParseError { at: i, kind: ParseErrorKind::BadValue });
                        },
                    }
                } else {
                    return Err(ParseError { at: i, kind: ParseErrorKind::UnknownKey });
                }
            },
            Entry::Sub(sub) => {
                proof {
                    lemma_entry_sub_deep_view(*e);
                }
                if bytes_eq(sub.name.as_slice(), "side".as_bytes()) {
                    match side_from_block(sub) {
                        Ok(s) => {
                            let ghost sv = s.deep_view();
                            acc.sides.push(s);
                            proof {
                                assert(acc.deep_view().sides =~~= pre.sides.push(sv));
                                assert(acc.deep_view() =~~= (SpecSolid {
                                    sides: pre.sides.push(sv),
                                    ..pre
                                }));
                                assert(solid_step(pre, e.deep_view()) == Some(acc.deep_view()));
                            }
                        },
                        Err(e2) => {
                            return Err(e2);
                        },
                    }
                } else if bytes_eq(sub.name.as_slice(), "editor".as_bytes()) {
                    match editor_from_block(sub) {
                        Ok(ed) => {
                            acc.editor = Some(ed);
                            assert(solid_step(pre, e.deep_view()) == Some(acc.deep_view()));
                        },
                        Err(e2) => {
                            return Err(e2);
                        },
                    }
                } else {
                    return Err(ParseError { at: i, kind: ParseErrorKind::UnknownBlock });
                }
            },
        }
        i += 1;
    }
    Ok(acc)
}

/// The whole token sequence as one `solid` block.
pub open spec fn spec_parse_solid(toks: Seq<Tok>) -> Option<SpecSolid> {
    match spec_block_exact(toks) {
        Some(b) => spec_solid_block(b),
        None => None,
    }
}

impl Solid {
    /// Parses a complete token sequence as a `solid` block.
    pub fn parse(toks: &Vec<Token>) -> (r: Result<Solid, ParseError>)
        ensures
            match r {
                Ok(v) => spec_parse_solid(toks.deep_view()) == Some(v.deep_view()),
                Err(_) => spec_parse_solid(toks.deep_view()) is None,
            },
    {
        match parse_block_exact(toks) {
            Ok(b) => solid_from_block(&b),
            Err(e) => Err(e),
        }
    }
}

} // verus!
