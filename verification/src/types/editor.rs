//! The `editor` metadata block attached to geometry and entities. All keys
//! are optional, may come in any order, and the last occurrence of a key
//! wins:
//!
//! ```text
//! editor
//! {
//!     "color" "0 111 152"
//!     "visgroupshown" "1"
//!     "visgroupautoshown" "1"
//!     "logicalpos" "[0 10000]"
//!     "comments" "free text"
//! }
//! ```
use vstd::prelude::*;
use crate::block::{parse_block_exact, spec_block_exact, Block, SpecBlock, SpecEntry, Entry};
use crate::error::{ParseError, ParseErrorKind};
use crate::bytes::{bytes_eq, copy_bytes};
use crate::num::{parse_bool_bytes, parse_bool_text};
use crate::types::color::{decode_color, spec_color};
use crate::lexer::{Tok, Token};
use crate::types::color::Color;
use vstd::string::StringSliceAdditionalSpecFns;

verus! {

/// Editor metadata: a color, two visibility flags, and optional comment and
/// logical-position texts.
#[derive(Debug, Clone, PartialEq, Eq)]
pub struct EditorData {
    pub color: Color,
    pub visgroupshown: bool,
    pub visgroupautoshown: bool,
    pub comments: Option<Vec<u8>>,
    pub logicalpos: Option<Vec<u8>>,
}

/// The mathematical image of an `EditorData`.
#[verifier::ext_equal]
pub struct SpecEditorData {
    pub color: Color,
    pub visgroupshown: bool,
    pub visgroupautoshown: bool,
    pub comments: Option<Seq<u8>>,
    pub logicalpos: Option<Seq<u8>>,
}

impl DeepView for EditorData {
    type V = SpecEditorData;

    open spec fn deep_view(&self) -> SpecEditorData {
        SpecEditorData {
            color: self.color,
            visgroupshown: self.visgroupshown,
            visgroupautoshown: self.visgroupautoshown,
            comments: self.comments.deep_view(),
            logicalpos: self.logicalpos.deep_view(),
        }
    }
}

/// The record an empty `editor` block folds to.
pub open spec fn spec_editor_default() -> SpecEditorData {
    SpecEditorData {
        color: Color { r: 0, g: 0, b: 0 },
        visgroupshown: false,
        visgroupautoshown: false,
        comments: None,
        logicalpos: None,
    }
}

impl Default for EditorData {
    /// Black color, both visibility flags off, no comment, no position.
    fn default() -> (r: EditorData)
        ensures
            r.deep_view() == spec_editor_default(),
    {
        let r = EditorData {
            color: Color { r: 0, g: 0, b: 0 },
            visgroupshown: false,
            visgroupautoshown: false,
            comments: None,
            logicalpos: None,
        };
        assert(r.deep_view() =~~= spec_editor_default());
        r
    }
}

/// Applies one body entry to the record: the recognized keys assign their
/// field; anything else fails the block.
pub open spec fn editor_step(acc: SpecEditorData, e: SpecEntry) -> Option<SpecEditorData> {
    match e {
        SpecEntry::KV(k, v) => if k == "color".spec_bytes() {
            match spec_color(v) {
                Some(c) => Some(SpecEditorData { color: c, ..acc }),
                None => None,
            }
        } else if k == "visgroupshown".spec_bytes() {
            match parse_bool_text(v) {
                Some(x) => Some(SpecEditorData { visgroupshown: x, ..acc }),
                None => None,
            }
        } else if k == "visgroupautoshown".spec_bytes() {
            match parse_bool_text(v) {
                Some(x) => Some(SpecEditorData { visgroupautoshown: x, ..acc }),
                None => None,
            }
        } else if k == "comments".spec_bytes() {
            Some(SpecEditorData { comments: Some(v), ..acc })
        } else if k == "logicalpos".spec_bytes() {
            Some(SpecEditorData { logicalpos: Some(v), ..acc })
        } else {
            None
        },
        SpecEntry::Sub(sub) => None,
    }
}

/// Folds the body entries from position `i` onward over `acc`.
pub open spec fn editor_fold(es: Seq<SpecEntry>, i: int, acc: SpecEditorData) -> Option<
    SpecEditorData,
>
    decreases es.len() - i,
{
    if !(0 <= i < es.len()) {
        Some(acc)
    } else {
        match editor_step(acc, es[i]) {
            Some(a2) => editor_fold(es, i + 1, a2),
            None => None,
        }
    }
}

/// Folds an `editor` block: defaults, any key order, last occurrence wins.
pub open spec fn spec_editor_block(b: SpecBlock) -> Option<SpecEditorData> {
    if b.name == "editor".spec_bytes() {
        editor_fold(b.entries, 0, spec_editor_default())
    } else {
        None
    }
}

/// Folds a generic block into editor metadata.
pub fn editor_from_block(b: &Block) -> (r: Result<EditorData, ParseError>)
    ensures
        match r {
            Ok(v) => spec_editor_block(b.deep_view()) == Some(v.deep_view()),
            Err(_) => spec_editor_block(b.deep_view()) is None,
        },
{
    let ghost bv = b.deep_view();
    assert(bv.entries.len() == b.entries@.len());
    if !crate::bytes::bytes_eq(b.name.as_slice(), "editor".as_bytes()) {
        return Err(ParseError { at: 0, kind: ParseErrorKind::WrongBlockName });
    }
    let mut acc = EditorData::default();
    let mut i: usize = 0;
    while i < b.entries.len()
        invariant
            0 <= i <= b.entries@.len(),
            bv == b.deep_view(),
            bv.entries.len() == b.entries@.len(),
            editor_fold(bv.entries, 0, spec_editor_default()) == editor_fold(
                bv.entries,
                i as int,
                acc.deep_view(),
            ),
        decreases b.entries@.len() - i,
    {
        let e = &b.entries[i];
        assert(e.deep_view() == bv.entries[i as int]);
        let ghost pre = acc.deep_view();
        match e {
            Entry::KV(k, v) => {
                if bytes_eq(k.as_slice(), "color".as_bytes()) {
                    match decode_color(v.as_slice()) {
                        Some(c) => {
                            acc.color = c;
                            assert(editor_step(pre, e.deep_view()) == Some(acc.deep_view()));
                        },
                        None => {
                            return Err(ParseError { at: i, kind: ParseErrorKind::BadValue });
                        },
                    }
                } else if bytes_eq(k.as_slice(), "visgroupshown".as_bytes()) {
                    match parse_bool_bytes(v.as_slice()) {
                        Some(x) => {
                            acc.visgroupshown = x;
                            assert(editor_step(pre, e.deep_view()) == Some(acc.deep_view()));
                        },
                        None => {
                            return Err(ParseError { at: i, kind: ParseErrorKind::BadValue });
                        },
                    }
                } else if bytes_eq(k.as_slice(), "visgroupautoshown".as_bytes()) {
                    match parse_bool_bytes(v.as_slice()) {
                        Some(x) => {
                            acc.visgroupautoshown = x;
                            assert(editor_step(pre, e.deep_view()) == Some(acc.deep_view()));
                        },
                        None => {
                            return Err(ParseError { at: i, kind: ParseErrorKind::BadValue });
                        },
                    }
                } else if bytes_eq(k.as_slice(), "comments".as_bytes()) {
                    acc.comments = Some(copy_bytes(v));
                    assert(editor_step(pre, e.deep_view()) == Some(acc.deep_view()));
                } else if bytes_eq(k.as_slice(), "logicalpos".as_bytes()) {
                    acc.logicalpos = Some(copy_bytes(v));
                    assert(editor_step(pre, e.deep_view()) == Some(acc.deep_view()));
                } else {
                    return Err(ParseError { at: i, kind: ParseErrorKind::UnknownKey });
                }
            },
            Entry::Sub(_) => {
                return Err(ParseError { at: i, kind: ParseErrorKind::UnknownBlock });
            },
        }
        i += 1;
    }
    Ok(acc)
}

/// The whole token sequence as one `editor` block.
pub open spec fn spec_parse_editor(toks: Seq<Tok>) -> Option<SpecEditorData> {
    match spec_block_exact(toks) {
        Some(b) => spec_editor_block(b),
        None => None,
    }
}

impl EditorData {
    /// Parses a complete token sequence as an `editor` block.
    pub fn parse(toks: &Vec<Token>) -> (r: Result<EditorData, ParseError>)
        ensures
            match r {
                Ok(v) => spec_parse_editor(toks.deep_view()) == Some(v.deep_view()),
                Err(_) => spec_parse_editor(toks.deep_view()) is None,
            },
    {
        match parse_block_exact(toks) {
            Ok(b) => editor_from_block(&b),
            Err(e) => Err(e),
        }
    }
}

} // verus!
