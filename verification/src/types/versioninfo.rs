//! The document header block. Unlike the other blocks its five keys are
//! required and must come in their fixed order:
//!
//! ```text
//! versioninfo
//! {
//!     "editorversion" "400"
//!     "editorbuild" "6157"
//!     "mapversion" "16"
//!     "formatversion" "100"
//!     "prefab" "0"
//! }
//! ```
use vstd::prelude::*;
use crate::block::{parse_block_exact, spec_block_exact, Block, SpecBlock};
use crate::error::{ParseError, ParseErrorKind};
use crate::kv::{entry_u16, entry_u32, kv_u16, kv_u32};
use crate::lexer::{Tok, Token};
use vstd::string::StringSliceAdditionalSpecFns;

verus! {

/// The header record of a document.
#[derive(Debug, Clone, Copy, PartialEq, Eq)]
pub struct VersionInfo {
    pub editor_version: u32,
    pub editor_build: u32,
    pub map_version: u16,
    pub format_version: u16,
    pub prefab: u32,
}

impl DeepView for VersionInfo {
    type V = VersionInfo;

    open spec fn deep_view(&self) -> VersionInfo {
        *self
    }
}

impl VersionInfo {
    /// Builds a header record from its five fields.
    pub fn new(version: u32, build: u32, map_version: u16, format_version: u16, prefab: u32) -> (r:
        VersionInfo)
        ensures
            r == (VersionInfo {
                editor_version: version,
                editor_build: build,
                map_version,
                format_version,
                prefab,
            }),
    {
        VersionInfo {
            editor_version: version,
            editor_build: build,
            map_version,
            format_version,
            prefab,
        }
    }
}

/// Folds a `versioninfo` block: exactly the five keys, in order, each with
/// an integer value of the field's width.
pub open spec fn spec_versioninfo_block(b: SpecBlock) -> Option<VersionInfo> {
    if b.name == "versioninfo".spec_bytes() && b.entries.len() == 5 {
        match (
            kv_u32(b.entries[0], "editorversion".spec_bytes()),
            kv_u32(b.entries[1], "editorbuild".spec_bytes()),
            kv_u16(b.entries[2], "mapversion".spec_bytes()),
            kv_u16(b.entries[3], "formatversion".spec_bytes()),
            kv_u32(b.entries[4], "prefab".spec_bytes()),
        ) {
            (Some(ev), Some(eb), Some(mv), Some(fv), Some(pf)) => Some(
                VersionInfo {
                    editor_version: ev,
                    editor_build: eb,
                    map_version: mv,
                    format_version: fv,
                    prefab: pf,
                },
            ),
            _ => None,
        }
    } else {
        None
    }
}

/// Folds a generic block into a header record.
pub fn versioninfo_from_block(b: &Block) -> (r: Result<VersionInfo, ParseError>)
    ensures
        match r {
            Ok(v) => spec_versioninfo_block(b.deep_view()) == Some(v),
            Err(_) => spec_versioninfo_block(b.deep_view()) is None,
        },
{
    let ghost bv = b.deep_view();
    assert(bv.entries.len() == b.entries@.len());
    if !crate::bytes::bytes_eq(b.name.as_slice(), "versioninfo".as_bytes()) {
        return Err(ParseError { at: 0, kind: ParseErrorKind::WrongBlockName });
    }
    if b.entries.len() != 5 {
        return Err(ParseError { at: 0, kind: ParseErrorKind::UnknownKey });
    }
    assert(bv.entries[0] == b.entries@[0].deep_view());
    assert(bv.entries[1] == b.entries@[1].deep_view());
    assert(bv.entries[2] == b.entries@[2].deep_view());
    assert(bv.entries[3] == b.entries@[3].deep_view());
    assert(bv.entries[4] == b.entries@[4].deep_view());
    let ev = entry_u32(&b.entries[0], "editorversion");
    let eb = entry_u32(&b.entries[1], "editorbuild");
    let mv = entry_u16(&b.entries[2], "mapversion");
    let fv = entry_u16(&b.entries[3], "formatversion");
    let pf = entry_u32(&b.entries[4], "prefab");
    match (ev, eb, mv, fv, pf) {
        (Some(ev), Some(eb), Some(mv), Some(fv), Some(pf)) => Ok(
            VersionInfo {
                editor_version: ev,
                editor_build: eb,
                map_version: mv,
                format_version: fv,
                prefab: pf,
            },
        ),
        _ => Err(ParseError { at: 0, kind: ParseErrorKind::BadValue }),
    }
}

/// The whole token sequence as one `versioninfo` block.
pub open spec fn spec_parse_versioninfo(toks: Seq<Tok>) -> Option<VersionInfo> {
    match spec_block_exact(toks) {
        Some(b) => spec_versioninfo_block(b),
        None => None,
    }
}

impl VersionInfo {
    /// Parses a complete token sequence as a `versioninfo` block.
    pub fn parse(toks: &Vec<Token>) -> (r: Result<VersionInfo, ParseError>)
        ensures
            match r {
                Ok(v) => spec_parse_versioninfo(toks.deep_view()) == Some(v),
                Err(_) => spec_parse_versioninfo(toks.deep_view()) is None,
            },
    {
        match parse_block_exact(toks) {
            Ok(b) => versioninfo_from_block(&b),
            Err(e) => Err(e),
        }
    }
}

} // verus!
