//! The top-level document parser: tokenize the buffer, then repeatedly try
//! each known block kind at the current position and fall back to the
//! balanced-brace skipper, producing the ordered list of tagged top-level
//! values. Skipped blocks contribute nothing; anything else is a document
//! error.
use vstd::prelude::*;
use crate::block::{lemma_block_at_advances, lemma_skip_at_advances, parse_block, skip_unknown_block, spec_block_at, spec_skip_at, SpecBlock};
use crate::error::ParseError;
use crate::lexer::{spec_tokenize, tokenize, Tok, Token};
use crate::types::camera::{cameras_from_block, spec_cameras_block, Cameras, SpecCameras};
use crate::types::cordon::{cordon_from_block, spec_cordon_block, Cordon, SpecCordon};
use crate::types::entity::{entity_from_block, spec_entity_block, Entity, SpecEntity};
use crate::types::versioninfo::{versioninfo_from_block, spec_versioninfo_block, VersionInfo};
use crate::types::viewsettings::{viewsettings_from_block, spec_viewsettings_block, ViewSettings};
use crate::types::visgroup::{visgroups_from_block, spec_visgroups_block, SpecVisGroup, VisGroups};
use crate::types::world::{world_from_block, spec_world_block, SpecWorld, World};

verus! {

/// One tagged top-level value of a document.
#[derive(Debug, PartialEq, Eq)]
pub enum VMFValue {
    VersionInfo(VersionInfo),
    VisGroups(Box<VisGroups>),
    ViewSettings(Box<ViewSettings>),
    World(Box<World>),
    Entity(Box<Entity>),
    Cameras(Box<Cameras>),
    Cordon(Box<Cordon>),
}

/// The mathematical image of a `VMFValue`.
#[verifier::ext_equal]
pub enum SpecVMFValue {
    VersionInfo(VersionInfo),
    VisGroups(Seq<SpecVisGroup>),
    ViewSettings(ViewSettings),
    World(SpecWorld),
    Entity(SpecEntity),
    Cameras(SpecCameras),
    Cordon(SpecCordon),
}

impl DeepView for VMFValue {
    type V = SpecVMFValue;

    open spec fn deep_view(&self) -> SpecVMFValue {
        match self {
            VMFValue::VersionInfo(v) => SpecVMFValue::VersionInfo(*v),
            VMFValue::VisGroups(v) => SpecVMFValue::VisGroups(v.deep_view()),
            VMFValue::ViewSettings(v) => SpecVMFValue::ViewSettings(**v),
            VMFValue::World(v) => SpecVMFValue::World(v.deep_view()),
            VMFValue::Entity(v) => SpecVMFValue::Entity(v.deep_view()),
            VMFValue::Cameras(v) => SpecVMFValue::Cameras(v.deep_view()),
            VMFValue::Cordon(v) => SpecVMFValue::Cordon(v.deep_view()),
        }
    }
}

/// Folds one parsed block into a top-level value, trying the known block
/// kinds in priority order; `None` when the block is of no recognized kind
/// or its content does not fold.
pub open spec fn spec_top_value(b: SpecBlock) -> Option<SpecVMFValue> {
    if spec_versioninfo_block(b) is Some {
        Some(SpecVMFValue::VersionInfo(spec_versioninfo_block(b)->Some_0))
    } else if spec_visgroups_block(b) is Some {
        Some(SpecVMFValue::VisGroups(spec_visgroups_block(b)->Some_0))
    } else if spec_viewsettings_block(b) is Some {
        Some(SpecVMFValue::ViewSettings(spec_viewsettings_block(b)->Some_0))
    } else if spec_world_block(b) is Some {
        Some(SpecVMFValue::World(spec_world_block(b)->Some_0))
    } else if spec_entity_block(b) is Some {
        Some(SpecVMFValue::Entity(spec_entity_block(b)->Some_0))
    } else if spec_cameras_block(b) is Some {
        Some(SpecVMFValue::Cameras(spec_cameras_block(b)->Some_0))
    } else if spec_cordon_block(b) is Some {
        Some(SpecVMFValue::Cordon(spec_cordon_block(b)->Some_0))
    } else {
        None
    }
}

/// Parses one top-level item at token `i`: a known block that folds yields
/// a value; otherwise the block is skipped, yielding nothing; if it cannot
/// even be skipped, the document fails.
pub open spec fn spec_top_item(toks: Seq<Tok>, i: int) -> Option<(Option<SpecVMFValue>, int)> {
    match spec_block_at(toks, i) {
        Some((b, j)) => match spec_top_value(b) {
            Some(v) => Some((Some(v), j)),
            None => match spec_skip_at(toks, i) {
                Some(j2) => Some((None, j2)),
                None => None,
            },
        },
        None => match spec_skip_at(toks, i) {
            Some(j2) => Some((None, j2)),
            None => None,
        },
    }
}

/// Parses the whole token sequence from `i` as a list of top-level items.
pub open spec fn spec_document_at(toks: Seq<Tok>, i: int) -> Option<Seq<SpecVMFValue>>
    decreases toks.len() - i,
{
    if !(0 <= i < toks.len()) {
        Some(Seq::empty())
    } else {
        match spec_top_item(toks, i) {
            None => None,
            Some((ov, j)) => if i < j <= toks.len() {
                match spec_document_at(toks, j) {
                    Some(rest) => match ov {
                        Some(v) => Some(seq![v] + rest),
                        None => Some(rest),
                    },
                    None => None,
                }
            } else {
                None
            },
        }
    }
}

/// The document denoted by a token sequence.
pub open spec fn spec_document(toks: Seq<Tok>) -> Option<Seq<SpecVMFValue>> {
    spec_document_at(toks, 0)
}

/// The document denoted by a byte buffer.
pub open spec fn spec_parse_vmf(input: Seq<u8>) -> Option<Seq<SpecVMFValue>> {
    match spec_tokenize(input) {
        Some(toks) => spec_document(toks),
        None => None,
    }
}

/// Parses a complete token sequence as a document.
#[verifier::rlimit(100)]
pub fn parse_document(toks: &Vec<Token>) -> (r: Result<Vec<VMFValue>, ParseError>)
    ensures
        match r {
            Ok(vs) => spec_document(toks.deep_view()) == Some(vs.deep_view()),
            Err(_) => spec_document(toks.deep_view()) is None,
        },
{
    let ghost tv = toks.deep_view();
    assert(tv.len() == toks@.len());
    let mut out: Vec<VMFValue> = Vec::new();
    let mut i: usize = 0;
    proof {
        assert(forall|rest: Seq<SpecVMFValue>| out.deep_view() + rest =~~= rest);
    }
    while i < toks.len()
        invariant
            0 <= i <= toks@.len(),
            tv == toks.deep_view(),
            tv.len() == toks@.len(),
            spec_document(tv) == match spec_document_at(tv, i as int) {
                None => None::<Seq<SpecVMFValue>>,
                Some(rest) => Some(out.deep_view() + rest),
            },
        decreases toks@.len() - i,
    {
        let parsed = match parse_block(toks, i) {
            Ok((b, j)) => {
                match top_value_from_block(&b) {
                    Some(v) => Some((v, j)),
                    None => None,
                }
            },
            Err(_) => None,
        };
        match parsed {
            Some((v, j)) => {
                let ghost vv = v.deep_view();
                let ghost pre = out.deep_view();
                out.push(v);
                proof {
                    lemma_block_at_advances(tv, i as int);
                    assert(out.deep_view() =~~= pre + seq![vv]);
                    assert forall|rest: Seq<SpecVMFValue>| #[trigger]
                        (pre + (seq![vv] + rest)) =~~= out.deep_view() + rest by {}
                }
                i = j;
            },
            None => {
                match skip_unknown_block(toks, i) {
                    Ok(j2) => {
                        proof {
                            lemma_skip_at_advances(tv, i as int);
                        }
                        i = j2;
                    },
                    Err(e) => {
                        return Err(e);
                    },
                }
            },
        }
    }
    proof {
        assert(spec_document_at(tv, i as int) == Some(Seq::<SpecVMFValue>::empty()));
        assert(out.deep_view() + Seq::<SpecVMFValue>::empty() =~~= out.deep_view());
    }
    Ok(out)
}

/// Folds one parsed block into a top-level value, executably.
fn top_value_from_block(b: &crate::block::Block) -> (r: Option<VMFValue>)
    ensures
        match r {
            Some(v) => spec_top_value(b.deep_view()) == Some(v.deep_view()),
            None => spec_top_value(b.deep_view()) is None,
        },
{
    if let Ok(v) = versioninfo_from_block(b) {
        Some(VMFValue::VersionInfo(v))
    } else if let Ok(v) = visgroups_from_block(b) {
        Some(VMFValue::VisGroups(Box::new(v)))
    } else if let Ok(v) = viewsettings_from_block(b) {
        Some(VMFValue::ViewSettings(Box::new(v)))
    } else if let Ok(v) = world_from_block(b) {
        Some(VMFValue::World(Box::new(v)))
    } else if let Ok(v) = entity_from_block(b) {
        Some(VMFValue::Entity(Box::new(v)))
    } else if let Ok(v) = cameras_from_block(b) {
        Some(VMFValue::Cameras(Box::new(v)))
    } else if let Ok(v) = cordon_from_block(b) {
        Some(VMFValue::Cordon(Box::new(v)))
    } else {
        None
    }
}

/// Parses a byte buffer as a whole document: tokenizes it and parses the
/// token sequence. Repeated calls on equal buffers yield equal results.
pub fn parse_vmf(input: &[u8]) -> (r: Result<Vec<VMFValue>, ParseError>)
    ensures
        match r {
            Ok(vs) => spec_parse_vmf(input@) == Some(vs.deep_view()),
            Err(_) => spec_parse_vmf(input@) is None,
        },
{
    match tokenize(input) {
        Ok(toks) => parse_document(&toks),
        Err(e) => Err(e),
    }
}

} // verus!
