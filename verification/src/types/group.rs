//! The `group` block: a numeric id, optional editor metadata, and nested
//! child groups of the same shape, to any depth. Entries may come in any
//! order; children are collected in declaration order.
use vstd::prelude::*;
use crate::block::{parse_block_exact, spec_block_exact, Block, SpecBlock, SpecEntry, Entry};
use crate::bytes::bytes_eq;
use crate::error::{ParseError, ParseErrorKind};
use crate::lexer::{Tok, Token};
use crate::num::{parse_u32_bytes, parse_u32_text};
use crate::types::editor::{editor_from_block, spec_editor_block, EditorData, SpecEditorData};
use vstd::string::StringSliceAdditionalSpecFns;

verus! {

/// A group of map objects; groups nest.
#[derive(Debug, PartialEq, Eq)]
pub struct Group {
    pub id: u32,
    pub editor: Option<EditorData>,
    pub groups: Vec<Group>,
}

/// The mathematical image of a `Group`.
#[verifier::ext_equal]
pub struct SpecGroup {
    pub id: u32,
    pub editor: Option<SpecEditorData>,
    pub groups: Seq<SpecGroup>,
}

/// The image of a `Group`, by recursion over its children.
pub open spec fn group_view(g: Group) -> SpecGroup
    decreases g,
{
    SpecGroup {
        id: g.id,
        editor: g.editor.deep_view(),
        groups: Seq::new(
            g.groups@.len(),
            |i: int|
                if 0 <= i < g.groups@.len() {
                    group_view(g.groups@[i])
                } else {
                    SpecGroup { id: 0, editor: None, groups: Seq::empty() }
                },
        ),
    }
}

impl DeepView for Group {
    type V = SpecGroup;

    open spec fn deep_view(&self) -> SpecGroup {
        group_view(*self)
    }
}

/// The record an empty `group` block folds to.
pub open spec fn spec_group_default() -> SpecGroup {
    SpecGroup { id: 0, editor: None, groups: Seq::empty() }
}

impl Default for Group {
    fn default() -> (r: Group)
        ensures
            r.deep_view() == spec_group_default(),
    {
        let r = Group { id: 0, editor: None, groups: Vec::new() };
        assert(r.deep_view().groups =~~= Seq::<SpecGroup>::empty());
        assert(r.deep_view() =~~= spec_group_default());
        r
    }
}

/// Applies one body entry: the `id` key assigns, an `editor` sub-block
/// assigns, a `group` sub-block appends a child; anything else fails.
pub open spec fn group_step(acc: SpecGroup, e: SpecEntry) -> Option<SpecGroup>
    decreases e, 1int,
{
    match e {
        SpecEntry::KV(k, v) => if k == "id".spec_bytes() {
            match parse_u32_text(v) {
                Some(x) => Some(SpecGroup { id: x, ..acc }),
                None => None,
            }
        } else {
            None
        },
        SpecEntry::Sub(sub) => if sub.name == "editor".spec_bytes() {
            match spec_editor_block(sub) {
                Some(ed) => Some(SpecGroup { editor: Some(ed), ..acc }),
                None => None,
            }
        } else if sub.name == "group".spec_bytes() {
            match spec_group_block(sub) {
                Some(g) => Some(SpecGroup { groups: acc.groups.push(g), ..acc }),
                None => None,
            }
        } else {
            None
        },
    }
}

pub open spec fn group_fold(es: Seq<SpecEntry>, i: int, acc: SpecGroup) -> Option<SpecGroup>
    decreases es, es.len() - i,
{
    if !(0 <= i < es.len()) {
        Some(acc)
    } else {
        match group_step(acc, es[i]) {
            Some(a2) => group_fold(es, i + 1, a2),
            None => None,
        }
    }
}

/// Folds a `group` block: defaults, any entry order, last `id` and `editor`
/// win, children kept in order.
pub open spec fn spec_group_block(b: SpecBlock) -> Option<SpecGroup>
    decreases b, 2int,
{
    if b.name == "group".spec_bytes() {
        group_fold(b.entries, 0, spec_group_default())
    } else {
        None
    }
}

pub fn group_from_block(b: &Block) -> (r: Result<Group, ParseError>)
    ensures
        match r {
            Ok(v) => spec_group_block(b.deep_view()) == Some(v.deep_view()),
            Err(_) => spec_group_block(b.deep_view()) is None,
        },
    decreases *b,
{
    let ghost bv = b.deep_view();
    assert(bv.entries.len() == b.entries@.len());
    if !bytes_eq(b.name.as_slice(), "group".as_bytes()) {
        return Err(ParseError { at: 0, kind: ParseErrorKind::WrongBlockName });
    }
    let mut acc = Group::default();
    let mut i: usize = 0;
    while i < b.entries.len()
        invariant
            0 <= i <= b.entries@.len(),
            bv == b.deep_view(),
            bv.entries.len() == b.entries@.len(),
            group_fold(bv.entries, 0, spec_group_default()) == group_fold(
                bv.entries,
                i as int,
                acc.deep_view(),
            ),
        decreases b.entries@.len() - i,
    {
        let e = &b.entries[i];
        assert(e.deep_view() == bv.entries[i as int]);
        let ghost pre = acc.deep_view();
        match e {
            Entry::KV(k, v) => {
                if bytes_eq(k.as_slice(), "id".as_bytes()) {
                    match parse_u32_bytes(v.as_slice()) {
                        Some(x) => {
                            acc.id = x;
                            assert(group_step(pre, e.deep_view()) == Some(acc.deep_view()));
                        },
                        None => {
                            return Err(ParseError { at: i, kind: ParseErrorKind::BadValue });
                        },
                    }
                } else {
                    return Err(ParseError { at: i, kind: ParseErrorKind::UnknownKey });
                }
            },
            Entry::Sub(sub) => {
                proof {
                    crate::block::lemma_entry_sub_deep_view(*e);
                }
                if bytes_eq(sub.name.as_slice(), "editor".as_bytes()) {
                    match editor_from_block(sub) {
                        Ok(ed) => {
                            acc.editor = Some(ed);
                            assert(group_step(pre, e.deep_view()) == Some(acc.deep_view()));
                        },
                        Err(e2) => {
                            return Err(e2);
                        },
                    }
                } else if bytes_eq(sub.name.as_slice(), "group".as_bytes()) {
                    proof {
                        assert(decreases_to!(*b => b.entries));
                        assert(decreases_to!(b.entries => b.entries@[i as int]));
                        assert(decreases_to!(b.entries@[i as int] => *sub));
                    }
                    match group_from_block(sub) {
                        Ok(g) => {
                            let ghost gv = g.deep_view();
                            let ghost oldsq = acc.groups@;
                            proof {
                                assert(pre.groups.len() == oldsq.len());
                                assert forall|ix: int| 0 <= ix < oldsq.len() implies
                                    pre.groups[ix] == oldsq[ix].deep_view() by {}
                            }
                            acc.groups.push(g);
                            proof {
                                let post = acc.deep_view();
                                assert(acc.groups@ == oldsq.push(g));
                                assert forall|ix: int| 0 <= ix < post.groups.len() implies
                                    post.groups[ix] == pre.groups.push(gv)[ix] by {
                                    assert(post.groups[ix] == acc.groups@[ix].deep_view());
                                    if ix < oldsq.len() {
                                        assert(acc.groups@[ix] == oldsq[ix]);
                                        assert(pre.groups[ix] == oldsq[ix].deep_view());
                                    } else {
                                        assert(acc.groups@[ix] == g);
                                    }
                                }
                                assert(post.groups =~~= pre.groups.push(gv));
                                assert(acc.deep_view() =~~= (SpecGroup {
                                    groups: pre.groups.push(gv),
                                    ..pre
                                }));
                                assert(group_step(pre, e.deep_view()) == Some(acc.deep_view()));
                            }
                        },
                        Err(e2) => {
                            return Err(e2);
                        },
                    }
                } else {
                    return Err(ParseError { at: i, kind: ParseErrorKind::UnknownBlock });
                }
            },
        }
        i += 1;
    }
    Ok(acc)
}

/// The whole token sequence as one `group` block.
pub open spec fn spec_parse_group(toks: Seq<Tok>) -> Option<SpecGroup> {
    match spec_block_exact(toks) {
        Some(b) => spec_group_block(b),
        None => None,
    }
}

impl Group {
    /// Parses a complete token sequence as a `group` block.
    pub fn parse(toks: &Vec<Token>) -> (r: Result<Group, ParseError>)
        ensures
            match r {
                Ok(v) => spec_parse_group(toks.deep_view()) == Some(v.deep_view()),
                Err(_) => spec_parse_group(toks.deep_view()) is None,
            },
    {
        match parse_block_exact(toks) {
            Ok(b) => group_from_block(&b),
            Err(e) => Err(e),
        }
    }
}

} // verus!
