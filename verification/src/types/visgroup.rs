//! Visibility groups: a `visgroup` block carries its name, numeric id and
//! color in that fixed order, followed by any number of nested `visgroup`
//! children; the `visgroups` block is a plain list of them.
use vstd::prelude::*;
use crate::block::{lemma_entry_sub_deep_view, parse_block_exact, spec_block_exact, Block, SpecBlock, SpecEntry, Entry};
use crate::bytes::bytes_eq;
use crate::error::{ParseError, ParseErrorKind};
use crate::kv::{entry_color, entry_text, entry_u32, kv_color, kv_text, kv_u32};
use crate::lexer::{Tok, Token};
use crate::types::color::Color;
use vstd::string::StringSliceAdditionalSpecFns;

verus! {

/// A visibility group; groups nest to any depth.
#[derive(Debug, PartialEq, Eq)]
pub struct VisGroup {
    pub name: Vec<u8>,
    pub visgroupid: u32,
    pub color: Color,
    pub children: Vec<VisGroup>,
}

/// The mathematical image of a `VisGroup`.
#[verifier::ext_equal]
pub struct SpecVisGroup {
    pub name: Seq<u8>,
    pub visgroupid: u32,
    pub color: Color,
    pub children: Seq<SpecVisGroup>,
}

/// The image of a `VisGroup`, by recursion over its children.
pub open spec fn visgroup_view(g: VisGroup) -> SpecVisGroup
    decreases g,
{
    SpecVisGroup {
        name: g.name@,
        visgroupid: g.visgroupid,
        color: g.color,
        children: Seq::new(
            g.children@.len(),
            |i: int|
                if 0 <= i < g.children@.len() {
                    visgroup_view(g.children@[i])
                } else {
                    SpecVisGroup {
                        name: Seq::empty(),
                        visgroupid: 0,
                        color: Color { r: 0, g: 0, b: 0 },
                        children: Seq::empty(),
                    }
                },
        ),
    }
}

impl DeepView for VisGroup {
    type V = SpecVisGroup;

    open spec fn deep_view(&self) -> SpecVisGroup {
        visgroup_view(*self)
    }
}

impl VisGroup {
    /// Builds a visibility group from its parts.
    pub fn new(name: Vec<u8>, visgroupid: u32, color: Color, children: Vec<VisGroup>) -> (r:
        VisGroup)
        ensures
            r.deep_view() == (SpecVisGroup {
                name: name@,
                visgroupid,
                color,
                children: children.deep_view(),
            }),
    {
        let r = VisGroup { name, visgroupid, color, children };
        assert(r.deep_view().children =~~= r.children.deep_view());
        assert(r.deep_view() =~~= (SpecVisGroup {
            name: r.name@,
            visgroupid: r.visgroupid,
            color: r.color,
            children: r.children.deep_view(),
        }));
        r
    }
}

/// The collection of top-level visibility groups.
#[derive(Debug, PartialEq, Eq)]
pub struct VisGroups(pub Vec<VisGroup>);

impl DeepView for VisGroups {
    type V = Seq<SpecVisGroup>;

    open spec fn deep_view(&self) -> Seq<SpecVisGroup> {
        self.0.deep_view()
    }
}

impl VisGroups {
    /// Builds the collection from a list of groups.
    pub fn new(visgroups: Vec<VisGroup>) -> (r: VisGroups)
        ensures
            r.deep_view() == visgroups.deep_view(),
    {
        VisGroups(visgroups)
    }
}

/// Parses a run of `visgroup` children from entry `i` to the end of the
/// body; anything that is not a well-formed `visgroup` block fails.
pub open spec fn visgroup_children(es: Seq<SpecEntry>, i: int) -> Option<Seq<SpecVisGroup>>
    decreases es, es.len() - i,
{
    if !(0 <= i < es.len()) {
        Some(Seq::empty())
    } else {
        match es[i] {
            SpecEntry::KV(k, v) => None,
            SpecEntry::Sub(sub) => match spec_visgroup_block(sub) {
                Some(g) => match visgroup_children(es, i + 1) {
                    Some(rest) => Some(seq![g] + rest),
                    None => None,
                },
                None => None,
            },
        }
    }
}

/// Folds a `visgroup` block: the name, id and color keys in order, then the
/// children.
pub open spec fn spec_visgroup_block(b: SpecBlock) -> Option<SpecVisGroup>
    decreases b, 1int,
{
    if b.name == "visgroup".spec_bytes() && b.entries.len() >= 3 {
        match (
            kv_text(b.entries[0], "name".spec_bytes()),
            kv_u32(b.entries[1], "visgroupid".spec_bytes()),
            kv_color(b.entries[2], "color".spec_bytes()),
        ) {
            (Some(n), Some(id), Some(c)) => match visgroup_children(b.entries, 3) {
                Some(ch) => Some(
                    SpecVisGroup { name: n, visgroupid: id, color: c, children: ch },
                ),
                None => None,
            },
            _ => None,
        }
    } else {
        None
    }
}

/// Parses the children of a visgroup body starting at entry `i`.
fn visgroup_children_from(b: &Block, i: usize) -> (r: Result<Vec<VisGroup>, ParseError>)
    requires
        i <= b.entries@.len(),
    ensures
        match r {
            Ok(ch) => visgroup_children(b.deep_view().entries, i as int) == Some(ch.deep_view()),
            Err(_) => visgroup_children(b.deep_view().entries, i as int) is None,
        },
    decreases *b, 0int,
{
    let ghost es = b.deep_view().entries;
    assert(es.len() == b.entries@.len());
    let mut ch: Vec<VisGroup> = Vec::new();
    let mut j: usize = i;
    proof {
        assert(forall|rest: Seq<SpecVisGroup>| ch.deep_view() + rest =~~= rest);
    }
    while j < b.entries.len()
        invariant
            i <= j <= b.entries@.len(),
            es == b.deep_view().entries,
            es.len() == b.entries@.len(),
            visgroup_children(es, i as int) == match visgroup_children(es, j as int) {
                None => None::<Seq<SpecVisGroup>>,
                Some(rest) => Some(ch.deep_view() + rest),
            },
        decreases b.entries@.len() - j,
    {
        let e = &b.entries[j];
        assert(e.deep_view() == es[j as int]);
        match e {
            Entry::KV(_, _) => {
                return Err(ParseError { at: j, kind: ParseErrorKind::UnknownKey });
            },
            Entry::Sub(sub) => {
                proof {
                    lemma_entry_sub_deep_view(*e);
                    assert(decreases_to!(*b => b.entries));
                    assert(decreases_to!(b.entries => b.entries@[j as int]));
                    assert(decreases_to!(b.entries@[j as int] => *sub));
                }
                match visgroup_from_block(sub) {
                    Ok(g) => {
                        let ghost gv = g.deep_view();
                        let ghost pre = ch.deep_view();
                        ch.push(g);
                        proof {
                            assert(ch.deep_view() =~~= pre + seq![gv]);
                            assert forall|rest: Seq<SpecVisGroup>| #[trigger]
                                (pre + (seq![gv] + rest)) =~~= ch.deep_view() + rest by {}
                        }
                        j += 1;
                    },
                    Err(e2) => {
                        return Err(e2);
                    },
                }
            },
        }
    }
    proof {
        assert(visgroup_children(es, j as int) == Some(Seq::<SpecVisGroup>::empty()));
        assert(ch.deep_view() + Seq::<SpecVisGroup>::empty() =~~= ch.deep_view());
    }
    Ok(ch)
}

/// Folds a generic block into a visibility group.
pub fn visgroup_from_block(b: &Block) -> (r: Result<VisGroup, ParseError>)
    ensures
        match r {
            Ok(v) => spec_visgroup_block(b.deep_view()) == Some(v.deep_view()),
            Err(_) => spec_visgroup_block(b.deep_view()) is None,
        },
    decreases *b, 1int,
{
    let ghost bv = b.deep_view();
    assert(bv.entries.len() == b.entries@.len());
    if !bytes_eq(b.name.as_slice(), "visgroup".as_bytes()) {
        return Err(ParseError { at: 0, kind: ParseErrorKind::WrongBlockName });
    }
    if b.entries.len() < 3 {
        return Err(ParseError { at: 0, kind: ParseErrorKind::UnknownKey });
    }
    assert(bv.entries[0] == b.entries@[0].deep_view());
    assert(bv.entries[1] == b.entries@[1].deep_view());
    assert(bv.entries[2] == b.entries@[2].deep_view());
    let name = match entry_text(&b.entries[0], "name") {
        Some(n) => n,
        None => {
            return Err(ParseError { at: 0, kind: ParseErrorKind::UnknownKey });
        },
    };
    let id = match entry_u32(&b.entries[1], "visgroupid") {
        Some(v) => v,
        None => {
            return Err(ParseError { at: 1, kind: ParseErrorKind::BadValue });
        },
    };
    let color = match entry_color(&b.entries[2], "color") {
        Some(c) => c,
        None => {
            return Err(ParseError { at: 2, kind: ParseErrorKind::BadValue });
        },
    };
    match visgroup_children_from(b, 3) {
        Ok(ch) => {
            let r = VisGroup { name, visgroupid: id, color, children: ch };
            proof {
                assert(r.deep_view().children =~~= r.children.deep_view());
                assert(spec_visgroup_block(bv) == Some(r.deep_view()));
            }
            Ok(r)
        },
        Err(e2) => Err(e2),
    }
}

/// Folds a `visgroups` block: a list of `visgroup` children and nothing
/// else.
pub open spec fn spec_visgroups_block(b: SpecBlock) -> Option<Seq<SpecVisGroup>> {
    if b.name == "visgroups".spec_bytes() {
        visgroup_children(b.entries, 0)
    } else {
        None
    }
}

pub fn visgroups_from_block(b: &Block) -> (r: Result<VisGroups, ParseError>)
    ensures
        match r {
            Ok(v) => spec_visgroups_block(b.deep_view()) == Some(v.deep_view()),
            Err(_) => spec_visgroups_block(b.deep_view()) is None,
        },
{
    if !bytes_eq(b.name.as_slice(), "visgroups".as_bytes()) {
        return Err(ParseError { at: 0, kind: ParseErrorKind::WrongBlockName });
    }
    match visgroup_children_from(b, 0) {
        Ok(ch) => Ok(VisGroups(ch)),
        Err(e2) => Err(e2),
    }
}

/// The whole token sequence as one `visgroup` block.
pub open spec fn spec_parse_visgroup(toks: Seq<Tok>) -> Option<SpecVisGroup> {
    match spec_block_exact(toks) {
        Some(b) => spec_visgroup_block(b),
        None => None,
    }
}

/// The whole token sequence as one `visgroups` block.
pub open spec fn spec_parse_visgroups(toks: Seq<Tok>) -> Option<Seq<SpecVisGroup>> {
    match spec_block_exact(toks) {
        Some(b) => spec_visgroups_block(b),
        None => None,
    }
}

impl VisGroup {
    /// Parses a complete token sequence as a `visgroup` block.
    pub fn parse(toks: &Vec<Token>) -> (r: Result<VisGroup, ParseError>)
        ensures
            match r {
                Ok(v) => spec_parse_visgroup(toks.deep_view()) == Some(v.deep_view()),
                Err(_) => spec_parse_visgroup(toks.deep_view()) is None,
            },
    {
        match parse_block_exact(toks) {
            Ok(b) => visgroup_from_block(&b),
            Err(e) => Err(e),
        }
    }
}

impl VisGroups {
    /// Parses a complete token sequence as a `visgroups` block.
    pub fn parse(toks: &Vec<Token>) -> (r: Result<VisGroups, ParseError>)
        ensures
            match r {
                Ok(v) => spec_parse_visgroups(toks.deep_view()) == Some(v.deep_view()),
                Err(_) => spec_parse_visgroups(toks.deep_view()) is None,
            },
    {
        match parse_block_exact(toks) {
            Ok(b) => visgroups_from_block(&b),
            Err(e) => Err(e),
        }
    }
}

} // verus!
