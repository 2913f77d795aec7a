//! The `entity` block. Recognized keys assign typed fields; any other key —
//! including a recognized key whose value does not decode — lands in the
//! open-ended custom-property map, where insertion order is irrelevant and
//! the last value under a key wins. A `connections` sub-block replaces the
//! output list, `solid` sub-blocks accumulate in order, and an `editor`
//! sub-block assigns; any other sub-block fails the block.
use vstd::prelude::*;
use crate::block::{lemma_entry_sub_deep_view, parse_block_exact, spec_block_exact, Block, SpecBlock, SpecEntry, Entry};
use crate::bytes::{bytes_eq, copy_bytes};
use crate::error::{ParseError, ParseErrorKind};
use crate::lexer::{Tok, Token};
use crate::num::{parse_bool_bytes, parse_bool_text, parse_u32_bytes, parse_u32_text};
use crate::types::color::{decode_color, spec_color, Color};
use crate::types::editor::{editor_from_block, spec_editor_block, EditorData, SpecEditorData};
use crate::types::output::{spec_output, EntityOutput, SpecEntityOutput};
use crate::types::point::{decode_vec3, spec_vec3, Point3D, SpecPoint};
use crate::types::solid::{solid_from_block, spec_solid_block, Solid, SpecSolid};
use vstd::string::StringSliceAdditionalSpecFns;

verus! {

/// The custom-property map of a pair list: later pairs override earlier
/// ones under the same key.
pub open spec fn props_map(ps: Seq<(Vec<u8>, Vec<u8>)>) -> Map<Seq<u8>, Seq<u8>>
    decreases ps.len(),
{
    if ps.len() == 0 {
        Map::empty()
    } else {
        props_map(ps.drop_last()).insert(ps.last().0@, ps.last().1@)
    }
}

/// The value of the last pair under `k`, if any.
pub open spec fn props_lookup(ps: Seq<(Vec<u8>, Vec<u8>)>, k: Seq<u8>) -> Option<Seq<u8>>
    decreases ps.len(),
{
    if ps.len() == 0 {
        None
    } else if ps.last().0@ == k {
        Some(ps.last().1@)
    } else {
        props_lookup(ps.drop_last(), k)
    }
}

/// Looking a key up in the map reads the last pair under it.
pub proof fn lemma_props_map_lookup(ps: Seq<(Vec<u8>, Vec<u8>)>, k: Seq<u8>)
    ensures
        props_map(ps).contains_key(k) <==> props_lookup(ps, k) is Some,
        props_lookup(ps, k) is Some ==> props_map(ps)[k] == props_lookup(ps, k)->Some_0,
    decreases ps.len(),
{
    if ps.len() > 0 && ps.last().0@ != k {
        lemma_props_map_lookup(ps.drop_last(), k);
    }
}

/// Finds the value of the last pair whose key equals `key`.
pub fn props_get(ps: &Vec<(Vec<u8>, Vec<u8>)>, key: &[u8]) -> (r: Option<Vec<u8>>)
    ensures
        match r {
            Some(v) => props_lookup(ps@, key@) == Some(v@),
            None => props_lookup(ps@, key@) is None,
        },
{
    let mut i: usize = ps.len();
    assert(ps@.take(i as int) =~= ps@);
    while i > 0
        invariant
            0 <= i <= ps@.len(),
            props_lookup(ps@, key@) == props_lookup(ps@.take(i as int), key@),
        decreases i,
    {
        assert(ps@.take(i as int).last() == ps@[i - 1]);
        assert(ps@.take(i as int).drop_last() =~= ps@.take(i - 1));
        if bytes_eq(ps[i - 1].0.as_slice(), key) {
            return Some(copy_bytes(&ps[i - 1].1));
        }
        i -= 1;
    }
    assert(ps@.take(0) =~= Seq::<(Vec<u8>, Vec<u8>)>::empty());
    None
}

/// A map entity: its typed attributes, custom properties, outputs, embedded
/// brushes and editor metadata.
#[derive(Debug, PartialEq, Eq)]
pub struct Entity {
    pub id: u32,
    pub classname: Vec<u8>,
    pub origin: Option<Point3D>,
    pub angles: Option<Point3D>,
    pub targetname: Option<Vec<u8>>,
    pub parentname: Option<Vec<u8>>,
    pub target: Option<Vec<u8>>,
    pub model: Option<Vec<u8>>,
    pub skin: Option<u32>,
    pub spawnflags: Option<u32>,
    pub rendermode: Option<u32>,
    pub renderamt: Option<u32>,
    pub rendercolor: Option<Color>,
    pub disableshadows: Option<bool>,
    pub disablereceiveshadows: Option<bool>,
    pub startdisabled: Option<bool>,
    pub outputs: Vec<EntityOutput>,
    pub properties: Vec<(Vec<u8>, Vec<u8>)>,
    pub solids: Vec<Solid>,
    pub editor: Option<EditorData>,
}

/// The mathematical image of an `Entity`. The custom properties abstract to
/// a map, so their insertion order is irrelevant.
#[verifier::ext_equal]
pub struct SpecEntity {
    pub id: u32,
    pub classname: Seq<u8>,
    pub origin: Option<SpecPoint>,
    pub angles: Option<SpecPoint>,
    pub targetname: Option<Seq<u8>>,
    pub parentname: Option<Seq<u8>>,
    pub target: Option<Seq<u8>>,
    pub model: Option<Seq<u8>>,
    pub skin: Option<u32>,
    pub spawnflags: Option<u32>,
    pub rendermode: Option<u32>,
    pub renderamt: Option<u32>,
    pub rendercolor: Option<Color>,
    pub disableshadows: Option<bool>,
    pub disablereceiveshadows: Option<bool>,
    pub startdisabled: Option<bool>,
    pub outputs: Seq<SpecEntityOutput>,
    pub properties: Map<Seq<u8>, Seq<u8>>,
    pub solids: Seq<SpecSolid>,
    pub editor: Option<SpecEditorData>,
}

impl DeepView for Entity {
    type V = SpecEntity;

    open spec fn deep_view(&self) -> SpecEntity {
        SpecEntity {
            id: self.id,
            classname: self.classname@,
            origin: self.origin.deep_view(),
            angles: self.angles.deep_view(),
            targetname: self.targetname.deep_view(),
            parentname: self.parentname.deep_view(),
            target: self.target.deep_view(),
            model: self.model.deep_view(),
            skin: self.skin,
            spawnflags: self.spawnflags,
            rendermode: self.rendermode,
            renderamt: self.renderamt,
            rendercolor: self.rendercolor,
            disableshadows: self.disableshadows,
            disablereceiveshadows: self.disablereceiveshadows,
            startdisabled: self.startdisabled,
            outputs: self.outputs.deep_view(),
            properties: props_map(self.properties@),
            solids: self.solids.deep_view(),
            editor: self.editor.deep_view(),
        }
    }
}

/// The record an empty `entity` block folds to.
pub open spec fn spec_entity_default() -> SpecEntity {
    SpecEntity {
        id: 0,
        classname: Seq::empty(),
        origin: None,
        angles: None,
        targetname: None,
        parentname: None,
        target: None,
        model: None,
        skin: None,
        spawnflags: None,
        rendermode: None,
        renderamt: None,
        rendercolor: None,
        disableshadows: None,
        disablereceiveshadows: None,
        startdisabled: None,
        outputs: Seq::empty(),
        properties: Map::empty(),
        solids: Seq::empty(),
        editor: None,
    }
}

impl Default for Entity {
    fn default() -> (r: Entity)
        ensures
            r.deep_view() == spec_entity_default(),
    {
        let r = Entity {
            id: 0,
            classname: Vec::new(),
            origin: None,
            angles: None,
            targetname: None,
            parentname: None,
            target: None,
            model: None,
            skin: None,
            spawnflags: None,
            rendermode: None,
            renderamt: None,
            rendercolor: None,
            disableshadows: None,
            disablereceiveshadows: None,
            startdisabled: None,
            outputs: Vec::new(),
            properties: Vec::new(),
            solids: Vec::new(),
            editor: None,
        };
        assert(r.deep_view() =~~= spec_entity_default());
        r
    }
}

impl Entity {
    /// The custom-property value stored under `key`, if any.
    pub fn get_property(&self, key: &[u8]) -> (r: Option<Vec<u8>>)
        ensures
            match r {
                Some(v) => self.deep_view().properties.contains_key(key@)
                    && self.deep_view().properties[key@] == v@,
                None => !self.deep_view().properties.contains_key(key@),
            },
    {
        proof {
            lemma_props_map_lookup(self.properties@, key@);
        }
        props_get(&self.properties, key)
    }
}

/// Parses a `connections` body: every entry is a quoted pair decoding as an
/// output record.
pub open spec fn spec_outputs(es: Seq<SpecEntry>, i: int) -> Option<Seq<SpecEntityOutput>>
    decreases es.len() - i,
{
    if !(0 <= i < es.len()) {
        Some(Seq::empty())
    } else {
        match es[i] {
            SpecEntry::KV(k, v) => match spec_output(k, v) {
                Some(o) => match spec_outputs(es, i + 1) {
                    Some(rest) => Some(seq![o] + rest),
                    None => None,
                },
                None => None,
            },
            SpecEntry::Sub(_) => None,
        }
    }
}

/// Folds the `connections` sub-block into the output list.
pub fn outputs_from_block(b: &Block) -> (r: Result<Vec<EntityOutput>, ParseError>)
    ensures
        match r {
            Ok(out) => spec_outputs(b.deep_view().entries, 0) == Some(out.deep_view()),
            Err(_) => spec_outputs(b.deep_view().entries, 0) is None,
        },
{
    let ghost es = b.deep_view().entries;
    assert(es.len() == b.entries@.len());
    let mut out: Vec<EntityOutput> = Vec::new();
    let mut i: usize = 0;
    proof {
        assert(forall|rest: Seq<SpecEntityOutput>| out.deep_view() + rest =~~= rest);
    }
    while i < b.entries.len()
        invariant
            0 <= i <= b.entries@.len(),
            es == b.deep_view().entries,
            es.len() == b.entries@.len(),
            spec_outputs(es, 0) == match spec_outputs(es, i as int) {
                None => None::<Seq<SpecEntityOutput>>,
                Some(rest) => Some(out.deep_view() + rest),
            },
        decreases b.entries@.len() - i,
    {
        let e = &b.entries[i];
        assert(e.deep_view() == es[i as int]);
        match e {
            Entry::KV(k, v) => {
                match EntityOutput::parse_output_string(k.as_slice(), v.as_slice()) {
                    Ok(o) => {
                        let ghost ov = o.deep_view();
                        let ghost pre = out.deep_view();
                        out.push(o);
                        proof {
                            assert(out.deep_view() =~~= pre + seq![ov]);
                            assert forall|rest: Seq<SpecEntityOutput>| #[trigger]
                                (pre + (seq![ov] + rest)) =~~= out.deep_view() + rest by {}
                        }
                    },
                    Err(e2) => {
                        return Err(e2);
                    },
                }
            },
            Entry::Sub(_) => {
                return Err(ParseError { at: i, kind: ParseErrorKind::UnknownBlock });
            },
        }
        i += 1;
    }
    proof {
        assert(spec_outputs(es, i as int) == Some(Seq::<SpecEntityOutput>::empty()));
        assert(out.deep_view() + Seq::<SpecEntityOutput>::empty() =~~= out.deep_view());
    }
    Ok(out)
}

/// Applies one quoted pair: a recognized key whose value decodes assigns
/// its field; everything else is stored as a custom property. This step
/// always succeeds.
pub open spec fn entity_kv_step(acc: SpecEntity, k: Seq<u8>, v: Seq<u8>) -> SpecEntity {
    let custom = SpecEntity { properties: acc.properties.insert(k, v), ..acc };
    if k == "id".spec_bytes() {
        match parse_u32_text(v) {
            Some(x) => SpecEntity { id: x, ..acc },
            None => custom,
        }
    } else if k == "classname".spec_bytes() {
        SpecEntity { classname: v, ..acc }
    } else if k == "origin".spec_bytes() {
        match spec_vec3(v) {
            Some(p) => SpecEntity { origin: Some(p), ..acc },
            None => custom,
        }
    } else if k == "angles".spec_bytes() {
        match spec_vec3(v) {
            Some(p) => SpecEntity { angles: Some(p), ..acc },
            None => custom,
        }
    } else if k == "targetname".spec_bytes() {
        SpecEntity { targetname: Some(v), ..acc }
    } else if k == "parentname".spec_bytes() {
        SpecEntity { parentname: Some(v), ..acc }
    } else if k == "target".spec_bytes() {
        SpecEntity { target: Some(v), ..acc }
    } else if k == "model".spec_bytes() {
        SpecEntity { model: Some(v), ..acc }
    } else if k == "skin".spec_bytes() {
        match parse_u32_text(v) {
            Some(x) => SpecEntity { skin: Some(x), ..acc },
            None => custom,
        }
    } else if k == "spawnflags".spec_bytes() {
        match parse_u32_text(v) {
            Some(x) => SpecEntity { spawnflags: Some(x), ..acc },
            None => custom,
        }
    } else if k == "rendermode".spec_bytes() {
        match parse_u32_text(v) {
            Some(x) => SpecEntity { rendermode: Some(x), ..acc },
            None => custom,
        }
    } else if k == "renderamt".spec_bytes() {
        match parse_u32_text(v) {
            Some(x) => SpecEntity { renderamt: Some(x), ..acc },
            None => custom,
        }
    } else if k == "rendercolor".spec_bytes() {
        match spec_color(v) {
            Some(c) => SpecEntity { rendercolor: Some(c), ..acc },
            None => custom,
        }
    } else if k == "disableshadows".spec_bytes() {
        match parse_bool_text(v) {
            Some(x) => SpecEntity { disableshadows: Some(x), ..acc },
            None => custom,
        }
    } else if k == "disablereceiveshadows".spec_bytes() {
        match parse_bool_text(v) {
            Some(x) => SpecEntity { disablereceiveshadows: Some(x), ..acc },
            None => custom,
        }
    } else if k == "startdisabled".spec_bytes() {
        match parse_bool_text(v) {
            Some(x) => SpecEntity { startdisabled: Some(x), ..acc },
            None => custom,
        }
    } else {
        custom
    }
}

/// Applies one body entry.
pub open spec fn entity_step(acc: SpecEntity, e: SpecEntry) -> Option<SpecEntity> {
    match e {
        SpecEntry::KV(k, v) => Some(entity_kv_step(acc, k, v)),
        SpecEntry::Sub(sub) => if sub.name == "editor".spec_bytes() {
            match spec_editor_block(sub) {
                Some(ed) => Some(SpecEntity { editor: Some(ed), ..acc }),
                None => None,
            }
        } else if sub.name == "connections".spec_bytes() {
            match spec_outputs(sub.entries, 0) {
                Some(os) => Some(SpecEntity { outputs: os, ..acc }),
                None => None,
            }
        } else if sub.name == "solid".spec_bytes() {
            match spec_solid_block(sub) {
                Some(s) => Some(SpecEntity { solids: acc.solids.push(s), ..acc }),
                None => None,
            }
        } else {
            None
        },
    }
}

pub open spec fn entity_fold(es: Seq<SpecEntry>, i: int, acc: SpecEntity) -> Option<SpecEntity>
    decreases es.len() - i,
{
    if !(0 <= i < es.len()) {
        Some(acc)
    } else {
        match entity_step(acc, es[i]) {
            Some(a2) => entity_fold(es, i + 1, a2),
            None => None,
        }
    }
}

/// Folds an `entity` block: defaults, any key order, last occurrence wins,
/// unknown keys tolerated in the custom map.
pub open spec fn spec_entity_block(b: SpecBlock) -> Option<SpecEntity> {
    if b.name == "entity".spec_bytes() {
        entity_fold(b.entries, 0, spec_entity_default())
    } else {
        None
    }
}

/// Stores a custom property: the pair is appended, so in the map view the
/// new value overrides any earlier one under the same key.
fn entity_push_prop(acc: Entity, k: &Vec<u8>, v: &Vec<u8>) -> (r: Entity)
    ensures
        r.deep_view() == (SpecEntity {
            properties: acc.deep_view().properties.insert(k@, v@),
            ..acc.deep_view()
        }),
{
    let ghost pre = acc.deep_view();
    let mut acc = acc;
    let ghost oldp = acc.properties@;
    acc.properties.push((copy_bytes(k), copy_bytes(v)));
    proof {
        assert(acc.properties@.drop_last() =~= oldp);
        assert(props_map(acc.properties@) == props_map(oldp).insert(k@, v@));
        assert(acc.deep_view() =~~= (SpecEntity {
            properties: pre.properties.insert(k@, v@),
            ..pre
        }));
    }
    acc
}

/// Applies one quoted pair, executably.
#[verifier::rlimit(100)]
#[verifier::spinoff_prover]
fn entity_apply_kv(acc: Entity, k: &Vec<u8>, v: &Vec<u8>) -> (r: Entity)
    ensures
        r.deep_view() == entity_kv_step(acc.deep_view(), k@, v@),
{
    if bytes_eq(k.as_slice(), "id".as_bytes()) {
        match parse_u32_bytes(v.as_slice()) {
            Some(x) => Entity { id: x, ..acc },
            None => entity_push_prop(acc, k, v),
        }
    } else     if bytes_eq(k.as_slice(), "classname".as_bytes()) {
        Entity { classname: copy_bytes(v), ..acc }
    } else     if bytes_eq(k.as_slice(), "origin".as_bytes()) {
        match decode_vec3(v.as_slice()) {
            Some(x) => Entity { origin: Some(x), ..acc },
            None => entity_push_prop(acc, k, v),
        }
    } else     if bytes_eq(k.as_slice(), "angles".as_bytes()) {
        match decode_vec3(v.as_slice()) {
            Some(x) => Entity { angles: Some(x), ..acc },
            None => entity_push_prop(acc, k, v),
        }
    } else     if bytes_eq(k.as_slice(), "targetname".as_bytes()) {
        Entity { targetname: Some(copy_bytes(v)), ..acc }
    } else     if bytes_eq(k.as_slice(), "parentname".as_bytes()) {
        Entity { parentname: Some(copy_bytes(v)), ..acc }
    } else     if bytes_eq(k.as_slice(), "target".as_bytes()) {
        Entity { target: Some(copy_bytes(v)), ..acc }
    } else     if bytes_eq(k.as_slice(), "model".as_bytes()) {
        Entity { model: Some(copy_bytes(v)), ..acc }
    } else     if bytes_eq(k.as_slice(), "skin".as_bytes()) {
        match parse_u32_bytes(v.as_slice()) {
            Some(x) => Entity { skin: Some(x), ..acc },
            None => entity_push_prop(acc, k, v),
        }
    } else     if bytes_eq(k.as_slice(), "spawnflags".as_bytes()) {
        match parse_u32_bytes(v.as_slice()) {
            Some(x) => Entity { spawnflags: Some(x), ..acc },
            None => entity_push_prop(acc, k, v),
        }
    } else     if bytes_eq(k.as_slice(), "rendermode".as_bytes()) {
        match parse_u32_bytes(v.as_slice()) {
            Some(x) => Entity { rendermode: Some(x), ..acc },
            None => entity_push_prop(acc, k, v),
        }
    } else     if bytes_eq(k.as_slice(), "renderamt".as_bytes()) {
        match parse_u32_bytes(v.as_slice()) {
            Some(x) => Entity { renderamt: Some(x), ..acc },
            None => entity_push_prop(acc, k, v),
        }
    } else     if bytes_eq(k.as_slice(), "rendercolor".as_bytes()) {
        match decode_color(v.as_slice()) {
            Some(x) => Entity { rendercolor: Some(x), ..acc },
            None => entity_push_prop(acc, k, v),
        }
    } else     if bytes_eq(k.as_slice(), "disableshadows".as_bytes()) {
        match parse_bool_bytes(v.as_slice()) {
            Some(x) => Entity { disableshadows: Some(x), ..acc },
            None => entity_push_prop(acc, k, v),
        }
    } else     if bytes_eq(k.as_slice(), "disablereceiveshadows".as_bytes()) {
        match parse_bool_bytes(v.as_slice()) {
            Some(x) => Entity { disablereceiveshadows: Some(x), ..acc },
            None => entity_push_prop(acc, k, v),
        }
    } else     if bytes_eq(k.as_slice(), "startdisabled".as_bytes()) {
        match parse_bool_bytes(v.as_slice()) {
            Some(x) => Entity { startdisabled: Some(x), ..acc },
            None => entity_push_prop(acc, k, v),
        }
    } else {
        entity_push_prop(acc, k, v)
    }
}

pub fn entity_from_block(b: &Block) -> (r: Result<Entity, ParseError>)
    ensures
        match r {
            Ok(v) => spec_entity_block(b.deep_view()) == Some(v.deep_view()),
            Err(_) => spec_entity_block(b.deep_view()) is None,
        },
{
    let ghost bv = b.deep_view();
    assert(bv.entries.len() == b.entries@.len());
    if !bytes_eq(b.name.as_slice(), "entity".as_bytes()) {
        return Err(ParseError { at: 0, kind: ParseErrorKind::WrongBlockName });
    }
    let mut acc = Entity::default();
    let mut i: usize = 0;
    while i < b.entries.len()
        invariant
            0 <= i <= b.entries@.len(),
            bv == b.deep_view(),
            bv.entries.len() == b.entries@.len(),
            entity_fold(bv.entries, 0, spec_entity_default()) == entity_fold(
                bv.entries,
                i as int,
                acc.deep_view(),
            ),
        decreases b.entries@.len() - i,
    {
        let e = &b.entries[i];
        assert(e.deep_view() == bv.entries[i as int]);
        let ghost pre = acc.deep_view();
        match e {
            Entry::KV(k, v) => {
                acc = entity_apply_kv(acc, k, v);
                assert(entity_step(pre, e.deep_view()) == Some(acc.deep_view()));
            },
            Entry::Sub(sub) => {
                proof {
                    lemma_entry_sub_deep_view(*e);
                }
                if bytes_eq(sub.name.as_slice(), "editor".as_bytes()) {
                    match editor_from_block(sub) {
                        Ok(ed) => {
                            acc.editor = Some(ed);
                            assert(entity_step(pre, e.deep_view()) == Some(acc.deep_view()));
                        },
                        Err(e2) => {
                            return Err(e2);
                        },
                    }
                } else if bytes_eq(sub.name.as_slice(), "connections".as_bytes()) {
                    match outputs_from_block(sub) {
                        Ok(os) => {
                            acc.outputs = os;
                            assert(entity_step(pre, e.deep_view()) == Some(acc.deep_view()));
                        },
                        Err(e2) => {
                            return Err(e2);
                        },
                    }
                } else if bytes_eq(sub.name.as_slice(), "solid".as_bytes()) {
                    match solid_from_block(sub) {
                        Ok(s) => {
                            let ghost sv = s.deep_view();
                            acc.solids.push(s);
                            proof {
                                assert(acc.deep_view().solids =~~= pre.solids.push(sv));
                                assert(acc.deep_view() =~~= (SpecEntity {
                                    solids: pre.solids.push(sv),
                                    ..pre
                                }));
                                assert(entity_step(pre, e.deep_view()) == Some(acc.deep_view()));
                            }
                        },
                        Err(e2) => {
                            return Err(e2);
                        },
                    }
                } else {
                    return Err(ParseError { at: i, kind: ParseErrorKind::UnknownBlock });
                }
            },
        }
        i += 1;
    }
    Ok(acc)
}

/// The whole token sequence as one `entity` block.
pub open spec fn spec_parse_entity(toks: Seq<Tok>) -> Option<SpecEntity> {
    match spec_block_exact(toks) {
        Some(b) => spec_entity_block(b),
        None => None,
    }
}

impl Entity {
    /// Parses a complete token sequence as an `entity` block.
    pub fn parse(toks: &Vec<Token>) -> (r: Result<Entity, ParseError>)
        ensures
            match r {
                Ok(v) => spec_parse_entity(toks.deep_view()) == Some(v.deep_view()),
                Err(_) => spec_parse_entity(toks.deep_view()) is None,
            },
    {
        match parse_block_exact(toks) {
            Ok(b) => entity_from_block(&b),
            Err(e) => Err(e),
        }
    }
}

} // verus!
