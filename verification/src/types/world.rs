//! The `world` block: the worldspawn record. Recognized keys assign typed
//! fields; any other key — including a recognized key whose value does not
//! decode — lands in the open-ended custom-property map. `solid` sub-blocks
//! accumulate in order and an `editor` sub-block assigns; any other
//! sub-block fails the block.
use vstd::prelude::*;
use crate::block::{lemma_entry_sub_deep_view, parse_block_exact, spec_block_exact, Block, SpecBlock, SpecEntry, Entry};
use crate::bytes::{bytes_eq, copy_bytes, trim, trim_bytes};
use crate::error::{ParseError, ParseErrorKind};
use crate::lexer::{Tok, Token};
use crate::num::{is_number_body, is_number_body_bytes, parse_bool_bytes, parse_bool_text, parse_i32_bytes, parse_i32_text, parse_u32_bytes, parse_u32_text};
use crate::types::editor::{editor_from_block, spec_editor_block, EditorData, SpecEditorData};
use crate::types::entity::{props_lookup, props_map, props_get, lemma_props_map_lookup};
use crate::types::solid::{solid_from_block, spec_solid_block, Solid, SpecSolid};
use vstd::string::StringSliceAdditionalSpecFns;

verus! {

/// The worldspawn record of a document.
#[derive(Debug, PartialEq, Eq)]
pub struct World {
    pub id: u32,
    pub mapversion: u32,
    pub classname: Vec<u8>,
    pub detailmaterial: Option<Vec<u8>>,
    pub detailvbsp: Option<Vec<u8>>,
    pub maxpropscreenwidth: Option<i32>,
    pub skyname: Option<Vec<u8>>,
    pub sounds: Option<u32>,
    pub maxrange: Option<Vec<u8>>,
    pub maxoccludeearea: Option<Vec<u8>>,
    pub minoccluderarea: Option<Vec<u8>>,
    pub maxoccludeearea_csgo: Option<Vec<u8>>,
    pub minoccluderarea_csgo: Option<Vec<u8>>,
    pub difficulty_level: Option<u32>,
    pub hdr_level: Option<u32>,
    pub targetname: Option<Vec<u8>>,
    pub target: Option<Vec<u8>>,
    pub hidden: Option<bool>,
    pub group: Option<u32>,
    pub solids: Vec<Solid>,
    pub properties: Vec<(Vec<u8>, Vec<u8>)>,
    pub editor: Option<EditorData>,
}

/// The mathematical image of a `World`. The custom properties abstract to a
/// map, so their insertion order is irrelevant.
#[verifier::ext_equal]
pub struct SpecWorld {
    pub id: u32,
    pub mapversion: u32,
    pub classname: Seq<u8>,
    pub detailmaterial: Option<Seq<u8>>,
    pub detailvbsp: Option<Seq<u8>>,
    pub maxpropscreenwidth: Option<i32>,
    pub skyname: Option<Seq<u8>>,
    pub sounds: Option<u32>,
    pub maxrange: Option<Seq<u8>>,
    pub maxoccludeearea: Option<Seq<u8>>,
    pub minoccluderarea: Option<Seq<u8>>,
    pub maxoccludeearea_csgo: Option<Seq<u8>>,
    pub minoccluderarea_csgo: Option<Seq<u8>>,
    pub difficulty_level: Option<u32>,
    pub hdr_level: Option<u32>,
    pub targetname: Option<Seq<u8>>,
    pub target: Option<Seq<u8>>,
    pub hidden: Option<bool>,
    pub group: Option<u32>,
    pub solids: Seq<SpecSolid>,
    pub properties: Map<Seq<u8>, Seq<u8>>,
    pub editor: Option<SpecEditorData>,
}

impl DeepView for World {
    type V = SpecWorld;

    open spec fn deep_view(&self) -> SpecWorld {
        SpecWorld {
            id: self.id,
            mapversion: self.mapversion,
            classname: self.classname@,
            detailmaterial: self.detailmaterial.deep_view(),
            detailvbsp: self.detailvbsp.deep_view(),
            maxpropscreenwidth: self.maxpropscreenwidth,
            skyname: self.skyname.deep_view(),
            sounds: self.sounds,
            maxrange: self.maxrange.deep_view(),
            maxoccludeearea: self.maxoccludeearea.deep_view(),
            minoccluderarea: self.minoccluderarea.deep_view(),
            maxoccludeearea_csgo: self.maxoccludeearea_csgo.deep_view(),
            minoccluderarea_csgo: self.minoccluderarea_csgo.deep_view(),
            difficulty_level: self.difficulty_level,
            hdr_level: self.hdr_level,
            targetname: self.targetname.deep_view(),
            target: self.target.deep_view(),
            hidden: self.hidden,
            group: self.group,
            solids: self.solids.deep_view(),
            properties: props_map(self.properties@),
            editor: self.editor.deep_view(),
        }
    }
}

/// The record an empty `world` block folds to.
pub open spec fn spec_world_default() -> SpecWorld {
    SpecWorld {
        id: 0,
        mapversion: 0,
        classname: Seq::empty(),
        detailmaterial: None,
        detailvbsp: None,
        maxpropscreenwidth: None,
        skyname: None,
        sounds: None,
        maxrange: None,
        maxoccludeearea: None,
        minoccluderarea: None,
        maxoccludeearea_csgo: None,
        minoccluderarea_csgo: None,
        difficulty_level: None,
        hdr_level: None,
        targetname: None,
        target: None,
        hidden: None,
        group: None,
        solids: Seq::empty(),
        properties: Map::empty(),
        editor: None,
    }
}

impl Default for World {
    fn default() -> (r: World)
        ensures
            r.deep_view() == spec_world_default(),
    {
        let r = World {
            id: 0,
            mapversion: 0,
            classname: Vec::new(),
            detailmaterial: None,
            detailvbsp: None,
            maxpropscreenwidth: None,
            skyname: None,
            sounds: None,
            maxrange: None,
            maxoccludeearea: None,
            minoccluderarea: None,
            maxoccludeearea_csgo: None,
            minoccluderarea_csgo: None,
            difficulty_level: None,
            hdr_level: None,
            targetname: None,
            target: None,
            hidden: None,
            group: None,
            solids: Vec::new(),
            properties: Vec::new(),
            editor: None,
        };
        assert(r.deep_view() =~~= spec_world_default());
        r
    }
}

impl World {
    /// The custom-property value stored under `key`, if any.
    pub fn get_property(&self, key: &[u8]) -> (r: Option<Vec<u8>>)
        ensures
            match r {
                Some(v) => self.deep_view().properties.contains_key(key@)
                    && self.deep_view().properties[key@] == v@,
                None => !self.deep_view().properties.contains_key(key@),
            },
    {
        proof {
            lemma_props_map_lookup(self.properties@, key@);
        }
        props_get(&self.properties, key)
    }
}

/// Applies one quoted pair: a recognized key whose value decodes assigns
/// its field; everything else is stored as a custom property. This step
/// always succeeds.
pub open spec fn world_kv_step(acc: SpecWorld, k: Seq<u8>, v: Seq<u8>) -> SpecWorld {
    let custom = SpecWorld { properties: acc.properties.insert(k, v), ..acc };
    if k == "id".spec_bytes() {
        match parse_u32_text(v) {
            Some(x) => SpecWorld { id: x, ..acc },
            None => custom,
        }
    } else     if k == "mapversion".spec_bytes() {
        match parse_u32_text(v) {
            Some(x) => SpecWorld { mapversion: x, ..acc },
            None => custom,
        }
    } else     if k == "classname".spec_bytes() {
        SpecWorld { classname: v, ..acc }
    } else     if k == "detailmaterial".spec_bytes() {
        SpecWorld { detailmaterial: Some(v), ..acc }
    } else     if k == "detailvbsp".spec_bytes() {
        SpecWorld { detailvbsp: Some(v), ..acc }
    } else     if k == "maxpropscreenwidth".spec_bytes() {
        match parse_i32_text(v) {
            Some(x) => SpecWorld { maxpropscreenwidth: Some(x), ..acc },
            None => custom,
        }
    } else     if k == "skyname".spec_bytes() {
        SpecWorld { skyname: Some(v), ..acc }
    } else     if k == "sounds".spec_bytes() {
        match parse_u32_text(v) {
            Some(x) => SpecWorld { sounds: Some(x), ..acc },
            None => custom,
        }
    } else     if k == "maxrange".spec_bytes() {
        if is_number_body(trim(v)) {
            SpecWorld { maxrange: Some(trim(v)), ..acc }
        } else {
            custom
        }
    } else     if k == "maxoccludeearea".spec_bytes() {
        if is_number_body(trim(v)) {
            SpecWorld { maxoccludeearea: Some(trim(v)), ..acc }
        } else {
            custom
        }
    } else     if k == "minoccluderarea".spec_bytes() {
        if is_number_body(trim(v)) {
            SpecWorld { minoccluderarea: Some(trim(v)), ..acc }
        } else {
            custom
        }
    } else     if k == "maxoccludeearea_csgo".spec_bytes() {
        if is_number_body(trim(v)) {
            SpecWorld { maxoccludeearea_csgo: Some(trim(v)), ..acc }
        } else {
            custom
        }
    } else     if k == "minoccluderarea_csgo".spec_bytes() {
        if is_number_body(trim(v)) {
            SpecWorld { minoccluderarea_csgo: Some(trim(v)), ..acc }
        } else {
            custom
        }
    } else     if k == "difficulty_level".spec_bytes() {
        match parse_u32_text(v) {
            Some(x) => SpecWorld { difficulty_level: Some(x), ..acc },
            None => custom,
        }
    } else     if k == "hdr_level".spec_bytes() {
        match parse_u32_text(v) {
            Some(x) => SpecWorld { hdr_level: Some(x), ..acc },
            None => custom,
        }
    } else     if k == "targetname".spec_bytes() {
        SpecWorld { targetname: Some(v), ..acc }
    } else     if k == "target".spec_bytes() {
        SpecWorld { target: Some(v), ..acc }
    } else     if k == "hidden".spec_bytes() {
        match parse_bool_text(v) {
            Some(x) => SpecWorld { hidden: Some(x), ..acc },
            None => custom,
        }
    } else     if k == "group".spec_bytes() {
        match parse_u32_text(v) {
            Some(x) => SpecWorld { group: Some(x), ..acc },
            None => custom,
        }
    } else {
        custom
    }
}

/// Applies one body entry.
pub open spec fn world_step(acc: SpecWorld, e: SpecEntry) -> Option<SpecWorld> {
    match e {
        SpecEntry::KV(k, v) => Some(world_kv_step(acc, k, v)),
        SpecEntry::Sub(sub) => if sub.name == "editor".spec_bytes() {
            match spec_editor_block(sub) {
                Some(ed) => Some(SpecWorld { editor: Some(ed), ..acc }),
                None => None,
            }
        } else if sub.name == "solid".spec_bytes() {
            match spec_solid_block(sub) {
                Some(s) => Some(SpecWorld { solids: acc.solids.push(s), ..acc }),
                None => None,
            }
        } else {
            None
        },
    }
}

pub open spec fn world_fold(es: Seq<SpecEntry>, i: int, acc: SpecWorld) -> Option<SpecWorld>
    decreases es.len() - i,
{
    if !(0 <= i < es.len()) {
        Some(acc)
    } else {
        match world_step(acc, es[i]) {
            Some(a2) => world_fold(es, i + 1, a2),
            None => None,
        }
    }
}

/// Folds a `world` block: defaults, any key order, last occurrence wins,
/// unknown keys tolerated in the custom map.
pub open spec fn spec_world_block(b: SpecBlock) -> Option<SpecWorld> {
    if b.name == "world".spec_bytes() {
        world_fold(b.entries, 0, spec_world_default())
    } else {
        None
    }
}

/// Stores a custom property: the pair is appended, so in the map view the
/// new value overrides any earlier one under the same key.
fn world_push_prop(acc: World, k: &Vec<u8>, v: &Vec<u8>) -> (r: World)
    ensures
        r.deep_view() == (SpecWorld {
            properties: acc.deep_view().properties.insert(k@, v@),
            ..acc.deep_view()
        }),
{
    let ghost pre = acc.deep_view();
    let mut acc = acc;
    let ghost oldp = acc.properties@;
    acc.properties.push((copy_bytes(k), copy_bytes(v)));
    proof {
        assert(acc.properties@.drop_last() =~= oldp);
        assert(props_map(acc.properties@) == props_map(oldp).insert(k@, v@));
        assert(acc.deep_view() =~~= (SpecWorld {
            properties: pre.properties.insert(k@, v@),
            ..pre
        }));
    }
    acc
}

/// Applies one quoted pair, executably.
#[verifier::rlimit(100)]
#[verifier::spinoff_prover]
fn world_apply_kv(acc: World, k: &Vec<u8>, v: &Vec<u8>) -> (r: World)
    ensures
        r.deep_view() == world_kv_step(acc.deep_view(), k@, v@),
{
    if bytes_eq(k.as_slice(), "id".as_bytes()) {
        match parse_u32_bytes(v.as_slice()) {
            Some(x) => World { id: x, ..acc },
            None => world_push_prop(acc, k, v),
        }
    } else     if bytes_eq(k.as_slice(), "mapversion".as_bytes()) {
        match parse_u32_bytes(v.as_slice()) {
            Some(x) => World { mapversion: x, ..acc },
            None => world_push_prop(acc, k, v),
        }
    } else     if bytes_eq(k.as_slice(), "classname".as_bytes()) {
        World { classname: copy_bytes(v), ..acc }
    } else     if bytes_eq(k.as_slice(), "detailmaterial".as_bytes()) {
        World { detailmaterial: Some(copy_bytes(v)), ..acc }
    } else     if bytes_eq(k.as_slice(), "detailvbsp".as_bytes()) {
        World { detailvbsp: Some(copy_bytes(v)), ..acc }
    } else     if bytes_eq(k.as_slice(), "maxpropscreenwidth".as_bytes()) {
        match parse_i32_bytes(v.as_slice()) {
            Some(x) => World { maxpropscreenwidth: Some(x), ..acc },
            None => world_push_prop(acc, k, v),
        }
    } else     if bytes_eq(k.as_slice(), "skyname".as_bytes()) {
        World { skyname: Some(copy_bytes(v)), ..acc }
    } else     if bytes_eq(k.as_slice(), "sounds".as_bytes()) {
        match parse_u32_bytes(v.as_slice()) {
            Some(x) => World { sounds: Some(x), ..acc },
            None => world_push_prop(acc, k, v),
        }
    } else     if bytes_eq(k.as_slice(), "maxrange".as_bytes()) {
        let tr = trim_bytes(v.as_slice());
        if is_number_body_bytes(tr.as_slice()) {
            World { maxrange: Some(tr), ..acc }
        } else {
            world_push_prop(acc, k, v)
        }
    } else     if bytes_eq(k.as_slice(), "maxoccludeearea".as_bytes()) {
        let tr = trim_bytes(v.as_slice());
        if is_number_body_bytes(tr.as_slice()) {
            World { maxoccludeearea: Some(tr), ..acc }
        } else {
            world_push_prop(acc, k, v)
        }
    } else     if bytes_eq(k.as_slice(), "minoccluderarea".as_bytes()) {
        let tr = trim_bytes(v.as_slice());
        if is_number_body_bytes(tr.as_slice()) {
            World { minoccluderarea: Some(tr), ..acc }
        } else {
            world_push_prop(acc, k, v)
        }
    } else     if bytes_eq(k.as_slice(), "maxoccludeearea_csgo".as_bytes()) {
        let tr = trim_bytes(v.as_slice());
        if is_number_body_bytes(tr.as_slice()) {
            World { maxoccludeearea_csgo: Some(tr), ..acc }
        } else {
            world_push_prop(acc, k, v)
        }
    } else     if bytes_eq(k.as_slice(), "minoccluderarea_csgo".as_bytes()) {
        let tr = trim_bytes(v.as_slice());
        if is_number_body_bytes(tr.as_slice()) {
            World { minoccluderarea_csgo: Some(tr), ..acc }
        } else {
            world_push_prop(acc, k, v)
        }
    } else     if bytes_eq(k.as_slice(), "difficulty_level".as_bytes()) {
        match parse_u32_bytes(v.as_slice()) {
            Some(x) => World { difficulty_level: Some(x), ..acc },
            None => world_push_prop(acc, k, v),
        }
    } else     if bytes_eq(k.as_slice(), "hdr_level".as_bytes()) {
        match parse_u32_bytes(v.as_slice()) {
            Some(x) => World { hdr_level: Some(x), ..acc },
            None => world_push_prop(acc, k, v),
        }
    } else     if bytes_eq(k.as_slice(), "targetname".as_bytes()) {
        World { targetname: Some(copy_bytes(v)), ..acc }
    } else     if bytes_eq(k.as_slice(), "target".as_bytes()) {
        World { target: Some(copy_bytes(v)), ..acc }
    } else     if bytes_eq(k.as_slice(), "hidden".as_bytes()) {
        match parse_bool_bytes(v.as_slice()) {
            Some(x) => World { hidden: Some(x), ..acc },
            None => world_push_prop(acc, k, v),
        }
    } else     if bytes_eq(k.as_slice(), "group".as_bytes()) {
        match parse_u32_bytes(v.as_slice()) {
            Some(x) => World { group: Some(x), ..acc },
            None => world_push_prop(acc, k, v),
        }
    } else {
        world_push_prop(acc, k, v)
    }
}

pub fn world_from_block(b: &Block) -> (r: Result<World, ParseError>)
    ensures
        match r {
            Ok(v) => spec_world_block(b.deep_view()) == Some(v.deep_view()),
            Err(_) => spec_world_block(b.deep_view()) is None,
        },
{
    let ghost bv = b.deep_view();
    assert(bv.entries.len() == b.entries@.len());
    if !bytes_eq(b.name.as_slice(), "world".as_bytes()) {
        return Err(ParseError { at: 0, kind: ParseErrorKind::WrongBlockName });
    }
    let mut acc = World::default();
    let mut i: usize = 0;
    while i < b.entries.len()
        invariant
            0 <= i <= b.entries@.len(),
            bv == b.deep_view(),
            bv.entries.len() == b.entries@.len(),
            world_fold(bv.entries, 0, spec_world_default()) == world_fold(
                bv.entries,
                i as int,
                acc.deep_view(),
            ),
        decreases b.entries@.len() - i,
    {
        let e = &b.entries[i];
        assert(e.deep_view() == bv.entries[i as int]);
        let ghost pre = acc.deep_view();
        match e {
            Entry::KV(k, v) => {
                acc = world_apply_kv(acc, k, v);
                assert(world_step(pre, e.deep_view()) == Some(acc.deep_view()));
            },
            Entry::Sub(sub) => {
                proof {
                    lemma_entry_sub_deep_view(*e);
                }
                if bytes_eq(sub.name.as_slice(), "editor".as_bytes()) {
                    match editor_from_block(sub) {
                        Ok(ed) => {
                            acc.editor = Some(ed);
                            assert(world_step(pre, e.deep_view()) == Some(acc.deep_view()));
                        },
                        Err(e2) => {
                            return Err(e2);
                        },
                    }
                } else if bytes_eq(sub.name.as_slice(), "solid".as_bytes()) {
                    match solid_from_block(sub) {
                        Ok(s) => {
                            let ghost sv = s.deep_view();
                            acc.solids.push(s);
                            proof {
                                assert(acc.deep_view().solids =~~= pre.solids.push(sv));
                                assert(acc.deep_view() =~~= (SpecWorld {
                                    solids: pre.solids.push(sv),
                                    ..pre
                                }));
                                assert(world_step(pre, e.deep_view()) == Some(acc.deep_view()));
                            }
                        },
                        Err(e2) => {
                            return Err(e2);
                        },
                    }
                } else {
                    return Err(ParseError { at: i, kind: ParseErrorKind::UnknownBlock });
                }
            },
        }
        i += 1;
    }
    Ok(acc)
}

/// The whole token sequence as one `world` block.
pub open spec fn spec_parse_world(toks: Seq<Tok>) -> Option<SpecWorld> {
    match spec_block_exact(toks) {
        Some(b) => spec_world_block(b),
        None => None,
    }
}

impl World {
    /// Parses a complete token sequence as a `world` block.
    pub fn parse(toks: &Vec<Token>) -> (r: Result<World, ParseError>)
        ensures
            match r {
                Ok(v) => spec_parse_world(toks.deep_view()) == Some(v.deep_view()),
                Err(_) => spec_parse_world(toks.deep_view()) is None,
            },
    {
        match parse_block_exact(toks) {
            Ok(b) => world_from_block(&b),
            Err(e) => Err(e),
        }
    }
}

} // verus!
