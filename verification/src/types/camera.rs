//! The `camera` block: an editor camera with its placement and optional
//! motion parameters. All keys are optional, may come in any order, and the
//! last occurrence of a key wins. Real-valued parameters are kept as their
//! numeric-literal text.
use vstd::prelude::*;
use crate::block::{parse_block_exact, spec_block_exact, Block, SpecBlock, SpecEntry, Entry};
use crate::bytes::{bytes_eq, copy_bytes, trim, trim_bytes};
use crate::error::{ParseError, ParseErrorKind};
use crate::lexer::{Tok, Token};
use crate::num::{is_number_body, is_number_body_bytes, parse_bool_bytes, parse_bool_text, parse_i32_bytes, parse_i32_text, parse_u16_bytes, parse_u16_text, parse_u32_bytes, parse_u32_text};
use crate::types::color::{decode_color, spec_color, Color};
use crate::types::point::{decode_bracket_point, decode_paren_point, decode_vec3, spec_bracket_point, spec_paren_point, spec_point_zero, spec_vec3, Point3D, SpecPoint};
use crate::types::textureaxis::{decode_axis, spec_axis, spec_axis_zero, SpecAxis, TextureAxis};
use vstd::string::StringSliceAdditionalSpecFns;

verus! {

#[derive(Debug, Clone, PartialEq, Eq)]
pub struct Camera {
    pub id: u32,
    pub classname: Vec<u8>,
    pub origin: Point3D,
    pub angles: Point3D,
    pub targetname: Vec<u8>,
    pub spawnflags: Option<u32>,
    pub wait: Option<Vec<u8>>,
    pub acceleration: Option<Vec<u8>>,
    pub deceleration: Option<Vec<u8>>,
    pub speed: Option<Vec<u8>>,
    pub fov: Option<Vec<u8>>,
    pub fov_rate: Option<Vec<u8>>,
    pub use_screen_aspect_ratio: Option<bool>,
    pub interp_time: Option<Vec<u8>>,
}

/// The mathematical image of a `Camera`.
#[verifier::ext_equal]
pub struct SpecCamera {
    pub id: u32,
    pub classname: Seq<u8>,
    pub origin: SpecPoint,
    pub angles: SpecPoint,
    pub targetname: Seq<u8>,
    pub spawnflags: Option<u32>,
    pub wait: Option<Seq<u8>>,
    pub acceleration: Option<Seq<u8>>,
    pub deceleration: Option<Seq<u8>>,
    pub speed: Option<Seq<u8>>,
    pub fov: Option<Seq<u8>>,
    pub fov_rate: Option<Seq<u8>>,
    pub use_screen_aspect_ratio: Option<bool>,
    pub interp_time: Option<Seq<u8>>,
}

impl DeepView for Camera {
    type V = SpecCamera;

    open spec fn deep_view(&self) -> SpecCamera {
        SpecCamera {
            id: self.id,
            classname: self.classname@,
            origin: self.origin.deep_view(),
            angles: self.angles.deep_view(),
            targetname: self.targetname@,
            spawnflags: self.spawnflags,
            wait: self.wait.deep_view(),
            acceleration: self.acceleration.deep_view(),
            deceleration: self.deceleration.deep_view(),
            speed: self.speed.deep_view(),
            fov: self.fov.deep_view(),
            fov_rate: self.fov_rate.deep_view(),
            use_screen_aspect_ratio: self.use_screen_aspect_ratio,
            interp_time: self.interp_time.deep_view(),
        }
    }
}

/// The record an empty `camera` block folds to.
pub open spec fn spec_camera_default() -> SpecCamera {
    SpecCamera {
        id: 0,
        classname: Seq::empty(),
        origin: spec_point_zero(),
        angles: spec_point_zero(),
        targetname: Seq::empty(),
        spawnflags: None,
        wait: None,
        acceleration: None,
        deceleration: None,
        speed: None,
        fov: None,
        fov_rate: None,
        use_screen_aspect_ratio: None,
        interp_time: None,
    }
}

impl Default for Camera {
    fn default() -> (r: Camera)
        ensures
            r.deep_view() == spec_camera_default(),
    {
        let r = Camera {
            id: 0,
            classname: Vec::new(),
            origin: Point3D::default(),
            angles: Point3D::default(),
            targetname: Vec::new(),
            spawnflags: None,
            wait: None,
            acceleration: None,
            deceleration: None,
            speed: None,
            fov: None,
            fov_rate: None,
            use_screen_aspect_ratio: None,
            interp_time: None,
        };
        assert(r.deep_view() =~~= spec_camera_default());
        r
    }
}

/// Applies one body entry to the record: a recognized key assigns its
/// field; anything else fails the block.
pub open spec fn camera_step(acc: SpecCamera, e: SpecEntry) -> Option<SpecCamera> {
    match e {
        SpecEntry::KV(k, v) => {
        if k == "id".spec_bytes() {
            match parse_u32_text(v) {
                Some(x) => Some(SpecCamera { id: x, ..acc }),
                None => None,
            }
        } else         if k == "classname".spec_bytes() {
            match Some(v) {
                Some(x) => Some(SpecCamera { classname: x, ..acc }),
                None => None,
            }
        } else         if k == "origin".spec_bytes() {
            match spec_vec3(v) {
                Some(x) => Some(SpecCamera { origin: x, ..acc }),
                None => None,
            }
        } else         if k == "angles".spec_bytes() {
            match spec_vec3(v) {
                Some(x) => Some(SpecCamera { angles: x, ..acc }),
                None => None,
            }
        } else         if k == "targetname".spec_bytes() {
            match Some(v) {
                Some(x) => Some(SpecCamera { targetname: x, ..acc }),
                None => None,
            }
        } else         if k == "spawnflags".spec_bytes() {
            match parse_u32_text(v) {
                Some(x) => Some(SpecCamera { spawnflags: Some(x), ..acc }),
                None => None,
            }
        } else         if k == "wait".spec_bytes() {
            match (if is_number_body(trim(v)) { Some(trim(v)) } else { None }) {
                Some(x) => Some(SpecCamera { wait: Some(x), ..acc }),
                None => None,
            }
        } else         if k == "acceleration".spec_bytes() {
            match (if is_number_body(trim(v)) { Some(trim(v)) } else { None }) {
                Some(x) => Some(SpecCamera { acceleration: Some(x), ..acc }),
                None => None,
            }
        } else         if k == "deceleration".spec_bytes() {
            match (if is_number_body(trim(v)) { Some(trim(v)) } else { None }) {
                Some(x) => Some(SpecCamera { deceleration: Some(x), ..acc }),
                None => None,
            }
        } else         if k == "speed".spec_bytes() {
            match (if is_number_body(trim(v)) { Some(trim(v)) } else { None }) {
                Some(x) => Some(SpecCamera { speed: Some(x), ..acc }),
                None => None,
            }
        } else         if k == "fov".spec_bytes() {
            match (if is_number_body(trim(v)) { Some(trim(v)) } else { None }) {
                Some(x) => Some(SpecCamera { fov: Some(x), ..acc }),
                None => None,
            }
        } else         if k == "fov_rate".spec_bytes() {
            match (if is_number_body(trim(v)) { Some(trim(v)) } else { None }) {
                Some(x) => Some(SpecCamera { fov_rate: Some(x), ..acc }),
                None => None,
            }
        } else         if k == "use_screen_aspect_ratio".spec_bytes() {
            match parse_bool_text(v) {
                Some(x) => Some(SpecCamera { use_screen_aspect_ratio: Some(x), ..acc }),
                None => None,
            }
        } else         if k == "interp_time".spec_bytes() {
            match (if is_number_body(trim(v)) { Some(trim(v)) } else { None }) {
                Some(x) => Some(SpecCamera { interp_time: Some(x), ..acc }),
                None => None,
            }
        } else {
            None
        }
        },
        SpecEntry::Sub(sub) => None,
    }
}

pub open spec fn camera_fold(es: Seq<SpecEntry>, i: int, acc: SpecCamera) -> Option<SpecCamera>
    decreases es.len() - i,
{
    if !(0 <= i < es.len()) {
        Some(acc)
    } else {
        match camera_step(acc, es[i]) {
            Some(a2) => camera_fold(es, i + 1, a2),
            None => None,
        }
    }
}

/// Folds a `camera` block: defaults, any key order, last occurrence wins.
pub open spec fn spec_camera_block(b: SpecBlock) -> Option<SpecCamera> {
    if b.name == "camera".spec_bytes() {
        camera_fold(b.entries, 0, spec_camera_default())
    } else {
        None
    }
}

/// Applies one body entry, executably.
#[verifier::rlimit(100)]
fn camera_apply(acc: Camera, e: &Entry) -> (r: Option<Camera>)
    ensures
        match r {
            Some(a2) => camera_step(acc.deep_view(), e.deep_view()) == Some(a2.deep_view()),
            None => camera_step(acc.deep_view(), e.deep_view()) is None,
        },
{
    match e {
        Entry::KV(k, v) => {
            if bytes_eq(k.as_slice(), "id".as_bytes()) {
                match parse_u32_bytes(v.as_slice()) {
                    Some(x) => {
                        let r = Camera { id: x, ..acc };
                        Some(r)
                    },
                    None => None,
                }
            } else             if bytes_eq(k.as_slice(), "classname".as_bytes()) {
                match Some(copy_bytes(v)) {
                    Some(x) => {
                        let r = Camera { classname: x, ..acc };
                        Some(r)
                    },
                    None => None,
                }
            } else             if bytes_eq(k.as_slice(), "origin".as_bytes()) {
                match decode_vec3(v.as_slice()) {
                    Some(x) => {
                        let r = Camera { origin: x, ..acc };
                        Some(r)
                    },
                    None => None,
                }
            } else             if bytes_eq(k.as_slice(), "angles".as_bytes()) {
                match decode_vec3(v.as_slice()) {
                    Some(x) => {
                        let r = Camera { angles: x, ..acc };
                        Some(r)
                    },
                    None => None,
                }
            } else             if bytes_eq(k.as_slice(), "targetname".as_bytes()) {
                match Some(copy_bytes(v)) {
                    Some(x) => {
                        let r = Camera { targetname: x, ..acc };
                        Some(r)
                    },
                    None => None,
                }
            } else             if bytes_eq(k.as_slice(), "spawnflags".as_bytes()) {
                match parse_u32_bytes(v.as_slice()) {
                    Some(x) => {
                        let r = Camera { spawnflags: Some(x), ..acc };
                        Some(r)
                    },
                    None => None,
                }
            } else             if bytes_eq(k.as_slice(), "wait".as_bytes()) {
                match ({ let t = trim_bytes(v.as_slice()); if is_number_body_bytes(t.as_slice()) { Some(t) } else { None } }) {
                    Some(x) => {
                        let r = Camera { wait: Some(x), ..acc };
                        Some(r)
                    },
                    None => None,
                }
            } else             if bytes_eq(k.as_slice(), "acceleration".as_bytes()) {
                match ({ let t = trim_bytes(v.as_slice()); if is_number_body_bytes(t.as_slice()) { Some(t) } else { None } }) {
                    Some(x) => {
                        let r = Camera { acceleration: Some(x), ..acc };
                        Some(r)
                    },
                    None => None,
                }
            } else             if bytes_eq(k.as_slice(), "deceleration".as_bytes()) {
                match ({ let t = trim_bytes(v.as_slice()); if is_number_body_bytes(t.as_slice()) { Some(t) } else { None } }) {
                    Some(x) => {
                        let r = Camera { deceleration: Some(x), ..acc };
                        Some(r)
                    },
                    None => None,
                }
            } else             if bytes_eq(k.as_slice(), "speed".as_bytes()) {
                match ({ let t = trim_bytes(v.as_slice()); if is_number_body_bytes(t.as_slice()) { Some(t) } else { None } }) {
                    Some(x) => {
                        let r = Camera { speed: Some(x), ..acc };
                        Some(r)
                    },
                    None => None,
                }
            } else             if bytes_eq(k.as_slice(), "fov".as_bytes()) {
                match ({ let t = trim_bytes(v.as_slice()); if is_number_body_bytes(t.as_slice()) { Some(t) } else { None } }) {
                    Some(x) => {
                        let r = Camera { fov: Some(x), ..acc };
                        Some(r)
                    },
                    None => None,
                }
            } else             if bytes_eq(k.as_slice(), "fov_rate".as_bytes()) {
                match ({ let t = trim_bytes(v.as_slice()); if is_number_body_bytes(t.as_slice()) { Some(t) } else { None } }) {
                    Some(x) => {
                        let r = Camera { fov_rate: Some(x), ..acc };
                        Some(r)
                    },
                    None => None,
                }
            } else             if bytes_eq(k.as_slice(), "use_screen_aspect_ratio".as_bytes()) {
                match parse_bool_bytes(v.as_slice()) {
                    Some(x) => {
                        let r = Camera { use_screen_aspect_ratio: Some(x), ..acc };
                        Some(r)
                    },
                    None => None,
                }
            } else             if bytes_eq(k.as_slice(), "interp_time".as_bytes()) {
                match ({ let t = trim_bytes(v.as_slice()); if is_number_body_bytes(t.as_slice()) { Some(t) } else { None } }) {
                    Some(x) => {
                        let r = Camera { interp_time: Some(x), ..acc };
                        Some(r)
                    },
                    None => None,
                }
            } else {
                None
            }
        },
        Entry::Sub(_) => None,
    }
}

pub fn camera_from_block(b: &Block) -> (r: Result<Camera, ParseError>)
    ensures
        match r {
            Ok(v) => spec_camera_block(b.deep_view()) == Some(v.deep_view()),
            Err(_) => spec_camera_block(b.deep_view()) is None,
        },
{
    let ghost bv = b.deep_view();
    assert(bv.entries.len() == b.entries@.len());
    if !bytes_eq(b.name.as_slice(), "camera".as_bytes()) {
        return Err(ParseError { at: 0, kind: ParseErrorKind::WrongBlockName });
    }
    let mut acc = Camera::default();
    let mut i: usize = 0;
    while i < b.entries.len()
        invariant
            0 <= i <= b.entries@.len(),
            bv == b.deep_view(),
            bv.entries.len() == b.entries@.len(),
            camera_fold(bv.entries, 0, spec_camera_default()) == camera_fold(
                bv.entries,
                i as int,
                acc.deep_view(),
            ),
        decreases b.entries@.len() - i,
    {
        let e = &b.entries[i];
        assert(e.deep_view() == bv.entries[i as int]);
        match camera_apply(acc, e) {
            Some(a2) => {
                acc = a2;
            },
            None => {
                return Err(ParseError { at: i, kind: ParseErrorKind::UnknownKey });
            },
        }
        i += 1;
    }
    Ok(acc)
}

/// The whole token sequence as one `camera` block.
pub open spec fn spec_parse_camera(toks: Seq<Tok>) -> Option<SpecCamera> {
    match spec_block_exact(toks) {
        Some(b) => spec_camera_block(b),
        None => None,
    }
}

impl Camera {
    /// Parses a complete token sequence as a `camera` block.
    pub fn parse(toks: &Vec<Token>) -> (r: Result<Camera, ParseError>)
        ensures
            match r {
                Ok(v) => spec_parse_camera(toks.deep_view()) == Some(v.deep_view()),
                Err(_) => spec_parse_camera(toks.deep_view()) is None,
            },
    {
        match parse_block_exact(toks) {
            Ok(b) => camera_from_block(&b),
            Err(e) => Err(e),
        }
    }
}

/// The `cameras` block: `activecamera` keys first (the last wins, `-1`
/// when absent), then the `camera` sub-blocks in order. A key after the
/// first sub-block fails the block, as does any other content.
#[derive(Debug, Clone, PartialEq, Eq)]
pub struct Cameras {
    pub activecamera: i32,
    pub cameras: Vec<Camera>,
}

/// The mathematical image of a `Cameras`.
#[verifier::ext_equal]
pub struct SpecCameras {
    pub activecamera: i32,
    pub cameras: Seq<SpecCamera>,
}

impl DeepView for Cameras {
    type V = SpecCameras;

    open spec fn deep_view(&self) -> SpecCameras {
        SpecCameras { activecamera: self.activecamera, cameras: self.cameras.deep_view() }
    }
}

impl Cameras {
    /// Builds a camera collection from the active index and the cameras.
    pub fn new(activecamera: i32, cameras: Vec<Camera>) -> (r: Cameras)
        ensures
            r.deep_view() == (SpecCameras { activecamera, cameras: cameras.deep_view() }),
    {
        let r = Cameras { activecamera, cameras };
        assert(r.deep_view() =~~= (SpecCameras {
            activecamera: r.activecamera,
            cameras: r.cameras.deep_view(),
        }));
        r
    }
}

/// Folds the `cameras` body: `seen` records whether a camera sub-block has
/// come yet, after which keys are no longer accepted.
pub open spec fn cameras_fold(
    es: Seq<SpecEntry>,
    i: int,
    active: i32,
    cams: Seq<SpecCamera>,
    seen: bool,
) -> Option<SpecCameras>
    decreases es.len() - i,
{
    if !(0 <= i < es.len()) {
        Some(SpecCameras { activecamera: active, cameras: cams })
    } else {
        match es[i] {
            SpecEntry::KV(k, v) => if !seen && k == "activecamera".spec_bytes() {
                match parse_i32_text(v) {
                    Some(a) => cameras_fold(es, i + 1, a, cams, seen),
                    None => None,
                }
            } else {
                None
            },
            SpecEntry::Sub(sub) => match spec_camera_block(sub) {
                Some(c) => cameras_fold(es, i + 1, active, cams.push(c), true),
                None => None,
            },
        }
    }
}

/// Folds a `cameras` block. The active index defaults to `-1`.
pub open spec fn spec_cameras_block(b: SpecBlock) -> Option<SpecCameras> {
    if b.name == "cameras".spec_bytes() {
        cameras_fold(b.entries, 0, -1i32, Seq::empty(), false)
    } else {
        None
    }
}

pub fn cameras_from_block(b: &Block) -> (r: Result<Cameras, ParseError>)
    ensures
        match r {
            Ok(v) => spec_cameras_block(b.deep_view()) == Some(v.deep_view()),
            Err(_) => spec_cameras_block(b.deep_view()) is None,
        },
{
    let ghost bv = b.deep_view();
    assert(bv.entries.len() == b.entries@.len());
    if !bytes_eq(b.name.as_slice(), "cameras".as_bytes()) {
        return Err(ParseError { at: 0, kind: ParseErrorKind::WrongBlockName });
    }
    let mut active: i32 = -1;
    let mut cams: Vec<Camera> = Vec::new();
    let mut seen: bool = false;
    let mut i: usize = 0;
    proof {
        assert(cams.deep_view() =~~= Seq::<SpecCamera>::empty());
    }
    while i < b.entries.len()
        invariant
            0 <= i <= b.entries@.len(),
            bv == b.deep_view(),
            bv.entries.len() == b.entries@.len(),
            spec_cameras_block(bv) == cameras_fold(
                bv.entries,
                i as int,
                active,
                cams.deep_view(),
                seen,
            ),
        decreases b.entries@.len() - i,
    {
        let e = &b.entries[i];
        assert(e.deep_view() == bv.entries[i as int]);
        match e {
            Entry::KV(k, v) => {
                if !seen && bytes_eq(k.as_slice(), "activecamera".as_bytes()) {
                    match parse_i32_bytes(v.as_slice()) {
                        Some(a) => {
                            active = a;
                        },
                        None => {
                            return Err(ParseError { at: i, kind: ParseErrorKind::BadValue });
                        },
                    }
                } else {
                    return Err(ParseError { at: i, kind: ParseErrorKind::UnknownKey });
                }
            },
            Entry::Sub(sub) => {
                proof {
                    crate::block::lemma_entry_sub_deep_view(*e);
                }
                match camera_from_block(sub) {
                    Ok(c) => {
                        let ghost pre = cams.deep_view();
                        cams.push(c);
                        proof {
                            assert(cams.deep_view() =~~= pre.push(c.deep_view()));
                        }
                        seen = true;
                    },
                    Err(e2) => {
                        return Err(e2);
                    },
                }
            },
        }
        i += 1;
    }
    let r = Cameras { activecamera: active, cameras: cams };
    assert(r.deep_view() =~~= (SpecCameras { activecamera: active, cameras: r.cameras.deep_view() }));
    Ok(r)
}

/// The whole token sequence as one `cameras` block.
pub open spec fn spec_parse_cameras(toks: Seq<Tok>) -> Option<SpecCameras> {
    match spec_block_exact(toks) {
        Some(b) => spec_cameras_block(b),
        None => None,
    }
}

impl Cameras {
    /// Parses a complete token sequence as a `cameras` block.
    pub fn parse(toks: &Vec<Token>) -> (r: Result<Cameras, ParseError>)
        ensures
            match r {
                Ok(v) => spec_parse_cameras(toks.deep_view()) == Some(v.deep_view()),
                Err(_) => spec_parse_cameras(toks.deep_view()) is None,
            },
    {
        match parse_block_exact(toks) {
            Ok(b) => cameras_from_block(&b),
            Err(e) => Err(e),
        }
    }
}

} // verus!
