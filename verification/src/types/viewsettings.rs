//! The `viewsettings` block: editor view toggles and the grid spacing. All
//! keys are optional, may come in any order, and the last occurrence of a
//! key wins; every field has a default.
use vstd::prelude::*;
use crate::block::{parse_block_exact, spec_block_exact, Block, SpecBlock, SpecEntry, Entry};
use crate::bytes::{bytes_eq, copy_bytes, trim, trim_bytes};
use crate::error::{ParseError, ParseErrorKind};
use crate::lexer::{Tok, Token};
use crate::num::{is_number_body, is_number_body_bytes, parse_bool_bytes, parse_bool_text, parse_i32_bytes, parse_i32_text, parse_u16_bytes, parse_u16_text, parse_u32_bytes, parse_u32_text};
use crate::types::color::{decode_color, spec_color, Color};
use crate::types::point::{decode_bracket_point, decode_paren_point, decode_vec3, spec_bracket_point, spec_paren_point, spec_point_zero, spec_vec3, Point3D, SpecPoint};
use crate::types::textureaxis::{decode_axis, spec_axis, spec_axis_zero, SpecAxis, TextureAxis};
use vstd::string::StringSliceAdditionalSpecFns;

verus! {

#[derive(Debug, Clone, PartialEq, Eq)]
pub struct ViewSettings {
    pub snap_to_grid: bool,
    pub show_grid: bool,
    pub show_logical_grid: bool,
    pub grid_spacing: u32,
    pub show_3d_grid: bool,
    pub hide_objects: bool,
    pub hide_walls: bool,
    pub hide_stripes: bool,
    pub hide_neighbors: bool,
    pub hide_detail: bool,
    pub show_brushes: bool,
    pub show_entities: bool,
    pub show_light_radius: bool,
    pub show_lighting_preview: bool,
    pub show_wireframe: bool,
}

impl DeepView for ViewSettings {
    type V = ViewSettings;

    open spec fn deep_view(&self) -> ViewSettings {
        *self
    }
}

/// The record an empty `viewsettings` block folds to.
pub open spec fn spec_viewsettings_default() -> ViewSettings {
    ViewSettings {
        snap_to_grid: false,
        show_grid: false,
        show_logical_grid: false,
        grid_spacing: 0,
        show_3d_grid: false,
        hide_objects: false,
        hide_walls: false,
        hide_stripes: false,
        hide_neighbors: false,
        hide_detail: false,
        show_brushes: false,
        show_entities: false,
        show_light_radius: false,
        show_lighting_preview: false,
        show_wireframe: false,
    }
}

impl Default for ViewSettings {
    fn default() -> (r: ViewSettings)
        ensures
            r.deep_view() == spec_viewsettings_default(),
    {
        let r = ViewSettings {
            snap_to_grid: false,
            show_grid: false,
            show_logical_grid: false,
            grid_spacing: 0,
            show_3d_grid: false,
            hide_objects: false,
            hide_walls: false,
            hide_stripes: false,
            hide_neighbors: false,
            hide_detail: false,
            show_brushes: false,
            show_entities: false,
            show_light_radius: false,
            show_lighting_preview: false,
            show_wireframe: false,
        };
        assert(r.deep_view() =~~= spec_viewsettings_default());
        r
    }
}

/// Applies one body entry to the record: a recognized key assigns its
/// field; anything else fails the block.
pub open spec fn viewsettings_step(acc: ViewSettings, e: SpecEntry) -> Option<ViewSettings> {
    match e {
        SpecEntry::KV(k, v) => {
        if k == "bSnapToGrid".spec_bytes() {
            match parse_bool_text(v) {
                Some(x) => Some(ViewSettings { snap_to_grid: x, ..acc }),
                None => None,
            }
        } else         if k == "bShowGrid".spec_bytes() {
            match parse_bool_text(v) {
                Some(x) => Some(ViewSettings { show_grid: x, ..acc }),
                None => None,
            }
        } else         if k == "bShowLogicalGrid".spec_bytes() {
            match parse_bool_text(v) {
                Some(x) => Some(ViewSettings { show_logical_grid: x, ..acc }),
                None => None,
            }
        } else         if k == "nGridSpacing".spec_bytes() {
            match parse_u32_text(v) {
                Some(x) => Some(ViewSettings { grid_spacing: x, ..acc }),
                None => None,
            }
        } else         if k == "bShow3DGrid".spec_bytes() {
            match parse_bool_text(v) {
                Some(x) => Some(ViewSettings { show_3d_grid: x, ..acc }),
                None => None,
            }
        } else         if k == "bHideObjects".spec_bytes() {
            match parse_bool_text(v) {
                Some(x) => Some(ViewSettings { hide_objects: x, ..acc }),
                None => None,
            }
        } else         if k == "bHideWalls".spec_bytes() {
            match parse_bool_text(v) {
                Some(x) => Some(ViewSettings { hide_walls: x, ..acc }),
                None => None,
            }
        } else         if k == "bHideStripes".spec_bytes() {
            match parse_bool_text(v) {
                Some(x) => Some(ViewSettings { hide_stripes: x, ..acc }),
                None => None,
            }
        } else         if k == "bHideNeighbors".spec_bytes() {
            match parse_bool_text(v) {
                Some(x) => Some(ViewSettings { hide_neighbors: x, ..acc }),
                None => None,
            }
        } else         if k == "bHideDetail".spec_bytes() {
            match parse_bool_text(v) {
                Some(x) => Some(ViewSettings { hide_detail: x, ..acc }),
                None => None,
            }
        } else         if k == "bShowBrushes".spec_bytes() {
            match parse_bool_text(v) {
                Some(x) => Some(ViewSettings { show_brushes: x, ..acc }),
                None => None,
            }
        } else         if k == "bShowEntities".spec_bytes() {
            match parse_bool_text(v) {
                Some(x) => Some(ViewSettings { show_entities: x, ..acc }),
                None => None,
            }
        } else         if k == "bShowLightRadius".spec_bytes() {
            match parse_bool_text(v) {
                Some(x) => Some(ViewSettings { show_light_radius: x, ..acc }),
                None => None,
            }
        } else         if k == "bShowLightingPreview".spec_bytes() {
            match parse_bool_text(v) {
                Some(x) => Some(ViewSettings { show_lighting_preview: x, ..acc }),
                None => None,
            }
        } else         if k == "bShowWireframe".spec_bytes() {
            match parse_bool_text(v) {
                Some(x) => Some(ViewSettings { show_wireframe: x, ..acc }),
                None => None,
            }
        } else {
            None
        }
        },
        SpecEntry::Sub(sub) => None,
    }
}

pub open spec fn viewsettings_fold(es: Seq<SpecEntry>, i: int, acc: ViewSettings) -> Option<ViewSettings>
    decreases es.len() - i,
{
    if !(0 <= i < es.len()) {
        Some(acc)
    } else {
        match viewsettings_step(acc, es[i]) {
            Some(a2) => viewsettings_fold(es, i + 1, a2),
            None => None,
        }
    }
}

/// Folds a `viewsettings` block: defaults, any key order, last occurrence wins.
pub open spec fn spec_viewsettings_block(b: SpecBlock) -> Option<ViewSettings> {
    if b.name == "viewsettings".spec_bytes() {
        viewsettings_fold(b.entries, 0, spec_viewsettings_default())
    } else {
        None
    }
}

/// Applies one body entry, executably.
#[verifier::rlimit(100)]
fn viewsettings_apply(acc: ViewSettings, e: &Entry) -> (r: Option<ViewSettings>)
    ensures
        match r {
            Some(a2) => viewsettings_step(acc.deep_view(), e.deep_view()) == Some(a2.deep_view()),
            None => viewsettings_step(acc.deep_view(), e.deep_view()) is None,
        },
{
    match e {
        Entry::KV(k, v) => {
            if bytes_eq(k.as_slice(), "bSnapToGrid".as_bytes()) {
                match parse_bool_bytes(v.as_slice()) {
                    Some(x) => {
                        let r = ViewSettings { snap_to_grid: x, ..acc };
                        Some(r)
                    },
                    None => None,
                }
            } else             if bytes_eq(k.as_slice(), "bShowGrid".as_bytes()) {
                match parse_bool_bytes(v.as_slice()) {
                    Some(x) => {
                        let r = ViewSettings { show_grid: x, ..acc };
                        Some(r)
                    },
                    None => None,
                }
            } else             if bytes_eq(k.as_slice(), "bShowLogicalGrid".as_bytes()) {
                match parse_bool_bytes(v.as_slice()) {
                    Some(x) => {
                        let r = ViewSettings { show_logical_grid: x, ..acc };
                        Some(r)
                    },
                    None => None,
                }
            } else             if bytes_eq(k.as_slice(), "nGridSpacing".as_bytes()) {
                match parse_u32_bytes(v.as_slice()) {
                    Some(x) => {
                        let r = ViewSettings { grid_spacing: x, ..acc };
                        Some(r)
                    },
                    None => None,
                }
            } else             if bytes_eq(k.as_slice(), "bShow3DGrid".as_bytes()) {
                match parse_bool_bytes(v.as_slice()) {
                    Some(x) => {
                        let r = ViewSettings { show_3d_grid: x, ..acc };
                        Some(r)
                    },
                    None => None,
                }
            } else             if bytes_eq(k.as_slice(), "bHideObjects".as_bytes()) {
                match parse_bool_bytes(v.as_slice()) {
                    Some(x) => {
                        let r = ViewSettings { hide_objects: x, ..acc };
                        Some(r)
                    },
                    None => None,
                }
            } else             if bytes_eq(k.as_slice(), "bHideWalls".as_bytes()) {
                match parse_bool_bytes(v.as_slice()) {
                    Some(x) => {
                        let r = ViewSettings { hide_walls: x, ..acc };
                        Some(r)
                    },
                    None => None,
                }
            } else             if bytes_eq(k.as_slice(), "bHideStripes".as_bytes()) {
                match parse_bool_bytes(v.as_slice()) {
                    Some(x) => {
                        let r = ViewSettings { hide_stripes: x, ..acc };
                        Some(r)
                    },
                    None => None,
                }
            } else             if bytes_eq(k.as_slice(), "bHideNeighbors".as_bytes()) {
                match parse_bool_bytes(v.as_slice()) {
                    Some(x) => {
                        let r = ViewSettings { hide_neighbors: x, ..acc };
                        Some(r)
                    },
                    None => None,
                }
            } else             if bytes_eq(k.as_slice(), "bHideDetail".as_bytes()) {
                match parse_bool_bytes(v.as_slice()) {
                    Some(x) => {
                        let r = ViewSettings { hide_detail: x, ..acc };
                        Some(r)
                    },
                    None => None,
                }
            } else             if bytes_eq(k.as_slice(), "bShowBrushes".as_bytes()) {
                match parse_bool_bytes(v.as_slice()) {
                    Some(x) => {
                        let r = ViewSettings { show_brushes: x, ..acc };
                        Some(r)
                    },
                    None => None,
                }
            } else             if bytes_eq(k.as_slice(), "bShowEntities".as_bytes()) {
                match parse_bool_bytes(v.as_slice()) {
                    Some(x) => {
                        let r = ViewSettings { show_entities: x, ..acc };
                        Some(r)
                    },
                    None => None,
                }
            } else             if bytes_eq(k.as_slice(), "bShowLightRadius".as_bytes()) {
                match parse_bool_bytes(v.as_slice()) {
                    Some(x) => {
                        let r = ViewSettings { show_light_radius: x, ..acc };
                        Some(r)
                    },
                    None => None,
                }
            } else             if bytes_eq(k.as_slice(), "bShowLightingPreview".as_bytes()) {
                match parse_bool_bytes(v.as_slice()) {
                    Some(x) => {
                        let r = ViewSettings { show_lighting_preview: x, ..acc };
                        Some(r)
                    },
                    None => None,
                }
            } else             if bytes_eq(k.as_slice(), "bShowWireframe".as_bytes()) {
                match parse_bool_bytes(v.as_slice()) {
                    Some(x) => {
                        let r = ViewSettings { show_wireframe: x, ..acc };
                        Some(r)
                    },
                    None => None,
                }
            } else {
                None
            }
        },
        Entry::Sub(_) => None,
    }
}

pub fn viewsettings_from_block(b: &Block) -> (r: Result<ViewSettings, ParseError>)
    ensures
        match r {
            Ok(v) => spec_viewsettings_block(b.deep_view()) == Some(v.deep_view()),
            Err(_) => spec_viewsettings_block(b.deep_view()) is None,
        },
{
    let ghost bv = b.deep_view();
    assert(bv.entries.len() == b.entries@.len());
    if !bytes_eq(b.name.as_slice(), "viewsettings".as_bytes()) {
        return Err(ParseError { at: 0, kind: ParseErrorKind::WrongBlockName });
    }
    let mut acc = ViewSettings::default();
    let mut i: usize = 0;
    while i < b.entries.len()
        invariant
            0 <= i <= b.entries@.len(),
            bv == b.deep_view(),
            bv.entries.len() == b.entries@.len(),
            viewsettings_fold(bv.entries, 0, spec_viewsettings_default()) == viewsettings_fold(
                bv.entries,
                i as int,
                acc.deep_view(),
            ),
        decreases b.entries@.len() - i,
    {
        let e = &b.entries[i];
        assert(e.deep_view() == bv.entries[i as int]);
        match viewsettings_apply(acc, e) {
            Some(a2) => {
                acc = a2;
            },
            None => {
                return Err(ParseError { at: i, kind: ParseErrorKind::UnknownKey });
            },
        }
        i += 1;
    }
    Ok(acc)
}

/// The whole token sequence as one `viewsettings` block.
pub open spec fn spec_parse_viewsettings(toks: Seq<Tok>) -> Option<ViewSettings> {
    match spec_block_exact(toks) {
        Some(b) => spec_viewsettings_block(b),
        None => None,
    }
}

impl ViewSettings {
    /// Parses a complete token sequence as a `viewsettings` block.
    pub fn parse(toks: &Vec<Token>) -> (r: Result<ViewSettings, ParseError>)
        ensures
            match r {
                Ok(v) => spec_parse_viewsettings(toks.deep_view()) == Some(v.deep_view()),
                Err(_) => spec_parse_viewsettings(toks.deep_view()) is None,
            },
    {
        match parse_block_exact(toks) {
            Ok(b) => viewsettings_from_block(&b),
            Err(e) => Err(e),
        }
    }
}

} // verus!
