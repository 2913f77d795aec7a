//! Helpers for reading one block-body entry as a typed key/value pair.
//! Each helper answers `Some(value)` exactly when the entry is a quoted
//! pair under the given key whose value text decodes to the helper's type.
use vstd::prelude::*;
use crate::block::{Entry, SpecEntry};
use crate::bytes::{bytes_eq, copy_bytes, trim, trim_bytes};
use crate::num::{is_number_body, is_number_body_bytes, parse_bool_bytes, parse_bool_text, parse_i32_bytes, parse_i32_text, parse_u16_bytes, parse_u16_text, parse_u32_bytes, parse_u32_text};
use crate::types::color::{decode_color, spec_color, Color};
use crate::types::point::{decode_bracket_point, decode_paren_point, decode_plane, decode_vec3, spec_bracket_point, spec_paren_point, spec_plane, spec_vec3, Point3D, SpecPoint};
use crate::types::textureaxis::{decode_axis, spec_axis, SpecAxis, TextureAxis};
use vstd::string::StringSliceAdditionalSpecFns;

verus! {

pub open spec fn kv_u32(e: SpecEntry, k: Seq<u8>) -> Option<u32> {
    if e is KV && e->KV_0 == k {
        parse_u32_text(e->KV_1)
    } else {
        None
    }
}

pub open spec fn kv_u16(e: SpecEntry, k: Seq<u8>) -> Option<u16> {
    if e is KV && e->KV_0 == k {
        parse_u16_text(e->KV_1)
    } else {
        None
    }
}

pub open spec fn kv_i32(e: SpecEntry, k: Seq<u8>) -> Option<i32> {
    if e is KV && e->KV_0 == k {
        parse_i32_text(e->KV_1)
    } else {
        None
    }
}

pub open spec fn kv_bool(e: SpecEntry, k: Seq<u8>) -> Option<bool> {
    if e is KV && e->KV_0 == k {
        parse_bool_text(e->KV_1)
    } else {
        None
    }
}

/// The raw value text under key `k`.
pub open spec fn kv_text(e: SpecEntry, k: Seq<u8>) -> Option<Seq<u8>> {
    if e is KV && e->KV_0 == k {
        Some(e->KV_1)
    } else {
        None
    }
}

/// The trimmed value under key `k`, which must read as one numeric literal.
pub open spec fn kv_number(e: SpecEntry, k: Seq<u8>) -> Option<Seq<u8>> {
    if e is KV && e->KV_0 == k {
        let t = trim(e->KV_1);
        if is_number_body(t) {
            Some(t)
        } else {
            None
        }
    } else {
        None
    }
}

pub open spec fn kv_color(e: SpecEntry, k: Seq<u8>) -> Option<Color> {
    if e is KV && e->KV_0 == k {
        spec_color(e->KV_1)
    } else {
        None
    }
}

pub open spec fn kv_vec3(e: SpecEntry, k: Seq<u8>) -> Option<SpecPoint> {
    if e is KV && e->KV_0 == k {
        spec_vec3(e->KV_1)
    } else {
        None
    }
}

pub open spec fn kv_paren_point(e: SpecEntry, k: Seq<u8>) -> Option<SpecPoint> {
    if e is KV && e->KV_0 == k {
        spec_paren_point(e->KV_1)
    } else {
        None
    }
}

pub open spec fn kv_bracket_point(e: SpecEntry, k: Seq<u8>) -> Option<SpecPoint> {
    if e is KV && e->KV_0 == k {
        spec_bracket_point(e->KV_1)
    } else {
        None
    }
}

pub open spec fn kv_plane(e: SpecEntry, k: Seq<u8>) -> Option<(SpecPoint, SpecPoint, SpecPoint)> {
    if e is KV && e->KV_0 == k {
        spec_plane(e->KV_1)
    } else {
        None
    }
}

pub open spec fn kv_axis(e: SpecEntry, k: Seq<u8>) -> Option<SpecAxis> {
    if e is KV && e->KV_0 == k {
        spec_axis(e->KV_1)
    } else {
        None
    }
}

pub fn entry_u32(e: &Entry, key: &str) -> (r: Option<u32>)
    ensures
        r == kv_u32(e.deep_view(), key.spec_bytes()),
{
    match e {
        Entry::KV(k, v) => if bytes_eq(k.as_slice(), key.as_bytes()) {
            parse_u32_bytes(v.as_slice())
        } else {
            None
        },
        Entry::Sub(_) => None,
    }
}

pub fn entry_u16(e: &Entry, key: &str) -> (r: Option<u16>)
    ensures
        r == kv_u16(e.deep_view(), key.spec_bytes()),
{
    match e {
        Entry::KV(k, v) => if bytes_eq(k.as_slice(), key.as_bytes()) {
            parse_u16_bytes(v.as_slice())
        } else {
            None
        },
        Entry::Sub(_) => None,
    }
}

pub fn entry_i32(e: &Entry, key: &str) -> (r: Option<i32>)
    ensures
        r == kv_i32(e.deep_view(), key.spec_bytes()),
{
    match e {
        Entry::KV(k, v) => if bytes_eq(k.as_slice(), key.as_bytes()) {
            parse_i32_bytes(v.as_slice())
        } else {
            None
        },
        Entry::Sub(_) => None,
    }
}

pub fn entry_bool(e: &Entry, key: &str) -> (r: Option<bool>)
    ensures
        r == kv_bool(e.deep_view(), key.spec_bytes()),
{
    match e {
        Entry::KV(k, v) => if bytes_eq(k.as_slice(), key.as_bytes()) {
            parse_bool_bytes(v.as_slice())
        } else {
            None
        },
        Entry::Sub(_) => None,
    }
}

pub fn entry_text(e: &Entry, key: &str) -> (r: Option<Vec<u8>>)
    ensures
        match r {
            Some(v) => kv_text(e.deep_view(), key.spec_bytes()) == Some(v@),
            None => kv_text(e.deep_view(), key.spec_bytes()) is None,
        },
{
    match e {
        Entry::KV(k, v) => if bytes_eq(k.as_slice(), key.as_bytes()) {
            Some(copy_bytes(v))
        } else {
            None
        },
        Entry::Sub(_) => None,
    }
}

pub fn entry_number(e: &Entry, key: &str) -> (r: Option<Vec<u8>>)
    ensures
        match r {
            Some(v) => kv_number(e.deep_view(), key.spec_bytes()) == Some(v@),
            None => kv_number(e.deep_view(), key.spec_bytes()) is None,
        },
{
    match e {
        Entry::KV(k, v) => if bytes_eq(k.as_slice(), key.as_bytes()) {
            let t = trim_bytes(v.as_slice());
            if is_number_body_bytes(t.as_slice()) {
                Some(t)
            } else {
                None
            }
        } else {
            None
        },
        Entry::Sub(_) => None,
    }
}

pub fn entry_color(e: &Entry, key: &str) -> (r: Option<Color>)
    ensures
        r == kv_color(e.deep_view(), key.spec_bytes()),
{
    match e {
        Entry::KV(k, v) => if bytes_eq(k.as_slice(), key.as_bytes()) {
            decode_color(v.as_slice())
        } else {
            None
        },
        Entry::Sub(_) => None,
    }
}

pub fn entry_vec3(e: &Entry, key: &str) -> (r: Option<Point3D>)
    ensures
        match r {
            Some(p) => kv_vec3(e.deep_view(), key.spec_bytes()) == Some(p.deep_view()),
            None => kv_vec3(e.deep_view(), key.spec_bytes()) is None,
        },
{
    match e {
        Entry::KV(k, v) => if bytes_eq(k.as_slice(), key.as_bytes()) {
            decode_vec3(v.as_slice())
        } else {
            None
        },
        Entry::Sub(_) => None,
    }
}

pub fn entry_paren_point(e: &Entry, key: &str) -> (r: Option<Point3D>)
    ensures
        match r {
            Some(p) => kv_paren_point(e.deep_view(), key.spec_bytes()) == Some(p.deep_view()),
            None => kv_paren_point(e.deep_view(), key.spec_bytes()) is None,
        },
{
    match e {
        Entry::KV(k, v) => if bytes_eq(k.as_slice(), key.as_bytes()) {
            decode_paren_point(v.as_slice())
        } else {
            None
        },
        Entry::Sub(_) => None,
    }
}

pub fn entry_bracket_point(e: &Entry, key: &str) -> (r: Option<Point3D>)
    ensures
        match r {
            Some(p) => kv_bracket_point(e.deep_view(), key.spec_bytes()) == Some(p.deep_view()),
            None => kv_bracket_point(e.deep_view(), key.spec_bytes()) is None,
        },
{
    match e {
        Entry::KV(k, v) => if bytes_eq(k.as_slice(), key.as_bytes()) {
            decode_bracket_point(v.as_slice())
        } else {
            None
        },
        Entry::Sub(_) => None,
    }
}

pub fn entry_plane(e: &Entry, key: &str) -> (r: Option<(Point3D, Point3D, Point3D)>)
    ensures
        match r {
            Some(ps) => kv_plane(e.deep_view(), key.spec_bytes()) == Some(ps.deep_view()),
            None => kv_plane(e.deep_view(), key.spec_bytes()) is None,
        },
{
    match e {
        Entry::KV(k, v) => if bytes_eq(k.as_slice(), key.as_bytes()) {
            decode_plane(v.as_slice())
        } else {
            None
        },
        Entry::Sub(_) => None,
    }
}

pub fn entry_axis(e: &Entry, key: &str) -> (r: Option<TextureAxis>)
    ensures
        match r {
            Some(a) => kv_axis(e.deep_view(), key.spec_bytes()) == Some(a.deep_view()),
            None => kv_axis(e.deep_view(), key.spec_bytes()) is None,
        },
{
    match e {
        Entry::KV(k, v) => if bytes_eq(k.as_slice(), key.as_bytes()) {
            decode_axis(v.as_slice())
        } else {
            None
        },
        Entry::Sub(_) => None,
    }
}

} // verus!
