//! RGB colors: a quoted value of exactly three whitespace-separated 8-bit
//! components, as in `"color" "10 100 250"`.
use vstd::prelude::*;
use crate::bytes::{split_ws, split_ws_bytes};
use crate::error::{ParseError, ParseErrorKind};
use crate::lexer::{Tok, Token};
use crate::num::{parse_u8_bytes, parse_u8_text};
use vstd::string::StringSliceAdditionalSpecFns;

verus! {

/// An RGB color with three 8-bit components.
#[derive(Debug, Clone, Copy, PartialEq, Eq)]
pub struct Color {
    pub r: u8,
    pub g: u8,
    pub b: u8,
}

impl DeepView for Color {
    type V = Color;

    open spec fn deep_view(&self) -> Color {
        *self
    }
}

/// Decodes a color value: exactly three components, each an 8-bit integer.
pub open spec fn spec_color(s: Seq<u8>) -> Option<Color> {
    let ps = split_ws(s);
    if ps.len() == 3 {
        match (parse_u8_text(ps[0]), parse_u8_text(ps[1]), parse_u8_text(ps[2])) {
            (Some(r), Some(g), Some(b)) => Some(Color { r, g, b }),
            _ => None,
        }
    } else {
        None
    }
}

pub fn decode_color(s: &[u8]) -> (r: Option<Color>)
    ensures
        r == spec_color(s@),
{
    let ps = split_ws_bytes(s);
    let ghost psv = split_ws(s@);
    if ps.len() != 3 {
        return None;
    }
    assert(ps@[0]@ == psv[0] && ps@[1]@ == psv[1] && ps@[2]@ == psv[2]);
    let r = parse_u8_bytes(ps[0].as_slice());
    let g = parse_u8_bytes(ps[1].as_slice());
    let b = parse_u8_bytes(ps[2].as_slice());
    match (r, g, b) {
        (Some(r), Some(g), Some(b)) => Some(Color { r, g, b }),
        _ => None,
    }
}

/// The whole token sequence `"color" "r g b"`, and nothing more.
pub open spec fn spec_parse_color(toks: Seq<Tok>) -> Option<Color> {
    if toks.len() == 2 && toks[0] is Str && toks[0]->Str_0 == "color".spec_bytes() && toks[1] is Str {
        spec_color(toks[1]->Str_0)
    } else {
        None
    }
}

impl Color {
    /// Parses the key/value pair `"color" "r g b"` from a complete token
    /// sequence.
    pub fn parse(toks: &Vec<Token>) -> (r: Result<Color, ParseError>)
        ensures
            match r {
                Ok(c) => spec_parse_color(toks.deep_view()) == Some(c),
                Err(_) => spec_parse_color(toks.deep_view()) is None,
            },
    {
        let ghost tv = toks.deep_view();
        assert(tv.len() == toks@.len());
        if toks.len() != 2 {
            return Err(ParseError { at: 0, kind: ParseErrorKind::MalformedEntry });
        }
        let key_ok = match &toks[0] {
            Token::Str(k) => crate::bytes::bytes_eq(k.as_slice(), "color".as_bytes()),
            _ => false,
        };
        if !key_ok {
            return Err(ParseError { at: 0, kind: ParseErrorKind::UnknownKey });
        }
        match &toks[1] {
            Token::Str(v) => match decode_color(v.as_slice()) {
                Some(c) => Ok(c),
                None => Err(ParseError { at: 1, kind: ParseErrorKind::BadValue }),
            },
            _ => Err(ParseError { at: 1, kind: ParseErrorKind::MalformedEntry }),
        }
    }
}

} // verus!
