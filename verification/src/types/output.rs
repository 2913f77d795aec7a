//! Entity output connections, decoded from one comma-delimited value of
//! exactly five fields: `target,input,parameter,delay,times_to_fire`.
//! Every field is trimmed; the delay is kept as its numeric-literal text and
//! the fire count is a signed integer, `-1` meaning unlimited.
use vstd::prelude::*;
use crate::bytes::{split_byte, split_byte_bytes, trim, trim_bytes};
use crate::error::{ParseError, ParseErrorKind};
use crate::num::{is_number_body, is_number_body_bytes, parse_i32_text, parse_i32_bytes};

verus! {

/// One output connection of an entity.
#[derive(Debug, Clone, PartialEq, Eq)]
pub struct EntityOutput {
    pub output_name: Vec<u8>,
    pub target: Vec<u8>,
    pub input: Vec<u8>,
    pub parameter: Vec<u8>,
    pub delay: Vec<u8>,
    pub times_to_fire: i32,
}

/// The mathematical image of an `EntityOutput`.
#[verifier::ext_equal]
pub struct SpecEntityOutput {
    pub output_name: Seq<u8>,
    pub target: Seq<u8>,
    pub input: Seq<u8>,
    pub parameter: Seq<u8>,
    pub delay: Seq<u8>,
    pub times_to_fire: i32,
}

impl DeepView for EntityOutput {
    type V = SpecEntityOutput;

    open spec fn deep_view(&self) -> SpecEntityOutput {
        SpecEntityOutput {
            output_name: self.output_name@,
            target: self.target@,
            input: self.input@,
            parameter: self.parameter@,
            delay: self.delay@,
            times_to_fire: self.times_to_fire,
        }
    }
}

/// Decodes one output value: exactly five comma-separated fields, each
/// trimmed; the fourth is a numeric literal, the fifth a signed integer.
pub open spec fn spec_output(name: Seq<u8>, value: Seq<u8>) -> Option<SpecEntityOutput> {
    let fs = split_byte(value, 44);
    if fs.len() == 5 {
        let delay = trim(fs[3]);
        if is_number_body(delay) {
            match parse_i32_text(fs[4]) {
                Some(n) => Some(
                    SpecEntityOutput {
                        output_name: name,
                        target: trim(fs[0]),
                        input: trim(fs[1]),
                        parameter: trim(fs[2]),
                        delay: delay,
                        times_to_fire: n,
                    },
                ),
                None => None,
            }
        } else {
            None
        }
    } else {
        None
    }
}

impl EntityOutput {
    /// Decodes the comma-delimited output record of the key/value pair whose
    /// key is the output name.
    pub fn parse_output_string(output_name: &[u8], value: &[u8]) -> (r: Result<
        EntityOutput,
        ParseError,
    >)
        ensures
            match r {
                Ok(o) => spec_output(output_name@, value@) == Some(o.deep_view()),
                Err(_) => spec_output(output_name@, value@) is None,
            },
    {
        let mut fs = split_byte_bytes(value, 44);
        let ghost fsv = split_byte(value@, 44);
        if fs.len() != 5 {
            return Err(ParseError { at: 0, kind: ParseErrorKind::BadValue });
        }
        assert(fs@[0]@ == fsv[0] && fs@[1]@ == fsv[1] && fs@[2]@ == fsv[2] && fs@[3]@ == fsv[3]
            && fs@[4]@ == fsv[4]);
        let delay = trim_bytes(fs[3].as_slice());
        if !is_number_body_bytes(delay.as_slice()) {
            return Err(ParseError { at: 0, kind: ParseErrorKind::BadValue });
        }
        let times = match parse_i32_bytes(fs[4].as_slice()) {
            Some(n) => n,
            None => {
                return Err(ParseError { at: 0, kind: ParseErrorKind::BadValue });
            },
        };
        let target = trim_bytes(fs[0].as_slice());
        let input = trim_bytes(fs[1].as_slice());
        let parameter = trim_bytes(fs[2].as_slice());
        let o = EntityOutput {
            output_name: crate::bytes::subrange_to_vec(output_name, 0, output_name.len()),
            target,
            input,
            parameter,
            delay,
            times_to_fire: times,
        };
        proof {
            assert(o.output_name@ =~= output_name@);
            assert(spec_output(output_name@, value@) == Some(o.deep_view()));
        }
        Ok(o)
    }
}

} // verus!
