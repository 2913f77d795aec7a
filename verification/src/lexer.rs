//! The tokenizer. It turns the raw byte buffer into a flat token sequence:
//! quoted strings (delivered as one token holding the bytes between the
//! quotes, verbatim), bare numeric literals, bare words, and the six
//! bracket, brace and parenthesis symbols. Whitespace separates tokens and
//! is discarded. The only way tokenization fails is a quote that is never
//! closed.
use vstd::prelude::*;
use crate::bytes::{find_byte, find_byte_at, is_ws, is_ws_byte, subrange_to_vec};
use crate::error::{ParseError, ParseErrorKind};
use crate::num::{is_number_body, is_number_body_bytes};

verus! {

/// One token of the input.
#[derive(Debug, Clone, PartialEq, Eq)]
pub enum Token {
    /// A quoted string: the bytes between its two quote characters.
    Str(Vec<u8>),
    /// A bare run shaped like a numeric literal.
    Number(Vec<u8>),
    /// Any other bare run: block names and stray words.
    Text(Vec<u8>),
    LParen,
    RParen,
    LBracket,
    RBracket,
    LBrace,
    RBrace,
}

/// The mathematical image of a `Token`.
pub enum Tok {
    Str(Seq<u8>),
    Number(Seq<u8>),
    Text(Seq<u8>),
    LParen,
    RParen,
    LBracket,
    RBracket,
    LBrace,
    RBrace,
}

impl DeepView for Token {
    type V = Tok;

    open spec fn deep_view(&self) -> Tok {
        match self {
            Token::Str(v) => Tok::Str(v@),
            Token::Number(v) => Tok::Number(v@),
            Token::Text(v) => Tok::Text(v@),
            Token::LParen => Tok::LParen,
            Token::RParen => Tok::RParen,
            Token::LBracket => Tok::LBracket,
            Token::RBracket => Tok::RBracket,
            Token::LBrace => Tok::LBrace,
            Token::RBrace => Tok::RBrace,
        }
    }
}

/// The bytes that delimit tokens besides whitespace: the quote character and
/// the six bracket, brace and parenthesis symbols.
pub open spec fn is_delim(b: u8) -> bool {
    b == 34 || b == 40 || b == 41 || b == 91 || b == 93 || b == 123 || b == 125
}

pub fn is_delim_byte(b: u8) -> (r: bool)
    ensures
        r == is_delim(b),
{
    b == 34 || b == 40 || b == 41 || b == 91 || b == 93 || b == 123 || b == 125
}

/// A byte that may stand inside a bare word.
pub open spec fn is_word_byte(b: u8) -> bool {
    !is_ws(b) && !is_delim(b)
}

/// Length of the longest word prefix of `s`.
pub open spec fn word_run(s: Seq<u8>) -> int
    decreases s.len(),
{
    if s.len() > 0 && is_word_byte(s[0]) {
        1 + word_run(s.drop_first())
    } else {
        0
    }
}

pub proof fn lemma_word_run_bounds(s: Seq<u8>)
    ensures
        0 <= word_run(s) <= s.len(),
    decreases s.len(),
{
    if s.len() > 0 && is_word_byte(s[0]) {
        lemma_word_run_bounds(s.drop_first());
    }
}

/// The single bracket, brace or parenthesis token for byte `b`.
pub open spec fn punct_tok(b: u8) -> Tok {
    if b == 40 {
        Tok::LParen
    } else if b == 41 {
        Tok::RParen
    } else if b == 91 {
        Tok::LBracket
    } else if b == 93 {
        Tok::RBracket
    } else if b == 123 {
        Tok::LBrace
    } else {
        Tok::RBrace
    }
}

/// A bare run is a numeric literal when its whole text has the numeric
/// shape, and plain text otherwise.
pub open spec fn classify_word(w: Seq<u8>) -> Tok {
    if is_number_body(w) {
        Tok::Number(w)
    } else {
        Tok::Text(w)
    }
}

/// The token sequence of `s`, or `None` when a quote is never closed.
pub open spec fn spec_tokenize(s: Seq<u8>) -> Option<Seq<Tok>>
    decreases s.len(),
    via spec_tokenize_decreases
{
    if s.len() == 0 {
        Some(Seq::empty())
    } else if is_ws(s[0]) {
        spec_tokenize(s.drop_first())
    } else if s[0] == 34 {
        match find_byte(s.drop_first(), 34) {
            None => None,
            Some(k) => match spec_tokenize(s.skip(k + 2)) {
                None => None,
                Some(rest) => Some(seq![Tok::Str(s.subrange(1, k + 1))] + rest),
            },
        }
    } else if is_delim(s[0]) {
        match spec_tokenize(s.drop_first()) {
            None => None,
            Some(rest) => Some(seq![punct_tok(s[0])] + rest),
        }
    } else {
        let k = 1 + word_run(s.drop_first());
        match spec_tokenize(s.skip(k)) {
            None => None,
            Some(rest) => Some(seq![classify_word(s.take(k))] + rest),
        }
    }
}

#[via_fn]
proof fn spec_tokenize_decreases(s: Seq<u8>) {
    if s.len() > 0 && !is_ws(s[0]) {
        if s[0] == 34 {
            crate::bytes::lemma_find_byte(s.drop_first(), 34);
        } else if !is_delim(s[0]) {
            lemma_word_run_bounds(s.drop_first());
        }
    }
}

/// Counts the leading word bytes of `s` starting at `from`.
fn word_run_at(s: &[u8], from: usize) -> (r: usize)
    requires
        from <= s@.len(),
    ensures
        r == word_run(s@.skip(from as int)),
        from + r <= s@.len(),
{
    let mut i: usize = from;
    while i < s.len() && !is_ws_byte(s[i]) && !is_delim_byte(s[i])
        invariant
            from <= i <= s@.len(),
            word_run(s@.skip(from as int)) == (i - from) + word_run(s@.skip(i as int)),
        decreases s@.len() - i,
    {
        assert(s@.skip(i as int).drop_first() =~= s@.skip(i + 1));
        i += 1;
    }
    assert(word_run(s@.skip(i as int)) == 0);
    i - from
}

/// Tokenizes a byte buffer. Fails only on a quote that is never closed,
/// reporting the byte offset of the opening quote.
pub fn tokenize(input: &[u8]) -> (r: Result<Vec<Token>, ParseError>)
    ensures
        match r {
            Ok(ts) => spec_tokenize(input@) == Some(ts.deep_view()),
            Err(e) => spec_tokenize(input@) is None && e.kind == ParseErrorKind::UnterminatedString,
        },
{
    let n = input.len();
    let mut toks: Vec<Token> = Vec::new();
    let mut i: usize = 0;
    proof {
        assert(input@.skip(0) =~= input@);
        assert(forall|rest: Seq<Tok>| toks.deep_view() + rest =~~= rest);
    }
    while i < n
        invariant
            0 <= i <= n == input@.len(),
            spec_tokenize(input@) == match spec_tokenize(input@.skip(i as int)) {
                None => None::<Seq<Tok>>,
                Some(rest) => Some(toks.deep_view() + rest),
            },
        decreases n - i,
    {
        let ghost suf = input@.skip(i as int);
        let b = input[i];
        if is_ws_byte(b) {
            assert(suf.drop_first() =~= input@.skip(i + 1));
            i += 1;
        } else if b == 34 {
            assert(suf.drop_first() =~= input@.skip(i + 1));
            match find_byte_at(input, i + 1, 34) {
                None => {
                    return Err(ParseError { at: i, kind: ParseErrorKind::UnterminatedString });
                },
                Some(q) => {
                    proof {
                        assert(find_byte(suf.drop_first(), 34) == Some(q - (i + 1)));
                        assert(suf.subrange(1, (q - (i + 1)) + 1) =~= input@.subrange(
                            i + 1,
                            q as int,
                        ));
                        assert(suf.skip((q - (i + 1)) + 2) =~= input@.skip(q + 1));
                    }
                    let payload = subrange_to_vec(input, i + 1, q);
                    let t = Token::Str(payload);
                    let ghost pre = toks.deep_view();
                    toks.push(t);
                    proof {
                        assert(toks.deep_view() =~~= pre + seq![t.deep_view()]);
                        assert forall|rest: Seq<Tok>| #[trigger]
                            (pre + (seq![t.deep_view()] + rest)) =~~= toks.deep_view() + rest by {}
                    }
                    i = q + 1;
                },
            }
        } else if is_delim_byte(b) {
            assert(suf.drop_first() =~= input@.skip(i + 1));
            let t = if b == 40 {
                Token::LParen
            } else if b == 41 {
                Token::RParen
            } else if b == 91 {
                Token::LBracket
            } else if b == 93 {
                Token::RBracket
            } else if b == 123 {
                Token::LBrace
            } else {
                Token::RBrace
            };
            assert(t.deep_view() == punct_tok(b));
            let ghost pre = toks.deep_view();
            toks.push(t);
            proof {
                assert(toks.deep_view() =~~= pre + seq![t.deep_view()]);
                assert forall|rest: Seq<Tok>| #[trigger]
                    (pre + (seq![t.deep_view()] + rest)) =~~= toks.deep_view() + rest by {}
            }
            i += 1;
        } else {
            assert(suf.drop_first() =~= input@.skip(i + 1));
            let k = word_run_at(input, i + 1);
            let j = i + 1 + k;
            proof {
                assert(suf.take(1 + k) =~= input@.subrange(i as int, j as int));
                assert(suf.skip(1 + k) =~= input@.skip(j as int));
            }
            let w = subrange_to_vec(input, i, j);
            let t = if is_number_body_bytes(w.as_slice()) {
                Token::Number(w)
            } else {
                Token::Text(w)
            };
            assert(t.deep_view() == classify_word(suf.take(1 + k)));
            let ghost pre = toks.deep_view();
            toks.push(t);
            proof {
                assert(toks.deep_view() =~~= pre + seq![t.deep_view()]);
                assert forall|rest: Seq<Tok>| #[trigger]
                    (pre + (seq![t.deep_view()] + rest)) =~~= toks.deep_view() + rest by {}
            }
            i = j;
        }
    }
    proof {
        assert(input@.skip(i as int) =~= Seq::<u8>::empty());
        assert(spec_tokenize(input@.skip(i as int)) == Some(Seq::<Tok>::empty()));
        assert(toks.deep_view() + Seq::<Tok>::empty() =~~= toks.deep_view());
    }
    Ok(toks)
}

} // verus!
