//! The generic block structure of the format:
//!
//! ```text
//! <block>  ::=  WORD '{' <entry>* '}'
//! <entry>  ::=  <block>  |  STRING STRING
//! ```
//!
//! Every recognized block kind is parsed in two steps: this module turns
//! tokens into the generic tree, and the block's own module folds that tree
//! into its typed record. The balanced-brace skipper that tolerates unknown
//! blocks also lives here: it accepts any word followed by braced content in
//! which every nested `{` is itself opened by a word.
use vstd::prelude::*;
use crate::bytes::copy_bytes;
use crate::error::{ParseError, ParseErrorKind};
use crate::lexer::{Tok, Token};

verus! {

/// One entry of a block body: a quoted key/value pair, or a nested block.
#[derive(Debug, PartialEq, Eq)]
pub enum Entry {
    KV(Vec<u8>, Vec<u8>),
    Sub(Block),
}

/// A parsed generic block: its name and its body entries in order.
#[derive(Debug, PartialEq, Eq)]
pub struct Block {
    pub name: Vec<u8>,
    pub entries: Vec<Entry>,
}

/// The mathematical image of an `Entry`.
#[verifier::ext_equal]
pub enum SpecEntry {
    KV(Seq<u8>, Seq<u8>),
    Sub(SpecBlock),
}

/// The mathematical image of a `Block`.
#[verifier::ext_equal]
pub struct SpecBlock {
    pub name: Seq<u8>,
    pub entries: Seq<SpecEntry>,
}

impl DeepView for Entry {
    type V = SpecEntry;

    open spec fn deep_view(&self) -> SpecEntry
        decreases self,
    {
        match self {
            Entry::KV(k, v) => SpecEntry::KV(k@, v@),
            Entry::Sub(b) => SpecEntry::Sub(
                SpecBlock {
                    name: b.name@,
                    entries: Seq::new(
                        b.entries@.len(),
                        |i: int|
                            if 0 <= i < b.entries@.len() {
                                b.entries@[i].deep_view()
                            } else {
                                SpecEntry::KV(Seq::empty(), Seq::empty())
                            },
                    ),
                },
            ),
        }
    }
}

impl DeepView for Block {
    type V = SpecBlock;

    open spec fn deep_view(&self) -> SpecBlock {
        SpecBlock { name: self.name@, entries: self.entries.deep_view() }
    }
}

/// Parses one block starting at token `i`: a word, `{`, the body entries,
/// `}`. Returns the block and the index one past its closing brace.
pub open spec fn spec_block_at(toks: Seq<Tok>, i: int) -> Option<(SpecBlock, int)>
    decreases toks.len() - i, 0int,
{
    if 0 <= i && i + 1 < toks.len() && toks[i] is Text && toks[i + 1] is LBrace {
        match spec_entries_at(toks, i + 2) {
            None => None,
            Some((es, j)) => if j < toks.len() && toks[j] is RBrace {
                Some((SpecBlock { name: toks[i]->Text_0, entries: es }, j + 1))
            } else {
                None
            },
        }
    } else {
        None
    }
}

/// Parses body entries from token `i` up to, but not through, the first
/// unconsumed `}`.
pub open spec fn spec_entries_at(toks: Seq<Tok>, i: int) -> Option<(Seq<SpecEntry>, int)>
    decreases toks.len() - i, 1int,
{
    if !(0 <= i < toks.len()) {
        Some((Seq::empty(), i))
    } else if toks[i] is RBrace {
        Some((Seq::empty(), i))
    } else if toks[i] is Str {
        if i + 1 < toks.len() && toks[i + 1] is Str {
            match spec_entries_at(toks, i + 2) {
                None => None,
                Some((es, j)) => Some(
                    (seq![SpecEntry::KV(toks[i]->Str_0, toks[i + 1]->Str_0)] + es, j),
                ),
            }
        } else {
            None
        }
    } else if toks[i] is Text {
        match spec_block_at(toks, i) {
            None => None,
            Some((b, j)) => if i < j <= toks.len() {
                match spec_entries_at(toks, j) {
                    None => None,
                    Some((es, j2)) => Some((seq![SpecEntry::Sub(b)] + es, j2)),
                }
            } else {
                None
            },
        }
    } else {
        None
    }
}

/// A `Sub` entry's image is the image of its block.
pub proof fn lemma_entry_sub_deep_view(e: Entry)
    requires
        e is Sub,
    ensures
        e.deep_view() == SpecEntry::Sub((e->Sub_0).deep_view()),
{
    assert(e.deep_view()->Sub_0.entries =~~= (e->Sub_0).deep_view().entries);
    assert(e.deep_view() =~~= SpecEntry::Sub((e->Sub_0).deep_view()));
}

/// A `KV` entry's image is the pair of its texts.
pub proof fn lemma_entry_kv_deep_view(e: Entry)
    requires
        e is KV,
    ensures
        e.deep_view() == SpecEntry::KV((e->KV_0)@, (e->KV_1)@),
{
}

/// A parsed block ends strictly after it began and within the input.
pub proof fn lemma_block_at_advances(toks: Seq<Tok>, i: int)
    requires
        0 <= i <= toks.len(),
    ensures
        match spec_block_at(toks, i) {
            Some((b, j)) => i + 3 <= j <= toks.len(),
            None => true,
        },
    decreases toks.len() - i, 0int,
{
    if spec_block_at(toks, i) is Some {
        lemma_entries_at_advances(toks, i + 2);
    }
}

/// Entry parsing never moves backwards nor past the input.
pub proof fn lemma_entries_at_advances(toks: Seq<Tok>, i: int)
    requires
        0 <= i <= toks.len(),
    ensures
        match spec_entries_at(toks, i) {
            Some((es, j)) => i <= j <= toks.len(),
            None => true,
        },
    decreases toks.len() - i, 1int,
{
    if 0 <= i < toks.len() {
        if toks[i] is Str {
            if i + 1 < toks.len() && toks[i + 1] is Str {
                lemma_entries_at_advances(toks, i + 2);
            }
        } else if toks[i] is Text {
            lemma_block_at_advances(toks, i);
            match spec_block_at(toks, i) {
                Some((b, j)) => {
                    if i < j <= toks.len() {
                        lemma_entries_at_advances(toks, j);
                    }
                },
                None => {},
            }
        }
    }
}

/// Parses one generic block starting at token `i`.
pub fn parse_block(toks: &Vec<Token>, i: usize) -> (r: Result<(Block, usize), ParseError>)
    requires
        i <= toks@.len(),
    ensures
        match r {
            Ok((b, j)) => spec_block_at(toks.deep_view(), i as int) == Some(
                (b.deep_view(), j as int),
            ) && i < j <= toks@.len(),
            Err(_) => spec_block_at(toks.deep_view(), i as int) is None,
        },
    decreases toks@.len() - i, 0int,
{
    let ghost tv = toks.deep_view();
    assert(tv.len() == toks@.len());
    let n = toks.len();
    if n - i >= 2 {
        let opens = match &toks[i] {
            Token::Text(_) => matches!(&toks[i + 1], Token::LBrace),
            _ => false,
        };
        if !opens {
            return Err(ParseError { at: i, kind: ParseErrorKind::ExpectedBlock });
        }
        let name = match &toks[i] {
            Token::Text(n) => copy_bytes(n),
            _ => {
                return Err(ParseError { at: i, kind: ParseErrorKind::ExpectedBlock });
            },
        };
        assert(name@ == tv[i as int]->Text_0);
        let (es, j) = match parse_entries(toks, i + 2) {
            Ok(p) => p,
            Err(e) => {
                return Err(e);
            },
        };
        if j < toks.len() && matches!(&toks[j], Token::RBrace) {
            let b = Block { name, entries: es };
            assert(b.deep_view().entries =~~= spec_entries_at(tv, i + 2)->Some_0.0);
            assert(spec_block_at(tv, i as int) == Some((b.deep_view(), j + 1)));
            Ok((b, j + 1))
        } else {
            Err(ParseError { at: j, kind: ParseErrorKind::UnclosedBlock })
        }
    } else {
        Err(ParseError { at: i, kind: ParseErrorKind::ExpectedBlock })
    }
}

/// Parses body entries from token `i` until the first unconsumed `}`.
pub fn parse_entries(toks: &Vec<Token>, i: usize) -> (r: Result<(Vec<Entry>, usize), ParseError>)
    requires
        i <= toks@.len(),
    ensures
        match r {
            Ok((es, j)) => spec_entries_at(toks.deep_view(), i as int) == Some(
                (es.deep_view(), j as int),
            ) && i <= j <= toks@.len(),
            Err(_) => spec_entries_at(toks.deep_view(), i as int) is None,
        },
    decreases toks@.len() - i, 1int,
{
    let ghost tv = toks.deep_view();
    assert(tv.len() == toks@.len());
    let mut es: Vec<Entry> = Vec::new();
    let mut j: usize = i;
    proof {
        assert(forall|rest: Seq<SpecEntry>| es.deep_view() + rest =~~= rest);
    }
    loop
        invariant
            i <= j <= toks@.len(),
            tv == toks.deep_view(),
            tv.len() == toks@.len(),
            spec_entries_at(tv, i as int) == match spec_entries_at(tv, j as int) {
                None => None::<(Seq<SpecEntry>, int)>,
                Some((rest, k)) => Some((es.deep_view() + rest, k)),
            },
        decreases toks@.len() - j,
    {
        if j >= toks.len() {
            proof {
                assert(spec_entries_at(tv, j as int) == Some((Seq::<SpecEntry>::empty(), j as int)));
                assert(es.deep_view() + Seq::<SpecEntry>::empty() =~~= es.deep_view());
            }
            return Ok((es, j));
        }
        match &toks[j] {
            Token::RBrace => {
                proof {
                    assert(spec_entries_at(tv, j as int) == Some(
                        (Seq::<SpecEntry>::empty(), j as int),
                    ));
                    assert(es.deep_view() + Seq::<SpecEntry>::empty() =~~= es.deep_view());
                }
                return Ok((es, j));
            },
            Token::Str(k) => {
                if j + 1 < toks.len() {
                    let vok = matches!(&toks[j + 1], Token::Str(_));
                    if vok {
                        let v = match &toks[j + 1] {
                            Token::Str(v) => copy_bytes(v),
                            _ => {
                                return Err(
                                    ParseError { at: j, kind: ParseErrorKind::MalformedEntry },
                                );
                            },
                        };
                        let e = Entry::KV(copy_bytes(k), v);
                        assert(e.deep_view() == SpecEntry::KV(
                            tv[j as int]->Str_0,
                            tv[j + 1]->Str_0,
                        ));
                        let ghost pre = es.deep_view();
                        es.push(e);
                        proof {
                            assert(es.deep_view() =~~= pre + seq![e.deep_view()]);
                            assert forall|rest: Seq<SpecEntry>| #[trigger]
                                (pre + (seq![e.deep_view()] + rest)) =~~= es.deep_view()
                                    + rest by {}
                        }
                        j = j + 2;
                    } else {
                        return Err(ParseError { at: j, kind: ParseErrorKind::MalformedEntry });
                    }
                } else {
                    return Err(ParseError { at: j, kind: ParseErrorKind::MalformedEntry });
                }
            },
            Token::Text(_) => {
                match parse_block(toks, j) {
                    Ok((b, j2)) => {
                        let ghost bv = b.deep_view();
                        let e = Entry::Sub(b);
                        proof {
                            assert(spec_block_at(tv, j as int)->Some_0.0 == bv);
                            assert(e.deep_view()->Sub_0.name == bv.name);
                            assert(e.deep_view()->Sub_0.entries =~~= bv.entries);
                            assert(e.deep_view() =~~= SpecEntry::Sub(bv));
                        }
                        let ghost pre = es.deep_view();
                        es.push(e);
                        proof {
                            assert(es.deep_view() =~~= pre + seq![e.deep_view()]);
                            assert forall|rest: Seq<SpecEntry>| #[trigger]
                                (pre + (seq![e.deep_view()] + rest)) =~~= es.deep_view()
                                    + rest by {}
                        }
                        j = j2;
                    },
                    Err(e) => {
                        return Err(e);
                    },
                }
            },
            _ => {
                return Err(ParseError { at: j, kind: ParseErrorKind::MalformedEntry });
            },
        }
    }
}

/// Parses a token sequence that must hold exactly one block and nothing
/// after it.
pub open spec fn spec_block_exact(toks: Seq<Tok>) -> Option<SpecBlock> {
    match spec_block_at(toks, 0) {
        Some((b, j)) => if j == toks.len() {
            Some(b)
        } else {
            None
        },
        None => None,
    }
}

/// Parses the whole token sequence as one block; trailing tokens are an
/// error.
pub fn parse_block_exact(toks: &Vec<Token>) -> (r: Result<Block, ParseError>)
    ensures
        match r {
            Ok(b) => spec_block_exact(toks.deep_view()) == Some(b.deep_view()),
            Err(_) => spec_block_exact(toks.deep_view()) is None,
        },
{
    assert(toks.deep_view().len() == toks@.len());
    match parse_block(toks, 0) {
        Ok((b, j)) => if j == toks.len() {
            Ok(b)
        } else {
            Err(ParseError { at: j, kind: ParseErrorKind::TrailingInput })
        },
        Err(e) => Err(e),
    }
}

/// Consumes an unrecognized block: a word, `{`, then tokens to the matching
/// `}`, where nesting is tracked through word-opened blocks. Returns the
/// index one past the closing brace.
pub open spec fn spec_skip_at(toks: Seq<Tok>, i: int) -> Option<int>
    decreases toks.len() - i, 0int,
{
    if 0 <= i && i + 1 < toks.len() && toks[i] is Text && toks[i + 1] is LBrace {
        spec_skip_items(toks, i + 2)
    } else {
        None
    }
}

/// Consumes skipped content up to and through the closing `}`.
pub open spec fn spec_skip_items(toks: Seq<Tok>, i: int) -> Option<int>
    decreases toks.len() - i, 1int,
{
    if !(0 <= i < toks.len()) {
        None
    } else if toks[i] is RBrace {
        Some(i + 1)
    } else if toks[i] is Text && i + 1 < toks.len() && toks[i + 1] is LBrace {
        match spec_skip_at(toks, i) {
            None => None,
            Some(j) => if i < j <= toks.len() {
                spec_skip_items(toks, j)
            } else {
                None
            },
        }
    } else if toks[i] is LBrace {
        None
    } else {
        spec_skip_items(toks, i + 1)
    }
}

/// Whatever skipping consumes lies strictly within the input.
pub proof fn lemma_skip_at_advances(toks: Seq<Tok>, i: int)
    requires
        0 <= i <= toks.len(),
    ensures
        match spec_skip_at(toks, i) {
            Some(j) => i + 3 <= j <= toks.len(),
            None => true,
        },
    decreases toks.len() - i, 0int,
{
    if spec_skip_at(toks, i) is Some {
        lemma_skip_items_advances(toks, i + 2);
    }
}

pub proof fn lemma_skip_items_advances(toks: Seq<Tok>, i: int)
    requires
        0 <= i <= toks.len(),
    ensures
        match spec_skip_items(toks, i) {
            Some(j) => i < j <= toks.len(),
            None => true,
        },
    decreases toks.len() - i, 1int,
{
    if 0 <= i < toks.len() && spec_skip_items(toks, i) is Some {
        if toks[i] is RBrace {
        } else if toks[i] is Text && i + 1 < toks.len() && toks[i + 1] is LBrace {
            lemma_skip_at_advances(toks, i);
            match spec_skip_at(toks, i) {
                Some(j) => {
                    if i < j <= toks.len() {
                        lemma_skip_items_advances(toks, j);
                    }
                },
                None => {},
            }
        } else if !(toks[i] is LBrace) {
            lemma_skip_items_advances(toks, i + 1);
        }
    }
}

/// Skips one unrecognized block starting at token `i`.
pub fn skip_unknown_block(toks: &Vec<Token>, i: usize) -> (r: Result<usize, ParseError>)
    requires
        i <= toks@.len(),
    ensures
        match r {
            Ok(j) => spec_skip_at(toks.deep_view(), i as int) == Some(j as int) && i < j
                <= toks@.len(),
            Err(_) => spec_skip_at(toks.deep_view(), i as int) is None,
        },
    decreases toks@.len() - i, 0int,
{
    let ghost tv = toks.deep_view();
    assert(tv.len() == toks@.len());
    let n = toks.len();
    if n - i >= 2 {
        let opens = match &toks[i] {
            Token::Text(_) => matches!(&toks[i + 1], Token::LBrace),
            _ => false,
        };
        if !opens {
            return Err(ParseError { at: i, kind: ParseErrorKind::ExpectedBlock });
        }
        match skip_items(toks, i + 2) {
            Ok(j) => Ok(j),
            Err(e) => Err(e),
        }
    } else {
        Err(ParseError { at: i, kind: ParseErrorKind::ExpectedBlock })
    }
}

/// Skips tokens until the matching `}` of a block being skipped.
fn skip_items(toks: &Vec<Token>, i: usize) -> (r: Result<usize, ParseError>)
    requires
        i <= toks@.len(),
    ensures
        match r {
            Ok(j) => spec_skip_items(toks.deep_view(), i as int) == Some(j as int) && i < j
                <= toks@.len(),
            Err(_) => spec_skip_items(toks.deep_view(), i as int) is None,
        },
    decreases toks@.len() - i, 1int,
{
    let ghost tv = toks.deep_view();
    assert(tv.len() == toks@.len());
    let mut j: usize = i;
    loop
        invariant
            i <= j <= toks@.len(),
            tv == toks.deep_view(),
            tv.len() == toks@.len(),
            spec_skip_items(tv, i as int) == spec_skip_items(tv, j as int),
        decreases toks@.len() - j,
    {
        if j >= toks.len() {
            return Err(ParseError { at: j, kind: ParseErrorKind::UnclosedBlock });
        }
        match &toks[j] {
            Token::RBrace => {
                return Ok(j + 1);
            },
            Token::LBrace => {
                return Err(ParseError { at: j, kind: ParseErrorKind::MalformedEntry });
            },
            Token::Text(_) => {
                if j + 1 < toks.len() && matches!(&toks[j + 1], Token::LBrace) {
                    match skip_items(toks, j + 2) {
                        Ok(j2) => {
                            proof {
                                assert(spec_skip_at(tv, j as int) == Some(j2 as int));
                            }
                            j = j2;
                        },
                        Err(e) => {
                            return Err(e);
                        },
                    }
                } else {
                    j = j + 1;
                }
            },
            _ => {
                j = j + 1;
            },
        }
    }
}

} // verus!
