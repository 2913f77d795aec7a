//! Byte-level utilities shared by the tokenizer and the value decoders:
//! whitespace trimming, whitespace splitting, separator splitting, and
//! byte-sequence comparison.
use vstd::prelude::*;

verus! {

/// The format's whitespace bytes: space, tab, form feed, carriage return, newline.
pub open spec fn is_ws(b: u8) -> bool {
    b == 32 || b == 9 || b == 12 || b == 13 || b == 10
}

pub fn is_ws_byte(b: u8) -> (r: bool)
    ensures
        r == is_ws(b),
{
    b == 32 || b == 9 || b == 12 || b == 13 || b == 10
}

/// `s` with leading whitespace removed.
pub open spec fn trim_start(s: Seq<u8>) -> Seq<u8>
    decreases s.len(),
{
    if s.len() > 0 && is_ws(s[0]) {
        trim_start(s.drop_first())
    } else {
        s
    }
}

/// `s` with trailing whitespace removed.
pub open spec fn trim_end(s: Seq<u8>) -> Seq<u8>
    decreases s.len(),
{
    if s.len() > 0 && is_ws(s[s.len() - 1]) {
        trim_end(s.drop_last())
    } else {
        s
    }
}

/// `s` with surrounding whitespace removed.
pub open spec fn trim(s: Seq<u8>) -> Seq<u8> {
    trim_end(trim_start(s))
}

pub fn trim_bytes(s: &[u8]) -> (r: Vec<u8>)
    ensures
        r@ == trim(s@),
{
    let mut lo: usize = 0;
    assert(s@.skip(0) =~= s@);
    while lo < s.len() && is_ws_byte(s[lo])
        invariant
            0 <= lo <= s@.len(),
            trim_start(s@) == trim_start(s@.skip(lo as int)),
        decreases s@.len() - lo,
    {
        assert(s@.skip(lo as int).drop_first() =~= s@.skip(lo + 1));
        lo += 1;
    }
    assert(trim_start(s@) == s@.skip(lo as int));
    let mut hi: usize = s.len();
    while hi > lo && is_ws_byte(s[hi - 1])
        invariant
            lo <= hi <= s@.len(),
            trim_start(s@) == s@.skip(lo as int),
            trim(s@) == trim_end(s@.subrange(lo as int, hi as int)),
        decreases hi,
    {
        assert(s@.subrange(lo as int, hi as int).drop_last() =~= s@.subrange(
            lo as int,
            hi - 1,
        ));
        hi -= 1;
    }
    assert(trim(s@) == s@.subrange(lo as int, hi as int));
    subrange_to_vec(s, lo, hi)
}

/// Copies `s[lo..hi]` into a fresh vector.
pub fn subrange_to_vec(s: &[u8], lo: usize, hi: usize) -> (r: Vec<u8>)
    requires
        lo <= hi <= s@.len(),
    ensures
        r@ == s@.subrange(lo as int, hi as int),
{
    let mut r: Vec<u8> = Vec::new();
    let mut i: usize = lo;
    while i < hi
        invariant
            lo <= i <= hi <= s@.len(),
            r@ =~= s@.subrange(lo as int, i as int),
        decreases hi - i,
    {
        r.push(s[i]);
        assert(r@ =~= s@.subrange(lo as int, i + 1));
        i += 1;
    }
    assert(r@ =~= s@.subrange(lo as int, hi as int));
    r
}

/// Copies a byte vector.
pub fn copy_bytes(v: &Vec<u8>) -> (r: Vec<u8>)
    ensures
        r@ == v@,
{
    let r = subrange_to_vec(v.as_slice(), 0, v.len());
    assert(r@ =~= v@);
    r
}

pub fn bytes_eq(a: &[u8], b: &[u8]) -> (r: bool)
    ensures
        r == (a@ == b@),
{
    if a.len() != b.len() {
        assert(a@.len() != b@.len());
        return false;
    }
    let mut i: usize = 0;
    while i < a.len()
        invariant
            0 <= i <= a@.len(),
            a@.len() == b@.len(),
            forall|j: int| 0 <= j < i ==> a@[j] == b@[j],
        decreases a@.len() - i,
    {
        if a[i] != b[i] {
            return false;
        }
        i += 1;
    }
    assert(a@ =~= b@);
    true
}

/// Length of the longest whitespace-free prefix of `s`.
pub open spec fn nonws_run(s: Seq<u8>) -> int
    decreases s.len(),
{
    if s.len() > 0 && !is_ws(s[0]) {
        1 + nonws_run(s.drop_first())
    } else {
        0
    }
}

pub proof fn lemma_nonws_run_bounds(s: Seq<u8>)
    ensures
        0 <= nonws_run(s) <= s.len(),
        forall|j: int| 0 <= j < nonws_run(s) ==> !is_ws(s[j]),
        nonws_run(s) < s.len() ==> is_ws(s[nonws_run(s)]),
    decreases s.len(),
{
    if s.len() > 0 && !is_ws(s[0]) {
        lemma_nonws_run_bounds(s.drop_first());
        assert forall|j: int| 0 <= j < nonws_run(s) implies !is_ws(s[j]) by {
            if j > 0 {
                assert(s[j] == s.drop_first()[j - 1]);
            }
        }
    }
}

/// The maximal whitespace-separated fields of `s`, in order.
pub open spec fn split_ws(s: Seq<u8>) -> Seq<Seq<u8>>
    decreases s.len(),
    via split_ws_decreases
{
    if s.len() == 0 {
        Seq::empty()
    } else if is_ws(s[0]) {
        split_ws(s.drop_first())
    } else {
        let k = 1 + nonws_run(s.drop_first());
        seq![s.take(k)] + split_ws(s.skip(k))
    }
}

#[via_fn]
proof fn split_ws_decreases(s: Seq<u8>) {
    if s.len() > 0 && !is_ws(s[0]) {
        lemma_nonws_run_bounds(s.drop_first());
    }
}

pub fn split_ws_bytes(s: &[u8]) -> (r: Vec<Vec<u8>>)
    ensures
        r.deep_view() == split_ws(s@),
{
    let mut r: Vec<Vec<u8>> = Vec::new();
    let mut i: usize = 0;
    proof {
        assert(s@.skip(0) =~= s@);
        assert(r.deep_view() + split_ws(s@) =~~= split_ws(s@));
    }
    while i < s.len()
        invariant
            0 <= i <= s@.len(),
            split_ws(s@) == r.deep_view() + split_ws(s@.skip(i as int)),
        decreases s@.len() - i,
    {
        if is_ws_byte(s[i]) {
            assert(s@.skip(i as int).drop_first() =~= s@.skip(i + 1));
            i += 1;
        } else {
            let start: usize = i;
            let mut j: usize = i;
            while j < s.len() && !is_ws_byte(s[j])
                invariant
                    start <= j <= s@.len(),
                    nonws_run(s@.skip(start as int)) == (j - start) + nonws_run(s@.skip(j as int)),
                decreases s@.len() - j,
            {
                assert(s@.skip(j as int).drop_first() =~= s@.skip(j + 1));
                j += 1;
            }
            proof {
                lemma_nonws_run_bounds(s@.skip(j as int));
                assert(nonws_run(s@.skip(j as int)) == 0);
                assert(nonws_run(s@.skip(start as int)) == j - start);
                assert(s@.skip(start as int).take(j - start) =~= s@.subrange(
                    start as int,
                    j as int,
                ));
                assert(s@.skip(start as int).skip(j - start) =~= s@.skip(j as int));
            }
            let field = subrange_to_vec(s, start, j);
            let ghost pre = r.deep_view();
            r.push(field);
            proof {
                assert(r.deep_view() =~~= pre + seq![field@]);
                assert(split_ws(s@.skip(start as int)) =~~= seq![field@] + split_ws(
                    s@.skip(j as int),
                ));
                assert(split_ws(s@) =~~= r.deep_view() + split_ws(s@.skip(j as int)));
            }
            i = j;
        }
    }
    proof {
        assert(split_ws(s@.skip(i as int)) =~= Seq::<Seq<u8>>::empty());
        assert(r.deep_view() =~~= split_ws(s@));
    }
    r
}

/// Index of the first occurrence of `b` in `s`, if any.
pub open spec fn find_byte(s: Seq<u8>, b: u8) -> Option<int>
    decreases s.len(),
{
    if s.len() == 0 {
        None
    } else if s[0] == b {
        Some(0int)
    } else {
        match find_byte(s.drop_first(), b) {
            Some(k) => Some(k + 1),
            None => None,
        }
    }
}

pub proof fn lemma_find_byte(s: Seq<u8>, b: u8)
    ensures
        match find_byte(s, b) {
            Some(k) => 0 <= k < s.len() && s[k] == b && forall|j: int| 0 <= j < k ==> s[j] != b,
            None => forall|j: int| 0 <= j < s.len() ==> s[j] != b,
        },
    decreases s.len(),
{
    if s.len() > 0 && s[0] != b {
        lemma_find_byte(s.drop_first(), b);
        match find_byte(s.drop_first(), b) {
            Some(k) => {
                assert forall|j: int| 0 <= j < k + 1 implies s[j] != b by {
                    if j > 0 {
                        assert(s[j] == s.drop_first()[j - 1]);
                    }
                }
            },
            None => {
                assert forall|j: int| 0 <= j < s.len() implies s[j] != b by {
                    if j > 0 {
                        assert(s[j] == s.drop_first()[j - 1]);
                    }
                }
            },
        }
    }
}

pub fn find_byte_at(s: &[u8], from: usize, b: u8) -> (r: Option<usize>)
    requires
        from <= s@.len(),
    ensures
        match r {
            Some(k) => from <= k < s@.len() && find_byte(s@.skip(from as int), b) == Some(
                k - from,
            ),
            None => find_byte(s@.skip(from as int), b) is None,
        },
{
    let mut i: usize = from;
    while i < s.len()
        invariant
            from <= i <= s@.len(),
            find_byte(s@.skip(from as int), b) == match find_byte(s@.skip(i as int), b) {
                Some(k) => Some(k + i - from),
                None => None::<int>,
            },
        decreases s@.len() - i,
    {
        if s[i] == b {
            assert(find_byte(s@.skip(i as int), b) == Some(0int));
            return Some(i);
        }
        assert(s@.skip(i as int).drop_first() =~= s@.skip(i + 1));
        i += 1;
    }
    None
}

/// Splits `s` at every occurrence of `b`, keeping empty fields.
pub open spec fn split_byte(s: Seq<u8>, b: u8) -> Seq<Seq<u8>>
    decreases s.len(),
    via split_byte_decreases
{
    match find_byte(s, b) {
        None => seq![s],
        Some(k) => seq![s.take(k)] + split_byte(s.skip(k + 1), b),
    }
}

#[via_fn]
proof fn split_byte_decreases(s: Seq<u8>, b: u8) {
    lemma_find_byte(s, b);
}

pub fn split_byte_bytes(s: &[u8], b: u8) -> (r: Vec<Vec<u8>>)
    ensures
        r.deep_view() == split_byte(s@, b),
{
    let n = s.len();
    let mut r: Vec<Vec<u8>> = Vec::new();
    let mut i: usize = 0;
    proof {
        assert(s@.skip(0) =~= s@);
        assert(r.deep_view() + split_byte(s@, b) =~~= split_byte(s@, b));
    }
    loop
        invariant
            0 <= i <= s@.len(),
            n == s@.len(),
            split_byte(s@, b) == r.deep_view() + split_byte(s@.skip(i as int), b),
        decreases s@.len() - i,
    {
        match find_byte_at(s, i, b) {
            Some(k) => {
                proof {
                    lemma_find_byte(s@.skip(i as int), b);
                    assert(s@.skip(i as int).take(k - i) =~= s@.subrange(i as int, k as int));
                    assert(s@.skip(i as int).skip(k - i + 1) =~= s@.skip(k + 1));
                }
                let field = subrange_to_vec(s, i, k);
                let ghost pre = r.deep_view();
                r.push(field);
                proof {
                    assert(r.deep_view() =~~= pre + seq![field@]);
                    assert(split_byte(s@.skip(i as int), b) =~~= seq![field@] + split_byte(
                        s@.skip(k + 1),
                        b,
                    ));
                    assert(split_byte(s@, b) =~~= r.deep_view() + split_byte(s@.skip(k + 1), b));
                }
                i = k + 1;
            },
            None => {
                let field = subrange_to_vec(s, i, s.len());
                assert(field@ =~= s@.skip(i as int));
                let ghost pre = r.deep_view();
                r.push(field);
                proof {
                    assert(r.deep_view() =~~= pre + seq![field@]);
                    assert(split_byte(s@.skip(i as int), b) =~~= seq![field@]);
                    assert(split_byte(s@, b) =~~= r.deep_view());
                }
                return r;
            },
        }
    }
}

} // verus!
