//! Small byte-sequence helpers that the scanner, the type mapper and the
//! emitter share. Every executable function is specified against a spec-level
//! twin over `Seq<u8>`.

use vstd::prelude::*;
use vstd::string::StrSliceExecFns;

verus! {

/// The bytes of an ASCII string literal, byte for byte.
pub open spec fn spec_lit(s: &str) -> Seq<u8> {
    Seq::new(s@.len(), |i: int| s@[i] as u8)
}

/// Turns an ASCII literal into an owned byte vector.
pub fn lit(s: &str) -> (r: Vec<u8>)
    requires
        s.is_ascii(),
    ensures
        r@ == spec_lit(s),
{
    let r = s.as_bytes_vec();
    proof {
        broadcast use vstd::string::is_ascii_spec_bytes;

        assert(r@ =~= spec_lit(s));
    }
    r
}

/// The whitespace bytes that declaration text may carry around tokens.
pub open spec fn is_ws(b: u8) -> bool {
    b == 32 || b == 9 || b == 13 || b == 10
}

pub open spec fn starts_with_spec(s: Seq<u8>, p: Seq<u8>) -> bool {
    p.len() <= s.len() && s.subrange(0, p.len() as int) == p
}

pub open spec fn ends_with_spec(s: Seq<u8>, p: Seq<u8>) -> bool {
    p.len() <= s.len() && s.subrange(s.len() - p.len(), s.len() as int) == p
}

pub fn starts_with(s: &[u8], p: &[u8]) -> (r: bool)
    ensures
        r == starts_with_spec(s@, p@),
{
    if p.len() > s.len() {
        return false;
    }
    let mut i: usize = 0;
    while i < p.len()
        invariant
            i <= p@.len() <= s@.len(),
            forall|j: int| 0 <= j < i ==> s@[j] == p@[j],
        decreases p@.len() - i,
    {
        if s[i] != p[i] {
            proof {
                assert(s@.subrange(0, p@.len() as int)[i as int] != p@[i as int]);
            }
            return false;
        }
        i = i + 1;
    }
    proof {
        assert(s@.subrange(0, p@.len() as int) =~= p@);
    }
    true
}

pub fn ends_with(s: &[u8], p: &[u8]) -> (r: bool)
    ensures
        r == ends_with_spec(s@, p@),
{
    if p.len() > s.len() {
        return false;
    }
    let n = s.len();
    let off = n - p.len();
    let mut i: usize = 0;
    while i < p.len()
        invariant
            i <= p@.len() <= s@.len(),
            n == s@.len(),
            off == s@.len() - p@.len(),
            forall|j: int| 0 <= j < i ==> s@[off + j] == p@[j],
        decreases p@.len() - i,
    {
        if s[off + i] != p[i] {
            proof {
                assert(s@.subrange(s@.len() - p@.len(), s@.len() as int)[i as int] != p@[
                    i as int
                ]);
            }
            return false;
        }
        i = i + 1;
    }
    proof {
        assert(s@.subrange(s@.len() - p@.len(), s@.len() as int) =~= p@);
    }
    true
}

/// Copies `s[a..b]` into a fresh vector.
pub fn subvec(s: &[u8], a: usize, b: usize) -> (r: Vec<u8>)
    requires
        a <= b <= s@.len(),
    ensures
        r@ == s@.subrange(a as int, b as int),
{
    let mut r: Vec<u8> = Vec::new();
    let mut i: usize = a;
    while i < b
        invariant
            a <= i <= b <= s@.len(),
            r@ =~= s@.subrange(a as int, i as int),
        decreases b - i,
    {
        r.push(s[i]);
        proof {
            assert(r@ =~= s@.subrange(a as int, i + 1));
        }
        i = i + 1;
    }
    proof {
        assert(r@ =~= s@.subrange(a as int, b as int));
    }
    r
}

/// Appends all of `b` to `a`.
pub fn append_bytes(a: &mut Vec<u8>, b: &[u8])
    ensures
        final(a)@ == old(a)@ + b@,
{
    let mut i: usize = 0;
    while i < b.len()
        invariant
            i <= b@.len(),
            a@ =~= old(a)@ + b@.subrange(0, i as int),
        decreases b@.len() - i,
    {
        a.push(b[i]);
        proof {
            assert(old(a)@ + b@.subrange(0, i + 1) =~= (old(a)@ + b@.subrange(0, i as int)).push(
                b@[i as int],
            ));
        }
        i = i + 1;
    }
    proof {
        assert(b@.subrange(0, b@.len() as int) =~= b@);
    }
}

pub fn eq_bytes(a: &[u8], b: &[u8]) -> (r: bool)
    ensures
        r == (a@ == b@),
{
    if a.len() != b.len() {
        proof {
            assert(a@ !~= b@);
        }
        return false;
    }
    let mut i: usize = 0;
    while i < a.len()
        invariant
            i <= a@.len() == b@.len(),
            forall|j: int| 0 <= j < i ==> a@[j] == b@[j],
        decreases a@.len() - i,
    {
        if a[i] != b[i] {
            proof {
                assert(a@ !~= b@);
            }
            return false;
        }
        i = i + 1;
    }
    proof {
        assert(a@ =~= b@);
    }
    true
}

/// Whether `p` occurs in `s` starting at position `i`.
pub open spec fn match_at(s: Seq<u8>, p: Seq<u8>, i: int) -> bool {
    0 <= i && i + p.len() <= s.len() && s.subrange(i, i + p.len()) == p
}

pub open spec fn contains_spec(s: Seq<u8>, p: Seq<u8>) -> bool {
    exists|i: int| match_at(s, p, i)
}

fn check_match(s: &[u8], p: &[u8], i: usize) -> (r: bool)
    requires
        i + p@.len() <= s@.len(),
    ensures
        r == match_at(s@, p@, i as int),
{
    let n = s.len();
    let mut k: usize = 0;
    while k < p.len()
        invariant
            k <= p@.len(),
            n == s@.len(),
            i + p@.len() <= s@.len(),
            forall|j: int| 0 <= j < k ==> s@[i + j] == p@[j],
        decreases p@.len() - k,
    {
        if s[i + k] != p[k] {
            proof {
                assert(s@.subrange(i as int, i + p@.len())[k as int] != p@[k as int]);
            }
            return false;
        }
        k = k + 1;
    }
    proof {
        assert(s@.subrange(i as int, i + p@.len()) =~= p@);
    }
    true
}

/// First occurrence of `p` in `s`, if any.
pub fn find_sub(s: &[u8], p: &[u8]) -> (r: Option<usize>)
    ensures
        match r {
            Some(i) => match_at(s@, p@, i as int) && forall|j: int|
                0 <= j < i ==> !match_at(s@, p@, j),
            None => !contains_spec(s@, p@),
        },
{
    if p.len() > s.len() {
        proof {
            assert(forall|j: int| !match_at(s@, p@, j));
        }
        return None;
    }
    let last = s.len() - p.len();
    let mut i: usize = 0;
    loop
        invariant
            i <= last,
            last == s@.len() - p@.len(),
            p@.len() <= s@.len(),
            forall|j: int| 0 <= j < i ==> !match_at(s@, p@, j),
        decreases last - i,
    {
        if check_match(s, p, i) {
            return Some(i);
        }
        if i == last {
            proof {
                assert forall|j: int| !match_at(s@, p@, j) by {
                    if 0 <= j < i {
                    }
                }
            }
            return None;
        }
        i = i + 1;
    }
}

pub fn contains_sub(s: &[u8], p: &[u8]) -> (r: bool)
    ensures
        r == contains_spec(s@, p@),
{
    match find_sub(s, p) {
        Some(_) => true,
        None => false,
    }
}

/// First index at or after `i` holding byte `b`; the length when there is
/// none.
pub open spec fn first_byte_from(s: Seq<u8>, b: u8, i: int) -> int
    decreases s.len() - i,
    when 0 <= i <= s.len()
{
    if i >= s.len() {
        s.len() as int
    } else if s[i] == b {
        i
    } else {
        first_byte_from(s, b, i + 1)
    }
}

pub fn find_byte_from(s: &[u8], b: u8, from: usize) -> (r: usize)
    requires
        from <= s@.len(),
    ensures
        r as int == first_byte_from(s@, b, from as int),
        from <= r <= s@.len(),
        r < s@.len() ==> s@[r as int] == b,
{
    let mut i: usize = from;
    while i < s.len()
        invariant
            from <= i <= s@.len(),
            first_byte_from(s@, b, from as int) == first_byte_from(s@, b, i as int),
        decreases s@.len() - i,
    {
        if s[i] == b {
            return i;
        }
        i = i + 1;
    }
    i
}

/// First index at or after `i` where `p` occurs; the length when it never
/// does.
pub open spec fn first_match_from(s: Seq<u8>, p: Seq<u8>, i: int) -> int
    decreases s.len() - i,
    when 0 <= i <= s.len()
{
    if i >= s.len() || i + p.len() > s.len() {
        s.len() as int
    } else if s.subrange(i, i + p.len()) == p {
        i
    } else {
        first_match_from(s, p, i + 1)
    }
}

pub fn find_match_from(s: &[u8], p: &[u8], from: usize) -> (r: usize)
    requires
        from <= s@.len(),
    ensures
        r as int == first_match_from(s@, p@, from as int),
        from <= r <= s@.len(),
{
    if p.len() == 0 {
        proof {
            assert(s@.subrange(from as int, from as int) =~= p@);
        }
        return from;
    }
    if p.len() > s.len() - from {
        return s.len();
    }
    let last = s.len() - p.len();
    let mut i: usize = from;
    loop
        invariant
            from <= i <= last,
            last == s@.len() - p@.len(),
            1 <= p@.len() <= s@.len(),
            first_match_from(s@, p@, from as int) == first_match_from(s@, p@, i as int),
        decreases last - i,
    {
        if check_match(s, p, i) {
            return i;
        }
        if i == last {
            proof {
                assert(first_match_from(s@, p@, i as int) == first_match_from(s@, p@, i + 1));
            }
            return s.len();
        }
        proof {
            assert(first_match_from(s@, p@, i as int) == first_match_from(s@, p@, i + 1));
        }
        i = i + 1;
    }
}

/// A found match lies within the text and matches.
pub proof fn lemma_first_match_hit(s: Seq<u8>, p: Seq<u8>, i: int)
    requires
        0 <= i <= s.len(),
        first_match_from(s, p, i) < s.len(),
    ensures
        first_match_from(s, p, i) + p.len() <= s.len(),
        s.subrange(first_match_from(s, p, i), first_match_from(s, p, i) + p.len()) == p,
        i <= first_match_from(s, p, i),
    decreases s.len() - i,
{
    if !(i >= s.len() || i + p.len() > s.len()) && s.subrange(i, i + p.len()) != p {
        lemma_first_match_hit(s, p, i + 1);
    }
}

/// Last index holding byte `b`; `-1` when there is none.
pub open spec fn rfind_last(s: Seq<u8>, b: u8) -> int
    decreases s.len(),
{
    if s.len() == 0 {
        -1
    } else if s.last() == b {
        s.len() - 1
    } else {
        rfind_last(s.drop_last(), b)
    }
}

pub fn rfind_byte(s: &[u8], b: u8) -> (r: Option<usize>)
    ensures
        match r {
            Some(i) => i as int == rfind_last(s@, b) && i < s@.len(),
            None => rfind_last(s@, b) == -1,
        },
{
    proof {
        assert(s@.subrange(0, s@.len() as int) =~= s@);
    }
    let mut i: usize = s.len();
    while i > 0
        invariant
            i <= s@.len(),
            rfind_last(s@, b) == rfind_last(s@.subrange(0, i as int), b),
        decreases i,
    {
        proof {
            assert(s@.subrange(0, i as int).drop_last() =~= s@.subrange(0, i - 1));
        }
        if s[i - 1] == b {
            return Some(i - 1);
        }
        i = i - 1;
    }
    None
}

/// How many times `b` occurs in `s`.
pub open spec fn count_byte(s: Seq<u8>, b: u8) -> int
    decreases s.len(),
{
    if s.len() == 0 {
        0
    } else {
        count_byte(s.drop_last(), b) + if s.last() == b {
            1int
        } else {
            0int
        }
    }
}

proof fn lemma_count_byte_bound(s: Seq<u8>, b: u8)
    ensures
        0 <= count_byte(s, b) <= s.len(),
    decreases s.len(),
{
    if s.len() > 0 {
        lemma_count_byte_bound(s.drop_last(), b);
    }
}

pub fn count_byte_occurrences(s: &[u8], b: u8) -> (r: usize)
    ensures
        r as int == count_byte(s@, b),
{
    let mut cnt: usize = 0;
    let mut i: usize = 0;
    proof {
        assert(s@.subrange(0, 0) =~= Seq::<u8>::empty());
    }
    while i < s.len()
        invariant
            i <= s@.len(),
            cnt as int == count_byte(s@.subrange(0, i as int), b),
            cnt <= i,
        decreases s@.len() - i,
    {
        proof {
            assert(s@.subrange(0, i + 1).drop_last() =~= s@.subrange(0, i as int));
            lemma_count_byte_bound(s@.subrange(0, i as int), b);
        }
        if s[i] == b {
            cnt = cnt + 1;
        }
        i = i + 1;
    }
    proof {
        assert(s@.subrange(0, i as int) =~= s@);
    }
    cnt
}

/// Leading whitespace dropped.
pub open spec fn trim_front(s: Seq<u8>) -> Seq<u8>
    decreases s.len(),
{
    if s.len() == 0 {
        s
    } else if is_ws(s[0]) {
        trim_front(s.skip(1))
    } else {
        s
    }
}

/// Trailing whitespace dropped.
pub open spec fn trim_back(s: Seq<u8>) -> Seq<u8>
    decreases s.len(),
{
    if s.len() == 0 {
        s
    } else if is_ws(s.last()) {
        trim_back(s.drop_last())
    } else {
        s
    }
}

/// Whitespace dropped from both ends.
pub open spec fn trim_spec(s: Seq<u8>) -> Seq<u8> {
    trim_front(trim_back(s))
}

pub fn trim(s: &[u8]) -> (r: Vec<u8>)
    ensures
        r@ == trim_spec(s@),
{
    let mut j: usize = s.len();
    proof {
        assert(s@.subrange(0, s@.len() as int) =~= s@);
    }
    while j > 0 && is_ws_byte(s[j - 1])
        invariant
            j <= s@.len(),
            trim_back(s@) == trim_back(s@.subrange(0, j as int)),
        decreases j,
    {
        proof {
            assert(s@.subrange(0, j as int).drop_last() =~= s@.subrange(0, j - 1));
        }
        j = j - 1;
    }
    let mut i: usize = 0;
    proof {
        assert(s@.subrange(0, j as int).skip(0) =~= s@.subrange(0, j as int));
    }
    while i < j && is_ws_byte(s[i])
        invariant
            i <= j <= s@.len(),
            trim_back(s@) == trim_back(s@.subrange(0, j as int)),
            trim_front(s@.subrange(0, j as int)) == trim_front(
                s@.subrange(0, j as int).skip(i as int),
            ),
        decreases j - i,
    {
        proof {
            assert(s@.subrange(0, j as int).skip(i as int).skip(1) =~= s@.subrange(
                0,
                j as int,
            ).skip(i + 1));
        }
        i = i + 1;
    }
    proof {
        let tb = s@.subrange(0, j as int);
        assert(trim_back(s@) == tb);
        assert(trim_front(tb) == tb.skip(i as int));
        assert(tb.skip(i as int) =~= s@.subrange(i as int, j as int));
    }
    subvec(s, i, j)
}

fn is_ws_byte(b: u8) -> (r: bool)
    ensures
        r == is_ws(b),
{
    b == 32 || b == 9 || b == 13 || b == 10
}

/// Every whitespace byte removed.
pub open spec fn strip_ws(s: Seq<u8>) -> Seq<u8>
    decreases s.len(),
{
    if s.len() == 0 {
        s
    } else if is_ws(s[0]) {
        strip_ws(s.skip(1))
    } else {
        seq![s[0]] + strip_ws(s.skip(1))
    }
}

pub fn strip_spaces(s: &[u8]) -> (r: Vec<u8>)
    ensures
        r@ == strip_ws(s@),
{
    let mut out: Vec<u8> = Vec::new();
    let mut i: usize = 0;
    proof {
        assert(s@.skip(0) =~= s@);
    }
    while i < s.len()
        invariant
            i <= s@.len(),
            strip_ws(s@) == out@ + strip_ws(s@.skip(i as int)),
        decreases s@.len() - i,
    {
        proof {
            assert(s@.skip(i as int).skip(1) =~= s@.skip(i + 1));
        }
        if !is_ws_byte(s[i]) {
            out.push(s[i]);
        }
        i = i + 1;
    }
    proof {
        assert(s@.skip(i as int) =~= Seq::<u8>::empty());
        assert(out@ + strip_ws(s@.skip(i as int)) =~= out@);
    }
    out
}

/// Every trailing `b` dropped.
pub open spec fn strip_trailing(s: Seq<u8>, b: u8) -> Seq<u8>
    decreases s.len(),
{
    if s.len() > 0 && s.last() == b {
        strip_trailing(s.drop_last(), b)
    } else {
        s
    }
}

pub fn strip_trailing_byte(v: Vec<u8>, b: u8) -> (r: Vec<u8>)
    ensures
        r@ == strip_trailing(v@, b),
{
    let ghost orig = v@;
    let mut v = v;
    while v.len() > 0 && v[v.len() - 1] == b
        invariant
            strip_trailing(v@, b) == strip_trailing(orig, b),
        decreases v@.len(),
    {
        let ghost before = v@;
        v.pop();
        proof {
            assert(v@ =~= before.drop_last());
        }
    }
    v
}

/// The text split at line breaks; the break bytes are dropped. One more break
/// at the end contributes one empty line.
pub open spec fn split_lines(s: Seq<u8>) -> Seq<Seq<u8>>
    decreases s.len(),
{
    if s.len() == 0 {
        seq![Seq::<u8>::empty()]
    } else if s[0] == '\n' as u8 {
        seq![Seq::<u8>::empty()] + split_lines(s.skip(1))
    } else {
        let r = split_lines(s.skip(1));
        seq![seq![s[0]] + r[0]] + r.skip(1)
    }
}

pub proof fn lemma_split_lines_len(s: Seq<u8>)
    ensures
        split_lines(s).len() >= 1,
    decreases s.len(),
{
    if s.len() > 0 {
        lemma_split_lines_len(s.skip(1));
    }
}

/// How one more byte extends the line split: a break opens a new empty line,
/// any other byte lands at the end of the last line.
pub proof fn lemma_split_lines_push(s: Seq<u8>, c: u8)
    ensures
        split_lines(s.push(c)) == if c == '\n' as u8 {
            split_lines(s).push(Seq::<u8>::empty())
        } else {
            split_lines(s).update(
                split_lines(s).len() - 1,
                split_lines(s).last().push(c),
            )
        },
    decreases s.len(),
{
    lemma_split_lines_len(s);
    let nl = '\n' as u8;
    if s.len() == 0 {
        assert(s.push(c) =~= seq![c]);
        assert(seq![c].skip(1) =~= Seq::<u8>::empty());
        assert(split_lines(Seq::<u8>::empty()) =~~= seq![Seq::<u8>::empty()]);
        assert(split_lines(s.push(c)) == (if c == nl {
            seq![Seq::<u8>::empty()] + split_lines(seq![c].skip(1))
        } else {
            seq![seq![c] + split_lines(seq![c].skip(1))[0]] + split_lines(seq![c].skip(1)).skip(1)
        }));
        if c == nl {
            assert(split_lines(s.push(c)) =~~= split_lines(s).push(Seq::<u8>::empty()));
        } else {
            assert(seq![c] + split_lines(Seq::<u8>::empty())[0] =~= seq![c]);
            assert(split_lines(s.push(c)) =~~= split_lines(s).update(
                0,
                split_lines(s).last().push(c),
            ));
        }
    } else {
        let t = s.skip(1);
        assert(s.push(c).skip(1) =~= t.push(c));
        assert(s.push(c)[0] == s[0]);
        lemma_split_lines_push(t, c);
        lemma_split_lines_len(t);
        let r = split_lines(t);
        if s[0] == nl {
            if c == nl {
                assert(split_lines(s.push(c)) =~~= split_lines(s).push(Seq::<u8>::empty()));
            } else {
                assert(seq![Seq::<u8>::empty()] + r.update(r.len() - 1, r.last().push(c))
                    =~~= (seq![Seq::<u8>::empty()] + r).update(r.len() as int, r.last().push(c)));
                assert(split_lines(s).last() == r.last());
                assert(split_lines(s.push(c)) =~~= split_lines(s).update(
                    split_lines(s).len() - 1,
                    split_lines(s).last().push(c),
                ));
            }
        } else {
            if c == nl {
                let rp = r.push(Seq::<u8>::empty());
                assert(rp[0] == r[0]);
                assert(rp.skip(1) =~~= r.skip(1).push(Seq::<u8>::empty()));
                assert(split_lines(s.push(c)) =~~= (seq![seq![s[0]] + r[0]] + r.skip(1)).push(
                    Seq::<u8>::empty(),
                ));
            } else {
                let rp = r.update(r.len() - 1, r.last().push(c));
                if r.len() == 1 {
                    assert(rp[0] == r[0].push(c));
                    assert(rp.skip(1) =~~= Seq::<Seq<u8>>::empty());
                    assert(r.skip(1) =~~= Seq::<Seq<u8>>::empty());
                    assert(seq![s[0]] + r[0].push(c) =~= (seq![s[0]] + r[0]).push(c));
                    assert(split_lines(s) =~~= seq![seq![s[0]] + r[0]]);
                    assert(split_lines(s.push(c)) =~~= split_lines(s).update(
                        0,
                        split_lines(s).last().push(c),
                    ));
                } else {
                    assert(rp[0] == r[0]);
                    assert(rp.skip(1) =~~= r.skip(1).update(r.len() - 2, r.last().push(c)));
                    assert(split_lines(s).last() == r.last());
                    assert(split_lines(s.push(c)) =~~= split_lines(s).update(
                        split_lines(s).len() - 1,
                        split_lines(s).last().push(c),
                    ));
                }
            }
        }
    }
}

/// Splits text into its lines.
pub fn split_to_lines(s: &[u8]) -> (r: Vec<Vec<u8>>)
    ensures
        r@.map_values(|l: Vec<u8>| l@) == split_lines(s@),
{
    let mut done: Vec<Vec<u8>> = Vec::new();
    let mut cur: Vec<u8> = Vec::new();
    let mut i: usize = 0;
    proof {
        assert(s@.subrange(0, 0) =~= Seq::<u8>::empty());
        assert(done@.map_values(|l: Vec<u8>| l@).push(cur@) =~~= split_lines(s@.subrange(0, 0)));
    }
    while i < s.len()
        invariant
            i <= s@.len(),
            done@.map_values(|l: Vec<u8>| l@).push(cur@) =~~= split_lines(s@.subrange(0, i as int)),
        decreases s@.len() - i,
    {
        let b = s[i];
        proof {
            assert(s@.subrange(0, i + 1) =~= s@.subrange(0, i as int).push(b));
            lemma_split_lines_push(s@.subrange(0, i as int), b);
            lemma_split_lines_len(s@.subrange(0, i as int));
        }
        if b == '\n' as u8 {
            let ghost gd = done@.map_values(|l: Vec<u8>| l@);
            done.push(cur);
            cur = Vec::new();
            proof {
                assert(done@.map_values(|l: Vec<u8>| l@) =~~= gd.push(
                    split_lines(s@.subrange(0, i as int)).last(),
                ));
                assert(done@.map_values(|l: Vec<u8>| l@).push(cur@) =~~= split_lines(
                    s@.subrange(0, i + 1),
                ));
            }
        } else {
            cur.push(b);
            proof {
                let gl = split_lines(s@.subrange(0, i as int));
                assert(done@.map_values(|l: Vec<u8>| l@).push(cur@) =~~= gl.update(
                    gl.len() - 1,
                    gl.last().push(b),
                ));
            }
        }
        i = i + 1;
    }
    proof {
        assert(s@.subrange(0, i as int) =~= s@);
    }
    let mut done = done;
    done.push(cur);
    proof {
        assert(done@.map_values(|l: Vec<u8>| l@) =~~= split_lines(s@));
    }
    done
}

/// Lexicographic order on byte strings, byte values compared numerically; a
/// proper prefix comes first.
pub open spec fn lex_le(a: Seq<u8>, b: Seq<u8>) -> bool
    decreases a.len(),
{
    if a.len() == 0 {
        true
    } else if b.len() == 0 {
        false
    } else if a[0] < b[0] {
        true
    } else if a[0] > b[0] {
        false
    } else {
        lex_le(a.skip(1), b.skip(1))
    }
}

pub fn lex_le_bytes(a: &[u8], b: &[u8]) -> (r: bool)
    ensures
        r == lex_le(a@, b@),
{
    let mut i: usize = 0;
    proof {
        assert(a@.skip(0) =~= a@);
        assert(b@.skip(0) =~= b@);
    }
    while i < a.len() && i < b.len()
        invariant
            i <= a@.len(),
            i <= b@.len(),
            lex_le(a@, b@) == lex_le(a@.skip(i as int), b@.skip(i as int)),
        decreases a@.len() - i,
    {
        proof {
            assert(a@.skip(i as int).skip(1) =~= a@.skip(i + 1));
            assert(b@.skip(i as int).skip(1) =~= b@.skip(i + 1));
        }
        if a[i] < b[i] {
            return true;
        }
        if a[i] > b[i] {
            return false;
        }
        i = i + 1;
    }
    a.len() <= b.len()
}

/// The order is total.
pub proof fn lemma_lex_total(a: Seq<u8>, b: Seq<u8>)
    ensures
        lex_le(a, b) || lex_le(b, a),
    decreases a.len(),
{
    if a.len() > 0 && b.len() > 0 && a[0] == b[0] {
        lemma_lex_total(a.skip(1), b.skip(1));
    }
}

/// The order is transitive.
pub proof fn lemma_lex_trans(a: Seq<u8>, b: Seq<u8>, c: Seq<u8>)
    requires
        lex_le(a, b),
        lex_le(b, c),
    ensures
        lex_le(a, c),
    decreases a.len(),
{
    if a.len() > 0 && b.len() > 0 && c.len() > 0 && a[0] == b[0] && b[0] == c[0] {
        lemma_lex_trans(a.skip(1), b.skip(1), c.skip(1));
    }
}

} // verus!
