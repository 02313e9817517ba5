//! Text primitives: searching, splitting and rewriting character sequences.
//!
//! The wire grammar and the log record format are both defined by splitting a
//! text on a fixed separator, so the functions here carry the exact meaning of
//! "split" and "replace" that the rest of the crate relies on.

use vstd::prelude::*;
use vstd::string::*;

verus! {

/// `pat` occurs in `s` at index `i`.
pub open spec fn occurs_at(s: Seq<char>, pat: Seq<char>, i: int) -> bool {
    &&& 0 <= i
    &&& i + pat.len() <= s.len()
    &&& s.subrange(i, i + pat.len()) == pat
}

/// `pat` occurs somewhere in `s`.
pub open spec fn contains_pattern(s: Seq<char>, pat: Seq<char>) -> bool {
    exists|i: int| occurs_at(s, pat, i)
}

/// The least index at or after `from` where `pat` occurs in `s`, or `-1` when
/// there is none.
pub open spec fn find_from(s: Seq<char>, pat: Seq<char>, from: int) -> int
    decreases s.len() - from + 1,
{
    if from < 0 || from + pat.len() > s.len() {
        -1
    } else if occurs_at(s, pat, from) {
        from
    } else {
        find_from(s, pat, from + 1)
    }
}

/// The pieces of `s` between successive occurrences of `pat`, scanning from
/// the left and never overlapping. A text without `pat` is a single piece; an
/// empty pattern splits nothing.
pub open spec fn split(s: Seq<char>, pat: Seq<char>) -> Seq<Seq<char>>
    decreases s.len(),
{
    let i = find_from(s, pat, 0);
    if pat.len() == 0 || i < 0 || i + pat.len() > s.len() {
        seq![s]
    } else {
        seq![s.subrange(0, i)] + split(s.subrange(i + pat.len(), s.len() as int), pat)
    }
}

/// `s` with every occurrence of `from` rewritten to `to`, scanning from the
/// left and never overlapping. An empty pattern rewrites nothing.
pub open spec fn replace(s: Seq<char>, from: Seq<char>, to: Seq<char>) -> Seq<char>
    decreases s.len(),
{
    let i = find_from(s, from, 0);
    if from.len() == 0 || i < 0 || i + from.len() > s.len() {
        s
    } else {
        s.subrange(0, i) + to + replace(s.subrange(i + from.len(), s.len() as int), from, to)
    }
}

/// What `find_from` returns is either `-1`, with no occurrence at or after
/// `from`, or the least occurrence at or after `from`.
pub proof fn lemma_find_from(s: Seq<char>, pat: Seq<char>, from: int)
    requires
        0 <= from,
    ensures
        find_from(s, pat, from) == -1 || (from <= find_from(s, pat, from) && occurs_at(
            s,
            pat,
            find_from(s, pat, from),
        )),
        forall|j: int|
            from <= j && (find_from(s, pat, from) == -1 || j < find_from(s, pat, from))
                ==> !occurs_at(s, pat, j),
    decreases s.len() - from + 1,
{
    if from + pat.len() > s.len() {
    } else if occurs_at(s, pat, from) {
    } else {
        lemma_find_from(s, pat, from + 1);
    }
}

/// Skipping positions without an occurrence does not change the search.
pub proof fn lemma_find_from_skip(s: Seq<char>, pat: Seq<char>, from: int, to: int)
    requires
        0 <= from <= to,
        forall|j: int| from <= j < to ==> !occurs_at(s, pat, j),
    ensures
        find_from(s, pat, from) == find_from(s, pat, to),
    decreases to - from,
{
    if from < to {
        lemma_find_from_skip(s, pat, from + 1, to);
        if from + pat.len() > s.len() {
            lemma_find_from(s, pat, to);
        }
    }
}

/// An occurrence in a suffix of `s` is an occurrence in `s`, shifted.
pub proof fn lemma_occurs_in_suffix(s: Seq<char>, pat: Seq<char>, start: int, j: int)
    requires
        0 <= start <= s.len(),
        0 <= j,
    ensures
        occurs_at(s.subrange(start, s.len() as int), pat, j) == occurs_at(s, pat, start + j),
{
    let t = s.subrange(start, s.len() as int);
    if j + pat.len() <= t.len() {
        assert(t.subrange(j, j + pat.len()) =~= s.subrange(start + j, start + j + pat.len()));
    }
}

/// The characters of a text, in order.
pub fn to_chars(s: &str) -> (v: Vec<char>)
    ensures
        v@ == s@,
{
    let mut v: Vec<char> = Vec::new();
    for c in it: s.chars()
        invariant
            it.seq() == s@,
            v@ == it.seq().take(it.index()),
    {
        v.push(c);
        assert(it.seq().take(it.index() + 1) =~= it.seq().take(it.index()).push(c));
    }
    assert(v@ =~= s@);
    v
}

/// Whether `pat` occurs in `s` at index `i`.
pub fn matches_at(s: &Vec<char>, pat: &Vec<char>, i: usize) -> (b: bool)
    ensures
        b == occurs_at(s@, pat@, i as int),
{
    if pat.len() > s.len() || i > s.len() - pat.len() {
        return false;
    }
    let mut k: usize = 0;
    while k < pat.len()
        invariant
            k <= pat.len(),
            i + pat.len() <= s.len(),
            forall|j: int| 0 <= j < k ==> s@[i + j] == pat@[j],
        decreases pat.len() - k,
    {
        if s[i + k] != pat[k] {
            assert(s@.subrange(i as int, i + pat.len())[k as int] == s@[i + k]);
            return false;
        }
        k += 1;
    }
    assert(s@.subrange(i as int, i + pat.len()) =~= pat@);
    true
}

/// The views of a sequence of strings.
pub open spec fn texts(v: Seq<String>) -> Seq<Seq<char>> {
    v.map_values(|s: String| s@)
}

/// One step of `split`: with no occurrence in `[start, i)` and one at `i`,
/// the suffix from `start` splits into the piece `[start, i)` and the split of
/// what follows the occurrence.
proof fn lemma_split_step(s: Seq<char>, pat: Seq<char>, start: int, i: int)
    requires
        0 <= start <= i,
        pat.len() > 0,
        forall|j: int| start <= j < i ==> !occurs_at(s, pat, j),
        occurs_at(s, pat, i),
    ensures
        split(s.subrange(start, s.len() as int), pat) == seq![s.subrange(start, i)] + split(
            s.subrange(i + pat.len(), s.len() as int),
            pat,
        ),
{
    lemma_suffix_search(s, pat, start, i);
    let t = s.subrange(start, s.len() as int);
    assert(t.subrange(0, i - start) =~= s.subrange(start, i));
    assert(t.subrange(i - start + pat.len(), t.len() as int) =~= s.subrange(
        i + pat.len(),
        s.len() as int,
    ));
}

/// One step of `replace`, in the same situation as `lemma_split_step`.
proof fn lemma_replace_step(s: Seq<char>, pat: Seq<char>, to: Seq<char>, start: int, i: int)
    requires
        0 <= start <= i,
        pat.len() > 0,
        forall|j: int| start <= j < i ==> !occurs_at(s, pat, j),
        occurs_at(s, pat, i),
    ensures
        replace(s.subrange(start, s.len() as int), pat, to) == s.subrange(start, i) + to + replace(
            s.subrange(i + pat.len(), s.len() as int),
            pat,
            to,
        ),
{
    lemma_suffix_search(s, pat, start, i);
    let t = s.subrange(start, s.len() as int);
    assert(t.subrange(0, i - start) =~= s.subrange(start, i));
    assert(t.subrange(i - start + pat.len(), t.len() as int) =~= s.subrange(
        i + pat.len(),
        s.len() as int,
    ));
}

/// With no occurrence in `[start, i)` and one at `i`, the search in the
/// suffix from `start` finds `i - start`.
proof fn lemma_suffix_search(s: Seq<char>, pat: Seq<char>, start: int, i: int)
    requires
        0 <= start <= i,
        forall|j: int| start <= j < i ==> !occurs_at(s, pat, j),
        occurs_at(s, pat, i),
    ensures
        find_from(s.subrange(start, s.len() as int), pat, 0) == i - start,
{
    let t = s.subrange(start, s.len() as int);
    assert forall|j: int| 0 <= j < i - start implies !occurs_at(t, pat, j) by {
        lemma_occurs_in_suffix(s, pat, start, j);
    }
    lemma_occurs_in_suffix(s, pat, start, i - start);
    lemma_find_from_skip(t, pat, 0, i - start);
}

/// With no occurrence at or after `start`, the search in the suffix from
/// `start` fails: the suffix is one piece, and is rewritten to itself.
proof fn lemma_suffix_without(s: Seq<char>, pat: Seq<char>, start: int)
    requires
        0 <= start <= s.len(),
        forall|j: int| start <= j ==> !occurs_at(s, pat, j),
    ensures
        find_from(s.subrange(start, s.len() as int), pat, 0) == -1,
{
    let t = s.subrange(start, s.len() as int);
    lemma_find_from(t, pat, 0);
    let f = find_from(t, pat, 0);
    if f != -1 {
        lemma_occurs_in_suffix(s, pat, start, f);
    }
}

/// Splits `s` on every occurrence of `pat`.
pub fn split_text(s: &str, pat: &str) -> (pieces: Vec<String>)
    ensures
        texts(pieces@) == split(s@, pat@),
{
    let chars = to_chars(s);
    let p = to_chars(pat);
    let n: usize = chars.len();
    let mut pieces: Vec<String> = Vec::new();
    if p.len() == 0 {
        pieces.push(s.to_owned());
        assert(texts(pieces@) =~= seq![s@]);
        return pieces;
    }
    let mut start: usize = 0;
    let mut i: usize = 0;
    assert(s@.subrange(0, n as int) =~= s@);
    while i < n
        invariant
            chars@ == s@,
            p@ == pat@,
            p.len() > 0,
            n == chars.len(),
            start <= i <= n,
            forall|j: int| start <= j < i ==> !occurs_at(s@, pat@, j),
            texts(pieces@) + split(s@.subrange(start as int, n as int), pat@) == split(s@, pat@),
        decreases n - i,
    {
        if matches_at(&chars, &p, i) {
            let piece = s.substring_char(start, i).to_owned();
            proof {
                lemma_split_step(s@, pat@, start as int, i as int);
                assert(texts(pieces@.push(piece)) =~= texts(pieces@) + seq![
                    s@.subrange(start as int, i as int),
                ]);
            }
            pieces.push(piece);
            i += p.len();
            start = i;
        } else {
            i += 1;
        }
    }
    let last = s.substring_char(start, n).to_owned();
    proof {
        assert forall|j: int| start <= j implies !occurs_at(s@, pat@, j) by {
            if j >= n {
                assert(j + pat@.len() > s@.len());
            }
        }
        lemma_suffix_without(s@, pat@, start as int);
        assert(texts(pieces@.push(last)) =~= texts(pieces@) + seq![
            s@.subrange(start as int, n as int),
        ]);
    }
    pieces.push(last);
    pieces
}

/// Rewrites every occurrence of `from` in `s` to `to`.
pub fn replace_text(s: &str, from: &str, to: &str) -> (out: String)
    ensures
        out@ == replace(s@, from@, to@),
{
    let chars = to_chars(s);
    let p = to_chars(from);
    let n: usize = chars.len();
    if p.len() == 0 {
        return s.to_owned();
    }
    let mut out = String::new();
    let mut start: usize = 0;
    let mut i: usize = 0;
    assert(s@.subrange(0, n as int) =~= s@);
    assert(out@ + replace(s@, from@, to@) =~= replace(s@, from@, to@));
    while i < n
        invariant
            chars@ == s@,
            p@ == from@,
            p.len() > 0,
            n == chars.len(),
            start <= i <= n,
            forall|j: int| start <= j < i ==> !occurs_at(s@, from@, j),
            out@ + replace(s@.subrange(start as int, n as int), from@, to@) == replace(
                s@,
                from@,
                to@,
            ),
        decreases n - i,
    {
        if matches_at(&chars, &p, i) {
            proof {
                lemma_replace_step(s@, from@, to@, start as int, i as int);
            }
            let ghost before = out@;
            let ghost prev_start = start;
            out.append(s.substring_char(start, i));
            out.append(to);
            i += p.len();
            start = i;
            proof {
                let rest = replace(s@.subrange(start as int, n as int), from@, to@);
                let piece = s@.subrange(prev_start as int, i - p.len());
                assert(out@ + rest =~= before + (piece + to@ + rest));
            }
        } else {
            i += 1;
        }
    }
    proof {
        assert forall|j: int| start <= j implies !occurs_at(s@, from@, j) by {
            if j >= n {
                assert(j + from@.len() > s@.len());
            }
        }
        lemma_suffix_without(s@, from@, start as int);
    }
    out.append(s.substring_char(start, n));
    out
}

/// Whether two texts hold the same characters.
pub fn text_eq(a: &str, b: &str) -> (same: bool)
    ensures
        same == (a@ == b@),
{
    let x = to_chars(a);
    let y = to_chars(b);
    if x.len() != y.len() {
        return false;
    }
    let mut i: usize = 0;
    while i < x.len()
        invariant
            x@ == a@,
            y@ == b@,
            x.len() == y.len(),
            i <= x.len(),
            forall|j: int| 0 <= j < i ==> x@[j] == y@[j],
        decreases x.len() - i,
    {
        if x[i] != y[i] {
            assert(x@[i as int] != y@[i as int]);
            return false;
        }
        i += 1;
    }
    assert(x@ =~= y@);
    true
}

/// The upper-case form of a text, as the standard library's Unicode case
/// mapping gives it. It depends on the characters alone.
pub uninterp spec fn uppercase(s: Seq<char>) -> Seq<char>;

/// Calls `str::to_uppercase` of the standard library. The contract only gives
/// the result its name: nothing is claimed about which characters come out.
#[verifier::external_body]
pub(crate) fn to_uppercase(s: &str) -> (r: String)
    ensures
        r@ == uppercase(s@),
{
    s.to_uppercase()
}

/// `a` comes before `b` in the order of texts: at the first place where
/// they differ, `a` has the character with the lesser code, or `a` ends.
pub open spec fn text_before(a: Seq<char>, b: Seq<char>) -> bool
    decreases a.len(),
{
    if b.len() == 0 {
        false
    } else if a.len() == 0 {
        true
    } else if a[0] != b[0] {
        a[0] < b[0]
    } else {
        text_before(a.drop_first(), b.drop_first())
    }
}

/// Of two different texts, one comes before the other.
pub proof fn lemma_text_before_total(a: Seq<char>, b: Seq<char>)
    requires
        a != b,
    ensures
        text_before(a, b) || text_before(b, a),
    decreases a.len(),
{
    if a.len() > 0 && b.len() > 0 && a[0] == b[0] {
        if a.drop_first() == b.drop_first() {
            assert(a =~= seq![a[0]] + a.drop_first());
            assert(b =~= seq![b[0]] + b.drop_first());
        }
        lemma_text_before_total(a.drop_first(), b.drop_first());
    } else if a.len() == 0 || b.len() == 0 {
        if a.len() == 0 && b.len() == 0 {
            assert(a =~= b);
        }
    }
}

/// The order of texts is transitive.
pub proof fn lemma_text_before_transitive(a: Seq<char>, b: Seq<char>, c: Seq<char>)
    requires
        text_before(a, b),
        text_before(b, c),
    ensures
        text_before(a, c),
    decreases a.len(),
{
    if a.len() > 0 && a[0] == b[0] && b[0] == c[0] {
        lemma_text_before_transitive(a.drop_first(), b.drop_first(), c.drop_first());
    }
}

/// Texts that agree up to index `i` are ordered as what follows.
proof fn lemma_text_before_suffix(a: Seq<char>, b: Seq<char>, i: int)
    requires
        0 <= i <= a.len(),
        i <= b.len(),
        a.subrange(0, i) == b.subrange(0, i),
    ensures
        text_before(a, b) == text_before(
            a.subrange(i, a.len() as int),
            b.subrange(i, b.len() as int),
        ),
    decreases i,
{
    if i == 0 {
        assert(a.subrange(0, a.len() as int) =~= a);
        assert(b.subrange(0, b.len() as int) =~= b);
    } else {
        assert(a.subrange(0, i)[0] == a[0]);
        assert(b.subrange(0, i)[0] == b[0]);
        assert(a[0] == b[0]);
        let x = a.drop_first();
        let y = b.drop_first();
        assert(x.subrange(0, i - 1) =~= a.subrange(0, i).drop_first());
        assert(y.subrange(0, i - 1) =~= b.subrange(0, i).drop_first());
        lemma_text_before_suffix(x, y, i - 1);
        assert(x.subrange(i - 1, x.len() as int) =~= a.subrange(i, a.len() as int));
        assert(y.subrange(i - 1, y.len() as int) =~= b.subrange(i, b.len() as int));
        assert(text_before(a, b) == text_before(x, y));
    }
}

/// Whether `a` comes before `b` in the order of texts.
pub fn comes_before(a: &str, b: &str) -> (before: bool)
    ensures
        before == text_before(a@, b@),
{
    let x = to_chars(a);
    let y = to_chars(b);
    let mut i: usize = 0;
    while i < x.len() && i < y.len()
        invariant
            x@ == a@,
            y@ == b@,
            i <= x.len(),
            i <= y.len(),
            x@.subrange(0, i as int) == y@.subrange(0, i as int),
        decreases x.len() - i,
    {
        if x[i] != y[i] {
            proof {
                lemma_text_before_suffix(x@, y@, i as int);
            }
            return x[i] < y[i];
        }
        assert(x@.subrange(0, i + 1) =~= x@.subrange(0, i as int).push(x@[i as int]));
        assert(y@.subrange(0, i + 1) =~= y@.subrange(0, i as int).push(y@[i as int]));
        i += 1;
    }
    proof {
        lemma_text_before_suffix(x@, y@, i as int);
    }
    i < y.len()
}

} // verus!
