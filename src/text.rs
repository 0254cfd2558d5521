//! Character-level helpers: Unicode white space, trimming, splitting into
//! whitespace-separated words and into lines.
use vstd::prelude::*;

verus! {

/// The characters that carry the Unicode `White_Space` property.
pub open spec fn is_ws(c: char) -> bool {
    ('\u{9}' <= c && c <= '\u{d}') || c == ' ' || c == '\u{85}' || c == '\u{a0}' || c
        == '\u{1680}' || ('\u{2000}' <= c && c <= '\u{200a}') || c == '\u{2028}' || c
        == '\u{2029}' || c == '\u{202f}' || c == '\u{205f}' || c == '\u{3000}'
}

/// `s` with its leading white space removed.
pub open spec fn trim_start(s: Seq<char>) -> Seq<char>
    decreases s.len(),
{
    if s.len() > 0 && is_ws(s[0]) {
        trim_start(s.drop_first())
    } else {
        s
    }
}

/// `s` with its trailing white space removed.
pub open spec fn trim_end(s: Seq<char>) -> Seq<char>
    decreases s.len(),
{
    if s.len() > 0 && is_ws(s.last()) {
        trim_end(s.drop_last())
    } else {
        s
    }
}

/// `s` with white space removed at both ends.
pub open spec fn trim(s: Seq<char>) -> Seq<char> {
    trim_end(trim_start(s))
}

/// Length of the run of non-white-space characters that starts `s`.
pub open spec fn word_len(s: Seq<char>) -> nat
    decreases s.len(),
{
    if s.len() == 0 || is_ws(s[0]) {
        0
    } else {
        1 + word_len(s.drop_first())
    }
}

/// The maximal runs of non-white-space characters of `s`, in order.
pub open spec fn words(s: Seq<char>) -> Seq<Seq<char>>
    decreases s.len(),
    via words_decreases
{
    if s.len() == 0 {
        seq![]
    } else if is_ws(s[0]) {
        words(s.drop_first())
    } else {
        seq![s.take(word_len(s) as int)] + words(s.skip(word_len(s) as int))
    }
}

#[via_fn]
proof fn words_decreases(s: Seq<char>) {
    lemma_word_len_bound(s);
}

/// The pieces of `s` between line feeds; `n` line feeds give `n + 1` pieces.
pub open spec fn split_lines(s: Seq<char>) -> Seq<Seq<char>>
    decreases s.len(),
{
    if s.len() == 0 {
        seq![Seq::empty()]
    } else {
        let p = split_lines(s.drop_last());
        if s.last() == '\n' {
            p.push(Seq::empty())
        } else {
            p.update(p.len() - 1, p.last().push(s.last()))
        }
    }
}

/// The character sequences held by a sequence of strings.
pub open spec fn strings_view(v: Seq<String>) -> Seq<Seq<char>> {
    Seq::new(v.len(), |k: int| v[k]@)
}

/// The pieces of `cs` that a list of half-open ranges marks.
pub open spec fn spans_text(cs: Seq<char>, sp: Seq<(usize, usize)>) -> Seq<Seq<char>> {
    Seq::new(sp.len(), |k: int| cs.subrange(sp[k].0 as int, sp[k].1 as int))
}

pub proof fn lemma_word_len_bound(s: Seq<char>)
    ensures
        word_len(s) <= s.len(),
        s.len() > 0 && !is_ws(s[0]) ==> word_len(s) >= 1,
    decreases s.len(),
{
    if s.len() > 0 && !is_ws(s[0]) {
        lemma_word_len_bound(s.drop_first());
    }
}

proof fn lemma_word_len_exact(s: Seq<char>, k: int)
    requires
        0 <= k <= s.len(),
        forall|i: int| 0 <= i < k ==> !is_ws(#[trigger] s[i]),
        k == s.len() || is_ws(s[k]),
    ensures
        word_len(s) == k,
    decreases k,
{
    if k > 0 {
        let t = s.drop_first();
        assert forall|i: int| 0 <= i < k - 1 implies !is_ws(#[trigger] t[i]) by {
            assert(t[i] == s[i + 1]);
        }
        lemma_word_len_exact(t, k - 1);
    }
}

proof fn lemma_split_lines_nonempty(s: Seq<char>)
    ensures
        split_lines(s).len() >= 1,
    decreases s.len(),
{
    if s.len() > 0 {
        lemma_split_lines_nonempty(s.drop_last());
    }
}

pub fn is_white_space(c: char) -> (r: bool)
    ensures
        r == is_ws(c),
{
    ('\u{9}' <= c && c <= '\u{d}') || c == ' ' || c == '\u{85}' || c == '\u{a0}' || c
        == '\u{1680}' || ('\u{2000}' <= c && c <= '\u{200a}') || c == '\u{2028}' || c
        == '\u{2029}' || c == '\u{202f}' || c == '\u{205f}' || c == '\u{3000}'
}

/// The characters of `s`, one by one.
pub fn chars_of(s: &str) -> (r: Vec<char>)
    ensures
        r@ == s@,
{
    let n = s.unicode_len();
    let mut r: Vec<char> = Vec::new();
    let mut i: usize = 0;
    while i < n
        invariant
            n == s@.len(),
            i <= n,
            r@ == s@.take(i as int),
        decreases n - i,
    {
        r.push(s.get_char(i));
        i += 1;
        assert(r@ =~= s@.take(i as int));
    }
    assert(r@ =~= s@);
    r
}

/// End of the word that starts at `lo`: the first white space at or after
/// `lo`, or `hi`.
pub fn word_end(cs: &Vec<char>, lo: usize, hi: usize) -> (e: usize)
    requires
        lo <= hi <= cs@.len(),
    ensures
        lo <= e <= hi,
        e - lo == word_len(cs@.subrange(lo as int, hi as int)),
{
    let mut e = lo;
    while e < hi && !is_white_space(cs[e])
        invariant
            lo <= e <= hi <= cs@.len(),
            forall|i: int| lo <= i < e ==> !is_ws(#[trigger] cs@[i]),
        decreases hi - e,
    {
        e += 1;
    }
    let ghost s = cs@.subrange(lo as int, hi as int);
    proof {
        assert forall|i: int| 0 <= i < e - lo implies !is_ws(#[trigger] s[i]) by {
            assert(s[i] == cs@[lo + i]);
        }
        lemma_word_len_exact(s, e - lo);
    }
    e
}

/// Bounds of `trim` applied to the range `lo..hi` of `cs`.
pub fn trim_range(cs: &Vec<char>, lo: usize, hi: usize) -> (r: (usize, usize))
    requires
        lo <= hi <= cs@.len(),
    ensures
        lo <= r.0 <= r.1 <= hi,
        cs@.subrange(r.0 as int, r.1 as int) == trim(cs@.subrange(lo as int, hi as int)),
{
    let mut a = lo;
    while a < hi && is_white_space(cs[a])
        invariant
            lo <= a <= hi <= cs@.len(),
            trim_start(cs@.subrange(lo as int, hi as int)) == trim_start(
                cs@.subrange(a as int, hi as int),
            ),
        decreases hi - a,
    {
        assert(cs@.subrange(a as int, hi as int).drop_first() =~= cs@.subrange(
            a + 1,
            hi as int,
        ));
        a += 1;
    }
    let mut b = hi;
    while b > a && is_white_space(cs[b - 1])
        invariant
            lo <= a <= b <= hi <= cs@.len(),
            trim_start(cs@.subrange(lo as int, hi as int)) == cs@.subrange(a as int, hi as int),
            trim(cs@.subrange(lo as int, hi as int)) == trim_end(
                cs@.subrange(a as int, b as int),
            ),
        decreases b - a,
    {
        assert(cs@.subrange(a as int, b as int).drop_last() =~= cs@.subrange(
            a as int,
            b - 1,
        ));
        b -= 1;
    }
    (a, b)
}

/// Ranges of the words of `lo..hi` in `cs`, in order.
pub fn word_spans(cs: &Vec<char>, lo: usize, hi: usize) -> (r: Vec<(usize, usize)>)
    requires
        lo <= hi <= cs@.len(),
    ensures
        spans_text(cs@, r@) == words(cs@.subrange(lo as int, hi as int)),
        forall|k: int| 0 <= k < r@.len() ==> lo <= (#[trigger] r@[k]).0 <= r@[k].1 <= hi,
{
    let mut out: Vec<(usize, usize)> = Vec::new();
    let mut p = lo;
    while p < hi
        invariant
            lo <= p <= hi <= cs@.len(),
            words(cs@.subrange(lo as int, hi as int)) == spans_text(cs@, out@) + words(
                cs@.subrange(p as int, hi as int),
            ),
            forall|k: int| 0 <= k < out@.len() ==> lo <= (#[trigger] out@[k]).0 <= out@[k].1 <= p,
        decreases hi - p,
    {
        let ghost rest = cs@.subrange(p as int, hi as int);
        if is_white_space(cs[p]) {
            assert(rest.drop_first() =~= cs@.subrange(p + 1, hi as int));
            p += 1;
        } else {
            let e = word_end(cs, p, hi);
            proof {
                lemma_word_len_bound(rest);
                assert(rest.take(e - p) =~= cs@.subrange(p as int, e as int));
                assert(rest.skip(e - p) =~= cs@.subrange(e as int, hi as int));
            }
            let ghost before = spans_text(cs@, out@);
            out.push((p, e));
            assert(spans_text(cs@, out@) =~= before.push(cs@.subrange(p as int, e as int)));
            assert(before + (seq![cs@.subrange(p as int, e as int)] + words(
                cs@.subrange(e as int, hi as int),
            )) =~= before.push(cs@.subrange(p as int, e as int)) + words(
                cs@.subrange(e as int, hi as int),
            ));
            p = e;
        }
    }
    assert(cs@.subrange(hi as int, hi as int) =~= Seq::<char>::empty());
    assert(spans_text(cs@, out@) + seq![] =~= spans_text(cs@, out@));
    out
}

/// The lines of `text`, split at each line feed.
pub fn lines_of(text: &str) -> (r: Vec<String>)
    ensures
        strings_view(r@) == split_lines(text@),
{
    let cs = chars_of(text);
    let n = cs.len();
    let mut out: Vec<String> = Vec::new();
    let mut start: usize = 0;
    let mut i: usize = 0;
    assert(cs@.take(0) =~= Seq::<char>::empty());
    assert(strings_view(out@).push(cs@.subrange(0, 0)) =~= seq![Seq::<char>::empty()]);
    while i < n
        invariant
            n == cs@.len(),
            cs@ == text@,
            start <= i <= n,
            split_lines(cs@.take(i as int)) == strings_view(out@).push(
                cs@.subrange(start as int, i as int),
            ),
        decreases n - i,
    {
        let ghost pre = cs@.take(i as int);
        assert(cs@.take(i + 1).drop_last() =~= pre);
        if cs[i] == '\n' {
            let line = String::from_str(text.substring_char(start, i));
            let ghost old_view = strings_view(out@);
            out.push(line);
            assert(strings_view(out@) =~= old_view.push(line@));
            assert(cs@.subrange(i + 1, i + 1) =~= Seq::<char>::empty());
            start = i + 1;
        } else {
            proof {
                lemma_split_lines_nonempty(pre);
            }
            assert(cs@.subrange(start as int, i as int).push(cs@[i as int]) =~= cs@.subrange(
                start as int,
                i + 1,
            ));
            assert(strings_view(out@).push(cs@.subrange(start as int, i as int)).update(
                strings_view(out@).len() as int,
                cs@.subrange(start as int, i as int).push(cs@[i as int]),
            ) =~= strings_view(out@).push(cs@.subrange(start as int, i + 1)));
        }
        i += 1;
    }
    assert(cs@.take(n as int) =~= cs@);
    let last = String::from_str(text.substring_char(start, n));
    let ghost old_view = strings_view(out@);
    out.push(last);
    assert(strings_view(out@) =~= old_view.push(last@));
    out
}

/// Whether the range `lo..hi` of `cs` spells exactly `lit`.
pub fn range_equals(cs: &Vec<char>, lo: usize, hi: usize, lit: &str) -> (r: bool)
    requires
        lo <= hi <= cs@.len(),
    ensures
        r == (cs@.subrange(lo as int, hi as int) == lit@),
{
    let n = lit.unicode_len();
    if hi - lo != n {
        return false;
    }
    let mut i: usize = 0;
    while i < n
        invariant
            n == lit@.len(),
            n == hi - lo,
            lo <= hi <= cs@.len(),
            i <= n,
            forall|j: int| 0 <= j < i ==> cs@[lo + j] == lit@[j],
        decreases n - i,
    {
        if cs[lo + i] != lit.get_char(i) {
            assert(cs@.subrange(lo as int, hi as int)[i as int] != lit@[i as int]);
            return false;
        }
        i += 1;
    }
    assert(cs@.subrange(lo as int, hi as int) =~= lit@);
    true
}

} // verus!
