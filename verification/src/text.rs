//! Verified text primitives over sequences of characters: substring search,
//! leftmost non-overlapping replacement, whitespace trimming and line
//! splitting.

use vstd::prelude::*;

verus! {

/// `pat` occurs in `text` starting at index `i`.
pub open spec fn occurs_at(text: Seq<char>, pat: Seq<char>, i: int) -> bool {
    &&& 0 <= i
    &&& i + pat.len() <= text.len()
    &&& text.subrange(i, i + pat.len() as int) == pat
}

/// `text` contains `pat` somewhere (an empty pattern occurs everywhere).
pub open spec fn has_sub(text: Seq<char>, pat: Seq<char>) -> bool
    decreases text.len(),
{
    if pat.len() == 0 {
        true
    } else if text.len() < pat.len() {
        false
    } else {
        text.take(pat.len() as int) == pat || has_sub(text.skip(1), pat)
    }
}

/// Number of occurrences of `pat` in `text` found by a leftmost,
/// non-overlapping scan (0 for an empty pattern).
pub open spec fn count_occ(text: Seq<char>, pat: Seq<char>) -> nat
    decreases text.len(),
{
    if pat.len() == 0 || text.len() < pat.len() {
        0
    } else if text.take(pat.len() as int) == pat {
        1 + count_occ(text.skip(pat.len() as int), pat)
    } else {
        count_occ(text.skip(1), pat)
    }
}

/// Replace every occurrence of `pat` in `text` by `rep`, scanning left to
/// right without overlap; with an empty `pat` the text is unchanged.
pub open spec fn replace_all(text: Seq<char>, pat: Seq<char>, rep: Seq<char>) -> Seq<char>
    decreases text.len(),
{
    if pat.len() == 0 || text.len() < pat.len() {
        text
    } else if text.take(pat.len() as int) == pat {
        rep + replace_all(text.skip(pat.len() as int), pat, rep)
    } else {
        seq![text[0]] + replace_all(text.skip(1), pat, rep)
    }
}

/// Whitespace characters removed by trimming: the ASCII blank characters.
pub open spec fn is_space(c: char) -> bool {
    c == ' ' || c == '\t' || c == '\n' || c == '\r' || c == '\u{b}' || c == '\u{c}'
}

/// Length of the leading run of whitespace in `t`.
pub open spec fn leading_spaces(t: Seq<char>) -> int
    decreases t.len(),
{
    if t.len() == 0 || !is_space(t[0]) {
        0
    } else {
        1 + leading_spaces(t.skip(1))
    }
}

/// Length of the trailing run of whitespace in `t`.
pub open spec fn trailing_spaces(t: Seq<char>) -> int
    decreases t.len(),
{
    if t.len() == 0 || !is_space(t.last()) {
        0
    } else {
        1 + trailing_spaces(t.drop_last())
    }
}

/// `t` without leading and trailing whitespace.
pub open spec fn trim(t: Seq<char>) -> Seq<char> {
    let u = t.skip(leading_spaces(t));
    u.take(u.len() - trailing_spaces(u))
}

/// A line before a newline, with a carriage return directly before the
/// newline removed.
pub open spec fn strip_cr(l: Seq<char>) -> Seq<char> {
    if l.len() > 0 && l.last() == '\r' {
        l.drop_last()
    } else {
        l
    }
}

/// The lines of `rest`, with `cur` the part of the current line read so far.
/// A line ends at a newline character, which also closes a carriage return
/// directly before it; text after the last newline is a line of its own.
pub open spec fn lines_rec(rest: Seq<char>, cur: Seq<char>) -> Seq<Seq<char>>
    decreases rest.len(),
{
    if rest.len() == 0 {
        seq![cur]
    } else if rest[0] == '\n' {
        seq![strip_cr(cur)] + if rest.len() == 1 {
            Seq::empty()
        } else {
            lines_rec(rest.skip(1), Seq::empty())
        }
    } else {
        lines_rec(rest.skip(1), cur.push(rest[0]))
    }
}

/// The lines of `t`, split at newlines, as `str::lines` splits them: a
/// trailing newline opens no further line, and the empty text has no lines.
pub open spec fn lines_of(t: Seq<char>) -> Seq<Seq<char>> {
    if t.len() == 0 {
        Seq::empty()
    } else {
        lines_rec(t, Seq::empty())
    }
}

/// `pat` matches `text` at position `i`.
pub fn matches_at(text: &Vec<char>, pat: &Vec<char>, i: usize) -> (b: bool)
    requires
        i + pat@.len() <= text@.len(),
    ensures
        b == (text@.subrange(i as int, i + pat@.len()) == pat@),
{
    let n: usize = text.len();
    let mut j: usize = 0;
    while j < pat.len()
        invariant
            0 <= j <= pat@.len(),
            i + pat@.len() <= text@.len(),
            n == text@.len(),
            forall|k: int| 0 <= k < j ==> text@[i + k] == pat@[k],
        decreases pat@.len() - j,
    {
        if text[i + j] != pat[j] {
            assert(text@.subrange(i as int, i + pat@.len())[j as int] != pat@[j as int]);
            return false;
        }
        j += 1;
    }
    proof {
        assert(text@.subrange(i as int, i + pat@.len()) =~= pat@);
    }
    true
}

/// `text` contains `pat` as a contiguous subsequence.
pub fn contains_sub(text: &Vec<char>, pat: &Vec<char>) -> (b: bool)
    requires
        pat@.len() >= 1,
    ensures
        b == has_sub(text@, pat@),
{
    let mut i: usize = 0;
    if text.len() < pat.len() {
        return false;
    }
    proof {
        assert(text@.skip(0) =~= text@);
    }
    while i <= text.len() - pat.len()
        invariant
            pat@.len() >= 1,
            pat@.len() <= text@.len(),
            0 <= i,
            i + pat@.len() <= text@.len() + 1,
            has_sub(text@, pat@) == has_sub(text@.skip(i as int), pat@),
        decreases text@.len() - i,
    {
        if matches_at(text, pat, i) {
            proof {
                assert(text@.skip(i as int).take(pat@.len() as int) =~= text@.subrange(
                    i as int,
                    i + pat@.len(),
                ));
            }
            return true;
        }
        proof {
            assert(text@.skip(i as int).take(pat@.len() as int) =~= text@.subrange(
                i as int,
                i + pat@.len(),
            ));
            assert(text@.skip(i as int).skip(1) =~= text@.skip(i + 1));
        }
        i += 1;
    }
    proof {
        assert(text@.skip(i as int).len() < pat@.len());
    }
    false
}

/// Replace every occurrence of `pat` in `text` by `rep`, leftmost first,
/// without rescanning replaced output.
pub fn replace_all_vec(text: &Vec<char>, pat: &Vec<char>, rep: &Vec<char>) -> (out: Vec<char>)
    requires
        pat@.len() >= 1,
    ensures
        out@ == replace_all(text@, pat@, rep@),
{
    let mut out: Vec<char> = Vec::new();
    let mut i: usize = 0;
    proof {
        assert(text@.skip(0) =~= text@);
        assert(out@ + replace_all(text@, pat@, rep@) =~= replace_all(text@, pat@, rep@));
    }
    while i < text.len()
        invariant
            pat@.len() >= 1,
            0 <= i <= text@.len(),
            replace_all(text@, pat@, rep@) == out@ + replace_all(
                text@.skip(i as int),
                pat@,
                rep@,
            ),
        decreases text@.len() - i,
    {
        if pat.len() <= text.len() - i && matches_at(text, pat, i) {
            proof {
                assert(text@.skip(i as int).take(pat@.len() as int) =~= text@.subrange(
                    i as int,
                    i + pat@.len(),
                ));
                assert(text@.skip(i as int).skip(pat@.len() as int) =~= text@.skip(
                    i + pat@.len(),
                ));
            }
            let ghost out0 = out@;
            let mut j: usize = 0;
            while j < rep.len()
                invariant
                    0 <= j <= rep@.len(),
                    out@ == out0 + rep@.take(j as int),
                decreases rep@.len() - j,
            {
                proof {
                    assert(out0 + rep@.take(j + 1) =~= out0 + rep@.take(j as int) + seq![
                        rep@[j as int],
                    ]);
                }
                out.push(rep[j]);
                j += 1;
            }
            proof {
                assert(out@ =~= out0 + rep@);
                assert(out0 + (rep@ + replace_all(text@.skip(i + pat@.len()), pat@, rep@)) =~= (
                out0 + rep@) + replace_all(text@.skip(i + pat@.len()), pat@, rep@));
            }
            i += pat.len();
        } else {
            proof {
                if i + pat@.len() <= text@.len() {
                    assert(text@.skip(i as int).take(pat@.len() as int) =~= text@.subrange(
                        i as int,
                        i + pat@.len(),
                    ));
                }
                assert(text@.skip(i as int).skip(1) =~= text@.skip(i + 1));
                assert(text@.skip(i as int)[0] == text@[i as int]);
                assert(out@ + (seq![text@[i as int]] + replace_all(text@.skip(i + 1), pat@, rep@))
                    =~= (out@ + seq![text@[i as int]]) + replace_all(
                    text@.skip(i + 1),
                    pat@,
                    rep@,
                ));
                assert(out@.push(text@[i as int]) =~= out@ + seq![text@[i as int]]);
            }
            out.push(text[i]);
            i += 1;
        }
    }
    proof {
        assert(text@.skip(i as int) =~= Seq::<char>::empty());
        assert(out@ + replace_all(Seq::<char>::empty(), pat@, rep@) =~= out@);
    }
    out
}

/// No occurrence of `p` in `u + v` begins in `u` and ends in `v`.
pub open spec fn no_straddle(u: Seq<char>, v: Seq<char>, p: Seq<char>) -> bool {
    forall|i: int|
        0 <= i < u.len() && i + p.len() > u.len() ==> !occurs_at(u + v, p, i)
}

/// Where `p` occurs nowhere in `t`, replacement leaves `t` unchanged and
/// the occurrence count is zero.
pub proof fn lemma_replace_absent(t: Seq<char>, p: Seq<char>, rep: Seq<char>)
    requires
        !has_sub(t, p),
    ensures
        replace_all(t, p, rep) == t,
        count_occ(t, p) == 0,
    decreases t.len(),
{
    if p.len() == 0 || t.len() < p.len() {
    } else {
        lemma_replace_absent(t.skip(1), p, rep);
        assert(seq![t[0]] + t.skip(1) =~= t);
    }
}

/// An occurrence of `p` somewhere in `t` makes `has_sub` true.
pub proof fn lemma_occurs_has_sub(t: Seq<char>, p: Seq<char>, i: int)
    requires
        p.len() >= 1,
        occurs_at(t, p, i),
    ensures
        has_sub(t, p),
    decreases i,
{
    if i == 0 {
        assert(t.take(p.len() as int) =~= t.subrange(0, p.len() as int));
    } else {
        assert(t.skip(1).subrange(i - 1, i - 1 + p.len() as int) =~= t.subrange(
            i,
            i + p.len() as int,
        ));
        lemma_occurs_has_sub(t.skip(1), p, i - 1);
    }
}

/// `has_sub` is witnessed by an occurrence.
pub proof fn lemma_has_sub_occurs(t: Seq<char>, p: Seq<char>) -> (i: int)
    requires
        p.len() >= 1,
        has_sub(t, p),
    ensures
        occurs_at(t, p, i),
    decreases t.len(),
{
    if t.take(p.len() as int) == p {
        assert(t.subrange(0, p.len() as int) =~= t.take(p.len() as int));
        0
    } else {
        let j = lemma_has_sub_occurs(t.skip(1), p);
        assert(t.subrange(j + 1, j + 1 + p.len() as int) =~= t.skip(1).subrange(
            j,
            j + p.len() as int,
        ));
        j + 1
    }
}

/// Every character of a pattern occurs in any text that holds the pattern.
pub proof fn lemma_has_sub_char(t: Seq<char>, p: Seq<char>, c: char)
    requires
        p.len() >= 1,
        has_sub(t, p),
        p.contains(c),
    ensures
        t.contains(c),
{
    let i = lemma_has_sub_occurs(t, p);
    let j = choose|j: int| 0 <= j < p.len() && p[j] == c;
    assert(t[i + j] == t.subrange(i, i + p.len() as int)[j]);
}

/// With no occurrence straddling the seam, a scan of `u + v` is a scan of
/// `u` followed by a scan of `v`: replacement distributes and occurrence
/// counts add.
pub proof fn lemma_scan_concat(u: Seq<char>, v: Seq<char>, p: Seq<char>, rep: Seq<char>)
    requires
        p.len() >= 1,
        no_straddle(u, v, p),
    ensures
        replace_all(u + v, p, rep) == replace_all(u, p, rep) + replace_all(v, p, rep),
        count_occ(u + v, p) == count_occ(u, p) + count_occ(v, p),
    decreases u.len(),
{
    let w = u + v;
    if u.len() == 0 {
        assert(w =~= v);
        assert(replace_all(u, p, rep) + replace_all(v, p, rep) =~= replace_all(v, p, rep));
    } else if w.len() < p.len() {
        assert(replace_all(u, p, rep) + replace_all(v, p, rep) =~= u + v);
    } else if u.len() < p.len() {
        // every position of `u` would straddle, so the scan walks through
        // `u` character by character
        assert(!occurs_at(w, p, 0));
        assert(w.take(p.len() as int) =~= w.subrange(0, p.len() as int));
        assert(w.skip(1) =~= u.skip(1) + v);
        assert forall|i: int|
            0 <= i < u.skip(1).len() && i + p.len() > u.skip(1).len() implies !occurs_at(
            u.skip(1) + v,
            p,
            i,
        ) by {
            if i + p.len() <= (u.skip(1) + v).len() {
                assert((u.skip(1) + v).subrange(i, i + p.len() as int) =~= w.subrange(
                    i + 1,
                    i + 1 + p.len() as int,
                ));
                assert(!occurs_at(w, p, i + 1));
            }
        }
        lemma_scan_concat(u.skip(1), v, p, rep);
        assert(replace_all(u, p, rep) == u);
        assert(replace_all(u.skip(1), p, rep) == u.skip(1));
        assert(seq![w[0]] + (u.skip(1) + replace_all(v, p, rep)) =~= u + replace_all(v, p, rep));
        assert(count_occ(u, p) == 0);
    } else {
        assert(w.take(p.len() as int) =~= u.take(p.len() as int));
        if u.take(p.len() as int) == p {
            assert(w.skip(p.len() as int) =~= u.skip(p.len() as int) + v);
            assert forall|i: int|
                0 <= i < u.skip(p.len() as int).len() && i + p.len() > u.skip(
                    p.len() as int,
                ).len() implies !occurs_at(u.skip(p.len() as int) + v, p, i) by {
                if i + p.len() <= (u.skip(p.len() as int) + v).len() {
                    assert((u.skip(p.len() as int) + v).subrange(i, i + p.len() as int)
                        =~= w.subrange(i + p.len(), i + p.len() + p.len()));
                    assert(!occurs_at(w, p, i + p.len()));
                }
            }
            lemma_scan_concat(u.skip(p.len() as int), v, p, rep);
            assert(rep + (replace_all(u.skip(p.len() as int), p, rep) + replace_all(v, p, rep))
                =~= (rep + replace_all(u.skip(p.len() as int), p, rep)) + replace_all(v, p, rep));
        } else {
            assert(w.skip(1) =~= u.skip(1) + v);
            assert forall|i: int|
                0 <= i < u.skip(1).len() && i + p.len() > u.skip(1).len() implies !occurs_at(
                u.skip(1) + v,
                p,
                i,
            ) by {
                if i + p.len() <= (u.skip(1) + v).len() {
                    assert((u.skip(1) + v).subrange(i, i + p.len() as int) =~= w.subrange(
                        i + 1,
                        i + 1 + p.len() as int,
                    ));
                    assert(!occurs_at(w, p, i + 1));
                }
            }
            lemma_scan_concat(u.skip(1), v, p, rep);
            assert(seq![w[0]] + (replace_all(u.skip(1), p, rep) + replace_all(v, p, rep)) =~= (
            seq![u[0]] + replace_all(u.skip(1), p, rep)) + replace_all(v, p, rep));
        }
    }
}

/// A pattern cannot straddle a seam when its first character stands
/// nowhere in the straddle range of the left side.
pub proof fn lemma_no_straddle_first_char(u: Seq<char>, v: Seq<char>, p: Seq<char>)
    requires
        p.len() >= 1,
        forall|i: int| 0 <= i < u.len() && i + p.len() > u.len() ==> u[i] != p[0],
    ensures
        no_straddle(u, v, p),
{
    assert forall|i: int|
        0 <= i < u.len() && i + p.len() > u.len() implies !occurs_at(u + v, p, i) by {
        if occurs_at(u + v, p, i) {
            assert((u + v).subrange(i, i + p.len() as int)[0] == p[0]);
            assert((u + v)[i] == u[i]);
        }
    }
}

/// A character absent from both parts is absent from their concatenation.
pub proof fn lemma_not_contains_concat(a: Seq<char>, b: Seq<char>, c: char)
    requires
        !a.contains(c),
        !b.contains(c),
    ensures
        !(a + b).contains(c),
{
    assert forall|i: int| 0 <= i < (a + b).len() implies (a + b)[i] != c by {
        if i < a.len() {
            assert((a + b)[i] == a[i]);
        } else {
            assert((a + b)[i] == b[i - a.len()]);
        }
    }
}

/// A pattern of one character never straddles a seam.
pub proof fn lemma_single_char_no_straddle(u: Seq<char>, v: Seq<char>, p: Seq<char>)
    requires
        p.len() == 1,
    ensures
        no_straddle(u, v, p),
{
}

/// Replacing in `x + p + y`, where `p` occurs in neither `x` nor `y` and no
/// occurrence straddles the seam of `x`, rewrites exactly the middle: the
/// occurrence count is one and the replacement puts `rep` where `p` stood.
pub proof fn lemma_replace_single(x: Seq<char>, p: Seq<char>, y: Seq<char>, rep: Seq<char>)
    requires
        p.len() >= 1,
        !has_sub(x, p),
        !has_sub(y, p),
        no_straddle(x, p + y, p),
    ensures
        replace_all(x + p + y, p, rep) == x + rep + y,
        count_occ(x + p + y, p) == 1,
{
    assert(x + p + y =~= x + (p + y));
    lemma_scan_concat(x, p + y, p, rep);
    lemma_replace_absent(x, p, rep);
    lemma_replace_absent(y, p, rep);
    assert((p + y).take(p.len() as int) =~= p);
    assert((p + y).skip(p.len() as int) =~= y);
    assert(replace_all(p + y, p, rep) == rep + y);
    assert(x + (rep + y) =~= x + rep + y);
}

/// The views of a sequence of character vectors.
pub open spec fn views_of(s: Seq<Vec<char>>) -> Seq<Seq<char>> {
    s.map_values(|v: Vec<char>| v@)
}

/// The characters of `s` collected into a vector.
pub fn chars_of(s: &str) -> (v: Vec<char>)
    ensures
        v@ == s@,
{
    let mut v: Vec<char> = Vec::new();
    for c in it: s.chars()
        invariant
            it.seq() == s@,
            v@ == it.seq().take(it.index() as int),
    {
        v.push(c);
    }
    proof {
        assert(v@ =~= s@);
    }
    v
}

/// The two vectors hold the same characters.
pub fn eq_chars(a: &Vec<char>, b: &Vec<char>) -> (r: bool)
    ensures
        r == (a@ == b@),
{
    if a.len() != b.len() {
        return false;
    }
    let mut i: usize = 0;
    while i < a.len()
        invariant
            0 <= i <= a@.len(),
            a@.len() == b@.len(),
            forall|k: int| 0 <= k < i ==> a@[k] == b@[k],
        decreases a@.len() - i,
    {
        if a[i] != b[i] {
            return false;
        }
        i += 1;
    }
    proof {
        assert(a@ =~= b@);
    }
    true
}

/// `src` appended to the end of `dst`.
pub fn append_chars(dst: &mut Vec<char>, src: &Vec<char>)
    ensures
        final(dst)@ == old(dst)@ + src@,
{
    let mut j: usize = 0;
    proof {
        assert(dst@ =~= old(dst)@ + src@.take(0));
    }
    while j < src.len()
        invariant
            0 <= j <= src@.len(),
            dst@ == old(dst)@ + src@.take(j as int),
        decreases src@.len() - j,
    {
        proof {
            assert((old(dst)@ + src@.take(j as int)).push(src@[j as int]) =~= old(dst)@
                + src@.take(j + 1));
        }
        dst.push(src[j]);
        j += 1;
    }
    proof {
        assert(src@.take(src@.len() as int) =~= src@);
    }
}

/// Whitespace test for a single character.
pub fn is_space_char(c: char) -> (b: bool)
    ensures
        b == is_space(c),
{
    c == ' ' || c == '\t' || c == '\n' || c == '\r' || c == '\u{b}' || c == '\u{c}'
}

/// `t` without leading and trailing whitespace.
pub fn trim_vec(t: &Vec<char>) -> (out: Vec<char>)
    ensures
        out@ == trim(t@),
{
    let n: usize = t.len();
    let mut s: usize = 0;
    proof {
        assert(t@.skip(0) =~= t@);
    }
    while s < n && is_space_char(t[s])
        invariant
            0 <= s <= n,
            n == t@.len(),
            leading_spaces(t@) == s + leading_spaces(t@.skip(s as int)),
        decreases n - s,
    {
        proof {
            assert(t@.skip(s as int)[0] == t@[s as int]);
            assert(t@.skip(s as int).skip(1) =~= t@.skip(s + 1));
        }
        s += 1;
    }
    proof {
        assert(leading_spaces(t@.skip(s as int)) == 0);
        assert(leading_spaces(t@) == s);
    }
    let ghost u = t@.skip(s as int);
    let mut e: usize = n;
    proof {
        assert(u.take(u.len() as int - 0) =~= u);
    }
    while e > s && is_space_char(t[e - 1])
        invariant
            s <= e <= n,
            n == t@.len(),
            u == t@.skip(s as int),
            trailing_spaces(u) == (n - e) + trailing_spaces(u.take(e - s)),
        decreases e,
    {
        proof {
            assert(u.take(e - s).last() == t@[e - 1]);
            assert(u.take(e - s).drop_last() =~= u.take(e - 1 - s));
        }
        e -= 1;
    }
    proof {
        assert(trailing_spaces(u.take(e - s)) == 0);
        assert(trailing_spaces(u) == n - e);
    }
    let mut out: Vec<char> = Vec::new();
    let mut i: usize = s;
    while i < e
        invariant
            s <= i <= e <= n,
            n == t@.len(),
            out@ == t@.subrange(s as int, i as int),
        decreases e - i,
    {
        proof {
            assert(t@.subrange(s as int, i + 1) =~= t@.subrange(s as int, i as int).push(
                t@[i as int],
            ));
        }
        out.push(t[i]);
        i += 1;
    }
    proof {
        assert(out@ =~= u.take(u.len() - trailing_spaces(u)));
    }
    out
}

/// The lines of `t`, as `lines_of` describes them.
pub fn lines_vec(t: &Vec<char>) -> (out: Vec<Vec<char>>)
    ensures
        out@.len() == lines_of(t@).len(),
        forall|k: int| 0 <= k < out@.len() ==> out@[k]@ == lines_of(t@)[k],
{
    let n: usize = t.len();
    let mut out: Vec<Vec<char>> = Vec::new();
    let mut cur: Vec<char> = Vec::new();
    let ghost all = lines_of(t@);
    let mut i: usize = 0;
    proof {
        assert(t@.skip(0) =~= t@);
    }
    while i < n
        invariant
            0 <= i <= n,
            n == t@.len(),
            all == lines_of(t@),
            forall|k: int| 0 <= k < out@.len() ==> all[k] == out@[k]@,
            i < n ==> all == out@.map_values(|v: Vec<char>| v@) + lines_rec(
                t@.skip(i as int),
                cur@,
            ),
            i == n ==> all == out@.map_values(|v: Vec<char>| v@) + if n > 0 && t@.last() != '\n' {
                seq![cur@]
            } else {
                Seq::<Seq<char>>::empty()
            },
        decreases n - i,
    {
        proof {
            assert(t@.skip(i as int)[0] == t@[i as int]);
            assert(t@.skip(i as int).skip(1) =~= t@.skip(i + 1));
        }
        if t[i] == '\n' {
            let ghost cur0 = cur@;
            let mut line = cur;
            cur = Vec::new();
            if line.len() > 0 && line[line.len() - 1] == '\r' {
                line.pop();
            }
            proof {
                assert(line@ =~= strip_cr(cur0));
                let m = |v: Vec<char>| v@;
                assert(out@.push(line).map_values(m) =~= out@.map_values(m).push(line@));
            }
            out.push(line);
        } else {
            cur.push(t[i]);
        }
        i += 1;
    }
    if n > 0 && t[n - 1] != '\n' {
        proof {
            let m = |v: Vec<char>| v@;
            assert(out@.push(cur).map_values(m) =~= out@.map_values(m).push(cur@));
        }
        out.push(cur);
    }
    out
}

} // verus!
