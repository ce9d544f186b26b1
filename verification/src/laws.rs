//! Laws of the renderer and assembler, each proved once and for all: how a
//! record's values land in the rendered cell, what the deprecation styling
//! does, and which lines are never placeholders.
//!
//! Substitution is literal text replacement, so each law about one marker
//! holds under non-interference hypotheses: the surrounding text must not
//! itself hold the marker, and no later substitution may match across the
//! text inserted by an earlier one. The templates are constructed so these
//! hypotheses hold; the lemmas state them explicitly.

use vstd::prelude::*;

use crate::chart::{
    deprecated_class, hiragana_marker, in_use_class, is_candidate, kanji_fragment,
    kanji_placeholder, katakana_marker, render_body, render_cell, romaji_marker,
};
use crate::dataset::KanaView;
use crate::text::{
    count_occ, has_sub, lemma_has_sub_char, lemma_no_straddle_first_char,
    lemma_not_contains_concat, lemma_occurs_has_sub, lemma_replace_absent, lemma_replace_single,
    lemma_scan_concat, lemma_single_char_no_straddle, no_straddle, occurs_at, replace_all,
};

verus! {

/// The hiragana and katakana substitutions applied to one piece of text.
pub open spec fn subst_kana(t: Seq<char>, k: KanaView) -> Seq<char> {
    replace_all(replace_all(t, hiragana_marker(), k.hiragana), katakana_marker(), k.katakana)
}

/// The kanji-annotation substitution applied to one piece of text.
pub open spec fn subst_kanji(t: Seq<char>, k: KanaView) -> Seq<char> {
    replace_all(t, kanji_placeholder(), kanji_fragment(k))
}

/// The deprecation styling applied to one piece of text: the deprecated
/// class token is rewritten only for a record in use.
pub open spec fn subst_style(t: Seq<char>, k: KanaView) -> Seq<char> {
    if !k.deprecated {
        replace_all(t, deprecated_class(), in_use_class())
    } else {
        t
    }
}

/// Everything the renderer does to a piece of text that holds no romaji
/// marker: the kana, kanji and styling substitutions in order.
pub open spec fn subst_after_romaji(t: Seq<char>, k: KanaView) -> Seq<char> {
    subst_style(subst_kanji(subst_kana(t, k), k), k)
}

/// Rendering is deterministic: two renderings of the same record from the
/// same cell template are the same text.
pub proof fn lemma_render_deterministic(cell: Seq<char>, k: KanaView, r1: Seq<char>, r2: Seq<char>)
    requires
        r1 == render_cell(cell, k),
        r2 == render_cell(cell, k),
    ensures
        r1 == r2,
{
}

/// A line holding the empty-cell pattern is never a placeholder cell.
pub proof fn lemma_empty_cell_never_candidate(line: Seq<char>)
    requires
        has_sub(line, "<td></td>"@),
    ensures
        !is_candidate(line),
{
}

/// Round trip of the romaji key (the lookup table hands the renderer the
/// record stored under the key, and the rendered cell shows the key): where
/// the cell template holds the romaji marker exactly once, neither segment
/// around it nor the key holds a marker, and no later substitution matches
/// across the inserted key or recreates it, the rendered body holds the
/// romaji exactly once, exactly where the marker stood.
pub proof fn lemma_romaji_round_trip(p0: Seq<char>, p1: Seq<char>, k: KanaView)
    requires
        k.romaji.len() >= 1,
        !p0.contains('@'),
        !p1.contains('@'),
        !k.romaji.contains('@'),
        !k.romaji.contains('\u{3042}'),
        !k.romaji.contains('\u{30a2}'),
        !has_sub(k.romaji, kanji_placeholder()),
        no_straddle(subst_kana(p0, k), k.romaji + subst_kana(p1, k), kanji_placeholder()),
        no_straddle(k.romaji, subst_kana(p1, k), kanji_placeholder()),
        !k.deprecated ==> {
            &&& !has_sub(k.romaji, deprecated_class())
            &&& no_straddle(
                subst_kanji(subst_kana(p0, k), k),
                k.romaji + subst_kanji(subst_kana(p1, k), k),
                deprecated_class(),
            )
            &&& no_straddle(k.romaji, subst_kanji(subst_kana(p1, k), k), deprecated_class())
        },
        !has_sub(subst_after_romaji(p0, k), k.romaji),
        !has_sub(subst_after_romaji(p1, k), k.romaji),
        no_straddle(subst_after_romaji(p0, k), k.romaji + subst_after_romaji(p1, k), k.romaji),
    ensures
        render_body(p0 + romaji_marker() + p1, k) == subst_after_romaji(p0, k) + k.romaji
            + subst_after_romaji(p1, k),
        count_occ(render_body(p0 + romaji_marker() + p1, k), k.romaji) == 1,
{
    let m = romaji_marker();
    let mh = hiragana_marker();
    let mk = katakana_marker();
    let kp = kanji_placeholder();
    let dc = deprecated_class();
    let r = k.romaji;
    reveal_strlit("@");
    reveal_strlit("\u{3042}");
    reveal_strlit("\u{30a2}");
    reveal_strlit("<div class=\"kanji-placeholder\" />");
    reveal_strlit("chart-cell-table-deprecated");
    reveal_strlit("chart-cell-table-in-use");
    assert(m.len() == 1 && m[0] == '@');
    assert(mh.len() == 1 && mh[0] == '\u{3042}');
    assert(mk.len() == 1 && mk[0] == '\u{30a2}');
    assert(m.contains('@'));
    assert(mh.contains('\u{3042}'));
    assert(mk.contains('\u{30a2}'));
    // step one: the marker, occurring exactly once, becomes the romaji
    assert(!has_sub(p0, m)) by {
        if has_sub(p0, m) {
            lemma_has_sub_char(p0, m, '@');
        }
    }
    assert(!has_sub(p1, m)) by {
        if has_sub(p1, m) {
            lemma_has_sub_char(p1, m, '@');
        }
    }
    lemma_single_char_no_straddle(p0, m + p1, m);
    lemma_replace_single(p0, m, p1, r);
    let t1 = replace_all(p0 + m + p1, m, r);
    assert(t1 == p0 + r + p1);
    // steps two and three: the kana markers are single characters absent
    // from the romaji, so they substitute within each segment alone
    assert(!has_sub(r, mh)) by {
        if has_sub(r, mh) {
            lemma_has_sub_char(r, mh, '\u{3042}');
        }
    }
    assert(!has_sub(r, mk)) by {
        if has_sub(r, mk) {
            lemma_has_sub_char(r, mk, '\u{30a2}');
        }
    }
    assert(p0 + r + p1 =~= p0 + (r + p1));
    lemma_single_char_no_straddle(p0, r + p1, mh);
    lemma_scan_concat(p0, r + p1, mh, k.hiragana);
    lemma_single_char_no_straddle(r, p1, mh);
    lemma_scan_concat(r, p1, mh, k.hiragana);
    lemma_replace_absent(r, mh, k.hiragana);
    let h0 = replace_all(p0, mh, k.hiragana);
    let h1 = replace_all(p1, mh, k.hiragana);
    let t2 = replace_all(t1, mh, k.hiragana);
    assert(t2 == h0 + (r + h1));
    lemma_single_char_no_straddle(h0, r + h1, mk);
    lemma_scan_concat(h0, r + h1, mk, k.katakana);
    lemma_single_char_no_straddle(r, h1, mk);
    lemma_scan_concat(r, h1, mk, k.katakana);
    lemma_replace_absent(r, mk, k.katakana);
    let q0 = subst_kana(p0, k);
    let q1 = subst_kana(p1, k);
    let t3 = replace_all(t2, mk, k.katakana);
    assert(t3 == q0 + (r + q1));
    // step four: the kanji placeholder substitutes within each segment
    assert(kp.len() >= 1);
    lemma_scan_concat(q0, r + q1, kp, kanji_fragment(k));
    lemma_scan_concat(r, q1, kp, kanji_fragment(k));
    lemma_replace_absent(r, kp, kanji_fragment(k));
    let g0 = subst_kanji(q0, k);
    let g1 = subst_kanji(q1, k);
    let t4 = replace_all(t3, kp, kanji_fragment(k));
    assert(t4 == g0 + (r + g1));
    // step five: the styling substitution, for a record in use
    let a = subst_after_romaji(p0, k);
    let b = subst_after_romaji(p1, k);
    let body = render_body(p0 + m + p1, k);
    if !k.deprecated {
        assert(dc.len() >= 1);
        lemma_scan_concat(g0, r + g1, dc, in_use_class());
        lemma_scan_concat(r, g1, dc, in_use_class());
        lemma_replace_absent(r, dc, in_use_class());
        assert(body == a + (r + b));
    } else {
        assert(body == a + (r + b));
    }
    assert(a + (r + b) =~= a + r + b);
    // the key stands exactly once: it occurs in neither transformed segment
    // and nothing matches across the seams
    lemma_replace_single(a, r, b, r);
}

/// The round trip carried to the whole rendered cell: under the same
/// hypotheses, and with the enclosing table-cell markers neither holding
/// nor helping form the key, the full cell shows the romaji exactly once.
pub proof fn lemma_romaji_round_trip_cell(p0: Seq<char>, p1: Seq<char>, k: KanaView)
    requires
        k.romaji.len() >= 1,
        !p0.contains('@'),
        !p1.contains('@'),
        !k.romaji.contains('@'),
        !k.romaji.contains('\u{3042}'),
        !k.romaji.contains('\u{30a2}'),
        !has_sub(k.romaji, kanji_placeholder()),
        no_straddle(subst_kana(p0, k), k.romaji + subst_kana(p1, k), kanji_placeholder()),
        no_straddle(k.romaji, subst_kana(p1, k), kanji_placeholder()),
        !k.deprecated ==> {
            &&& !has_sub(k.romaji, deprecated_class())
            &&& no_straddle(
                subst_kanji(subst_kana(p0, k), k),
                k.romaji + subst_kanji(subst_kana(p1, k), k),
                deprecated_class(),
            )
            &&& no_straddle(k.romaji, subst_kanji(subst_kana(p1, k), k), deprecated_class())
        },
        !has_sub(subst_after_romaji(p0, k), k.romaji),
        !has_sub(subst_after_romaji(p1, k), k.romaji),
        no_straddle(subst_after_romaji(p0, k), k.romaji + subst_after_romaji(p1, k), k.romaji),
        !has_sub("<td>"@, k.romaji),
        !has_sub("</td>"@, k.romaji),
        no_straddle("<td>"@, render_body(p0 + romaji_marker() + p1, k) + "</td>"@, k.romaji),
        no_straddle(render_body(p0 + romaji_marker() + p1, k), "</td>"@, k.romaji),
    ensures
        count_occ(render_cell(p0 + romaji_marker() + p1, k), k.romaji) == 1,
{
    let cell = p0 + romaji_marker() + p1;
    lemma_romaji_round_trip(p0, p1, k);
    lemma_count_mid("<td>"@, render_body(cell, k), "</td>"@, k.romaji);
}

/// Deprecation styling: where the body before styling holds the deprecated
/// class token exactly once and the styling substitution cannot match
/// across the seams, a record in use gets the in-use token and retains no
/// deprecated token, and a deprecated record keeps its token untouched.
pub proof fn lemma_deprecation_styling(u0: Seq<char>, u1: Seq<char>, k: KanaView)
    requires
        !has_sub(u0, deprecated_class()),
        !has_sub(u1, deprecated_class()),
        no_straddle(u0, deprecated_class() + u1, deprecated_class()),
        !k.deprecated ==> no_straddle(u0, in_use_class() + u1, deprecated_class()),
        !k.deprecated ==> no_straddle(in_use_class(), u1, deprecated_class()),
    ensures
        k.deprecated ==> subst_style(u0 + deprecated_class() + u1, k) == u0 + deprecated_class()
            + u1,
        k.deprecated ==> has_sub(subst_style(u0 + deprecated_class() + u1, k), deprecated_class()),
        !k.deprecated ==> subst_style(u0 + deprecated_class() + u1, k) == u0 + in_use_class() + u1,
        !k.deprecated ==> count_occ(subst_style(u0 + deprecated_class() + u1, k), deprecated_class())
            == 0,
        !k.deprecated ==> has_sub(subst_style(u0 + deprecated_class() + u1, k), in_use_class()),
{
    let dc = deprecated_class();
    let iu = in_use_class();
    reveal_strlit("chart-cell-table-deprecated");
    reveal_strlit("chart-cell-table-in-use");
    let t = u0 + dc + u1;
    if k.deprecated {
        assert(t.subrange(u0.len() as int, u0.len() + dc.len() as int) =~= dc);
        assert(occurs_at(t, dc, u0.len() as int));
        lemma_occurs_has_sub(t, dc, u0.len() as int);
    } else {
        lemma_replace_single(u0, dc, u1, iu);
        let s = u0 + iu + u1;
        assert(s =~= u0 + (iu + u1));
        lemma_scan_concat(u0, iu + u1, dc, iu);
        lemma_scan_concat(iu, u1, dc, iu);
        lemma_replace_absent(u0, dc, iu);
        lemma_replace_absent(u1, dc, iu);
        assert(count_occ(iu, dc) == 0);
        assert(s.subrange(u0.len() as int, u0.len() + iu.len() as int) =~= iu);
        assert(occurs_at(s, iu, u0.len() as int));
        lemma_occurs_has_sub(s, iu, u0.len() as int);
    }
}

/// Text made only of characters outside the ASCII range, as the ideographic
/// source annotations of the dataset are.
pub open spec fn ideographic(s: Seq<char>) -> bool {
    forall|i: int| 0 <= i < s.len() ==> (s[i] as u32) > 127
}

/// A record with a common kanji source renders its annotation as exactly
/// one cell that spans both columns, and no syllabary-specific kanji cell:
/// the fragment is the spanning cell around the common source, the spanning
/// cell's opening occurs in it exactly once, and the two syllabary class
/// tokens occur in it not at all.
pub proof fn lemma_common_source_fragment(k: KanaView)
    requires
        k.common_source.len() >= 1,
        ideographic(k.common_source),
    ensures
        kanji_fragment(k) == "<td class=\"kanji\" colspan=\"2\">"@ + k.common_source + "</td>"@,
        count_occ(kanji_fragment(k), "<td class=\"kanji\" colspan=\"2\">"@) == 1,
        count_occ(kanji_fragment(k), "kanji-hiragana"@) == 0,
        count_occ(kanji_fragment(k), "kanji-katakana"@) == 0,
{
    let ec = "<td class=\"kanji\" colspan=\"2\">"@;
    let cl = "</td>"@;
    let kh = "kanji-hiragana"@;
    let kk = "kanji-katakana"@;
    let cs = k.common_source;
    let frag = kanji_fragment(k);
    reveal_strlit("<td class=\"kanji\" colspan=\"2\">");
    reveal_strlit("</td>");
    reveal_strlit("kanji-hiragana");
    reveal_strlit("kanji-katakana");
    // the spanning cell opens the fragment and recurs nowhere later
    assert(!cs.contains('"')) by {
        assert(forall|i: int| 0 <= i < cs.len() ==> cs[i] != '"');
    }
    assert(!cl.contains('"')) by {
        assert(forall|i: int| 0 <= i < cl.len() ==> cl[i] != '"');
    }
    lemma_not_contains_concat(cs, cl, '"');
    assert(ec.contains('"')) by {
        assert(ec[10] == '"');
    }
    assert(!has_sub(cs + cl, ec)) by {
        if has_sub(cs + cl, ec) {
            lemma_has_sub_char(cs + cl, ec, '"');
        }
    }
    assert(!has_sub(Seq::<char>::empty(), ec));
    assert(no_straddle(Seq::<char>::empty(), ec + (cs + cl), ec));
    lemma_replace_single(Seq::empty(), ec, cs + cl, ec);
    assert(Seq::<char>::empty() + ec + (cs + cl) =~= frag);
    // neither syllabary token occurs: the fragment holds no hyphen
    assert(!ec.contains('-')) by {
        assert(forall|i: int| 0 <= i < ec.len() ==> ec[i] != '-');
    }
    assert(!cs.contains('-')) by {
        assert(forall|i: int| 0 <= i < cs.len() ==> cs[i] != '-');
    }
    assert(!cl.contains('-')) by {
        assert(forall|i: int| 0 <= i < cl.len() ==> cl[i] != '-');
    }
    lemma_not_contains_concat(ec, cs, '-');
    lemma_not_contains_concat(ec + cs, cl, '-');
    assert(frag =~= (ec + cs) + cl);
    assert(kh.contains('-')) by {
        assert(kh[5] == '-');
    }
    assert(kk.contains('-')) by {
        assert(kk[5] == '-');
    }
    assert(!has_sub(frag, kh)) by {
        if has_sub(frag, kh) {
            lemma_has_sub_char(frag, kh, '-');
        }
    }
    assert(!has_sub(frag, kk)) by {
        if has_sub(frag, kk) {
            lemma_has_sub_char(frag, kk, '-');
        }
    }
    lemma_replace_absent(frag, kh, kh);
    lemma_replace_absent(frag, kk, kk);
}

/// The pair fragment laid out flat: the hiragana-classed cell around the
/// hiragana source, then the katakana-classed cell around the katakana
/// source.
proof fn lemma_split_structure(k: KanaView)
    requires
        k.common_source.len() == 0,
    ensures
        kanji_fragment(k) == "\n                    "@ + ("<td class=\"kanji kanji-hiragana\">"@
            + (k.hiragana_source + ("</td>\n                    "@ + ("<td class=\"kanji kanji-katakana\">"@
            + (k.katakana_source + "</td>\n                "@))))),
        kanji_fragment(k) == "\n                    "@ + "<td class=\"kanji kanji-hiragana\">"@
            + k.hiragana_source + "</td>\n                    "@
            + "<td class=\"kanji kanji-katakana\">"@ + k.katakana_source
            + "</td>\n                "@,
{
    reveal_strlit("\n                    ");
    reveal_strlit("<td class=\"kanji kanji-hiragana\">");
    reveal_strlit("</td>\n                    ");
    reveal_strlit("<td class=\"kanji kanji-katakana\">");
    reveal_strlit("</td>\n                ");
    reveal_strlit("\n                    <td class=\"kanji kanji-hiragana\">");
    reveal_strlit("</td>\n                    <td class=\"kanji kanji-katakana\">");
    let ws = "\n                    "@;
    let eh = "<td class=\"kanji kanji-hiragana\">"@;
    let sep = "</td>\n                    "@;
    let ek = "<td class=\"kanji kanji-katakana\">"@;
    let tail = "</td>\n                "@;
    let hs = k.hiragana_source;
    let ks = k.katakana_source;
    assert("\n                    <td class=\"kanji kanji-hiragana\">"@ =~= ws + eh);
    assert("</td>\n                    <td class=\"kanji kanji-katakana\">"@ =~= sep + ek);
    assert(kanji_fragment(k) =~= ws + (eh + (hs + (sep + (ek + (ks + tail))))));
    assert(kanji_fragment(k) =~= ws + eh + hs + sep + ek + ks + tail);
}

/// Either cell opening of the pair fragment occurs in it exactly once.
#[verifier::rlimit(60)]
proof fn lemma_split_count_one(k: KanaView, p: Seq<char>)
    requires
        k.common_source.len() == 0,
        ideographic(k.hiragana_source),
        ideographic(k.katakana_source),
        p == "<td class=\"kanji kanji-hiragana\">"@ || p == "<td class=\"kanji kanji-katakana\">"@,
    ensures
        count_occ(kanji_fragment(k), p) == 1,
{
    reveal_strlit("\n                    ");
    reveal_strlit("<td class=\"kanji kanji-hiragana\">");
    reveal_strlit("</td>\n                    ");
    reveal_strlit("<td class=\"kanji kanji-katakana\">");
    reveal_strlit("</td>\n                ");
    let ws = "\n                    "@;
    let eh = "<td class=\"kanji kanji-hiragana\">"@;
    let sep = "</td>\n                    "@;
    let ek = "<td class=\"kanji kanji-katakana\">"@;
    let tail = "</td>\n                "@;
    let hs = k.hiragana_source;
    let ks = k.katakana_source;
    let frag = kanji_fragment(k);
    let rest5 = ks + tail;
    let rest4 = ek + rest5;
    let rest3 = sep + rest4;
    let rest2 = hs + rest3;
    let rest1 = eh + rest2;
    lemma_split_structure(k);
    assert(frag == ws + rest1);
    assert(p.len() == 33 && p[0] == '<' && p[1] == 't');
    // the opening straddles no seam: no bracket stands late enough in any
    // left side, except the bracket of a closing tag, where the slash
    // refutes the match
    assert(no_straddle(ws, rest1, p)) by {
        assert(forall|i: int| 0 <= i < ws.len() ==> ws[i] != '<');
        lemma_no_straddle_first_char(ws, rest1, p);
    }
    assert(no_straddle(eh, rest2, p)) by {
        assert(forall|i: int| 1 <= i < eh.len() ==> eh[i] != '<');
        lemma_no_straddle_first_char(eh, rest2, p);
    }
    assert(no_straddle(hs, rest3, p)) by {
        assert(forall|i: int| 0 <= i < hs.len() ==> hs[i] != '<');
        lemma_no_straddle_first_char(hs, rest3, p);
    }
    assert(no_straddle(sep, rest4, p)) by {
        assert forall|i: int| 0 <= i < sep.len() && i + p.len() > sep.len() implies !occurs_at(
            sep + rest4,
            p,
            i,
        ) by {
            if occurs_at(sep + rest4, p, i) {
                if i == 0 {
                    assert((sep + rest4).subrange(0, p.len() as int)[1] == p[1]);
                    assert((sep + rest4)[1] == '/');
                } else {
                    assert((sep + rest4).subrange(i, i + p.len() as int)[0] == p[0]);
                    assert((sep + rest4)[i] == sep[i]);
                }
            }
        }
    }
    assert(no_straddle(ek, rest5, p)) by {
        assert(forall|i: int| 1 <= i < ek.len() ==> ek[i] != '<');
        lemma_no_straddle_first_char(ek, rest5, p);
    }
    assert(no_straddle(ks, tail, p)) by {
        assert(forall|i: int| 0 <= i < ks.len() ==> ks[i] != '<');
        lemma_no_straddle_first_char(ks, tail, p);
    }
    // the opening occurs once in its own cell and nowhere else
    assert(count_occ(hs, p) == 0 && count_occ(ks, p) == 0) by {
        assert(!hs.contains('<') && !ks.contains('<'));
        if has_sub(hs, p) {
            lemma_has_sub_char(hs, p, '<');
        }
        if has_sub(ks, p) {
            lemma_has_sub_char(ks, p, '<');
        }
        lemma_replace_absent(hs, p, p);
        lemma_replace_absent(ks, p, p);
    }
    assert(count_occ(eh, p) + count_occ(ek, p) == 1) by {
        assert(eh.take(33) =~= eh);
        assert(ek.take(33) =~= ek);
        assert(count_occ(eh.skip(33), p) == 0);
        assert(count_occ(ek.skip(33), p) == 0);
        assert(eh[23] == 'h' && ek[23] == 'k');
        assert(count_occ(eh.skip(1), p) == 0);
        assert(count_occ(ek.skip(1), p) == 0);
    }
    assert(count_occ(ws, p) == 0 && count_occ(sep, p) == 0 && count_occ(tail, p) == 0);
    lemma_scan_concat(ks, tail, p, p);
    lemma_scan_concat(ek, rest5, p, p);
    lemma_scan_concat(sep, rest4, p, p);
    lemma_scan_concat(hs, rest3, p, p);
    lemma_scan_concat(eh, rest2, p, p);
    lemma_scan_concat(ws, rest1, p, p);
}

/// A pattern that occurs in neither flank and straddles no seam occurs in
/// `x + m + y` exactly as often as in `m`.
pub proof fn lemma_count_mid(x: Seq<char>, m: Seq<char>, y: Seq<char>, p: Seq<char>)
    requires
        p.len() >= 1,
        !has_sub(x, p),
        !has_sub(y, p),
        no_straddle(x, m + y, p),
        no_straddle(m, y, p),
    ensures
        count_occ(x + m + y, p) == count_occ(m, p),
{
    assert(x + m + y =~= x + (m + y));
    lemma_scan_concat(x, m + y, p, p);
    lemma_scan_concat(m, y, p, p);
    lemma_replace_absent(x, p, p);
    lemma_replace_absent(y, p, p);
}

/// The kanji annotation holds no deprecated class token: its text has no
/// letter b outside the ideographic sources, and the token needs one.
proof fn lemma_fragment_free_of_deprecated(k: KanaView)
    requires
        ideographic(k.hiragana_source),
        ideographic(k.katakana_source),
        ideographic(k.common_source),
    ensures
        !has_sub(kanji_fragment(k), deprecated_class()),
{
    let dc = deprecated_class();
    let frag = kanji_fragment(k);
    reveal_strlit("chart-cell-table-deprecated");
    assert(dc.contains('b')) by {
        assert(dc[13] == 'b');
    }
    if k.common_source.len() == 0 {
        reveal_strlit("\n                    <td class=\"kanji kanji-hiragana\">");
        reveal_strlit("</td>\n                    <td class=\"kanji kanji-katakana\">");
        reveal_strlit("</td>\n                ");
        let p1 = "\n                    <td class=\"kanji kanji-hiragana\">"@;
        let p2 = "</td>\n                    <td class=\"kanji kanji-katakana\">"@;
        let p3 = "</td>\n                "@;
        assert(forall|i: int| 0 <= i < p1.len() ==> p1[i] != 'b');
        assert(forall|i: int| 0 <= i < p2.len() ==> p2[i] != 'b');
        assert(forall|i: int| 0 <= i < p3.len() ==> p3[i] != 'b');
        lemma_not_contains_concat(p1, k.hiragana_source, 'b');
        lemma_not_contains_concat(p1 + k.hiragana_source, p2, 'b');
        lemma_not_contains_concat(p1 + k.hiragana_source + p2, k.katakana_source, 'b');
        lemma_not_contains_concat(p1 + k.hiragana_source + p2 + k.katakana_source, p3, 'b');
        assert(frag =~= p1 + k.hiragana_source + p2 + k.katakana_source + p3);
    } else {
        reveal_strlit("<td class=\"kanji\" colspan=\"2\">");
        reveal_strlit("</td>");
        let e1 = "<td class=\"kanji\" colspan=\"2\">"@;
        let e2 = "</td>"@;
        assert(forall|i: int| 0 <= i < e1.len() ==> e1[i] != 'b');
        assert(forall|i: int| 0 <= i < e2.len() ==> e2[i] != 'b');
        lemma_not_contains_concat(e1, k.common_source, 'b');
        lemma_not_contains_concat(e1 + k.common_source, e2, 'b');
        assert(frag =~= e1 + k.common_source + e2);
    }
    if has_sub(frag, dc) {
        lemma_has_sub_char(frag, dc, 'b');
    }
}

/// Where the text before the kanji substitution holds the placeholder
/// exactly once, the substitution puts the annotation fragment there, and
/// the styling pass rewrites only the flanks: the fragment, free of the
/// deprecated token, comes through untouched.
pub proof fn lemma_annotation_in_body(u0: Seq<char>, u1: Seq<char>, k: KanaView)
    requires
        ideographic(k.hiragana_source),
        ideographic(k.katakana_source),
        ideographic(k.common_source),
        !has_sub(u0, kanji_placeholder()),
        !has_sub(u1, kanji_placeholder()),
        no_straddle(u0, kanji_placeholder() + u1, kanji_placeholder()),
        !k.deprecated ==> no_straddle(u0, kanji_fragment(k) + u1, deprecated_class()),
        !k.deprecated ==> no_straddle(kanji_fragment(k), u1, deprecated_class()),
    ensures
        subst_style(subst_kanji(u0 + kanji_placeholder() + u1, k), k) == subst_style(u0, k)
            + kanji_fragment(k) + subst_style(u1, k),
{
    let kp = kanji_placeholder();
    let dc = deprecated_class();
    let iu = in_use_class();
    let frag = kanji_fragment(k);
    reveal_strlit("<div class=\"kanji-placeholder\" />");
    reveal_strlit("chart-cell-table-deprecated");
    lemma_replace_single(u0, kp, u1, frag);
    assert(subst_kanji(u0 + kp + u1, k) == u0 + frag + u1);
    if !k.deprecated {
        assert(u0 + frag + u1 =~= u0 + (frag + u1));
        lemma_scan_concat(u0, frag + u1, dc, iu);
        lemma_scan_concat(frag, u1, dc, iu);
        lemma_fragment_free_of_deprecated(k);
        lemma_replace_absent(frag, dc, iu);
        assert(subst_style(u0, k) + (frag + subst_style(u1, k)) =~= subst_style(u0, k) + frag
            + subst_style(u1, k));
    }
}

/// A record without a common kanji source renders its annotation as two
/// adjacent cells, one per syllabary: the fragment is the hiragana-classed
/// cell around the hiragana source followed by the katakana-classed cell
/// around the katakana source, and each cell's opening occurs in the
/// fragment exactly once.
pub proof fn lemma_split_source_fragment(k: KanaView)
    requires
        k.common_source.len() == 0,
        ideographic(k.hiragana_source),
        ideographic(k.katakana_source),
    ensures
        kanji_fragment(k) == "\n                    "@ + "<td class=\"kanji kanji-hiragana\">"@
            + k.hiragana_source + "</td>\n                    "@
            + "<td class=\"kanji kanji-katakana\">"@ + k.katakana_source
            + "</td>\n                "@,
        count_occ(kanji_fragment(k), "<td class=\"kanji kanji-hiragana\">"@) == 1,
        count_occ(kanji_fragment(k), "<td class=\"kanji kanji-katakana\">"@) == 1,
{
    lemma_split_structure(k);
    lemma_split_count_one(k, "<td class=\"kanji kanji-hiragana\">"@);
    lemma_split_count_one(k, "<td class=\"kanji kanji-katakana\">"@);
}

/// A record with a common kanji source shows, in the whole rendered body,
/// exactly one annotation cell spanning both columns and no
/// syllabary-specific annotation cell — provided the styled flanks of the
/// placeholder neither hold nor help form any of those elements.
pub proof fn lemma_common_source_cell(u0: Seq<char>, u1: Seq<char>, k: KanaView)
    requires
        k.common_source.len() >= 1,
        ideographic(k.hiragana_source),
        ideographic(k.katakana_source),
        ideographic(k.common_source),
        !has_sub(u0, kanji_placeholder()),
        !has_sub(u1, kanji_placeholder()),
        no_straddle(u0, kanji_placeholder() + u1, kanji_placeholder()),
        !k.deprecated ==> no_straddle(u0, kanji_fragment(k) + u1, deprecated_class()),
        !k.deprecated ==> no_straddle(kanji_fragment(k), u1, deprecated_class()),
        !has_sub(subst_style(u0, k), "<td class=\"kanji\" colspan=\"2\">"@),
        !has_sub(subst_style(u1, k), "<td class=\"kanji\" colspan=\"2\">"@),
        no_straddle(
            subst_style(u0, k),
            kanji_fragment(k) + subst_style(u1, k),
            "<td class=\"kanji\" colspan=\"2\">"@,
        ),
        no_straddle(kanji_fragment(k), subst_style(u1, k), "<td class=\"kanji\" colspan=\"2\">"@),
        !has_sub(subst_style(u0, k), "kanji-hiragana"@),
        !has_sub(subst_style(u1, k), "kanji-hiragana"@),
        no_straddle(subst_style(u0, k), kanji_fragment(k) + subst_style(u1, k), "kanji-hiragana"@),
        no_straddle(kanji_fragment(k), subst_style(u1, k), "kanji-hiragana"@),
        !has_sub(subst_style(u0, k), "kanji-katakana"@),
        !has_sub(subst_style(u1, k), "kanji-katakana"@),
        no_straddle(subst_style(u0, k), kanji_fragment(k) + subst_style(u1, k), "kanji-katakana"@),
        no_straddle(kanji_fragment(k), subst_style(u1, k), "kanji-katakana"@),
    ensures
        count_occ(
            subst_style(subst_kanji(u0 + kanji_placeholder() + u1, k), k),
            "<td class=\"kanji\" colspan=\"2\">"@,
        ) == 1,
        count_occ(subst_style(subst_kanji(u0 + kanji_placeholder() + u1, k), k), "kanji-hiragana"@)
            == 0,
        count_occ(subst_style(subst_kanji(u0 + kanji_placeholder() + u1, k), k), "kanji-katakana"@)
            == 0,
{
    let ec = "<td class=\"kanji\" colspan=\"2\">"@;
    let kh = "kanji-hiragana"@;
    let kk = "kanji-katakana"@;
    let frag = kanji_fragment(k);
    let s0 = subst_style(u0, k);
    let s1 = subst_style(u1, k);
    reveal_strlit("<td class=\"kanji\" colspan=\"2\">");
    reveal_strlit("kanji-hiragana");
    reveal_strlit("kanji-katakana");
    lemma_annotation_in_body(u0, u1, k);
    lemma_common_source_fragment(k);
    lemma_count_mid(s0, frag, s1, ec);
    lemma_count_mid(s0, frag, s1, kh);
    lemma_count_mid(s0, frag, s1, kk);
}

/// A record without a common kanji source shows, in the whole rendered
/// body, exactly one hiragana-classed and one katakana-classed annotation
/// cell — provided the styled flanks of the placeholder neither hold nor
/// help form either element.
pub proof fn lemma_split_source_cell(u0: Seq<char>, u1: Seq<char>, k: KanaView)
    requires
        k.common_source.len() == 0,
        ideographic(k.hiragana_source),
        ideographic(k.katakana_source),
        !has_sub(u0, kanji_placeholder()),
        !has_sub(u1, kanji_placeholder()),
        no_straddle(u0, kanji_placeholder() + u1, kanji_placeholder()),
        !k.deprecated ==> no_straddle(u0, kanji_fragment(k) + u1, deprecated_class()),
        !k.deprecated ==> no_straddle(kanji_fragment(k), u1, deprecated_class()),
        !has_sub(subst_style(u0, k), "<td class=\"kanji kanji-hiragana\">"@),
        !has_sub(subst_style(u1, k), "<td class=\"kanji kanji-hiragana\">"@),
        no_straddle(
            subst_style(u0, k),
            kanji_fragment(k) + subst_style(u1, k),
            "<td class=\"kanji kanji-hiragana\">"@,
        ),
        no_straddle(
            kanji_fragment(k),
            subst_style(u1, k),
            "<td class=\"kanji kanji-hiragana\">"@,
        ),
        !has_sub(subst_style(u0, k), "<td class=\"kanji kanji-katakana\">"@),
        !has_sub(subst_style(u1, k), "<td class=\"kanji kanji-katakana\">"@),
        no_straddle(
            subst_style(u0, k),
            kanji_fragment(k) + subst_style(u1, k),
            "<td class=\"kanji kanji-katakana\">"@,
        ),
        no_straddle(
            kanji_fragment(k),
            subst_style(u1, k),
            "<td class=\"kanji kanji-katakana\">"@,
        ),
    ensures
        count_occ(
            subst_style(subst_kanji(u0 + kanji_placeholder() + u1, k), k),
            "<td class=\"kanji kanji-hiragana\">"@,
        ) == 1,
        count_occ(
            subst_style(subst_kanji(u0 + kanji_placeholder() + u1, k), k),
            "<td class=\"kanji kanji-katakana\">"@,
        ) == 1,
{
    let eh = "<td class=\"kanji kanji-hiragana\">"@;
    let ek = "<td class=\"kanji kanji-katakana\">"@;
    let frag = kanji_fragment(k);
    let s0 = subst_style(u0, k);
    let s1 = subst_style(u1, k);
    reveal_strlit("<td class=\"kanji kanji-hiragana\">");
    reveal_strlit("<td class=\"kanji kanji-katakana\">");
    lemma_annotation_in_body(u0, u1, k);
    lemma_split_source_fragment(k);
    lemma_count_mid(s0, frag, s1, eh);
    lemma_count_mid(s0, frag, s1, ek);
}

} // verus!
