//! The chart builder: renders one cell per romaji placeholder from the cell
//! template and substitutes every placeholder cell of the chart template.

use vstd::prelude::*;

use crate::dataset::{
    csv_records, decode_rows, find_kana, kanas_view, load_records, lookup, Kana, KanaView,
};
use crate::errors::KanaError;
use crate::text::{
    append_chars, chars_of, contains_sub, has_sub, lines_of, lines_vec, replace_all,
    replace_all_vec, trim, trim_vec,
};

verus! {

/// The marker in the cell template that the record's romaji replaces.
pub open spec fn romaji_marker() -> Seq<char> {
    "@"@
}

/// The marker in the cell template that the record's hiragana replaces:
/// the hiragana glyph for "a".
pub open spec fn hiragana_marker() -> Seq<char> {
    "\u{3042}"@
}

/// The marker in the cell template that the record's katakana replaces:
/// the katakana glyph for "a".
pub open spec fn katakana_marker() -> Seq<char> {
    "\u{30a2}"@
}

/// The placeholder element in the cell template that the kanji-annotation
/// fragment replaces.
pub open spec fn kanji_placeholder() -> Seq<char> {
    "<div class=\"kanji-placeholder\" />"@
}

/// The CSS class token carried by the cell template for deprecated cells.
pub open spec fn deprecated_class() -> Seq<char> {
    "chart-cell-table-deprecated"@
}

/// The CSS class token that replaces the deprecated one on cells in use.
pub open spec fn in_use_class() -> Seq<char> {
    "chart-cell-table-in-use"@
}

/// The kanji-annotation fragment of a record: one cell spanning both
/// columns when a common source is present, else one cell per syllabary
/// with its own source.
pub open spec fn kanji_fragment(k: KanaView) -> Seq<char> {
    if k.common_source.len() == 0 {
        "\n                    <td class=\"kanji kanji-hiragana\">"@ + k.hiragana_source
            + "</td>\n                    <td class=\"kanji kanji-katakana\">"@
            + k.katakana_source + "</td>\n                "@
    } else {
        "<td class=\"kanji\" colspan=\"2\">"@ + k.common_source + "</td>"@
    }
}

/// The body of a rendered cell: the cell template with the romaji,
/// hiragana, katakana and kanji markers replaced by the record's values,
/// and, for a record in use, the deprecated class token replaced by the
/// in-use one.
pub open spec fn render_body(cell: Seq<char>, k: KanaView) -> Seq<char> {
    let t1 = replace_all(cell, romaji_marker(), k.romaji);
    let t2 = replace_all(t1, hiragana_marker(), k.hiragana);
    let t3 = replace_all(t2, katakana_marker(), k.katakana);
    let t4 = replace_all(t3, kanji_placeholder(), kanji_fragment(k));
    if !k.deprecated {
        replace_all(t4, deprecated_class(), in_use_class())
    } else {
        t4
    }
}

/// A rendered cell: the rendered body wrapped in an enclosing table cell.
pub open spec fn render_cell(cell: Seq<char>, k: KanaView) -> Seq<char> {
    "<td>"@ + render_body(cell, k) + "</td>"@
}

/// The romaji key of a placeholder cell: the cell text with the table-cell
/// markers removed.
pub open spec fn extract_romaji(line: Seq<char>) -> Seq<char> {
    replace_all(replace_all(line, "<td>"@, Seq::empty()), "</td>"@, Seq::empty())
}

/// A line of the chart template is a placeholder cell when it holds an
/// opening and a closing table-cell marker and is not the empty-cell
/// pattern.
pub open spec fn is_candidate(line: Seq<char>) -> bool {
    &&& has_sub(line, "<td>"@)
    &&& has_sub(line, "</td>"@)
    &&& !has_sub(line, "<td></td>"@)
}

/// The placeholder cells among the given lines, trimmed, in order.
pub open spec fn candidates_of(ls: Seq<Seq<char>>) -> Seq<Seq<char>>
    decreases ls.len(),
{
    if ls.len() == 0 {
        Seq::empty()
    } else {
        (if is_candidate(ls[0]) {
            seq![trim(ls[0])]
        } else {
            Seq::empty()
        }) + candidates_of(ls.skip(1))
    }
}

/// The trimmed placeholder cells of the chart template, in line order.
pub open spec fn chart_candidates(chart: Seq<char>) -> Seq<Seq<char>> {
    candidates_of(lines_of(chart))
}

/// The builder: the dataset records in row order, and the two immutable
/// templates.
pub struct KanaChartBuilder {
    pub records: Vec<Kana>,
    pub chart_html: Vec<char>,
    pub cell_html: Vec<char>,
}

/// The mathematical value of a builder.
pub ghost struct BuilderView {
    pub records: Seq<KanaView>,
    pub chart: Seq<char>,
    pub cell: Seq<char>,
}

impl View for KanaChartBuilder {
    type V = BuilderView;

    open spec fn view(&self) -> BuilderView {
        BuilderView {
            records: kanas_view(self.records@),
            chart: self.chart_html@,
            cell: self.cell_html@,
        }
    }
}

/// What one placeholder cell renders to: the rendered cell for the record
/// under the cell's romaji key, or that key when the dataset lacks it.
pub open spec fn rendered_for_line(bv: BuilderView, line: Seq<char>) -> Result<Seq<char>, Seq<char>> {
    let romaji = extract_romaji(line);
    match lookup(bv.records, romaji) {
        None => Err(romaji),
        Some(k) => Ok(render_cell(bv.cell, k)),
    }
}

/// The document after substituting each placeholder cell in turn: every
/// occurrence of the placeholder's text is replaced by its rendered cell;
/// the first placeholder whose romaji the dataset lacks stops the build
/// with that key.
pub open spec fn assemble(doc: Seq<char>, cands: Seq<Seq<char>>, bv: BuilderView) -> Result<
    Seq<char>,
    Seq<char>,
>
    decreases cands.len(),
{
    if cands.len() == 0 {
        Ok(doc)
    } else {
        match rendered_for_line(bv, cands[0]) {
            Err(romaji) => Err(romaji),
            Ok(rc) => assemble(replace_all(doc, cands[0], rc), cands.skip(1), bv),
        }
    }
}

impl KanaChartBuilder {
    /// A builder over the given dataset bytes and templates. Fails with the
    /// parse error exactly when the dataset bytes cannot be read as
    /// comma-separated rows or some row does not decode into a record.
    pub fn new(dataset: &[u8], chart_html: &str, cell_html: &str) -> (r: Result<
        KanaChartBuilder,
        KanaError,
    >)
        ensures
            match r {
                Ok(b) => {
                    &&& csv_records(dataset@) matches Some(rows)
                    &&& decode_rows(rows) == Some(b@.records)
                    &&& b@.chart == chart_html@
                    &&& b@.cell == cell_html@
                },
                Err(e) => e is DatasetParse && match csv_records(dataset@) {
                    Some(rows) => decode_rows(rows) is None,
                    None => true,
                },
            },
    {
        let records = match load_records(dataset) {
            Ok(ks) => ks,
            Err(e) => {
                return Err(e);
            },
        };
        Ok(
            KanaChartBuilder {
                records,
                chart_html: chars_of(chart_html),
                cell_html: chars_of(cell_html),
            },
        )
    }

    /// The rendered cell for one placeholder cell of the chart: the romaji
    /// key is extracted by stripping the table-cell markers, its record is
    /// looked up, and the cell template is rendered for that record; an
    /// absent key is the unknown-romaji error carrying that key.
    pub fn replace_romaji_cell(&self, romaji_cell: &Vec<char>) -> (r: Result<Vec<char>, KanaError>)
        ensures
            match r {
                Ok(v) => rendered_for_line(self@, romaji_cell@) == Ok::<Seq<char>, Seq<char>>(v@),
                Err(e) => {
                    &&& e matches KanaError::UnknownRomaji(ro)
                    &&& rendered_for_line(self@, romaji_cell@) == Err::<Seq<char>, Seq<char>>(ro@)
                },
            },
    {
        let td_open = chars_of("<td>");
        let td_close = chars_of("</td>");
        proof {
            reveal_strlit("<td>");
            reveal_strlit("</td>");
        }
        let empty: Vec<char> = Vec::new();
        let stripped = replace_all_vec(romaji_cell, &td_open, &empty);
        let romaji = replace_all_vec(&stripped, &td_close, &empty);
        match find_kana(&self.records, &romaji) {
            None => Err(KanaError::UnknownRomaji(romaji)),
            Some(kana) => Ok(render_kana_cell(&self.cell_html, kana)),
        }
    }

    /// The chart with every placeholder cell replaced by its rendered cell,
    /// or the unknown-romaji error of the first placeholder, in line order,
    /// whose key the dataset lacks.
    pub fn build(&self) -> (r: Result<Vec<char>, KanaError>)
        ensures
            match r {
                Ok(v) => assemble(self@.chart, chart_candidates(self@.chart), self@)
                    == Ok::<Seq<char>, Seq<char>>(v@),
                Err(e) => {
                    &&& e matches KanaError::UnknownRomaji(ro)
                    &&& assemble(self@.chart, chart_candidates(self@.chart), self@)
                        == Err::<Seq<char>, Seq<char>>(ro@)
                },
            },
    {
        let td_open = chars_of("<td>");
        let td_close = chars_of("</td>");
        let td_empty = chars_of("<td></td>");
        proof {
            reveal_strlit("<td>");
            reveal_strlit("</td>");
            reveal_strlit("<td></td>");
        }
        let ls = lines_vec(&self.chart_html);
        let ghost lseq = lines_of(self.chart_html@);
        let mut cands: Vec<Vec<char>> = Vec::new();
        let mut i: usize = 0;
        proof {
            assert(lseq.skip(0) =~= lseq);
            assert(candidates_of(lseq) =~= crate::text::views_of(cands@) + candidates_of(lseq));
        }
        while i < ls.len()
            invariant
                0 <= i <= ls@.len(),
                td_open@ == "<td>"@,
                td_close@ == "</td>"@,
                td_empty@ == "<td></td>"@,
                lseq == lines_of(self.chart_html@),
                ls@.len() == lseq.len(),
                forall|k: int| 0 <= k < ls@.len() ==> ls@[k]@ == lseq[k],
                candidates_of(lseq) == crate::text::views_of(cands@) + candidates_of(
                    lseq.skip(i as int),
                ),
            decreases ls@.len() - i,
        {
            let ghost rest = lseq.skip(i as int);
            proof {
                reveal_strlit("<td>");
                reveal_strlit("</td>");
                reveal_strlit("<td></td>");
                assert(rest[0] == lseq[i as int]);
                assert(rest.skip(1) =~= lseq.skip(i + 1));
            }
            let line = &ls[i];
            if contains_sub(line, &td_open) && contains_sub(line, &td_close) && !contains_sub(
                line,
                &td_empty,
            ) {
                let t = trim_vec(line);
                let ghost cv = cands@;
                cands.push(t);
                proof {
                    assert(crate::text::views_of(cands@) =~= crate::text::views_of(cv) + seq![
                        trim(lseq[i as int]),
                    ]);
                    assert((crate::text::views_of(cv) + seq![trim(lseq[i as int])])
                        + candidates_of(lseq.skip(i + 1)) =~= crate::text::views_of(cv) + (seq![
                        trim(lseq[i as int]),
                    ] + candidates_of(lseq.skip(i + 1))));
                }
            } else {
                proof {
                    assert(Seq::<Seq<char>>::empty() + candidates_of(lseq.skip(i + 1))
                        =~= candidates_of(lseq.skip(i + 1)));
                }
            }
            i += 1;
        }
        proof {
            assert(lseq.skip(i as int) =~= Seq::<Seq<char>>::empty());
            assert(crate::text::views_of(cands@) + Seq::<Seq<char>>::empty() =~= crate::text::views_of(
                cands@,
            ));
            assert(crate::text::views_of(cands@) == chart_candidates(self@.chart));
        }
        let mut doc = crate::dataset::clone_chars(&self.chart_html);
        let ghost call = crate::text::views_of(cands@);
        let mut j: usize = 0;
        proof {
            assert(call.skip(0) =~= call);
        }
        while j < cands.len()
            invariant
                0 <= j <= cands@.len(),
                call == crate::text::views_of(cands@),
                call == chart_candidates(self@.chart),
                call.len() == cands@.len(),
                forall|k: int| 0 <= k < cands@.len() ==> cands@[k]@ == call[k],
                assemble(self@.chart, call, self@) == assemble(doc@, call.skip(j as int), self@),
            decreases cands@.len() - j,
        {
            let ghost rest = call.skip(j as int);
            proof {
                assert(rest[0] == call[j as int]);
                assert(rest.skip(1) =~= call.skip(j + 1));
            }
            let rendered = match self.replace_romaji_cell(&cands[j]) {
                Ok(v) => v,
                Err(e) => {
                    return Err(e);
                },
            };
            if cands[j].len() > 0 {
                doc = replace_all_vec(&doc, &cands[j], &rendered);
            }
            j += 1;
        }
        proof {
            assert(call.skip(j as int) =~= Seq::<Seq<char>>::empty());
        }
        Ok(doc)
    }
}

/// The cell template rendered for one record, as `render_cell` describes
/// it.
pub fn render_kana_cell(cell: &Vec<char>, kana: &Kana) -> (out: Vec<char>)
    ensures
        out@ == render_cell(cell@, kana@),
{
    proof {
        reveal_strlit("@");
        reveal_strlit("\u{3042}");
        reveal_strlit("\u{30a2}");
        reveal_strlit("<div class=\"kanji-placeholder\" />");
        reveal_strlit("chart-cell-table-deprecated");
        reveal_strlit("chart-cell-table-in-use");
    }
    let m_romaji = chars_of("@");
    let m_hira = chars_of("\u{3042}");
    let m_kata = chars_of("\u{30a2}");
    let m_kanji = chars_of("<div class=\"kanji-placeholder\" />");
    let m_dep = chars_of("chart-cell-table-deprecated");
    let m_use = chars_of("chart-cell-table-in-use");
    let frag = kanji_fragment_vec(kana);
    let t1 = replace_all_vec(cell, &m_romaji, &kana.romaji);
    let t2 = replace_all_vec(&t1, &m_hira, &kana.hiragana);
    let t3 = replace_all_vec(&t2, &m_kata, &kana.katakana);
    let t4 = replace_all_vec(&t3, &m_kanji, &frag);
    let body = if !kana.deprecated {
        replace_all_vec(&t4, &m_dep, &m_use)
    } else {
        t4
    };
    let mut out = chars_of("<td>");
    append_chars(&mut out, &body);
    let close = chars_of("</td>");
    append_chars(&mut out, &close);
    proof {
        assert(out@ =~= render_cell(cell@, kana@));
    }
    out
}

/// The kanji-annotation fragment of one record, as `kanji_fragment`
/// describes it.
fn kanji_fragment_vec(kana: &Kana) -> (out: Vec<char>)
    ensures
        out@ == kanji_fragment(kana@),
{
    let mut out: Vec<char> = Vec::new();
    if kana.common_source.len() == 0 {
        let p1 = chars_of("\n                    <td class=\"kanji kanji-hiragana\">");
        let p2 = chars_of("</td>\n                    <td class=\"kanji kanji-katakana\">");
        let p3 = chars_of("</td>\n                ");
        append_chars(&mut out, &p1);
        append_chars(&mut out, &kana.hiragana_source);
        append_chars(&mut out, &p2);
        append_chars(&mut out, &kana.katakana_source);
        append_chars(&mut out, &p3);
        proof {
            assert(out@ =~= kanji_fragment(kana@));
        }
    } else {
        let p1 = chars_of("<td class=\"kanji\" colspan=\"2\">");
        let p2 = chars_of("</td>");
        append_chars(&mut out, &p1);
        append_chars(&mut out, &kana.common_source);
        append_chars(&mut out, &p2);
        proof {
            assert(out@ =~= kanji_fragment(kana@));
        }
    }
    out
}

} // verus!
