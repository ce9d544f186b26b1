//! The kana dataset: one record per syllable, decoded from comma-separated
//! rows and looked up by romaji key.

use vstd::prelude::*;

use crate::errors::KanaError;
use crate::text::eq_chars;

verus! {

/// One row of the dataset: a syllable with its two kana renderings, the
/// kanji-source annotations of each, an optional kanji source shared by
/// both, and a deprecation flag.
pub struct Kana {
    pub romaji: Vec<char>,
    pub hiragana: Vec<char>,
    pub hiragana_source: Vec<char>,
    pub katakana: Vec<char>,
    pub katakana_source: Vec<char>,
    pub common_source: Vec<char>,
    pub deprecated: bool,
}

/// The mathematical value of a `Kana` record.
pub ghost struct KanaView {
    pub romaji: Seq<char>,
    pub hiragana: Seq<char>,
    pub hiragana_source: Seq<char>,
    pub katakana: Seq<char>,
    pub katakana_source: Seq<char>,
    pub common_source: Seq<char>,
    pub deprecated: bool,
}

impl View for Kana {
    type V = KanaView;

    open spec fn view(&self) -> KanaView {
        KanaView {
            romaji: self.romaji@,
            hiragana: self.hiragana@,
            hiragana_source: self.hiragana_source@,
            katakana: self.katakana@,
            katakana_source: self.katakana_source@,
            common_source: self.common_source@,
            deprecated: self.deprecated,
        }
    }
}

/// The views of a sequence of records.
pub open spec fn kanas_view(s: Seq<Kana>) -> Seq<KanaView> {
    s.map_values(|k: Kana| k@)
}

/// A dataset row decodes into a record when it has exactly the seven fields
/// of the schema, in order, and its last field is the literal `true` or
/// `false`.
pub open spec fn decode_row(row: Seq<Seq<char>>) -> Option<KanaView> {
    if row.len() == 7 && (row[6] == "true"@ || row[6] == "false"@) {
        Some(
            KanaView {
                romaji: row[0],
                hiragana: row[1],
                hiragana_source: row[2],
                katakana: row[3],
                katakana_source: row[4],
                common_source: row[5],
                deprecated: row[6] == "true"@,
            },
        )
    } else {
        None
    }
}

/// All rows decoded in order; `None` as soon as any row is malformed.
pub open spec fn decode_rows(rows: Seq<Seq<Seq<char>>>) -> Option<Seq<KanaView>>
    decreases rows.len(),
{
    if rows.len() == 0 {
        Some(Seq::empty())
    } else {
        match decode_row(rows[0]) {
            None => None,
            Some(k) => match decode_rows(rows.skip(1)) {
                None => None,
                Some(tail) => Some(seq![k] + tail),
            },
        }
    }
}

/// The record stored under `romaji`, the last matching row winning, as a
/// fold of the rows into a map keyed by romaji would have it.
pub open spec fn lookup(records: Seq<KanaView>, romaji: Seq<char>) -> Option<KanaView>
    decreases records.len(),
{
    if records.len() == 0 {
        None
    } else if records.last().romaji == romaji {
        Some(records.last())
    } else {
        lookup(records.drop_last(), romaji)
    }
}

/// What the reader of the comma-separated dataset returns on the given
/// bytes: the rows after the header row, each a sequence of fields, or
/// nothing when the byte layout is malformed.
pub uninterp spec fn csv_records(data: Seq<u8>) -> Option<Seq<Seq<Seq<char>>>>;

/// Relies on `csv::Reader::from_reader` and `Reader::records`: reads
/// comma-separated rows from the bytes, treats the first row as a header
/// and does not return it, and yields each remaining row's fields in
/// order; any read error is surfaced. The result depends on the bytes
/// alone.
#[verifier::external_body]
fn read_csv_rows(data: &[u8]) -> (r: Option<Vec<Vec<Vec<char>>>>)
    ensures
        match r {
            Some(rows) => csv_records(data@) == Some(rows.deep_view()),
            None => csv_records(data@) is None,
        },
{
    let mut out: Vec<Vec<Vec<char>>> = Vec::new();
    for record in csv::Reader::from_reader(data).records() {
        match record {
            Ok(row) => out.push(row.iter().map(|field| field.chars().collect()).collect()),
            Err(_) => return None,
        }
    }
    Some(out)
}

/// One decoded field-row turned into a record.
fn decode_row_vec(row: &Vec<Vec<char>>) -> (r: Option<Kana>)
    ensures
        match r {
            Some(k) => decode_row(row.deep_view()) == Some(k@),
            None => decode_row(row.deep_view()) is None,
        },
{
    proof {
        assert(row.deep_view().len() == row@.len());
        assert(forall|k: int| 0 <= k < row@.len() ==> row.deep_view()[k] == row@[k]@);
    }
    if row.len() != 7 {
        return None;
    }
    let tru = crate::text::chars_of("true");
    let fal = crate::text::chars_of("false");
    let is_true = eq_chars(&row[6], &tru);
    let is_false = eq_chars(&row[6], &fal);
    if !is_true && !is_false {
        return None;
    }
    Some(
        Kana {
            romaji: clone_chars(&row[0]),
            hiragana: clone_chars(&row[1]),
            hiragana_source: clone_chars(&row[2]),
            katakana: clone_chars(&row[3]),
            katakana_source: clone_chars(&row[4]),
            common_source: clone_chars(&row[5]),
            deprecated: is_true,
        },
    )
}

/// A copy of a character vector.
pub fn clone_chars(v: &Vec<char>) -> (out: Vec<char>)
    ensures
        out@ == v@,
{
    let mut out: Vec<char> = Vec::new();
    crate::text::append_chars(&mut out, v);
    proof {
        assert(out@ =~= v@);
    }
    out
}

/// All rows decoded into records, or the parse error when any row is
/// malformed.
pub fn decode_rows_vec(rows: &Vec<Vec<Vec<char>>>) -> (r: Result<Vec<Kana>, KanaError>)
    ensures
        match r {
            Ok(ks) => decode_rows(rows.deep_view()) == Some(kanas_view(ks@)),
            Err(e) => decode_rows(rows.deep_view()) is None && e is DatasetParse,
        },
{
    let ghost all = rows.deep_view();
    let mut out: Vec<Kana> = Vec::new();
    let mut i: usize = 0;
    proof {
        assert(all.skip(0) =~= all);
        assert(all.len() == rows@.len());
        assert(forall|k: int| 0 <= k < rows@.len() ==> all[k] == rows@[k].deep_view());
    }
    while i < rows.len()
        invariant
            0 <= i <= rows@.len(),
            all == rows.deep_view(),
            all.len() == rows@.len(),
            forall|k: int| 0 <= k < rows@.len() ==> all[k] == rows@[k].deep_view(),
            decode_rows(all) matches Some(ks) ==> {
                &&& decode_rows(all.skip(i as int)) matches Some(tail)
                &&& ks == kanas_view(out@) + tail
            },
            decode_rows(all.skip(i as int)) is Some ==> decode_rows(all) is Some,
        decreases rows@.len() - i,
    {
        let ghost rest = all.skip(i as int);
        proof {
            assert(rest[0] == all[i as int]);
            assert(rest.skip(1) =~= all.skip(i + 1));
        }
        match decode_row_vec(&rows[i]) {
            None => {
                return Err(KanaError::DatasetParse);
            },
            Some(k) => {
                proof {
                    if decode_rows(all) matches Some(ks) {
                        let tail = decode_rows(rest)->Some_0;
                        let tail1 = decode_rows(all.skip(i + 1))->Some_0;
                        assert(kanas_view(out@.push(k)) =~= kanas_view(out@) + seq![k@]);
                        assert((kanas_view(out@) + (seq![k@] + tail1)) =~= (kanas_view(out@)
                            + seq![k@]) + tail1);
                    }
                }
                out.push(k);
            },
        }
        i += 1;
    }
    proof {
        assert(all.skip(i as int) =~= Seq::<Seq<Seq<char>>>::empty());
        if decode_rows(all) matches Some(ks) {
            assert(kanas_view(out@) + Seq::<KanaView>::empty() =~= kanas_view(out@));
        }
    }
    Ok(out)
}

/// The dataset read from its comma-separated bytes and decoded into
/// records, in row order.
pub fn load_records(data: &[u8]) -> (r: Result<Vec<Kana>, KanaError>)
    ensures
        match r {
            Ok(ks) => csv_records(data@) matches Some(rows) && decode_rows(rows) == Some(
                kanas_view(ks@),
            ),
            Err(e) => e is DatasetParse && match csv_records(data@) {
                Some(rows) => decode_rows(rows) is None,
                None => true,
            },
        },
{
    match read_csv_rows(data) {
        None => Err(KanaError::DatasetParse),
        Some(rows) => decode_rows_vec(&rows),
    }
}

/// The record under `romaji`, the last matching row winning.
pub fn find_kana<'a>(records: &'a Vec<Kana>, romaji: &Vec<char>) -> (r: Option<&'a Kana>)
    ensures
        match r {
            Some(k) => lookup(kanas_view(records@), romaji@) == Some(k@),
            None => lookup(kanas_view(records@), romaji@) is None,
        },
{
    let ghost all = kanas_view(records@);
    let mut i: usize = records.len();
    proof {
        assert(all.take(records@.len() as int) =~= all);
    }
    while i > 0
        invariant
            0 <= i <= records@.len(),
            all == kanas_view(records@),
            lookup(all, romaji@) == lookup(all.take(i as int), romaji@),
        decreases i,
    {
        proof {
            assert(all.take(i as int).last() == records@[i - 1]@);
            assert(all.take(i as int).drop_last() =~= all.take(i - 1));
        }
        if eq_chars(&records[i - 1].romaji, romaji) {
            return Some(&records[i - 1]);
        }
        i -= 1;
    }
    proof {
        assert(all.take(0) =~= Seq::<KanaView>::empty());
    }
    None
}

} // verus!
