use kana_chart::chart::KanaChartBuilder;
use kana_chart::errors::KanaError;

fn cv(s: &str) -> Vec<char> {
    s.chars().collect()
}

fn sv(v: &[char]) -> String {
    v.iter().collect()
}

const HEADER: &str = "romaji,hiragana,hiragana_source,katakana,katakana_source,common_source,deprecated\n";

const CELL: &str = "<div class=\"chart-cell chart-cell-table-deprecated\">\n  <span>@</span>\n  <span>あ</span>\n  <span>ア</span>\n  <div class=\"kanji-placeholder\" />\n</div>";

fn dataset(rows: &str) -> Vec<u8> {
    let mut data = String::from(HEADER);
    data.push_str(rows);
    data.into_bytes()
}

#[test]
fn builds_single_placeholder_chart() {
    let data = dataset("ka,か,加,カ,加,,false\n");
    let chart = "<html>\n<td>ka</td>\n</html>";
    let builder = KanaChartBuilder::new(&data, chart, CELL).unwrap();
    let out = sv(&builder.build().unwrap());
    assert!(out.contains("<span>ka</span>"));
    assert!(out.contains("<span>か</span>"));
    assert!(out.contains("<span>カ</span>"));
    assert!(out.contains("<td class=\"kanji kanji-hiragana\">加</td>"));
    assert!(out.contains("<td class=\"kanji kanji-katakana\">加</td>"));
    assert!(out.contains("chart-cell-table-in-use"));
    assert!(!out.contains("chart-cell-table-deprecated"));
    assert!(!out.contains("<td>ka</td>"));
    assert!(out.starts_with("<html>\n<td><div class=\"chart-cell"));
    assert!(out.ends_with("</div></td>\n</html>"));
}

#[test]
fn unknown_romaji_aborts_build() {
    let data = dataset("ka,か,加,カ,加,,false\n");
    let chart = "<td>zz</td>";
    let builder = KanaChartBuilder::new(&data, chart, CELL).unwrap();
    match builder.build() {
        Err(KanaError::UnknownRomaji(key)) => assert_eq!(sv(&key), "zz"),
        other => panic!("expected an unknown-romaji error, got {:?}", other.is_ok()),
    }
}

#[test]
fn empty_cells_pass_through_unchanged() {
    let data = dataset("ka,か,加,カ,加,,false\n");
    let chart = "<table>\n<td></td>\n<td></td>\n</table>";
    let builder = KanaChartBuilder::new(&data, chart, CELL).unwrap();
    let out = sv(&builder.build().unwrap());
    assert_eq!(out, chart);
}

#[test]
fn rendering_is_deterministic() {
    let data = dataset("ka,か,加,カ,加,,false\n");
    let builder = KanaChartBuilder::new(&data, "", CELL).unwrap();
    let cell = cv("<td>ka</td>");
    let first = builder.replace_romaji_cell(&cell).unwrap();
    let second = builder.replace_romaji_cell(&cell).unwrap();
    assert_eq!(first, second);
}

#[test]
fn rendered_cell_matches_literal_substitution() {
    let data = dataset("ka,か,加,カ,加,,false\n");
    let builder = KanaChartBuilder::new(&data, "", CELL).unwrap();
    let rendered = sv(&builder.replace_romaji_cell(&cv("<td>ka</td>")).unwrap());
    let fragment = "\n                    <td class=\"kanji kanji-hiragana\">加</td>\n                    <td class=\"kanji kanji-katakana\">加</td>\n                ";
    let expected = format!(
        "<td>{}</td>",
        CELL.replace('@', "ka")
            .replace("あ", "か")
            .replace("ア", "カ")
            .replace("<div class=\"kanji-placeholder\" />", fragment)
            .replace("chart-cell-table-deprecated", "chart-cell-table-in-use")
    );
    assert_eq!(rendered, expected);
}

#[test]
fn common_source_renders_one_spanning_cell() {
    let data = dataset("n,ん,无,ン,尓,乎,false\n");
    let builder = KanaChartBuilder::new(&data, "", CELL).unwrap();
    let out = sv(&builder.replace_romaji_cell(&cv("<td>n</td>")).unwrap());
    assert!(out.contains("<td class=\"kanji\" colspan=\"2\">乎</td>"));
    assert!(!out.contains("kanji-hiragana"));
    assert!(!out.contains("kanji-katakana"));
}

#[test]
fn split_sources_render_two_cells() {
    let data = dataset("wi,ゐ,為,ヰ,井,,true\n");
    let builder = KanaChartBuilder::new(&data, "", CELL).unwrap();
    let out = sv(&builder.replace_romaji_cell(&cv("<td>wi</td>")).unwrap());
    assert!(out.contains("<td class=\"kanji kanji-hiragana\">為</td>"));
    assert!(out.contains("<td class=\"kanji kanji-katakana\">井</td>"));
    assert!(!out.contains("colspan"));
}

#[test]
fn deprecated_record_keeps_deprecated_class() {
    let data = dataset("wi,ゐ,為,ヰ,井,,true\n");
    let builder = KanaChartBuilder::new(&data, "", CELL).unwrap();
    let out = sv(&builder.replace_romaji_cell(&cv("<td>wi</td>")).unwrap());
    assert!(out.contains("chart-cell-table-deprecated"));
    assert!(!out.contains("chart-cell-table-in-use"));
}

#[test]
fn empty_sources_render_empty_cells() {
    let data = dataset("a,あ,安,ア,阿,,false\n");
    let builder = KanaChartBuilder::new(&data, "", CELL).unwrap();
    let out = sv(&builder.replace_romaji_cell(&cv("<td>a</td>")).unwrap());
    assert!(out.contains("<td class=\"kanji kanji-hiragana\">安</td>"));
    assert!(out.contains("<td class=\"kanji kanji-katakana\">阿</td>"));
    assert!(out.contains("<span>あ</span>"));
    assert!(out.contains("<span>ア</span>"));
}

#[test]
fn wrong_field_count_is_a_parse_error() {
    let data = dataset("ka,か,加,カ,加,false\n");
    assert!(matches!(
        KanaChartBuilder::new(&data, "", CELL),
        Err(KanaError::DatasetParse)
    ));
}

#[test]
fn non_boolean_deprecated_field_is_a_parse_error() {
    let data = dataset("ka,か,加,カ,加,,maybe\n");
    assert!(matches!(
        KanaChartBuilder::new(&data, "", CELL),
        Err(KanaError::DatasetParse)
    ));
}

#[test]
fn header_row_is_not_a_record() {
    let data = dataset("ka,か,加,カ,加,,false\n");
    let builder = KanaChartBuilder::new(&data, "<td>romaji</td>", CELL).unwrap();
    assert!(matches!(
        builder.build(),
        Err(KanaError::UnknownRomaji(_))
    ));
}

#[test]
fn duplicate_romaji_last_row_wins() {
    let data = dataset("ka,か,加,カ,加,,false\nka,が,我,ガ,我,,false\n");
    let builder = KanaChartBuilder::new(&data, "", CELL).unwrap();
    let out = sv(&builder.replace_romaji_cell(&cv("<td>ka</td>")).unwrap());
    assert!(out.contains("<span>が</span>"));
    assert!(!out.contains("<span>か</span>"));
}

#[test]
fn indented_placeholder_is_trimmed_and_replaced_in_place() {
    let data = dataset("ka,か,加,カ,加,,false\n");
    let chart = "<table>\n    <td>ka</td>\n</table>";
    let builder = KanaChartBuilder::new(&data, chart, CELL).unwrap();
    let out = sv(&builder.build().unwrap());
    assert!(out.starts_with("<table>\n    <td><div class=\"chart-cell"));
    assert!(!out.contains("<td>ka</td>"));
}

#[test]
fn repeated_placeholder_is_replaced_everywhere() {
    let data = dataset("ka,か,加,カ,加,,false\n");
    let chart = "<td>ka</td>\n<td>ka</td>";
    let builder = KanaChartBuilder::new(&data, chart, CELL).unwrap();
    let out = sv(&builder.build().unwrap());
    assert!(!out.contains("<td>ka</td>"));
    let first = out.find("<span>ka</span>").unwrap();
    let second = out.rfind("<span>ka</span>").unwrap();
    assert!(first < second);
}

#[test]
fn quoted_dataset_fields_are_decoded() {
    let data = dataset("ka,\"か\",加,カ,加,,false\n");
    let builder = KanaChartBuilder::new(&data, "", CELL).unwrap();
    let out = sv(&builder.replace_romaji_cell(&cv("<td>ka</td>")).unwrap());
    assert!(out.contains("<span>か</span>"));
    assert!(!out.contains("<span>\"か\"</span>"));
}

#[test]
fn malformed_comma_layout_is_a_parse_error() {
    let data = dataset("ka,\"unclosed,加,カ,加,,false\n");
    assert!(matches!(
        KanaChartBuilder::new(&data, "", CELL),
        Err(KanaError::DatasetParse)
    ));
}

#[test]
fn windows_line_endings_are_handled() {
    let data = dataset("ka,か,加,カ,加,,false\n");
    let chart = "<table>\r\n<td>ka</td>\r\n</table>\r\n";
    let builder = KanaChartBuilder::new(&data, chart, CELL).unwrap();
    let out = sv(&builder.build().unwrap());
    assert!(!out.contains("<td>ka</td>"));
    assert!(out.contains("<span>か</span>"));
}

#[test]
fn empty_chart_builds_to_empty_output() {
    let data = dataset("ka,か,加,カ,加,,false\n");
    let builder = KanaChartBuilder::new(&data, "", CELL).unwrap();
    let out = builder.build().unwrap();
    assert!(out.is_empty());
}
