//! A small library that renders a static HTML chart of Japanese kana.
//!
//! A dataset of romaji-to-kana rows is parsed into a lookup table; a chart
//! template is scanned for placeholder cells of the shape `<td>romaji</td>`;
//! each placeholder is replaced by a cell rendered from a reusable cell
//! template, with kanji-source annotations and deprecation styling applied.

pub mod chart;
pub mod dataset;
pub mod errors;
pub mod laws;
pub mod text;
