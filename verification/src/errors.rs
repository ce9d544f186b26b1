//! The ways a chart build can fail.

use vstd::prelude::*;

verus! {

/// Why a chart could not be built. Every failure is fatal: the caller is
/// expected to abort without producing partial output.
#[derive(Debug)]
pub enum KanaError {
    /// A dataset row could not be decoded into a kana record: the comma
    /// layout was malformed, a row had the wrong number of fields, or the
    /// deprecation column held something other than `true` or `false`.
    DatasetParse,
    /// A chart placeholder named a romaji key that the dataset does not
    /// hold; the key is carried along.
    UnknownRomaji(Vec<char>),
}

} // verus!
