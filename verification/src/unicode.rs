//! What the library takes on trust from `std` and from
//! `unicode_segmentation`: the case properties and case mappings of a
//! character, and the Unicode words of a text. Nothing in this module is
//! proved; the rest of the library is proved from what is stated here.

use unicode_segmentation::UnicodeSegmentation;
use vstd::prelude::*;

verus! {

/// Whether `c` has the Unicode property `Lowercase`, as `char::is_lowercase`
/// tells it.
pub uninterp spec fn char_is_lowercase(c: char) -> bool;

/// Whether `c` has the Unicode property `Uppercase`, as `char::is_uppercase`
/// tells it.
pub uninterp spec fn char_is_uppercase(c: char) -> bool;

/// The lowercase mapping of `c`: the characters that `char::to_lowercase`
/// yields.
pub uninterp spec fn char_lowercase(c: char) -> Seq<char>;

/// The uppercase mapping of `c`: the characters that `char::to_uppercase`
/// yields.
pub uninterp spec fn char_uppercase(c: char) -> Seq<char>;

/// The Unicode words of `text`, in the order in which they stand in it: the
/// stretches between the word boundaries of the Unicode standard that hold
/// a letter or a number, as `UnicodeSegmentation::unicode_words` yields
/// them.
pub uninterp spec fn unicode_words(text: Seq<char>) -> Seq<Seq<char>>;

/// `char::is_lowercase`. On trust: its answer depends on the character
/// alone.
pub assume_specification[ char::is_lowercase ](c: char) -> (r: bool)
    ensures
        r == char_is_lowercase(c),
;

/// `char::is_uppercase`. On trust: its answer depends on the character
/// alone.
pub assume_specification[ char::is_uppercase ](c: char) -> (r: bool)
    ensures
        r == char_is_uppercase(c),
;

/// Calls `char::to_lowercase` and collects the characters that it yields.
/// On trust: they depend on the character alone, and there is at least one
/// of them.
#[verifier::external_body]
pub(crate) fn to_lowercase(c: char) -> (r: String)
    ensures
        r@ == char_lowercase(c),
        r@.len() >= 1,
{
    c.to_lowercase().collect()
}

/// Calls `char::to_uppercase` and collects the characters that it yields.
/// On trust: they depend on the character alone, and there is at least one
/// of them.
#[verifier::external_body]
pub(crate) fn to_uppercase(c: char) -> (r: String)
    ensures
        r@ == char_uppercase(c),
        r@.len() >= 1,
{
    c.to_uppercase().collect()
}

/// The characters of each of `words`.
pub open spec fn char_views(words: Seq<Vec<char>>) -> Seq<Seq<char>> {
    words.map_values(|w: Vec<char>| w@)
}

/// Calls `UnicodeSegmentation::unicode_words` and collects the words that
/// it yields, each as its characters. On trust: the words depend on the
/// text alone, and a text without characters has none.
#[verifier::external_body]
pub(crate) fn words_of(text: &str) -> (r: Vec<Vec<char>>)
    ensures
        char_views(r@) == unicode_words(text@),
        text@.len() == 0 ==> r@.len() == 0,
{
    text.unicode_words().map(|w| w.chars().collect()).collect()
}

} // verus!
