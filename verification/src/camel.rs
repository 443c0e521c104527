//! CamelCase: every word capitalized, nothing between the words.

use crate::casing::{capitalize, capitalized};
use crate::engine::{lemma_rendered_unchanging, transform, word_texts, Policy};
use crate::join::{all_nonempty, joined};
use crate::sink::{Sink, WriteError};
use crate::text::Text;
use crate::words::sub_words;
use vstd::prelude::*;

verus! {

/// The policy of camel case: it writes every word capitalized, the first
/// too, and nothing between two words.
pub struct Camel;

impl Policy for Camel {
    open spec fn word_text(&self, word: Seq<char>) -> Seq<char> {
        capitalized(word)
    }

    open spec fn after_word(&self, word: Seq<char>) -> Self {
        Camel
    }

    open spec fn boundary_text(&self) -> Seq<char> {
        Seq::empty()
    }

    open spec fn after_boundary(&self) -> Self {
        Camel
    }

    fn with_word<S: Sink>(&mut self, word: &[char], f: &mut S) -> (r: Result<(), WriteError>) {
        capitalize(word, f)
    }

    fn boundary<S: Sink>(&mut self, f: &mut S) -> (r: Result<(), WriteError>) {
        Ok(())
    }
}

/// The words of `text` as camel case writes them: each sub-word
/// capitalized, the first too.
pub open spec fn camel_words(text: Seq<char>) -> Seq<Seq<char>> {
    sub_words(text).map_values(|w: Seq<char>| capitalized(w))
}

/// `text` in camel case: its words, one after the other.
pub open spec fn camel_case(text: Seq<char>) -> Seq<char> {
    joined(camel_words(text), Seq::empty())
}

/// A text that is in camel case already stays as it is: where the text
/// is its sub-words with nothing between them, and each of them is
/// capitalized as it stands, the conversion gives the text back.
pub proof fn lemma_camel_case_keeps(text: Seq<char>)
    requires
        text == joined(sub_words(text), Seq::empty()),
        forall|j: int|
            0 <= j < sub_words(text).len() ==> capitalized(#[trigger] sub_words(text)[j])
                == sub_words(text)[j],
    ensures
        camel_case(text) == text,
{
    assert(camel_words(text) == sub_words(text));
}

/// A conversion to camel case.
///
/// In CamelCase, word boundaries are indicated by capital letters, including
/// the first word.
pub trait CamelCase: ToOwned {
    /// Convert this type to camel case.
    fn to_camel_case(&self) -> Self::Owned;
}

impl CamelCase for str {
    /// The text in camel case. Every word of it is written with a
    /// character at least, and a text without characters gives one without.
    fn to_camel_case(&self) -> (r: String)
        ensures
            r@ == camel_case(self@),
            all_nonempty(camel_words(self@)),
            self@.len() == 0 ==> r@.len() == 0,
    {
        AsCamelCase(self).to_string()
    }
}

/// A text that is written in camel case: `fmt` writes the conversion
/// to a sink, without building it first.
pub struct AsCamelCase<T: Text>(pub T);

impl<T: Text> AsCamelCase<T> {
    /// Writes the text, in camel case, to `f`. It fails only where `f`
    /// does, and a text without characters asks nothing of `f`.
    pub fn fmt<S: Sink>(&self, f: &mut S) -> (r: Result<(), WriteError>)
        ensures
            S::obeys_sink_spec() && r is Ok ==> final(f).text() == old(f).text() + camel_case(
                self.0.content(),
            ),
            r is Ok ==> all_nonempty(camel_words(self.0.content())),
            S::infallible() || self.0.content().len() == 0 ==> r is Ok,
            self.0.content().len() == 0 ==> *final(f) == *old(f),
    {
        proof {
            let words = sub_words(self.0.content());
            lemma_rendered_unchanging(Camel, true, words);
            assert(word_texts(Camel, words) == camel_words(self.0.content()));
        }
        transform(self.0.as_text(), Camel, f)
    }

    /// The text in camel case.
    pub fn to_string(&self) -> (r: String)
        ensures
            r@ == camel_case(self.0.content()),
            all_nonempty(camel_words(self.0.content())),
            self.0.content().len() == 0 ==> r@.len() == 0,
    {
        let mut out = String::new();
        let _ = self.fmt(&mut out);
        out
    }
}

} // verus!
