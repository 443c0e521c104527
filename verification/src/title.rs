//! Title Case: every word capitalized, a space between the words.

use crate::casing::{capitalize, capitalized};
use crate::engine::{lemma_rendered_unchanging, transform, word_texts, Policy};
use crate::join::{all_nonempty, joined};
use crate::sink::{Sink, WriteError};
use crate::text::Text;
use crate::words::sub_words;
use vstd::prelude::*;

verus! {

/// The policy of title case: it writes every word capitalized, and
/// a space between two words.
pub struct Title;

impl Policy for Title {
    open spec fn word_text(&self, word: Seq<char>) -> Seq<char> {
        capitalized(word)
    }

    open spec fn after_word(&self, word: Seq<char>) -> Self {
        Title
    }

    open spec fn boundary_text(&self) -> Seq<char> {
        seq![' ']
    }

    open spec fn after_boundary(&self) -> Self {
        Title
    }

    fn with_word<S: Sink>(&mut self, word: &[char], f: &mut S) -> (r: Result<(), WriteError>) {
        capitalize(word, f)
    }

    fn boundary<S: Sink>(&mut self, f: &mut S) -> (r: Result<(), WriteError>) {
        proof {
            reveal_strlit(" ");
            assert(" "@ == seq![' ']);
        }
        f.write_str(" ")
    }
}

/// The words of `text` as title case writes them: each sub-word
/// capitalized.
pub open spec fn title_words(text: Seq<char>) -> Seq<Seq<char>> {
    sub_words(text).map_values(|w: Seq<char>| capitalized(w))
}

/// `text` in title case: its words, with a space between every two.
pub open spec fn title_case(text: Seq<char>) -> Seq<char> {
    joined(title_words(text), seq![' '])
}

/// A text that is in title case already stays as it is: where the text
/// is its sub-words joined by spaces, and each of them is
/// capitalized as it stands, the conversion gives the text back.
pub proof fn lemma_title_case_keeps(text: Seq<char>)
    requires
        text == joined(sub_words(text), seq![' ']),
        forall|j: int|
            0 <= j < sub_words(text).len() ==> capitalized(#[trigger] sub_words(text)[j])
                == sub_words(text)[j],
    ensures
        title_case(text) == text,
{
    assert(title_words(text) == sub_words(text));
}

/// A conversion to title case.
///
/// In Title Case, word boundaries are indicated by spaces, and every word is
/// capitalized.
pub trait TitleCase: ToOwned {
    /// Convert this type to title case.
    fn to_title_case(&self) -> Self::Owned;
}

impl TitleCase for str {
    /// The text in title case. Every word of it is written with a
    /// character at least, and a text without characters gives one without.
    fn to_title_case(&self) -> (r: String)
        ensures
            r@ == title_case(self@),
            all_nonempty(title_words(self@)),
            self@.len() == 0 ==> r@.len() == 0,
    {
        AsTitleCase(self).to_string()
    }
}

/// A text that is written in title case: `fmt` writes the conversion
/// to a sink, without building it first.
pub struct AsTitleCase<T: Text>(pub T);

impl<T: Text> AsTitleCase<T> {
    /// Writes the text, in title case, to `f`. It fails only where `f`
    /// does, and a text without characters asks nothing of `f`.
    pub fn fmt<S: Sink>(&self, f: &mut S) -> (r: Result<(), WriteError>)
        ensures
            S::obeys_sink_spec() && r is Ok ==> final(f).text() == old(f).text() + title_case(
                self.0.content(),
            ),
            r is Ok ==> all_nonempty(title_words(self.0.content())),
            S::infallible() || self.0.content().len() == 0 ==> r is Ok,
            self.0.content().len() == 0 ==> *final(f) == *old(f),
    {
        proof {
            let words = sub_words(self.0.content());
            lemma_rendered_unchanging(Title, true, words);
            assert(word_texts(Title, words) == title_words(self.0.content()));
        }
        transform(self.0.as_text(), Title, f)
    }

    /// The text in title case.
    pub fn to_string(&self) -> (r: String)
        ensures
            r@ == title_case(self.0.content()),
            all_nonempty(title_words(self.0.content())),
            self.0.content().len() == 0 ==> r@.len() == 0,
    {
        let mut out = String::new();
        let _ = self.fmt(&mut out);
        out
    }
}

} // verus!
