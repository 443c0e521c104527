//! kebab-case: every word in lowercase, a hyphen between the words.

use crate::casing::{lowercase, lowercased};
use crate::engine::{lemma_rendered_unchanging, transform, word_texts, Policy};
use crate::join::{all_nonempty, joined};
use crate::sink::{Sink, WriteError};
use crate::text::Text;
use crate::words::sub_words;
use vstd::prelude::*;

verus! {

/// The policy of kebab case: it writes every word in lowercase, and
/// a hyphen between two words.
pub struct Kebab;

impl Policy for Kebab {
    open spec fn word_text(&self, word: Seq<char>) -> Seq<char> {
        lowercased(word)
    }

    open spec fn after_word(&self, word: Seq<char>) -> Self {
        Kebab
    }

    open spec fn boundary_text(&self) -> Seq<char> {
        seq!['-']
    }

    open spec fn after_boundary(&self) -> Self {
        Kebab
    }

    fn with_word<S: Sink>(&mut self, word: &[char], f: &mut S) -> (r: Result<(), WriteError>) {
        lowercase(word, f)
    }

    fn boundary<S: Sink>(&mut self, f: &mut S) -> (r: Result<(), WriteError>) {
        proof {
            reveal_strlit("-");
            assert("-"@ == seq!['-']);
        }
        f.write_str("-")
    }
}

/// The words of `text` as kebab case writes them: each sub-word
/// in lowercase.
pub open spec fn kebab_words(text: Seq<char>) -> Seq<Seq<char>> {
    sub_words(text).map_values(|w: Seq<char>| lowercased(w))
}

/// `text` in kebab case: its words, with a hyphen between every two.
pub open spec fn kebab_case(text: Seq<char>) -> Seq<char> {
    joined(kebab_words(text), seq!['-'])
}

/// A text that is in kebab case already stays as it is: where the text
/// is its sub-words joined by hyphens, and each of them is
/// in lowercase as it stands, the conversion gives the text back.
pub proof fn lemma_kebab_case_keeps(text: Seq<char>)
    requires
        text == joined(sub_words(text), seq!['-']),
        forall|j: int|
            0 <= j < sub_words(text).len() ==> lowercased(#[trigger] sub_words(text)[j])
                == sub_words(text)[j],
    ensures
        kebab_case(text) == text,
{
    assert(kebab_words(text) == sub_words(text));
}

/// A conversion to kebab case.
///
/// In kebab-case, word boundaries are indicated by hyphens.
pub trait KebabCase: ToOwned {
    /// Convert this type to kebab case.
    fn to_kebab_case(&self) -> Self::Owned;
}

impl KebabCase for str {
    /// The text in kebab case. Every word of it is written with a
    /// character at least, and a text without characters gives one without.
    fn to_kebab_case(&self) -> (r: String)
        ensures
            r@ == kebab_case(self@),
            all_nonempty(kebab_words(self@)),
            self@.len() == 0 ==> r@.len() == 0,
    {
        AsKebabCase(self).to_string()
    }
}

/// A text that is written in kebab case: `fmt` writes the conversion
/// to a sink, without building it first.
pub struct AsKebabCase<T: Text>(pub T);

impl<T: Text> AsKebabCase<T> {
    /// Writes the text, in kebab case, to `f`. It fails only where `f`
    /// does, and a text without characters asks nothing of `f`.
    pub fn fmt<S: Sink>(&self, f: &mut S) -> (r: Result<(), WriteError>)
        ensures
            S::obeys_sink_spec() && r is Ok ==> final(f).text() == old(f).text() + kebab_case(
                self.0.content(),
            ),
            r is Ok ==> all_nonempty(kebab_words(self.0.content())),
            S::infallible() || self.0.content().len() == 0 ==> r is Ok,
            self.0.content().len() == 0 ==> *final(f) == *old(f),
    {
        proof {
            let words = sub_words(self.0.content());
            lemma_rendered_unchanging(Kebab, true, words);
            assert(word_texts(Kebab, words) == kebab_words(self.0.content()));
        }
        transform(self.0.as_text(), Kebab, f)
    }

    /// The text in kebab case.
    pub fn to_string(&self) -> (r: String)
        ensures
            r@ == kebab_case(self.0.content()),
            all_nonempty(kebab_words(self.0.content())),
            self.0.content().len() == 0 ==> r@.len() == 0,
    {
        let mut out = String::new();
        let _ = self.fmt(&mut out);
        out
    }
}

} // verus!
