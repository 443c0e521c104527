//! mixedCase: the first word in lowercase, every other word capitalized,
//! nothing between the words.

use crate::casing::{capitalize, capitalized, lowercase, lowercased};
use crate::engine::{
    lemma_rendered_unchanging, rendered, transform, word_texts, writes_every_word, Policy,
};
use crate::join::{all_nonempty, joined, lemma_all_nonempty_split};
use crate::sink::{Sink, WriteError};
use crate::text::Text;
use crate::words::sub_words;
use vstd::prelude::*;

verus! {

/// The policy of mixed case: it writes the first word in lowercase and
/// capitalizes every later one, and writes nothing between them.
pub struct Mixed {
    /// Whether the next word is the first.
    pub first: bool,
}

impl Mixed {
    /// The policy before it has written a word.
    pub fn new() -> (policy: Mixed)
        ensures
            policy.first,
    {
        Mixed { first: true }
    }
}

impl Policy for Mixed {
    open spec fn word_text(&self, word: Seq<char>) -> Seq<char> {
        if self.first {
            lowercased(word)
        } else {
            capitalized(word)
        }
    }

    open spec fn after_word(&self, word: Seq<char>) -> Self {
        Mixed { first: false }
    }

    open spec fn boundary_text(&self) -> Seq<char> {
        Seq::empty()
    }

    open spec fn after_boundary(&self) -> Self {
        *self
    }

    fn with_word<S: Sink>(&mut self, word: &[char], f: &mut S) -> (r: Result<(), WriteError>) {
        if self.first {
            self.first = false;
            lowercase(word, f)
        } else {
            capitalize(word, f)
        }
    }

    fn boundary<S: Sink>(&mut self, f: &mut S) -> (r: Result<(), WriteError>) {
        Ok(())
    }
}

/// The words of `text` as mixed case writes them: the first sub-word in
/// lowercase, every other one capitalized.
pub open spec fn mixed_words(text: Seq<char>) -> Seq<Seq<char>> {
    let words = sub_words(text);
    Seq::new(
        words.len(),
        |j: int|
            if j == 0 {
                lowercased(words[j])
            } else {
                capitalized(words[j])
            },
    )
}

/// `text` in mixed case.
pub open spec fn mixed_case(text: Seq<char>) -> Seq<char> {
    joined(mixed_words(text), Seq::empty())
}

/// What the policy of mixed case writes from its first word on.
proof fn lemma_rendered_mixed(text: Seq<char>)
    ensures
        rendered(Mixed { first: true }, true, sub_words(text)) == mixed_case(text),
        writes_every_word(Mixed { first: true }, true, sub_words(text)) <==> all_nonempty(
            mixed_words(text),
        ),
{
    reveal(rendered);
    reveal(writes_every_word);
    let words = sub_words(text);
    let texts = mixed_words(text);
    let later = Mixed { first: false };
    if words.len() > 0 {
        let rest = words.drop_first();
        lemma_rendered_unchanging(later, false, rest);
        assert(word_texts(later, rest) == texts.drop_first());
        assert(texts[0] == lowercased(words[0]));
        lemma_all_nonempty_split(texts);
    }
}

/// A text that is in mixed case already stays as it is: where the text is
/// its sub-words with nothing between them, the first of them is in
/// lowercase as it stands and every other one is capitalized as it stands,
/// the conversion gives the text back.
pub proof fn lemma_mixed_case_keeps(text: Seq<char>)
    requires
        text == joined(sub_words(text), Seq::empty()),
        sub_words(text).len() > 0 ==> lowercased(sub_words(text)[0]) == sub_words(text)[0],
        forall|j: int|
            0 < j < sub_words(text).len() ==> capitalized(#[trigger] sub_words(text)[j])
                == sub_words(text)[j],
    ensures
        mixed_case(text) == text,
{
    assert(mixed_words(text) == sub_words(text));
}

/// A conversion to mixed case.
///
/// In mixedCase, word boundaries are indicated by capital letters, excepting
/// the first word.
pub trait MixedCase: ToOwned {
    /// Convert this type to mixed case.
    fn to_mixed_case(&self) -> Self::Owned;
}

impl MixedCase for str {
    /// The text in mixed case. Every word of it is written with a character
    /// at least, and a text without characters gives one without.
    fn to_mixed_case(&self) -> (r: String)
        ensures
            r@ == mixed_case(self@),
            all_nonempty(mixed_words(self@)),
            self@.len() == 0 ==> r@.len() == 0,
    {
        AsMixedCase(self).to_string()
    }
}

/// A text that is written in mixed case: `fmt` writes the conversion to a
/// sink, without building it first.
pub struct AsMixedCase<T: Text>(pub T);

impl<T: Text> AsMixedCase<T> {
    /// Writes the text, in mixed case, to `f`. It fails only where `f` does,
    /// and a text without characters asks nothing of `f`.
    pub fn fmt<S: Sink>(&self, f: &mut S) -> (r: Result<(), WriteError>)
        ensures
            S::obeys_sink_spec() && r is Ok ==> final(f).text() == old(f).text() + mixed_case(
                self.0.content(),
            ),
            r is Ok ==> all_nonempty(mixed_words(self.0.content())),
            S::infallible() || self.0.content().len() == 0 ==> r is Ok,
            self.0.content().len() == 0 ==> *final(f) == *old(f),
    {
        proof {
            lemma_rendered_mixed(self.0.content());
        }
        transform(self.0.as_text(), Mixed::new(), f)
    }

    /// The text in mixed case.
    pub fn to_string(&self) -> (r: String)
        ensures
            r@ == mixed_case(self.0.content()),
            all_nonempty(mixed_words(self.0.content())),
            self.0.content().len() == 0 ==> r@.len() == 0,
    {
        let mut out = String::new();
        let _ = self.fmt(&mut out);
        out
    }
}

} // verus!
