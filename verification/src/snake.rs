//! snake_case: every word in lowercase, an underscore between the words.

use crate::casing::{lowercase, lowercased};
use crate::engine::{lemma_rendered_unchanging, transform, word_texts, Policy};
use crate::join::{all_nonempty, joined};
use crate::sink::{Sink, WriteError};
use crate::text::Text;
use crate::words::sub_words;
use vstd::prelude::*;

verus! {

/// The policy of snake case: it writes every word in lowercase, and
/// an underscore between two words.
pub struct Snake;

impl Policy for Snake {
    open spec fn word_text(&self, word: Seq<char>) -> Seq<char> {
        lowercased(word)
    }

    open spec fn after_word(&self, word: Seq<char>) -> Self {
        Snake
    }

    open spec fn boundary_text(&self) -> Seq<char> {
        seq!['_']
    }

    open spec fn after_boundary(&self) -> Self {
        Snake
    }

    fn with_word<S: Sink>(&mut self, word: &[char], f: &mut S) -> (r: Result<(), WriteError>) {
        lowercase(word, f)
    }

    fn boundary<S: Sink>(&mut self, f: &mut S) -> (r: Result<(), WriteError>) {
        proof {
            reveal_strlit("_");
            assert("_"@ == seq!['_']);
        }
        f.write_str("_")
    }
}

/// The words of `text` as snake case writes them: each sub-word
/// in lowercase.
pub open spec fn snake_words(text: Seq<char>) -> Seq<Seq<char>> {
    sub_words(text).map_values(|w: Seq<char>| lowercased(w))
}

/// `text` in snake case: its words, with an underscore between every two.
pub open spec fn snake_case(text: Seq<char>) -> Seq<char> {
    joined(snake_words(text), seq!['_'])
}

/// A text that is in snake case already stays as it is: where the text
/// is its sub-words joined by underscores, and each of them is
/// in lowercase as it stands, the conversion gives the text back.
pub proof fn lemma_snake_case_keeps(text: Seq<char>)
    requires
        text == joined(sub_words(text), seq!['_']),
        forall|j: int|
            0 <= j < sub_words(text).len() ==> lowercased(#[trigger] sub_words(text)[j])
                == sub_words(text)[j],
    ensures
        snake_case(text) == text,
{
    assert(snake_words(text) == sub_words(text));
}

/// A conversion to snake case.
///
/// In snake_case, word boundaries are indicated by underscores.
pub trait SnakeCase: ToOwned {
    /// Convert this type to snake case.
    fn to_snake_case(&self) -> Self::Owned;
}

impl SnakeCase for str {
    /// The text in snake case. Every word of it is written with a
    /// character at least, and a text without characters gives one without.
    fn to_snake_case(&self) -> (r: String)
        ensures
            r@ == snake_case(self@),
            all_nonempty(snake_words(self@)),
            self@.len() == 0 ==> r@.len() == 0,
    {
        AsSnakeCase(self).to_string()
    }
}

/// Snek case is snake case under another name.
pub trait SnekCase: ToOwned {
    /// Convert this type to snek case.
    fn to_snek_case(&self) -> Self::Owned;
}

impl SnekCase for str {
    /// The text in snake case.
    fn to_snek_case(&self) -> (r: String)
        ensures
            r@ == snake_case(self@),
            all_nonempty(snake_words(self@)),
            self@.len() == 0 ==> r@.len() == 0,
    {
        self.to_snake_case()
    }
}

/// A text that is written in snake case: `fmt` writes the conversion
/// to a sink, without building it first.
pub struct AsSnakeCase<T: Text>(pub T);

impl<T: Text> AsSnakeCase<T> {
    /// Writes the text, in snake case, to `f`. It fails only where `f`
    /// does, and a text without characters asks nothing of `f`.
    pub fn fmt<S: Sink>(&self, f: &mut S) -> (r: Result<(), WriteError>)
        ensures
            S::obeys_sink_spec() && r is Ok ==> final(f).text() == old(f).text() + snake_case(
                self.0.content(),
            ),
            r is Ok ==> all_nonempty(snake_words(self.0.content())),
            S::infallible() || self.0.content().len() == 0 ==> r is Ok,
            self.0.content().len() == 0 ==> *final(f) == *old(f),
    {
        proof {
            let words = sub_words(self.0.content());
            lemma_rendered_unchanging(Snake, true, words);
            assert(word_texts(Snake, words) == snake_words(self.0.content()));
        }
        transform(self.0.as_text(), Snake, f)
    }

    /// The text in snake case.
    pub fn to_string(&self) -> (r: String)
        ensures
            r@ == snake_case(self.0.content()),
            all_nonempty(snake_words(self.0.content())),
            self.0.content().len() == 0 ==> r@.len() == 0,
    {
        let mut out = String::new();
        let _ = self.fmt(&mut out);
        out
    }
}

} // verus!
