//! SHOUTY_SNAKE_CASE: every word in uppercase, an underscore between the
//! words.

use crate::casing::{uppercase, uppercased};
use crate::engine::{lemma_rendered_unchanging, transform, word_texts, Policy};
use crate::join::{all_nonempty, joined};
use crate::sink::{Sink, WriteError};
use crate::text::Text;
use crate::words::sub_words;
use vstd::prelude::*;

verus! {

/// The policy of shouty snake case: it writes every word in uppercase, and
/// an underscore between two words.
pub struct ShoutySnake;

impl Policy for ShoutySnake {
    open spec fn word_text(&self, word: Seq<char>) -> Seq<char> {
        uppercased(word)
    }

    open spec fn after_word(&self, word: Seq<char>) -> Self {
        ShoutySnake
    }

    open spec fn boundary_text(&self) -> Seq<char> {
        seq!['_']
    }

    open spec fn after_boundary(&self) -> Self {
        ShoutySnake
    }

    fn with_word<S: Sink>(&mut self, word: &[char], f: &mut S) -> (r: Result<(), WriteError>) {
        uppercase(word, f)
    }

    fn boundary<S: Sink>(&mut self, f: &mut S) -> (r: Result<(), WriteError>) {
        proof {
            reveal_strlit("_");
            assert("_"@ == seq!['_']);
        }
        f.write_str("_")
    }
}

/// The words of `text` as shouty snake case writes them: each sub-word
/// in uppercase.
pub open spec fn shouty_snake_words(text: Seq<char>) -> Seq<Seq<char>> {
    sub_words(text).map_values(|w: Seq<char>| uppercased(w))
}

/// `text` in shouty snake case: its words, with an underscore between
/// every two.
pub open spec fn shouty_snake_case(text: Seq<char>) -> Seq<char> {
    joined(shouty_snake_words(text), seq!['_'])
}

/// A text that is in shouty snake case already stays as it is: where the text
/// is its sub-words joined by underscores, and each of them is
/// in uppercase as it stands, the conversion gives the text back.
pub proof fn lemma_shouty_snake_case_keeps(text: Seq<char>)
    requires
        text == joined(sub_words(text), seq!['_']),
        forall|j: int|
            0 <= j < sub_words(text).len() ==> uppercased(#[trigger] sub_words(text)[j])
                == sub_words(text)[j],
    ensures
        shouty_snake_case(text) == text,
{
    assert(shouty_snake_words(text) == sub_words(text));
}

/// A conversion to shouty snake case.
///
/// In SHOUTY_SNAKE_CASE, word boundaries are indicated by underscores and
/// all words are in uppercase.
pub trait ShoutySnakeCase: ToOwned {
    /// Convert this type to shouty snake case.
    fn to_shouty_snake_case(&self) -> Self::Owned;
}

impl ShoutySnakeCase for str {
    /// The text in shouty snake case. Every word of it is written with a
    /// character at least, and a text without characters gives one without.
    fn to_shouty_snake_case(&self) -> (r: String)
        ensures
            r@ == shouty_snake_case(self@),
            all_nonempty(shouty_snake_words(self@)),
            self@.len() == 0 ==> r@.len() == 0,
    {
        AsShoutySnakeCase(self).to_string()
    }
}

/// Shouty snek case is shouty snake case under another name.
pub trait ShoutySnekCase: ToOwned {
    /// Convert this type to shouty snek case.
    #[allow(non_snake_case)]
    fn TO_SHOUTY_SNEK_CASE(&self) -> Self::Owned;
}

impl ShoutySnekCase for str {
    /// The text in shouty snake case.
    #[allow(non_snake_case)]
    fn TO_SHOUTY_SNEK_CASE(&self) -> (r: String)
        ensures
            r@ == shouty_snake_case(self@),
            all_nonempty(shouty_snake_words(self@)),
            self@.len() == 0 ==> r@.len() == 0,
    {
        self.to_shouty_snake_case()
    }
}

/// A text that is written in shouty snake case: `fmt` writes the conversion
/// to a sink, without building it first.
pub struct AsShoutySnakeCase<T: Text>(pub T);

impl<T: Text> AsShoutySnakeCase<T> {
    /// Writes the text, in shouty snake case, to `f`. It fails only where `f`
    /// does, and a text without characters asks nothing of `f`.
    pub fn fmt<S: Sink>(&self, f: &mut S) -> (r: Result<(), WriteError>)
        ensures
            S::obeys_sink_spec() && r is Ok ==> final(f).text() == old(f).text()
                + shouty_snake_case(self.0.content()),
            r is Ok ==> all_nonempty(shouty_snake_words(self.0.content())),
            S::infallible() || self.0.content().len() == 0 ==> r is Ok,
            self.0.content().len() == 0 ==> *final(f) == *old(f),
    {
        proof {
            let words = sub_words(self.0.content());
            lemma_rendered_unchanging(ShoutySnake, true, words);
            assert(word_texts(ShoutySnake, words) == shouty_snake_words(self.0.content()));
        }
        transform(self.0.as_text(), ShoutySnake, f)
    }

    /// The text in shouty snake case.
    pub fn to_string(&self) -> (r: String)
        ensures
            r@ == shouty_snake_case(self.0.content()),
            all_nonempty(shouty_snake_words(self.0.content())),
            self.0.content().len() == 0 ==> r@.len() == 0,
    {
        let mut out = String::new();
        let _ = self.fmt(&mut out);
        out
    }
}

} // verus!
