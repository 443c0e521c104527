//! Where one word ends and the next begins.
//!
//! A text is first cut into its Unicode words. Each of these is then scanned
//! once, from left to right, and cut again at underscores and where the case
//! of its letters changes: `XMLHttpRequest` holds the sub-words `XML`, `Http`
//! and `Request`.

use crate::unicode::{char_is_lowercase, char_is_uppercase, unicode_words};
use vstd::prelude::*;

verus! {

/// What the scan remembers of the sub-word that it is reading: the case of
/// the last cased character in it.
#[derive(Clone, Copy, Debug, PartialEq, Eq, Structural)]
pub enum WordMode {
    /// No cased character has been read in the sub-word yet.
    Boundary,
    /// The last cased character of the sub-word is lowercase.
    Lowercase,
    /// The last cased character of the sub-word is uppercase.
    Uppercase,
}

/// The mode once `c` has been read into a sub-word that was in `mode`.
/// A character without case leaves the mode as it is.
pub open spec fn mode_after(mode: WordMode, c: char) -> WordMode {
    if char_is_lowercase(c) {
        WordMode::Lowercase
    } else if char_is_uppercase(c) {
        WordMode::Uppercase
    } else {
        mode
    }
}

/// Whether the sub-word ends right after `c`: `next` is an underscore, or
/// the sub-word is in lowercase once `c` is read and `next` is uppercase.
pub open spec fn boundary_after(mode: WordMode, c: char, next: char) -> bool {
    next == '_' || (mode_after(mode, c) == WordMode::Lowercase && char_is_uppercase(next))
}

/// Whether the sub-word ends right before `c`: `c` is the last of a run of
/// uppercase characters and `next` is lowercase, so that `c` begins the next
/// sub-word.
pub open spec fn boundary_before(mode: WordMode, c: char, next: char) -> bool {
    mode == WordMode::Uppercase && char_is_uppercase(c) && char_is_lowercase(next)
}

/// The sub-words that the scan of `word` still yields when it stands before
/// the character at `i`, with a sub-word that began at `init` and is in
/// `mode`.
pub open spec fn sub_words_from(word: Seq<char>, i: int, init: int, mode: WordMode) -> Seq<
    Seq<char>,
>
    decreases word.len() - i,
{
    if !(0 <= i < word.len()) {
        Seq::empty()
    } else if word[i] == '_' {
        sub_words_from(word, i + 1, i + 1, WordMode::Boundary)
    } else if i + 1 == word.len() {
        seq![word.subrange(init, i + 1)]
    } else if boundary_after(mode, word[i], word[i + 1]) {
        seq![word.subrange(init, i + 1)] + sub_words_from(word, i + 1, i + 1, WordMode::Boundary)
    } else if boundary_before(mode, word[i], word[i + 1]) {
        seq![word.subrange(init, i)] + sub_words_from(word, i + 1, i, WordMode::Boundary)
    } else {
        sub_words_from(word, i + 1, init, mode_after(mode, word[i]))
    }
}

/// The sub-words of one Unicode word.
pub open spec fn split_word(word: Seq<char>) -> Seq<Seq<char>> {
    sub_words_from(word, 0, 0, WordMode::Boundary)
}

/// The sub-words of each of `words` in turn.
pub open spec fn split_words(words: Seq<Seq<char>>) -> Seq<Seq<char>> {
    words.map_values(|w: Seq<char>| split_word(w)).flatten()
}

/// The sub-words of `text`: those of its Unicode words.
pub open spec fn sub_words(text: Seq<char>) -> Seq<Seq<char>> {
    split_words(unicode_words(text))
}

/// What holds of the scan of `word` whenever it stands before the character
/// at `i`: the sub-word read so far, from `init` up to `i`, holds no
/// underscore; it holds a character when its mode says that a cased one was
/// read; and it is empty where the scan meets an underscore or the end.
pub open spec fn scan_state(word: Seq<char>, i: int, init: int, mode: WordMode) -> bool {
    &&& 0 <= init <= i <= word.len()
    &&& forall|k: int| init <= k < i ==> word[k] != '_'
    &&& mode != WordMode::Boundary ==> init < i
    &&& (i == word.len() || word[i] == '_') ==> init == i
}

/// Whether `c` is no underscore.
pub open spec fn is_kept(c: char) -> bool {
    c != '_'
}

/// `s` without its underscores.
pub open spec fn without_underscores(s: Seq<char>) -> Seq<char> {
    s.filter(|c: char| is_kept(c))
}

/// Whether each of `pieces` holds a character and none holds an underscore.
pub open spec fn all_hold_text(pieces: Seq<Seq<char>>) -> bool {
    forall|j: int|
        0 <= j < pieces.len() ==> (#[trigger] pieces[j]).len() > 0 && !pieces[j].contains('_')
}

/// Whether `c` is lowercase and nothing else: no uppercase character, and
/// no underscore.
pub open spec fn plainly_lowercase(c: char) -> bool {
    char_is_lowercase(c) && !char_is_uppercase(c) && c != '_'
}

/// Whether `c` is uppercase and nothing else: no lowercase character, and
/// no underscore.
pub open spec fn plainly_uppercase(c: char) -> bool {
    char_is_uppercase(c) && !char_is_lowercase(c) && c != '_'
}

} // verus!
