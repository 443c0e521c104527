//! What holds of the sub-words of every word: they hold text and no
//! underscore, they spell the word, and they begin and end where the rules
//! on underscores and on case say.

use crate::unicode::{char_is_lowercase, char_is_uppercase};
use crate::words::{
    all_hold_text, boundary_after, boundary_before, is_kept, mode_after, plainly_lowercase,
    plainly_uppercase, scan_state, split_word, split_words, sub_words_from, without_underscores,
    WordMode,
};
use vstd::prelude::*;

verus! {

/// A text without its underscores is its first character, unless that is
/// an underscore, and then the rest without its underscores.
proof fn lemma_without_underscores_cons(s: Seq<char>)
    requires
        s.len() > 0,
    ensures
        without_underscores(s) == if s[0] == '_' {
            without_underscores(s.drop_first())
        } else {
            seq![s[0]] + without_underscores(s.drop_first())
        },
{
    let keep = |c: char| is_kept(c);
    let head = seq![s[0]];
    assert(s == head + s.drop_first());
    Seq::filter_distributes_over_add(head, s.drop_first(), keep);
    reveal_with_fuel(Seq::filter, 2);
    assert(head.drop_last() == Seq::<char>::empty());
    assert(head.filter(keep) == if s[0] == '_' {
        Seq::<char>::empty()
    } else {
        head
    });
}

/// Wherever the scan of a word stands, what it still finds holds text and
/// no underscore, and spells the sub-word read so far and then the rest of
/// the word without its underscores.
proof fn lemma_sub_words_from(word: Seq<char>, i: int, init: int, mode: WordMode)
    requires
        scan_state(word, i, init, mode),
    ensures
        all_hold_text(sub_words_from(word, i, init, mode)),
        sub_words_from(word, i, init, mode).flatten() == word.subrange(init, i)
            + without_underscores(word.subrange(i, word.len() as int)),
    decreases word.len() - i,
{
    let len = word.len() as int;
    let found = sub_words_from(word, i, init, mode);
    let tail = word.subrange(i, len);
    if i == len {
        assert(tail == Seq::<char>::empty());
        reveal_with_fuel(Seq::filter, 1);
        assert(found.flatten() == word.subrange(init, i) + without_underscores(tail));
    } else {
        lemma_without_underscores_cons(tail);
        assert(tail.drop_first() == word.subrange(i + 1, len));
        if word[i] == '_' {
            lemma_sub_words_from(word, i + 1, i + 1, WordMode::Boundary);
            assert(word.subrange(i + 1, i + 1) == Seq::<char>::empty());
            assert(word.subrange(init, i) == Seq::<char>::empty());
            assert(found.flatten() == word.subrange(init, i) + without_underscores(tail));
        } else if i + 1 == len {
            let piece = word.subrange(init, len);
            found.lemma_flatten_one_element();
            assert(tail.drop_first() == Seq::<char>::empty());
            reveal_with_fuel(Seq::filter, 1);
            assert(piece == word.subrange(init, i) + seq![word[i]]);
            assert(found.flatten() == word.subrange(init, i) + without_underscores(tail));
            assert(!piece.contains('_'));
        } else if boundary_after(mode, word[i], word[i + 1]) {
            let piece = word.subrange(init, i + 1);
            let more = sub_words_from(word, i + 1, i + 1, WordMode::Boundary);
            lemma_sub_words_from(word, i + 1, i + 1, WordMode::Boundary);
            vstd::seq_lib::lemma_flatten_concat(seq![piece], more);
            seq![piece].lemma_flatten_one_element();
            assert(word.subrange(i + 1, i + 1) == Seq::<char>::empty());
            assert(piece == word.subrange(init, i) + seq![word[i]]);
            assert(found.flatten() == word.subrange(init, i) + without_underscores(tail));
            assert(!piece.contains('_'));
            assert(all_hold_text(found));
        } else if boundary_before(mode, word[i], word[i + 1]) {
            let piece = word.subrange(init, i);
            let more = sub_words_from(word, i + 1, i, WordMode::Boundary);
            lemma_sub_words_from(word, i + 1, i, WordMode::Boundary);
            vstd::seq_lib::lemma_flatten_concat(seq![piece], more);
            seq![piece].lemma_flatten_one_element();
            assert(word.subrange(i, i + 1) == seq![word[i]]);
            assert(found.flatten() == word.subrange(init, i) + without_underscores(tail));
            assert(!piece.contains('_'));
            assert(all_hold_text(found));
        } else {
            lemma_sub_words_from(word, i + 1, init, mode_after(mode, word[i]));
            assert(word.subrange(init, i + 1) == word.subrange(init, i) + seq![word[i]]);
            assert(found.flatten() == word.subrange(init, i) + without_underscores(tail));
        }
    }
}

/// Every sub-word of a word holds at least one character, and none holds an
/// underscore.
pub proof fn lemma_split_word_holds_text(word: Seq<char>)
    ensures
        all_hold_text(split_word(word)),
{
    lemma_sub_words_from(word, 0, 0, WordMode::Boundary);
}

/// The sub-words of a word stand in the order of the word and lose nothing
/// of it but its underscores: one after the other they spell the word
/// without them.
pub proof fn lemma_split_word_spells_word(word: Seq<char>)
    ensures
        split_word(word).flatten() == without_underscores(word),
{
    lemma_sub_words_from(word, 0, 0, WordMode::Boundary);
    assert(word.subrange(0, 0) == Seq::<char>::empty());
    assert(word.subrange(0, word.len() as int) == word);
}

/// Where no character is uppercase, the scan finds no boundary.
proof fn lemma_scan_without_uppercase(word: Seq<char>, i: int, mode: WordMode)
    requires
        0 <= i < word.len(),
        forall|k: int| 0 <= k < word.len() ==> word[k] != '_' && !char_is_uppercase(word[k]),
    ensures
        sub_words_from(word, i, 0, mode) == seq![word],
    decreases word.len() - i,
{
    if i + 1 == word.len() {
        assert(word.subrange(0, i + 1) == word);
    } else {
        lemma_scan_without_uppercase(word, i + 1, mode_after(mode, word[i]));
    }
}

/// Where no character is lowercase, the scan never comes to be in
/// lowercase, and finds no boundary.
proof fn lemma_scan_without_lowercase(word: Seq<char>, i: int, mode: WordMode)
    requires
        0 <= i < word.len(),
        mode != WordMode::Lowercase,
        forall|k: int| 0 <= k < word.len() ==> word[k] != '_' && !char_is_lowercase(word[k]),
    ensures
        sub_words_from(word, i, 0, mode) == seq![word],
    decreases word.len() - i,
{
    if i + 1 == word.len() {
        assert(word.subrange(0, i + 1) == word);
    } else {
        lemma_scan_without_lowercase(word, i + 1, mode_after(mode, word[i]));
    }
}

/// A word that holds no underscore and no uppercase character is one
/// sub-word: every boundary within a word lies at an underscore or before an
/// uppercase character.
pub proof fn lemma_word_without_uppercase_is_whole(word: Seq<char>)
    requires
        word.len() > 0,
        forall|k: int| 0 <= k < word.len() ==> word[k] != '_' && !char_is_uppercase(word[k]),
    ensures
        split_word(word) == seq![word],
{
    lemma_scan_without_uppercase(word, 0, WordMode::Boundary);
}

/// A word that holds no underscore and no lowercase character is one
/// sub-word: a run of uppercase characters is cut only where a lowercase
/// character comes before or behind it.
pub proof fn lemma_word_without_lowercase_is_whole(word: Seq<char>)
    requires
        word.len() > 0,
        forall|k: int| 0 <= k < word.len() ==> word[k] != '_' && !char_is_lowercase(word[k]),
    ensures
        split_word(word) == seq![word],
{
    lemma_scan_without_lowercase(word, 0, WordMode::Boundary);
}

/// The scan of a word goes by what stands from the sub-word that it reads
/// on: what comes before in the word does not change what it finds.
proof fn lemma_scan_behind_prefix(
    prefix: Seq<char>,
    word: Seq<char>,
    i: int,
    init: int,
    mode: WordMode,
)
    requires
        0 <= init <= i,
    ensures
        sub_words_from(prefix + word, prefix.len() + i, prefix.len() + init, mode)
            == sub_words_from(word, i, init, mode),
    decreases word.len() - i,
{
    let all = prefix + word;
    let p = prefix.len() as int;
    if i < word.len() {
        assert(all[p + i] == word[i]);
        assert(all.subrange(p + init, p + i) == word.subrange(init, i));
        assert(all.subrange(p + init, p + i + 1) == word.subrange(init, i + 1));
        if word[i] == '_' {
            lemma_scan_behind_prefix(prefix, word, i + 1, i + 1, WordMode::Boundary);
        } else if i + 1 < word.len() {
            assert(all[p + i + 1] == word[i + 1]);
            if boundary_after(mode, word[i], word[i + 1]) {
                lemma_scan_behind_prefix(prefix, word, i + 1, i + 1, WordMode::Boundary);
            } else if boundary_before(mode, word[i], word[i + 1]) {
                lemma_scan_behind_prefix(prefix, word, i + 1, i, WordMode::Boundary);
            } else {
                lemma_scan_behind_prefix(prefix, word, i + 1, init, mode_after(mode, word[i]));
            }
        }
    }
}

/// The scan reads through a word in lowercase and ends it where an
/// uppercase character follows.
proof fn lemma_scan_lowercase_before_uppercase(
    low: Seq<char>,
    more: Seq<char>,
    i: int,
    mode: WordMode,
)
    requires
        0 <= i < low.len(),
        forall|k: int| 0 <= k < low.len() ==> plainly_lowercase(low[k]),
        more.len() > 0,
        char_is_uppercase(more[0]),
    ensures
        sub_words_from(low + more, i, 0, mode) == seq![low] + split_word(more),
    decreases low.len() - i,
{
    let all = low + more;
    assert(all[i] == low[i]);
    if i + 1 < low.len() {
        assert(all[i + 1] == low[i + 1]);
        lemma_scan_lowercase_before_uppercase(low, more, i + 1, mode_after(mode, low[i]));
    } else {
        assert(all[i + 1] == more[0]);
        assert(all.subrange(0, i + 1) == low);
        lemma_scan_behind_prefix(low, more, 0, 0, WordMode::Boundary);
    }
}

/// Where an uppercase character follows a word in lowercase, a boundary
/// lies before the uppercase character: the lowercase word is a sub-word,
/// and what follows it is split as it is alone.
pub proof fn lemma_uppercase_after_lowercase_splits(low: Seq<char>, more: Seq<char>)
    requires
        low.len() > 0,
        forall|k: int| 0 <= k < low.len() ==> plainly_lowercase(low[k]),
        more.len() > 0,
        char_is_uppercase(more[0]),
    ensures
        split_word(low + more) == seq![low] + split_word(more),
{
    lemma_scan_lowercase_before_uppercase(low, more, 0, WordMode::Boundary);
}

/// The scan reads through a run of uppercase characters and ends it
/// before the last of them where a lowercase character follows.
proof fn lemma_scan_uppercase_run(
    run: Seq<char>,
    more: Seq<char>,
    i: int,
    mode: WordMode,
)
    requires
        0 <= i <= run.len(),
        i == 0 ==> mode == WordMode::Boundary,
        i > 0 ==> mode == WordMode::Uppercase,
        run.len() > 0,
        forall|k: int| 0 <= k < run.len() ==> plainly_uppercase(run[k]),
        more.len() >= 2,
        plainly_uppercase(more[0]),
        plainly_lowercase(more[1]),
    ensures
        sub_words_from(run + more, i, 0, mode) == seq![run] + split_word(more),
    decreases run.len() - i,
{
    let all = run + more;
    let n = run.len() as int;
    if i < n {
        assert(all[i] == run[i]);
        if i + 1 < n {
            assert(all[i + 1] == run[i + 1]);
        } else {
            assert(all[i + 1] == more[0]);
        }
        lemma_scan_uppercase_run(run, more, i + 1, WordMode::Uppercase);
    } else {
        assert(all[n] == more[0]);
        assert(all[n + 1] == more[1]);
        assert(all.subrange(0, n) == run);
        // The last uppercase character begins the next sub-word, which is
        // then read as it is read in `more` alone.
        lemma_scan_behind_prefix(run, more, 1, 0, WordMode::Boundary);
        assert(sub_words_from(more, 1, 0, WordMode::Boundary) == sub_words_from(
            more,
            1,
            0,
            WordMode::Uppercase,
        ));
    }
}

/// A run of uppercase characters is one sub-word, but where a lowercase
/// character follows the run, the last uppercase character begins the next
/// sub-word: the run before it is a sub-word, and what stands from the last
/// uppercase character on is split as it is alone.
pub proof fn lemma_uppercase_run_splits_before_last(run: Seq<char>, more: Seq<char>)
    requires
        run.len() > 0,
        forall|k: int| 0 <= k < run.len() ==> plainly_uppercase(run[k]),
        more.len() >= 2,
        plainly_uppercase(more[0]),
        plainly_lowercase(more[1]),
    ensures
        split_word(run + more) == seq![run] + split_word(more),
{
    lemma_scan_uppercase_run(run, more, 0, WordMode::Boundary);
}

/// The scan of a word that is followed by an underscore and more finds what
/// it finds in the word alone, and then the sub-words of what follows the
/// underscore.
proof fn lemma_scan_before_underscore(
    word: Seq<char>,
    more: Seq<char>,
    i: int,
    init: int,
    mode: WordMode,
)
    requires
        0 <= init <= i <= word.len(),
    ensures
        sub_words_from(word + seq!['_'] + more, i, init, mode) == sub_words_from(
            word,
            i,
            init,
            mode,
        ) + split_word(more),
    decreases word.len() - i,
{
    let all = word + seq!['_'] + more;
    let len = word.len() as int;
    if i == len {
        assert(all[len] == '_');
        lemma_scan_behind_prefix(word + seq!['_'], more, 0, 0, WordMode::Boundary);
        assert(sub_words_from(word, i, init, mode) + split_word(more) == split_word(more));
    } else {
        assert(all[i] == word[i]);
        assert(all.subrange(init, i) == word.subrange(init, i));
        assert(all.subrange(init, i + 1) == word.subrange(init, i + 1));
        if word[i] == '_' {
            lemma_scan_before_underscore(word, more, i + 1, i + 1, WordMode::Boundary);
        } else if i + 1 == len {
            assert(all[i + 1] == '_');
            lemma_scan_before_underscore(word, more, i + 1, i + 1, WordMode::Boundary);
            assert(sub_words_from(word, i + 1, i + 1, WordMode::Boundary) + split_word(more)
                == split_word(more));
        } else {
            assert(all[i + 1] == word[i + 1]);
            if boundary_after(mode, word[i], word[i + 1]) {
                lemma_scan_before_underscore(word, more, i + 1, i + 1, WordMode::Boundary);
                assert(seq![word.subrange(init, i + 1)] + (sub_words_from(
                    word,
                    i + 1,
                    i + 1,
                    WordMode::Boundary,
                ) + split_word(more)) == seq![word.subrange(init, i + 1)] + sub_words_from(
                    word,
                    i + 1,
                    i + 1,
                    WordMode::Boundary,
                ) + split_word(more));
            } else if boundary_before(mode, word[i], word[i + 1]) {
                lemma_scan_before_underscore(word, more, i + 1, i, WordMode::Boundary);
                assert(seq![word.subrange(init, i)] + (sub_words_from(
                    word,
                    i + 1,
                    i,
                    WordMode::Boundary,
                ) + split_word(more)) == seq![word.subrange(init, i)] + sub_words_from(
                    word,
                    i + 1,
                    i,
                    WordMode::Boundary,
                ) + split_word(more));
            } else {
                lemma_scan_before_underscore(word, more, i + 1, init, mode_after(mode, word[i]));
            }
        }
    }
}

/// An underscore always is a boundary: the sub-words of a word with an
/// underscore in it are those of what stands before the underscore, then
/// those of what stands behind it.
pub proof fn lemma_underscore_splits(before: Seq<char>, behind: Seq<char>)
    ensures
        split_word(before + seq!['_'] + behind) == split_word(before) + split_word(behind),
{
    lemma_scan_before_underscore(before, behind, 0, 0, WordMode::Boundary);
}

/// The sub-words of some words are those of the first followed by those of
/// the others.
pub proof fn lemma_split_words_first(words: Seq<Seq<char>>)
    requires
        words.len() > 0,
    ensures
        split_words(words) == split_word(words[0]) + split_words(words.drop_first()),
{
    let here = words.map_values(|w: Seq<char>| split_word(w));
    let there = words.drop_first().map_values(|w: Seq<char>| split_word(w));
    assert(here.first() == split_word(words[0]));
    assert(here.drop_first() == there);
}

/// Every sub-word of a text holds at least one character, and none holds an
/// underscore, whatever the Unicode words of the text are.
pub proof fn lemma_split_words_hold_text(words: Seq<Seq<char>>)
    ensures
        all_hold_text(split_words(words)),
    decreases words.len(),
{
    if words.len() > 0 {
        let first = split_word(words[0]);
        let others = split_words(words.drop_first());
        lemma_split_words_first(words);
        lemma_split_word_holds_text(words[0]);
        lemma_split_words_hold_text(words.drop_first());
        assert forall|j: int| 0 <= j < (first + others).len() implies (#[trigger] (first
            + others)[j]).len() > 0 && !(first + others)[j].contains('_') by {
            if j < first.len() {
                assert((first + others)[j] == first[j]);
            } else {
                assert((first + others)[j] == others[j - first.len()]);
            }
        }
    }
}

/// The sub-words of a text stand in the order of its Unicode words and lose
/// nothing of them but their underscores.
pub proof fn lemma_split_words_spell_words(words: Seq<Seq<char>>)
    ensures
        split_words(words).flatten() == without_underscores(words.flatten()),
    decreases words.len(),
{
    if words.len() == 0 {
        reveal_with_fuel(Seq::filter, 1);
        assert(split_words(words) == Seq::<Seq<char>>::empty());
    } else {
        let first = split_word(words[0]);
        let others = split_words(words.drop_first());
        lemma_split_words_first(words);
        lemma_split_word_spells_word(words[0]);
        lemma_split_words_spell_words(words.drop_first());
        vstd::seq_lib::lemma_flatten_concat(first, others);
        Seq::filter_distributes_over_add(
            words[0],
            words.drop_first().flatten(),
            |c: char| is_kept(c),
        );
    }
}

} // verus!
