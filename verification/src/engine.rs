//! The engine that all case conversions share: it finds the sub-words of a
//! text and hands each to a policy, which writes it in its own way, with a
//! boundary between every two of them. The engine knows nothing of any
//! style; all that a style is stands in its policy.

use crate::join::{all_nonempty, joined, lemma_all_nonempty_split};
use crate::sink::{Sink, WriteError};
use crate::unicode::{char_views, words_of};
use crate::word_laws::lemma_split_words_first;
use crate::words::{scan_state, split_words, sub_words, sub_words_from, WordMode};
use vstd::prelude::*;

verus! {

/// How a case style writes words: what it writes for one word, and what it
/// writes between two. A policy may change as it writes, so that it can
/// treat the first word in its own way.
pub trait Policy: Sized {
    /// What the policy, as it is, writes for `word`.
    spec fn word_text(&self, word: Seq<char>) -> Seq<char>;

    /// The policy once it has written `word`.
    spec fn after_word(&self, word: Seq<char>) -> Self;

    /// What the policy, as it is, writes between two words.
    spec fn boundary_text(&self) -> Seq<char>;

    /// The policy once it has written a boundary.
    spec fn after_boundary(&self) -> Self;

    /// Writes `word` to `f`, and fails only where `f` does. Something is
    /// written for every word that holds a character.
    fn with_word<S: Sink>(&mut self, word: &[char], f: &mut S) -> (r: Result<(), WriteError>)
        ensures
            S::obeys_sink_spec() && r is Ok ==> final(f).text() == old(f).text() + old(
                self,
            ).word_text(word@),
            r is Ok ==> *final(self) == old(self).after_word(word@),
            r is Ok && word@.len() > 0 ==> old(self).word_text(word@).len() > 0,
            S::infallible() ==> r is Ok,
    ;

    /// Writes to `f` what separates two words, and fails only where `f`
    /// does.
    fn boundary<S: Sink>(&mut self, f: &mut S) -> (r: Result<(), WriteError>)
        ensures
            S::obeys_sink_spec() && r is Ok ==> final(f).text() == old(f).text() + old(
                self,
            ).boundary_text(),
            r is Ok ==> *final(self) == old(self).after_boundary(),
            S::infallible() ==> r is Ok,
    ;
}

/// What is written ahead of a word: nothing ahead of the first, the
/// policy's boundary ahead of any other.
pub open spec fn lead<P: Policy>(policy: P, first: bool) -> Seq<char> {
    if first {
        Seq::empty()
    } else {
        policy.boundary_text()
    }
}

/// The policy as it is when it comes to write a word: as it was ahead of
/// the first word, and as the boundary left it ahead of any other.
pub open spec fn entering<P: Policy>(policy: P, first: bool) -> P {
    if first {
        policy
    } else {
        policy.after_boundary()
    }
}

/// What `policy` writes for `words`: each word in turn, and a boundary
/// between every two of them. `first` says whether the first of `words` is
/// the first word written at all; if it is not, a boundary comes ahead of
/// it too.
#[verifier::opaque]
pub open spec fn rendered<P: Policy>(policy: P, first: bool, words: Seq<Seq<char>>) -> Seq<char>
    decreases words.len(),
{
    if words.len() == 0 {
        Seq::empty()
    } else {
        let writer = entering(policy, first);
        lead(policy, first) + writer.word_text(words[0]) + rendered(
            writer.after_word(words[0]),
            false,
            words.drop_first(),
        )
    }
}

/// Whether `policy` writes at least one character for each of `words`, so
/// that no two of its boundaries meet.
#[verifier::opaque]
pub open spec fn writes_every_word<P: Policy>(
    policy: P,
    first: bool,
    words: Seq<Seq<char>>,
) -> bool
    decreases words.len(),
{
    words.len() == 0 || {
        let writer = entering(policy, first);
        &&& writer.word_text(words[0]).len() > 0
        &&& writes_every_word(writer.after_word(words[0]), false, words.drop_first())
    }
}

/// Whether `policy` stays as it is, whatever it writes.
pub open spec fn unchanging<P: Policy>(policy: P) -> bool {
    &&& policy.after_boundary() == policy
    &&& forall|word: Seq<char>| #[trigger] policy.after_word(word) == policy
}

/// What `policy`, as it is, writes for each of `words`.
pub open spec fn word_texts<P: Policy>(policy: P, words: Seq<Seq<char>>) -> Seq<Seq<char>> {
    words.map_values(|w: Seq<char>| policy.word_text(w))
}

/// Converts `s`: hands its sub-words to `policy`, which writes them to `f`,
/// every sub-word in turn and a boundary between every two, none ahead of
/// the first and none behind the last. The first failure of the sink ends
/// the work; a text without characters asks nothing of the sink.
pub fn transform<P: Policy, S: Sink>(s: &str, policy: P, f: &mut S) -> (r: Result<(), WriteError>)
    ensures
        S::obeys_sink_spec() && r is Ok ==> final(f).text() == old(f).text() + rendered(
            policy,
            true,
            sub_words(s@),
        ),
        r is Ok ==> writes_every_word(policy, true, sub_words(s@)),
        S::infallible() || s@.len() == 0 ==> r is Ok,
        s@.len() == 0 ==> *final(f) == *old(f),
{
    let words = words_of(s);
    transform_words(words.as_slice(), policy, f)
}

/// Does the work of `transform` on the Unicode words of a text, each given
/// as its characters: scans every word for its sub-words and hands them to
/// `policy`, which writes them to `f`. Where there is no word, nothing is
/// asked of the sink.
pub fn transform_words<P: Policy, S: Sink>(words: &[Vec<char>], policy: P, f: &mut S) -> (r:
    Result<(), WriteError>)
    ensures
        S::obeys_sink_spec() && r is Ok ==> final(f).text() == old(f).text() + rendered(
            policy,
            true,
            split_words(char_views(words@)),
        ),
        r is Ok ==> writes_every_word(policy, true, split_words(char_views(words@))),
        S::infallible() || words@.len() == 0 ==> r is Ok,
        words@.len() == 0 ==> *final(f) == *old(f),
{
    let ghost texts = char_views(words@);
    let ghost goal = old(f).text() + rendered(policy, true, split_words(texts));
    let ghost origin = policy;
    let mut policy = policy;
    let mut first_word = true;
    let mut k: usize = 0;
    proof {
        assert(texts.skip(0) == texts);
    }
    while k < words.len()
        invariant
            k <= words.len(),
            texts == char_views(words@),
            S::obeys_sink_spec() ==> f.text() + rendered(
                policy,
                first_word,
                split_words(texts.skip(k as int)),
            ) == goal,
            writes_every_word(policy, first_word, split_words(texts.skip(k as int)))
                ==> writes_every_word(origin, true, split_words(texts)),
            words@.len() == 0 ==> *f == *old(f),
        decreases words.len() - k,
    {
        let word = words[k].as_slice();
        let ghost rest = split_words(texts.skip(k + 1));
        proof {
            lemma_split_words_first(texts.skip(k as int));
            assert(texts.skip(k as int).drop_first() == texts.skip(k + 1));
            assert(texts.skip(k as int)[0] == word@);
        }
        let n = word.len();
        let mut i: usize = 0;
        let mut init: usize = 0;
        let mut mode = WordMode::Boundary;
        while i < n
            invariant_except_break
                scan_state(word@, i as int, init as int, mode),
                S::obeys_sink_spec() ==> f.text() + rendered(
                    policy,
                    first_word,
                    sub_words_from(word@, i as int, init as int, mode) + rest,
                ) == goal,
                writes_every_word(
                    policy,
                    first_word,
                    sub_words_from(word@, i as int, init as int, mode) + rest,
                ) ==> writes_every_word(origin, true, split_words(texts)),
            invariant
                k < words.len(),
                n == word@.len(),
            ensures
                S::obeys_sink_spec() ==> f.text() + rendered(policy, first_word, rest) == goal,
                writes_every_word(policy, first_word, rest) ==> writes_every_word(
                    origin,
                    true,
                    split_words(texts),
                ),
            decreases n - i,
        {
            let c = word[i];
            let ghost before = f.text();
            let ghost writer = policy;
            let ghost was_first = first_word;
            if c == '_' {
                // An underscore belongs to no sub-word.
                if init == i {
                    init += 1;
                }
            } else if i + 1 < n {
                let next = word[i + 1];
                // The mode with `c` read, should `c` bring no boundary.
                let next_mode = if c.is_lowercase() {
                    WordMode::Lowercase
                } else if c.is_uppercase() {
                    WordMode::Uppercase
                } else {
                    mode
                };
                if next == '_' || (next_mode == WordMode::Lowercase && next.is_uppercase()) {
                    // The sub-word ends after `c`.
                    let piece = vstd::slice::slice_subrange(word, init, i + 1);
                    let ghost more = sub_words_from(word@, i + 1, i + 1, WordMode::Boundary);
                    proof {
                        lemma_next_piece(writer, was_first, piece@, more + rest);
                        assert(seq![piece@] + more + rest == seq![piece@] + (more + rest));
                    }
                    emit(&mut policy, &mut first_word, piece, f)?;
                    proof {
                        assert(S::obeys_sink_spec() ==> f.text() + rendered(
                            policy,
                            first_word,
                            more + rest,
                        ) == before + rendered(writer, was_first, seq![piece@] + (more + rest)));
                    }
                    init = i + 1;
                    mode = WordMode::Boundary;
                } else if mode == WordMode::Uppercase && c.is_uppercase() && next.is_lowercase() {
                    // The sub-word ends before `c`, which begins the next.
                    let piece = vstd::slice::slice_subrange(word, init, i);
                    let ghost more = sub_words_from(word@, i + 1, i as int, WordMode::Boundary);
                    proof {
                        lemma_next_piece(writer, was_first, piece@, more + rest);
                        assert(seq![piece@] + more + rest == seq![piece@] + (more + rest));
                    }
                    emit(&mut policy, &mut first_word, piece, f)?;
                    proof {
                        assert(S::obeys_sink_spec() ==> f.text() + rendered(
                            policy,
                            first_word,
                            more + rest,
                        ) == before + rendered(writer, was_first, seq![piece@] + (more + rest)));
                    }
                    init = i;
                    mode = WordMode::Boundary;
                } else {
                    mode = next_mode;
                }
            } else {
                // What is left of the word is its last sub-word.
                let piece = vstd::slice::slice_subrange(word, init, n);
                proof {
                    lemma_next_piece(writer, was_first, piece@, rest);
                }
                emit(&mut policy, &mut first_word, piece, f)?;
                proof {
                    assert(S::obeys_sink_spec() ==> f.text() + rendered(policy, first_word, rest)
                        == before + rendered(writer, was_first, seq![piece@] + rest));
                }
                break ;
            }
            i += 1;
            proof {
                if i == n {
                    assert(sub_words_from(word@, n as int, init as int, mode) + rest == rest);
                }
            }
        }
        k += 1;
    }
    proof {
        assert(texts.skip(k as int) == Seq::<Seq<char>>::empty());
        lemma_no_piece(policy, first_word);
    }
    Ok(())
}

/// Writes one sub-word, and the boundary ahead of it unless it is the first.
fn emit<P: Policy, S: Sink>(policy: &mut P, first_word: &mut bool, word: &[char], f: &mut S) -> (r:
    Result<(), WriteError>)
    ensures
        S::obeys_sink_spec() && r is Ok ==> final(f).text() == old(f).text() + lead(
            *old(policy),
            *old(first_word),
        ) + entering(*old(policy), *old(first_word)).word_text(word@),
        r is Ok ==> *final(policy) == entering(*old(policy), *old(first_word)).after_word(word@),
        r is Ok ==> !*final(first_word),
        r is Ok && word@.len() > 0 ==> entering(*old(policy), *old(first_word)).word_text(
            word@,
        ).len() > 0,
        S::infallible() ==> r is Ok,
{
    if !*first_word {
        policy.boundary(f)?;
    } else {
        *first_word = false;
    }
    policy.with_word(word, f)?;
    Ok(())
}

/// What is written for some words is what is written for the first of
/// them, then what is written for the others.
proof fn lemma_next_piece<P: Policy>(
    policy: P,
    first: bool,
    piece: Seq<char>,
    rest: Seq<Seq<char>>,
)
    ensures
        rendered(policy, first, seq![piece] + rest) == lead(policy, first) + entering(
            policy,
            first,
        ).word_text(piece) + rendered(entering(policy, first).after_word(piece), false, rest),
        writes_every_word(policy, first, seq![piece] + rest) <==> entering(
            policy,
            first,
        ).word_text(piece).len() > 0 && writes_every_word(
            entering(policy, first).after_word(piece),
            false,
            rest,
        ),
{
    reveal(rendered);
    reveal(writes_every_word);
    let all = seq![piece] + rest;
    assert(all[0] == piece);
    assert(all.drop_first() == rest);
}

/// Nothing is written where no word is left.
proof fn lemma_no_piece<P: Policy>(policy: P, first: bool)
    ensures
        rendered(policy, first, Seq::empty()) == Seq::<char>::empty(),
        writes_every_word(policy, first, Seq::empty()),
{
    reveal(rendered);
    reveal(writes_every_word);
}

/// A policy that stays as it is writes its words joined by its boundary,
/// and writes a character for every word where none of the joined texts is
/// empty.
pub proof fn lemma_rendered_unchanging<P: Policy>(policy: P, first: bool, words: Seq<Seq<char>>)
    requires
        unchanging(policy),
    ensures
        rendered(policy, first, words) == lead(policy, first || words.len() == 0) + joined(
            word_texts(policy, words),
            policy.boundary_text(),
        ),
        writes_every_word(policy, first, words) <==> all_nonempty(word_texts(policy, words)),
    decreases words.len(),
{
    reveal(rendered);
    reveal(writes_every_word);
    let texts = word_texts(policy, words);
    if words.len() > 0 {
        let rest = words.drop_first();
        lemma_rendered_unchanging(policy, false, rest);
        assert(word_texts(policy, rest) == texts.drop_first());
        assert(policy.after_word(words[0]) == policy);
        assert(texts[0] == policy.word_text(words[0]));
        lemma_all_nonempty_split(texts);
    }
}

} // verus!
