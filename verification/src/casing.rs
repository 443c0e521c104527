//! The three ways in which a word is written: in lowercase, in uppercase,
//! and capitalized.

use crate::sink::{Sink, WriteError};
use crate::unicode::{char_lowercase, char_uppercase, to_lowercase, to_uppercase};
use vstd::prelude::*;

verus! {

/// The lowercase mapping of each character of `s`.
pub open spec fn lower_mappings(s: Seq<char>) -> Seq<Seq<char>> {
    s.map_values(|c: char| char_lowercase(c))
}

/// The uppercase mapping of each character of `s`.
pub open spec fn upper_mappings(s: Seq<char>) -> Seq<Seq<char>> {
    s.map_values(|c: char| char_uppercase(c))
}

/// How the last character of a word is lowercased: a capital sigma takes its
/// final form, every other character its lowercase mapping.
pub open spec fn final_lowercase(c: char) -> Seq<char> {
    if c == 'Σ' {
        seq!['ς']
    } else {
        char_lowercase(c)
    }
}

/// `s` in lowercase: the lowercase mapping of every character, but for a
/// capital sigma at the very end, which becomes a final sigma.
pub open spec fn lowercased(s: Seq<char>) -> Seq<char> {
    if s.len() == 0 {
        Seq::empty()
    } else {
        lower_mappings(s.drop_last()).flatten() + final_lowercase(s.last())
    }
}

/// `s` in uppercase: the uppercase mapping of every character.
pub open spec fn uppercased(s: Seq<char>) -> Seq<char> {
    upper_mappings(s).flatten()
}

/// `s` capitalized: the uppercase mapping of its first character, then the
/// rest in lowercase.
pub open spec fn capitalized(s: Seq<char>) -> Seq<char> {
    if s.len() == 0 {
        Seq::empty()
    } else {
        char_uppercase(s.first()) + lowercased(s.drop_first())
    }
}

/// What `lowercase` has written once it has dealt with the first `i`
/// characters of `s`.
spec fn lowercased_upto(s: Seq<char>, i: int) -> Seq<char> {
    if i == s.len() {
        lowercased(s)
    } else {
        lower_mappings(s.take(i)).flatten()
    }
}

/// Writes `s` in lowercase to `f`.
pub fn lowercase<S: Sink>(s: &[char], f: &mut S) -> (r: Result<(), WriteError>)
    ensures
        S::obeys_sink_spec() && r is Ok ==> final(f).text() == old(f).text() + lowercased(s@),
        r is Ok ==> lowercased(s@).len() >= s@.len(),
        S::infallible() || s@.len() == 0 ==> r is Ok,
        s@.len() == 0 ==> *final(f) == *old(f),
{
    let n = s.len();
    let mut i: usize = 0;
    while i < n
        invariant
            i <= n,
            n == s@.len(),
            S::obeys_sink_spec() ==> f.text() == old(f).text() + lowercased_upto(s@, i as int),
            lowercased_upto(s@, i as int).len() >= i,
            n == 0 ==> *f == *old(f),
        decreases n - i,
    {
        let c = s[i];
        proof {
            let head = s@.take(i as int);
            assert(s@.take(i + 1) == head.push(c));
            assert(lower_mappings(head.push(c)) == lower_mappings(head).push(char_lowercase(c)));
            lower_mappings(head).lemma_flatten_push(char_lowercase(c));
            if i + 1 == n {
                assert(s@.drop_last() == head);
                assert(s@.take(n as int) == s@);
            }
        }
        if c == 'Σ' && i + 1 == n {
            proof {
                reveal_strlit("ς");
                assert("ς"@ == seq!['ς']);
            }
            f.write_str("ς")?;
        } else {
            let mapping = to_lowercase(c);
            f.write_str(mapping.as_str())?;
        }
        i += 1;
    }
    Ok(())
}

/// Writes `s` in uppercase to `f`.
pub fn uppercase<S: Sink>(s: &[char], f: &mut S) -> (r: Result<(), WriteError>)
    ensures
        S::obeys_sink_spec() && r is Ok ==> final(f).text() == old(f).text() + uppercased(s@),
        r is Ok ==> uppercased(s@).len() >= s@.len(),
        S::infallible() || s@.len() == 0 ==> r is Ok,
        s@.len() == 0 ==> *final(f) == *old(f),
{
    let n = s.len();
    let mut i: usize = 0;
    while i < n
        invariant
            i <= n,
            n == s@.len(),
            S::obeys_sink_spec() ==> f.text() == old(f).text() + upper_mappings(
                s@.take(i as int),
            ).flatten(),
            upper_mappings(s@.take(i as int)).flatten().len() >= i,
            n == 0 ==> *f == *old(f),
        decreases n - i,
    {
        let c = s[i];
        proof {
            let head = s@.take(i as int);
            assert(s@.take(i + 1) == head.push(c));
            assert(upper_mappings(head.push(c)) == upper_mappings(head).push(char_uppercase(c)));
            upper_mappings(head).lemma_flatten_push(char_uppercase(c));
        }
        let mapping = to_uppercase(c);
        f.write_str(mapping.as_str())?;
        i += 1;
    }
    proof {
        assert(s@.take(n as int) == s@);
    }
    Ok(())
}

/// Writes `s` capitalized to `f`.
pub fn capitalize<S: Sink>(s: &[char], f: &mut S) -> (r: Result<(), WriteError>)
    ensures
        S::obeys_sink_spec() && r is Ok ==> final(f).text() == old(f).text() + capitalized(s@),
        r is Ok ==> capitalized(s@).len() >= s@.len(),
        S::infallible() || s@.len() == 0 ==> r is Ok,
        s@.len() == 0 ==> *final(f) == *old(f),
{
    if s.len() > 0 {
        let mapping = to_uppercase(s[0]);
        f.write_str(mapping.as_str())?;
        if s.len() > 1 {
            let rest = vstd::slice::slice_subrange(s, 1, s.len());
            proof {
                assert(rest@ == s@.drop_first());
            }
            lowercase(rest, f)?;
        }
    }
    Ok(())
}

} // verus!
