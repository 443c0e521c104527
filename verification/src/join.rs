//! Texts joined by a separator, and what joining never does: put the
//! separator first, last, or twice in a row.

use vstd::prelude::*;

verus! {

/// `pieces` one after the other, with `sep` between every two of them.
pub open spec fn joined(pieces: Seq<Seq<char>>, sep: Seq<char>) -> Seq<char>
    decreases pieces.len(),
{
    if pieces.len() == 0 {
        Seq::empty()
    } else if pieces.len() == 1 {
        pieces[0]
    } else {
        pieces[0] + sep + joined(pieces.drop_first(), sep)
    }
}

/// Whether each of `pieces` holds at least one character.
pub open spec fn all_nonempty(pieces: Seq<Seq<char>>) -> bool {
    forall|j: int| 0 <= j < pieces.len() ==> (#[trigger] pieces[j]).len() > 0
}

/// Pieces are all non-empty where the first is and the others are.
pub proof fn lemma_all_nonempty_split(pieces: Seq<Seq<char>>)
    requires
        pieces.len() > 0,
    ensures
        all_nonempty(pieces) <==> pieces[0].len() > 0 && all_nonempty(pieces.drop_first()),
{
    let rest = pieces.drop_first();
    if all_nonempty(pieces) {
        assert forall|j: int| 0 <= j < rest.len() implies (#[trigger] rest[j]).len() > 0 by {
            assert(rest[j] == pieces[j + 1]);
        }
    }
    if pieces[0].len() > 0 && all_nonempty(rest) {
        assert forall|j: int| 0 <= j < pieces.len() implies (#[trigger] pieces[j]).len() > 0 by {
            if j > 0 {
                assert(pieces[j] == rest[j - 1]);
            }
        }
    }
}

/// Whether `c` stands in `text` only between other characters: not first,
/// not last, and never twice in a row.
pub open spec fn only_between(text: Seq<char>, c: char) -> bool {
    &&& text.len() > 0 ==> text.first() != c && text.last() != c
    &&& forall|k: int| 0 <= k < text.len() - 1 ==> !(#[trigger] text[k] == c && text[k + 1] == c)
}

/// Non-empty pieces, joined, give a text that is as long as the first of
/// them at least, and that holds a character for each piece.
pub proof fn lemma_joined_len(pieces: Seq<Seq<char>>, sep: Seq<char>)
    requires
        all_nonempty(pieces),
    ensures
        joined(pieces, sep).len() >= pieces.len(),
        pieces.len() > 0 ==> joined(pieces, sep).len() >= pieces[0].len(),
    decreases pieces.len(),
{
    if pieces.len() > 1 {
        lemma_all_nonempty_split(pieces);
        lemma_joined_len(pieces.drop_first(), sep);
    }
}

/// Pieces that hold text, joined by one separator character, give a text
/// in which the separator stands only between other characters, provided
/// that it does so in each piece: joining puts no separator first or last,
/// and no two in a row.
pub proof fn lemma_joined_only_between(pieces: Seq<Seq<char>>, c: char)
    requires
        all_nonempty(pieces),
        forall|j: int| 0 <= j < pieces.len() ==> only_between(#[trigger] pieces[j], c),
    ensures
        only_between(joined(pieces, seq![c]), c),
    decreases pieces.len(),
{
    let text = joined(pieces, seq![c]);
    if pieces.len() > 1 {
        let head = pieces[0];
        let rest = pieces.drop_first();
        let tail = joined(rest, seq![c]);
        lemma_all_nonempty_split(pieces);
        assert forall|j: int| 0 <= j < rest.len() implies only_between(#[trigger] rest[j], c) by {
            assert(rest[j] == pieces[j + 1]);
        }
        lemma_joined_only_between(rest, c);
        lemma_joined_len(rest, seq![c]);
        assert(text == head + seq![c] + tail);
        assert(only_between(head, c));
        let h = head.len() as int;
        assert(text.first() == head.first());
        assert(text.last() == tail.last());
        assert forall|k: int| 0 <= k < text.len() - 1 implies !(#[trigger] text[k] == c && text[k
            + 1] == c) by {
            if k + 1 < h {
                assert(text[k] == head[k] && text[k + 1] == head[k + 1]);
            } else if k + 1 == h {
                assert(text[k] == head.last());
            } else if k == h {
                assert(text[k + 1] == tail.first());
            } else {
                assert(text[k] == tail[k - h - 1] && text[k + 1] == tail[k - h]);
            }
        }
    }
}

} // verus!
