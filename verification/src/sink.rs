//! Where converted text goes: anything that takes text fragments in order
//! and may refuse one.

use vstd::prelude::*;

verus! {

/// A sink did not take what was written to it.
#[derive(Clone, Copy, Debug, PartialEq, Eq, Structural)]
pub struct WriteError;

/// An appendable destination for text.
///
/// The three specification functions describe a type of sinks to the
/// verifier. Their defaults describe a sink of which nothing is known: it
/// may fail at any write, and nothing is said of the text that it holds.
pub trait Sink {
    /// Whether `text` tells what sinks of this type have taken. Where it
    /// does not, nothing is promised of their text.
    open spec fn obeys_sink_spec() -> bool {
        false
    }

    /// The text that the sink has taken so far.
    open spec fn text(&self) -> Seq<char> {
        Seq::empty()
    }

    /// Whether writing to a sink of this type always succeeds.
    open spec fn infallible() -> bool {
        false
    }

    /// Appends `s` to the sink, or fails. Nothing is promised of the text of
    /// a sink that has failed.
    fn write_str(&mut self, s: &str) -> (r: Result<(), WriteError>)
        ensures
            Self::obeys_sink_spec() && r is Ok ==> final(self).text() == old(self).text() + s@,
            Self::infallible() ==> r is Ok,
    ;
}

/// A `String` takes every fragment, and holds what it has taken.
impl Sink for String {
    open spec fn obeys_sink_spec() -> bool {
        true
    }

    open spec fn text(&self) -> Seq<char> {
        self@
    }

    open spec fn infallible() -> bool {
        true
    }

    fn write_str(&mut self, s: &str) -> (r: Result<(), WriteError>) {
        self.append(s);
        Ok(())
    }
}

} // verus!
