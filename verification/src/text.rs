//! What a conversion reads: a string slice or a `String`.

use vstd::prelude::*;

verus! {

/// A value that holds a text to convert.
pub trait Text {
    /// The characters of the text.
    spec fn content(&self) -> Seq<char>;

    /// The text as a string slice.
    fn as_text(&self) -> (s: &str)
        ensures
            s@ == self.content(),
    ;
}

impl<'a> Text for &'a str {
    open spec fn content(&self) -> Seq<char> {
        self@
    }

    fn as_text(&self) -> (s: &str) {
        *self
    }
}

impl Text for String {
    open spec fn content(&self) -> Seq<char> {
        self@
    }

    fn as_text(&self) -> (s: &str) {
        self.as_str()
    }
}

} // verus!
