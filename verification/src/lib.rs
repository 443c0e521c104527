//! A case conversion library, with its word segmentation verified.
//!
//! The library converts a text between CamelCase, mixedCase, snake_case,
//! kebab-case, SHOUTY_SNAKE_CASE and Title Case. Every conversion cuts the
//! text into words and writes each word in the way of its style, with the
//! separator of the style between every two words.
//!
//! ## Where a word ends
//!
//! A text is first cut into its Unicode words; what stands between them,
//! such as spaces and punctuation, is dropped. Within a Unicode word,
//!
//! 1. every underscore is a boundary, and is dropped;
//! 2. where an uppercase character follows a word that is in lowercase, a
//!    boundary lies before the uppercase character;
//! 3. a run of uppercase characters is one word, but where a lowercase
//!    character follows the run, the last uppercase character begins the
//!    next word.
//!
//! So `HelloWorld` holds the words `Hello` and `World`, and `XMLHttpRequest`
//! the words `XML`, `Http` and `Request`. Boundaries that meet fold into
//! one: `hello__world` in snake case is `hello_world`.
//!
//! ## What is proved
//!
//! The module `words` says where the boundaries lie, `word_laws` proves
//! what follows from that, and `engine` holds the scan that finds the
//! boundaries; each style is a `Policy` that the scan hands its words to. The contracts state the text that each conversion gives, over
//! the Unicode words of its input and the case mappings of characters,
//! which the module `unicode` takes on trust.

pub mod camel;
pub mod casing;
pub mod engine;
pub mod join;
pub mod kebab;
pub mod mixed;
pub mod shouty_snake;
pub mod sink;
pub mod snake;
pub mod text;
pub mod title;
pub mod unicode;
pub mod word_laws;
pub mod words;

pub use camel::{AsCamelCase, CamelCase};
pub use casing::{capitalize, lowercase, uppercase};
pub use engine::{transform, transform_words, Policy};
pub use kebab::{AsKebabCase, KebabCase};
pub use mixed::{AsMixedCase, MixedCase};
pub use shouty_snake::{
    AsShoutySnakeCase, AsShoutySnakeCase as AsShoutySnekCase, ShoutySnakeCase, ShoutySnekCase,
};
pub use sink::{Sink, WriteError};
pub use snake::{AsSnakeCase, AsSnakeCase as AsSnekCase, SnakeCase, SnekCase};
pub use text::Text;
pub use title::{AsTitleCase, TitleCase};
