use heck::{
    AsKebabCase, AsShoutySnakeCase, AsShoutySnekCase, AsSnakeCase, AsSnekCase, AsTitleCase,
    KebabCase, ShoutySnakeCase, ShoutySnekCase, SnakeCase, SnekCase, TitleCase,
};

#[test]
fn snake_cases() {
    assert_eq!("CamelCase".to_snake_case(), "camel_case");
    assert_eq!("This is Human case.".to_snake_case(), "this_is_human_case");
    assert_eq!(
        "MixedUP CamelCase, with some Spaces".to_snake_case(),
        "mixed_up_camel_case_with_some_spaces"
    );
    assert_eq!(
        "mixed_up_ snake_case with some _spaces".to_snake_case(),
        "mixed_up_snake_case_with_some_spaces"
    );
    assert_eq!("kebab-case".to_snake_case(), "kebab_case");
    assert_eq!("SHOUTY_SNAKE_CASE".to_snake_case(), "shouty_snake_case");
    assert_eq!("snake_case".to_snake_case(), "snake_case");
    assert_eq!(
        "this-contains_ ALLKinds OfWord_Boundaries".to_snake_case(),
        "this_contains_all_kinds_of_word_boundaries"
    );
    assert_eq!("XΣXΣ baﬄe".to_snake_case(), "xσxς_baﬄe");
    assert_eq!("XMLHttpRequest".to_snake_case(), "xml_http_request");
}

#[test]
fn snake_digits_have_no_case() {
    assert_eq!("FIELD_NAME11".to_snake_case(), "field_name11");
    assert_eq!("99BOTTLES".to_snake_case(), "99bottles");
    assert_eq!("FieldNamE11".to_snake_case(), "field_nam_e11");
    assert_eq!("abc123def456".to_snake_case(), "abc123def456");
    assert_eq!("abc123DEF456".to_snake_case(), "abc123_def456");
    assert_eq!("abc123Def456".to_snake_case(), "abc123_def456");
    assert_eq!("ABC123dEEf456FOO".to_snake_case(), "abc123d_e_ef456_foo");
}

#[test]
fn snake_folds_runs_of_underscores() {
    assert_eq!("hello__world".to_snake_case(), "hello_world");
    assert_eq!("__hello___world__".to_snake_case(), "hello_world");
    assert_eq!("_".to_snake_case(), "");
    assert_eq!("a_".to_snake_case(), "a");
    assert_eq!("_a".to_snake_case(), "a");
}

#[test]
fn snake_sentence() {
    let sentence = "We carry a new world here, in our hearts.";
    assert_eq!(sentence.to_snake_case(), "we_carry_a_new_world_here_in_our_hearts");
    assert_eq!(
        AsSnakeCase(sentence).to_string(),
        "we_carry_a_new_world_here_in_our_hearts"
    );
}

#[test]
fn snek_is_snake() {
    let sentence = "We carry a new world here, in our hearts.";
    assert_eq!(sentence.to_snek_case(), sentence.to_snake_case());
    assert_eq!(AsSnekCase("XMLHttpRequest").to_string(), "xml_http_request");
}

#[test]
fn kebab_cases() {
    assert_eq!("CamelCase".to_kebab_case(), "camel-case");
    assert_eq!("This is Human case.".to_kebab_case(), "this-is-human-case");
    assert_eq!(
        "MixedUP CamelCase, with some Spaces".to_kebab_case(),
        "mixed-up-camel-case-with-some-spaces"
    );
    assert_eq!(
        "mixed_up_ snake_case with some _spaces".to_kebab_case(),
        "mixed-up-snake-case-with-some-spaces"
    );
    assert_eq!("kebab-case".to_kebab_case(), "kebab-case");
    assert_eq!("SHOUTY_SNAKE_CASE".to_kebab_case(), "shouty-snake-case");
    assert_eq!("snake_case".to_kebab_case(), "snake-case");
    assert_eq!(
        "this-contains_ ALLKinds OfWord_Boundaries".to_kebab_case(),
        "this-contains-all-kinds-of-word-boundaries"
    );
    assert_eq!("XΣXΣ baﬄe".to_kebab_case(), "xσxς-baﬄe");
    assert_eq!("XMLHttpRequest".to_kebab_case(), "xml-http-request");
}

#[test]
fn kebab_sentence() {
    let sentence = "We are going to inherit the earth.";
    assert_eq!(sentence.to_kebab_case(), "we-are-going-to-inherit-the-earth");
    assert_eq!(AsKebabCase(sentence).to_string(), "we-are-going-to-inherit-the-earth");
}

#[test]
fn shouty_snake_cases() {
    assert_eq!("CamelCase".to_shouty_snake_case(), "CAMEL_CASE");
    assert_eq!("This is Human case.".to_shouty_snake_case(), "THIS_IS_HUMAN_CASE");
    assert_eq!(
        "MixedUP CamelCase, with some Spaces".to_shouty_snake_case(),
        "MIXED_UP_CAMEL_CASE_WITH_SOME_SPACES"
    );
    assert_eq!(
        "mixed_up_snake_case with some _spaces".to_shouty_snake_case(),
        "MIXED_UP_SNAKE_CASE_WITH_SOME_SPACES"
    );
    assert_eq!("kebab-case".to_shouty_snake_case(), "KEBAB_CASE");
    assert_eq!("SHOUTY_SNAKE_CASE".to_shouty_snake_case(), "SHOUTY_SNAKE_CASE");
    assert_eq!("snake_case".to_shouty_snake_case(), "SNAKE_CASE");
    assert_eq!(
        "this-contains_ ALLKinds OfWord_Boundaries".to_shouty_snake_case(),
        "THIS_CONTAINS_ALL_KINDS_OF_WORD_BOUNDARIES"
    );
    assert_eq!("XΣXΣ baﬄe".to_shouty_snake_case(), "XΣXΣ_BAFFLE");
    assert_eq!("XMLHttpRequest".to_shouty_snake_case(), "XML_HTTP_REQUEST");
}

#[test]
fn shouty_snake_sentence() {
    let sentence = "That world is growing in this minute.";
    assert_eq!(
        sentence.to_shouty_snake_case(),
        "THAT_WORLD_IS_GROWING_IN_THIS_MINUTE"
    );
    assert_eq!(
        AsShoutySnakeCase(sentence).to_string(),
        "THAT_WORLD_IS_GROWING_IN_THIS_MINUTE"
    );
}

#[test]
fn shouty_snek_is_shouty_snake() {
    let sentence = "That world is growing in this minute.";
    assert_eq!(sentence.TO_SHOUTY_SNEK_CASE(), sentence.to_shouty_snake_case());
    assert_eq!(AsShoutySnekCase("kebab-case").to_string(), "KEBAB_CASE");
}

#[test]
fn title_cases() {
    assert_eq!("CamelCase".to_title_case(), "Camel Case");
    assert_eq!("This is Human case.".to_title_case(), "This Is Human Case");
    assert_eq!(
        "MixedUP CamelCase, with some Spaces".to_title_case(),
        "Mixed Up Camel Case With Some Spaces"
    );
    assert_eq!(
        "mixed_up_ snake_case, with some _spaces".to_title_case(),
        "Mixed Up Snake Case With Some Spaces"
    );
    assert_eq!("kebab-case".to_title_case(), "Kebab Case");
    assert_eq!("SHOUTY_SNAKE_CASE".to_title_case(), "Shouty Snake Case");
    assert_eq!("snake_case".to_title_case(), "Snake Case");
    assert_eq!(
        "this-contains_ ALLKinds OfWord_Boundaries".to_title_case(),
        "This Contains All Kinds Of Word Boundaries"
    );
    assert_eq!("XΣXΣ baﬄe".to_title_case(), "Xσxς Baﬄe");
    assert_eq!("XMLHttpRequest".to_title_case(), "Xml Http Request");
}

#[test]
fn title_sentence() {
    let sentence = "We have always lived in slums and holes in the wall.";
    assert_eq!(
        sentence.to_title_case(),
        "We Have Always Lived In Slums And Holes In The Wall"
    );
    assert_eq!(
        AsTitleCase(sentence).to_string(),
        "We Have Always Lived In Slums And Holes In The Wall"
    );
}

#[test]
fn nothing_in_gives_nothing_out() {
    assert_eq!("".to_snake_case(), "");
    assert_eq!("".to_snek_case(), "");
    assert_eq!("".to_kebab_case(), "");
    assert_eq!("".to_shouty_snake_case(), "");
    assert_eq!("".TO_SHOUTY_SNEK_CASE(), "");
    assert_eq!("".to_title_case(), "");
    let mut out = String::from("kept");
    assert_eq!(AsKebabCase("").fmt(&mut out), Ok(()));
    assert_eq!(out, "kept");
}

fn separator_only_between(text: &str, sep: char) -> bool {
    let doubled: String = [sep, sep].iter().collect();
    !text.starts_with(sep) && !text.ends_with(sep) && !text.contains(&doubled)
}

#[test]
fn separators_stand_only_between_words() {
    let inputs = [
        "__leading and trailing__",
        "a--b  c__d,,e",
        "  spaced   out  ",
        "-_- mixedUP_-_Separators -_-",
        "x",
    ];
    for input in inputs.iter() {
        assert!(separator_only_between(&input.to_snake_case(), '_'));
        assert!(separator_only_between(&input.to_shouty_snake_case(), '_'));
        assert!(separator_only_between(&input.to_kebab_case(), '-'));
        assert!(separator_only_between(&input.to_title_case(), ' '));
    }
    assert_eq!("a--b  c__d,,e".to_kebab_case(), "a-b-c-d-e");
    assert_eq!("  spaced   out  ".to_title_case(), "Spaced Out");
}

#[test]
fn a_word_that_begins_with_the_separator_keeps_it() {
    // A hyphen, or a space, with a combining letter behind it is one Unicode
    // word, and the word is written as it is cased.
    assert_eq!("-\u{345}".to_kebab_case(), "-\u{345}");
    assert_eq!(" \u{345}".to_title_case(), " \u{345}");
    assert_eq!("a -\u{345}".to_kebab_case(), "a--\u{345}");
}
