use heck::{AsCamelCase, CamelCase};

#[test]
fn camel_test1() {
    assert_eq!("CamelCase".to_camel_case(), "CamelCase");
}

#[test]
fn camel_test2() {
    assert_eq!("This is Human case.".to_camel_case(), "ThisIsHumanCase");
}

#[test]
fn camel_test3() {
    assert_eq!(
        "MixedUP_CamelCase, with some Spaces".to_camel_case(),
        "MixedUpCamelCaseWithSomeSpaces"
    );
}

#[test]
fn camel_test4() {
    assert_eq!(
        "mixed_up_ snake_case, with some _spaces".to_camel_case(),
        "MixedUpSnakeCaseWithSomeSpaces"
    );
}

#[test]
fn camel_test5() {
    assert_eq!("kebab-case".to_camel_case(), "KebabCase");
}

#[test]
fn camel_test6() {
    assert_eq!("SHOUTY_SNAKE_CASE".to_camel_case(), "ShoutySnakeCase");
}

#[test]
fn camel_test7() {
    assert_eq!("snake_case".to_camel_case(), "SnakeCase");
}

#[test]
fn camel_test8() {
    assert_eq!(
        "this-contains_ ALLKinds OfWord_Boundaries".to_camel_case(),
        "ThisContainsAllKindsOfWordBoundaries"
    );
}

#[test]
fn camel_test9() {
    assert_eq!("XΣXΣ baﬄe".to_camel_case(), "XσxςBaﬄe");
}

#[test]
fn camel_test10() {
    assert_eq!("XMLHttpRequest".to_camel_case(), "XmlHttpRequest");
}

#[test]
fn camel_sentence() {
    let sentence = "We are not in the least afraid of ruins.";
    assert_eq!(sentence.to_camel_case(), "WeAreNotInTheLeastAfraidOfRuins");
}

#[test]
fn camel_wrapper_gives_the_same_text() {
    let sentence = "We are not in the least afraid of ruins.";
    assert_eq!(AsCamelCase(sentence).to_string(), "WeAreNotInTheLeastAfraidOfRuins");
    assert_eq!(
        AsCamelCase(String::from(sentence)).to_string(),
        sentence.to_camel_case()
    );
}

#[test]
fn camel_wrapper_appends_to_a_sink() {
    let mut out = String::from("type ");
    assert_eq!(AsCamelCase("abstract syntax_tree").fmt(&mut out), Ok(()));
    assert_eq!(out, "type AbstractSyntaxTree");
}

#[test]
fn camel_of_nothing_is_nothing() {
    assert_eq!("".to_camel_case(), "");
    assert_eq!(" _ - , ".to_camel_case(), "");
}

#[test]
fn camel_is_not_idempotent_on_single_letters() {
    assert_eq!("x_y".to_camel_case(), "XY");
    assert_eq!("XY".to_camel_case(), "Xy");
}
