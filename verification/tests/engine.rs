use heck::camel::Camel;
use heck::kebab::Kebab;
use heck::mixed::Mixed;
use heck::shouty_snake::ShoutySnake;
use heck::snake::Snake;
use heck::title::Title;
use heck::{capitalize, lowercase, transform, transform_words, uppercase, Policy, Sink, WriteError};

fn chars(s: &str) -> Vec<char> {
    s.chars().collect()
}

fn words(list: &[&str]) -> Vec<Vec<char>> {
    list.iter().map(|w| chars(w)).collect()
}

fn written<P: Policy>(list: &[&str], policy: P) -> String {
    let mut out = String::new();
    assert_eq!(transform_words(&words(list), policy, &mut out), Ok(()));
    out
}

#[test]
fn acronym_run_is_cut_before_its_last_letter() {
    assert_eq!(written(&["XMLHttpRequest"], Kebab), "xml-http-request");
    assert_eq!(written(&["XMLHttpRequest"], Title), "Xml Http Request");
}

#[test]
fn lowercase_then_uppercase_is_a_boundary() {
    assert_eq!(written(&["aB"], Kebab), "a-b");
    assert_eq!(written(&["helloWorld"], Snake), "hello_world");
    assert_eq!(written(&["a1B"], Snake), "a1_b");
}

#[test]
fn uppercase_word_stays_whole() {
    assert_eq!(written(&["XML"], Kebab), "xml");
    assert_eq!(written(&["XML", "http"], Kebab), "xml-http");
    assert_eq!(written(&["ABc"], Kebab), "a-bc");
}

#[test]
fn underscores_are_boundaries_and_are_dropped() {
    assert_eq!(written(&["snake_case"], Kebab), "snake-case");
    assert_eq!(written(&["__a__b__"], Kebab), "a-b");
    assert_eq!(written(&["_"], Kebab), "");
    assert_eq!(written(&["___"], Camel), "");
    assert_eq!(written(&["A_B"], Snake), "a_b");
    assert_eq!(written(&["aB_c"], Snake), "a_b_c");
}

#[test]
fn characters_without_case_keep_the_mode() {
    assert_eq!(written(&["ab12Cd"], Snake), "ab12_cd");
    assert_eq!(written(&["AB12cd"], Snake), "ab12cd");
    assert_eq!(written(&["12"], Snake), "12");
}

#[test]
fn boundaries_come_between_words_only() {
    assert_eq!(written(&[], Kebab), "");
    assert_eq!(written(&[""], Kebab), "");
    assert_eq!(written(&["one"], Kebab), "one");
    assert_eq!(written(&["one", "two"], Kebab), "one-two");
    assert_eq!(written(&["", "one", "", "_", "two", ""], Kebab), "one-two");
}

#[test]
fn every_policy_writes_in_its_own_way() {
    let list = ["fooBar", "BAZ_qux"];
    assert_eq!(written(&list, Camel), "FooBarBazQux");
    assert_eq!(written(&list, Mixed::new()), "fooBarBazQux");
    assert_eq!(written(&list, Snake), "foo_bar_baz_qux");
    assert_eq!(written(&list, Kebab), "foo-bar-baz-qux");
    assert_eq!(written(&list, ShoutySnake), "FOO_BAR_BAZ_QUX");
    assert_eq!(written(&list, Title), "Foo Bar Baz Qux");
}

#[test]
fn mixed_policy_that_is_past_its_first_word_capitalizes() {
    assert_eq!(written(&["fooBar"], Mixed { first: false }), "FooBar");
}

#[test]
fn transform_cuts_the_text_into_unicode_words() {
    let mut out = String::new();
    assert_eq!(transform("can't stop 32.3 feet", Kebab, &mut out), Ok(()));
    assert_eq!(out, "can't-stop-32.3-feet");
}

#[test]
fn transform_appends_to_what_the_sink_holds() {
    let mut out = String::from("id: ");
    assert_eq!(transform("user name", Snake, &mut out), Ok(()));
    assert_eq!(out, "id: user_name");
    assert_eq!(transform("", Snake, &mut out), Ok(()));
    assert_eq!(out, "id: user_name");
}

fn cased(f: fn(&[char], &mut String) -> Result<(), WriteError>, s: &str) -> String {
    let mut out = String::new();
    assert_eq!(f(&chars(s), &mut out), Ok(()));
    out
}

#[test]
fn lowercase_maps_every_character() {
    assert_eq!(cased(lowercase::<String>, "HeLLo"), "hello");
    assert_eq!(cased(lowercase::<String>, "a1_B"), "a1_b");
    assert_eq!(cased(lowercase::<String>, ""), "");
    assert_eq!(cased(lowercase::<String>, "İ"), "i\u{307}");
}

#[test]
fn lowercase_gives_a_last_sigma_its_final_form() {
    assert_eq!(cased(lowercase::<String>, "Σ"), "ς");
    assert_eq!(cased(lowercase::<String>, "ΟΔΟΣ"), "οδος");
    assert_eq!(cased(lowercase::<String>, "ΣΑΣ"), "σας");
    assert_eq!(cased(lowercase::<String>, "ΣΣ"), "σς");
    assert_eq!(cased(lowercase::<String>, "Σα"), "σα");
}

#[test]
fn uppercase_maps_every_character() {
    assert_eq!(cased(uppercase::<String>, "HeLLo"), "HELLO");
    assert_eq!(cased(uppercase::<String>, "straße"), "STRASSE");
    assert_eq!(cased(uppercase::<String>, "baﬄe"), "BAFFLE");
    assert_eq!(cased(uppercase::<String>, "ς"), "Σ");
    assert_eq!(cased(uppercase::<String>, ""), "");
}

#[test]
fn capitalize_raises_the_first_and_lowers_the_rest() {
    assert_eq!(cased(capitalize::<String>, "hELLO"), "Hello");
    assert_eq!(cased(capitalize::<String>, "x"), "X");
    assert_eq!(cased(capitalize::<String>, ""), "");
    assert_eq!(cased(capitalize::<String>, "ßA"), "SSa");
    assert_eq!(cased(capitalize::<String>, "ΣΣ"), "Σς");
    assert_eq!(cased(capitalize::<String>, "Σ"), "Σ");
    assert_eq!(cased(capitalize::<String>, "XΣXΣ"), "Xσxς");
}

/// A sink that takes a number of fragments and refuses every later one.
struct Limited {
    taken: String,
    room: usize,
    asked: usize,
}

impl Limited {
    fn with_room(room: usize) -> Limited {
        Limited { taken: String::new(), room, asked: 0 }
    }
}

impl Sink for Limited {
    fn write_str(&mut self, s: &str) -> Result<(), WriteError> {
        self.asked += 1;
        if self.room == 0 {
            Err(WriteError)
        } else {
            self.room -= 1;
            self.taken.push_str(s);
            Ok(())
        }
    }
}

#[test]
fn failing_sink_ends_the_conversion_at_once() {
    let mut sink = Limited::with_room(3);
    assert_eq!(transform("Hello World", Snake, &mut sink), Err(WriteError));
    assert_eq!(sink.taken, "hel");
    assert_eq!(sink.asked, 4);
}

#[test]
fn failing_boundary_ends_the_conversion_at_once() {
    let mut sink = Limited::with_room(2);
    assert_eq!(transform("ab cd", Kebab, &mut sink), Err(WriteError));
    assert_eq!(sink.taken, "ab");
    assert_eq!(sink.asked, 3);
}

#[test]
fn failing_sink_fails_each_way_of_writing() {
    let word = chars("abc");
    assert_eq!(lowercase(&word, &mut Limited::with_room(2)), Err(WriteError));
    assert_eq!(uppercase(&word, &mut Limited::with_room(2)), Err(WriteError));
    assert_eq!(capitalize(&word, &mut Limited::with_room(0)), Err(WriteError));
    assert_eq!(capitalize(&word, &mut Limited::with_room(1)), Err(WriteError));
    assert_eq!(capitalize(&word, &mut Limited::with_room(3)), Ok(()));
}

#[test]
fn sink_with_room_takes_the_conversion() {
    let mut sink = Limited::with_room(100);
    assert_eq!(transform("Hello World", Snake, &mut sink), Ok(()));
    assert_eq!(sink.taken, "hello_world");
}

#[test]
fn no_text_asks_nothing_of_the_sink() {
    let mut sink = Limited::with_room(0);
    assert_eq!(transform("", Snake, &mut sink), Ok(()));
    assert_eq!(transform(" -- ", Snake, &mut sink), Ok(()));
    assert_eq!(sink.asked, 0);
}
