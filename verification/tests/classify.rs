use word_order::classify::{parse_input, OrderResult, OrderState};

#[test]
fn ascending_word_renders_in_order() {
    let r = OrderResult::from_word(String::from("abc"));
    assert_eq!(r.state, OrderState::Ascending);
    assert_eq!(r.render(), "abc IN ORDER");
}

#[test]
fn descending_word_renders_reverse_order() {
    let r = OrderResult::from_word(String::from("cba"));
    assert_eq!(r.state, OrderState::Descending);
    assert_eq!(r.render(), "cba REVERSE ORDER");
}

#[test]
fn unordered_word_renders_not_in_order() {
    let r = OrderResult::from_word(String::from("bac"));
    assert_eq!(r.state, OrderState::Unordered);
    assert_eq!(r.render(), "bac NOT IN ORDER");
}

#[test]
fn empty_word_is_ascending() {
    let r = OrderResult::from_word(String::new());
    assert_eq!(r.state, OrderState::Ascending);
    assert_eq!(r.render(), " IN ORDER");
}

#[test]
fn tied_word_resolves_ascending() {
    let r = OrderResult::from_word(String::from("aa"));
    assert_eq!(r.state, OrderState::Ascending);
    assert_eq!(r.render(), "aa IN ORDER");
}

#[test]
fn single_character_is_ascending() {
    assert_eq!(OrderState::from_word("x"), OrderState::Ascending);
}

#[test]
fn all_equal_characters_are_ascending() {
    assert_eq!(OrderState::from_word("zzzz"), OrderState::Ascending);
}

#[test]
fn non_increasing_with_ties_is_descending() {
    assert_eq!(OrderState::from_word("zza"), OrderState::Descending);
}

#[test]
fn comparison_is_by_raw_code_point() {
    // Uppercase letters order before lowercase ones.
    assert_eq!(OrderState::from_word("Abc"), OrderState::Ascending);
    assert_eq!(OrderState::from_word("aBc"), OrderState::Unordered);
}

#[test]
fn classification_is_pure() {
    let first = OrderState::from_word("bac");
    let second = OrderState::from_word("bac");
    assert_eq!(first, second);
    assert_eq!(
        OrderState::from_word("abc"),
        OrderState::from_word("abc")
    );
}

#[test]
fn labels_match_states() {
    assert_eq!(OrderState::Ascending.label(), "IN ORDER");
    assert_eq!(OrderState::Descending.label(), "REVERSE ORDER");
    assert_eq!(OrderState::Unordered.label(), "NOT IN ORDER");
}

#[test]
fn parse_input_classifies_each_line() {
    let lines = vec![
        String::from("abc"),
        String::from("cba"),
        String::from("bac"),
        String::new(),
        String::from("aa"),
    ];
    let results = parse_input(lines);
    assert_eq!(results.len(), 5);
    assert_eq!(results[0].word, "abc");
    assert_eq!(results[0].state, OrderState::Ascending);
    assert_eq!(results[1].word, "cba");
    assert_eq!(results[1].state, OrderState::Descending);
    assert_eq!(results[2].word, "bac");
    assert_eq!(results[2].state, OrderState::Unordered);
    assert_eq!(results[3].word, "");
    assert_eq!(results[3].state, OrderState::Ascending);
    assert_eq!(results[4].word, "aa");
    assert_eq!(results[4].state, OrderState::Ascending);
}

#[test]
fn parse_input_of_nothing_is_empty() {
    let results = parse_input(Vec::new());
    assert!(results.is_empty());
}
