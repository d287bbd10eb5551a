use vocab_trainer::category::{Category, Gender, Pronoun};
use vocab_trainer::explain::explain;
use vocab_trainer::item::Item;
use vocab_trainer::search::Search;

fn store_with_basics() -> Search {
    let mut store = Search::new();
    store.add_item(Item::new(
        Some("jag".to_string()),
        Some("i".to_string()),
        Category::Pronoun(Pronoun::Personal(
            "je".to_string(),
            "me".to_string(),
            "moi".to_string(),
            None,
        )),
    ));
    store.add_item(Item::new(
        Some("katt".to_string()),
        Some("cat".to_string()),
        Category::Noun("chat".to_string(), Gender::Male, "chats".to_string()),
    ));
    store
}

#[test]
fn explain_splits_text_into_word_tokens() {
    let store = store_with_basics();
    let parts = explain("le chat dort!", &store);
    assert_eq!(parts.len(), 3);
    assert_eq!(parts[0].string, "le");
    assert_eq!(parts[1].string, "chat");
    assert_eq!(parts[2].string, "dort");
}

#[test]
fn explain_handles_accented_letters_inside_tokens() {
    let store = store_with_basics();
    let parts = explain("éléphant, ça va", &store);
    assert_eq!(parts.len(), 3);
    assert_eq!(parts[0].string, "éléphant");
    assert_eq!(parts[1].string, "ça");
    assert_eq!(parts[2].string, "va");
}

// An elided token is rewritten to end in the canonical vowel and matched
// with the exact-length requirement; a perfect hit is marked sure.
#[test]
fn elided_token_matches_exactly_and_is_sure() {
    let store = store_with_basics();
    let parts = explain("j' arrive", &store);
    assert_eq!(parts.len(), 2);
    assert_eq!(parts[0].string, "je");
    assert!(parts[0].string.ends_with('e'));
    assert!(parts[0].sure);
    assert_eq!(parts[0].matched.len(), 1);
    assert_eq!(parts[0].matched[0].0, "je");
    assert_eq!(parts[0].chosen, 0);
}

#[test]
fn exact_hit_is_sure_and_near_miss_is_not() {
    let store = store_with_basics();
    let exact = explain("chat", &store);
    assert!(exact[0].sure);
    let near = explain("chet", &store);
    assert_eq!(near.len(), 1);
    assert!(!near[0].sure);
    assert!(!near[0].matched.is_empty());
}

#[test]
fn explain_of_empty_text_yields_nothing() {
    let store = store_with_basics();
    assert!(explain("", &store).is_empty());
    assert!(explain("  ... 123 ", &store).is_empty());
}
