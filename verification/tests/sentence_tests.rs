use vocab_trainer::category::{Category, Gender, Pronoun, VerbForms};
use vocab_trainer::item::Item;
use vocab_trainer::search::Search;
use vocab_trainer::sentence::generate;

fn pronoun(subject: &str) -> Item {
    Item::new(
        Some("jag".to_string()),
        Some("i".to_string()),
        Category::Pronoun(Pronoun::Personal(
            subject.to_string(),
            "me".to_string(),
            "moi".to_string(),
            None,
        )),
    )
}

fn parler() -> Item {
    let f = VerbForms::gen_from_regular("parler");
    Item::new(
        Some("tala".to_string()),
        Some("speak".to_string()),
        Category::Verb(
            "parler".to_string(),
            VerbForms::Regular(
                f.0, f.1, f.2, f.3, f.4, f.5, f.6, f.7, f.8, f.9, f.10, f.11, f.12,
            ),
        ),
    )
}

#[test]
fn sentence_from_pronoun_and_verb() {
    let words = Search::new();
    let sentence = generate(&words, Some(pronoun("je")), Some(parler()));
    assert_eq!(sentence.len(), 2);
    assert_eq!(sentence[0].0, "Je");
    assert!(sentence[1].0 == "parle." || sentence[1].0 == "parlais.");
}

#[test]
fn sentence_conjugates_for_the_drawn_pronoun() {
    let words = Search::new();
    let sentence = generate(&words, Some(pronoun("nous")), Some(parler()));
    assert_eq!(sentence.len(), 2);
    assert_eq!(sentence[0].0, "Nous");
    assert!(sentence[1].0 == "parlons." || sentence[1].0 == "parlions.");
}

#[test]
fn unknown_pronoun_yields_subject_only_sentence() {
    let words = Search::new();
    let sentence = generate(&words, Some(pronoun("yo")), Some(parler()));
    assert_eq!(sentence.len(), 1);
    assert_eq!(sentence[0].0, "Yo.");
}

#[test]
fn non_pronoun_subject_yields_empty_sentence() {
    let words = Search::new();
    let subject = Item::new(
        Some("katt".to_string()),
        Some("cat".to_string()),
        Category::Noun("chat".to_string(), Gender::Male, "chats".to_string()),
    );
    let sentence = generate(&words, Some(subject), Some(parler()));
    assert!(sentence.is_empty());
}

#[test]
fn sentence_draws_missing_parts_from_the_lexicon() {
    let mut words = Search::new();
    words.add_item(pronoun("je"));
    words.add_item(parler());
    for _ in 0..10 {
        let sentence = generate(&words, None, None);
        assert_eq!(sentence.len(), 2);
        assert_eq!(sentence[0].0, "Je");
        assert!(sentence[1].0 == "parle." || sentence[1].0 == "parlais.");
    }
}
