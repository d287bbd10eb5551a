use vocab_trainer::category::{Category, Gender, Language};
use vocab_trainer::item::Item;
use vocab_trainer::practice::{
    Practice, PracticeGroup, PracticeGroupCollection, QuestionTemplate, renumber_stores,
};
use vocab_trainer::search::Search;

fn word(fr: &str, plural: &str, sw: &str) -> Item {
    Item::new(
        Some(sw.to_string()),
        Some(fr.to_string()),
        Category::Noun(fr.to_string(), Gender::Male, plural.to_string()),
    )
}

fn three_word_store() -> Search {
    let mut store = Search::new();
    store.add_item(word("chat", "chats", "katt"));
    store.add_item(word("chien", "chiens", "hund"));
    store.add_item(word("cheval", "chevaux", "häst"));
    store
}

// A full pass answered correctly completes exactly on the last answer.
#[test]
fn full_correct_pass_completes_on_kth_answer() {
    let words = three_word_store();
    let sentences = Search::new();
    let group = PracticeGroup::new_with_questions(
        "animals".to_string(),
        vec![
            QuestionTemplate::Word(0),
            QuestionTemplate::Word(1),
            QuestionTemplate::Word(2),
        ],
    );
    let mut practice = Practice::new();
    practice.init(&group);
    for round in 0..3 {
        let question = practice.get_question(&words, &sentences);
        assert!(question.is_some());
        let complete = practice.answer(true);
        assert_eq!(complete, round == 2, "completion must fire exactly on the last answer");
    }
}

// A wrongly answered question resurfaces before the session can complete.
#[test]
fn wrong_answer_queues_question_again() {
    let words = three_word_store();
    let sentences = Search::new();
    let group = PracticeGroup::new_with_questions(
        "one".to_string(),
        vec![QuestionTemplate::Word(0)],
    );
    let mut practice = Practice::new();
    practice.init(&group);
    let first = practice.get_question(&words, &sentences).unwrap();
    assert_eq!(practice.answer(false), false);
    let again = practice.get_question(&words, &sentences).unwrap();
    assert_eq!(again.item.uid, first.item.uid);
    assert!(practice.answer(true));
}

// A flag means "answered correctly at least once": once a question is
// mastered, a later wrong answer does not clear it.
#[test]
fn mastered_flags_survive_later_wrong_answers() {
    let words = three_word_store();
    let sentences = Search::new();
    let group = PracticeGroup::new_with_questions(
        "pair".to_string(),
        vec![QuestionTemplate::Word(0), QuestionTemplate::Word(1)],
    );
    let mut practice = Practice::new();
    practice.init(&group);
    practice.get_question(&words, &sentences).unwrap();
    assert!(!practice.answer(true));
    practice.get_question(&words, &sentences).unwrap();
    assert!(practice.answer(true));
    for _ in 0..10 {
        practice.get_question(&words, &sentences).unwrap();
        assert!(!practice.answer(false));
        practice.get_question(&words, &sentences).unwrap();
        // whichever question was drawn, every flag is still set
        assert!(practice.answer(true));
    }
}

// After continuing past completion, the completion signal never fires again.
#[test]
fn continuing_suppresses_later_completion_signals() {
    let words = three_word_store();
    let sentences = Search::new();
    let group = PracticeGroup::new_with_questions(
        "one".to_string(),
        vec![QuestionTemplate::Word(0)],
    );
    let mut practice = Practice::new();
    practice.init(&group);
    practice.get_question(&words, &sentences).unwrap();
    assert!(practice.answer(true));
    practice.continue_practice();
    for _ in 0..5 {
        practice.get_question(&words, &sentences).unwrap();
        assert!(!practice.answer(true));
    }
}

// A session keeps producing questions long after the first pass.
#[test]
fn session_reshuffles_and_continues_indefinitely() {
    let words = three_word_store();
    let sentences = Search::new();
    let group = PracticeGroup::new_with_questions(
        "animals".to_string(),
        vec![
            QuestionTemplate::Word(0),
            QuestionTemplate::Word(1),
            QuestionTemplate::Word(2),
        ],
    );
    let mut practice = Practice::new();
    practice.init(&group);
    for _ in 0..30 {
        assert!(practice.get_question(&words, &sentences).is_some());
        practice.answer(true);
    }
}

#[test]
fn question_prompt_and_answer_belong_together() {
    let words = three_word_store();
    let sentences = Search::new();
    let group = PracticeGroup::new_with_questions(
        "one".to_string(),
        vec![QuestionTemplate::Word(0)],
    );
    let mut practice = Practice::new();
    practice.init(&group);
    for _ in 0..10 {
        let question = practice.get_question(&words, &sentences).unwrap();
        assert_eq!(question.item.uid, 0);
        match question.language {
            Language::French => {
                assert!(question.answer == "chat" || question.answer == "chats");
                assert!(question.string.contains("katt"));
                assert!(question.string.contains("french"));
            }
            Language::Swedish => {
                assert_eq!(question.answer, "katt");
                assert!(question.string.contains("swedish"));
            }
            Language::English => panic!("questions never ask for english"),
        }
        practice.answer(true);
    }
}

// A template whose identifier no longer resolves is tolerated, not fatal.
#[test]
fn dangling_identifier_yields_no_question() {
    let words = three_word_store();
    let sentences = Search::new();
    let group = PracticeGroup::new_with_questions(
        "gone".to_string(),
        vec![QuestionTemplate::Word(999)],
    );
    let mut practice = Practice::new();
    practice.init(&group);
    assert!(practice.get_question(&words, &sentences).is_none());
}

// An item with no recorded translation cannot be asked.
#[test]
fn untranslated_item_yields_no_question() {
    let mut words = Search::new();
    words.add_item(Item::new(None, None, Category::Adverb("vite".to_string())));
    let sentences = Search::new();
    let group = PracticeGroup::new_with_questions(
        "one".to_string(),
        vec![QuestionTemplate::Word(0)],
    );
    let mut practice = Practice::new();
    practice.init(&group);
    assert!(practice.get_question(&words, &sentences).is_none());
}

#[test]
fn sentence_templates_resolve_against_the_sentence_store() {
    let words = Search::new();
    let mut sentences = Search::new();
    sentences.add_item(Item::new(
        Some("katten sover".to_string()),
        None,
        Category::Other("le chat dort".to_string()),
    ));
    let group = PracticeGroup::new_with_questions(
        "phrases".to_string(),
        vec![QuestionTemplate::Sentence(0)],
    );
    let mut practice = Practice::new();
    practice.init(&group);
    let question = practice.get_question(&words, &sentences).unwrap();
    assert!(question.answer == "le chat dort" || question.answer == "katten sover");
}

// Renumbering keeps every group reference pointing at the same item.
#[test]
fn renumbering_rewrites_group_references() {
    let mut words = three_word_store();
    words.remove_item(0).unwrap();
    let mut sentences = Search::new();
    let mut groups = PracticeGroupCollection::new();
    groups.add_group(PracticeGroup::new_with_questions(
        "animals".to_string(),
        vec![
            QuestionTemplate::Word(2),
            QuestionTemplate::Word(1),
            QuestionTemplate::Word(999),
        ],
    ));
    renumber_stores(&mut words, &mut sentences, &mut groups);
    assert_eq!(
        groups.groups[0].questions,
        vec![
            QuestionTemplate::Word(1),
            QuestionTemplate::Word(0),
            QuestionTemplate::Word(999),
        ]
    );
    let first = words.get_item(0).unwrap();
    assert_eq!(first.swedish.as_deref(), Some("hund"));
    let second = words.get_item(1).unwrap();
    assert_eq!(second.swedish.as_deref(), Some("häst"));
}

#[test]
fn group_collection_add_and_remove() {
    let mut collection = PracticeGroupCollection::new();
    collection.add_group(PracticeGroup::new("first".to_string()));
    collection.add_group(PracticeGroup::new("second".to_string()));
    assert_eq!(collection.groups.len(), 2);
    collection.remove_group(0);
    assert_eq!(collection.groups.len(), 1);
    assert_eq!(collection.groups[0].name, "second");
}
