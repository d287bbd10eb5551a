use vocab_trainer::category::{Category, Gender, Language};
use vocab_trainer::item::Item;
use vocab_trainer::practice::{PracticeGroup, PracticeGroupCollection, QuestionTemplate};
use vocab_trainer::search::Search;
use vocab_trainer::ui::{App, PracticeState, SearchCategories, Tab};

fn word_store() -> Search {
    let mut store = Search::new();
    store.add_item(Item::new(
        Some("katt".to_string()),
        Some("cat".to_string()),
        Category::Noun("chat".to_string(), Gender::Male, "chats".to_string()),
    ));
    store.add_item(Item::new(
        Some("hund".to_string()),
        Some("dog".to_string()),
        Category::Noun("chien".to_string(), Gender::Male, "chiens".to_string()),
    ));
    store
}

fn fresh_app() -> App {
    App::new(
        word_store(),
        Search::new(),
        PracticeGroupCollection::new(),
        "words.bin".to_string(),
        "sentences.bin".to_string(),
        "practice.bin".to_string(),
    )
}

#[test]
fn empty_category_filter_selects_everything() {
    let nothing = SearchCategories::new();
    assert_eq!(nothing.to_u16(), 0xFFFF);
    let mut some = SearchCategories::new();
    some.noun = true;
    some.verb = true;
    assert_eq!(some.to_u16(), 0b11);
}

#[test]
fn query_marks_elision_and_sentence_tab_ignores_categories() {
    let mut app = fresh_app();
    app.query_string = "l'".to_string();
    app.categories.verb = true;
    let query = app.gen_query();
    assert!(query.match_length);
    assert_eq!(query.search_categories_int, 0b10);
    app.tab = Tab::Sentences;
    app.query_string = "le chat".to_string();
    let query = app.gen_query();
    assert!(!query.match_length);
    assert_eq!(query.search_categories_int, 0xFFFF);
}

#[test]
fn gen_results_searches_words_tab() {
    let mut app = fresh_app();
    app.min_num_answers = 5;
    app.query_string = "chat".to_string();
    app.gen_results();
    assert_eq!(app.num_answers, 5);
    assert!(!app.results_search.is_empty());
    assert_eq!(app.results_search[0].0, "chat");
}

#[test]
fn gen_results_browses_on_empty_query() {
    let mut app = fresh_app();
    app.min_num_answers = 1;
    app.gen_results();
    assert_eq!(app.results_search.len(), 1);
    assert_eq!(app.results_search[0].0, "chat");
}

#[test]
fn gen_results_explains_on_explain_tab() {
    let mut app = fresh_app();
    app.tab = Tab::Explain;
    app.query_string = "le chat".to_string();
    app.gen_results();
    assert_eq!(app.result_explain.len(), 2);
    assert_eq!(app.result_explain[1].string, "chat");
    assert!(app.result_explain[1].sure);
}

#[test]
fn wrong_answer_shows_the_mistake_with_its_distance() {
    let mut app = fresh_app();
    let group = PracticeGroup::new_with_questions(
        "one".to_string(),
        vec![QuestionTemplate::Word(0)],
    );
    app.practice.init(&group);
    let question = app.practice.get_question(&app.search_words, &app.search_sentences).unwrap();
    let expected = question.answer.clone();
    app.query_string = "zzz".to_string();
    app.tab = Tab::Practice(PracticeState::Question(question));
    app.on_enter();
    match &app.tab {
        Tab::Practice(PracticeState::Wrong(_prompt, answer, typed, distance, item)) => {
            assert_eq!(answer, &expected);
            assert_eq!(typed, "zzz");
            assert_eq!(*distance, levenshtein::levenshtein(&expected, "zzz"));
            assert_eq!(item.uid, 0);
        }
        _ => panic!("a wrong answer must show the mistake"),
    }
}

#[test]
fn correct_answer_on_last_question_asks_to_continue() {
    let mut app = fresh_app();
    let group = PracticeGroup::new_with_questions(
        "one".to_string(),
        vec![QuestionTemplate::Word(0)],
    );
    app.practice.init(&group);
    let question = app.practice.get_question(&app.search_words, &app.search_sentences).unwrap();
    app.query_string = question.answer.clone();
    app.tab = Tab::Practice(PracticeState::Question(question));
    app.on_enter();
    assert!(app.query_string.is_empty());
    assert!(matches!(app.tab, Tab::Practice(PracticeState::AskContinue)));
}

#[test]
fn enter_outside_practice_changes_nothing() {
    let mut app = fresh_app();
    app.query_string = "chat".to_string();
    app.on_enter();
    assert_eq!(app.query_string, "chat");
    assert!(matches!(app.tab, Tab::Words));
}

#[test]
fn defaults_of_a_fresh_app() {
    let app = fresh_app();
    assert!(matches!(app.tab, Tab::Words));
    assert_eq!(app.language, Language::French);
    assert!(app.results_search.is_empty());
    assert!(app.query_string.is_empty());
    assert_eq!(app.min_num_answers, 0);
}
