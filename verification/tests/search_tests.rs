use vocab_trainer::category::{Category, Gender, VerbForms};
use vocab_trainer::category::Language;
use vocab_trainer::item::{Item, Query};
use vocab_trainer::search::{LexiconError, Search};
use vocab_trainer::utils::{get_plural, number_forms};

fn parler_forms() -> VerbForms {
    let f = VerbForms::gen_from_regular("parler");
    VerbForms::Regular(f.0, f.1, f.2, f.3, f.4, f.5, f.6, f.7, f.8, f.9, f.10, f.11, f.12)
}

fn verb_item(uid: u32) -> Item {
    let mut item = Item::new(
        Some("tala".to_string()),
        Some("speak".to_string()),
        Category::Verb("parler".to_string(), parler_forms()),
    );
    item.uid = uid;
    item
}

fn noun_item(fr: &str, plural: &str, sw: &str, en: &str) -> Item {
    Item::new(
        Some(sw.to_string()),
        Some(en.to_string()),
        Category::Noun(fr.to_string(), Gender::Male, plural.to_string()),
    )
}

#[test]
fn conjugation_from_regular_er_verb() {
    let f = VerbForms::gen_from_regular("parler");
    assert_eq!(f.0, "parle");
    assert_eq!(f.1, "parles");
    assert_eq!(f.2, "parle");
    assert_eq!(f.3, "parlons");
    assert_eq!(f.4, "parlez");
    assert_eq!(f.5, "parlent");
    assert_eq!(f.6, "parlé");
    assert_eq!(f.7, "parlais");
    assert_eq!(f.8, "parlais");
    assert_eq!(f.9, "parlait");
    assert_eq!(f.10, "parlions");
    assert_eq!(f.11, "parliez");
    assert_eq!(f.12, "parlaient");
}

#[test]
fn conjugation_from_regular_ir_verb() {
    let f = VerbForms::gen_from_regular("finir");
    assert_eq!(f.0, "finis");
    assert_eq!(f.3, "finissons");
    assert_eq!(f.6, "fini");
    assert_eq!(f.12, "finissaient");
}

// The closest form of "parler" to the typo "parlr" lies at distance one;
// among the forms tied there, the earliest-encountered one is kept.
#[test]
fn search_finds_closest_verb_form() {
    let store = Search::from_items(vec![verb_item(1)]).unwrap();
    let query = Query::new("parlr".to_string(), Language::French, 0b10, false);
    let results = store.search(&query, 1);
    assert_eq!(results.len(), 1);
    assert_eq!(results[0].0, "parle");
    assert_eq!(results[0].1.uid, 1);
    let (best, score) = store.search_best_answers(&query);
    assert_eq!(score, 1);
    assert!(!best.is_empty());
    for (s, item) in &best {
        assert_eq!(levenshtein::levenshtein("parlr", s), 1);
        assert_eq!(item.uid, 1);
    }
}

#[test]
fn search_returns_at_most_n_sorted_and_distinct() {
    let mut store = Search::new();
    store.add_item(verb_item(0));
    store.add_item(noun_item("parloir", "parloirs", "samtalsrum", "parlour"));
    store.add_item(noun_item("parole", "paroles", "ord", "word"));
    let query = Query::new("parler".to_string(), Language::French, 0, false);
    let results = store.search(&query, 3);
    assert!(results.len() <= 3);
    let dists: Vec<usize> =
        results.iter().map(|(s, _)| levenshtein::levenshtein("parler", s)).collect();
    for w in dists.windows(2) {
        assert!(w[0] <= w[1]);
    }
    for a in 0..results.len() {
        for b in (a + 1)..results.len() {
            assert!(results[a].0 != results[b].0 || results[a].1 != results[b].1);
        }
    }
}

// Within one item, identical forms contribute one pair only.
#[test]
fn search_suppresses_duplicate_pairs() {
    let store = Search::from_items(vec![verb_item(7)]).unwrap();
    // "parle" is both the first and third conjugated form
    let query = Query::new("parle".to_string(), Language::French, 0b10, false);
    let (best, score) = store.search_best_answers(&query);
    assert_eq!(score, 0);
    assert_eq!(best.len(), 1);
    assert_eq!(best[0].0, "parle");
}

#[test]
fn best_answers_non_empty_when_candidate_qualifies() {
    let mut store = Search::new();
    store.add_item(noun_item("chat", "chats", "katt", "cat"));
    let query = Query::new("chot".to_string(), Language::French, 0b1, false);
    let (best, score) = store.search_best_answers(&query);
    assert!(!best.is_empty());
    for (s, _) in &best {
        assert_eq!(levenshtein::levenshtein("chot", s), score);
    }
}

// A candidate whose distance is not strictly below its own length never
// qualifies.
#[test]
fn best_answers_empty_when_nothing_shares_letters() {
    let mut store = Search::new();
    store.add_item(noun_item("chat", "chats", "katt", "cat"));
    let query = Query::new("zzzzzzzz".to_string(), Language::French, 0xFFFF, false);
    let (best, score) = store.search_best_answers(&query);
    assert!(best.is_empty());
    assert_eq!(score, usize::MAX);
}

#[test]
fn zero_mask_behaves_as_full_mask() {
    let mut store = Search::new();
    store.add_item(verb_item(0));
    store.add_item(noun_item("chat", "chats", "katt", "cat"));
    let q0 = Query::new("chat".to_string(), Language::French, 0, false);
    let qf = Query::new("chat".to_string(), Language::French, 0xFFFF, false);
    assert_eq!(q0, qf);
    let r0 = store.search(&q0, 5);
    let rf = store.search(&qf, 5);
    assert_eq!(r0, rf);
    assert_eq!(store.get_all(&q0, 5), store.get_all(&qf, 5));
}

#[test]
fn exact_length_match_excludes_other_lengths() {
    let mut store = Search::new();
    store.add_item(noun_item("le", "les", "den", "the"));
    let query = Query::new("li".to_string(), Language::French, 0xFFFF, true);
    let (best, _score) = store.search_best_answers(&query);
    for (s, _) in &best {
        assert_eq!(s.chars().count(), 2);
    }
}

#[test]
fn get_all_browses_in_store_order_up_to_n() {
    let mut store = Search::new();
    store.add_item(noun_item("chat", "chats", "katt", "cat"));
    store.add_item(verb_item(0));
    store.add_item(noun_item("chien", "chiens", "hund", "dog"));
    let query = Query::new(String::new(), Language::French, 0b1, false);
    let all = store.get_all(&query, 10);
    assert_eq!(all.len(), 2);
    assert_eq!(all[0].0, "chat");
    assert_eq!(all[1].0, "chien");
    let capped = store.get_all(&query, 1);
    assert_eq!(capped.len(), 1);
    assert_eq!(capped[0].0, "chat");
    assert_eq!(store.get_all(&query, 0).len(), 0);
}

#[test]
fn remove_then_get_yields_not_found() {
    let mut store = Search::new();
    store.add_item(noun_item("chat", "chats", "katt", "cat"));
    store.add_item(noun_item("chien", "chiens", "hund", "dog"));
    let removed = store.remove_item(0).unwrap();
    assert_eq!(removed.uid, 0);
    assert!(store.get_item(0).is_none());
    assert!(store.get_item(1).is_some());
    assert_eq!(store.remove_item(0), Err(LexiconError::NotFound));
}

#[test]
fn edit_then_get_yields_exactly_the_new_item() {
    let mut store = Search::new();
    store.add_item(noun_item("chat", "chats", "katt", "cat"));
    let replacement = noun_item("chatte", "chattes", "katta", "female cat");
    store.edit_item(0, replacement).unwrap();
    let got = store.get_item(0).unwrap();
    assert_eq!(got.uid, 0);
    assert_eq!(got.swedish.as_deref(), Some("katta"));
    assert_eq!(got.category, Category::Noun(
        "chatte".to_string(),
        Gender::Male,
        "chattes".to_string(),
    ));
    assert_eq!(
        store.edit_item(42, noun_item("x", "xs", "y", "z")),
        Err(LexiconError::NotFound)
    );
}

#[test]
fn identifiers_are_never_reused() {
    let mut store = Search::new();
    store.add_item(noun_item("chat", "chats", "katt", "cat"));
    store.add_item(noun_item("chien", "chiens", "hund", "dog"));
    store.remove_item(1).unwrap();
    store.add_item(noun_item("cheval", "chevaux", "häst", "horse"));
    assert!(store.get_item(1).is_none());
    let third = store.get_item(2).unwrap();
    assert_eq!(third.swedish.as_deref(), Some("häst"));
}

#[test]
fn from_items_rejects_duplicate_identifiers() {
    let a = verb_item(3);
    let b = verb_item(3);
    assert!(Search::from_items(vec![a, b]).is_none());
    let c = verb_item(3);
    let d = verb_item(4);
    assert!(Search::from_items(vec![c, d]).is_some());
}

#[test]
fn random_item_draws_from_the_masked_set() {
    let mut store = Search::new();
    store.add_item(verb_item(0));
    store.add_item(noun_item("chat", "chats", "katt", "cat"));
    let query = Query::new(String::new(), Language::French, 0b1, false);
    for _ in 0..20 {
        let item = store.random_item(&query);
        assert!(matches!(item.category, Category::Noun(..)));
    }
}

#[test]
fn get_item_index_and_position_addressing() {
    let mut store = Search::new();
    store.add_item(noun_item("chat", "chats", "katt", "cat"));
    store.add_item(noun_item("chien", "chiens", "hund", "dog"));
    assert_eq!(store.get_item_index(1), Some(1));
    store.remove_item(0).unwrap();
    assert_eq!(store.get_item_index(1), Some(0));
    let by_position = store.get_item_from_index(0);
    assert_eq!(by_position.uid, 1);
}

#[test]
fn plural_rules() {
    assert_eq!(get_plural("cheval"), "chevaux");
    assert_eq!(get_plural("tuyau"), "tuyaux");
    assert_eq!(get_plural("travail"), "travaux");
    assert_eq!(get_plural("jeu"), "jeux");
    assert_eq!(get_plural("chou"), "choux");
    assert_eq!(get_plural("chat"), "chats");
    assert_eq!(get_plural("bus"), "bus");
    assert_eq!(get_plural("voix"), "voix");
    assert_eq!(get_plural("nez"), "nez");
}

#[test]
fn number_form_rules() {
    let (ordinal, approximate) = number_forms("dix");
    assert_eq!(ordinal, "dixième");
    assert_eq!(approximate, "dizaine");
    let (ordinal, approximate) = number_forms("quatre");
    assert_eq!(ordinal, "quatrième");
    assert_eq!(approximate, "quatraine");
    let (ordinal, approximate) = number_forms("cent");
    assert_eq!(ordinal, "centième");
    assert_eq!(approximate, "centaine");
}

#[test]
fn tooltip_describes_the_item() {
    let item = noun_item("chat", "chats", "katt", "cat");
    assert_eq!(item.tooltip(), "chat/chats (katt, cat), masculine noun");
    let anon = Item::new(None, None, Category::Adverb("vite".to_string()));
    assert_eq!(anon.tooltip(), "vite (unknown, unknown), adverb");
}

#[test]
fn language_strings_lists_every_candidate() {
    let item = verb_item(0);
    let french = item.language_strings(&Language::French).unwrap();
    assert_eq!(french.len(), 13);
    assert!(french.contains(&"parler".to_string()));
    assert!(french.contains(&"parlons".to_string()));
    let swedish = item.language_strings(&Language::Swedish).unwrap();
    assert_eq!(swedish, vec!["tala".to_string()]);
    let nameless = Item::new(None, None, Category::Adverb("vite".to_string()));
    assert!(nameless.language_strings(&Language::Swedish).is_none());
    assert_eq!(nameless.language_string(&Language::French).unwrap(), "vite");
}
