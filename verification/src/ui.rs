//! The state behind the interactive front end: the current tab, the query
//! being typed, the accumulated results, and the transitions the front end
//! triggers. Rendering itself lives outside the library.

use vstd::prelude::*;
use crate::category::{Category, Language};
use crate::distance::{edit_distance, levenshtein_distance};
use crate::explain::{Part, explain, explain_ok};
use crate::item::{Item, Query, spec_new_query};
use crate::practice::{
    Practice, PracticeGroupCollection, Question, practice_wf, question_of_template,
    spec_answer, spec_draw,
};
use crate::search::{Search, browse_pairs, pairs_view, search_result_ok, search_wf};
use crate::text::spec_ends_with;

verus! {

/// Which grammatical classes a search is restricted to; nothing ticked
/// means no restriction.
#[derive(Clone, Copy, Debug, PartialEq, Eq, Structural)]
pub struct SearchCategories {
    pub noun: bool,
    pub verb: bool,
    pub adjective: bool,
    pub adverb: bool,
    pub article: bool,
    pub conjunction: bool,
    pub interjection: bool,
    pub preposition: bool,
    pub pronoun: bool,
    pub number: bool,
    pub other: bool,
}

/// The mask the ticked classes select; all bits when nothing is ticked.
pub open spec fn spec_sc_to_u16(c: SearchCategories) -> u16 {
    let sum: int = (if c.noun {
        0b1int
    } else {
        0int
    }) + (if c.verb {
        0b10int
    } else {
        0int
    }) + (if c.adjective {
        0b100int
    } else {
        0int
    }) + (if c.adverb {
        0b1000int
    } else {
        0int
    }) + (if c.article {
        0b10000int
    } else {
        0int
    }) + (if c.conjunction {
        0b100000int
    } else {
        0int
    }) + (if c.interjection {
        0b1000000int
    } else {
        0int
    }) + (if c.preposition {
        0b10000000int
    } else {
        0int
    }) + (if c.pronoun {
        0b100000000int
    } else {
        0int
    }) + (if c.number {
        0b1000000000int
    } else {
        0int
    }) + (if c.other {
        0b10000000000int
    } else {
        0int
    });
    if sum == 0 {
        0xFFFFu16
    } else {
        sum as u16
    }
}

impl SearchCategories {
    #[verifier::rlimit(100)]
    #[verifier::spinoff_prover]
    pub fn to_u16(&self) -> (r: u16)
        ensures
            r == spec_sc_to_u16(*self),
    {
        let b0: u16 = if self.noun {
            0b1
        } else {
            0
        };
        let b1: u16 = if self.verb {
            0b10
        } else {
            0
        };
        let b2: u16 = if self.adjective {
            0b100
        } else {
            0
        };
        let b3: u16 = if self.adverb {
            0b1000
        } else {
            0
        };
        let b4: u16 = if self.article {
            0b10000
        } else {
            0
        };
        let b5: u16 = if self.conjunction {
            0b100000
        } else {
            0
        };
        let b6: u16 = if self.interjection {
            0b1000000
        } else {
            0
        };
        let b7: u16 = if self.preposition {
            0b10000000
        } else {
            0
        };
        let b8: u16 = if self.pronoun {
            0b100000000
        } else {
            0
        };
        let b9: u16 = if self.number {
            0b1000000000
        } else {
            0
        };
        let b10: u16 = if self.other {
            0b10000000000
        } else {
            0
        };
        let sum = b0 + b1 + b2 + b3 + b4 + b5 + b6 + b7 + b8 + b9 + b10;
        if sum == 0 {
            0xFFFF
        } else {
            sum
        }
    }

    pub fn new() -> (r: Self)
        ensures
            r == (SearchCategories {
                noun: false,
                verb: false,
                adjective: false,
                adverb: false,
                article: false,
                conjunction: false,
                interjection: false,
                preposition: false,
                pronoun: false,
                number: false,
                other: false,
            }),
    {
        SearchCategories {
            noun: false,
            verb: false,
            adjective: false,
            adverb: false,
            article: false,
            conjunction: false,
            interjection: false,
            preposition: false,
            pronoun: false,
            number: false,
            other: false,
        }
    }
}

/// Where a practice round stands: awaiting an answer, showing a mistake
/// (prompt, expected answer, typed answer, their edit distance, and the
/// item), or awaiting the decision to continue past completion.
#[derive(Debug)]
pub enum PracticeState {
    Wrong(String, String, String, usize, Item),
    Question(Question),
    AskContinue,
}

/// Which screen the front end shows.
#[derive(Debug)]
pub enum Tab {
    Words,
    Sentences,
    Details(u32),
    Practice(PracticeState),
    Explain,
    PracticeSelect,
    PracticeView(usize),
    Example(Vec<(String, Item)>),
}

/// A modal dialog of the front end, with the form state it carries.
#[derive(Debug)]
pub enum PopupWindow {
    Nothing,
    AddWord(String, String, Category, String, Option<u32>),
    AddSentence(String, String, String, Option<u32>),
    DeleteWord(u32),
    DeleteSentence(u32),
    NewGroup(String, Option<usize>),
    DeleteGroup(usize),
}

/// Everything the front end holds between two input events.
#[derive(Debug)]
pub struct App {
    pub search_words: Search,
    pub search_sentences: Search,
    pub query_string: String,
    pub tab: Tab,
    pub results_search: Vec<(String, Item)>,
    pub num_answers: usize,
    pub language: Language,
    pub popup: PopupWindow,
    pub search_words_file: String,
    pub search_sentences_file: String,
    pub categories: SearchCategories,
    pub min_num_answers: usize,
    pub result_explain: Vec<Part>,
    pub practice: Practice,
    pub practice_groups: PracticeGroupCollection,
    pub practice_groups_file: String,
    pub debug: bool,
}

/// The query the current form state builds: the typed string, the ticked
/// categories (everything on the sentences tab), and exact length matching
/// for a trailing apostrophe.
pub open spec fn spec_app_query(app: App) -> crate::item::QueryV {
    spec_new_query(
        app.query_string@,
        app.language,
        if !(app.tab is Sentences) {
            spec_sc_to_u16(app.categories)
        } else {
            0xFFFFu16
        },
        spec_ends_with(app.query_string@, "'"@),
    )
}

impl App {
    pub fn new(
        search_words: Search,
        search_sentences: Search,
        practice_groups: PracticeGroupCollection,
        search_words_file: String,
        search_sentences_file: String,
        practice_file: String,
    ) -> (r: Self)
        ensures
            r.search_words == search_words,
            r.search_sentences == search_sentences,
            r.practice_groups == practice_groups,
            r.query_string@.len() == 0,
            r.tab is Words,
            r.results_search@.len() == 0,
            r.num_answers == 0,
            r.language is French,
            r.popup is Nothing,
            r.min_num_answers == 0,
            r.result_explain@.len() == 0,
            practice_wf(r.practice@),
            r.debug == false,
    {
        App {
            search_words,
            search_sentences,
            query_string: String::new(),
            tab: Tab::Words,
            results_search: Vec::new(),
            num_answers: 0,
            language: Language::French,
            popup: PopupWindow::Nothing,
            search_words_file,
            search_sentences_file,
            categories: SearchCategories::new(),
            min_num_answers: 0,
            result_explain: Vec::new(),
            practice: Practice::new(),
            practice_groups,
            practice_groups_file: practice_file,
            debug: false,
        }
    }

    /// The query the current form state asks for.
    pub fn gen_query(&self) -> (r: Query)
        ensures
            r@ == spec_app_query(*self),
    {
        proof {
            reveal_strlit("'");
        }
        let n = self.query_string.as_str().unicode_len();
        let elided = n > 0 && self.query_string.as_str().get_char(n - 1) == '\'';
        proof {
            let s = self.query_string@;
            if n > 0 {
                let tailseq = s.subrange(n - 1, n as int);
                assert(tailseq.len() == 1 && tailseq[0] == s[n - 1]);
                if s[n - 1] == '\'' {
                    assert(tailseq =~= "'"@);
                }
                if tailseq == "'"@ {
                    assert(s[n - 1] == '\'');
                }
            }
            assert(elided == spec_ends_with(s, "'"@));
        }
        let mask = match &self.tab {
            Tab::Sentences => 0xFFFFu16,
            _ => self.categories.to_u16(),
        };
        Query::new(self.query_string.clone(), self.language, mask, elided)
    }

    /// Recomputes the results of the current tab: a ranked search when a
    /// query string is typed, a browse listing when it is empty, the
    /// annotated tokens on the explain tab, and nothing elsewhere.
    pub fn gen_results(&mut self)
        requires
            search_wf(old(self).search_words@),
            search_wf(old(self).search_sentences@),
        ensures
            final(self).num_answers == old(self).min_num_answers,
            final(self).search_words == old(self).search_words,
            final(self).search_sentences == old(self).search_sentences,
            final(self).tab == old(self).tab,
            final(self).query_string == old(self).query_string,
            (old(self).tab is Words && old(self).query_string@.len() != 0) ==> search_result_ok(
                old(self).search_words@,
                spec_app_query(*old(self)),
                old(self).min_num_answers as int,
                pairs_view(final(self).results_search@),
            ),
            (old(self).tab is Words && old(self).query_string@.len() == 0) ==> pairs_view(
                final(self).results_search@,
            ) == browse_pairs(old(self).search_words@.items, spec_app_query(*old(self))).take(
                if old(self).min_num_answers as int <= browse_pairs(
                    old(self).search_words@.items,
                    spec_app_query(*old(self)),
                ).len() {
                    old(self).min_num_answers as int
                } else {
                    browse_pairs(old(self).search_words@.items, spec_app_query(*old(self))).len()
                        as int
                },
            ),
            (old(self).tab is Sentences && old(self).query_string@.len() != 0)
                ==> search_result_ok(
                old(self).search_sentences@,
                spec_app_query(*old(self)),
                old(self).min_num_answers as int,
                pairs_view(final(self).results_search@),
            ),
            (old(self).tab is Sentences && old(self).query_string@.len() == 0) ==> pairs_view(
                final(self).results_search@,
            ) == browse_pairs(old(self).search_sentences@.items, spec_app_query(*old(self))).take(
                if old(self).min_num_answers as int <= browse_pairs(
                    old(self).search_sentences@.items,
                    spec_app_query(*old(self)),
                ).len() {
                    old(self).min_num_answers as int
                } else {
                    browse_pairs(
                        old(self).search_sentences@.items,
                        spec_app_query(*old(self)),
                    ).len() as int
                },
            ),
            old(self).tab is Explain ==> explain_ok(
                old(self).search_words@,
                old(self).query_string@,
                final(self).result_explain@,
            ),
    {
        self.num_answers = self.min_num_answers;
        match &self.tab {
            Tab::Words => {
                let query = self.gen_query();
                if self.query_string.as_str().unicode_len() != 0 {
                    self.results_search = self.search_words.search(&query, self.num_answers);
                } else {
                    self.results_search = self.search_words.get_all(&query, self.num_answers);
                }
            }
            Tab::Sentences => {
                let query = self.gen_query();
                if self.query_string.as_str().unicode_len() != 0 {
                    self.results_search = self.search_sentences.search(&query, self.num_answers);
                } else {
                    self.results_search = self.search_sentences.get_all(&query, self.num_answers);
                }
            }
            Tab::Explain => {
                self.result_explain = explain(self.query_string.as_str(), &self.search_words);
            }
            _ => {}
        }
    }

    /// Checks the typed answer against the current practice question: a
    /// correct answer advances to the next question (or to the completion
    /// prompt), a wrong one records the mistake with its edit distance for
    /// the feedback screen.
    pub fn on_enter(&mut self)
        requires
            match old(self).tab {
                Tab::Practice(PracticeState::Question(_)) => {
                    &&& search_wf(old(self).search_words@)
                    &&& search_wf(old(self).search_sentences@)
                    &&& practice_wf(old(self).practice@)
                    &&& old(self).practice@.templates.len() > 0
                },
                _ => true,
            },
        ensures
            match old(self).tab {
                Tab::Practice(PracticeState::Question(question)) => {
                    if old(self).query_string@ == question.answer@ {
                        let (practice2, complete) = spec_answer(old(self).practice@, true);
                        &&& final(self).query_string@.len() == 0
                        &&& if complete {
                            final(self).practice@ == practice2 && final(self).tab is Practice
                                && (match final(self).tab {
                                Tab::Practice(s) => s is AskContinue,
                                _ => false,
                            })
                        } else {
                            let practice3 = final(self).practice@;
                            &&& spec_draw(practice2, practice3)
                            &&& practice_wf(practice3)
                            &&& exists|drawn: Option<Question>|
                                question_of_template(
                                    practice3.templates[practice3.question_index as int],
                                    old(self).search_words@,
                                    old(self).search_sentences@,
                                    drawn,
                                ) && (match drawn {
                                    Some(question2) => final(self).tab == Tab::Practice(
                                        PracticeState::Question(question2),
                                    ),
                                    None => final(self).tab == old(self).tab,
                                })
                        }
                    } else {
                        &&& final(self).practice@ == spec_answer(old(self).practice@, false).0
                        &&& match final(self).tab {
                            Tab::Practice(s) => match s {
                                PracticeState::Wrong(prompt, expected, typed, dist, it) => {
                                    &&& prompt@ == question.string@
                                    &&& expected@ == question.answer@
                                    &&& typed@ == old(self).query_string@
                                    &&& dist == edit_distance(
                                        question.answer@,
                                        old(self).query_string@,
                                    )
                                    &&& it@ == question.item@
                                },
                                _ => false,
                            },
                            _ => false,
                        }
                    }
                },
                _ => *final(self) == *old(self),
            },
    {
        let (question_string, question_answer, question_item) = match &self.tab {
            Tab::Practice(PracticeState::Question(question)) => (
                question.string.clone(),
                question.answer.clone(),
                question.item.clone(),
            ),
            _ => {
                return;
            }
        };
        if self.query_string == question_answer {
            self.query_string = String::new();
            let complete = self.practice.answer(true);
            if complete {
                self.tab = Tab::Practice(PracticeState::AskContinue);
            } else {
                let next = self.practice.get_question(
                    &self.search_words,
                    &self.search_sentences,
                );
                let ghost drawn = next;
                match next {
                    Some(question2) => {
                        self.tab = Tab::Practice(PracticeState::Question(question2));
                    }
                    None => {}
                }
                proof {
                    let practice3 = self.practice@;
                    assert(question_of_template(
                        practice3.templates[practice3.question_index as int],
                        old(self).search_words@,
                        old(self).search_sentences@,
                        drawn,
                    ));
                }
            }
        } else {
            let _ = self.practice.answer(false);
            let distance = levenshtein_distance(
                question_answer.as_str(),
                self.query_string.as_str(),
            );
            self.tab = Tab::Practice(
                PracticeState::Wrong(
                    question_string,
                    question_answer,
                    self.query_string.clone(),
                    distance,
                    question_item,
                ),
            );
        }
    }
}

} // verus!
