//! The practice session: a shuffled pass over a group's question templates,
//! with wrongly answered questions queued to resurface early, and a one-shot
//! completion signal once every question has been answered correctly.

use vstd::prelude::*;
use vstd::string::StringExecFns;
use crate::category::{Category, CategoryV, Language, VerbForms};
use crate::item::{Item, ItemV, spec_primary};
use crate::rng::{rand_below, shuffle_usizes};
use crate::search::{Search, SearchV, search_wf, spec_uid_index};

verus! {

/// Chance, in percent, that a pending repeat resurfaces instead of the next
/// permutation slot.
pub const REPEAT_CHANCE_PERCENT: usize = 30;

/// One rendered quiz question: the prompt, the expected answer, the language
/// the answer is asked in, and the item it was generated from.
#[derive(Debug)]
pub struct Question {
    pub string: String,
    pub answer: String,
    pub language: Language,
    pub item: Item,
}

pub struct QuestionV {
    pub string: Seq<char>,
    pub answer: Seq<char>,
    pub language: Language,
    pub item: ItemV,
}

impl View for Question {
    type V = QuestionV;

    open spec fn view(&self) -> QuestionV {
        QuestionV {
            string: self.string@,
            answer: self.answer@,
            language: self.language,
            item: self.item@,
        }
    }
}

/// A reference into one of the two lexicons, by stable identifier.
#[derive(Clone, Copy, Debug, PartialEq, Eq, Structural)]
pub enum QuestionTemplate {
    Word(u32),
    Sentence(u32),
}

/// A named, ordered list of question templates.
#[derive(Debug)]
pub struct PracticeGroup {
    pub name: String,
    pub questions: Vec<QuestionTemplate>,
}

pub struct PracticeGroupV {
    pub name: Seq<char>,
    pub questions: Seq<QuestionTemplate>,
}

impl View for PracticeGroup {
    type V = PracticeGroupV;

    open spec fn view(&self) -> PracticeGroupV {
        PracticeGroupV { name: self.name@, questions: self.questions@ }
    }
}

impl PracticeGroup {
    pub fn new(name: String) -> (r: Self)
        ensures
            r@.name == name@,
            r@.questions.len() == 0,
    {
        PracticeGroup { name, questions: Vec::new() }
    }

    pub fn new_with_questions(name: String, questions: Vec<QuestionTemplate>) -> (r: Self)
        ensures
            r@.name == name@,
            r@.questions == questions@,
    {
        PracticeGroup { name, questions }
    }
}

/// An unordered collection of practice groups, persisted as a whole.
#[derive(Debug)]
pub struct PracticeGroupCollection {
    pub groups: Vec<PracticeGroup>,
}

impl View for PracticeGroupCollection {
    type V = Seq<PracticeGroupV>;

    open spec fn view(&self) -> Seq<PracticeGroupV> {
        self.groups@.map_values(|g: PracticeGroup| g@)
    }
}

impl PracticeGroupCollection {
    pub fn new() -> (r: Self)
        ensures
            r@.len() == 0,
    {
        let r = PracticeGroupCollection { groups: Vec::new() };
        assert(r@ =~= Seq::<PracticeGroupV>::empty());
        r
    }

    pub fn add_group(&mut self, group: PracticeGroup)
        ensures
            final(self)@ == old(self)@.push(group@),
    {
        self.groups.push(group);
        assert(self@ =~= old(self)@.push(group@));
    }

    pub fn remove_group(&mut self, index: usize)
        requires
            index < old(self)@.len(),
        ensures
            final(self)@ == old(self)@.remove(index as int),
    {
        let _ = self.groups.remove(index);
        assert(self@ =~= old(self)@.remove(index as int));
    }
}

/// "What is '<x>' in <language>?", answered by the corresponding form.
pub open spec fn spec_translate(
    french: Seq<char>,
    swedish: Seq<char>,
    to: Language,
    item: ItemV,
) -> QuestionV {
    if to == Language::French {
        QuestionV {
            string: "What is '"@ + swedish + "' in french?"@,
            answer: french,
            language: to,
            item,
        }
    } else {
        QuestionV {
            string: "What is '"@ + french + "' in swedish?"@,
            answer: swedish,
            language: to,
            item,
        }
    }
}

/// As `spec_translate`, but the prompt names the masculine form.
pub open spec fn spec_translate_adjective(
    french: Seq<char>,
    swedish: Seq<char>,
    to: Language,
    item: ItemV,
) -> QuestionV {
    if to == Language::French {
        QuestionV {
            string: "What is '"@ + swedish + "' in french (masculine)?"@,
            answer: french,
            language: to,
            item,
        }
    } else {
        QuestionV {
            string: "What is '"@ + french + "' in swedish?"@,
            answer: swedish,
            language: to,
            item,
        }
    }
}

/// As `spec_translate`, but the prompt names which sub-form is asked for.
pub open spec fn spec_translate_with_form(
    french: Seq<char>,
    swedish: Seq<char>,
    form: Seq<char>,
    to: Language,
    item: ItemV,
) -> QuestionV {
    if to == Language::French {
        QuestionV {
            string: "What is the "@ + form + " form of '"@ + swedish + "' in french?"@,
            answer: french,
            language: to,
            item,
        }
    } else {
        QuestionV {
            string: "What is '"@ + french + "' ("@ + form + ") in swedish?"@,
            answer: swedish,
            language: to,
            item,
        }
    }
}

/// Prompt for a number's cardinal or ordinal form.
pub open spec fn spec_translate_number(
    french: Seq<char>,
    num: Seq<char>,
    to: Language,
    item: ItemV,
) -> QuestionV {
    if to == Language::French {
        QuestionV {
            string: "What is '"@ + num + "' in french?"@,
            answer: french,
            language: to,
            item,
        }
    } else {
        QuestionV {
            string: "What number is '"@ + french + "'?"@,
            answer: num,
            language: to,
            item,
        }
    }
}

/// Prompt for a noun's plural form.
pub open spec fn spec_translate_plural(
    french: Seq<char>,
    swedish: Seq<char>,
    to: Language,
    item: ItemV,
) -> QuestionV {
    if to == Language::French {
        QuestionV {
            string: "What is '"@ + swedish + "' in french plural?"@,
            answer: french,
            language: to,
            item,
        }
    } else {
        QuestionV {
            string: "What is '"@ + french + "' (plural) in swedish?"@,
            answer: swedish,
            language: to,
            item,
        }
    }
}

/// The question generated from an item for a drawn translation direction
/// and sub-form choice.
pub open spec fn spec_question(item: ItemV, sw: Seq<char>, lang: Language, pick: int) -> QuestionV {
    let primary = spec_primary(item, Language::French).unwrap();
    match item.category {
        CategoryV::Adjective(_) => spec_translate_adjective(primary, sw, lang, item),
        CategoryV::Pronoun(_) => spec_translate_adjective(primary, sw, lang, item),
        CategoryV::Noun(s, _g, plural) => if pick == 0 {
            spec_translate(s, sw, lang, item)
        } else {
            spec_translate_plural(plural, sw, lang, item)
        },
        CategoryV::Verb(_base, f) => if pick == 0 {
            spec_translate_with_form(f.forms[0], sw, "je"@, lang, item)
        } else if pick == 1 {
            spec_translate_with_form(f.forms[1], sw, "tu"@, lang, item)
        } else if pick == 2 {
            spec_translate_with_form(f.forms[2], sw, "il/elle/on"@, lang, item)
        } else if pick == 3 {
            spec_translate_with_form(f.forms[3], sw, "nous"@, lang, item)
        } else if pick == 4 {
            spec_translate_with_form(f.forms[4], sw, "vous"@, lang, item)
        } else {
            spec_translate_with_form(f.forms[5], sw, "ils/elles"@, lang, item)
        },
        CategoryV::Article(m, fe, p, _v) => if pick == 0 {
            spec_translate_with_form(m, sw, "male"@, lang, item)
        } else if pick == 1 {
            spec_translate_with_form(fe, sw, "female"@, lang, item)
        } else {
            spec_translate_with_form(p, sw, "plural"@, lang, item)
        },
        CategoryV::Number(c, _cf, o, ..) => if pick == 0 {
            spec_translate_number(c, sw, lang, item)
        } else {
            spec_translate_number(o, sw, lang, item)
        },
        _ => spec_translate(primary, sw, lang, item),
    }
}

/// The relation a generated question bears to the item it came from: some
/// drawn direction and sub-form produced it, and only an item with no
/// recorded translation yields nothing.
pub open spec fn question_matches_item(item: ItemV, r: Option<Question>) -> bool {
    match r {
        None => item.swedish is None,
        Some(question) => item.swedish is Some && exists|lang: Language, pick: int|
            (lang == Language::French || lang == Language::Swedish) && question@
                == spec_question(item, item.swedish.unwrap(), lang, pick),
    }
}

enum Form {
    Male,
    Female,
    Plural,
}

impl Question {
    fn translate(french: String, swedish: String, to_language: Language, item: Item) -> (r: Self)
        requires
            to_language != Language::English,
        ensures
            r@ == spec_translate(french@, swedish@, to_language, item@),
    {
        match to_language {
            Language::French => Question {
                string: String::from_str("What is '").concat(swedish.as_str()).concat(
                    "' in french?",
                ),
                answer: french,
                language: to_language,
                item,
            },
            _ => Question {
                string: String::from_str("What is '").concat(french.as_str()).concat(
                    "' in swedish?",
                ),
                answer: swedish,
                language: to_language,
                item,
            },
        }
    }

    fn translate_adjective(
        french: String,
        swedish: String,
        to_language: Language,
        item: Item,
    ) -> (r: Self)
        requires
            to_language != Language::English,
        ensures
            r@ == spec_translate_adjective(french@, swedish@, to_language, item@),
    {
        match to_language {
            Language::French => Question {
                string: String::from_str("What is '").concat(swedish.as_str()).concat(
                    "' in french (masculine)?",
                ),
                answer: french,
                language: to_language,
                item,
            },
            _ => Question {
                string: String::from_str("What is '").concat(french.as_str()).concat(
                    "' in swedish?",
                ),
                answer: swedish,
                language: to_language,
                item,
            },
        }
    }

    fn translate_verb(
        french: String,
        swedish: String,
        form: &str,
        to_language: Language,
        item: Item,
    ) -> (r: Self)
        requires
            to_language != Language::English,
        ensures
            r@ == spec_translate_with_form(french@, swedish@, form@, to_language, item@),
    {
        match to_language {
            Language::French => Question {
                string: String::from_str("What is the ").concat(form).concat(
                    " form of '",
                ).concat(swedish.as_str()).concat("' in french?"),
                answer: french,
                language: to_language,
                item,
            },
            _ => Question {
                string: String::from_str("What is '").concat(french.as_str()).concat(
                    "' (",
                ).concat(form).concat(") in swedish?"),
                answer: swedish,
                language: to_language,
                item,
            },
        }
    }

    fn translate_form(
        french: String,
        swedish: String,
        form: Form,
        to_language: Language,
        item: Item,
    ) -> (r: Self)
        requires
            to_language != Language::English,
        ensures
            (form is Male) ==> r@ == spec_translate_with_form(
                french@,
                swedish@,
                "male"@,
                to_language,
                item@,
            ),
            (form is Female) ==> r@ == spec_translate_with_form(
                french@,
                swedish@,
                "female"@,
                to_language,
                item@,
            ),
            (form is Plural) ==> r@ == spec_translate_with_form(
                french@,
                swedish@,
                "plural"@,
                to_language,
                item@,
            ),
    {
        let form_str: &str = match form {
            Form::Male => "male",
            Form::Female => "female",
            Form::Plural => "plural",
        };
        Question::translate_verb(french, swedish, form_str, to_language, item)
    }

    fn translate_number(
        french: String,
        num: String,
        to_language: Language,
        item: Item,
    ) -> (r: Self)
        requires
            to_language != Language::English,
        ensures
            r@ == spec_translate_number(french@, num@, to_language, item@),
    {
        match to_language {
            Language::French => Question {
                string: String::from_str("What is '").concat(num.as_str()).concat(
                    "' in french?",
                ),
                answer: french,
                language: to_language,
                item,
            },
            _ => Question {
                string: String::from_str("What number is '").concat(french.as_str()).concat(
                    "'?",
                ),
                answer: num,
                language: to_language,
                item,
            },
        }
    }

    fn translate_plural(
        french: String,
        swedish: String,
        to_language: Language,
        item: Item,
    ) -> (r: Self)
        requires
            to_language != Language::English,
        ensures
            r@ == spec_translate_plural(french@, swedish@, to_language, item@),
    {
        match to_language {
            Language::French => Question {
                string: String::from_str("What is '").concat(swedish.as_str()).concat(
                    "' in french plural?",
                ),
                answer: french,
                language: to_language,
                item,
            },
            _ => Question {
                string: String::from_str("What is '").concat(french.as_str()).concat(
                    "' (plural) in swedish?",
                ),
                answer: swedish,
                language: to_language,
                item,
            },
        }
    }
}

/// Renders a quiz question from one item, drawing the translation direction
/// and, for multi-form categories, which sub-form is asked.
#[verifier::rlimit(60)]
#[verifier::spinoff_prover]
pub fn generate_practice_question(item: Item) -> (r: Option<Question>)
    ensures
        question_matches_item(item@, r),
{
    let sw = match &item.swedish {
        Some(s) => s.clone(),
        None => {
            return None;
        }
    };
    let to_language = if rand_below(2) == 0 {
        Language::French
    } else {
        Language::Swedish
    };
    let ghost lang = to_language;
    match &item.category {
        Category::Other(s)
        | Category::Adverb(s)
        | Category::Conjunction(s)
        | Category::Interjection(s)
        | Category::Preposition(s) => {
            let question = Question::translate(s.clone(), sw, to_language, item.clone());
            assert(question@ == spec_question(item@, item@.swedish.unwrap(), lang, 0));
            Some(question)
        }
        Category::Adjective(_) | Category::Pronoun(_) => {
            let first = match item.language_string(&Language::French) {
                Some(s) => s.clone(),
                None => {
                    // the source language always offers a primary string
                    assert(false);
                    return None;
                }
            };
            let question = Question::translate_adjective(first, sw, to_language, item.clone());
            assert(question@ == spec_question(item@, item@.swedish.unwrap(), lang, 0));
            Some(question)
        }
        Category::Noun(s, _, plural) => {
            let pick = rand_below(2);
            let question = if pick == 0 {
                Question::translate(s.clone(), sw, to_language, item.clone())
            } else {
                Question::translate_plural(plural.clone(), sw, to_language, item.clone())
            };
            assert(question@ == spec_question(item@, item@.swedish.unwrap(), lang, pick as int));
            Some(question)
        }
        Category::Verb(_, forms) => {
            let (je, tu, il, nous, vous, ils) = match forms {
                VerbForms::Regular(je, tu, il, nous, vous, ils, _, _, _, _, _, _, _)
                | VerbForms::Irregular(je, tu, il, nous, vous, ils, _, _, _, _, _, _, _) => (
                    je, tu, il, nous, vous, ils,
                ),
            };
            let pick = rand_below(6);
            let question = if pick == 0 {
                Question::translate_verb(je.clone(), sw, "je", to_language, item.clone())
            } else if pick == 1 {
                Question::translate_verb(tu.clone(), sw, "tu", to_language, item.clone())
            } else if pick == 2 {
                Question::translate_verb(il.clone(), sw, "il/elle/on", to_language, item.clone())
            } else if pick == 3 {
                Question::translate_verb(nous.clone(), sw, "nous", to_language, item.clone())
            } else if pick == 4 {
                Question::translate_verb(vous.clone(), sw, "vous", to_language, item.clone())
            } else {
                Question::translate_verb(ils.clone(), sw, "ils/elles", to_language, item.clone())
            };
            assert(question@ == spec_question(item@, item@.swedish.unwrap(), lang, pick as int));
            Some(question)
        }
        Category::Article(m, f, p, _) => {
            let pick = rand_below(3);
            let question = if pick == 0 {
                Question::translate_form(m.clone(), sw, Form::Male, to_language, item.clone())
            } else if pick == 1 {
                Question::translate_form(f.clone(), sw, Form::Female, to_language, item.clone())
            } else {
                Question::translate_form(p.clone(), sw, Form::Plural, to_language, item.clone())
            };
            assert(question@ == spec_question(item@, item@.swedish.unwrap(), lang, pick as int));
            Some(question)
        }
        Category::Number(c, _, o, _, _, _, _, _) => {
            let pick = rand_below(2);
            let question = if pick == 0 {
                Question::translate_number(c.clone(), sw, to_language, item.clone())
            } else {
                Question::translate_number(o.clone(), sw, to_language, item.clone())
            };
            assert(question@ == spec_question(item@, item@.swedish.unwrap(), lang, pick as int));
            Some(question)
        }
    }
}

/// How a rendered question relates to the template it was drawn for: the
/// template's identifier is resolved against the matching lexicon, a missing
/// item is tolerated as "nothing to show", and a found item yields one of
/// its questions.
pub open spec fn question_of_template(
    t: QuestionTemplate,
    words: SearchV,
    sentences: SearchV,
    r: Option<Question>,
) -> bool {
    let store = match t {
        QuestionTemplate::Word(_) => words,
        QuestionTemplate::Sentence(_) => sentences,
    };
    let uid = match t {
        QuestionTemplate::Word(u) => u,
        QuestionTemplate::Sentence(u) => u,
    };
    match spec_uid_index(store.items, uid) {
        None => r is None,
        Some(i) => question_matches_item(store.items[i], r),
    }
}

/// Where a template's identifier lands when its lexicon is renumbered by
/// store position: a resolvable identifier becomes the item's position, a
/// dangling one is left as it stands.
pub open spec fn spec_renumber_template(
    t: QuestionTemplate,
    words: SearchV,
    sentences: SearchV,
) -> QuestionTemplate {
    match t {
        QuestionTemplate::Word(u) => match spec_uid_index(words.items, u) {
            Some(i) => QuestionTemplate::Word(i as u32),
            None => t,
        },
        QuestionTemplate::Sentence(u) => match spec_uid_index(sentences.items, u) {
            Some(i) => QuestionTemplate::Sentence(i as u32),
            None => t,
        },
    }
}

/// Renumbers both lexicons so that identifiers match store positions, and
/// rewrites every question template of every group to track the new
/// numbering, as one transaction.
pub fn renumber_stores(
    words: &mut Search,
    sentences: &mut Search,
    groups: &mut PracticeGroupCollection,
)
    requires
        search_wf(old(words)@),
        search_wf(old(sentences)@),
        old(words)@.items.len() < 0xFFFF_FFFFu32,
        old(sentences)@.items.len() < 0xFFFF_FFFFu32,
    ensures
        search_wf(final(words)@),
        search_wf(final(sentences)@),
        final(words)@.items.len() == old(words)@.items.len(),
        final(sentences)@.items.len() == old(sentences)@.items.len(),
        forall|i: int|
            0 <= i < final(words)@.items.len() ==> (#[trigger] final(words)@.items[i]).uid == i
                && final(words)@.items[i].category == old(words)@.items[i].category,
        forall|i: int|
            0 <= i < final(sentences)@.items.len() ==> (#[trigger] final(sentences)@.items[i]).uid
                == i && final(sentences)@.items[i].category == old(sentences)@.items[i].category,
        final(groups)@.len() == old(groups)@.len(),
        forall|gi: int|
            0 <= gi < final(groups)@.len() ==> (#[trigger] final(groups)@[gi]).name
                == old(groups)@[gi].name && final(groups)@[gi].questions.len()
                == old(groups)@[gi].questions.len() && (forall|qi: int|
                0 <= qi < final(groups)@[gi].questions.len()
                    ==> (#[trigger] final(groups)@[gi].questions[qi]) == spec_renumber_template(
                    old(groups)@[gi].questions[qi],
                    old(words)@,
                    old(sentences)@,
                )),
{
    let group_count = groups.groups.len();
    let mut gi: usize = 0;
    while gi < group_count
        invariant
            gi <= group_count,
            group_count == groups@.len(),
            groups@.len() == old(groups)@.len(),
            old(words)@.items.len() < 0xFFFF_FFFFu32,
            old(sentences)@.items.len() < 0xFFFF_FFFFu32,
            words@ == old(words)@,
            sentences@ == old(sentences)@,
            search_wf(words@),
            search_wf(sentences@),
            groups@ == groups.groups@.map_values(|g: PracticeGroup| g@),
            forall|j: int| gi <= j < group_count ==> (#[trigger] groups@[j]) == old(groups)@[j],
            forall|j: int|
                0 <= j < gi ==> (#[trigger] groups@[j]).name == old(groups)@[j].name
                    && groups@[j].questions.len() == old(groups)@[j].questions.len() && (forall|
                    qi: int,
                |
                    0 <= qi < groups@[j].questions.len() ==> (#[trigger] groups@[j].questions[qi])
                        == spec_renumber_template(
                        old(groups)@[j].questions[qi],
                        old(words)@,
                        old(sentences)@,
                    )),
        decreases group_count - gi,
    {
        let question_count = groups.groups[gi].questions.len();
        let mut rewritten: Vec<QuestionTemplate> = Vec::new();
        let mut qi: usize = 0;
        while qi < question_count
            invariant
                qi <= question_count,
                gi < group_count,
                group_count == groups@.len(),
                groups@.len() == old(groups)@.len(),
                old(words)@.items.len() < 0xFFFF_FFFFu32,
                old(sentences)@.items.len() < 0xFFFF_FFFFu32,
                words@ == old(words)@,
                sentences@ == old(sentences)@,
                search_wf(words@),
                search_wf(sentences@),
                groups@ == groups.groups@.map_values(|g: PracticeGroup| g@),
                question_count == groups@[gi as int].questions.len(),
                groups@[gi as int] == old(groups)@[gi as int],
                rewritten@.len() == qi,
                forall|l: int|
                    0 <= l < qi ==> (#[trigger] rewritten@[l]) == spec_renumber_template(
                        old(groups)@[gi as int].questions[l],
                        old(words)@,
                        old(sentences)@,
                    ),
            decreases question_count - qi,
        {
            let template = groups.groups[gi].questions[qi];
            let new_template = match template {
                QuestionTemplate::Word(u) => match words.get_item_index(u) {
                    Some(i) => {
                        proof {
                            crate::search::lemma_uid_index(words@.items, u);
                        }
                        QuestionTemplate::Word(i as u32)
                    }
                    None => template,
                },
                QuestionTemplate::Sentence(u) => match sentences.get_item_index(u) {
                    Some(i) => {
                        proof {
                            crate::search::lemma_uid_index(sentences@.items, u);
                        }
                        QuestionTemplate::Sentence(i as u32)
                    }
                    None => template,
                },
            };
            rewritten.push(new_template);
            qi += 1;
        }
        let name = groups.groups[gi].name.clone();
        let ghost prev = groups@;
        groups.groups.set(gi, PracticeGroup { name, questions: rewritten });
        proof {
            assert(groups@ =~= groups.groups@.map_values(|g: PracticeGroup| g@));
            assert forall|j: int| 0 <= j < group_count && j != gi as int implies (
            #[trigger] groups@[j]) == prev[j] by {}
        }
        gi += 1;
    }
    words.renumber();
    sentences.renumber();
}

/// A running practice session.
#[derive(Debug)]
pub struct Practice {
    templates: Vec<QuestionTemplate>,
    questions: Vec<usize>,
    question: usize,
    question_index: usize,
    to_repeat: Vec<usize>,
    answers: Vec<bool>,
    continuing: bool,
}

pub struct PracticeV {
    pub templates: Seq<QuestionTemplate>,
    pub questions: Seq<usize>,
    pub question: usize,
    pub question_index: usize,
    pub to_repeat: Seq<usize>,
    pub answers: Seq<bool>,
    pub continuing: bool,
}

impl View for Practice {
    type V = PracticeV;

    closed spec fn view(&self) -> PracticeV {
        PracticeV {
            templates: self.templates@,
            questions: self.questions@,
            question: self.question,
            question_index: self.question_index,
            to_repeat: self.to_repeat@,
            answers: self.answers@,
            continuing: self.continuing,
        }
    }
}

/// The session's invariant: one permutation slot and one answer flag per
/// template, a cursor within range, and repeat entries that point at
/// templates.
pub open spec fn practice_wf(p: PracticeV) -> bool {
    &&& p.questions.len() == p.templates.len()
    &&& p.answers.len() == p.templates.len()
    &&& p.question <= p.questions.len()
    &&& p.questions.no_duplicates()
    &&& forall|v: usize| p.questions.contains(v) <==> (v as int) < p.templates.len()
    &&& forall|k: int|
        0 <= k < p.to_repeat.len() ==> ((#[trigger] p.to_repeat[k]) as int) < p.templates.len()
    &&& (p.templates.len() > 0 ==> (p.question_index as int) < p.templates.len())
}

/// What `answer` does: a correct answer sets the current question's flag —
/// the flags mean "answered correctly at least once", so once set a flag
/// survives later wrong answers — while a wrong answer leaves the flags
/// alone and queues the question for repetition; a correct one signals
/// completion exactly when every flag is set and the session is not being
/// continued past completion.
pub open spec fn spec_answer(p: PracticeV, answer: bool) -> (PracticeV, bool) {
    if !answer {
        (
            PracticeV {
                templates: p.templates,
                questions: p.questions,
                question: p.question,
                question_index: p.question_index,
                to_repeat: p.to_repeat.push(p.question_index),
                answers: p.answers,
                continuing: p.continuing,
            },
            false,
        )
    } else {
        let answers2 = p.answers.update(p.question_index as int, true);
        (
            PracticeV {
                templates: p.templates,
                questions: p.questions,
                question: p.question,
                question_index: p.question_index,
                to_repeat: p.to_repeat,
                answers: answers2,
                continuing: p.continuing,
            },
            !p.continuing && forall|l: int| 0 <= l < answers2.len() ==> answers2[l],
        )
    }
}

/// One draw, given the permutation and cursor that stand after a possible
/// wrap: either a pending repeat resurfaces, leaving the cursor in place, or
/// the slot under the cursor is used and the cursor advances.
pub open spec fn spec_draw_with(
    pre: PracticeV,
    post: PracticeV,
    qs: Seq<usize>,
    cur: usize,
) -> bool {
    &&& if pre.question == pre.questions.len() {
        qs.to_multiset() == pre.questions.to_multiset() && cur == 0
    } else {
        qs == pre.questions && cur == pre.question
    }
    &&& post.templates == pre.templates
    &&& post.answers == pre.answers
    &&& post.continuing == pre.continuing
    &&& ((pre.to_repeat.len() > 0 && exists|j: int|
        0 <= j < pre.to_repeat.len() && post.question_index == pre.to_repeat[j]
            && post.to_repeat == pre.to_repeat.update(j, pre.to_repeat.last()).drop_last()
            && post.questions == qs && post.question == cur) || ((cur as int) < qs.len()
        && post.question_index == qs[cur as int] && post.question == cur + 1 && post.questions
        == qs && post.to_repeat == pre.to_repeat))
}

/// What one draw may do: either the next slot of the (possibly reshuffled)
/// permutation is used and the cursor advances, or, when repeats are
/// pending, one of them may resurface instead.
pub open spec fn spec_draw(pre: PracticeV, post: PracticeV) -> bool {
    exists|qs: Seq<usize>, cur: usize| spec_draw_with(pre, post, qs, cur)
}

impl Practice {
    /// An idle session with nothing to practice.
    pub fn new() -> (r: Self)
        ensures
            practice_wf(r@),
            r@.templates.len() == 0,
            r@.questions.len() == 0,
            r@.answers.len() == 0,
            r@.to_repeat.len() == 0,
            r@.question == 0,
            r@.question_index == 0,
            r@.continuing == false,
    {
        let r = Practice {
            templates: Vec::new(),
            questions: Vec::new(),
            question: 0,
            question_index: 0,
            to_repeat: Vec::new(),
            answers: Vec::new(),
            continuing: false,
        };
        proof {
            assert forall|v: usize| r@.questions.contains(v) implies (v as int)
                < r@.templates.len() by {
                let l = choose|l: int| 0 <= l < r@.questions.len() && r@.questions[l] == v;
            }
        }
        r
    }

    /// Starts a session over a group: a fresh shuffled permutation of its
    /// question positions, the cursor at the start, no repeats pending, no
    /// question answered yet, and the continuation flag cleared.
    pub fn init(&mut self, group: &PracticeGroup)
        ensures
            practice_wf(final(self)@),
            final(self)@.templates == group@.questions,
            final(self)@.question == 0,
            final(self)@.question_index == 0,
            final(self)@.to_repeat.len() == 0,
            final(self)@.continuing == false,
            final(self)@.answers.len() == group@.questions.len(),
            forall|l: int| 0 <= l < final(self)@.answers.len() ==> !final(self)@.answers[l],
    {
        let k = group.questions.len();
        let mut templates: Vec<QuestionTemplate> = Vec::new();
        let mut idx: usize = 0;
        while idx < k
            invariant
                idx <= k,
                k == group@.questions.len(),
                templates@ == group@.questions.take(idx as int),
            decreases k - idx,
        {
            templates.push(group.questions[idx]);
            proof {
                assert(templates@ =~= group@.questions.take(idx + 1));
            }
            idx += 1;
        }
        proof {
            assert(group@.questions.take(k as int) =~= group@.questions);
        }
        let mut questions: Vec<usize> = Vec::new();
        let mut v: usize = 0;
        while v < k
            invariant
                v <= k,
                questions@.len() == v,
                forall|l: int| 0 <= l < v ==> (#[trigger] questions@[l]) == l as usize,
            decreases k - v,
        {
            questions.push(v);
            v += 1;
        }
        let ghost identity = questions@;
        proof {
            assert forall|a: int, b: int| 0 <= a < b < identity.len() implies identity[a]
                != identity[b] by {}
            assert(identity.no_duplicates());
            assert forall|u: usize| identity.contains(u) <==> (u as int) < k by {
                if (u as int) < k {
                    assert(identity[u as int] == u);
                }
                if identity.contains(u) {
                    let l = choose|l: int| 0 <= l < identity.len() && identity[l] == u;
                }
            }
        }
        crate::rng::shuffle_usizes(&mut questions);
        proof {
            let shuffled = questions@;
            identity.to_multiset_ensures();
            shuffled.to_multiset_ensures();
            identity.lemma_multiset_has_no_duplicates();
            shuffled.lemma_multiset_has_no_duplicates_conv();
            assert(shuffled.no_duplicates());
            assert forall|u: usize| shuffled.contains(u) <==> (u as int) < k by {
                assert(shuffled.contains(u) <==> shuffled.to_multiset().count(u) > 0);
                assert(identity.contains(u) <==> identity.to_multiset().count(u) > 0);
            }
            assert(shuffled.len() == identity.len());
        }
        let answers: Vec<bool> = vec![false; k];
        self.templates = templates;
        self.questions = questions;
        self.question = 0;
        self.question_index = 0;
        self.to_repeat = Vec::new();
        self.answers = answers;
        self.continuing = false;
    }

    /// Records the answer to the current question; see `spec_answer`.
    pub fn answer(&mut self, answer: bool) -> (r: bool)
        requires
            practice_wf(old(self)@),
            old(self)@.templates.len() > 0,
        ensures
            practice_wf(final(self)@),
            final(self)@ == spec_answer(old(self)@, answer).0,
            r == spec_answer(old(self)@, answer).1,
    {
        let qi = self.question_index;
        if !answer {
            self.to_repeat.push(qi);
            proof {
                assert forall|k: int| 0 <= k < self@.to_repeat.len() implies ((
                #[trigger] self@.to_repeat[k]) as int) < self@.templates.len() by {
                    if k < old(self)@.to_repeat.len() {
                        assert(self@.to_repeat[k] == old(self)@.to_repeat[k]);
                    } else {
                        assert(self@.to_repeat[k] == old(self)@.question_index);
                    }
                }
            }
            false
        } else {
            self.answers.set(qi, true);
            if !self.continuing {
                let n = self.answers.len();
                let mut all = true;
                let mut idx: usize = 0;
                while idx < n
                    invariant
                        idx <= n,
                        n == self@.answers.len(),
                        practice_wf(old(self)@),
                        old(self)@.templates.len() > 0,
                        self@ == spec_answer(old(self)@, answer).0,
                        all == (forall|l: int| 0 <= l < idx ==> self@.answers[l]),
                    decreases n - idx,
                {
                    if !self.answers[idx] {
                        all = false;
                    }
                    idx += 1;
                }
                all
            } else {
                false
            }
        }
    }

    /// Renders the current question from the lexicon its template points
    /// into; a dangling identifier yields nothing rather than failing.
    pub fn gen_question(&self, words: &Search, sentences: &Search) -> (r: Option<Question>)
        requires
            practice_wf(self@),
            self@.templates.len() > 0,
        ensures
            question_of_template(
                self@.templates[self@.question_index as int],
                words@,
                sentences@,
                r,
            ),
    {
        match self.templates[self.question_index] {
            QuestionTemplate::Sentence(uid) => match sentences.get_item(uid) {
                Some(item) => generate_practice_question(item),
                None => None,
            },
            QuestionTemplate::Word(uid) => match words.get_item(uid) {
                Some(item) => generate_practice_question(item),
                None => None,
            },
        }
    }

    /// Draws the next question: the next slot of the shuffled pass, with a
    /// fresh shuffle when the pass is exhausted, except that a pending
    /// repeat sometimes resurfaces instead; then renders it.
    pub fn get_question(&mut self, words: &Search, sentences: &Search) -> (r: Option<Question>)
        requires
            practice_wf(old(self)@),
            old(self)@.templates.len() > 0,
        ensures
            practice_wf(final(self)@),
            spec_draw(old(self)@, final(self)@),
            question_of_template(
                final(self)@.templates[final(self)@.question_index as int],
                words@,
                sentences@,
                r,
            ),
    {
        if self.question == self.questions.len() {
            let ghost before = self.questions@;
            shuffle_usizes(&mut self.questions);
            proof {
                let after = self.questions@;
                before.to_multiset_ensures();
                after.to_multiset_ensures();
                before.lemma_multiset_has_no_duplicates();
                after.lemma_multiset_has_no_duplicates_conv();
                assert forall|u: usize| after.contains(u) <==> old(self)@.questions.contains(
                    u,
                ) by {
                    assert(after.contains(u) <==> after.to_multiset().count(u) > 0);
                    assert(before.contains(u) <==> before.to_multiset().count(u) > 0);
                }
            }
            self.question = 0;
        }
        let ghost qs = self@.questions;
        let ghost cur = self@.question;
        proof {
            assert((cur as int) < qs.len());
        }
        let use_repeat = self.to_repeat.len() > 0 && rand_below(100) < REPEAT_CHANCE_PERCENT;
        if use_repeat {
            let j = rand_below(self.to_repeat.len());
            let picked = self.to_repeat.swap_remove(j);
            self.question_index = picked;
            proof {
                assert(old(self)@.to_repeat[j as int] == picked);
                assert(self@.to_repeat =~= old(self)@.to_repeat.update(
                    j as int,
                    old(self)@.to_repeat.last(),
                ).drop_last());
                assert forall|k: int| 0 <= k < self@.to_repeat.len() implies ((
                #[trigger] self@.to_repeat[k]) as int) < self@.templates.len() by {
                    if k == j as int {
                        let last = old(self)@.to_repeat.len() - 1;
                        assert(self@.to_repeat[k] == old(self)@.to_repeat[last]);
                    } else {
                        assert(self@.to_repeat[k] == old(self)@.to_repeat[k]);
                    }
                }
                assert(spec_draw_with(old(self)@, self@, qs, cur));
                assert(spec_draw(old(self)@, self@));
            }
        } else {
            let picked = self.questions[self.question];
            self.question_index = picked;
            self.question = self.question + 1;
            proof {
                assert(qs.contains(qs[cur as int]));
                assert((picked as int) < self@.templates.len());
                assert(spec_draw_with(old(self)@, self@, qs, cur));
                assert(spec_draw(old(self)@, self@));
            }
        }
        self.gen_question(words, sentences)
    }

    /// Lets the session run on after first full mastery; the completion
    /// signal never fires again.
    pub fn continue_practice(&mut self)
        ensures
            final(self)@ == (PracticeV {
                templates: old(self)@.templates,
                questions: old(self)@.questions,
                question: old(self)@.question,
                question_index: old(self)@.question_index,
                to_repeat: old(self)@.to_repeat,
                answers: old(self)@.answers,
                continuing: true,
            }),
    {
        self.continuing = true;
    }
}

#[verifier::rlimit(100)]
#[verifier::spinoff_prover]
proof fn lemma_full_pass_inv(
    states: Seq<PracticeV>,
    mids: Seq<PracticeV>,
    results: Seq<bool>,
    k: int,
    j: int,
)
    requires
        1 <= k,
        0 <= j <= k,
        states.len() == k + 1,
        mids.len() == k,
        results.len() == k,
        practice_wf(states[0]),
        states[0].templates.len() == k,
        states[0].question == 0,
        states[0].to_repeat.len() == 0,
        states[0].continuing == false,
        forall|v: int| 0 <= v < k ==> !(#[trigger] states[0].answers[v]),
        forall|l: int|
            0 <= l < k ==> spec_draw(#[trigger] states[l], mids[l]) && states[l + 1]
                == spec_answer(mids[l], true).0 && results[l] == spec_answer(mids[l], true).1,
    ensures
        states[j].questions == states[0].questions,
        states[j].question == j,
        states[j].to_repeat.len() == 0,
        states[j].continuing == false,
        states[j].answers.len() == k,
        states[j].templates == states[0].templates,
        forall|v: int|
            0 <= v < k ==> ((#[trigger] states[j].answers[v]) <==> exists|l: int|
                0 <= l < j && ((#[trigger] states[0].questions[l]) as int) == v),
        forall|l: int| 0 <= l < j ==> (#[trigger] results[l]) == (l == k - 1),
    decreases j,
{
    let p0 = states[0];
    if j == 0 {
        assert forall|v: int| 0 <= v < k implies ((#[trigger] states[0].answers[v]) <==> exists|
            l: int,
        | 0 <= l < 0 && ((#[trigger] states[0].questions[l]) as int) == v) by {}
    } else {
        lemma_full_pass_inv(states, mids, results, k, j - 1);
        let pre = states[j - 1];
        let mid = mids[j - 1];
        assert(spec_draw(pre, mid) && states[j - 1 + 1] == spec_answer(mid, true).0 && results[j
            - 1] == spec_answer(mid, true).1);
        let (qs, cur): (Seq<usize>, usize) = choose|qs: Seq<usize>, cur: usize|
            spec_draw_with(pre, mid, qs, cur);
        assert(pre.questions.len() == k);
        assert(pre.question != pre.questions.len());
        assert(qs == p0.questions && cur as int == j - 1);
        assert(mid.question_index == qs[j - 1] && mid.question as int == j && mid.questions == qs
            && mid.to_repeat == pre.to_repeat && mid.answers == pre.answers && mid.continuing
            == false && mid.templates == pre.templates);
        let drawn = qs[j - 1];
        assert(p0.questions.contains(drawn)) by {
            assert(p0.questions[j - 1] == drawn);
        }
        assert((drawn as int) < k);
        let post = states[j];
        let answers2 = mid.answers.update(mid.question_index as int, true);
        assert(post == spec_answer(mid, true).0);
        assert(post.answers == answers2);
        assert forall|v: int| 0 <= v < k implies ((#[trigger] post.answers[v]) <==> exists|l: int|
            0 <= l < j && ((#[trigger] p0.questions[l]) as int) == v) by {
            if v == drawn as int {
                assert(post.answers[v]);
                assert((p0.questions[j - 1] as int) == v);
            } else {
                assert(post.answers[v] == pre.answers[v]);
                if post.answers[v] {
                    let l = choose|l: int|
                        0 <= l < j - 1 && ((#[trigger] p0.questions[l]) as int) == v;
                    assert(0 <= l < j && (p0.questions[l] as int) == v);
                }
                if exists|l: int| 0 <= l < j && ((#[trigger] p0.questions[l]) as int) == v {
                    let l = choose|l: int|
                        0 <= l < j && ((#[trigger] p0.questions[l]) as int) == v;
                    assert(l != j - 1);
                    assert(pre.answers[v]);
                }
            }
        }
        // the completion signal fires exactly on the last question
        if j == k {
            assert forall|l: int| 0 <= l < answers2.len() implies answers2[l] by {
                assert(p0.questions.contains(l as usize));
                let w = choose|w: int|
                    0 <= w < p0.questions.len() && p0.questions[w] == l as usize;
                assert(post.answers[l] <==> exists|ll: int|
                    0 <= ll < j && ((#[trigger] p0.questions[ll]) as int) == l);
                assert(0 <= w < j && (p0.questions[w] as int) == l);
            }
            assert(results[j - 1] == true);
        } else {
            let v0 = qs[j] as int;
            assert(p0.questions.contains(qs[j])) by {
                assert(p0.questions[j] == qs[j]);
            }
            assert(0 <= v0 < k);
            if post.answers[v0] {
                let l = choose|l: int| 0 <= l < j && ((#[trigger] p0.questions[l]) as int) == v0;
                assert(p0.questions[l] == p0.questions[j]);
                assert(p0.questions.no_duplicates());
                assert(false);
            }
            assert(!answers2[v0]);
            assert(results[j - 1] == false);
        }
    }
}

/// After starting a session over `k` questions, a run in which every drawn
/// question is answered correctly signals completion on the k-th answer,
/// and never before: `states` are the session states between the rounds,
/// `mids` the states right after each draw, `results` what each answer
/// returned.
#[verifier::rlimit(100)]
#[verifier::spinoff_prover]
pub proof fn lemma_full_pass_completes(
    states: Seq<PracticeV>,
    mids: Seq<PracticeV>,
    results: Seq<bool>,
    k: int,
)
    requires
        1 <= k,
        states.len() == k + 1,
        mids.len() == k,
        results.len() == k,
        practice_wf(states[0]),
        states[0].templates.len() == k,
        states[0].question == 0,
        states[0].to_repeat.len() == 0,
        states[0].continuing == false,
        forall|v: int| 0 <= v < k ==> !(#[trigger] states[0].answers[v]),
        forall|l: int|
            0 <= l < k ==> spec_draw(#[trigger] states[l], mids[l]) && states[l + 1]
                == spec_answer(mids[l], true).0 && results[l] == spec_answer(mids[l], true).1,
    ensures
        results[k - 1] == true,
        forall|l: int| 0 <= l < k - 1 ==> !(#[trigger] results[l]),
{
    lemma_full_pass_inv(states, mids, results, k, k);
    assert(results[k - 1] == (k - 1 == k - 1));
    assert forall|l: int| 0 <= l < k - 1 implies !(#[trigger] results[l]) by {
        assert(results[l] == (l == k - 1));
    }
}

/// A question answered wrongly joins the repeat queue, and the very next
/// draw may resurface exactly that question, before the permutation would
/// otherwise come back to it.
pub proof fn lemma_wrong_answer_requeues(p: PracticeV)
    requires
        practice_wf(p),
        p.templates.len() > 0,
    ensures
        ({
            let p2 = spec_answer(p, false).0;
            &&& p2.to_repeat.contains(p.question_index)
            &&& exists|post: PracticeV|
                spec_draw(p2, post) && post.question_index == p.question_index
        }),
{
    let p2 = spec_answer(p, false).0;
    let jj = p2.to_repeat.len() - 1;
    assert(p2.to_repeat[jj] == p.question_index);
    assert(p2.to_repeat.contains(p.question_index));
    let (qs, cur): (Seq<usize>, usize) = if p2.question == p2.questions.len() {
        (p2.questions, 0)
    } else {
        (p2.questions, p2.question)
    };
    let post = PracticeV {
        templates: p2.templates,
        questions: qs,
        question: cur,
        question_index: p.question_index,
        to_repeat: p2.to_repeat.update(jj, p2.to_repeat.last()).drop_last(),
        answers: p2.answers,
        continuing: p2.continuing,
    };
    assert(post.question_index == p2.to_repeat[jj]);
    assert(spec_draw_with(p2, post, qs, cur));
    assert(spec_draw(p2, post) && post.question_index == p.question_index);
}

} // verus!
