//! The sentence generator: assembles a short example sentence from a
//! personal pronoun and a matching conjugated verb form, drawn from the
//! lexicon when not supplied.

use vstd::prelude::*;
use vstd::string::StringExecFns;
use crate::category::{Category, CategoryV, Language, Pronoun, PronounV, VerbForms, VerbFormsV};
use crate::item::{Item, ItemV, Query};
use crate::rng::rand_below;
use crate::search::{Search, SearchV, masked_items, pairs_view, search_wf};
use crate::text::{char_to_string, char_upper, str_eq, upper_of};
use vstd::string::StrSliceExecFns;

verus! {

/// The first character replaced by its uppercase counterpart.
pub open spec fn spec_capitalize(s: Seq<char>) -> Seq<char> {
    if s.len() == 0 {
        s
    } else {
        seq![upper_of(s[0])] + s.drop_first()
    }
}

fn capitalize(s: &str) -> (r: String)
    ensures
        r@ == spec_capitalize(s@),
{
    let n = s.unicode_len();
    if n == 0 {
        s.to_owned()
    } else {
        let first = char_upper(s.get_char(0));
        let rest = s.substring_char(1, n);
        let r = char_to_string(first).concat(rest);
        assert(s@.subrange(1, n as int) =~= s@.drop_first());
        r
    }
}

/// The present and imperfect verb forms that go with a subject pronoun, or
/// nothing for a pronoun outside the conjugation table.
pub open spec fn spec_person_forms(p: Seq<char>, f: VerbFormsV) -> Option<(Seq<char>, Seq<char>)> {
    if p == "je"@ {
        Some((f.forms[0], f.forms[7]))
    } else if p == "tu"@ {
        Some((f.forms[1], f.forms[8]))
    } else if p == "il"@ || p == "elle"@ || p == "on"@ {
        Some((f.forms[2], f.forms[9]))
    } else if p == "nous"@ {
        Some((f.forms[3], f.forms[10]))
    } else if p == "vous"@ {
        Some((f.forms[4], f.forms[11]))
    } else if p == "ils"@ || p == "elles"@ {
        Some((f.forms[5], f.forms[12]))
    } else {
        None
    }
}

pub open spec fn view_opt_item(o: Option<Item>) -> Option<ItemV> {
    match o {
        Some(it) => Some(it@),
        None => None,
    }
}

/// What a generated sentence may look like: the subject is the given or a
/// drawn pronoun-category item, the verb the given or a drawn verb-category
/// item; a personal pronoun opens the sentence capitalized, a verb whose
/// table covers the pronoun follows in its present or imperfect form, the
/// last word carries the full stop, and any other subject yields an empty
/// sentence.
pub open spec fn sentence_matches_with(
    words: SearchV,
    subject_arg: Option<ItemV>,
    verb_arg: Option<ItemV>,
    r: Seq<(Seq<char>, ItemV)>,
    subj: ItemV,
    vrb: ItemV,
) -> bool {
    &&& (match subject_arg {
        Some(s) => subj == s,
        None => masked_items(words.items, 0b100000000u16).contains(subj),
    })
    &&& (match verb_arg {
        Some(v) => vrb == v,
        None => masked_items(words.items, 0b10u16).contains(vrb),
    })
    &&& (match subj.category {
        CategoryV::Pronoun(PronounV::Personal(p, _, _, _)) => {
            let verb_part = match vrb.category {
                CategoryV::Verb(_, f) => spec_person_forms(p, f),
                _ => None,
            };
            match verb_part {
                Some((present, imperfect)) => (r == seq![
                    (spec_capitalize(p), subj),
                    (present + "."@, vrb),
                ] || r == seq![(spec_capitalize(p), subj), (imperfect + "."@, vrb)]),
                None => r == seq![(spec_capitalize(p) + "."@, subj)],
            }
        },
        _ => r.len() == 0,
    })
}

pub open spec fn sentence_matches(
    words: SearchV,
    subject_arg: Option<ItemV>,
    verb_arg: Option<ItemV>,
    r: Seq<(Seq<char>, ItemV)>,
) -> bool {
    exists|subj: ItemV, vrb: ItemV|
        sentence_matches_with(words, subject_arg, verb_arg, r, subj, vrb)
}

/// Assembles an example sentence; when no subject or verb is supplied, one
/// is drawn from the items of the matching category, which must exist.
pub fn generate(words: &Search, subject: Option<Item>, verb: Option<Item>) -> (r: Vec<
    (String, Item),
>)
    requires
        search_wf(words@),
        subject is None ==> masked_items(words@.items, 0b100000000u16).len() > 0,
        verb is None ==> masked_items(words@.items, 0b10u16).len() > 0,
    ensures
        sentence_matches(words@, view_opt_item(subject), view_opt_item(verb), pairs_view(r@)),
{
    let subject_item = match subject {
        Some(s) => s,
        None => words.random_item(
            &Query::new(String::new(), Language::French, 0b100000000, false),
        ),
    };
    let verb_item = match verb {
        Some(v) => v,
        None => words.random_item(&Query::new(String::new(), Language::French, 0b10, false)),
    };
    let ghost subj = subject_item@;
    let ghost vrb = verb_item@;
    let mut sentence: Vec<(String, Item)> = Vec::new();
    match &subject_item.category {
        Category::Pronoun(Pronoun::Personal(pronoun, _, _, _)) => {
            let ghost p = pronoun@;
            let forms_found: Option<(&String, &String)> = match &verb_item.category {
                Category::Verb(_, forms) => {
                    let (je, tu, il, nous, vous, ils, imp_je, imp_tu, imp_il, imp_nous, imp_vous,
                        imp_ils) = match forms {
                        VerbForms::Regular(je, tu, il, nous, vous, ils, _, ij, it2, ii, inn, iv,
                            iis)
                        | VerbForms::Irregular(je, tu, il, nous, vous, ils, _, ij, it2, ii, inn,
                            iv, iis) => (je, tu, il, nous, vous, ils, ij, it2, ii, inn, iv, iis),
                    };
                    if str_eq(pronoun.as_str(), "je") {
                        Some((je, imp_je))
                    } else if str_eq(pronoun.as_str(), "tu") {
                        Some((tu, imp_tu))
                    } else if str_eq(pronoun.as_str(), "il") || str_eq(pronoun.as_str(), "elle")
                        || str_eq(pronoun.as_str(), "on") {
                        Some((il, imp_il))
                    } else if str_eq(pronoun.as_str(), "nous") {
                        Some((nous, imp_nous))
                    } else if str_eq(pronoun.as_str(), "vous") {
                        Some((vous, imp_vous))
                    } else if str_eq(pronoun.as_str(), "ils") || str_eq(pronoun.as_str(), "elles")
                        {
                        Some((ils, imp_ils))
                    } else {
                        None
                    }
                }
                _ => None,
            };
            match forms_found {
                Some((present, imperfect)) => {
                    let chosen = if rand_below(2) == 0 {
                        present.clone()
                    } else {
                        imperfect.clone()
                    };
                    sentence.push((capitalize(pronoun.as_str()), subject_item.clone()));
                    sentence.push((chosen.concat("."), verb_item.clone()));
                    proof {
                        assert(pairs_view(sentence@) =~= seq![
                            (spec_capitalize(p), subj),
                            (chosen@ + "."@, vrb),
                        ]);
                    }
                }
                None => {
                    sentence.push((capitalize(pronoun.as_str()).concat("."), subject_item.clone()));
                    proof {
                        assert(pairs_view(sentence@) =~= seq![(spec_capitalize(p) + "."@, subj)]);
                    }
                }
            }
        }
        _ => {
            proof {
                assert(pairs_view(sentence@) =~= Seq::<(Seq<char>, ItemV)>::empty());
            }
        }
    }
    proof {
        assert(sentence_matches_with(
            words@,
            view_opt_item(subject),
            view_opt_item(verb),
            pairs_view(sentence@),
            subj,
            vrb,
        ));
        assert(sentence_matches(
            words@,
            view_opt_item(subject),
            view_opt_item(verb),
            pairs_view(sentence@),
        ));
    }
    sentence
}

} // verus!
