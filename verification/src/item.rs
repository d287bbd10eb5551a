//! Lexical items: a stable identifier, optional translations, a grammatical
//! category and its precomputed mask bit, together with the per-language
//! candidate strings that the search engine matches against.

use vstd::prelude::*;
use crate::category::{
    Adjective, AdjectiveV, Category, CategoryV, Language, Pronoun, PronounV, VerbForms,
    clone_opt_string, spec_to_u16, view_opt_string,
};

verus! {

/// One dictionary entry or sentence.
#[derive(Debug, PartialEq)]
pub struct Item {
    pub uid: u32,
    pub swedish: Option<String>,
    pub english: Option<String>,
    pub category: Category,
    pub category_int: u16,
}

pub struct ItemV {
    pub uid: u32,
    pub swedish: Option<Seq<char>>,
    pub english: Option<Seq<char>>,
    pub category: CategoryV,
    pub category_int: u16,
}

impl View for Item {
    type V = ItemV;

    open spec fn view(&self) -> ItemV {
        ItemV {
            uid: self.uid,
            swedish: view_opt_string(self.swedish),
            english: view_opt_string(self.english),
            category: self.category@,
            category_int: self.category_int,
        }
    }
}

/// The mask bit stored in an item always is the bit of its category.
pub open spec fn item_wf(i: ItemV) -> bool {
    i.category_int == spec_to_u16(i.category)
}

impl Clone for Item {
    fn clone(&self) -> (r: Self)
        ensures
            r == *self,
    {
        Item {
            uid: self.uid,
            swedish: clone_opt_string(&self.swedish),
            english: clone_opt_string(&self.english),
            category: self.category.clone(),
            category_int: self.category_int,
        }
    }
}

pub open spec fn opt_seq(o: Option<Seq<char>>) -> Seq<Seq<char>> {
    match o {
        Some(s) => seq![s],
        None => Seq::empty(),
    }
}

/// All surface strings of a category usable as fuzzy-match targets in the
/// source language.
pub open spec fn spec_french_candidates(c: CategoryV) -> Seq<Seq<char>> {
    match c {
        CategoryV::Other(s) => seq![s],
        CategoryV::Adjective(adj) => match adj {
            AdjectiveV::Demonstrative(a, b) => seq![a, b],
            AdjectiveV::Negative(a, b) => seq![a, b],
            AdjectiveV::ExclamativeInterrogative(a, b, c, d) => seq![a, b, c, d],
            AdjectiveV::Indefinite(a, b, c, d) => seq![a, b, c, d],
            AdjectiveV::Past(a, b, c, d) => seq![a, b, c, d],
            AdjectiveV::Present(a, b, c, d) => seq![a, b, c, d],
            AdjectiveV::Relative(a, b, c, d) => seq![a, b, c, d],
            AdjectiveV::Possessive(a, b, c) => seq![a, b, c],
        },
        CategoryV::Noun(s, _g, plural) => seq![s, plural],
        CategoryV::Verb(base, f) => if f.regular {
            seq![f.forms[0], f.forms[1], f.forms[3], f.forms[4], f.forms[5], base, f.forms[6],
                f.forms[7], f.forms[8], f.forms[9], f.forms[10], f.forms[11], f.forms[12]]
        } else {
            seq![f.forms[0], f.forms[1], f.forms[2], f.forms[3], f.forms[4], f.forms[5], base,
                f.forms[6], f.forms[7], f.forms[8], f.forms[9], f.forms[10], f.forms[11],
                f.forms[12]]
        },
        CategoryV::Adverb(s) => seq![s],
        CategoryV::Article(male, female, plural, vowel) => match vowel {
            Some(v) => seq![male, female, plural, v],
            None => seq![male, female, plural],
        },
        CategoryV::Conjunction(s) => seq![s],
        CategoryV::Interjection(s) => seq![s],
        CategoryV::Preposition(s) => seq![s],
        CategoryV::Pronoun(p) => match p {
            PronounV::Adverbial(s) => seq![s],
            PronounV::ImpersonalSubject(s) => seq![s],
            PronounV::IndefiniteDemonstrative(s) => seq![s],
            PronounV::IndefiniteRelative(s) => seq![s],
            PronounV::Interrogative(s) => seq![s],
            PronounV::Negative(s) => seq![s],
            PronounV::Demonstrative(a, b, c, d) => seq![a, b, c, d],
            PronounV::Indefinite(male, female) => match female {
                Some(f) => seq![male, f],
                None => seq![male],
            },
            PronounV::Personal(subject, reflexive, stressed, others) => match others {
                Some((direct, indirect)) => seq![subject, direct, indirect, reflexive, stressed],
                None => seq![subject, reflexive, stressed],
            },
            PronounV::Possessive(a, b, c, d) => seq![a, b, c, d],
            PronounV::Relative(s, others) => match others {
                Some((sf, pm, pf)) => seq![s, sf, pm, pf],
                None => seq![s],
            },
        },
        CategoryV::Number(cardinal, cardinal_female, ordinal, ordinal_female, multiplicative,
            approximate, fraction, fraction_female) =>
            seq![cardinal, ordinal] + opt_seq(cardinal_female) + opt_seq(ordinal_female)
                + opt_seq(multiplicative) + opt_seq(approximate) + opt_seq(fraction)
                + opt_seq(fraction_female),
    }
}

/// The candidate strings of an item for a display language: one or more for
/// the source language, exactly zero or one for a translation language.
pub open spec fn spec_candidates(item: ItemV, lang: Language) -> Option<Seq<Seq<char>>> {
    match lang {
        Language::French => Some(spec_french_candidates(item.category)),
        Language::Swedish => match item.swedish {
            Some(s) => Some(seq![s]),
            None => None,
        },
        Language::English => match item.english {
            Some(s) => Some(seq![s]),
            None => None,
        },
    }
}

/// The one primary surface string of an item for a display language.
pub open spec fn spec_primary(item: ItemV, lang: Language) -> Option<Seq<char>> {
    match lang {
        Language::French => Some(
            match item.category {
                CategoryV::Adjective(adj) => match adj {
                    AdjectiveV::Demonstrative(a, _) => a,
                    AdjectiveV::Negative(a, _) => a,
                    AdjectiveV::ExclamativeInterrogative(a, _, _, _) => a,
                    AdjectiveV::Indefinite(a, _, _, _) => a,
                    AdjectiveV::Past(a, _, _, _) => a,
                    AdjectiveV::Present(a, _, _, _) => a,
                    AdjectiveV::Relative(a, _, _, _) => a,
                    AdjectiveV::Possessive(a, _, _) => a,
                },
                CategoryV::Number(s, ..) => s,
                CategoryV::Other(s) => s,
                CategoryV::Noun(s, _, _) => s,
                CategoryV::Verb(s, _) => s,
                CategoryV::Adverb(s) => s,
                CategoryV::Conjunction(s) => s,
                CategoryV::Interjection(s) => s,
                CategoryV::Preposition(s) => s,
                CategoryV::Article(s, ..) => s,
                CategoryV::Pronoun(p) => match p {
                    PronounV::Adverbial(s) => s,
                    PronounV::ImpersonalSubject(s) => s,
                    PronounV::IndefiniteDemonstrative(s) => s,
                    PronounV::IndefiniteRelative(s) => s,
                    PronounV::Interrogative(s) => s,
                    PronounV::Negative(s) => s,
                    PronounV::Demonstrative(s, ..) => s,
                    PronounV::Indefinite(s, _) => s,
                    PronounV::Personal(s, ..) => s,
                    PronounV::Possessive(s, ..) => s,
                    PronounV::Relative(s, _) => s,
                },
            },
        ),
        Language::Swedish => item.swedish,
        Language::English => item.english,
    }
}

pub open spec fn view_opt_vec_string(o: Option<Vec<String>>) -> Option<Seq<Seq<char>>> {
    match o {
        Some(v) => Some(v.deep_view()),
        None => None,
    }
}

impl Item {
    /// A fresh item; its identifier is assigned by the lexicon that adopts it.
    pub fn new(swedish: Option<String>, english: Option<String>, category: Category) -> (r: Self)
        ensures
            r@.uid == 0,
            r@.swedish == view_opt_string(swedish),
            r@.english == view_opt_string(english),
            r@.category == category@,
            item_wf(r@),
    {
        let category_int = category.to_u16();
        Item { uid: 0, swedish, english, category, category_int }
    }

    /// The candidate strings of this item for a display language.
    pub fn language_strings(&self, language: &Language) -> (r: Option<Vec<String>>)
        ensures
            view_opt_vec_string(r) == spec_candidates(self@, *language),
    {
        match language {
            Language::French => {
                let mut strings: Vec<String> = Vec::new();
                match &self.category {
                    Category::Other(s) => {
                        strings.push(s.clone());
                    }
                    Category::Adjective(adjective) => match adjective {
                        Adjective::Demonstrative(a, b) | Adjective::Negative(a, b) => {
                            strings.push(a.clone());
                            strings.push(b.clone());
                        }
                        Adjective::ExclamativeInterrogative(a, b, c, d)
                        | Adjective::Indefinite(a, b, c, d)
                        | Adjective::Past(a, b, c, d)
                        | Adjective::Present(a, b, c, d)
                        | Adjective::Relative(a, b, c, d) => {
                            strings.push(a.clone());
                            strings.push(b.clone());
                            strings.push(c.clone());
                            strings.push(d.clone());
                        }
                        Adjective::Possessive(a, b, c) => {
                            strings.push(a.clone());
                            strings.push(b.clone());
                            strings.push(c.clone());
                        }
                    },
                    Category::Noun(s, _, plural) => {
                        strings.push(s.clone());
                        strings.push(plural.clone());
                    }
                    Category::Verb(base, form) => match form {
                        VerbForms::Regular(je, tu, _il, nous, vous, ils, pc, ij, it2, ii, inn,
                            iv, iis) => {
                            strings.push(je.clone());
                            strings.push(tu.clone());
                            strings.push(nous.clone());
                            strings.push(vous.clone());
                            strings.push(ils.clone());
                            strings.push(base.clone());
                            strings.push(pc.clone());
                            strings.push(ij.clone());
                            strings.push(it2.clone());
                            strings.push(ii.clone());
                            strings.push(inn.clone());
                            strings.push(iv.clone());
                            strings.push(iis.clone());
                        }
                        VerbForms::Irregular(je, tu, il, nous, vous, ils, pc, ij, it2, ii, inn,
                            iv, iis) => {
                            strings.push(je.clone());
                            strings.push(tu.clone());
                            strings.push(il.clone());
                            strings.push(nous.clone());
                            strings.push(vous.clone());
                            strings.push(ils.clone());
                            strings.push(base.clone());
                            strings.push(pc.clone());
                            strings.push(ij.clone());
                            strings.push(it2.clone());
                            strings.push(ii.clone());
                            strings.push(inn.clone());
                            strings.push(iv.clone());
                            strings.push(iis.clone());
                        }
                    },
                    Category::Adverb(s) => {
                        strings.push(s.clone());
                    }
                    Category::Article(male, female, plural, vowel) => {
                        strings.push(male.clone());
                        strings.push(female.clone());
                        strings.push(plural.clone());
                        match vowel {
                            Some(v) => {
                                strings.push(v.clone());
                            }
                            None => {}
                        }
                    }
                    Category::Conjunction(s) => {
                        strings.push(s.clone());
                    }
                    Category::Interjection(s) => {
                        strings.push(s.clone());
                    }
                    Category::Preposition(s) => {
                        strings.push(s.clone());
                    }
                    Category::Pronoun(pronoun) => match pronoun {
                        Pronoun::Adverbial(s)
                        | Pronoun::ImpersonalSubject(s)
                        | Pronoun::IndefiniteDemonstrative(s)
                        | Pronoun::IndefiniteRelative(s)
                        | Pronoun::Interrogative(s)
                        | Pronoun::Negative(s) => {
                            strings.push(s.clone());
                        }
                        Pronoun::Demonstrative(a, b, c, d) => {
                            strings.push(a.clone());
                            strings.push(b.clone());
                            strings.push(c.clone());
                            strings.push(d.clone());
                        }
                        Pronoun::Indefinite(male, female) => {
                            strings.push(male.clone());
                            match female {
                                Some(f) => {
                                    strings.push(f.clone());
                                }
                                None => {}
                            }
                        }
                        Pronoun::Personal(subject, reflexive, stressed, others) => {
                            match others {
                                Some((direct, indirect)) => {
                                    strings.push(subject.clone());
                                    strings.push(direct.clone());
                                    strings.push(indirect.clone());
                                    strings.push(reflexive.clone());
                                    strings.push(stressed.clone());
                                }
                                None => {
                                    strings.push(subject.clone());
                                    strings.push(reflexive.clone());
                                    strings.push(stressed.clone());
                                }
                            }
                        }
                        Pronoun::Possessive(a, b, c, d) => {
                            strings.push(a.clone());
                            strings.push(b.clone());
                            strings.push(c.clone());
                            strings.push(d.clone());
                        }
                        Pronoun::Relative(s, others) => {
                            strings.push(s.clone());
                            match others {
                                Some((sf, pm, pf)) => {
                                    strings.push(sf.clone());
                                    strings.push(pm.clone());
                                    strings.push(pf.clone());
                                }
                                None => {}
                            }
                        }
                    },
                    Category::Number(cardinal, cardinal_female, ordinal, ordinal_female,
                        multiplicative, approximate, fraction, fraction_female) => {
                        strings.push(cardinal.clone());
                        strings.push(ordinal.clone());
                        match cardinal_female {
                            Some(s) => {
                                strings.push(s.clone());
                            }
                            None => {}
                        }
                        match ordinal_female {
                            Some(s) => {
                                strings.push(s.clone());
                            }
                            None => {}
                        }
                        match multiplicative {
                            Some(s) => {
                                strings.push(s.clone());
                            }
                            None => {}
                        }
                        match approximate {
                            Some(s) => {
                                strings.push(s.clone());
                            }
                            None => {}
                        }
                        match fraction {
                            Some(s) => {
                                strings.push(s.clone());
                            }
                            None => {}
                        }
                        match fraction_female {
                            Some(s) => {
                                strings.push(s.clone());
                            }
                            None => {}
                        }
                    }
                }
                assert(strings.deep_view() =~= spec_french_candidates(self@.category));
                Some(strings)
            }
            Language::Swedish => match &self.swedish {
                None => None,
                Some(s) => {
                    let mut strings: Vec<String> = Vec::new();
                    strings.push(s.clone());
                    assert(strings.deep_view() =~= seq![s@]);
                    Some(strings)
                }
            },
            Language::English => match &self.english {
                None => None,
                Some(s) => {
                    let mut strings: Vec<String> = Vec::new();
                    strings.push(s.clone());
                    assert(strings.deep_view() =~= seq![s@]);
                    Some(strings)
                }
            },
        }
    }

    /// The detailed description of this item, for display as a tooltip.
    pub fn tooltip(&self) -> (r: String)
        ensures
            r@ == crate::category::spec_display_detailed(
                self@.category,
                self@.english,
                self@.swedish,
            ),
    {
        self.category.display_detailed(&self.english, &self.swedish)
    }

    /// The primary surface string of this item for a display language.
    pub fn language_string(&self, language: &Language) -> (r: Option<&String>)
        ensures
            match r {
                Some(s) => spec_primary(self@, *language) == Some(s@),
                None => spec_primary(self@, *language) is None,
            },
    {
        match language {
            Language::French => match &self.category {
                Category::Adjective(adjective) => match adjective {
                    Adjective::Demonstrative(a, _)
                    | Adjective::Negative(a, _)
                    | Adjective::ExclamativeInterrogative(a, ..)
                    | Adjective::Indefinite(a, ..)
                    | Adjective::Past(a, ..)
                    | Adjective::Present(a, ..)
                    | Adjective::Relative(a, ..)
                    | Adjective::Possessive(a, ..) => Some(a),
                },
                Category::Number(s, ..)
                | Category::Other(s)
                | Category::Noun(s, _, _)
                | Category::Verb(s, _)
                | Category::Adverb(s)
                | Category::Conjunction(s)
                | Category::Interjection(s)
                | Category::Preposition(s)
                | Category::Article(s, ..) => Some(s),
                Category::Pronoun(pronoun) => match pronoun {
                    Pronoun::Adverbial(s)
                    | Pronoun::ImpersonalSubject(s)
                    | Pronoun::IndefiniteDemonstrative(s)
                    | Pronoun::IndefiniteRelative(s)
                    | Pronoun::Interrogative(s)
                    | Pronoun::Negative(s)
                    | Pronoun::Demonstrative(s, ..)
                    | Pronoun::Indefinite(s, _)
                    | Pronoun::Personal(s, ..)
                    | Pronoun::Possessive(s, ..)
                    | Pronoun::Relative(s, _) => Some(s),
                },
            },
            Language::Swedish => match &self.swedish {
                None => None,
                Some(s) => Some(s),
            },
            Language::English => match &self.english {
                None => None,
                Some(s) => Some(s),
            },
        }
    }
}

/// A search request: the typed-in string, the display language to match in,
/// the category mask, and whether only candidates of the query's exact length
/// qualify.
#[derive(Debug, PartialEq)]
pub struct Query {
    pub string: String,
    pub language: Language,
    pub search_categories_int: u16,
    pub match_length: bool,
}

pub struct QueryV {
    pub string: Seq<char>,
    pub language: Language,
    pub search_categories_int: u16,
    pub match_length: bool,
}

impl View for Query {
    type V = QueryV;

    open spec fn view(&self) -> QueryV {
        QueryV {
            string: self.string@,
            language: self.language,
            search_categories_int: self.search_categories_int,
            match_length: self.match_length,
        }
    }
}

/// The query a request constructs: an empty category mask is reinterpreted as
/// "match everything", so a filter with nothing ticked is never vacuous.
pub open spec fn spec_new_query(
    string: Seq<char>,
    language: Language,
    search_categories_int: u16,
    match_length: bool,
) -> QueryV {
    QueryV {
        string,
        language,
        search_categories_int: if search_categories_int == 0 {
            0xFFFFu16
        } else {
            search_categories_int
        },
        match_length,
    }
}

impl Clone for Query {
    fn clone(&self) -> (r: Self)
        ensures
            r == *self,
    {
        Query {
            string: self.string.clone(),
            language: self.language,
            search_categories_int: self.search_categories_int,
            match_length: self.match_length,
        }
    }
}

impl Query {
    pub fn new(
        string: String,
        language: Language,
        search_categories_int: u16,
        match_length: bool,
    ) -> (r: Self)
        ensures
            r@ == spec_new_query(string@, language, search_categories_int, match_length),
    {
        Query {
            string,
            language,
            search_categories_int: if search_categories_int == 0 {
                0xFFFF
            } else {
                search_categories_int
            },
            match_length,
        }
    }
}

/// An empty category mask selects exactly what the full mask selects: the
/// query built from mask zero is the query built from all bits set.
pub proof fn lemma_zero_mask_behaves_as_full(
    string: Seq<char>,
    language: Language,
    match_length: bool,
)
    ensures
        spec_new_query(string, language, 0u16, match_length) == spec_new_query(
            string,
            language,
            0xFFFFu16,
            match_length,
        ),
{
}

} // verus!
