//! The grammatical data model: a closed union of parts of speech, each
//! variant carrying its required surface forms, together with the category
//! bit mask and the regular-verb conjugation rules.

use vstd::prelude::*;
use vstd::string::StringExecFns;
use crate::text::{spec_ends_with, str_ends_with, str_prefix};
use vstd::string::StrSliceExecFns;

verus! {

#[derive(Clone, Copy, Debug, PartialEq, Eq, Structural)]
pub enum Gender {
    Female,
    Male,
}

#[derive(Clone, Copy, Debug, PartialEq, Eq, Structural)]
pub enum Language {
    French,
    Swedish,
    English,
}

impl Language {
    pub fn to_str(&self) -> (r: &'static str)
        ensures
            *self == Language::French ==> r@ == "french"@,
            *self == Language::Swedish ==> r@ == "swedish"@,
            *self == Language::English ==> r@ == "english"@,
    {
        match self {
            Language::French => "french",
            Language::Swedish => "swedish",
            Language::English => "english",
        }
    }
}

/// The thirteen principal forms of a verb: the six present-tense persons,
/// the past participle, and the six imperfect persons.
#[derive(Debug, PartialEq)]
pub enum VerbForms {
    Regular(
        String, String, String, String, String, String, String,
        String, String, String, String, String, String,
    ),
    Irregular(
        String, String, String, String, String, String, String,
        String, String, String, String, String, String,
    ),
}

/// Spec-level mirror of `VerbForms`: whether the verb is regular, and its
/// thirteen forms in order.
pub struct VerbFormsV {
    pub regular: bool,
    pub forms: Seq<Seq<char>>,
}

impl View for VerbForms {
    type V = VerbFormsV;

    open spec fn view(&self) -> VerbFormsV {
        match self {
            VerbForms::Regular(a, b, c, d, e, f, g, h, i, j, k, l, m) => VerbFormsV {
                regular: true,
                forms: seq![a@, b@, c@, d@, e@, f@, g@, h@, i@, j@, k@, l@, m@],
            },
            VerbForms::Irregular(a, b, c, d, e, f, g, h, i, j, k, l, m) => VerbFormsV {
                regular: false,
                forms: seq![a@, b@, c@, d@, e@, f@, g@, h@, i@, j@, k@, l@, m@],
            },
        }
    }
}

#[derive(Clone, Copy, Debug, PartialEq, Eq, Structural)]
pub enum RegularVerbType {
    Er,
    Re,
    Ir,
}

/// The stem and conjugation class that the regular-verb rules read off a
/// typed-in form.
pub open spec fn spec_regular_split(s: Seq<char>) -> (Seq<char>, RegularVerbType) {
    if spec_ends_with(s, "issons"@) || spec_ends_with(s, "issent"@) {
        (s.take(s.len() - 6), RegularVerbType::Ir)
    } else if spec_ends_with(s, "issez"@) {
        (s.take(s.len() - 5), RegularVerbType::Ir)
    } else if spec_ends_with(s, "ons"@) || spec_ends_with(s, "ent"@) {
        (s.take(s.len() - 3), RegularVerbType::Er)
    } else if spec_ends_with(s, "es"@) || spec_ends_with(s, "ez"@) || spec_ends_with(s, "er"@) {
        (s.take(s.len() - 2), RegularVerbType::Er)
    } else if spec_ends_with(s, "is"@) || spec_ends_with(s, "it"@) || spec_ends_with(s, "ir"@) {
        (s.take(s.len() - 2), RegularVerbType::Ir)
    } else if spec_ends_with(s, "re"@) {
        (s.take(s.len() - 2), RegularVerbType::Re)
    } else if spec_ends_with(s, "e"@) {
        (s.take(s.len() - 1), RegularVerbType::Er)
    } else if spec_ends_with(s, "s"@) {
        (s.take(s.len() - 1), RegularVerbType::Ir)
    } else {
        (s, RegularVerbType::Re)
    }
}

/// The thirteen regular forms generated from one typed-in form.
pub open spec fn spec_conjugation(s: Seq<char>) -> Seq<Seq<char>> {
    let base = spec_regular_split(s).0;
    match spec_regular_split(s).1 {
        RegularVerbType::Er => seq![
            base + "e"@, base + "es"@, base + "e"@, base + "ons"@, base + "ez"@, base + "ent"@,
            base + "é"@,
            base + "ais"@, base + "ais"@, base + "ait"@, base + "ions"@, base + "iez"@,
            base + "aient"@,
        ],
        RegularVerbType::Ir => seq![
            base + "is"@, base + "is"@, base + "it"@, base + "issons"@, base + "issez"@,
            base + "issent"@, base + "i"@,
            base + "issais"@, base + "issais"@, base + "issait"@, base + "issions"@,
            base + "issiez"@, base + "issaient"@,
        ],
        RegularVerbType::Re => seq![
            base + "s"@, base + "s"@, base, base + "ons"@, base + "ez"@, base + "ent"@,
            base + "u"@,
            base + "ais"@, base + "ais"@, base + "ait"@, base + "ions"@, base + "iez"@,
            base + "aient"@,
        ],
    }
}

impl VerbForms {
    /// Generates the thirteen regular forms from one typed-in form, by
    /// stripping a recognised ending and re-attaching the endings of the
    /// deduced conjugation class.
    pub fn gen_from_regular(string: &str) -> (r: (
        String, String, String, String, String, String, String,
        String, String, String, String, String, String,
    ))
        ensures
            seq![r.0@, r.1@, r.2@, r.3@, r.4@, r.5@, r.6@, r.7@, r.8@, r.9@, r.10@, r.11@, r.12@]
                =~~= spec_conjugation(string@),
    {
        proof {
            reveal_strlit("issons");
            reveal_strlit("issent");
            reveal_strlit("issez");
            reveal_strlit("ons");
            reveal_strlit("ent");
            reveal_strlit("es");
            reveal_strlit("ez");
            reveal_strlit("er");
            reveal_strlit("is");
            reveal_strlit("it");
            reveal_strlit("ir");
            reveal_strlit("re");
            reveal_strlit("e");
            reveal_strlit("s");
        }
        let len = string.unicode_len();
        let (base, verb_type): (String, RegularVerbType) =
            if str_ends_with(string, "issons") || str_ends_with(string, "issent") {
                (str_prefix(string, len - 6), RegularVerbType::Ir)
            } else if str_ends_with(string, "issez") {
                (str_prefix(string, len - 5), RegularVerbType::Ir)
            } else if str_ends_with(string, "ons") || str_ends_with(string, "ent") {
                (str_prefix(string, len - 3), RegularVerbType::Er)
            } else if str_ends_with(string, "es") || str_ends_with(string, "ez")
                || str_ends_with(string, "er") {
                (str_prefix(string, len - 2), RegularVerbType::Er)
            } else if str_ends_with(string, "is") || str_ends_with(string, "it")
                || str_ends_with(string, "ir") {
                (str_prefix(string, len - 2), RegularVerbType::Ir)
            } else if str_ends_with(string, "re") {
                (str_prefix(string, len - 2), RegularVerbType::Re)
            } else if str_ends_with(string, "e") {
                (str_prefix(string, len - 1), RegularVerbType::Er)
            } else if str_ends_with(string, "s") {
                (str_prefix(string, len - 1), RegularVerbType::Ir)
            } else {
                (string.to_owned(), RegularVerbType::Re)
            };
        match verb_type {
            RegularVerbType::Er => (
                base.clone().concat("e"),
                base.clone().concat("es"),
                base.clone().concat("e"),
                base.clone().concat("ons"),
                base.clone().concat("ez"),
                base.clone().concat("ent"),
                base.clone().concat("é"),
                base.clone().concat("ais"),
                base.clone().concat("ais"),
                base.clone().concat("ait"),
                base.clone().concat("ions"),
                base.clone().concat("iez"),
                base.concat("aient"),
            ),
            RegularVerbType::Ir => (
                base.clone().concat("is"),
                base.clone().concat("is"),
                base.clone().concat("it"),
                base.clone().concat("issons"),
                base.clone().concat("issez"),
                base.clone().concat("issent"),
                base.clone().concat("i"),
                base.clone().concat("issais"),
                base.clone().concat("issais"),
                base.clone().concat("issait"),
                base.clone().concat("issions"),
                base.clone().concat("issiez"),
                base.concat("issaient"),
            ),
            RegularVerbType::Re => (
                base.clone().concat("s"),
                base.clone().concat("s"),
                base.clone(),
                base.clone().concat("ons"),
                base.clone().concat("ez"),
                base.clone().concat("ent"),
                base.clone().concat("u"),
                base.clone().concat("ais"),
                base.clone().concat("ais"),
                base.clone().concat("ait"),
                base.clone().concat("ions"),
                base.clone().concat("iez"),
                base.concat("aient"),
            ),
        }
    }
}

#[derive(Debug, PartialEq)]
pub enum Pronoun {
    Personal(String, String, String, Option<(String, String)>),
    Adverbial(String),
    Demonstrative(String, String, String, String),
    ImpersonalSubject(String),
    IndefiniteDemonstrative(String),
    Indefinite(String, Option<String>),
    Interrogative(String),
    Negative(String),
    Possessive(String, String, String, String),
    Relative(String, Option<(String, String, String)>),
    IndefiniteRelative(String),
}

pub enum PronounV {
    Personal(Seq<char>, Seq<char>, Seq<char>, Option<(Seq<char>, Seq<char>)>),
    Adverbial(Seq<char>),
    Demonstrative(Seq<char>, Seq<char>, Seq<char>, Seq<char>),
    ImpersonalSubject(Seq<char>),
    IndefiniteDemonstrative(Seq<char>),
    Indefinite(Seq<char>, Option<Seq<char>>),
    Interrogative(Seq<char>),
    Negative(Seq<char>),
    Possessive(Seq<char>, Seq<char>, Seq<char>, Seq<char>),
    Relative(Seq<char>, Option<(Seq<char>, Seq<char>, Seq<char>)>),
    IndefiniteRelative(Seq<char>),
}

impl View for Pronoun {
    type V = PronounV;

    open spec fn view(&self) -> PronounV {
        match self {
            Pronoun::Personal(a, b, c, rest) => PronounV::Personal(
                a@,
                b@,
                c@,
                match rest {
                    Some((x, y)) => Some((x@, y@)),
                    None => None,
                },
            ),
            Pronoun::Adverbial(a) => PronounV::Adverbial(a@),
            Pronoun::Demonstrative(a, b, c, d) => PronounV::Demonstrative(a@, b@, c@, d@),
            Pronoun::ImpersonalSubject(a) => PronounV::ImpersonalSubject(a@),
            Pronoun::IndefiniteDemonstrative(a) => PronounV::IndefiniteDemonstrative(a@),
            Pronoun::Indefinite(a, rest) => PronounV::Indefinite(
                a@,
                match rest {
                    Some(x) => Some(x@),
                    None => None,
                },
            ),
            Pronoun::Interrogative(a) => PronounV::Interrogative(a@),
            Pronoun::Negative(a) => PronounV::Negative(a@),
            Pronoun::Possessive(a, b, c, d) => PronounV::Possessive(a@, b@, c@, d@),
            Pronoun::Relative(a, rest) => PronounV::Relative(
                a@,
                match rest {
                    Some((x, y, z)) => Some((x@, y@, z@)),
                    None => None,
                },
            ),
            Pronoun::IndefiniteRelative(a) => PronounV::IndefiniteRelative(a@),
        }
    }
}

#[derive(Debug, PartialEq)]
pub enum Adjective {
    Demonstrative(String, String),
    ExclamativeInterrogative(String, String, String, String),
    Indefinite(String, String, String, String),
    Negative(String, String),
    Possessive(String, String, String),
    Relative(String, String, String, String),
    Past(String, String, String, String),
    Present(String, String, String, String),
}

pub enum AdjectiveV {
    Demonstrative(Seq<char>, Seq<char>),
    ExclamativeInterrogative(Seq<char>, Seq<char>, Seq<char>, Seq<char>),
    Indefinite(Seq<char>, Seq<char>, Seq<char>, Seq<char>),
    Negative(Seq<char>, Seq<char>),
    Possessive(Seq<char>, Seq<char>, Seq<char>),
    Relative(Seq<char>, Seq<char>, Seq<char>, Seq<char>),
    Past(Seq<char>, Seq<char>, Seq<char>, Seq<char>),
    Present(Seq<char>, Seq<char>, Seq<char>, Seq<char>),
}

impl View for Adjective {
    type V = AdjectiveV;

    open spec fn view(&self) -> AdjectiveV {
        match self {
            Adjective::Demonstrative(a, b) => AdjectiveV::Demonstrative(a@, b@),
            Adjective::ExclamativeInterrogative(a, b, c, d) =>
                AdjectiveV::ExclamativeInterrogative(a@, b@, c@, d@),
            Adjective::Indefinite(a, b, c, d) => AdjectiveV::Indefinite(a@, b@, c@, d@),
            Adjective::Negative(a, b) => AdjectiveV::Negative(a@, b@),
            Adjective::Possessive(a, b, c) => AdjectiveV::Possessive(a@, b@, c@),
            Adjective::Relative(a, b, c, d) => AdjectiveV::Relative(a@, b@, c@, d@),
            Adjective::Past(a, b, c, d) => AdjectiveV::Past(a@, b@, c@, d@),
            Adjective::Present(a, b, c, d) => AdjectiveV::Present(a@, b@, c@, d@),
        }
    }
}

#[derive(Debug, PartialEq)]
pub enum Category {
    Noun(String, Gender, String),
    Verb(String, VerbForms),
    Adjective(Adjective),
    Article(String, String, String, Option<String>),
    Conjunction(String),
    Pronoun(Pronoun),
    Preposition(String),
    Adverb(String),
    Interjection(String),
    Number(
        String, Option<String>, String, Option<String>, Option<String>, Option<String>,
        Option<String>, Option<String>,
    ),
    Other(String),
}

pub enum CategoryV {
    Noun(Seq<char>, Gender, Seq<char>),
    Verb(Seq<char>, VerbFormsV),
    Adjective(AdjectiveV),
    Article(Seq<char>, Seq<char>, Seq<char>, Option<Seq<char>>),
    Conjunction(Seq<char>),
    Pronoun(PronounV),
    Preposition(Seq<char>),
    Adverb(Seq<char>),
    Interjection(Seq<char>),
    Number(
        Seq<char>, Option<Seq<char>>, Seq<char>, Option<Seq<char>>, Option<Seq<char>>,
        Option<Seq<char>>, Option<Seq<char>>, Option<Seq<char>>,
    ),
    Other(Seq<char>),
}

pub open spec fn view_opt_string(o: Option<String>) -> Option<Seq<char>> {
    match o {
        Some(s) => Some(s@),
        None => None,
    }
}

impl View for Category {
    type V = CategoryV;

    open spec fn view(&self) -> CategoryV {
        match self {
            Category::Noun(a, g, b) => CategoryV::Noun(a@, *g, b@),
            Category::Verb(a, f) => CategoryV::Verb(a@, f@),
            Category::Adjective(a) => CategoryV::Adjective(a@),
            Category::Article(a, b, c, d) => CategoryV::Article(a@, b@, c@, view_opt_string(*d)),
            Category::Conjunction(a) => CategoryV::Conjunction(a@),
            Category::Pronoun(p) => CategoryV::Pronoun(p@),
            Category::Preposition(a) => CategoryV::Preposition(a@),
            Category::Adverb(a) => CategoryV::Adverb(a@),
            Category::Interjection(a) => CategoryV::Interjection(a@),
            Category::Number(a, b, c, d, e, f, g, h) => CategoryV::Number(
                a@,
                view_opt_string(*b),
                c@,
                view_opt_string(*d),
                view_opt_string(*e),
                view_opt_string(*f),
                view_opt_string(*g),
                view_opt_string(*h),
            ),
            Category::Other(a) => CategoryV::Other(a@),
        }
    }
}

/// The bit that each grammatical class owns in the sixteen-bit category mask.
pub open spec fn spec_to_u16(c: CategoryV) -> u16 {
    match c {
        CategoryV::Noun(..) => 0b1u16,
        CategoryV::Verb(..) => 0b10u16,
        CategoryV::Adjective(..) => 0b100u16,
        CategoryV::Adverb(..) => 0b1000u16,
        CategoryV::Article(..) => 0b10000u16,
        CategoryV::Conjunction(..) => 0b100000u16,
        CategoryV::Interjection(..) => 0b1000000u16,
        CategoryV::Preposition(..) => 0b10000000u16,
        CategoryV::Pronoun(..) => 0b100000000u16,
        CategoryV::Number(..) => 0b1000000000u16,
        CategoryV::Other(..) => 0b10000000000u16,
    }
}

pub(crate) fn clone_opt_string(o: &Option<String>) -> (r: Option<String>)
    ensures
        r == *o,
{
    match o {
        Some(s) => Some(s.clone()),
        None => None,
    }
}

impl Clone for VerbForms {
    fn clone(&self) -> (r: Self)
        ensures
            r == *self,
    {
        match self {
            VerbForms::Regular(a, b, c, d, e, f, g, h, i, j, k, l, m) => VerbForms::Regular(
                a.clone(), b.clone(), c.clone(), d.clone(), e.clone(), f.clone(), g.clone(),
                h.clone(), i.clone(), j.clone(), k.clone(), l.clone(), m.clone(),
            ),
            VerbForms::Irregular(a, b, c, d, e, f, g, h, i, j, k, l, m) => VerbForms::Irregular(
                a.clone(), b.clone(), c.clone(), d.clone(), e.clone(), f.clone(), g.clone(),
                h.clone(), i.clone(), j.clone(), k.clone(), l.clone(), m.clone(),
            ),
        }
    }
}

impl Clone for Pronoun {
    fn clone(&self) -> (r: Self)
        ensures
            r == *self,
    {
        match self {
            Pronoun::Personal(a, b, c, rest) => Pronoun::Personal(
                a.clone(),
                b.clone(),
                c.clone(),
                match rest {
                    Some((x, y)) => Some((x.clone(), y.clone())),
                    None => None,
                },
            ),
            Pronoun::Adverbial(a) => Pronoun::Adverbial(a.clone()),
            Pronoun::Demonstrative(a, b, c, d) => Pronoun::Demonstrative(
                a.clone(), b.clone(), c.clone(), d.clone(),
            ),
            Pronoun::ImpersonalSubject(a) => Pronoun::ImpersonalSubject(a.clone()),
            Pronoun::IndefiniteDemonstrative(a) => Pronoun::IndefiniteDemonstrative(a.clone()),
            Pronoun::Indefinite(a, rest) => Pronoun::Indefinite(a.clone(), clone_opt_string(rest)),
            Pronoun::Interrogative(a) => Pronoun::Interrogative(a.clone()),
            Pronoun::Negative(a) => Pronoun::Negative(a.clone()),
            Pronoun::Possessive(a, b, c, d) => Pronoun::Possessive(
                a.clone(), b.clone(), c.clone(), d.clone(),
            ),
            Pronoun::Relative(a, rest) => Pronoun::Relative(
                a.clone(),
                match rest {
                    Some((x, y, z)) => Some((x.clone(), y.clone(), z.clone())),
                    None => None,
                },
            ),
            Pronoun::IndefiniteRelative(a) => Pronoun::IndefiniteRelative(a.clone()),
        }
    }
}

impl Clone for Adjective {
    fn clone(&self) -> (r: Self)
        ensures
            r == *self,
    {
        match self {
            Adjective::Demonstrative(a, b) => Adjective::Demonstrative(a.clone(), b.clone()),
            Adjective::ExclamativeInterrogative(a, b, c, d) => Adjective::ExclamativeInterrogative(
                a.clone(), b.clone(), c.clone(), d.clone(),
            ),
            Adjective::Indefinite(a, b, c, d) => Adjective::Indefinite(
                a.clone(), b.clone(), c.clone(), d.clone(),
            ),
            Adjective::Negative(a, b) => Adjective::Negative(a.clone(), b.clone()),
            Adjective::Possessive(a, b, c) => Adjective::Possessive(
                a.clone(), b.clone(), c.clone(),
            ),
            Adjective::Relative(a, b, c, d) => Adjective::Relative(
                a.clone(), b.clone(), c.clone(), d.clone(),
            ),
            Adjective::Past(a, b, c, d) => Adjective::Past(
                a.clone(), b.clone(), c.clone(), d.clone(),
            ),
            Adjective::Present(a, b, c, d) => Adjective::Present(
                a.clone(), b.clone(), c.clone(), d.clone(),
            ),
        }
    }
}

impl Clone for Category {
    fn clone(&self) -> (r: Self)
        ensures
            r == *self,
    {
        match self {
            Category::Noun(a, g, b) => Category::Noun(a.clone(), *g, b.clone()),
            Category::Verb(a, f) => Category::Verb(a.clone(), f.clone()),
            Category::Adjective(a) => Category::Adjective(a.clone()),
            Category::Article(a, b, c, d) => Category::Article(
                a.clone(), b.clone(), c.clone(), clone_opt_string(d),
            ),
            Category::Conjunction(a) => Category::Conjunction(a.clone()),
            Category::Pronoun(p) => Category::Pronoun(p.clone()),
            Category::Preposition(a) => Category::Preposition(a.clone()),
            Category::Adverb(a) => Category::Adverb(a.clone()),
            Category::Interjection(a) => Category::Interjection(a.clone()),
            Category::Number(a, b, c, d, e, f, g, h) => Category::Number(
                a.clone(),
                clone_opt_string(b),
                c.clone(),
                clone_opt_string(d),
                clone_opt_string(e),
                clone_opt_string(f),
                clone_opt_string(g),
                clone_opt_string(h),
            ),
            Category::Other(a) => Category::Other(a.clone()),
        }
    }
}

pub open spec fn spec_unknown_or(o: Option<Seq<char>>) -> Seq<char> {
    match o {
        Some(v) => v,
        None => "unknown"@,
    }
}

fn unknown_or<'a>(o: &'a Option<String>) -> (r: &'a str)
    ensures
        r@ == spec_unknown_or(view_opt_string(*o)),
{
    match o {
        Some(v) => v.as_str(),
        None => "unknown",
    }
}

/// "/"-prefixed when present, empty when absent.
pub open spec fn spec_opt_slash(o: Option<Seq<char>>) -> Seq<char> {
    match o {
        Some(v) => "/"@ + v,
        None => Seq::empty(),
    }
}

/// The detailed description of a category shown as a tooltip: the surface
/// forms joined by slashes, the translations in parentheses, and the name
/// of the grammatical class.
pub open spec fn spec_display_detailed(
    c: CategoryV,
    english: Option<Seq<char>>,
    swedish: Option<Seq<char>>,
) -> Seq<char> {
    let sw = spec_unknown_or(swedish);
    let en = spec_unknown_or(english);
    match c {
        CategoryV::Other(s) => s + " ("@ + sw + ", "@ + en + ")"@,
        CategoryV::Noun(s, g, plural) => if g is Male {
            s + "/"@ + plural + " ("@ + sw + ", "@ + en + "), masculine noun"@
        } else {
            s + "/"@ + plural + " ("@ + sw + ", "@ + en + "), feminine noun"@
        },
        CategoryV::Verb(name, f) => if f.regular {
            name + " ("@ + sw + ", "@ + en + "), regular verb"@
        } else {
            name + " ("@ + sw + ", "@ + en + "), irregular verb"@
        },
        CategoryV::Adjective(adj) => spec_display_adjective(adj, sw, en),
        CategoryV::Adverb(s) => s + " ("@ + sw + ", "@ + en + "), adverb"@,
        CategoryV::Article(male, female, plural, vowel) => match vowel {
            Some(v) => male + "/"@ + female + "/"@ + plural + "/"@ + v + " ("@ + sw + ", "@ + en
                + "), article"@,
            None => male + "/"@ + female + "/"@ + plural + " ("@ + sw + ", "@ + en
                + "), article"@,
        },
        CategoryV::Conjunction(s) => s + " ("@ + sw + ", "@ + en + "), conjunction"@,
        CategoryV::Interjection(s) => s + " ("@ + sw + ", "@ + en + "), interjection"@,
        CategoryV::Preposition(s) => s + " ("@ + sw + ", "@ + en + "), preposition"@,
        CategoryV::Pronoun(p) => spec_display_pronoun(p, sw, en),
        CategoryV::Number(cardinal, cardinal_female, ordinal, ordinal_female, multiplicative,
            approximate, fraction, fraction_other) => cardinal + spec_opt_slash(cardinal_female)
            + "/"@ + ordinal + spec_opt_slash(ordinal_female) + spec_opt_slash(multiplicative)
            + spec_opt_slash(approximate) + spec_opt_slash(fraction) + spec_opt_slash(
            fraction_other,
        ) + " ("@ + sw + "), number"@,
    }
}

pub open spec fn spec_display_adjective(adj: AdjectiveV, sw: Seq<char>, en: Seq<char>) -> Seq<
    char,
> {
    match adj {
        AdjectiveV::Demonstrative(a, b) => a + "/"@ + b + " ("@ + sw + ", "@ + en
            + "), demonstrative adjective"@,
        AdjectiveV::ExclamativeInterrogative(a, b, c2, d) => a + "/"@ + b + "/"@ + c2 + "/"@ + d
            + " ("@ + sw + ", "@ + en + "), exclamative and interrogative adjective"@,
        AdjectiveV::Indefinite(a, b, c2, d) => a + "/"@ + b + "/"@ + c2 + "/"@ + d + " ("@ + sw
            + ", "@ + en + "), indefinite adjective"@,
        AdjectiveV::Negative(male, female) => "ne ... "@ + male + "/ne ... "@ + female + " ("@
            + sw + ", "@ + en + "), negative adjective"@,
        AdjectiveV::Past(a, b, c2, d) => a + "/"@ + b + "/"@ + c2 + "/"@ + d + " ("@ + sw + ", "@
            + en + "), past participle adjective"@,
        AdjectiveV::Possessive(male, female, plural) => male + "/"@ + female + "/"@ + plural
            + " ("@ + sw + ", "@ + en + "), possessive adjective"@,
        AdjectiveV::Present(a, b, c2, d) => a + "/"@ + b + "/"@ + c2 + "/"@ + d + " ("@ + sw
            + ", "@ + en + "), present participle adjective"@,
        AdjectiveV::Relative(a, b, c2, d) => a + "/"@ + b + "/"@ + c2 + "/"@ + d + " ("@ + sw
            + ", "@ + en + "), relative adjective"@,
    }
}

pub open spec fn spec_display_pronoun(p: PronounV, sw: Seq<char>, en: Seq<char>) -> Seq<char> {
    match p {
        PronounV::Personal(subject, reflexive, stressed, others) => match others {
            Some((direct, indirect)) => subject + "/"@ + direct + "/"@ + indirect + "/"@
                + reflexive + "/"@ + stressed + " ("@ + sw + ", "@ + en + "), personal pronoun"@,
            None => subject + "/"@ + reflexive + "/"@ + stressed + " ("@ + sw + ", "@ + en
                + "), personal pronoun"@,
        },
        PronounV::Adverbial(s) => s + " ("@ + sw + ", "@ + en + "), adverbial pronoun"@,
        PronounV::Demonstrative(a, b, c2, d) => a + "/"@ + b + "/"@ + c2 + "/"@ + d + " ("@ + sw
            + ", "@ + en + "), demonstrative pronoun"@,
        PronounV::ImpersonalSubject(s) => s + " ("@ + sw + ", "@ + en + "), impersonal subject"@,
        PronounV::Indefinite(male, female) => match female {
            Some(f) => male + "/"@ + f + " ("@ + sw + ", "@ + en + "), indefinite pronoun"@,
            None => male + " ("@ + sw + ", "@ + en + "), indefinite pronoun"@,
        },
        PronounV::IndefiniteDemonstrative(s) => s + " ("@ + sw + ", "@ + en
            + "), indefinite demonstrative pronoun"@,
        PronounV::IndefiniteRelative(s) => s + " ("@ + sw + ", "@ + en
            + "), indefinite relative pronoun"@,
        PronounV::Interrogative(s) => s + " ("@ + sw + ", "@ + en + "), interrogative pronoun"@,
        PronounV::Negative(s) => "ne ... "@ + s + " ("@ + sw + ", "@ + en
            + "), negative pronoun"@,
        PronounV::Possessive(a, b, c2, d) => a + "/"@ + b + "/"@ + c2 + "/"@ + d + " ("@ + sw
            + ", "@ + en + "), possessive pronoun"@,
        PronounV::Relative(s, others) => match others {
            None => s + " ("@ + sw + ", "@ + en + "), relative pronoun"@,
            Some((sf, pm, pf)) => s + "/"@ + sf + "/"@ + pm + "/"@ + pf + " ("@ + sw + ", "@ + en
                + "), relative pronoun"@,
        },
    }
}

impl Category {
    pub fn to_u16(&self) -> (r: u16)
        ensures
            r == spec_to_u16(self@),
    {
        match self {
            Category::Noun(..) => 0b1,
            Category::Verb(..) => 0b10,
            Category::Adjective(..) => 0b100,
            Category::Adverb(..) => 0b1000,
            Category::Article(..) => 0b10000,
            Category::Conjunction(..) => 0b100000,
            Category::Interjection(..) => 0b1000000,
            Category::Preposition(..) => 0b10000000,
            Category::Pronoun(..) => 0b100000000,
            Category::Number(..) => 0b1000000000,
            Category::Other(..) => 0b10000000000,
        }
    }

    /// The detailed description shown as a tooltip; see
    /// `spec_display_detailed`.
    #[verifier::rlimit(100)]
    #[verifier::spinoff_prover]
    pub(crate) fn display_detailed(
        &self,
        english: &Option<String>,
        swedish: &Option<String>,
    ) -> (r: String)
        ensures
            r@ == spec_display_detailed(self@, view_opt_string(*english), view_opt_string(
                *swedish,
            )),
    {
        let sw = unknown_or(swedish);
        let en = unknown_or(english);
        match self {
            Category::Other(s) => with_annot(s.clone(), sw, en, ")"),
            Category::Noun(s, gender, plural) => {
                let prefix = s.clone().concat("/").concat(plural.as_str());
                match gender {
                    Gender::Male => with_annot(prefix, sw, en, "), masculine noun"),
                    Gender::Female => with_annot(prefix, sw, en, "), feminine noun"),
                }
            }
            Category::Verb(name, forms) => match forms {
                VerbForms::Regular(..) => with_annot(name.clone(), sw, en, "), regular verb"),
                VerbForms::Irregular(..) => with_annot(name.clone(), sw, en, "), irregular verb"),
            },
            Category::Adjective(adjective) => display_adjective(adjective, sw, en),
            Category::Adverb(s) => with_annot(s.clone(), sw, en, "), adverb"),
            Category::Article(male, female, plural, vowel) => {
                let prefix = male.clone().concat("/").concat(female.as_str()).concat("/").concat(
                    plural.as_str(),
                );
                match vowel {
                    Some(v) => with_annot(
                        prefix.concat("/").concat(v.as_str()),
                        sw,
                        en,
                        "), article",
                    ),
                    None => with_annot(prefix, sw, en, "), article"),
                }
            }
            Category::Conjunction(s) => with_annot(s.clone(), sw, en, "), conjunction"),
            Category::Interjection(s) => with_annot(s.clone(), sw, en, "), interjection"),
            Category::Preposition(s) => with_annot(s.clone(), sw, en, "), preposition"),
            Category::Pronoun(pronoun) => display_pronoun(pronoun, sw, en),
            Category::Number(cardinal, cardinal_female, ordinal, ordinal_female, multiplicative,
                approximate, fraction, fraction_other) => {
                let mut string = cardinal.clone();
                match cardinal_female {
                    Some(x) => {
                        string = string.concat("/").concat(x.as_str());
                    }
                    None => {}
                }
                string = string.concat("/").concat(ordinal.as_str());
                match ordinal_female {
                    Some(x) => {
                        string = string.concat("/").concat(x.as_str());
                    }
                    None => {}
                }
                match multiplicative {
                    Some(x) => {
                        string = string.concat("/").concat(x.as_str());
                    }
                    None => {}
                }
                match approximate {
                    Some(x) => {
                        string = string.concat("/").concat(x.as_str());
                    }
                    None => {}
                }
                match fraction {
                    Some(x) => {
                        string = string.concat("/").concat(x.as_str());
                    }
                    None => {}
                }
                match fraction_other {
                    Some(x) => {
                        string = string.concat("/").concat(x.as_str());
                    }
                    None => {}
                }
                let r = string.concat(" (").concat(sw).concat("), number");
                proof {
                    assert(r@ =~= spec_display_detailed(
                        self@,
                        view_opt_string(*english),
                        view_opt_string(*swedish),
                    ));
                }
                r
            }
        }
    }
}

fn display_adjective(adjective: &Adjective, sw: &str, en: &str) -> (r: String)
    ensures
        r@ == spec_display_adjective(adjective@, sw@, en@),
{
    match adjective {
        Adjective::Demonstrative(a, b) => with_annot(
            a.clone().concat("/").concat(b.as_str()),
            sw,
            en,
            "), demonstrative adjective",
        ),
        Adjective::ExclamativeInterrogative(a, b, c, d) => with_annot(
            slash4(a, b, c, d),
            sw,
            en,
            "), exclamative and interrogative adjective",
        ),
        Adjective::Indefinite(a, b, c, d) => with_annot(
            slash4(a, b, c, d),
            sw,
            en,
            "), indefinite adjective",
        ),
        Adjective::Negative(male, female) => with_annot(
            String::from_str("ne ... ").concat(male.as_str()).concat("/ne ... ").concat(
                female.as_str(),
            ),
            sw,
            en,
            "), negative adjective",
        ),
        Adjective::Past(a, b, c, d) => with_annot(
            slash4(a, b, c, d),
            sw,
            en,
            "), past participle adjective",
        ),
        Adjective::Possessive(male, female, plural) => with_annot(
            male.clone().concat("/").concat(female.as_str()).concat("/").concat(plural.as_str()),
            sw,
            en,
            "), possessive adjective",
        ),
        Adjective::Present(a, b, c, d) => with_annot(
            slash4(a, b, c, d),
            sw,
            en,
            "), present participle adjective",
        ),
        Adjective::Relative(a, b, c, d) => with_annot(
            slash4(a, b, c, d),
            sw,
            en,
            "), relative adjective",
        ),
    }
}

fn display_pronoun(pronoun: &Pronoun, sw: &str, en: &str) -> (r: String)
    ensures
        r@ == spec_display_pronoun(pronoun@, sw@, en@),
{
    match pronoun {
        Pronoun::Personal(subject, reflexive, stressed, others) => match others {
            Some((direct, indirect)) => with_annot(
                subject.clone().concat("/").concat(direct.as_str()).concat("/").concat(
                    indirect.as_str(),
                ).concat("/").concat(reflexive.as_str()).concat("/").concat(stressed.as_str()),
                sw,
                en,
                "), personal pronoun",
            ),
            None => with_annot(
                subject.clone().concat("/").concat(reflexive.as_str()).concat("/").concat(
                    stressed.as_str(),
                ),
                sw,
                en,
                "), personal pronoun",
            ),
        },
        Pronoun::Adverbial(s) => with_annot(s.clone(), sw, en, "), adverbial pronoun"),
        Pronoun::Demonstrative(a, b, c, d) => with_annot(
            slash4(a, b, c, d),
            sw,
            en,
            "), demonstrative pronoun",
        ),
        Pronoun::ImpersonalSubject(s) => with_annot(s.clone(), sw, en, "), impersonal subject"),
        Pronoun::Indefinite(male, female) => match female {
            Some(f) => with_annot(
                male.clone().concat("/").concat(f.as_str()),
                sw,
                en,
                "), indefinite pronoun",
            ),
            None => with_annot(male.clone(), sw, en, "), indefinite pronoun"),
        },
        Pronoun::IndefiniteDemonstrative(s) => with_annot(
            s.clone(),
            sw,
            en,
            "), indefinite demonstrative pronoun",
        ),
        Pronoun::IndefiniteRelative(s) => with_annot(
            s.clone(),
            sw,
            en,
            "), indefinite relative pronoun",
        ),
        Pronoun::Interrogative(s) => with_annot(s.clone(), sw, en, "), interrogative pronoun"),
        Pronoun::Negative(s) => with_annot(
            String::from_str("ne ... ").concat(s.as_str()),
            sw,
            en,
            "), negative pronoun",
        ),
        Pronoun::Possessive(a, b, c, d) => with_annot(
            slash4(a, b, c, d),
            sw,
            en,
            "), possessive pronoun",
        ),
        Pronoun::Relative(s, others) => match others {
            None => with_annot(s.clone(), sw, en, "), relative pronoun"),
            Some((sf, pm, pf)) => with_annot(
                s.clone().concat("/").concat(sf.as_str()).concat("/").concat(pm.as_str()).concat(
                    "/",
                ).concat(pf.as_str()),
                sw,
                en,
                "), relative pronoun",
            ),
        },
    }
}

/// Four forms joined by slashes.
fn slash4(a: &String, b: &String, c: &String, d: &String) -> (r: String)
    ensures
        r@ == a@ + "/"@ + b@ + "/"@ + c@ + "/"@ + d@,
{
    a.clone().concat("/").concat(b.as_str()).concat("/").concat(c.as_str()).concat("/").concat(
        d.as_str(),
    )
}

/// A forms prefix, the bracketed translations, and the class name.
fn with_annot(prefix: String, sw: &str, en: &str, suffix: &str) -> (r: String)
    ensures
        r@ == prefix@ + " ("@ + sw@ + ", "@ + en@ + suffix@,
{
    prefix.concat(" (").concat(sw).concat(", ").concat(en).concat(suffix)
}

} // verus!
