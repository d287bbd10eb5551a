//! Text segmentation and annotation: free text is cut into word tokens,
//! elided forms are rewritten to end in the canonical vowel, and each token
//! is glossed with the lexicon's tied-best matches.

use vstd::prelude::*;
use vstd::string::StrSliceExecFns;
use vstd::string::StringExecFns;
use crate::category::Language;
use crate::item::{Item, spec_new_query};
use crate::search::{
    Search, SearchV, distinct_pairs, min_distance, pairs_view, qualifying_pairs, search_wf, ties,
};

verus! {

/// A letter, including the accented Latin letters used in French text.
pub open spec fn spec_is_word_char(c: char) -> bool {
    ||| ('a' as u32) <= (c as u32) && (c as u32) <= ('z' as u32)
    ||| ('A' as u32) <= (c as u32) && (c as u32) <= ('Z' as u32)
    ||| c == 'é' || c == 'è' || c == 'à' || c == 'ù' || c == 'â' || c == 'ê' || c == 'ô'
        || c == 'î' || c == 'û' || c == 'ë' || c == 'ï' || c == 'ü' || c == 'ÿ' || c == 'ç'
}

fn is_word_char(c: char) -> (r: bool)
    ensures
        r == spec_is_word_char(c),
{
    let v = c as u32;
    (('a' as u32) <= v && v <= ('z' as u32)) || (('A' as u32) <= v && v <= ('Z' as u32))
        || c == 'é' || c == 'è' || c == 'à' || c == 'ù' || c == 'â' || c == 'ê' || c == 'ô'
        || c == 'î' || c == 'û' || c == 'ë' || c == 'ï' || c == 'ü' || c == 'ÿ' || c == 'ç'
}

/// The length of the run of letters at the head of the text.
pub open spec fn run_len(s: Seq<char>) -> nat
    decreases s.len(),
{
    if s.len() == 0 || !spec_is_word_char(s.first()) {
        0
    } else {
        1 + run_len(s.drop_first())
    }
}

proof fn lemma_run_len(s: Seq<char>)
    ensures
        run_len(s) <= s.len(),
        forall|i: int| 0 <= i < run_len(s) ==> spec_is_word_char(#[trigger] s[i]),
        run_len(s) < s.len() ==> !spec_is_word_char(s[run_len(s) as int]),
    decreases s.len(),
{
    if s.len() > 0 && spec_is_word_char(s.first()) {
        lemma_run_len(s.drop_first());
        assert forall|i: int| 0 <= i < run_len(s) implies spec_is_word_char(#[trigger] s[i]) by {
            if i > 0 {
                assert(s.drop_first()[i - 1] == s[i]);
            }
        }
        if run_len(s) < s.len() {
            assert(s.drop_first()[run_len(s) - 1] == s[run_len(s) as int]);
        }
    }
}

proof fn lemma_run_len_exact(s: Seq<char>, m: int)
    requires
        0 <= m <= s.len(),
        forall|i: int| 0 <= i < m ==> spec_is_word_char(#[trigger] s[i]),
        m == s.len() || !spec_is_word_char(s[m]),
    ensures
        run_len(s) == m,
    decreases s.len(),
{
    if m == 0 {
    } else {
        assert(spec_is_word_char(s.first()));
        assert forall|i: int| 0 <= i < m - 1 implies spec_is_word_char(
            #[trigger] s.drop_first()[i],
        ) by {
            assert(s.drop_first()[i] == s[i + 1]);
        }
        if m - 1 < s.drop_first().len() {
            assert(s.drop_first()[m - 1] == s[m]);
        }
        lemma_run_len_exact(s.drop_first(), m - 1);
    }
}

/// The tokens of a text: maximal runs of letters, each optionally extended
/// by a single trailing apostrophe marking an elision.
pub open spec fn spec_tokens(s: Seq<char>) -> Seq<Seq<char>>
    decreases s.len(),
    via spec_tokens_decreases
{
    if s.len() == 0 {
        Seq::empty()
    } else if !spec_is_word_char(s.first()) {
        spec_tokens(s.drop_first())
    } else {
        let k = run_len(s);
        let k2: nat = if k < s.len() && s[k as int] == '\'' {
            k + 1
        } else {
            k
        };
        seq![s.take(k2 as int)] + spec_tokens(s.skip(k2 as int))
    }
}

#[via_fn]
proof fn spec_tokens_decreases(s: Seq<char>) {
    if s.len() > 0 && spec_is_word_char(s.first()) {
        lemma_run_len(s);
        assert(run_len(s) >= 1);
    }
}

/// An elided token is rewritten to end in the canonical vowel before
/// matching.
pub open spec fn spec_rewrite(t: Seq<char>) -> Seq<char> {
    if t.len() > 0 && t.last() == '\'' {
        t.drop_last() + "e"@
    } else {
        t
    }
}

/// One annotated token: the rewritten token, the tied set of best matches,
/// a user-adjustable choice among them, and whether the best match was
/// exact.
#[derive(Debug)]
pub struct Part {
    pub string: String,
    pub matched: Vec<(String, Item)>,
    pub chosen: usize,
    pub sure: bool,
}

pub struct PartV {
    pub string: Seq<char>,
    pub matched: Seq<(Seq<char>, crate::item::ItemV)>,
    pub chosen: int,
    pub sure: bool,
}

impl View for Part {
    type V = PartV;

    open spec fn view(&self) -> PartV {
        PartV {
            string: self.string@,
            matched: pairs_view(self.matched@),
            chosen: self.chosen as int,
            sure: self.sure,
        }
    }
}

/// What one annotated token says of its source token: it carries the
/// rewritten token, the tied-best matches for it over all categories (with
/// exact length required when the token was elided), the default choice,
/// and certainty exactly when the best distance was zero.
pub open spec fn part_matches(store: SearchV, t: Seq<char>, part: PartV) -> bool {
    let rewritten = spec_rewrite(t);
    let elided = t.len() > 0 && t.last() == '\'';
    let q = spec_new_query(rewritten, Language::French, 0xFFFFu16, elided);
    let quals = qualifying_pairs(q, store.items);
    let best = min_distance(q, quals);
    &&& part.string == rewritten
    &&& part.matched == distinct_pairs(ties(q, quals, best))
    &&& part.chosen == 0
    &&& part.sure == (best == 0)
}

/// Cuts a text into its word tokens.
pub fn tokenize(s: &str) -> (r: Vec<String>)
    ensures
        r.deep_view() == spec_tokens(s@),
{
    let n = s.unicode_len();
    let mut out: Vec<String> = Vec::new();
    let mut i: usize = 0;
    proof {
        assert(s@.skip(0) =~= s@);
        assert(out.deep_view() =~= Seq::<Seq<char>>::empty());
    }
    while i < n
        invariant
            i <= n,
            n == s@.len(),
            out.deep_view() + spec_tokens(s@.skip(i as int)) == spec_tokens(s@),
        decreases n - i,
    {
        let c = s.get_char(i);
        if !is_word_char(c) {
            proof {
                assert(s@.skip(i as int).first() == s@[i as int]);
                assert(s@.skip(i as int).drop_first() =~= s@.skip(i + 1));
            }
            i += 1;
        } else {
            let start = i;
            let mut j = i + 1;
            while j < n && is_word_char(s.get_char(j))
                invariant
                    start < j <= n,
                    n == s@.len(),
                    forall|l: int| start <= l < j ==> spec_is_word_char(#[trigger] s@[l]),
                decreases n - j,
            {
                j += 1;
            }
            proof {
                let tail = s@.skip(start as int);
                assert forall|l: int| 0 <= l < j - start implies spec_is_word_char(
                    #[trigger] tail[l],
                ) by {
                    assert(tail[l] == s@[start + l]);
                }
                if j < n {
                    assert(tail[j - start] == s@[j as int]);
                }
                lemma_run_len_exact(tail, j - start);
            }
            let end = if j < n && s.get_char(j) == '\'' {
                j + 1
            } else {
                j
            };
            let token = s.substring_char(start, end).to_owned();
            let ghost out_old = out.deep_view();
            let ghost tok = s@.subrange(start as int, end as int);
            out.push(token);
            proof {
                let tail = s@.skip(start as int);
                let k = run_len(tail);
                assert(k == j - start);
                let k2: nat = if k < tail.len() && tail[k as int] == '\'' {
                    k + 1
                } else {
                    k
                };
                if j < n {
                    assert(tail[j - start] == s@[j as int]);
                }
                assert(k2 == end - start);
                assert(tail.take(k2 as int) =~= tok);
                assert(tail.skip(k2 as int) =~= s@.skip(end as int));
                assert(spec_tokens(tail) == seq![tok] + spec_tokens(s@.skip(end as int)));
                assert(out.deep_view() =~= out_old.push(tok));
                assert(out_old + (seq![tok] + spec_tokens(s@.skip(end as int)))
                    =~= out_old.push(tok) + spec_tokens(s@.skip(end as int)));
            }
            i = end;
        }
    }
    proof {
        assert(s@.skip(n as int) =~= Seq::<char>::empty());
        assert(out.deep_view() =~= spec_tokens(s@));
    }
    out
}

/// One annotated part per token of the text, each glossed as `part_matches`
/// says.
pub open spec fn explain_ok(store: SearchV, text: Seq<char>, parts: Seq<Part>) -> bool {
    &&& parts.len() == spec_tokens(text).len()
    &&& forall|i: int|
        0 <= i < parts.len() ==> part_matches(store, spec_tokens(text)[i], (#[trigger] parts[i])@)
}

/// Tokenizes the input and glosses each token with the lexicon's tied-best
/// matches over all categories.
pub fn explain(string: &str, search: &Search) -> (r: Vec<Part>)
    requires
        search_wf(search@),
    ensures
        explain_ok(search@, string@, r@),
{
    let tokens = tokenize(string);
    let mut parts: Vec<Part> = Vec::new();
    let m = tokens.len();
    let mut i: usize = 0;
    while i < m
        invariant
            i <= m,
            m == tokens@.len(),
            tokens.deep_view() == spec_tokens(string@),
            search_wf(search@),
            parts@.len() == i,
            forall|l: int|
                0 <= l < i ==> part_matches(
                    search@,
                    spec_tokens(string@)[l],
                    (#[trigger] parts@[l])@,
                ),
        decreases m - i,
    {
        let token = &tokens[i];
        let t_len = token.as_str().unicode_len();
        let elided = t_len > 0 && token.as_str().get_char(t_len - 1) == '\'';
        let rewritten: String = if elided {
            token.as_str().substring_char(0, t_len - 1).to_owned().concat("e")
        } else {
            token.clone()
        };
        proof {
            assert(token@ == spec_tokens(string@)[i as int]);
            if elided {
                assert(token@.take(t_len - 1) =~= token@.drop_last());
            }
            assert(rewritten@ == spec_rewrite(token@));
        }
        let query = crate::item::Query::new(rewritten.clone(), Language::French, 0xFFFF, elided);
        let (matched, score) = search.search_best_answers(&query);
        let sure = score == 0;
        parts.push(Part { string: rewritten, matched, chosen: 0, sure });
        i += 1;
    }
    parts
}

} // verus!
