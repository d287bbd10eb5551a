//! The lexicon: an insertion-ordered store of items under stable identifiers,
//! with category-filtered fuzzy search over each item's candidate strings.

use vstd::prelude::*;
use crate::category::spec_to_u16;
use crate::distance::{edit_distance, levenshtein_distance};
use crate::item::{Item, ItemV, Query, QueryV, item_wf, spec_candidates, spec_primary};
use crate::rng::rand_below;

verus! {

/// An operation addressed by an unknown identifier fails explicitly.
#[derive(Clone, Copy, Debug, PartialEq, Eq, Structural)]
pub enum LexiconError {
    NotFound,
}

#[derive(Debug)]
pub struct Search {
    items: Vec<Item>,
    next_uid: u32,
}

pub struct SearchV {
    pub items: Seq<ItemV>,
    pub next_uid: u32,
}

impl View for Search {
    type V = SearchV;

    closed spec fn view(&self) -> SearchV {
        SearchV {
            items: self.items@.map_values(|it: Item| it@),
            next_uid: self.next_uid,
        }
    }
}

/// Identifiers are unique, never at or above the next one to be assigned,
/// and every stored mask bit is the bit of its item's category.
pub open spec fn search_wf(s: SearchV) -> bool {
    &&& forall|i: int, j: int|
        0 <= i < j < s.items.len() ==> (#[trigger] s.items[i]).uid != (#[trigger] s.items[j]).uid
    &&& forall|i: int| 0 <= i < s.items.len() ==> (#[trigger] s.items[i]).uid < s.next_uid
    &&& forall|i: int| 0 <= i < s.items.len() ==> item_wf(#[trigger] s.items[i])
}

/// A candidate string of an item qualifies for a query when the masks
/// intersect, the length matches if the query asks for that, and the edit
/// distance is strictly below the candidate's own length.
pub open spec fn pair_qualifies(q: QueryV, p: (Seq<char>, ItemV)) -> bool {
    &&& p.1.category_int & q.search_categories_int != 0
    &&& (q.match_length ==> p.0.len() == q.string.len())
    &&& edit_distance(q.string, p.0) < p.0.len()
}

pub open spec fn pair_distance(q: QueryV, p: (Seq<char>, ItemV)) -> nat {
    edit_distance(q.string, p.0)
}

/// The qualifying (candidate string, item) pairs that one item's candidate
/// list contributes, in list order.
pub open spec fn qual_pairs_of_strings(
    q: QueryV,
    item: ItemV,
    ss: Seq<Seq<char>>,
) -> Seq<(Seq<char>, ItemV)>
    decreases ss.len(),
{
    if ss.len() == 0 {
        Seq::empty()
    } else {
        qual_pairs_of_strings(q, item, ss.drop_last()) + if pair_qualifies(
            q,
            (ss.last(), item),
        ) {
            seq![(ss.last(), item)]
        } else {
            Seq::empty()
        }
    }
}

pub open spec fn item_qual_pairs(q: QueryV, item: ItemV) -> Seq<(Seq<char>, ItemV)> {
    match spec_candidates(item, q.language) {
        Some(ss) => qual_pairs_of_strings(q, item, ss),
        None => Seq::empty(),
    }
}

/// All qualifying pairs of the store, in encounter order.
pub open spec fn qualifying_pairs(q: QueryV, items: Seq<ItemV>) -> Seq<(Seq<char>, ItemV)>
    decreases items.len(),
{
    if items.len() == 0 {
        Seq::empty()
    } else {
        qualifying_pairs(q, items.drop_last()) + item_qual_pairs(q, items.last())
    }
}

/// The least distance among the pairs, with the largest machine value
/// standing for "no pair seen yet".
pub open spec fn min_distance(q: QueryV, ps: Seq<(Seq<char>, ItemV)>) -> int
    decreases ps.len(),
{
    if ps.len() == 0 {
        usize::MAX as int
    } else {
        let rest = min_distance(q, ps.drop_last());
        if pair_distance(q, ps.last()) < rest {
            pair_distance(q, ps.last()) as int
        } else {
            rest
        }
    }
}

/// The pairs at exactly distance `d`, in order.
pub open spec fn ties(q: QueryV, ps: Seq<(Seq<char>, ItemV)>, d: int) -> Seq<(Seq<char>, ItemV)>
    decreases ps.len(),
{
    if ps.len() == 0 {
        ps
    } else {
        ties(q, ps.drop_last(), d) + if pair_distance(q, ps.last()) == d {
            seq![ps.last()]
        } else {
            Seq::empty()
        }
    }
}

/// First occurrences only, in order: exact duplicate pairs are suppressed.
pub open spec fn distinct_pairs(ps: Seq<(Seq<char>, ItemV)>) -> Seq<(Seq<char>, ItemV)>
    decreases ps.len(),
{
    if ps.len() == 0 {
        ps
    } else {
        let rest = distinct_pairs(ps.drop_last());
        if ps.drop_last().contains(ps.last()) {
            rest
        } else {
            rest.push(ps.last())
        }
    }
}

pub open spec fn pairs_view(v: Seq<(String, Item)>) -> Seq<(Seq<char>, ItemV)> {
    v.map_values(|p: (String, Item)| (p.0@, p.1@))
}

/// The position of the item carrying `uid`, if any.
pub open spec fn spec_uid_index(items: Seq<ItemV>, uid: u32) -> Option<int>
    decreases items.len(),
{
    if items.len() == 0 {
        None
    } else if items.first().uid == uid {
        Some(0int)
    } else {
        match spec_uid_index(items.drop_first(), uid) {
            Some(i) => Some(i + 1),
            None => None,
        }
    }
}

pub proof fn lemma_uid_index(items: Seq<ItemV>, uid: u32)
    ensures
        match spec_uid_index(items, uid) {
            Some(i) => 0 <= i < items.len() && items[i].uid == uid && (forall|j: int|
                0 <= j < i ==> (#[trigger] items[j]).uid != uid),
            None => forall|j: int| 0 <= j < items.len() ==> (#[trigger] items[j]).uid != uid,
        },
    decreases items.len(),
{
    if items.len() > 0 && items.first().uid != uid {
        let sub = items.drop_first();
        lemma_uid_index(sub, uid);
        match spec_uid_index(sub, uid) {
            Some(i) => {
                assert(items[i + 1] == sub[i]);
                assert forall|j: int| 0 <= j < i + 1 implies (#[trigger] items[j]).uid
                    != uid by {
                    if j > 0 {
                        assert(sub[j - 1] == items[j]);
                    }
                }
            }
            None => {
                assert forall|j: int| 0 <= j < items.len() implies (#[trigger] items[j]).uid
                    != uid by {
                    if j > 0 {
                        assert(sub[j - 1] == items[j]);
                    }
                }
            }
        }
    }
}

pub proof fn lemma_uid_index_from_witness(items: Seq<ItemV>, uid: u32, i: int)
    requires
        0 <= i < items.len(),
        items[i].uid == uid,
        forall|j: int| 0 <= j < i ==> (#[trigger] items[j]).uid != uid,
    ensures
        spec_uid_index(items, uid) == Some(i),
    decreases items.len(),
{
    if i > 0 {
        lemma_uid_index_from_witness(items.drop_first(), uid, i - 1);
    }
}

/// The items whose category mask intersects the query's, in store order.
pub open spec fn masked_items(items: Seq<ItemV>, mask: u16) -> Seq<ItemV>
    decreases items.len(),
{
    if items.len() == 0 {
        items
    } else {
        masked_items(items.drop_last(), mask) + if items.last().category_int & mask != 0 {
            seq![items.last()]
        } else {
            Seq::empty()
        }
    }
}

/// The (primary string, item) pairs offered when browsing without a query
/// string, in store order.
pub open spec fn browse_pairs(items: Seq<ItemV>, q: QueryV) -> Seq<(Seq<char>, ItemV)>
    decreases items.len(),
{
    if items.len() == 0 {
        Seq::empty()
    } else {
        browse_pairs(items.drop_last(), q) + match spec_primary(items.last(), q.language) {
            Some(s) => if items.last().category_int & q.search_categories_int != 0 {
                seq![(s, items.last())]
            } else {
                Seq::empty()
            },
            None => Seq::empty(),
        }
    }
}

impl Search {
    /// An empty lexicon.
    pub fn new() -> (r: Self)
        ensures
            r@.items.len() == 0,
            r@.next_uid == 0,
            search_wf(r@),
    {
        let r = Search { items: Vec::new(), next_uid: 0 };
        assert(r@.items =~= Seq::<ItemV>::empty());
        r
    }

    pub fn len(&self) -> (r: usize)
        ensures
            r == self@.items.len(),
    {
        self.items.len()
    }

    /// The identifier the next adopted item will receive; adding is possible
    /// while it is below the largest machine value.
    pub fn next_uid(&self) -> (r: u32)
        ensures
            r == self@.next_uid,
    {
        self.next_uid
    }

    /// Adopts an item: assigns it the next identifier, stamps its category
    /// bit, and appends it to the store.
    pub fn add_item(&mut self, item: Item)
        requires
            search_wf(old(self)@),
            old(self)@.next_uid < 0xFFFF_FFFFu32,
        ensures
            search_wf(final(self)@),
            final(self)@.items == old(self)@.items.push(
                ItemV {
                    uid: old(self)@.next_uid,
                    swedish: item@.swedish,
                    english: item@.english,
                    category: item@.category,
                    category_int: spec_to_u16(item@.category),
                },
            ),
            final(self)@.next_uid == old(self)@.next_uid + 1,
    {
        let mut item = item;
        item.uid = self.next_uid;
        item.category_int = item.category.to_u16();
        self.items.push(item);
        self.next_uid = self.next_uid + 1;
        assert(self@.items =~= old(self)@.items.push(
            ItemV {
                uid: old(self)@.next_uid,
                swedish: item@.swedish,
                english: item@.english,
                category: item@.category,
                category_int: spec_to_u16(item@.category),
            },
        ));
    }

    /// The item stored under `uid`, cloned, or nothing when the identifier
    /// is unknown.
    pub fn get_item(&self, uid: u32) -> (r: Option<Item>)
        ensures
            match spec_uid_index(self@.items, uid) {
                Some(i) => r is Some && r.unwrap()@ == self@.items[i],
                None => r is None,
            },
    {
        proof {
            lemma_uid_index(self@.items, uid);
        }
        let n = self.items.len();
        let mut i: usize = 0;
        while i < n
            invariant
                i <= n,
                n == self@.items.len(),
                self@.items == self.items@.map_values(|it: Item| it@),
                forall|j: int| 0 <= j < i ==> (#[trigger] self@.items[j]).uid != uid,
            decreases n - i,
        {
            if self.items[i].uid == uid {
                proof {
                    lemma_uid_index_from_witness(self@.items, uid, i as int);
                }
                return Some(self.items[i].clone());
            }
            i += 1;
        }
        None
    }

    /// The position of the item stored under `uid`, or nothing when the
    /// identifier is unknown.
    pub fn get_item_index(&self, uid: u32) -> (r: Option<usize>)
        ensures
            match spec_uid_index(self@.items, uid) {
                Some(i) => r == Some(i as usize),
                None => r is None,
            },
    {
        proof {
            lemma_uid_index(self@.items, uid);
        }
        let n = self.items.len();
        let mut i: usize = 0;
        while i < n
            invariant
                i <= n,
                n == self@.items.len(),
                self@.items == self.items@.map_values(|it: Item| it@),
                forall|j: int| 0 <= j < i ==> (#[trigger] self@.items[j]).uid != uid,
            decreases n - i,
        {
            if self.items[i].uid == uid {
                proof {
                    lemma_uid_index_from_witness(self@.items, uid, i as int);
                }
                return Some(i);
            }
            i += 1;
        }
        None
    }

    /// The item at a store position; positions are bookkeeping only, never
    /// durable identifiers.
    pub fn get_item_from_index(&self, index: usize) -> (r: Item)
        requires
            index < self@.items.len(),
        ensures
            r@ == self@.items[index as int],
    {
        self.items[index].clone()
    }

    /// Removes the item stored under `uid` and returns it; positions of later
    /// items shift down, identifiers are untouched and never reused.
    pub fn remove_item(&mut self, uid: u32) -> (r: Result<Item, LexiconError>)
        requires
            search_wf(old(self)@),
        ensures
            search_wf(final(self)@),
            final(self)@.next_uid == old(self)@.next_uid,
            match spec_uid_index(old(self)@.items, uid) {
                Some(i) => r is Ok && r.unwrap()@ == old(self)@.items[i] && final(self)@.items
                    == old(self)@.items.remove(i),
                None => r == Err::<Item, LexiconError>(LexiconError::NotFound) && final(self)@
                    == old(self)@,
            },
    {
        proof {
            lemma_uid_index(self@.items, uid);
        }
        let n = self.items.len();
        let mut i: usize = 0;
        while i < n
            invariant
                i <= n,
                self@ == old(self)@,
                search_wf(old(self)@),
                n == self@.items.len(),
                self@.items == self.items@.map_values(|it: Item| it@),
                forall|j: int| 0 <= j < i ==> (#[trigger] self@.items[j]).uid != uid,
            decreases n - i,
        {
            if self.items[i].uid == uid {
                proof {
                    lemma_uid_index_from_witness(self@.items, uid, i as int);
                }
                let removed = self.items.remove(i);
                proof {
                    let oldv = old(self)@.items;
                    let newv = self@.items;
                    assert(newv =~= oldv.remove(i as int));
                    oldv.remove_ensures(i as int);
                    assert forall|a: int, b: int| 0 <= a < b < newv.len() implies (
                    #[trigger] newv[a]).uid != (#[trigger] newv[b]).uid by {
                        let a0 = if a < i as int {
                            a
                        } else {
                            a + 1
                        };
                        let b0 = if b < i as int {
                            b
                        } else {
                            b + 1
                        };
                        assert(newv[a] == oldv[a0] && newv[b] == oldv[b0]);
                    }
                    assert forall|a: int| 0 <= a < newv.len() implies (#[trigger] newv[a]).uid
                        < self@.next_uid && item_wf(newv[a]) by {
                        let a0 = if a < i as int {
                            a
                        } else {
                            a + 1
                        };
                        assert(newv[a] == oldv[a0]);
                    }
                }
                return Ok(removed);
            }
            i += 1;
        }
        Err(LexiconError::NotFound)
    }

    /// Replaces the translations and category of the item stored under
    /// `uid`, keeping its identifier and position; fails explicitly when the
    /// identifier is unknown.
    pub fn edit_item(&mut self, uid: u32, new_item: Item) -> (r: Result<(), LexiconError>)
        requires
            search_wf(old(self)@),
        ensures
            search_wf(final(self)@),
            final(self)@.next_uid == old(self)@.next_uid,
            match spec_uid_index(old(self)@.items, uid) {
                Some(i) => r is Ok && final(self)@.items == old(self)@.items.update(
                    i,
                    ItemV {
                        uid,
                        swedish: new_item@.swedish,
                        english: new_item@.english,
                        category: new_item@.category,
                        category_int: spec_to_u16(new_item@.category),
                    },
                ),
                None => r == Err::<(), LexiconError>(LexiconError::NotFound) && final(self)@
                    == old(self)@,
            },
    {
        proof {
            lemma_uid_index(self@.items, uid);
        }
        let n = self.items.len();
        let mut i: usize = 0;
        while i < n
            invariant
                i <= n,
                self@ == old(self)@,
                search_wf(old(self)@),
                n == self@.items.len(),
                self@.items == self.items@.map_values(|it: Item| it@),
                forall|j: int| 0 <= j < i ==> (#[trigger] self@.items[j]).uid != uid,
            decreases n - i,
        {
            if self.items[i].uid == uid {
                proof {
                    lemma_uid_index_from_witness(self@.items, uid, i as int);
                }
                let mut new_item = new_item;
                new_item.uid = uid;
                new_item.category_int = new_item.category.to_u16();
                let ghost x = new_item@;
                self.items.set(i, new_item);
                proof {
                    let oldv = old(self)@.items;
                    let newv = self@.items;
                    assert(newv =~= oldv.update(i as int, x));
                    assert forall|a: int, b: int| 0 <= a < b < newv.len() implies (
                    #[trigger] newv[a]).uid != (#[trigger] newv[b]).uid by {
                        assert(oldv[a].uid != oldv[b].uid);
                    }
                    assert forall|a: int| 0 <= a < newv.len() implies (#[trigger] newv[a]).uid
                        < self@.next_uid && item_wf(newv[a]) by {
                        assert(newv[a] == if a == i as int {
                            x
                        } else {
                            oldv[a]
                        });
                    }
                }
                return Ok(());
            }
            i += 1;
        }
        Err(LexiconError::NotFound)
    }

    /// Renumbers the identifiers to match store positions, item `i`
    /// receiving identifier `i`; callers holding external references must
    /// rewrite them against the old numbering in the same transaction.
    pub fn renumber(&mut self)
        requires
            search_wf(old(self)@),
            old(self)@.items.len() < 0xFFFF_FFFFu32,
        ensures
            search_wf(final(self)@),
            final(self)@.items.len() == old(self)@.items.len(),
            forall|i: int|
                0 <= i < final(self)@.items.len() ==> (#[trigger] final(self)@.items[i])
                    == (ItemV {
                    uid: i as u32,
                    swedish: old(self)@.items[i].swedish,
                    english: old(self)@.items[i].english,
                    category: old(self)@.items[i].category,
                    category_int: old(self)@.items[i].category_int,
                }),
            final(self)@.next_uid == final(self)@.items.len(),
    {
        let n = self.items.len();
        let mut i: usize = 0;
        while i < n
            invariant
                i <= n,
                n == self@.items.len(),
                n == old(self)@.items.len(),
                n < 0xFFFF_FFFFu32,
                search_wf(old(self)@),
                self@.items == self.items@.map_values(|it: Item| it@),
                self@.next_uid == old(self)@.next_uid,
                forall|j: int| i <= j < n ==> (#[trigger] self@.items[j]) == old(self)@.items[j],
                forall|j: int|
                    0 <= j < i ==> (#[trigger] self@.items[j]) == (ItemV {
                        uid: j as u32,
                        swedish: old(self)@.items[j].swedish,
                        english: old(self)@.items[j].english,
                        category: old(self)@.items[j].category,
                        category_int: old(self)@.items[j].category_int,
                    }),
            decreases n - i,
        {
            let ghost prev = self@.items;
            let it = &self.items[i];
            let updated = Item {
                uid: i as u32,
                swedish: crate::category::clone_opt_string(&it.swedish),
                english: crate::category::clone_opt_string(&it.english),
                category: it.category.clone(),
                category_int: it.category_int,
            };
            self.items.set(i, updated);
            proof {
                assert(self@.items =~= prev.update(i as int, updated@));
                assert(prev[i as int] == old(self)@.items[i as int]);
                assert(updated@.swedish == prev[i as int].swedish);
                assert(updated@.english == prev[i as int].english);
                assert(updated@.category == prev[i as int].category);
                assert(updated@.category_int == prev[i as int].category_int);
                assert(updated@.uid == i as u32);
                assert(self@.items[i as int] == ItemV {
                    uid: i as u32,
                    swedish: old(self)@.items[i as int].swedish,
                    english: old(self)@.items[i as int].english,
                    category: old(self)@.items[i as int].category,
                    category_int: old(self)@.items[i as int].category_int,
                });
            }
            i += 1;
        }
        self.next_uid = n as u32;
        proof {
            assert forall|a: int, b: int| 0 <= a < b < self@.items.len() implies (
            #[trigger] self@.items[a]).uid != (#[trigger] self@.items[b]).uid by {}
            assert forall|a: int| 0 <= a < self@.items.len() implies (
            #[trigger] self@.items[a]).uid < self@.next_uid && item_wf(self@.items[a]) by {
                assert(item_wf(old(self)@.items[a]));
            }
        }
    }

    /// Rebuilds a lexicon from a loaded snapshot: every category bit is
    /// restamped, and the store is accepted exactly when its identifiers are
    /// unique and leave room for a next one.
    pub fn from_items(items: Vec<Item>) -> (r: Option<Search>)
        ensures
            match r {
                Some(s) => {
                    &&& search_wf(s@)
                    &&& s@.items.len() == items@.len()
                    &&& forall|i: int| 0 <= i < items@.len() ==> s@.items[i] == (ItemV {
                        uid: items@[i]@.uid,
                        swedish: items@[i]@.swedish,
                        english: items@[i]@.english,
                        category: items@[i]@.category,
                        category_int: spec_to_u16(items@[i]@.category),
                    })
                },
                None => (exists|i: int, j: int|
                    0 <= i < j < items@.len() && (#[trigger] items@[i])@.uid == (
                    #[trigger] items@[j])@.uid) || (exists|i: int|
                    0 <= i < items@.len() && (#[trigger] items@[i])@.uid == 0xFFFF_FFFFu32),
            },
    {
        let mut list = items;
        let n = list.len();
        let mut max_uid: u32 = 0;
        let mut i: usize = 0;
        while i < n
            invariant
                i <= n,
                n == list@.len(),
                list@ == items@,
                forall|j: int, k: int|
                    0 <= j < k < i ==> (#[trigger] list@[j])@.uid != (#[trigger] list@[k])@.uid,
                forall|j: int| 0 <= j < i ==> (#[trigger] list@[j])@.uid <= max_uid,
                forall|j: int| 0 <= j < i ==> (#[trigger] list@[j])@.uid < 0xFFFF_FFFFu32,
                max_uid < 0xFFFF_FFFFu32,
            decreases n - i,
        {
            let uid_i = list[i].uid;
            if uid_i == 0xFFFF_FFFF {
                assert((items@[i as int])@.uid == 0xFFFF_FFFFu32);
                return None;
            }
            let mut j: usize = 0;
            while j < i
                invariant
                    j <= i,
                    i < n,
                    n == list@.len(),
                    list@ == items@,
                    uid_i == list@[i as int]@.uid,
                    uid_i < 0xFFFF_FFFFu32,
                    forall|k: int| 0 <= k < j ==> (#[trigger] list@[k])@.uid != uid_i,
                decreases i - j,
            {
                if list[j].uid == uid_i {
                    assert((items@[j as int])@.uid == (items@[i as int])@.uid && j < i);
                    return None;
                }
                j += 1;
            }
            if uid_i > max_uid {
                max_uid = uid_i;
            }
            i += 1;
        }
        let mut k: usize = 0;
        while k < n
            invariant
                k <= n,
                n == list@.len(),
                items@.len() == n,
                forall|j: int, l: int|
                    0 <= j < l < n ==> (#[trigger] items@[j])@.uid != (#[trigger] items@[l])@.uid,
                forall|j: int| 0 <= j < n ==> (#[trigger] items@[j])@.uid <= max_uid,
                forall|j: int| 0 <= j < n ==> (#[trigger] items@[j])@.uid < 0xFFFF_FFFFu32,
                max_uid < 0xFFFF_FFFFu32,
                forall|j: int| k <= j < n ==> (#[trigger] list@[j])@ == items@[j]@,
                forall|j: int| 0 <= j < k ==> (#[trigger] list@[j])@ == (ItemV {
                    uid: items@[j]@.uid,
                    swedish: items@[j]@.swedish,
                    english: items@[j]@.english,
                    category: items@[j]@.category,
                    category_int: spec_to_u16(items@[j]@.category),
                }),
            decreases n - k,
        {
            let mask = list[k].category.to_u16();
            let mut updated = list[k].clone();
            updated.category_int = mask;
            list.set(k, updated);
            k += 1;
        }
        let next_uid = if n == 0 {
            0
        } else {
            max_uid + 1
        };
        let r = Search { items: list, next_uid };
        assert(search_wf(r@));
        Some(r)
    }

    /// Every (string, item) pair tied at the single best qualifying
    /// distance, each at most once and in encounter order, together with
    /// that distance; the distance starts at the largest machine value and
    /// only ever drops, so that value alone means nothing qualified.
    pub fn search_best_answers(&self, query: &Query) -> (r: (Vec<(String, Item)>, usize))
        requires
            search_wf(self@),
        ensures
            best_answers_ok(self@, query@, pairs_view(r.0@), r.1 as int),
    {
        let ghost q = query@;
        let ghost all = self@.items;
        let mut best_matches: Vec<(String, Item)> = Vec::new();
        let mut best_match_score: usize = usize::MAX;
        let length = query.string.as_str().unicode_len();
        let n = self.items.len();
        let mut i: usize = 0;
        proof {
            assert(all.take(0) =~= Seq::<ItemV>::empty());
            assert(pairs_view(best_matches@) =~= Seq::<(Seq<char>, ItemV)>::empty());
        }
        while i < n
            invariant
                i <= n,
                n == all.len(),
                all == self@.items,
                self@.items == self.items@.map_values(|it: Item| it@),
                search_wf(self@),
                q == query@,
                length == q.string.len(),
                best_match_score as int == min_distance(
                    q,
                    qualifying_pairs(q, all.take(i as int)),
                ),
                pairs_view(best_matches@) == distinct_pairs(
                    ties(
                        q,
                        qualifying_pairs(q, all.take(i as int)),
                        best_match_score as int,
                    ),
                ),
                forall|k: int|
                    0 <= k < best_matches@.len() ==> exists|idx: int|
                        0 <= idx < all.len() && ((#[trigger] best_matches@[k]).1)@ == all[idx],
            decreases n - i,
        {
            let ghost prefix_quals = qualifying_pairs(q, all.take(i as int));
            let ghost cur = all[i as int];
            proof {
                assert(all.take(i + 1).drop_last() =~= all.take(i as int));
                assert(all.take(i + 1).last() == cur);
            }
            let item = &self.items[i];
            assert(item@ == cur);
            let strings_opt = item.language_strings(&query.language);
            let mask_ok = item.category_int & query.search_categories_int != 0;
            match strings_opt {
                Some(strings) => {
                    if mask_ok {
                        let ghost ssv = spec_candidates(cur, q.language).unwrap();
                        proof {
                            assert(strings.deep_view() == ssv);
                        }
                        let m = strings.len();
                        let mut j: usize = 0;
                        proof {
                            assert(ssv.take(0) =~= Seq::<Seq<char>>::empty());
                            assert(prefix_quals + qual_pairs_of_strings(q, cur, ssv.take(0))
                                =~= prefix_quals);
                        }
                        while j < m
                            invariant
                                j <= m,
                                m == ssv.len(),
                                i < n,
                                n == all.len(),
                                all == self@.items,
                                self@.items == self.items@.map_values(|it: Item| it@),
                                search_wf(self@),
                                q == query@,
                                length == q.string.len(),
                                item@ == cur,
                                cur == all[i as int],
                                cur.category_int & q.search_categories_int != 0,
                                spec_candidates(cur, q.language) == Some(ssv),
                                strings.deep_view() == ssv,
                                prefix_quals == qualifying_pairs(q, all.take(i as int)),
                                best_match_score as int == min_distance(
                                    q,
                                    prefix_quals + qual_pairs_of_strings(
                                        q,
                                        cur,
                                        ssv.take(j as int),
                                    ),
                                ),
                                pairs_view(best_matches@) == distinct_pairs(
                                    ties(
                                        q,
                                        prefix_quals + qual_pairs_of_strings(
                                            q,
                                            cur,
                                            ssv.take(j as int),
                                        ),
                                        best_match_score as int,
                                    ),
                                ),
                                forall|k: int|
                                    0 <= k < best_matches@.len() ==> exists|idx: int|
                                        0 <= idx < all.len() && ((
                                        #[trigger] best_matches@[k]).1)@ == all[idx],
                            decreases m - j,
                        {
                            let ghost processed = prefix_quals + qual_pairs_of_strings(
                                q,
                                cur,
                                ssv.take(j as int),
                            );
                            let ghost p = (ssv[j as int], cur);
                            proof {
                                assert(ssv.take(j + 1).drop_last() =~= ssv.take(j as int));
                                assert(ssv.take(j + 1).last() == ssv[j as int]);
                                assert(prefix_quals + qual_pairs_of_strings(
                                    q,
                                    cur,
                                    ssv.take(j + 1),
                                ) =~= processed + if pair_qualifies(q, p) {
                                    seq![p]
                                } else {
                                    Seq::<(Seq<char>, ItemV)>::empty()
                                });
                                lemma_min_distance_bounds(q, processed);
                            }
                            let s = &strings[j];
                            assert(s@ == ssv[j as int]);
                            let s_len = s.as_str().unicode_len();
                            let length_ok = !query.match_length || length == s_len;
                            if length_ok {
                                let dup = contains_pair(&best_matches, s, item);
                                if !dup {
                                    let distance = levenshtein_distance(
                                        query.string.as_str(),
                                        s.as_str(),
                                    );
                                    if distance < best_match_score && distance < s_len {
                                        best_match_score = distance;
                                        best_matches.clear();
                                        best_matches.push((s.clone(), item.clone()));
                                        proof {
                                            assert(pair_qualifies(q, p));
                                            let pro2 = processed + seq![p];
                                            lemma_min_distance_add(q, processed, seq![p]);
                                            lemma_singleton_model(q, p, distance as int);
                                            assert(min_distance(q, pro2) == distance as int);
                                            assert forall|k: int|
                                                0 <= k < processed.len() implies pair_distance(
                                                q,
                                                #[trigger] processed[k],
                                            ) != distance as int by {
                                                lemma_min_distance_le(q, processed, k);
                                            }
                                            lemma_ties_empty(q, processed, distance as int);
                                            lemma_ties_add(q, processed, seq![p], distance as int);
                                            assert(ties(q, pro2, distance as int)
                                                =~= seq![p]);
                                            assert(pairs_view(best_matches@) =~= seq![p]);
                                        }
                                    } else if distance == best_match_score && distance < s_len {
                                        best_matches.push((s.clone(), item.clone()));
                                        proof {
                                            assert(pair_qualifies(q, p));
                                            let pro2 = processed + seq![p];
                                            let ghost old_view = pairs_view(
                                                best_matches@.drop_last(),
                                            );
                                            assert(best_matches@.drop_last()
                                                == best_matches@.subrange(
                                                0,
                                                best_matches@.len() - 1,
                                            ));
                                            lemma_min_distance_add(q, processed, seq![p]);
                                            lemma_singleton_model(
                                                q,
                                                p,
                                                best_match_score as int,
                                            );
                                            assert(min_distance(q, pro2)
                                                == best_match_score as int);
                                            lemma_ties_add(
                                                q,
                                                processed,
                                                seq![p],
                                                best_match_score as int,
                                            );
                                            let x = ties(q, processed, best_match_score as int);
                                            assert(ties(q, pro2, best_match_score as int)
                                                =~= x.push(p));
                                            // the pair is new: it is not yet in the set
                                            if x.contains(p) {
                                                lemma_distinct_contains(x, p);
                                                assert(old_view.contains(p));
                                                let k = choose|k: int|
                                                    0 <= k < old_view.len() && old_view[k] == p;
                                                assert((
                                                #[trigger] best_matches@.drop_last()[k]).0@
                                                    == p.0);
                                                assert(false);
                                            }
                                            assert((x.push(p)).drop_last() =~= x);
                                            assert(distinct_pairs(x.push(p)) =~= distinct_pairs(
                                                x,
                                            ).push(p));
                                            assert(pairs_view(best_matches@) =~= old_view.push(
                                                p,
                                            ));
                                        }
                                    } else {
                                        proof {
                                            if pair_qualifies(q, p) {
                                                // strictly worse than the best so far
                                                let pro2 = processed + seq![p];
                                                lemma_min_distance_add(q, processed, seq![p]);
                                                lemma_singleton_model(
                                                    q,
                                                    p,
                                                    best_match_score as int,
                                                );
                                                assert(distance as int > best_match_score as int);
                                                assert(min_distance(q, pro2)
                                                    == best_match_score as int);
                                                lemma_ties_add(
                                                    q,
                                                    processed,
                                                    seq![p],
                                                    best_match_score as int,
                                                );
                                                assert(ties(q, pro2, best_match_score as int)
                                                    =~= ties(
                                                    q,
                                                    processed,
                                                    best_match_score as int,
                                                ));
                                            } else {
                                                assert(processed + if pair_qualifies(q, p) {
                                                    seq![p]
                                                } else {
                                                    Seq::<(Seq<char>, ItemV)>::empty()
                                                } =~= processed);
                                            }
                                        }
                                    }
                                } else {
                                    proof {
                                        // already collected: same string, same identifier,
                                        // hence by uniqueness the same pair
                                        let k = choose|k: int|
                                            0 <= k < best_matches@.len() && (
                                            #[trigger] best_matches@[k]).0@ == s@
                                                && best_matches@[k].1.uid == item.uid;
                                        let idx = choose|idx: int|
                                            0 <= idx < all.len() && (best_matches@[k].1)@
                                                == all[idx];
                                        assert(all[idx].uid == cur.uid);
                                        if idx != i as int {
                                            assert(false);
                                        }
                                        assert(pairs_view(best_matches@)[k] == p);
                                        assert(pairs_view(best_matches@).contains(p));
                                        let x = ties(q, processed, best_match_score as int);
                                        lemma_distinct_contains(x, p);
                                        lemma_ties_contains(
                                            q,
                                            processed,
                                            best_match_score as int,
                                            p,
                                        );
                                        assert(pair_distance(q, p) == best_match_score as int);
                                        // membership in the processed pairs shows it qualifies
                                        let l = choose|l: int|
                                            0 <= l < processed.len() && processed[l] == p;
                                        lemma_qualifying_pairs_elements(q, all.take(i as int));
                                        lemma_qps_elements(q, cur, ssv.take(j as int));
                                        assert(pair_qualifies(q, p));
                                        let pro2 = processed + seq![p];
                                        lemma_min_distance_add(q, processed, seq![p]);
                                        lemma_singleton_model(q, p, best_match_score as int);
                                        lemma_min_distance_bounds(q, pro2);
                                        assert(min_distance(q, pro2) == best_match_score as int);
                                        lemma_ties_add(
                                            q,
                                            processed,
                                            seq![p],
                                            best_match_score as int,
                                        );
                                        assert(ties(q, pro2, best_match_score as int) =~= x.push(
                                            p,
                                        ));
                                        assert((x.push(p)).drop_last() =~= x);
                                        assert(x.contains(p));
                                        assert(distinct_pairs(x.push(p)) == distinct_pairs(x));
                                    }
                                }
                            } else {
                                proof {
                                    assert(!pair_qualifies(q, p));
                                    assert(processed + if pair_qualifies(q, p) {
                                        seq![p]
                                    } else {
                                        Seq::<(Seq<char>, ItemV)>::empty()
                                    } =~= processed);
                                }
                            }
                            j += 1;
                        }
                        proof {
                            assert(ssv.take(m as int) =~= ssv);
                            assert(all.take(i + 1).drop_last() =~= all.take(i as int));
                            assert(all.take(i + 1).last() == cur);
                            assert(qualifying_pairs(q, all.take(i + 1)) == prefix_quals
                                + qual_pairs_of_strings(q, cur, ssv));
                        }
                    } else {
                        proof {
                            match spec_candidates(cur, q.language) {
                                Some(ss) => {
                                    assert forall|k: int| 0 <= k < ss.len() implies
                                        !pair_qualifies(q, (#[trigger] ss[k], cur)) by {}
                                    lemma_qps_all_fail(q, cur, ss);
                                }
                                None => {}
                            }
                            assert(qualifying_pairs(q, all.take(i + 1)) =~= prefix_quals);
                        }
                    }
                }
                None => {
                    proof {
                        assert(qualifying_pairs(q, all.take(i + 1)) =~= prefix_quals);
                    }
                }
            }
            i += 1;
        }
        proof {
            assert(all.take(n as int) =~= all);
        }
        (best_matches, best_match_score)
    }

    /// The distinct qualifying (string, item) pairs closest to the query
    /// string: at most `num_answers` of them, ranked by ascending edit
    /// distance, every qualifying pair left out lying at or beyond the worst
    /// distance returned.
    pub fn search(&self, query: &Query, num_answers: usize) -> (r: Vec<(String, Item)>)
        requires
            search_wf(self@),
        ensures
            search_result_ok(self@, query@, num_answers as int, pairs_view(r@)),
    {
        let ghost q = query@;
        let ghost all = self@.items;
        let mut best_matches: Vec<(String, Item)> = Vec::new();
        let mut best_match_scores: Vec<usize> = Vec::new();
        let length = query.string.as_str().unicode_len();
        let n = self.items.len();
        let mut i: usize = 0;
        proof {
            assert(all.take(0) =~= Seq::<ItemV>::empty());
            assert(pairs_view(best_matches@) =~= Seq::<(Seq<char>, ItemV)>::empty());
        }
        while i < n
            invariant
                i <= n,
                n == all.len(),
                all == self@.items,
                self@.items == self.items@.map_values(|it: Item| it@),
                search_wf(self@),
                q == query@,
                length == q.string.len(),
                search_top_inv(
                    q,
                    qualifying_pairs(q, all.take(i as int)),
                    pairs_view(best_matches@),
                    best_match_scores@,
                    num_answers as int,
                ),
                forall|k: int|
                    0 <= k < best_matches@.len() ==> exists|idx: int|
                        0 <= idx < all.len() && ((#[trigger] best_matches@[k]).1)@ == all[idx],
            decreases n - i,
        {
            let ghost prefix_quals = qualifying_pairs(q, all.take(i as int));
            let ghost cur = all[i as int];
            proof {
                assert(all.take(i + 1).drop_last() =~= all.take(i as int));
                assert(all.take(i + 1).last() == cur);
            }
            let item = &self.items[i];
            assert(item@ == cur);
            let strings_opt = item.language_strings(&query.language);
            let mask_ok = item.category_int & query.search_categories_int != 0;
            match strings_opt {
                Some(strings) => {
                    if mask_ok {
                        let ghost ssv = spec_candidates(cur, q.language).unwrap();
                        proof {
                            assert(strings.deep_view() == ssv);
                        }
                        let m = strings.len();
                        let mut j: usize = 0;
                        proof {
                            assert(ssv.take(0) =~= Seq::<Seq<char>>::empty());
                            assert(prefix_quals + qual_pairs_of_strings(q, cur, ssv.take(0))
                                =~= prefix_quals);
                        }
                        while j < m
                            invariant
                                j <= m,
                                m == ssv.len(),
                                i < n,
                                n == all.len(),
                                all == self@.items,
                                self@.items == self.items@.map_values(|it: Item| it@),
                                search_wf(self@),
                                q == query@,
                                length == q.string.len(),
                                item@ == cur,
                                cur == all[i as int],
                                cur.category_int & q.search_categories_int != 0,
                                spec_candidates(cur, q.language) == Some(ssv),
                                strings.deep_view() == ssv,
                                prefix_quals == qualifying_pairs(q, all.take(i as int)),
                                search_top_inv(
                                    q,
                                    prefix_quals + qual_pairs_of_strings(
                                        q,
                                        cur,
                                        ssv.take(j as int),
                                    ),
                                    pairs_view(best_matches@),
                                    best_match_scores@,
                                    num_answers as int,
                                ),
                                forall|k: int|
                                    0 <= k < best_matches@.len() ==> exists|idx: int|
                                        0 <= idx < all.len() && ((
                                        #[trigger] best_matches@[k]).1)@ == all[idx],
                            decreases m - j,
                        {
                            let ghost processed = prefix_quals + qual_pairs_of_strings(
                                q,
                                cur,
                                ssv.take(j as int),
                            );
                            let ghost p = (ssv[j as int], cur);
                            let ghost pq = processed;
                            let ghost dq0 = distinct_pairs(pq);
                            proof {
                                assert(ssv.take(j + 1).drop_last() =~= ssv.take(j as int));
                                assert(ssv.take(j + 1).last() == ssv[j as int]);
                                assert(prefix_quals + qual_pairs_of_strings(
                                    q,
                                    cur,
                                    ssv.take(j + 1),
                                ) =~= processed + if pair_qualifies(q, p) {
                                    seq![p]
                                } else {
                                    Seq::<(Seq<char>, ItemV)>::empty()
                                });
                            }
                            let s = &strings[j];
                            assert(s@ == ssv[j as int]);
                            let s_len = s.as_str().unicode_len();
                            let length_ok = !query.match_length || length == s_len;
                            if length_ok {
                                let dup = contains_pair(&best_matches, s, item);
                                if !dup {
                                    let distance = levenshtein_distance(
                                        query.string.as_str(),
                                        s.as_str(),
                                    );
                                    if distance < s_len {
                                        proof {
                                            assert(pair_qualifies(q, p));
                                            assert(pq.push(p) =~= pq + seq![p]);
                                            if pairs_view(best_matches@).contains(p) {
                                                let k = choose|k: int|
                                                    0 <= k < pairs_view(best_matches@).len()
                                                        && pairs_view(best_matches@)[k] == p;
                                                assert(best_matches@[k].0@ == s@
                                                    && best_matches@[k].1.uid == item.uid);
                                                assert(false);
                                            }
                                        }
                                        search_insert_pair(
                                            Ghost(q),
                                            Ghost(pq),
                                            Ghost(all),
                                            Ghost(i as int),
                                            &mut best_matches,
                                            &mut best_match_scores,
                                            num_answers,
                                            s,
                                            item,
                                            distance,
                                        );
                                    } else {
                                        proof {
                                            assert(!pair_qualifies(q, p));
                                            assert(processed + if pair_qualifies(q, p) {
                                                seq![p]
                                            } else {
                                                Seq::<(Seq<char>, ItemV)>::empty()
                                            } =~= processed);
                                        }
                                    }
                                } else {
                                    proof {
                                        let k = choose|k: int|
                                            0 <= k < best_matches@.len() && (
                                            #[trigger] best_matches@[k]).0@ == s@
                                                && best_matches@[k].1.uid == item.uid;
                                        let idx = choose|idx: int|
                                            0 <= idx < all.len() && (best_matches@[k].1)@
                                                == all[idx];
                                        assert(all[idx].uid == cur.uid);
                                        if idx != i as int {
                                            assert(false);
                                        }
                                        assert(pairs_view(best_matches@)[k] == p);
                                        assert(pairs_view(best_matches@).contains(p));
                                        assert(dq0.contains(p));
                                        lemma_distinct_contains(pq, p);
                                        assert(pq.contains(p));
                                        assert(pq.push(p).drop_last() =~= pq);
                                        assert(pq.push(p).last() == p);
                                        assert(distinct_pairs(pq.push(p)) == dq0);
                                        assert(pq + seq![p] =~= pq.push(p));
                                        lemma_qualifying_pairs_elements(q, all.take(i as int));
                                        lemma_qps_elements(q, cur, ssv.take(j as int));
                                        let l = choose|l: int|
                                            0 <= l < pq.len() && pq[l] == p;
                                        assert(pair_qualifies(q, p));
                                    }
                                }
                            } else {
                                proof {
                                    assert(!pair_qualifies(q, p));
                                    assert(processed + if pair_qualifies(q, p) {
                                        seq![p]
                                    } else {
                                        Seq::<(Seq<char>, ItemV)>::empty()
                                    } =~= processed);
                                }
                            }
                            j += 1;
                        }
                        proof {
                            assert(ssv.take(m as int) =~= ssv);
                            assert(all.take(i + 1).drop_last() =~= all.take(i as int));
                            assert(all.take(i + 1).last() == cur);
                            assert(qualifying_pairs(q, all.take(i + 1)) == prefix_quals
                                + qual_pairs_of_strings(q, cur, ssv));
                        }
                    } else {
                        proof {
                            match spec_candidates(cur, q.language) {
                                Some(ss) => {
                                    assert forall|k: int| 0 <= k < ss.len() implies
                                        !pair_qualifies(q, (#[trigger] ss[k], cur)) by {}
                                    lemma_qps_all_fail(q, cur, ss);
                                }
                                None => {}
                            }
                            assert(qualifying_pairs(q, all.take(i + 1)) =~= prefix_quals);
                        }
                    }
                }
                None => {
                    proof {
                        assert(qualifying_pairs(q, all.take(i + 1)) =~= prefix_quals);
                    }
                }
            }
            i += 1;
        }
        proof {
            assert(all.take(n as int) =~= all);
            let dq = distinct_pairs(qualifying_pairs(q, all));
            let rv = pairs_view(best_matches@);
            let sc = best_match_scores@;
            assert forall|a: int, b: int| 0 <= a <= b < rv.len() implies pair_distance(q, rv[a])
                <= pair_distance(q, rv[b]) by {
                assert(sc[a] <= sc[b]);
                assert(sc[a] as int == pair_distance(q, rv[a]));
                assert(sc[b] as int == pair_distance(q, rv[b]));
            }
            assert forall|a: int| 0 <= a < dq.len() && !rv.contains(#[trigger] dq[a]) implies
                rv.len() == num_answers as int && (rv.len() > 0 ==> pair_distance(q, dq[a])
                >= pair_distance(q, rv[rv.len() - 1])) by {
                if rv.len() > 0 {
                    assert(sc[rv.len() - 1] as int == pair_distance(q, rv[rv.len() - 1]));
                }
            }
        }
        best_matches
    }

    /// Up to `num_answers` (primary string, item) pairs matching the
    /// category mask, in store order, with no string ranking: browse mode.
    pub fn get_all(&self, query: &Query, num_answers: usize) -> (r: Vec<(String, Item)>)
        ensures
            pairs_view(r@) == browse_pairs(self@.items, query@).take(
                if num_answers as int <= browse_pairs(self@.items, query@).len() {
                    num_answers as int
                } else {
                    browse_pairs(self@.items, query@).len() as int
                },
            ),
    {
        let n = self.items.len();
        let mut matches: Vec<(String, Item)> = Vec::new();
        let mut i: usize = 0;
        while i < n && matches.len() < num_answers
            invariant
                i <= n,
                n == self@.items.len(),
                self@.items == self.items@.map_values(|it: Item| it@),
                matches.len() <= num_answers,
                pairs_view(matches@) == browse_pairs(self@.items.take(i as int), query@),
            decreases n - i,
        {
            proof {
                assert(self@.items.take(i + 1).drop_last() =~= self@.items.take(i as int));
                assert(self@.items.take(i + 1).last() == self@.items[i as int]);
            }
            let item = &self.items[i];
            let lang_string = item.language_string(&query.language);
            match lang_string {
                Some(s) => {
                    if item.category_int & query.search_categories_int != 0 {
                        matches.push((s.clone(), item.clone()));
                        proof {
                            assert(pairs_view(matches@) =~= browse_pairs(
                                self@.items.take(i + 1),
                                query@,
                            ));
                        }
                    } else {
                        proof {
                            assert(browse_pairs(self@.items.take(i + 1), query@) =~= browse_pairs(
                                self@.items.take(i as int),
                                query@,
                            ));
                        }
                    }
                }
                None => {
                    proof {
                        assert(browse_pairs(self@.items.take(i + 1), query@) =~= browse_pairs(
                            self@.items.take(i as int),
                            query@,
                        ));
                    }
                }
            }
            i += 1;
        }
        proof {
            let full = browse_pairs(self@.items, query@);
            let here = browse_pairs(self@.items.take(i as int), query@);
            lemma_browse_pairs_prefix(self@.items, query@, i as int);
            let cap = if num_answers as int <= full.len() {
                num_answers as int
            } else {
                full.len() as int
            };
            if i == n {
                assert(self@.items.take(n as int) =~= self@.items);
                assert(here.len() <= num_answers);
                assert(pairs_view(matches@) =~= full.take(cap));
            } else {
                assert(matches.len() == num_answers);
                assert(here.len() == num_answers);
                assert(pairs_view(matches@) =~= full.take(cap));
            }
        }
        matches
    }

    /// All items matching the category mask, cloned, in store order.
    pub fn all_items(&self, query: &Query) -> (r: Vec<Item>)
        ensures
            r@.map_values(|it: Item| it@) == masked_items(
                self@.items,
                query@.search_categories_int,
            ),
    {
        let n = self.items.len();
        let mut matches: Vec<Item> = Vec::new();
        let mut i: usize = 0;
        while i < n
            invariant
                i <= n,
                n == self@.items.len(),
                self@.items == self.items@.map_values(|it: Item| it@),
                matches@.map_values(|it: Item| it@) == masked_items(
                    self@.items.take(i as int),
                    query@.search_categories_int,
                ),
            decreases n - i,
        {
            proof {
                assert(self@.items.take(i + 1).drop_last() =~= self@.items.take(i as int));
                assert(self@.items.take(i + 1).last() == self@.items[i as int]);
            }
            let item = &self.items[i];
            if item.category_int & query.search_categories_int != 0 {
                matches.push(item.clone());
            }
            proof {
                assert(matches@.map_values(|it: Item| it@) =~= masked_items(
                    self@.items.take(i + 1),
                    query@.search_categories_int,
                ));
            }
            i += 1;
        }
        proof {
            assert(self@.items.take(n as int) =~= self@.items);
        }
        matches
    }

    /// One of the items matching the category mask, drawn at random; at
    /// least one item must qualify.
    pub fn random_item(&self, query: &Query) -> (r: Item)
        requires
            masked_items(self@.items, query@.search_categories_int).len() > 0,
        ensures
            masked_items(self@.items, query@.search_categories_int).contains(r@),
    {
        let candidates = self.all_items(query);
        let k = rand_below(candidates.len());
        let r = candidates[k].clone();
        assert(masked_items(self@.items, query@.search_categories_int)[k as int] == r@);
        r
    }
}

pub proof fn lemma_qps_elements(q: QueryV, item: ItemV, ss: Seq<Seq<char>>)
    ensures
        forall|k: int|
            0 <= k < qual_pairs_of_strings(q, item, ss).len() ==> pair_qualifies(
                q,
                #[trigger] qual_pairs_of_strings(q, item, ss)[k],
            ) && qual_pairs_of_strings(q, item, ss)[k].1 == item,
    decreases ss.len(),
{
    if ss.len() > 0 {
        lemma_qps_elements(q, item, ss.drop_last());
    }
}

pub proof fn lemma_qps_all_fail(q: QueryV, item: ItemV, ss: Seq<Seq<char>>)
    requires
        forall|k: int| 0 <= k < ss.len() ==> !pair_qualifies(q, (#[trigger] ss[k], item)),
    ensures
        qual_pairs_of_strings(q, item, ss) == Seq::<(Seq<char>, ItemV)>::empty(),
    decreases ss.len(),
{
    if ss.len() > 0 {
        lemma_qps_all_fail(q, item, ss.drop_last());
        assert(qual_pairs_of_strings(q, item, ss) =~= Seq::<(Seq<char>, ItemV)>::empty());
    }
}

pub proof fn lemma_qualifying_pairs_elements(q: QueryV, items: Seq<ItemV>)
    ensures
        forall|k: int|
            0 <= k < qualifying_pairs(q, items).len() ==> pair_qualifies(
                q,
                #[trigger] qualifying_pairs(q, items)[k],
            ) && exists|idx: int|
                0 <= idx < items.len() && qualifying_pairs(q, items)[k].1 == items[idx],
    decreases items.len(),
{
    if items.len() > 0 {
        let pre = items.drop_last();
        lemma_qualifying_pairs_elements(q, pre);
        match spec_candidates(items.last(), q.language) {
            Some(ss) => {
                lemma_qps_elements(q, items.last(), ss);
            }
            None => {}
        }
        assert forall|k: int| 0 <= k < qualifying_pairs(q, items).len() implies pair_qualifies(
            q,
            #[trigger] qualifying_pairs(q, items)[k],
        ) && exists|idx: int|
            0 <= idx < items.len() && qualifying_pairs(q, items)[k].1 == items[idx] by {
            let whole = qualifying_pairs(q, items);
            let left = qualifying_pairs(q, pre);
            if k < left.len() {
                assert(whole[k] == left[k]);
                let idx = choose|idx: int| 0 <= idx < pre.len() && left[k].1 == pre[idx];
                assert(items[idx] == pre[idx]);
            } else {
                assert(whole[k] == item_qual_pairs(q, items.last())[k - left.len()]);
                assert(whole[k].1 == items[items.len() - 1]);
            }
        }
    }
}

pub proof fn lemma_min_distance_bounds(q: QueryV, s: Seq<(Seq<char>, ItemV)>)
    ensures
        0 <= min_distance(q, s) <= usize::MAX as int,
    decreases s.len(),
{
    if s.len() > 0 {
        lemma_min_distance_bounds(q, s.drop_last());
    }
}

pub proof fn lemma_min_distance_add(q: QueryV, a: Seq<(Seq<char>, ItemV)>, b: Seq<(Seq<char>, ItemV)>)
    ensures
        min_distance(q, a + b) == if min_distance(q, a) <= min_distance(q, b) {
            min_distance(q, a)
        } else {
            min_distance(q, b)
        },
    decreases b.len(),
{
    lemma_min_distance_bounds(q, a);
    lemma_min_distance_bounds(q, b);
    if b.len() == 0 {
        assert(a + b =~= a);
    } else {
        lemma_min_distance_bounds(q, b.drop_last());
        lemma_min_distance_add(q, a, b.drop_last());
        assert((a + b).drop_last() =~= a + b.drop_last());
        assert((a + b).last() == b.last());
    }
}

pub proof fn lemma_ties_add(q: QueryV, a: Seq<(Seq<char>, ItemV)>, b: Seq<(Seq<char>, ItemV)>, d: int)
    ensures
        ties(q, a + b, d) == ties(q, a, d) + ties(q, b, d),
    decreases b.len(),
{
    if b.len() == 0 {
        assert(a + b =~= a);
        assert(ties(q, a, d) + ties(q, b, d) =~= ties(q, a, d));
    } else {
        lemma_ties_add(q, a, b.drop_last(), d);
        assert((a + b).drop_last() =~= a + b.drop_last());
        assert((a + b).last() == b.last());
        assert(ties(q, a + b, d) =~= ties(q, a, d) + ties(q, b, d));
    }
}

pub proof fn lemma_ties_empty(q: QueryV, s: Seq<(Seq<char>, ItemV)>, d: int)
    requires
        forall|k: int| 0 <= k < s.len() ==> pair_distance(q, #[trigger] s[k]) != d,
    ensures
        ties(q, s, d) == Seq::<(Seq<char>, ItemV)>::empty(),
    decreases s.len(),
{
    if s.len() > 0 {
        lemma_ties_empty(q, s.drop_last(), d);
        assert(ties(q, s, d) =~= Seq::<(Seq<char>, ItemV)>::empty());
    }
}

pub proof fn lemma_ties_contains(q: QueryV, s: Seq<(Seq<char>, ItemV)>, d: int, p: (Seq<char>, ItemV))
    requires
        ties(q, s, d).contains(p),
    ensures
        s.contains(p),
        pair_distance(q, p) == d,
    decreases s.len(),
{
    if s.len() > 0 {
        if pair_distance(q, s.last()) == d && p == s.last() {
            assert(s.contains(p)) by {
                assert(s[s.len() - 1] == p);
            }
        } else {
            let t = ties(q, s, d);
            let t0 = ties(q, s.drop_last(), d);
            if pair_distance(q, s.last()) == d {
                assert(t =~= t0.push(s.last()));
                let k = choose|k: int| 0 <= k < t.len() && t[k] == p;
                assert(t0[k] == p);
                assert(t0.contains(p));
            } else {
                assert(t =~= t0);
            }
            lemma_ties_contains(q, s.drop_last(), d, p);
            let k = choose|k: int| 0 <= k < s.drop_last().len() && s.drop_last()[k] == p;
            assert(s[k] == p);
        }
    }
}

pub proof fn lemma_distinct_contains(s: Seq<(Seq<char>, ItemV)>, p: (Seq<char>, ItemV))
    ensures
        distinct_pairs(s).contains(p) <==> s.contains(p),
    decreases s.len(),
{
    if s.len() > 0 {
        lemma_distinct_contains(s.drop_last(), p);
        let ds = distinct_pairs(s);
        let d0 = distinct_pairs(s.drop_last());
        if s.drop_last().contains(s.last()) {
            assert(ds == d0);
            if s.contains(p) {
                let k = choose|k: int| 0 <= k < s.len() && s[k] == p;
                if k == s.len() - 1 {
                    assert(s.drop_last().contains(p));
                } else {
                    assert(s.drop_last()[k] == p);
                    assert(s.drop_last().contains(p));
                }
            }
            if d0.contains(p) {
                let k = choose|k: int| 0 <= k < s.drop_last().len() && s.drop_last()[k] == p;
                assert(s[k] == p);
            }
        } else {
            assert(ds == d0.push(s.last()));
            if s.contains(p) {
                let k = choose|k: int| 0 <= k < s.len() && s[k] == p;
                if k == s.len() - 1 {
                    assert(ds[ds.len() - 1] == p);
                } else {
                    assert(s.drop_last()[k] == p);
                    assert(s.drop_last().contains(p));
                    let l = choose|l: int| 0 <= l < d0.len() && d0[l] == p;
                    assert(ds[l] == p);
                }
            }
            if ds.contains(p) {
                let k = choose|k: int| 0 <= k < ds.len() && ds[k] == p;
                if k == ds.len() - 1 {
                    assert(p == s.last());
                    assert(s[s.len() - 1] == p);
                } else {
                    assert(d0[k] == p);
                    let l = choose|l: int| 0 <= l < s.drop_last().len() && s.drop_last()[l] == p;
                    assert(s[l] == p);
                }
            }
        }
    }
}

pub proof fn lemma_distinct_no_dup(s: Seq<(Seq<char>, ItemV)>)
    ensures
        forall|a: int, b: int|
            0 <= a < b < distinct_pairs(s).len() ==> (#[trigger] distinct_pairs(s)[a]) != (
            #[trigger] distinct_pairs(s)[b]),
    decreases s.len(),
{
    if s.len() > 0 {
        lemma_distinct_no_dup(s.drop_last());
        let rest = distinct_pairs(s.drop_last());
        let whole = distinct_pairs(s);
        if !s.drop_last().contains(s.last()) {
            assert(whole == rest.push(s.last()));
            assert forall|a: int, b: int| 0 <= a < b < whole.len() implies (#[trigger] whole[a])
                != (#[trigger] whole[b]) by {
                if b == whole.len() - 1 {
                    assert(whole[a] == rest[a]);
                    assert(rest.contains(rest[a]));
                    lemma_distinct_contains(s.drop_last(), rest[a]);
                    if rest[a] == s.last() {
                        assert(s.drop_last().contains(s.last()));
                        assert(false);
                    }
                } else {
                    assert(whole[a] == rest[a] && whole[b] == rest[b]);
                }
            }
        }
    }
}

pub proof fn lemma_min_distance_le(q: QueryV, s: Seq<(Seq<char>, ItemV)>, k: int)
    requires
        0 <= k < s.len(),
    ensures
        min_distance(q, s) <= pair_distance(q, s[k]),
    decreases s.len(),
{
    if k < s.len() - 1 {
        lemma_min_distance_le(q, s.drop_last(), k);
        assert(s.drop_last()[k] == s[k]);
    }
}

proof fn lemma_singleton_model(q: QueryV, p: (Seq<char>, ItemV), d: int)
    ensures
        min_distance(q, seq![p]) == if pair_distance(q, p) < usize::MAX as int {
            pair_distance(q, p) as int
        } else {
            usize::MAX as int
        },
        ties(q, seq![p], d) == if pair_distance(q, p) == d {
            seq![p]
        } else {
            Seq::<(Seq<char>, ItemV)>::empty()
        },
        distinct_pairs(seq![p]) == seq![p],
{
    reveal_with_fuel(min_distance, 2);
    reveal_with_fuel(ties, 2);
    reveal_with_fuel(distinct_pairs, 2);
    let s = seq![p];
    assert(s.drop_last() =~= Seq::<(Seq<char>, ItemV)>::empty());
    assert(s.last() == p);
    if pair_distance(q, p) == d {
        assert(ties(q, s, d) =~= seq![p]);
    } else {
        assert(ties(q, s, d) =~= Seq::<(Seq<char>, ItemV)>::empty());
    }
    assert(distinct_pairs(s) =~= seq![p]);
}

/// Distance ties keep the earlier-encountered pair: a tie kept in the
/// result means every earlier tie at the same distance is kept too, and
/// kept ties appear in first-encounter order.
pub open spec fn stable_ties(
    q: QueryV,
    dq: Seq<(Seq<char>, ItemV)>,
    rv: Seq<(Seq<char>, ItemV)>,
) -> bool {
    &&& forall|x: int, y: int|
        0 <= x < y < dq.len() && pair_distance(q, #[trigger] dq[x]) == pair_distance(
            q,
            #[trigger] dq[y],
        ) && rv.contains(dq[y]) ==> rv.contains(dq[x])
    &&& forall|a: int, b: int, x: int, y: int|
        #![trigger rv[a], rv[b], dq[x], dq[y]]
        0 <= a < b < rv.len() && 0 <= x < dq.len() && 0 <= y < dq.len() && rv[a] == dq[x]
            && rv[b] == dq[y] && pair_distance(q, rv[a]) == pair_distance(q, rv[b]) ==> x < y
}

/// What the ranked search returns: as many of the distinct qualifying pairs
/// as fit under the cap, sorted by ascending edit distance, each at most
/// once, every qualifying pair left out lying at or beyond the worst
/// distance kept, and ties resolved towards the earlier-encountered pair.
pub open spec fn search_result_ok(
    store: SearchV,
    q: QueryV,
    num: int,
    rv: Seq<(Seq<char>, ItemV)>,
) -> bool {
    let dq = distinct_pairs(qualifying_pairs(q, store.items));
    &&& rv.len() == if num <= dq.len() {
        num
    } else {
        dq.len() as int
    }
    &&& forall|a: int| 0 <= a < rv.len() ==> dq.contains(#[trigger] rv[a])
    &&& forall|a: int, b: int|
        0 <= a <= b < rv.len() ==> pair_distance(q, rv[a]) <= pair_distance(q, rv[b])
    &&& forall|a: int, b: int| 0 <= a < b < rv.len() ==> rv[a] != rv[b]
    &&& forall|a: int|
        0 <= a < dq.len() && !rv.contains(#[trigger] dq[a]) ==> rv.len() == num && (rv.len() > 0
            ==> pair_distance(q, dq[a]) >= pair_distance(q, rv[rv.len() - 1]))
    &&& stable_ties(q, dq, rv)
}

/// What the tied-best search returns: the minimum qualifying distance (the
/// largest machine value when nothing qualifies) and every distinct
/// qualifying pair lying exactly there, in encounter order.
pub open spec fn best_answers_ok(
    store: SearchV,
    q: QueryV,
    rv: Seq<(Seq<char>, ItemV)>,
    best: int,
) -> bool {
    let quals = qualifying_pairs(q, store.items);
    &&& best == min_distance(q, quals)
    &&& rv == distinct_pairs(ties(q, quals, best))
}

/// The running state of the ranked search: the collected pairs are distinct
/// qualifying pairs sorted by ascending distance, as many as fit, and no
/// qualifying pair left out beats the worst one kept.
pub open spec fn search_top_inv(
    q: QueryV,
    pq: Seq<(Seq<char>, ItemV)>,
    rv: Seq<(Seq<char>, ItemV)>,
    sc: Seq<usize>,
    num: int,
) -> bool {
    let dq = distinct_pairs(pq);
    &&& sc.len() == rv.len()
    &&& rv.len() <= num
    &&& forall|k: int| 0 <= k < rv.len() ==> (#[trigger] sc[k]) as int == pair_distance(q, rv[k])
    &&& forall|a: int, b: int| 0 <= a <= b < rv.len() ==> (#[trigger] sc[a]) <= (#[trigger] sc[b])
    &&& forall|k: int| 0 <= k < rv.len() ==> dq.contains(#[trigger] rv[k])
    &&& forall|a: int, b: int| 0 <= a < b < rv.len() ==> (#[trigger] rv[a]) != (#[trigger] rv[b])
    &&& rv.len() == if num <= dq.len() {
        num
    } else {
        dq.len() as int
    }
    &&& (rv.len() < num ==> forall|a: int| 0 <= a < dq.len() ==> rv.contains(#[trigger] dq[a]))
    &&& forall|a: int|
        0 <= a < dq.len() && !rv.contains(#[trigger] dq[a]) ==> rv.len() == num && (rv.len() > 0
            ==> pair_distance(q, dq[a]) >= sc[rv.len() - 1] as int)
    &&& stable_ties(q, dq, rv)
}

/// Inserting one new qualifying pair before its first strictly worse entry
/// and cutting what falls past the cap preserves the ranked-search state.
#[verifier::rlimit(100)]
#[verifier::spinoff_prover]
proof fn lemma_search_insert_ok(
    q: QueryV,
    pq: Seq<(Seq<char>, ItemV)>,
    p: (Seq<char>, ItemV),
    old_mv: Seq<(Seq<char>, ItemV)>,
    old_sc: Seq<usize>,
    mv1: Seq<(Seq<char>, ItemV)>,
    sc1: Seq<usize>,
    mv2: Seq<(Seq<char>, ItemV)>,
    sc2: Seq<usize>,
    num: int,
    pos: int,
    distance: usize,
)
    requires
        search_top_inv(q, pq, old_mv, old_sc, num),
        !old_mv.contains(p),
        pair_qualifies(q, p),
        distance as int == pair_distance(q, p),
        0 <= pos <= old_mv.len(),
        forall|k: int| 0 <= k < pos ==> (#[trigger] old_sc[k]) <= distance,
        pos < old_mv.len() ==> distance < old_sc[pos],
        pos < old_mv.len() || old_mv.len() < num,
        mv1 == old_mv.insert(pos, p),
        sc1 == old_sc.insert(pos, distance),
        mv2 == if mv1.len() <= num {
            mv1
        } else {
            mv1.subrange(0, num)
        },
        sc2 == if sc1.len() <= num {
            sc1
        } else {
            sc1.subrange(0, num)
        },
    ensures
        search_top_inv(q, pq.push(p), mv2, sc2, num),
{
    let dq = distinct_pairs(pq);
    assert(pq.push(p).drop_last() =~= pq);
    assert(pq.push(p).last() == p);
    lemma_distinct_contains(pq, p);
    let dq2 = distinct_pairs(pq.push(p));
    let mlen = old_mv.len() as int;
    // the pair cannot already be among the distinct qualifying pairs: it
    // would either be collected or lie beyond the worst kept entry
    if dq.contains(p) {
        let a = choose|a: int| 0 <= a < dq.len() && dq[a] == p;
        assert(!old_mv.contains(dq[a]));
        if mlen < num {
            assert(old_mv.len() < num);
            assert(false);
        } else {
            assert(old_mv.len() == num);
            assert(pos < mlen);
            assert(pair_distance(q, p) >= old_sc[old_mv.len() - 1] as int);
            assert(old_sc[pos] <= old_sc[old_mv.len() - 1]);
            assert(false);
        }
    }
    assert(dq2 =~= dq.push(p));
    old_sc.insert_ensures(pos, distance);
    old_mv.insert_ensures(pos, p);
    assert(mv1.len() == old_mv.len() + 1 && sc1.len() == old_sc.len() + 1);
    assert(forall|k: int| 0 <= k < pos ==> #[trigger] mv1[k] == old_mv[k] && sc1[k] == old_sc[k]);
    assert(mv1[pos] == p && sc1[pos] == distance);
    assert(forall|k: int|
        pos < k < mv1.len() ==> #[trigger] mv1[k] == old_mv[k - 1] && sc1[k] == old_sc[k - 1]);
    if mv1.len() > num {
        assert(old_mv.len() == num);
    }
    // every kept index maps into the inserted lists
    assert forall|k: int| 0 <= k < mv2.len() implies #[trigger] mv2[k] == mv1[k] && sc2[k]
        == sc1[k] by {}
    // distances stay attached to their pairs
    assert forall|k: int| 0 <= k < mv2.len() implies (#[trigger] sc2[k]) as int == pair_distance(
        q,
        mv2[k],
    ) by {
        assert(mv2[k] == mv1[k] && sc2[k] == sc1[k]);
    }
    // sortedness
    assert forall|a: int, b: int| 0 <= a <= b < mv2.len() implies (#[trigger] sc2[a]) <= (
    #[trigger] sc2[b]) by {
        assert(sc2[a] == sc1[a] && sc2[b] == sc1[b]);
        if a < pos && b == pos {
            assert(sc1[a] == old_sc[a] && old_sc[a] <= distance);
        } else if a == pos && b > pos {
            assert(pos < mlen ==> distance < old_sc[pos]);
            assert(sc1[b] == old_sc[b - 1] && old_sc[pos] <= old_sc[b - 1]);
        } else if a < pos && b > pos {
            assert(sc1[a] == old_sc[a] && sc1[b] == old_sc[b - 1]);
        }
    }
    // membership in the enlarged distinct set
    assert forall|k: int| 0 <= k < mv2.len() implies dq2.contains(#[trigger] mv2[k]) by {
        if k == pos {
            assert(dq2[dq2.len() - 1] == p);
        } else {
            let k0 = if k < pos {
                k
            } else {
                k - 1
            };
            assert(dq.contains(old_mv[k0]));
            let a = choose|a: int| 0 <= a < dq.len() && dq[a] == old_mv[k0];
            assert(dq2[a] == old_mv[k0]);
        }
    }
    // pairwise distinct
    assert forall|a: int, b: int| 0 <= a < b < mv2.len() implies (#[trigger] mv2[a]) != (
    #[trigger] mv2[b]) by {
        assert(mv2[a] == mv1[a] && mv2[b] == mv1[b]);
        if a == pos {
            assert(mv1[b] == old_mv[b - 1]);
            assert(!old_mv.contains(p));
            if mv1[b] == p {
                assert(old_mv[b - 1] == p);
                assert(false);
            }
        } else if b == pos {
            assert(mv1[a] == old_mv[a]);
            if mv1[a] == p {
                assert(false);
            }
        }
    }
    // the count is exactly the cap or the whole distinct set
    assert(dq2.len() == dq.len() + 1);
    if old_mv.len() < num {
        assert(mv2.len() == old_mv.len() + 1);
        assert(old_mv.len() == dq.len() || num <= dq.len());
        assert(old_mv.len() == if num <= dq.len() {
            num
        } else {
            dq.len() as int
        });
        assert(mv2.len() == if num <= dq2.len() {
            num
        } else {
            dq2.len() as int
        });
    } else {
        assert(mv2.len() == num);
        assert(dq.len() >= num);
        assert(mv2.len() == if num <= dq2.len() {
            num
        } else {
            dq2.len() as int
        });
    }
    // when there is room left, everything distinct is collected
    if mv2.len() < num {
        assert(mv1.len() <= num);
        assert(mv2 == mv1);
        assert(old_mv.len() < num);
        assert forall|a: int| 0 <= a < dq2.len() implies mv2.contains(#[trigger] dq2[a]) by {
            if a < dq.len() {
                assert(old_mv.contains(dq[a]));
                let k = choose|k: int| 0 <= k < old_mv.len() && old_mv[k] == dq[a];
                if k < pos {
                    assert(mv1[k] == dq2[a]);
                } else {
                    assert(mv1[k + 1] == dq2[a]);
                }
            } else {
                assert(dq2[a] == p && mv2[pos] == p);
            }
        }
    }
    // anything left out lies at or beyond the worst kept distance
    assert forall|a: int| 0 <= a < dq2.len() && !mv2.contains(#[trigger] dq2[a]) implies mv2.len()
        == num && (mv2.len() > 0 ==> pair_distance(q, dq2[a]) >= sc2[mv2.len() - 1] as int) by {
        let x = dq2[a];
        if mv1.len() <= num {
            // nothing was cut, so nothing distinct is missing
            assert(mv2 == mv1);
            if a == dq.len() {
                assert(x == p && mv1[pos] == p);
                assert(false);
            } else {
                assert(x == dq[a]);
                if old_mv.contains(x) {
                    let k = choose|k: int| 0 <= k < old_mv.len() && old_mv[k] == x;
                    if k < pos {
                        assert(mv1[k] == x);
                    } else {
                        assert(mv1[k + 1] == x);
                    }
                    assert(false);
                }
                assert(old_mv.len() == num);
                assert(mv1.len() == num + 1);
                assert(false);
            }
        } else {
            // the cap was hit: the entry cut was the worst one
            assert(old_mv.len() == num);
            assert(mv2.len() == num);
            assert(num >= 1);
            assert(pos < mlen);
            let last = sc2[num - 1] as int;
            assert(sc2[num - 1] == sc1[num - 1]);
            assert(sc1[num - 1] as int <= old_sc[num - 1] as int) by {
                if pos == num - 1 {
                    assert(sc1[num - 1] == distance);
                    assert(distance < old_sc[pos]);
                } else {
                    assert(sc1[num - 1] == old_sc[num - 2]);
                    assert(old_sc[num - 2] <= old_sc[num - 1]);
                }
            }
            if a == dq.len() {
                assert(x == p);
                assert(pos <= num - 1);
                assert(mv2[pos] == mv1[pos]);
                assert(mv2.contains(p)) by {
                    assert(mv2[pos] == p);
                }
                assert(false);
            } else {
                assert(x == dq[a]);
                if old_mv.contains(x) {
                    let k = choose|k: int| 0 <= k < old_mv.len() && old_mv[k] == x;
                    if k < pos {
                        assert(mv2[k] == mv1[k] && mv1[k] == x);
                        assert(mv2.contains(x));
                        assert(false);
                    } else if k + 1 <= num - 1 {
                        assert(mv2[k + 1] == mv1[k + 1] && mv1[k + 1] == x);
                        assert(mv2.contains(x));
                        assert(false);
                    } else {
                        // exactly the cut entry
                        assert(k == num - 1);
                        assert(pair_distance(q, x) == old_sc[num - 1] as int);
                        assert(pair_distance(q, x) >= last);
                    }
                } else {
                    assert(pair_distance(q, x) >= old_sc[num - 1] as int);
                    assert(pair_distance(q, x) >= last);
                }
            }
        }
    }
    // ties keep encounter order: the new pair joins the distinct set at the
    // end and is filed after every kept pair at its own distance
    lemma_distinct_no_dup(pq);
    lemma_distinct_no_dup(pq.push(p));
    assert forall|a: int, b: int, x: int, y: int|
        #![trigger mv2[a], mv2[b], dq2[x], dq2[y]]
        0 <= a < b < mv2.len() && 0 <= x < dq2.len() && 0 <= y < dq2.len() && mv2[a] == dq2[x]
            && mv2[b] == dq2[y] && pair_distance(q, mv2[a]) == pair_distance(
            q,
            mv2[b],
        ) implies x < y by {
        assert(mv2[a] == mv1[a] && mv2[b] == mv1[b]);
        assert(sc2[a] == sc1[a] && sc2[b] == sc1[b]);
        if b == pos {
            assert(mv1[b] == p);
            if y < dq.len() {
                assert(dq.contains(p)) by {
                    assert(dq[y] == p);
                }
                assert(false);
            }
            assert(mv1[a] == old_mv[a]);
            if x == dq.len() {
                assert(old_mv.contains(p)) by {
                    assert(old_mv[a] == p);
                }
                assert(false);
            }
        } else if a == pos {
            // everything after the insertion point is strictly worse
            assert(mv1[a] == p && sc1[a] == distance);
            assert(pos < mlen);
            assert(sc1[b] == old_sc[b - 1]);
            assert(old_sc[pos] <= old_sc[b - 1]);
            assert(distance < old_sc[pos]);
            assert((sc2[b]) as int == pair_distance(q, mv2[b]));
            assert((sc2[a]) as int == pair_distance(q, mv2[a]));
            assert(false);
        } else {
            let a0 = if a < pos {
                a
            } else {
                a - 1
            };
            let b0 = if b < pos {
                b
            } else {
                b - 1
            };
            assert(mv1[a] == old_mv[a0] && mv1[b] == old_mv[b0]);
            assert(a0 < b0);
            if x == dq.len() {
                assert(old_mv.contains(p)) by {
                    assert(old_mv[a0] == p);
                }
                assert(false);
            }
            if y == dq.len() {
                assert(old_mv.contains(p)) by {
                    assert(old_mv[b0] == p);
                }
                assert(false);
            }
            assert(dq2[x] == dq[x] && dq2[y] == dq[y]);
            assert(old_mv[a0] == dq[x] && old_mv[b0] == dq[y]);
        }
    }
    assert forall|x: int, y: int|
        0 <= x < y < dq2.len() && pair_distance(q, #[trigger] dq2[x]) == pair_distance(
            q,
            #[trigger] dq2[y],
        ) && mv2.contains(dq2[y]) implies mv2.contains(dq2[x]) by {
        if y == dq.len() {
            // the new pair: every earlier tie is already collected, before
            // the insertion point, and so survives the cut
            assert(dq2[y] == p);
            assert(dq2[x] == dq[x]);
            assert(pair_distance(q, dq[x]) == distance as int);
            if !old_mv.contains(dq[x]) {
                assert(old_mv.len() == num);
                assert(pos < mlen);
                assert(pair_distance(q, dq[x]) >= old_sc[num - 1] as int);
                assert(old_sc[pos] <= old_sc[num - 1]);
                assert(distance < old_sc[pos]);
                assert(false);
            }
            let k = choose|k: int| 0 <= k < old_mv.len() && old_mv[k] == dq[x];
            assert(old_sc[k] as int == pair_distance(q, old_mv[k]));
            if k >= pos {
                assert(pos < mlen);
                assert(old_sc[pos] <= old_sc[k]);
                assert(distance < old_sc[pos]);
                assert(false);
            }
            assert(mv1[k] == old_mv[k]);
            assert(k < mv2.len());
            assert(mv2[k] == mv1[k]);
            assert(mv2.contains(dq2[x])) by {
                assert(mv2[k] == dq2[x]);
            }
        } else {
            assert(dq2[x] == dq[x] && dq2[y] == dq[y]);
            let j = choose|j: int| 0 <= j < mv2.len() && mv2[j] == dq2[y];
            assert(mv2[j] == mv1[j]);
            if j == pos {
                assert(dq.contains(p)) by {
                    assert(dq[y] == p);
                }
                assert(false);
            }
            let j0 = if j < pos {
                j
            } else {
                j - 1
            };
            assert(mv1[j] == old_mv[j0]);
            assert(old_mv.contains(dq[y])) by {
                assert(old_mv[j0] == dq[y]);
            }
            assert(old_mv.contains(dq[x]));
            let k = choose|k: int| 0 <= k < old_mv.len() && old_mv[k] == dq[x];
            if k == j0 {
                assert(dq[x] == dq[y]);
                assert(false);
            }
            if k > j0 {
                // the pre-state keeps ties in encounter order
                assert(old_mv[j0] == dq[y] && old_mv[k] == dq[x]);
                assert(pair_distance(q, old_mv[j0]) == pair_distance(q, old_mv[k]));
                assert(y < x);
                assert(false);
            }
            assert(k < j0);
            let kn = if k < pos {
                k
            } else {
                k + 1
            };
            assert(mv1[kn] == old_mv[k]);
            assert(kn < j);
            assert(mv2[kn] == mv1[kn]);
            assert(mv2.contains(dq2[x])) by {
                assert(mv2[kn] == dq2[x]);
            }
        }
    }
}

/// Files one new qualifying pair into the ranked lists: it goes in front of
/// the first strictly worse entry, and whatever falls past the cap is cut.
#[verifier::rlimit(100)]
#[verifier::spinoff_prover]
fn search_insert_pair(
    Ghost(q): Ghost<QueryV>,
    Ghost(pq): Ghost<Seq<(Seq<char>, ItemV)>>,
    Ghost(all): Ghost<Seq<ItemV>>,
    Ghost(i): Ghost<int>,
    matches: &mut Vec<(String, Item)>,
    scores: &mut Vec<usize>,
    num_answers: usize,
    s: &String,
    item: &Item,
    distance: usize,
)
    requires
        0 <= i < all.len(),
        item@ == all[i],
        pair_qualifies(q, (s@, item@)),
        distance as int == pair_distance(q, (s@, item@)),
        search_top_inv(q, pq, pairs_view(old(matches)@), old(scores)@, num_answers as int),
        !pairs_view(old(matches)@).contains((s@, item@)),
        forall|k: int|
            0 <= k < old(matches)@.len() ==> exists|idx: int|
                0 <= idx < all.len() && ((#[trigger] old(matches)@[k]).1)@ == all[idx],
    ensures
        search_top_inv(
            q,
            pq.push((s@, item@)),
            pairs_view(final(matches)@),
            final(scores)@,
            num_answers as int,
        ),
        forall|k: int|
            0 <= k < final(matches)@.len() ==> exists|idx: int|
                0 <= idx < all.len() && ((#[trigger] final(matches)@[k]).1)@ == all[idx],
{
    let ghost p = (s@, item@);
    let ghost dq = distinct_pairs(pq);
    let ghost old_mv = pairs_view(old(matches)@);
    let ghost old_sc = old(scores)@;
    proof {
        assert(pq.push(p).drop_last() =~= pq);
        assert(pq.push(p).last() == p);
        lemma_distinct_contains(pq, p);
    }
    let ghost dq2 = distinct_pairs(pq.push(p));
    let mlen = matches.len();
    let mut pos: usize = 0;
    while pos < mlen && !(distance < scores[pos])
        invariant
            pos <= mlen,
            mlen == scores@.len(),
            scores@ == old_sc,
            forall|k: int| 0 <= k < pos ==> (#[trigger] scores@[k]) <= distance,
        decreases mlen - pos,
    {
        pos += 1;
    }
    if pos < mlen || mlen < num_answers {
        let pair = (s.clone(), item.clone());
        assert(pair.0@ == p.0 && pair.1@ == p.1);
        matches.insert(pos, pair);
        scores.insert(pos, distance);
        let ghost mv1 = pairs_view(matches@);
        let ghost sc1 = scores@;
        proof {
            assert(mv1 =~= old_mv.insert(pos as int, p));
        }
        if matches.len() > num_answers {
            matches.truncate(num_answers);
            scores.truncate(num_answers);
            proof {
                assert(pairs_view(matches@) =~= mv1.subrange(0, num_answers as int));
            }
        }
        proof {
            let mv2 = pairs_view(matches@);
            let sc2 = scores@;
            let num = num_answers as int;
            if mv1.len() <= num {
                assert(mv2 =~= mv1 && sc2 =~= sc1);
            } else {
                assert(mv2 =~= mv1.subrange(0, num) && sc2 =~= sc1.subrange(0, num));
            }
            lemma_search_insert_ok(
                q,
                pq,
                p,
                old_mv,
                old_sc,
                mv1,
                sc1,
                mv2,
                sc2,
                num,
                pos as int,
                distance,
            );
            old_mv.insert_ensures(pos as int, p);
            // every collected item is still one of the store's items
            assert forall|k: int| 0 <= k < matches@.len() implies exists|idx: int|
                0 <= idx < all.len() && ((#[trigger] matches@[k]).1)@ == all[idx] by {
                assert((matches@[k].1)@ == mv2[k].1);
                assert(mv2[k] == mv1[k]);
                if k == pos as int {
                    assert(mv1[k].1 == all[i]);
                } else {
                    let k0 = if k < pos as int {
                        k
                    } else {
                        k - 1
                    };
                    assert(mv1[k] == old_mv[k0]);
                    assert(old_mv[k0].1 == (old(matches)@[k0].1)@);
                }
            }
        }
    } else {
        proof {
            assert(pos == mlen && mlen >= num_answers);
            assert(old_mv.len() == num_answers);
            let num = num_answers as int;
            if pq.contains(p) {
                assert(dq2 == dq);
            } else {
                assert(dq2 =~= dq.push(p));
                assert forall|k: int| 0 <= k < old_mv.len() implies dq2.contains(
                    #[trigger] old_mv[k],
                ) by {
                    let a = choose|a: int| 0 <= a < dq.len() && dq[a] == old_mv[k];
                    assert(dq2[a] == old_mv[k]);
                }
                assert(dq.len() >= num);
                assert forall|a: int| 0 <= a < dq2.len() && !old_mv.contains(
                    #[trigger] dq2[a],
                ) implies old_mv.len() == num && (old_mv.len() > 0 ==> pair_distance(q, dq2[a])
                    >= old_sc[old_mv.len() - 1] as int) by {
                    if a < dq.len() {
                        assert(dq2[a] == dq[a]);
                    } else {
                        assert(dq2[a] == p);
                        if old_mv.len() > 0 {
                            assert(old_sc[old_mv.len() - 1] <= distance);
                        }
                    }
                }
                // ties keep encounter order: the skipped pair joins the
                // distinct set at the end and is never collected
                assert forall|a: int, b: int, x: int, y: int|
                    #![trigger old_mv[a], old_mv[b], dq2[x], dq2[y]]
                    0 <= a < b < old_mv.len() && 0 <= x < dq2.len() && 0 <= y < dq2.len()
                        && old_mv[a] == dq2[x] && old_mv[b] == dq2[y] && pair_distance(
                        q,
                        old_mv[a],
                    ) == pair_distance(q, old_mv[b]) implies x < y by {
                    if x == dq.len() {
                        assert(old_mv.contains(p)) by {
                            assert(old_mv[a] == p);
                        }
                        assert(false);
                    }
                    if y == dq.len() {
                        assert(old_mv.contains(p)) by {
                            assert(old_mv[b] == p);
                        }
                        assert(false);
                    }
                    assert(dq2[x] == dq[x] && dq2[y] == dq[y]);
                }
                assert forall|x: int, y: int|
                    0 <= x < y < dq2.len() && pair_distance(q, #[trigger] dq2[x])
                        == pair_distance(q, #[trigger] dq2[y]) && old_mv.contains(
                        dq2[y],
                    ) implies old_mv.contains(dq2[x]) by {
                    if y == dq.len() {
                        assert(dq2[y] == p);
                        assert(false);
                    }
                    assert(dq2[x] == dq[x] && dq2[y] == dq[y]);
                }
            }
        }
    }
}

/// Whether the accumulated result already holds this (string, item) pair;
/// items are told apart by their identifier.
fn contains_pair(v: &Vec<(String, Item)>, s: &String, item: &Item) -> (r: bool)
    ensures
        r == exists|k: int|
            0 <= k < v@.len() && (#[trigger] v@[k]).0@ == s@ && v@[k].1.uid == item.uid,
{
    let n = v.len();
    let mut k: usize = 0;
    while k < n
        invariant
            k <= n,
            n == v@.len(),
            forall|l: int|
                0 <= l < k ==> !((#[trigger] v@[l]).0@ == s@ && v@[l].1.uid == item.uid),
        decreases n - k,
    {
        if v[k].1.uid == item.uid && v[k].0 == *s {
            return true;
        }
        k += 1;
    }
    false
}

proof fn lemma_min_attained(q: QueryV, s: Seq<(Seq<char>, ItemV)>)
    requires
        s.len() > 0,
        forall|k: int| 0 <= k < s.len() ==> pair_distance(q, #[trigger] s[k]) < usize::MAX,
    ensures
        exists|k: int|
            0 <= k < s.len() && pair_distance(q, #[trigger] s[k]) as int == min_distance(q, s),
    decreases s.len(),
{
    if s.len() == 1 {
        reveal_with_fuel(min_distance, 2);
        assert(s.drop_last() =~= Seq::<(Seq<char>, ItemV)>::empty());
        assert(pair_distance(q, s[0]) as int == min_distance(q, s));
    } else {
        let rest = s.drop_last();
        lemma_min_attained(q, rest);
        let k0 = choose|k: int|
            0 <= k < rest.len() && pair_distance(q, #[trigger] rest[k]) as int == min_distance(
                q,
                rest,
            );
        if pair_distance(q, s.last()) < min_distance(q, rest) {
            assert(pair_distance(q, s[s.len() - 1]) as int == min_distance(q, s));
        } else {
            assert(s[k0] == rest[k0]);
            assert(pair_distance(q, s[k0]) as int == min_distance(q, s));
        }
    }
}

proof fn lemma_ties_has(q: QueryV, s: Seq<(Seq<char>, ItemV)>, d: int, k: int)
    requires
        0 <= k < s.len(),
        pair_distance(q, s[k]) == d,
    ensures
        ties(q, s, d).contains(s[k]),
    decreases s.len(),
{
    if k == s.len() - 1 {
        let t = ties(q, s, d);
        assert(t[t.len() - 1] == s.last());
    } else {
        lemma_ties_has(q, s.drop_last(), d, k);
        let t0 = ties(q, s.drop_last(), d);
        let l = choose|l: int| 0 <= l < t0.len() && t0[l] == s.drop_last()[k];
        assert(ties(q, s, d)[l] == s[k]);
    }
}

/// Whenever at least one candidate satisfies the category-mask, length and
/// distance constraints, the tied-best set is non-empty, and every pair in
/// it lies at exactly the returned minimum distance.
pub proof fn lemma_best_answers_complete(q: QueryV, items: Seq<ItemV>)
    requires
        qualifying_pairs(q, items).len() > 0,
        forall|k: int|
            0 <= k < qualifying_pairs(q, items).len() ==> (#[trigger] qualifying_pairs(
                q,
                items,
            )[k]).0.len() <= usize::MAX,
    ensures
        ({
            let quals = qualifying_pairs(q, items);
            let best = min_distance(q, quals);
            let result = distinct_pairs(ties(q, quals, best));
            &&& result.len() > 0
            &&& forall|k: int|
                0 <= k < result.len() ==> pair_distance(q, #[trigger] result[k]) == best
        }),
{
    let quals = qualifying_pairs(q, items);
    let best = min_distance(q, quals);
    let x = ties(q, quals, best);
    assert forall|k: int| 0 <= k < quals.len() implies pair_distance(q, #[trigger] quals[k])
        < usize::MAX by {
        lemma_qualifying_pairs_elements(q, items);
        assert(pair_qualifies(q, quals[k]));
    }
    lemma_min_attained(q, quals);
    let k = choose|k: int|
        0 <= k < quals.len() && pair_distance(q, #[trigger] quals[k]) as int == best;
    lemma_ties_has(q, quals, best, k);
    lemma_distinct_contains(x, quals[k]);
    let result = distinct_pairs(x);
    assert(result.contains(quals[k]));
    assert(result.len() > 0);
    assert forall|l: int| 0 <= l < result.len() implies pair_distance(q, #[trigger] result[l])
        == best by {
        let p = result[l];
        assert(result.contains(p));
        lemma_distinct_contains(x, p);
        lemma_ties_contains(q, quals, best, p);
    }
}

/// Removing an identifier and then looking it up finds nothing.
pub proof fn lemma_remove_then_get(s: SearchV, uid: u32)
    requires
        search_wf(s),
        spec_uid_index(s.items, uid) is Some,
    ensures
        spec_uid_index(s.items.remove(spec_uid_index(s.items, uid).unwrap()), uid) is None,
{
    let i = spec_uid_index(s.items, uid).unwrap();
    lemma_uid_index(s.items, uid);
    let removed = s.items.remove(i);
    s.items.remove_ensures(i);
    lemma_uid_index(removed, uid);
    match spec_uid_index(removed, uid) {
        Some(j) => {
            let j0 = if j < i {
                j
            } else {
                j + 1
            };
            assert(removed[j] == s.items[j0]);
            assert(s.items[j0].uid == s.items[i].uid);
            assert(false);
        }
        None => {}
    }
}

/// Editing the item under an identifier and then looking that identifier up
/// yields exactly the new fields under the same identifier and position.
pub proof fn lemma_edit_then_get(s: SearchV, uid: u32, x: ItemV)
    requires
        search_wf(s),
        spec_uid_index(s.items, uid) is Some,
        x.uid == uid,
    ensures
        ({
            let i = spec_uid_index(s.items, uid).unwrap();
            let edited = s.items.update(i, x);
            &&& spec_uid_index(edited, uid) == Some(i)
            &&& edited[i] == x
        }),
{
    let i = spec_uid_index(s.items, uid).unwrap();
    lemma_uid_index(s.items, uid);
    let edited = s.items.update(i, x);
    assert forall|j: int| 0 <= j < i implies (#[trigger] edited[j]).uid != uid by {
        assert(edited[j] == s.items[j]);
    }
    lemma_uid_index_from_witness(edited, uid, i);
}

/// Browsing a prefix of the store yields a prefix of the full browse list.
pub proof fn lemma_browse_pairs_prefix(items: Seq<ItemV>, q: QueryV, i: int)
    requires
        0 <= i <= items.len(),
    ensures
        browse_pairs(items.take(i), q).len() <= browse_pairs(items, q).len(),
        browse_pairs(items.take(i), q) == browse_pairs(items, q).take(
            browse_pairs(items.take(i), q).len() as int,
        ),
    decreases items.len() - i,
{
    if i == items.len() {
        assert(items.take(i) =~= items);
        assert(browse_pairs(items, q).take(browse_pairs(items, q).len() as int) =~= browse_pairs(
            items,
            q,
        ));
    } else {
        lemma_browse_pairs_prefix(items, q, i + 1);
        assert(items.take(i + 1).drop_last() =~= items.take(i));
        assert(items.take(i + 1).last() == items[i]);
        let a = browse_pairs(items.take(i), q);
        let b = browse_pairs(items.take(i + 1), q);
        let full = browse_pairs(items, q);
        assert(a.len() <= b.len());
        assert(a =~= b.take(a.len() as int));
        assert(a =~= full.take(a.len() as int));
    }
}

} // verus!
