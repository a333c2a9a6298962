//! A map keyed by text that keeps its entries in the byte order of their keys.
//!
//! The order makes the stored sequence a function of the map's contents: two
//! maps with the same contents hold the same entries at the same places,
//! whatever the order in which they were filled.

use crate::text::{
    lemma_precedes_asymmetric, lemma_precedes_irreflexive, lemma_precedes_transitive, order_text,
    precedes, text_bytes, Order,
};
use vstd::prelude::*;

verus! {

/// A finite map from names to values, stored in ascending order of the names.
#[derive(Debug, PartialEq, Eq)]
pub struct NameMap<T> {
    entries: Vec<(String, T)>,
}

/// The names of `entries` ascend strictly in the byte order.
pub open spec fn ascending<T>(entries: Seq<(String, T)>) -> bool {
    forall|i: int, j: int|
        0 <= i < j < entries.len() ==> precedes(
            text_bytes(#[trigger] entries[i].0@),
            text_bytes(#[trigger] entries[j].0@),
        )
}

/// Some entry of `entries` carries the name `name`.
pub open spec fn names<T>(entries: Seq<(String, T)>, name: Seq<char>) -> bool {
    exists|i: int| 0 <= i < entries.len() && #[trigger] entries[i].0@ == name
}

/// A place in `entries` whose entry carries the name `name`.
pub open spec fn place_of<T>(entries: Seq<(String, T)>, name: Seq<char>) -> int {
    choose|i: int| 0 <= i < entries.len() && #[trigger] entries[i].0@ == name
}

/// The map that a sequence of entries stands for.
pub open spec fn contents<T>(entries: Seq<(String, T)>) -> Map<Seq<char>, T> {
    Map::new(|name: Seq<char>| names(entries, name), |name: Seq<char>| entries[place_of(entries, name)].1)
}

/// In an ascending sequence a name occurs at one place only.
pub proof fn lemma_place_unique<T>(entries: Seq<(String, T)>, i: int)
    requires
        ascending(entries),
        0 <= i < entries.len(),
    ensures
        names(entries, entries[i].0@),
        place_of(entries, entries[i].0@) == i,
        contents(entries).dom().contains(entries[i].0@),
        contents(entries)[entries[i].0@] == entries[i].1,
{
    let name = entries[i].0@;
    let p = place_of(entries, name);
    lemma_precedes_irreflexive(text_bytes(name));
    if p < i {
        assert(precedes(text_bytes(entries[p].0@), text_bytes(entries[i].0@)));
    } else if i < p {
        assert(precedes(text_bytes(entries[i].0@), text_bytes(entries[p].0@)));
    }
}

/// No two entries of `entries` carry the same name.
pub open spec fn distinct_names<T>(entries: Seq<(String, T)>) -> bool {
    forall|i: int, j: int|
        0 <= i < j < entries.len() ==> (#[trigger] entries[i]).0@ != (#[trigger] entries[j]).0@
}

/// The names of an ascending sequence are distinct.
pub proof fn lemma_ascending_distinct<T>(entries: Seq<(String, T)>)
    requires
        ascending(entries),
    ensures
        distinct_names(entries),
{
    assert forall|i: int, j: int| 0 <= i < j < entries.len() implies (#[trigger] entries[i]).0@ != (
    #[trigger] entries[j]).0@ by {
        assert(precedes(text_bytes(entries[i].0@), text_bytes(entries[j].0@)));
        lemma_precedes_irreflexive(text_bytes(entries[i].0@));
    }
}

/// One more entry under a new name adds that name with its value to the
/// map that a sequence stands for, and changes nothing else.
pub proof fn lemma_contents_push<T>(entries: Seq<(String, T)>, name: String, value: T)
    requires
        distinct_names(entries),
        !names(entries, name@),
    ensures
        distinct_names(entries.push((name, value))),
        contents(entries.push((name, value))) == contents(entries).insert(name@, value),
        forall|other: Seq<char>|
            names(entries.push((name, value)), other) <==> names(entries, other) || other == name@,
{
    let more = entries.push((name, value));
    assert forall|i: int, j: int| 0 <= i < j < more.len() implies (#[trigger] more[i]).0@ != (
    #[trigger] more[j]).0@ by {
        if j == entries.len() {
            assert(entries[i].0@ == more[i].0@);
        } else {
            assert(entries[i] == more[i] && entries[j] == more[j]);
        }
    }
    assert forall|other: Seq<char>| names(more, other) <==> names(entries, other) || other
        == name@ by {
        if names(entries, other) {
            let i = place_of(entries, other);
            assert(more[i].0@ == other);
        }
        if other == name@ {
            assert(more[entries.len() as int].0@ == other);
        }
        if names(more, other) {
            let i = place_of(more, other);
            if i < entries.len() {
                assert(entries[i].0@ == other);
            }
        }
    }
    assert forall|other: Seq<char>| names(more, other) implies contents(more)[other] == contents(
        entries,
    ).insert(name@, value)[other] by {
        let i = place_of(more, other);
        if other == name@ {
            if i < entries.len() {
                assert(entries[i].0@ == other);
            }
        } else {
            assert(i < entries.len());
            assert(entries[i].0@ == other);
            let k = place_of(entries, other);
            if k < i {
                assert(entries[k].0@ != entries[i].0@);
            } else if i < k {
                assert(entries[i].0@ != entries[k].0@);
            }
        }
    }
    assert(contents(more) =~= contents(entries).insert(name@, value));
}

/// Two ascending sequences whose maps agree, value by value under `f`, are
/// the same sequence under `f`: the same names at the same places, each with
/// a value that `f` does not tell apart.
pub proof fn lemma_ascending_canonical<T, U>(
    a: Seq<(String, T)>,
    b: Seq<(String, T)>,
    f: spec_fn(T) -> U,
)
    requires
        ascending(a),
        ascending(b),
        contents(a).map_values(f) == contents(b).map_values(f),
    ensures
        a.len() == b.len(),
        forall|i: int|
            0 <= i < a.len() ==> #[trigger] a[i].0@ == b[i].0@ && f(a[i].1) == f(b[i].1),
    decreases a.len(),
{
    let ma = contents(a).map_values(f);
    let mb = contents(b).map_values(f);
    if a.len() == 0 {
        if b.len() > 0 {
            lemma_place_unique(b, 0);
            assert(mb.dom().contains(b[0].0@));
            assert(ma.dom().contains(b[0].0@));
        }
    } else if b.len() == 0 {
        lemma_place_unique(a, 0);
        assert(ma.dom().contains(a[0].0@));
        assert(mb.dom().contains(a[0].0@));
    } else {
        // The last entry of either sequence carries its greatest name, and
        // the sequences name the same set, so the last names are the same.
        let la = a.len() - 1;
        let lb = b.len() - 1;
        lemma_place_unique(a, la);
        lemma_place_unique(b, lb);
        assert(ma.dom().contains(a[la].0@));
        assert(mb.dom().contains(b[lb].0@));
        assert(contents(b).dom().contains(a[la].0@));
        assert(contents(a).dom().contains(b[lb].0@));
        let pa = place_of(b, a[la].0@);
        let pb = place_of(a, b[lb].0@);
        let ka = text_bytes(a[la].0@);
        let kb = text_bytes(b[lb].0@);
        if pa < lb {
            assert(precedes(text_bytes(b[pa].0@), text_bytes(b[lb].0@)));
        }
        if pb < la {
            assert(precedes(text_bytes(a[pb].0@), text_bytes(a[la].0@)));
        }
        if pa < lb && pb < la {
            lemma_precedes_asymmetric(ka, kb);
        }
        if pa < lb && pb == la {
            lemma_precedes_irreflexive(ka);
        }
        if pa == lb && pb < la {
            lemma_precedes_irreflexive(ka);
        }
        assert(a[la].0@ == b[lb].0@);
        assert(ma[a[la].0@] == f(a[la].1));
        assert(mb[b[lb].0@] == f(b[lb].1));
        let a0 = a.drop_last();
        let b0 = b.drop_last();
        assert(ascending(a0));
        assert(ascending(b0));
        assert forall|name: Seq<char>| names(a0, name) <==> names(b0, name) by {
            if names(a0, name) {
                let i = place_of(a0, name);
                lemma_place_unique(a, i);
                assert(ma.dom().contains(name));
                assert(contents(b).dom().contains(name));
                let j = place_of(b, name);
                if j == lb {
                    assert(precedes(text_bytes(a[i].0@), text_bytes(a[la].0@)));
                    lemma_precedes_irreflexive(ka);
                }
                assert(b0[j].0@ == name);
            }
            if names(b0, name) {
                let i = place_of(b0, name);
                lemma_place_unique(b, i);
                assert(mb.dom().contains(name));
                assert(contents(a).dom().contains(name));
                let j = place_of(a, name);
                if j == la {
                    assert(precedes(text_bytes(b[i].0@), text_bytes(b[lb].0@)));
                    lemma_precedes_irreflexive(kb);
                }
                assert(a0[j].0@ == name);
            }
        }
        assert forall|name: Seq<char>| names(a0, name) implies f(contents(a0)[name]) == f(
            contents(b0)[name],
        ) by {
            let i = place_of(a0, name);
            let j = place_of(b0, name);
            lemma_place_unique(a0, i);
            lemma_place_unique(b0, j);
            lemma_place_unique(a, i);
            lemma_place_unique(b, j);
            assert(a0[i] == a[i]);
            assert(b0[j] == b[j]);
            assert(ma[name] == f(a[i].1));
            assert(mb[name] == f(b[j].1));
        }
        assert(contents(a0).map_values(f) =~= contents(b0).map_values(f));
        lemma_ascending_canonical(a0, b0, f);
        assert forall|i: int| 0 <= i < a.len() implies #[trigger] a[i].0@ == b[i].0@ && f(
            a[i].1,
        ) == f(b[i].1) by {
            if i < la {
                assert(a0[i] == a[i]);
                assert(b0[i] == b[i]);
            }
        }
    }
}

impl<T> View for NameMap<T> {
    type V = Map<Seq<char>, T>;

    closed spec fn view(&self) -> Map<Seq<char>, T> {
        contents(self.entries@)
    }
}

impl<T: View> NameMap<T> {
    /// The contents with every value taken by its view: what the map says,
    /// apart from how its texts are held in memory.
    pub open spec fn deep(&self) -> Map<Seq<char>, T::V> {
        self@.map_values(|value: T| value@)
    }
}

impl<T> NameMap<T> {
    /// The stored entries, in ascending order of their names.
    pub closed spec fn entries(&self) -> Seq<(String, T)> {
        self.entries@
    }

    #[verifier::type_invariant]
    closed spec fn ordered(&self) -> bool {
        ascending(self.entries@)
    }

    /// What every map of this type satisfies: its entries ascend, and they
    /// stand for its contents.
    pub open spec fn well_formed(&self) -> bool {
        &&& ascending(self.entries())
        &&& self@ == contents(self.entries())
    }

    /// An empty map.
    pub fn new() -> (map: NameMap<T>)
        ensures
            map@ == Map::<Seq<char>, T>::empty(),
            map.entries().len() == 0,
            map.well_formed(),
    {
        let map = NameMap { entries: Vec::new() };
        assert(map@ =~= Map::<Seq<char>, T>::empty());
        map
    }

    /// The number of entries. Every map that exists at run time is well
    /// formed, and a caller learns that here.
    pub fn len(&self) -> (n: usize)
        ensures
            n == self.entries().len(),
            self.well_formed(),
    {
        proof {
            use_type_invariant(self);
        }
        self.entries.len()
    }

    /// Whether the map has no entry.
    pub fn is_empty(&self) -> (empty: bool)
        ensures
            empty == (self.entries().len() == 0),
    {
        self.entries.len() == 0
    }

    /// The name of the entry at place `i`, counted in ascending order.
    pub fn name_at(&self, i: usize) -> (name: &String)
        requires
            i < self.entries().len(),
        ensures
            *name == self.entries()[i as int].0,
            self@.dom().contains(name@),
    {
        proof {
            use_type_invariant(self);
            lemma_place_unique(self.entries@, i as int);
        }
        &self.entries[i].0
    }

    /// The value of the entry at place `i`, counted in ascending order.
    pub fn value_at(&self, i: usize) -> (value: &T)
        requires
            i < self.entries().len(),
        ensures
            *value == self.entries()[i as int].1,
            self@.dom().contains(self.entries()[i as int].0@),
            *value == self@[self.entries()[i as int].0@],
    {
        proof {
            use_type_invariant(self);
            lemma_place_unique(self.entries@, i as int);
        }
        &self.entries[i].1
    }

    /// The place where `name` stands or would stand, and whether it stands
    /// there.
    fn locate(&self, name: &str) -> (found: (usize, bool))
        ensures
            found.0 <= self.entries().len(),
            forall|i: int|
                0 <= i < found.0 ==> precedes(
                    text_bytes(#[trigger] self.entries()[i].0@),
                    text_bytes(name@),
                ),
            found.1 ==> found.0 < self.entries().len() && self.entries()[found.0 as int].0@
                == name@,
            !found.1 && found.0 < self.entries().len() ==> precedes(
                text_bytes(name@),
                text_bytes(self.entries()[found.0 as int].0@),
            ),
            found.1 == self@.dom().contains(name@),
            found.1 ==> self@[name@] == self.entries()[found.0 as int].1,
    {
        proof {
            use_type_invariant(self);
        }
        let mut p: usize = 0;
        let mut hit = false;
        while p < self.entries.len()
            invariant_except_break
                !hit,
            invariant
                p <= self.entries@.len(),
                forall|i: int|
                    0 <= i < p ==> precedes(
                        text_bytes(#[trigger] self.entries@[i].0@),
                        text_bytes(name@),
                    ),
            ensures
                hit ==> p < self.entries@.len() && self.entries@[p as int].0@ == name@,
                !hit && p < self.entries@.len() ==> precedes(
                    text_bytes(name@),
                    text_bytes(self.entries@[p as int].0@),
                ),
            decreases self.entries@.len() - p,
        {
            match order_text(self.entries[p].0.as_str(), name) {
                Order::Before => {
                    p += 1;
                },
                Order::Same => {
                    hit = true;
                    break ;
                },
                Order::After => {
                    break ;
                },
            }
        }
        proof {
            let e = self.entries@;
            if hit {
                lemma_place_unique(e, p as int);
            } else if names(e, name@) {
                let q = place_of(e, name@);
                lemma_precedes_irreflexive(text_bytes(name@));
                if q < p {
                    assert(precedes(text_bytes(e[q].0@), text_bytes(name@)));
                } else if q > p {
                    assert(precedes(text_bytes(e[p as int].0@), text_bytes(e[q].0@)));
                    lemma_precedes_asymmetric(text_bytes(name@), text_bytes(e[p as int].0@));
                }
            }
        }
        (p, hit)
    }

    /// Whether the map has an entry under `name`.
    pub fn contains_key(&self, name: &str) -> (present: bool)
        ensures
            present == self@.dom().contains(name@),
    {
        let (_, hit) = self.locate(name);
        hit
    }

    /// The value stored under `name`, if there is one.
    pub fn get(&self, name: &str) -> (value: Option<&T>)
        ensures
            value is Some == self@.dom().contains(name@),
            value matches Some(v) ==> *v == self@[name@],
    {
        let (p, hit) = self.locate(name);
        if hit {
            Some(&self.entries[p].1)
        } else {
            None
        }
    }

    /// Stores `value` under `name`, in place of what stood there before, and
    /// hands back what stood there.
    pub fn insert(&mut self, name: String, value: T) -> (previous: Option<T>)
        ensures
            final(self)@ == old(self)@.insert(name@, value),
            previous is Some == old(self)@.dom().contains(name@),
            previous matches Some(v) ==> v == old(self)@[name@],
            final(self).well_formed(),
    {
        let (p, hit) = self.locate(name.as_str());
        let ghost before = self.entries@;
        let ghost key = name@;
        proof {
            use_type_invariant(&*self);
        }
        let mut entries: Vec<(String, T)> = Vec::new();
        std::mem::swap(&mut self.entries, &mut entries);
        let previous = if hit {
            let (_, v) = entries.remove(p);
            Some(v)
        } else {
            None
        };
        let ghost middle = entries@;
        assert(ascending(middle)) by {
            assert forall|i: int, j: int| 0 <= i < j < middle.len() implies precedes(
                text_bytes(#[trigger] middle[i].0@),
                text_bytes(#[trigger] middle[j].0@),
            ) by {
                let oi = if hit && i >= p { i + 1 } else { i };
                let oj = if hit && j >= p { j + 1 } else { j };
                assert(middle[i] == before[oi]);
                assert(middle[j] == before[oj]);
            }
        }
        assert forall|j: int| p <= j < middle.len() implies precedes(
            text_bytes(key),
            text_bytes(#[trigger] middle[j].0@),
        ) by {
            let oj = if hit { j + 1 } else { j };
            assert(middle[j] == before[oj]);
            if hit {
                assert(precedes(text_bytes(before[p as int].0@), text_bytes(before[oj].0@)));
            } else if j > p {
                assert(middle[p as int] == before[p as int]);
                assert(precedes(text_bytes(before[p as int].0@), text_bytes(before[j].0@)));
                lemma_precedes_transitive(
                    text_bytes(key),
                    text_bytes(before[p as int].0@),
                    text_bytes(before[j].0@),
                );
            }
        }
        assert forall|i: int| 0 <= i < p implies precedes(
            text_bytes(#[trigger] middle[i].0@),
            text_bytes(key),
        ) by {
            assert(middle[i] == before[i]);
        }
        entries.insert(p, (name, value));
        proof {
            let after = entries@;
            assert(ascending(after)) by {
                assert forall|i: int, j: int| 0 <= i < j < after.len() implies precedes(
                    text_bytes(#[trigger] after[i].0@),
                    text_bytes(#[trigger] after[j].0@),
                ) by {
                    if i < p && j > p {
                        assert(after[i] == middle[i]);
                        assert(after[j] == middle[j - 1]);
                        lemma_precedes_transitive(
                            text_bytes(after[i].0@),
                            text_bytes(key),
                            text_bytes(after[j].0@),
                        );
                    } else if i < p && j == p {
                        assert(after[i] == middle[i]);
                    } else if i < p {
                        assert(after[i] == middle[i]);
                        assert(after[j] == middle[j]);
                    } else if i == p {
                        assert(after[j] == middle[j - 1]);
                    } else {
                        assert(after[i] == middle[i - 1]);
                        assert(after[j] == middle[j - 1]);
                    }
                }
            }
            lemma_place_unique(after, p as int);
            assert forall|other: Seq<char>| other != key implies (names(after, other) <==> names(
                before,
                other,
            )) && (names(before, other) ==> contents(after)[other] == contents(before)[other]) by {
                if names(before, other) {
                    let q = place_of(before, other);
                    lemma_place_unique(before, q);
                    let m = if hit && q > p { q - 1 } else { q };
                    assert(middle[m] == before[q]);
                    let r = if m >= p { m + 1 } else { m };
                    assert(after[r] == middle[m]);
                    lemma_place_unique(after, r);
                }
                if names(after, other) {
                    let r = place_of(after, other);
                    let m = if r > p { r - 1 } else { r };
                    assert(after[r] == middle[m]);
                    let q = if hit && m >= p { m + 1 } else { m };
                    assert(middle[m] == before[q]);
                }
            }
            assert(contents(after) =~= contents(before).insert(key, value));
        }
        self.entries = entries;
        previous
    }

    /// Takes the entry with the greatest name out of the map, if the map has
    /// an entry.
    pub fn pop_last(&mut self) -> (last: Option<(String, T)>)
        ensures
            last is Some == (old(self).entries().len() > 0),
            last matches Some(entry) ==> {
                &&& entry == old(self).entries().last()
                &&& final(self).entries() == old(self).entries().drop_last()
                &&& final(self)@ == old(self)@.remove(entry.0@)
            },
            last is None ==> final(self).entries() == old(self).entries() && final(self)@ == old(
                self,
            )@,
            final(self).well_formed(),
    {
        proof {
            use_type_invariant(&*self);
        }
        let ghost before = self.entries@;
        let mut entries: Vec<(String, T)> = Vec::new();
        std::mem::swap(&mut self.entries, &mut entries);
        let last = entries.pop();
        proof {
            let after = entries@;
            if before.len() > 0 {
                let gone = before.last();
                assert(after =~= before.drop_last());
                assert(ascending(after)) by {
                    assert forall|i: int, j: int| 0 <= i < j < after.len() implies precedes(
                        text_bytes(#[trigger] after[i].0@),
                        text_bytes(#[trigger] after[j].0@),
                    ) by {
                        assert(after[i] == before[i]);
                        assert(after[j] == before[j]);
                    }
                }
                lemma_place_unique(before, before.len() - 1);
                assert forall|name: Seq<char>| name != gone.0@ implies (names(after, name)
                    <==> names(before, name)) && (names(after, name) ==> contents(after)[name]
                    == contents(before)[name]) by {
                    if names(before, name) {
                        let q = place_of(before, name);
                        lemma_place_unique(before, q);
                        assert(after[q] == before[q]);
                        lemma_place_unique(after, q);
                    }
                    if names(after, name) {
                        let q = place_of(after, name);
                        assert(after[q] == before[q]);
                    }
                }
                assert(!names(after, gone.0@)) by {
                    if names(after, gone.0@) {
                        let q = place_of(after, gone.0@);
                        assert(after[q] == before[q]);
                        assert(precedes(
                            text_bytes(before[q].0@),
                            text_bytes(before[before.len() - 1].0@),
                        ));
                        lemma_precedes_irreflexive(text_bytes(gone.0@));
                    }
                }
                assert(contents(after) =~= contents(before).remove(gone.0@));
            } else {
                assert(after =~= before);
            }
        }
        self.entries = entries;
        last
    }
}

} // verus!
