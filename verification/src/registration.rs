//! Registrations: the named sets of test parameters that the configuration
//! service hands to workers.
use vstd::prelude::*;

use crate::text;

verus! {

/// Text by text, each name at most once.
#[derive(Debug)]
pub struct FieldMap {
    entries: Vec<(String, String)>,
}

/// Whether no name occurs twice in `entries`.
pub open spec fn distinct_names(entries: Seq<(String, String)>) -> bool {
    forall|i: int, j: int|
        0 <= i < j < entries.len() ==> (#[trigger] entries[i]).0@ != (#[trigger] entries[j]).0@
}

/// The map that `entries` spell, a later entry in place of an earlier one of
/// its name.
pub open spec fn spelled(entries: Seq<(String, String)>) -> Map<Seq<char>, Seq<char>>
    decreases entries.len(),
{
    if entries.len() == 0 {
        Map::empty()
    } else {
        spelled(entries.drop_last()).insert(entries.last().0@, entries.last().1@)
    }
}

/// Where no name occurs twice, every entry is found under its name.
pub proof fn lemma_spelled_at(entries: Seq<(String, String)>, i: int)
    requires
        distinct_names(entries),
        0 <= i < entries.len(),
    ensures
        spelled(entries).contains_key(entries[i].0@),
        spelled(entries)[entries[i].0@] == entries[i].1@,
    decreases entries.len(),
{
    if i < entries.len() - 1 {
        let rest = entries.drop_last();
        assert forall|a: int, b: int| 0 <= a < b < rest.len() implies (#[trigger] rest[a]).0@ != (
        #[trigger] rest[b]).0@ by {
            assert(rest[a] == entries[a] && rest[b] == entries[b]);
        }
        lemma_spelled_at(rest, i);
        assert(rest[i] == entries[i]);
        assert(entries[i].0@ != entries[entries.len() - 1].0@);
    }
}

/// What is found under a name is some entry's.
pub proof fn lemma_spelled_from(entries: Seq<(String, String)>, name: Seq<char>) -> (i: int)
    requires
        spelled(entries).contains_key(name),
    ensures
        0 <= i < entries.len(),
        entries[i].0@ == name,
        spelled(entries)[name] == entries[i].1@,
    decreases entries.len(),
{
    if entries.last().0@ == name {
        entries.len() - 1
    } else {
        let i = lemma_spelled_from(entries.drop_last(), name);
        assert(entries.drop_last()[i] == entries[i]);
        i
    }
}

/// Only the names and values decide what entries spell.
proof fn lemma_same_spelling(a: Seq<(String, String)>, b: Seq<(String, String)>)
    requires
        a.len() == b.len(),
        forall|i: int|
            0 <= i < a.len() ==> (#[trigger] a[i]).0@ == b[i].0@ && a[i].1@ == b[i].1@,
    ensures
        spelled(a) == spelled(b),
        distinct_names(a) ==> distinct_names(b),
    decreases a.len(),
{
    if a.len() > 0 {
        let (c, d) = (a.drop_last(), b.drop_last());
        assert forall|i: int| 0 <= i < c.len() implies (#[trigger] c[i]).0@ == d[i].0@ && c[i].1@
            == d[i].1@ by {
            assert(c[i] == a[i] && d[i] == b[i]);
        }
        lemma_same_spelling(c, d);
        assert(a[a.len() - 1].0@ == b[b.len() - 1].0@);
    }
    assert(distinct_names(a) ==> distinct_names(b)) by {
        if distinct_names(a) {
            assert forall|i: int, j: int| 0 <= i < j < b.len() implies (#[trigger] b[i]).0@ != (
            #[trigger] b[j]).0@ by {
                assert(a[i].0@ != a[j].0@);
            }
        }
    }
}

impl View for FieldMap {
    type V = Map<Seq<char>, Seq<char>>;

    closed spec fn view(&self) -> Map<Seq<char>, Seq<char>> {
        spelled(self.entries@)
    }
}

impl FieldMap {
    #[verifier::type_invariant]
    spec fn names_are_distinct(&self) -> bool {
        distinct_names(self.entries@)
    }

    /// No fields.
    pub fn new() -> (r: FieldMap)
        ensures
            r@ == Map::<Seq<char>, Seq<char>>::empty(),
    {
        FieldMap { entries: Vec::new() }
    }

    /// The value of the field `name`, if there is one.
    pub fn get(&self, name: &str) -> (r: Option<&String>)
        ensures
            r is Some <==> self@.contains_key(name@),
            r matches Some(value) ==> value@ == self@[name@],
    {
        proof {
            use_type_invariant(self);
        }
        let mut i: usize = 0;
        while i < self.entries.len()
            invariant
                i <= self.entries.len(),
                distinct_names(self.entries@),
                forall|k: int| 0 <= k < i ==> (#[trigger] self.entries@[k]).0@ != name@,
            decreases self.entries.len() - i,
        {
            if text::same_text(self.entries[i].0.as_str(), name) {
                proof {
                    lemma_spelled_at(self.entries@, i as int);
                }
                return Some(&self.entries[i].1);
            }
            i = i + 1;
        }
        proof {
            if self@.contains_key(name@) {
                let k = lemma_spelled_from(self.entries@, name@);
                assert(self.entries@[k].0@ == name@);
            }
        }
        None
    }

    /// Sets the field `name`, in place of any value that it had.
    pub fn insert(&mut self, name: String, value: String)
        ensures
            final(self)@ == old(self)@.insert(name@, value@),
    {
        proof {
            use_type_invariant(&*self);
        }
        let mut entries: Vec<(String, String)> = Vec::new();
        let mut i: usize = 0;
        let ghost all = self.entries@;
        assert(all.take(0) =~= Seq::<(String, String)>::empty());
        while i < self.entries.len()
            invariant
                i <= self.entries.len(),
                all == self.entries@,
                distinct_names(all),
                spelled(entries@) == spelled(all.take(i as int)).remove(name@),
                distinct_names(entries@),
                forall|k: int| 0 <= k < entries@.len() ==> (#[trigger] entries@[k]).0@ != name@,
                forall|k: int, m: int|
                    0 <= k < entries@.len() && i <= m < all.len() ==> (#[trigger] entries@[k]).0@
                        != (#[trigger] all[m]).0@,
            decreases self.entries.len() - i,
        {
            let ghost before = entries@;
            assert(all.take(i + 1).drop_last() =~= all.take(i as int));
            assert(all.take(i + 1).last() == all[i as int]);
            if text::same_text(self.entries[i].0.as_str(), name.as_str()) {
                assert(spelled(entries@) =~= spelled(all.take(i + 1)).remove(name@));
            } else {
                let entry = (self.entries[i].0.clone(), self.entries[i].1.clone());
                entries.push(entry);
                assert(entries@.drop_last() =~= before);
                assert(spelled(entries@) =~= spelled(all.take(i + 1)).remove(name@));
                assert forall|k: int, m: int|
                    0 <= k < entries@.len() && i + 1 <= m < all.len() implies (
                #[trigger] entries@[k]).0@ != (#[trigger] all[m]).0@ by {
                    if k == before.len() {
                        assert(all[i as int].0@ != all[m].0@);
                    } else {
                        assert(entries@[k] == before[k]);
                    }
                }
                assert forall|a: int, b: int| 0 <= a < b < entries@.len() implies (
                #[trigger] entries@[a]).0@ != (#[trigger] entries@[b]).0@ by {
                    assert(entries@[a] == before[a]);
                    if b == before.len() {
                        assert(before[a].0@ != all[i as int].0@);
                    } else {
                        assert(entries@[b] == before[b]);
                    }
                }
            }
            i = i + 1;
        }
        assert(all.take(i as int) =~= all);
        let ghost kept = entries@;
        entries.push((name, value));
        proof {
            assert(entries@.drop_last() =~= kept);
            assert(spelled(entries@) =~= spelled(all).insert(name@, value@));
            assert forall|a: int, b: int| 0 <= a < b < entries@.len() implies (
            #[trigger] entries@[a]).0@ != (#[trigger] entries@[b]).0@ by {
                assert(entries@[a] == kept[a]);
                if b < kept.len() {
                    assert(entries@[b] == kept[b]);
                }
            }
        }
        *self = FieldMap { entries };
    }

    /// Whether `other` has every field that this has, with the same value.
    fn is_within(&self, other: &FieldMap) -> (r: bool)
        ensures
            r == self@.submap_of(other@),
    {
        proof {
            use_type_invariant(self);
        }
        let mut i: usize = 0;
        while i < self.entries.len()
            invariant
                i <= self.entries.len(),
                distinct_names(self.entries@),
                forall|k: int|
                    0 <= k < i ==> other@.contains_key((#[trigger] self.entries@[k]).0@)
                        && other@[self.entries@[k].0@] == self.entries@[k].1@,
            decreases self.entries.len() - i,
        {
            let found = match other.get(self.entries[i].0.as_str()) {
                Some(value) => *value == self.entries[i].1,
                None => false,
            };
            if !found {
                proof {
                    lemma_spelled_at(self.entries@, i as int);
                }
                return false;
            }
            i = i + 1;
        }
        assert forall|name: Seq<char>| #[trigger] self@.contains_key(name) implies other@.contains_key(
            name,
        ) && self@[name] == other@[name] by {
            let k = lemma_spelled_from(self.entries@, name);
            assert(self.entries@[k].0@ == name);
        }
        true
    }

    /// Whether both have the same fields, with the same values.
    pub fn same_fields(&self, other: &FieldMap) -> (r: bool)
        ensures
            r == (self@ == other@),
    {
        let r = self.is_within(other) && other.is_within(self);
        proof {
            if r {
                assert forall|name: Seq<char>|
                    self@.dom().contains(name) == other@.dom().contains(name) && (
                    self@.dom().contains(name) ==> self@[name] == other@[name]) by {}
                assert(self@ =~= other@);
            }
        }
        r
    }

    /// Every field, each name once, in no order that callers may rely on.
    pub fn entries(&self) -> (r: &Vec<(String, String)>)
        ensures
            distinct_names(r@),
            spelled(r@) == self@,
    {
        proof {
            use_type_invariant(self);
        }
        &self.entries
    }
}

impl Clone for FieldMap {
    fn clone(&self) -> (r: FieldMap)
        ensures
            r@ == self@,
    {
        proof {
            use_type_invariant(self);
        }
        let mut entries: Vec<(String, String)> = Vec::new();
        let mut i: usize = 0;
        while i < self.entries.len()
            invariant
                i <= self.entries.len(),
                entries@.len() == i,
                forall|k: int|
                    0 <= k < i ==> self.entries@[k].0@ == (#[trigger] entries@[k]).0@
                        && self.entries@[k].1@ == entries@[k].1@,
            decreases self.entries.len() - i,
        {
            let entry = (self.entries[i].0.clone(), self.entries[i].1.clone());
            entries.push(entry);
            i = i + 1;
        }
        proof {
            assert forall|k: int| 0 <= k < self.entries@.len() implies (
            #[trigger] self.entries@[k]).0@ == entries@[k].0@ && self.entries@[k].1@
                == entries@[k].1@ by {
                assert(entries@[k].0@ == self.entries@[k].0@);
            }
            lemma_same_spelling(self.entries@, entries@);
        }
        FieldMap { entries }
    }
}

/// A named set of test parameters.
#[derive(Debug)]
pub struct Registration {
    pub id: String,
    pub fields: FieldMap,
}

/// What a registration says: its name, and its parameters by name.
#[verifier::ext_equal]
pub struct RegistrationView {
    pub id: Seq<char>,
    pub fields: Map<Seq<char>, Seq<char>>,
}

impl View for Registration {
    type V = RegistrationView;

    open spec fn view(&self) -> RegistrationView {
        RegistrationView { id: self.id@, fields: self.fields@ }
    }
}

impl Registration {
    /// Whether both say the same.
    pub fn same_registration(&self, other: &Registration) -> (r: bool)
        ensures
            r == (self@ == other@),
    {
        self.id == other.id && self.fields.same_fields(&other.fields)
    }
}

impl Clone for Registration {
    fn clone(&self) -> (r: Registration)
        ensures
            r@ == self@,
    {
        Registration { id: self.id.clone(), fields: self.fields.clone() }
    }
}

/// What is known of a name that a set of fields may lack.
pub open spec fn field(fields: Map<Seq<char>, Seq<char>>, name: Seq<char>) -> Option<Seq<char>> {
    if fields.contains_key(name) {
        Some(fields[name])
    } else {
        None
    }
}

} // verus!
