//! The set of profiles: a mapping from names to profiles, kept as a list in
//! which no name occurs twice.

use crate::profile::ProfileConfig;
use crate::profile::ProfileConfigView;
use crate::text::str_eq;
use vstd::prelude::*;
use vstd::string::*;

verus! {

/// A name with the profile it stands for.
pub type Entry = (String, ProfileConfig);

/// The names of the entries are pairwise different.
pub open spec fn distinct_names(entries: Seq<Entry>) -> bool {
    forall|i: int, j: int|
        0 <= i < j < entries.len() ==> (#[trigger] entries[i]).0@ != (#[trigger] entries[j]).0@
}

/// The mapping that a list of entries stands for: each name with its profile,
/// and where a name occurs more than once, with the last of its profiles.
pub open spec fn entries_map(entries: Seq<Entry>) -> Map<Seq<char>, ProfileConfigView>
    decreases entries.len(),
{
    if entries.len() == 0 {
        Map::empty()
    } else {
        entries_map(entries.drop_last()).insert(entries.last().0@, entries.last().1@)
    }
}

/// The names in the mapping of a list are the names in the list.
pub proof fn lemma_entries_map_names(entries: Seq<Entry>, name: Seq<char>)
    ensures
        entries_map(entries).contains_key(name) <==> exists|i: int|
            0 <= i < entries.len() && (#[trigger] entries[i]).0@ == name,
    decreases entries.len(),
{
    if entries.len() > 0 {
        let front = entries.drop_last();
        lemma_entries_map_names(front, name);
        if entries_map(entries).contains_key(name) {
            if entries.last().0@ == name {
                assert(entries[entries.len() - 1].0@ == name);
            } else {
                let i = choose|i: int| 0 <= i < front.len() && (#[trigger] front[i]).0@ == name;
                assert(entries[i].0@ == name);
            }
        }
        if exists|i: int| 0 <= i < entries.len() && (#[trigger] entries[i]).0@ == name {
            let i = choose|i: int| 0 <= i < entries.len() && (#[trigger] entries[i]).0@ == name;
            if i < front.len() {
                assert(front[i].0@ == name);
            }
        }
    }
}

/// In a list of distinct names, the mapping gives each name the profile beside it.
pub proof fn lemma_entries_map_value(entries: Seq<Entry>, i: int)
    requires
        distinct_names(entries),
        0 <= i < entries.len(),
    ensures
        entries_map(entries).contains_key(entries[i].0@),
        entries_map(entries)[entries[i].0@] == entries[i].1@,
    decreases entries.len(),
{
    let front = entries.drop_last();
    if i < entries.len() - 1 {
        assert(front[i] == entries[i]);
        assert(entries[i].0@ != entries[entries.len() - 1].0@);
        lemma_entries_map_value(front, i);
    }
}

/// The mapping of a list of distinct names has as many names as the list has entries.
pub proof fn lemma_entries_map_len(entries: Seq<Entry>)
    requires
        distinct_names(entries),
    ensures
        entries_map(entries).dom().finite(),
        entries_map(entries).dom().len() == entries.len(),
    decreases entries.len(),
{
    if entries.len() > 0 {
        let front = entries.drop_last();
        assert forall|i: int, j: int| 0 <= i < j < front.len() implies (#[trigger] front[i]).0@ != (
        #[trigger] front[j]).0@ by {
            assert(front[i] == entries[i] && front[j] == entries[j]);
        }
        lemma_entries_map_len(front);
        let name = entries.last().0@;
        lemma_entries_map_names(front, name);
        if entries_map(front).contains_key(name) {
            let i = choose|i: int| 0 <= i < front.len() && (#[trigger] front[i]).0@ == name;
            assert(entries[i].0@ == entries[entries.len() - 1].0@);
        }
        assert(entries_map(entries).dom() =~= entries_map(front).dom().insert(name));
    }
}

/// Two lists that agree entry by entry, as plain values, stand for the same mapping.
pub proof fn lemma_entries_map_congruent(a: Seq<Entry>, b: Seq<Entry>)
    requires
        a.len() == b.len(),
        forall|i: int| 0 <= i < a.len() ==> (#[trigger] a[i]).0@ == b[i].0@ && a[i].1@ == b[i].1@,
    ensures
        entries_map(a) == entries_map(b),
        distinct_names(a) == distinct_names(b),
    decreases a.len(),
{
    if a.len() > 0 {
        assert(a.drop_last().len() == b.drop_last().len());
        assert forall|i: int| 0 <= i < a.drop_last().len() implies (#[trigger] a.drop_last()[i]).0@
            == b.drop_last()[i].0@ && a.drop_last()[i].1@ == b.drop_last()[i].1@ by {
            assert(a.drop_last()[i] == a[i]);
        }
        lemma_entries_map_congruent(a.drop_last(), b.drop_last());
        assert(a.last() == a[a.len() - 1]);
    }
    if distinct_names(a) {
        assert forall|i: int, j: int| 0 <= i < j < b.len() implies (#[trigger] b[i]).0@ != (
        #[trigger] b[j]).0@ by {
            assert(a[i].0@ != a[j].0@);
        }
    }
    if distinct_names(b) {
        assert forall|i: int, j: int| 0 <= i < j < a.len() implies (#[trigger] a[i]).0@ != (
        #[trigger] a[j]).0@ by {
            assert(b[i].0@ != b[j].0@);
        }
    }
}

/// Putting a new profile in the place of the entry of the same name changes
/// the mapping as an insertion under that name does.
pub proof fn lemma_entries_map_replace(entries: Seq<Entry>, i: int, entry: Entry)
    requires
        distinct_names(entries),
        0 <= i < entries.len(),
        entries[i].0@ == entry.0@,
    ensures
        distinct_names(entries.update(i, entry)),
        entries_map(entries.update(i, entry)) == entries_map(entries).insert(entry.0@, entry.1@),
{
    let after = entries.update(i, entry);
    assert forall|a: int, b: int| 0 <= a < b < after.len() implies (#[trigger] after[a]).0@ != (
    #[trigger] after[b]).0@ by {
        assert(after[a].0@ == entries[a].0@ && after[b].0@ == entries[b].0@);
    }
    let expected = entries_map(entries).insert(entry.0@, entry.1@);
    assert forall|name: Seq<char>| entries_map(after).contains_key(name) <==> expected.contains_key(
        name,
    ) by {
        lemma_entries_map_names(after, name);
        lemma_entries_map_names(entries, name);
        if entries_map(after).contains_key(name) {
            let k = choose|k: int| 0 <= k < after.len() && (#[trigger] after[k]).0@ == name;
            assert(entries[k].0@ == name);
        }
        if expected.contains_key(name) {
            if name == entry.0@ {
                assert(after[i].0@ == name);
            } else {
                let k = choose|k: int| 0 <= k < entries.len() && (#[trigger] entries[k]).0@ == name;
                assert(after[k].0@ == name);
            }
        }
    }
    assert forall|name: Seq<char>| entries_map(after).contains_key(name) implies entries_map(
        after,
    )[name] == expected[name] by {
        lemma_entries_map_names(after, name);
        let k = choose|k: int| 0 <= k < after.len() && (#[trigger] after[k]).0@ == name;
        lemma_entries_map_value(after, k);
        if k != i {
            assert(after[k] == entries[k]);
            lemma_entries_map_value(entries, k);
        }
    }
    assert(entries_map(after) =~= expected);
}

/// The set of profiles, each under its name. No name occurs twice.
#[derive(Debug)]
pub struct Profiles {
    entries: Vec<Entry>,
}

impl View for Profiles {
    type V = Map<Seq<char>, ProfileConfigView>;

    closed spec fn view(&self) -> Map<Seq<char>, ProfileConfigView> {
        entries_map(self.entries@)
    }
}

impl Profiles {
    #[verifier::type_invariant]
    spec fn well_formed(&self) -> bool {
        distinct_names(self.entries@)
    }

    /// The set without any profile.
    pub fn new() -> (profiles: Self)
        ensures
            profiles@ == Map::<Seq<char>, ProfileConfigView>::empty(),
    {
        Profiles { entries: Vec::new() }
    }

    /// The place of the entry with the given name, if there is one.
    fn position(&self, name: &str) -> (place: Option<usize>)
        ensures
            match place {
                Some(i) => i < self.entries@.len() && self.entries@[i as int].0@ == name@,
                None => forall|k: int|
                    0 <= k < self.entries@.len() ==> (#[trigger] self.entries@[k]).0@ != name@,
            },
    {
        let mut i: usize = 0;
        while i < self.entries.len()
            invariant
                i <= self.entries@.len(),
                forall|k: int| 0 <= k < i ==> (#[trigger] self.entries@[k]).0@ != name@,
            decreases self.entries@.len() - i,
        {
            if str_eq(self.entries[i].0.as_str(), name) {
                return Some(i);
            }
            i += 1;
        }
        None
    }

    /// The profile with the given name, if the set has one.
    pub fn get(&self, name: &str) -> (found: Option<&ProfileConfig>)
        ensures
            match found {
                Some(config) => self@.contains_key(name@) && config@ == self@[name@],
                None => !self@.contains_key(name@),
            },
    {
        proof {
            use_type_invariant(self);
            lemma_entries_map_names(self.entries@, name@);
        }
        match self.position(name) {
            Some(i) => {
                proof {
                    lemma_entries_map_value(self.entries@, i as int);
                }
                Some(&self.entries[i].1)
            },
            None => None,
        }
    }

    /// Whether the set has a profile with the given name.
    pub fn contains_key(&self, name: &str) -> (found: bool)
        ensures
            found == self@.contains_key(name@),
    {
        self.get(name).is_some()
    }

    /// Puts a profile into the set under the given name, in the place of the
    /// profile that had the name, if there was one.
    pub fn insert(&mut self, name: String, config: ProfileConfig)
        ensures
            final(self)@ == old(self)@.insert(name@, config@),
    {
        proof {
            use_type_invariant(&*self);
        }
        let place = self.position(name.as_str());
        let mut entries: Vec<Entry> = Vec::new();
        core::mem::swap(&mut self.entries, &mut entries);
        match place {
            Some(i) => {
                proof {
                    lemma_entries_map_replace(entries@, i as int, (name, config));
                }
                entries.set(i, (name, config));
            },
            None => {
                proof {
                    let after = entries@.push((name, config));
                    assert(after.drop_last() =~= entries@);
                    assert forall|a: int, b: int| 0 <= a < b < after.len() implies (
                    #[trigger] after[a]).0@ != (#[trigger] after[b]).0@ by {
                        assert(after[a] == entries@[a]);
                        if b < entries@.len() {
                            assert(after[b] == entries@[b]);
                        }
                    }
                }
                entries.push((name, config));
            },
        }
        core::mem::swap(&mut self.entries, &mut entries);
    }

    /// The number of profiles in the set.
    pub fn len(&self) -> (n: usize)
        ensures
            self@.dom().finite(),
            n == self@.dom().len(),
    {
        proof {
            use_type_invariant(self);
            lemma_entries_map_len(self.entries@);
        }
        self.entries.len()
    }

    /// Whether the set is without any profile.
    pub fn is_empty(&self) -> (empty: bool)
        ensures
            empty == (self@ == Map::<Seq<char>, ProfileConfigView>::empty()),
    {
        proof {
            use_type_invariant(self);
            lemma_entries_map_len(self.entries@);
            if self.entries@.len() == 0 {
                assert(self@ =~= Map::<Seq<char>, ProfileConfigView>::empty());
            }
        }
        self.entries.len() == 0
    }

    /// The profiles with their names, each once, as a list.
    pub fn entries(&self) -> (list: Vec<Entry>)
        ensures
            distinct_names(list@),
            entries_map(list@) == self@,
    {
        let mut list: Vec<Entry> = Vec::new();
        let mut i: usize = 0;
        while i < self.entries.len()
            invariant
                i <= self.entries@.len(),
                list@.len() == i,
                forall|k: int|
                    0 <= k < i ==> (#[trigger] list@[k]).0@ == self.entries@[k].0@ && list@[k].1@
                        == self.entries@[k].1@,
            decreases self.entries@.len() - i,
        {
            let entry = &self.entries[i];
            list.push((entry.0.clone(), entry.1.clone()));
            i += 1;
        }
        proof {
            use_type_invariant(self);
            lemma_entries_map_congruent(list@, self.entries@);
        }
        list
    }

    /// The set that a list of named profiles stands for. Where a name occurs
    /// more than once, its last profile is kept.
    pub fn from_entries(list: Vec<Entry>) -> (profiles: Self)
        ensures
            profiles@ == entries_map(list@),
    {
        let mut profiles = Profiles::new();
        let mut i: usize = 0;
        while i < list.len()
            invariant
                i <= list@.len(),
                profiles@ == entries_map(list@.take(i as int)),
            decreases list@.len() - i,
        {
            let entry = &list[i];
            profiles.insert(entry.0.clone(), entry.1.clone());
            proof {
                assert(list@.take(i + 1).drop_last() =~= list@.take(i as int));
                assert(list@.take(i + 1).last() == list@[i as int]);
            }
            i += 1;
        }
        proof {
            assert(list@.take(list@.len() as int) =~= list@);
        }
        profiles
    }
}

} // verus!
