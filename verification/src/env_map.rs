//! Environment variables by name.
use vstd::prelude::*;

use crate::text::same_text;

verus! {

/// A set of environment variables: each name has one value.
pub struct EnvMap {
    entries: Vec<(String, String)>,
}

/// The variables that a list of name and value pairs sets, the later ones winning.
pub open spec fn map_of(entries: Seq<(String, String)>) -> Map<Seq<char>, Seq<char>>
    decreases entries.len(),
{
    if entries.len() == 0 {
        Map::empty()
    } else {
        map_of(entries.drop_last()).insert(entries.last().0@, entries.last().1@)
    }
}

/// Whether no name occurs twice.
pub open spec fn distinct_names(entries: Seq<(String, String)>) -> bool {
    forall|i: int, j: int|
        0 <= i < j < entries.len() ==> (#[trigger] entries[i]).0@ != (#[trigger] entries[j]).0@
}

/// A name is in the map exactly if an entry has it.
proof fn lemma_map_of_names(entries: Seq<(String, String)>, name: Seq<char>)
    ensures
        map_of(entries).contains_key(name) <==> exists|i: int|
            0 <= i < entries.len() && (#[trigger] entries[i]).0@ == name,
    decreases entries.len(),
{
    if entries.len() > 0 {
        let init = entries.drop_last();
        lemma_map_of_names(init, name);
        if map_of(init).contains_key(name) {
            let i = choose|i: int| 0 <= i < init.len() && (#[trigger] init[i]).0@ == name;
            assert(entries[i] == init[i]);
        }
        if exists|i: int| 0 <= i < entries.len() && (#[trigger] entries[i]).0@ == name {
            let i = choose|i: int| 0 <= i < entries.len() && (#[trigger] entries[i]).0@ == name;
            if i < init.len() {
                assert(init[i] == entries[i]);
            }
        }
        if entries.last().0@ == name {
            assert(entries[entries.len() - 1].0@ == name);
        }
    }
}

/// Where no name occurs twice, the map holds the value of each entry.
proof fn lemma_map_of_values(entries: Seq<(String, String)>, i: int)
    requires
        distinct_names(entries),
        0 <= i < entries.len(),
    ensures
        map_of(entries).contains_key(entries[i].0@),
        map_of(entries)[entries[i].0@] == entries[i].1@,
    decreases entries.len(),
{
    if i < entries.len() - 1 {
        let init = entries.drop_last();
        assert forall|a: int, b: int| 0 <= a < b < init.len() implies (#[trigger] init[a]).0@ != (
        #[trigger] init[b]).0@ by {
            assert(entries[a].0@ != entries[b].0@);
        }
        lemma_map_of_values(init, i);
        assert(init[i] == entries[i]);
        assert(entries[i].0@ != entries[entries.len() - 1].0@);
    }
}

impl View for EnvMap {
    type V = Map<Seq<char>, Seq<char>>;

    closed spec fn view(&self) -> Map<Seq<char>, Seq<char>> {
        map_of(self.entries@)
    }
}

impl EnvMap {
    #[verifier::type_invariant]
    spec fn names_differ(self) -> bool {
        distinct_names(self.entries@)
    }

    /// No variables.
    pub fn new() -> (r: EnvMap)
        ensures
            r@ == Map::<Seq<char>, Seq<char>>::empty(),
    {
        EnvMap { entries: Vec::new() }
    }

    /// The name and value pairs, each name once.
    pub fn entries(&self) -> (r: &Vec<(String, String)>)
        ensures
            map_of(r@) == self@,
            distinct_names(r@),
    {
        proof {
            use_type_invariant(self);
        }
        &self.entries
    }

    /// The value of a variable, if it is set.
    pub fn get(&self, name: &str) -> (r: Option<String>)
        ensures
            self@.contains_key(name@) ==> r is Some && r->0@ == self@[name@],
            !self@.contains_key(name@) ==> r is None,
    {
        proof {
            use_type_invariant(self);
        }
        let mut i: usize = 0;
        while i < self.entries.len()
            invariant
                i <= self.entries@.len(),
                distinct_names(self.entries@),
                forall|j: int| 0 <= j < i ==> (#[trigger] self.entries@[j]).0@ != name@,
            decreases self.entries@.len() - i,
        {
            if same_text(self.entries[i].0.as_str(), name) {
                proof {
                    lemma_map_of_values(self.entries@, i as int);
                }
                return Some(self.entries[i].1.clone());
            }
            i = i + 1;
        }
        proof {
            lemma_map_of_names(self.entries@, name@);
        }
        None
    }

    /// Unsets a variable.
    pub fn remove(&mut self, name: &str)
        ensures
            final(self)@ == old(self)@.remove(name@),
    {
        proof {
            use_type_invariant(&*self);
        }
        let mut kept: Vec<(String, String)> = Vec::new();
        let mut i: usize = 0;
        let ghost all = self.entries@;
        assert(map_of(all.take(0)).remove(name@) == Map::<Seq<char>, Seq<char>>::empty());
        while i < self.entries.len()
            invariant
                all == self.entries@,
                i <= all.len(),
                distinct_names(all),
                distinct_names(kept@),
                map_of(kept@) == map_of(all.take(i as int)).remove(name@),
                forall|j: int|
                    0 <= j < kept@.len() ==> exists|k: int|
                        0 <= k < i && (#[trigger] kept@[j]).0@ == (#[trigger] all[k]).0@,
            decreases all.len() - i,
        {
            let ghost before = kept@;
            assert(all.take(i + 1).drop_last() == all.take(i as int));
            if !same_text(self.entries[i].0.as_str(), name) {
                kept.push((self.entries[i].0.clone(), self.entries[i].1.clone()));
                assert(kept@.drop_last() == before);
                assert(map_of(all.take(i as int)).remove(name@).insert(
                    all[i as int].0@,
                    all[i as int].1@,
                ) == map_of(all.take(i as int)).insert(all[i as int].0@, all[i as int].1@).remove(
                    name@,
                ));
                assert forall|a: int, b: int| 0 <= a < b < kept@.len() implies (
                #[trigger] kept@[a]).0@ != (#[trigger] kept@[b]).0@ by {
                    if b == before.len() {
                        let k = choose|k: int|
                            0 <= k < i && before[a].0@ == (#[trigger] all[k]).0@;
                        assert(all[k].0@ != all[i as int].0@);
                    } else {
                        assert(before[a].0@ != before[b].0@);
                    }
                }
                assert forall|j: int| 0 <= j < kept@.len() implies exists|k: int|
                    0 <= k < i + 1 && (#[trigger] kept@[j]).0@ == (#[trigger] all[k]).0@ by {
                    if j < before.len() {
                        let k = choose|k: int|
                            0 <= k < i && before[j].0@ == (#[trigger] all[k]).0@;
                        assert(kept@[j].0@ == all[k].0@);
                    } else {
                        assert(kept@[j].0@ == all[i as int].0@);
                    }
                }
            } else {
                assert(map_of(all.take(i as int)).remove(name@) == map_of(
                    all.take(i as int),
                ).insert(all[i as int].0@, all[i as int].1@).remove(name@));
            }
            i = i + 1;
        }
        assert(all.take(i as int) == all);
        self.entries = kept;
    }

    /// Sets a variable, in place of a value that it may have had.
    pub fn insert(&mut self, name: String, value: String)
        ensures
            final(self)@ == old(self)@.insert(name@, value@),
    {
        let ghost before = self@;
        self.remove(name.as_str());
        proof {
            use_type_invariant(&*self);
            lemma_map_of_names(self.entries@, name@);
        }
        let mut all: Vec<(String, String)> = Vec::new();
        std::mem::swap(&mut all, &mut self.entries);
        let ghost kept = all@;
        all.push((name, value));
        assert(all@.drop_last() == kept);
        assert(before.remove(name@).insert(name@, value@) == before.insert(name@, value@));
        assert forall|a: int, b: int| 0 <= a < b < all@.len() implies (#[trigger] all@[a]).0@ != (
        #[trigger] all@[b]).0@ by {
            assert(all@[a] == kept[a]);
        }
        self.entries = all;
    }
}

/// The variables are those of the pairs: a name has a value exactly if a pair says so.
pub proof fn law_entries_are_the_variables(
    entries: Seq<(String, String)>,
    name: Seq<char>,
    value: Seq<char>,
)
    requires
        distinct_names(entries),
    ensures
        map_of(entries).contains_key(name) && map_of(entries)[name] == value <==> exists|i: int|
            0 <= i < entries.len() && (#[trigger] entries[i]).0@ == name && entries[i].1@ == value,
        map_of(entries).contains_key(name) <==> exists|i: int|
            0 <= i < entries.len() && (#[trigger] entries[i]).0@ == name,
{
    lemma_map_of_names(entries, name);
    if map_of(entries).contains_key(name) {
        let i = choose|i: int| 0 <= i < entries.len() && (#[trigger] entries[i]).0@ == name;
        lemma_map_of_values(entries, i);
        assert(entries[i].0@ == name);
        assert forall|j: int|
            0 <= j < entries.len() && (#[trigger] entries[j]).0@ == name && entries[j].1@
                == value implies map_of(entries)[name] == value by {
            lemma_map_of_values(entries, j);
        }
    }
}

} // verus!
