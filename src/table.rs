//! Name-keyed tables where a later entry for a name replaces an earlier one.
use vstd::prelude::*;
use vstd::string::StringExecFns;

verus! {

/// The mapping that a list of entries describes: each name to the value of its last entry.
pub open spec fn table_of<V>(entries: Seq<(String, V)>) -> Map<Seq<char>, V>
    decreases entries.len(),
{
    if entries.len() == 0 {
        Map::empty()
    } else {
        table_of(entries.drop_last()).insert(entries.last().0@, entries.last().1)
    }
}

/// Entries past `i` that do not carry `name` leave its lookup as the first `i` give it.
proof fn lemma_table_suffix<V>(entries: Seq<(String, V)>, i: int, name: Seq<char>)
    requires
        0 <= i <= entries.len(),
        forall|j: int| i <= j < entries.len() ==> entries[j].0@ != name,
    ensures
        table_of(entries).contains_key(name) == table_of(entries.subrange(0, i)).contains_key(name),
        table_of(entries).contains_key(name) ==> table_of(entries)[name] == table_of(
            entries.subrange(0, i),
        )[name],
    decreases entries.len(),
{
    if i < entries.len() {
        lemma_table_suffix(entries.drop_last(), i, name);
        assert(entries.drop_last().subrange(0, i) == entries.subrange(0, i));
    } else {
        assert(entries.subrange(0, i) == entries);
    }
}

/// A name-keyed table.
pub struct Table<V> {
    entries: Vec<(String, V)>,
}

impl<V> Table<V> {
    /// The names and their values.
    pub closed spec fn view(&self) -> Map<Seq<char>, V> {
        table_of(self.entries@)
    }

    /// An empty table.
    pub fn new() -> (r: Table<V>)
        ensures
            r@ == Map::<Seq<char>, V>::empty(),
    {
        Table { entries: Vec::new() }
    }

    /// Binds `name` to `value`, replacing any earlier binding of the name.
    pub fn insert(&mut self, name: String, value: V)
        ensures
            final(self)@ == old(self)@.insert(name@, value),
    {
        self.entries.push((name, value));
        assert(self.entries@.drop_last() == old(self).entries@);
    }

    /// The value bound to `name`, if any.
    pub fn get(&self, name: &str) -> (r: Option<&V>)
        ensures
            r is Some <==> self@.contains_key(name@),
            r matches Some(v) ==> *v == self@[name@],
    {
        let key = String::from_str(name);
        let mut i: usize = self.entries.len();
        while i > 0
            invariant
                key@ == name@,
                i <= self.entries@.len(),
                forall|j: int| i <= j < self.entries@.len() ==> self.entries@[j].0@ != name@,
            decreases i,
        {
            if self.entries[i - 1].0 == key {
                proof {
                    lemma_table_suffix(self.entries@, i as int, name@);
                    assert(self.entries@.subrange(0, i as int).drop_last() == self.entries@.subrange(
                        0,
                        i - 1,
                    ));
                }
                return Some(&self.entries[i - 1].1);
            }
            i = i - 1;
        }
        proof {
            lemma_table_suffix(self.entries@, 0, name@);
        }
        None
    }

    /// Whether `name` is bound.
    pub fn contains(&self, name: &str) -> (r: bool)
        ensures
            r == self@.contains_key(name@),
    {
        self.get(name).is_some()
    }
}

} // verus!
