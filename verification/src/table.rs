//! Association lists keyed by name. A later entry of a name stands for the
//! name: inserting is appending, and a lookup reads from the back.

use vstd::prelude::*;

verus! {

/// A named value.
#[derive(Debug, Clone)]
pub struct Entry<V> {
    pub name: String,
    pub value: V,
}

/// The map that a list of entries stands for.
pub open spec fn table<V: DeepView>(entries: Seq<Entry<V>>) -> Map<Seq<char>, V::V>
    decreases entries.len(),
{
    if entries.len() == 0 {
        Map::empty()
    } else {
        table(entries.drop_last()).insert(entries.last().name@, entries.last().value.deep_view())
    }
}

/// The value that stands under `name`, if there is one.
pub fn lookup<'a, V: DeepView>(entries: &'a Vec<Entry<V>>, name: &String) -> (found: Option<&'a V>)
    ensures
        match found {
            Some(value) => table(entries@).contains_key(name@) && table(entries@)[name@]
                == value.deep_view(),
            None => !table(entries@).contains_key(name@),
        },
{
    let mut i: usize = entries.len();
    proof {
        assert(entries@.take(i as int) == entries@);
    }
    while i > 0
        invariant
            i <= entries@.len(),
            table(entries@).contains_key(name@) == table(entries@.take(i as int)).contains_key(
                name@,
            ),
            table(entries@).contains_key(name@) ==> table(entries@)[name@] == table(
                entries@.take(i as int),
            )[name@],
        decreases i,
    {
        i = i - 1;
        proof {
            assert(entries@.take(i + 1).drop_last() == entries@.take(i as int));
            assert(entries@.take(i + 1).last() == entries@[i as int]);
        }
        if entries[i].name == *name {
            return Some(&entries[i].value);
        }
    }
    None
}

/// Puts `value` under `name`, in place of what stood there.
pub fn insert<V: DeepView>(entries: &mut Vec<Entry<V>>, name: String, value: V)
    ensures
        table(final(entries)@) == table(old(entries)@).insert(name@, value.deep_view()),
{
    let ghost before = entries@;
    entries.push(Entry { name, value });
    proof {
        assert(entries@.drop_last() == before);
    }
}

/// Values that can be compared by what they stand for.
pub trait Same: DeepView + Sized {
    /// Tells whether two values stand for the same.
    fn same(&self, other: &Self) -> (same: bool)
        ensures
            same == (self.deep_view() == other.deep_view()),
    ;
}

/// Whether a map holds every entry of another.
pub open spec fn within<V>(inner: Map<Seq<char>, V>, outer: Map<Seq<char>, V>) -> bool {
    forall|k: Seq<char>| #[trigger]
        inner.contains_key(k) ==> outer.contains_key(k) && inner[k] == outer[k]
}

/// Every key of the map of a list is the name of one of its entries.
pub proof fn lemma_key_is_named<V: DeepView>(entries: Seq<Entry<V>>, key: Seq<char>)
    requires
        table(entries).contains_key(key),
    ensures
        exists|i: int| 0 <= i < entries.len() && (#[trigger] entries[i]).name@ == key,
    decreases entries.len(),
{
    if entries.len() > 0 {
        if entries.last().name@ == key {
            assert(entries[entries.len() - 1].name@ == key);
        } else {
            lemma_key_is_named(entries.drop_last(), key);
            let i = choose|i: int|
                0 <= i < entries.drop_last().len() && (#[trigger] entries.drop_last()[i]).name@
                    == key;
            assert(entries[i] == entries.drop_last()[i]);
        }
    }
}

/// The name of every entry of a list is a key of its map.
pub proof fn lemma_named_is_key<V: DeepView>(entries: Seq<Entry<V>>, i: int)
    requires
        0 <= i < entries.len(),
    ensures
        table(entries).contains_key(entries[i].name@),
    decreases entries.len(),
{
    if i < entries.len() - 1 {
        lemma_named_is_key(entries.drop_last(), i);
    }
}

/// Tells whether the map of one list holds every entry of the map of
/// another.
pub fn covers<V: Same>(outer: &Vec<Entry<V>>, inner: &Vec<Entry<V>>) -> (covered: bool)
    ensures
        covered == within(table(inner@), table(outer@)),
{
    let mut i: usize = 0;
    while i < inner.len()
        invariant
            i <= inner@.len(),
            forall|j: int|
                0 <= j < i ==> table(outer@).contains_key((#[trigger] inner@[j]).name@) && table(
                    inner@,
                )[inner@[j].name@] == table(outer@)[inner@[j].name@],
        decreases inner@.len() - i,
    {
        proof {
            lemma_named_is_key(inner@, i as int);
        }
        let own = lookup(inner, &inner[i].name);
        let other = lookup(outer, &inner[i].name);
        match (own, other) {
            (Some(own), Some(other)) => {
                if !own.same(other) {
                    return false;
                }
            },
            _ => {
                return false;
            },
        }
        i = i + 1;
    }
    proof {
        assert forall|k: Seq<char>| #[trigger] table(inner@).contains_key(k) implies table(
            outer@,
        ).contains_key(k) && table(inner@)[k] == table(outer@)[k] by {
            lemma_key_is_named(inner@, k);
        }
    }
    true
}

/// Tells whether two lists stand for the same map.
pub fn same_table<V: Same>(one: &Vec<Entry<V>>, other: &Vec<Entry<V>>) -> (same: bool)
    ensures
        same == (table(one@) == table(other@)),
{
    let same = covers(one, other) && covers(other, one);
    proof {
        if same {
            assert(table(one@) =~= table(other@));
        }
    }
    same
}

} // verus!
