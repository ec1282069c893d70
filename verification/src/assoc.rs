//! A string-keyed map held as an association vector, viewed as a
//! `Map<Seq<char>, V>`. Later insertions win, so `insert` is a plain
//! append and lookups scan from the newest entry backwards.

use vstd::prelude::*;
use crate::strutil::str_eq;

verus! {

/// The map an association vector denotes: later entries shadow
/// earlier ones.
pub open spec fn assoc_map_of<V>(s: Seq<(Seq<char>, V)>) -> Map<Seq<char>, V>
    decreases s.len(),
{
    if s.len() == 0 {
        Map::empty()
    } else {
        assoc_map_of(s.drop_last()).insert(s.last().0, s.last().1)
    }
}

/// A symbol-keyed cache: the venue's per-symbol state, read often and
/// rebuilt rarely.
#[derive(Debug, Clone)]
pub struct StrMap<V> {
    entries: Vec<(String, V)>,
}

impl<V: Copy> StrMap<V> {
    /// The keys of the entry vector as character sequences.
    pub closed spec fn entries_view(self) -> Seq<(Seq<char>, V)> {
        self.entries@.map_values(|e: (String, V)| (e.0@, e.1))
    }

    /// The map this cache holds.
    pub closed spec fn view(self) -> Map<Seq<char>, V> {
        assoc_map_of(self.entries_view())
    }

    /// An empty cache.
    pub fn new() -> (r: StrMap<V>)
        ensures
            r@ == Map::<Seq<char>, V>::empty(),
    {
        let r = StrMap { entries: Vec::new() };
        proof {
            assert(r.entries_view() =~= Seq::<(Seq<char>, V)>::empty());
        }
        r
    }

    /// Forget every entry.
    pub fn clear(&mut self)
        ensures
            final(self)@ == Map::<Seq<char>, V>::empty(),
    {
        self.entries = Vec::new();
        proof {
            assert(self.entries_view() =~= Seq::<(Seq<char>, V)>::empty());
        }
    }

    /// Bind `key` to `value`, shadowing any earlier binding.
    pub fn insert(&mut self, key: String, value: V)
        ensures
            final(self)@ == old(self)@.insert(key@, value),
    {
        let ghost before = self.entries_view();
        self.entries.push((key, value));
        proof {
            assert(self.entries_view().drop_last() =~= before);
            assert(self.entries_view().last() == (key@, value));
        }
    }

    /// Look the key up; the newest binding answers.
    pub fn get(&self, key: &str) -> (r: Option<V>)
        ensures
            r == if self@.contains_key(key@) {
                Some(self@[key@])
            } else {
                None
            },
    {
        let ghost full = self.entries_view();
        let mut i: usize = self.entries.len();
        proof {
            assert(full.take(full.len() as int) =~= full);
        }
        loop
            invariant
                i <= self.entries@.len(),
                full == self.entries_view(),
                full.len() == self.entries@.len(),
                self@ == assoc_map_of(full),
                assoc_map_of(full).contains_key(key@) == assoc_map_of(full.take(i as int))
                    .contains_key(key@),
                assoc_map_of(full).contains_key(key@) ==> assoc_map_of(full)[key@] == assoc_map_of(
                    full.take(i as int),
                )[key@],
            decreases i,
        {
            if i == 0 {
                proof {
                    assert(full.take(0) =~= Seq::<(Seq<char>, V)>::empty());
                }
                return None;
            }
            let entry_key: &String = &self.entries[i - 1].0;
            let v = self.entries[i - 1].1;
            proof {
                assert(full[i - 1] == (self.entries@[i - 1].0@, self.entries@[i - 1].1));
                assert(full.take(i as int).drop_last() =~= full.take(i - 1));
                assert(full.take(i as int).last() == full[i - 1]);
            }
            if str_eq(entry_key.as_str(), key) {
                return Some(v);
            }
            i -= 1;
        }
    }

    /// How many entries the cache holds (shadowed ones included).
    pub fn entry_count(&self) -> (r: usize)
        ensures
            r == self.entries_view().len(),
    {
        self.entries.len()
    }
}

} // verus!
