use vstd::prelude::*;
use crate::text::str_equal;

verus! {

/// A map keyed by text. A later entry for a key hides the earlier ones, as a
/// `HashMap::insert` replaces the value it held.
pub struct TextMap<T: View> {
    entries: Vec<(String, T)>,
}

/// The map that a list of entries stands for: each entry inserted in turn.
pub open spec fn entries_map<T: View>(s: Seq<(String, T)>) -> Map<Seq<char>, T::V>
    decreases s.len(),
{
    if s.len() == 0 {
        Map::empty()
    } else {
        entries_map(s.drop_last()).insert(s.last().0@, s.last().1@)
    }
}

impl<T: View> View for TextMap<T> {
    type V = Map<Seq<char>, T::V>;

    closed spec fn view(&self) -> Map<Seq<char>, T::V> {
        entries_map(self.entries@)
    }
}

impl<T: View> TextMap<T> {
    /// An empty map.
    pub fn new() -> (m: Self)
        ensures
            m@ == Map::<Seq<char>, T::V>::empty(),
    {
        TextMap { entries: Vec::new() }
    }

    /// The entries in the order they were inserted; a later one hides an earlier one with the same key.
    pub fn entries(&self) -> (e: &Vec<(String, T)>)
        ensures
            entries_map(e@) == self@,
    {
        &self.entries
    }

    /// Inserts `value` under `key`, replacing what the key held.
    pub fn insert(&mut self, key: String, value: T)
        ensures
            final(self)@ == old(self)@.insert(key@, value@),
    {
        self.entries.push((key, value));
        assert(self.entries@.drop_last() == old(self).entries@);
    }

    /// The index of the last entry with the given key.
    fn find(&self, key: &str) -> (r: Option<usize>)
        ensures
            r matches Some(i) ==> i < self.entries@.len() && self.entries@[i as int].0@ == key@
                && self@.contains_key(key@) && self@[key@] == self.entries@[i as int].1@,
            r is None ==> !self@.contains_key(key@),
    {
        let ghost s = self.entries@;
        let mut j = self.entries.len();
        assert(s.take(j as int) == s);
        while j > 0
            invariant
                j <= s.len(),
                s == self.entries@,
                entries_map(s.take(j as int)).contains_key(key@) == entries_map(s).contains_key(
                    key@,
                ),
                entries_map(s.take(j as int)).contains_key(key@) ==> entries_map(s.take(j as int))[key@]
                    == entries_map(s)[key@],
            decreases j,
        {
            let ghost prefix = s.take(j as int);
            assert(prefix.drop_last() == s.take(j - 1));
            assert(prefix.last() == s[j - 1]);
            if str_equal(self.entries[j - 1].0.as_str(), key) {
                return Some(j - 1);
            }
            j = j - 1;
        }
        None
    }

    /// The value held under `key`.
    pub fn get(&self, key: &str) -> (r: Option<&T>)
        ensures
            r matches Some(v) ==> self@.contains_key(key@) && v@ == self@[key@],
            r is None ==> !self@.contains_key(key@),
    {
        match self.find(key) {
            Some(i) => Some(&self.entries[i].1),
            None => None,
        }
    }

    /// Whether `key` holds a value.
    pub fn contains_key(&self, key: &str) -> (r: bool)
        ensures
            r == self@.contains_key(key@),
    {
        self.find(key).is_some()
    }
}

} // verus!
