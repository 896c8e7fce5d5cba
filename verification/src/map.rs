use vstd::prelude::*;

verus! {

/// A mapping from keys to callbacks, supplied by the caller and consulted
/// once per placeholder while a template is compiled.
///
/// Entries are kept in insertion order; a later insertion of an existing
/// key shadows the earlier one, so the map behaves like its mathematical
/// view, `Map<Seq<char>, F>`.
pub struct FormatMap<F> {
    entries: Vec<(String, F)>,
}

/// The map described by a list of entries: each entry inserted in order,
/// later entries overriding earlier ones.
spec fn map_of_entries<F>(entries: Seq<(String, F)>) -> Map<Seq<char>, F>
    decreases entries.len(),
{
    if entries.len() == 0 {
        Map::empty()
    } else {
        map_of_entries(entries.drop_last()).insert(entries.last().0@, entries.last().1)
    }
}

impl<F> View for FormatMap<F> {
    type V = Map<Seq<char>, F>;

    closed spec fn view(&self) -> Map<Seq<char>, F> {
        map_of_entries(self.entries@)
    }
}

/// A key is in the map of an entry list exactly when some entry bears it.
proof fn lemma_map_of_entries_contains<F>(entries: Seq<(String, F)>, key: Seq<char>)
    ensures
        map_of_entries(entries).contains_key(key) <==> exists|j: int|
            0 <= j < entries.len() && #[trigger] entries[j].0@ == key,
    decreases entries.len(),
{
    if entries.len() > 0 {
        lemma_map_of_entries_contains(entries.drop_last(), key);
        if entries.last().0@ == key {
            assert(entries[entries.len() - 1].0@ == key);
        } else if map_of_entries(entries.drop_last()).contains_key(key) {
            let j = choose|j: int|
                0 <= j < entries.drop_last().len() && #[trigger] entries.drop_last()[j].0@ == key;
            assert(entries[j].0@ == key);
        } else if exists|j: int| 0 <= j < entries.len() && #[trigger] entries[j].0@ == key {
            let j = choose|j: int| 0 <= j < entries.len() && #[trigger] entries[j].0@ == key;
            assert(entries.drop_last()[j].0@ == key);
        }
    }
}

/// The value under a key is the one of the last entry bearing that key.
proof fn lemma_map_of_entries_value<F>(entries: Seq<(String, F)>, key: Seq<char>, j: int)
    requires
        0 <= j < entries.len(),
        entries[j].0@ == key,
        forall|j2: int| j < j2 < entries.len() ==> #[trigger] entries[j2].0@ != key,
    ensures
        map_of_entries(entries).contains_key(key),
        map_of_entries(entries)[key] == entries[j].1,
    decreases entries.len(),
{
    lemma_map_of_entries_contains(entries, key);
    if j < entries.len() - 1 {
        assert(entries.drop_last()[j] == entries[j]);
        lemma_map_of_entries_value(entries.drop_last(), key, j);
    }
}

impl<F> FormatMap<F> {
    /// An empty mapping.
    pub fn new() -> (r: FormatMap<F>)
        ensures
            r@ == Map::<Seq<char>, F>::empty(),
    {
        FormatMap { entries: Vec::new() }
    }

    /// Registers `cb` under `key`, replacing any callback already there.
    pub fn insert(&mut self, key: String, cb: F)
        ensures
            final(self)@ == old(self)@.insert(key@, cb),
    {
        self.entries.push((key, cb));
        proof {
            assert(self.entries@.drop_last() == old(self).entries@);
        }
    }

    /// The callback registered under `key`, if any.
    pub fn get(&self, key: &String) -> (r: Option<&F>)
        ensures
            match r {
                Some(cb) => self@.contains_key(key@) && *cb == self@[key@],
                None => !self@.contains_key(key@),
            },
    {
        let n: usize = self.entries.len();
        let mut i: usize = n;
        while i > 0
            invariant
                i <= n,
                n == self.entries.len(),
                forall|j: int| i <= j < n ==> #[trigger] self.entries@[j].0@ != key@,
            decreases i,
        {
            i = i - 1;
            if self.entries[i].0 == *key {
                proof {
                    lemma_map_of_entries_value(self.entries@, key@, i as int);
                }
                return Some(&self.entries[i].1);
            }
        }
        proof {
            lemma_map_of_entries_contains(self.entries@, key@);
        }
        None
    }
}

} // verus!
