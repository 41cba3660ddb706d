//! The video tracks of a participant, by track id.

use vstd::prelude::*;

verus! {

/// The id of a media track.
pub type Sid = String;

/// A map from track ids to values. No id occurs twice.
#[derive(Debug)]
#[verifier::reject_recursive_types(V)]
pub struct TrackMap<V> {
    entries: Vec<(Sid, V)>,
}

/// Whether the ids of `entries` are distinct.
spec fn distinct_ids<V>(entries: Seq<(Sid, V)>) -> bool {
    forall|i: int, j: int|
        0 <= i < j < entries.len() ==> #[trigger] entries[i].0@ != #[trigger] entries[j].0@
}

/// Whether the entry at `i` is the one for `id`.
spec fn found_at<V>(entries: Seq<(Sid, V)>, id: Seq<char>, i: int) -> bool {
    0 <= i < entries.len() && entries[i].0@ == id
}

/// The map that `entries` represents.
spec fn map_of<V>(entries: Seq<(Sid, V)>) -> Map<Seq<char>, V> {
    Map::new(
        |id: Seq<char>| exists|i: int| found_at(entries, id, i),
        |id: Seq<char>| entries[choose|i: int| found_at(entries, id, i)].1,
    )
}

proof fn lemma_map_of<V>(entries: Seq<(Sid, V)>, i: int)
    requires
        distinct_ids(entries),
        0 <= i < entries.len(),
    ensures
        map_of(entries).contains_key(entries[i].0@),
        map_of(entries)[entries[i].0@] == entries[i].1,
{
    let id = entries[i].0@;
    assert(found_at(entries, id, i));
    let j = choose|j: int| found_at(entries, id, j);
    assert(found_at(entries, id, j));
    assert(i == j);
}

proof fn lemma_map_eq<V>(entries: Seq<(Sid, V)>, m: Map<Seq<char>, V>)
    requires
        distinct_ids(entries),
        forall|i: int|
            0 <= i < entries.len() ==> m.contains_key(#[trigger] entries[i].0@) && m[entries[i].0@]
                == entries[i].1,
        forall|id: Seq<char>| #[trigger]
            m.contains_key(id) ==> exists|i: int| found_at(entries, id, i),
    ensures
        map_of(entries) == m,
{
    assert forall|id: Seq<char>| #[trigger] map_of(entries).contains_key(id) implies m.contains_key(
        id,
    ) && map_of(entries)[id] == m[id] by {
        let i = choose|i: int| found_at(entries, id, i);
        assert(found_at(entries, id, i));
        lemma_map_of(entries, i);
    }
    assert(map_of(entries) =~= m);
}

impl<V> TrackMap<V> {
    #[verifier::type_invariant]
    spec fn ids_are_distinct(self) -> bool {
        distinct_ids(self.entries@)
    }

    /// An empty map.
    pub fn new() -> (tracks: Self)
        ensures
            tracks@ == Map::<Seq<char>, V>::empty(),
    {
        let tracks = TrackMap { entries: Vec::new() };
        proof {
            lemma_map_eq(tracks.entries@, Map::<Seq<char>, V>::empty());
        }
        tracks
    }

    /// The position of `id` among `entries`.
    fn position(entries: &Vec<(Sid, V)>, id: &Sid) -> (position: Option<usize>)
        ensures
            match position {
                Some(i) => found_at(entries@, id@, i as int),
                None => forall|i: int| !found_at(entries@, id@, i),
            },
    {
        let mut i: usize = 0;
        while i < entries.len()
            invariant
                i <= entries@.len(),
                forall|j: int| 0 <= j < i ==> !found_at(entries@, id@, j),
            decreases entries@.len() - i,
        {
            if entries[i].0 == *id {
                return Some(i);
            }
            i += 1;
        }
        None
    }

    /// The value for `id`.
    pub fn get(&self, id: &Sid) -> (value: Option<&V>)
        ensures
            match value {
                Some(v) => self@.contains_key(id@) && *v == self@[id@],
                None => !self@.contains_key(id@),
            },
    {
        proof {
            use_type_invariant(self);
        }
        match Self::position(&self.entries, id) {
            Some(i) => {
                proof {
                    lemma_map_of(self.entries@, i as int);
                }
                Some(&self.entries[i].1)
            },
            None => None,
        }
    }

    /// The number of ids in the map.
    pub fn len(&self) -> (len: usize)
        ensures
            self@.dom().finite(),
            len == self@.len(),
    {
        proof {
            use_type_invariant(self);
            lemma_len(self.entries@);
        }
        self.entries.len()
    }

    /// The ids in the map, each once.
    pub fn ids(&self) -> (ids: Vec<Sid>)
        ensures
            ids@.map_values(|id: Sid| id@).no_duplicates(),
            ids@.map_values(|id: Sid| id@).to_set() == self@.dom(),
    {
        proof {
            use_type_invariant(self);
        }
        let mut ids: Vec<Sid> = Vec::new();
        let mut i: usize = 0;
        while i < self.entries.len()
            invariant
                i <= self.entries@.len(),
                ids@.len() == i,
                forall|j: int| 0 <= j < i ==> #[trigger] ids@[j]@ == self.entries@[j].0@,
            decreases self.entries@.len() - i,
        {
            ids.push(self.entries[i].0.clone());
            i += 1;
        }
        proof {
            let views = ids@.map_values(|id: Sid| id@);
            assert forall|id: Seq<char>| views.to_set().contains(id) <==> self@.dom().contains(
                id,
            ) by {
                if views.contains(id) {
                    let j = choose|j: int| 0 <= j < views.len() && views[j] == id;
                    lemma_map_of(self.entries@, j);
                }
                if self@.dom().contains(id) {
                    let j = choose|j: int| found_at(self.entries@, id, j);
                    assert(views[j] == id);
                }
            }
            assert(views.to_set() =~= self@.dom());
        }
        ids
    }

    /// Maps `id` to `value`, in place of what it mapped to before.
    pub fn insert(&mut self, id: Sid, value: V)
        ensures
            final(self)@ == old(self)@.insert(id@, value),
    {
        self.remove(&id);
        proof {
            use_type_invariant(&*self);
        }
        let ghost rest = self.entries@;
        let mut entries: Vec<(Sid, V)> = Vec::new();
        std::mem::swap(&mut entries, &mut self.entries);
        entries.push((id, value));
        proof {
            let m = map_of(rest);
            assert forall|i: int| 0 <= i < entries@.len() - 1 implies #[trigger] entries@[i].0@
                != id@ by {
                assert(entries@[i] == rest[i]);
                lemma_map_of(rest, i);
            }
            assert(distinct_ids(entries@));
            assert forall|i: int| 0 <= i < entries@.len() implies m.insert(id@, value).contains_key(
                #[trigger] entries@[i].0@,
            ) && m.insert(id@, value)[entries@[i].0@] == entries@[i].1 by {
                if i < rest.len() {
                    lemma_map_of(rest, i);
                }
            }
            assert forall|k: Seq<char>| #[trigger] m.insert(id@, value).contains_key(k) implies exists|
                i: int,
            | found_at(entries@, k, i) by {
                if k == id@ {
                    assert(found_at(entries@, k, rest.len() as int));
                } else {
                    let j = choose|j: int| found_at(rest, k, j);
                    assert(found_at(entries@, k, j));
                }
            }
            lemma_map_eq(entries@, m.insert(id@, value));
        }
        self.entries = entries;
    }

    /// Removes `id`, and returns what it mapped to.
    pub fn remove(&mut self, id: &Sid) -> (value: Option<V>)
        ensures
            final(self)@ == old(self)@.remove(id@),
            match value {
                Some(v) => old(self)@.contains_key(id@) && v == old(self)@[id@],
                None => !old(self)@.contains_key(id@),
            },
    {
        proof {
            use_type_invariant(&*self);
        }
        let ghost before = self.entries@;
        match Self::position(&self.entries, id) {
            Some(i) => {
                let mut entries: Vec<(Sid, V)> = Vec::new();
                std::mem::swap(&mut entries, &mut self.entries);
                let (_, value) = entries.remove(i);
                proof {
                    lemma_removed(before, id@, i as int);
                }
                self.entries = entries;
                Some(value)
            },
            None => {
                assert(map_of(before).remove(id@) =~= map_of(before));
                None
            },
        }
    }
}

proof fn lemma_removed<V>(before: Seq<(Sid, V)>, id: Seq<char>, i: int)
    requires
        distinct_ids(before),
        found_at(before, id, i),
    ensures
        distinct_ids(before.remove(i)),
        map_of(before.remove(i)) == map_of(before).remove(id),
        map_of(before).contains_key(id),
        map_of(before)[id] == before[i].1,
{
    let after = before.remove(i);
    let m = map_of(before).remove(id);
    lemma_map_of(before, i);
    assert forall|j: int| 0 <= j < after.len() implies m.contains_key(#[trigger] after[j].0@)
        && m[after[j].0@] == after[j].1 by {
        let k = if j < i {
            j
        } else {
            j + 1
        };
        assert(after[j] == before[k]);
        lemma_map_of(before, k);
        assert(before[k].0@ != before[i].0@);
    }
    assert forall|k: Seq<char>| #[trigger] m.contains_key(k) implies exists|j: int|
        found_at(after, k, j) by {
        let j = choose|j: int| found_at(before, k, j);
        assert(j != i);
        if j < i {
            assert(found_at(after, k, j));
        } else {
            assert(found_at(after, k, j - 1));
        }
    }
    lemma_map_eq(after, m);
}

proof fn lemma_len<V>(entries: Seq<(Sid, V)>)
    requires
        distinct_ids(entries),
    ensures
        map_of(entries).dom().finite(),
        map_of(entries).dom().len() == entries.len(),
    decreases entries.len(),
{
    if entries.len() == 0 {
        assert(map_of(entries).dom() =~= Set::<Seq<char>>::empty());
    } else {
        let last = entries.len() - 1;
        let id = entries[last].0@;
        assert(found_at(entries, id, last));
        lemma_removed(entries, id, last);
        lemma_len(entries.remove(last));
        assert(map_of(entries).dom() =~= map_of(entries).dom().remove(id).insert(id));
        assert(map_of(entries).remove(id).dom() =~= map_of(entries).dom().remove(id));
    }
}

impl<V> View for TrackMap<V> {
    type V = Map<Seq<char>, V>;

    closed spec fn view(&self) -> Map<Seq<char>, V> {
        map_of(self.entries@)
    }
}

} // verus!
