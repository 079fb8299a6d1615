use vstd::prelude::*;

use crate::model::Ssid;

verus! {

/// No two entries carry the same SSID.
pub open spec fn unique_keys<V>(pairs: Seq<(Ssid, V)>) -> bool {
    forall|i: int, j: int|
        0 <= i < pairs.len() && 0 <= j < pairs.len() && i != j ==> #[trigger] pairs[i].0@
            != #[trigger] pairs[j].0@
}

/// Some entry carries the SSID `k`.
pub open spec fn has_key<V>(pairs: Seq<(Ssid, V)>, k: Seq<char>) -> bool {
    exists|i: int| 0 <= i < pairs.len() && #[trigger] pairs[i].0@ == k
}

/// The map from SSID to value that a list of entries stands for, where a later entry
/// for an SSID replaces an earlier one.
pub open spec fn pairs_to_map<V>(pairs: Seq<(Ssid, V)>) -> Map<Seq<char>, V>
    decreases pairs.len(),
{
    if pairs.len() == 0 {
        Map::empty()
    } else {
        pairs_to_map(pairs.drop_last()).insert(pairs.last().0@, pairs.last().1)
    }
}

/// A map keyed by SSID, kept as a list of entries in which no SSID occurs twice.
#[derive(Debug)]
pub struct SsidMap<V> {
    entries: Vec<(Ssid, V)>,
}

impl<V> SsidMap<V> {
    #[verifier::type_invariant]
    spec fn inv(self) -> bool {
        unique_keys(self.entries@)
    }

    /// The entries, in the order in which their SSIDs were first inserted.
    pub closed spec fn pairs(self) -> Seq<(Ssid, V)> {
        self.entries@
    }

    /// The map from SSID to value.
    pub open spec fn view(self) -> Map<Seq<char>, V> {
        pairs_to_map(self.pairs())
    }

    pub fn new() -> (res: Self)
        ensures
            res.pairs() == Seq::<(Ssid, V)>::empty(),
            res@ == Map::<Seq<char>, V>::empty(),
    {
        SsidMap { entries: Vec::new() }
    }

    pub fn len(&self) -> (n: usize)
        ensures
            n == self.pairs().len(),
            n == self@.dom().len(),
    {
        proof {
            use_type_invariant(self);
            lemma_map_of_unique(self.entries@);
        }
        self.entries.len()
    }

    /// The entries, with the fact that no SSID occurs twice among them.
    pub fn entries(&self) -> (res: &Vec<(Ssid, V)>)
        ensures
            res@ == self.pairs(),
            unique_keys(self.pairs()),
    {
        proof {
            use_type_invariant(self);
        }
        &self.entries
    }

    /// Gives the entries up.
    pub fn into_entries(self) -> (res: Vec<(Ssid, V)>)
        ensures
            res@ == self.pairs(),
            unique_keys(self.pairs()),
    {
        proof {
            use_type_invariant(&self);
        }
        self.entries
    }

    /// The position of the entry for `key`, if there is one.
    pub fn find(&self, key: &Ssid) -> (res: Option<usize>)
        ensures
            match res {
                Some(i) => i < self.pairs().len() && self.pairs()[i as int].0@ == key@,
                None => !has_key(self.pairs(), key@),
            },
            res is Some <==> self@.dom().contains(key@),
    {
        proof {
            use_type_invariant(self);
            lemma_map_of_unique(self.entries@);
        }
        let mut i: usize = 0;
        while i < self.entries.len()
            invariant
                i <= self.entries@.len(),
                forall|j: int| 0 <= j < i ==> self.entries@[j].0@ != key@,
            decreases self.entries@.len() - i,
        {
            if self.entries[i].0.0 == key.0 {
                proof {
                    use_type_invariant(self);
                    lemma_map_of_unique(self.entries@);
                    assert(self.entries@[i as int].0@ == key@);
                    assert(has_key(self.entries@, key@));
                }
                return Some(i);
            }
            i = i + 1;
        }
        None
    }

    pub fn contains_key(&self, key: &Ssid) -> (res: bool)
        ensures
            res == self@.dom().contains(key@),
    {
        self.find(key).is_some()
    }

    pub fn get(&self, key: &Ssid) -> (res: Option<&V>)
        ensures
            match res {
                Some(v) => self@.dom().contains(key@) && *v == self@[key@],
                None => !self@.dom().contains(key@),
            },
    {
        proof {
            use_type_invariant(self);
            lemma_map_of_unique(self.entries@);
        }
        match self.find(key) {
            Some(i) => Some(&self.entries[i].1),
            None => None,
        }
    }

    /// Sets the value for `key`: an existing entry keeps its place and takes the new
    /// value, a new SSID goes last.
    pub fn insert(&mut self, key: Ssid, value: V)
        ensures
            final(self)@ == old(self)@.insert(key@, value),
    {
        proof {
            use_type_invariant(&*self);
            lemma_map_of_unique(self.entries@);
        }
        match self.find(&key) {
            Some(i) => {
                let ghost old_entries = self.entries@;
                let mut entries: Vec<(Ssid, V)> = Vec::new();
                std::mem::swap(&mut entries, &mut self.entries);
                entries.set(i, (key, value));
                proof {
                    assert forall|a: int, b: int|
                        0 <= a < entries@.len() && 0 <= b < entries@.len() && a != b implies
                        #[trigger] entries@[a].0@ != #[trigger] entries@[b].0@ by {
                        assert(old_entries[a].0@ == entries@[a].0@);
                        assert(old_entries[b].0@ == entries@[b].0@);
                    }
                    lemma_map_of_unique(entries@);
                    let nm = pairs_to_map(entries@);
                    let om = pairs_to_map(old_entries).insert(key@, value);
                    assert forall|k: Seq<char>| nm.dom().contains(k) <==> om.dom().contains(k) by {
                        if has_key(entries@, k) {
                            let j = choose|j: int| 0 <= j < entries@.len() && #[trigger] entries@[j].0@ == k;
                            assert(old_entries[j].0@ == k);
                        }
                        if has_key(old_entries, k) {
                            let j = choose|j: int| 0 <= j < old_entries.len() && #[trigger] old_entries[j].0@ == k;
                            assert(entries@[j].0@ == k);
                        }
                    }
                    assert forall|k: Seq<char>| nm.dom().contains(k) implies nm[k] == om[k] by {
                        let j = choose|j: int| 0 <= j < entries@.len() && #[trigger] entries@[j].0@ == k;
                        assert(nm[entries@[j].0@] == entries@[j].1);
                        if j != i {
                            assert(old_entries[j] == entries@[j]);
                            assert(pairs_to_map(old_entries)[old_entries[j].0@] == old_entries[j].1);
                        }
                    }
                    assert(nm =~= om);
                }
                self.entries = entries;
            },
            None => {
                let ghost old_entries = self.entries@;
                let mut entries: Vec<(Ssid, V)> = Vec::new();
                std::mem::swap(&mut entries, &mut self.entries);
                entries.push((key, value));
                proof {
                    assert(entries@.drop_last() =~= old_entries);
                    assert(unique_keys(entries@));
                }
                self.entries = entries;
            },
        }
    }
}

/// With no SSID twice, the map holds exactly the entries.
pub proof fn lemma_map_of_unique<V>(pairs: Seq<(Ssid, V)>)
    requires
        unique_keys(pairs),
    ensures
        forall|k: Seq<char>| #[trigger]
            pairs_to_map(pairs).dom().contains(k) <==> has_key(pairs, k),
        forall|i: int|
            0 <= i < pairs.len() ==> #[trigger] pairs_to_map(pairs)[pairs[i].0@] == pairs[i].1,
        pairs_to_map(pairs).dom().finite(),
        pairs_to_map(pairs).dom().len() == pairs.len(),
    decreases pairs.len(),
{
    if pairs.len() > 0 {
        let rest = pairs.drop_last();
        assert(unique_keys(rest));
        lemma_map_of_unique(rest);
        let last = pairs.last();
        assert(!has_key(rest, last.0@)) by {
            if has_key(rest, last.0@) {
                let j = choose|j: int| 0 <= j < rest.len() && #[trigger] rest[j].0@ == last.0@;
                assert(pairs[j].0@ == pairs[pairs.len() - 1].0@);
            }
        }
        assert forall|k: Seq<char>| #[trigger]
            pairs_to_map(pairs).dom().contains(k) <==> has_key(pairs, k) by {
            if has_key(pairs, k) {
                let j = choose|j: int| 0 <= j < pairs.len() && #[trigger] pairs[j].0@ == k;
                if j < pairs.len() - 1 {
                    assert(rest[j].0@ == k);
                }
            }
            if has_key(rest, k) {
                let j = choose|j: int| 0 <= j < rest.len() && #[trigger] rest[j].0@ == k;
                assert(pairs[j].0@ == k);
            }
        }
        assert forall|i: int| 0 <= i < pairs.len() implies #[trigger] pairs_to_map(
            pairs,
        )[pairs[i].0@] == pairs[i].1 by {
            if i < pairs.len() - 1 {
                assert(rest[i] == pairs[i]);
                assert(pairs[i].0@ != last.0@);
            }
        }
    }
}

} // verus!
