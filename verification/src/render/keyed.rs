//! The host's state by key: a map from a path in the tree, or from a number a
//! guest chose, to what the host keeps there.

use vstd::prelude::*;

verus! {

/// What a [`Keyed`] map can be keyed by: two keys are the same key when their
/// views are.
pub trait Key: View + Sized {
    fn same(&self, other: &Self) -> (same: bool)
        ensures
            same == (self@ == other@),
    ;
}

/// Where a node stands: the ids of the named nodes from the root down to it,
/// itself among them, each by its number.
pub type AuthoredPath = Vec<u64>;

/// Whether two paths are the same.
pub fn same_path(a: &[u64], b: &[u64]) -> (same: bool)
    ensures
        same == (a@ == b@),
{
    if a.len() != b.len() {
        return false;
    }
    let mut at: usize = 0;
    while at < a.len()
        invariant
            a@.len() == b@.len(),
            at <= a@.len(),
            forall|i: int| 0 <= i < at ==> a@[i] == b@[i],
        decreases a@.len() - at,
    {
        if a[at] != b[at] {
            return false;
        }
        at += 1;
    }
    assert(a@ =~= b@);
    true
}

/// A path of one's own.
pub fn path_of(path: &[u64]) -> (copy: AuthoredPath)
    ensures
        copy@ == path@,
{
    let mut copy: Vec<u64> = Vec::new();
    let mut at: usize = 0;
    while at < path.len()
        invariant
            at <= path@.len(),
            copy@ == path@.take(at as int),
        decreases path@.len() - at,
    {
        copy.push(path[at]);
        at += 1;
    }
    copy
}

impl Key for Vec<u64> {
    fn same(&self, other: &Self) -> (same: bool) {
        same_path(self.as_slice(), other.as_slice())
    }
}

impl Key for u64 {
    fn same(&self, other: &Self) -> (same: bool) {
        *self == *other
    }
}

/// A set of keys.
pub struct KeySet<K: Key> {
    keys: Vec<K>,
}

impl<K: Key> View for KeySet<K> {
    type V = Set<K::V>;

    closed spec fn view(&self) -> Set<K::V> {
        Set::new(|key: K::V| exists|i: int| 0 <= i < self.keys@.len() && self.keys@[i]@ == key)
    }
}

impl<K: Key> KeySet<K> {
    pub fn new() -> (set: Self)
        ensures
            set@ == Set::<K::V>::empty(),
    {
        let set = KeySet { keys: Vec::new() };
        assert(set@ =~= Set::<K::V>::empty());
        set
    }

    /// Puts `key` in.
    pub fn insert(&mut self, key: K)
        ensures
            final(self)@ == old(self)@.insert(key@),
    {
        let ghost before = self.keys@;
        self.keys.push(key);
        assert(self@ =~= old(self)@.insert(key@)) by {
            assert forall|k: K::V| #[trigger] self@.contains(k) <==> old(self)@.insert(key@).contains(
                k,
            ) by {
                if old(self)@.contains(k) {
                    let i = choose|i: int| 0 <= i < before.len() && before[i]@ == k;
                    assert(self.keys@[i]@ == k);
                }
                if k == key@ {
                    assert(self.keys@[before.len() as int]@ == k);
                }
                if self@.contains(k) && k != key@ {
                    let i = choose|i: int| 0 <= i < self.keys@.len() && self.keys@[i]@ == k;
                    assert(i < before.len());
                    assert(before[i]@ == k);
                }
            }
        }
    }

    /// Whether `key` is in.
    pub fn contains(&self, key: &K) -> (held: bool)
        ensures
            held == self@.contains(key@),
    {
        let mut at: usize = 0;
        while at < self.keys.len()
            invariant
                at <= self.keys@.len(),
                forall|i: int| 0 <= i < at ==> self.keys@[i]@ != key@,
            decreases self.keys@.len() - at,
        {
            if self.keys[at].same(key) {
                assert(self.keys@[at as int]@ == key@);
                return true;
            }
            at += 1;
        }
        false
    }
}

/// A map from keys to what the host keeps under them. No key stands in it
/// twice.
pub struct Keyed<K: Key, V> {
    entries: Vec<(K, V)>,
}

/// Where `key` stands among `entries`.
spec fn found<K: Key, V>(entries: Seq<(K, V)>, key: K::V) -> int {
    choose|i: int| 0 <= i < entries.len() && entries[i].0@ == key
}

spec fn holds<K: Key, V>(entries: Seq<(K, V)>, key: K::V) -> bool {
    exists|i: int| 0 <= i < entries.len() && entries[i].0@ == key
}

spec fn mapped<K: Key, V>(entries: Seq<(K, V)>) -> Map<K::V, V> {
    Map::new(|key: K::V| holds(entries, key), |key: K::V| entries[found(entries, key)].1)
}

spec fn distinct<K: Key, V>(entries: Seq<(K, V)>) -> bool {
    forall|i: int, j: int|
        0 <= i < entries.len() && 0 <= j < entries.len() && i != j ==> #[trigger] entries[i].0@
            != #[trigger] entries[j].0@
}

proof fn stands_at<K: Key, V>(entries: Seq<(K, V)>, at: int)
    requires
        distinct(entries),
        0 <= at < entries.len(),
    ensures
        holds(entries, entries[at].0@),
        found(entries, entries[at].0@) == at,
        mapped(entries).dom().contains(entries[at].0@),
        mapped(entries)[entries[at].0@] == entries[at].1,
{
    let key = entries[at].0@;
    assert(holds(entries, key));
    let place = found(entries, key);
    assert(0 <= place < entries.len() && entries[place].0@ == key);
}

/// `entries` are `map` when each of them is in it and each of its keys is
/// among them.
proof fn amounts_to<K: Key, V>(entries: Seq<(K, V)>, map: Map<K::V, V>)
    requires
        distinct(entries),
        forall|i: int|
            0 <= i < entries.len() ==> map.dom().contains((#[trigger] entries[i]).0@)
                && map[entries[i].0@] == entries[i].1,
        forall|key: K::V| #[trigger] map.dom().contains(key) ==> holds(entries, key),
    ensures
        mapped(entries) == map,
{
    assert forall|key: K::V| mapped(entries).dom().contains(key) implies map.dom().contains(key)
        && #[trigger] mapped(entries)[key] == map[key] by {
        let i = found(entries, key);
        assert(entries[i].0@ == key);
    }
    assert(mapped(entries) =~= map);
}

/// Whether `entry` is one of `entries` from `low` on.
spec fn among<K: Key, V>(entries: Seq<(K, V)>, low: int, entry: (K, V)) -> bool {
    exists|j: int| low <= j < entries.len() && entries[j] == entry
}

impl<K: Key, V> View for Keyed<K, V> {
    type V = Map<K::V, V>;

    closed spec fn view(&self) -> Map<K::V, V> {
        mapped(self.entries@)
    }
}

impl<K: Key, V> Keyed<K, V> {
    #[verifier::type_invariant]
    spec fn one_of_each(self) -> bool {
        distinct(self.entries@)
    }

    pub fn new() -> (map: Self)
        ensures
            map@ == Map::<K::V, V>::empty(),
    {
        let map = Keyed { entries: Vec::new() };
        assert(map@ =~= Map::<K::V, V>::empty());
        map
    }

    fn position(&self, key: &K) -> (at: Option<usize>)
        ensures
            match at {
                Some(at) => at < self.entries@.len() && self.entries@[at as int].0@ == key@,
                None => !holds(self.entries@, key@),
            },
    {
        let mut at: usize = 0;
        while at < self.entries.len()
            invariant
                at <= self.entries@.len(),
                forall|i: int| 0 <= i < at ==> (#[trigger] self.entries@[i]).0@ != key@,
            decreases self.entries@.len() - at,
        {
            if self.entries[at].0.same(key) {
                return Some(at);
            }
            at += 1;
        }
        None
    }

    /// Whether anything is kept under `key`.
    pub fn contains_key(&self, key: &K) -> (held: bool)
        ensures
            held == self@.dom().contains(key@),
    {
        let at = self.position(key);
        proof {
            use_type_invariant(self);
            if let Some(at) = at {
                stands_at(self.entries@, at as int);
            }
        }
        at.is_some()
    }

    /// What is kept under `key`.
    pub fn get(&self, key: &K) -> (value: Option<&V>)
        ensures
            match value {
                Some(value) => self@.dom().contains(key@) && *value == self@[key@],
                None => !self@.dom().contains(key@),
            },
    {
        let at = self.position(key);
        proof {
            use_type_invariant(self);
            if let Some(at) = at {
                stands_at(self.entries@, at as int);
            }
        }
        match at {
            Some(at) => Some(&self.entries[at].1),
            None => None,
        }
    }

    /// Keeps `value` under `key`, in place of whatever was kept there.
    pub fn insert(&mut self, key: K, value: V)
        ensures
            final(self)@ == old(self)@.insert(key@, value),
    {
        let ghost before = self.entries@;
        proof {
            use_type_invariant(&*self);
        }
        let at = self.position(&key);
        let mut entries: Vec<(K, V)> = Vec::new();
        std::mem::swap(&mut entries, &mut self.entries);
        match at {
            Some(at) => {
                proof {
                    stands_at(before, at as int);
                }
                entries.set(at, (key, value));
            },
            None => {
                entries.push((key, value));
            },
        }
        proof {
            let ghost place = match at {
                Some(at) => at as int,
                None => before.len() as int,
            };
            let after = entries@;
            assert forall|i: int, j: int|
                0 <= i < after.len() && 0 <= j < after.len() && i != j implies #[trigger] after[i].0@
                != #[trigger] after[j].0@ by {
                if at is Some {
                    assert(before[i].0@ != before[j].0@);
                } else if i == place {
                    assert(!holds(before, key@));
                    assert(before[j] == after[j]);
                } else if j == place {
                    assert(before[i] == after[i]);
                } else {
                    assert(before[i].0@ != before[j].0@);
                }
            }
            let map = mapped(before).insert(key@, value);
            assert forall|i: int| 0 <= i < after.len() implies map.dom().contains(
                (#[trigger] after[i]).0@,
            ) && map[after[i].0@] == after[i].1 by {
                if i != place {
                    assert(after[i].0@ != after[place].0@);
                    assert(after[i] == before[i]);
                    stands_at(before, i);
                }
            }
            assert forall|k: K::V| #[trigger] map.dom().contains(k) implies holds(after, k) by {
                if k == key@ {
                    assert(after[place].0@ == k);
                } else {
                    let i = found(before, k);
                    assert(holds(before, k));
                    assert(after[i].0@ == k);
                }
            }
            amounts_to(after, map);
        }
        self.entries = entries;
    }

    /// Lets go of what is kept under `key`.
    pub fn remove(&mut self, key: &K) -> (value: Option<V>)
        ensures
            final(self)@ == old(self)@.remove(key@),
            match value {
                Some(value) => old(self)@.dom().contains(key@) && value == old(self)@[key@],
                None => !old(self)@.dom().contains(key@),
            },
    {
        let ghost before = self.entries@;
        proof {
            use_type_invariant(&*self);
        }
        let at = self.position(key);
        match at {
            None => {
                assert(self@.remove(key@) =~= self@);
                None
            },
            Some(at) => {
                let mut entries: Vec<(K, V)> = Vec::new();
                std::mem::swap(&mut entries, &mut self.entries);
                proof {
                    stands_at(before, at as int);
                }
                let (_, value) = entries.remove(at);
                proof {
                    let after = entries@;
                    let spot = |i: int| if i < at { i } else { i + 1 };
                    assert forall|i: int| 0 <= i < after.len() implies after[i] == before[#[trigger] spot(
                        i,
                    )] by {}
                    assert forall|i: int, j: int|
                        0 <= i < after.len() && 0 <= j < after.len() && i != j implies #[trigger] after[i].0@
                        != #[trigger] after[j].0@ by {
                        assert(after[i] == before[spot(i)]);
                        assert(after[j] == before[spot(j)]);
                    }
                    let map = mapped(before).remove(key@);
                    assert forall|i: int| 0 <= i < after.len() implies map.dom().contains(
                        (#[trigger] after[i]).0@,
                    ) && map[after[i].0@] == after[i].1 by {
                        assert(after[i] == before[spot(i)]);
                        stands_at(before, spot(i));
                        assert(before[spot(i)].0@ != before[at as int].0@);
                    }
                    assert forall|k: K::V| #[trigger] map.dom().contains(k) implies holds(after, k) by {
                        let i = found(before, k);
                        assert(holds(before, k));
                        let back = if i < at {
                            i
                        } else {
                            i - 1
                        };
                        assert(spot(back) == i);
                        assert(after[back] == before[i]);
                    }
                    amounts_to(after, map);
                }
                self.entries = entries;
                Some(value)
            },
        }
    }

    /// Lets go of everything.
    pub fn clear(&mut self)
        ensures
            final(self)@ == Map::<K::V, V>::empty(),
    {
        *self = Keyed::new();
    }

    /// Lets go of everything but what is kept under `keys`.
    pub fn retain(&mut self, keys: &KeySet<K>)
        ensures
            final(self)@ == old(self)@.restrict(keys@),
    {
        let ghost before = self.entries@;
        proof {
            use_type_invariant(&*self);
        }
        let mut entries: Vec<(K, V)> = Vec::new();
        std::mem::swap(&mut entries, &mut self.entries);
        let mut kept: Vec<(K, V)> = Vec::new();
        // the last entry left to look at moves over, so `kept` fills backwards
        while entries.len() > 0
            invariant
                distinct(before),
                entries@.len() <= before.len(),
                entries@ == before.take(entries@.len() as int),
                distinct(kept@),
                forall|i: int|
                    0 <= i < kept@.len() ==> among(before, entries@.len() as int, #[trigger] kept@[i])
                        && keys@.contains(kept@[i].0@),
                forall|j: int|
                    entries@.len() <= j < before.len() && keys@.contains((#[trigger] before[j]).0@)
                        ==> among(kept@, 0, before[j]),
            decreases entries@.len(),
        {
            let (key, value) = entries.pop().unwrap();
            let ghost at = entries@.len() as int;
            let ghost already = kept@;
            assert(before[at] == (key, value));
            let keep = keys.contains(&key);
            if keep {
                kept.push((key, value));
            }
            proof {
                assert forall|i: int| 0 <= i < kept@.len() implies among(
                    before,
                    at,
                    #[trigger] kept@[i],
                ) && keys@.contains(kept@[i].0@) by {
                    if i < already.len() {
                        assert(among(before, at + 1, already[i]));
                        let j = choose|j: int| at + 1 <= j < before.len() && before[j] == already[i];
                        assert(before[j] == kept@[i]);
                    } else {
                        assert(before[at] == kept@[i]);
                    }
                }
                assert forall|i: int, j: int|
                    0 <= i < kept@.len() && 0 <= j < kept@.len() && i != j implies #[trigger] kept@[i].0@
                    != #[trigger] kept@[j].0@ by {
                    if i < already.len() && j < already.len() {
                        assert(already[i].0@ != already[j].0@);
                    } else if i < already.len() {
                        assert(among(before, at + 1, already[i]));
                        let p = choose|p: int| at + 1 <= p < before.len() && before[p] == already[i];
                        assert(before[p].0@ != before[at].0@);
                    } else {
                        assert(among(before, at + 1, already[j]));
                        let p = choose|p: int| at + 1 <= p < before.len() && before[p] == already[j];
                        assert(before[p].0@ != before[at].0@);
                    }
                }
                assert forall|j: int|
                    at <= j < before.len() && keys@.contains((#[trigger] before[j]).0@) implies among(
                    kept@,
                    0,
                    before[j],
                ) by {
                    if j == at {
                        assert(kept@[already.len() as int] == before[j]);
                    } else {
                        assert(among(already, 0, before[j]));
                        let i = choose|i: int| 0 <= i < already.len() && already[i] == before[j];
                        assert(kept@[i] == before[j]);
                    }
                }
            }
        }
        proof {
            let after = kept@;
            let map = mapped(before).restrict(keys@);
            assert forall|i: int| 0 <= i < after.len() implies map.dom().contains(
                (#[trigger] after[i]).0@,
            ) && map[after[i].0@] == after[i].1 by {
                assert(among(before, 0, after[i]));
                let j = choose|j: int| 0 <= j < before.len() && before[j] == after[i];
                stands_at(before, j);
            }
            assert forall|k: K::V| #[trigger] map.dom().contains(k) implies holds(after, k) by {
                let j = found(before, k);
                assert(holds(before, k));
                assert(before[j].0@ == k);
                assert(among(after, 0, before[j]));
                let i = choose|i: int| 0 <= i < after.len() && after[i] == before[j];
                assert(after[i].0@ == k);
            }
            amounts_to(after, map);
        }
        self.entries = kept;
    }
}

} // verus!
