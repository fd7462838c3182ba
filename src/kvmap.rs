use vstd::prelude::*;

verus! {

/// The value stored under `k` in `m`, as a lookup returns it.
pub open spec fn lookup(m: Map<Seq<char>, Seq<char>>, k: Seq<char>) -> Option<Seq<char>> {
    if m.contains_key(k) {
        Some(m[k])
    } else {
        None
    }
}

/// The view of an optional string.
pub open spec fn opt_view(o: Option<String>) -> Option<Seq<char>> {
    match o {
        Some(s) => Some(s@),
        None => None,
    }
}

/// A map from text keys to text values. Both the stored data and the named
/// commands are held in one of these.
///
/// The entries are kept in a vector whose keys are pairwise distinct; their
/// order carries no meaning.
pub struct KvMap {
    entries: Vec<(String, String)>,
    model: Ghost<Map<Seq<char>, Seq<char>>>,
}

impl View for KvMap {
    type V = Map<Seq<char>, Seq<char>>;

    closed spec fn view(&self) -> Map<Seq<char>, Seq<char>> {
        self.model@
    }
}

/// `entries` holds distinct keys, and holds exactly the pairs of `m`.
pub open spec fn entries_match(entries: Seq<(String, String)>, m: Map<Seq<char>, Seq<char>>) -> bool {
    &&& forall|i: int, j: int|
        0 <= i < j < entries.len() ==> (#[trigger] entries[i]).0@ != (#[trigger] entries[j]).0@
    &&& forall|i: int|
        0 <= i < entries.len() ==> m.contains_key((#[trigger] entries[i]).0@) && m[entries[i].0@]
            == entries[i].1@
    &&& forall|k: Seq<char>|
        #[trigger] m.contains_key(k) ==> exists|i: int| 0 <= i < entries.len() && entries[i].0@ == k
}

impl KvMap {
    #[verifier::type_invariant]
    closed spec fn inv(self) -> bool {
        entries_match(self.entries@, self.model@)
    }

    /// An empty map.
    pub fn new() -> (r: KvMap)
        ensures
            r@ == Map::<Seq<char>, Seq<char>>::empty(),
    {
        KvMap { entries: Vec::new(), model: Ghost(Map::empty()) }
    }

    /// The number of keys.
    pub fn len(&self) -> (r: usize)
        ensures
            r == self@.len(),
    {
        proof {
            use_type_invariant(self);
            lemma_entries_len(self.entries@, self@);
        }
        self.entries.len()
    }

    /// The position of `k` among the entries, if it is there.
    fn find(&self, k: &String) -> (r: Option<usize>)
        ensures
            match r {
                Some(i) => i < self.entries.len() && self.entries@[i as int].0@ == k@,
                None => !self@.contains_key(k@),
            },
    {
        proof {
            use_type_invariant(self);
        }
        let mut i: usize = 0;
        while i < self.entries.len()
            invariant
                i <= self.entries.len(),
                forall|j: int| 0 <= j < i ==> self.entries@[j].0@ != k@,
            decreases self.entries.len() - i,
        {
            if self.entries[i].0 == *k {
                return Some(i);
            }
            i = i + 1;
        }
        None
    }

    /// All pairs, each key once, in no particular order.
    pub fn entries(&self) -> (r: Vec<(String, String)>)
        ensures
            entries_match(r@, self@),
    {
        proof {
            use_type_invariant(self);
        }
        let mut out: Vec<(String, String)> = Vec::new();
        let mut i: usize = 0;
        while i < self.entries.len()
            invariant
                i <= self.entries.len(),
                entries_match(self.entries@, self@),
                out@.len() == i,
                forall|j: int| 0 <= j < i ==> (#[trigger] out@[j]).0@ == self.entries@[j].0@
                    && out@[j].1@ == self.entries@[j].1@,
            decreases self.entries.len() - i,
        {
            let k = self.entries[i].0.clone();
            let v = self.entries[i].1.clone();
            out.push((k, v));
            i = i + 1;
        }
        proof {
            assert forall|k: Seq<char>| #[trigger] self@.contains_key(k) implies exists|j: int|
                0 <= j < out@.len() && out@[j].0@ == k by {
                let j = choose|j: int| 0 <= j < self.entries@.len() && self.entries@[j].0@ == k;
                assert(out@[j].0@ == k);
            }
        }
        out
    }
}

/// Dropping the last entry drops its key from the map.
proof fn lemma_entries_drop_last(entries: Seq<(String, String)>, m: Map<Seq<char>, Seq<char>>)
    requires
        entries_match(entries, m),
        entries.len() > 0,
    ensures
        entries_match(entries.drop_last(), m.remove(entries.last().0@)),
        m.contains_key(entries.last().0@),
        m[entries.last().0@] == entries.last().1@,
{
    let last = entries.last();
    let rest = entries.drop_last();
    let m2 = m.remove(last.0@);
    assert forall|k: Seq<char>| #[trigger] m2.contains_key(k) implies exists|i: int|
        0 <= i < rest.len() && rest[i].0@ == k by {
        let i = choose|i: int| 0 <= i < entries.len() && entries[i].0@ == k;
        assert(i != entries.len() - 1);
        assert(rest[i] == entries[i]);
    }
    assert forall|i: int| 0 <= i < rest.len() implies m2.contains_key((#[trigger] rest[i]).0@)
        && m2[rest[i].0@] == rest[i].1@ by {
        assert(rest[i] == entries[i]);
        assert(entries[i].0@ != entries[entries.len() - 1].0@);
    }
    assert forall|i: int, j: int| 0 <= i < j < rest.len() implies (#[trigger] rest[i]).0@
        != (#[trigger] rest[j]).0@ by {
        assert(rest[i] == entries[i]);
        assert(rest[j] == entries[j]);
    }
    assert(m.contains_key(entries[entries.len() - 1].0@));
}

proof fn lemma_entries_len(entries: Seq<(String, String)>, m: Map<Seq<char>, Seq<char>>)
    requires
        entries_match(entries, m),
    ensures
        m.dom().finite(),
        m.len() == entries.len(),
    decreases entries.len(),
{
    if entries.len() == 0 {
        assert(m.dom() =~= Set::empty());
    } else {
        let last = entries.last();
        lemma_entries_drop_last(entries, m);
        lemma_entries_len(entries.drop_last(), m.remove(last.0@));
        assert(m.dom() =~= m.remove(last.0@).dom().insert(last.0@));
    }
}

/// Storing the pairs of `entries` in turn builds `m` again.
pub proof fn lemma_entries_rebuild(entries: Seq<(String, String)>, m: Map<Seq<char>, Seq<char>>)
    requires
        entries_match(entries, m),
    ensures
        crate::store::pairs_map(entries) == m,
    decreases entries.len(),
{
    if entries.len() == 0 {
        assert(m.dom() =~= Set::empty());
        assert(m =~= Map::empty());
    } else {
        let last = entries.last();
        lemma_entries_drop_last(entries, m);
        lemma_entries_rebuild(entries.drop_last(), m.remove(last.0@));
        assert(m.remove(last.0@).insert(last.0@, last.1@) =~= m);
    }
}

/// The value stored under `s`, or nothing when the key is absent.
pub fn get_key(s: &str, map: &KvMap) -> (r: Option<String>)
    ensures
        opt_view(r) == lookup(map@, s@),
{
    proof {
        use_type_invariant(map);
    }
    let k = s.to_owned();
    match map.find(&k) {
        Some(i) => Some(map.entries[i].1.clone()),
        None => None,
    }
}

/// Stores `v` under `k`, replacing what was there.
pub fn set_key(k: &str, v: &str, map: &mut KvMap)
    ensures
        final(map)@ == old(map)@.insert(k@, v@),
{
    proof {
        use_type_invariant(&*map);
    }
    let key = k.to_owned();
    let value = v.to_owned();
    let found = map.find(&key);
    let mut taken = KvMap::new();
    std::mem::swap(&mut taken, map);
    let mut entries = taken.entries;
    let ghost m = old(map).model@;
    let ghost m2 = m.insert(k@, v@);
    match found {
        Some(i) => {
            entries.set(i, (key, value));
        },
        None => {
            entries.push((key, value));
        },
    }
    proof {
        assert forall|k2: Seq<char>| #[trigger] m2.contains_key(k2) implies exists|i: int|
            0 <= i < entries@.len() && entries@[i].0@ == k2 by {
            if k2 != k@ {
                let j = choose|j: int| 0 <= j < old(map).entries@.len() && old(map).entries@[j].0@ == k2;
                assert(entries@[j].0@ == k2);
            } else {
                match found {
                    Some(i) => assert(entries@[i as int].0@ == k2),
                    None => assert(entries@[entries@.len() - 1].0@ == k2),
                }
            }
        }
    }
    *map = KvMap { entries, model: Ghost(m2) };
}

/// Removes `k` and hands back the value it held, or nothing when the key was
/// absent (the map is then unchanged).
pub fn del_key(k: &str, map: &mut KvMap) -> (r: Option<String>)
    ensures
        opt_view(r) == lookup(old(map)@, k@),
        final(map)@ == old(map)@.remove(k@),
{
    proof {
        use_type_invariant(&*map);
    }
    let key = k.to_owned();
    match map.find(&key) {
        None => {
            proof {
                assert(map@.remove(k@) =~= map@);
            }
            None
        },
        Some(i) => {
            let mut taken = KvMap::new();
            std::mem::swap(&mut taken, map);
            let mut entries = taken.entries;
            let ghost old_entries = entries@;
            let ghost m2 = old(map).model@.remove(k@);
            let removed = entries.remove(i);
            proof {
                assert forall|k2: Seq<char>| #[trigger] m2.contains_key(k2) implies exists|j: int|
                    0 <= j < entries@.len() && entries@[j].0@ == k2 by {
                    let j = choose|j: int| 0 <= j < old_entries.len() && old_entries[j].0@ == k2;
                    assert(j != i);
                    if j < i {
                        assert(entries@[j] == old_entries[j]);
                    } else {
                        assert(entries@[j - 1] == old_entries[j]);
                    }
                }
                assert forall|a: int| 0 <= a < entries@.len() implies m2.contains_key(
                    (#[trigger] entries@[a]).0@) && m2[entries@[a].0@] == entries@[a].1@ by {
                    if a < i {
                        assert(entries@[a] == old_entries[a]);
                    } else {
                        assert(entries@[a] == old_entries[a + 1]);
                    }
                }
                assert forall|a: int, b: int| 0 <= a < b < entries@.len() implies (
                #[trigger] entries@[a]).0@ != (#[trigger] entries@[b]).0@ by {
                    let oa = if a < i { a } else { a + 1 };
                    let ob = if b < i { b } else { b + 1 };
                    assert(entries@[a] == old_entries[oa]);
                    assert(entries@[b] == old_entries[ob]);
                }
            }
            *map = KvMap { entries, model: Ghost(m2) };
            Some(removed.1)
        },
    }
}

} // verus!
