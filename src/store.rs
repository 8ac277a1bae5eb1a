use vstd::prelude::*;
use crate::address::Address;
use crate::record::Swap;

verus! {

/// A stored swap record with the validator that holds it, if any.
#[derive(Clone, Copy, Debug, PartialEq, Eq)]
pub struct SwapEntry {
    pub address: Address,
    pub record: Swap,
    pub custodian: Option<Address>,
}

/// The records keyed by their addresses, one entry per address.
pub struct SwapStore {
    entries: Vec<SwapEntry>,
}

/// The map that a run of entries describes: a later entry wins.
pub open spec fn entries_map(s: Seq<SwapEntry>) -> Map<Seq<u8>, SwapEntry>
    decreases s.len(),
{
    if s.len() == 0 {
        Map::empty()
    } else {
        entries_map(s.drop_last()).insert(s.last().address@, s.last())
    }
}

/// No two entries share an address.
pub open spec fn keys_unique(s: Seq<SwapEntry>) -> bool {
    forall|i: int, j: int|
        0 <= i < s.len() && 0 <= j < s.len() && i != j ==> s[i].address@ != s[j].address@
}

proof fn lemma_entries_map_keys(s: Seq<SwapEntry>, k: Seq<u8>)
    ensures
        entries_map(s).contains_key(k) <==> exists|i: int| 0 <= i < s.len() && s[i].address@ == k,
    decreases s.len(),
{
    if s.len() > 0 {
        lemma_entries_map_keys(s.drop_last(), k);
        if entries_map(s).contains_key(k) && k != s.last().address@ {
            let i = choose|i: int| 0 <= i < s.len() - 1 && s.drop_last()[i].address@ == k;
            assert(s[i].address@ == k);
        }
        if exists|i: int| 0 <= i < s.len() && s[i].address@ == k {
            let i = choose|i: int| 0 <= i < s.len() && s[i].address@ == k;
            if i < s.len() - 1 {
                assert(s.drop_last()[i].address@ == k);
            }
        }
    }
}

proof fn lemma_entries_map_at(s: Seq<SwapEntry>, i: int)
    requires
        keys_unique(s),
        0 <= i < s.len(),
    ensures
        entries_map(s).contains_key(s[i].address@),
        entries_map(s)[s[i].address@] == s[i],
    decreases s.len(),
{
    if i < s.len() - 1 {
        let p = s.drop_last();
        assert(keys_unique(p));
        assert(p[i] == s[i]);
        lemma_entries_map_at(p, i);
    }
}

proof fn lemma_entries_map_update(s: Seq<SwapEntry>, i: int, e: SwapEntry)
    requires
        keys_unique(s),
        0 <= i < s.len(),
        e.address@ == s[i].address@,
    ensures
        keys_unique(s.update(i, e)),
        entries_map(s.update(i, e)) == entries_map(s).insert(e.address@, e),
    decreases s.len(),
{
    let t = s.update(i, e);
    assert(keys_unique(t)) by {
        assert forall|a: int, b: int|
            0 <= a < t.len() && 0 <= b < t.len() && a != b implies t[a].address@ != t[b].address@ by {
            assert(s[a].address@ != s[b].address@);
        }
    }
    if i == s.len() - 1 {
        assert(t.drop_last() =~= s.drop_last());
        assert(entries_map(t) =~= entries_map(s).insert(e.address@, e));
    } else {
        let p = s.drop_last();
        assert(keys_unique(p));
        lemma_entries_map_update(p, i, e);
        assert(t.drop_last() =~= p.update(i, e));
        assert(s.last().address@ != e.address@);
        assert(entries_map(t) =~= entries_map(s).insert(e.address@, e));
    }
}

impl SwapStore {
    pub closed spec fn view(&self) -> Map<Seq<u8>, SwapEntry> {
        entries_map(self.entries@)
    }

    /// Each entry is filed under its own address, once.
    pub closed spec fn wf(&self) -> bool {
        keys_unique(self.entries@)
    }

    pub fn new() -> (r: SwapStore)
        ensures
            r.wf(),
            r@ == Map::<Seq<u8>, SwapEntry>::empty(),
    {
        SwapStore { entries: Vec::new() }
    }

    fn find(&self, key: &Address) -> (r: Option<usize>)
        requires
            self.wf(),
        ensures
            match r {
                Some(i) => i < self.entries@.len() && self.entries@[i as int].address@ == key@,
                None => !self@.contains_key(key@),
            },
    {
        let mut i: usize = 0;
        while i < self.entries.len()
            invariant
                i <= self.entries@.len(),
                forall|j: int| 0 <= j < i ==> self.entries@[j].address@ != key@,
            decreases self.entries@.len() - i,
        {
            if self.entries[i].address.same_as(key) {
                return Some(i);
            }
            i = i + 1;
        }
        proof {
            lemma_entries_map_keys(self.entries@, key@);
        }
        None
    }

    /// The entry stored at `key`.
    pub fn get(&self, key: &Address) -> (r: Option<SwapEntry>)
        requires
            self.wf(),
        ensures
            r == (if self@.contains_key(key@) { Some(self@[key@]) } else { None::<SwapEntry> }),
            r is Some ==> r->0.address@ == key@,
    {
        match self.find(key) {
            Some(i) => {
                proof {
                    lemma_entries_map_at(self.entries@, i as int);
                }
                Some(self.entries[i])
            },
            None => None,
        }
    }

    /// Whether a record is stored at `key`.
    pub fn contains(&self, key: &Address) -> (r: bool)
        requires
            self.wf(),
        ensures
            r == self@.contains_key(key@),
    {
        match self.find(key) {
            Some(i) => {
                proof {
                    lemma_entries_map_at(self.entries@, i as int);
                }
                true
            },
            None => false,
        }
    }

    /// Stores `entry` under its address, replacing what was there.
    pub fn put(&mut self, entry: SwapEntry)
        requires
            old(self).wf(),
        ensures
            final(self).wf(),
            final(self)@ == old(self)@.insert(entry.address@, entry),
    {
        match self.find(&entry.address) {
            Some(i) => {
                proof {
                    lemma_entries_map_update(self.entries@, i as int, entry);
                }
                self.entries.set(i, entry);
            },
            None => {
                proof {
                    lemma_entries_map_keys(self.entries@, entry.address@);
                }
                self.entries.push(entry);
                assert(self.entries@.drop_last() =~= old(self).entries@);
            },
        }
    }
}

} // verus!
