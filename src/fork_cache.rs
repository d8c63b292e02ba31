use vstd::prelude::*;
use crate::felt::Felt;

verus! {

/// One remembered read of forked state: at a block, under a key naming the
/// address and slot read, the value the network gave.
pub struct CacheEntry {
    pub block: u64,
    pub key: String,
    pub value: Felt,
}

/// The reads of forked state remembered so far, at most one for each block
/// and key.
pub struct ForkCache {
    entries: Vec<CacheEntry>,
}

/// What a read of forked state does next.
pub enum ReadStep {
    /// The value was remembered: no network call.
    Cached(Felt),
    /// The value must be fetched from the network.
    Fetch,
}

/// `step` is what a read at `block` under `key` does on a cache holding
/// `cached`: the remembered value if there is one, a fetch otherwise.
pub open spec fn reads_as(
    cached: Map<(u64, Seq<char>), Seq<u8>>,
    block: u64,
    key: Seq<char>,
    step: ReadStep,
) -> bool {
    match step {
        ReadStep::Cached(v) => cached.contains_key((block, key)) && v@ == cached[(block, key)],
        ReadStep::Fetch => !cached.contains_key((block, key)),
    }
}

pub open spec fn entries_map(s: Seq<CacheEntry>) -> Map<(u64, Seq<char>), Seq<u8>>
    decreases s.len(),
{
    if s.len() == 0 {
        Map::empty()
    } else {
        entries_map(s.drop_last()).insert((s.last().block, s.last().key@), s.last().value@)
    }
}

proof fn lemma_entries_map_dom(s: Seq<CacheEntry>, block: u64, key: Seq<char>)
    ensures
        entries_map(s).contains_key((block, key)) <==> exists|i: int|
            0 <= i < s.len() && s[i].block == block && #[trigger] s[i].key@ == key,
    decreases s.len(),
{
    if s.len() > 0 {
        lemma_entries_map_dom(s.drop_last(), block, key);
        let p = s.drop_last();
        if exists|i: int| 0 <= i < s.len() && s[i].block == block && #[trigger] s[i].key@ == key {
            let i = choose|i: int| 0 <= i < s.len() && s[i].block == block && #[trigger] s[i].key@ == key;
            if i < s.len() - 1 {
                assert(p[i].key@ == key);
            }
        }
        if exists|i: int| 0 <= i < p.len() && p[i].block == block && #[trigger] p[i].key@ == key {
            let i = choose|i: int| 0 <= i < p.len() && p[i].block == block && #[trigger] p[i].key@ == key;
            assert(s[i].key@ == key);
        }
    }
}

proof fn lemma_entries_map_value(s: Seq<CacheEntry>, i: int)
    requires
        0 <= i < s.len(),
        forall|a: int, b: int|
            0 <= a < b < s.len() ==> !(s[a].block == s[b].block && s[a].key@ == s[b].key@),
    ensures
        entries_map(s)[(s[i].block, s[i].key@)] == s[i].value@,
    decreases s.len(),
{
    if i < s.len() - 1 {
        lemma_entries_map_value(s.drop_last(), i);
    }
}

impl ForkCache {
    /// The remembered values by block and key.
    pub closed spec fn view(&self) -> Map<(u64, Seq<char>), Seq<u8>> {
        entries_map(self.entries@)
    }

    pub closed spec fn wf(&self) -> bool {
        forall|a: int, b: int|
            0 <= a < b < self.entries@.len() ==> !(self.entries@[a].block == self.entries@[b].block
                && self.entries@[a].key@ == self.entries@[b].key@)
    }

    pub fn new() -> (r: ForkCache)
        ensures
            r.wf(),
            r.view() == Map::<(u64, Seq<char>), Seq<u8>>::empty(),
    {
        ForkCache { entries: Vec::new() }
    }

    fn position(&self, block: u64, key: &String) -> (r: Option<usize>)
        ensures
            r.is_none() ==> forall|i: int|
                0 <= i < self.entries@.len() ==> !(self.entries@[i].block == block
                    && #[trigger] self.entries@[i].key@ == key@),
            r.is_some() ==> r.unwrap() < self.entries@.len() && self.entries@[r.unwrap() as int].block
                == block && self.entries@[r.unwrap() as int].key@ == key@,
    {
        let mut i: usize = 0;
        while i < self.entries.len()
            invariant
                i <= self.entries@.len(),
                forall|j: int|
                    0 <= j < i ==> !(self.entries@[j].block == block && #[trigger] self.entries@[j].key@
                        == key@),
            decreases self.entries@.len() - i,
        {
            if self.entries[i].block == block && self.entries[i].key == *key {
                return Some(i);
            }
            i = i + 1;
        }
        None
    }

    /// Whether a read at `block` under `key` is served from the cache, and
    /// with which value.
    pub fn begin_read(&self, block: u64, key: &String) -> (r: ReadStep)
        requires
            self.wf(),
        ensures
            reads_as(self.view(), block, key@, r),
    {
        proof {
            lemma_entries_map_dom(self.entries@, block, key@);
        }
        match self.position(block, key) {
            Some(i) => {
                proof {
                    lemma_entries_map_value(self.entries@, i as int);
                }
                ReadStep::Cached(Felt::from_be_bytes(self.entries[i].value.be.clone()))
            },
            None => ReadStep::Fetch,
        }
    }

    /// Remembers what the network gave for a read, replacing any earlier
    /// value under the same block and key.
    pub fn record(&mut self, block: u64, key: String, value: Felt)
        requires
            old(self).wf(),
        ensures
            final(self).wf(),
            final(self).view() == old(self).view().insert((block, key@), value@),
    {
        proof {
            lemma_entries_map_dom(self.entries@, block, key@);
        }
        match self.position(block, &key) {
            Some(i) => {
                let ghost before = self.entries@;
                let entry = CacheEntry { block, key, value };
                proof {
                    lemma_update_map(before, i as int, entry);
                }
                self.entries.set(i, entry);
                assert(self.entries@ == before.update(i as int, entry));
                assert forall|a: int, b: int|
                    0 <= a < b < self.entries@.len() implies !(self.entries@[a].block
                        == self.entries@[b].block && self.entries@[a].key@ == self.entries@[b].key@) by {
                    assert(self.entries@[a].block == before[a].block && self.entries@[a].key@ == before[a].key@);
                    assert(self.entries@[b].block == before[b].block && self.entries@[b].key@ == before[b].key@);
                }
            },
            None => {
                self.entries.push(CacheEntry { block, key, value });
                assert(self.entries@.drop_last() == old(self).entries@);
            },
        }
    }
}

proof fn lemma_update_map(s: Seq<CacheEntry>, i: int, e: CacheEntry)
    requires
        0 <= i < s.len(),
        forall|a: int, b: int|
            0 <= a < b < s.len() ==> !(s[a].block == s[b].block && s[a].key@ == s[b].key@),
        e.block == s[i].block,
        e.key@ == s[i].key@,
    ensures
        entries_map(s.update(i, e)) == entries_map(s).insert((e.block, e.key@), e.value@),
    decreases s.len(),
{
    let k = (e.block, e.key@);
    let p = s.drop_last();
    if i == s.len() - 1 {
        assert(s.update(i, e).drop_last() == p);
        assert(entries_map(s.update(i, e)) =~= entries_map(s).insert(k, e.value@));
    } else {
        assert(s.update(i, e).drop_last() == p.update(i, e));
        lemma_update_map(p, i, e);
        assert(s.last().block != s[i].block || s.last().key@ != s[i].key@);
        assert(entries_map(s.update(i, e)) =~= entries_map(s).insert(k, e.value@));
    }
}

/// A value written to the cache is read back as written, with no network
/// call, and writing leaves the other entries as they were. On a cold cache a
/// read fetches; once the fetched value is recorded, the next read of that
/// key is served from the cache: one network lookup in all.
pub proof fn lemma_cache_round_trip(
    cache: Map<(u64, Seq<char>), Seq<u8>>,
    block: u64,
    key: Seq<char>,
    value: Seq<u8>,
    first: ReadStep,
    second: ReadStep,
)
    requires
        reads_as(cache, block, key, first),
        reads_as(cache.insert((block, key), value), block, key, second),
    ensures
        second matches ReadStep::Cached(v) && v@ == value,
        !cache.contains_key((block, key)) ==> first matches ReadStep::Fetch,
        forall|b: u64, k: Seq<char>|
            (b, k) != (block, key) ==> #[trigger] cache.insert((block, key), value).contains_key((b, k))
                == cache.contains_key((b, k)) && (cache.contains_key((b, k)) ==> cache.insert(
                (block, key),
                value,
            )[(b, k)] == cache[(b, k)]),
{
}

} // verus!
