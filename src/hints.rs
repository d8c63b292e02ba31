use vstd::prelude::*;

verus! {

/// One instruction of the code stream as the indexer sees it: its encoded size
/// in memory cells and the hints attached to it, each as its rendering, which
/// is also its identity.
pub struct CasmInstruction {
    pub size: usize,
    pub hints: Vec<String>,
}

/// The hints attached at one offset of the code stream.
pub struct HintSite {
    pub offset: usize,
    pub hints: Vec<String>,
}

/// Where the VM pauses for hints, and which hints it can resolve.
pub struct HintIndex {
    /// Offset to hints, in stream order.
    pub sites: Vec<HintSite>,
    /// Every registered hint identity, in stream order.
    pub identities: Vec<String>,
}

/// The offset just past the instructions: the sum of their sizes.
pub open spec fn stream_len(s: Seq<CasmInstruction>) -> nat
    decreases s.len(),
{
    if s.len() == 0 {
        0
    } else {
        stream_len(s.drop_last()) + s.last().size as nat
    }
}

/// Each instruction that carries hints, as its offset and its hints.
pub open spec fn sites_of(s: Seq<CasmInstruction>) -> Seq<(nat, Seq<String>)>
    decreases s.len(),
{
    if s.len() == 0 {
        seq![]
    } else if s.last().hints@.len() == 0 {
        sites_of(s.drop_last())
    } else {
        sites_of(s.drop_last()).push((stream_len(s.drop_last()), s.last().hints@))
    }
}

/// All hints of the stream, in order.
pub open spec fn identities_of(s: Seq<CasmInstruction>) -> Seq<String>
    decreases s.len(),
{
    if s.len() == 0 {
        seq![]
    } else {
        identities_of(s.drop_last()) + s.last().hints@
    }
}

impl HintIndex {
    pub open spec fn sites_view(&self) -> Seq<(nat, Seq<String>)> {
        self.sites@.map_values(|x: HintSite| (x.offset as nat, x.hints@))
    }

    /// Whether a hint of this identity was registered.
    pub open spec fn registers(&self, id: Seq<char>) -> bool {
        exists|i: int| 0 <= i < self.identities@.len() && self.identities@[i]@ == id
    }

    /// The position in `sites` of the hints at `offset`, if any are there.
    pub fn site_at(&self, offset: usize) -> (r: Option<usize>)
        requires
            forall|i: int, j: int|
                0 <= i < j < self.sites@.len() ==> self.sites@[i].offset < self.sites@[j].offset,
        ensures
            r.is_none() ==> forall|i: int| 0 <= i < self.sites@.len() ==> self.sites@[i].offset != offset,
            r.is_some() ==> r.unwrap() < self.sites@.len() && self.sites@[r.unwrap() as int].offset == offset,
    {
        let mut i: usize = 0;
        while i < self.sites.len()
            invariant
                i <= self.sites@.len(),
                forall|j: int| 0 <= j < i ==> self.sites@[j].offset != offset,
            decreases self.sites@.len() - i,
        {
            if self.sites[i].offset == offset {
                return Some(i);
            }
            i = i + 1;
        }
        None
    }

    /// Whether a hint of this identity was registered.
    pub fn resolves(&self, id: &String) -> (r: bool)
        ensures
            r == self.registers(id@),
    {
        let mut i: usize = 0;
        while i < self.identities.len()
            invariant
                i <= self.identities@.len(),
                forall|j: int| 0 <= j < i ==> self.identities@[j]@ != id@,
            decreases self.identities@.len() - i,
        {
            if self.identities[i] == *id {
                return true;
            }
            i = i + 1;
        }
        false
    }
}

fn clone_strings(v: &Vec<String>) -> (r: Vec<String>)
    ensures
        r@ == v@,
{
    let mut r: Vec<String> = Vec::new();
    let mut i: usize = 0;
    while i < v.len()
        invariant
            i <= v@.len(),
            r@ == v@.take(i as int),
        decreases v@.len() - i,
    {
        r.push(v[i].clone());
        i = i + 1;
        assert(r@ == v@.take(i as int));
    }
    assert(v@.take(i as int) == v@);
    r
}

proof fn lemma_offsets_increase(s: Seq<CasmInstruction>)
    requires
        forall|k: int| 0 <= k < s.len() ==> s[k].size > 0,
    ensures
        forall|i: int, j: int|
            0 <= i < j < sites_of(s).len() ==> sites_of(s)[i].0 < sites_of(s)[j].0,
        forall|i: int| 0 <= i < sites_of(s).len() ==> sites_of(s)[i].0 < stream_len(s),
    decreases s.len(),
{
    if s.len() > 0 {
        let p = s.drop_last();
        lemma_offsets_increase(p);
        assert(s.last().size > 0);
        assert(stream_len(s) == stream_len(p) + s.last().size);
        if s.last().hints@.len() == 0 {
            assert(sites_of(s) == sites_of(p));
        } else {
            let q = sites_of(p);
            let r = q.push((stream_len(p), s.last().hints@));
            assert(sites_of(s) == r);
            assert forall|i: int, j: int| 0 <= i < j < r.len() implies r[i].0 < r[j].0 by {
                if j < q.len() {
                    assert(r[i] == q[i] && r[j] == q[j]);
                } else {
                    assert(r[i] == q[i]);
                }
            }
            assert forall|i: int| 0 <= i < r.len() implies r[i].0 < stream_len(s) by {
                if i < q.len() {
                    assert(r[i] == q[i]);
                }
            }
        }
    }
}

/// Indexes the code stream in one forward pass: the hints of each instruction
/// that has any are recorded under the instruction's offset, the sum of the
/// sizes of the instructions before it, and each hint is registered under its
/// identity.
pub fn build_hints_dict(instructions: &Vec<CasmInstruction>) -> (r: HintIndex)
    requires
        stream_len(instructions@) <= usize::MAX,
    ensures
        r.sites_view() == sites_of(instructions@),
        r.identities@ == identities_of(instructions@),
{
    let mut sites: Vec<HintSite> = Vec::new();
    let mut identities: Vec<String> = Vec::new();
    let mut hint_offset: usize = 0;
    let mut i: usize = 0;
    proof {
        lemma_stream_len_prefix(instructions@, 0);
    }
    while i < instructions.len()
        invariant
            i <= instructions@.len(),
            stream_len(instructions@) <= usize::MAX,
            hint_offset == stream_len(instructions@.take(i as int)),
            sites@.map_values(|x: HintSite| (x.offset as nat, x.hints@)) == sites_of(
                instructions@.take(i as int),
            ),
            identities@ == identities_of(instructions@.take(i as int)),
        decreases instructions@.len() - i,
    {
        let ghost t = instructions@.take(i as int);
        let ghost t1 = instructions@.take(i + 1);
        assert(t1.drop_last() == t);
        let instruction = &instructions[i];
        if instruction.hints.len() > 0 {
            let mut k: usize = 0;
            let ghost before = identities@;
            while k < instruction.hints.len()
                invariant
                    k <= instruction.hints@.len(),
                    identities@ == before + instruction.hints@.take(k as int),
                decreases instruction.hints@.len() - k,
            {
                identities.push(instruction.hints[k].clone());
                k = k + 1;
                assert(identities@ == before + instruction.hints@.take(k as int));
            }
            assert(instruction.hints@.take(k as int) == instruction.hints@);
            sites.push(HintSite { offset: hint_offset, hints: clone_strings(&instruction.hints) });
            assert(sites@.map_values(|x: HintSite| (x.offset as nat, x.hints@)) == sites_of(t1));
        } else {
            assert(instruction.hints@ == Seq::<String>::empty());
            assert(identities@ == identities_of(t1));
        }
        proof {
            lemma_stream_len_prefix(instructions@, i + 1);
        }
        hint_offset = hint_offset + instruction.size;
        i = i + 1;
    }
    assert(instructions@.take(i as int) == instructions@);
    HintIndex { sites, identities }
}

proof fn lemma_stream_len_prefix(s: Seq<CasmInstruction>, n: int)
    requires
        0 <= n <= s.len(),
    ensures
        stream_len(s.take(n)) <= stream_len(s),
    decreases s.len() - n,
{
    if n < s.len() {
        assert(s.take(n + 1).drop_last() == s.take(n));
        lemma_stream_len_prefix(s, n + 1);
    } else {
        assert(s.take(n) == s);
    }
}

/// Offsets in an index built from a stream of non-empty instructions strictly
/// increase, so each offset holds at most one site.
pub proof fn lemma_index_offsets_unique(instructions: Seq<CasmInstruction>, index: HintIndex)
    requires
        forall|k: int| 0 <= k < instructions.len() ==> instructions[k].size > 0,
        index.sites_view() == sites_of(instructions),
    ensures
        forall|i: int, j: int|
            0 <= i < j < index.sites@.len() ==> index.sites@[i].offset < index.sites@[j].offset,
{
    lemma_offsets_increase(instructions);
    assert forall|i: int, j: int| 0 <= i < j < index.sites@.len() implies index.sites@[i].offset
        < index.sites@[j].offset by {
        assert(index.sites_view()[i] == sites_of(instructions)[i]);
        assert(index.sites_view()[j] == sites_of(instructions)[j]);
    }
}

} // verus!
