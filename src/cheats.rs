use vstd::prelude::*;
use crate::felt::Felt;

verus! {

/// An environment fact that a test can override.
#[derive(Clone, Copy, Debug, PartialEq, Eq, Structural)]
pub enum CheatKind {
    BlockTimestamp,
    BlockNumber,
    CallerAddress,
}

/// One override: the value a fact takes for calls into one target contract.
pub struct Override {
    pub kind: CheatKind,
    pub target: String,
    pub value: Felt,
}

/// The per-run override table of the cheat layer, with at most one override
/// for each fact and target.
pub struct CheatState {
    overrides: Vec<Override>,
}

pub open spec fn overrides_map(s: Seq<Override>) -> Map<(CheatKind, Seq<char>), Seq<u8>>
    decreases s.len(),
{
    if s.len() == 0 {
        Map::empty()
    } else {
        overrides_map(s.drop_last()).insert((s.last().kind, s.last().target@), s.last().value@)
    }
}

pub open spec fn keys_unique(s: Seq<Override>) -> bool {
    forall|a: int, b: int|
        0 <= a < b < s.len() ==> !(s[a].kind == s[b].kind && s[a].target@ == s[b].target@)
}

proof fn lemma_overrides_dom(s: Seq<Override>, kind: CheatKind, target: Seq<char>)
    ensures
        overrides_map(s).contains_key((kind, target)) <==> exists|i: int|
            0 <= i < s.len() && s[i].kind == kind && #[trigger] s[i].target@ == target,
    decreases s.len(),
{
    if s.len() > 0 {
        let p = s.drop_last();
        lemma_overrides_dom(p, kind, target);
        if exists|i: int| 0 <= i < s.len() && s[i].kind == kind && #[trigger] s[i].target@ == target {
            let i = choose|i: int| 0 <= i < s.len() && s[i].kind == kind && #[trigger] s[i].target@ == target;
            if i < s.len() - 1 {
                assert(p[i].target@ == target);
            }
        }
        if exists|i: int| 0 <= i < p.len() && p[i].kind == kind && #[trigger] p[i].target@ == target {
            let i = choose|i: int| 0 <= i < p.len() && p[i].kind == kind && #[trigger] p[i].target@ == target;
            assert(s[i].target@ == target);
        }
    }
}

proof fn lemma_overrides_value(s: Seq<Override>, i: int)
    requires
        0 <= i < s.len(),
        keys_unique(s),
    ensures
        overrides_map(s)[(s[i].kind, s[i].target@)] == s[i].value@,
    decreases s.len(),
{
    if i < s.len() - 1 {
        lemma_overrides_value(s.drop_last(), i);
    }
}

proof fn lemma_overrides_update(s: Seq<Override>, i: int, e: Override)
    requires
        0 <= i < s.len(),
        keys_unique(s),
        e.kind == s[i].kind,
        e.target@ == s[i].target@,
    ensures
        overrides_map(s.update(i, e)) == overrides_map(s).insert((e.kind, e.target@), e.value@),
        keys_unique(s.update(i, e)),
    decreases s.len(),
{
    let k = (e.kind, e.target@);
    let p = s.drop_last();
    let u = s.update(i, e);
    assert forall|a: int, b: int| 0 <= a < b < u.len() implies !(u[a].kind == u[b].kind && u[a].target@
        == u[b].target@) by {
        assert(u[a].kind == s[a].kind && u[a].target@ == s[a].target@);
        assert(u[b].kind == s[b].kind && u[b].target@ == s[b].target@);
    }
    if i == s.len() - 1 {
        assert(u.drop_last() == p);
        assert(overrides_map(u) =~= overrides_map(s).insert(k, e.value@));
    } else {
        assert(u.drop_last() == p.update(i, e));
        lemma_overrides_update(p, i, e);
        assert(s.last().kind != s[i].kind || s.last().target@ != s[i].target@);
        assert(overrides_map(u) =~= overrides_map(s).insert(k, e.value@));
    }
}

proof fn lemma_overrides_remove(s: Seq<Override>, i: int)
    requires
        0 <= i < s.len(),
        keys_unique(s),
    ensures
        overrides_map(s.remove(i)) == overrides_map(s).remove((s[i].kind, s[i].target@)),
        keys_unique(s.remove(i)),
    decreases s.len(),
{
    let k = (s[i].kind, s[i].target@);
    let r = s.remove(i);
    assert forall|a: int, b: int| 0 <= a < b < r.len() implies !(r[a].kind == r[b].kind && r[a].target@
        == r[b].target@) by {
        let ia = if a < i { a } else { a + 1 };
        let ib = if b < i { b } else { b + 1 };
        assert(r[a] == s[ia] && r[b] == s[ib]);
    }
    if i == s.len() - 1 {
        assert(r == s.drop_last());
        lemma_overrides_dom(s.drop_last(), s[i].kind, s[i].target@);
        assert(overrides_map(r) =~= overrides_map(s).remove(k));
    } else {
        let p = s.drop_last();
        lemma_overrides_remove(p, i);
        assert(r.drop_last() == p.remove(i));
        assert(r.last() == s.last());
        assert(s.last().kind != s[i].kind || s.last().target@ != s[i].target@);
        assert(overrides_map(r) =~= overrides_map(s).remove(k));
    }
}

impl CheatState {
    /// The overrides in force, by fact and target.
    pub closed spec fn view(&self) -> Map<(CheatKind, Seq<char>), Seq<u8>> {
        overrides_map(self.overrides@)
    }

    pub closed spec fn wf(&self) -> bool {
        keys_unique(self.overrides@)
    }

    /// A table with no override.
    pub fn new() -> (r: CheatState)
        ensures
            r.wf(),
            r.view() == Map::<(CheatKind, Seq<char>), Seq<u8>>::empty(),
    {
        CheatState { overrides: Vec::new() }
    }

    fn position(&self, kind: CheatKind, target: &String) -> (r: Option<usize>)
        ensures
            r.is_none() ==> forall|i: int|
                0 <= i < self.overrides@.len() ==> !(self.overrides@[i].kind == kind
                    && #[trigger] self.overrides@[i].target@ == target@),
            r.is_some() ==> r.unwrap() < self.overrides@.len() && self.overrides@[r.unwrap() as int].kind
                == kind && self.overrides@[r.unwrap() as int].target@ == target@,
    {
        let mut i: usize = 0;
        while i < self.overrides.len()
            invariant
                i <= self.overrides@.len(),
                forall|j: int|
                    0 <= j < i ==> !(self.overrides@[j].kind == kind
                        && #[trigger] self.overrides@[j].target@ == target@),
            decreases self.overrides@.len() - i,
        {
            if self.overrides[i].kind == kind && self.overrides[i].target == *target {
                return Some(i);
            }
            i = i + 1;
        }
        None
    }

    /// Starts overriding a fact for a target, replacing an earlier override.
    pub fn start(&mut self, kind: CheatKind, target: String, value: Felt)
        requires
            old(self).wf(),
        ensures
            final(self).wf(),
            final(self).view() == old(self).view().insert((kind, target@), value@),
    {
        proof {
            lemma_overrides_dom(self.overrides@, kind, target@);
        }
        match self.position(kind, &target) {
            Some(i) => {
                let ghost before = self.overrides@;
                let entry = Override { kind, target, value };
                proof {
                    lemma_overrides_update(before, i as int, entry);
                }
                self.overrides.set(i, entry);
            },
            None => {
                self.overrides.push(Override { kind, target, value });
                assert(self.overrides@.drop_last() == old(self).overrides@);
            },
        }
    }

    /// Stops overriding a fact for a target.
    pub fn stop(&mut self, kind: CheatKind, target: &String)
        requires
            old(self).wf(),
        ensures
            final(self).wf(),
            final(self).view() == old(self).view().remove((kind, target@)),
    {
        proof {
            lemma_overrides_dom(self.overrides@, kind, target@);
        }
        match self.position(kind, target) {
            Some(i) => {
                proof {
                    lemma_overrides_remove(self.overrides@, i as int);
                }
                self.overrides.remove(i);
            },
            None => {
                assert(self.view() =~= self.view().remove((kind, target@)));
            },
        }
    }

    /// The value a fact takes for calls into a target: the override where
    /// one is in force, the actual value otherwise.
    pub fn effective(&self, kind: CheatKind, target: &String, actual: Felt) -> (r: Felt)
        requires
            self.wf(),
        ensures
            r@ == (if self.view().contains_key((kind, target@)) {
                self.view()[(kind, target@)]
            } else {
                actual@
            }),
    {
        proof {
            lemma_overrides_dom(self.overrides@, kind, target@);
        }
        match self.position(kind, target) {
            Some(i) => {
                proof {
                    lemma_overrides_value(self.overrides@, i as int);
                }
                Felt::from_be_bytes(self.overrides[i].value.be.clone())
            },
            None => actual,
        }
    }
}

} // verus!
