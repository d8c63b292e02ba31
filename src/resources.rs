use vstd::prelude::*;

verus! {

/// How many instances of one builtin a run used.
pub struct BuiltinUsage {
    pub name: String,
    pub count: usize,
}

/// The VM resources that a run used.
pub struct ExecutionResources {
    pub n_steps: usize,
    pub n_memory_holes: usize,
    pub builtins: Vec<BuiltinUsage>,
}

/// How many instances of the named builtin the entries count, all together.
pub open spec fn count_of(s: Seq<BuiltinUsage>, name: Seq<char>) -> nat
    decreases s.len(),
{
    if s.len() == 0 {
        0
    } else {
        count_of(s.drop_last(), name) + if s.last().name@ == name {
            s.last().count as nat
        } else {
            0
        }
    }
}

impl ExecutionResources {
    /// Instances of the named builtin used.
    pub open spec fn builtin(&self, name: Seq<char>) -> nat {
        count_of(self.builtins@, name)
    }

    /// No entry records an unused builtin.
    pub open spec fn only_used(&self) -> bool {
        forall|i: int| 0 <= i < self.builtins@.len() ==> self.builtins@[i].count > 0
    }
}

/// `total` counts exactly what `a` and `b` count together.
pub open spec fn is_sum(a: ExecutionResources, b: ExecutionResources, total: ExecutionResources) -> bool {
    &&& total.n_steps == a.n_steps + b.n_steps
    &&& total.n_memory_holes == a.n_memory_holes + b.n_memory_holes
    &&& forall|name: Seq<char>| #[trigger] total.builtin(name) == a.builtin(name) + b.builtin(name)
}

/// `a` and `b` can be added without overflow.
pub open spec fn sum_fits(a: ExecutionResources, b: ExecutionResources) -> bool {
    &&& a.n_steps + b.n_steps <= usize::MAX
    &&& a.n_memory_holes + b.n_memory_holes <= usize::MAX
    &&& forall|name: Seq<char>| #[trigger] a.builtin(name) + b.builtin(name) <= usize::MAX
}

proof fn lemma_count_push(s: Seq<BuiltinUsage>, u: BuiltinUsage, name: Seq<char>)
    ensures
        count_of(s.push(u), name) == count_of(s, name) + if u.name@ == name {
            u.count as nat
        } else {
            0
        },
{
    assert(s.push(u).drop_last() == s);
}

proof fn lemma_entry_le_count(s: Seq<BuiltinUsage>, j: int)
    requires
        0 <= j < s.len(),
    ensures
        s[j].count <= count_of(s, s[j].name@),
    decreases s.len(),
{
    if j < s.len() - 1 {
        lemma_entry_le_count(s.drop_last(), j);
    }
}

proof fn lemma_count_update(s: Seq<BuiltinUsage>, j: int, u: BuiltinUsage, name: Seq<char>)
    requires
        0 <= j < s.len(),
        u.name@ == s[j].name@,
        u.count >= s[j].count,
    ensures
        count_of(s.update(j, u), name) == count_of(s, name) + if u.name@ == name {
            (u.count - s[j].count) as nat
        } else {
            0
        },
    decreases s.len(),
{
    if j < s.len() - 1 {
        assert(s.update(j, u).drop_last() == s.drop_last().update(j, u));
        lemma_count_update(s.drop_last(), j, u, name);
    } else {
        assert(s.update(j, u).drop_last() == s.drop_last());
    }
}

/// Position of the first entry for the named builtin.
fn find_builtin(v: &Vec<BuiltinUsage>, name: &String) -> (r: Option<usize>)
    ensures
        r.is_none() ==> forall|i: int| 0 <= i < v@.len() ==> v@[i].name@ != name@,
        r.is_some() ==> r.unwrap() < v@.len() && v@[r.unwrap() as int].name@ == name@,
{
    let mut i: usize = 0;
    while i < v.len()
        invariant
            i <= v@.len(),
            forall|j: int| 0 <= j < i ==> v@[j].name@ != name@,
        decreases v@.len() - i,
    {
        if v[i].name == *name {
            return Some(i);
        }
        i = i + 1;
    }
    None
}

impl ExecutionResources {
    /// A fresh counter: nothing used yet.
    pub fn empty() -> (r: ExecutionResources)
        ensures
            r.n_steps == 0,
            r.n_memory_holes == 0,
            forall|name: Seq<char>| #[trigger] r.builtin(name) == 0,
            r.only_used(),
    {
        ExecutionResources { n_steps: 0, n_memory_holes: 0, builtins: Vec::new() }
    }

    /// The same usage without the entries of builtins that were not used.
    pub fn filter_unused_builtins(self) -> (r: ExecutionResources)
        ensures
            r.n_steps == self.n_steps,
            r.n_memory_holes == self.n_memory_holes,
            forall|name: Seq<char>| #[trigger] r.builtin(name) == self.builtin(name),
            r.only_used(),
    {
        let mut kept: Vec<BuiltinUsage> = Vec::new();
        let mut i: usize = 0;
        while i < self.builtins.len()
            invariant
                i <= self.builtins@.len(),
                forall|name: Seq<char>| #[trigger] count_of(kept@, name) == count_of(self.builtins@.take(i as int), name),
                forall|k: int| 0 <= k < kept@.len() ==> kept@[k].count > 0,
            decreases self.builtins@.len() - i,
        {
            let ghost t1 = self.builtins@.take(i + 1);
            assert(t1.drop_last() == self.builtins@.take(i as int));
            let u = &self.builtins[i];
            if u.count > 0 {
                let ghost before = kept@;
                let entry = BuiltinUsage { name: u.name.clone(), count: u.count };
                kept.push(entry);
                assert forall|name: Seq<char>| #[trigger] count_of(kept@, name) == count_of(t1, name) by {
                    lemma_count_push(before, entry, name);
                }
            } else {
                assert forall|name: Seq<char>| #[trigger] count_of(kept@, name) == count_of(t1, name) by {}
            }
            i = i + 1;
        }
        assert(self.builtins@.take(i as int) == self.builtins@);
        ExecutionResources { n_steps: self.n_steps, n_memory_holes: self.n_memory_holes, builtins: kept }
    }

    /// Adds `other`'s usage to this one, builtin by builtin.
    pub fn add_resources(&mut self, other: &ExecutionResources)
        requires
            sum_fits(*old(self), *other),
        ensures
            is_sum(*old(self), *other, *final(self)),
    {
        self.n_steps = self.n_steps + other.n_steps;
        self.n_memory_holes = self.n_memory_holes + other.n_memory_holes;
        let ghost start = self.builtins@;
        let mut i: usize = 0;
        while i < other.builtins.len()
            invariant
                i <= other.builtins@.len(),
                sum_fits(*old(self), *other),
                start == old(self).builtins@,
                self.n_steps == old(self).n_steps + other.n_steps,
                self.n_memory_holes == old(self).n_memory_holes + other.n_memory_holes,
                forall|name: Seq<char>| #[trigger] count_of(self.builtins@, name) == count_of(start, name)
                    + count_of(other.builtins@.take(i as int), name),
            decreases other.builtins@.len() - i,
        {
            let ghost t1 = other.builtins@.take(i + 1);
            assert(t1.drop_last() == other.builtins@.take(i as int));
            let u = &other.builtins[i];
            let ghost before = self.builtins@;
            proof {
                lemma_count_push(other.builtins@.take(i as int), *u, u.name@);
                assert(count_of(other.builtins@.take(i as int), u.name@) + u.count <= count_of(other.builtins@, u.name@)) by {
                    lemma_prefix_count_le(other.builtins@, i + 1, u.name@);
                }
            }
            match find_builtin(&self.builtins, &u.name) {
                Some(j) => {
                    proof {
                        lemma_entry_le_count(before, j as int);
                        assert(old(self).builtin(u.name@) + other.builtin(u.name@) <= usize::MAX);
                        assert(count_of(before, u.name@) == count_of(start, u.name@) + count_of(
                            other.builtins@.take(i as int),
                            u.name@,
                        ));
                    }
                    let c = self.builtins[j].count + u.count;
                    let entry = BuiltinUsage { name: u.name.clone(), count: c };
                    self.builtins.set(j, entry);
                    assert forall|name: Seq<char>| #[trigger] count_of(self.builtins@, name) == count_of(start, name)
                        + count_of(t1, name) by {
                        lemma_count_update(before, j as int, entry, name);
                        lemma_count_push(other.builtins@.take(i as int), *u, name);
                    }
                },
                None => {
                    let entry = BuiltinUsage { name: u.name.clone(), count: u.count };
                    self.builtins.push(entry);
                    assert forall|name: Seq<char>| #[trigger] count_of(self.builtins@, name) == count_of(start, name)
                        + count_of(t1, name) by {
                        lemma_count_push(before, entry, name);
                        lemma_count_push(other.builtins@.take(i as int), *u, name);
                    }
                },
            }
            i = i + 1;
        }
        assert(other.builtins@.take(i as int) == other.builtins@);
    }
}

proof fn lemma_prefix_count_le(s: Seq<BuiltinUsage>, n: int, name: Seq<char>)
    requires
        0 <= n <= s.len(),
    ensures
        count_of(s.take(n), name) <= count_of(s, name),
    decreases s.len() - n,
{
    if n < s.len() {
        assert(s.take(n + 1).drop_last() == s.take(n));
        lemma_prefix_count_le(s, n + 1, name);
    } else {
        assert(s.take(n) == s);
    }
}

} // verus!
