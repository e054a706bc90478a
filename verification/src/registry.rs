//! Node registry: tier name -> ordered list of node addresses.
//!
//! The registry is populated at startup and read by every fanout request.
//! Tier names are unique; an empty node list for a tier is legal and simply
//! yields zero dispatches. Entries keep their insertion order.

use vstd::prelude::*;

verus! {

/// One tier: its name and the addresses of its cache nodes, in insertion
/// order.
pub struct TierNodes {
    pub name: String,
    pub nodes: Vec<String>,
}

/// Mapping from tier name to node list, kept as a sequence of entries with
/// pairwise-distinct names.
pub struct Registry {
    pub tiers: Vec<TierNodes>,
}

impl Registry {
    /// Well-formed registry: no two entries share a name.
    pub open spec fn wf(self) -> bool {
        forall|i: int, j: int|
            0 <= i < j < self.tiers@.len()
                ==> self.tiers@[i].name@ != self.tiers@[j].name@
    }

    /// Whether some entry is named `name`.
    pub open spec fn spec_has(self, name: Seq<char>) -> bool {
        exists|i: int|
            0 <= i < self.tiers@.len() && #[trigger] self.tiers@[i].name@ == name
    }

    /// Index of the entry named `name` (unique when `wf()` holds).
    pub open spec fn spec_idx(self, name: Seq<char>) -> int {
        choose|i: int|
            0 <= i < self.tiers@.len() && #[trigger] self.tiers@[i].name@ == name
    }

    /// The node addresses registered under `name`.
    pub open spec fn spec_nodes(self, name: Seq<char>) -> Seq<Seq<char>> {
        self.tiers@[self.spec_idx(name)].nodes.deep_view()
    }

    /// An empty registry.
    pub fn new() -> (r: Registry)
        ensures
            r.wf(),
            r.tiers@.len() == 0,
            forall|name: Seq<char>| !r.spec_has(name),
    {
        Registry { tiers: Vec::new() }
    }

    /// Register `nodes` under `name`, replacing the node list if the tier
    /// already exists. Other tiers are untouched.
    pub fn insert(&mut self, name: String, nodes: Vec<String>)
        requires
            old(self).wf(),
        ensures
            final(self).wf(),
            final(self).spec_has(name@),
            final(self).spec_nodes(name@) == nodes.deep_view(),
            forall|o: Seq<char>|
                o != name@ ==> final(self).spec_has(o) == old(self).spec_has(o),
            forall|o: Seq<char>|
                o != name@ && old(self).spec_has(o)
                    ==> final(self).spec_nodes(o) == old(self).spec_nodes(o),
    {
        let n: usize = self.tiers.len();
        let mut i: usize = 0;
        while i < n
            invariant
                n == self.tiers@.len(),
                i <= n,
                old(self).wf(),
                *self == *old(self),
                forall|k: int| 0 <= k < i ==> self.tiers@[k].name@ != name@,
            decreases n - i,
        {
            if self.tiers[i].name == name {
                self.tiers[i].nodes = nodes;
                proof {
                    assert(self.tiers@.len() == old(self).tiers@.len());
                    assert forall|k: int| 0 <= k < self.tiers@.len() implies
                        self.tiers@[k].name@ == old(self).tiers@[k].name@ by {}
                    assert forall|a: int, b: int|
                        0 <= a < b < self.tiers@.len() implies
                        self.tiers@[a].name@ != self.tiers@[b].name@ by {
                        assert(old(self).tiers@[a].name@ != old(self).tiers@[b].name@);
                    }
                    assert(self.wf());
                    lemma_entry_lookup(*self, i as int);
                    assert forall|o: Seq<char>| o != name@ implies
                        self.spec_has(o) == old(self).spec_has(o) by {
                        if old(self).spec_has(o) {
                            let k = old(self).spec_idx(o);
                            assert(self.tiers@[k].name@ == o);
                        }
                        if self.spec_has(o) {
                            let k = self.spec_idx(o);
                            assert(old(self).tiers@[k].name@ == o);
                        }
                    }
                    assert forall|o: Seq<char>| o != name@ && old(self).spec_has(o) implies
                        self.spec_nodes(o) == old(self).spec_nodes(o) by {
                        let k = old(self).spec_idx(o);
                        assert(self.tiers@[k].name@ == o);
                        lemma_entry_lookup(*self, k);
                        lemma_entry_lookup(*old(self), k);
                    }
                }
                return;
            }
            i = i + 1;
        }
        self.tiers.push(TierNodes { name, nodes });
        proof {
            let last = self.tiers@.len() - 1;
            lemma_entry_lookup(*self, last);
            assert forall|o: Seq<char>| o != self.tiers@[last].name@ implies
                self.spec_has(o) == old(self).spec_has(o) by {
                if old(self).spec_has(o) {
                    let k = old(self).spec_idx(o);
                    assert(self.tiers@[k].name@ == o);
                }
                if self.spec_has(o) {
                    let k = self.spec_idx(o);
                    assert(old(self).tiers@[k].name@ == o);
                }
            }
            assert forall|o: Seq<char>| o != self.tiers@[last].name@ && old(self).spec_has(o) implies
                self.spec_nodes(o) == old(self).spec_nodes(o) by {
                let k = old(self).spec_idx(o);
                assert(self.tiers@[k].name@ == o);
                lemma_entry_lookup(*self, k);
                lemma_entry_lookup(*old(self), k);
            }
        }
    }

    /// Look up the node list of tier `name`; `None` when no such tier is
    /// registered.
    pub fn resolve<'a>(&'a self, name: &String) -> (r: Option<&'a Vec<String>>)
        requires
            self.wf(),
        ensures
            (match r {
                Some(nodes) => self.spec_has(name@)
                    && nodes.deep_view() == self.spec_nodes(name@),
                None => !self.spec_has(name@),
            }),
    {
        let n: usize = self.tiers.len();
        let mut i: usize = 0;
        while i < n
            invariant
                n == self.tiers@.len(),
                i <= n,
                self.wf(),
                forall|k: int| 0 <= k < i ==> self.tiers@[k].name@ != name@,
            decreases n - i,
        {
            if self.tiers[i].name == *name {
                proof {
                    lemma_entry_lookup(*self, i as int);
                }
                return Some(&self.tiers[i].nodes);
            }
            i = i + 1;
        }
        None
    }

    /// Number of registered tiers.
    pub fn tier_count(&self) -> (n: usize)
        ensures
            n == self.tiers@.len(),
    {
        self.tiers.len()
    }
}

/// In a well-formed registry, the entry at index `i` is exactly the one the
/// lookup spec functions find for its name.
pub proof fn lemma_entry_lookup(reg: Registry, i: int)
    requires
        reg.wf(),
        0 <= i < reg.tiers@.len(),
    ensures
        reg.spec_has(reg.tiers@[i].name@),
        reg.spec_idx(reg.tiers@[i].name@) == i,
        reg.spec_nodes(reg.tiers@[i].name@) == reg.tiers@[i].nodes.deep_view(),
{
    let name = reg.tiers@[i].name@;
    assert(reg.spec_has(name));
    let j = reg.spec_idx(name);
    assert(0 <= j < reg.tiers@.len() && reg.tiers@[j].name@ == name);
    if i < j {
        assert(reg.tiers@[i].name@ != reg.tiers@[j].name@);
    } else if j < i {
        assert(reg.tiers@[j].name@ != reg.tiers@[i].name@);
    }
}

} // verus!
