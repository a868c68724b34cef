use vstd::prelude::*;

use crate::order::{insert_sorted, lemma_sorted_no_duplicates, sorted};
use crate::paths::comps;

verus! {

/// A module that was read, with the canonical paths that its imports and
/// export-all directives resolve to.
#[derive(Clone, Debug)]
pub struct ModuleEdges {
    pub path: String,
    pub targets: Vec<String>,
}

/// The module at `p` was read.
pub open spec fn known(g: Seq<ModuleEdges>, p: Seq<char>) -> bool {
    exists|k: int| 0 <= k < g.len() && #[trigger] g[k].path@ == p
}

/// The module at `p` imports, or re-exports all of, the module at `q`.
pub open spec fn edge(g: Seq<ModuleEdges>, p: Seq<char>, q: Seq<char>) -> bool {
    exists|k: int| 0 <= k < g.len() && #[trigger] g[k].path@ == p && comps(g[k].targets@).contains(q)
}

/// `p` can be reached from `entry` along at most `n` edges.
pub open spec fn reach_within(g: Seq<ModuleEdges>, entry: Seq<char>, p: Seq<char>, n: nat) -> bool
    decreases n,
{
    p == entry || (n > 0 && exists|q: Seq<char>|
        reach_within(g, entry, q, (n - 1) as nat) && #[trigger] edge(g, q, p))
}

pub open spec fn reachable(g: Seq<ModuleEdges>, entry: Seq<char>, p: Seq<char>) -> bool {
    exists|n: nat| #[trigger] reach_within(g, entry, p, n)
}

/// The walk over the module graph: the modules visited so far, kept sorted,
/// and the paths still to look at.
pub struct Resolver {
    pub visited: Vec<String>,
    pub pending: Vec<String>,
}

impl Resolver {
    pub open spec fn wf(&self) -> bool {
        sorted(comps(self.visited@))
    }

    /// Starts a walk at the entry module.
    pub fn new(entry: &String) -> (r: Resolver)
        ensures
            r.wf(),
            r.visited@.len() == 0,
            r.pending@.len() == 1,
            comps(r.pending@) == seq![entry@],
    {
        let mut pending: Vec<String> = Vec::new();
        pending.push(entry.clone());
        let r = Resolver { visited: Vec::new(), pending };
        assert(comps(r.pending@) =~= seq![entry@]);
        r
    }

    /// The next module to read: pending paths that were visited already are
    /// dropped; the first one that was not is marked visited and returned.
    pub fn next_module(&mut self) -> (r: Option<String>)
        requires
            old(self).wf(),
        ensures
            final(self).wf(),
            final(self).pending@.len() < old(self).pending@.len() || (r is None
                && old(self).pending@.len() == 0),
            comps(final(self).pending@) == comps(old(self).pending@).subrange(
                0,
                final(self).pending@.len() as int,
            ),
            forall|j: int|
                final(self).pending@.len() <= j < old(self).pending@.len() ==> (comps(
                    old(self).visited@,
                ).contains(#[trigger] comps(old(self).pending@)[j]) || (r matches Some(p)
                    && comps(old(self).pending@)[j] == p@)),
            r matches Some(p) ==> comps(old(self).pending@)[final(self).pending@.len() as int]
                == p@,
            match r {
                None => final(self).pending@.len() == 0 && final(self).visited@ == old(
                    self,
                ).visited@,
                Some(p) => !comps(old(self).visited@).contains(p@) && final(self).visited@.len()
                    == old(self).visited@.len() + 1 && forall|q: Seq<char>|
                    #[trigger] comps(final(self).visited@).contains(q) <==> (comps(
                        old(self).visited@,
                    ).contains(q) || q == p@),
            },
    {
        let ghost pend0 = comps(self.pending@);
        while self.pending.len() > 0
            invariant
                self.wf(),
                self.visited@ == old(self).visited@,
                pend0 == comps(old(self).pending@),
                self.pending@.len() <= old(self).pending@.len(),
                comps(self.pending@) == pend0.subrange(0, self.pending@.len() as int),
                forall|j: int|
                    self.pending@.len() <= j < pend0.len() ==> comps(old(self).visited@).contains(
                        #[trigger] pend0[j],
                    ),
            decreases self.pending@.len(),
        {
            let ghost before = self.pending@;
            let p = self.pending.pop().unwrap();
            assert(comps(self.pending@) =~= pend0.subrange(0, self.pending@.len() as int));
            assert(before[self.pending@.len() as int] == p);
            assert(comps(before)[self.pending@.len() as int] == p@);
            assert(pend0[self.pending@.len() as int] == p@);
            if insert_sorted(&mut self.visited, &p) {
                return Some(p);
            }
        }
        None
    }

    /// Queues the targets of the module just read.
    pub fn add_targets(&mut self, targets: &Vec<String>)
        requires
            old(self).wf(),
        ensures
            final(self).wf(),
            final(self).visited@ == old(self).visited@,
            comps(final(self).pending@) == comps(old(self).pending@) + comps(targets@),
    {
        let ghost p0 = comps(self.pending@);
        let mut i: usize = 0;
        while i < targets.len()
            invariant
                self.wf(),
                self.visited@ == old(self).visited@,
                i <= targets@.len(),
                comps(self.pending@) =~= p0 + comps(targets@).subrange(0, i as int),
            decreases targets@.len() - i,
        {
            let ghost before = self.pending@;
            self.pending.push(targets[i].clone());
            assert(comps(self.pending@) =~= comps(before).push(targets@[i as int]@));
            i = i + 1;
        }
        assert(comps(targets@).subrange(0, i as int) =~= comps(targets@));
    }
}

/// The targets of every entry of `g` for the path `p`, or `None` where `p`
/// was not read.
pub fn targets_of(g: &Vec<ModuleEdges>, p: &String) -> (r: Option<Vec<String>>)
    ensures
        r is Some <==> known(g@, p@),
        r matches Some(ts) ==> forall|q: Seq<char>| #[trigger]
            comps(ts@).contains(q) <==> edge(g@, p@, q),
{
    let mut found = false;
    let mut out: Vec<String> = Vec::new();
    let mut k: usize = 0;
    while k < g.len()
        invariant
            k <= g@.len(),
            found <==> exists|m: int| 0 <= m < k && #[trigger] g@[m].path@ == p@,
            forall|q: Seq<char>| #[trigger]
                comps(out@).contains(q) <==> exists|m: int|
                    0 <= m < k && #[trigger] g@[m].path@ == p@ && comps(g@[m].targets@).contains(q),
        decreases g@.len() - k,
    {
        if g[k].path == *p {
            found = true;
            let ts = &g[k].targets;
            let ghost o0 = comps(out@);
            let mut j: usize = 0;
            while j < ts.len()
                invariant
                    j <= ts@.len(),
                    ts == &g@[k as int].targets,
                    comps(out@) =~= o0 + comps(ts@).subrange(0, j as int),
                decreases ts@.len() - j,
            {
                let ghost before = out@;
                out.push(ts[j].clone());
                assert(comps(out@) =~= comps(before).push(ts@[j as int]@));
                j = j + 1;
            }
            assert(comps(ts@).subrange(0, j as int) =~= comps(ts@));
            assert forall|q: Seq<char>| #[trigger]
                comps(out@).contains(q) <==> exists|m: int|
                    0 <= m < k + 1 && #[trigger] g@[m].path@ == p@ && comps(
                        g@[m].targets@,
                    ).contains(q) by {
                if comps(out@).contains(q) {
                    let i = choose|i: int| 0 <= i < comps(out@).len() && comps(out@)[i] == q;
                    if i < o0.len() {
                        assert(o0[i] == q);
                        assert(o0.contains(q));
                    } else {
                        assert(comps(ts@)[i - o0.len()] == q);
                        assert(comps(g@[k as int].targets@).contains(q));
                    }
                }
                if exists|m: int|
                    0 <= m < k + 1 && #[trigger] g@[m].path@ == p@ && comps(
                        g@[m].targets@,
                    ).contains(q) {
                    let m = choose|m: int|
                        0 <= m < k + 1 && #[trigger] g@[m].path@ == p@ && comps(
                            g@[m].targets@,
                        ).contains(q);
                    if m < k {
                        assert(o0.contains(q));
                        let i = choose|i: int| 0 <= i < o0.len() && o0[i] == q;
                        assert(comps(out@)[i] == q);
                    } else {
                        let i = choose|i: int| 0 <= i < comps(ts@).len() && comps(ts@)[i] == q;
                        assert(comps(out@)[o0.len() + i] == q);
                    }
                }
            }
        }
        k = k + 1;
    }
    if found {
        Some(out)
    } else {
        None
    }
}

proof fn lemma_visited_bound(g: Seq<ModuleEdges>, s: Seq<Seq<char>>)
    requires
        s.no_duplicates(),
        forall|q: Seq<char>| s.contains(q) ==> known(g, q),
    ensures
        s.len() <= g.len(),
{
    let ps = g.map_values(|m: ModuleEdges| m.path@);
    assert forall|q: Seq<char>| s.to_set().contains(q) implies ps.to_set().contains(q) by {
        assert(s.contains(q));
        let k = choose|k: int| 0 <= k < g.len() && #[trigger] g[k].path@ == q;
        assert(ps[k] == q);
    }
    ps.lemma_cardinality_of_set();
    s.unique_seq_to_set();
    vstd::set_lib::lemma_len_subset(s.to_set(), ps.to_set());
}

proof fn lemma_closed_contains_reachable(
    g: Seq<ModuleEdges>,
    entry: Seq<char>,
    s: Seq<Seq<char>>,
    p: Seq<char>,
    n: nat,
)
    requires
        s.contains(entry),
        forall|q: Seq<char>, t: Seq<char>|
            #![trigger s.contains(q), edge(g, q, t)]
            s.contains(q) && edge(g, q, t) ==> s.contains(t),
        reach_within(g, entry, p, n),
    ensures
        s.contains(p),
    decreases n,
{
    if p != entry {
        let q = choose|q: Seq<char>| reach_within(g, entry, q, (n - 1) as nat) && #[trigger] edge(g, q, p);
        lemma_closed_contains_reachable(g, entry, s, q, (n - 1) as nat);
    }
}

/// Resolves the module graph from `entry`: every module reachable along
/// import and export-all edges, each once, in sorted order. Fails with the
/// first reached path that is not among the modules read.
pub fn resolve(entry: &String, graph: &Vec<ModuleEdges>) -> (r: Result<Vec<String>, String>)
    ensures
        match r {
            Ok(ms) => sorted(comps(ms@)) && (forall|q: Seq<char>| #[trigger]
                comps(ms@).contains(q) <==> reachable(graph@, entry@, q)) && (forall|q: Seq<char>|
                #[trigger] reachable(graph@, entry@, q) ==> known(graph@, q)),
            Err(p) => reachable(graph@, entry@, p@) && !known(graph@, p@),
        },
{
    let ghost g = graph@;
    let ghost e = entry@;
    let mut w = Resolver::new(entry);
    assert(reach_within(g, e, e, 0));
    assert(comps(w.pending@)[0] == e);
    assert forall|j: int| 0 <= j < w.pending@.len() implies reachable(
        g,
        e,
        #[trigger] comps(w.pending@)[j],
    ) by {
        assert(j == 0);
        assert(reach_within(g, e, comps(w.pending@)[j], 0));
    }
    loop
        invariant
            g == graph@,
            e == entry@,
            w.wf(),
            w.visited@.len() <= g.len(),
            forall|q: Seq<char>| #[trigger]
                comps(w.visited@).contains(q) ==> known(g, q) && reachable(g, e, q),
            forall|j: int|
                0 <= j < w.pending@.len() ==> reachable(g, e, #[trigger] comps(w.pending@)[j]),
            forall|q: Seq<char>, t: Seq<char>|
                #![trigger comps(w.visited@).contains(q), edge(g, q, t)]
                comps(w.visited@).contains(q) && edge(g, q, t) ==> comps(w.visited@).contains(t)
                    || comps(w.pending@).contains(t),
            comps(w.visited@).contains(e) || comps(w.pending@).contains(e),
        ensures
            forall|q: Seq<char>, t: Seq<char>|
                #![trigger comps(w.visited@).contains(q), edge(g, q, t)]
                comps(w.visited@).contains(q) && edge(g, q, t) ==> comps(w.visited@).contains(t),
            comps(w.visited@).contains(e),
            w.wf(),
            forall|q: Seq<char>| #[trigger]
                comps(w.visited@).contains(q) ==> known(g, q) && reachable(g, e, q),
        decreases g.len() - w.visited@.len(), w.pending@.len(),
    {
        let ghost v0 = comps(w.visited@);
        let ghost p0 = comps(w.pending@);
        match w.next_module() {
            None => {
                proof {
                    let v = comps(w.visited@);
                    assert(v == v0);
                    assert forall|q: Seq<char>, t: Seq<char>|
                        #![trigger v.contains(q), edge(g, q, t)]
                        v.contains(q) && edge(g, q, t) implies v.contains(t) by {
                        if !v0.contains(t) {
                            let j = choose|j: int| 0 <= j < p0.len() && p0[j] == t;
                        }
                    }
                    if !v0.contains(e) {
                        let j = choose|j: int| 0 <= j < p0.len() && p0[j] == e;
                    }
                }
                break ;
            },
            Some(p) => {
                let ghost v1 = comps(w.visited@);
                let ghost p1 = comps(w.pending@);
                assert(reachable(g, e, p0[p1.len() as int]));
                match targets_of(graph, &p) {
                    None => {
                        return Err(p);
                    },
                    Some(ts) => {
                        w.add_targets(&ts);
                        let ghost v2 = comps(w.visited@);
                        let ghost p2 = comps(w.pending@);
                        proof {
                            lemma_sorted_no_duplicates(v2);
                            lemma_visited_bound(g, v2);
                            let n = choose|n: nat| #[trigger] reach_within(g, e, p@, n);
                            assert forall|j: int| 0 <= j < p2.len() implies reachable(
                                g,
                                e,
                                #[trigger] p2[j],
                            ) by {
                                if j < p1.len() {
                                    assert(p2[j] == p1[j] && p1[j] == p0[j]);
                                } else {
                                    let t = p2[j];
                                    assert(comps(ts@)[j - p1.len()] == t);
                                    assert(comps(ts@).contains(t));
                                    assert(edge(g, p@, t));
                                    assert(reach_within(g, e, t, n + 1));
                                }
                            }
                            assert forall|q: Seq<char>, t: Seq<char>|
                                #![trigger v2.contains(q), edge(g, q, t)]
                                v2.contains(q) && edge(g, q, t) implies v2.contains(t)
                                    || p2.contains(t) by {
                                if q == p@ {
                                    assert(comps(ts@).contains(t));
                                    let i = choose|i: int| 0 <= i < comps(ts@).len() && comps(ts@)[i] == t;
                                    assert(p2[p1.len() + i] == t);
                                } else {
                                    assert(v0.contains(q));
                                    if !v0.contains(t) {
                                        assert(p0.contains(t));
                                        let j = choose|j: int| 0 <= j < p0.len() && p0[j] == t;
                                        if j < p1.len() {
                                            assert(p2[j] == t);
                                        }
                                    }
                                }
                            }
                            if !v0.contains(e) {
                                let j = choose|j: int| 0 <= j < p0.len() && p0[j] == e;
                                if j < p1.len() {
                                    assert(p2[j] == e);
                                }
                            }
                        }
                    },
                }
            },
        }
    }
    proof {
        let v = comps(w.visited@);
        assert forall|q: Seq<char>| #[trigger] v.contains(q) <==> reachable(g, e, q) by {
            if reachable(g, e, q) {
                let n = choose|n: nat| #[trigger] reach_within(g, e, q, n);
                lemma_closed_contains_reachable(g, e, v, q, n);
            }
        }
        assert forall|q: Seq<char>| #[trigger] reachable(g, e, q) implies known(g, q) by {
            assert(v.contains(q));
        }
    }
    Ok(w.visited)
}

} // verus!
