use vstd::prelude::*;

use crate::order::{
    lemma_lt_irreflexive, lemma_lt_transitive, lemma_sorted_no_duplicates, path_lt, sorted,
};
use crate::paths::{last_dot, output_path_of, with_extension};
use crate::resolver::{reachable, ModuleEdges};

verus! {

/// A resolution visits each reachable module exactly once: a sorted list
/// whose elements are exactly the reachable modules holds none twice, however
/// the graph loops back or joins up again.
pub proof fn law_each_module_once(g: Seq<ModuleEdges>, entry: Seq<char>, ms: Seq<Seq<char>>)
    requires
        sorted(ms),
        forall|q: Seq<char>| #[trigger] ms.contains(q) <==> reachable(g, entry, q),
    ensures
        ms.no_duplicates(),
        forall|q: Seq<char>| reachable(g, entry, q) ==> #[trigger] ms.contains(q),
{
    lemma_sorted_no_duplicates(ms);
}

/// Resolution is stable: two results over the same graph and entry, each
/// sorted and holding exactly the reachable modules, are the same list, so
/// neither the order of the edges nor the order of the walk shows in it.
pub proof fn law_resolution_is_stable(
    g: Seq<ModuleEdges>,
    entry: Seq<char>,
    a: Seq<Seq<char>>,
    b: Seq<Seq<char>>,
)
    requires
        sorted(a),
        sorted(b),
        forall|q: Seq<char>| #[trigger] a.contains(q) <==> reachable(g, entry, q),
        forall|q: Seq<char>| #[trigger] b.contains(q) <==> reachable(g, entry, q),
    ensures
        a == b,
{
    assert forall|q: Seq<char>| #[trigger] a.contains(q) <==> b.contains(q) by {
        if a.contains(q) {
            assert(reachable(g, entry, q));
        }
        if b.contains(q) {
            assert(reachable(g, entry, q));
        }
    }
    lemma_sorted_same_elements(a, b);
}

proof fn lemma_sorted_same_elements(a: Seq<Seq<char>>, b: Seq<Seq<char>>)
    requires
        sorted(a),
        sorted(b),
        forall|q: Seq<char>|
            #![trigger a.contains(q)]
            #![trigger b.contains(q)]
            a.contains(q) <==> b.contains(q),
    ensures
        a == b,
    decreases a.len(),
{
    if a.len() == 0 {
        if b.len() > 0 {
            assert(b.contains(b[0]));
            assert(a.contains(b[0]));
        }
        assert(a =~= b);
    } else {
        assert(a.contains(a[0]));
        let j = choose|j: int| 0 <= j < b.len() && b[j] == a[0];
        assert(b.contains(b[0]));
        let k = choose|k: int| 0 <= k < a.len() && a[k] == b[0];
        if j > 0 {
            assert(path_lt(b[0], b[j]));
            if k > 0 {
                assert(path_lt(a[0], a[k]));
                lemma_lt_transitive(a[0], b[0], a[0], 0);
                lemma_lt_irreflexive(a[0], 0);
            }
            lemma_lt_irreflexive(a[0], 0);
        }
        assert(a[0] == b[0]);
        let a1 = a.drop_first();
        let b1 = b.drop_first();
        assert forall|q: Seq<char>|
            #![trigger a1.contains(q)]
            #![trigger b1.contains(q)]
            a1.contains(q) <==> b1.contains(q) by {
            if a1.contains(q) {
                let i = choose|i: int| 0 <= i < a1.len() && a1[i] == q;
                assert(a.contains(q) && a[i + 1] == q);
                assert(path_lt(a[0], a[i + 1]));
                lemma_lt_irreflexive(q, 0);
                let m = choose|m: int| 0 <= m < b.len() && b[m] == q;
                assert(m != 0);
                assert(b1[m - 1] == q);
            }
            if b1.contains(q) {
                let i = choose|i: int| 0 <= i < b1.len() && b1[i] == q;
                assert(b.contains(q) && b[i + 1] == q);
                assert(path_lt(b[0], b[i + 1]));
                lemma_lt_irreflexive(q, 0);
                let m = choose|m: int| 0 <= m < a.len() && a[m] == q;
                assert(m != 0);
                assert(a1[m - 1] == q);
            }
        }
        lemma_sorted_same_elements(a1, b1);
        assert(a =~= seq![a[0]] + a1);
        assert(b =~= seq![b[0]] + b1);
    }
}

/// A module at `<base>/sub/foo.ts` has its binding file at
/// `<out>/sub/foo.rs`, whatever the base directory and output root.
pub proof fn law_output_mirrors_source(base: Seq<Seq<char>>, out: Seq<Seq<char>>)
    ensures
        output_path_of(base + seq!["sub"@, "foo.ts"@], base, out) == Some(
            out + seq!["sub"@, "foo.rs"@],
        ),
{
    let m = base + seq!["sub"@, "foo.ts"@];
    assert(m.subrange(0, base.len() as int) =~= base);
    let rest = m.subrange(base.len() as int, m.len() as int);
    assert(rest =~= seq!["sub"@, "foo.ts"@]);
    reveal_strlit("foo.ts");
    reveal_strlit("foo");
    reveal_strlit(".");
    reveal_strlit("rs");
    reveal_strlit("foo.rs");
    let n = "foo.ts"@;
    assert(n.len() == 6 && n[3] == '.' && n[4] == 't' && n[5] == 's');
    assert(last_dot(n, 4) == 3);
    assert(last_dot(n, 5) == 3);
    assert(last_dot(n, 6) == 3);
    assert(n.subrange(0, 3) =~= "foo"@);
    assert(with_extension(n, "rs"@) =~= "foo.rs"@);
    assert(rest.drop_last().push(with_extension(rest.last(), "rs"@)) =~= seq!["sub"@, "foo.rs"@]);
}

} // verus!
