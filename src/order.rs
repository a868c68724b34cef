use vstd::prelude::*;
use vstd::string::*;

use crate::paths::comps;

verus! {

/// Lexicographic order on characters from position `i` on.
pub open spec fn lt_from(a: Seq<char>, b: Seq<char>, i: int) -> bool
    decreases a.len() - i,
{
    if i < 0 || i >= a.len() {
        0 <= i < b.len()
    } else if i >= b.len() {
        false
    } else if a[i] != b[i] {
        (a[i] as int) < (b[i] as int)
    } else {
        lt_from(a, b, i + 1)
    }
}

pub open spec fn path_lt(a: Seq<char>, b: Seq<char>) -> bool {
    lt_from(a, b, 0)
}

/// Strictly increasing: sorted and without duplicates.
pub open spec fn sorted(s: Seq<Seq<char>>) -> bool {
    forall|i: int, j: int| 0 <= i < j < s.len() ==> path_lt(#[trigger] s[i], #[trigger] s[j])
}

pub proof fn lemma_lt_irreflexive(a: Seq<char>, i: int)
    requires
        0 <= i,
    ensures
        !lt_from(a, a, i),
    decreases a.len() - i,
{
    if i < a.len() {
        lemma_lt_irreflexive(a, i + 1);
    }
}

pub proof fn lemma_lt_transitive(a: Seq<char>, b: Seq<char>, c: Seq<char>, i: int)
    requires
        0 <= i,
        lt_from(a, b, i),
        lt_from(b, c, i),
    ensures
        lt_from(a, c, i),
    decreases a.len() - i,
{
    if i < a.len() && i < b.len() && i < c.len() && a[i] == b[i] && b[i] == c[i] {
        lemma_lt_transitive(a, b, c, i + 1);
    }
}

pub proof fn lemma_lt_total(a: Seq<char>, b: Seq<char>, i: int)
    requires
        0 <= i <= a.len(),
        i <= b.len(),
        a.subrange(i, a.len() as int) != b.subrange(i, b.len() as int),
    ensures
        lt_from(a, b, i) || lt_from(b, a, i),
    decreases a.len() - i,
{
    if i < a.len() && i < b.len() && a[i] == b[i] {
        if a.subrange(i + 1, a.len() as int) == b.subrange(i + 1, b.len() as int) {
            assert(a.subrange(i, a.len() as int) =~= seq![a[i]] + a.subrange(i + 1, a.len() as int));
            assert(b.subrange(i, b.len() as int) =~= seq![b[i]] + b.subrange(i + 1, b.len() as int));
        }
        lemma_lt_total(a, b, i + 1);
    } else if i == a.len() && i == b.len() {
        assert(a.subrange(i, a.len() as int) =~= b.subrange(i, b.len() as int));
    } else if i < a.len() && i < b.len() {
        assert(a[i] as int != b[i] as int);
    }
}

pub proof fn lemma_sorted_no_duplicates(s: Seq<Seq<char>>)
    requires
        sorted(s),
    ensures
        s.no_duplicates(),
{
    assert forall|i: int, j: int| 0 <= i < s.len() && 0 <= j < s.len() && i != j implies s[i]
        != s[j] by {
        if i < j {
            assert(path_lt(s[i], s[j]));
        } else {
            assert(path_lt(s[j], s[i]));
        }
        lemma_lt_irreflexive(s[i], 0);
    }
}

/// Compares two paths character by character.
pub fn path_less(a: &String, b: &String) -> (r: bool)
    ensures
        r == path_lt(a@, b@),
{
    let la = a.as_str().unicode_len();
    let lb = b.as_str().unicode_len();
    let mut i: usize = 0;
    while i < la && i < lb
        invariant
            i <= la,
            i <= lb,
            la == a@.len(),
            lb == b@.len(),
            path_lt(a@, b@) == lt_from(a@, b@, i as int),
        decreases la - i,
    {
        let ca = a.as_str().get_char(i);
        let cb = b.as_str().get_char(i);
        if ca != cb {
            return (ca as u32) < (cb as u32);
        }
        i = i + 1;
    }
    i < lb
}

/// Inserts `x` into a strictly increasing list unless it is there already.
/// Returns whether it was added.
pub fn insert_sorted(v: &mut Vec<String>, x: &String) -> (added: bool)
    requires
        sorted(comps(old(v)@)),
    ensures
        sorted(comps(final(v)@)),
        added == !comps(old(v)@).contains(x@),
        !added ==> final(v)@ == old(v)@,
        added ==> final(v)@.len() == old(v)@.len() + 1,
        forall|q: Seq<char>| #[trigger]
            comps(final(v)@).contains(q) <==> (comps(old(v)@).contains(q) || q == x@),
{
    let ghost s = comps(v@);
    let mut i: usize = 0;
    while i < v.len() && path_less(&v[i], x)
        invariant
            i <= v@.len(),
            s == comps(v@),
            sorted(s),
            forall|k: int| 0 <= k < i ==> path_lt(#[trigger] s[k], x@),
        decreases v@.len() - i,
    {
        i = i + 1;
    }
    if i < v.len() && v[i] == *x {
        assert(s[i as int] == x@);
        return false;
    }
    proof {
        assert forall|k: int| i <= k < s.len() implies path_lt(x@, #[trigger] s[k]) by {
            assert(!path_lt(s[i as int], x@));
            assert(s[i as int] != x@);
            assert(s[i as int].subrange(0, s[i as int].len() as int) =~= s[i as int]);
            assert(x@.subrange(0, x@.len() as int) =~= x@);
            lemma_lt_total(s[i as int], x@, 0);
            if k > i {
                lemma_lt_transitive(x@, s[i as int], s[k], 0);
            }
        }
        assert forall|k: int| 0 <= k < s.len() implies s[k] != x@ by {
            if k < i {
                assert(path_lt(s[k], x@));
            } else {
                assert(path_lt(x@, s[k]));
            }
            lemma_lt_irreflexive(x@, 0);
        }
    }
    v.insert(i, x.clone());
    let ghost t = comps(v@);
    assert(t =~= s.insert(i as int, x@));
    assert forall|a: int, b: int| 0 <= a < b < t.len() implies path_lt(#[trigger] t[a], #[trigger] t[b]) by {
        if b < i {
        } else if a < i && b == i {
        } else if a < i {
            assert(t[b] == s[b - 1]);
        } else if a == i {
            assert(t[b] == s[b - 1]);
        } else {
            assert(t[a] == s[a - 1] && t[b] == s[b - 1]);
        }
    }
    assert forall|q: Seq<char>| #[trigger] t.contains(q) <==> (s.contains(q) || q == x@) by {
        if t.contains(q) {
            let k = choose|k: int| 0 <= k < t.len() && t[k] == q;
            if k < i {
                assert(s[k] == q);
            } else if k > i {
                assert(s[k - 1] == q);
            }
        }
        if s.contains(q) {
            let k = choose|k: int| 0 <= k < s.len() && s[k] == q;
            if k < i {
                assert(t[k] == q);
            } else {
                assert(t[k + 1] == q);
            }
        }
        if q == x@ {
            assert(t[i as int] == q);
        }
    }
    true
}

} // verus!
