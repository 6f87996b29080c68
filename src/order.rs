use vstd::prelude::*;

use crate::toml_value::strs;

verus! {

/// Lexicographic order of paths by code point, the order of `String`'s `Ord`.
pub open spec fn path_lt(a: Seq<char>, b: Seq<char>) -> bool
    decreases a.len(),
{
    if a.len() == 0 {
        b.len() > 0
    } else if b.len() == 0 {
        false
    } else if a[0] != b[0] {
        (a[0] as int) < (b[0] as int)
    } else {
        path_lt(a.drop_first(), b.drop_first())
    }
}

/// Every path comes before the ones after it; no path stands twice.
pub open spec fn strictly_sorted(s: Seq<Seq<char>>) -> bool {
    forall|i: int, j: int| 0 <= i < j < s.len() ==> path_lt(s[i], s[j])
}

pub proof fn lemma_path_lt_irreflexive(a: Seq<char>)
    ensures
        !path_lt(a, a),
    decreases a.len(),
{
    if a.len() > 0 {
        lemma_path_lt_irreflexive(a.drop_first());
    }
}

pub proof fn lemma_path_lt_total(a: Seq<char>, b: Seq<char>)
    ensures
        a != b ==> path_lt(a, b) || path_lt(b, a),
    decreases a.len(),
{
    if a.len() > 0 && b.len() > 0 && a[0] == b[0] {
        lemma_path_lt_total(a.drop_first(), b.drop_first());
        if a.drop_first() == b.drop_first() {
            assert(a =~= seq![a[0]] + a.drop_first());
            assert(b =~= seq![b[0]] + b.drop_first());
        }
    } else if a.len() == 0 && b.len() == 0 {
        assert(a =~= b);
    } else if a.len() > 0 && b.len() > 0 {
        assert((a[0] as int) != (b[0] as int));
    }
}

pub proof fn lemma_path_lt_transitive(a: Seq<char>, b: Seq<char>, c: Seq<char>)
    requires
        path_lt(a, b),
        path_lt(b, c),
    ensures
        path_lt(a, c),
    decreases a.len(),
{
    if a.len() > 0 && b.len() > 0 && c.len() > 0 && a[0] == b[0] && b[0] == c[0] {
        lemma_path_lt_transitive(a.drop_first(), b.drop_first(), c.drop_first());
    }
}

/// Whether path `a` comes before path `b`.
pub fn path_less(a: &str, b: &str) -> (r: bool)
    ensures
        r == path_lt(a@, b@),
{
    let n = a.unicode_len();
    let m = b.unicode_len();
    let mut i: usize = 0;
    assert(a@.skip(0) =~= a@);
    assert(b@.skip(0) =~= b@);
    while i < n && i < m
        invariant
            n == a@.len(),
            m == b@.len(),
            i <= n,
            i <= m,
            path_lt(a@, b@) == path_lt(a@.skip(i as int), b@.skip(i as int)),
        decreases n - i,
    {
        let ca = a.get_char(i);
        let cb = b.get_char(i);
        assert(a@.skip(i as int)[0] == ca);
        assert(b@.skip(i as int)[0] == cb);
        if ca != cb {
            return (ca as u32) < (cb as u32);
        }
        assert(a@.skip(i as int).drop_first() =~= a@.skip(i + 1));
        assert(b@.skip(i as int).drop_first() =~= b@.skip(i + 1));
        i = i + 1;
    }
    i == n && i < m
}

proof fn lemma_push_to_set(s: Seq<Seq<char>>, x: Seq<char>)
    ensures
        s.push(x).to_set() == s.to_set().insert(x),
{
    assert forall|y: Seq<char>| s.push(x).to_set().contains(y) <==> s.to_set().insert(x).contains(
        y,
    ) by {
        if s.push(x).contains(y) && y != x {
            let i = choose|i: int| 0 <= i < s.push(x).len() && s.push(x)[i] == y;
            assert(s[i] == y);
        }
        if s.contains(y) {
            let i = choose|i: int| 0 <= i < s.len() && s[i] == y;
            assert(s.push(x)[i] == y);
        }
        if y == x {
            assert(s.push(x)[s.len() as int] == y);
        }
    }
    assert(s.push(x).to_set() =~= s.to_set().insert(x));
}

/// Adds `p` to a sorted list of paths, where it is not there already.
fn insert_sorted(v: &mut Vec<String>, p: String)
    requires
        strictly_sorted(strs(old(v)@)),
    ensures
        strictly_sorted(strs(final(v)@)),
        strs(final(v)@).to_set() == strs(old(v)@).to_set().insert(p@),
{
    let ghost s = strs(v@);
    let mut i: usize = 0;
    while i < v.len() && path_less(v[i].as_str(), p.as_str())
        invariant
            i <= v@.len(),
            s == strs(v@),
            strictly_sorted(s),
            forall|j: int| 0 <= j < i ==> path_lt(s[j], p@),
        decreases v@.len() - i,
    {
        i = i + 1;
    }
    if i < v.len() && v[i] == p {
        proof {
            assert(s[i as int] == p@);
            assert(s.to_set().insert(p@) =~= s.to_set());
        }
        return;
    }
    proof {
        if i < s.len() {
            lemma_path_lt_total(s[i as int], p@);
        }
    }
    v.insert(i, p);
    proof {
        let t = strs(v@);
        assert(t =~= s.insert(i as int, p@));
        assert forall|a: int, b: int| 0 <= a < b < t.len() implies path_lt(t[a], t[b]) by {
            if b < i {
                assert(t[a] == s[a] && t[b] == s[b]);
            } else if b == i {
                assert(t[a] == s[a]);
            } else if a == i {
                assert(t[b] == s[b - 1]);
                if b - 1 > i {
                    lemma_path_lt_transitive(p@, s[i as int], s[b - 1]);
                }
            } else if a < i {
                assert(t[a] == s[a] && t[b] == s[b - 1]);
            } else {
                assert(t[a] == s[a - 1] && t[b] == s[b - 1]);
            }
        }
        assert forall|y: Seq<char>| t.to_set().contains(y) <==> s.to_set().insert(p@).contains(
            y,
        ) by {
            if t.contains(y) {
                let k = choose|k: int| 0 <= k < t.len() && t[k] == y;
                if k < i {
                    assert(s[k] == y);
                } else if k > i {
                    assert(s[k - 1] == y);
                }
            }
            if s.contains(y) {
                let k = choose|k: int| 0 <= k < s.len() && s[k] == y;
                if k < i {
                    assert(t[k] == y);
                } else {
                    assert(t[k + 1] == y);
                }
            }
            if y == p@ {
                assert(t[i as int] == y);
            }
        }
        assert(t.to_set() =~= s.to_set().insert(p@));
    }
}

/// The paths of `u` in sorted order, each once.
pub fn sort_paths(u: &Vec<String>) -> (r: Vec<String>)
    ensures
        strictly_sorted(strs(r@)),
        strs(r@).to_set() == strs(u@).to_set(),
{
    let mut r: Vec<String> = Vec::new();
    let mut i: usize = 0;
    proof {
        assert(strs(u@.take(0)) =~= Seq::<Seq<char>>::empty());
        assert(strs(r@) =~= Seq::<Seq<char>>::empty());
        assert(Seq::<Seq<char>>::empty().to_set() =~= Set::empty());
    }
    while i < u.len()
        invariant
            i <= u@.len(),
            strictly_sorted(strs(r@)),
            strs(r@).to_set() == strs(u@.take(i as int)).to_set(),
        decreases u@.len() - i,
    {
        insert_sorted(&mut r, u[i].clone());
        proof {
            assert(strs(u@.take(i + 1)) =~= strs(u@.take(i as int)).push(u@[i as int]@));
            lemma_push_to_set(strs(u@.take(i as int)), u@[i as int]@);
        }
        i = i + 1;
    }
    assert(u@.take(i as int) =~= u@);
    r
}

} // verus!
