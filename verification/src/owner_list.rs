use vstd::prelude::*;

verus! {

/// Whether each value is less than the next.
pub open spec fn strictly_increasing(s: Seq<usize>) -> bool {
    forall|i: int, j: int| 0 <= i < j < s.len() ==> s[i] < s[j]
}

/// Puts `x` at its place in the increasing list `v`, unless it is there.
pub fn insert_sorted(v: &mut Vec<usize>, x: usize)
    requires
        strictly_increasing(old(v)@),
    ensures
        strictly_increasing(final(v)@),
        forall|y: usize| final(v)@.contains(y) <==> (old(v)@.contains(y) || y == x),
{
    let ghost orig = v@;
    let mut i: usize = 0;
    while i < v.len() && v[i] < x
        invariant
            i <= v.len(),
            v@ == orig,
            forall|j: int| 0 <= j < i ==> v@[j] < x,
        decreases v.len() - i,
    {
        i = i + 1;
    }
    if i < v.len() && v[i] == x {
        assert(orig.contains(x));
    } else {
        v.insert(i, x);
        proof {
            let s = v@;
            assert(s == orig.insert(i as int, x));
            assert forall|a: int, b: int| 0 <= a < b < s.len() implies s[a] < s[b] by {
                if b < i {
                    assert(s[a] == orig[a] && s[b] == orig[b]);
                } else if b == i {
                    assert(s[a] == orig[a]);
                } else if a < i {
                    assert(s[a] == orig[a] && s[b] == orig[b - 1]);
                } else if a == i {
                    assert(s[b] == orig[b - 1]);
                    assert(orig[i as int] <= orig[b - 1]);
                } else {
                    assert(s[a] == orig[a - 1] && s[b] == orig[b - 1]);
                }
            }
            assert forall|y: usize| s.contains(y) <==> (orig.contains(y) || y == x) by {
                if s.contains(y) {
                    let k = choose|k: int| 0 <= k < s.len() && s[k] == y;
                    if k < i {
                        assert(orig[k] == y);
                    } else if k > i {
                        assert(orig[k - 1] == y);
                    }
                }
                if orig.contains(y) {
                    let k = choose|k: int| 0 <= k < orig.len() && orig[k] == y;
                    if k < i {
                        assert(s[k] == y);
                    } else {
                        assert(s[k + 1] == y);
                    }
                }
                if y == x {
                    assert(s[i as int] == y);
                }
            }
        }
    }
}

/// The values of `v`, each once, in increasing order.
pub fn sorted_distinct(v: &Vec<usize>) -> (r: Vec<usize>)
    ensures
        strictly_increasing(r@),
        forall|y: usize| r@.contains(y) <==> v@.contains(y),
{
    let mut out: Vec<usize> = Vec::new();
    let mut i: usize = 0;
    while i < v.len()
        invariant
            i <= v.len(),
            strictly_increasing(out@),
            forall|y: usize| out@.contains(y) <==> v@.take(i as int).contains(y),
        decreases v.len() - i,
    {
        let ghost before = out@;
        insert_sorted(&mut out, v[i]);
        proof {
            let p = v@.take(i as int);
            let q = v@.take(i + 1);
            assert(q =~= p.push(v@[i as int]));
            assert forall|y: usize| out@.contains(y) <==> q.contains(y) by {
                if q.contains(y) {
                    let k = choose|k: int| 0 <= k < q.len() && q[k] == y;
                    if k < i {
                        assert(p[k] == y);
                    }
                }
                if p.contains(y) {
                    let k = choose|k: int| 0 <= k < p.len() && p[k] == y;
                    assert(q[k] == y);
                }
                if y == v@[i as int] {
                    assert(q[i as int] == y);
                }
            }
        }
        i = i + 1;
    }
    proof {
        assert(v@.take(i as int) =~= v@);
    }
    out
}

} // verus!
