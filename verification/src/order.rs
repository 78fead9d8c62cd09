//! Descriptor numbers in ascending order.

use vstd::prelude::*;

verus! {

/// Each number of `fds` is smaller than those after it.
pub open spec fn ascending(fds: Seq<u32>) -> bool {
    forall|i: int, j: int| 0 <= i < j < fds.len() ==> fds[i] < fds[j]
}

/// There is one way only to list the numbers of a set in ascending order.
pub proof fn lemma_ascending_unique(a: Seq<u32>, b: Seq<u32>)
    requires
        ascending(a),
        ascending(b),
        a.to_set() == b.to_set(),
    ensures
        a == b,
    decreases a.len(),
{
    if a.len() == 0 {
        if b.len() > 0 {
            assert(b.to_set().contains(b[0]));
            assert(a.contains(b[0]));
        }
        assert(a =~= b);
    } else {
        let la = a.last();
        assert(a.to_set().contains(a[a.len() - 1]));
        assert(b.contains(la));
        let j = choose|j: int| 0 <= j < b.len() && b[j] == la;
        let lb = b.last();
        assert(b.to_set().contains(b[b.len() - 1]));
        assert(a.contains(lb));
        let i = choose|i: int| 0 <= i < a.len() && a[i] == lb;
        assert(la == lb);
        let a0 = a.drop_last();
        let b0 = b.drop_last();
        assert forall|x: u32| a0.to_set().contains(x) <==> b0.to_set().contains(x) by {
            if a0.to_set().contains(x) {
                let m = choose|m: int| 0 <= m < a0.len() && a0[m] == x;
                assert(a[m] == x);
                assert(a.to_set().contains(x));
                assert(b.contains(x));
                let n = choose|n: int| 0 <= n < b.len() && b[n] == x;
                assert(b0[n] == x);
            }
            if b0.to_set().contains(x) {
                let m = choose|m: int| 0 <= m < b0.len() && b0[m] == x;
                assert(b[m] == x);
                assert(b.to_set().contains(x));
                assert(a.contains(x));
                let n = choose|n: int| 0 <= n < a.len() && a[n] == x;
                assert(a0[n] == x);
            }
        }
        assert(a0.to_set() =~= b0.to_set());
        lemma_ascending_unique(a0, b0);
        assert(a =~= a0.push(la));
        assert(b =~= b0.push(lb));
    }
}

/// The numbers of `fds`, each once, in ascending order.
pub fn sorted(fds: &Vec<u32>) -> (r: Vec<u32>)
    ensures
        ascending(r@),
        r@.to_set() == fds@.to_set(),
        fds@.no_duplicates() ==> r@.len() == fds@.len(),
{
    let mut out: Vec<u32> = Vec::new();
    let mut i: usize = 0;
    while i < fds.len()
        invariant
            i <= fds.len(),
            out@.len() <= i,
            fds@.no_duplicates() ==> out@.len() == i,
            ascending(out@),
            forall|x: u32| out@.contains(x) <==> exists|k: int| 0 <= k < i && fds@[k] == x,
        decreases fds.len() - i,
    {
        let x = fds[i];
        let mut pos: usize = 0;
        while pos < out.len() && out[pos] < x
            invariant
                pos <= out.len(),
                forall|k: int| 0 <= k < pos ==> out@[k] < x,
            decreases out.len() - pos,
        {
            pos += 1;
        }
        let ghost before = out@;
        if pos < out.len() && out[pos] == x {
            proof {
                assert(before.contains(x));
                let k = choose|k: int| 0 <= k < i && fds@[k] == x;
                assert(fds@[k] == fds@[i as int]);
                assert forall|y: u32| before.contains(y) <==> exists|k: int|
                    0 <= k < i + 1 && fds@[k] == y by {
                    if before.contains(y) {
                        let k = choose|k: int| 0 <= k < i && fds@[k] == y;
                        assert(0 <= k < i + 1 && fds@[k] == y);
                    }
                    if exists|k: int| 0 <= k < i + 1 && fds@[k] == y {
                        let k = choose|k: int| 0 <= k < i + 1 && fds@[k] == y;
                        if k == i {
                            assert(y == x);
                        } else {
                            assert(0 <= k < i && fds@[k] == y);
                        }
                    }
                }
            }
            i += 1;
            continue ;
        }
        out.insert(pos, x);
        proof {
            let after = out@;
            assert forall|a: int, b: int| 0 <= a < b < after.len() implies after[a] < after[b] by {
                let a0 = if a < pos { a } else { a - 1 };
                let b0 = if b < pos { b } else { b - 1 };
                if a != pos && b != pos {
                    assert(after[a] == before[a0]);
                    assert(after[b] == before[b0]);
                } else if a == pos {
                    assert(after[b] == before[b0]);
                    assert(before[pos as int] <= before[b0]);
                } else {
                    assert(after[a] == before[a0]);
                }
            }
            assert forall|y: u32| after.contains(y) <==> exists|k: int|
                0 <= k < i + 1 && fds@[k] == y by {
                if after.contains(y) {
                    let m = choose|m: int| 0 <= m < after.len() && after[m] == y;
                    if m == pos {
                        assert(fds@[i as int] == y);
                    } else {
                        let m0 = if m < pos { m } else { m - 1 };
                        assert(before[m0] == y);
                        assert(before.contains(y));
                        let k = choose|k: int| 0 <= k < i && fds@[k] == y;
                        assert(0 <= k < i + 1 && fds@[k] == y);
                    }
                }
                if exists|k: int| 0 <= k < i + 1 && fds@[k] == y {
                    let k = choose|k: int| 0 <= k < i + 1 && fds@[k] == y;
                    if k == i {
                        assert(after[pos as int] == y);
                    } else {
                        assert(before.contains(y));
                        let m = choose|m: int| 0 <= m < before.len() && before[m] == y;
                        let m1 = if m < pos { m } else { m + 1 };
                        assert(after[m1] == y);
                    }
                }
            }
        }
        i += 1;
    }
    proof {
        assert forall|x: u32| out@.to_set().contains(x) <==> fds@.to_set().contains(x) by {
            if out@.contains(x) {
                let k = choose|k: int| 0 <= k < fds@.len() && fds@[k] == x;
                assert(fds@.contains(x));
            }
            if fds@.contains(x) {
                let k = choose|k: int| 0 <= k < fds@.len() && fds@[k] == x;
                assert(0 <= k < i && fds@[k] == x);
            }
        }
        assert(out@.to_set() =~= fds@.to_set());
    }
    out
}

} // verus!
