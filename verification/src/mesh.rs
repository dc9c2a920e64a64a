//! The links of a full mesh: every pair of conductors, once, in the order in which they are wired.
use vstd::prelude::*;

verus! {

/// The pairs `(a, b)` with `a < b < n` from `(i, j)` on, in lexicographic order.
pub open spec fn mesh_from(i: nat, j: nat, n: nat) -> Seq<(nat, nat)>
    decreases n - i, n - j,
{
    if i + 1 >= n {
        Seq::empty()
    } else if j >= n {
        mesh_from(i + 1, i + 2, n)
    } else {
        seq![(i, j)] + mesh_from(i, j + 1, n)
    }
}

/// The links of the full mesh of `n` conductors, in wiring order.
pub open spec fn mesh(n: nat) -> Seq<(nat, nat)> {
    mesh_from(0, 1, n)
}

/// Lexicographic order on pairs.
pub open spec fn before(p: (nat, nat), q: (nat, nat)) -> bool {
    p.0 < q.0 || (p.0 == q.0 && p.1 < q.1)
}

/// A pair that links two conductors out of `n`, the lower one first.
pub open spec fn is_link(p: (nat, nat), n: nat) -> bool {
    p.0 < p.1 < n
}

proof fn lemma_mesh_from(i: nat, j: nat, n: nat)
    requires
        i < j,
    ensures
        forall|k: int|
            0 <= k < mesh_from(i, j, n).len() ==> is_link(#[trigger] mesh_from(i, j, n)[k], n)
                && !before(mesh_from(i, j, n)[k], (i, j)),
        forall|k: int, l: int|
            0 <= k < l < mesh_from(i, j, n).len() ==> before(
                #[trigger] mesh_from(i, j, n)[k],
                #[trigger] mesh_from(i, j, n)[l],
            ),
        forall|p: (nat, nat)|
            is_link(p, n) && !before(p, (i, j)) ==> #[trigger] mesh_from(i, j, n).contains(p),
    decreases n - i, n - j,
{
    let all = mesh_from(i, j, n);
    if i + 1 >= n {
    } else if j >= n {
        lemma_mesh_from(i + 1, i + 2, n);
        assert(all == mesh_from(i + 1, i + 2, n));
        assert forall|p: (nat, nat)| is_link(p, n) && !before(p, (i, j)) implies
            #[trigger] all.contains(p) by {
            assert(mesh_from(i + 1, i + 2, n).contains(p));
        }
    } else {
        lemma_mesh_from(i, j + 1, n);
        let rest = mesh_from(i, j + 1, n);
        assert(all == seq![(i, j)] + rest);
        assert(all[0] == (i, j));
        assert forall|k: int| 0 <= k < rest.len() implies #[trigger] all[k + 1] == rest[k] by {}
        assert forall|k: int| 0 <= k < all.len() implies is_link(#[trigger] all[k], n)
            && !before(all[k], (i, j)) by {
            if k > 0 {
                assert(all[(k - 1) + 1] == rest[k - 1]);
            }
        }
        assert forall|k: int, l: int| 0 <= k < l < all.len() implies before(
            #[trigger] all[k],
            #[trigger] all[l],
        ) by {
            assert(all[(l - 1) + 1] == rest[l - 1]);
            if k > 0 {
                assert(all[(k - 1) + 1] == rest[k - 1]);
            }
        }
        assert forall|p: (nat, nat)| is_link(p, n) && !before(p, (i, j)) implies
            #[trigger] all.contains(p) by {
            if p == (i, j) {
                assert(all[0] == p);
            } else {
                assert(rest.contains(p));
                let k = choose|k: int| 0 <= k < rest.len() && rest[k] == p;
                assert(all[k + 1] == p);
            }
        }
    }
}

/// The mesh is full: it holds exactly the pairs of two distinct conductors, the lower one first,
/// in ascending order, so each of them once.
pub proof fn lemma_mesh_is_full(n: nat)
    ensures
        forall|p: (nat, nat)| #[trigger] mesh(n).contains(p) <==> p.0 < p.1 < n,
        forall|k: int, l: int|
            0 <= k < l < mesh(n).len() ==> {
                let (p, q) = (#[trigger] mesh(n)[k], #[trigger] mesh(n)[l]);
                p.0 < q.0 || (p.0 == q.0 && p.1 < q.1)
            },
        mesh(n).no_duplicates(),
{
    lemma_mesh_from(0, 1, n);
}

/// Whichever two distinct conductors one picks, exactly one link of the mesh joins them.
pub proof fn lemma_every_pair_is_linked_once(n: nat, a: nat, b: nat)
    requires
        a < n,
        b < n,
        a != b,
    ensures
        exists|k: int|
            0 <= k < mesh(n).len() && (#[trigger] mesh(n)[k] == (a, b) || mesh(n)[k] == (b, a)),
        forall|k: int, l: int|
            0 <= k < mesh(n).len() && 0 <= l < mesh(n).len() && (#[trigger] mesh(n)[k] == (a, b)
                || mesh(n)[k] == (b, a)) && (#[trigger] mesh(n)[l] == (a, b) || mesh(n)[l] == (
            b,
            a,
        )) ==> k == l,
{
    lemma_mesh_is_full(n);
    let p = if a < b {
        (a, b)
    } else {
        (b, a)
    };
    assert(mesh(n).contains(p));
    let k = choose|k: int| 0 <= k < mesh(n).len() && mesh(n)[k] == p;
    assert(mesh(n)[k] == (a, b) || mesh(n)[k] == (b, a));
    assert forall|k: int| 0 <= k < mesh(n).len() implies is_link(#[trigger] mesh(n)[k], n) by {
        assert(mesh(n).contains(mesh(n)[k]));
    }
}

proof fn lemma_row_len(i: nat, j: nat, n: nat)
    requires
        i + 1 < n,
        i < j <= n,
    ensures
        mesh_from(i, j, n).len() == (n - j) + mesh_from(i + 1, i + 2, n).len(),
    decreases n - j,
{
    if j < n {
        lemma_row_len(i, j + 1, n);
    }
}

proof fn lemma_mesh_from_len(i: nat, n: nat)
    requires
        i < n,
    ensures
        2 * mesh_from(i, i + 1, n).len() == (n - i) * (n - i - 1),
    decreases n - i,
{
    if i + 1 < n {
        lemma_mesh_from_len(i + 1, n);
        lemma_row_len(i, i + 1, n);
        let m = n - i;
        assert(m * (m - 1) == 2 * (m - 1) + (m - 1) * (m - 2)) by (nonlinear_arith);
    } else {
        assert((n - i) * (n - i - 1) == 0) by (nonlinear_arith)
            requires
                n - i == 1,
        ;
    }
}

/// The number of links grows with the square of the number of conductors: `n * (n - 1) / 2`.
pub proof fn lemma_mesh_len(n: nat)
    ensures
        2 * mesh(n).len() == n * (n - 1),
{
    if n > 0 {
        lemma_mesh_from_len(0, n);
    }
}

proof fn lemma_mesh_from_rank(i: nat, j: nat, n: nat)
    requires
        i < j <= n,
    ensures
        forall|k: int|
            0 <= k < mesh_from(i, j, n).len() ==> {
                let (a, b) = #[trigger] mesh_from(i, j, n)[k];
                2 * k + i * (2 * n - i - 1) + 2 * (j - i - 1) == a * (2 * n - a - 1) + 2 * (b - a
                    - 1)
            },
    decreases n - i, n - j,
{
    let all = mesh_from(i, j, n);
    if i + 1 >= n {
    } else if j >= n {
        lemma_mesh_from_rank(i + 1, i + 2, n);
        assert(all == mesh_from(i + 1, i + 2, n));
        assert((i + 1) * (2 * n - (i + 1) - 1) == i * (2 * n - i - 1) + 2 * (n - i - 1))
            by (nonlinear_arith);
    } else {
        lemma_mesh_from_rank(i, j + 1, n);
        let rest = mesh_from(i, j + 1, n);
        assert(all == seq![(i, j)] + rest);
        assert forall|k: int| 0 <= k < all.len() implies {
            let (a, b) = #[trigger] all[k];
            2 * k + i * (2 * n - i - 1) + 2 * (j - i - 1) == a * (2 * n - a - 1) + 2 * (b - a - 1)
        } by {
            if k > 0 {
                assert(all[k] == rest[k - 1]);
            }
        }
    }
}

/// Where in the mesh a link stands follows from the two conductors alone: before `(a, b)` come the
/// `n - 1`, `n - 2`, ... links of the conductors below `a`, and those of `a` to conductors below `b`.
pub proof fn lemma_place_of_a_link(n: nat, a: nat, b: nat, k: int)
    requires
        0 <= k < mesh(n).len(),
        a < b < n,
    ensures
        mesh(n)[k] == (a, b) <==> 2 * k == a * (2 * n - a - 1) + 2 * (b - a - 1),
{
    lemma_mesh_is_full(n);
    lemma_mesh_from_rank(0, 1, n);
    assert(0 * (2 * n - 0 - 1) == 0);
    assert(mesh(n).contains((a, b)));
    let place = choose|l: int| 0 <= l < mesh(n).len() && mesh(n)[l] == (a, b);
    assert(mesh(n)[place] == (a, b));
    assert(mesh(n)[k] == mesh_from(0, 1, n)[k]);
}

} // verus!
