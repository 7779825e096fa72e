use vstd::prelude::*;
use crate::scalar::Scalar;
use crate::model::half;

verus! {

/// A lattice must have fewer sites than this.
pub const MAX_SITES: usize = 1_000_000;

/// The product of the first `n` cell counts.
pub open spec fn cell_product(cells: Seq<usize>, n: nat) -> int
    decreases n,
{
    if n == 0 {
        1
    } else {
        cell_product(cells, (n - 1) as nat) * cells[n - 1]
    }
}

/// The number of sites of a lattice with `cells[k]` cells along axis `k`.
pub open spec fn site_count(cells: Seq<usize>) -> int {
    cell_product(cells, cells.len())
}

/// Site number `p` with the axes after `k` divided out. Sites are numbered
/// with the last axis running fastest.
pub open spec fn trailing(cells: Seq<usize>, p: int, k: int) -> int
    decreases cells.len() - k,
{
    if k + 1 >= cells.len() {
        p
    } else {
        trailing(cells, p, k + 1) / (cells[k + 1] as int)
    }
}

/// The cell along axis `k` in which site number `p` lies.
pub open spec fn site_index(cells: Seq<usize>, p: int, k: int) -> int {
    trailing(cells, p, k) % (cells[k] as int)
}

/// The centre of cell `index` on an axis of `gap`-wide cells that starts at
/// zero: `(1/2 + index) gap`.
pub open spec fn cell_centre<S: Scalar>(gap: S, index: usize) -> S {
    S::product(S::sum(half::<S>(), S::count(index)), gap)
}

/// The coordinate of the centre of cell `index` on an axis of length `size`
/// cut into `cells` cells and centred at the origin: the cell centre, moved
/// down by `size (-(1/2))`.
pub open spec fn site_coordinate<S: Scalar>(size: S, cells: usize, index: usize) -> S {
    S::sum(
        cell_centre(S::quotient(size, S::count(cells)), index),
        S::product(size, S::opposite(half::<S>())),
    )
}

/// The position of site number `p`.
pub open spec fn lattice_site<S: Scalar>(size: Seq<S>, cells: Seq<usize>, p: int) -> Seq<S> {
    Seq::new(
        cells.len(),
        |k: int| site_coordinate(size[k], cells[k], site_index(cells, p, k) as usize),
    )
}

/// The positions of all sites, in the order of their numbers.
pub open spec fn lattice_positions<S: Scalar>(size: Seq<S>, cells: Seq<usize>) -> Seq<Seq<S>> {
    Seq::new(site_count(cells) as nat, |p: int| lattice_site(size, cells, p))
}

/// A product of cell counts is never negative, and once a prefix of the
/// counts has product zero, so has every longer one; otherwise products
/// only grow.
pub proof fn lemma_cell_product_grows(cells: Seq<usize>, i: nat, n: nat)
    requires
        i <= n,
    ensures
        cell_product(cells, i) >= 0,
        cell_product(cells, n) == 0 || cell_product(cells, n) >= cell_product(cells, i),
        cell_product(cells, i) == 0 ==> cell_product(cells, n) == 0,
    decreases n,
{
    if i > 0 {
        lemma_cell_product_grows(cells, (i - 1) as nat, (i - 1) as nat);
        let a = cell_product(cells, (i - 1) as nat);
        let c = cells[i - 1] as int;
        assert(a * c >= 0) by (nonlinear_arith)
            requires
                a >= 0,
                c >= 0,
        ;
    }
    if n > i {
        lemma_cell_product_grows(cells, i, (n - 1) as nat);
        let a = cell_product(cells, (n - 1) as nat);
        let c = cells[n - 1] as int;
        let b = cell_product(cells, i);
        assert(a * c == 0 || a * c >= b) by (nonlinear_arith)
            requires
                a == 0 || a >= b,
                b >= 0,
                c >= 0,
        ;
        assert(a == 0 ==> a * c == 0) by (nonlinear_arith);
    }
}

/// A lattice with at least one site has at least one cell along every axis.
pub proof fn lemma_cells_positive(cells: Seq<usize>, k: int)
    requires
        site_count(cells) > 0,
        0 <= k < cells.len(),
    ensures
        cells[k] > 0,
{
    if cells[k] == 0 {
        lemma_cell_product_grows(cells, k as nat, k as nat);
        assert(cell_product(cells, (k + 1) as nat) == 0) by (nonlinear_arith)
            requires
                cell_product(cells, (k + 1) as nat) == cell_product(cells, k as nat) * cells[k],
                cells[k] == 0,
        ;
        lemma_cell_product_grows(cells, (k + 1) as nat, cells.len());
    }
}

/// Every site lies in one of the cells of each axis.
pub proof fn lemma_site_index_bounds(cells: Seq<usize>, p: int, k: int)
    requires
        0 <= k < cells.len(),
        cells[k] > 0,
    ensures
        0 <= site_index(cells, p, k) < cells[k],
{
    vstd::arithmetic::div_mod::lemma_mod_bound(trailing(cells, p, k), cells[k] as int);
}

/// With the axes after `k` divided out, a site number of the lattice is
/// below the product of the cell counts up to axis `k`.
proof fn lemma_trailing_bound(cells: Seq<usize>, p: int, k: int)
    requires
        0 <= p < site_count(cells),
        0 <= k < cells.len(),
    ensures
        0 <= trailing(cells, p, k) < cell_product(cells, (k + 1) as nat),
    decreases cells.len() - k,
{
    if k + 1 < cells.len() {
        lemma_trailing_bound(cells, p, k + 1);
        lemma_cells_positive(cells, k + 1);
        let t = trailing(cells, p, k + 1);
        let c = cells[k + 1] as int;
        let m = cell_product(cells, (k + 1) as nat);
        assert(cell_product(cells, (k + 2) as nat) == m * c);
        vstd::arithmetic::div_mod::lemma_fundamental_div_mod(t, c);
        vstd::arithmetic::div_mod::lemma_mod_bound(t, c);
        assert(0 <= t / c < m) by (nonlinear_arith)
            requires
                0 <= t < m * c,
                c > 0,
                t == c * (t / c) + t % c,
                0 <= t % c < c,
        ;
    }
}

proof fn lemma_trailing_agrees(cells: Seq<usize>, p: int, q: int, k: int)
    requires
        0 <= p < site_count(cells),
        0 <= q < site_count(cells),
        0 <= k < cells.len(),
        forall|a: int| 0 <= a < cells.len() ==> site_index(cells, p, a) == site_index(cells, q, a),
    ensures
        trailing(cells, p, k) == trailing(cells, q, k),
    decreases k,
{
    let c = cells[k] as int;
    lemma_cells_positive(cells, k);
    assert(site_index(cells, p, k) == site_index(cells, q, k));
    if k == 0 {
        lemma_trailing_bound(cells, p, 0);
        lemma_trailing_bound(cells, q, 0);
        assert(cell_product(cells, 1) == cells[0]) by {
            assert(cell_product(cells, 0) == 1);
            assert(cell_product(cells, 1) == cell_product(cells, 0) * cells[0]);
        }
        vstd::arithmetic::div_mod::lemma_small_mod(trailing(cells, p, 0) as nat, c as nat);
        vstd::arithmetic::div_mod::lemma_small_mod(trailing(cells, q, 0) as nat, c as nat);
    } else {
        lemma_trailing_agrees(cells, p, q, k - 1);
        vstd::arithmetic::div_mod::lemma_fundamental_div_mod(trailing(cells, p, k), c);
        vstd::arithmetic::div_mod::lemma_fundamental_div_mod(trailing(cells, q, k), c);
    }
}

/// Different sites of the lattice lie in different cells: two site numbers
/// below the site count whose cells agree along every axis are the same.
pub proof fn lemma_sites_differ(cells: Seq<usize>, p: int, q: int)
    requires
        0 <= p < site_count(cells),
        0 <= q < site_count(cells),
        forall|a: int| 0 <= a < cells.len() ==> site_index(cells, p, a) == site_index(cells, q, a),
    ensures
        p == q,
{
    if cells.len() > 0 {
        lemma_trailing_agrees(cells, p, q, cells.len() - 1);
    }
}

/// The number of sites of the lattice, if it is at least one and below
/// `MAX_SITES`.
pub fn lattice_size<const D: usize>(cells: &[usize; D]) -> (r: Option<usize>)
    ensures
        r == (if 0 < site_count(cells@) < MAX_SITES {
            Some(site_count(cells@) as usize)
        } else {
            None
        }),
{
    let mut product: u64 = 1;
    let mut i: usize = 0;
    while i < D
        invariant
            i <= D,
            cells@.len() == D,
            product == cell_product(cells@, i as nat),
            0 < product < MAX_SITES,
        decreases D - i,
    {
        let c = cells[i];
        proof {
            lemma_cell_product_grows(cells@, (i + 1) as nat, D as nat);
            assert(c >= MAX_SITES ==> product * c >= MAX_SITES) by (nonlinear_arith)
                requires
                    product >= 1,
                    c >= 0,
            ;
            assert(c < MAX_SITES ==> product * c < 1_000_000_000_000) by (nonlinear_arith)
                requires
                    0 < product < 1_000_000,
                    0 <= c,
                    MAX_SITES == 1_000_000,
            ;
            assert(c == 0 ==> product * c == 0) by (nonlinear_arith);
        }
        if c == 0 || c >= MAX_SITES {
            return None;
        }
        let next: u64 = product * (c as u64);
        if next >= MAX_SITES as u64 {
            return None;
        }
        assert(next > 0) by (nonlinear_arith)
            requires
                next == product * c,
                product > 0,
                c > 0,
        ;
        product = next;
        i += 1;
    }
    Some(product as usize)
}

/// The cell centres of the first `count` sites, before the lattice is
/// centred on the origin: `nodes[p][k]` lies in the middle of cell
/// `site_index(cells, p, k)` of axis `k`, whose cells are `gap[k]` wide.
pub fn lattice<S: Scalar, const D: usize>(cells: &[usize; D], gap: &[S; D], count: usize) -> (nodes:
    Vec<[S; D]>)
    requires
        forall|k: int| 0 <= k < D ==> cells@[k] > 0,
    ensures
        nodes@.len() == count,
        forall|p: int, k: int|
            0 <= p < count && 0 <= k < D ==> (#[trigger] nodes@[p]@[k]) == cell_centre(
                gap@[k],
                site_index(cells@, p, k) as usize,
            ),
{
    let half_cell = S::of_count(1).over(S::of_count(2));
    let mut nodes: Vec<[S; D]> = Vec::new();
    let mut p: usize = 0;
    while p < count
        invariant
            p <= count,
            cells@.len() == D,
            gap@.len() == D,
            half_cell == half::<S>(),
            forall|k: int| 0 <= k < D ==> cells@[k] > 0,
            nodes@.len() == p,
            forall|q: int, k: int|
                0 <= q < p && 0 <= k < D ==> (#[trigger] nodes@[q]@[k]) == cell_centre(
                    gap@[k],
                    site_index(cells@, q, k) as usize,
                ),
        decreases count - p,
    {
        let mut node = [S::of_count(0);D];
        let mut rest: usize = p;
        let mut k: usize = D;
        while k > 0
            invariant
                k <= D,
                cells@.len() == D,
                gap@.len() == D,
                half_cell == half::<S>(),
                forall|a: int| 0 <= a < D ==> cells@[a] > 0,
                k == D ==> rest == p,
                k < D ==> rest == trailing(cells@, p as int, k as int) / (cells@[k as int] as int),
                forall|a: int|
                    k <= a < D ==> (#[trigger] node@[a]) == cell_centre(
                        gap@[a],
                        site_index(cells@, p as int, a) as usize,
                    ),
            decreases k,
        {
            k -= 1;
            assert(rest == trailing(cells@, p as int, k as int));
            let index = rest % cells[k];
            node[k] = half_cell.plus(S::of_count(index)).times(gap[k]);
            rest = rest / cells[k];
        }
        nodes.push(node);
        p += 1;
    }
    nodes
}

} // verus!
