//! The order in which a tick visits the unordered pairs of bodies.

use vstd::prelude::*;

verus! {

/// The pairs that body `i` forms with the bodies after it: `(i, i + 1)` up to `(i, n - 1)`.
pub open spec fn row_pairs(i: int, n: int) -> Seq<(int, int)> {
    if i + 1 < n {
        Seq::new((n - i - 1) as nat, |t: int| (i, i + 1 + t))
    } else {
        Seq::empty()
    }
}

/// The pairs whose first body has an id below `i`, row after row.
pub open spec fn pairs_before(i: int, n: int) -> Seq<(int, int)>
    decreases i,
{
    if i <= 0 {
        Seq::empty()
    } else {
        pairs_before(i - 1, n) + row_pairs(i - 1, n)
    }
}

/// All pairs `(i, j)` with `i < j < n`, ascending by `i` and then by `j`.
pub open spec fn all_pairs(n: int) -> Seq<(int, int)> {
    pairs_before(n, n)
}

/// Where the pair `(i, j)` stands in `all_pairs(n)`.
pub open spec fn pair_index(i: int, j: int, n: int) -> int {
    pairs_before(i, n).len() + (j - i - 1)
}

/// `p` comes before `q` when ordered by the first id and then by the second.
pub open spec fn pair_precedes(p: (int, int), q: (int, int)) -> bool {
    p.0 < q.0 || (p.0 == q.0 && p.1 < q.1)
}

/// Every entry is a pair `(i, j)` of ids of `n` bodies with `i < j`.
pub open spec fn pairs_in_range(pairs: Seq<(int, int)>, n: int) -> bool {
    forall|k: int| 0 <= k < pairs.len() ==> 0 <= (#[trigger] pairs[k]).0 < pairs[k].1 < n
}

/// The rows below `i` hold `i * (2n - i - 1) / 2` pairs.
pub proof fn lemma_pairs_before_len(i: int, n: int)
    requires
        0 <= i <= n,
    ensures
        2 * pairs_before(i, n).len() == i * (2 * n - i - 1),
    decreases i,
{
    if i > 0 {
        lemma_pairs_before_len(i - 1, n);
        assert(row_pairs(i - 1, n).len() == n - i);
        assert((i - 1) * (2 * n - (i - 1) - 1) + 2 * (n - i) == i * (2 * n - i - 1))
            by (nonlinear_arith);
    } else {
        assert(i * (2 * n - i - 1) == 0) by (nonlinear_arith)
            requires
                i == 0,
        ;
    }
}

/// Every entry of the rows below `i` is a pair `(a, b)` with `a < i` and `a < b < n`,
/// and it stands at its `pair_index`.
pub proof fn lemma_pairs_before_entries(i: int, n: int, k: int)
    requires
        0 <= i <= n,
        0 <= k < pairs_before(i, n).len(),
    ensures
        0 <= pairs_before(i, n)[k].0 < i,
        pairs_before(i, n)[k].0 < pairs_before(i, n)[k].1 < n,
        pair_index(pairs_before(i, n)[k].0, pairs_before(i, n)[k].1, n) == k,
    decreases i,
{
    let head = pairs_before(i - 1, n);
    if k < head.len() {
        lemma_pairs_before_entries(i - 1, n, k);
    }
}

/// A tick visits each pair once: `all_pairs(n)` holds `n * (n - 1) / 2` entries, each a
/// pair `(i, j)` with `i < j < n`; each such pair stands in it, at `pair_index(i, j, n)`
/// and nowhere else; and the entries ascend by the first id and then by the second.
pub proof fn lemma_all_pairs_once(n: int)
    requires
        0 <= n,
    ensures
        2 * all_pairs(n).len() == n * (n - 1),
        pairs_in_range(all_pairs(n), n),
        forall|i: int, j: int|
            0 <= i < j < n ==> 0 <= #[trigger] pair_index(i, j, n) < all_pairs(n).len()
                && all_pairs(n)[pair_index(i, j, n)] == (i, j),
        forall|k: int, i: int, j: int|
            0 <= k < all_pairs(n).len() && #[trigger] all_pairs(n)[k] == (i, j) ==> k
                == #[trigger] pair_index(i, j, n),
        forall|k: int, l: int|
            0 <= k < l < all_pairs(n).len() ==> pair_precedes(
                #[trigger] all_pairs(n)[k],
                #[trigger] all_pairs(n)[l],
            ),
{
    lemma_pairs_before_len(n, n);
    assert(n * (2 * n - n - 1) == n * (n - 1)) by (nonlinear_arith);
    assert forall|k: int| 0 <= k < all_pairs(n).len() implies 0 <= (#[trigger] all_pairs(
        n,
    )[k]).0 < all_pairs(n)[k].1 < n by {
        lemma_pairs_before_entries(n, n, k);
    }
    assert forall|i: int, j: int| 0 <= i < j < n implies 0 <= #[trigger] pair_index(i, j, n)
        < all_pairs(n).len() && all_pairs(n)[pair_index(i, j, n)] == (i, j) by {
        lemma_pair_found(i, j, n, n);
    }
    assert forall|k: int, i: int, j: int|
        0 <= k < all_pairs(n).len() && #[trigger] all_pairs(n)[k] == (i, j) implies k
        == #[trigger] pair_index(i, j, n) by {
        lemma_pairs_before_entries(n, n, k);
    }
    assert forall|k: int, l: int| 0 <= k < l < all_pairs(n).len() implies pair_precedes(
        #[trigger] all_pairs(n)[k],
        #[trigger] all_pairs(n)[l],
    ) by {
        lemma_pairs_ascend(n, n, k, l);
    }
}

/// The rows below `m` hold the pair `(i, j)` at its `pair_index`, for `i < m`.
proof fn lemma_pair_found(i: int, j: int, m: int, n: int)
    requires
        0 <= i < j < n,
        i < m <= n,
    ensures
        0 <= pair_index(i, j, n) < pairs_before(m, n).len(),
        pairs_before(m, n)[pair_index(i, j, n)] == (i, j),
    decreases m,
{
    if m == i + 1 {
        assert(row_pairs(i, n)[j - i - 1] == (i, j));
    } else {
        lemma_pair_found(i, j, m - 1, n);
    }
}

/// The rows below `i` ascend by the first id and then by the second.
proof fn lemma_pairs_ascend(i: int, n: int, k: int, l: int)
    requires
        0 <= i <= n,
        0 <= k < l < pairs_before(i, n).len(),
    ensures
        pair_precedes(pairs_before(i, n)[k], pairs_before(i, n)[l]),
    decreases i,
{
    let head = pairs_before(i - 1, n);
    if l < head.len() {
        lemma_pairs_ascend(i - 1, n, k, l);
    } else if k < head.len() {
        lemma_pairs_before_entries(i - 1, n, k);
    }
}

/// The pairs of `n` bodies in the order in which a tick visits them.
pub fn pair_order(n: usize) -> (order: Vec<(usize, usize)>)
    ensures
        order@.len() == all_pairs(n as int).len(),
        forall|k: int|
            0 <= k < order@.len() ==> (#[trigger] order@[k]).0 == all_pairs(n as int)[k].0
                && order@[k].1 == all_pairs(n as int)[k].1,
{
    let mut order: Vec<(usize, usize)> = Vec::new();
    let mut i: usize = 0;
    while i < n
        invariant
            i <= n,
            order@.len() == pairs_before(i as int, n as int).len(),
            forall|k: int|
                0 <= k < order@.len() ==> (#[trigger] order@[k]).0 == pairs_before(
                    i as int,
                    n as int,
                )[k].0 && order@[k].1 == pairs_before(i as int, n as int)[k].1,
        decreases n - i,
    {
        let mut j: usize = i + 1;
        let ghost head = pairs_before(i as int, n as int);
        let ghost row = row_pairs(i as int, n as int);
        while j < n
            invariant
                i < n,
                i < j <= n,
                head == pairs_before(i as int, n as int),
                row == row_pairs(i as int, n as int),
                order@.len() == head.len() + (j - i - 1),
                forall|k: int|
                    0 <= k < order@.len() ==> (#[trigger] order@[k]).0 == (head + row)[k].0
                        && order@[k].1 == (head + row)[k].1,
            decreases n - j,
        {
            order.push((i, j));
            j += 1;
        }
        i += 1;
    }
    order
}

} // verus!
