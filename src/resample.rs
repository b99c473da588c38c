use vstd::prelude::*;

verus! {

/// Outcome of one systematic-resampling walk over `n` particles.
#[derive(Debug)]
pub struct Selection {
    /// `picks[k]` is the old index of the particle that fills slot `k`.
    pub picks: Vec<usize>,
    /// Slot of the first pick that carried the highest pre-reset weight.
    pub best: usize,
}

/// Where the walk starts looking for the particle of point `k`: the pointer is
/// never moved back, so point `k` resumes at the particle picked for `k - 1`.
pub open spec fn walk_start(picks: Seq<usize>, k: int) -> int {
    if k == 0 {
        0
    } else {
        picks[k - 1] as int
    }
}

/// `picks` is what the single-pointer walk yields for `n` sampling points when
/// `below(k, j)` answers whether point `k` lies under the cumulative weight of
/// particle `j`: for each point, every particle passed over answered no, and
/// the one picked answered yes, unless it is the last particle, which takes
/// whatever points remain.
pub open spec fn walk_ok<F: Fn(usize, usize) -> bool>(n: nat, below: F, picks: Seq<usize>) -> bool {
    &&& picks.len() == n
    &&& forall|k: int| 0 <= k < n ==> #[trigger] picks[k] < n
    &&& forall|k: int| 0 < k < n ==> picks[k - 1] <= #[trigger] picks[k]
    &&& forall|k: int, j: int|
        0 <= k < n && walk_start(picks, k) <= j < picks[k] ==> #[trigger] below.ensures(
            (k as usize, j as usize),
            false,
        )
    &&& forall|k: int|
        0 <= k < n && #[trigger] picks[k] + 1 < n ==> below.ensures(
            (k as usize, picks[k]),
            true,
        )
}

/// Slot `b` is reached by the running-maximum scan of `picks` under the strict
/// comparison `heavier`: slot 0 starts as the best, and a later slot takes over
/// exactly when its particle is heavier than that of the best so far.
pub open spec fn best_chain<G: Fn(usize, usize) -> bool>(
    heavier: G,
    picks: Seq<usize>,
    b: int,
) -> bool
    decreases b,
{
    if b <= 0 {
        b == 0
    } else {
        exists|p: int|
            0 <= p < b && best_chain(heavier, picks, p) && #[trigger] heavier.ensures(
                (picks[b], picks[p]),
                true,
            ) && forall|k: int| p < k < b ==> #[trigger] heavier.ensures((picks[k], picks[p]), false)
    }
}

/// `b` is the slot that the running-maximum scan ends on.
pub open spec fn best_ok<G: Fn(usize, usize) -> bool>(heavier: G, picks: Seq<usize>, b: int) -> bool {
    &&& 0 <= b < picks.len()
    &&& best_chain(heavier, picks, b)
    &&& forall|k: int| b < k < picks.len() ==> #[trigger] heavier.ensures((picks[k], picks[b]), false)
}

/// Systematic resampling: `n` evenly spaced points, walked once against the
/// cumulative weights with a pointer that only moves forward, so the work is
/// O(n) and exactly `n` particles are selected.
///
/// `below(k, j)` tells whether the `k`-th sampling point lies under the
/// cumulative weight of particle `j`; `heavier(a, b)` whether particle `a`
/// had a strictly higher weight than particle `b` before the reset.
pub fn systematic_walk<F, G>(n: usize, below: F, heavier: G) -> (s: Selection) where
    F: Fn(usize, usize) -> bool,
    G: Fn(usize, usize) -> bool,

    requires
        n > 0,
        forall|k: usize, j: usize| k < n && j < n ==> #[trigger] below.requires((k, j)),
        forall|a: usize, b: usize| a < n && b < n ==> #[trigger] heavier.requires((a, b)),
    ensures
        walk_ok(n as nat, below, s.picks@),
        best_ok(heavier, s.picks@, s.best as int),
{
    let mut picks: Vec<usize> = Vec::new();
    let mut pos: usize = 0;
    let mut best: usize = 0;
    while picks.len() < n
        invariant
            n > 0,
            forall|k: usize, j: usize| k < n && j < n ==> #[trigger] below.requires((k, j)),
            forall|a: usize, b: usize| a < n && b < n ==> #[trigger] heavier.requires((a, b)),
            picks.len() <= n,
            pos < n,
            forall|k: int| 0 <= k < picks.len() ==> #[trigger] picks@[k] <= pos,
            forall|k: int| 0 <= k < picks.len() ==> #[trigger] picks@[k] < n,
            forall|k: int| 0 < k < picks.len() ==> picks@[k - 1] <= #[trigger] picks@[k],
            forall|k: int, j: int|
                0 <= k < picks.len() && walk_start(picks@, k) <= j < picks@[k]
                    ==> #[trigger] below.ensures((k as usize, j as usize), false),
            forall|k: int|
                0 <= k < picks.len() && #[trigger] picks@[k] + 1 < n ==> below.ensures(
                    (k as usize, picks@[k]),
                    true,
                ),
            walk_start(picks@, picks.len() as int) <= pos,
            forall|j: int|
                walk_start(picks@, picks.len() as int) <= j < pos ==> #[trigger] below.ensures(
                    (picks.len() as usize, j as usize),
                    false,
                ),
            picks.len() == 0 ==> best == 0,
            picks.len() > 0 ==> best_ok(heavier, picks@, best as int),
        decreases (n - picks.len()) + (n - pos),
    {
        let k = picks.len();
        let hit = if pos + 1 == n {
            true
        } else {
            below(k, pos)
        };
        if hit {
            let ghost prev = picks@;
            if k > 0 {
                let bi = picks[best];
                let over = heavier(pos, bi);
                picks.push(pos);
                if over {
                    assert(best_chain(heavier, picks@, k as int)) by {
                        assert(picks@[k as int] == pos);
                        assert(picks@[best as int] == prev[best as int]);
                        assert forall|i: int| best < i < k implies #[trigger] heavier.ensures(
                            (picks@[i], picks@[best as int]),
                            false,
                        ) by {
                            assert(picks@[i] == prev[i]);
                        }
                        lemma_chain_extend(heavier, prev, picks@, best as int);
                    }
                    best = k;
                } else {
                    assert(best_chain(heavier, picks@, best as int)) by {
                        lemma_chain_extend(heavier, prev, picks@, best as int);
                    }
                }
            } else {
                picks.push(pos);
                best = 0;
            }
            assert(forall|i: int| 0 <= i < k ==> picks@[i] == prev[i]);
        } else {
            pos = pos + 1;
        }
    }
    Selection { picks, best }
}

/// The new population: slot `k` holds a copy of particle `picks[k]`.
pub fn gather<T: Copy>(items: &Vec<T>, picks: &Vec<usize>) -> (out: Vec<T>)
    requires
        forall|k: int| 0 <= k < picks.len() ==> #[trigger] picks@[k] < items.len(),
    ensures
        out.len() == picks.len(),
        forall|k: int| 0 <= k < picks.len() ==> #[trigger] out@[k] == items@[picks@[k] as int],
{
    let mut out: Vec<T> = Vec::new();
    let mut k: usize = 0;
    while k < picks.len()
        invariant
            k <= picks.len(),
            out.len() == k,
            forall|i: int| 0 <= i < picks.len() ==> #[trigger] picks@[i] < items.len(),
            forall|i: int| 0 <= i < k ==> #[trigger] out@[i] == items@[picks@[i] as int],
        decreases picks.len() - k,
    {
        out.push(items[picks[k]]);
        k = k + 1;
    }
    out
}

/// Resampling keeps the population size: a walk over `n` particles followed by
/// the gather yields exactly `n` particles, each a copy of an old particle.
pub proof fn resampling_keeps_count<T, F: Fn(usize, usize) -> bool>(
    items: Seq<T>,
    below: F,
    picks: Seq<usize>,
    out: Seq<T>,
)
    requires
        walk_ok(items.len(), below, picks),
        out.len() == picks.len(),
        forall|k: int| 0 <= k < picks.len() ==> #[trigger] out[k] == items[picks[k] as int],
    ensures
        out.len() == items.len(),
        forall|k: int| 0 <= k < out.len() ==> #[trigger] picks[k] < items.len() && out[k] == items[picks[k] as int],
{
}

/// With equal weights, particle `j`'s cumulative weight is `(j + 1) * step` and
/// point `k` lies at `r + k * step` with `0 <= r < step`, so point `k` is below
/// particle `j` exactly when `k <= j`. The walk then selects every particle
/// exactly once, in order.
pub proof fn uniform_weights_select_each_once<F: Fn(usize, usize) -> bool>(
    n: usize,
    below: F,
    picks: Seq<usize>,
)
    requires
        walk_ok(n as nat, below, picks),
        forall|k: usize, j: usize, b: bool| #[trigger] below.ensures((k, j), b) ==> b == (k <= j),
    ensures
        forall|k: int| 0 <= k < n ==> #[trigger] picks[k] == k,
{
    assert forall|k: int| 0 <= k < n implies #[trigger] picks[k] == k by {
        lemma_uniform_prefix(n, below, picks, k);
    }
}

proof fn lemma_uniform_prefix<F: Fn(usize, usize) -> bool>(
    n: usize,
    below: F,
    picks: Seq<usize>,
    i: int,
)
    requires
        0 <= i < n,
        walk_ok(n as nat, below, picks),
        forall|k: usize, j: usize, b: bool| #[trigger] below.ensures((k, j), b) ==> b == (k <= j),
    ensures
        picks[i] == i,
    decreases i,
{
    if i > 0 {
        lemma_uniform_prefix(n, below, picks, i - 1);
    }
    assert(walk_start(picks, i) <= i);
    if picks[i] < i {
        assert(picks[i] + 1 < n);
        assert(below.ensures((i as usize, picks[i]), true));
    }
    if picks[i] > i {
        assert(below.ensures((i as usize, i as usize), false));
    }
}

/// A chain over a prefix of the picks still holds once more picks are appended.
proof fn lemma_chain_extend<G: Fn(usize, usize) -> bool>(
    heavier: G,
    prev: Seq<usize>,
    picks: Seq<usize>,
    b: int,
)
    requires
        0 <= b < prev.len() <= picks.len(),
        forall|i: int| 0 <= i < prev.len() ==> picks[i] == prev[i],
        best_chain(heavier, prev, b),
    ensures
        best_chain(heavier, picks, b),
    decreases b,
{
    if b > 0 {
        let p = choose|p: int|
            0 <= p < b && best_chain(heavier, prev, p) && #[trigger] heavier.ensures(
                (prev[b], prev[p]),
                true,
            ) && forall|k: int| p < k < b ==> #[trigger] heavier.ensures((prev[k], prev[p]), false);
        lemma_chain_extend(heavier, prev, picks, p);
        assert forall|k: int| p < k < b implies #[trigger] heavier.ensures(
            (picks[k], picks[p]),
            false,
        ) by {
            assert(prev[k] == picks[k]);
        }
    }
}

} // verus!
