use vstd::prelude::*;

verus! {

/// Whether creature `x` belongs to one of the `pairs`.
pub open spec fn used(pairs: Seq<(usize, usize)>, x: int) -> bool {
    exists|p: int| 0 <= p < pairs.len() && (#[trigger] pairs[p].0 == x || pairs[p].1 == x)
}

/// Creature `x` may still reproduce once the first `k` pairs are made: it has
/// the energy for it and is in none of them.
pub open spec fn free_at(eligible: Seq<bool>, pairs: Seq<(usize, usize)>, k: int, x: int) -> bool {
    &&& 0 <= x < eligible.len()
    &&& eligible[x]
    &&& !used(pairs.subrange(0, k), x)
}

/// `b` is the partner that `a` picks among the creatures still free after the
/// first `k` pairs: the nearest one, and the first in world order among equally near ones.
pub open spec fn nearest_free(
    eligible: Seq<bool>,
    distance: Seq<Vec<u32>>,
    pairs: Seq<(usize, usize)>,
    k: int,
    a: int,
    b: int,
) -> bool {
    forall|x: int|
        #![trigger free_at(eligible, pairs, k, x)]
        free_at(eligible, pairs, k, x) && x != a ==> distance[a]@[b] < distance[a]@[x] || (
        distance[a]@[b] == distance[a]@[x] && b <= x)
}

/// The `k`-th pair follows the rule: its first creature is the first free one
/// in world order, and its second is that creature's nearest free partner.
pub open spec fn pair_follows_rule(
    eligible: Seq<bool>,
    distance: Seq<Vec<u32>>,
    pairs: Seq<(usize, usize)>,
    k: int,
) -> bool {
    let a = pairs[k].0 as int;
    let b = pairs[k].1 as int;
    &&& free_at(eligible, pairs, k, a)
    &&& free_at(eligible, pairs, k, b)
    &&& a != b
    &&& forall|x: int| 0 <= x < a ==> !#[trigger] free_at(eligible, pairs, k, x)
    &&& nearest_free(eligible, distance, pairs, k, a, b)
}

/// The pairs that reproduce in one tick: every pair follows the rule, and
/// at most one creature that could reproduce is left without a partner.
pub open spec fn is_pairing(
    eligible: Seq<bool>,
    distance: Seq<Vec<u32>>,
    pairs: Seq<(usize, usize)>,
) -> bool {
    &&& forall|k: int| 0 <= k < pairs.len() ==> #[trigger] pair_follows_rule(eligible, distance, pairs, k)
    &&& forall|x: int, y: int|
        #![trigger free_at(eligible, pairs, pairs.len() as int, x), free_at(eligible, pairs, pairs.len() as int, y)]
        free_at(eligible, pairs, pairs.len() as int, x) && free_at(eligible, pairs, pairs.len() as int, y)
            ==> x == y
}

/// The generation of a child: one more than the later of its parents'.
pub fn child_generation(generation_a: usize, generation_b: usize) -> (r: usize)
    requires
        generation_a < usize::MAX,
        generation_b < usize::MAX,
    ensures
        r == if generation_a >= generation_b {
            generation_a + 1
        } else {
            generation_b + 1
        },
{
    if generation_a >= generation_b {
        generation_a + 1
    } else {
        generation_b + 1
    }
}

proof fn lemma_used_push(pairs: Seq<(usize, usize)>, pair: (usize, usize), x: int)
    ensures
        used(pairs.push(pair), x) == (used(pairs, x) || pair.0 == x || pair.1 == x),
{
    let pushed = pairs.push(pair);
    if used(pairs, x) {
        let p = choose|p: int| 0 <= p < pairs.len() && (#[trigger] pairs[p].0 == x || pairs[p].1 == x);
        assert(pushed[p] == pairs[p]);
    }
    if pair.0 == x || pair.1 == x {
        assert(pushed[pairs.len() as int] == pair);
    }
    if used(pushed, x) && pair.0 != x && pair.1 != x {
        let p = choose|p: int| 0 <= p < pushed.len() && (#[trigger] pushed[p].0 == x || pushed[p].1 == x);
        assert(pushed[p] == pairs[p]);
    }
}

/// Pairs the creatures that have the energy to reproduce (`eligible`), in
/// world order: each creature not yet paired takes the nearest creature not yet
/// paired, by `distance` (any key ordered as the distances are), the first in
/// world order among equally near ones. A creature left with no partner does
/// not reproduce.
pub fn pair_parents(eligible: &Vec<bool>, distance: &Vec<Vec<u32>>) -> (r: Vec<(usize, usize)>)
    requires
        distance@.len() == eligible@.len(),
        forall|i: int| 0 <= i < distance@.len() ==> #[trigger] distance@[i]@.len() == eligible@.len(),
    ensures
        is_pairing(eligible@, distance@, r@),
{
    let n = eligible.len();
    let mut paired: Vec<bool> = Vec::new();
    let mut i: usize = 0;
    while i < n
        invariant
            i <= n,
            paired@.len() == i,
            forall|x: int| 0 <= x < i ==> !#[trigger] paired@[x],
        decreases n - i,
    {
        paired.push(false);
        i = i + 1;
    }
    let mut pairs: Vec<(usize, usize)> = Vec::new();
    assert(pairs@.subrange(0, 0) =~= pairs@);
    let mut a: usize = 0;
    while a < n
        invariant
            n == eligible@.len(),
            distance@.len() == n,
            forall|i: int| 0 <= i < n ==> #[trigger] distance@[i]@.len() == n,
            a <= n,
            paired@.len() == n,
            forall|x: int| 0 <= x < n ==> #[trigger] paired@[x] == used(pairs@, x),
            pairs@.subrange(0, pairs@.len() as int) == pairs@,
            forall|k: int|
                0 <= k < pairs@.len() ==> #[trigger] pair_follows_rule(eligible@, distance@, pairs@, k),
            forall|x: int, y: int|
                #![trigger free_at(eligible@, pairs@, pairs@.len() as int, x), free_at(eligible@, pairs@, pairs@.len() as int, y)]
                0 <= x < a && free_at(eligible@, pairs@, pairs@.len() as int, x) && free_at(
                    eligible@,
                    pairs@,
                    pairs@.len() as int,
                    y,
                ) ==> x == y,
            forall|x: int, y: int|
                #![trigger free_at(eligible@, pairs@, pairs@.len() as int, x), free_at(eligible@, pairs@, pairs@.len() as int, y)]
                0 <= y < a && free_at(eligible@, pairs@, pairs@.len() as int, x) && free_at(
                    eligible@,
                    pairs@,
                    pairs@.len() as int,
                    y,
                ) ==> x == y,
        decreases n - a,
    {
        let ghost k = pairs@.len() as int;
        if eligible[a] && !paired[a] {
            assert(free_at(eligible@, pairs@, k, a as int));
            let mut found = false;
            let mut best: usize = 0;
            let mut x: usize = 0;
            while x < n
                invariant
                    n == eligible@.len(),
                    distance@.len() == n,
                    forall|i: int| 0 <= i < n ==> #[trigger] distance@[i]@.len() == n,
                    paired@.len() == n,
                    a < n,
                    x <= n,
                    k == pairs@.len(),
                    pairs@.subrange(0, k) == pairs@,
                    forall|y: int| 0 <= y < n ==> #[trigger] paired@[y] == used(pairs@, y),
                    found ==> best < x && best != a && free_at(eligible@, pairs@, k, best as int),
                    forall|y: int|
                        #![trigger free_at(eligible@, pairs@, k, y)]
                        0 <= y < x && y != a && free_at(eligible@, pairs@, k, y) ==> found && (
                        distance@[a as int]@[best as int] < distance@[a as int]@[y] || (
                        distance@[a as int]@[best as int] == distance@[a as int]@[y] && best <= y)),
                decreases n - x,
            {
                if x != a && eligible[x] && !paired[x] {
                    assert(free_at(eligible@, pairs@, k, x as int));
                    if !found || distance[a][x] < distance[a][best] {
                        best = x;
                        found = true;
                    }
                }
                x = x + 1;
            }
            if found {
                let ghost old_pairs = pairs@;
                pairs.push((a, best));
                paired.set(a, true);
                paired.set(best, true);
                proof {
                    let new_pairs = pairs@;
                    assert(new_pairs =~= old_pairs.push((a, best)));
                    assert(new_pairs.subrange(0, new_pairs.len() as int) =~= new_pairs);
                    assert(new_pairs.subrange(0, k) =~= old_pairs);
                    assert forall|y: int| 0 <= y < n implies #[trigger] paired@[y] == used(
                        new_pairs,
                        y,
                    ) by {
                        lemma_used_push(old_pairs, (a, best), y);
                    }
                    assert forall|y: int|
                        #![trigger free_at(eligible@, new_pairs, k + 1, y)]
                        free_at(eligible@, new_pairs, k + 1, y) implies free_at(
                        eligible@,
                        old_pairs,
                        k,
                        y,
                    ) && y != a && y != best by {
                        lemma_used_push(old_pairs, (a, best), y);
                    }
                    assert forall|j: int| 0 <= j < new_pairs.len() implies #[trigger] pair_follows_rule(
                        eligible@,
                        distance@,
                        new_pairs,
                        j,
                    ) by {
                        if j < k {
                            assert(new_pairs.subrange(0, j) =~= old_pairs.subrange(0, j));
                            assert forall|y: int|
                                #![trigger free_at(eligible@, new_pairs, j, y)]
                                true implies free_at(eligible@, new_pairs, j, y) == free_at(
                                eligible@,
                                old_pairs,
                                j,
                                y,
                            ) by {}
                            assert(pair_follows_rule(eligible@, distance@, old_pairs, j));
                            assert(new_pairs[j] == old_pairs[j]);
                        } else {
                            assert forall|y: int|
                                #![trigger free_at(eligible@, new_pairs, k, y)]
                                true implies free_at(eligible@, new_pairs, k, y) == free_at(
                                eligible@,
                                old_pairs,
                                k,
                                y,
                            ) by {}
                            assert forall|y: int| 0 <= y < a implies !#[trigger] free_at(
                                eligible@,
                                new_pairs,
                                j,
                                y,
                            ) by {
                                if free_at(eligible@, old_pairs, k, y) {
                                    assert(free_at(eligible@, old_pairs, k, a as int));
                                }
                            }
                            assert(new_pairs[j].0 == a && new_pairs[j].1 == best);
                            assert(nearest_free(eligible@, distance@, new_pairs, k, a as int, best as int));
                        }
                    }
                }
            } else {
                proof {
                    assert forall|y: int|
                        #![trigger free_at(eligible@, pairs@, k, y)]
                        free_at(eligible@, pairs@, k, y) implies y == a by {
                        if y != a && y < n {
                            assert(!(0 <= y < x && y != a && free_at(eligible@, pairs@, k, y)) || found);
                        }
                    }
                }
            }
        }
        a = a + 1;
    }
    pairs
}

} // verus!
