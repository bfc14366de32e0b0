use vstd::prelude::*;

verus! {

/// `a` comes strictly before `b` in lexicographic order of index pairs.
pub open spec fn pair_before(a: (usize, usize), b: (usize, usize)) -> bool {
    a.0 < b.0 || (a.0 == b.0 && a.1 < b.1)
}

/// Every unordered pair of distinct indices below `n`, each once as `(i, j)`
/// with `i < j`, in lexicographic order: all pairs of index 0 first, by
/// increasing partner, then those of index 1, and so on.
///
/// This is the order in which overlapping pairs are detected and resolved
/// during a step.
pub fn ordered_pairs(n: usize) -> (r: Vec<(usize, usize)>)
    ensures
        r@.len() == n * (n - 1) / 2,
        forall|k: int| 0 <= k < r@.len() ==> r@[k].0 < r@[k].1 && r@[k].1 < n,
        forall|i: usize, j: usize| i < j && j < n ==> r@.contains((i, j)),
        forall|k1: int, k2: int|
            0 <= k1 < k2 < r@.len() ==> #[trigger] pair_before(r@[k1], r@[k2]),
{
    let mut r: Vec<(usize, usize)> = Vec::new();
    let mut i: usize = 0;
    while i < n
        invariant
            i <= n,
            2 * r@.len() == i * (2 * n - i - 1),
            forall|k: int| 0 <= k < r@.len() ==> r@[k].0 < r@[k].1 && r@[k].1 < n && r@[k].0 < i,
            forall|a: usize, b: usize| a < b && b < n && a < i ==> r@.contains((a, b)),
            forall|k1: int, k2: int|
                0 <= k1 < k2 < r@.len() ==> #[trigger] pair_before(r@[k1], r@[k2]),
        decreases n - i,
    {
        let mut j: usize = i + 1;
        while j < n
            invariant
                i < n,
                i + 1 <= j <= n,
                2 * r@.len() == i * (2 * n - i - 1) + 2 * (j - i - 1),
                forall|k: int|
                    0 <= k < r@.len() ==> r@[k].0 < r@[k].1 && r@[k].1 < n && (r@[k].0 < i || (
                    r@[k].0 == i && r@[k].1 < j)),
                forall|a: usize, b: usize|
                    a < b && b < n && (a < i || (a == i && b < j)) ==> r@.contains((a, b)),
                forall|k1: int, k2: int|
                    0 <= k1 < k2 < r@.len() ==> #[trigger] pair_before(r@[k1], r@[k2]),
            decreases n - j,
        {
            let ghost before = r@;
            r.push((i, j));
            proof {
                assert forall|a: usize, b: usize|
                    a < b && b < n && (a < i || (a == i && b < j + 1)) implies r@.contains(
                    (a, b)) by {
                    if a == i && b == j {
                        assert(r@[before.len() as int] == (a, b));
                    } else {
                        assert(before.contains((a, b)));
                        let k = choose|k: int| 0 <= k < before.len() && before[k] == (a, b);
                        assert(r@[k] == (a, b));
                    }
                }
            }
            j += 1;
        }
        assert(i * (2 * n - i - 1) + 2 * (n - i - 1) == (i + 1) * (2 * n - (i + 1) - 1))
            by (nonlinear_arith);
        i += 1;
    }
    proof {
        let m = (n / 2) as int;
        let h: int = if n % 2 == 0 {
            m * (n - 1)
        } else {
            n * m
        };
        if n % 2 == 0 {
            assert(n * (n - 1) == 2 * (m * (n - 1))) by (nonlinear_arith)
                requires
                    n == 2 * m,
            ;
        } else {
            assert(n * (n - 1) == 2 * (n * m)) by (nonlinear_arith)
                requires
                    n == 2 * m + 1,
            ;
        }
        assert(n * (n - 1) == 2 * h);
        assert(n * (2 * n - n - 1) == n * (n - 1));
    }
    r
}

/// The indices below `n` other than `i`, in increasing order: the bodies
/// whose attraction acts on body `i`. A body is told apart from the others
/// by its index, so two bodies with equal values still attract each other.
pub fn other_indices(n: usize, i: usize) -> (r: Vec<usize>)
    requires
        i < n,
    ensures
        r@.len() == n - 1,
        forall|k: int| 0 <= k < i ==> r@[k] == k,
        forall|k: int| i <= k < n - 1 ==> r@[k] == k + 1,
{
    let mut r: Vec<usize> = Vec::new();
    let mut j: usize = 0;
    while j < n
        invariant
            i < n,
            j <= n,
            r@.len() == if j <= i { j as int } else { j - 1 },
            forall|k: int| 0 <= k < r@.len() && k < i ==> r@[k] == k,
            forall|k: int| 0 <= k < r@.len() && i <= k ==> r@[k] == k + 1,
        decreases n - j,
    {
        if j != i {
            r.push(j);
        }
        j += 1;
    }
    r
}

} // verus!
