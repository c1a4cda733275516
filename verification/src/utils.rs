//! Cohort parameter validation and key-id partitioning.

use vstd::prelude::*;

use crate::keygen::KeygenError;

verus! {

/// The parameters are valid when the `k` key ids divide evenly over the `n`
/// parties, at least one key id exists, and the signing threshold `t` is
/// strictly below the cohort size.
pub open spec fn parameters_valid(n: u32, k: u32, t: u32) -> bool {
    n > 0 && k > 0 && k % n == 0 && n > t
}

/// Which constraint a rejection names, mirroring the order of the checks:
/// divisibility first, then emptiness, then the threshold bound.
pub open spec fn violated_constraint_text(n: u32, k: u32, t: u32) -> Seq<char> {
    if n == 0 || k % n != 0 {
        "k % n != 0"@
    } else if k == 0 {
        "k == 0"@
    } else {
        "n <= t"@
    }
}

/// Checks the cohort parameters, naming the violated constraint on failure.
pub fn validate_parameters(n: u32, k: u32, t: u32) -> (r: Result<(), KeygenError>)
    ensures
        r is Ok <==> parameters_valid(n, k, t),
        r matches Err(e) ==> (e matches KeygenError::SetupError(s) && s@
            == violated_constraint_text(n, k, t)),
{
    if n == 0 || k % n != 0 {
        return Err(KeygenError::SetupError(String::from_str("k % n != 0")));
    }

    if k == 0 {
        return Err(KeygenError::SetupError(String::from_str("k == 0")));
    }

    if n <= t {
        return Err(KeygenError::SetupError(String::from_str("n <= t")));
    }

    Ok(())
}

/// What party `p` holds at position `j` of its block: the partition assigns
/// contiguous blocks of `k / n` key ids in ascending party order.
pub open spec fn partition_entry(n: u32, k: u32, p: int, j: int) -> u32
    recommends
        n > 0,
{
    (p * ((k / n) as int) + j) as u32
}

/// Returns, for each of the `n` parties, the block of key ids it owns within
/// the `k`-sized key vector: party `p` owns `[p*(k/n), (p+1)*(k/n))`.
pub fn generate_party_key_ids(n: u32, k: u32) -> (r: Vec<Vec<u32>>)
    requires
        n > 0,
    ensures
        r@.len() == n,
        forall|p: int| 0 <= p < n ==> #[trigger] r@[p]@.len() == k / n,
        forall|p: int, j: int|
            0 <= p < n && 0 <= j < k / n ==> #[trigger] r@[p]@[j] == partition_entry(n, k, p, j),
        forall|p: int, j: int| 0 <= p < n && 0 <= j < k / n ==> #[trigger] r@[p]@[j] < k,
{
    let ids_per_party: u32 = k / n;
    let mut result: Vec<Vec<u32>> = Vec::new();
    let mut start: u32 = 0;
    let mut p: u32 = 0;

    proof {
        assert(n * ids_per_party <= k) by (nonlinear_arith)
            requires
                n > 0,
                ids_per_party == k / n,
        ;
    }

    while p < n
        invariant
            p <= n,
            n > 0,
            ids_per_party == k / n,
            start == p * ids_per_party,
            n * ids_per_party <= k,
            result@.len() == p,
            forall|q: int| 0 <= q < p ==> #[trigger] result@[q]@.len() == ids_per_party,
            forall|q: int, j: int|
                0 <= q < p && 0 <= j < ids_per_party ==> #[trigger] result@[q]@[j]
                    == partition_entry(n, k, q, j),
            forall|q: int, j: int|
                0 <= q < p && 0 <= j < ids_per_party ==> #[trigger] result@[q]@[j] < k,
        decreases n - p,
    {
        proof {
            assert(p * ids_per_party + ids_per_party <= k) by (nonlinear_arith)
                requires
                    0 <= p < n,
                    0 <= ids_per_party,
                    n * ids_per_party <= k,
            ;
        }
        let mut ids: Vec<u32> = Vec::new();
        let mut j: u32 = 0;
        while j < ids_per_party
            invariant
                j <= ids_per_party,
                start + ids_per_party <= k,
                ids@.len() == j,
                forall|i: int| 0 <= i < j ==> #[trigger] ids@[i] == start + i,
            decreases ids_per_party - j,
        {
            ids.push(start + j);
            j = j + 1;
        }
        result.push(ids);
        proof {
            assert(forall|q: int, i: int|
                0 <= q < p + 1 && 0 <= i < ids_per_party ==> #[trigger] result@[q]@[i]
                    == partition_entry(n, k, q, i));
        }
        proof {
            assert((p + 1) * ids_per_party == p * ids_per_party + ids_per_party)
                by (nonlinear_arith);
        }
        start = start + ids_per_party;
        p = p + 1;
    }

    result
}

/// The partition covers the key ids `0 .. k` exactly once, in ascending
/// order: key id `x` stands at position `x % (k/n)` of party `x / (k/n)`'s
/// block, and two distinct positions never hold the same key id.
pub proof fn lemma_partition_covers(n: u32, k: u32)
    requires
        n > 0,
        k > 0,
        k % n == 0,
    ensures
        forall|x: int|
            0 <= x < k ==> #[trigger] partition_entry(
                n,
                k,
                x / ((k / n) as int),
                x % ((k / n) as int),
            ) == x,
        forall|p1: int, j1: int, p2: int, j2: int|
            0 <= p1 < n && 0 <= j1 < k / n && 0 <= p2 < n && 0 <= j2 < k / n
                && partition_entry(n, k, p1, j1) == partition_entry(n, k, p2, j2) ==> p1 == p2
                && j1 == j2,
{
    let m = (k / n) as int;
    assert(m * n == k) by (nonlinear_arith)
        requires
            n > 0,
            k % n == 0,
            m == (k / n) as int,
    ;
    assert(m > 0) by (nonlinear_arith)
        requires
            m * n == k,
            k > 0,
            n > 0,
            m >= 0,
    ;
    assert forall|x: int| 0 <= x < k implies #[trigger] partition_entry(
        n,
        k,
        x / m,
        x % m,
    ) == x by {
        vstd::arithmetic::div_mod::lemma_fundamental_div_mod(x, m);
        assert(0 <= x % m < m) by (nonlinear_arith)
            requires
                m > 0,
        ;
        assert((x / m) * m + x % m == x);
        assert(x / m >= 0 && x / m < n) by (nonlinear_arith)
            requires
                m > 0,
                0 <= x,
                x < m * n,
                (x / m) * m + x % m == x,
                0 <= x % m < m,
        ;
    }
    assert forall|p1: int, j1: int, p2: int, j2: int|
        0 <= p1 < n && 0 <= j1 < m && 0 <= p2 < n && 0 <= j2 < m && partition_entry(n, k, p1, j1)
            == partition_entry(n, k, p2, j2) implies p1 == p2 && j1 == j2 by {
        assert(p1 * m + j1 < k && p2 * m + j2 < k) by (nonlinear_arith)
            requires
                m > 0,
                m * n == k,
                0 <= p1 < n,
                0 <= j1 < m,
                0 <= p2 < n,
                0 <= j2 < m,
        ;
        assert(p1 * m + j1 == p2 * m + j2);
        assert(p1 == p2 && j1 == j2) by (nonlinear_arith)
            requires
                m > 0,
                0 <= j1 < m,
                0 <= j2 < m,
                p1 * m + j1 == p2 * m + j2,
        ;
    }
}

} // verus!
