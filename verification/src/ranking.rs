//! Ranking by a strict preference, ties kept in their input order: what a
//! stable sort followed by taking the first entries gives.

use vstd::prelude::*;

verus! {

/// Among the first `n` entries, the position of the first one that no later
/// entry ranks before.
pub open spec fn first_best<T>(
    ws: Seq<T>,
    before: spec_fn(T, T) -> bool,
    n: int,
) -> int
    decreases n,
{
    if n <= 1 {
        0
    } else {
        let b = first_best(ws, before, n - 1);
        if before(ws[n - 1], ws[b]) { n - 1 } else { b }
    }
}

/// The first `limit` entries in ranked order, ties kept in their input
/// order: what a stable sort followed by taking `limit` gives.
pub open spec fn ranked<T>(
    ws: Seq<T>,
    before: spec_fn(T, T) -> bool,
    limit: nat,
) -> Seq<T>
    decreases limit,
{
    if limit == 0 || ws.len() == 0 {
        Seq::empty()
    } else {
        let b = first_best(ws, before, ws.len() as int);
        seq![ws[b]] + ranked(ws.remove(b), before, (limit - 1) as nat)
    }
}

/// The first best entry is one of the entries considered.
pub proof fn lemma_first_best_range<T>(
    ws: Seq<T>,
    before: spec_fn(T, T) -> bool,
    n: int,
)
    requires
        1 <= n,
    ensures
        0 <= first_best(ws, before, n) < n,
    decreases n,
{
    if n > 1 {
        lemma_first_best_range(ws, before, n - 1);
    }
}

/// One step of a ranking: the first best entry, then the ranking of the rest.
pub proof fn lemma_ranked_step<T>(
    ws: Seq<T>,
    before: spec_fn(T, T) -> bool,
    limit: nat,
)
    requires
        limit > 0,
        ws.len() > 0,
    ensures
        ranked(ws, before, limit) == seq![ws[first_best(ws, before, ws.len() as int)]]
            + ranked(ws.remove(first_best(ws, before, ws.len() as int)), before, (limit - 1) as nat),
{
}

/// Every entry of a ranking is one of the ranked entries.
pub proof fn lemma_ranked_members<T>(
    ws: Seq<T>,
    before: spec_fn(T, T) -> bool,
    limit: nat,
    i: int,
)
    requires
        0 <= i < ranked(ws, before, limit).len(),
    ensures
        exists|k: int| 0 <= k < ws.len() && ws[k] == ranked(ws, before, limit)[i],
    decreases limit,
{
    let b = first_best(ws, before, ws.len() as int);
    lemma_first_best_range(ws, before, ws.len() as int);
    if i == 0 {
        assert(ws[b] == ranked(ws, before, limit)[0]);
    } else {
        let rest = ws.remove(b);
        assert(ranked(ws, before, limit)[i] == ranked(rest, before, (limit - 1) as nat)[i - 1]);
        lemma_ranked_members(rest, before, (limit - 1) as nat, i - 1);
        let k = choose|k: int| 0 <= k < rest.len() && rest[k] == ranked(rest, before, (limit - 1) as nat)[i - 1];
        if k < b {
            assert(ws[k] == rest[k]);
        } else {
            assert(ws[k + 1] == rest[k]);
        }
    }
}

} // verus!
