use vstd::prelude::*;
use crate::error::WalletError;
use crate::fee::{estimate_fee, fee_for, ScriptKind};
use crate::utxo::{total_value, OutPoint, Utxo};

verus! {

/// Transaction ids compare byte by byte, first differing byte deciding.
pub open spec fn txid_lt(a: [u8; 32], b: [u8; 32]) -> bool {
    exists|k: int|
        0 <= k < 32 && #[trigger] a@[k] < b@[k] && forall|j: int| 0 <= j < k ==> a@[j] == b@[j]
}

pub open spec fn outpoint_lt(a: OutPoint, b: OutPoint) -> bool {
    txid_lt(a.txid, b.txid) || (a.txid == b.txid && a.vout < b.vout)
}

/// Largest-first order: higher value first, ties broken by outpoint.
pub open spec fn ranks_before(a: Utxo, b: Utxo) -> bool {
    a.value > b.value || (a.value == b.value && outpoint_lt(a.outpoint, b.outpoint))
}

/// Sum of the values of the coins at the positions `idx`.
pub open spec fn sum_at(u: Seq<Utxo>, idx: Seq<usize>) -> nat
    decreases idx.len(),
{
    if idx.len() == 0 {
        0
    } else {
        sum_at(u, idx.drop_last()) + u[idx.last() as int].value as nat
    }
}

/// Sum of the values of the coins whose mark is set.
pub open spec fn marked_sum(u: Seq<Utxo>, m: Seq<bool>) -> nat
    decreases u.len(),
{
    if u.len() == 0 || m.len() == 0 {
        0
    } else {
        marked_sum(u.drop_last(), m.drop_last()) + if m.last() {
            u.last().value as nat
        } else {
            0
        }
    }
}

pub open spec fn count_marked(m: Seq<bool>) -> nat
    decreases m.len(),
{
    if m.len() == 0 {
        0
    } else {
        count_marked(m.drop_last()) + if m.last() {
            1nat
        } else {
            0
        }
    }
}

proof fn lemma_mark(u: Seq<Utxo>, m: Seq<bool>, b: int)
    requires
        u.len() == m.len(),
        0 <= b < m.len(),
        !m[b],
    ensures
        marked_sum(u, m.update(b, true)) == marked_sum(u, m) + u[b].value,
        count_marked(m.update(b, true)) == count_marked(m) + 1,
    decreases m.len(),
{
    if b == m.len() - 1 {
        assert(m.update(b, true).drop_last() =~= m.drop_last());
    } else {
        lemma_mark(u.drop_last(), m.drop_last(), b);
        assert(m.update(b, true).drop_last() =~= m.drop_last().update(b, true));
    }
}

proof fn lemma_all_marked(u: Seq<Utxo>, m: Seq<bool>)
    requires
        u.len() == m.len(),
        forall|i: int| 0 <= i < m.len() ==> m[i],
    ensures
        marked_sum(u, m) == total_value(u),
        count_marked(m) == m.len(),
    decreases m.len(),
{
    if m.len() > 0 {
        lemma_all_marked(u.drop_last(), m.drop_last());
    }
}

proof fn lemma_none_marked(u: Seq<Utxo>, m: Seq<bool>)
    requires
        u.len() == m.len(),
        forall|i: int| 0 <= i < m.len() ==> !m[i],
    ensures
        marked_sum(u, m) == 0,
        count_marked(m) == 0,
    decreases m.len(),
{
    if m.len() > 0 {
        lemma_none_marked(u.drop_last(), m.drop_last());
    }
}

pub fn txid_less(a: &[u8; 32], b: &[u8; 32]) -> (r: bool)
    ensures
        r == txid_lt(*a, *b),
{
    let mut i: usize = 0;
    while i < 32
        invariant
            i <= 32,
            forall|j: int| 0 <= j < i ==> a@[j] == b@[j],
        decreases 32 - i,
    {
        if a[i] != b[i] {
            let r = a[i] < b[i];
            proof {
                if !r {
                    assert forall|k: int|
                        0 <= k < 32 && #[trigger] a@[k] < b@[k] implies !(forall|j: int|
                        0 <= j < k ==> a@[j] == b@[j]) by {
                        if k > i {
                            assert(a@[i as int] != b@[i as int]);
                        }
                    }
                }
            }
            return r;
        }
        i = i + 1;
    }
    false
}

/// Whether `a` comes before `b` in largest-first order.
pub fn ranks_before_exec(a: &Utxo, b: &Utxo) -> (r: bool)
    ensures
        r == ranks_before(*a, *b),
{
    if a.value != b.value {
        return a.value > b.value;
    }
    if txid_less(&a.outpoint.txid, &b.outpoint.txid) {
        return true;
    }
    if txid_less(&b.outpoint.txid, &a.outpoint.txid) {
        return false;
    }
    proof {
        lemma_txid_trichotomy(a.outpoint.txid, b.outpoint.txid);
    }
    a.outpoint.vout < b.outpoint.vout
}

proof fn lemma_txid_trichotomy(a: [u8; 32], b: [u8; 32])
    requires
        !txid_lt(a, b),
        !txid_lt(b, a),
    ensures
        a == b,
{
    assert forall|i: int| 0 <= i < 32 implies a@[i] == b@[i] by {
        if a@[i] != b@[i] {
            lemma_first_difference(a, b, 0);
        }
    }
    assert(a =~= b);
}

proof fn lemma_first_difference(a: [u8; 32], b: [u8; 32], k: int)
    requires
        0 <= k <= 32,
        forall|j: int| 0 <= j < k ==> a@[j] == b@[j],
        exists|d: int| k <= d < 32 && a@[d] != b@[d],
    ensures
        txid_lt(a, b) || txid_lt(b, a),
    decreases 32 - k,
{
    if a@[k] != b@[k] {
        if a@[k] < b@[k] {
            assert(txid_lt(a, b));
        } else {
            assert(b@[k] < a@[k]);
            assert(txid_lt(b, a));
        }
    } else {
        lemma_first_difference(a, b, k + 1);
    }
}

/// The coins picked for a spend, as positions in the candidate list, in the
/// order they were picked, with their total value.
#[derive(Debug, Clone, PartialEq, Eq)]
pub struct CoinSelection {
    pub chosen: Vec<usize>,
    pub selected_value: u64,
}

/// A chosen list of positions that picks each candidate at most once.
pub open spec fn valid_choice(u: Seq<Utxo>, c: Seq<usize>) -> bool {
    &&& forall|k: int| 0 <= k < c.len() ==> c[k] < u.len()
    &&& forall|k1: int, k2: int| 0 <= k1 < k2 < c.len() ==> c[k1] != c[k2]
}

/// Whether the coins at `c` pay `target` plus the fee of spending them.
pub open spec fn covers(u: Seq<Utxo>, c: Seq<usize>, target: nat, k: ScriptKind, rate: nat) -> bool {
    sum_at(u, c) >= target + fee_for(k, c.len(), 1, rate)
}

/// The result of largest-first selection: every picked coin ranks no lower
/// than any coin left out, picks come in rank order, and picking stops at the
/// first prefix that covers the target and its fee.
pub open spec fn largest_first(u: Seq<Utxo>, c: Seq<usize>, target: nat, k: ScriptKind, rate: nat) -> bool {
    &&& valid_choice(u, c)
    &&& forall|a: int, j: int|
        0 <= a < c.len() && 0 <= j < u.len() && !c.contains(j as usize) ==> !ranks_before(
            #[trigger] u[j],
            #[trigger] u[c[a] as int],
        )
    &&& forall|a: int, b: int|
        0 <= a < b < c.len() ==> !ranks_before(#[trigger] u[c[b] as int], #[trigger] u[c[a] as int])
    &&& covers(u, c, target, k, rate)
    &&& forall|n: int| 0 <= n < c.len() ==> !covers(u, #[trigger] c.take(n), target, k, rate)
}

/// Every candidate placed in largest-first order, and no prefix of that
/// order, the whole included, pays the target and its fee.
pub open spec fn no_prefix_covers(u: Seq<Utxo>, target: nat, k: ScriptKind, rate: nat) -> bool {
    exists|c: Seq<usize>|
        {
            &&& valid_choice(u, c)
            &&& c.len() == u.len()
            &&& forall|a: int, b: int|
                0 <= a < b < c.len() ==> !ranks_before(#[trigger] u[c[b] as int], #[trigger] u[c[a] as int])
            &&& forall|n: int| 0 <= n <= c.len() ==> !covers(u, #[trigger] c.take(n), target, k, rate)
        }
}

/// Missing amount when every candidate is spent and still falls short.
pub open spec fn shortfall_of(u: Seq<Utxo>, target: nat, k: ScriptKind, rate: nat) -> int {
    target + fee_for(k, u.len(), 1, rate) - total_value(u)
}

/// Largest-first coin selection for a payment of `target` satoshis at `rate`
/// satoshis per virtual byte.
#[verifier::loop_isolation(false)]
#[verifier::rlimit(60)]
pub fn select_largest_first(available: &Vec<Utxo>, target: u64, kind: ScriptKind, rate: u32) -> (r:
    Result<CoinSelection, WalletError>)
    requires
        total_value(available@) <= u64::MAX,
    ensures
        match r {
            Ok(s) => largest_first(available@, s.chosen@, target as nat, kind, rate as nat)
                && s.selected_value == sum_at(available@, s.chosen@),
            Err(e) => shortfall_of(available@, target as nat, kind, rate as nat) > 0
                && no_prefix_covers(available@, target as nat, kind, rate as nat)
                && e == WalletError::InsufficientFunds {
                shortfall: shortfall_of(available@, target as nat, kind, rate as nat) as u128,
            },
        },
{
    let ghost u = available@;
    let n = available.len();
    let mut taken: Vec<bool> = Vec::new();
    let mut i: usize = 0;
    while i < n
        invariant
            i <= n,
            taken@.len() == i,
            forall|j: int| 0 <= j < i ==> !taken@[j],
        decreases n - i,
    {
        taken.push(false);
        i = i + 1;
    }
    proof {
        lemma_none_marked(u, taken@);
    }
    let mut chosen: Vec<usize> = Vec::new();
    let mut acc: u64 = 0;
    loop
        invariant
            taken@.len() == n,
            valid_choice(u, chosen@),
            forall|j: int| 0 <= j < n ==> (taken@[j] <==> chosen@.contains(j as usize)),
            acc == sum_at(u, chosen@),
            acc == marked_sum(u, taken@),
            count_marked(taken@) == chosen@.len(),
            forall|a: int, j: int|
                0 <= a < chosen@.len() && 0 <= j < u.len() && !chosen@.contains(j as usize)
                    ==> !ranks_before(#[trigger] u[j], #[trigger] u[chosen@[a] as int]),
            forall|a: int, b: int|
                0 <= a < b < chosen@.len() ==> !ranks_before(
                    #[trigger] u[chosen@[b] as int],
                    #[trigger] u[chosen@[a] as int],
                ),
            forall|m: int|
                0 <= m < chosen@.len() ==> !covers(
                    u,
                    #[trigger] chosen@.take(m),
                    target as nat,
                    kind,
                    rate as nat,
                ),
        decreases n - chosen@.len(),
    {
        let need = target as u128 + estimate_fee(kind, chosen.len(), 1, rate);
        if acc as u128 >= need {
            assert(covers(u, chosen@, target as nat, kind, rate as nat));
            return Ok(CoinSelection { chosen, selected_value: acc });
        }
        // the best coin not yet picked
        let mut best: usize = n;
        let mut j: usize = 0;
        while j < n
            invariant
                j <= n,
                best == n || (best < j && !taken@[best as int]),
                best == n ==> forall|x: int| 0 <= x < j ==> taken@[x],
                best < n ==> forall|x: int|
                    0 <= x < j && !taken@[x] ==> !ranks_before(u[x], u[best as int]),
            decreases n - j,
        {
            if !taken[j] {
                if best == n || ranks_before_exec(&available[j], &available[best]) {
                    proof {
                        if best < n {
                            assert forall|x: int|
                                0 <= x < j + 1 && !taken@[x] implies !ranks_before(
                                u[x],
                                u[j as int],
                            ) by {
                                if x == j {
                                    lemma_rank_irreflexive(u[j as int]);
                                } else {
                                    lemma_rank_order(u[x], u[best as int], u[j as int]);
                                }
                            }
                        } else {
                            assert forall|x: int|
                                0 <= x < j + 1 && !taken@[x] implies !ranks_before(
                                u[x],
                                u[j as int],
                            ) by {
                                if x != j {
                                    assert(taken@[x]);
                                }
                                lemma_rank_irreflexive(u[j as int]);
                            }
                        }
                    }
                    best = j;
                }
            }
            j = j + 1;
        }
        if best == n {
            proof {
                lemma_all_marked(u, taken@);
                assert(chosen@.take(chosen@.len() as int) =~= chosen@);
                assert forall|m: int| 0 <= m <= chosen@.len() implies !covers(
                    u,
                    #[trigger] chosen@.take(m),
                    target as nat,
                    kind,
                    rate as nat,
                ) by {}
                assert(no_prefix_covers(u, target as nat, kind, rate as nat));
            }
            let short = need - acc as u128;
            return Err(WalletError::InsufficientFunds { shortfall: short });
        }
        proof {
            lemma_mark(u, taken@, best as int);
            lemma_tally_bound_marked(u, taken@.update(best as int, true));
            assert(chosen@.push(best).drop_last() =~= chosen@);
            assert forall|m: int| 0 <= m < chosen@.len() + 1 implies !covers(
                u,
                #[trigger] chosen@.push(best).take(m),
                target as nat,
                kind,
                rate as nat,
            ) by {
                if m < chosen@.len() {
                    assert(chosen@.push(best).take(m) =~= chosen@.take(m));
                } else {
                    assert(chosen@.push(best).take(m) =~= chosen@);
                }
            }
        }
        let ghost old_chosen = chosen@;
        let ghost old_taken = taken@;
        acc = acc + available[best].value;
        taken.set(best, true);
        chosen.push(best);
        proof {
            assert(chosen@.drop_last() =~= old_chosen);
            assert forall|a: int, j: int|
                0 <= a < chosen@.len() && 0 <= j < u.len() && !chosen@.contains(j as usize)
                    implies !ranks_before(#[trigger] u[j], #[trigger] u[chosen@[a] as int]) by {
                if old_chosen.contains(j as usize) {
                    let w = choose|w: int| 0 <= w < old_chosen.len() && old_chosen[w] == j as usize;
                    assert(chosen@[w] == j as usize);
                }
                assert(j != best as int) by {
                    assert(chosen@[chosen@.len() - 1] == best);
                }
                assert(!old_taken[j]);
                if a < old_chosen.len() {
                    assert(chosen@[a] == old_chosen[a]);
                }
            }
            assert forall|a: int, b: int| 0 <= a < b < chosen@.len() implies chosen@[a] != chosen@[b] by {
                if b == chosen@.len() - 1 {
                    assert(chosen@.drop_last().contains(chosen@[a]));
                }
            }
            assert forall|x: int| 0 <= x < n implies (taken@[x] <==> chosen@.contains(x as usize)) by {
                if x == best {
                    assert(chosen@[chosen@.len() - 1] == best);
                } else {
                    if chosen@.contains(x as usize) {
                        let w = choose|w: int| 0 <= w < chosen@.len() && chosen@[w] == x as usize;
                        assert(chosen@.drop_last()[w] == x as usize);
                    }
                    if chosen@.drop_last().contains(x as usize) {
                        let w = choose|w: int| 0 <= w < chosen@.drop_last().len() && chosen@.drop_last()[w] == x as usize;
                        assert(chosen@[w] == x as usize);
                    }
                }
            }
        }
    }
}

/// What every selection strategy guarantees: a choice of distinct coins that
/// pays the target and its fee, or the exact shortfall when no prefix of the
/// largest-first order, all coins included, pays it.
pub open spec fn selection_outcome(
    u: Seq<Utxo>,
    target: nat,
    k: ScriptKind,
    rate: nat,
    r: Result<CoinSelection, WalletError>,
) -> bool {
    match r {
        Ok(s) => valid_choice(u, s.chosen@) && covers(u, s.chosen@, target, k, rate)
            && s.selected_value == sum_at(u, s.chosen@),
        Err(e) => shortfall_of(u, target, k, rate) > 0 && no_prefix_covers(u, target, k, rate) && e
            == WalletError::InsufficientFunds { shortfall: shortfall_of(u, target, k, rate) as u128 },
    }
}

/// A coin-selection strategy.
pub trait CoinSelector {
    fn select(&self, available: &Vec<Utxo>, target: u64, kind: ScriptKind, rate: u32) -> (r: Result<
        CoinSelection,
        WalletError,
    >)
        requires
            total_value(available@) <= u64::MAX,
        ensures
            selection_outcome(available@, target as nat, kind, rate as nat, r),
    ;
}

/// The default strategy: largest coins first.
#[derive(Debug, Clone, Copy, PartialEq, Eq, Default)]
pub struct LargestFirst;

impl CoinSelector for LargestFirst {
    fn select(&self, available: &Vec<Utxo>, target: u64, kind: ScriptKind, rate: u32) -> (r: Result<
        CoinSelection,
        WalletError,
    >) {
        select_largest_first(available, target, kind, rate)
    }
}

proof fn lemma_rank_irreflexive(a: Utxo)
    ensures
        !ranks_before(a, a),
{
}

proof fn lemma_rank_order(x: Utxo, b: Utxo, j: Utxo)
    requires
        ranks_before(j, b),
        !ranks_before(x, b),
    ensures
        !ranks_before(x, j),
{
    if ranks_before(x, j) {
        if x.value == j.value && j.value == b.value {
            if txid_lt(x.outpoint.txid, j.outpoint.txid) && txid_lt(j.outpoint.txid, b.outpoint.txid) {
                lemma_txid_trans(x.outpoint.txid, j.outpoint.txid, b.outpoint.txid);
            }
        }
    }
}

proof fn lemma_txid_trans(a: [u8; 32], b: [u8; 32], c: [u8; 32])
    requires
        txid_lt(a, b),
        txid_lt(b, c),
    ensures
        txid_lt(a, c),
{
    let k1 = choose|k: int|
        0 <= k < 32 && #[trigger] a@[k] < b@[k] && forall|j: int| 0 <= j < k ==> a@[j] == b@[j];
    let k2 = choose|k: int|
        0 <= k < 32 && #[trigger] b@[k] < c@[k] && forall|j: int| 0 <= j < k ==> b@[j] == c@[j];
    let k = if k1 < k2 { k1 } else { k2 };
    assert(a@[k] < c@[k]);
    assert(forall|j: int| 0 <= j < k ==> a@[j] == c@[j]);
}

proof fn lemma_tally_bound_marked(u: Seq<Utxo>, m: Seq<bool>)
    requires
        u.len() == m.len(),
    ensures
        marked_sum(u, m) <= total_value(u),
        count_marked(m) <= m.len(),
    decreases m.len(),
{
    if m.len() > 0 {
        lemma_tally_bound_marked(u.drop_last(), m.drop_last());
    }
}

} // verus!
