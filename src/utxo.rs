use vstd::prelude::*;

verus! {

/// Which descriptor a coin was derived from.
#[derive(Debug, Clone, Copy, PartialEq, Eq)]
pub enum Chain {
    External,
    Internal,
}

/// A reference to a transaction output: transaction id and output position.
#[derive(Debug, Clone, Copy, PartialEq, Eq)]
pub struct OutPoint {
    pub txid: [u8; 32],
    pub vout: u32,
}

/// An unspent output owned by the wallet.
#[derive(Debug, Clone, PartialEq, Eq)]
pub struct Utxo {
    pub outpoint: OutPoint,
    pub value: u64,
    pub script_pubkey: Vec<u8>,
    pub confirmations: u32,
    pub derivation_index: u32,
    pub chain: Chain,
}

/// Which coins a balance counts.
pub enum Tally {
    All,
    Confirmed,
    Unconfirmed,
}

pub open spec fn counts(u: Utxo, t: Tally) -> bool {
    match t {
        Tally::All => true,
        Tally::Confirmed => u.confirmations >= 1,
        Tally::Unconfirmed => u.confirmations == 0,
    }
}

/// The sum of `value` over the coins of `s` that `t` counts.
pub open spec fn tally(s: Seq<Utxo>, t: Tally) -> nat
    decreases s.len(),
{
    if s.len() == 0 {
        0
    } else {
        tally(s.drop_last(), t) + if counts(s.last(), t) {
            s.last().value as nat
        } else {
            0
        }
    }
}

pub open spec fn total_value(s: Seq<Utxo>) -> nat {
    tally(s, Tally::All)
}

pub open spec fn confirmed_balance_of(s: Seq<Utxo>) -> nat {
    tally(s, Tally::Confirmed)
}

pub open spec fn unconfirmed_balance_of(s: Seq<Utxo>) -> nat {
    tally(s, Tally::Unconfirmed)
}

/// Appending a coin adds its value exactly when the tally counts it.
pub proof fn lemma_tally_push(s: Seq<Utxo>, u: Utxo, t: Tally)
    ensures
        tally(s.push(u), t) == tally(s, t) + if counts(u, t) { u.value as nat } else { 0 },
{
    assert(s.push(u).drop_last() =~= s);
}

/// Removing the coin at `i` subtracts its value exactly when the tally counts it.
pub proof fn lemma_tally_remove(s: Seq<Utxo>, i: int, t: Tally)
    requires
        0 <= i < s.len(),
    ensures
        tally(s, t) == tally(s.remove(i), t) + if counts(s[i], t) { s[i].value as nat } else { 0 },
    decreases s.len(),
{
    if i == s.len() - 1 {
        assert(s.remove(i) =~= s.drop_last());
    } else {
        lemma_tally_remove(s.drop_last(), i, t);
        assert(s.remove(i).drop_last() =~= s.drop_last().remove(i));
        assert(s.remove(i).last() == s.last());
    }
}

/// Every partial tally is bounded by the total value.
pub proof fn lemma_tally_le_total(s: Seq<Utxo>, t: Tally)
    ensures
        tally(s, t) <= total_value(s),
    decreases s.len(),
{
    if s.len() > 0 {
        lemma_tally_le_total(s.drop_last(), t);
    }
}

/// The set of coins found by the last completed sync, in the order the sync found them.
pub struct UtxoIndex {
    utxos: Vec<Utxo>,
    total: u64,
}

impl UtxoIndex {
    pub closed spec fn view(&self) -> Seq<Utxo> {
        self.utxos@
    }

    /// The index's total value fits the 64-bit amount type.
    pub closed spec fn wf(&self) -> bool {
        &&& self.total as nat == total_value(self.utxos@)
        &&& distinct_outpoints(self.utxos@)
    }

    /// A well-formed index holds each outpoint once.
    pub proof fn lemma_distinct(&self)
        requires
            self.wf(),
        ensures
            distinct_outpoints(self@),
    {
    }

    /// A well-formed index's total value fits in a `u64`.
    pub proof fn lemma_total_fits(&self)
        requires
            self.wf(),
        ensures
            total_value(self@) <= u64::MAX,
    {
    }

    pub fn new() -> (r: Self)
        ensures
            r.wf(),
            r@ == Seq::<Utxo>::empty(),
    {
        UtxoIndex { utxos: Vec::new(), total: 0 }
    }

    pub fn len(&self) -> (r: usize)
        ensures
            r == self@.len(),
    {
        self.utxos.len()
    }

    /// The coins in the order the sync found them.
    pub fn list_unspent(&self) -> (r: &Vec<Utxo>)
        ensures
            r@ == self@,
    {
        &self.utxos
    }

    pub fn total_value(&self) -> (r: u64)
        requires
            self.wf(),
        ensures
            r == total_value(self@),
    {
        self.total
    }

    /// Adds a coin. Refused (`false`, nothing changed) exactly when the total
    /// value would no longer fit in a `u64`.
    pub fn insert(&mut self, u: Utxo) -> (r: bool)
        requires
            old(self).wf(),
        ensures
            final(self).wf(),
            r == (total_value(old(self)@) + u.value <= u64::MAX && !holds_outpoint(
                old(self)@,
                u.outpoint,
            )),
            r ==> final(self)@ == old(self)@.push(u),
            !r ==> final(self)@ == old(self)@,
    {
        proof {
            lemma_tally_push(self.utxos@, u, Tally::All);
        }
        if self.find(&u.outpoint) {
            return false;
        }
        if self.total <= u64::MAX - u.value {
            self.total = self.total + u.value;
            self.utxos.push(u);
            true
        } else {
            false
        }
    }

    fn find(&self, op: &OutPoint) -> (r: bool)
        ensures
            r == holds_outpoint(self@, *op),
    {
        let mut i: usize = 0;
        while i < self.utxos.len()
            invariant
                i <= self.utxos@.len(),
                forall|j: int| 0 <= j < i ==> self.utxos@[j].outpoint != *op,
            decreases self.utxos@.len() - i,
        {
            if same_outpoint(&self.utxos[i].outpoint, op) {
                return true;
            }
            i = i + 1;
        }
        false
    }

    /// Removes the first coin spending `op`, if any, and hands it back.
    #[verifier::loop_isolation(false)]
    pub fn remove(&mut self, op: &OutPoint) -> (r: Option<Utxo>)
        requires
            old(self).wf(),
        ensures
            final(self).wf(),
            match r {
                Some(u) => exists|i: int|
                    0 <= i < old(self)@.len() && old(self)@[i] == u && u.outpoint == *op
                        && final(self)@ == old(self)@.remove(i),
                None => final(self)@ == old(self)@ && forall|i: int|
                    0 <= i < old(self)@.len() ==> old(self)@[i].outpoint != *op,
            },
    {
        let mut i: usize = 0;
        while i < self.utxos.len()
            invariant
                i <= self.utxos@.len(),
                self.wf(),
                self@ == old(self)@,
                forall|j: int| 0 <= j < i ==> self.utxos@[j].outpoint != *op,
            decreases self.utxos@.len() - i,
        {
            if same_outpoint(&self.utxos[i].outpoint, op) {
                proof {
                    lemma_tally_remove(self.utxos@, i as int, Tally::All);
                }
                let ghost before = self.utxos@;
                let u = self.utxos.remove(i);
                assert(before[i as int] == u);
                assert(self.utxos@ == before.remove(i as int));
                self.total = self.total - u.value;
                return Some(u);
            }
            i = i + 1;
        }
        None
    }

    /// Replaces the whole set with the result of a completed sync. A failed
    /// sync (`None`), or one whose total would not fit in a `u64`, leaves the
    /// index untouched.
    #[verifier::loop_isolation(false)]
    pub fn apply_sync(&mut self, fetched: Option<Vec<Utxo>>) -> (r: Result<(), crate::WalletError>)
        requires
            old(self).wf(),
        ensures
            final(self).wf(),
            match fetched {
                None => r == Err::<(), crate::WalletError>(crate::WalletError::ChainSync)
                    && final(self)@ == old(self)@,
                Some(v) => if total_value(v@) <= u64::MAX && distinct_outpoints(v@) {
                    r is Ok && final(self)@ == v@
                } else {
                    r == Err::<(), crate::WalletError>(crate::WalletError::ChainSync)
                        && final(self)@ == old(self)@
                },
            },
    {
        match fetched {
            None => Err(crate::WalletError::ChainSync),
            Some(v) => {
                let mut sum: u64 = 0;
                let mut i: usize = 0;
                while i < v.len()
                    invariant
                        i <= v@.len(),
                        sum == total_value(v@.subrange(0, i as int)),
                    decreases v@.len() - i,
                {
                    proof {
                        lemma_tally_push(v@.subrange(0, i as int), v@[i as int], Tally::All);
                        assert(v@.subrange(0, i as int).push(v@[i as int]) =~= v@.subrange(0, i + 1));
                    }
                    if sum > u64::MAX - v[i].value {
                        proof {
                            lemma_tally_prefix_le(v@, i + 1);
                        }
                        return Err(crate::WalletError::ChainSync);
                    }
                    sum = sum + v[i].value;
                    i = i + 1;
                }
                assert(v@.subrange(0, v@.len() as int) =~= v@);
                if !all_distinct(&v) {
                    return Err(crate::WalletError::ChainSync);
                }
                self.utxos = v;
                self.total = sum;
                Ok(())
            },
        }
    }

    /// Sum of `value` over coins with at least one confirmation.
    pub fn confirmed_balance(&self) -> (r: u64)
        requires
            self.wf(),
        ensures
            r == confirmed_balance_of(self@),
    {
        self.balance(Tally::Confirmed)
    }

    /// Sum of `value` over coins with no confirmation yet.
    pub fn unconfirmed_balance(&self) -> (r: u64)
        requires
            self.wf(),
        ensures
            r == unconfirmed_balance_of(self@),
    {
        self.balance(Tally::Unconfirmed)
    }

    #[verifier::loop_isolation(false)]
    fn balance(&self, t: Tally) -> (r: u64)
        requires
            self.wf(),
        ensures
            r == tally(self@, t),
    {
        let mut sum: u64 = 0;
        let mut i: usize = 0;
        while i < self.utxos.len()
            invariant
                self.wf(),
                i <= self.utxos@.len(),
                sum == tally(self.utxos@.subrange(0, i as int), t),
            decreases self.utxos@.len() - i,
        {
            let ghost pre = self.utxos@.subrange(0, i as int);
            proof {
                lemma_tally_push(pre, self.utxos@[i as int], t);
                assert(pre.push(self.utxos@[i as int]) =~= self.utxos@.subrange(0, i + 1));
                lemma_tally_le_total(self.utxos@.subrange(0, i + 1), t);
                lemma_tally_prefix_le(self.utxos@, i + 1);
            }
            let u = &self.utxos[i];
            let take = match t {
                Tally::All => true,
                Tally::Confirmed => u.confirmations >= 1,
                Tally::Unconfirmed => u.confirmations == 0,
            };
            if take {
                sum = sum + u.value;
            }
            i = i + 1;
        }
        assert(self.utxos@.subrange(0, self.utxos@.len() as int) =~= self.utxos@);
        sum
    }
}

/// A prefix never holds more value than the whole sequence.
pub proof fn lemma_tally_prefix_le(s: Seq<Utxo>, n: int)
    requires
        0 <= n <= s.len(),
    ensures
        total_value(s.subrange(0, n)) <= total_value(s),
    decreases s.len() - n,
{
    if n < s.len() {
        lemma_tally_prefix_le(s, n + 1);
        lemma_tally_push(s.subrange(0, n), s[n], Tally::All);
        assert(s.subrange(0, n).push(s[n]) =~= s.subrange(0, n + 1));
    } else {
        assert(s.subrange(0, n) =~= s);
    }
}

pub open spec fn holds_outpoint(s: Seq<Utxo>, op: OutPoint) -> bool {
    exists|i: int| 0 <= i < s.len() && s[i].outpoint == op
}

/// No two coins spend the same outpoint.
pub open spec fn distinct_outpoints(s: Seq<Utxo>) -> bool {
    forall|i: int, j: int| 0 <= i < j < s.len() ==> s[i].outpoint != s[j].outpoint
}

fn all_distinct(v: &Vec<Utxo>) -> (r: bool)
    ensures
        r == distinct_outpoints(v@),
{
    let mut j: usize = 0;
    while j < v.len()
        invariant
            j <= v@.len(),
            forall|a: int, b: int| 0 <= a < b < j ==> v@[a].outpoint != v@[b].outpoint,
        decreases v@.len() - j,
    {
        let mut i: usize = 0;
        while i < j
            invariant
                i <= j < v@.len(),
                forall|a: int| 0 <= a < i ==> v@[a].outpoint != v@[j as int].outpoint,
            decreases j - i,
        {
            if same_outpoint(&v[i].outpoint, &v[j].outpoint) {
                return false;
            }
            i = i + 1;
        }
        j = j + 1;
    }
    true
}

/// Confirmations of an output mined at `height` when the chain tip is at
/// `tip`: none while unmined, one in the tip block itself. A height above the
/// tip, seen during a reorganisation, counts as unconfirmed. The count
/// saturates at `u32::MAX`.
pub fn confirmations_at(tip: u32, height: Option<u32>) -> (r: u32)
    ensures
        r == match height {
            Some(h) if h <= tip => if tip - h + 1 > u32::MAX {
                u32::MAX
            } else {
                (tip - h + 1) as u32
            },
            _ => 0u32,
        },
{
    match height {
        Some(h) => if h <= tip {
            if tip - h == u32::MAX {
                u32::MAX
            } else {
                tip - h + 1
            }
        } else {
            0
        },
        None => 0,
    }
}

/// Two outpoints name the same output.
pub fn same_outpoint(a: &OutPoint, b: &OutPoint) -> (r: bool)
    ensures
        r == (*a == *b),
{
    if a.vout != b.vout {
        return false;
    }
    let mut i: usize = 0;
    while i < 32
        invariant
            i <= 32,
            forall|j: int| 0 <= j < i ==> a.txid[j] == b.txid[j],
        decreases 32 - i,
    {
        if a.txid[i] != b.txid[i] {
            return false;
        }
        i = i + 1;
    }
    assert(a.txid =~= b.txid);
    true
}

} // verus!
