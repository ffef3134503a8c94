use vstd::prelude::*;
use crate::descriptor::{
    address_at, address_script, body_of, derivable, receive_address, recipient_script, canonical, checked_descriptor, checksum_of, descriptor_kind, descriptor_parses,
    kind_of, suffix_of,
};
use crate::sync::HARDENED_START;
use crate::error::WalletError;
use crate::fee::ScriptKind;
use crate::select::{no_prefix_covers, selection_outcome, shortfall_of, sum_at, CoinSelection, CoinSelector};
use crate::tx::{build_tx, built_from, has_change, select_error, standard_script, BuildOptions, BuiltTx};
use crate::utxo::{distinct_outpoints, total_value, Chain, Utxo, UtxoIndex};

verus! {

/// The canonical text of descriptor text whose checksum, if given, is right.
pub open spec fn checked_text(s: Seq<char>) -> Option<Seq<char>> {
    canonical(body_of(s), suffix_of(s), checksum_of(body_of(s)))
}

/// Descriptor text whose checksum is right and which parses into a script
/// with an address form.
pub open spec fn usable(s: Seq<char>) -> bool {
    checked_text(s) matches Some(t) && derivable(t) && address_at(t, 0) is Some
}

/// One past the highest derivation index of the coins on `c`, or 0 if none.
pub open spec fn next_after(s: Seq<Utxo>, c: Chain) -> nat
    decreases s.len(),
{
    if s.len() == 0 {
        0
    } else {
        let rest = next_after(s.drop_last(), c);
        if s.last().chain == c && s.last().derivation_index + 1 > rest {
            (s.last().derivation_index + 1) as nat
        } else {
            rest
        }
    }
}

proof fn lemma_next_after_bound(s: Seq<Utxo>, c: Chain)
    ensures
        forall|i: int| 0 <= i < s.len() && s[i].chain == c ==> #[trigger] s[i].derivation_index < next_after(s, c),
    decreases s.len(),
{
    if s.len() > 0 {
        lemma_next_after_bound(s.drop_last(), c);
        assert forall|i: int| 0 <= i < s.len() && s[i].chain == c implies #[trigger] s[i].derivation_index
            < next_after(s, c) by {
            if i < s.len() - 1 {
                assert(s[i] == s.drop_last()[i]);
            }
        }
    }
}

/// What `Wallet::send` does: the coins and the external index are kept, and
/// the payment is built from the wallet's coins, a change output taking the
/// next internal index.
pub open spec fn sent(
    o: Wallet,
    n: Wallet,
    r: Result<BuiltTx, WalletError>,
    recipient: Seq<u8>,
    amount: nat,
    change_script: Seq<u8>,
    opts: BuildOptions,
) -> bool {
    &&& n.utxos == o.utxos
    &&& n.descriptor == o.descriptor
    &&& n.change_descriptor == o.change_descriptor
    &&& n.next_external == o.next_external
    &&& n.kind == o.kind
    &&& !standard_script(recipient) ==> r == Err::<BuiltTx, WalletError>(
            WalletError::InvalidRecipient,
        )
    &&& standard_script(recipient) ==> match r {
            Ok(b) => {
                &&& selection_outcome(
                    o.utxos@,
                    amount,
                    o.kind,
                    opts.fee_rate as nat,
                    Ok::<CoinSelection, WalletError>(b.selection),
                )
                &&& built_from(
                    o.utxos@,
                    b,
                    recipient,
                    amount,
                    change_script,
                    o.kind,
                    opts,
                )
                &&& n.next_internal == o.next_internal + if b.tx.outputs@.len()
                    == 2 {
                    1int
                } else {
                    0
                }
            },
            Err(e) => if e == WalletError::InvalidIndex {
                &&& o.next_internal >= HARDENED_START
                &&& exists|s: CoinSelection|
                    selection_outcome(
                        o.utxos@,
                        amount,
                        o.kind,
                        opts.fee_rate as nat,
                        Ok::<CoinSelection, WalletError>(s),
                    ) && has_change(
                        sum_at(o.utxos@, s.chosen@),
                        amount,
                        o.kind,
                        s.chosen@.len(),
                        opts.fee_rate as nat,
                    )
            } else {
                &&& shortfall_of(o.utxos@, amount, o.kind, opts.fee_rate as nat) > 0
                &&& no_prefix_covers(o.utxos@, amount, o.kind, opts.fee_rate as nat)
                &&& e == select_error(o.utxos@, amount, o.kind, opts.fee_rate as nat)
            },
        }
    &&& r is Err ==> n.next_internal == o.next_internal
}

/// The script a change output of `w` pays: the change descriptor's address at
/// the next internal index. From 2^31 on no change can be made, and the script
/// is empty; a payment that needs change then fails with `InvalidIndex`.
pub open spec fn change_script_of(w: Wallet) -> Option<Seq<u8>> {
    if w.next_internal >= HARDENED_START {
        Some(Seq::<u8>::empty())
    } else {
        match w.change_descriptor {
            Some(cd) => if derivable(cd@) {
                match address_at(cd@, w.next_internal) {
                    Some(a) => address_script(a),
                    None => None,
                }
            } else {
                None
            },
            None => None,
        }
    }
}

/// The script that `w`'s descriptor for chain `c` yields at `index`.
pub open spec fn script_at_spec(w: Wallet, c: Chain, index: u32) -> Option<Seq<u8>> {
    let d = match c {
        Chain::External => Some(w.descriptor),
        Chain::Internal => w.change_descriptor,
    };
    match d {
        Some(d) => if index < HARDENED_START && derivable(d@) {
            match address_at(d@, index) {
                Some(a) => address_script(a),
                None => None,
            }
        } else {
            None
        },
        None => None,
    }
}

/// One past the highest index on `c` among the (chain, index) pairs, or 0.
pub open spec fn next_past(h: Seq<(Chain, u32)>, c: Chain) -> nat
    decreases h.len(),
{
    if h.len() == 0 {
        0
    } else {
        let rest = next_past(h.drop_last(), c);
        if h.last().0 == c && h.last().1 + 1 > rest {
            (h.last().1 + 1) as nat
        } else {
            rest
        }
    }
}

proof fn lemma_next_past_bound(h: Seq<(Chain, u32)>, c: Chain)
    ensures
        forall|i: int| 0 <= i < h.len() && h[i].0 == c ==> #[trigger] h[i].1 < next_past(h, c),
    decreases h.len(),
{
    if h.len() > 0 {
        lemma_next_past_bound(h.drop_last(), c);
        assert forall|i: int| 0 <= i < h.len() && h[i].0 == c implies #[trigger] h[i].1 < next_past(h, c) by {
            if i < h.len() - 1 {
                assert(h[i] == h.drop_last()[i]);
            }
        }
    }
}

/// What a completed sync must satisfy to be taken.
pub open spec fn sync_acceptable(w: Wallet, v: Seq<Utxo>, h: Seq<(Chain, u32)>) -> bool {
    let has_change = w.change_descriptor is Some;
    &&& forall|i: int| 0 <= i < v.len() ==> script_at_spec(w, v[i].chain, v[i].derivation_index) == Some(
        (#[trigger] v[i]).script_pubkey@,
    )
    &&& total_value(v) <= u64::MAX
    &&& distinct_outpoints(v)
    &&& forall|i: int| 0 <= i < v.len() ==> #[trigger] v[i].derivation_index < HARDENED_START
    &&& forall|i: int| 0 <= i < h.len() ==> #[trigger] h[i].1 < HARDENED_START
    &&& !has_change ==> forall|i: int| 0 <= i < v.len() ==> #[trigger] v[i].chain == Chain::External
    &&& !has_change ==> forall|i: int| 0 <= i < h.len() ==> #[trigger] h[i].0 == Chain::External
}

/// The wallet of one invocation: its descriptors, the coins of the last
/// completed sync, and the next unused index on each chain.
pub struct Wallet {
    pub descriptor: Vec<char>,
    pub change_descriptor: Option<Vec<char>>,
    pub kind: ScriptKind,
    pub utxos: UtxoIndex,
    pub next_external: u32,
    pub next_internal: u32,
}

impl Wallet {
    /// Opens a wallet over a descriptor and an optional change descriptor of
    /// the same script type, both checked and kept in canonical form, with no
    /// coins yet.
    pub fn open(desc: &Vec<char>, change: Option<&Vec<char>>) -> (r: Result<Wallet, WalletError>)
        ensures
            match r {
                Ok(w) => {
                    &&& checked_text(desc@) == Some(w.descriptor@)
                    &&& usable(desc@)
                    &&& kind_of(desc@) == Some(w.kind)
                    &&& match change {
                        Some(c) => w.change_descriptor matches Some(cd) && checked_text(c@) == Some(
                            cd@,
                        ) && usable(c@) && kind_of(c@) == Some(w.kind),
                        None => w.change_descriptor is None,
                    }
                    &&& w.utxos.wf() && w.utxos@.len() == 0
                    &&& w.next_external == 0 && w.next_internal == 0
                },
                Err(e) => e == WalletError::DescriptorParse && (!usable(desc@) || kind_of(desc@) is None
                    || (change matches Some(c) && (!usable(c@) || kind_of(c@) != kind_of(desc@)))),
            },
    {
        let descriptor = match checked_descriptor(desc) {
            Ok(d) => d,
            Err(e) => return Err(e),
        };
        if !descriptor_parses(&descriptor) {
            return Err(WalletError::DescriptorParse);
        }
        let kind = match descriptor_kind(desc) {
            Ok(k) => k,
            Err(e) => return Err(e),
        };
        let change_descriptor = match change {
            Some(c) => match checked_descriptor(c) {
                Ok(d) => {
                    if !descriptor_parses(&d) {
                        return Err(WalletError::DescriptorParse);
                    }
                    match descriptor_kind(c) {
                        Ok(ck) => {
                            if ck != kind {
                                return Err(WalletError::DescriptorParse);
                            }
                        },
                        Err(e) => return Err(e),
                    }
                    Some(d)
                },
                Err(e) => return Err(e),
            },
            None => None,
        };
        Ok(
            Wallet {
                descriptor,
                change_descriptor,
                kind,
                utxos: UtxoIndex::new(),
                next_external: 0,
                next_internal: 0,
            },
        )
    }

    /// Takes the result of a completed sync (`None` for a failed one): the
    /// coins found, each of which must pay the script its chain's descriptor
    /// yields at its index, and every (chain, index) whose script has history. On
    /// success the coins replace the old set and each chain's next unused
    /// index moves past every index with history or a coin, so no index in
    /// use is handed out again. The sync fails, changing nothing, on a
    /// hardened index, on internal-chain data without a change descriptor, on
    /// a repeated outpoint, or on a total that does not fit in a `u64`.
    #[verifier::loop_isolation(false)]
    pub fn record_sync(&mut self, fetched: Option<Vec<Utxo>>, history: &Vec<(Chain, u32)>) -> (r: Result<(), WalletError>)
        requires
            old(self).utxos.wf(),
        ensures
            final(self).utxos.wf(),
            final(self).descriptor == old(self).descriptor,
            final(self).change_descriptor == old(self).change_descriptor,
            final(self).kind == old(self).kind,
            match fetched {
                Some(v) if sync_acceptable(*old(self), v@, history@) => {
                    &&& r is Ok
                    &&& final(self).utxos@ == v@
                    &&& final(self).next_external as nat == max_nat(
                        old(self).next_external as nat,
                        max_nat(next_after(v@, Chain::External), next_past(history@, Chain::External)),
                    )
                    &&& final(self).next_internal as nat == max_nat(
                        old(self).next_internal as nat,
                        max_nat(next_after(v@, Chain::Internal), next_past(history@, Chain::Internal)),
                    )
                    &&& forall|i: int|
                        0 <= i < v@.len() ==> (#[trigger] v@[i]).derivation_index < next_on(*final(self), v@[i].chain)
                    &&& forall|i: int|
                        0 <= i < history@.len() ==> (#[trigger] history@[i]).1 < next_on(*final(self), history@[i].0)
                },
                _ => r == Err::<(), WalletError>(WalletError::ChainSync) && final(self).utxos@
                    == old(self).utxos@ && final(self).next_external == old(self).next_external
                    && final(self).next_internal == old(self).next_internal,
            },
    {
        let v = match fetched {
            None => return Err(WalletError::ChainSync),
            Some(v) => v,
        };
        let has_change = self.change_descriptor.is_some();
        let mut next_ext: u32 = 0;
        let mut next_int: u32 = 0;
        let mut i: usize = 0;
        while i < v.len()
            invariant
                i <= v@.len(),
                next_ext as nat == next_after(v@.take(i as int), Chain::External),
                next_int as nat == next_after(v@.take(i as int), Chain::Internal),
                next_ext <= HARDENED_START,
                next_int <= HARDENED_START,
                forall|j: int| 0 <= j < i ==> #[trigger] v@[j].derivation_index < HARDENED_START,
                !has_change ==> forall|j: int| 0 <= j < i ==> #[trigger] v@[j].chain == Chain::External,
                has_change == (self.change_descriptor is Some),
                forall|j: int| 0 <= j < i ==> script_at_spec(*self, v@[j].chain, v@[j].derivation_index) == Some(
                    (#[trigger] v@[j]).script_pubkey@,
                ),
            decreases v@.len() - i,
        {
            let d = v[i].derivation_index;
            if d >= HARDENED_START {
                return Err(WalletError::ChainSync);
            }
            match self.script_at(v[i].chain, d) {
                Some(expected) => {
                    if !same_bytes(&expected, &v[i].script_pubkey) {
                        return Err(WalletError::ChainSync);
                    }
                },
                None => return Err(WalletError::ChainSync),
            }
            assert(v@.take(i + 1).drop_last() =~= v@.take(i as int));
            match v[i].chain {
                Chain::External => {
                    if d + 1 > next_ext {
                        next_ext = d + 1;
                    }
                },
                Chain::Internal => {
                    if !has_change {
                        return Err(WalletError::ChainSync);
                    }
                    if d + 1 > next_int {
                        next_int = d + 1;
                    }
                },
            }
            i = i + 1;
        }
        assert(v@.take(v@.len() as int) =~= v@);
        let ghost coin_ext = next_ext as nat;
        let ghost coin_int = next_int as nat;
        let mut hist_ext: u32 = 0;
        let mut hist_int: u32 = 0;
        let mut k: usize = 0;
        while k < history.len()
            invariant
                k <= history@.len(),
                hist_ext as nat == next_past(history@.take(k as int), Chain::External),
                hist_int as nat == next_past(history@.take(k as int), Chain::Internal),
                hist_ext <= HARDENED_START,
                hist_int <= HARDENED_START,
                forall|j: int| 0 <= j < k ==> #[trigger] history@[j].1 < HARDENED_START,
                !has_change ==> forall|j: int| 0 <= j < k ==> #[trigger] history@[j].0 == Chain::External,
            decreases history@.len() - k,
        {
            let (c, d) = history[k];
            if d >= HARDENED_START {
                return Err(WalletError::ChainSync);
            }
            assert(history@.take(k + 1).drop_last() =~= history@.take(k as int));
            match c {
                Chain::External => {
                    if d + 1 > hist_ext {
                        hist_ext = d + 1;
                    }
                },
                Chain::Internal => {
                    if !has_change {
                        return Err(WalletError::ChainSync);
                    }
                    if d + 1 > hist_int {
                        hist_int = d + 1;
                    }
                },
            }
            k = k + 1;
        }
        assert(history@.take(history@.len() as int) =~= history@);
        let ghost vv = v@;
        match self.utxos.apply_sync(Some(v)) {
            Ok(()) => {},
            Err(e) => return Err(e),
        }
        proof {
            lemma_next_after_bound(vv, Chain::External);
            lemma_next_after_bound(vv, Chain::Internal);
            lemma_next_past_bound(history@, Chain::External);
            lemma_next_past_bound(history@, Chain::Internal);
        }
        if next_ext > self.next_external {
            self.next_external = next_ext;
        }
        if hist_ext > self.next_external {
            self.next_external = hist_ext;
        }
        if next_int > self.next_internal {
            self.next_internal = next_int;
        }
        if hist_int > self.next_internal {
            self.next_internal = hist_int;
        }
        Ok(())
    }

    /// The script that the descriptor for chain `c` yields at `index`.
    pub fn script_at(&self, c: Chain, index: u32) -> (r: Option<Vec<u8>>)
        ensures
            match script_at_spec(*self, c, index) {
                Some(v) => r matches Some(s) && s@ == v,
                None => r is None,
            },
    {
        let d = match c {
            Chain::External => &self.descriptor,
            Chain::Internal => match &self.change_descriptor {
                Some(d) => d,
                None => return None,
            },
        };
        if index >= HARDENED_START {
            return None;
        }
        match receive_address(d, index) {
            Ok(a) => script_for_change(a.as_str()),
            Err(_) => None,
        }
    }

    /// Pays `amount` to a destination address from the wallet's coins; a
    /// change output pays the change descriptor at the next internal index,
    /// which then advances.
    pub fn pay<S: CoinSelector>(
        &mut self,
        strategy: &S,
        destination: &str,
        amount: u64,
        opts: BuildOptions,
    ) -> (r: Result<BuiltTx, WalletError>)
        requires
            old(self).utxos.wf(),
            old(self).change_descriptor is Some,
        ensures
            match address_script(destination@) {
                None => r == Err::<BuiltTx, WalletError>(WalletError::InvalidRecipient) && *final(self) == *old(self),
                Some(rs) => match change_script_of(*old(self)) {
                    Some(cs) => sent(*old(self), *final(self), r, rs, amount as nat, cs, opts),
                    None => r == Err::<BuiltTx, WalletError>(WalletError::DescriptorParse) && *final(self) == *old(self),
                },
            },
    {
        let recipient = match recipient_script(destination) {
            Ok(v) => v,
            Err(e) => return Err(e),
        };
        let change_script = if self.next_internal >= HARDENED_START {
            Vec::new()
        } else {
            let cd = match &self.change_descriptor {
                Some(cd) => cd,
                None => return Err(WalletError::DescriptorParse),
            };
            let addr = match receive_address(cd, self.next_internal) {
                Ok(a) => a,
                Err(_) => return Err(WalletError::DescriptorParse),
            };
            match script_for_change(addr.as_str()) {
                Some(v) => v,
                None => return Err(WalletError::DescriptorParse),
            }
        };
        self.send(strategy, recipient, amount, change_script, opts)
    }

    /// Builds a payment from the wallet's coins; a change output takes the
    /// next unused internal index, which then advances.
    pub fn send<S: CoinSelector>(
        &mut self,
        strategy: &S,
        recipient: Vec<u8>,
        amount: u64,
        change_script: Vec<u8>,
        opts: BuildOptions,
    ) -> (r: Result<BuiltTx, WalletError>)
        requires
            old(self).utxos.wf(),
        ensures
            sent(*old(self), *final(self), r, recipient@, amount as nat, change_script@, opts),
    {
        proof {
            self.utxos.lemma_total_fits();
        }
        build_tx(
            strategy,
            self.utxos.list_unspent(),
            recipient,
            amount,
            change_script,
            &mut self.next_internal,
            self.kind,
            opts,
        )
    }
}

fn script_for_change(addr: &str) -> (r: Option<Vec<u8>>)
    ensures
        match address_script(addr@) {
            Some(v) => r matches Some(s) && s@ == v,
            None => r is None,
        },
{
    match recipient_script(addr) {
        Ok(v) => Some(v),
        Err(_) => None,
    }
}

fn same_bytes(a: &Vec<u8>, b: &Vec<u8>) -> (r: bool)
    ensures
        r == (a@ == b@),
{
    if a.len() != b.len() {
        return false;
    }
    let mut i: usize = 0;
    while i < a.len()
        invariant
            i <= a@.len(),
            a@.len() == b@.len(),
            forall|j: int| 0 <= j < i ==> a@[j] == b@[j],
        decreases a@.len() - i,
    {
        if a[i] != b[i] {
            return false;
        }
        i = i + 1;
    }
    assert(a@ =~= b@);
    true
}

pub open spec fn next_on(w: Wallet, c: Chain) -> u32 {
    match c {
        Chain::External => w.next_external,
        Chain::Internal => w.next_internal,
    }
}

pub open spec fn max_nat(a: nat, b: nat) -> nat {
    if a >= b {
        a
    } else {
        b
    }
}

} // verus!
