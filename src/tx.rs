use vstd::prelude::*;
use crate::error::WalletError;
use crate::fee::{estimate_fee, fee_for, ScriptKind, DUST_THRESHOLD};
use crate::select::{no_prefix_covers, selection_outcome, shortfall_of, sum_at, CoinSelection, CoinSelector};
use crate::sync::HARDENED_START;
use crate::utxo::{total_value, OutPoint, Utxo};

verus! {

/// Sequence number that signals replace-by-fee.
pub const SEQUENCE_RBF: u32 = 0xffff_fffd;

/// Sequence number of an input that opts out of replacement.
pub const SEQUENCE_FINAL: u32 = 0xffff_ffff;

#[derive(Debug, Clone, Copy, PartialEq, Eq)]
pub struct TxIn {
    pub previous_output: OutPoint,
    pub sequence: u32,
}

#[derive(Debug, Clone, PartialEq, Eq)]
pub struct TxOut {
    pub value: u64,
    pub script_pubkey: Vec<u8>,
}

/// A transaction before any input is signed.
#[derive(Debug, Clone, PartialEq, Eq)]
pub struct UnsignedTx {
    pub version: i32,
    pub lock_time: u32,
    pub inputs: Vec<TxIn>,
    pub outputs: Vec<TxOut>,
}

/// Summary of a built transaction.
#[derive(Debug, Clone, Copy, PartialEq, Eq)]
pub struct TxDetails {
    pub fee: u64,
    pub sent: u64,
    pub change: u64,
}

/// A built transaction, its summary and the coins it spends.
#[derive(Debug, Clone, PartialEq, Eq)]
pub struct BuiltTx {
    pub tx: UnsignedTx,
    pub details: TxDetails,
    pub selection: CoinSelection,
}

#[derive(Debug, Clone, Copy, PartialEq, Eq)]
pub struct BuildOptions {
    /// Satoshis per virtual byte.
    pub fee_rate: u32,
    pub enable_rbf: bool,
}

/// Output scripts a payment may go to: witness v0 key or script hash, taproot,
/// script hash, pubkey hash.
pub open spec fn standard_script(s: Seq<u8>) -> bool {
    ||| (s.len() == 22 && s[0] == 0x00 && s[1] == 0x14)
    ||| (s.len() == 34 && s[0] == 0x00 && s[1] == 0x20)
    ||| (s.len() == 34 && s[0] == 0x51 && s[1] == 0x20)
    ||| (s.len() == 23 && s[0] == 0xa9 && s[1] == 0x14 && s[22] == 0x87)
    ||| (s.len() == 25 && s[0] == 0x76 && s[1] == 0xa9 && s[2] == 0x14 && s[23] == 0x88 && s[24]
        == 0xac)
}

pub fn is_standard_script(s: &Vec<u8>) -> (r: bool)
    ensures
        r == standard_script(s@),
{
    let n = s.len();
    if n == 22 {
        s[0] == 0x00 && s[1] == 0x14
    } else if n == 34 {
        (s[0] == 0x00 || s[0] == 0x51) && s[1] == 0x20
    } else if n == 23 {
        s[0] == 0xa9 && s[1] == 0x14 && s[22] == 0x87
    } else if n == 25 {
        s[0] == 0x76 && s[1] == 0xa9 && s[2] == 0x14 && s[23] == 0x88 && s[24] == 0xac
    } else {
        false
    }
}

/// What would remain for a change output after paying the recipient and the
/// fee of a transaction that has one.
pub open spec fn change_remainder(total: nat, amount: nat, k: ScriptKind, n_inputs: nat, rate: nat) -> int {
    total - amount - fee_for(k, n_inputs, 2, rate)
}

/// A change output is created exactly when that remainder is above dust.
pub open spec fn has_change(total: nat, amount: nat, k: ScriptKind, n_inputs: nat, rate: nat) -> bool {
    change_remainder(total, amount, k, n_inputs, rate) > DUST_THRESHOLD
}

/// The transaction that `build_tx` emits for the coins of `sel`.
pub open spec fn built_from(
    available: Seq<Utxo>,
    b: BuiltTx,
    recipient: Seq<u8>,
    amount: nat,
    change_script: Seq<u8>,
    k: ScriptKind,
    opts: BuildOptions,
) -> bool {
    let c = b.selection.chosen@;
    let total = sum_at(available, c);
    let n = c.len();
    let seq = if opts.enable_rbf { SEQUENCE_RBF } else { SEQUENCE_FINAL };
    &&& b.selection.selected_value == total
    &&& b.tx.version == 1 && b.tx.lock_time == 0
    &&& b.tx.inputs@.len() == n
    &&& forall|i: int| 0 <= i < n ==> #[trigger] b.tx.inputs@[i] == (TxIn {
        previous_output: available[c[i] as int].outpoint,
        sequence: seq,
    })
    &&& b.tx.outputs@.len() >= 1
    &&& b.tx.outputs@[0].value == amount && b.tx.outputs@[0].script_pubkey@ == recipient
    &&& b.details.sent == amount
    &&& if has_change(total, amount, k, n, opts.fee_rate as nat) {
        &&& b.tx.outputs@.len() == 2
        &&& b.tx.outputs@[1].script_pubkey@ == change_script
        &&& b.tx.outputs@[1].value == change_remainder(total, amount, k, n, opts.fee_rate as nat)
        &&& b.details.change == b.tx.outputs@[1].value
        &&& b.details.fee == fee_for(k, n, 2, opts.fee_rate as nat)
    } else {
        &&& b.tx.outputs@.len() == 1
        &&& b.details.change == 0
        &&& b.details.fee == total - amount
    }
}

/// Builds an unsigned payment of `amount` to `recipient`, funded by the coins
/// of `available` that `strategy` picks. A change output to
/// `change_script` is added only above the dust threshold, and then the change
/// chain's next unused index advances by one. A change output that would need
/// a hardened index fails with `InvalidIndex`.
#[verifier::loop_isolation(false)]
pub fn build_tx<S: CoinSelector>(
    strategy: &S,
    available: &Vec<Utxo>,
    recipient: Vec<u8>,
    amount: u64,
    change_script: Vec<u8>,
    next_change_index: &mut u32,
    kind: ScriptKind,
    opts: BuildOptions,
) -> (r: Result<BuiltTx, WalletError>)
    requires
        total_value(available@) <= u64::MAX,
    ensures
        !standard_script(recipient@) ==> r == Err::<BuiltTx, WalletError>(
            WalletError::InvalidRecipient,
        ),
        standard_script(recipient@) ==> match r {
            Ok(b) => {
                &&& selection_outcome(
                    available@,
                    amount as nat,
                    kind,
                    opts.fee_rate as nat,
                    Ok::<CoinSelection, WalletError>(b.selection),
                )
                &&& built_from(available@, b, recipient@, amount as nat, change_script@, kind, opts)
                &&& *final(next_change_index) == *old(next_change_index) + if b.tx.outputs@.len()
                    == 2 {
                    1int
                } else {
                    0
                }
            },
            Err(e) => if e == WalletError::InvalidIndex {
                &&& *old(next_change_index) >= HARDENED_START
                &&& exists|s: CoinSelection|
                    selection_outcome(
                        available@,
                        amount as nat,
                        kind,
                        opts.fee_rate as nat,
                        Ok::<CoinSelection, WalletError>(s),
                    ) && has_change(
                        sum_at(available@, s.chosen@),
                        amount as nat,
                        kind,
                        s.chosen@.len(),
                        opts.fee_rate as nat,
                    )
            } else {
                &&& shortfall_of(available@, amount as nat, kind, opts.fee_rate as nat) > 0
                &&& no_prefix_covers(available@, amount as nat, kind, opts.fee_rate as nat)
                &&& e == select_error(available@, amount as nat, kind, opts.fee_rate as nat)
            },
        },
        r is Err ==> *final(next_change_index) == *old(next_change_index),
{
    if !is_standard_script(&recipient) {
        return Err(WalletError::InvalidRecipient);
    }
    let sel = match strategy.select(available, amount, kind, opts.fee_rate) {
        Ok(s) => s,
        Err(e) => return Err(e),
    };
    let seq = if opts.enable_rbf { SEQUENCE_RBF } else { SEQUENCE_FINAL };
    let mut inputs: Vec<TxIn> = Vec::new();
    let mut i: usize = 0;
    while i < sel.chosen.len()
        invariant
            i <= sel.chosen@.len(),
            inputs@.len() == i,
            forall|j: int| 0 <= j < i ==> #[trigger] inputs@[j] == (TxIn {
                previous_output: available@[sel.chosen@[j] as int].outpoint,
                sequence: seq,
            }),
        decreases sel.chosen@.len() - i,
    {
        let idx = sel.chosen[i];
        inputs.push(TxIn { previous_output: available[idx].outpoint, sequence: seq });
        i = i + 1;
    }
    let total = sel.selected_value;
    let n = sel.chosen.len();
    let fee2 = estimate_fee(kind, n, 2, opts.fee_rate);
    let mut outputs: Vec<TxOut> = Vec::new();
    outputs.push(TxOut { value: amount, script_pubkey: recipient });
    let details;
    if (total as u128) >= (amount as u128) + fee2 && (total as u128) - (amount as u128) - fee2
        > DUST_THRESHOLD as u128 {
        if *next_change_index >= HARDENED_START {
            assert(selection_outcome(
                available@,
                amount as nat,
                kind,
                opts.fee_rate as nat,
                Ok::<CoinSelection, WalletError>(sel),
            ));
            return Err(WalletError::InvalidIndex);
        }
        let change = ((total as u128) - (amount as u128) - fee2) as u64;
        outputs.push(TxOut { value: change, script_pubkey: change_script });
        *next_change_index = *next_change_index + 1;
        details = TxDetails { fee: fee2 as u64, sent: amount, change };
    } else {
        details = TxDetails { fee: total - amount, sent: amount, change: 0 };
    }
    Ok(
        BuiltTx {
            tx: UnsignedTx { version: 1, lock_time: 0, inputs, outputs },
            details,
            selection: sel,
        },
    )
}

/// The error that selection reports when the coins cannot cover a payment.
pub open spec fn select_error(u: Seq<Utxo>, target: nat, k: ScriptKind, rate: nat) -> WalletError {
    WalletError::InsufficientFunds {
        shortfall: (target + fee_for(k, u.len(), 1, rate) - total_value(u)) as u128,
    }
}

} // verus!
