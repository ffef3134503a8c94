use vstd::prelude::*;
use crate::fee::{fee_for, ScriptKind, DUST_THRESHOLD};
use crate::psbt::{all_final, finalize_step, is_final, PsbtInput};
use crate::select::{covers, largest_first, sum_at};
use crate::tx::{built_from, change_remainder, BuildOptions, BuiltTx};
use crate::utxo::{
    confirmed_balance_of, lemma_tally_push, lemma_tally_remove, unconfirmed_balance_of, Tally, Utxo,
};

verus! {

/// Adding a coin raises the confirmed balance by exactly its value when it is
/// confirmed, and leaves it unchanged otherwise; likewise for the unconfirmed
/// balance.
pub proof fn law_balance_insert(s: Seq<Utxo>, u: Utxo)
    ensures
        confirmed_balance_of(s.push(u)) == confirmed_balance_of(s) + if u.confirmations >= 1 {
            u.value as nat
        } else {
            0
        },
        unconfirmed_balance_of(s.push(u)) == unconfirmed_balance_of(s) + if u.confirmations == 0 {
            u.value as nat
        } else {
            0
        },
{
    lemma_tally_push(s, u, Tally::Confirmed);
    lemma_tally_push(s, u, Tally::Unconfirmed);
}

/// Removing a coin lowers the confirmed balance by exactly its value when it
/// is confirmed, and leaves it unchanged otherwise; likewise for the
/// unconfirmed balance.
pub proof fn law_balance_remove(s: Seq<Utxo>, i: int)
    requires
        0 <= i < s.len(),
    ensures
        confirmed_balance_of(s) == confirmed_balance_of(s.remove(i)) + if s[i].confirmations >= 1 {
            s[i].value as nat
        } else {
            0
        },
        unconfirmed_balance_of(s) == unconfirmed_balance_of(s.remove(i)) + if s[i].confirmations
            == 0 {
            s[i].value as nat
        } else {
            0
        },
{
    lemma_tally_remove(s, i, Tally::Confirmed);
    lemma_tally_remove(s, i, Tally::Unconfirmed);
}

/// A selection pays the target and the fee of spending the chosen coins.
pub proof fn law_selection_sufficient(u: Seq<Utxo>, c: Seq<usize>, target: nat, k: ScriptKind, rate: nat)
    requires
        largest_first(u, c, target, k, rate),
    ensures
        sum_at(u, c) >= target + fee_for(k, c.len(), 1, rate),
{
}

/// Finalization never takes an input out of the finalized state, and leaves a
/// finalized input exactly as it was.
pub proof fn law_finalize_monotonic(o: PsbtInput, n: PsbtInput)
    requires
        finalize_step(o, n),
    ensures
        is_final(o) ==> n == o,
        is_final(o) ==> is_final(n),
{
}

/// Finalizing a whole PSBT keeps every already-finalized input finalized.
pub proof fn law_finalize_keeps_final(old_inputs: Seq<PsbtInput>, new_inputs: Seq<PsbtInput>)
    requires
        old_inputs.len() == new_inputs.len(),
        forall|k: int| 0 <= k < old_inputs.len() ==> finalize_step(#[trigger] old_inputs[k], new_inputs[k]),
        all_final(old_inputs),
    ensures
        all_final(new_inputs),
{
    assert forall|k: int| 0 <= k < new_inputs.len() implies is_final(#[trigger] new_inputs[k]) by {
        assert(is_final(old_inputs[k]));
    }
}

/// When what would be left for change after the recipient and the fee is not
/// above the dust threshold, the transaction has no change output and the
/// whole remainder goes to the fee.
pub proof fn law_dust_suppressed(
    available: Seq<Utxo>,
    b: BuiltTx,
    recipient: Seq<u8>,
    amount: nat,
    change_script: Seq<u8>,
    k: ScriptKind,
    opts: BuildOptions,
)
    requires
        built_from(available, b, recipient, amount, change_script, k, opts),
        covers(available, b.selection.chosen@, amount, k, opts.fee_rate as nat),
        change_remainder(
            sum_at(available, b.selection.chosen@),
            amount,
            k,
            b.selection.chosen@.len(),
            opts.fee_rate as nat,
        ) <= DUST_THRESHOLD,
    ensures
        b.tx.outputs@.len() == 1,
        b.details.change == 0,
        b.details.fee == sum_at(available, b.selection.chosen@) - amount,
{
}

/// Every built transaction spends exactly what it pays out plus its fee, and
/// its inputs cover the outputs and the fee.
pub proof fn law_value_conserved(
    available: Seq<Utxo>,
    b: BuiltTx,
    recipient: Seq<u8>,
    amount: nat,
    change_script: Seq<u8>,
    k: ScriptKind,
    opts: BuildOptions,
)
    requires
        built_from(available, b, recipient, amount, change_script, k, opts),
        covers(available, b.selection.chosen@, amount, k, opts.fee_rate as nat),
    ensures
        sum_at(available, b.selection.chosen@) == b.details.sent + b.details.change + b.details.fee,
{
}

} // verus!
