use vstd::prelude::*;

verus! {

/// The script template of the wallet's coins; it fixes how many virtual bytes
/// spending one of them adds to a transaction.
#[derive(Debug, Clone, Copy, PartialEq, Eq, Structural)]
pub enum ScriptKind {
    /// Native witness pubkey-hash.
    Wpkh,
    /// Witness pubkey-hash wrapped in a script hash.
    ShWpkh,
    /// Legacy pubkey-hash.
    Pkh,
}

/// Fixed part of every transaction: version, locktime, counts, segwit marker.
pub const TX_OVERHEAD_VBYTES: u64 = 11;

/// One output paying a witness pubkey-hash script.
pub const OUTPUT_VBYTES: u64 = 31;

/// Smallest change output worth creating; anything not above it goes to the fee.
pub const DUST_THRESHOLD: u64 = 546;

pub open spec fn input_vbytes(k: ScriptKind) -> nat {
    match k {
        ScriptKind::Wpkh => 68,
        ScriptKind::ShWpkh => 91,
        ScriptKind::Pkh => 148,
    }
}

/// Estimated size of a transaction with the given numbers of inputs and outputs.
pub open spec fn tx_vbytes(k: ScriptKind, n_inputs: nat, n_outputs: nat) -> nat {
    (TX_OVERHEAD_VBYTES + n_inputs * input_vbytes(k) + n_outputs * OUTPUT_VBYTES) as nat
}

/// Fee for such a transaction at `rate` satoshis per virtual byte.
pub open spec fn fee_for(k: ScriptKind, n_inputs: nat, n_outputs: nat, rate: nat) -> nat {
    rate * tx_vbytes(k, n_inputs, n_outputs)
}

pub fn input_vbytes_of(k: ScriptKind) -> (r: u64)
    ensures
        r == input_vbytes(k),
{
    match k {
        ScriptKind::Wpkh => 68,
        ScriptKind::ShWpkh => 91,
        ScriptKind::Pkh => 148,
    }
}

/// The estimated fee, computed exactly.
pub fn estimate_fee(k: ScriptKind, n_inputs: usize, n_outputs: usize, rate: u32) -> (r: u128)
    ensures
        r == fee_for(k, n_inputs as nat, n_outputs as nat, rate as nat),
        r < 0x1_0000_0000_0000_0000_0000_0000_0000,
{
    let ivb = input_vbytes_of(k);
    let ni = n_inputs as u128;
    let no = n_outputs as u128;
    assert(ni * (ivb as u128) <= 0xffff_ffff_ffff_ffff * 148) by (nonlinear_arith)
        requires
            ni <= 0xffff_ffff_ffff_ffff,
            ivb <= 148,
    ;
    assert(no * 31 <= 0xffff_ffff_ffff_ffff * 31) by (nonlinear_arith)
        requires
            no <= 0xffff_ffff_ffff_ffff,
    ;
    let vb: u128 = 11 + ni * (ivb as u128) + no * 31;
    let rr = rate as u128;
    assert(rr * vb < 0x1_0000_0000_0000_0000_0000_0000_0000) by (nonlinear_arith)
        requires
            rr <= 0xffff_ffff,
            vb <= 0xffff_ffff_ffff_ffff * 180 + 11,
    ;
    rr * vb
}

} // verus!
