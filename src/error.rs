use vstd::prelude::*;

verus! {

/// Every failure the wallet engine reports to its caller.
#[derive(Debug, Clone, PartialEq, Eq)]
pub enum WalletError {
    /// Malformed descriptor text, or a checksum suffix that does not match.
    DescriptorParse,
    /// A child index in the hardened range, which a public key cannot derive.
    InvalidIndex,
    /// The chain source failed during a sync; the UTXO set was left untouched.
    ChainSync,
    /// The available coins do not cover the spend; `shortfall` satoshis are missing.
    InsufficientFunds { shortfall: u128 },
    /// The destination script is not an acceptable output script.
    InvalidRecipient,
    /// The PSBT text or its binary structure is malformed.
    Decode,
    /// A transaction was requested from a PSBT whose inputs are not all finalized.
    NotFinalized,
    /// The chain source rejected a broadcast.
    Broadcast { reason: String },
}

} // verus!
