//! A descriptor-driven Bitcoin wallet engine: UTXO accounting, coin selection,
//! transaction planning, PSBT finalization and the PSBT text transport.
pub mod codec;
pub mod descriptor;
pub mod error;
pub mod fee;
pub mod laws;
pub mod psbt;
pub mod select;
pub mod sync;
pub mod tx;
pub mod utxo;
pub mod wallet;

pub use codec::{accept_psbt_bytes, psbt_from_text, psbt_to_text};
pub use descriptor::{checked_descriptor, recipient_script, descriptor_kind, receive_address, split_checksum, with_checksum};
pub use error::WalletError;
pub use fee::{estimate_fee, ScriptKind, DUST_THRESHOLD, OUTPUT_VBYTES, TX_OVERHEAD_VBYTES};
pub use psbt::{InputState, PartialSig, Psbt, PsbtInput, Transaction, MAX_ELEMENT_SIZE};
pub use select::{select_largest_first, CoinSelection, CoinSelector, LargestFirst};
pub use sync::{ScanWindow, DEFAULT_GAP_LIMIT, HARDENED_START};
pub use tx::{
    build_tx, is_standard_script, BuildOptions, BuiltTx, TxDetails, TxIn, TxOut, UnsignedTx,
    SEQUENCE_FINAL, SEQUENCE_RBF,
};
pub use utxo::{confirmations_at, Chain, OutPoint, Utxo, UtxoIndex};
pub use wallet::Wallet;
