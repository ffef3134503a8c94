use descriptor_wallet::{
    accept_psbt_bytes, build_tx, checked_descriptor, confirmations_at, descriptor_kind, estimate_fee, is_standard_script,
    psbt_from_text, psbt_to_text, receive_address, recipient_script, select_largest_first, split_checksum,
    with_checksum, BuildOptions, Chain, LargestFirst, InputState, OutPoint, PartialSig, Psbt, PsbtInput,
    ScriptKind, TxIn, TxOut, UnsignedTx, Utxo, UtxoIndex, Wallet, WalletError, SEQUENCE_FINAL,
    SEQUENCE_RBF,
};

const TPUB_DESC: &str = "wpkh(tpubD6NzVbkrYhZ4XHndKkuB8FifXm8r5FQHwrN6oZuWCz13qb93rtgKvD4PQsqC4HP4yhV3tA2fqr2RbY5mNXfM7RxXUoeABoDtsFUq2zJq6YK/0/*)";

fn coin(tag: u8, vout: u32, value: u64, confirmations: u32) -> Utxo {
    Utxo {
        outpoint: OutPoint { txid: [tag; 32], vout },
        value,
        script_pubkey: wpkh_script(tag),
        confirmations,
        derivation_index: vout,
        chain: Chain::External,
    }
}

fn wpkh_script(tag: u8) -> Vec<u8> {
    let mut s = vec![0x00, 0x14];
    s.extend(std::iter::repeat(tag).take(20));
    s
}

fn owned(w: &Wallet, mut u: Utxo) -> Utxo {
    u.script_pubkey = w.script_at(u.chain, u.derivation_index).unwrap();
    u
}

fn opts(rate: u32) -> BuildOptions {
    BuildOptions { fee_rate: rate, enable_rbf: true }
}

#[test]
fn confirmed_balance_of_two_coins() {
    let mut idx = UtxoIndex::new();
    assert!(idx.insert(coin(1, 0, 10_000, 2)));
    assert!(idx.insert(coin(2, 0, 5_000, 1)));
    assert_eq!(idx.confirmed_balance(), 15_000);
    assert_eq!(idx.unconfirmed_balance(), 0);
}

#[test]
fn balance_changes_by_inserted_and_removed_value() {
    let mut idx = UtxoIndex::new();
    assert!(idx.insert(coin(1, 0, 10_000, 2)));
    assert!(idx.insert(coin(3, 0, 700, 0)));
    assert_eq!(idx.confirmed_balance(), 10_000);
    assert_eq!(idx.unconfirmed_balance(), 700);
    assert!(idx.insert(coin(2, 0, 5_000, 1)));
    assert_eq!(idx.confirmed_balance(), 15_000);
    let removed = idx.remove(&OutPoint { txid: [1; 32], vout: 0 }).unwrap();
    assert_eq!(removed.value, 10_000);
    assert_eq!(idx.confirmed_balance(), 5_000);
    assert!(idx.remove(&OutPoint { txid: [9; 32], vout: 0 }).is_none());
    assert_eq!(idx.len(), 2);
    assert_eq!(idx.total_value(), 5_700);
}

#[test]
fn insert_refused_past_u64() {
    let mut idx = UtxoIndex::new();
    assert!(idx.insert(coin(1, 0, u64::MAX, 1)));
    assert!(!idx.insert(coin(2, 0, 1, 1)));
    assert_eq!(idx.len(), 1);
}

#[test]
fn failed_sync_keeps_previous_set() {
    let mut idx = UtxoIndex::new();
    assert!(idx.insert(coin(1, 0, 10_000, 2)));
    assert_eq!(idx.apply_sync(None), Err(WalletError::ChainSync));
    assert_eq!(idx.confirmed_balance(), 10_000);
    assert_eq!(idx.apply_sync(Some(vec![coin(4, 0, 1, 1), coin(5, 1, 2, 0)])), Ok(()));
    assert_eq!(idx.list_unspent().len(), 2);
    assert_eq!(idx.list_unspent()[1].outpoint.vout, 1);
    assert_eq!(idx.confirmed_balance(), 1);
    let overflow = vec![coin(4, 0, u64::MAX, 1), coin(5, 1, 2, 0)];
    assert_eq!(idx.apply_sync(Some(overflow)), Err(WalletError::ChainSync));
    assert_eq!(idx.total_value(), 3);
}

#[test]
fn fee_estimate_exact() {
    // 11 + 68 + 2 * 31 virtual bytes
    assert_eq!(estimate_fee(ScriptKind::Wpkh, 1, 2, 1), 141);
    assert_eq!(estimate_fee(ScriptKind::ShWpkh, 2, 1, 3), 3 * (11 + 182 + 31));
    assert_eq!(estimate_fee(ScriptKind::Pkh, 0, 0, 0), 0);
}

#[test]
fn selection_is_largest_first_with_tie_break() {
    let coins = vec![coin(5, 0, 1_000, 1), coin(3, 1, 4_000, 1), coin(2, 0, 4_000, 1), coin(1, 0, 500, 1)];
    let sel = select_largest_first(&coins, 6_000, ScriptKind::Wpkh, 1).unwrap();
    // two 4000 coins, the smaller txid first; 8000 >= 6000 + 11 + 136 + 31
    assert_eq!(sel.chosen, vec![2, 1]);
    assert_eq!(sel.selected_value, 8_000);
}

#[test]
fn selection_stops_at_first_sufficient_prefix() {
    let coins = vec![coin(1, 0, 2_000, 1), coin(2, 0, 9_000, 1)];
    let sel = select_largest_first(&coins, 3_000, ScriptKind::Wpkh, 1).unwrap();
    assert_eq!(sel.chosen, vec![1]);
}

#[test]
fn selection_reports_exact_shortfall() {
    let coins = vec![coin(1, 0, 1_000, 1)];
    let err = select_largest_first(&coins, 3_000, ScriptKind::Wpkh, 1).unwrap_err();
    // 3000 + (11 + 68 + 31) - 1000
    assert_eq!(err, WalletError::InsufficientFunds { shortfall: 2_110 });
    let none: Vec<Utxo> = Vec::new();
    let err = select_largest_first(&none, 0, ScriptKind::Wpkh, 2).unwrap_err();
    assert_eq!(err, WalletError::InsufficientFunds { shortfall: 84 });
}

#[test]
fn send_with_change_output() {
    let coins = vec![coin(1, 0, 10_000, 3)];
    let mut next_change = 0u32;
    let built = build_tx(&LargestFirst, &coins, wpkh_script(7), 3_000, wpkh_script(8), &mut next_change, ScriptKind::Wpkh, opts(1)).unwrap();
    assert_eq!(built.selection.chosen, vec![0]);
    assert_eq!(built.tx.inputs.len(), 1);
    assert_eq!(built.tx.inputs[0], TxIn { previous_output: coins[0].outpoint, sequence: SEQUENCE_RBF });
    assert_eq!(built.tx.outputs.len(), 2);
    assert_eq!(built.tx.outputs[0], TxOut { value: 3_000, script_pubkey: wpkh_script(7) });
    assert_eq!(built.tx.outputs[1].value, 6_859);
    assert_eq!(built.tx.outputs[1].script_pubkey, wpkh_script(8));
    assert_eq!(built.details.fee, 141);
    assert_eq!(built.details.sent, 3_000);
    assert_eq!(built.details.change, 6_859);
    assert_eq!(next_change, 1);
}

#[test]
fn send_against_too_small_wallet() {
    let coins = vec![coin(1, 0, 1_000, 3)];
    let mut next_change = 4u32;
    let err = build_tx(&LargestFirst, &coins, wpkh_script(7), 3_000, wpkh_script(8), &mut next_change, ScriptKind::Wpkh, opts(1)).unwrap_err();
    assert_eq!(err, WalletError::InsufficientFunds { shortfall: 2_110 });
    assert_eq!(next_change, 4);
}

#[test]
fn dust_remainder_goes_to_fee() {
    // 3000 + 141 + 546 = 3687 leaves exactly the dust threshold
    let coins = vec![coin(1, 0, 3_687, 3)];
    let mut next_change = 0u32;
    let built = build_tx(&LargestFirst, &coins, wpkh_script(7), 3_000, wpkh_script(8), &mut next_change, ScriptKind::Wpkh,
        BuildOptions { fee_rate: 1, enable_rbf: false }).unwrap();
    assert_eq!(built.tx.outputs.len(), 1);
    assert_eq!(built.details.fee, 687);
    assert_eq!(built.details.change, 0);
    assert_eq!(built.tx.inputs[0].sequence, SEQUENCE_FINAL);
    assert_eq!(next_change, 0);
    let coins = vec![coin(1, 0, 3_688, 3)];
    let built = build_tx(&LargestFirst, &coins, wpkh_script(7), 3_000, wpkh_script(8), &mut next_change, ScriptKind::Wpkh, opts(1)).unwrap();
    assert_eq!(built.tx.outputs.len(), 2);
    assert_eq!(built.details.change, 547);
}

#[test]
fn invalid_recipient_rejected() {
    let coins = vec![coin(1, 0, 10_000, 3)];
    let mut next_change = 0u32;
    let err = build_tx(&LargestFirst, &coins, vec![0x6a, 0x01, 0x00], 3_000, wpkh_script(8), &mut next_change, ScriptKind::Wpkh, opts(1)).unwrap_err();
    assert_eq!(err, WalletError::InvalidRecipient);
    assert!(is_standard_script(&wpkh_script(1)));
    let mut p2pkh = vec![0x76, 0xa9, 0x14];
    p2pkh.extend([0u8; 20]);
    p2pkh.extend([0x88, 0xac]);
    assert!(is_standard_script(&p2pkh));
    assert!(!is_standard_script(&Vec::new()));
}

fn two_input_psbt() -> Psbt {
    let tx = UnsignedTx {
        version: 1,
        lock_time: 0,
        inputs: vec![
            TxIn { previous_output: OutPoint { txid: [1; 32], vout: 0 }, sequence: SEQUENCE_RBF },
            TxIn { previous_output: OutPoint { txid: [2; 32], vout: 1 }, sequence: SEQUENCE_RBF },
        ],
        outputs: vec![TxOut { value: 3_000, script_pubkey: wpkh_script(7) }],
    };
    Psbt::for_signing(tx, ScriptKind::Wpkh, &Vec::new()).unwrap()
}

#[test]
fn finalize_with_missing_signature() {
    let mut psbt = two_input_psbt();
    assert_eq!(psbt.inputs[0].state(), InputState::Unsigned);
    psbt.inputs[0].partial_sigs.push(PartialSig { pubkey: vec![2; 33], signature: vec![0x30; 71] });
    assert_eq!(psbt.inputs[0].state(), InputState::PartiallySigned);
    assert!(!psbt.finalize());
    assert_eq!(psbt.inputs[0].state(), InputState::Finalized);
    assert_eq!(psbt.inputs[1].state(), InputState::Unsigned);
    assert!(!psbt.is_fully_finalized());
    assert_eq!(psbt.extract_tx().unwrap_err(), WalletError::NotFinalized);
}

#[test]
fn finalize_builds_witness_and_is_idempotent() {
    let mut psbt = two_input_psbt();
    for i in 0..2 {
        psbt.inputs[i].partial_sigs.push(PartialSig { pubkey: vec![2; 33], signature: vec![0x30 + i as u8; 71] });
    }
    assert!(psbt.finalize());
    let w = psbt.inputs[1].final_script_witness.clone().unwrap();
    assert_eq!(w, vec![vec![0x31; 71], vec![2; 33]]);
    assert!(psbt.inputs[1].final_script_sig.is_none());
    assert!(psbt.inputs[1].partial_sigs.is_empty());
    let before = psbt.clone();
    assert!(psbt.finalize());
    assert_eq!(psbt, before);
    let tx = psbt.extract_tx().unwrap();
    assert_eq!(tx.inputs.len(), 2);
    assert_eq!(tx.witnesses[0], vec![vec![0x30; 71], vec![2; 33]]);
    assert_eq!(tx.script_sigs[0], Vec::<u8>::new());
    assert_eq!(tx.outputs[0].value, 3_000);
}

#[test]
fn finalize_legacy_and_wrapped_inputs() {
    let mut pkh = PsbtInput::new(ScriptKind::Pkh, None);
    pkh.partial_sigs.push(PartialSig { pubkey: vec![3; 33], signature: vec![0x30; 72] });
    let mut wrapped_missing = PsbtInput::new(ScriptKind::ShWpkh, None);
    wrapped_missing.partial_sigs.push(PartialSig { pubkey: vec![3; 33], signature: vec![0x30; 72] });
    let mut wrapped = PsbtInput::new(ScriptKind::ShWpkh, Some(wpkh_script(4)));
    wrapped.partial_sigs.push(PartialSig { pubkey: vec![3; 33], signature: vec![0x30; 72] });
    let mut psbt = two_input_psbt();
    psbt.inputs = vec![pkh, wrapped_missing, wrapped];
    assert!(!psbt.finalize());
    let mut expected = vec![72u8];
    expected.extend(vec![0x30; 72]);
    expected.push(33);
    expected.extend(vec![3; 33]);
    assert_eq!(psbt.inputs[0].final_script_sig, Some(expected));
    assert!(psbt.inputs[0].final_script_witness.is_none());
    assert_eq!(psbt.inputs[1].state(), InputState::PartiallySigned);
    let mut redeem_push = vec![22u8];
    redeem_push.extend(wpkh_script(4));
    assert_eq!(psbt.inputs[2].final_script_sig, Some(redeem_push));
    assert_eq!(psbt.inputs[2].final_script_witness, Some(vec![vec![0x30; 72], vec![3; 33]]));
}

fn real_psbt_bytes() -> Vec<u8> {
    let tx = bdk::bitcoin::Transaction {
        version: 1,
        lock_time: 0,
        input: vec![bdk::bitcoin::TxIn {
            previous_output: bdk::bitcoin::OutPoint::default(),
            script_sig: bdk::bitcoin::Script::new(),
            sequence: 0xffff_fffd,
            witness: Vec::new(),
        }],
        output: vec![bdk::bitcoin::TxOut { value: 3_000, script_pubkey: bdk::bitcoin::Script::from(wpkh_script(7)) }],
    };
    let psbt = bdk::bitcoin::util::psbt::PartiallySignedTransaction::from_unsigned_tx(tx).unwrap();
    bdk::bitcoin::consensus::encode::serialize(&psbt)
}

#[test]
fn psbt_text_round_trip() {
    let bytes = real_psbt_bytes();
    assert_eq!(&bytes[..5], &[0x70, 0x73, 0x62, 0x74, 0xff]);
    let text = psbt_to_text(&bytes);
    assert!(text.starts_with("cHNidP8B"));
    assert_eq!(psbt_from_text(&text), Ok(bytes));
}

#[test]
fn malformed_psbt_structure_is_decode_error() {
    let bytes = vec![0x70, 0x73, 0x62, 0x74, 0xff, 0x01, 0x00, 0x42];
    assert_eq!(psbt_to_text(&bytes), "cHNidP8BAEI=");
    assert_eq!(psbt_from_text("cHNidP8BAEI="), Err(WalletError::Decode));
    assert_eq!(accept_psbt_bytes(Some(bytes)), Err(WalletError::Decode));
    let mut cut = real_psbt_bytes();
    cut.pop();
    assert_eq!(accept_psbt_bytes(Some(cut)), Err(WalletError::Decode));
}

#[test]
fn malformed_base64_is_decode_error() {
    assert_eq!(psbt_from_text("not base64 !!"), Err(WalletError::Decode));
    // valid base64 of "hello", which lacks the magic
    assert_eq!(psbt_from_text("aGVsbG8="), Err(WalletError::Decode));
    assert_eq!(accept_psbt_bytes(None), Err(WalletError::Decode));
    assert_eq!(accept_psbt_bytes(Some(vec![0x70, 0x73, 0x62, 0x74])), Err(WalletError::Decode));
}

#[test]
fn descriptor_checksum_checked() {
    let body = "pkh(tpubD6NzVbkrYhZ4XHndKkuB8FifXm8r5FQHwrN6oZuWCz13qb93rtgKvD4PQsqC4HP4yhV3tA2fqr2RbY5mNXfM7RxXUoeABoDtsFUq2zJq6YK/44'/1'/0'/0/*)";
    let chars: Vec<char> = body.chars().collect();
    let canonical: String = checked_descriptor(&chars).unwrap().into_iter().collect();
    assert_eq!(canonical, format!("{}#lasegmfs", body));
    let with_good: Vec<char> = format!("{}#lasegmfs", body).chars().collect();
    let again: String = checked_descriptor(&with_good).unwrap().into_iter().collect();
    assert_eq!(again, canonical);
    let with_bad: Vec<char> = format!("{}#lasegmfx", body).chars().collect();
    assert_eq!(checked_descriptor(&with_bad), Err(WalletError::DescriptorParse));
    let odd: Vec<char> = "wpkh(\u{1F496})".chars().collect();
    assert_eq!(checked_descriptor(&odd), Err(WalletError::DescriptorParse));
}

#[test]
fn descriptor_split_and_check_pieces() {
    let (b, s) = split_checksum(&"ab#cd#e".chars().collect());
    assert_eq!(b, vec!['a', 'b']);
    assert_eq!(s, Some(vec!['c', 'd', '#', 'e']));
    let r = with_checksum(vec!['x'], Some(vec!['y']), Some(vec!['z']));
    assert_eq!(r, Err(WalletError::DescriptorParse));
    let r = with_checksum(vec!['x'], None, Some(vec!['z']));
    assert_eq!(r, Ok(vec!['x', '#', 'z']));
    assert_eq!(with_checksum(vec!['x'], None, None), Err(WalletError::DescriptorParse));
}

#[test]
fn receive_address_is_reproducible() {
    let d: Vec<char> = TPUB_DESC.chars().collect();
    let a = receive_address(&d, 5).unwrap();
    let b = receive_address(&d, 5).unwrap();
    assert_eq!(a, b);
    assert!(a.starts_with("tb1q"));
    assert_ne!(a, receive_address(&d, 6).unwrap());
    let bad: Vec<char> = "wpkh(nonsense)".chars().collect();
    assert_eq!(receive_address(&bad, 0), Err(WalletError::DescriptorParse));
}

#[test]
fn receive_address_refuses_hardened_index() {
    let d: Vec<char> = TPUB_DESC.chars().collect();
    assert_eq!(receive_address(&d, 0x8000_0000), Err(WalletError::InvalidIndex));
    assert_eq!(receive_address(&d, u32::MAX), Err(WalletError::InvalidIndex));
    assert!(receive_address(&d, 0x7fff_ffff).is_ok());
}

#[test]
fn scan_window_stops_after_gap() {
    let mut w = descriptor_wallet::ScanWindow::new(3);
    assert!(w.pending());
    // history at index 1 extends the window to index 4
    let pattern = [false, true, false, false];
    for used in pattern {
        assert!(w.record(used));
    }
    assert_eq!(w.last_used(), Some(1));
    assert_eq!(w.next_index(), 4);
    assert!(!w.record(false));
    assert_eq!(w.next_index(), 5);
}

#[test]
fn scan_window_empty_chain() {
    let mut w = descriptor_wallet::ScanWindow::new(descriptor_wallet::DEFAULT_GAP_LIMIT);
    let mut queried = 1;
    while w.record(false) {
        queried += 1;
    }
    assert_eq!(queried, 100);
    assert_eq!(w.last_used(), None);
    let none = descriptor_wallet::ScanWindow::new(0);
    assert!(!none.pending());
}

#[test]
fn descriptor_kind_dispatch() {
    let k = |s: &str| descriptor_kind(&s.chars().collect());
    assert_eq!(k(TPUB_DESC), Ok(ScriptKind::Wpkh));
    assert_eq!(k("sh(wpkh(xpub/0/*))"), Ok(ScriptKind::ShWpkh));
    assert_eq!(k("pkh(xpub/0/*)"), Ok(ScriptKind::Pkh));
    assert_eq!(k("tr(xpub/0/*)"), Err(WalletError::DescriptorParse));
    assert_eq!(k(""), Err(WalletError::DescriptorParse));
}

#[test]
fn extract_carries_unlocking_data() {
    let mut psbt = two_input_psbt();
    psbt.inputs[0].kind = ScriptKind::Pkh;
    for i in 0..2 {
        psbt.inputs[i].partial_sigs.push(PartialSig { pubkey: vec![5; 33], signature: vec![9; 70] });
    }
    assert!(psbt.finalize());
    let tx = psbt.extract_tx().unwrap();
    assert_eq!(tx.script_sigs[0].len(), 1 + 70 + 1 + 33);
    assert!(tx.witnesses[0].is_empty());
    assert!(tx.script_sigs[1].is_empty());
    assert_eq!(tx.witnesses[1], vec![vec![9; 70], vec![5; 33]]);
    assert_eq!(tx.inputs, psbt.unsigned_tx.inputs);
    assert_eq!(tx.outputs, psbt.unsigned_tx.outputs);
}

#[test]
fn wallet_open_and_send() {
    let desc: Vec<char> = TPUB_DESC.chars().collect();
    let change: Vec<char> = TPUB_DESC.replace("/0/*", "/1/*").chars().collect();
    let mut w = Wallet::open(&desc, Some(&change)).unwrap();
    assert_eq!(w.kind, ScriptKind::Wpkh);
    assert_eq!(w.descriptor[..TPUB_DESC.len()].iter().collect::<String>(), TPUB_DESC);
    assert_eq!(w.descriptor.len(), TPUB_DESC.len() + 9);
    assert!(w.change_descriptor.is_some());
    assert_eq!(w.record_sync(Some(vec![owned(&w, coin(1, 0, 10_000, 3))]), &Vec::new()), Ok(()));
    assert_eq!(w.next_external, 1);
    let built = w.send(&LargestFirst, wpkh_script(7), 3_000, wpkh_script(8), opts(1)).unwrap();
    assert_eq!(built.details.change, 6_859);
    assert_eq!(w.next_internal, 1);
    assert_eq!(w.next_external, 1);
    let err = w.send(&LargestFirst, wpkh_script(7), 30_000, wpkh_script(8), opts(1)).unwrap_err();
    assert_eq!(err, WalletError::InsufficientFunds { shortfall: 20_110 });
    assert_eq!(w.next_internal, 1);
}

#[test]
fn wallet_open_rejects_bad_descriptors() {
    let bad_sum: Vec<char> = format!("{}#aaaaaaaa", TPUB_DESC).chars().collect();
    assert_eq!(Wallet::open(&bad_sum, None).err(), Some(WalletError::DescriptorParse));
    let taproot: Vec<char> = "tr(abc)".chars().collect();
    assert_eq!(Wallet::open(&taproot, None).err(), Some(WalletError::DescriptorParse));
    let desc: Vec<char> = TPUB_DESC.chars().collect();
    assert_eq!(Wallet::open(&desc, Some(&bad_sum)).err(), Some(WalletError::DescriptorParse));
}

#[test]
fn wallet_open_rejects_unparsable_key() {
    let raw: Vec<char> = "wpkh(tpubNOTAKEY/0/*)".chars().collect();
    let with_sum = checked_descriptor(&raw).unwrap();
    assert_eq!(Wallet::open(&with_sum, None).err(), Some(WalletError::DescriptorParse));
}

#[test]
fn record_sync_moves_next_indices_past_used() {
    let desc: Vec<char> = TPUB_DESC.chars().collect();
    let change: Vec<char> = TPUB_DESC.replace("/0/*", "/1/*").chars().collect();
    let mut w = Wallet::open(&desc, Some(&change)).unwrap();
    let mut change_coin = coin(2, 0, 500, 1);
    change_coin.chain = Chain::Internal;
    change_coin.derivation_index = 4;
    let mut far = coin(3, 9, 700, 0);
    far.derivation_index = 9;
    assert_eq!(w.record_sync(Some(vec![owned(&w, coin(1, 2, 10_000, 3)), owned(&w, change_coin), owned(&w, far)]), &Vec::new()), Ok(()));
    assert_eq!(w.next_external, 10);
    assert_eq!(w.next_internal, 5);
    assert_eq!(w.utxos.total_value(), 11_200);
    // an index whose outputs were all spent still counts as used
    let history = vec![(Chain::External, 14), (Chain::Internal, 7)];
    assert_eq!(w.record_sync(Some(vec![owned(&w, coin(1, 0, 1, 1))]), &history), Ok(()));
    assert_eq!(w.next_external, 15);
    assert_eq!(w.next_internal, 8);
    let mut hardened = coin(4, 0, 1, 1);
    hardened.derivation_index = 0x8000_0000;
    assert_eq!(w.record_sync(Some(vec![hardened]), &Vec::new()), Err(WalletError::ChainSync));
    assert_eq!(w.record_sync(None, &Vec::new()), Err(WalletError::ChainSync));
    let dup = vec![owned(&w, coin(5, 0, 1, 1)), owned(&w, coin(5, 0, 2, 1))];
    assert_eq!(w.record_sync(Some(dup), &Vec::new()), Err(WalletError::ChainSync));
    assert_eq!(w.utxos.total_value(), 1);
    assert_eq!(w.next_external, 15);
}

#[test]
fn record_sync_refuses_internal_data_without_change_descriptor() {
    let desc: Vec<char> = TPUB_DESC.chars().collect();
    let mut w = Wallet::open(&desc, None).unwrap();
    let mut change_coin = coin(2, 0, 500, 1);
    change_coin.chain = Chain::Internal;
    assert_eq!(w.record_sync(Some(vec![change_coin]), &Vec::new()), Err(WalletError::ChainSync));
    assert_eq!(w.record_sync(Some(Vec::new()), &vec![(Chain::Internal, 0)]), Err(WalletError::ChainSync));
    assert_eq!(w.utxos.len(), 0);
}

#[test]
fn index_refuses_repeated_outpoint() {
    let mut idx = UtxoIndex::new();
    assert!(idx.insert(coin(1, 0, 10, 1)));
    assert!(!idx.insert(coin(1, 0, 20, 1)));
    assert!(idx.insert(coin(1, 1, 20, 1)));
    assert_eq!(idx.total_value(), 30);
    let twice = vec![coin(1, 0, 10, 1), coin(1, 0, 10, 1)];
    assert_eq!(idx.apply_sync(Some(twice)), Err(WalletError::ChainSync));
    assert_eq!(idx.len(), 2);
}

#[test]
fn confirmations_from_heights() {
    assert_eq!(confirmations_at(100, None), 0);
    assert_eq!(confirmations_at(100, Some(100)), 1);
    assert_eq!(confirmations_at(100, Some(91)), 10);
    assert_eq!(confirmations_at(100, Some(101)), 0);
    assert_eq!(confirmations_at(u32::MAX, Some(0)), u32::MAX);
}

#[test]
fn wallet_open_rejects_other_change_kind() {
    let desc: Vec<char> = TPUB_DESC.chars().collect();
    let pkh: Vec<char> = TPUB_DESC.replace("wpkh(", "pkh(").replace("/0/*", "/1/*").chars().collect();
    assert!(Wallet::open(&pkh, None).is_ok());
    assert_eq!(Wallet::open(&desc, Some(&pkh)).err(), Some(WalletError::DescriptorParse));
    let wsh: Vec<char> = TPUB_DESC.replace("wpkh(", "wsh(pk(").replace("/0/*)", "/1/*))").chars().collect();
    assert!(receive_address(&wsh, 0).is_ok());
    assert_eq!(Wallet::open(&desc, Some(&wsh)).err(), Some(WalletError::DescriptorParse));
}

fn key_at_depth(depth: u8) -> String {
    let key = TPUB_DESC.trim_start_matches("wpkh(").trim_end_matches("/0/*)");
    let mut x: bdk::bitcoin::util::bip32::ExtendedPubKey = key.parse().unwrap();
    x.depth = depth;
    x.to_string()
}

#[test]
fn too_deep_key_is_refused_not_derived() {
    let deep: Vec<char> = format!("wpkh({}/0/*)", key_at_depth(255)).chars().collect();
    assert_eq!(receive_address(&deep, 0), Err(WalletError::DescriptorParse));
    assert_eq!(Wallet::open(&deep, None).err(), Some(WalletError::DescriptorParse));
    let edge: Vec<char> = format!("wpkh({}/0/*)", key_at_depth(253)).chars().collect();
    assert!(receive_address(&edge, 3).is_ok());
}

#[test]
fn largest_first_succeeds_where_whole_set_falls_short() {
    // one coin covers 9880 + 110; adding the second would cost more than it brings
    let coins = vec![coin(1, 0, 10_000, 1), coin(2, 0, 1, 1)];
    let sel = select_largest_first(&coins, 9_880, ScriptKind::Wpkh, 1).unwrap();
    assert_eq!(sel.chosen, vec![0]);
}

#[test]
fn wrapped_inputs_carry_redeem_scripts() {
    let tx = two_input_psbt().unsigned_tx;
    let scripts = vec![wpkh_script(1), wpkh_script(2)];
    let p = Psbt::for_signing(tx.clone(), ScriptKind::ShWpkh, &scripts).unwrap();
    assert_eq!(p.inputs[0].redeem_script, Some(wpkh_script(1)));
    assert_eq!(p.inputs[1].redeem_script, Some(wpkh_script(2)));
    assert_eq!(p.inputs[1].state(), InputState::Unsigned);
    assert!(Psbt::for_signing(tx.clone(), ScriptKind::ShWpkh, &vec![wpkh_script(1)]).is_none());
    let native = Psbt::for_signing(tx, ScriptKind::Wpkh, &Vec::new()).unwrap();
    assert!(native.inputs[0].redeem_script.is_none());
}

#[test]
fn change_index_exhausted() {
    let coins = vec![coin(1, 0, 10_000, 3)];
    let mut next_change = 0x8000_0000u32;
    let err = build_tx(&LargestFirst, &coins, wpkh_script(7), 3_000, wpkh_script(8), &mut next_change, ScriptKind::Wpkh, opts(1)).unwrap_err();
    assert_eq!(err, WalletError::InvalidIndex);
    assert_eq!(next_change, 0x8000_0000);
    // with no change output due, the index does not matter
    let mut at_max = u32::MAX;
    let dust = vec![coin(1, 0, 3_687, 3)];
    let built = build_tx(&LargestFirst, &dust, wpkh_script(7), 3_000, wpkh_script(8), &mut at_max, ScriptKind::Wpkh, opts(1)).unwrap();
    assert_eq!(built.tx.outputs.len(), 1);
    assert_eq!(built.details.fee, 687);
    assert_eq!(at_max, u32::MAX);
}

#[test]
fn pay_sends_change_to_next_internal_address() {
    let desc: Vec<char> = TPUB_DESC.chars().collect();
    let change: Vec<char> = TPUB_DESC.replace("/0/*", "/1/*").chars().collect();
    let mut w = Wallet::open(&desc, Some(&change)).unwrap();
    let dest = receive_address(&desc, 7).unwrap();
    let dest_script = recipient_script(&dest).unwrap();
    assert_eq!(dest_script.len(), 22);
    assert_eq!(w.record_sync(Some(vec![owned(&w, coin(1, 0, 10_000, 3))]), &vec![(Chain::Internal, 2)]), Ok(()));
    assert_eq!(w.next_internal, 3);
    let built = w.pay(&LargestFirst, &dest, 3_000, opts(1)).unwrap();
    assert_eq!(built.tx.outputs[0], TxOut { value: 3_000, script_pubkey: dest_script });
    let change_addr = receive_address(&change, 3).unwrap();
    assert_eq!(built.tx.outputs[1].script_pubkey, recipient_script(&change_addr).unwrap());
    assert_eq!(built.tx.outputs[1].value, 6_859);
    assert_eq!(w.next_internal, 4);
    assert_eq!(w.pay(&LargestFirst, "not an address", 3_000, opts(1)).unwrap_err(), WalletError::InvalidRecipient);
    assert_eq!(recipient_script("bc1 nope"), Err(WalletError::InvalidRecipient));
}

#[test]
fn record_sync_refuses_coin_with_foreign_script() {
    let desc: Vec<char> = TPUB_DESC.chars().collect();
    let mut w = Wallet::open(&desc, None).unwrap();
    assert_eq!(w.record_sync(Some(vec![coin(1, 0, 10_000, 3)]), &Vec::new()), Err(WalletError::ChainSync));
    // a real script recorded under the wrong index is refused too
    let mut moved = owned(&w, coin(1, 0, 10_000, 3));
    moved.derivation_index = 1;
    assert_eq!(w.record_sync(Some(vec![moved]), &Vec::new()), Err(WalletError::ChainSync));
    assert_eq!(w.utxos.len(), 0);
    let addr = receive_address(&desc, 0).unwrap();
    assert_eq!(w.script_at(Chain::External, 0), Some(recipient_script(&addr).unwrap()));
    assert_eq!(w.script_at(Chain::Internal, 0), None);
}
