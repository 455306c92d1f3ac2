use custom_blockchain::block::Block;
use custom_blockchain::blockchain::Blockchain;
use custom_blockchain::transaction::{Transaction, TXInput, TXOutput};
use custom_blockchain::utxo_set::UTXOSet;
use custom_blockchain::TxError;
use sha2::Digest;

fn addr_payload(tag: u8) -> Vec<u8> {
    // version byte, 20-byte public-key hash, 4 checksum bytes
    let mut p = vec![0x01u8];
    p.extend(std::iter::repeat(tag).take(20));
    p.extend_from_slice(&[0xAA, 0xBB, 0xCC, 0xDD]);
    p
}

fn pkh_of(tag: u8) -> Vec<u8> {
    std::iter::repeat(tag).take(20).collect()
}

fn test_keypair() -> (Vec<u8>, Vec<u8>) {
    let mut sk_bytes = [0u8; 32];
    sk_bytes[31] = 7;
    let sk = p256::ecdsa::SigningKey::from_slice(&sk_bytes).unwrap();
    let pk = sk.verifying_key().to_sec1_bytes().to_vec();
    (sk_bytes.to_vec(), pk)
}

fn sum_values(outs: &[TXOutput]) -> i64 {
    outs.iter().map(|o| o.get_value() as i64).sum()
}

#[test]
fn genesis_block_fields() {
    let bc = Blockchain::create_blockchain(&addr_payload(0x11), 5).unwrap();
    let mut it = bc.iterator();
    let genesis = it.next().unwrap();
    assert_eq!(genesis.get_height(), 0);
    assert_eq!(genesis.get_pre_block_hash(), "None");
    assert_eq!(genesis.get_timestamp(), 5);
    assert!(it.next().is_none());
}

#[test]
fn mined_hash_meets_target() {
    let bc = Blockchain::create_blockchain(&addr_payload(0x11), 1).unwrap();
    let mut it = bc.iterator();
    let genesis = it.next().unwrap();
    // target is 2^(256 - 8): the first hash byte, so the first two hex
    // digits, must be zero
    assert!(genesis.get_hash().starts_with("00"));
    let raw = data_encoding::HEXLOWER
        .decode(genesis.get_hash().as_bytes())
        .unwrap();
    assert_eq!(raw.len(), 32);
    assert_eq!(raw[0], 0);
}

#[test]
fn coinbase_marker() {
    let tx = Transaction::new_coinbase_tx(&addr_payload(0x22)).unwrap();
    assert!(tx.is_coinbase());
    assert_eq!(tx.get_vin().len(), 1);
    assert!(tx.get_vin()[0].get_pub_key().is_empty());
    assert_eq!(tx.get_vout().len(), 1);
    assert_eq!(tx.get_vout()[0].get_value(), 10);
    assert_eq!(tx.get_vout()[0].get_pub_key_hash(), pkh_of(0x22).as_slice());

    let non_coinbase = Transaction {
        id: vec![1],
        vin: vec![TXInput {
            txid: vec![2; 32],
            vout: 0,
            signature: vec![],
            pub_key: vec![9, 9],
        }],
        vout: vec![],
    };
    assert!(!non_coinbase.is_coinbase());

    let two_inputs = Transaction {
        id: vec![1],
        vin: vec![TXInput::new(&[2; 32], 0), TXInput::new(&[3; 32], 1)],
        vout: vec![],
    };
    assert!(!two_inputs.is_coinbase());
}

#[test]
fn coinbase_ids_are_distinct() {
    let a = Transaction::new_coinbase_tx(&addr_payload(0x22)).unwrap();
    let b = Transaction::new_coinbase_tx(&addr_payload(0x22)).unwrap();
    assert_ne!(a.get_id(), b.get_id());
}

#[test]
fn transaction_round_trip() {
    let tx = Transaction {
        id: vec![1, 2, 3],
        vin: vec![TXInput {
            txid: vec![7; 32],
            vout: 4,
            signature: vec![5, 6],
            pub_key: vec![8, 9, 10],
        }],
        vout: vec![
            TXOutput {
                value: 10,
                pub_key_hash: pkh_of(0x33),
            },
            TXOutput {
                value: -3,
                pub_key_hash: vec![],
            },
        ],
    };
    let bytes = tx.serialize().unwrap();
    let back = Transaction::deserialize(&bytes).unwrap();
    assert_eq!(back.id, tx.id);
    assert_eq!(back.vin.len(), 1);
    assert_eq!(back.vin[0].txid, tx.vin[0].txid);
    assert_eq!(back.vin[0].vout, tx.vin[0].vout);
    assert_eq!(back.vin[0].signature, tx.vin[0].signature);
    assert_eq!(back.vin[0].pub_key, tx.vin[0].pub_key);
    assert_eq!(back.vout.len(), 2);
    assert_eq!(back.vout[0].value, 10);
    assert_eq!(back.vout[0].pub_key_hash, pkh_of(0x33));
    assert_eq!(back.vout[1].value, -3);
    assert!(back.vout[1].pub_key_hash.is_empty());
}

#[test]
fn block_round_trip() {
    let bc = Blockchain::create_blockchain(&addr_payload(0x11), 9).unwrap();
    let mut it = bc.iterator();
    let genesis = it.next().unwrap();
    let bytes = genesis.serialize().unwrap();
    let back = Block::deserialize(&bytes).unwrap();
    assert_eq!(back.get_hash(), genesis.get_hash());
    assert_eq!(back.get_pre_block_hash(), genesis.get_pre_block_hash());
    assert_eq!(back.get_timestamp(), genesis.get_timestamp());
    assert_eq!(back.get_height(), genesis.get_height());
    assert_eq!(back.nonce, genesis.nonce);
    assert_eq!(back.get_transactions().len(), 1);
    assert_eq!(
        back.get_transactions()[0].get_id(),
        genesis.get_transactions()[0].get_id()
    );
}

#[test]
fn canonical_encoding_layout() {
    // one id byte, no inputs, no outputs: length-prefixed id, then the two
    // list counts, all integers as eight big-endian bytes
    let tx = Transaction {
        id: vec![0xAB],
        vin: vec![],
        vout: vec![],
    };
    let bytes = tx.serialize().unwrap();
    let expected = vec![
        0, 0, 0, 0, 0, 0, 0, 1, 0xAB, // id
        0, 0, 0, 0, 0, 0, 0, 0, // input count
        0, 0, 0, 0, 0, 0, 0, 0, // output count
    ];
    assert_eq!(bytes, expected);
}

#[test]
fn transaction_id_is_hash_of_cleared_encoding() {
    let tx = Transaction::new_coinbase_tx(&addr_payload(0x22)).unwrap();
    let cleared = Transaction {
        id: vec![],
        vin: tx
            .vin
            .iter()
            .map(|i| TXInput {
                txid: i.txid.clone(),
                vout: i.vout,
                signature: i.signature.clone(),
                pub_key: i.pub_key.clone(),
            })
            .collect(),
        vout: tx
            .vout
            .iter()
            .map(|o| TXOutput {
                value: o.value,
                pub_key_hash: o.pub_key_hash.clone(),
            })
            .collect(),
    };
    let expected = sha2::Sha256::digest(cleared.serialize().unwrap()).to_vec();
    assert_eq!(tx.get_id(), expected.as_slice());
    assert_eq!(tx.hash(), expected);
}

#[test]
fn lock_strips_version_and_checksum() {
    let mut out = TXOutput {
        value: 3,
        pub_key_hash: vec![],
    };
    assert_eq!(out.lock(&addr_payload(0x5C)), Ok(()));
    assert_eq!(out.pub_key_hash, pkh_of(0x5C));
    assert_eq!(out.value, 3);
    assert_eq!(out.lock(&[1, 2, 3, 4]), Err(TxError::AddressInvalid));
}

#[test]
fn deserialize_rejects_garbage() {
    assert_eq!(
        Transaction::deserialize(&[1, 2, 3]).unwrap_err(),
        TxError::SerializationError
    );
    assert_eq!(
        Block::deserialize(&[0; 7]).unwrap_err(),
        TxError::SerializationError
    );
}

fn build_spend_chain() -> (UTXOSet, Block) {
    // genesis rewards address A; then A sends 4 to B, mining the block with
    // a fresh coinbase to A in the same batch
    let (sk, pk) = test_keypair();
    let bc = Blockchain::create_blockchain(&addr_payload(0xA1), 1).unwrap();
    let mut utxo = UTXOSet::new(bc);
    utxo.reindex();
    let tx = Transaction::new_utxo_transaction(
        &addr_payload(0xA1),
        &addr_payload(0xB2),
        4,
        &utxo,
        &pk,
        &sk,
    )
    .unwrap();
    let coinbase = Transaction::new_coinbase_tx(&addr_payload(0xA1)).unwrap();
    let block = utxo
        .blockchain
        .mine_block(&vec![tx, coinbase], 2)
        .unwrap();
    utxo.update(&block);
    (utxo, block)
}

#[test]
fn balances_after_spend() {
    let (utxo, _block) = build_spend_chain();
    let a_outputs = utxo.find_utxo(&pkh_of(0xA1));
    let b_outputs = utxo.find_utxo(&pkh_of(0xB2));
    // A holds 6 change and the fresh 10 coinbase; B holds the 4 sent
    assert_eq!(sum_values(&a_outputs), 16);
    assert_eq!(sum_values(&b_outputs), 4);
    assert_eq!(utxo.count_transactions(), 2);
}

#[test]
fn reindex_matches_incremental_updates() {
    let (utxo, _block) = build_spend_chain();
    let mut rebuilt = UTXOSet::new(utxo.blockchain);
    rebuilt.reindex();
    let mut incremental: Vec<(Vec<u8>, usize, i32, Vec<u8>)> = utxo
        .entries
        .iter()
        .flat_map(|e| {
            e.outputs.iter().map(move |o| {
                (
                    e.txid.clone(),
                    o.index,
                    o.output.value,
                    o.output.pub_key_hash.clone(),
                )
            })
        })
        .collect();
    let mut from_scratch: Vec<(Vec<u8>, usize, i32, Vec<u8>)> = rebuilt
        .entries
        .iter()
        .flat_map(|e| {
            e.outputs.iter().map(move |o| {
                (
                    e.txid.clone(),
                    o.index,
                    o.output.value,
                    o.output.pub_key_hash.clone(),
                )
            })
        })
        .collect();
    incremental.sort();
    from_scratch.sort();
    assert_eq!(incremental, from_scratch);
}

#[test]
fn chain_links_parents() {
    let (utxo, block) = build_spend_chain();
    let bc = &utxo.blockchain;
    let mut it = bc.iterator();
    let tip = it.next().unwrap();
    let genesis = it.next().unwrap();
    assert!(it.next().is_none());
    assert_eq!(tip.get_hash(), block.get_hash());
    assert_eq!(tip.get_pre_block_hash(), genesis.get_hash());
    assert_eq!(tip.get_height(), 1);
    assert_eq!(genesis.get_height(), 0);
}

#[test]
fn signature_round_trip() {
    let (sk, pk) = test_keypair();
    let bc = Blockchain::create_blockchain(&addr_payload(0xA1), 1).unwrap();
    let mut utxo = UTXOSet::new(bc);
    utxo.reindex();
    let tx = Transaction::new_utxo_transaction(
        &addr_payload(0xA1),
        &addr_payload(0xB2),
        4,
        &utxo,
        &pk,
        &sk,
    )
    .unwrap();
    assert_eq!(tx.verify(&utxo.blockchain), Ok(true));

    // flipping one signature byte must invalidate the transaction
    let mut tampered_sig = Transaction {
        id: tx.id.clone(),
        vin: tx
            .vin
            .iter()
            .map(|i| TXInput {
                txid: i.txid.clone(),
                vout: i.vout,
                signature: i.signature.clone(),
                pub_key: i.pub_key.clone(),
            })
            .collect(),
        vout: tx
            .vout
            .iter()
            .map(|o| TXOutput {
                value: o.value,
                pub_key_hash: o.pub_key_hash.clone(),
            })
            .collect(),
    };
    tampered_sig.vin[0].signature[0] ^= 0x01;
    assert_eq!(tampered_sig.verify(&utxo.blockchain), Ok(false));

    // a mismatched public key must also fail
    let mut other_sk_bytes = [0u8; 32];
    other_sk_bytes[31] = 9;
    let other_pk = p256::ecdsa::SigningKey::from_slice(&other_sk_bytes)
        .unwrap()
        .verifying_key()
        .to_sec1_bytes()
        .to_vec();
    let mut wrong_key = tampered_sig;
    wrong_key.vin[0].signature[0] ^= 0x01; // restore the real signature
    wrong_key.vin[0].pub_key = other_pk;
    assert_eq!(wrong_key.verify(&utxo.blockchain), Ok(false));

    // changing a message-affecting field (an output value) must fail too
    let mut changed_value = Transaction {
        id: tx.id.clone(),
        vin: tx
            .vin
            .iter()
            .map(|i| TXInput {
                txid: i.txid.clone(),
                vout: i.vout,
                signature: i.signature.clone(),
                pub_key: i.pub_key.clone(),
            })
            .collect(),
        vout: tx
            .vout
            .iter()
            .map(|o| TXOutput {
                value: o.value,
                pub_key_hash: o.pub_key_hash.clone(),
            })
            .collect(),
    };
    changed_value.vout[0].value = 5;
    assert_eq!(changed_value.verify(&utxo.blockchain), Ok(false));
}

#[test]
fn missing_previous_transaction_is_an_error() {
    let bc = Blockchain::create_blockchain(&addr_payload(0xA1), 1).unwrap();
    let orphan = Transaction {
        id: vec![0x42; 32],
        vin: vec![TXInput {
            txid: vec![0x99; 32],
            vout: 0,
            signature: vec![1, 2, 3],
            pub_key: vec![4, 5, 6],
        }],
        vout: vec![],
    };
    assert_eq!(
        orphan.verify(&bc),
        Err(TxError::PreviousTransactionMissing)
    );
}

#[test]
fn find_transaction_scans_whole_chain() {
    let (utxo, block) = build_spend_chain();
    let bc = &utxo.blockchain;
    assert!(bc.find_transaction(&[0xAB; 32]).is_none());
    let genesis_tx_id = {
        let mut it = bc.iterator();
        let _tip = it.next().unwrap();
        let genesis = it.next().unwrap();
        genesis.get_transactions()[0].get_id().to_vec()
    };
    let found = bc.find_transaction(&genesis_tx_id).unwrap();
    assert_eq!(found.get_id(), genesis_tx_id.as_slice());
    let tip_tx_id = block.get_transactions()[0].get_id().to_vec();
    assert!(bc.find_transaction(&tip_tx_id).is_some());
}

#[test]
fn insufficient_funds_is_an_error() {
    let (sk, pk) = test_keypair();
    let bc = Blockchain::create_blockchain(&addr_payload(0xA1), 1).unwrap();
    let mut utxo = UTXOSet::new(bc);
    utxo.reindex();
    let r = Transaction::new_utxo_transaction(
        &addr_payload(0xA1),
        &addr_payload(0xB2),
        100,
        &utxo,
        &pk,
        &sk,
    );
    assert_eq!(r.unwrap_err(), TxError::InsufficientFunds);
}

#[test]
fn short_address_payload_is_rejected() {
    assert_eq!(
        TXOutput::new(5, &[1, 2]).unwrap_err(),
        TxError::AddressInvalid
    );
    assert_eq!(
        Transaction::new_coinbase_tx(&[0x01, 0x02, 0x03]).unwrap_err(),
        TxError::AddressInvalid
    );
    assert_eq!(
        Blockchain::create_blockchain(&[9; 4], 1).unwrap_err(),
        TxError::AddressInvalid
    );
}

#[test]
fn invalid_signing_key_is_rejected() {
    let (_, pk) = test_keypair();
    let zero_sk = vec![0u8; 32]; // the zero scalar is not a valid key
    let bc = Blockchain::create_blockchain(&addr_payload(0xA1), 1).unwrap();
    let mut utxo = UTXOSet::new(bc);
    utxo.reindex();
    let r = Transaction::new_utxo_transaction(
        &addr_payload(0xA1),
        &addr_payload(0xB2),
        4,
        &utxo,
        &pk,
        &zero_sk,
    );
    assert_eq!(r.unwrap_err(), TxError::KeyInvalid);
}

#[test]
fn invalid_batch_is_not_mined() {
    let (utxo, _block) = build_spend_chain();
    let mut bc = utxo.blockchain;
    let tip_before = bc.get_tip_hash().clone();
    let orphan = Transaction {
        id: vec![0x42; 32],
        vin: vec![TXInput {
            txid: vec![0x99; 32],
            vout: 0,
            signature: vec![1],
            pub_key: vec![2],
        }],
        vout: vec![],
    };
    assert_eq!(
        bc.mine_block(&vec![orphan], 3).unwrap_err(),
        TxError::PreviousTransactionMissing
    );
    assert_eq!(bc.get_tip_hash(), &tip_before);
}
