use btc_txsign::entry::BitcoinEntry;
use btc_txsign::types::{
    BuilderInput, BuilderOutput, ErrorKind, Input, InputSelector, InputVariant, LockTime, Output,
    OutputRecipient, PkOrHash, SighashMethod, SignerMode, SigningRequest,
};

use bitcoin::consensus::Decodable;
use bitcoin::hashes::Hash as HashTrait;

/// The secp256k1 generator-point public key of the secret key 0x00..01,
/// compressed.
fn test_pubkey() -> Vec<u8> {
    vec![
        0x02, 0x79, 0xbe, 0x66, 0x7e, 0xf9, 0xdc, 0xbb, 0xac, 0x55, 0xa0, 0x62, 0x95, 0xce, 0x87,
        0x0b, 0x07, 0x02, 0x9b, 0xfc, 0xdb, 0x2d, 0xce, 0x28, 0xd9, 0x59, 0xf2, 0x81, 0x5b, 0x16,
        0xf8, 0x17, 0x98,
    ]
}

fn test_privkey() -> Vec<u8> {
    let mut k = vec![0u8; 32];
    k[31] = 1;
    k
}

fn one_txid() -> Vec<u8> {
    vec![0x11u8; 32]
}

fn builder_input(
    amount: u64,
    variant: BuilderInput,
) -> Input {
    Input {
        txid: one_txid(),
        vout: 0,
        amount,
        one_prevout: false,
        variant: InputVariant::Builder(variant),
    }
}

fn request(inputs: Vec<Input>, outputs: Vec<Output>, selector: InputSelector) -> SigningRequest {
    SigningRequest {
        version: 2,
        lock_time: LockTime::Unset,
        private_key: test_privkey(),
        input_selector: selector,
        inputs,
        outputs,
    }
}

fn decode_tx(encoded: &[u8]) -> bitcoin::Transaction {
    let mut cursor = encoded;
    bitcoin::Transaction::consensus_decode(&mut cursor).expect("the emitted bytes must decode")
}

#[test]
fn s1_p2pkh_to_p2pkh() {
    let req = request(
        vec![builder_input(50_000, BuilderInput::P2pkh(PkOrHash::Pubkey(test_pubkey())))],
        vec![Output {
            amount: 40_000,
            recipient: OutputRecipient::Builder(BuilderOutput::P2pkh(PkOrHash::Pubkey(
                test_pubkey(),
            ))),
        }],
        InputSelector::UseAll,
    );
    let pre = BitcoinEntry.preimage_hashes(&req).unwrap();
    assert_eq!(pre.sighashes.len(), 1);
    assert_eq!(pre.sighashes[0].method, SighashMethod::Legacy);
    assert!(pre.sighashes[0].leaf_hash.is_empty());
    assert_eq!(pre.sighashes[0].sighash.len(), 32);

    let out = BitcoinEntry.sign(&req, SignerMode::Deterministic).unwrap();
    let tx = decode_tx(&out.encoded);
    assert_eq!(tx.input.len(), 1);
    assert_eq!(tx.output.len(), 1);
    // No witness: the legacy layout.
    assert!(tx.input[0].witness.is_empty());
    // script_sig = <push sig> <push pubkey>; the signature is DER with the
    // trailing sighash-type byte 0x01.
    let ss = tx.input[0].script_sig.as_bytes();
    let sig_len = ss[0] as usize;
    assert_eq!(ss[1], 0x30);
    assert_eq!(ss[sig_len], 0x01);
    assert!((70..=73).contains(&sig_len));
    assert_eq!(ss[1 + sig_len] as usize, 33);
    assert_eq!(&ss[2 + sig_len..], test_pubkey().as_slice());
    // The output locks to the p2pkh script of the key's hash160.
    let pk = bitcoin::PublicKey::from_slice(&test_pubkey()).unwrap();
    let expected_spk = bitcoin::ScriptBuf::new_p2pkh(&pk.pubkey_hash());
    assert_eq!(tx.output[0].script_pubkey, expected_spk);
    assert_eq!(tx.output[0].value, 40_000);
    // Serialization arithmetic: fixed framing plus script_sig and output script.
    assert_eq!(out.encoded.len(), 60 + 25 + ss.len());
    assert_eq!(out.fee, 10_000);

    // The legacy sighash matches the conforming codec's, and the signature
    // verifies against it.
    let cache = bitcoin::sighash::SighashCache::new(&tx);
    let sighash = cache
        .legacy_signature_hash(0, &expected_spk, 1)
        .unwrap();
    assert_eq!(sighash.to_byte_array().as_slice(), pre.sighashes[0].sighash.as_slice());
    let secp = bitcoin::secp256k1::Secp256k1::new();
    let msg = bitcoin::secp256k1::Message::from_slice(&pre.sighashes[0].sighash).unwrap();
    let der = bitcoin::secp256k1::ecdsa::Signature::from_der(&ss[1..sig_len]).unwrap();
    secp.verify_ecdsa(&msg, &der, &pk.inner).unwrap();
}

#[test]
fn s2_p2wpkh_to_p2wpkh() {
    let req = request(
        vec![builder_input(100_000, BuilderInput::P2wpkh(PkOrHash::Pubkey(test_pubkey())))],
        vec![Output {
            amount: 90_000,
            recipient: OutputRecipient::Builder(BuilderOutput::P2wpkh(PkOrHash::Pubkey(
                test_pubkey(),
            ))),
        }],
        InputSelector::UseAll,
    );
    let pre = BitcoinEntry.preimage_hashes(&req).unwrap();
    assert_eq!(pre.sighashes[0].method, SighashMethod::Segwit);

    let out = BitcoinEntry.sign(&req, SignerMode::Deterministic).unwrap();
    // Segwit marker and flag.
    assert_eq!(out.encoded[4], 0x00);
    assert_eq!(out.encoded[5], 0x01);
    let tx = decode_tx(&out.encoded);
    assert!(tx.input[0].script_sig.is_empty());
    let w: Vec<&[u8]> = tx.input[0].witness.iter().collect();
    assert_eq!(w.len(), 2);
    // Witness item 0: DER signature with the sighash byte 0x01 appended.
    assert_eq!(w[0][0], 0x30);
    assert_eq!(*w[0].last().unwrap(), 0x01);
    // Witness item 1: hash160 of the compressed public key.
    let h160 = bitcoin::hashes::hash160::Hash::hash(&test_pubkey());
    assert_eq!(w[1], h160.to_byte_array().as_slice());
    // The BIP-143 sighash matches the conforming codec's, and the
    // signature verifies.
    let pk = bitcoin::PublicKey::from_slice(&test_pubkey()).unwrap();
    let mut cache = bitcoin::sighash::SighashCache::new(&tx);
    let script_code = bitcoin::ScriptBuf::new_v0_p2wpkh(&pk.wpubkey_hash().unwrap())
        .p2wpkh_script_code()
        .unwrap();
    let sighash = cache
        .segwit_signature_hash(0, &script_code, 100_000, bitcoin::sighash::EcdsaSighashType::All)
        .unwrap();
    assert_eq!(sighash.to_byte_array().as_slice(), pre.sighashes[0].sighash.as_slice());
    let secp = bitcoin::secp256k1::Secp256k1::new();
    let msg = bitcoin::secp256k1::Message::from_slice(&pre.sighashes[0].sighash).unwrap();
    let der =
        bitcoin::secp256k1::ecdsa::Signature::from_der(&w[0][..w[0].len() - 1]).unwrap();
    secp.verify_ecdsa(&msg, &der, &pk.inner).unwrap();
}

#[test]
fn s3_p2tr_key_path() {
    let req = request(
        vec![builder_input(200_000, BuilderInput::P2trKeyPath(test_pubkey()))],
        vec![Output {
            amount: 180_000,
            recipient: OutputRecipient::Builder(BuilderOutput::P2trKeyPath(test_pubkey())),
        }],
        InputSelector::UseAll,
    );
    let pre = BitcoinEntry.preimage_hashes(&req).unwrap();
    assert_eq!(pre.sighashes[0].method, SighashMethod::Taproot);
    assert!(pre.sighashes[0].leaf_hash.is_empty());

    let out = BitcoinEntry.sign(&req, SignerMode::Deterministic).unwrap();
    let tx = decode_tx(&out.encoded);
    let w: Vec<&[u8]> = tx.input[0].witness.iter().collect();
    // One 64-byte Schnorr signature, no sighash-type byte (DEFAULT).
    assert_eq!(w.len(), 1);
    assert_eq!(w[0].len(), 64);
    // Both sides lock to the tap-tweaked key with an empty merkle root.
    let secp = bitcoin::secp256k1::Secp256k1::new();
    let pk = bitcoin::PublicKey::from_slice(&test_pubkey()).unwrap();
    let xonly = bitcoin::secp256k1::XOnlyPublicKey::from(pk.inner);
    let expected_spk = bitcoin::ScriptBuf::new_v1_p2tr(&secp, xonly, None);
    assert_eq!(tx.output[0].script_pubkey, expected_spk);
    let funding = bitcoin::TxOut { value: 200_000, script_pubkey: expected_spk.clone() };
    // The BIP-341 sighash matches the conforming codec's, and the
    // signature verifies against the tweaked output key.
    let mut cache = bitcoin::sighash::SighashCache::new(&tx);
    let sighash = cache
        .taproot_key_spend_signature_hash(
            0,
            &bitcoin::sighash::Prevouts::All(&[funding]),
            bitcoin::sighash::TapSighashType::Default,
        )
        .unwrap();
    assert_eq!(sighash.to_byte_array().as_slice(), pre.sighashes[0].sighash.as_slice());
    let msg = bitcoin::secp256k1::Message::from_slice(&pre.sighashes[0].sighash).unwrap();
    let schnorr = bitcoin::secp256k1::schnorr::Signature::from_slice(w[0]).unwrap();
    let output_key =
        bitcoin::secp256k1::XOnlyPublicKey::from_slice(&expected_spk.as_bytes()[2..]).unwrap();
    secp.verify_schnorr(&schnorr, &msg, &output_key).unwrap();
}

#[test]
fn s4_p2tr_script_path() {
    // Leaf script: <pubkey> OP_CHECKSIG.
    let mut leaf_script = vec![0x20u8];
    leaf_script.extend_from_slice(&test_pubkey()[1..]);
    leaf_script.push(0xac);
    // Control block: leaf version 0xc0 with even parity, then the internal
    // x-only key.
    let mut control_block = vec![0xc0u8];
    control_block.extend_from_slice(&test_pubkey()[1..]);
    let req = request(
        vec![builder_input(
            300_000,
            BuilderInput::P2trScriptPath {
                payload: leaf_script.clone(),
                control_block: control_block.clone(),
            },
        )],
        vec![Output {
            amount: 250_000,
            recipient: OutputRecipient::Builder(BuilderOutput::P2trKeyPath(test_pubkey())),
        }],
        InputSelector::UseAll,
    );
    let pre = BitcoinEntry.preimage_hashes(&req).unwrap();
    assert_eq!(pre.sighashes[0].method, SighashMethod::Taproot);
    // leaf_hash = TapLeafHash(script, leaf version 0xC0), per the
    // conforming codec.
    let expected_leaf = bitcoin::taproot::TapLeafHash::from_script(
        bitcoin::Script::from_bytes(&leaf_script),
        bitcoin::taproot::LeafVersion::TapScript,
    );
    assert_eq!(pre.sighashes[0].leaf_hash.as_slice(), expected_leaf.to_byte_array().as_slice());

    let out = BitcoinEntry.sign(&req, SignerMode::Deterministic).unwrap();
    let tx = decode_tx(&out.encoded);
    let w: Vec<&[u8]> = tx.input[0].witness.iter().collect();
    assert_eq!(w.len(), 3);
    assert_eq!(w[0].len(), 64);
    assert_eq!(w[1], leaf_script.as_slice());
    assert_eq!(w[2], control_block.as_slice());
}

#[test]
fn s5_mixed_selection_ascending() {
    let mut in1 = builder_input(10_000, BuilderInput::P2pkh(PkOrHash::Pubkey(test_pubkey())));
    in1.vout = 1;
    let mut in2 = builder_input(20_000, BuilderInput::P2pkh(PkOrHash::Pubkey(test_pubkey())));
    in2.vout = 2;
    let mut in3 = builder_input(70_000, BuilderInput::P2pkh(PkOrHash::Pubkey(test_pubkey())));
    in3.vout = 3;
    // Declared out of order: selection sorts ascending and stops at 30_000.
    let req = request(
        vec![in3, in1, in2],
        vec![Output {
            amount: 25_000,
            recipient: OutputRecipient::Builder(BuilderOutput::P2pkh(PkOrHash::Pubkey(
                test_pubkey(),
            ))),
        }],
        InputSelector::AutomaticAscending,
    );
    let pre = BitcoinEntry.preimage_hashes(&req).unwrap();
    assert_eq!(pre.utxo_inputs.len(), 2);
    assert_eq!(pre.utxo_inputs[0].amount, 10_000);
    assert_eq!(pre.utxo_inputs[1].amount, 20_000);
    assert_eq!(pre.utxo_inputs[0].vout, 1);
    assert_eq!(pre.utxo_inputs[1].vout, 2);
    let out = BitcoinEntry.sign(&req, SignerMode::Deterministic).unwrap();
    assert_eq!(out.fee, 5_000);
    let tx = decode_tx(&out.encoded);
    assert_eq!(tx.input.len(), 2);
}

#[test]
fn s6_insufficient_funds() {
    let mut in1 = builder_input(5_000, BuilderInput::P2pkh(PkOrHash::Pubkey(test_pubkey())));
    in1.vout = 1;
    let mut in2 = builder_input(5_000, BuilderInput::P2pkh(PkOrHash::Pubkey(test_pubkey())));
    in2.vout = 2;
    let req = request(
        vec![in1, in2],
        vec![Output {
            amount: 20_000,
            recipient: OutputRecipient::Builder(BuilderOutput::P2pkh(PkOrHash::Pubkey(
                test_pubkey(),
            ))),
        }],
        InputSelector::AutomaticAscending,
    );
    assert_eq!(BitcoinEntry.preimage_hashes(&req).unwrap_err(), ErrorKind::InsufficientFunds);
    assert_eq!(
        BitcoinEntry.sign(&req, SignerMode::Deterministic).unwrap_err(),
        ErrorKind::InsufficientFunds
    );
}

#[test]
fn determinism_in_test_mode() {
    let req = request(
        vec![
            builder_input(50_000, BuilderInput::P2pkh(PkOrHash::Pubkey(test_pubkey()))),
            builder_input(60_000, BuilderInput::P2trKeyPath(test_pubkey())),
        ],
        vec![Output {
            amount: 90_000,
            recipient: OutputRecipient::Builder(BuilderOutput::P2wpkh(PkOrHash::Pubkey(
                test_pubkey(),
            ))),
        }],
        InputSelector::UseAll,
    );
    let a = BitcoinEntry.sign(&req, SignerMode::Deterministic).unwrap();
    let b = BitcoinEntry.sign(&req, SignerMode::Deterministic).unwrap();
    assert_eq!(a.encoded, b.encoded);
    assert_eq!(a.transaction_id, b.transaction_id);
    assert_eq!(a.fee, b.fee);
}

#[test]
fn txid_is_reversed_double_sha_of_legacy_form() {
    let req = request(
        vec![builder_input(100_000, BuilderInput::P2wpkh(PkOrHash::Pubkey(test_pubkey())))],
        vec![Output {
            amount: 90_000,
            recipient: OutputRecipient::Builder(BuilderOutput::P2wpkh(PkOrHash::Pubkey(
                test_pubkey(),
            ))),
        }],
        InputSelector::UseAll,
    );
    let out = BitcoinEntry.sign(&req, SignerMode::Deterministic).unwrap();
    assert_eq!(out.transaction_id.len(), 32);
    let tx = decode_tx(&out.encoded);
    // The conforming codec's txid is the double-SHA256 of the legacy form;
    // ours is emitted in display order, so it is the byte reverse.
    let mut expected: Vec<u8> = tx.txid().to_byte_array().to_vec();
    expected.reverse();
    assert_eq!(out.transaction_id, expected);
}

#[test]
fn round_trip_fields() {
    let req = request(
        vec![builder_input(50_000, BuilderInput::P2pkh(PkOrHash::Pubkey(test_pubkey())))],
        vec![
            Output {
                amount: 12_345,
                recipient: OutputRecipient::ScriptPubkey(vec![0x6a, 0x01, 0x42]),
            },
            Output {
                amount: 20_000,
                recipient: OutputRecipient::Builder(BuilderOutput::P2wpkh(PkOrHash::Pubkey(
                    test_pubkey(),
                ))),
            },
        ],
        InputSelector::UseAll,
    );
    let out = BitcoinEntry.sign(&req, SignerMode::Deterministic).unwrap();
    let tx = decode_tx(&out.encoded);
    assert_eq!(tx.version, 2);
    assert_eq!(tx.lock_time.to_consensus_u32(), 0);
    assert_eq!(tx.input.len(), 1);
    assert_eq!(tx.input[0].previous_output.txid.to_byte_array().as_slice(), &[0x11u8; 32]);
    assert_eq!(tx.input[0].previous_output.vout, 0);
    assert_eq!(tx.input[0].sequence.0, 0xffff_ffff);
    assert_eq!(tx.output.len(), 2);
    assert_eq!(tx.output[0].value, 12_345);
    assert_eq!(tx.output[0].script_pubkey.as_bytes(), &[0x6a, 0x01, 0x42]);
    assert_eq!(tx.output[1].value, 20_000);
}

#[test]
fn uncompressed_key_hashes() {
    // A p2wpkh condition given a 65-byte uncompressed key hashes the
    // compressed SEC encoding.
    let secp = bitcoin::secp256k1::Secp256k1::new();
    let sk = bitcoin::secp256k1::SecretKey::from_slice(&test_privkey()).unwrap();
    let full = bitcoin::secp256k1::PublicKey::from_secret_key(&secp, &sk);
    let uncompressed = full.serialize_uncompressed().to_vec();
    let req = request(
        vec![builder_input(50_000, BuilderInput::P2wpkh(PkOrHash::Pubkey(uncompressed.clone())))],
        vec![Output {
            amount: 40_000,
            recipient: OutputRecipient::Builder(BuilderOutput::P2wpkh(PkOrHash::Pubkey(
                uncompressed,
            ))),
        }],
        InputSelector::UseAll,
    );
    let pre = BitcoinEntry.preimage_hashes(&req).unwrap();
    let h160 = bitcoin::hashes::hash160::Hash::hash(&full.serialize());
    assert_eq!(&pre.utxo_inputs[0].script_pubkey[2..], h160.to_byte_array().as_slice());
}

#[test]
fn aux_random_mode_signs() {
    let req = request(
        vec![builder_input(200_000, BuilderInput::P2trKeyPath(test_pubkey()))],
        vec![Output {
            amount: 180_000,
            recipient: OutputRecipient::Builder(BuilderOutput::P2trKeyPath(test_pubkey())),
        }],
        InputSelector::UseAll,
    );
    let out = BitcoinEntry.sign(&req, SignerMode::AuxRandom).unwrap();
    let tx = decode_tx(&out.encoded);
    let w: Vec<&[u8]> = tx.input[0].witness.iter().collect();
    assert_eq!(w.len(), 1);
    assert_eq!(w[0].len(), 64);
}

#[test]
fn one_prevout_taproot_commitment() {
    // The single-prevout variant: sighash type 0x81, appended to the
    // 64-byte Schnorr signature, and the input committed inline.
    let mut input = builder_input(200_000, BuilderInput::P2trKeyPath(test_pubkey()));
    input.one_prevout = true;
    let req = request(
        vec![input],
        vec![Output {
            amount: 180_000,
            recipient: OutputRecipient::Builder(BuilderOutput::P2trKeyPath(test_pubkey())),
        }],
        InputSelector::UseAll,
    );
    let pre = BitcoinEntry.preimage_hashes(&req).unwrap();
    let out = BitcoinEntry.sign(&req, SignerMode::Deterministic).unwrap();
    let tx = decode_tx(&out.encoded);
    let w: Vec<&[u8]> = tx.input[0].witness.iter().collect();
    assert_eq!(w.len(), 1);
    assert_eq!(w[0].len(), 65);
    assert_eq!(w[0][64], 0x81);
    // The commitment matches the conforming codec's ALL|ANYONECANPAY
    // taproot sighash, and the signature verifies.
    let secp = bitcoin::secp256k1::Secp256k1::new();
    let pk = bitcoin::PublicKey::from_slice(&test_pubkey()).unwrap();
    let xonly = bitcoin::secp256k1::XOnlyPublicKey::from(pk.inner);
    let spk = bitcoin::ScriptBuf::new_v1_p2tr(&secp, xonly, None);
    let funding = bitcoin::TxOut { value: 200_000, script_pubkey: spk.clone() };
    let mut cache = bitcoin::sighash::SighashCache::new(&tx);
    let sighash = cache
        .taproot_signature_hash(
            0,
            &bitcoin::sighash::Prevouts::One(0, funding),
            None,
            None,
            bitcoin::sighash::TapSighashType::AllPlusAnyoneCanPay,
        )
        .unwrap();
    assert_eq!(sighash.to_byte_array().as_slice(), pre.sighashes[0].sighash.as_slice());
    let msg = bitcoin::secp256k1::Message::from_slice(&pre.sighashes[0].sighash).unwrap();
    let schnorr = bitcoin::secp256k1::schnorr::Signature::from_slice(&w[0][..64]).unwrap();
    let output_key =
        bitcoin::secp256k1::XOnlyPublicKey::from_slice(&spk.as_bytes()[2..]).unwrap();
    secp.verify_schnorr(&schnorr, &msg, &output_key).unwrap();
}

#[test]
fn lock_time_blocks_serialized() {
    let mut req = request(
        vec![builder_input(50_000, BuilderInput::P2pkh(PkOrHash::Pubkey(test_pubkey())))],
        vec![Output {
            amount: 40_000,
            recipient: OutputRecipient::Builder(BuilderOutput::P2pkh(PkOrHash::Pubkey(
                test_pubkey(),
            ))),
        }],
        InputSelector::UseAll,
    );
    req.lock_time = LockTime::Blocks(800_000);
    let out = BitcoinEntry.sign(&req, SignerMode::Deterministic).unwrap();
    let tx = decode_tx(&out.encoded);
    assert_eq!(tx.lock_time.to_consensus_u32(), 800_000);
}

#[test]
fn error_invalid_key() {
    let req = request(
        vec![builder_input(50_000, BuilderInput::P2pkh(PkOrHash::Pubkey(vec![0x05u8; 33])))],
        vec![Output {
            amount: 40_000,
            recipient: OutputRecipient::Builder(BuilderOutput::P2pkh(PkOrHash::Pubkey(
                test_pubkey(),
            ))),
        }],
        InputSelector::UseAll,
    );
    assert_eq!(BitcoinEntry.preimage_hashes(&req).unwrap_err(), ErrorKind::InvalidKey);

    let req2 = request(
        vec![builder_input(50_000, BuilderInput::P2pkh(PkOrHash::Hash(vec![0u8; 19])))],
        vec![Output {
            amount: 40_000,
            recipient: OutputRecipient::Builder(BuilderOutput::P2pkh(PkOrHash::Pubkey(
                test_pubkey(),
            ))),
        }],
        InputSelector::UseAll,
    );
    assert_eq!(BitcoinEntry.preimage_hashes(&req2).unwrap_err(), ErrorKind::InvalidKey);
}

#[test]
fn error_invalid_script() {
    // A malformed control block is rejected when the claim is assembled.
    let req = request(
        vec![builder_input(
            50_000,
            BuilderInput::P2trScriptPath {
                payload: vec![0x51],
                control_block: vec![0u8; 10],
            },
        )],
        vec![Output {
            amount: 40_000,
            recipient: OutputRecipient::Builder(BuilderOutput::P2trKeyPath(test_pubkey())),
        }],
        InputSelector::UseAll,
    );
    assert_eq!(
        BitcoinEntry.sign(&req, SignerMode::Deterministic).unwrap_err(),
        ErrorKind::InvalidScript
    );

    // A merkle node hash that is not 32 bytes is rejected at output
    // processing.
    let req2 = request(
        vec![builder_input(50_000, BuilderInput::P2pkh(PkOrHash::Pubkey(test_pubkey())))],
        vec![Output {
            amount: 40_000,
            recipient: OutputRecipient::Builder(BuilderOutput::P2trScriptPath {
                internal_key: test_pubkey(),
                node_hash: vec![0u8; 31],
            }),
        }],
        InputSelector::UseAll,
    );
    assert_eq!(BitcoinEntry.preimage_hashes(&req2).unwrap_err(), ErrorKind::InvalidScript);
}

#[test]
fn error_unsupported_variant() {
    let req = request(
        vec![builder_input(50_000, BuilderInput::P2sh(vec![]))],
        vec![Output {
            amount: 40_000,
            recipient: OutputRecipient::Builder(BuilderOutput::P2pkh(PkOrHash::Pubkey(
                test_pubkey(),
            ))),
        }],
        InputSelector::UseAll,
    );
    assert_eq!(BitcoinEntry.preimage_hashes(&req).unwrap_err(), ErrorKind::UnsupportedVariant);

    let req2 = request(
        vec![builder_input(50_000, BuilderInput::P2pkh(PkOrHash::Pubkey(test_pubkey())))],
        vec![Output {
            amount: 40_000,
            recipient: OutputRecipient::FromAddress("bc1qexample".to_string()),
        }],
        InputSelector::UseAll,
    );
    assert_eq!(BitcoinEntry.preimage_hashes(&req2).unwrap_err(), ErrorKind::UnsupportedVariant);

    let req3 = request(
        vec![Input {
            txid: one_txid(),
            vout: 0,
            amount: 50_000,
            one_prevout: false,
            variant: InputVariant::Custom { script_sig: vec![], witness_items: vec![] },
        }],
        vec![Output {
            amount: 40_000,
            recipient: OutputRecipient::Builder(BuilderOutput::P2pkh(PkOrHash::Pubkey(
                test_pubkey(),
            ))),
        }],
        InputSelector::UseAll,
    );
    assert_eq!(BitcoinEntry.preimage_hashes(&req3).unwrap_err(), ErrorKind::UnsupportedVariant);
}

#[test]
fn compile_passes_custom_through() {
    // A custom input's script_sig and witness items reach the wire
    // unchanged, in content and order; its parallel signature is unused.
    let custom = Input {
        txid: one_txid(),
        vout: 7,
        amount: 50_000,
        one_prevout: false,
        variant: InputVariant::Custom {
            script_sig: vec![0x51, 0x52],
            witness_items: vec![vec![0xaa], vec![0xbb, 0xcc]],
        },
    };
    let mut plain = builder_input(30_000, BuilderInput::P2pkh(PkOrHash::Pubkey(test_pubkey())));
    plain.vout = 1;
    let req = request(
        vec![plain, custom],
        vec![Output {
            amount: 60_000,
            recipient: OutputRecipient::ScriptPubkey(vec![0x6a]),
        }],
        InputSelector::UseAll,
    );
    let mut dummy_sig = vec![0x30u8; 71];
    dummy_sig.push(0x01);
    let sigs = vec![dummy_sig.clone(), Vec::new()];
    let out = BitcoinEntry.compile(&req, &sigs).unwrap();
    let tx = decode_tx(&out.encoded);
    assert_eq!(tx.input.len(), 2);
    // The builder input spends with its pushed signature and key.
    let ss0 = tx.input[0].script_sig.as_bytes();
    assert_eq!(ss0[0] as usize, dummy_sig.len());
    assert_eq!(&ss0[1..1 + dummy_sig.len()], dummy_sig.as_slice());
    // The custom input's claim material is exactly the caller's.
    assert_eq!(tx.input[1].script_sig.as_bytes(), &[0x51, 0x52]);
    assert_eq!(tx.input[1].previous_output.vout, 7);
    let w: Vec<&[u8]> = tx.input[1].witness.iter().collect();
    assert_eq!(w.len(), 2);
    assert_eq!(w[0], &[0xaa]);
    assert_eq!(w[1], &[0xbb, 0xcc]);
    assert_eq!(out.fee, 20_000);
    // Preimage hashing still refuses the custom input: it declares no
    // sighash algorithm.
    assert_eq!(
        BitcoinEntry.preimage_hashes(&req).unwrap_err(),
        ErrorKind::UnsupportedVariant
    );
}

#[test]
fn error_missing_field() {
    let mut input = builder_input(50_000, BuilderInput::P2pkh(PkOrHash::Pubkey(test_pubkey())));
    input.txid = vec![0x11u8; 31];
    let req = request(
        vec![input],
        vec![Output {
            amount: 40_000,
            recipient: OutputRecipient::Builder(BuilderOutput::P2pkh(PkOrHash::Pubkey(
                test_pubkey(),
            ))),
        }],
        InputSelector::UseAll,
    );
    assert_eq!(BitcoinEntry.preimage_hashes(&req).unwrap_err(), ErrorKind::MissingField);
}

#[test]
fn error_signature_count_mismatch() {
    let req = request(
        vec![builder_input(50_000, BuilderInput::P2pkh(PkOrHash::Pubkey(test_pubkey())))],
        vec![Output {
            amount: 40_000,
            recipient: OutputRecipient::Builder(BuilderOutput::P2pkh(PkOrHash::Pubkey(
                test_pubkey(),
            ))),
        }],
        InputSelector::UseAll,
    );
    let sigs: Vec<Vec<u8>> = vec![];
    assert_eq!(
        BitcoinEntry.compile(&req, &sigs).unwrap_err(),
        ErrorKind::SignatureCountMismatch
    );
}

#[test]
fn error_signing_failure() {
    let mut req = request(
        vec![builder_input(50_000, BuilderInput::P2pkh(PkOrHash::Pubkey(test_pubkey())))],
        vec![Output {
            amount: 40_000,
            recipient: OutputRecipient::Builder(BuilderOutput::P2pkh(PkOrHash::Pubkey(
                test_pubkey(),
            ))),
        }],
        InputSelector::UseAll,
    );
    req.private_key = vec![0u8; 32];
    assert_eq!(
        BitcoinEntry.sign(&req, SignerMode::Deterministic).unwrap_err(),
        ErrorKind::SigningFailure
    );
}

#[test]
fn error_serialization_failure() {
    let req = request(
        vec![builder_input(50_000, BuilderInput::P2pkh(PkOrHash::Pubkey(test_pubkey())))],
        vec![Output {
            amount: 40_000,
            recipient: OutputRecipient::Builder(BuilderOutput::P2pkh(PkOrHash::Pubkey(
                test_pubkey(),
            ))),
        }],
        InputSelector::UseAll,
    );
    let sigs: Vec<Vec<u8>> = vec![vec![0x30u8; 300]];
    assert_eq!(
        BitcoinEntry.compile(&req, &sigs).unwrap_err(),
        ErrorKind::SerializationFailure
    );
}

#[test]
fn compile_accepts_external_signatures() {
    // compile is preimage + caller-side signing; it must agree with sign.
    let req = request(
        vec![builder_input(50_000, BuilderInput::P2pkh(PkOrHash::Pubkey(test_pubkey())))],
        vec![Output {
            amount: 40_000,
            recipient: OutputRecipient::Builder(BuilderOutput::P2pkh(PkOrHash::Pubkey(
                test_pubkey(),
            ))),
        }],
        InputSelector::UseAll,
    );
    let pre = BitcoinEntry.preimage_hashes(&req).unwrap();
    let secp = bitcoin::secp256k1::Secp256k1::new();
    let sk = bitcoin::secp256k1::SecretKey::from_slice(&test_privkey()).unwrap();
    let msg = bitcoin::secp256k1::Message::from_slice(&pre.sighashes[0].sighash).unwrap();
    let mut sig = secp.sign_ecdsa(&msg, &sk).serialize_der().to_vec();
    sig.push(0x01);
    let compiled = BitcoinEntry.compile(&req, &vec![sig]).unwrap();
    let signed = BitcoinEntry.sign(&req, SignerMode::Deterministic).unwrap();
    assert_eq!(compiled.encoded, signed.encoded);
    assert_eq!(compiled.transaction_id, signed.transaction_id);
}
