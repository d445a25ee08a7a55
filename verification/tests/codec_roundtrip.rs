use kaspa_pskt::codec::Payload;
use kaspa_pskt::{
    Error, InputSlot, Outpoint, OutputSlot, PartialSig, Pskt, ScriptPublicKey, Skeleton, UtxoEntry,
};

fn txid(tag: u8) -> Vec<u8> {
    let mut v = vec![0u8; 32];
    v[0] = tag;
    v
}

fn populated_skeleton() -> Skeleton {
    Skeleton {
        version: 0,
        lock_time: 7,
        fallback_lock_time: Some(99),
        inputs_modifiable: false,
        outputs_modifiable: true,
        id: Some(txid(0xaa)),
        inputs: vec![
            InputSlot {
                previous_outpoint: Outpoint {
                    transaction_id: txid(1),
                    index: 2,
                },
                sequence: 3,
                sig_op_count: 1,
                sighash_type: 1,
                redeem_script: None,
                partial_signatures: vec![PartialSig {
                    pubkey: vec![2; 33],
                    signature: vec![9; 64],
                }],
                final_script_sig: Some(vec![0, 65]),
                utxo_entry: UtxoEntry {
                    amount: 12345,
                    script_public_key: ScriptPublicKey {
                        version: 0,
                        script: vec![0x76, 0xa9],
                    },
                    block_daa_score: 55,
                    is_coinbase: true,
                },
            },
            InputSlot {
                previous_outpoint: Outpoint {
                    transaction_id: txid(2),
                    index: 0,
                },
                sequence: u64::MAX,
                sig_op_count: 2,
                sighash_type: 3,
                redeem_script: Some(vec![0xde, 0xad, 0xbe, 0xef]),
                partial_signatures: Vec::new(),
                final_script_sig: None,
                utxo_entry: UtxoEntry {
                    amount: 1,
                    script_public_key: ScriptPublicKey {
                        version: 1,
                        script: Vec::new(),
                    },
                    block_daa_score: 0,
                    is_coinbase: false,
                },
            },
        ],
        outputs: vec![OutputSlot {
            value: 500_000_000,
            script_public_key: ScriptPublicKey {
                version: 0,
                script: vec![0x76, 0xa9, 0x14],
            },
        }],
    }
}

fn assert_round_trip(p: Pskt) {
    let payload = p.serialize();
    let parsed = Pskt::new(Payload::Text(payload)).unwrap();
    assert_eq!(parsed, p);
}

#[test]
fn round_trip_no_op_without_skeleton() {
    assert_round_trip(Pskt::NoOp(None));
}

#[test]
fn round_trip_no_op_with_skeleton() {
    assert_round_trip(Pskt::NoOp(Some(populated_skeleton())));
}

#[test]
fn round_trip_creator() {
    assert_round_trip(Pskt::Creator(Skeleton::empty()));
}

#[test]
fn round_trip_constructor() {
    assert_round_trip(Pskt::Constructor(populated_skeleton()));
}

#[test]
fn round_trip_updater() {
    assert_round_trip(Pskt::Updater(populated_skeleton()));
}

#[test]
fn round_trip_signer() {
    // Populated partial signatures included.
    assert_round_trip(Pskt::Signer(populated_skeleton()));
}

#[test]
fn round_trip_combiner() {
    // A redeem script included.
    assert_round_trip(Pskt::Combiner(populated_skeleton()));
}

#[test]
fn round_trip_finalizer() {
    assert_round_trip(Pskt::Finalizer(populated_skeleton()));
}

#[test]
fn round_trip_extractor() {
    assert_round_trip(Pskt::Extractor(populated_skeleton()));
}

#[test]
fn round_trip_through_the_state_machine() {
    let mut p = Pskt::new(Payload::Empty).unwrap();
    p.to_constructor().unwrap();
    p.input_and_redeem_script(
        InputSlot {
            previous_outpoint: Outpoint {
                transaction_id: txid(4),
                index: 1,
            },
            sequence: 0,
            sig_op_count: 1,
            sighash_type: 1,
            redeem_script: None,
            partial_signatures: Vec::new(),
            final_script_sig: None,
            utxo_entry: UtxoEntry {
                amount: 5,
                script_public_key: ScriptPublicKey {
                    version: 0,
                    script: vec![1, 2, 3],
                },
                block_daa_score: 9,
                is_coinbase: false,
            },
        },
        "cafe",
    )
    .unwrap();
    assert_round_trip(p);
}

#[test]
fn exact_payload_of_the_uninitialized_state() {
    let payload = Pskt::NoOp(None).serialize();
    assert_eq!(payload, "{\"state\":\"NoOp\",\"payload\":null}".as_bytes().to_vec());
}

#[test]
fn exact_payload_of_a_fresh_creator() {
    let payload = Pskt::new(Payload::Empty).unwrap().serialize();
    let expected = "{\"state\":\"Creator\",\"payload\":{\"version\":\"0000\",\"lockTime\":\"0000000000000000\",\"fallbackLockTime\":null,\"inputsModifiable\":true,\"outputsModifiable\":true,\"id\":null,\"inputs\":[],\"outputs\":[]}}";
    assert_eq!(payload, expected.as_bytes().to_vec());
}

#[test]
fn garbage_payload_is_invalid() {
    assert_eq!(
        Pskt::new(Payload::Text("not a payload".as_bytes().to_vec())).unwrap_err(),
        Error::InvalidPayload
    );
    assert_eq!(Pskt::new(Payload::Text(Vec::new())).unwrap_err(), Error::InvalidPayload);
    // Trailing text after a valid payload is rejected.
    let mut payload = Pskt::NoOp(None).serialize();
    payload.push(32);
    assert_eq!(Pskt::new(Payload::Text(payload)).unwrap_err(), Error::InvalidPayload);
}

#[test]
fn malformed_content_in_a_parsed_payload_is_invalid() {
    // A payload whose transaction id is not 32 bytes parses but is
    // rejected as malformed.
    let mut skel = populated_skeleton();
    skel.inputs[0].previous_outpoint.transaction_id = vec![1, 2];
    let payload = Pskt::Signer(skel).serialize();
    assert_eq!(Pskt::new(Payload::Text(payload)).unwrap_err(), Error::InvalidPayload);
}
