use kaspa_pskt::codec::Payload;
use kaspa_pskt::{
    Error, InputSlot, Outpoint, OutputSlot, PartialSig, Pskt, Role, ScriptPublicKey, Skeleton,
    UtxoEntry,
};

fn txid(tag: u8) -> Vec<u8> {
    let mut v = vec![0u8; 32];
    v[0] = tag;
    v
}

fn sample_utxo() -> UtxoEntry {
    UtxoEntry {
        amount: 10_000_000,
        script_public_key: ScriptPublicKey {
            version: 0,
            script: vec![0x76, 0xa9, 0x14, 1, 2, 3, 4, 5, 6, 7, 8, 9, 10],
        },
        block_daa_score: 1000,
        is_coinbase: false,
    }
}

fn sample_input(tag: u8, sequence: u64) -> InputSlot {
    InputSlot {
        previous_outpoint: Outpoint {
            transaction_id: txid(tag),
            index: 0,
        },
        sequence,
        sig_op_count: 1,
        sighash_type: 1,
        redeem_script: None,
        partial_signatures: Vec::new(),
        final_script_sig: None,
        utxo_entry: sample_utxo(),
    }
}

fn sample_output() -> OutputSlot {
    OutputSlot {
        value: 500_000_000,
        script_public_key: ScriptPublicKey {
            version: 0,
            script: vec![0x76, 0xa9, 0x14, 9, 8, 7],
        },
    }
}

#[test]
fn fresh_instance_is_creator_with_empty_skeleton() {
    let p = Pskt::new(Payload::Empty).unwrap();
    assert_eq!(p.role(), Role::Creator);
    assert_eq!(p.role_name(), "Creator");
    match &p {
        Pskt::Creator(s) => {
            assert_eq!(s.version, 0);
            assert_eq!(s.lock_time, 0);
            assert_eq!(s.fallback_lock_time, None);
            assert!(s.inputs.is_empty());
            assert!(s.outputs.is_empty());
            assert_eq!(s.id, None);
        }
        _ => panic!("fresh instance is not a creator"),
    }
}

#[test]
fn creator_from_uninitialized_transitional_state() {
    let mut p = Pskt::NoOp(None);
    assert_eq!(p.role_name(), "Init");
    p.creator().unwrap();
    assert_eq!(p.role(), Role::Creator);
}

#[test]
fn creator_fails_on_imported_state() {
    let mut p = Pskt::NoOp(Some(Skeleton::empty()));
    let err = p.creator().unwrap_err();
    assert_eq!(err, Error::CreateNotAllowed);
    // A failed operation leaves the machine in its previous state.
    assert_eq!(p.role(), Role::NoOp);
}

#[test]
fn uninitialized_transitions_fail_with_not_initialized() {
    assert_eq!(Pskt::NoOp(None).to_constructor().unwrap_err(), Error::NotInitialized);
    assert_eq!(Pskt::NoOp(None).to_updater().unwrap_err(), Error::NotInitialized);
    assert_eq!(Pskt::NoOp(None).to_signer().unwrap_err(), Error::NotInitialized);
    assert_eq!(Pskt::NoOp(None).to_combiner().unwrap_err(), Error::NotInitialized);
    assert_eq!(Pskt::NoOp(None).to_finalizer().unwrap_err(), Error::NotInitialized);
    assert_eq!(Pskt::NoOp(None).to_extractor().unwrap_err(), Error::NotInitialized);
}

#[test]
fn listed_transitions_succeed_and_produce_the_named_role() {
    // Creator -> Constructor -> Updater -> Signer -> Combiner -> Finalizer.
    let mut p = Pskt::new(Payload::Empty).unwrap();
    p.to_constructor().unwrap();
    assert_eq!(p.role(), Role::Constructor);
    p.to_updater().unwrap();
    assert_eq!(p.role(), Role::Updater);
    p.to_signer().unwrap();
    assert_eq!(p.role(), Role::Signer);
    p.to_combiner().unwrap();
    assert_eq!(p.role(), Role::Combiner);
    p.to_finalizer().unwrap();
    assert_eq!(p.role(), Role::Finalizer);

    // The imported transitional state may move to any role directly.
    let mut q = Pskt::NoOp(Some(Skeleton::empty()));
    q.to_extractor().unwrap();
    assert_eq!(q.role(), Role::Extractor);
    let mut q = Pskt::NoOp(Some(Skeleton::empty()));
    q.to_signer().unwrap();
    assert_eq!(q.role(), Role::Signer);
    // Signer -> Combiner and Combiner -> Signer are both listed.
    q.to_combiner().unwrap();
    assert_eq!(q.role(), Role::Combiner);
    q.to_signer().unwrap();
    assert_eq!(q.role(), Role::Signer);
}

#[test]
fn non_listed_transitions_fail_with_wrong_role() {
    let mut p = Pskt::new(Payload::Empty).unwrap();
    // Creator may only move to Constructor.
    assert_eq!(p.to_updater().unwrap_err(), Error::WrongRole(Role::Creator));
    assert_eq!(p.to_signer().unwrap_err(), Error::WrongRole(Role::Creator));
    assert_eq!(p.to_combiner().unwrap_err(), Error::WrongRole(Role::Creator));
    assert_eq!(p.to_finalizer().unwrap_err(), Error::WrongRole(Role::Creator));
    assert_eq!(p.to_extractor().unwrap_err(), Error::WrongRole(Role::Creator));
    assert_eq!(p.creator().unwrap_err(), Error::WrongRole(Role::Creator));
    // Failures left the machine untouched.
    assert_eq!(p.role(), Role::Creator);

    let mut s = Pskt::Signer(Skeleton::empty());
    assert_eq!(s.to_constructor().unwrap_err(), Error::WrongRole(Role::Signer));
    assert_eq!(s.to_updater().unwrap_err(), Error::WrongRole(Role::Signer));
    assert_eq!(s.to_finalizer().unwrap_err(), Error::WrongRole(Role::Signer));

    let mut x = Pskt::Extractor(Skeleton::empty());
    assert_eq!(x.to_signer().unwrap_err(), Error::WrongRole(Role::Extractor));
}

#[test]
fn role_scoped_operations_fail_with_expected_state_elsewhere() {
    let mut p = Pskt::new(Payload::Empty).unwrap();
    // Constructor operations in the creator role.
    assert_eq!(p.no_more_inputs().unwrap_err(), Error::ExpectedState(Role::Constructor));
    assert_eq!(p.no_more_outputs().unwrap_err(), Error::ExpectedState(Role::Constructor));
    assert_eq!(p.input(sample_input(1, 0)).unwrap_err(), Error::ExpectedState(Role::Constructor));
    assert_eq!(p.output(sample_output()).unwrap_err(), Error::ExpectedState(Role::Constructor));
    // Updater and signer operations in the creator role.
    assert_eq!(p.set_sequence(1, 0).unwrap_err(), Error::ExpectedState(Role::Updater));
    assert_eq!(p.calculate_id().unwrap_err(), Error::ExpectedState(Role::Signer));
    // Creator operations after moving on.
    p.to_constructor().unwrap();
    assert_eq!(p.fallback_lock_time(5).unwrap_err(), Error::ExpectedState(Role::Creator));
    assert_eq!(p.inputs_modifiable().unwrap_err(), Error::ExpectedState(Role::Creator));
    assert_eq!(p.outputs_modifiable().unwrap_err(), Error::ExpectedState(Role::Creator));
}

#[test]
fn creator_operations_chain_and_set_flags() {
    let mut p = Pskt::new(Payload::Empty).unwrap();
    p.fallback_lock_time(123).unwrap();
    p.inputs_modifiable().unwrap();
    p.outputs_modifiable().unwrap();
    match &p {
        Pskt::Creator(s) => {
            assert_eq!(s.fallback_lock_time, Some(123));
            assert!(s.inputs_modifiable);
            assert!(s.outputs_modifiable);
        }
        _ => panic!("role changed unexpectedly"),
    }
}

#[test]
fn constructor_scenario_with_updater_sequence() {
    // Creator -> Constructor -> one input and one output -> freeze both
    // lists -> Updater -> set_sequence in and out of bounds.
    let mut p = Pskt::new(Payload::Empty).unwrap();
    p.to_constructor().unwrap();
    p.input(sample_input(1, 0)).unwrap();
    p.output(sample_output()).unwrap();
    p.no_more_inputs().unwrap();
    p.no_more_outputs().unwrap();
    p.to_updater().unwrap();
    p.set_sequence(5, 0).unwrap();
    match &p {
        Pskt::Updater(s) => assert_eq!(s.inputs[0].sequence, 5),
        _ => panic!("not an updater"),
    }
    let err = p.set_sequence(5, 1).unwrap_err();
    assert_eq!(err, Error::Custom(String::from("input index out of bounds")));
    match &p {
        Pskt::Updater(s) => assert_eq!(s.inputs[0].sequence, 5),
        _ => panic!("failed operation changed the state"),
    }
}

#[test]
fn frozen_lists_reject_further_slots() {
    let mut p = Pskt::new(Payload::Empty).unwrap();
    p.to_constructor().unwrap();
    p.input(sample_input(1, 0)).unwrap();
    p.no_more_inputs().unwrap();
    let err = p.input(sample_input(2, 0)).unwrap_err();
    assert_eq!(err, Error::Custom(String::from("inputs can no longer be added")));
    p.no_more_outputs().unwrap();
    let err = p.output(sample_output()).unwrap_err();
    assert_eq!(err, Error::Custom(String::from("outputs can no longer be added")));
    match &p {
        Pskt::Constructor(s) => {
            assert_eq!(s.inputs.len(), 1);
            assert_eq!(s.outputs.len(), 0);
        }
        _ => panic!("not a constructor"),
    }
}

#[test]
fn malformed_input_is_a_conversion_error() {
    let mut p = Pskt::new(Payload::Empty).unwrap();
    p.to_constructor().unwrap();
    let mut bad = sample_input(1, 0);
    bad.previous_outpoint.transaction_id = vec![1, 2, 3];
    assert_eq!(p.input(bad).unwrap_err(), Error::ConstructorConversionError);
}

#[test]
fn redeem_script_hex_is_decoded_and_attached() {
    let mut p = Pskt::new(Payload::Empty).unwrap();
    p.to_constructor().unwrap();
    p.input_and_redeem_script(sample_input(1, 0), "deadbeef").unwrap();
    match &p {
        Pskt::Constructor(s) => {
            assert_eq!(s.inputs[0].redeem_script, Some(vec![0xde, 0xad, 0xbe, 0xef]));
        }
        _ => panic!("not a constructor"),
    }
}

#[test]
fn redeem_script_hex_accepts_uppercase_and_empty_text() {
    let mut p = Pskt::new(Payload::Empty).unwrap();
    p.to_constructor().unwrap();
    p.input_and_redeem_script(sample_input(1, 0), "DEADBEEF").unwrap();
    p.input_and_redeem_script(sample_input(2, 0), "").unwrap();
    match &p {
        Pskt::Constructor(s) => {
            assert_eq!(s.inputs[0].redeem_script, Some(vec![0xde, 0xad, 0xbe, 0xef]));
            assert_eq!(s.inputs[1].redeem_script, Some(Vec::new()));
        }
        _ => panic!("not a constructor"),
    }
}

#[test]
fn redeem_script_rejects_text_that_is_not_hex() {
    let mut p = Pskt::new(Payload::Empty).unwrap();
    p.to_constructor().unwrap();
    let err = p.input_and_redeem_script(sample_input(1, 0), "xyz").unwrap_err();
    assert_eq!(err, Error::Custom(String::from("Redeem script is not a hex string")));
    let err = p.input_and_redeem_script(sample_input(1, 0), "abc").unwrap_err();
    assert_eq!(err, Error::Custom(String::from("Redeem script is not a hex string")));
}

#[test]
fn extraction_without_finalization_fails() {
    // Constructor with zero inputs, to the finalizer via the combiner:
    // extraction must report that the transaction is not finalized.
    let mut p = Pskt::new(Payload::Empty).unwrap();
    p.to_constructor().unwrap();
    p.to_combiner().unwrap();
    p.to_finalizer().unwrap();
    let err = p.to_extractor().unwrap_err();
    assert_eq!(err, Error::TxNotFinalized);
    assert_eq!(p.role(), Role::Finalizer);
}

#[test]
fn finalized_import_reaches_the_extractor() {
    let mut skel = Skeleton::empty();
    skel.id = Some(txid(9));
    let mut p = Pskt::NoOp(Some(skel));
    p.to_finalizer().unwrap();
    p.to_extractor().unwrap();
    assert_eq!(p.role(), Role::Extractor);
}

#[test]
fn imported_skeleton_constructor_input() {
    let mut skel = Skeleton::empty();
    skel.inputs.push(sample_input(3, 7));
    let p = Pskt::new(Payload::Transaction(skel.clone())).unwrap();
    assert_eq!(p, Pskt::NoOp(Some(skel)));

    let mut bad = Skeleton::empty();
    bad.inputs.push(InputSlot {
        previous_outpoint: Outpoint { transaction_id: vec![1], index: 0 },
        ..sample_input(1, 0)
    });
    assert_eq!(
        Pskt::new(Payload::Transaction(bad)).unwrap_err(),
        Error::ConstructorConversionError
    );
}

#[test]
fn partial_signatures_travel_with_the_skeleton() {
    let mut input = sample_input(1, 0);
    input.partial_signatures.push(PartialSig {
        pubkey: vec![2; 33],
        signature: vec![7; 64],
    });
    let mut p = Pskt::new(Payload::Empty).unwrap();
    p.to_constructor().unwrap();
    p.input(input).unwrap();
    p.to_signer().unwrap();
    match &p {
        Pskt::Signer(s) => {
            assert_eq!(s.inputs[0].partial_signatures.len(), 1);
            assert_eq!(s.inputs[0].partial_signatures[0].pubkey, vec![2; 33]);
        }
        _ => panic!("not a signer"),
    }
}
