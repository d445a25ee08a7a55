use kaspa_consensus_core::config::params::Params;
use kaspa_consensus_core::mass::MassCalculator;
use kaspa_consensus_core::network::NetworkType;
use kaspa_consensus_core::subnets::SUBNETWORK_ID_NATIVE;
use kaspa_consensus_core::tx::{
    MutableTransaction, Transaction, TransactionInput, TransactionOutpoint, TransactionOutput,
};
use kaspa_pskt::consensus::NetworkKind;
use kaspa_pskt::{
    Error, InputSlot, Outpoint, OutputSlot, PartialSig, Pskt, Role, ScriptPublicKey, Skeleton,
    UtxoEntry,
};

fn txid(tag: u8) -> Vec<u8> {
    let mut v = vec![0u8; 32];
    v[0] = tag;
    v
}

fn sample_input(tag: u8, sequence: u64) -> InputSlot {
    InputSlot {
        previous_outpoint: Outpoint {
            transaction_id: txid(tag),
            index: 0,
        },
        sequence,
        sig_op_count: 1,
        sighash_type: 1,
        redeem_script: None,
        partial_signatures: Vec::new(),
        final_script_sig: None,
        utxo_entry: UtxoEntry {
            amount: 10_000_000,
            script_public_key: ScriptPublicKey {
                version: 0,
                script: vec![0x76, 0xa9, 0x14, 1, 2, 3],
            },
            block_daa_score: 1000,
            is_coinbase: false,
        },
    }
}

fn sample_output() -> OutputSlot {
    OutputSlot {
        value: 9_000_000,
        script_public_key: ScriptPublicKey {
            version: 0,
            script: vec![0x76, 0xa9, 0x14, 9, 8, 7],
        },
    }
}

fn signer_skeleton() -> Skeleton {
    let mut s = Skeleton::empty();
    s.inputs.push(sample_input(1, 3));
    s.outputs.push(sample_output());
    s
}

/// The consensus transaction the library is expected to hash for the
/// skeleton above: empty unlocking scripts, native subnetwork, zero gas,
/// empty payload.
fn expected_unsigned_tx(s: &Skeleton, signature_script: Vec<u8>) -> Transaction {
    let inputs = s
        .inputs
        .iter()
        .map(|i| {
            TransactionInput::new(
                TransactionOutpoint::new(
                    kaspa_consensus_core::Hash::from_slice(&i.previous_outpoint.transaction_id),
                    i.previous_outpoint.index,
                ),
                signature_script.clone(),
                i.sequence,
                i.sig_op_count,
            )
        })
        .collect();
    let outputs = s
        .outputs
        .iter()
        .map(|o| {
            TransactionOutput::new(
                o.value,
                kaspa_consensus_core::tx::ScriptPublicKey::from_vec(
                    o.script_public_key.version,
                    o.script_public_key.script.clone(),
                ),
            )
        })
        .collect();
    let lock_time = s.fallback_lock_time.unwrap_or(s.lock_time);
    Transaction::new(0, inputs, outputs, lock_time, SUBNETWORK_ID_NATIVE, 0, Vec::new())
}

#[test]
fn calculate_id_matches_the_consensus_hash() {
    let skel = signer_skeleton();
    let p = Pskt::Signer(skel.clone());
    let id = p.calculate_id().unwrap();
    assert_eq!(id.len(), 32);
    let expected = expected_unsigned_tx(&skel, Vec::new()).id();
    assert_eq!(id, expected.as_bytes().to_vec());
}

#[test]
fn calculate_id_requires_the_signer_role() {
    let p = Pskt::Combiner(signer_skeleton());
    assert_eq!(p.calculate_id().unwrap_err(), Error::ExpectedState(Role::Signer));
}

#[test]
fn calculate_id_ignores_attached_signatures() {
    let skel = signer_skeleton();
    let id_before = Pskt::Signer(skel.clone()).calculate_id().unwrap();
    let mut signed = skel;
    signed.inputs[0].partial_signatures.push(PartialSig {
        pubkey: vec![2; 33],
        signature: vec![9; 64],
    });
    let id_after = Pskt::Signer(signed).calculate_id().unwrap();
    assert_eq!(id_before, id_after);
}

#[test]
fn calculate_mass_matches_the_consensus_calculation() {
    let skel = signer_skeleton();
    let p = Pskt::Combiner(skel.clone());
    let mass = p.calculate_mass(NetworkKind::Mainnet).unwrap();

    // Rebuild what the extractor computes: the stub-finalized transaction
    // with each input carrying the two-byte placeholder script.
    let tx = expected_unsigned_tx(&skel, vec![0, 65]);
    let entries = skel
        .inputs
        .iter()
        .map(|i| {
            kaspa_consensus_core::tx::UtxoEntry::new(
                i.utxo_entry.amount,
                kaspa_consensus_core::tx::ScriptPublicKey::from_vec(
                    i.utxo_entry.script_public_key.version,
                    i.utxo_entry.script_public_key.script.clone(),
                ),
                i.utxo_entry.block_daa_score,
                i.utxo_entry.is_coinbase,
                None,
            )
        })
        .collect();
    let mtx = MutableTransaction::with_entries(&tx, entries);
    let calc = MassCalculator::new_with_consensus_params(&Params::from(NetworkType::Mainnet));
    let storage = calc
        .calc_contextual_masses(&mtx.as_verifiable())
        .map(|m| m.storage_mass)
        .unwrap_or_default();
    let nc = calc.calc_non_contextual_masses(&tx);
    let expected = storage.max(nc.compute_mass).max(nc.transient_mass);
    assert_eq!(mass, expected);
    assert!(mass > 0);
}

#[test]
fn calculate_mass_is_deterministic_and_leaves_the_state_alone() {
    let p = Pskt::Combiner(signer_skeleton());
    let before = p.clone();
    let first = p.calculate_mass(NetworkKind::Mainnet).unwrap();
    let second = p.calculate_mass(NetworkKind::Mainnet).unwrap();
    assert_eq!(first, second);
    assert_eq!(p, before);
}

#[test]
fn calculate_mass_rejects_redeem_scripts() {
    let mut skel = signer_skeleton();
    skel.inputs[0].redeem_script = Some(vec![0xde, 0xad, 0xbe, 0xef]);
    let p = Pskt::Combiner(skel);
    let err = p.calculate_mass(NetworkKind::Mainnet).unwrap_err();
    assert_eq!(
        err,
        Error::Custom(String::from(
            "Mass calculation is not supported for inputs with redeem scripts"
        ))
    );
}

#[test]
fn redeem_script_scenario_fails_with_a_descriptive_error() {
    // The scenario: an input attached together with its redeem script,
    // followed later by a mass estimate.
    let mut p = Pskt::new(kaspa_pskt::codec::Payload::Empty).unwrap();
    p.to_constructor().unwrap();
    p.input_and_redeem_script(sample_input(1, 0), "deadbeef").unwrap();
    p.to_combiner().unwrap();
    let err = p.calculate_mass(NetworkKind::Mainnet).unwrap_err();
    match err {
        Error::Custom(msg) => assert!(msg.contains("redeem script")),
        other => panic!("unexpected error kind: {:?}", other),
    }
}

#[test]
fn calculate_mass_requires_a_reachable_finalizer() {
    let p = Pskt::Creator(Skeleton::empty());
    assert_eq!(
        p.calculate_mass(NetworkKind::Mainnet).unwrap_err(),
        Error::WrongRole(Role::Creator)
    );
    let p = Pskt::NoOp(None);
    assert_eq!(p.calculate_mass(NetworkKind::Mainnet).unwrap_err(), Error::NotInitialized);
}

#[test]
fn calculate_mass_rejects_unsupported_shapes() {
    // No inputs at all.
    let p = Pskt::Combiner(Skeleton::empty());
    assert_eq!(
        p.calculate_mass(NetworkKind::Mainnet).unwrap_err(),
        Error::Custom(String::from("Mass calculation is not supported for this transaction"))
    );
    // A consumed amount of zero.
    let mut skel = signer_skeleton();
    skel.inputs[0].utxo_entry.amount = 0;
    let p = Pskt::Combiner(skel);
    assert_eq!(
        p.calculate_mass(NetworkKind::Mainnet).unwrap_err(),
        Error::Custom(String::from("Mass calculation is not supported for this transaction"))
    );
    // An output of zero value.
    let mut skel = signer_skeleton();
    skel.outputs[0].value = 0;
    let p = Pskt::Combiner(skel);
    assert_eq!(
        p.calculate_mass(NetworkKind::Mainnet).unwrap_err(),
        Error::Custom(String::from("Mass calculation is not supported for this transaction"))
    );
}

#[test]
fn mass_differs_between_distinct_transactions() {
    // A second output changes the serialized size, so the mass moves.
    let one = Pskt::Combiner(signer_skeleton()).calculate_mass(NetworkKind::Mainnet).unwrap();
    let mut skel = signer_skeleton();
    skel.outputs.push(sample_output());
    let two = Pskt::Combiner(skel).calculate_mass(NetworkKind::Mainnet).unwrap();
    assert!(two > one);
}
