//! The consensus boundary: the transaction-id hash and the consensus mass
//! are computed by the consensus library, behind trusted wrappers that take
//! and return plain values. Everything the wrappers feed to the library is
//! assembled here by verified code from the skeleton.

use vstd::prelude::*;
use crate::error::{Error, ErrorV};
use crate::model::SkeletonV;
use crate::pskt::{role_of, Pskt, PsktV, Role};
use kaspa_consensus_core::mass::MassCalculator;
use kaspa_consensus_core::subnets::SUBNETWORK_ID_NATIVE;
use kaspa_consensus_core::config::params::Params;
use kaspa_consensus_core::network::NetworkType;
use kaspa_consensus_core::tx::{
    MutableTransaction, ScriptPublicKey, Transaction, TransactionInput, TransactionOutpoint,
    TransactionOutput, UtxoEntry,
};

verus! {

/// The network whose consensus parameters govern extraction and mass.
#[derive(Clone, Copy, Debug, PartialEq, Eq, Structural)]
pub enum NetworkKind {
    Mainnet,
    Testnet,
    Devnet,
    Simnet,
}

/// The plain data of one input of a consensus transaction.
pub struct TxInputData {
    pub transaction_id: Vec<u8>,
    pub index: u32,
    pub signature_script: Vec<u8>,
    pub sequence: u64,
    pub sig_op_count: u8,
}

/// Specification view of a [`TxInputData`].
#[verifier::ext_equal]
pub struct TxInputDataV {
    pub transaction_id: Seq<u8>,
    pub index: u32,
    pub signature_script: Seq<u8>,
    pub sequence: u64,
    pub sig_op_count: u8,
}

impl View for TxInputData {
    type V = TxInputDataV;

    open spec fn view(&self) -> TxInputDataV {
        TxInputDataV {
            transaction_id: self.transaction_id@,
            index: self.index,
            signature_script: self.signature_script@,
            sequence: self.sequence,
            sig_op_count: self.sig_op_count,
        }
    }
}

/// The plain data of one output of a consensus transaction.
pub struct TxOutputData {
    pub value: u64,
    pub script_version: u16,
    pub script: Vec<u8>,
}

/// Specification view of a [`TxOutputData`].
#[verifier::ext_equal]
pub struct TxOutputDataV {
    pub value: u64,
    pub script_version: u16,
    pub script: Seq<u8>,
}

impl View for TxOutputData {
    type V = TxOutputDataV;

    open spec fn view(&self) -> TxOutputDataV {
        TxOutputDataV {
            value: self.value,
            script_version: self.script_version,
            script: self.script@,
        }
    }
}

/// The plain data of the unspent output one input consumes.
pub struct TxEntryData {
    pub amount: u64,
    pub script_version: u16,
    pub script: Vec<u8>,
    pub block_daa_score: u64,
    pub is_coinbase: bool,
}

/// Specification view of a [`TxEntryData`].
#[verifier::ext_equal]
pub struct TxEntryDataV {
    pub amount: u64,
    pub script_version: u16,
    pub script: Seq<u8>,
    pub block_daa_score: u64,
    pub is_coinbase: bool,
}

impl View for TxEntryData {
    type V = TxEntryDataV;

    open spec fn view(&self) -> TxEntryDataV {
        TxEntryDataV {
            amount: self.amount,
            script_version: self.script_version,
            script: self.script@,
            block_daa_score: self.block_daa_score,
            is_coinbase: self.is_coinbase,
        }
    }
}

/// The plain fields a consensus transaction was built from.
#[verifier::ext_equal]
pub struct TxDataV {
    pub version: u16,
    pub lock_time: u64,
    pub inputs: Seq<TxInputDataV>,
    pub outputs: Seq<TxOutputDataV>,
}

#[verifier::external_type_specification]
#[verifier::external_body]
pub struct ExTransaction(Transaction);

/// The plain fields `build_tx` assembled a consensus transaction from:
/// `Transaction::new` stores its arguments, so the transaction determines
/// them.
pub uninterp spec fn tx_data(t: Transaction) -> TxDataV;

/// The transaction id that `Transaction::id` computes: a 32-byte hash that
/// is a function of the transaction's fields alone.
pub uninterp spec fn tx_id_of(d: TxDataV) -> Seq<u8>;

/// The mass-calculation parameters of a network, as `Params` records them:
/// grams per transaction byte, grams per script-public-key byte, and the
/// storage-mass parameter.
pub uninterp spec fn mass_params_of(network: NetworkKind) -> (u64, u64, u64);

/// The consensus mass of a finalized transaction with the given consumed
/// entries under the given parameters: the maximum of the storage,
/// compute and transient masses, as the extractor computes it.
pub uninterp spec fn mass_of(
    d: TxDataV,
    entries: Seq<TxEntryDataV>,
    mass_per_tx_byte: u64,
    mass_per_script_pub_key_byte: u64,
    storage_mass_parameter: u64,
) -> u64;

/// Relies on `kaspa_consensus_core::tx::Transaction::new`: it stores the
/// given fields (with the native subnetwork, zero gas and an empty
/// payload) and finalizes the id deterministically from them. The 32-byte
/// transaction-id requirement matches `Hash::from_slice`, which panics on
/// any other length.
#[verifier::external_body]
fn build_tx(
    version: u16,
    lock_time: u64,
    inputs: &Vec<TxInputData>,
    outputs: &Vec<TxOutputData>,
) -> (t: Transaction)
    requires
        forall|i: int| 0 <= i < inputs@.len() ==> inputs@[i].transaction_id@.len() == 32,
    ensures
        tx_data(t) == (TxDataV {
            version,
            lock_time,
            inputs: Seq::new(inputs@.len(), |i: int| inputs@[i]@),
            outputs: Seq::new(outputs@.len(), |i: int| outputs@[i]@),
        }),
{
    let ins = inputs.iter().map(|i| TransactionInput::new(
        TransactionOutpoint::new(kaspa_consensus_core::Hash::from_slice(&i.transaction_id), i.index),
        i.signature_script.clone(), i.sequence, i.sig_op_count,
    )).collect();
    let outs = outputs.iter().map(|o| TransactionOutput::new(
        o.value, ScriptPublicKey::from_vec(o.script_version, o.script.clone()),
    )).collect();
    Transaction::new(version, ins, outs, lock_time, SUBNETWORK_ID_NATIVE, 0, vec![])
}

/// Relies on `kaspa_consensus_core::tx::Transaction::id`: the id is the
/// 32-byte hash the constructor finalized from the transaction's fields.
#[verifier::external_body]
fn tx_id(t: &Transaction) -> (r: Vec<u8>)
    ensures
        r@ == tx_id_of(tx_data(*t)),
        r@.len() == 32,
{
    t.id().as_bytes().to_vec()
}

/// Relies on `kaspa_consensus_core::config::params::Params`: each network
/// has fixed mass parameters, and on every network they are small (one
/// gram per byte, ten per script-public-key byte, and a storage-mass
/// parameter of ten-thousand times the sompi per unit), which bounds the
/// arithmetic in the mass calculation.
#[verifier::external_body]
fn network_mass_params(network: NetworkKind) -> (r: (u64, u64, u64))
    ensures
        r == mass_params_of(network),
        r.0 <= 16,
        r.1 <= 100,
        r.2 <= 1000000000000,
{
    let nt = match network {
        NetworkKind::Mainnet => NetworkType::Mainnet,
        NetworkKind::Testnet => NetworkType::Testnet,
        NetworkKind::Devnet => NetworkType::Devnet,
        NetworkKind::Simnet => NetworkType::Simnet,
    };
    let p = Params::from(nt);
    (p.mass_per_tx_byte, p.mass_per_script_pub_key_byte, p.storage_mass_parameter)
}

/// The total amount consumed by a list of entries.
pub open spec fn sum_entry_amounts(entries: Seq<TxEntryDataV>) -> int
    decreases entries.len(),
{
    if entries.len() == 0 {
        0
    } else {
        entries[0].amount + sum_entry_amounts(entries.skip(1))
    }
}

/// Appending one entry adds its amount to the total.
pub proof fn lemma_sum_entry_amounts_push(entries: Seq<TxEntryDataV>, e: TxEntryDataV)
    ensures
        sum_entry_amounts(entries.push(e)) == sum_entry_amounts(entries) + e.amount,
    decreases entries.len(),
{
    assert(entries.push(e).len() == entries.len() + 1);
    assert(sum_entry_amounts(entries.push(e)) == entries.push(e)[0].amount + sum_entry_amounts(
        entries.push(e).skip(1),
    ));
    if entries.len() == 0 {
        assert(entries.push(e)[0] == e);
        assert(entries.push(e).skip(1) =~= Seq::<TxEntryDataV>::empty());
        assert(sum_entry_amounts(entries.push(e).skip(1)) == 0);
    } else {
        assert(entries.push(e)[0] == entries[0]);
        assert(entries.push(e).skip(1) =~= entries.skip(1).push(e));
        lemma_sum_entry_amounts_push(entries.skip(1), e);
        assert(sum_entry_amounts(entries.push(e).skip(1)) == sum_entry_amounts(entries.skip(1))
            + e.amount);
        assert(sum_entry_amounts(entries) == entries[0].amount + sum_entry_amounts(
            entries.skip(1),
        ));
    }
}

/// Relies on `MassCalculator::calc_non_contextual_masses` and
/// `calc_contextual_masses` of `kaspa_consensus_core`, combined as the
/// extractor combines them: the consensus mass is the maximum of the
/// storage, compute and transient masses and is a function of the
/// transaction, the consumed entries and the three parameters. The
/// preconditions exclude exactly the shapes on which the calculation
/// would divide by zero or overflow: version zero commits a sig-op count
/// per input, every amount is positive, scripts and list lengths are
/// bounded, and the consumed total fits a 64-bit word.
#[verifier::external_body]
fn tx_mass(
    t: &Transaction,
    entries: &Vec<TxEntryData>,
    mass_per_tx_byte: u64,
    mass_per_script_pub_key_byte: u64,
    storage_mass_parameter: u64,
) -> (r: u64)
    requires
        tx_data(*t).version == 0,
        1 <= tx_data(*t).inputs.len() <= 100000,
        tx_data(*t).outputs.len() <= 100000,
        entries@.len() == tx_data(*t).inputs.len(),
        forall|i: int| 0 <= i < tx_data(*t).inputs.len() ==> (
        #[trigger] tx_data(*t).inputs[i]).signature_script.len() <= 1000,
        forall|i: int| 0 <= i < tx_data(*t).outputs.len() ==> (
        #[trigger] tx_data(*t).outputs[i]).value >= 1 && tx_data(*t).outputs[i].script.len()
            <= 1000,
        forall|i: int| 0 <= i < entries@.len() ==> (#[trigger] entries@[i])@.amount >= 1
            && entries@[i]@.script.len() <= 1000,
        sum_entry_amounts(Seq::new(entries@.len(), |i: int| entries@[i]@)) <= u64::MAX,
        mass_per_tx_byte <= 16,
        mass_per_script_pub_key_byte <= 100,
        storage_mass_parameter <= 1000000000000,
    ensures
        r == mass_of(
            tx_data(*t),
            Seq::new(entries@.len(), |i: int| entries@[i]@),
            mass_per_tx_byte,
            mass_per_script_pub_key_byte,
            storage_mass_parameter,
        ),
{
    let entries = entries.iter().map(|e| UtxoEntry::new(
        e.amount, ScriptPublicKey::from_vec(e.script_version, e.script.clone()),
        e.block_daa_score, e.is_coinbase, None,
    )).collect();
    let mtx = MutableTransaction::with_entries(t, entries);
    let calc = MassCalculator::new(
        mass_per_tx_byte, mass_per_script_pub_key_byte, storage_mass_parameter,
    );
    let storage =
        calc.calc_contextual_masses(&mtx.as_verifiable()).map(|m| m.storage_mass).unwrap_or_default();
    let nc = calc.calc_non_contextual_masses(t);
    storage.max(nc.compute_mass).max(nc.transient_mass)
}

/// The lock time the built transaction carries: the fallback when one was
/// set (no input of this model requires a lock time of its own), else the
/// skeleton's own lock time.
pub open spec fn effective_lock_time(s: SkeletonV) -> u64 {
    match s.fallback_lock_time {
        Some(t) => t,
        None => s.lock_time,
    }
}

/// The fields the transaction id is computed over: version, the inputs'
/// outpoints, sequences and sig-op counts (with empty unlocking scripts),
/// the outputs, and the effective lock time. Signatures, redeem scripts
/// and consumed-output data play no part.
pub open spec fn id_tx_data(s: SkeletonV) -> TxDataV {
    TxDataV {
        version: s.version,
        lock_time: effective_lock_time(s),
        inputs: Seq::new(
            s.inputs.len(),
            |i: int|
                TxInputDataV {
                    transaction_id: s.inputs[i].previous_outpoint.transaction_id,
                    index: s.inputs[i].previous_outpoint.index,
                    signature_script: Seq::empty(),
                    sequence: s.inputs[i].sequence,
                    sig_op_count: s.inputs[i].sig_op_count,
                },
        ),
        outputs: Seq::new(
            s.outputs.len(),
            |i: int|
                TxOutputDataV {
                    value: s.outputs[i].value,
                    script_version: s.outputs[i].script_public_key.version,
                    script: s.outputs[i].script_public_key.script,
                },
        ),
    }
}

/// The placeholder unlocking script the mass estimate finalizes each
/// input with, so the serialized size reflects a standard signature slot
/// without real key material.
pub open spec fn stub_signature() -> Seq<u8> {
    seq![0u8, 65u8]
}

/// The fields the mass estimate is computed over: as `id_tx_data`, but
/// every input carries the placeholder unlocking script the stub
/// finalization produced.
pub open spec fn mass_tx_data(s: SkeletonV) -> TxDataV {
    TxDataV {
        inputs: Seq::new(
            s.inputs.len(),
            |i: int|
                TxInputDataV {
                    transaction_id: s.inputs[i].previous_outpoint.transaction_id,
                    index: s.inputs[i].previous_outpoint.index,
                    signature_script: stub_signature(),
                    sequence: s.inputs[i].sequence,
                    sig_op_count: s.inputs[i].sig_op_count,
                },
        ),
        ..id_tx_data(s)
    }
}

/// The consumed-output entries of a skeleton, one per input, in input
/// order.
pub open spec fn entries_of(s: SkeletonV) -> Seq<TxEntryDataV> {
    Seq::new(
        s.inputs.len(),
        |i: int|
            TxEntryDataV {
                amount: s.inputs[i].utxo_entry.amount,
                script_version: s.inputs[i].utxo_entry.script_public_key.version,
                script: s.inputs[i].utxo_entry.script_public_key.script,
                block_daa_score: s.inputs[i].utxo_entry.block_daa_score,
                is_coinbase: s.inputs[i].utxo_entry.is_coinbase,
            },
    )
}

/// Whether any input carries a redeem script.
pub open spec fn has_redeem_script(s: SkeletonV) -> bool {
    exists|j: int| 0 <= j < s.inputs.len() && (#[trigger] s.inputs[j]).redeem_script is Some
}

/// The message of the error returned when a mass estimate is requested
/// for a skeleton with a redeem script.
pub open spec fn msg_mass_redeem() -> Seq<char> {
    "Mass calculation is not supported for inputs with redeem scripts"@
}

/// The message of the error returned when a mass estimate is requested
/// for a shape the consensus calculation does not support.
pub open spec fn msg_mass_unsupported() -> Seq<char> {
    "Mass calculation is not supported for this transaction"@
}

/// The shapes the consensus mass calculation supports: a version-zero
/// transaction with at least one input, bounded list and script sizes,
/// positive amounts, and a consumed total that fits a 64-bit word.
pub open spec fn mass_supported(s: SkeletonV) -> bool {
    &&& s.version == 0
    &&& 1 <= s.inputs.len() <= 100000
    &&& s.outputs.len() <= 100000
    &&& forall|i: int|
        0 <= i < s.inputs.len() ==> (#[trigger] s.inputs[i]).utxo_entry.amount >= 1
            && s.inputs[i].utxo_entry.script_public_key.script.len() <= 1000
    &&& forall|i: int|
        0 <= i < s.outputs.len() ==> (#[trigger] s.outputs[i]).value >= 1
            && s.outputs[i].script_public_key.script.len() <= 1000
    &&& sum_entry_amounts(entries_of(s)) <= u64::MAX
}

/// What a mass estimate yields for one skeleton: the redeem-script
/// rejection first, then the supported-shape rejection, then the mass of
/// the stub-finalized transaction under the network's parameters.
pub open spec fn mass_result_for(s: SkeletonV, network: NetworkKind) -> Result<u64, ErrorV> {
    if has_redeem_script(s) {
        Err(ErrorV::Custom(msg_mass_redeem()))
    } else if !mass_supported(s) {
        Err(ErrorV::Custom(msg_mass_unsupported()))
    } else {
        Ok(
            mass_of(
                mass_tx_data(s),
                entries_of(s),
                mass_params_of(network).0,
                mass_params_of(network).1,
                mass_params_of(network).2,
            ),
        )
    }
}

/// What `calculate_mass` returns: it works on a copy taken through the
/// finalizer transition, so it is defined exactly where that transition
/// is, and fails with that transition's error elsewhere.
pub open spec fn calc_mass_spec(p: PsktV, network: NetworkKind) -> Result<u64, ErrorV> {
    match p {
        PsktV::NoOp(Some(s)) => mass_result_for(s, network),
        PsktV::NoOp(None) => Err(ErrorV::NotInitialized),
        PsktV::Combiner(s) => mass_result_for(s, network),
        _ => Err(ErrorV::WrongRole(role_of(p))),
    }
}

/// The sum of a prefix of the entries never exceeds the sum of the whole
/// list, the amounts being non-negative.
proof fn lemma_sum_split(entries: Seq<TxEntryDataV>, i: int)
    requires
        0 <= i <= entries.len(),
    ensures
        sum_entry_amounts(entries) == sum_entry_amounts(entries.take(i)) + sum_entry_amounts(
            entries.skip(i),
        ),
    decreases i,
{
    if i == 0 {
        assert(entries.take(0) =~= Seq::<TxEntryDataV>::empty());
        assert(entries.skip(0) =~= entries);
    } else {
        lemma_sum_split(entries, i - 1);
        assert(entries.take(i) =~= entries.take(i - 1).push(entries[i - 1]));
        lemma_sum_entry_amounts_push(entries.take(i - 1), entries[i - 1]);
        assert(entries.skip(i - 1)[0] == entries[i - 1]);
        assert(entries.skip(i - 1).skip(1) =~= entries.skip(i));
        assert(sum_entry_amounts(entries.skip(i - 1)) == entries[i - 1].amount
            + sum_entry_amounts(entries.skip(i)));
    }
}

/// Entry amounts are non-negative, so every sum of them is.
proof fn lemma_sum_nonneg(entries: Seq<TxEntryDataV>)
    ensures
        sum_entry_amounts(entries) >= 0,
    decreases entries.len(),
{
    if entries.len() > 0 {
        lemma_sum_nonneg(entries.skip(1));
    }
}

impl Pskt {
    /// Computes the transaction id over the current skeleton. Legal only
    /// in the signer role: the id must be identical across independent
    /// signer copies before any signature data is added, so that all
    /// parties sign the same transaction.
    pub fn calculate_id(&self) -> (r: Result<Vec<u8>, Error>)
        requires
            self@.wf(),
        ensures
            match self@ {
                PsktV::Signer(s) => r matches Ok(id) && id@ == tx_id_of(id_tx_data(s))
                    && id@.len() == 32,
                _ => r matches Err(e) && e@ == ErrorV::ExpectedState(Role::Signer),
            },
    {
        let s: &crate::model::Skeleton = match self {
            Pskt::Signer(s) => s,
            _ => {
                return Err(Error::ExpectedState(Role::Signer));
            },
        };
        let mut ins: Vec<TxInputData> = Vec::new();
        let mut i: usize = 0;
        while i < s.inputs.len()
            invariant
                i <= s.inputs.len(),
                ins@.len() == i,
                forall|k: int| 0 <= k < i ==> #[trigger] ins@[k]@ == id_tx_data(s@).inputs[k],
                forall|k: int| 0 <= k < i ==> (#[trigger] ins@[k])@.transaction_id.len() == 32,
                s@.wf(),
            decreases s.inputs.len() - i,
        {
            let inp = &s.inputs[i];
            let tid = inp.previous_outpoint.transaction_id.clone();
            proof {
                assert(tid@ =~= inp.previous_outpoint.transaction_id@);
            }
            ins.push(
                TxInputData {
                    transaction_id: tid,
                    index: inp.previous_outpoint.index,
                    signature_script: Vec::new(),
                    sequence: inp.sequence,
                    sig_op_count: inp.sig_op_count,
                },
            );
            proof {
                assert(ins@[i as int]@ =~~= id_tx_data(s@).inputs[i as int]);
            }
            i = i + 1;
        }
        let mut outs: Vec<TxOutputData> = Vec::new();
        let mut j: usize = 0;
        while j < s.outputs.len()
            invariant
                j <= s.outputs.len(),
                outs@.len() == j,
                forall|k: int| 0 <= k < j ==> #[trigger] outs@[k]@ == id_tx_data(s@).outputs[k],
            decreases s.outputs.len() - j,
        {
            let outp = &s.outputs[j];
            let script = outp.script_public_key.script.clone();
            proof {
                assert(script@ =~= outp.script_public_key.script@);
            }
            outs.push(
                TxOutputData {
                    value: outp.value,
                    script_version: outp.script_public_key.version,
                    script,
                },
            );
            proof {
                assert(outs@[j as int]@ =~~= id_tx_data(s@).outputs[j as int]);
            }
            j = j + 1;
        }
        let lock_time = match s.fallback_lock_time {
            Some(t) => t,
            None => s.lock_time,
        };
        let tx = build_tx(s.version, lock_time, &ins, &outs);
        proof {
            assert(Seq::new(ins@.len(), |k: int| ins@[k]@) =~= id_tx_data(s@).inputs);
            assert(Seq::new(outs@.len(), |k: int| outs@[k]@) =~= id_tx_data(s@).outputs);
            assert(tx_data(tx) =~~= id_tx_data(s@));
        }
        Ok(tx_id(&tx))
    }

    /// Estimates the consensus mass of the transaction under construction
    /// for the given network, for fee estimation before real signing. The
    /// caller's state is untouched: the estimate works on a copy, taken
    /// through the finalizer transition, whose inputs are finalized with a
    /// fixed placeholder unlocking script. Inputs carrying a redeem script
    /// are rejected: the size of a real script signature is unknown, which
    /// would make the mass non-deterministic.
    #[verifier::loop_isolation(false)]
    pub fn calculate_mass(&self, network: NetworkKind) -> (r: Result<u64, Error>)
        requires
            self@.wf(),
        ensures
            match calc_mass_spec(self@, network) {
                Ok(m) => r == Ok::<u64, Error>(m),
                Err(e) => r matches Err(a) && a@ == e,
            },
    {
        let s: &crate::model::Skeleton = match self {
            Pskt::NoOp(Some(s)) => s,
            Pskt::Combiner(s) => s,
            Pskt::NoOp(None) => {
                return Err(Error::NotInitialized);
            },
            other => {
                return Err(Error::WrongRole(other.role()));
            },
        };
        proof {
            assert(self@ == PsktV::NoOp(Some(s@)) || self@ == PsktV::Combiner(s@));
        }
        // The redeem-script rejection comes first, as the stub
        // finalization would otherwise fabricate a script of the wrong
        // size.
        let mut i: usize = 0;
        while i < s.inputs.len()
            invariant
                i <= s.inputs.len(),
                forall|k: int| 0 <= k < i ==> (#[trigger] s@.inputs[k]).redeem_script is None,
            decreases s.inputs.len() - i,
        {
            if s.inputs[i].redeem_script.is_some() {
                proof {
                    assert(has_redeem_script(s@)) by {
                        assert(0 <= i < s@.inputs.len() && (s@.inputs[i as int]).redeem_script
                            is Some);
                    }
                }
                return Err(
                    Error::Custom(
                        String::from_str(
                            "Mass calculation is not supported for inputs with redeem scripts",
                        ),
                    ),
                );
            }
            i = i + 1;
        }
        proof {
            assert(!has_redeem_script(s@)) by {
                if has_redeem_script(s@) {
                    let j = choose|j: int|
                        0 <= j < s@.inputs.len() && (#[trigger] s@.inputs[j]).redeem_script
                            is Some;
                    assert(s@.inputs[j].redeem_script is None);
                }
            }
        }
        // The supported-shape checks mirror the preconditions of the
        // consensus mass calculation.
        if s.version != 0 || s.inputs.len() == 0 || s.inputs.len() > 100000 || s.outputs.len()
            > 100000 {
            proof {
                assert(!mass_supported(s@));
            }
            return Err(
                Error::Custom(
                    String::from_str("Mass calculation is not supported for this transaction"),
                ),
            );
        }
        let mut acc: u64 = 0;
        let mut i: usize = 0;
        proof {
            assert(entries_of(s@).take(0) =~= Seq::<TxEntryDataV>::empty());
        }
        while i < s.inputs.len()
            invariant
                i <= s.inputs.len(),
                forall|k: int|
                    0 <= k < i ==> (#[trigger] s@.inputs[k]).utxo_entry.amount >= 1
                        && s@.inputs[k].utxo_entry.script_public_key.script.len() <= 1000,
                acc == sum_entry_amounts(entries_of(s@).take(i as int)),
            decreases s.inputs.len() - i,
        {
            let e = &s.inputs[i].utxo_entry;
            if e.amount < 1 || e.script_public_key.script.len() > 1000 {
                proof {
                    assert(s@.inputs[i as int].utxo_entry == e@);
                    assert(!mass_supported(s@)) by {
                        if mass_supported(s@) {
                            assert((s@.inputs[i as int]).utxo_entry.amount >= 1
                                && s@.inputs[i as int].utxo_entry.script_public_key.script.len()
                                <= 1000);
                        }
                    }
                }
                return Err(
                    Error::Custom(
                        String::from_str("Mass calculation is not supported for this transaction"),
                    ),
                );
            }
            proof {
                assert(entries_of(s@).take(i as int + 1) =~= entries_of(s@).take(i as int).push(
                    entries_of(s@)[i as int],
                ));
                lemma_sum_entry_amounts_push(
                    entries_of(s@).take(i as int),
                    entries_of(s@)[i as int],
                );
            }
            if e.amount > u64::MAX - acc {
                proof {
                    lemma_sum_split(entries_of(s@), i as int + 1);
                    lemma_sum_nonneg(entries_of(s@).skip(i as int + 1));
                    assert(!mass_supported(s@));
                }
                return Err(
                    Error::Custom(
                        String::from_str("Mass calculation is not supported for this transaction"),
                    ),
                );
            }
            acc = acc + e.amount;
            i = i + 1;
        }
        proof {
            assert(entries_of(s@).take(s@.inputs.len() as int) =~= entries_of(s@));
        }
        let mut j: usize = 0;
        while j < s.outputs.len()
            invariant
                j <= s.outputs.len(),
                forall|k: int|
                    0 <= k < j ==> (#[trigger] s@.outputs[k]).value >= 1
                        && s@.outputs[k].script_public_key.script.len() <= 1000,
            decreases s.outputs.len() - j,
        {
            let o = &s.outputs[j];
            if o.value < 1 || o.script_public_key.script.len() > 1000 {
                proof {
                    assert(s@.outputs[j as int] == o@);
                    assert(!mass_supported(s@)) by {
                        if mass_supported(s@) {
                            assert((s@.outputs[j as int]).value >= 1
                                && s@.outputs[j as int].script_public_key.script.len() <= 1000);
                        }
                    }
                }
                return Err(
                    Error::Custom(
                        String::from_str("Mass calculation is not supported for this transaction"),
                    ),
                );
            }
            j = j + 1;
        }
        proof {
            assert(mass_supported(s@));
        }
        // Assemble the stub-finalized transaction and its consumed
        // entries from plain values.
        let mut ins: Vec<TxInputData> = Vec::new();
        let mut entries: Vec<TxEntryData> = Vec::new();
        let mut i: usize = 0;
        while i < s.inputs.len()
            invariant
                i <= s.inputs.len(),
                ins@.len() == i,
                entries@.len() == i,
                forall|k: int| 0 <= k < i ==> #[trigger] ins@[k]@ == mass_tx_data(s@).inputs[k],
                forall|k: int| 0 <= k < i ==> (#[trigger] ins@[k])@.transaction_id.len() == 32,
                forall|k: int| 0 <= k < i ==> #[trigger] entries@[k]@ == entries_of(s@)[k],
                s@.wf(),
            decreases s.inputs.len() - i,
        {
            let inp = &s.inputs[i];
            let tid = inp.previous_outpoint.transaction_id.clone();
            let mut stub: Vec<u8> = Vec::new();
            stub.push(0);
            stub.push(65);
            let script = inp.utxo_entry.script_public_key.script.clone();
            proof {
                assert(tid@ =~= inp.previous_outpoint.transaction_id@);
                assert(stub@ =~= stub_signature());
                assert(script@ =~= inp.utxo_entry.script_public_key.script@);
            }
            ins.push(
                TxInputData {
                    transaction_id: tid,
                    index: inp.previous_outpoint.index,
                    signature_script: stub,
                    sequence: inp.sequence,
                    sig_op_count: inp.sig_op_count,
                },
            );
            entries.push(
                TxEntryData {
                    amount: inp.utxo_entry.amount,
                    script_version: inp.utxo_entry.script_public_key.version,
                    script,
                    block_daa_score: inp.utxo_entry.block_daa_score,
                    is_coinbase: inp.utxo_entry.is_coinbase,
                },
            );
            proof {
                assert(ins@[i as int]@ =~~= mass_tx_data(s@).inputs[i as int]);
                assert(entries@[i as int]@ =~~= entries_of(s@)[i as int]);
            }
            i = i + 1;
        }
        let mut outs: Vec<TxOutputData> = Vec::new();
        let mut j: usize = 0;
        while j < s.outputs.len()
            invariant
                j <= s.outputs.len(),
                outs@.len() == j,
                forall|k: int| 0 <= k < j ==> #[trigger] outs@[k]@ == mass_tx_data(s@).outputs[k],
            decreases s.outputs.len() - j,
        {
            let outp = &s.outputs[j];
            let script = outp.script_public_key.script.clone();
            proof {
                assert(script@ =~= outp.script_public_key.script@);
            }
            outs.push(
                TxOutputData {
                    value: outp.value,
                    script_version: outp.script_public_key.version,
                    script,
                },
            );
            proof {
                assert(outs@[j as int]@ =~~= mass_tx_data(s@).outputs[j as int]);
            }
            j = j + 1;
        }
        let lock_time = match s.fallback_lock_time {
            Some(t) => t,
            None => s.lock_time,
        };
        let tx = build_tx(s.version, lock_time, &ins, &outs);
        proof {
            assert(Seq::new(ins@.len(), |k: int| ins@[k]@) =~= mass_tx_data(s@).inputs);
            assert(Seq::new(outs@.len(), |k: int| outs@[k]@) =~= mass_tx_data(s@).outputs);
            assert(tx_data(tx) =~~= mass_tx_data(s@));
            assert(Seq::new(entries@.len(), |k: int| entries@[k]@) =~= entries_of(s@));
            assert(forall|k: int|
                0 <= k < tx_data(tx).inputs.len() ==> (
                #[trigger] tx_data(tx).inputs[k]).signature_script.len() <= 1000);
        }
        let (per_byte, per_spk_byte, storage_param) = network_mass_params(network);
        let m = tx_mass(&tx, &entries, per_byte, per_spk_byte, storage_param);
        Ok(m)
    }
}

/// The transaction id is a pure function of the version, the inputs'
/// outpoints, sequences and sig-op counts, the outputs, and the lock-time
/// fields: two skeletons agreeing on those yield the same id, whatever
/// signatures, redeem scripts or consumed-output data they carry.
pub proof fn lemma_id_ignores_signatures(s1: SkeletonV, s2: SkeletonV)
    requires
        s1.version == s2.version,
        s1.lock_time == s2.lock_time,
        s1.fallback_lock_time == s2.fallback_lock_time,
        s1.inputs.len() == s2.inputs.len(),
        forall|i: int|
            0 <= i < s1.inputs.len() ==> (#[trigger] s1.inputs[i]).previous_outpoint
                == s2.inputs[i].previous_outpoint && s1.inputs[i].sequence == s2.inputs[i].sequence
                && s1.inputs[i].sig_op_count == s2.inputs[i].sig_op_count,
        s1.outputs == s2.outputs,
    ensures
        id_tx_data(s1) == id_tx_data(s2),
        tx_id_of(id_tx_data(s1)) == tx_id_of(id_tx_data(s2)),
{
    assert(id_tx_data(s1).inputs =~~= id_tx_data(s2).inputs);
    assert(id_tx_data(s1).outputs =~~= id_tx_data(s2).outputs);
    assert(id_tx_data(s1) =~~= id_tx_data(s2));
}

/// A mass estimate is deterministic: it is a function of the state's
/// content and the network alone, so two machines holding equal states
/// yield the same result. That the caller's own state is untouched is
/// carried by the shared receiver of `calculate_mass`, which works on an
/// assembled copy of the skeleton's data.
pub proof fn lemma_mass_deterministic(a: PsktV, b: PsktV, network: NetworkKind)
    requires
        a == b,
    ensures
        calc_mass_spec(a, network) == calc_mass_spec(b, network),
{
}

/// A mass estimate fails with the redeem-script message whenever any
/// input of the skeleton carries a redeem script, in every state where
/// the estimate is defined at all.
pub proof fn lemma_mass_rejects_redeem_script(
    p: PsktV,
    s: SkeletonV,
    network: NetworkKind,
    witness: int,
)
    requires
        p == PsktV::NoOp(Some(s)) || p == PsktV::Combiner(s),
        0 <= witness < s.inputs.len(),
        s.inputs[witness].redeem_script is Some,
    ensures
        calc_mass_spec(p, network) == Err::<u64, ErrorV>(ErrorV::Custom(msg_mass_redeem())),
{
    assert(has_redeem_script(s)) by {
        assert((s.inputs[witness]).redeem_script is Some);
    }
}

} // verus!
