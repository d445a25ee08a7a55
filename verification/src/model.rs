//! The transaction skeleton: the mutable in-progress transaction that the
//! role state machine carries from role to role, together with the
//! per-input and per-output signing metadata.

use vstd::prelude::*;

verus! {

/// A reference to the unspent output consumed by an input: the id of the
/// transaction that created it and the index of the output within it.
#[derive(Clone, Debug, PartialEq, Eq)]
pub struct Outpoint {
    /// The 32-byte id of the transaction that created the consumed output.
    pub transaction_id: Vec<u8>,
    /// The index of the consumed output within that transaction.
    pub index: u32,
}

/// Specification view of an [`Outpoint`].
#[verifier::ext_equal]
pub struct OutpointV {
    pub transaction_id: Seq<u8>,
    pub index: u32,
}

impl View for Outpoint {
    type V = OutpointV;

    open spec fn view(&self) -> OutpointV {
        OutpointV { transaction_id: self.transaction_id@, index: self.index }
    }
}

/// A locking script together with its script version.
#[derive(Clone, Debug, PartialEq, Eq)]
pub struct ScriptPublicKey {
    pub version: u16,
    pub script: Vec<u8>,
}

/// Specification view of a [`ScriptPublicKey`].
#[verifier::ext_equal]
pub struct ScriptPublicKeyV {
    pub version: u16,
    pub script: Seq<u8>,
}

impl View for ScriptPublicKey {
    type V = ScriptPublicKeyV;

    open spec fn view(&self) -> ScriptPublicKeyV {
        ScriptPublicKeyV { version: self.version, script: self.script@ }
    }
}

/// The details of the unspent output an input consumes, needed for signing
/// and for mass calculation.
#[derive(Clone, Debug, PartialEq, Eq)]
pub struct UtxoEntry {
    /// The amount held by the consumed output, in the smallest currency unit.
    pub amount: u64,
    /// The locking script of the consumed output.
    pub script_public_key: ScriptPublicKey,
    /// The DAA score of the block that accepted the creating transaction.
    pub block_daa_score: u64,
    /// Whether the creating transaction was a coinbase transaction.
    pub is_coinbase: bool,
}

/// Specification view of a [`UtxoEntry`].
#[verifier::ext_equal]
pub struct UtxoEntryV {
    pub amount: u64,
    pub script_public_key: ScriptPublicKeyV,
    pub block_daa_score: u64,
    pub is_coinbase: bool,
}

impl View for UtxoEntry {
    type V = UtxoEntryV;

    open spec fn view(&self) -> UtxoEntryV {
        UtxoEntryV {
            amount: self.amount,
            script_public_key: self.script_public_key@,
            block_daa_score: self.block_daa_score,
            is_coinbase: self.is_coinbase,
        }
    }
}

/// One partial signature: the public key of a signer and the signature
/// bytes it contributed.
#[derive(Clone, Debug, PartialEq, Eq)]
pub struct PartialSig {
    pub pubkey: Vec<u8>,
    pub signature: Vec<u8>,
}

/// Specification view of a [`PartialSig`].
#[verifier::ext_equal]
pub struct PartialSigV {
    pub pubkey: Seq<u8>,
    pub signature: Seq<u8>,
}

impl View for PartialSig {
    type V = PartialSigV;

    open spec fn view(&self) -> PartialSigV {
        PartialSigV { pubkey: self.pubkey@, signature: self.signature@ }
    }
}

/// One input of the in-progress transaction, together with its signing
/// metadata.
#[derive(Clone, Debug, PartialEq, Eq)]
pub struct InputSlot {
    /// The unspent output this input consumes.
    pub previous_outpoint: Outpoint,
    /// The sequence number of this input.
    pub sequence: u64,
    /// The number of signature operations in the unlocking script.
    pub sig_op_count: u8,
    /// The sighash type signatures for this input must use.
    pub sighash_type: u8,
    /// The redeem script for this input, if any.
    pub redeem_script: Option<Vec<u8>>,
    /// The signatures collected so far, one per signer.
    pub partial_signatures: Vec<PartialSig>,
    /// The finalized unlocking script, once finalization produced it.
    pub final_script_sig: Option<Vec<u8>>,
    /// The details of the consumed output.
    pub utxo_entry: UtxoEntry,
}

/// Specification view of an [`InputSlot`].
#[verifier::ext_equal]
pub struct InputSlotV {
    pub previous_outpoint: OutpointV,
    pub sequence: u64,
    pub sig_op_count: u8,
    pub sighash_type: u8,
    pub redeem_script: Option<Seq<u8>>,
    pub partial_signatures: Seq<PartialSigV>,
    pub final_script_sig: Option<Seq<u8>>,
    pub utxo_entry: UtxoEntryV,
}

impl View for InputSlot {
    type V = InputSlotV;

    open spec fn view(&self) -> InputSlotV {
        InputSlotV {
            previous_outpoint: self.previous_outpoint@,
            sequence: self.sequence,
            sig_op_count: self.sig_op_count,
            sighash_type: self.sighash_type,
            redeem_script: match self.redeem_script {
                Some(s) => Some(s@),
                None => None,
            },
            partial_signatures: Seq::new(
                self.partial_signatures@.len(),
                |i: int| self.partial_signatures@[i]@,
            ),
            final_script_sig: match self.final_script_sig {
                Some(s) => Some(s@),
                None => None,
            },
            utxo_entry: self.utxo_entry@,
        }
    }
}

/// One output of the in-progress transaction.
#[derive(Clone, Debug, PartialEq, Eq)]
pub struct OutputSlot {
    /// The amount carried by this output, in the smallest currency unit.
    pub value: u64,
    /// The locking script of this output.
    pub script_public_key: ScriptPublicKey,
}

/// Specification view of an [`OutputSlot`].
#[verifier::ext_equal]
pub struct OutputSlotV {
    pub value: u64,
    pub script_public_key: ScriptPublicKeyV,
}

impl View for OutputSlot {
    type V = OutputSlotV;

    open spec fn view(&self) -> OutputSlotV {
        OutputSlotV { value: self.value, script_public_key: self.script_public_key@ }
    }
}

/// The in-progress transaction carried through the roles: ordered inputs,
/// ordered outputs, version, lock time, and the flags and identity data the
/// roles maintain.
#[derive(Clone, Debug, PartialEq, Eq)]
pub struct Skeleton {
    /// The version of the transaction being built.
    pub version: u16,
    /// The lock time of the transaction being built.
    pub lock_time: u64,
    /// The lock time to use when no input requires one.
    pub fallback_lock_time: Option<u64>,
    /// Whether inputs may still be appended.
    pub inputs_modifiable: bool,
    /// Whether outputs may still be appended.
    pub outputs_modifiable: bool,
    /// The transaction id computed by a successful finalization.
    pub id: Option<Vec<u8>>,
    /// The ordered inputs.
    pub inputs: Vec<InputSlot>,
    /// The ordered outputs.
    pub outputs: Vec<OutputSlot>,
}

/// Specification view of a [`Skeleton`].
#[verifier::ext_equal]
pub struct SkeletonV {
    pub version: u16,
    pub lock_time: u64,
    pub fallback_lock_time: Option<u64>,
    pub inputs_modifiable: bool,
    pub outputs_modifiable: bool,
    pub id: Option<Seq<u8>>,
    pub inputs: Seq<InputSlotV>,
    pub outputs: Seq<OutputSlotV>,
}

impl View for Skeleton {
    type V = SkeletonV;

    open spec fn view(&self) -> SkeletonV {
        SkeletonV {
            version: self.version,
            lock_time: self.lock_time,
            fallback_lock_time: self.fallback_lock_time,
            inputs_modifiable: self.inputs_modifiable,
            outputs_modifiable: self.outputs_modifiable,
            id: match self.id {
                Some(h) => Some(h@),
                None => None,
            },
            inputs: Seq::new(self.inputs@.len(), |i: int| self.inputs@[i]@),
            outputs: Seq::new(self.outputs@.len(), |i: int| self.outputs@[i]@),
        }
    }
}

impl SkeletonV {
    /// The skeleton a fresh creator starts from: no inputs, no outputs,
    /// version and lock time zero, both lists still open for additions.
    pub open spec fn empty() -> SkeletonV {
        SkeletonV {
            version: 0,
            lock_time: 0,
            fallback_lock_time: None,
            inputs_modifiable: true,
            outputs_modifiable: true,
            id: None,
            inputs: Seq::empty(),
            outputs: Seq::empty(),
        }
    }

    /// Well-formedness: every hash-sized field really is 32 bytes.
    pub open spec fn wf(self) -> bool {
        &&& forall|i: int|
            0 <= i < self.inputs.len() ==> self.inputs[i].previous_outpoint.transaction_id.len()
                == 32
        &&& self.id matches Some(h) ==> h.len() == 32
    }
}

impl Skeleton {
    /// Builds the skeleton a fresh creator starts from.
    pub fn empty() -> (r: Skeleton)
        ensures
            r@ == SkeletonV::empty(),
    {
        let r = Skeleton {
            version: 0,
            lock_time: 0,
            fallback_lock_time: None,
            inputs_modifiable: true,
            outputs_modifiable: true,
            id: None,
            inputs: Vec::new(),
            outputs: Vec::new(),
        };
        proof {
            assert(r@.inputs =~= SkeletonV::empty().inputs);
            assert(r@.outputs =~= SkeletonV::empty().outputs);
            assert(r@ =~= SkeletonV::empty());
        }
        r
    }

    /// Decides well-formedness: every hash-sized field is 32 bytes.
    #[verifier::loop_isolation(false)]
    pub fn is_well_formed(&self) -> (r: bool)
        ensures
            r == self@.wf(),
    {
        match &self.id {
            Some(h) => {
                if h.len() != 32 {
                    return false;
                }
            },
            None => {},
        }
        let mut i: usize = 0;
        while i < self.inputs.len()
            invariant
                i <= self.inputs@.len(),
                forall|k: int|
                    0 <= k < i ==> (
                    #[trigger] self@.inputs[k]).previous_outpoint.transaction_id.len() == 32,
            decreases self.inputs@.len() - i,
        {
            if self.inputs[i].previous_outpoint.transaction_id.len() != 32 {
                proof {
                    assert(self@.inputs[i as int].previous_outpoint.transaction_id.len() != 32);
                }
                return false;
            }
            i = i + 1;
        }
        true
    }
}

} // verus!
