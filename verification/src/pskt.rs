//! The role state machine: a tagged union over the eight roles, each
//! owning one transaction skeleton, with role-specific operation sets and
//! a strict transition graph. Illegal transitions and operations performed
//! in the wrong role are rejected, never silently tolerated, and a failed
//! operation leaves the machine in its previous state.

use vstd::prelude::*;
use vstd::pervasive::VecAdditionalExecFns;
use vstd::string::StringSliceAdditionalSpecFns;
use crate::error::{Error, ErrorV};
use crate::hexb::{hex_decode, hex_decode_spec};
use crate::model::{InputSlot, InputSlotV, OutputSlot, OutputSlotV, Skeleton, SkeletonV};

verus! {

/// The role a PSKT value currently occupies.
#[derive(Clone, Copy, Debug, PartialEq, Eq, Structural)]
pub enum Role {
    /// The import-only transitional state a machine starts in when built
    /// from an existing transaction or a serialized payload.
    NoOp,
    Creator,
    Constructor,
    Updater,
    Signer,
    Combiner,
    Finalizer,
    Extractor,
}

/// A Partially Signed Kaspa Transaction: the current role together with
/// the skeleton that role owns. Transitions consume the current value and
/// yield the next one, so a stale role can never be operated on.
#[derive(Clone, Debug, PartialEq, Eq)]
pub enum Pskt {
    NoOp(Option<Skeleton>),
    Creator(Skeleton),
    Constructor(Skeleton),
    Updater(Skeleton),
    Signer(Skeleton),
    Combiner(Skeleton),
    Finalizer(Skeleton),
    Extractor(Skeleton),
}

/// Specification view of a [`Pskt`].
#[verifier::ext_equal]
pub enum PsktV {
    NoOp(Option<SkeletonV>),
    Creator(SkeletonV),
    Constructor(SkeletonV),
    Updater(SkeletonV),
    Signer(SkeletonV),
    Combiner(SkeletonV),
    Finalizer(SkeletonV),
    Extractor(SkeletonV),
}

impl View for Pskt {
    type V = PsktV;

    open spec fn view(&self) -> PsktV {
        match self {
            Pskt::NoOp(o) => PsktV::NoOp(
                match o {
                    Some(s) => Some(s@),
                    None => None,
                },
            ),
            Pskt::Creator(s) => PsktV::Creator(s@),
            Pskt::Constructor(s) => PsktV::Constructor(s@),
            Pskt::Updater(s) => PsktV::Updater(s@),
            Pskt::Signer(s) => PsktV::Signer(s@),
            Pskt::Combiner(s) => PsktV::Combiner(s@),
            Pskt::Finalizer(s) => PsktV::Finalizer(s@),
            Pskt::Extractor(s) => PsktV::Extractor(s@),
        }
    }
}

impl PsktV {
    /// Well-formedness: whatever skeleton the state holds is well-formed.
    pub open spec fn wf(self) -> bool {
        match self {
            PsktV::NoOp(Some(s)) => s.wf(),
            PsktV::NoOp(None) => true,
            PsktV::Creator(s) => s.wf(),
            PsktV::Constructor(s) => s.wf(),
            PsktV::Updater(s) => s.wf(),
            PsktV::Signer(s) => s.wf(),
            PsktV::Combiner(s) => s.wf(),
            PsktV::Finalizer(s) => s.wf(),
            PsktV::Extractor(s) => s.wf(),
        }
    }
}

/// The role occupied by a state.
pub open spec fn role_of(p: PsktV) -> Role {
    match p {
        PsktV::NoOp(_) => Role::NoOp,
        PsktV::Creator(_) => Role::Creator,
        PsktV::Constructor(_) => Role::Constructor,
        PsktV::Updater(_) => Role::Updater,
        PsktV::Signer(_) => Role::Signer,
        PsktV::Combiner(_) => Role::Combiner,
        PsktV::Finalizer(_) => Role::Finalizer,
        PsktV::Extractor(_) => Role::Extractor,
    }
}

/// The human-readable name of a role, as the role query reports it.
pub open spec fn role_name_of(r: Role) -> Seq<char> {
    match r {
        Role::NoOp => "Init"@,
        Role::Creator => "Creator"@,
        Role::Constructor => "Constructor"@,
        Role::Updater => "Updater"@,
        Role::Signer => "Signer"@,
        Role::Combiner => "Combiner"@,
        Role::Finalizer => "Finalizer"@,
        Role::Extractor => "Extractor"@,
    }
}

/// A skeleton whose input and output lists were both closed for further
/// additions, as the constructor-to-updater hand-off leaves them.
pub open spec fn frozen(s: SkeletonV) -> SkeletonV {
    SkeletonV { inputs_modifiable: false, outputs_modifiable: false, ..s }
}

/// What an operation on `&mut self` did: on `Ok` the machine moved to the
/// state the transition table names, on `Err` it reports the table's error
/// and the machine is unchanged.
pub open spec fn resolves(
    pre: PsktV,
    post: PsktV,
    r: Result<(), Error>,
    table: Result<PsktV, ErrorV>,
) -> bool {
    match table {
        Ok(next) => r is Ok && post == next,
        Err(e) => r matches Err(actual) && actual@ == e && post == pre,
    }
}

/// Transition table for `creator`.
pub open spec fn spec_creator(p: PsktV) -> Result<PsktV, ErrorV> {
    match p {
        PsktV::NoOp(None) => Ok(PsktV::Creator(SkeletonV::empty())),
        PsktV::NoOp(Some(_)) => Err(ErrorV::CreateNotAllowed),
        _ => Err(ErrorV::WrongRole(role_of(p))),
    }
}

/// Transition table for `to_constructor`.
pub open spec fn spec_to_constructor(p: PsktV) -> Result<PsktV, ErrorV> {
    match p {
        PsktV::NoOp(Some(s)) => Ok(PsktV::Constructor(s)),
        PsktV::NoOp(None) => Err(ErrorV::NotInitialized),
        PsktV::Creator(s) => Ok(PsktV::Constructor(s)),
        _ => Err(ErrorV::WrongRole(role_of(p))),
    }
}

/// Transition table for `to_updater`. Leaving the constructor closes both
/// lists: the updater may change fields in place but never insert.
pub open spec fn spec_to_updater(p: PsktV) -> Result<PsktV, ErrorV> {
    match p {
        PsktV::NoOp(Some(s)) => Ok(PsktV::Updater(s)),
        PsktV::NoOp(None) => Err(ErrorV::NotInitialized),
        PsktV::Constructor(s) => Ok(PsktV::Updater(frozen(s))),
        _ => Err(ErrorV::WrongRole(role_of(p))),
    }
}

/// Transition table for `to_signer`.
pub open spec fn spec_to_signer(p: PsktV) -> Result<PsktV, ErrorV> {
    match p {
        PsktV::NoOp(Some(s)) => Ok(PsktV::Signer(s)),
        PsktV::NoOp(None) => Err(ErrorV::NotInitialized),
        PsktV::Constructor(s) => Ok(PsktV::Signer(frozen(s))),
        PsktV::Updater(s) => Ok(PsktV::Signer(s)),
        PsktV::Combiner(s) => Ok(PsktV::Signer(s)),
        _ => Err(ErrorV::WrongRole(role_of(p))),
    }
}

/// Transition table for `to_combiner`.
pub open spec fn spec_to_combiner(p: PsktV) -> Result<PsktV, ErrorV> {
    match p {
        PsktV::NoOp(Some(s)) => Ok(PsktV::Combiner(s)),
        PsktV::NoOp(None) => Err(ErrorV::NotInitialized),
        PsktV::Constructor(s) => Ok(PsktV::Combiner(s)),
        PsktV::Updater(s) => Ok(PsktV::Combiner(s)),
        PsktV::Signer(s) => Ok(PsktV::Combiner(s)),
        _ => Err(ErrorV::WrongRole(role_of(p))),
    }
}

/// Transition table for `to_finalizer`.
pub open spec fn spec_to_finalizer(p: PsktV) -> Result<PsktV, ErrorV> {
    match p {
        PsktV::NoOp(Some(s)) => Ok(PsktV::Finalizer(s)),
        PsktV::NoOp(None) => Err(ErrorV::NotInitialized),
        PsktV::Combiner(s) => Ok(PsktV::Finalizer(s)),
        _ => Err(ErrorV::WrongRole(role_of(p))),
    }
}

/// Transition table for `to_extractor`: leaving the finalizer requires a
/// prior successful finalization, witnessed by the recorded transaction id.
pub open spec fn spec_to_extractor(p: PsktV) -> Result<PsktV, ErrorV> {
    match p {
        PsktV::NoOp(Some(s)) => Ok(PsktV::Extractor(s)),
        PsktV::NoOp(None) => Err(ErrorV::NotInitialized),
        PsktV::Finalizer(s) => if s.id is Some {
            Ok(PsktV::Extractor(s))
        } else {
            Err(ErrorV::TxNotFinalized)
        },
        _ => Err(ErrorV::WrongRole(role_of(p))),
    }
}

/// The message of the error returned when an input is appended after the
/// input list was closed.
pub open spec fn msg_inputs_closed() -> Seq<char> {
    "inputs can no longer be added"@
}

/// The message of the error returned when an output is appended after the
/// output list was closed.
pub open spec fn msg_outputs_closed() -> Seq<char> {
    "outputs can no longer be added"@
}

/// The message of the error returned when a sequence update names an
/// input that does not exist.
pub open spec fn msg_index_out_of_bounds() -> Seq<char> {
    "input index out of bounds"@
}

/// The message of the error returned when a redeem script is not given as
/// hexadecimal text.
pub open spec fn msg_redeem_not_hex() -> Seq<char> {
    "Redeem script is not a hex string"@
}

/// Operation table for `fallback_lock_time`.
pub open spec fn spec_fallback_lock_time(p: PsktV, lock_time: u64) -> Result<PsktV, ErrorV> {
    match p {
        PsktV::Creator(s) => Ok(
            PsktV::Creator(SkeletonV { fallback_lock_time: Some(lock_time), ..s }),
        ),
        _ => Err(ErrorV::ExpectedState(Role::Creator)),
    }
}

/// Operation table for `inputs_modifiable`.
pub open spec fn spec_inputs_modifiable(p: PsktV) -> Result<PsktV, ErrorV> {
    match p {
        PsktV::Creator(s) => Ok(PsktV::Creator(SkeletonV { inputs_modifiable: true, ..s })),
        _ => Err(ErrorV::ExpectedState(Role::Creator)),
    }
}

/// Operation table for `outputs_modifiable`.
pub open spec fn spec_outputs_modifiable(p: PsktV) -> Result<PsktV, ErrorV> {
    match p {
        PsktV::Creator(s) => Ok(PsktV::Creator(SkeletonV { outputs_modifiable: true, ..s })),
        _ => Err(ErrorV::ExpectedState(Role::Creator)),
    }
}

/// Operation table for `no_more_inputs`: freezes the input list.
pub open spec fn spec_no_more_inputs(p: PsktV) -> Result<PsktV, ErrorV> {
    match p {
        PsktV::Constructor(s) => Ok(
            PsktV::Constructor(SkeletonV { inputs_modifiable: false, ..s }),
        ),
        _ => Err(ErrorV::ExpectedState(Role::Constructor)),
    }
}

/// Operation table for `no_more_outputs`: freezes the output list.
pub open spec fn spec_no_more_outputs(p: PsktV) -> Result<PsktV, ErrorV> {
    match p {
        PsktV::Constructor(s) => Ok(
            PsktV::Constructor(SkeletonV { outputs_modifiable: false, ..s }),
        ),
        _ => Err(ErrorV::ExpectedState(Role::Constructor)),
    }
}

/// Operation table for `input`: a malformed input is rejected first, then
/// the role is checked, then the closed-list rule.
pub open spec fn spec_input(p: PsktV, input: InputSlotV) -> Result<PsktV, ErrorV> {
    if input.previous_outpoint.transaction_id.len() != 32 {
        Err(ErrorV::ConstructorConversionError)
    } else {
        match p {
            PsktV::Constructor(s) => if s.inputs_modifiable {
                Ok(PsktV::Constructor(SkeletonV { inputs: s.inputs.push(input), ..s }))
            } else {
                Err(ErrorV::Custom(msg_inputs_closed()))
            },
            _ => Err(ErrorV::ExpectedState(Role::Constructor)),
        }
    }
}

/// Operation table for `input_and_redeem_script`: as `input`, but the
/// hexadecimal redeem script is decoded and attached first.
pub open spec fn spec_input_with_redeem(
    p: PsktV,
    input: InputSlotV,
    data: Seq<u8>,
) -> Result<PsktV, ErrorV> {
    if input.previous_outpoint.transaction_id.len() != 32 {
        Err(ErrorV::ConstructorConversionError)
    } else {
        match hex_decode_spec(data) {
            None => Err(ErrorV::Custom(msg_redeem_not_hex())),
            Some(script) => spec_input(p, InputSlotV { redeem_script: Some(script), ..input }),
        }
    }
}

/// Operation table for `output`.
pub open spec fn spec_output(p: PsktV, output: OutputSlotV) -> Result<PsktV, ErrorV> {
    match p {
        PsktV::Constructor(s) => if s.outputs_modifiable {
            Ok(PsktV::Constructor(SkeletonV { outputs: s.outputs.push(output), ..s }))
        } else {
            Err(ErrorV::Custom(msg_outputs_closed()))
        },
        _ => Err(ErrorV::ExpectedState(Role::Constructor)),
    }
}

/// Operation table for `set_sequence`.
pub open spec fn spec_set_sequence(p: PsktV, n: u64, input_index: usize) -> Result<
    PsktV,
    ErrorV,
> {
    match p {
        PsktV::Updater(s) => if input_index < s.inputs.len() {
            Ok(
                PsktV::Updater(
                    SkeletonV {
                        inputs: s.inputs.update(
                            input_index as int,
                            InputSlotV { sequence: n, ..s.inputs[input_index as int] },
                        ),
                        ..s
                    },
                ),
            )
        } else {
            Err(ErrorV::Custom(msg_index_out_of_bounds()))
        },
        _ => Err(ErrorV::ExpectedState(Role::Updater)),
    }
}

impl Pskt {
    /// A fresh machine: the creator role holding an empty skeleton.
    pub fn fresh() -> (r: Pskt)
        ensures
            r@ == PsktV::Creator(SkeletonV::empty()),
    {
        Pskt::Creator(Skeleton::empty())
    }

    /// A machine imported from an existing skeleton, waiting in the
    /// transitional state for its first role.
    pub fn imported(skeleton: Skeleton) -> (r: Pskt)
        ensures
            r@ == PsktV::NoOp(Some(skeleton@)),
    {
        Pskt::NoOp(Some(skeleton))
    }

    /// The role this machine currently occupies.
    pub fn role(&self) -> (r: Role)
        ensures
            r == role_of(self@),
    {
        match self {
            Pskt::NoOp(_) => Role::NoOp,
            Pskt::Creator(_) => Role::Creator,
            Pskt::Constructor(_) => Role::Constructor,
            Pskt::Updater(_) => Role::Updater,
            Pskt::Signer(_) => Role::Signer,
            Pskt::Combiner(_) => Role::Combiner,
            Pskt::Finalizer(_) => Role::Finalizer,
            Pskt::Extractor(_) => Role::Extractor,
        }
    }

    /// Decides well-formedness of whatever skeleton the state holds.
    pub fn is_well_formed(&self) -> (r: bool)
        ensures
            r == self@.wf(),
    {
        match self {
            Pskt::NoOp(Some(s)) => s.is_well_formed(),
            Pskt::NoOp(None) => true,
            Pskt::Creator(s) => s.is_well_formed(),
            Pskt::Constructor(s) => s.is_well_formed(),
            Pskt::Updater(s) => s.is_well_formed(),
            Pskt::Signer(s) => s.is_well_formed(),
            Pskt::Combiner(s) => s.is_well_formed(),
            Pskt::Finalizer(s) => s.is_well_formed(),
            Pskt::Extractor(s) => s.is_well_formed(),
        }
    }

    /// The human-readable name of the current role.
    pub fn role_name(&self) -> (r: String)
        ensures
            r@ == role_name_of(role_of(self@)),
    {
        match self {
            Pskt::NoOp(_) => String::from_str("Init"),
            Pskt::Creator(_) => String::from_str("Creator"),
            Pskt::Constructor(_) => String::from_str("Constructor"),
            Pskt::Updater(_) => String::from_str("Updater"),
            Pskt::Signer(_) => String::from_str("Signer"),
            Pskt::Combiner(_) => String::from_str("Combiner"),
            Pskt::Finalizer(_) => String::from_str("Finalizer"),
            Pskt::Extractor(_) => String::from_str("Extractor"),
        }
    }

    /// Changes role to creator. Legal only in the transitional state, and
    /// only when no skeleton was imported.
    pub fn creator(&mut self) -> (r: Result<(), Error>)
        ensures
            resolves(old(self)@, final(self)@, r, spec_creator(old(self)@)),
    {
        let mut taken = Pskt::NoOp(None);
        core::mem::swap(self, &mut taken);
        match taken {
            Pskt::NoOp(None) => {
                *self = Pskt::Creator(Skeleton::empty());
                Ok(())
            },
            Pskt::NoOp(Some(s)) => {
                *self = Pskt::NoOp(Some(s));
                Err(Error::CreateNotAllowed)
            },
            other => {
                let observed = other.role();
                *self = other;
                Err(Error::WrongRole(observed))
            },
        }
    }

    /// Changes role to constructor.
    pub fn to_constructor(&mut self) -> (r: Result<(), Error>)
        ensures
            resolves(old(self)@, final(self)@, r, spec_to_constructor(old(self)@)),
    {
        let mut taken = Pskt::NoOp(None);
        core::mem::swap(self, &mut taken);
        match taken {
            Pskt::NoOp(Some(s)) => {
                *self = Pskt::Constructor(s);
                Ok(())
            },
            Pskt::NoOp(None) => {
                *self = Pskt::NoOp(None);
                Err(Error::NotInitialized)
            },
            Pskt::Creator(s) => {
                *self = Pskt::Constructor(s);
                Ok(())
            },
            other => {
                let observed = other.role();
                *self = other;
                Err(Error::WrongRole(observed))
            },
        }
    }

    /// Changes role to updater, closing both lists when coming from the
    /// constructor.
    pub fn to_updater(&mut self) -> (r: Result<(), Error>)
        ensures
            resolves(old(self)@, final(self)@, r, spec_to_updater(old(self)@)),
    {
        let mut taken = Pskt::NoOp(None);
        core::mem::swap(self, &mut taken);
        match taken {
            Pskt::NoOp(Some(s)) => {
                *self = Pskt::Updater(s);
                Ok(())
            },
            Pskt::NoOp(None) => {
                *self = Pskt::NoOp(None);
                Err(Error::NotInitialized)
            },
            Pskt::Constructor(mut s) => {
                s.inputs_modifiable = false;
                s.outputs_modifiable = false;
                *self = Pskt::Updater(s);
                Ok(())
            },
            other => {
                let observed = other.role();
                *self = other;
                Err(Error::WrongRole(observed))
            },
        }
    }

    /// Changes role to signer.
    pub fn to_signer(&mut self) -> (r: Result<(), Error>)
        ensures
            resolves(old(self)@, final(self)@, r, spec_to_signer(old(self)@)),
    {
        let mut taken = Pskt::NoOp(None);
        core::mem::swap(self, &mut taken);
        match taken {
            Pskt::NoOp(Some(s)) => {
                *self = Pskt::Signer(s);
                Ok(())
            },
            Pskt::NoOp(None) => {
                *self = Pskt::NoOp(None);
                Err(Error::NotInitialized)
            },
            Pskt::Constructor(mut s) => {
                s.inputs_modifiable = false;
                s.outputs_modifiable = false;
                *self = Pskt::Signer(s);
                Ok(())
            },
            Pskt::Updater(s) => {
                *self = Pskt::Signer(s);
                Ok(())
            },
            Pskt::Combiner(s) => {
                *self = Pskt::Signer(s);
                Ok(())
            },
            other => {
                let observed = other.role();
                *self = other;
                Err(Error::WrongRole(observed))
            },
        }
    }

    /// Changes role to combiner.
    pub fn to_combiner(&mut self) -> (r: Result<(), Error>)
        ensures
            resolves(old(self)@, final(self)@, r, spec_to_combiner(old(self)@)),
    {
        let mut taken = Pskt::NoOp(None);
        core::mem::swap(self, &mut taken);
        match taken {
            Pskt::NoOp(Some(s)) => {
                *self = Pskt::Combiner(s);
                Ok(())
            },
            Pskt::NoOp(None) => {
                *self = Pskt::NoOp(None);
                Err(Error::NotInitialized)
            },
            Pskt::Constructor(s) => {
                *self = Pskt::Combiner(s);
                Ok(())
            },
            Pskt::Updater(s) => {
                *self = Pskt::Combiner(s);
                Ok(())
            },
            Pskt::Signer(s) => {
                *self = Pskt::Combiner(s);
                Ok(())
            },
            other => {
                let observed = other.role();
                *self = other;
                Err(Error::WrongRole(observed))
            },
        }
    }

    /// Changes role to finalizer.
    pub fn to_finalizer(&mut self) -> (r: Result<(), Error>)
        ensures
            resolves(old(self)@, final(self)@, r, spec_to_finalizer(old(self)@)),
    {
        let mut taken = Pskt::NoOp(None);
        core::mem::swap(self, &mut taken);
        match taken {
            Pskt::NoOp(Some(s)) => {
                *self = Pskt::Finalizer(s);
                Ok(())
            },
            Pskt::NoOp(None) => {
                *self = Pskt::NoOp(None);
                Err(Error::NotInitialized)
            },
            Pskt::Combiner(s) => {
                *self = Pskt::Finalizer(s);
                Ok(())
            },
            other => {
                let observed = other.role();
                *self = other;
                Err(Error::WrongRole(observed))
            },
        }
    }

    /// Changes role to extractor. From the finalizer this requires that a
    /// finalization completed successfully.
    pub fn to_extractor(&mut self) -> (r: Result<(), Error>)
        ensures
            resolves(old(self)@, final(self)@, r, spec_to_extractor(old(self)@)),
    {
        let mut taken = Pskt::NoOp(None);
        core::mem::swap(self, &mut taken);
        match taken {
            Pskt::NoOp(Some(s)) => {
                *self = Pskt::Extractor(s);
                Ok(())
            },
            Pskt::NoOp(None) => {
                *self = Pskt::NoOp(None);
                Err(Error::NotInitialized)
            },
            Pskt::Finalizer(s) => {
                if s.id.is_some() {
                    *self = Pskt::Extractor(s);
                    Ok(())
                } else {
                    *self = Pskt::Finalizer(s);
                    Err(Error::TxNotFinalized)
                }
            },
            other => {
                let observed = other.role();
                *self = other;
                Err(Error::WrongRole(observed))
            },
        }
    }

    /// Sets the fallback lock time. Legal only in the creator role; the
    /// value is consulted when no input requires a lock time of its own.
    pub fn fallback_lock_time(&mut self, lock_time: u64) -> (r: Result<(), Error>)
        ensures
            resolves(old(self)@, final(self)@, r, spec_fallback_lock_time(old(self)@, lock_time)),
    {
        let mut taken = Pskt::NoOp(None);
        core::mem::swap(self, &mut taken);
        match taken {
            Pskt::Creator(mut s) => {
                s.fallback_lock_time = Some(lock_time);
                *self = Pskt::Creator(s);
                Ok(())
            },
            other => {
                *self = other;
                Err(Error::ExpectedState(Role::Creator))
            },
        }
    }

    /// Declares the input list open for later additions. Legal only in the
    /// creator role.
    pub fn inputs_modifiable(&mut self) -> (r: Result<(), Error>)
        ensures
            resolves(old(self)@, final(self)@, r, spec_inputs_modifiable(old(self)@)),
    {
        let mut taken = Pskt::NoOp(None);
        core::mem::swap(self, &mut taken);
        match taken {
            Pskt::Creator(mut s) => {
                s.inputs_modifiable = true;
                *self = Pskt::Creator(s);
                Ok(())
            },
            other => {
                *self = other;
                Err(Error::ExpectedState(Role::Creator))
            },
        }
    }

    /// Declares the output list open for later additions. Legal only in
    /// the creator role.
    pub fn outputs_modifiable(&mut self) -> (r: Result<(), Error>)
        ensures
            resolves(old(self)@, final(self)@, r, spec_outputs_modifiable(old(self)@)),
    {
        let mut taken = Pskt::NoOp(None);
        core::mem::swap(self, &mut taken);
        match taken {
            Pskt::Creator(mut s) => {
                s.outputs_modifiable = true;
                *self = Pskt::Creator(s);
                Ok(())
            },
            other => {
                *self = other;
                Err(Error::ExpectedState(Role::Creator))
            },
        }
    }

    /// Declares that no more inputs will be added. Legal only in the
    /// constructor role; afterwards `input` rejects every further slot.
    pub fn no_more_inputs(&mut self) -> (r: Result<(), Error>)
        ensures
            resolves(old(self)@, final(self)@, r, spec_no_more_inputs(old(self)@)),
    {
        let mut taken = Pskt::NoOp(None);
        core::mem::swap(self, &mut taken);
        match taken {
            Pskt::Constructor(mut s) => {
                s.inputs_modifiable = false;
                *self = Pskt::Constructor(s);
                Ok(())
            },
            other => {
                *self = other;
                Err(Error::ExpectedState(Role::Constructor))
            },
        }
    }

    /// Declares that no more outputs will be added. Legal only in the
    /// constructor role; afterwards `output` rejects every further slot.
    pub fn no_more_outputs(&mut self) -> (r: Result<(), Error>)
        ensures
            resolves(old(self)@, final(self)@, r, spec_no_more_outputs(old(self)@)),
    {
        let mut taken = Pskt::NoOp(None);
        core::mem::swap(self, &mut taken);
        match taken {
            Pskt::Constructor(mut s) => {
                s.outputs_modifiable = false;
                *self = Pskt::Constructor(s);
                Ok(())
            },
            other => {
                *self = other;
                Err(Error::ExpectedState(Role::Constructor))
            },
        }
    }

    /// Appends an input to the skeleton. Legal only in the constructor
    /// role, and only while the input list is still open.
    pub fn input(&mut self, input: InputSlot) -> (r: Result<(), Error>)
        ensures
            resolves(old(self)@, final(self)@, r, spec_input(old(self)@, input@)),
    {
        if input.previous_outpoint.transaction_id.len() != 32 {
            return Err(Error::ConstructorConversionError);
        }
        let ghost iv = input@;
        let mut taken = Pskt::NoOp(None);
        core::mem::swap(self, &mut taken);
        match taken {
            Pskt::Constructor(mut s) => {
                if s.inputs_modifiable {
                    let ghost sv = s@;
                    s.inputs.push(input);
                    proof {
                        assert(s@.inputs =~= sv.inputs.push(iv));
                        assert(s@ =~~= SkeletonV { inputs: sv.inputs.push(iv), ..sv });
                    }
                    *self = Pskt::Constructor(s);
                    Ok(())
                } else {
                    *self = Pskt::Constructor(s);
                    Err(Error::Custom(String::from_str("inputs can no longer be added")))
                }
            },
            other => {
                *self = other;
                Err(Error::ExpectedState(Role::Constructor))
            },
        }
    }

    /// Appends an input whose redeem script is given as hexadecimal text.
    /// The script is decoded and attached to the input, which is then
    /// appended as `input` would.
    pub fn input_and_redeem_script(&mut self, input: InputSlot, data: &str) -> (r: Result<
        (),
        Error,
    >)
        ensures
            resolves(
                old(self)@,
                final(self)@,
                r,
                spec_input_with_redeem(old(self)@, input@, data.spec_bytes()),
            ),
    {
        if input.previous_outpoint.transaction_id.len() != 32 {
            return Err(Error::ConstructorConversionError);
        }
        let decoded = hex_decode(data.as_bytes());
        match decoded {
            Err(_) => Err(Error::Custom(String::from_str("Redeem script is not a hex string"))),
            Ok(script) => {
                let mut input = input;
                input.redeem_script = Some(script);
                self.input(input)
            },
        }
    }

    /// Appends an output to the skeleton. Legal only in the constructor
    /// role, and only while the output list is still open.
    pub fn output(&mut self, output: OutputSlot) -> (r: Result<(), Error>)
        ensures
            resolves(old(self)@, final(self)@, r, spec_output(old(self)@, output@)),
    {
        let ghost ov = output@;
        let mut taken = Pskt::NoOp(None);
        core::mem::swap(self, &mut taken);
        match taken {
            Pskt::Constructor(mut s) => {
                if s.outputs_modifiable {
                    let ghost sv = s@;
                    s.outputs.push(output);
                    proof {
                        assert(s@.outputs =~= sv.outputs.push(ov));
                        assert(s@ =~~= SkeletonV { outputs: sv.outputs.push(ov), ..sv });
                    }
                    *self = Pskt::Constructor(s);
                    Ok(())
                } else {
                    *self = Pskt::Constructor(s);
                    Err(Error::Custom(String::from_str("outputs can no longer be added")))
                }
            },
            other => {
                *self = other;
                Err(Error::ExpectedState(Role::Constructor))
            },
        }
    }

    /// Sets the sequence number of the input at `input_index`. Legal only
    /// in the updater role; fails when the index is out of bounds.
    pub fn set_sequence(&mut self, n: u64, input_index: usize) -> (r: Result<(), Error>)
        ensures
            resolves(
                old(self)@,
                final(self)@,
                r,
                spec_set_sequence(old(self)@, n, input_index),
            ),
    {
        let mut taken = Pskt::NoOp(None);
        core::mem::swap(self, &mut taken);
        match taken {
            Pskt::Updater(mut s) => {
                if input_index < s.inputs.len() {
                    let ghost sv = s@;
                    let mut slot = s.inputs.remove(input_index);
                    let ghost slotv = slot@;
                    slot.sequence = n;
                    s.inputs.insert(input_index, slot);
                    proof {
                        assert(s@.inputs =~= sv.inputs.update(
                            input_index as int,
                            InputSlotV { sequence: n, ..sv.inputs[input_index as int] },
                        ));
                        assert(s@ =~~= SkeletonV {
                            inputs: sv.inputs.update(
                                input_index as int,
                                InputSlotV { sequence: n, ..sv.inputs[input_index as int] },
                            ),
                            ..sv
                        });
                    }
                    *self = Pskt::Updater(s);
                    Ok(())
                } else {
                    *self = Pskt::Updater(s);
                    Err(Error::Custom(String::from_str("input index out of bounds")))
                }
            },
            other => {
                *self = other;
                Err(Error::ExpectedState(Role::Updater))
            },
        }
    }
}

} // verus!
