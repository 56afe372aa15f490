//! The decisions of one tick of a validator's role loop, as a machine from
//! state and event to next state and action: the loop around it observes
//! the node, fetches missing tensors, submits attestations and block votes,
//! and writes the status file, and hands back what came of each.

use vstd::prelude::*;
use crate::types::{Address, Hash32};

verus! {

/// Where a tick stands.
#[derive(Clone, Copy, Debug, PartialEq, Eq, Structural)]
pub enum ValidatorRolePhase {
    Start,
    Observing,
    Fetching,
    Attesting,
    Voting,
    WritingStatus,
    Done,
}

/// A tick's state: its phase, whether the status changed, and the receipt
/// whose attestation it will submit.
#[derive(Clone, Copy, Debug, PartialEq, Eq)]
pub struct ValidatorRoleState {
    pub phase: ValidatorRolePhase,
    pub status_changed: bool,
    pub receipt_to_submit: Option<Hash32>,
}

/// What the loop reports back to the tick.
#[derive(Clone, Copy, Debug, PartialEq, Eq)]
pub enum ValidatorRoleEvent {
    /// The role's wallet, and whether the chain registers it as a validator.
    Started { wallet: Option<Address>, registered_validator: bool },
    /// The first receipt whose artifacts are ready, the first whose
    /// artifacts are missing, and whether recording the observation
    /// changed the status.
    Observed { ready: Option<Hash32>, missing: Option<Hash32>, changed: bool },
    /// Whether the fetch did anything, and the first ready receipt after it.
    Fetched { activity: bool, ready_after: Option<Hash32> },
    /// Whether an attestation was submitted.
    Attested { submitted: bool },
    /// Whether a block vote was submitted.
    Voted { submitted: bool },
    /// The status file was written.
    StatusWritten,
}

/// What the loop is to do next.
#[derive(Clone, Copy, Debug, PartialEq, Eq)]
pub enum ValidatorRoleAction {
    /// Observe the validator's work and record the observation.
    ObserveWork,
    /// Fetch the missing tensors of a receipt from peers.
    FetchMissingTensors(Hash32),
    /// Submit an attestation for a receipt, then announce and persist it.
    SubmitAttestation(Hash32),
    /// Submit a block vote, then announce and persist it.
    SubmitBlockVote,
    /// Write the status file.
    WriteStatus,
    /// Nothing more this tick.
    Finish,
}

/// The step after an attestation, or straight to the vote.
pub open spec fn attest_or_vote(status_changed: bool, receipt: Option<Hash32>) -> (ValidatorRoleState, ValidatorRoleAction) {
    match receipt {
        Some(r) => (
            ValidatorRoleState { phase: ValidatorRolePhase::Attesting, status_changed, receipt_to_submit: Some(r) },
            ValidatorRoleAction::SubmitAttestation(r),
        ),
        None => (
            ValidatorRoleState { phase: ValidatorRolePhase::Voting, status_changed, receipt_to_submit: None },
            ValidatorRoleAction::SubmitBlockVote,
        ),
    }
}

/// The finished tick.
pub open spec fn finished(status_changed: bool) -> (ValidatorRoleState, ValidatorRoleAction) {
    (
        ValidatorRoleState { phase: ValidatorRolePhase::Done, status_changed, receipt_to_submit: None },
        ValidatorRoleAction::Finish,
    )
}

/// One step of a validator's tick. A role without a wallet, or whose
/// wallet is not a registered validator, does nothing. Otherwise the tick
/// observes its work; with no receipt ready but one missing artifacts, it
/// fetches that receipt's tensors, and a fetch that did anything changes the
/// status and brings the first receipt then ready; with a receipt ready it
/// submits an attestation for it; then it submits a block vote; and where
/// anything changed the status, it writes the status file. An event that
/// does not fit the phase ends the tick.
pub open spec fn spec_validator_role_step(s: ValidatorRoleState, e: ValidatorRoleEvent) -> (ValidatorRoleState, ValidatorRoleAction) {
    match (s.phase, e) {
        (ValidatorRolePhase::Start, ValidatorRoleEvent::Started { wallet, registered_validator }) =>
            if wallet is Some && registered_validator {
                (
                    ValidatorRoleState { phase: ValidatorRolePhase::Observing, status_changed: false, receipt_to_submit: None },
                    ValidatorRoleAction::ObserveWork,
                )
            } else {
                finished(false)
            },
        (ValidatorRolePhase::Observing, ValidatorRoleEvent::Observed { ready, missing, changed }) => {
            let status_changed = s.status_changed || changed;
            if ready is None && missing is Some {
                (
                    ValidatorRoleState { phase: ValidatorRolePhase::Fetching, status_changed, receipt_to_submit: None },
                    ValidatorRoleAction::FetchMissingTensors(missing->0),
                )
            } else {
                attest_or_vote(status_changed, ready)
            }
        },
        (ValidatorRolePhase::Fetching, ValidatorRoleEvent::Fetched { activity, ready_after }) =>
            if activity {
                attest_or_vote(true, ready_after)
            } else {
                attest_or_vote(s.status_changed, None)
            },
        (ValidatorRolePhase::Attesting, ValidatorRoleEvent::Attested { submitted }) => (
            ValidatorRoleState { phase: ValidatorRolePhase::Voting, status_changed: s.status_changed || submitted, receipt_to_submit: None },
            ValidatorRoleAction::SubmitBlockVote,
        ),
        (ValidatorRolePhase::Voting, ValidatorRoleEvent::Voted { submitted }) =>
            if s.status_changed || submitted {
                (
                    ValidatorRoleState { phase: ValidatorRolePhase::WritingStatus, status_changed: true, receipt_to_submit: None },
                    ValidatorRoleAction::WriteStatus,
                )
            } else {
                finished(false)
            },
        (ValidatorRolePhase::WritingStatus, ValidatorRoleEvent::StatusWritten) => finished(s.status_changed),
        _ => finished(s.status_changed),
    }
}

impl ValidatorRoleState {
    /// A tick about to start.
    pub fn start() -> (out: Self)
        ensures
            out == (ValidatorRoleState { phase: ValidatorRolePhase::Start, status_changed: false, receipt_to_submit: None }),
    {
        ValidatorRoleState { phase: ValidatorRolePhase::Start, status_changed: false, receipt_to_submit: None }
    }
}

fn attest_or_vote_exec(status_changed: bool, receipt: Option<Hash32>) -> (out: (ValidatorRoleState, ValidatorRoleAction))
    ensures
        out == attest_or_vote(status_changed, receipt),
{
    match receipt {
        Some(r) => (
            ValidatorRoleState { phase: ValidatorRolePhase::Attesting, status_changed, receipt_to_submit: Some(r) },
            ValidatorRoleAction::SubmitAttestation(r),
        ),
        None => (
            ValidatorRoleState { phase: ValidatorRolePhase::Voting, status_changed, receipt_to_submit: None },
            ValidatorRoleAction::SubmitBlockVote,
        ),
    }
}

fn finished_exec(status_changed: bool) -> (out: (ValidatorRoleState, ValidatorRoleAction))
    ensures
        out == finished(status_changed),
{
    (
        ValidatorRoleState { phase: ValidatorRolePhase::Done, status_changed, receipt_to_submit: None },
        ValidatorRoleAction::Finish,
    )
}

/// One step of a validator's tick.
pub fn validator_role_step(s: &ValidatorRoleState, e: ValidatorRoleEvent) -> (out: (ValidatorRoleState, ValidatorRoleAction))
    ensures
        out == spec_validator_role_step(*s, e),
{
    match (s.phase, e) {
        (ValidatorRolePhase::Start, ValidatorRoleEvent::Started { wallet, registered_validator }) => {
            if wallet.is_some() && registered_validator {
                (
                    ValidatorRoleState { phase: ValidatorRolePhase::Observing, status_changed: false, receipt_to_submit: None },
                    ValidatorRoleAction::ObserveWork,
                )
            } else {
                finished_exec(false)
            }
        },
        (ValidatorRolePhase::Observing, ValidatorRoleEvent::Observed { ready, missing, changed }) => {
            let status_changed = s.status_changed || changed;
            match (ready, missing) {
                (None, Some(m)) => (
                    ValidatorRoleState { phase: ValidatorRolePhase::Fetching, status_changed, receipt_to_submit: None },
                    ValidatorRoleAction::FetchMissingTensors(m),
                ),
                _ => attest_or_vote_exec(status_changed, ready),
            }
        },
        (ValidatorRolePhase::Fetching, ValidatorRoleEvent::Fetched { activity, ready_after }) => {
            if activity {
                attest_or_vote_exec(true, ready_after)
            } else {
                attest_or_vote_exec(s.status_changed, None)
            }
        },
        (ValidatorRolePhase::Attesting, ValidatorRoleEvent::Attested { submitted }) => (
            ValidatorRoleState { phase: ValidatorRolePhase::Voting, status_changed: s.status_changed || submitted, receipt_to_submit: None },
            ValidatorRoleAction::SubmitBlockVote,
        ),
        (ValidatorRolePhase::Voting, ValidatorRoleEvent::Voted { submitted }) => {
            if s.status_changed || submitted {
                (
                    ValidatorRoleState { phase: ValidatorRolePhase::WritingStatus, status_changed: true, receipt_to_submit: None },
                    ValidatorRoleAction::WriteStatus,
                )
            } else {
                finished_exec(false)
            }
        },
        (ValidatorRolePhase::WritingStatus, ValidatorRoleEvent::StatusWritten) => finished_exec(s.status_changed),
        _ => finished_exec(s.status_changed),
    }
}

/// What a tick does with what it learns. A role with no wallet, or whose
/// wallet is not a registered validator, finishes at once; a registered one
/// observes its work. An observation that reports a ready receipt leads to an
/// attestation for exactly that receipt, which the state records as the
/// receipt to submit; with none ready but one missing artifacts, the tick
/// fetches that receipt's tensors; with neither, it goes on to vote. A fetch
/// that did something marks the status changed and attests the receipt then
/// ready, if any; a fetch that did nothing goes on to vote. Every attestation
/// is followed by a vote, and the vote by a status write exactly when
/// something changed. Once the tick has started, a changed status stays
/// changed.
pub proof fn lemma_validator_role_step(s: ValidatorRoleState, e: ValidatorRoleEvent)
    ensures
        ({
            let (next, action) = spec_validator_role_step(s, e);
            &&& s.phase == ValidatorRolePhase::Start && (e matches ValidatorRoleEvent::Started { wallet, registered_validator }
                && (wallet is None || !registered_validator)) ==> action == ValidatorRoleAction::Finish
                && next.phase == ValidatorRolePhase::Done
            &&& s.phase == ValidatorRolePhase::Start && (e matches ValidatorRoleEvent::Started { wallet, registered_validator }
                && wallet is Some && registered_validator) ==> action == ValidatorRoleAction::ObserveWork
                && next.phase == ValidatorRolePhase::Observing
            &&& s.phase == ValidatorRolePhase::Observing && (e matches ValidatorRoleEvent::Observed { ready, .. }
                && ready is Some) ==> action == ValidatorRoleAction::SubmitAttestation(e->ready->0)
                && next.receipt_to_submit == Some(e->ready->0) && next.phase == ValidatorRolePhase::Attesting
            &&& s.phase == ValidatorRolePhase::Observing && (e matches ValidatorRoleEvent::Observed { ready, missing, .. }
                && ready is None && missing is Some) ==> action == ValidatorRoleAction::FetchMissingTensors(e->missing->0)
                && next.phase == ValidatorRolePhase::Fetching
            &&& s.phase == ValidatorRolePhase::Observing && (e matches ValidatorRoleEvent::Observed { ready, missing, .. }
                && ready is None && missing is None) ==> action == ValidatorRoleAction::SubmitBlockVote
                && next.phase == ValidatorRolePhase::Voting
            &&& s.phase == ValidatorRolePhase::Observing && (e matches ValidatorRoleEvent::Observed { changed, .. } && changed)
                ==> next.status_changed
            &&& s.phase == ValidatorRolePhase::Fetching && (e matches ValidatorRoleEvent::Fetched { activity, ready_after }
                && activity && ready_after is Some) ==> action == ValidatorRoleAction::SubmitAttestation(e->ready_after->0)
                && next.receipt_to_submit == Some(e->ready_after->0) && next.status_changed
            &&& s.phase == ValidatorRolePhase::Fetching && (e matches ValidatorRoleEvent::Fetched { activity, .. }
                && !activity) ==> action == ValidatorRoleAction::SubmitBlockVote
            &&& action is SubmitAttestation ==> next.receipt_to_submit == Some(action->SubmitAttestation_0)
                && next.phase == ValidatorRolePhase::Attesting
            &&& s.phase == ValidatorRolePhase::Attesting && e is Attested ==> action == ValidatorRoleAction::SubmitBlockVote
                && next.phase == ValidatorRolePhase::Voting
            &&& s.phase == ValidatorRolePhase::Voting && e is Voted
                ==> (action == ValidatorRoleAction::WriteStatus <==> (s.status_changed || e->Voted_submitted))
            &&& s.phase != ValidatorRolePhase::Start && s.status_changed ==> next.status_changed
        }),
{
}

} // verus!
