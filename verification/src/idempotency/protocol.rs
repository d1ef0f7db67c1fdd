//! The decisions of the coordinator, apart from the store.
//!
//! Whoever drives the claim performs each `Directive` against its store,
//! reports what the store answered as an `Observation`, and is told what to
//! do next. The claim ends with the directive to start processing, to
//! return a saved response, or to fail. The saving of a response goes the
//! same way, with `SaveDirective` and `SaveObservation`.

use crate::http::HttpResponse;
use crate::http::HttpResponseView;
use crate::idempotency::snapshot::decode;
use crate::idempotency::snapshot::decode_spec;
use crate::idempotency::snapshot::encodable;
use crate::idempotency::snapshot::encode;
use crate::idempotency::snapshot::encode_spec;
use crate::idempotency::snapshot::ResponseSnapshot;
use crate::idempotency::snapshot::SnapshotView;
use crate::store::memory::PersistenceError;
use vstd::prelude::*;

verus! {

/// Why a call of the coordinator failed.
#[derive(Clone, Copy, Debug, PartialEq, Eq, Structural)]
pub enum IdempotencyError {
    /// The wait for a competing transaction exceeded its bound. Nothing was
    /// changed; the caller may try again.
    ClaimConflictTimeout,
    /// The transaction handed in does not hold the row for the key.
    NotClaimed,
    /// The store failed.
    Persistence(PersistenceError),
}

/// How often a claim is attempted again, after the holder of the row was
/// found to have rolled back, before the coordinator gives up.
pub const MAX_CLAIM_RETRIES: u32 = 3;

/// What the store answered.
#[derive(Debug)]
pub enum Observation {
    /// The insert of the claim row returned, having affected `rows` rows.
    Inserted { rows: u64 },
    /// The wait for the holder of the row exceeded its bound.
    WaitExpired,
    /// The lookup found no row for the key.
    Missing,
    /// The lookup found a row without a snapshot.
    Unfinished,
    /// The lookup found a row with this snapshot.
    Saved(ResponseSnapshot),
    /// The store failed.
    Fault(PersistenceError),
}

/// The mathematical content of an `Observation`.
pub enum ObservationView {
    Inserted { rows: u64 },
    WaitExpired,
    Missing,
    Unfinished,
    Saved(SnapshotView),
    Fault(PersistenceError),
}

impl View for Observation {
    type V = ObservationView;

    open spec fn view(&self) -> ObservationView {
        match self {
            Observation::Inserted { rows } => ObservationView::Inserted { rows: *rows },
            Observation::WaitExpired => ObservationView::WaitExpired,
            Observation::Missing => ObservationView::Missing,
            Observation::Unfinished => ObservationView::Unfinished,
            Observation::Saved(snapshot) => ObservationView::Saved(snapshot@),
            Observation::Fault(e) => ObservationView::Fault(*e),
        }
    }
}

/// What to do next.
#[derive(Debug)]
pub enum Directive {
    /// Open a transaction and, in it, insert the row for the key without a
    /// snapshot, doing nothing on conflict.
    InsertClaim,
    /// Let the transaction go and read the row for the key.
    LookUp,
    /// Hand the open transaction to the caller: it owns the action now.
    StartProcessing,
    /// Return this response; run no business logic.
    ReturnSavedResponse(HttpResponse),
    /// Fail with this error.
    Fail(IdempotencyError),
}

/// The mathematical content of a `Directive`.
pub enum DirectiveView {
    InsertClaim,
    LookUp,
    StartProcessing,
    ReturnSavedResponse(HttpResponseView),
    Fail(IdempotencyError),
}

impl View for Directive {
    type V = DirectiveView;

    open spec fn view(&self) -> DirectiveView {
        match self {
            Directive::InsertClaim => DirectiveView::InsertClaim,
            Directive::LookUp => DirectiveView::LookUp,
            Directive::StartProcessing => DirectiveView::StartProcessing,
            Directive::ReturnSavedResponse(response) => DirectiveView::ReturnSavedResponse(
                response@,
            ),
            Directive::Fail(e) => DirectiveView::Fail(*e),
        }
    }
}

/// Where the protocol stands.
#[derive(Clone, Copy, Debug, PartialEq, Eq, Structural)]
pub enum ClaimProtocol {
    /// The insert of the claim row is under way.
    Claiming { retries_left: u32 },
    /// The insert met a row; the lookup of that row is under way.
    Looking { retries_left: u32 },
    /// The last directive ended the protocol.
    Finished,
}

/// The directive to try the claim again, or to give up when no retry is left.
pub open spec fn retry(retries_left: u32) -> (ClaimProtocol, DirectiveView) {
    if retries_left > 0 {
        (
            ClaimProtocol::Claiming { retries_left: (retries_left - 1) as u32 },
            DirectiveView::InsertClaim,
        )
    } else {
        (ClaimProtocol::Finished, DirectiveView::Fail(IdempotencyError::ClaimConflictTimeout))
    }
}

/// The protocol's transition: from where it stands and what the store
/// answered to where it stands next and what to do.
pub open spec fn next(state: ClaimProtocol, observation: ObservationView) -> (
    ClaimProtocol,
    DirectiveView,
) {
    match (state, observation) {
        (ClaimProtocol::Claiming { retries_left }, ObservationView::Inserted { rows }) => if rows
            > 0 {
            (ClaimProtocol::Finished, DirectiveView::StartProcessing)
        } else {
            (ClaimProtocol::Looking { retries_left }, DirectiveView::LookUp)
        },
        (ClaimProtocol::Looking { retries_left }, ObservationView::Saved(snapshot)) => (
            ClaimProtocol::Finished,
            match decode_spec(snapshot) {
                Ok(response) => DirectiveView::ReturnSavedResponse(response),
                Err(_) => DirectiveView::Fail(
                    IdempotencyError::Persistence(PersistenceError::CorruptSnapshot),
                ),
            },
        ),
        (ClaimProtocol::Looking { retries_left }, ObservationView::Missing) => retry(retries_left),
        (ClaimProtocol::Looking { retries_left }, ObservationView::Unfinished) => retry(
            retries_left,
        ),
        (ClaimProtocol::Finished, _) => (
            ClaimProtocol::Finished,
            DirectiveView::Fail(IdempotencyError::Persistence(PersistenceError::UnexpectedReply)),
        ),
        (_, ObservationView::WaitExpired) => (
            ClaimProtocol::Finished,
            DirectiveView::Fail(IdempotencyError::ClaimConflictTimeout),
        ),
        (_, ObservationView::Fault(e)) => (
            ClaimProtocol::Finished,
            DirectiveView::Fail(IdempotencyError::Persistence(e)),
        ),
        (_, _) => (
            ClaimProtocol::Finished,
            DirectiveView::Fail(IdempotencyError::Persistence(PersistenceError::UnexpectedReply)),
        ),
    }
}

/// How many more directives the protocol can give, at most.
pub open spec fn steps_left(state: ClaimProtocol) -> nat {
    match state {
        ClaimProtocol::Claiming { retries_left } => 2 * (retries_left as nat) + 2,
        ClaimProtocol::Looking { retries_left } => 2 * (retries_left as nat) + 1,
        ClaimProtocol::Finished => 0,
    }
}

/// Whether a directive ends the protocol.
pub open spec fn is_final(directive: DirectiveView) -> bool {
    !(directive is InsertClaim || directive is LookUp)
}

/// Every transition brings the protocol nearer to its end, and it has ended
/// exactly when the directive is a final one.
pub proof fn lemma_protocol_terminates(state: ClaimProtocol, observation: ObservationView)
    requires
        state != ClaimProtocol::Finished,
    ensures
        steps_left(next(state, observation).0) < steps_left(state),
        is_final(next(state, observation).1) <==> next(state, observation).0
            == ClaimProtocol::Finished,
{
}

impl ClaimProtocol {
    /// The protocol at its start, with its first directive: insert the claim.
    pub fn start(retries: u32) -> (begin: (ClaimProtocol, Directive))
        ensures
            begin.0 == (ClaimProtocol::Claiming { retries_left: retries }),
            begin.1@ == DirectiveView::InsertClaim,
    {
        (ClaimProtocol::Claiming { retries_left: retries }, Directive::InsertClaim)
    }

    fn retry(retries_left: u32) -> (step: (ClaimProtocol, Directive))
        ensures
            (step.0, step.1@) == retry(retries_left),
    {
        if retries_left > 0 {
            (ClaimProtocol::Claiming { retries_left: retries_left - 1 }, Directive::InsertClaim)
        } else {
            (ClaimProtocol::Finished, Directive::Fail(IdempotencyError::ClaimConflictTimeout))
        }
    }

    fn unexpected() -> (step: (ClaimProtocol, Directive))
        ensures
            step.0 == ClaimProtocol::Finished,
            step.1@ == DirectiveView::Fail(
                IdempotencyError::Persistence(PersistenceError::UnexpectedReply),
            ),
    {
        (
            ClaimProtocol::Finished,
            Directive::Fail(IdempotencyError::Persistence(PersistenceError::UnexpectedReply)),
        )
    }

    /// Takes what the store answered and says what to do next.
    pub fn advance(self, observation: Observation) -> (step: (ClaimProtocol, Directive))
        ensures
            (step.0, step.1@) == next(self, observation@),
    {
        match self {
            ClaimProtocol::Finished => Self::unexpected(),
            ClaimProtocol::Claiming { retries_left } => match observation {
                Observation::Inserted { rows } => {
                    if rows > 0 {
                        (ClaimProtocol::Finished, Directive::StartProcessing)
                    } else {
                        (ClaimProtocol::Looking { retries_left }, Directive::LookUp)
                    }
                },
                Observation::WaitExpired => (
                    ClaimProtocol::Finished,
                    Directive::Fail(IdempotencyError::ClaimConflictTimeout),
                ),
                Observation::Fault(e) => (
                    ClaimProtocol::Finished,
                    Directive::Fail(IdempotencyError::Persistence(e)),
                ),
                Observation::Missing => Self::unexpected(),
                Observation::Unfinished => Self::unexpected(),
                Observation::Saved(_) => Self::unexpected(),
            },
            ClaimProtocol::Looking { retries_left } => match observation {
                Observation::Saved(snapshot) => match decode(&snapshot) {
                    Ok(response) => (
                        ClaimProtocol::Finished,
                        Directive::ReturnSavedResponse(response),
                    ),
                    Err(_) => (
                        ClaimProtocol::Finished,
                        Directive::Fail(
                            IdempotencyError::Persistence(PersistenceError::CorruptSnapshot),
                        ),
                    ),
                },
                Observation::Missing => Self::retry(retries_left),
                Observation::Unfinished => Self::retry(retries_left),
                Observation::WaitExpired => (
                    ClaimProtocol::Finished,
                    Directive::Fail(IdempotencyError::ClaimConflictTimeout),
                ),
                Observation::Fault(e) => (
                    ClaimProtocol::Finished,
                    Directive::Fail(IdempotencyError::Persistence(e)),
                ),
                Observation::Inserted { rows } => Self::unexpected(),
            },
        }
    }
}

/// Where the saving of a response stands.
#[derive(Clone, Copy, Debug, PartialEq, Eq, Structural)]
pub enum SaveState {
    /// The snapshot is being attached to the row.
    Updating,
    /// The transaction is being committed.
    Committing,
    /// The last directive ended the saving.
    Finished,
}

/// What the store answered to a directive of the saving.
#[derive(Clone, Copy, Debug, PartialEq, Eq, Structural)]
pub enum SaveObservation {
    /// The update of the row returned, having affected `rows` rows.
    Updated { rows: u64 },
    /// The transaction is committed.
    Committed,
    /// The store failed.
    Fault(PersistenceError),
}

/// What to do next to save a response.
#[derive(Debug)]
pub enum SaveDirective {
    /// Under the transaction, attach this snapshot to the row for the key
    /// that has none yet.
    Update(ResponseSnapshot),
    /// Commit the transaction.
    Commit,
    /// Roll the transaction back and fail with this error.
    RollBack(IdempotencyError),
    /// Return the response as it was handed in: it is saved.
    Return,
    /// Fail with this error; the transaction is gone.
    Fail(IdempotencyError),
}

/// The mathematical content of a `SaveDirective`.
pub enum SaveDirectiveView {
    Update(SnapshotView),
    Commit,
    RollBack(IdempotencyError),
    Return,
    Fail(IdempotencyError),
}

impl View for SaveDirective {
    type V = SaveDirectiveView;

    open spec fn view(&self) -> SaveDirectiveView {
        match self {
            SaveDirective::Update(snapshot) => SaveDirectiveView::Update(snapshot@),
            SaveDirective::Commit => SaveDirectiveView::Commit,
            SaveDirective::RollBack(e) => SaveDirectiveView::RollBack(*e),
            SaveDirective::Return => SaveDirectiveView::Return,
            SaveDirective::Fail(e) => SaveDirectiveView::Fail(*e),
        }
    }
}

/// How the saving begins: a response that can be stored has its snapshot
/// attached to the row; one that cannot has the transaction rolled back.
pub open spec fn save_begin(response: HttpResponseView) -> (SaveState, SaveDirectiveView) {
    if encodable(response) {
        (SaveState::Updating, SaveDirectiveView::Update(encode_spec(response)))
    } else {
        (
            SaveState::Finished,
            SaveDirectiveView::RollBack(
                IdempotencyError::Persistence(PersistenceError::UnstorableResponse),
            ),
        )
    }
}

/// The transition of the saving. An update that found its row is followed
/// by the commit; one that found none shows that the transaction does not
/// hold the key, and the transaction is rolled back. A failure while the
/// transaction is open has it rolled back; a failed commit leaves nothing
/// to roll back.
pub open spec fn save_next(state: SaveState, observation: SaveObservation) -> (
    SaveState,
    SaveDirectiveView,
) {
    match (state, observation) {
        (SaveState::Updating, SaveObservation::Updated { rows }) => if rows > 0 {
            (SaveState::Committing, SaveDirectiveView::Commit)
        } else {
            (SaveState::Finished, SaveDirectiveView::RollBack(IdempotencyError::NotClaimed))
        },
        (SaveState::Committing, SaveObservation::Committed) => (
            SaveState::Finished,
            SaveDirectiveView::Return,
        ),
        (SaveState::Committing, SaveObservation::Fault(e)) => (
            SaveState::Finished,
            SaveDirectiveView::Fail(IdempotencyError::Persistence(e)),
        ),
        (SaveState::Finished, _) => (
            SaveState::Finished,
            SaveDirectiveView::Fail(
                IdempotencyError::Persistence(PersistenceError::UnexpectedReply),
            ),
        ),
        (_, SaveObservation::Fault(e)) => (
            SaveState::Finished,
            SaveDirectiveView::RollBack(IdempotencyError::Persistence(e)),
        ),
        (_, _) => (
            SaveState::Finished,
            SaveDirectiveView::RollBack(
                IdempotencyError::Persistence(PersistenceError::UnexpectedReply),
            ),
        ),
    }
}

/// How many more directives the saving can give, at most.
pub open spec fn saves_left(state: SaveState) -> nat {
    match state {
        SaveState::Updating => 2,
        SaveState::Committing => 1,
        SaveState::Finished => 0,
    }
}

/// The first directive of the saving of a response.
pub fn save_start(response: &HttpResponse) -> (begin: (SaveState, SaveDirective))
    ensures
        (begin.0, begin.1@) == save_begin(response@),
{
    match encode(response) {
        Ok(snapshot) => (SaveState::Updating, SaveDirective::Update(snapshot)),
        Err(_) => (
            SaveState::Finished,
            SaveDirective::RollBack(
                IdempotencyError::Persistence(PersistenceError::UnstorableResponse),
            ),
        ),
    }
}

/// Takes what the store answered to the last directive of the saving and
/// says what to do next.
pub fn save_advance(state: SaveState, observation: SaveObservation) -> (step: (
    SaveState,
    SaveDirective,
))
    ensures
        (step.0, step.1@) == save_next(state, observation),
        state != SaveState::Finished ==> saves_left(step.0) < saves_left(state),
{
    match state {
        SaveState::Finished => (
            SaveState::Finished,
            SaveDirective::Fail(IdempotencyError::Persistence(PersistenceError::UnexpectedReply)),
        ),
        SaveState::Updating => match observation {
            SaveObservation::Updated { rows } => {
                if rows > 0 {
                    (SaveState::Committing, SaveDirective::Commit)
                } else {
                    (SaveState::Finished, SaveDirective::RollBack(IdempotencyError::NotClaimed))
                }
            },
            SaveObservation::Fault(e) => (
                SaveState::Finished,
                SaveDirective::RollBack(IdempotencyError::Persistence(e)),
            ),
            SaveObservation::Committed => (
                SaveState::Finished,
                SaveDirective::RollBack(
                    IdempotencyError::Persistence(PersistenceError::UnexpectedReply),
                ),
            ),
        },
        SaveState::Committing => match observation {
            SaveObservation::Committed => (SaveState::Finished, SaveDirective::Return),
            SaveObservation::Fault(e) => (
                SaveState::Finished,
                SaveDirective::Fail(IdempotencyError::Persistence(e)),
            ),
            SaveObservation::Updated { rows } => (
                SaveState::Finished,
                SaveDirective::RollBack(
                    IdempotencyError::Persistence(PersistenceError::UnexpectedReply),
                ),
            ),
        },
    }
}


} // verus!
