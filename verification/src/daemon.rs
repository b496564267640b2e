//! Daemon-side composition of API commands and the request journal.
//!
//! Read-only commands are evaluated directly and never journaled. The one
//! side-effect-free mutation is accepted at most once per request identity:
//! a retry with the same command replays the original result, and a retry
//! with a different command gets a stable conflict.
pub mod receive;

use vstd::prelude::*;
use crate::api::{
    command_class, noop_response, ApiError, CanonicalizationError, Command, CommandClass, CommandEnvelope,
    ErrorCode, ErrorDetails, NoopService, ResponseEnvelope, ResponseOutcome, ResultBody, API_VERSION,
    MAX_NOOP_MARKER_BYTES,
};
use crate::domain::ids::{commandid_prefix, CommandId, RequestId, ServiceInstanceId};
use crate::text::{str_eq, utf8};

verus! {

/// Failure of the request journal.
#[derive(Debug, Clone, Copy, PartialEq, Eq, Structural)]
pub enum JournalError {
    /// The acceptance time precedes the Unix epoch.
    InvalidAcceptedTime,
}

/// Failure before a bounded API response could be produced.
#[derive(Debug, Clone, Copy, PartialEq, Eq, Structural)]
pub enum ProcessorError {
    /// Command canonicalization rejected an invalid bounded value.
    Canonicalization(CanonicalizationError),
    /// The journal could not accept or recover the request.
    Storage(JournalError),
}

/// One accepted mutating command.
#[derive(Debug)]
pub struct AcceptedCommand {
    /// Client request identity.
    pub request_id: RequestId,
    /// Accepted-command identity derived from the request identity.
    pub command_id: CommandId,
    /// Marker of the accepted no-op mutation, its canonical identity.
    pub marker: String,
    /// Acceptance time, in milliseconds since the Unix epoch.
    pub accepted_utc_millis: i64,
}

/// A journal entry as a value: request identity, marker, acceptance time.
pub type AcceptedView = (Seq<char>, Seq<char>, i64);

impl View for AcceptedCommand {
    type V = AcceptedView;

    open spec fn view(&self) -> AcceptedView {
        (self.request_id@, self.marker@, self.accepted_utc_millis)
    }
}

/// Whether a command identity is the one derived from its request identity.
pub open spec fn derived_command_id(command_id: CommandId, request_id: RequestId) -> bool {
    utf8(command_id@) == commandid_prefix() + utf8(request_id@).skip(4)
}

impl Clone for AcceptedCommand {
    fn clone(&self) -> (res: Self)
        ensures
            res == *self,
    {
        AcceptedCommand {
            request_id: self.request_id.clone(),
            command_id: self.command_id.clone(),
            marker: self.marker.clone(),
            accepted_utc_millis: self.accepted_utc_millis,
        }
    }
}

/// The most recent entry for a request identity, if any.
pub open spec fn accepted_for(entries: Seq<AcceptedView>, request_id: Seq<char>) -> Option<AcceptedView>
    decreases entries.len(),
{
    if entries.len() == 0 {
        None
    } else if entries.last().0 == request_id {
        Some(entries.last())
    } else {
        accepted_for(entries.drop_last(), request_id)
    }
}

/// Result of offering one command to the journal.
#[derive(Debug)]
pub enum AcceptOutcome {
    /// The command was the first for its request identity and is now journaled.
    Inserted,
    /// The request identity was already journaled with this entry.
    Existing(AcceptedCommand),
}

/// In-memory journal of accepted mutating commands, one per request identity.
pub struct RequestJournal {
    entries: Vec<AcceptedCommand>,
}

impl View for RequestJournal {
    type V = Seq<AcceptedView>;

    closed spec fn view(&self) -> Seq<AcceptedView> {
        self.entries@.map_values(|e: AcceptedCommand| e@)
    }
}

impl RequestJournal {
    #[verifier::type_invariant]
    spec fn inv(self) -> bool {
        &&& forall|i: int| 0 <= i < self.entries@.len()
            ==> derived_command_id(#[trigger] self.entries@[i].command_id, self.entries@[i].request_id)
        &&& forall|i: int| 0 <= i < self.entries@.len() ==> #[trigger] self.entries@[i].accepted_utc_millis >= 0
    }

    /// Creates an empty journal.
    pub fn new() -> (res: Self)
        ensures
            res@ == Seq::<AcceptedView>::empty(),
    {
        let res = RequestJournal { entries: Vec::new() };
        assert(res@ =~= Seq::<AcceptedView>::empty());
        res
    }

    fn find(&self, request_id: &RequestId) -> (res: Option<usize>)
        ensures
            match res {
                Some(i) => i < self.entries@.len() && accepted_for(self@, request_id@) == Some(self@[i as int])
                    && self.entries@[i as int].request_id@ == request_id@,
                None => accepted_for(self@, request_id@) is None,
            },
    {
        let ghost all = self@;
        let mut i: usize = self.entries.len();
        assert(all.take(i as int) =~= all);
        while i > 0
            invariant
                i <= self.entries@.len(),
                all == self@,
                all.len() == self.entries@.len(),
                accepted_for(all, request_id@) == accepted_for(all.take(i as int), request_id@),
            decreases i,
        {
            i -= 1;
            proof {
                let prefix = all.take(i as int + 1);
                assert(prefix.last() == all[i as int]);
                assert(prefix.drop_last() =~= all.take(i as int));
            }
            if str_eq(self.entries[i].request_id.as_str(), request_id.as_str()) {
                return Some(i);
            }
        }
        None
    }

    /// Returns a copy of the entry for a request identity, if any.
    pub fn accepted_command(&self, request_id: &RequestId) -> (res: Option<AcceptedCommand>)
        ensures
            match res {
                Some(e) => accepted_for(self@, request_id@) == Some(e@),
                None => accepted_for(self@, request_id@) is None,
            },
    {
        match self.find(request_id) {
            Some(i) => Some(self.entries[i].clone()),
            None => None,
        }
    }

    /// Journals a command unless its request identity is already journaled,
    /// in which case the existing entry is returned and nothing changes.
    pub fn accept_or_existing(&mut self, command: AcceptedCommand) -> (res: Result<AcceptOutcome, JournalError>)
        requires
            derived_command_id(command.command_id, command.request_id),
        ensures
            command.accepted_utc_millis < 0 ==> res == Err::<AcceptOutcome, JournalError>(
                JournalError::InvalidAcceptedTime,
            ) && final(self)@ == old(self)@,
            command.accepted_utc_millis >= 0 ==> match accepted_for(old(self)@, command.request_id@) {
                None => res matches Ok(AcceptOutcome::Inserted) && final(self)@ == old(self)@.push(command@),
                Some(e) => res matches Ok(AcceptOutcome::Existing(x)) && x@ == e && final(self)@ == old(self)@,
            },
    {
        if command.accepted_utc_millis < 0 {
            return Err(JournalError::InvalidAcceptedTime);
        }
        match self.accepted_command(&command.request_id) {
            Some(existing) => Ok(AcceptOutcome::Existing(existing)),
            None => {
                let ghost before = self@;
                proof {
                    use_type_invariant(&*self);
                }
                let mut entries: Vec<AcceptedCommand> = Vec::new();
                std::mem::swap(&mut entries, &mut self.entries);
                entries.push(command);
                self.entries = entries;
                assert(self@ =~= before.push(command@));
                Ok(AcceptOutcome::Inserted)
            },
        }
    }
}

/// Outcome of one no-op mutation against the journal, before it becomes a response.
pub enum MutationOutcome {
    /// The mutation with this marker is accepted, now or earlier.
    Accepted(Seq<char>),
    /// The request identity was accepted for a different marker.
    Conflict,
    /// The marker exceeds its canonical bound.
    MarkerTooLong,
    /// The acceptance time precedes the Unix epoch.
    InvalidAcceptedTime,
}

/// One no-op mutation with identity `request_id`, marker `marker` and
/// acceptance time `time` against `journal`: the outcome and the journal after it.
pub open spec fn mutation_step(journal: Seq<AcceptedView>, request_id: Seq<char>, marker: Seq<char>, time: i64) -> (
    MutationOutcome,
    Seq<AcceptedView>,
) {
    if utf8(marker).len() > MAX_NOOP_MARKER_BYTES {
        (MutationOutcome::MarkerTooLong, journal)
    } else if time < 0 {
        (MutationOutcome::InvalidAcceptedTime, journal)
    } else {
        match accepted_for(journal, request_id) {
            None => (MutationOutcome::Accepted(marker), journal.push((request_id, marker, time))),
            Some(e) => if e.1 == marker {
                (MutationOutcome::Accepted(e.1), journal)
            } else {
                (MutationOutcome::Conflict, journal)
            },
        }
    }
}

/// Whether a processor result answers request `request_id` with `outcome`.
pub open spec fn answers(res: Result<ResponseEnvelope, ProcessorError>, request_id: Seq<char>, outcome: MutationOutcome) -> bool {
    match outcome {
        MutationOutcome::Accepted(marker) => match res {
            Ok(r) => r.api_version == API_VERSION && r.request_id@ == request_id && match r.outcome {
                ResponseOutcome::Success(ResultBody::NoopMutationAccepted { marker: m }) => m@ == marker,
                _ => false,
            },
            Err(_) => false,
        },
        MutationOutcome::Conflict => match res {
            Ok(r) => r.api_version == API_VERSION && r.request_id@ == request_id && match r.outcome {
                ResponseOutcome::Error(e) => e.code == ErrorCode::RequestIdConflict && !e.retryable
                    && e.details == ErrorDetails::RequestConflict,
                _ => false,
            },
            Err(_) => false,
        },
        MutationOutcome::MarkerTooLong => res == Err::<ResponseEnvelope, ProcessorError>(
            ProcessorError::Canonicalization(CanonicalizationError::MarkerTooLong),
        ),
        MutationOutcome::InvalidAcceptedTime => res == Err::<ResponseEnvelope, ProcessorError>(
            ProcessorError::Storage(JournalError::InvalidAcceptedTime),
        ),
    }
}

/// A retried mutation replays its accepted result: once a mutation is
/// accepted, the same request identity with the same marker is answered with
/// the same marker and leaves the journal as it is.
pub proof fn law_mutation_replay(journal: Seq<AcceptedView>, request_id: Seq<char>, marker: Seq<char>, first: i64, retry: i64)
    requires
        mutation_step(journal, request_id, marker, first).0 is Accepted,
        retry >= 0,
    ensures
        ({
            let (outcome, after) = mutation_step(journal, request_id, marker, first);
            mutation_step(after, request_id, marker, retry) == (outcome, after)
        }),
{
    let after = mutation_step(journal, request_id, marker, first).1;
    if accepted_for(journal, request_id) is None {
        assert(after.drop_last() =~= journal);
    }
}

/// A request identity is bound to its first accepted mutation: the same
/// identity with a different marker is a conflict and changes nothing.
pub proof fn law_mutation_conflict(
    journal: Seq<AcceptedView>,
    request_id: Seq<char>,
    marker: Seq<char>,
    other: Seq<char>,
    first: i64,
    retry: i64,
)
    requires
        mutation_step(journal, request_id, marker, first).0 is Accepted,
        other != marker,
        utf8(other).len() <= MAX_NOOP_MARKER_BYTES,
        retry >= 0,
    ensures
        ({
            let after = mutation_step(journal, request_id, marker, first).1;
            mutation_step(after, request_id, other, retry) == (MutationOutcome::Conflict, after)
        }),
{
    let after = mutation_step(journal, request_id, marker, first).1;
    if accepted_for(journal, request_id) is None {
        assert(after.drop_last() =~= journal);
    }
}

/// No-op service processor with durable mutating-request semantics.
pub struct CommandProcessor {
    service: NoopService,
    journal: RequestJournal,
}

impl CommandProcessor {
    /// The identity of the daemon process generation.
    pub closed spec fn spec_instance(&self) -> ServiceInstanceId {
        self.service.spec_instance()
    }

    /// The accepted mutating commands.
    pub closed spec fn spec_journal(&self) -> Seq<AcceptedView> {
        self.journal@
    }

    /// Builds a processor with an empty in-memory journal.
    pub fn in_memory(service_instance_id: ServiceInstanceId) -> (res: Result<Self, ProcessorError>)
        ensures
            res matches Ok(p) && p.spec_instance() == service_instance_id && p.spec_journal() == Seq::<
                AcceptedView,
            >::empty(),
    {
        Ok(CommandProcessor { service: NoopService::new(service_instance_id), journal: RequestJournal::new() })
    }

    /// Executes one command with an explicit acceptance time.
    ///
    /// Commands for another API version and read-only commands are answered by
    /// the no-op service and leave the journal unchanged; the no-op mutation
    /// goes through the journal as `mutation_step` says.
    pub fn execute(&mut self, envelope: CommandEnvelope, accepted_utc_millis: i64) -> (res: Result<
        ResponseEnvelope,
        ProcessorError,
    >)
        ensures
            final(self).spec_instance() == old(self).spec_instance(),
            envelope.api_version != API_VERSION || command_class(envelope.command) == CommandClass::ReadOnly ==> (
            res matches Ok(r) && noop_response(old(self).spec_instance(), envelope, r)) && final(self).spec_journal()
                == old(self).spec_journal(),
            envelope.api_version == API_VERSION ==> match envelope.command {
                Command::NoopMutation { marker } => {
                    let (outcome, after) = mutation_step(
                        old(self).spec_journal(),
                        envelope.request_id@,
                        marker@,
                        accepted_utc_millis,
                    );
                    answers(res, envelope.request_id@, outcome) && final(self).spec_journal() == after
                },
                _ => true,
            },
    {
        if envelope.api_version != API_VERSION || envelope.command.class() == CommandClass::ReadOnly {
            return Ok(self.service.execute(envelope));
        }
        if let Err(e) = envelope.command.canonical_bounds() {
            return Err(ProcessorError::Canonicalization(e));
        }
        let marker = match &envelope.command {
            Command::NoopMutation { marker } => marker.clone(),
            _ => {
                return Ok(self.service.execute(envelope));
            },
        };
        let request_id = envelope.request_id;
        let accepted = AcceptedCommand {
            request_id: request_id.clone(),
            command_id: CommandId::for_request(&request_id),
            marker: marker.clone(),
            accepted_utc_millis,
        };
        match self.journal.accept_or_existing(accepted) {
            Err(e) => Err(ProcessorError::Storage(e)),
            Ok(AcceptOutcome::Inserted) => Ok(accepted_response(request_id, marker)),
            Ok(AcceptOutcome::Existing(existing)) => {
                if str_eq(existing.marker.as_str(), marker.as_str()) {
                    Ok(accepted_response(request_id, existing.marker))
                } else {
                    Ok(conflict_response(request_id))
                }
            },
        }
    }

    /// Reports whether a mutating request identity has been journaled.
    pub fn is_journaled(&self, request_id: &RequestId) -> (res: Result<bool, ProcessorError>)
        ensures
            res matches Ok(b) && b == (accepted_for(self.spec_journal(), request_id@) is Some),
    {
        Ok(self.journal.accepted_command(request_id).is_some())
    }
}

fn accepted_response(request_id: RequestId, marker: String) -> (res: ResponseEnvelope)
    ensures
        res.api_version == API_VERSION,
        res.request_id == request_id,
        res.outcome == ResponseOutcome::Success(ResultBody::NoopMutationAccepted { marker }),
{
    ResponseEnvelope {
        api_version: API_VERSION,
        request_id,
        outcome: ResponseOutcome::Success(ResultBody::NoopMutationAccepted { marker }),
    }
}

fn conflict_response(request_id: RequestId) -> (res: ResponseEnvelope)
    ensures
        res.api_version == API_VERSION,
        res.request_id == request_id,
        res.outcome matches ResponseOutcome::Error(e) && e.code == ErrorCode::RequestIdConflict && !e.retryable
            && e.details == ErrorDetails::RequestConflict,
{
    ResponseEnvelope {
        api_version: API_VERSION,
        request_id,
        outcome: ResponseOutcome::Error(ApiError {
            code: ErrorCode::RequestIdConflict,
            message: "request ID was already accepted for a different command".to_string(),
            retryable: false,
            details: ErrorDetails::RequestConflict,
        }),
    }
}

} // verus!
