//! Rebuilding the derived state from the whole event stream.
use vstd::prelude::*;
use crate::error::{StoreError, input_error_text, prefixed_input_error};
use crate::keyed::{
    ViewEq, find_key, keyed_equal, keyed_view, keys_unique, lemma_keyed_lookup, lemma_keyed_push,
    lemma_keyed_update,
};
use crate::ledger::{event_ids_check, event_supported, supported_event, validate_replayed_event_ids};
use crate::model::{
    Actor, Project, ProjectCommand, ProjectModel, SideEffect, SideEffectCommand, SideEffectModel,
    VerificationReport, actor_check, actor_kind_from_text, audit_context_check, opt_text,
    parse_actor_kind, project_check, side_effect_check, str_eq,
};
use crate::projects::{
    ProjectEvent, Replayed, lemma_replay_rebuilds_committed_project, project_event_kind,
    project_mutation, replay_project,
};
use crate::side_effects::{
    ReplayedEffect, SideEffectEvent, lemma_replay_rebuilds_committed_effect, replay_side_effect,
    side_effect_event_kind, side_effect_mutation,
};

verus! {

/// The payload of a stored event, read by its aggregate type and kind.
#[derive(Debug, Clone, PartialEq)]
pub enum EventPayload {
    Project(ProjectEvent),
    SideEffect(SideEffectEvent),
}

/// One row of the event stream as the ledger stores it. The integers are
/// SQLite's signed values; the payload is the event's JSON as read for its
/// kind, or the error of reading it.
#[derive(Debug)]
pub struct StoredEvent {
    pub aggregate_type: String,
    pub aggregate_id: String,
    pub schema_version: u16,
    pub kind: String,
    pub payload: Result<EventPayload, StoreError>,
    pub revision: i64,
    pub occurred_at_unix_ms: i64,
    pub global_sequence: i64,
    pub event_id: String,
    pub command_id: String,
    pub causation_event_id: Option<String>,
    pub correlation_id: String,
    pub actor_kind: String,
    pub actor_id: Option<String>,
}

/// A payload read for the event's own aggregate type and kind.
pub open spec fn payload_fits(e: StoredEvent) -> bool {
    match e.payload {
        Ok(EventPayload::Project(p)) => e.aggregate_type@ == "project"@ && project_event_kind(p)
            == e.kind@,
        Ok(EventPayload::SideEffect(s)) => e.aggregate_type@ == "side_effect"@
            && side_effect_event_kind(s@) == e.kind@,
        Err(_) => true,
    }
}

/// The state that replaying the event stream derives.
#[derive(Debug)]
pub struct ReplayedState {
    pub projects: Vec<(String, Project)>,
    pub side_effects: Vec<(String, SideEffect)>,
    pub event_count: u64,
    pub project_cursor: u64,
    pub side_effect_cursor: u64,
}

/// The mathematical value of the derived state.
pub struct StateModel {
    pub projects: Map<Seq<char>, ProjectModel>,
    pub side_effects: Map<Seq<char>, SideEffectModel>,
    pub event_count: nat,
    pub project_cursor: u64,
    pub side_effect_cursor: u64,
}

impl View for ReplayedState {
    type V = StateModel;

    open spec fn view(&self) -> StateModel {
        StateModel {
            projects: keyed_view(self.projects@),
            side_effects: keyed_view(self.side_effects@),
            event_count: self.event_count as nat,
            project_cursor: self.project_cursor,
            side_effect_cursor: self.side_effect_cursor,
        }
    }
}

/// Why replay stopped.
pub enum ReplayFailure {
    Integrity(Seq<char>),
    Unsupported(Seq<char>, u16),
    Passed(StoreError),
}

/// An error that is the failure described.
pub open spec fn failure_matches(e: StoreError, f: ReplayFailure) -> bool {
    match f {
        ReplayFailure::Integrity(text) => e matches StoreError::IntegrityFailure(m) && m@ == text,
        ReplayFailure::Unsupported(kind, v) => e matches StoreError::UnsupportedEvent {
            kind: k,
            schema_version,
        } && k@ == kind && schema_version == v,
        ReplayFailure::Passed(p) => e == p,
    }
}

/// The derived state before any event.
pub open spec fn empty_state() -> StateModel {
    StateModel {
        projects: Map::empty(),
        side_effects: Map::empty(),
        event_count: 0,
        project_cursor: 0,
        side_effect_cursor: 0,
    }
}

/// The value of `key` in `m`, if any.
pub open spec fn lookup<V>(m: Map<Seq<char>, V>, key: Seq<char>) -> Option<V> {
    if m.contains_key(key) {
        Some(m[key])
    } else {
        None
    }
}

/// The payload of a project event, or the error of reading it.
pub open spec fn project_payload(p: Result<EventPayload, StoreError>) -> Result<ProjectEvent, StoreError> {
    match p {
        Ok(EventPayload::Project(e)) => Ok(e),
        Ok(EventPayload::SideEffect(_)) => Err(arbitrary()),
        Err(e) => Err(e),
    }
}

/// The payload of a side-effect event, or the error of reading it.
pub open spec fn effect_payload(p: Result<EventPayload, StoreError>) -> Result<SideEffectEvent, StoreError> {
    match p {
        Ok(EventPayload::SideEffect(e)) => Ok(e),
        Ok(EventPayload::Project(_)) => Err(arbitrary()),
        Err(e) => Err(e),
    }
}

/// One step of replay: the event's integers, actor kind, ids and actor are
/// checked in that order, then its kind, and then it is applied to its
/// aggregate, which becomes the cursor of that aggregate's projection.
pub open spec fn replay_step(st: StateModel, e: StoredEvent) -> Result<StateModel, ReplayFailure> {
    if e.revision < 0 || e.occurred_at_unix_ms < 0 || e.global_sequence < 0 {
        Err(ReplayFailure::Integrity("negative integer"@))
    } else if actor_kind_from_text(e.actor_kind@) is None {
        Err(ReplayFailure::Integrity("invalid actor kind"@))
    } else if event_ids_check(
        e.aggregate_id@,
        e.event_id@,
        e.command_id@,
        opt_text(e.causation_event_id),
        e.correlation_id@,
    ) is Err {
        Err(
            ReplayFailure::Integrity(
                "invalid event metadata: "@ + input_error_text(
                    event_ids_check(
                        e.aggregate_id@,
                        e.event_id@,
                        e.command_id@,
                        opt_text(e.causation_event_id),
                        e.correlation_id@,
                    )->Err_0,
                ),
            ),
        )
    } else if actor_check(
        Actor { kind: actor_kind_from_text(e.actor_kind@)->Some_0, actor_id: e.actor_id },
    ) is Err {
        Err(
            ReplayFailure::Integrity(
                "invalid event actor: "@ + input_error_text(
                    actor_check(
                        Actor { kind: actor_kind_from_text(e.actor_kind@)->Some_0, actor_id: e.actor_id },
                    )->Err_0,
                ),
            ),
        )
    } else if e.schema_version != 1 || !event_supported(e.aggregate_type@, e.kind@) {
        Err(ReplayFailure::Unsupported(e.kind@, e.schema_version))
    } else if e.aggregate_type@ == "project"@ {
        match replay_project(
            lookup(st.projects, e.aggregate_id@),
            e.aggregate_id@,
            e.kind@,
            project_payload(e.payload),
            e.revision as u64,
            e.occurred_at_unix_ms as u64,
            e.global_sequence as u64,
        ) {
            Replayed::Model(p) => Ok(
                StateModel {
                    projects: st.projects.insert(e.aggregate_id@, p),
                    event_count: st.event_count + 1,
                    project_cursor: e.global_sequence as u64,
                    ..st
                },
            ),
            Replayed::Failure(text) => Err(ReplayFailure::Integrity(text)),
            Replayed::Error(err) => Err(ReplayFailure::Passed(err)),
        }
    } else {
        match replay_side_effect(
            lookup(st.side_effects, e.aggregate_id@),
            e.aggregate_id@,
            e.kind@,
            effect_payload(e.payload),
            e.revision as u64,
            e.occurred_at_unix_ms as u64,
            e.global_sequence as u64,
        ) {
            ReplayedEffect::Model(s) => Ok(
                StateModel {
                    side_effects: st.side_effects.insert(e.aggregate_id@, s),
                    event_count: st.event_count + 1,
                    side_effect_cursor: e.global_sequence as u64,
                    ..st
                },
            ),
            ReplayedEffect::Failure(text) => Err(ReplayFailure::Integrity(text)),
            ReplayedEffect::Error(err) => Err(ReplayFailure::Passed(err)),
        }
    }
}

/// The derived state of an event stream, replayed in order, or why replay
/// stopped at the first event that fails.
pub open spec fn replay_events(events: Seq<StoredEvent>) -> Result<StateModel, ReplayFailure>
    decreases events.len(),
{
    if events.len() == 0 {
        Ok(empty_state())
    } else {
        match replay_events(events.drop_last()) {
            Ok(st) => replay_step(st, events.last()),
            Err(f) => Err(f),
        }
    }
}

/// Replay fails closed: once replay fails on a prefix of the stream, the
/// whole stream fails with the same failure, whatever events follow.
pub proof fn lemma_replay_stops_at_failure(events: Seq<StoredEvent>, k: int)
    requires
        0 <= k <= events.len(),
        replay_events(events.take(k)) is Err,
    ensures
        replay_events(events) == replay_events(events.take(k)),
    decreases events.len() - k,
{
    if k < events.len() {
        assert(events.take(k + 1).drop_last() =~= events.take(k));
        lemma_replay_stops_at_failure(events, k + 1);
    } else {
        assert(events.take(k) =~= events);
    }
}

/// The checks that every committed event passes before it is applied: its
/// integers are stored non-negative, its actor kind is known, its ids are
/// version-7 UUIDs, its actor is valid, and its schema and kind are supported.
pub open spec fn event_admissible(e: StoredEvent) -> bool {
    &&& e.revision >= 0 && e.occurred_at_unix_ms >= 0 && e.global_sequence >= 0
    &&& actor_kind_from_text(e.actor_kind@) is Some
    &&& event_ids_check(
        e.aggregate_id@,
        e.event_id@,
        e.command_id@,
        opt_text(e.causation_event_id),
        e.correlation_id@,
    ) is Ok
    &&& actor_check(Actor { kind: actor_kind_from_text(e.actor_kind@)->Some_0, actor_id: e.actor_id })
        is Ok
    &&& e.schema_version == 1 && event_supported(e.aggregate_type@, e.kind@)
}

/// Every projection that replay derives has a revision that SQLite holds:
/// the revision of the event that last changed it.
pub proof fn lemma_replayed_revisions_bounded(events: Seq<StoredEvent>)
    ensures
        replay_events(events) matches Ok(st) ==> revisions_bounded(st),
    decreases events.len(),
{
    if events.len() > 0 {
        lemma_replayed_revisions_bounded(events.drop_last());
    }
}

/// Committing a project command and replaying the stream agree: when the
/// stream replays to the materialized state, appending the event that a
/// committed command recorded (at its revision, time and sequence) replays
/// to that state with the command's projection, whose cursor is the event.
pub proof fn lemma_committed_project_command_replays(
    events: Seq<StoredEvent>,
    st: StateModel,
    c: ProjectCommand,
    recorded: ProjectEvent,
    p: ProjectModel,
    ev: StoredEvent,
)
    requires
        replay_events(events) == Ok::<StateModel, ReplayFailure>(st),
        project_mutation(ev.aggregate_id@, c, lookup(st.projects, ev.aggregate_id@), ev.occurred_at_unix_ms as u64)
            == Some((recorded, p)),
        project_check(p) is Ok,
        event_admissible(ev),
        ev.aggregate_type@ == "project"@,
        ev.kind@ == project_event_kind(recorded),
        ev.payload == Ok::<EventPayload, StoreError>(EventPayload::Project(recorded)),
        ev.revision == p.revision,
    ensures
        replay_events(events.push(ev)) == Ok::<StateModel, ReplayFailure>(
            StateModel {
                projects: st.projects.insert(
                    ev.aggregate_id@,
                    ProjectModel { last_event_sequence: ev.global_sequence as u64, ..p },
                ),
                event_count: st.event_count + 1,
                project_cursor: ev.global_sequence as u64,
                ..st
            },
        ),
{
    lemma_replayed_revisions_bounded(events);
    assert(events.push(ev).drop_last() =~= events);
    let current = lookup(st.projects, ev.aggregate_id@);
    lemma_replay_rebuilds_committed_project(
        ev.aggregate_id@,
        c,
        current,
        ev.occurred_at_unix_ms as u64,
        ev.global_sequence as u64,
    );
}

/// Committing a side-effect command and replaying the stream agree, as for
/// projects.
pub proof fn lemma_committed_side_effect_command_replays(
    events: Seq<StoredEvent>,
    st: StateModel,
    c: SideEffectCommand,
    recorded: SideEffectEvent,
    s: SideEffectModel,
    ev: StoredEvent,
)
    requires
        replay_events(events) == Ok::<StateModel, ReplayFailure>(st),
        side_effect_mutation(
            ev.aggregate_id@,
            c,
            lookup(st.side_effects, ev.aggregate_id@),
            ev.occurred_at_unix_ms as u64,
        ) == Some((recorded@, s)),
        side_effect_check(s) is Ok,
        c is Authorize ==> audit_context_check(c->audit@) is Ok,
        event_admissible(ev),
        ev.aggregate_type@ == "side_effect"@,
        ev.kind@ == side_effect_event_kind(recorded@),
        ev.payload == Ok::<EventPayload, StoreError>(EventPayload::SideEffect(recorded)),
        ev.revision == s.revision,
    ensures
        replay_events(events.push(ev)) == Ok::<StateModel, ReplayFailure>(
            StateModel {
                side_effects: st.side_effects.insert(
                    ev.aggregate_id@,
                    SideEffectModel { last_event_sequence: ev.global_sequence as u64, ..s },
                ),
                event_count: st.event_count + 1,
                side_effect_cursor: ev.global_sequence as u64,
                ..st
            },
        ),
{
    lemma_replayed_revisions_bounded(events);
    assert(events.push(ev).drop_last() =~= events);
    reveal_strlit("project");
    reveal_strlit("side_effect");
    assert("project"@.len() != "side_effect"@.len());
    let current = lookup(st.side_effects, ev.aggregate_id@);
    lemma_replay_rebuilds_committed_effect(
        ev.aggregate_id@,
        c,
        current,
        ev.occurred_at_unix_ms as u64,
        ev.global_sequence as u64,
        recorded,
    );
}

/// Every projection of the state has a revision that SQLite can hold.
pub open spec fn revisions_bounded(st: StateModel) -> bool {
    &&& forall|k: Seq<char>| #[trigger] st.projects.contains_key(k) ==> st.projects[k].revision <= i64::MAX
    &&& forall|k: Seq<char>| #[trigger] st.side_effects.contains_key(k) ==> st.side_effects[k].revision
        <= i64::MAX
}

fn project_payload_of(p: Result<EventPayload, StoreError>) -> (r: Result<ProjectEvent, StoreError>)
    requires
        !(p matches Ok(EventPayload::SideEffect(_))),
    ensures
        r == project_payload(p),
{
    match p {
        Ok(EventPayload::Project(e)) => Ok(e),
        Ok(EventPayload::SideEffect(_)) => {
            proof {
                assert(false);
            }
            Err(StoreError::InvalidTransition)
        },
        Err(e) => Err(e),
    }
}

fn effect_payload_of(p: Result<EventPayload, StoreError>) -> (r: Result<SideEffectEvent, StoreError>)
    requires
        !(p matches Ok(EventPayload::Project(_))),
    ensures
        r == effect_payload(p),
{
    match p {
        Ok(EventPayload::SideEffect(e)) => Ok(e),
        Ok(EventPayload::Project(_)) => {
            proof {
                assert(false);
            }
            Err(StoreError::InvalidTransition)
        },
        Err(e) => Err(e),
    }
}

fn integrity(prefix: &str, error: StoreError) -> (r: StoreError)
    requires
        error is InvalidInput,
    ensures
        r matches StoreError::IntegrityFailure(m) && m@ == prefix@ + input_error_text(error),
{
    StoreError::IntegrityFailure(prefixed_input_error(prefix, error))
}

/// Every failure of an id or actor check names an invalid input.
proof fn lemma_event_checks_name_inputs(
    a: Seq<char>,
    b: Seq<char>,
    c: Seq<char>,
    d: Option<Seq<char>>,
    e: Seq<char>,
    actor: Actor,
)
    ensures
        event_ids_check(a, b, c, d, e) is Err ==> event_ids_check(a, b, c, d, e)->Err_0 is InvalidInput,
        actor_check(actor) is Err ==> actor_check(actor)->Err_0 is InvalidInput,
{
}

/// Applies one stored event to the derived state.
fn replay_one(state: &mut ReplayedState, event: StoredEvent) -> (r: Result<(), StoreError>)
    requires
        payload_fits(event),
        keys_unique(old(state).projects@),
        keys_unique(old(state).side_effects@),
        revisions_bounded(old(state)@),
        old(state).event_count < u64::MAX,
    ensures
        match replay_step(old(state)@, event) {
            Ok(st) => r is Ok && final(state)@ == st,
            Err(f) => r matches Err(e) && failure_matches(e, f),
        },
        r is Ok ==> keys_unique(final(state).projects@) && keys_unique(final(state).side_effects@)
            && revisions_bounded(final(state)@),
{
    let revision = crate::ledger::from_i64(event.revision)?;
    let occurred_at_unix_ms = crate::ledger::from_i64(event.occurred_at_unix_ms)?;
    let sequence = crate::ledger::from_i64(event.global_sequence)?;
    let kind = parse_actor_kind(event.actor_kind.as_str())?;
    let actor = Actor { kind, actor_id: event.actor_id };
    let causation = match &event.causation_event_id {
        Some(c) => Some(c.as_str()),
        None => None,
    };
    validate_replayed_event_ids(
        event.aggregate_id.as_str(),
        event.event_id.as_str(),
        event.command_id.as_str(),
        causation,
        event.correlation_id.as_str(),
    )?;
    proof {
        lemma_event_checks_name_inputs(
            event.aggregate_id@,
            event.event_id@,
            event.command_id@,
            opt_text(event.causation_event_id),
            event.correlation_id@,
            actor,
        );
    }
    match actor.validate() {
        Ok(()) => {},
        Err(error) => {
            return Err(integrity("invalid event actor: ", error));
        },
    }
    if event.schema_version != 1 || !supported_event(event.aggregate_type.as_str(), event.kind.as_str()) {
        return Err(StoreError::UnsupportedEvent { kind: event.kind, schema_version: event.schema_version });
    }
    proof {
        reveal_strlit("project");
        reveal_strlit("side_effect");
        assert("project"@.len() != "side_effect"@.len());
    }
    if crate::model::str_eq(event.aggregate_type.as_str(), "project") {
        let found = find_key(&state.projects, event.aggregate_id.as_str());
        proof {
            lemma_keyed_lookup(state.projects@, event.aggregate_id@);
        }
        let current = match found {
            Some(i) => Some(state.projects[i].1.duplicate()),
            None => None,
        };
        let payload = project_payload_of(event.payload);
        let project = crate::projects::replay_event(
            current,
            event.aggregate_id.as_str(),
            event.kind.as_str(),
            payload,
            revision,
            occurred_at_unix_ms,
            sequence,
        )?;
        let ghost before = state.projects@;
        match found {
            Some(i) => {
                state.projects.set(i, (event.aggregate_id, project));
                proof {
                    lemma_keyed_update(before, i as int, state.projects@[i as int]);
                }
            },
            None => {
                state.projects.push((event.aggregate_id, project));
                proof {
                    lemma_keyed_push(before, state.projects@.last());
                    assert(state.projects@ == before.push(state.projects@.last()));
                }
            },
        }
        state.event_count = state.event_count + 1;
        state.project_cursor = sequence;
        Ok(())
    } else {
        let found = find_key(&state.side_effects, event.aggregate_id.as_str());
        proof {
            lemma_keyed_lookup(state.side_effects@, event.aggregate_id@);
        }
        let current = match found {
            Some(i) => Some(state.side_effects[i].1.duplicate()),
            None => None,
        };
        let payload = effect_payload_of(event.payload);
        let effect = crate::side_effects::replay_event(
            current,
            event.aggregate_id.as_str(),
            event.kind.as_str(),
            payload,
            revision,
            occurred_at_unix_ms,
            sequence,
        )?;
        let ghost before = state.side_effects@;
        match found {
            Some(i) => {
                state.side_effects.set(i, (event.aggregate_id, effect));
                proof {
                    lemma_keyed_update(before, i as int, state.side_effects@[i as int]);
                }
            },
            None => {
                state.side_effects.push((event.aggregate_id, effect));
                proof {
                    lemma_keyed_push(before, state.side_effects@.last());
                    assert(state.side_effects@ == before.push(state.side_effects@.last()));
                }
            },
        }
        state.event_count = state.event_count + 1;
        state.side_effect_cursor = sequence;
        Ok(())
    }
}

/// Replays the whole event stream, in order, into the derived state: the
/// projections of projects and side effects keyed by aggregate id, the number
/// of events and the cursor of each projection.
pub fn replay_derived_state(events: Vec<StoredEvent>) -> (r: Result<ReplayedState, StoreError>)
    requires
        events@.len() < u64::MAX,
        forall|i: int| 0 <= i < events@.len() ==> payload_fits(#[trigger] events@[i]),
    ensures
        match replay_events(events@) {
            Ok(st) => r matches Ok(s) && s@ == st,
            Err(f) => r matches Err(e) && failure_matches(e, f),
        },
        r matches Ok(s) ==> keys_unique(s.projects@) && keys_unique(s.side_effects@),
{
    let ghost all = events@;
    let mut state = ReplayedState {
        projects: Vec::new(),
        side_effects: Vec::new(),
        event_count: 0,
        project_cursor: 0,
        side_effect_cursor: 0,
    };
    assert(state@ == empty_state()) by {
        assert(state@.projects =~= Map::empty());
        assert(state@.side_effects =~= Map::empty());
    }
    for event in it: events
        invariant
            it.seq() == all,
            all.len() < u64::MAX,
            forall|i: int| 0 <= i < all.len() ==> payload_fits(#[trigger] all[i]),
            replay_events(all.take(it.index())) == Ok::<StateModel, ReplayFailure>(state@),
            state.event_count == it.index(),
            keys_unique(state.projects@),
            keys_unique(state.side_effects@),
            revisions_bounded(state@),
    {
        let ghost k = it.index();
        proof {
            assert(event == all[k]);
            assert(all.take(k + 1).drop_last() =~= all.take(k));
            assert(all.take(k + 1).last() == all[k]);
        }
        let step = replay_one(&mut state, event);
        if step.is_err() {
            proof {
                lemma_replay_stops_at_failure(all, k + 1);
            }
            return Err(step.unwrap_err());
        }
    }
    assert(all.take(all.len() as int) =~= all);
    Ok(state)
}

/// Whether the event's payload was read for its own aggregate type and kind.
pub fn event_payload_fits(e: &StoredEvent) -> (r: bool)
    ensures
        r == payload_fits(*e),
{
    match &e.payload {
        Ok(EventPayload::Project(p)) => str_eq(e.aggregate_type.as_str(), "project") && str_eq(
            p.kind(),
            e.kind.as_str(),
        ),
        Ok(EventPayload::SideEffect(x)) => str_eq(e.aggregate_type.as_str(), "side_effect")
            && str_eq(x.kind(), e.kind.as_str()),
        Err(_) => true,
    }
}

/// A stream that replay can take: shorter than `u64::MAX` events, each
/// payload read for its own aggregate type and kind.
pub open spec fn stream_fits(events: Seq<StoredEvent>) -> bool {
    &&& events.len() < u64::MAX
    &&& forall|i: int| 0 <= i < events.len() ==> payload_fits(#[trigger] events[i])
}

/// Replays an event stream as storage hands it over. A stream of `u64::MAX`
/// events or more, or one with a payload read for another aggregate type or
/// kind, is an integrity failure; any other stream is replayed as
/// [`replay_derived_state`] replays it.
pub fn replay_stored_events(events: Vec<StoredEvent>) -> (r: Result<ReplayedState, StoreError>)
    ensures
        events@.len() >= u64::MAX ==> (r matches Err(StoreError::IntegrityFailure(m)) && m@
            == "event stream too long"@),
        events@.len() < u64::MAX && !stream_fits(events@) ==> (r matches Err(
            StoreError::IntegrityFailure(m),
        ) && m@ == "event payload does not match its kind"@),
        stream_fits(events@) ==> match replay_events(events@) {
            Ok(st) => r matches Ok(s) && s@ == st,
            Err(f) => r matches Err(e) && failure_matches(e, f),
        },
        r matches Ok(s) ==> keys_unique(s.projects@) && keys_unique(s.side_effects@),
{
    if events.len() as u64 == u64::MAX {
        return Err(StoreError::IntegrityFailure("event stream too long".to_owned()));
    }
    let mut i: usize = 0;
    while i < events.len()
        invariant
            i <= events@.len(),
            events@.len() < u64::MAX,
            forall|j: int| 0 <= j < i ==> payload_fits(#[trigger] events@[j]),
        decreases events@.len() - i,
    {
        if !event_payload_fits(&events[i]) {
            return Err(StoreError::IntegrityFailure("event payload does not match its kind".to_owned()));
        }
        i = i + 1;
    }
    replay_derived_state(events)
}

fn opt_str_eq(a: &Option<String>, b: &Option<String>) -> (r: bool)
    ensures
        r == (opt_text(*a) == opt_text(*b)),
{
    match (a, b) {
        (Some(x), Some(y)) => str_eq(x.as_str(), y.as_str()),
        (None, None) => true,
        _ => false,
    }
}

impl ViewEq for Project {
    fn view_eq(&self, other: &Self) -> (r: bool) {
        str_eq(self.id.as_str(), other.id.as_str()) && str_eq(
            self.display_name.as_str(),
            other.display_name.as_str(),
        ) && str_eq(self.repo_root.as_str(), other.repo_root.as_str()) && str_eq(
            self.repo_identity.as_str(),
            other.repo_identity.as_str(),
        ) && str_eq(self.default_branch.as_str(), other.default_branch.as_str())
            && self.trust_state == other.trust_state && self.weight_bits == other.weight_bits
            && str_eq(self.provider_policy.as_str(), other.provider_policy.as_str()) && str_eq(
            self.data_classification.as_str(),
            other.data_classification.as_str(),
        ) && self.revision == other.revision && self.created_at_unix_ms
            == other.created_at_unix_ms && self.updated_at_unix_ms == other.updated_at_unix_ms
            && self.last_event_sequence == other.last_event_sequence
    }
}

impl ViewEq for SideEffect {
    fn view_eq(&self, other: &Self) -> (r: bool) {
        str_eq(self.action_id.as_str(), other.action_id.as_str()) && opt_str_eq(
            &self.project_id,
            &other.project_id,
        ) && str_eq(self.run_id.as_str(), other.run_id.as_str()) && str_eq(
            self.capability.as_str(),
            other.capability.as_str(),
        ) && str_eq(self.action_digest.as_str(), other.action_digest.as_str()) && str_eq(
            self.approval_id.as_str(),
            other.approval_id.as_str(),
        ) && str_eq(self.binding_digest.as_str(), other.binding_digest.as_str()) && self.phase
            == other.phase && self.revision == other.revision && self.result_class
            == other.result_class && self.authorized_at_unix_ms == other.authorized_at_unix_ms
            && self.started_at_unix_ms == other.started_at_unix_ms && self.finished_at_unix_ms
            == other.finished_at_unix_ms && self.updated_at_unix_ms == other.updated_at_unix_ms
            && self.last_event_sequence == other.last_event_sequence
    }
}

/// Projects read from the projection table, keyed by their ids.
pub fn keyed_projects(projects: Vec<Project>) -> (r: Vec<(String, Project)>)
    ensures
        r@ == projects@.map_values(|p: Project| (p.id, p)),
{
    let ghost all = projects@;
    let mut keyed: Vec<(String, Project)> = Vec::new();
    for project in it: projects
        invariant
            it.seq() == all,
            keyed@ == all.take(it.index()).map_values(|p: Project| (p.id, p)),
    {
        let ghost k = it.index();
        proof {
            assert(project == all[k]);
        }
        let id = project.id.clone();
        keyed.push((id, project));
        proof {
            assert(keyed@ =~= all.take(k + 1).map_values(|p: Project| (p.id, p)));
        }
    }
    assert(all.take(all.len() as int) =~= all);
    keyed
}

/// Side effects read from the projection table, keyed by their action ids.
pub fn keyed_side_effects(effects: Vec<SideEffect>) -> (r: Vec<(String, SideEffect)>)
    ensures
        r@ == effects@.map_values(|e: SideEffect| (e.action_id, e)),
{
    let ghost all = effects@;
    let mut keyed: Vec<(String, SideEffect)> = Vec::new();
    for effect in it: effects
        invariant
            it.seq() == all,
            keyed@ == all.take(it.index()).map_values(|e: SideEffect| (e.action_id, e)),
    {
        let ghost k = it.index();
        proof {
            assert(effect == all[k]);
        }
        let id = effect.action_id.clone();
        keyed.push((id, effect));
        proof {
            assert(keyed@ =~= all.take(k + 1).map_values(|e: SideEffect| (e.action_id, e)));
        }
    }
    assert(all.take(all.len() as int) =~= all);
    keyed
}

/// Which projections differ from the replayed state.
#[derive(Debug, Clone, Copy, PartialEq, Eq, Structural)]
pub struct ProjectionCheck {
    pub projects_mismatch: bool,
    pub side_effects_mismatch: bool,
}

/// Compares the stored projections and their cursors with the replayed
/// state. A difference is an integrity failure unless the caller repairs it.
pub fn compare_projections(
    expected: &ReplayedState,
    actual_projects: &Vec<(String, Project)>,
    project_cursor: u64,
    actual_side_effects: &Vec<(String, SideEffect)>,
    side_effect_cursor: u64,
    repair: bool,
) -> (r: Result<ProjectionCheck, StoreError>)
    requires
        keys_unique(expected.projects@),
        keys_unique(expected.side_effects@),
    ensures
        ({
            let projects_mismatch = expected@.projects != keyed_view(actual_projects@)
                || expected.project_cursor != project_cursor;
            let side_effects_mismatch = expected@.side_effects != keyed_view(actual_side_effects@)
                || expected.side_effect_cursor != side_effect_cursor;
            if (projects_mismatch || side_effects_mismatch) && !repair {
                r matches Err(StoreError::IntegrityFailure(m)) && m@
                    == "derived projections differ from event stream"@
            } else {
                r == Ok::<ProjectionCheck, StoreError>(
                    ProjectionCheck { projects_mismatch, side_effects_mismatch },
                )
            }
        }),
{
    let projects_mismatch = !keyed_equal(&expected.projects, actual_projects)
        || expected.project_cursor != project_cursor;
    let side_effects_mismatch = !keyed_equal(&expected.side_effects, actual_side_effects)
        || expected.side_effect_cursor != side_effect_cursor;
    if (projects_mismatch || side_effects_mismatch) && !repair {
        return Err(
            StoreError::IntegrityFailure("derived projections differ from event stream".to_owned()),
        );
    }
    Ok(ProjectionCheck { projects_mismatch, side_effects_mismatch })
}

/// The report of a verification: the counts of the replayed state and
/// whether the projections were rebuilt.
pub fn verification_report(expected: &ReplayedState, rebuilt: bool) -> (r: VerificationReport)
    ensures
        r.event_count == expected.event_count,
        r.project_count == expected.projects@.len(),
        r.side_effect_count == expected.side_effects@.len(),
        r.projections_rebuilt == rebuilt,
{
    VerificationReport {
        event_count: expected.event_count,
        project_count: expected.projects.len() as u64,
        side_effect_count: expected.side_effects.len() as u64,
        projections_rebuilt: rebuilt,
    }
}

} // verus!
