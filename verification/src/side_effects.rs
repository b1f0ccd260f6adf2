//! The side-effect aggregate: `authorized -> started -> finished`, with
//! `unknown` for a start that was interrupted.
use vstd::prelude::*;
use crate::error::{StoreError, input_error_text, prefixed_input_error};
use crate::model::{
    AuditContextModel, SideEffect, SideEffectAuditContext, SideEffectCommand, SideEffectModel,
    SideEffectPhase, SideEffectResultClass, audit_context_check, clone_opt_string, opt_text,
    side_effect_check, side_effect_command_check, uuid_v7_ok,
};

verus! {

/// The payload of a side-effect event, one variant per event kind.
#[derive(Debug, Clone, PartialEq, Eq)]
pub enum SideEffectEvent {
    Authorized {
        project_id: Option<String>,
        run_id: String,
        capability: String,
        action_digest: String,
        approval_id: String,
        binding_digest: String,
        audit: SideEffectAuditContext,
    },
    Started,
    Finished { result_class: SideEffectResultClass },
    OutcomeUnknown,
}

/// The mathematical value of a side-effect event.
pub enum SideEffectEventModel {
    Authorized {
        project_id: Option<Seq<char>>,
        run_id: Seq<char>,
        capability: Seq<char>,
        action_digest: Seq<char>,
        approval_id: Seq<char>,
        binding_digest: Seq<char>,
        audit: AuditContextModel,
    },
    Started,
    Finished { result_class: SideEffectResultClass },
    OutcomeUnknown,
}

impl View for SideEffectEvent {
    type V = SideEffectEventModel;

    open spec fn view(&self) -> SideEffectEventModel {
        match self {
            SideEffectEvent::Authorized {
                project_id,
                run_id,
                capability,
                action_digest,
                approval_id,
                binding_digest,
                audit,
            } => SideEffectEventModel::Authorized {
                project_id: opt_text(*project_id),
                run_id: run_id@,
                capability: capability@,
                action_digest: action_digest@,
                approval_id: approval_id@,
                binding_digest: binding_digest@,
                audit: audit@,
            },
            SideEffectEvent::Started => SideEffectEventModel::Started,
            SideEffectEvent::Finished { result_class } => SideEffectEventModel::Finished {
                result_class: *result_class,
            },
            SideEffectEvent::OutcomeUnknown => SideEffectEventModel::OutcomeUnknown,
        }
    }
}

/// The kind under which a side-effect event is recorded.
pub open spec fn side_effect_event_kind(e: SideEffectEventModel) -> Seq<char> {
    match e {
        SideEffectEventModel::Authorized { .. } => "side_effect.authorized"@,
        SideEffectEventModel::Started => "side_effect.started"@,
        SideEffectEventModel::Finished { .. } => "side_effect.finished"@,
        SideEffectEventModel::OutcomeUnknown => "side_effect.outcome_unknown"@,
    }
}

impl SideEffectEvent {
    /// The kind under which the event is recorded.
    pub fn kind(&self) -> (r: &'static str)
        ensures
            r@ == side_effect_event_kind(self@),
    {
        match self {
            SideEffectEvent::Authorized { .. } => "side_effect.authorized",
            SideEffectEvent::Started => "side_effect.started",
            SideEffectEvent::Finished { .. } => "side_effect.finished",
            SideEffectEvent::OutcomeUnknown => "side_effect.outcome_unknown",
        }
    }
}

/// What a side-effect command commits: the event and the new projection.
#[derive(Debug)]
pub struct SideEffectMutation {
    pub kind: &'static str,
    pub event: SideEffectEvent,
    pub side_effect: SideEffect,
}

/// The event that a side-effect command records.
pub open spec fn side_effect_command_event(c: SideEffectCommand) -> SideEffectEventModel {
    match c {
        SideEffectCommand::Authorize {
            project_id,
            run_id,
            capability,
            action_digest,
            approval_id,
            binding_digest,
            audit,
        } => SideEffectEventModel::Authorized {
            project_id: opt_text(project_id),
            run_id: run_id@,
            capability: capability@,
            action_digest: action_digest@,
            approval_id: approval_id@,
            binding_digest: binding_digest@,
            audit: audit@,
        },
        SideEffectCommand::Start => SideEffectEventModel::Started,
        SideEffectCommand::Finish { result_class } => SideEffectEventModel::Finished { result_class },
        SideEffectCommand::MarkUnknown => SideEffectEventModel::OutcomeUnknown,
    }
}

/// What a command does to the side effect `current`: the event it records
/// and the new projection, or `None` when it is refused. An authorization
/// creates the effect; a start needs an authorized effect; a finish and a
/// mark as unknown need a started one.
pub open spec fn side_effect_mutation(
    id: Seq<char>,
    c: SideEffectCommand,
    current: Option<SideEffectModel>,
    t: u64,
) -> Option<(SideEffectEventModel, SideEffectModel)> {
    match c {
        SideEffectCommand::Authorize {
            project_id,
            run_id,
            capability,
            action_digest,
            approval_id,
            binding_digest,
            ..
        } => if current is Some {
            None
        } else {
            Some(
                (
                    side_effect_command_event(c),
                    SideEffectModel {
                        action_id: id,
                        project_id: opt_text(project_id),
                        run_id: run_id@,
                        capability: capability@,
                        action_digest: action_digest@,
                        approval_id: approval_id@,
                        binding_digest: binding_digest@,
                        phase: SideEffectPhase::Authorized,
                        revision: 1,
                        result_class: None,
                        authorized_at_unix_ms: t,
                        started_at_unix_ms: None,
                        finished_at_unix_ms: None,
                        updated_at_unix_ms: t,
                        last_event_sequence: 0,
                    },
                ),
            )
        },
        SideEffectCommand::Start => match current {
            Some(e) => if e.phase != SideEffectPhase::Authorized {
                None
            } else {
                Some(
                    (
                        SideEffectEventModel::Started,
                        SideEffectModel {
                            phase: SideEffectPhase::Started,
                            revision: (e.revision + 1) as u64,
                            started_at_unix_ms: Some(t),
                            updated_at_unix_ms: t,
                            ..e
                        },
                    ),
                )
            },
            None => None,
        },
        SideEffectCommand::Finish { result_class } => match current {
            Some(e) => if e.phase != SideEffectPhase::Started {
                None
            } else {
                Some(
                    (
                        SideEffectEventModel::Finished { result_class },
                        SideEffectModel {
                            phase: SideEffectPhase::Finished,
                            revision: (e.revision + 1) as u64,
                            result_class: Some(result_class),
                            finished_at_unix_ms: Some(t),
                            updated_at_unix_ms: t,
                            ..e
                        },
                    ),
                )
            },
            None => None,
        },
        SideEffectCommand::MarkUnknown => match current {
            Some(e) => if e.phase != SideEffectPhase::Started {
                None
            } else {
                Some(
                    (
                        SideEffectEventModel::OutcomeUnknown,
                        SideEffectModel {
                            phase: SideEffectPhase::Unknown,
                            revision: (e.revision + 1) as u64,
                            updated_at_unix_ms: t,
                            ..e
                        },
                    ),
                )
            },
            None => None,
        },
    }
}

/// The view of an optional side effect.
pub open spec fn effect_opt_view(e: Option<&SideEffect>) -> Option<SideEffectModel> {
    match e {
        Some(e) => Some(e@),
        None => None,
    }
}

impl SideEffect {
    /// A copy of the side effect.
    pub fn duplicate(&self) -> (r: SideEffect)
        ensures
            r@ == self@,
    {
        SideEffect {
            action_id: self.action_id.clone(),
            project_id: clone_opt_string(&self.project_id),
            run_id: self.run_id.clone(),
            capability: self.capability.clone(),
            action_digest: self.action_digest.clone(),
            approval_id: self.approval_id.clone(),
            binding_digest: self.binding_digest.clone(),
            phase: self.phase,
            revision: self.revision,
            result_class: self.result_class,
            authorized_at_unix_ms: self.authorized_at_unix_ms,
            started_at_unix_ms: self.started_at_unix_ms,
            finished_at_unix_ms: self.finished_at_unix_ms,
            updated_at_unix_ms: self.updated_at_unix_ms,
            last_event_sequence: self.last_event_sequence,
        }
    }
}

/// Turns a side-effect command into the event it records and the
/// projection it leaves. The caller has checked the command and the revision.
pub fn build_mutation(
    action_id: &str,
    command: &SideEffectCommand,
    current: Option<&SideEffect>,
    occurred_at_unix_ms: u64,
) -> (r: Result<SideEffectMutation, StoreError>)
    requires
        current matches Some(e) ==> e.revision < u64::MAX,
    ensures
        match side_effect_mutation(action_id@, *command, effect_opt_view(current), occurred_at_unix_ms) {
            Some((e, s)) => r matches Ok(m) && m.event@ == e && m.side_effect@ == s && m.kind@
                == side_effect_event_kind(e),
            None => r matches Err(err) && (if command is Authorize {
                err matches StoreError::AggregateAlreadyExists(id) && id@ == action_id@
            } else if current is None {
                err matches StoreError::AggregateNotFound(id) && id@ == action_id@
            } else {
                err is InvalidTransition
            }),
        },
{
    match command {
        SideEffectCommand::Authorize {
            project_id,
            run_id,
            capability,
            action_digest,
            approval_id,
            binding_digest,
            audit,
        } => {
            if current.is_some() {
                return Err(StoreError::AggregateAlreadyExists(action_id.to_owned()));
            }
            let event = SideEffectEvent::Authorized {
                project_id: clone_opt_string(project_id),
                run_id: run_id.clone(),
                capability: capability.clone(),
                action_digest: action_digest.clone(),
                approval_id: approval_id.clone(),
                binding_digest: binding_digest.clone(),
                audit: audit.duplicate(),
            };
            let kind = event.kind();
            Ok(SideEffectMutation {
                kind,
                event,
                side_effect: SideEffect {
                    action_id: action_id.to_owned(),
                    project_id: clone_opt_string(project_id),
                    run_id: run_id.clone(),
                    capability: capability.clone(),
                    action_digest: action_digest.clone(),
                    approval_id: approval_id.clone(),
                    binding_digest: binding_digest.clone(),
                    phase: SideEffectPhase::Authorized,
                    revision: 1,
                    result_class: None,
                    authorized_at_unix_ms: occurred_at_unix_ms,
                    started_at_unix_ms: None,
                    finished_at_unix_ms: None,
                    updated_at_unix_ms: occurred_at_unix_ms,
                    last_event_sequence: 0,
                },
            })
        },
        _ => {
            let existing = match current {
                Some(e) => e,
                None => {
                    return Err(StoreError::AggregateNotFound(action_id.to_owned()));
                },
            };
            let mut effect = existing.duplicate();
            let event = match command {
                SideEffectCommand::Start => {
                    if effect.phase != SideEffectPhase::Authorized {
                        return Err(StoreError::InvalidTransition);
                    }
                    effect.phase = SideEffectPhase::Started;
                    effect.started_at_unix_ms = Some(occurred_at_unix_ms);
                    SideEffectEvent::Started
                },
                SideEffectCommand::Finish { result_class } => {
                    if effect.phase != SideEffectPhase::Started {
                        return Err(StoreError::InvalidTransition);
                    }
                    effect.phase = SideEffectPhase::Finished;
                    effect.result_class = Some(*result_class);
                    effect.finished_at_unix_ms = Some(occurred_at_unix_ms);
                    SideEffectEvent::Finished { result_class: *result_class }
                },
                _ => {
                    if effect.phase != SideEffectPhase::Started {
                        return Err(StoreError::InvalidTransition);
                    }
                    effect.phase = SideEffectPhase::Unknown;
                    SideEffectEvent::OutcomeUnknown
                },
            };
            effect.revision = effect.revision + 1;
            effect.updated_at_unix_ms = occurred_at_unix_ms;
            let kind = event.kind();
            Ok(SideEffectMutation { kind, event, side_effect: effect })
        },
    }
}

/// What replaying one side-effect event gives.
pub enum ReplayedEffect {
    Model(SideEffectModel),
    Failure(Seq<char>),
    Error(StoreError),
}

/// A projection that passes validation, or the integrity failure that says
/// why it does not.
pub open spec fn validated_effect(e: SideEffectModel) -> ReplayedEffect {
    match side_effect_check(e) {
        Ok(_) => ReplayedEffect::Model(e),
        Err(err) => ReplayedEffect::Failure("invalid replayed side effect: "@ + input_error_text(err)),
    }
}

/// The phase, result and timestamps that a change event sets, when the
/// effect's phase allows the event.
pub open spec fn phase_change(c: SideEffectModel, e: SideEffectEventModel, t: u64) -> Option<SideEffectModel> {
    match e {
        SideEffectEventModel::Started => if c.phase == SideEffectPhase::Authorized {
            Some(SideEffectModel { phase: SideEffectPhase::Started, started_at_unix_ms: Some(t), ..c })
        } else {
            None
        },
        SideEffectEventModel::Finished { result_class } => if c.phase == SideEffectPhase::Started {
            Some(
                SideEffectModel {
                    phase: SideEffectPhase::Finished,
                    result_class: Some(result_class),
                    finished_at_unix_ms: Some(t),
                    ..c
                },
            )
        } else {
            None
        },
        SideEffectEventModel::OutcomeUnknown => if c.phase == SideEffectPhase::Started {
            Some(SideEffectModel { phase: SideEffectPhase::Unknown, ..c })
        } else {
            None
        },
        _ => None,
    }
}

/// The projection that replaying the parsed event `e` of side effect `id` at
/// `revision`, time `t` and global sequence `seq` leaves, given the
/// projection so far.
pub open spec fn replay_parsed_side_effect(
    current: Option<SideEffectModel>,
    id: Seq<char>,
    e: SideEffectEventModel,
    revision: u64,
    t: u64,
    seq: u64,
) -> ReplayedEffect {
    match e {
        SideEffectEventModel::Authorized {
            project_id,
            run_id,
            capability,
            action_digest,
            approval_id,
            binding_digest,
            audit,
        } => if current is Some || revision != 1 {
            ReplayedEffect::Failure("invalid side-effect authorization event"@)
        } else if audit_context_check(audit) is Err {
            ReplayedEffect::Failure(
                "invalid replayed side effect: "@ + input_error_text(audit_context_check(audit)->Err_0),
            )
        } else {
            validated_effect(
                SideEffectModel {
                    action_id: id,
                    project_id,
                    run_id,
                    capability,
                    action_digest,
                    approval_id,
                    binding_digest,
                    phase: SideEffectPhase::Authorized,
                    revision,
                    result_class: None,
                    authorized_at_unix_ms: t,
                    started_at_unix_ms: None,
                    finished_at_unix_ms: None,
                    updated_at_unix_ms: t,
                    last_event_sequence: seq,
                },
            )
        },
        _ => match current {
            None => ReplayedEffect::Failure("side-effect event without aggregate"@),
            Some(c) => if revision != c.revision + 1 {
                ReplayedEffect::Failure("side-effect revision gap"@)
            } else {
                match phase_change(c, e, t) {
                    None => ReplayedEffect::Failure(
                        "invalid side-effect event: "@ + side_effect_event_kind(e),
                    ),
                    Some(n) => validated_effect(
                        SideEffectModel {
                            revision,
                            updated_at_unix_ms: t,
                            last_event_sequence: seq,
                            ..n
                        },
                    ),
                }
            },
        },
    }
}

/// The outcome of replay as a result: the projection or an integrity failure.
pub open spec fn effect_replay_matches(r: Result<SideEffect, StoreError>, expected: ReplayedEffect) -> bool {
    match expected {
        ReplayedEffect::Model(e) => r matches Ok(q) && q@ == e,
        ReplayedEffect::Failure(text) => r matches Err(StoreError::IntegrityFailure(m)) && m@ == text,
        ReplayedEffect::Error(e) => r == Err::<SideEffect, StoreError>(e),
    }
}

/// Every failure of a side-effect or audit-context check names an invalid input.
proof fn lemma_checks_name_inputs(e: SideEffectModel, a: AuditContextModel)
    ensures
        side_effect_check(e) is Err ==> side_effect_check(e)->Err_0 is InvalidInput,
        audit_context_check(a) is Err ==> audit_context_check(a)->Err_0 is InvalidInput,
{
}

fn validated(effect: SideEffect) -> (r: Result<SideEffect, StoreError>)
    ensures
        effect_replay_matches(r, validated_effect(effect@)),
{
    match effect.validate() {
        Ok(()) => Ok(effect),
        Err(error) => {
            proof {
                lemma_checks_name_inputs(effect@, arbitrary());
            }
            Err(StoreError::IntegrityFailure(prefixed_input_error("invalid replayed side effect: ", error)))
        },
    }
}

fn replay_parsed(
    current: Option<SideEffect>,
    action_id: &str,
    event: &SideEffectEvent,
    revision: u64,
    occurred_at_unix_ms: u64,
    sequence: u64,
) -> (r: Result<SideEffect, StoreError>)
    requires
        current matches Some(e) ==> e.revision < u64::MAX,
    ensures
        effect_replay_matches(
            r,
            replay_parsed_side_effect(
                match current {
                    Some(e) => Some(e@),
                    None => None,
                },
                action_id@,
                event@,
                revision,
                occurred_at_unix_ms,
                sequence,
            ),
        ),
{
    match event {
        SideEffectEvent::Authorized {
            project_id,
            run_id,
            capability,
            action_digest,
            approval_id,
            binding_digest,
            audit,
        } => {
            if current.is_some() || revision != 1 {
                return Err(
                    StoreError::IntegrityFailure("invalid side-effect authorization event".to_owned()),
                );
            }
            match audit.validate() {
                Ok(()) => {},
                Err(error) => {
                    proof {
                        lemma_checks_name_inputs(arbitrary(), audit@);
                    }
                    return Err(
                        StoreError::IntegrityFailure(
                            prefixed_input_error("invalid replayed side effect: ", error),
                        ),
                    );
                },
            }
            validated(
                SideEffect {
                    action_id: action_id.to_owned(),
                    project_id: clone_opt_string(project_id),
                    run_id: run_id.clone(),
                    capability: capability.clone(),
                    action_digest: action_digest.clone(),
                    approval_id: approval_id.clone(),
                    binding_digest: binding_digest.clone(),
                    phase: SideEffectPhase::Authorized,
                    revision,
                    result_class: None,
                    authorized_at_unix_ms: occurred_at_unix_ms,
                    started_at_unix_ms: None,
                    finished_at_unix_ms: None,
                    updated_at_unix_ms: occurred_at_unix_ms,
                    last_event_sequence: sequence,
                },
            )
        },
        _ => {
            let mut effect = match current {
                Some(e) => e,
                None => {
                    return Err(
                        StoreError::IntegrityFailure("side-effect event without aggregate".to_owned()),
                    );
                },
            };
            if revision != effect.revision + 1 {
                return Err(StoreError::IntegrityFailure("side-effect revision gap".to_owned()));
            }
            let allowed = match event {
                SideEffectEvent::Started => effect.phase == SideEffectPhase::Authorized,
                SideEffectEvent::Finished { .. } => effect.phase == SideEffectPhase::Started,
                SideEffectEvent::OutcomeUnknown => effect.phase == SideEffectPhase::Started,
                _ => false,
            };
            if !allowed {
                let mut text = "invalid side-effect event: ".to_owned();
                text.append(event.kind());
                return Err(StoreError::IntegrityFailure(text));
            }
            match event {
                SideEffectEvent::Started => {
                    effect.phase = SideEffectPhase::Started;
                    effect.started_at_unix_ms = Some(occurred_at_unix_ms);
                },
                SideEffectEvent::Finished { result_class } => {
                    effect.phase = SideEffectPhase::Finished;
                    effect.result_class = Some(*result_class);
                    effect.finished_at_unix_ms = Some(occurred_at_unix_ms);
                },
                _ => {
                    effect.phase = SideEffectPhase::Unknown;
                },
            }
            effect.revision = revision;
            effect.updated_at_unix_ms = occurred_at_unix_ms;
            effect.last_event_sequence = sequence;
            validated(effect)
        },
    }
}

/// Whether a change event of this kind may follow the phase `p`.
pub open spec fn kind_allowed_after(kind: Seq<char>, p: SideEffectPhase) -> bool {
    ||| kind == "side_effect.started"@ && p == SideEffectPhase::Authorized
    ||| kind == "side_effect.finished"@ && p == SideEffectPhase::Started
    ||| kind == "side_effect.outcome_unknown"@ && p == SideEffectPhase::Started
}

/// The projection that replaying a stored side-effect event leaves. The
/// payload is the result of reading the event's JSON by its kind; a payload
/// that could not be read is reported where the event's checks reach it.
pub open spec fn replay_side_effect(
    current: Option<SideEffectModel>,
    id: Seq<char>,
    kind: Seq<char>,
    payload: Result<SideEffectEvent, StoreError>,
    revision: u64,
    t: u64,
    seq: u64,
) -> ReplayedEffect {
    match payload {
        Ok(e) => replay_parsed_side_effect(current, id, e@, revision, t, seq),
        Err(err) => if kind == "side_effect.authorized"@ {
            if current is Some || revision != 1 {
                ReplayedEffect::Failure("invalid side-effect authorization event"@)
            } else {
                ReplayedEffect::Error(err)
            }
        } else {
            match current {
                None => ReplayedEffect::Failure("side-effect event without aggregate"@),
                Some(c) => if revision != c.revision + 1 {
                    ReplayedEffect::Failure("side-effect revision gap"@)
                } else if kind_allowed_after(kind, c.phase) {
                    ReplayedEffect::Error(err)
                } else {
                    ReplayedEffect::Failure("invalid side-effect event: "@ + kind)
                },
            }
        },
    }
}

/// Replays one stored side-effect event onto the projection so far. The
/// payload is the event's JSON as read for its kind, or the error of
/// reading it.
pub fn replay_event(
    current: Option<SideEffect>,
    action_id: &str,
    kind: &str,
    payload: Result<SideEffectEvent, StoreError>,
    revision: u64,
    occurred_at_unix_ms: u64,
    sequence: u64,
) -> (r: Result<SideEffect, StoreError>)
    requires
        current matches Some(e) ==> e.revision < u64::MAX,
        payload matches Ok(e) ==> side_effect_event_kind(e@) == kind@,
    ensures
        effect_replay_matches(
            r,
            replay_side_effect(
                match current {
                    Some(e) => Some(e@),
                    None => None,
                },
                action_id@,
                kind@,
                payload,
                revision,
                occurred_at_unix_ms,
                sequence,
            ),
        ),
{
    match payload {
        Ok(event) => replay_parsed(current, action_id, &event, revision, occurred_at_unix_ms, sequence),
        Err(error) => {
            if crate::model::str_eq(kind, "side_effect.authorized") {
                if current.is_some() || revision != 1 {
                    return Err(
                        StoreError::IntegrityFailure(
                            "invalid side-effect authorization event".to_owned(),
                        ),
                    );
                }
                return Err(error);
            }
            let effect = match current {
                Some(e) => e,
                None => {
                    return Err(
                        StoreError::IntegrityFailure("side-effect event without aggregate".to_owned()),
                    );
                },
            };
            if revision != effect.revision + 1 {
                return Err(StoreError::IntegrityFailure("side-effect revision gap".to_owned()));
            }
            if (crate::model::str_eq(kind, "side_effect.started") && effect.phase
                == SideEffectPhase::Authorized) || (crate::model::str_eq(kind, "side_effect.finished")
                && effect.phase == SideEffectPhase::Started) || (crate::model::str_eq(
                kind,
                "side_effect.outcome_unknown",
            ) && effect.phase == SideEffectPhase::Started) {
                return Err(error);
            }
            let mut text = "invalid side-effect event: ".to_owned();
            text.append(kind);
            Err(StoreError::IntegrityFailure(text))
        },
    }
}

/// The side effects that were started and never finished.
pub open spec fn is_started(e: SideEffect) -> bool {
    e.phase == SideEffectPhase::Started
}

/// The side effects of `effects` that are in the started phase, in order:
/// those that startup recovery marks as unknown.
pub fn started_side_effects(effects: Vec<SideEffect>) -> (r: Vec<SideEffect>)
    ensures
        r@ == effects@.filter(|e: SideEffect| is_started(e)),
{
    let ghost all = effects@;
    let mut started: Vec<SideEffect> = Vec::new();
    for effect in it: effects
        invariant
            it.seq() == all,
            started@ == all.take(it.index()).filter(|e: SideEffect| is_started(e)),
    {
        proof {
            assert(effect == all[it.index() as int]);
            assert(all.take(it.index() + 1).drop_last() =~= all.take(it.index() as int));
        }
        let ghost k = it.index();
        if effect.phase == SideEffectPhase::Started {
            started.push(effect);
        }
        proof {
            let p = |e: SideEffect| is_started(e);
            reveal(Seq::filter);
            assert(all.take(k + 1).last() == all[k]);
            assert(all.take(k + 1).filter(p) == if p(all[k]) {
                all.take(k).filter(p).push(all[k])
            } else {
                all.take(k).filter(p)
            });
            assert(started@ == all.take(k + 1).filter(p));
        }
    }
    assert(all.take(all.len() as int) =~= all);
    started
}

/// Replaying the event that a committed side-effect command recorded
/// rebuilds the projection that the command committed, with the event's
/// global sequence as its cursor.
pub proof fn lemma_replay_rebuilds_committed_effect(
    id: Seq<char>,
    c: SideEffectCommand,
    current: Option<SideEffectModel>,
    t: u64,
    seq: u64,
    recorded: SideEffectEvent,
)
    requires
        side_effect_mutation(id, c, current, t) matches Some((e, s)) && recorded@ == e
            && side_effect_check(s) is Ok,
        c is Authorize ==> audit_context_check(c->audit@) is Ok,
        current matches Some(q) ==> q.revision < u64::MAX,
    ensures
        side_effect_mutation(id, c, current, t) matches Some((e, s)) && replay_side_effect(
            current,
            id,
            side_effect_event_kind(e),
            Ok(recorded),
            s.revision,
            t,
            seq,
        ) == ReplayedEffect::Model(SideEffectModel { last_event_sequence: seq, ..s }),
{
    let (e, s) = side_effect_mutation(id, c, current, t)->Some_0;
    let q = SideEffectModel { last_event_sequence: seq, ..s };
    assert(side_effect_check(q) == side_effect_check(s));
}

/// The rank of a phase along `authorized -> started -> finished | unknown`.
pub open spec fn phase_rank(p: SideEffectPhase) -> int {
    match p {
        SideEffectPhase::Authorized => 0,
        SideEffectPhase::Started => 1,
        SideEffectPhase::Finished => 2,
        SideEffectPhase::Unknown => 2,
    }
}

/// Every accepted change moves a side effect strictly forward along
/// `authorized -> started -> finished | unknown`: an effect never returns to
/// an earlier phase, so a started action is never started again, and a
/// finished or unknown one accepts no further command.
pub proof fn lemma_side_effect_phases_only_advance(
    id: Seq<char>,
    c: SideEffectCommand,
    e: SideEffectModel,
    t: u64,
)
    requires
        e.revision < u64::MAX,
    ensures
        side_effect_mutation(id, c, Some(e), t) matches Some((_, n)) ==> phase_rank(e.phase)
            < phase_rank(n.phase) && n.revision == e.revision + 1,
        e.phase == SideEffectPhase::Finished || e.phase == SideEffectPhase::Unknown
            ==> side_effect_mutation(id, c, Some(e), t) is None,
        side_effect_mutation(id, c, Some(e), t) matches Some((_, n)) && n.phase
            == SideEffectPhase::Unknown ==> e.phase == SideEffectPhase::Started
            && c is MarkUnknown,
{
}

/// Valid commands keep side effects valid: a valid authorization under a
/// version-7 id, or a change of a valid effect at a time no earlier than its
/// authorization and start, leaves an effect that passes validation.
pub proof fn lemma_valid_commands_keep_side_effects_valid(
    id: Seq<char>,
    c: SideEffectCommand,
    current: Option<SideEffectModel>,
    t: u64,
)
    requires
        side_effect_command_check(c) is Ok,
        c is Authorize ==> uuid_v7_ok(id),
        current matches Some(q) ==> side_effect_check(q) is Ok && q.authorized_at_unix_ms <= t
            && (q.started_at_unix_ms matches Some(started) ==> started <= t) && q.revision
            < u64::MAX,
    ensures
        side_effect_mutation(id, c, current, t) matches Some((_, s)) ==> side_effect_check(s) is Ok,
{
}

/// A side-effect command records what it was given. An authorization of a
/// new effect creates it from the command's fields, authorized at `t`, at
/// revision 1 and with no result. A start, a finish and a mark as unknown
/// keep the effect's identity, digests and earlier times and move the
/// revision on by one: a start of an authorized effect records the start
/// time; a finish of a started effect records the command's result class,
/// in the event and in the projection, and the finish time; a mark as
/// unknown of a started effect records no result. Each is accepted exactly
/// on the phase named.
pub proof fn lemma_side_effect_commands_record_their_inputs(
    id: Seq<char>,
    c: SideEffectCommand,
    current: Option<SideEffectModel>,
    t: u64,
)
    requires
        current matches Some(e) ==> e.revision < u64::MAX,
    ensures
        c matches SideEffectCommand::Authorize {
            project_id,
            run_id,
            capability,
            action_digest,
            approval_id,
            binding_digest,
            ..
        } ==> (side_effect_mutation(id, c, current, t) is Some <==> current is None) && (
        side_effect_mutation(id, c, current, t) matches Some((ev, n)) ==> {
            &&& ev is Authorized
            &&& n.action_id == id && n.project_id == opt_text(project_id) && n.run_id == run_id@
            &&& n.capability == capability@ && n.action_digest == action_digest@
            &&& n.approval_id == approval_id@ && n.binding_digest == binding_digest@
            &&& n.phase == SideEffectPhase::Authorized && n.revision == 1 && n.result_class is None
            &&& n.authorized_at_unix_ms == t && n.started_at_unix_ms is None
            &&& n.finished_at_unix_ms is None
        }),
        !(c is Authorize) ==> (side_effect_mutation(id, c, current, t) is Some <==> (current matches Some(
            e,
        ) && e.phase == (if c is Start {
            SideEffectPhase::Authorized
        } else {
            SideEffectPhase::Started
        }))),
        !(c is Authorize) && current is Some ==> (side_effect_mutation(id, c, current, t) matches Some(
            (ev, n),
        ) ==> {
            let e = current->Some_0;
            &&& n.action_id == e.action_id && n.project_id == e.project_id && n.run_id == e.run_id
            &&& n.capability == e.capability && n.action_digest == e.action_digest
            &&& n.approval_id == e.approval_id && n.binding_digest == e.binding_digest
            &&& n.authorized_at_unix_ms == e.authorized_at_unix_ms
            &&& n.revision == e.revision + 1
            &&& n.updated_at_unix_ms == t
            &&& (c is Start ==> ev == SideEffectEventModel::Started && n.phase
                == SideEffectPhase::Started && n.started_at_unix_ms == Some(t) && n.result_class
                == e.result_class && n.finished_at_unix_ms == e.finished_at_unix_ms)
            &&& (c matches SideEffectCommand::Finish { result_class: k } ==> ev
                == SideEffectEventModel::Finished { result_class: k } && n.phase
                == SideEffectPhase::Finished && n.result_class == Some(k) && n.finished_at_unix_ms
                == Some(t) && n.started_at_unix_ms == e.started_at_unix_ms)
            &&& (c is MarkUnknown ==> ev == SideEffectEventModel::OutcomeUnknown && n.phase
                == SideEffectPhase::Unknown && n.result_class == e.result_class
                && n.finished_at_unix_ms == e.finished_at_unix_ms && n.started_at_unix_ms
                == e.started_at_unix_ms)
        }),
{
}

} // verus!
