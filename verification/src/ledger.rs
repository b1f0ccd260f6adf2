//! The decisions of the store around its ledger: admitting a command,
//! optimistic concurrency, exact-retry idempotency, audit metadata, and the
//! checks made on stored values read back.
use vstd::prelude::*;
use crate::canonical::{sha256, sha256_digest};
use crate::error::{StoreError, input_error_text, prefixed_input_error};
use crate::model::{
    AuditResultClass, CommandEnvelope, CommandReceipt, PolicyDecision, Project, ProjectCommand,
    SideEffect, SideEffectCommand, SideEffectResultClass, StoreCommand, clone_opt_string,
    envelope_check, project_check, side_effect_check, str_eq, uuid_check,
};
use crate::projects::{ProjectMutation, project_event_kind, project_mutation, project_opt_view};
use crate::side_effects::{
    SideEffectMutation, effect_opt_view, side_effect_event_kind, side_effect_mutation,
};

verus! {

/// The SHA-256 digest of the serialized command that a receipt stores.
pub fn request_digest(command_bytes: &[u8]) -> (r: [u8; 32])
    ensures
        r == sha256(command_bytes@),
{
    sha256_digest(command_bytes)
}

/// What `execute` admits: a valid envelope whose command is not the
/// startup-only recovery command.
pub open spec fn admission_check(e: CommandEnvelope) -> Result<(), StoreError> {
    match envelope_check(e) {
        Err(err) => Err(err),
        Ok(_) => if e.command matches StoreCommand::SideEffect(SideEffectCommand::MarkUnknown) {
            Err(StoreError::InvalidInput("startup-only recovery command"))
        } else {
            Ok(())
        },
    }
}

/// Checks a command before it is executed: the envelope must be valid, and
/// marking an outcome unknown is reserved for startup recovery.
pub fn admit_command(envelope: &CommandEnvelope) -> (r: Result<(), StoreError>)
    ensures
        r == admission_check(*envelope),
{
    envelope.validate()?;
    if let StoreCommand::SideEffect(SideEffectCommand::MarkUnknown) = &envelope.command {
        return Err(StoreError::InvalidInput("startup-only recovery command"));
    }
    Ok(())
}

/// Optimistic concurrency: the command's expected revision must be the
/// aggregate's actual revision (0 for an aggregate that does not exist yet).
pub fn ensure_revision(envelope: &CommandEnvelope, actual: u64) -> (r: Result<(), StoreError>)
    ensures
        envelope.expected_revision == actual ==> r is Ok,
        envelope.expected_revision != actual ==> (r matches Err(
            StoreError::RevisionConflict { aggregate_id, expected, actual: a },
        ) && aggregate_id == envelope.aggregate_id && expected == envelope.expected_revision && a
            == actual),
{
    if envelope.expected_revision != actual {
        return Err(
            StoreError::RevisionConflict {
                aggregate_id: envelope.aggregate_id.clone(),
                expected: envelope.expected_revision,
                actual,
            },
        );
    }
    Ok(())
}

/// Byte-wise equality of a stored digest and a request digest.
fn digest_equal(stored: &[u8], request: &[u8; 32]) -> (r: bool)
    ensures
        r == (stored@ == request@),
{
    crate::bytes::bytes_eq(stored, vstd::array::array_as_slice(request))
}

/// The answer to a command whose id already has a receipt: the same request
/// bytes replay the stored receipt, marked as replayed; other bytes under the
/// same id are an idempotency conflict.
pub fn replay_receipt(
    command_id: &str,
    stored_digest: &[u8],
    request_sha256: &[u8; 32],
    stored: CommandReceipt,
) -> (r: Result<CommandReceipt, StoreError>)
    ensures
        stored_digest@ == request_sha256@ ==> r == Ok::<CommandReceipt, StoreError>(
            CommandReceipt { replayed: true, ..stored },
        ),
        stored_digest@ != request_sha256@ ==> (r matches Err(StoreError::IdempotencyConflict(id))
            && id@ == command_id@),
{
    if !digest_equal(stored_digest, request_sha256) {
        return Err(StoreError::IdempotencyConflict(command_id.to_owned()));
    }
    let mut receipt = stored;
    receipt.replayed = true;
    Ok(receipt)
}

/// The receipt of a command committed as one event at `sequence`.
pub fn new_receipt(envelope: &CommandEnvelope, revision: u64, sequence: u64) -> (r: CommandReceipt)
    ensures
        r.command_id == envelope.command_id,
        r.aggregate_id == envelope.aggregate_id,
        r.aggregate_revision == revision,
        r.first_global_sequence == sequence,
        r.last_global_sequence == sequence,
        !r.replayed,
{
    CommandReceipt {
        command_id: envelope.command_id.clone(),
        aggregate_id: envelope.aggregate_id.clone(),
        aggregate_revision: revision,
        first_global_sequence: sequence,
        last_global_sequence: sequence,
        replayed: false,
    }
}

/// The event kinds that each aggregate type records.
pub open spec fn event_supported(aggregate_type: Seq<char>, kind: Seq<char>) -> bool {
    ||| aggregate_type == "project"@ && (kind == "project.created"@ || kind
        == "project.imported"@ || kind == "project.renamed"@ || kind == "project.trust_changed"@
        || kind == "project.scheduling_weight_changed"@ || kind == "project.policy_changed"@)
    ||| aggregate_type == "side_effect"@ && (kind == "side_effect.authorized"@ || kind
        == "side_effect.started"@ || kind == "side_effect.finished"@ || kind
        == "side_effect.outcome_unknown"@)
}

/// Whether the store knows events of this kind for this aggregate type.
pub fn supported_event(aggregate_type: &str, kind: &str) -> (r: bool)
    ensures
        r == event_supported(aggregate_type@, kind@),
{
    proof {
        reveal_strlit("project");
        reveal_strlit("side_effect");
        assert("project"@.len() != "side_effect"@.len());
    }
    if str_eq(aggregate_type, "project") {
        str_eq(kind, "project.created") || str_eq(kind, "project.imported") || str_eq(
            kind,
            "project.renamed",
        ) || str_eq(kind, "project.trust_changed") || str_eq(
            kind,
            "project.scheduling_weight_changed",
        ) || str_eq(kind, "project.policy_changed")
    } else if str_eq(aggregate_type, "side_effect") {
        str_eq(kind, "side_effect.authorized") || str_eq(kind, "side_effect.started") || str_eq(
            kind,
            "side_effect.finished",
        ) || str_eq(kind, "side_effect.outcome_unknown")
    } else {
        false
    }
}

/// A page size of 1 to 1000 records.
pub fn validate_page_limit(limit: u32, field: &'static str) -> (r: Result<(), StoreError>)
    ensures
        r == (if 1 <= limit <= 1000 {
            Ok(())
        } else {
            Err(StoreError::InvalidInput(field))
        }),
{
    if limit < 1 || limit > 1000 {
        return Err(StoreError::InvalidInput(field));
    }
    Ok(())
}

/// A stored integer: SQLite holds signed 64-bit values.
pub fn to_i64(value: u64) -> (r: Result<i64, StoreError>)
    ensures
        value <= i64::MAX ==> r == Ok::<i64, StoreError>(value as i64),
        value > i64::MAX ==> r == Err::<i64, StoreError>(StoreError::InvalidInput("integer overflow")),
{
    if value > 0x7fff_ffff_ffff_ffff {
        return Err(StoreError::InvalidInput("integer overflow"));
    }
    Ok(value as i64)
}

/// An integer read back from SQLite; a negative one is an integrity failure.
pub fn from_i64(value: i64) -> (r: Result<u64, StoreError>)
    ensures
        value >= 0 ==> r == Ok::<u64, StoreError>(value as u64),
        value < 0 ==> (r matches Err(StoreError::IntegrityFailure(m)) && m@ == "negative integer"@),
{
    if value < 0 {
        return Err(StoreError::IntegrityFailure("negative integer".to_owned()));
    }
    Ok(value as u64)
}

/// What the audit log records of a command besides its actor and ids.
#[derive(Debug)]
pub struct AuditMetadata {
    pub project_id: Option<String>,
    pub run_id: Option<String>,
    pub action_id: Option<String>,
    pub policy_decision: Option<PolicyDecision>,
    pub approval_digest: Option<String>,
    pub provider_id: Option<String>,
    pub account_alias: Option<String>,
    pub affected_paths: Option<Vec<String>>,
    pub destination: Option<String>,
    pub result_class: AuditResultClass,
}

impl AuditMetadata {
    /// A succeeded record with no metadata.
    pub fn succeeded() -> (r: AuditMetadata)
        ensures
            r.project_id is None,
            r.run_id is None,
            r.action_id is None,
            r.policy_decision is None,
            r.approval_digest is None,
            r.provider_id is None,
            r.account_alias is None,
            r.affected_paths is None,
            r.destination is None,
            r.result_class == AuditResultClass::Succeeded,
    {
        AuditMetadata {
            project_id: None,
            run_id: None,
            action_id: None,
            policy_decision: None,
            approval_digest: None,
            provider_id: None,
            account_alias: None,
            affected_paths: None,
            destination: None,
            result_class: AuditResultClass::Succeeded,
        }
    }
}

/// The audit metadata of a project command: the project and success.
pub fn project_audit(aggregate_id: &String) -> (r: AuditMetadata)
    ensures
        r.project_id == Some(*aggregate_id),
        r.run_id is None && r.action_id is None && r.policy_decision is None,
        r.approval_digest is None && r.provider_id is None && r.account_alias is None,
        r.affected_paths is None && r.destination is None,
        r.result_class == AuditResultClass::Succeeded,
{
    let mut audit = AuditMetadata::succeeded();
    audit.project_id = Some(aggregate_id.clone());
    audit
}

/// The result class that the audit log records for a side-effect command.
pub open spec fn side_effect_audit_result(c: SideEffectCommand) -> AuditResultClass {
    match c {
        SideEffectCommand::Authorize { .. } => AuditResultClass::Authorized,
        SideEffectCommand::Start => AuditResultClass::Started,
        SideEffectCommand::Finish { result_class } => match result_class {
            SideEffectResultClass::Succeeded => AuditResultClass::Succeeded,
            SideEffectResultClass::Failed => AuditResultClass::Failed,
        },
        SideEffectCommand::MarkUnknown => AuditResultClass::Unknown,
    }
}

/// The audit metadata of a committed side-effect command: the effect's ids,
/// for an authorization the policy decision, binding digest and context, and
/// the result class of the command.
pub fn side_effect_audit(effect: &SideEffect, command: &SideEffectCommand) -> (r: AuditMetadata)
    ensures
        r.project_id == effect.project_id,
        r.run_id == Some(effect.run_id),
        r.action_id == Some(effect.action_id),
        r.result_class == side_effect_audit_result(*command),
        match *command {
            SideEffectCommand::Authorize { binding_digest, audit, .. } => {
                &&& r.policy_decision == Some(audit.policy_decision)
                &&& r.approval_digest == Some(binding_digest)
                &&& r.provider_id == audit.provider_id
                &&& r.account_alias == audit.account_alias
                &&& r.affected_paths matches Some(ps) && ps@ == audit.affected_paths@
                &&& r.destination == audit.destination
            },
            _ => {
                &&& r.policy_decision is None && r.approval_digest is None
                &&& r.provider_id is None && r.account_alias is None
                &&& r.affected_paths is None && r.destination is None
            },
        },
{
    let mut audit = AuditMetadata::succeeded();
    audit.project_id = clone_opt_string(&effect.project_id);
    audit.run_id = Some(effect.run_id.clone());
    audit.action_id = Some(effect.action_id.clone());
    match command {
        SideEffectCommand::Authorize { binding_digest, audit: context, .. } => {
            audit.policy_decision = Some(context.policy_decision);
            audit.approval_digest = Some(binding_digest.clone());
            audit.provider_id = clone_opt_string(&context.provider_id);
            audit.account_alias = clone_opt_string(&context.account_alias);
            let paths = context.affected_paths.clone();
            proof {
                assert forall|i: int| 0 <= i < paths@.len() implies paths@[i]
                    == context.affected_paths@[i] by {
                    assert(cloned::<String>(context.affected_paths[i], paths[i]));
                }
                assert(paths@ =~= context.affected_paths@);
            }
            audit.affected_paths = Some(paths);
            audit.destination = clone_opt_string(&context.destination);
            audit.result_class = AuditResultClass::Authorized;
        },
        SideEffectCommand::Start => {
            audit.result_class = AuditResultClass::Started;
        },
        SideEffectCommand::Finish { result_class } => {
            audit.result_class = match result_class {
                SideEffectResultClass::Succeeded => AuditResultClass::Succeeded,
                SideEffectResultClass::Failed => AuditResultClass::Failed,
            };
        },
        SideEffectCommand::MarkUnknown => {
            audit.result_class = AuditResultClass::Unknown;
        },
    }
    audit
}

/// The ids of a stored event are version-7 UUIDs; a bad one is an integrity
/// failure that names the field.
pub open spec fn event_ids_check(
    aggregate_id: Seq<char>,
    event_id: Seq<char>,
    command_id: Seq<char>,
    causation_event_id: Option<Seq<char>>,
    correlation_id: Seq<char>,
) -> Result<(), StoreError> {
    crate::action::then_check(
        uuid_check(aggregate_id, "event.aggregate_id"),
        crate::action::then_check(
            uuid_check(event_id, "event.event_id"),
            crate::action::then_check(
                uuid_check(command_id, "event.command_id"),
                crate::action::then_check(
                    uuid_check(correlation_id, "event.correlation_id"),
                    match causation_event_id {
                        Some(c) => uuid_check(c, "event.causation_event_id"),
                        None => Ok(()),
                    },
                ),
            ),
        ),
    )
}

fn check_event_id(value: &str, field: &'static str) -> (r: Result<(), StoreError>)
    ensures
        match uuid_check(value@, field) {
            Ok(_) => r is Ok,
            Err(e) => r matches Err(StoreError::IntegrityFailure(m)) && m@ == "invalid event metadata: "@
                + input_error_text(e),
        },
{
    match crate::model::validate_uuid_v7(value, field) {
        Ok(()) => Ok(()),
        Err(error) => Err(
            StoreError::IntegrityFailure(prefixed_input_error("invalid event metadata: ", error)),
        ),
    }
}

/// Checks the ids of an event read back from the ledger.
pub fn validate_replayed_event_ids(
    aggregate_id: &str,
    event_id: &str,
    command_id: &str,
    causation_event_id: Option<&str>,
    correlation_id: &str,
) -> (r: Result<(), StoreError>)
    ensures
        match event_ids_check(
            aggregate_id@,
            event_id@,
            command_id@,
            match causation_event_id {
                Some(c) => Some(c@),
                None => None,
            },
            correlation_id@,
        ) {
            Ok(_) => r is Ok,
            Err(e) => r matches Err(StoreError::IntegrityFailure(m)) && m@ == "invalid event metadata: "@
                + input_error_text(e),
        },
{
    check_event_id(aggregate_id, "event.aggregate_id")?;
    check_event_id(event_id, "event.event_id")?;
    check_event_id(command_id, "event.command_id")?;
    check_event_id(correlation_id, "event.correlation_id")?;
    match causation_event_id {
        Some(c) => check_event_id(c, "event.causation_event_id"),
        None => Ok(()),
    }
}

/// What a command on a project commits, given the project as stored: the
/// revision must match, the command must apply, and the new projection must
/// be valid.
pub fn plan_project(
    envelope: &CommandEnvelope,
    command: &ProjectCommand,
    current: Option<&Project>,
) -> (r: Result<ProjectMutation, StoreError>)
    requires
        current matches Some(p) ==> p.revision < u64::MAX,
    ensures
        ({
            let actual = match current {
                Some(p) => p.revision,
                None => 0,
            };
            if envelope.expected_revision != actual {
                r matches Err(StoreError::RevisionConflict { aggregate_id, expected, actual: a })
                    && aggregate_id == envelope.aggregate_id && expected
                    == envelope.expected_revision && a == actual
            } else {
                match project_mutation(
                    envelope.aggregate_id@,
                    *command,
                    project_opt_view(current),
                    envelope.occurred_at_unix_ms,
                ) {
                    None => r matches Err(err) && (if command is Create {
                        err matches StoreError::AggregateAlreadyExists(id) && id@
                            == envelope.aggregate_id@
                    } else if current is None {
                        err matches StoreError::AggregateNotFound(id) && id@ == envelope.aggregate_id@
                    } else {
                        err is InvalidTransition
                    }),
                    Some((e, p)) => match project_check(p) {
                        Err(err) => r == Err::<ProjectMutation, StoreError>(err),
                        Ok(_) => r matches Ok(m) && m.event == e && m.project@ == p && m.kind@
                            == project_event_kind(e),
                    },
                }
            }
        }),
{
    let actual = match current {
        Some(p) => p.revision,
        None => 0,
    };
    ensure_revision(envelope, actual)?;
    let mutation = crate::projects::build_mutation(
        envelope.aggregate_id.as_str(),
        command,
        current,
        envelope.occurred_at_unix_ms,
    )?;
    mutation.project.validate()?;
    Ok(mutation)
}

/// What a command on a side effect commits, given the effect as stored: the
/// revision must match, the command must apply, and the new projection must
/// be valid.
pub fn plan_side_effect(
    envelope: &CommandEnvelope,
    command: &SideEffectCommand,
    current: Option<&SideEffect>,
) -> (r: Result<SideEffectMutation, StoreError>)
    requires
        current matches Some(e) ==> e.revision < u64::MAX,
    ensures
        ({
            let actual = match current {
                Some(e) => e.revision,
                None => 0,
            };
            if envelope.expected_revision != actual {
                r matches Err(StoreError::RevisionConflict { aggregate_id, expected, actual: a })
                    && aggregate_id == envelope.aggregate_id && expected
                    == envelope.expected_revision && a == actual
            } else {
                match side_effect_mutation(
                    envelope.aggregate_id@,
                    *command,
                    effect_opt_view(current),
                    envelope.occurred_at_unix_ms,
                ) {
                    None => r matches Err(err) && (if command is Authorize {
                        err matches StoreError::AggregateAlreadyExists(id) && id@
                            == envelope.aggregate_id@
                    } else if current is None {
                        err matches StoreError::AggregateNotFound(id) && id@ == envelope.aggregate_id@
                    } else {
                        err is InvalidTransition
                    }),
                    Some((e, s)) => match side_effect_check(s) {
                        Err(err) => r == Err::<SideEffectMutation, StoreError>(err),
                        Ok(_) => r matches Ok(m) && m.event@ == e && m.side_effect@ == s && m.kind@
                            == side_effect_event_kind(e),
                    },
                }
            }
        }),
{
    let actual = match current {
        Some(e) => e.revision,
        None => 0,
    };
    ensure_revision(envelope, actual)?;
    let mutation = crate::side_effects::build_mutation(
        envelope.aggregate_id.as_str(),
        command,
        current,
        envelope.occurred_at_unix_ms,
    )?;
    mutation.side_effect.validate()?;
    Ok(mutation)
}

/// What `char::to_lowercase` gives for a character.
pub uninterp spec fn lowercase(c: char) -> Seq<char>;

/// Calls `char::to_lowercase` and collects the characters. Trusted: the
/// result is a function of the character alone, and an ASCII character maps
/// to itself, or an upper-case ASCII letter to its lower-case letter, as
/// std documents; what other characters map to is left unsaid.
#[verifier::external_body]
fn char_lowercase(c: char) -> (r: String)
    ensures
        r@ == lowercase(c),
        'A' <= c <= 'Z' ==> r@ == seq![((c as u32) + 32) as char],
        (c as u32) < 0x80 && !('A' <= c <= 'Z') ==> r@ == seq![c],
{
    c.to_lowercase().collect()
}

/// SQL text compared without whitespace or semicolons and in lower case.
pub open spec fn normalized_sql(s: Seq<char>) -> Seq<char>
    decreases s.len(),
{
    if s.len() == 0 {
        Seq::empty()
    } else {
        normalized_sql(s.drop_last()) + if crate::model::is_whitespace(s.last()) || s.last() == ';' {
            Seq::empty()
        } else {
            lowercase(s.last())
        }
    }
}

/// The SQL text without whitespace or semicolons, in lower case.
pub fn normalize_sql(sql: &str) -> (r: String)
    ensures
        r@ == normalized_sql(sql@),
{
    proof {
        vstd::string::axiom_spec_iter(sql);
    }
    let mut out = String::new();
    for c in it: sql.chars()
        invariant
            it.seq() == sql@,
            out@ == normalized_sql(sql@.take(it.index())),
    {
        let ghost i = it.index();
        proof {
            assert(sql@.take(i + 1).drop_last() =~= sql@.take(i));
            assert(sql@.take(i + 1).last() == c);
        }
        let u = c as u32;
        let blank = (0x09 <= u && u <= 0x0d) || u == 0x20 || u == 0x85 || u == 0xa0 || u == 0x1680
            || (0x2000 <= u && u <= 0x200a) || u == 0x2028 || u == 0x2029 || u == 0x202f || u
            == 0x205f || u == 0x3000;
        if !blank && c != ';' {
            let lower = char_lowercase(c);
            out.append(lower.as_str());
        }
        proof {
            assert(out@ =~= normalized_sql(sql@.take(i + 1)));
        }
    }
    assert(sql@.take(sql@.len() as int) =~= sql@);
    out
}

/// The triggers that keep the ledger append-only, each with its SQL.
pub open spec fn ledger_triggers() -> Seq<(&'static str, &'static str)> {
    seq![
        ("domain_events_no_update", "CREATE TRIGGER domain_events_no_update BEFORE UPDATE ON domain_events BEGIN\n             SELECT RAISE(ABORT, 'domain_events are append-only'); END"),
        ("domain_events_no_delete", "CREATE TRIGGER domain_events_no_delete BEFORE DELETE ON domain_events BEGIN\n             SELECT RAISE(ABORT, 'domain_events are append-only'); END"),
        ("command_receipts_no_update", "CREATE TRIGGER command_receipts_no_update BEFORE UPDATE ON command_receipts BEGIN\n             SELECT RAISE(ABORT, 'command_receipts are immutable'); END"),
        ("command_receipts_no_delete", "CREATE TRIGGER command_receipts_no_delete BEFORE DELETE ON command_receipts BEGIN\n             SELECT RAISE(ABORT, 'command_receipts are immutable'); END"),
        ("audit_events_no_update", "CREATE TRIGGER audit_events_no_update BEFORE UPDATE ON audit_events BEGIN\n             SELECT RAISE(ABORT, 'audit_events cannot be rewritten'); END"),
        ("audit_events_no_delete", "CREATE TRIGGER audit_events_no_delete BEFORE DELETE ON audit_events BEGIN\n             SELECT RAISE(ABORT, 'audit_events cannot be rewritten'); END"),
    ]
}

/// The triggers that keep the ledger append-only, each with its SQL.
pub fn required_triggers() -> (r: Vec<(&'static str, &'static str)>)
    ensures
        r@ == ledger_triggers(),
{
    let mut triggers: Vec<(&'static str, &'static str)> = Vec::new();
    triggers.push(("domain_events_no_update", "CREATE TRIGGER domain_events_no_update BEFORE UPDATE ON domain_events BEGIN\n             SELECT RAISE(ABORT, 'domain_events are append-only'); END"));
    triggers.push(("domain_events_no_delete", "CREATE TRIGGER domain_events_no_delete BEFORE DELETE ON domain_events BEGIN\n             SELECT RAISE(ABORT, 'domain_events are append-only'); END"));
    triggers.push(("command_receipts_no_update", "CREATE TRIGGER command_receipts_no_update BEFORE UPDATE ON command_receipts BEGIN\n             SELECT RAISE(ABORT, 'command_receipts are immutable'); END"));
    triggers.push(("command_receipts_no_delete", "CREATE TRIGGER command_receipts_no_delete BEFORE DELETE ON command_receipts BEGIN\n             SELECT RAISE(ABORT, 'command_receipts are immutable'); END"));
    triggers.push(("audit_events_no_update", "CREATE TRIGGER audit_events_no_update BEFORE UPDATE ON audit_events BEGIN\n             SELECT RAISE(ABORT, 'audit_events cannot be rewritten'); END"));
    triggers.push(("audit_events_no_delete", "CREATE TRIGGER audit_events_no_delete BEFORE DELETE ON audit_events BEGIN\n             SELECT RAISE(ABORT, 'audit_events cannot be rewritten'); END"));
    assert(triggers@ =~= ledger_triggers());
    triggers
}

/// Checks that a ledger trigger exists with the expected SQL, compared as
/// normalized text.
pub fn check_trigger(trigger: &str, actual_sql: Option<&str>, expected_sql: &str) -> (r: Result<(), StoreError>)
    ensures
        (actual_sql matches Some(a) && normalized_sql(a@) == normalized_sql(expected_sql@)) ==> r is Ok,
        !(actual_sql matches Some(a) && normalized_sql(a@) == normalized_sql(expected_sql@)) ==> (r matches Err(
            StoreError::IntegrityFailure(m),
        ) && m@ == "missing or altered immutable-ledger trigger: "@ + trigger@),
{
    let intact = match actual_sql {
        Some(a) => {
            let left = normalize_sql(a);
            let right = normalize_sql(expected_sql);
            str_eq(left.as_str(), right.as_str())
        },
        None => false,
    };
    if !intact {
        let mut text = "missing or altered immutable-ledger trigger: ".to_owned();
        text.append(trigger);
        return Err(StoreError::IntegrityFailure(text));
    }
    Ok(())
}

/// The command with which startup recovery marks a started side effect as
/// unknown: a system command of the recovery actor at the effect's revision.
pub fn recovery_envelope(
    effect: &SideEffect,
    command_id: String,
    correlation_id: String,
    occurred_at_unix_ms: u64,
) -> (r: CommandEnvelope)
    ensures
        r.schema_version == crate::model::COMMAND_SCHEMA_VERSION,
        r.command_id == command_id,
        r.aggregate_id == effect.action_id,
        r.expected_revision == effect.revision,
        r.actor.kind == crate::model::ActorKind::System,
        r.actor.actor_id matches Some(id) && id@ == "startup-recovery"@,
        r.correlation_id == correlation_id,
        r.causation_event_id is None,
        r.occurred_at_unix_ms == occurred_at_unix_ms,
        r.command == StoreCommand::SideEffect(SideEffectCommand::MarkUnknown),
{
    CommandEnvelope {
        schema_version: crate::model::COMMAND_SCHEMA_VERSION,
        command_id,
        aggregate_id: effect.action_id.clone(),
        expected_revision: effect.revision,
        actor: crate::model::Actor {
            kind: crate::model::ActorKind::System,
            actor_id: Some("startup-recovery".to_owned()),
        },
        correlation_id,
        causation_event_id: None,
        occurred_at_unix_ms,
        command: StoreCommand::SideEffect(SideEffectCommand::MarkUnknown),
    }
}

/// The path of a SQLite companion file: the database path and a suffix.
pub fn sqlite_auxiliary_path(database_path: &str, suffix: &str) -> (r: String)
    ensures
        r@ == database_path@ + suffix@,
{
    let mut path = database_path.to_owned();
    path.append(suffix);
    path
}

} // verus!
