use vea::error::StoreError;
use vea::ledger::{
    admit_command, check_trigger, ensure_revision, from_i64, new_receipt, normalize_sql, plan_project,
    plan_side_effect, recovery_envelope, replay_receipt, request_digest, required_triggers,
    side_effect_audit, sqlite_auxiliary_path, supported_event, to_i64, validate_page_limit,
    validate_replayed_event_ids,
};
use vea::migrations::{
    checksum, plan_migrations, validate_migration_history, verify_applied_checksums, Migration,
    MigrationRecord,
};
use vea::model::{
    parse_actor_kind, valid_trust_transition, validate_branch, validate_display_name,
    validate_identifier, validate_repo_root, validate_sha256, validate_uuid_v7, validate_weight,
    Actor, ActorKind, AuditResultClass, CommandEnvelope, CommandReceipt, CreateProject,
    PolicyDecision, Project, ProjectCommand, SideEffect, SideEffectAuditContext,
    SideEffectCommand, SideEffectPhase, SideEffectResultClass, StoreCommand, TrustState,
    COMMAND_SCHEMA_VERSION,
};
use vea::paths::normalize_lexically;
use vea::projects::{build_mutation as build_project, replay_event as replay_project, ProjectEvent};
use vea::replay::{
    compare_projections, event_payload_fits, keyed_projects, keyed_side_effects,
    replay_derived_state, replay_stored_events, verification_report, EventPayload, StoredEvent,
};
use vea::side_effects::{
    build_mutation as build_effect, replay_event as replay_effect, started_side_effects,
    SideEffectEvent,
};

const PROJECT_ID: &str = "017f22e2-79b0-7cc3-98c4-dc0c0c07398f";
const ACTION_ID: &str = "01890a5d-ac96-774b-bcce-b302099a8057";
const RUN_ID: &str = "01890a5d-ac96-774b-bcce-b302099a8058";
const APPROVAL_ID: &str = "01890a5d-ac96-774b-bcce-b302099a8059";
const COMMAND_ID: &str = "01890a5d-ac96-774b-bcce-b302099a8060";
const CORRELATION_ID: &str = "01890a5d-ac96-774b-bcce-b302099a8061";
const EVENT_ID: &str = "01890a5d-ac96-774b-bcce-b302099a8062";

fn digest(character: char) -> String {
    format!("sha256:{}", character.to_string().repeat(64))
}

fn actor() -> Actor {
    Actor {
        kind: ActorKind::User,
        actor_id: Some("user-1".into()),
    }
}

fn create() -> CreateProject {
    CreateProject {
        display_name: "Vea".into(),
        repo_root: "/repos/vea".into(),
        repo_identity: "github.com/sousavf/vea-ai".into(),
        default_branch: "main".into(),
        provider_policy: "local-first".into(),
        data_classification: "source".into(),
        weight_bits: 1.0f64.to_bits(),
    }
}

fn envelope(aggregate_id: &str, expected_revision: u64, command: StoreCommand, at: u64) -> CommandEnvelope {
    CommandEnvelope {
        schema_version: COMMAND_SCHEMA_VERSION,
        command_id: COMMAND_ID.into(),
        aggregate_id: aggregate_id.into(),
        expected_revision,
        actor: actor(),
        correlation_id: CORRELATION_ID.into(),
        causation_event_id: None,
        occurred_at_unix_ms: at,
        command,
    }
}

fn audit_context() -> SideEffectAuditContext {
    SideEffectAuditContext {
        policy_decision: PolicyDecision::Approved,
        provider_id: Some("provider.test".into()),
        account_alias: Some("primary".into()),
        affected_paths: vec!["/repos/vea/src/main.rs".into()],
        destination: Some("https://api.example.test".into()),
    }
}

fn authorize() -> SideEffectCommand {
    SideEffectCommand::Authorize {
        project_id: Some(PROJECT_ID.into()),
        run_id: RUN_ID.into(),
        capability: "process.spawn".into(),
        action_digest: digest('a'),
        approval_id: APPROVAL_ID.into(),
        binding_digest: digest('b'),
        audit: Box::new(audit_context()),
    }
}

fn created_project(at: u64) -> Project {
    build_project(PROJECT_ID, &ProjectCommand::Create(create()), None, at)
        .unwrap()
        .project
}

fn invalid_field<T: std::fmt::Debug>(result: Result<T, StoreError>) -> &'static str {
    match result {
        Err(StoreError::InvalidInput(field)) => field,
        other => panic!("expected an invalid input, got {other:?}"),
    }
}

fn integrity_text<T: std::fmt::Debug>(result: Result<T, StoreError>) -> String {
    match result {
        Err(StoreError::IntegrityFailure(text)) => text,
        other => panic!("expected an integrity failure, got {other:?}"),
    }
}

#[test]
fn uuid_fields_accept_only_lower_case_hyphenated_version_seven() {
    assert!(validate_uuid_v7(PROJECT_ID, "id").is_ok());
    assert_eq!(invalid_field(validate_uuid_v7("017F22E2-79B0-7CC3-98C4-DC0C0C07398F", "id")), "id");
    assert_eq!(invalid_field(validate_uuid_v7("017f22e279b07cc398c4dc0c0c07398f", "id")), "id");
    assert_eq!(invalid_field(validate_uuid_v7("{017f22e2-79b0-7cc3-98c4-dc0c0c07398f}", "id")), "id");
    assert_eq!(invalid_field(validate_uuid_v7("550e8400-e29b-41d4-a716-446655440000", "v4")), "v4");
    assert_eq!(invalid_field(validate_uuid_v7("not-a-uuid", "x")), "x");
    assert_eq!(invalid_field(validate_uuid_v7("", "x")), "x");
}

#[test]
fn identifiers_are_short_printable_ascii() {
    assert!(validate_identifier("user-1", "f").is_ok());
    assert!(validate_identifier(&"a".repeat(128), "f").is_ok());
    assert_eq!(invalid_field(validate_identifier(&"a".repeat(129), "f")), "f");
    assert_eq!(invalid_field(validate_identifier("", "f")), "f");
    assert_eq!(invalid_field(validate_identifier("caf\u{e9}", "f")), "f");
    assert_eq!(invalid_field(validate_identifier("a\tb", "f")), "f");
    assert_eq!(invalid_field(validate_identifier("a\u{7f}", "f")), "f");
}

#[test]
fn bounded_texts_reject_blank_long_and_control_text() {
    assert!(validate_display_name("Vea").is_ok());
    assert!(validate_display_name(&"\u{e9}".repeat(200)).is_ok());
    assert_eq!(invalid_field(validate_display_name(&"\u{e9}".repeat(201))), "display_name");
    assert_eq!(invalid_field(validate_display_name("   ")), "display_name");
    assert_eq!(invalid_field(validate_display_name("\u{3000}\u{a0}")), "display_name");
    assert_eq!(invalid_field(validate_display_name("")), "display_name");
    assert_eq!(invalid_field(validate_display_name("a\u{0}b")), "display_name");
    assert_eq!(invalid_field(validate_display_name("a\nb")), "display_name");
}

#[test]
fn repo_roots_are_absolute_without_parent_components() {
    assert!(validate_repo_root("/repos/vea").is_ok());
    assert!(validate_repo_root("/repos/./vea").is_ok());
    assert!(validate_repo_root("/repos/..vea").is_ok());
    assert_eq!(invalid_field(validate_repo_root("relative/repository")), "repo_root");
    assert_eq!(invalid_field(validate_repo_root("/repos/../etc")), "repo_root");
    assert_eq!(invalid_field(validate_repo_root("/..")), "repo_root");
    assert_eq!(invalid_field(validate_repo_root("")), "repo_root");
    assert_eq!(invalid_field(validate_repo_root(&format!("/{}", "a".repeat(4096)))), "repo_root");
}

#[test]
fn branches_reject_leading_dash_double_dot_and_trailing_dot() {
    assert!(validate_branch("main").is_ok());
    assert!(validate_branch("release/1.0").is_ok());
    assert_eq!(invalid_field(validate_branch("-main")), "default_branch");
    assert_eq!(invalid_field(validate_branch("a..b")), "default_branch");
    assert_eq!(invalid_field(validate_branch("main.")), "default_branch");
    assert_eq!(invalid_field(validate_branch(&"b".repeat(256))), "default_branch");
}

#[test]
fn digests_are_lower_case_sha256_texts() {
    assert!(validate_sha256(&digest('a'), "d").is_ok());
    assert_eq!(invalid_field(validate_sha256(&digest('A'), "d")), "d");
    assert_eq!(invalid_field(validate_sha256(&digest('g'), "d")), "d");
    assert_eq!(invalid_field(validate_sha256("sha256:abc", "d")), "d");
}

#[test]
fn weights_are_finite_between_a_tenth_and_a_hundred() {
    for ok in [0.1f64, 1.0, 50.5, 100.0] {
        assert!(validate_weight(ok.to_bits()).is_ok(), "{ok}");
    }
    for bad in [0.0f64, -0.0, 0.09, 100.0001, -1.0, f64::NAN, f64::INFINITY, f64::NEG_INFINITY] {
        assert_eq!(invalid_field(validate_weight(bad.to_bits())), "weight", "{bad}");
    }
}

#[test]
fn stored_texts_read_back() {
    for state in [TrustState::Untrusted, TrustState::Trusted, TrustState::Revoked] {
        assert_eq!(TrustState::parse(state.as_str()).unwrap(), state);
    }
    for phase in [
        SideEffectPhase::Authorized,
        SideEffectPhase::Started,
        SideEffectPhase::Finished,
        SideEffectPhase::Unknown,
    ] {
        assert_eq!(SideEffectPhase::parse(phase.as_str()).unwrap(), phase);
    }
    for class in [
        AuditResultClass::Succeeded,
        AuditResultClass::Failed,
        AuditResultClass::Authorized,
        AuditResultClass::Started,
        AuditResultClass::Unknown,
    ] {
        assert_eq!(AuditResultClass::parse(class.as_str()).unwrap(), class);
    }
    assert_eq!(PolicyDecision::parse("approved").unwrap(), PolicyDecision::Approved);
    assert_eq!(SideEffectResultClass::parse("failed").unwrap(), SideEffectResultClass::Failed);
    assert_eq!(parse_actor_kind("system").unwrap(), ActorKind::System);
    assert_eq!(ActorKind::User.as_str(), "user");
    assert_eq!(integrity_text(TrustState::parse("Trusted")), "invalid project trust state");
    assert_eq!(integrity_text(SideEffectPhase::parse("done")), "invalid side-effect phase");
    assert_eq!(integrity_text(AuditResultClass::parse("")), "invalid audit result class");
    assert_eq!(integrity_text(PolicyDecision::parse("denied")), "invalid audit policy decision");
    assert_eq!(integrity_text(SideEffectResultClass::parse("ok")), "invalid side-effect result class");
    assert_eq!(integrity_text(parse_actor_kind("robot")), "invalid actor kind");
}

#[test]
fn trust_transitions_never_go_straight_from_revoked_to_trusted() {
    assert!(valid_trust_transition(&TrustState::Untrusted, &TrustState::Trusted));
    assert!(valid_trust_transition(&TrustState::Trusted, &TrustState::Revoked));
    assert!(valid_trust_transition(&TrustState::Revoked, &TrustState::Untrusted));
    assert!(valid_trust_transition(&TrustState::Revoked, &TrustState::Revoked));
    assert!(!valid_trust_transition(&TrustState::Revoked, &TrustState::Trusted));
}

#[test]
fn trust_lifecycle_is_enforced_by_project_mutations() {
    let mut project = created_project(1_000);
    assert_eq!(project.trust_state, TrustState::Untrusted);
    for (revision, trust) in [(1u64, TrustState::Trusted), (2, TrustState::Revoked)] {
        assert_eq!(project.revision, revision);
        let command = ProjectCommand::SetTrust { trust_state: trust };
        project = build_project(PROJECT_ID, &command, Some(&project), 2_000 + revision)
            .unwrap()
            .project;
    }
    let invalid = ProjectCommand::SetTrust { trust_state: TrustState::Trusted };
    assert!(matches!(
        build_project(PROJECT_ID, &invalid, Some(&project), 3_000),
        Err(StoreError::InvalidTransition)
    ));
    let back = ProjectCommand::SetTrust { trust_state: TrustState::Untrusted };
    let mutation = build_project(PROJECT_ID, &back, Some(&project), 4_000).unwrap();
    assert_eq!(mutation.kind, "project.trust_changed");
    assert_eq!(mutation.project.trust_state, TrustState::Untrusted);
    assert_eq!(mutation.project.revision, 4);
    assert_eq!(mutation.project.updated_at_unix_ms, 4_000);
    assert_eq!(mutation.project.created_at_unix_ms, 1_000);
}

#[test]
fn project_commands_need_the_right_aggregate() {
    let project = created_project(1_000);
    assert!(matches!(
        build_project(PROJECT_ID, &ProjectCommand::Create(create()), Some(&project), 2_000),
        Err(StoreError::AggregateAlreadyExists(id)) if id == PROJECT_ID
    ));
    let rename = ProjectCommand::Rename { display_name: "Renamed".into() };
    assert!(matches!(
        build_project(PROJECT_ID, &rename, None, 2_000),
        Err(StoreError::AggregateNotFound(id)) if id == PROJECT_ID
    ));
    let mutation = build_project(PROJECT_ID, &rename, Some(&project), 2_000).unwrap();
    assert_eq!(mutation.kind, "project.renamed");
    assert_eq!(mutation.event, ProjectEvent::Renamed { display_name: "Renamed".into() });
    assert_eq!(mutation.project.display_name, "Renamed");
}

#[test]
fn replaying_a_committed_project_event_rebuilds_the_projection() {
    let created = build_project(PROJECT_ID, &ProjectCommand::Create(create()), None, 1_000).unwrap();
    assert_eq!(created.kind, "project.created");
    let replayed = replay_project(None, PROJECT_ID, created.kind, Ok(created.event.clone()), 1, 1_000, 7).unwrap();
    let mut expected = created.project.clone();
    expected.last_event_sequence = 7;
    assert_eq!(replayed, expected);

    let weight = ProjectCommand::SetSchedulingWeight { weight_bits: 2.5f64.to_bits() };
    let changed = build_project(PROJECT_ID, &weight, Some(&replayed), 2_000).unwrap();
    let again = replay_project(Some(replayed.clone()), PROJECT_ID, changed.kind, Ok(changed.event.clone()), 2, 2_000, 9).unwrap();
    let mut expected = changed.project.clone();
    expected.last_event_sequence = 9;
    assert_eq!(again, expected);
}

#[test]
fn project_replay_reports_integrity_failures() {
    let created = build_project(PROJECT_ID, &ProjectCommand::Create(create()), None, 1_000).unwrap();
    let project = replay_project(None, PROJECT_ID, created.kind, Ok(created.event.clone()), 1, 1_000, 1).unwrap();
    assert_eq!(
        integrity_text(replay_project(Some(project.clone()), PROJECT_ID, created.kind, Ok(created.event.clone()), 1, 1_000, 2)),
        "invalid project creation event"
    );
    let rename = ProjectEvent::Renamed { display_name: "Next".into() };
    assert_eq!(
        integrity_text(replay_project(Some(project.clone()), PROJECT_ID, "project.renamed", Ok(rename.clone()), 3, 2_000, 2)),
        "project revision gap"
    );
    assert_eq!(
        integrity_text(replay_project(None, PROJECT_ID, "project.renamed", Ok(rename), 2, 2_000, 2)),
        "project event without aggregate"
    );
    let blank = ProjectEvent::Renamed { display_name: " ".into() };
    assert_eq!(
        integrity_text(replay_project(Some(project.clone()), PROJECT_ID, "project.renamed", Ok(blank), 2, 2_000, 2)),
        "invalid replayed project: invalid store input: display_name"
    );
    let trust = ProjectEvent::TrustChanged { trust_state: TrustState::Revoked };
    let revoked = replay_project(Some(project.clone()), PROJECT_ID, "project.trust_changed", Ok(trust), 2, 2_000, 3).unwrap();
    let trusted = ProjectEvent::TrustChanged { trust_state: TrustState::Trusted };
    assert_eq!(
        integrity_text(replay_project(Some(revoked.clone()), PROJECT_ID, "project.trust_changed", Ok(trusted), 3, 3_000, 4)),
        "invalid trust transition"
    );
    assert_eq!(
        integrity_text(replay_project(Some(revoked), PROJECT_ID, "project.archived", Err(StoreError::InvalidTransition), 3, 3_000, 4)),
        "unsupported project event: project.archived"
    );
    let mut imported = project.clone();
    imported.id = ACTION_ID.into();
    assert_eq!(
        integrity_text(replay_project(None, PROJECT_ID, "project.imported", Ok(ProjectEvent::Imported(imported)), 1, 1_000, 1)),
        "imported project metadata mismatch"
    );
    assert!(matches!(
        replay_project(None, PROJECT_ID, "project.created", Err(StoreError::DatabaseBusy), 1, 1_000, 1),
        Err(StoreError::DatabaseBusy)
    ));
}

#[test]
fn side_effects_follow_authorized_started_finished() {
    let authorized = build_effect(ACTION_ID, &authorize(), None, 1_000).unwrap();
    assert_eq!(authorized.kind, "side_effect.authorized");
    let effect = authorized.side_effect;
    assert_eq!(effect.phase, SideEffectPhase::Authorized);
    assert!(effect.validate().is_ok());
    assert!(matches!(
        build_effect(ACTION_ID, &SideEffectCommand::MarkUnknown, Some(&effect), 1_500),
        Err(StoreError::InvalidTransition)
    ));
    let started = build_effect(ACTION_ID, &SideEffectCommand::Start, Some(&effect), 2_000).unwrap();
    assert_eq!(started.kind, "side_effect.started");
    let effect = started.side_effect;
    assert_eq!(effect.started_at_unix_ms, Some(2_000));
    assert!(matches!(
        build_effect(ACTION_ID, &SideEffectCommand::Start, Some(&effect), 2_500),
        Err(StoreError::InvalidTransition)
    ));
    let finish = SideEffectCommand::Finish { result_class: SideEffectResultClass::Succeeded };
    let finished = build_effect(ACTION_ID, &finish, Some(&effect), 3_000).unwrap().side_effect;
    assert_eq!(finished.phase, SideEffectPhase::Finished);
    assert_eq!(finished.revision, 3);
    assert_eq!(finished.result_class, Some(SideEffectResultClass::Succeeded));
    assert_eq!(finished.finished_at_unix_ms, Some(3_000));
    assert!(finished.validate().is_ok());
    for command in [SideEffectCommand::Start, finish, SideEffectCommand::MarkUnknown] {
        assert!(matches!(
            build_effect(ACTION_ID, &command, Some(&finished), 4_000),
            Err(StoreError::InvalidTransition)
        ));
    }
}

#[test]
fn interrupted_side_effect_becomes_unknown_and_replays() {
    let authorized = build_effect(ACTION_ID, &authorize(), None, 1_000).unwrap();
    let a = replay_effect(None, ACTION_ID, authorized.kind, Ok(authorized.event.clone()), 1, 1_000, 1).unwrap();
    let started = build_effect(ACTION_ID, &SideEffectCommand::Start, Some(&a), 2_000).unwrap();
    let s = replay_effect(Some(a), ACTION_ID, started.kind, Ok(started.event.clone()), 2, 2_000, 2).unwrap();
    let unknown = build_effect(ACTION_ID, &SideEffectCommand::MarkUnknown, Some(&s), 2_500).unwrap();
    assert_eq!(unknown.kind, "side_effect.outcome_unknown");
    let u = replay_effect(Some(s.clone()), ACTION_ID, unknown.kind, Ok(unknown.event.clone()), 3, 2_500, 3).unwrap();
    let mut expected = unknown.side_effect.clone();
    expected.last_event_sequence = 3;
    assert_eq!(u, expected);
    assert_eq!(u.phase, SideEffectPhase::Unknown);
    assert_eq!(
        integrity_text(replay_effect(Some(u), ACTION_ID, "side_effect.finished", Ok(SideEffectEvent::Finished { result_class: SideEffectResultClass::Failed }), 4, 3_000, 4)),
        "invalid side-effect event: side_effect.finished"
    );
    assert_eq!(
        integrity_text(replay_effect(Some(s), ACTION_ID, "side_effect.started", Err(StoreError::InvalidTransition), 3, 3_000, 4)),
        "invalid side-effect event: side_effect.started"
    );
}

#[test]
fn started_effects_are_the_ones_recovery_marks() {
    let a = build_effect(ACTION_ID, &authorize(), None, 1_000).unwrap().side_effect;
    let s = build_effect(ACTION_ID, &SideEffectCommand::Start, Some(&a), 2_000).unwrap().side_effect;
    let started = started_side_effects(vec![a.clone(), s.clone(), a]);
    assert_eq!(started, vec![s.clone()]);
    let envelope = recovery_envelope(&s, COMMAND_ID.into(), CORRELATION_ID.into(), 5_000);
    assert_eq!(envelope.expected_revision, 2);
    assert_eq!(envelope.actor.actor_id.as_deref(), Some("startup-recovery"));
    assert!(envelope.validate().is_ok());
    assert_eq!(
        invalid_field(admit_command(&envelope)),
        "startup-only recovery command"
    );
    let plan = plan_side_effect(&envelope, &SideEffectCommand::MarkUnknown, Some(&s)).unwrap();
    assert_eq!(plan.side_effect.phase, SideEffectPhase::Unknown);
}

#[test]
fn commands_are_admitted_after_validation() {
    let good = envelope(PROJECT_ID, 0, StoreCommand::Project(ProjectCommand::Create(create())), 1_000);
    assert!(admit_command(&good).is_ok());
    let mut old_schema = good.clone();
    old_schema.schema_version = 2;
    assert!(matches!(admit_command(&old_schema), Err(StoreError::UnsupportedCommandSchema(2))));
    let mut huge = good.clone();
    huge.occurred_at_unix_ms = 9_007_199_254_740_992;
    assert_eq!(invalid_field(admit_command(&huge)), "numeric field");
    let mut anonymous = good.clone();
    anonymous.actor.actor_id = None;
    assert_eq!(invalid_field(admit_command(&anonymous)), "actor_id");
    let mut bad_command = good.clone();
    bad_command.command_id = "command-1".into();
    assert_eq!(invalid_field(admit_command(&bad_command)), "command_id");
    let mut bad_weight = create();
    bad_weight.weight_bits = 0.0f64.to_bits();
    let weighted = envelope(PROJECT_ID, 0, StoreCommand::Project(ProjectCommand::Create(bad_weight)), 1_000);
    assert_eq!(invalid_field(admit_command(&weighted)), "weight");
    let mut context = audit_context();
    context.affected_paths = vec!["src/main.rs".into()];
    let command = SideEffectCommand::Authorize {
        project_id: None,
        run_id: RUN_ID.into(),
        capability: "fs.write".into(),
        action_digest: digest('a'),
        approval_id: APPROVAL_ID.into(),
        binding_digest: digest('b'),
        audit: Box::new(context),
    };
    let relative = envelope(ACTION_ID, 0, StoreCommand::SideEffect(command), 1_000);
    assert_eq!(invalid_field(admit_command(&relative)), "repo_root");
    assert_eq!(good.command.kind(), "project.create");
    assert_eq!(relative.command.aggregate_type(), "side_effect");
}

#[test]
fn stale_revisions_conflict() {
    let project = created_project(1_000);
    let rename = ProjectCommand::Rename { display_name: "Second".into() };
    let stale = envelope(PROJECT_ID, 0, StoreCommand::Project(rename.clone()), 2_000);
    assert!(matches!(
        plan_project(&stale, &rename, Some(&project)),
        Err(StoreError::RevisionConflict { expected: 0, actual: 1, .. })
    ));
    assert!(matches!(
        ensure_revision(&stale, 0),
        Ok(())
    ));
    let fresh = envelope(PROJECT_ID, 1, StoreCommand::Project(rename.clone()), 2_000);
    let plan = plan_project(&fresh, &rename, Some(&project)).unwrap();
    assert_eq!(plan.project.display_name, "Second");
    assert_eq!(plan.project.revision, 2);
}

#[test]
fn an_exact_retry_replays_the_receipt_and_other_bytes_conflict() {
    let first = request_digest(b"{\"command\":1}");
    let retry = request_digest(b"{\"command\":1}");
    let other = request_digest(b"{\"command\":2}");
    let good = envelope(PROJECT_ID, 0, StoreCommand::Project(ProjectCommand::Create(create())), 1_000);
    let stored: CommandReceipt = new_receipt(&good, 1, 4);
    assert!(!stored.replayed);
    let replayed = replay_receipt(COMMAND_ID, &first, &retry, stored.clone()).unwrap();
    assert!(replayed.replayed);
    assert_eq!(replayed.first_global_sequence, 4);
    assert_eq!(replayed.aggregate_revision, 1);
    assert!(matches!(
        replay_receipt(COMMAND_ID, &first, &other, stored),
        Err(StoreError::IdempotencyConflict(id)) if id == COMMAND_ID
    ));
}

#[test]
fn request_digest_is_sha256() {
    let digest = request_digest(b"abc");
    let text: String = digest.iter().map(|b| format!("{b:02x}")).collect();
    assert_eq!(text, "ba7816bf8f01cfea414140de5dae2223b00361a396177a9cb410ff61f20015ad");
}

#[test]
fn audit_metadata_records_the_side_effect_context() {
    let effect = build_effect(ACTION_ID, &authorize(), None, 1_000).unwrap().side_effect;
    let audit = side_effect_audit(&effect, &authorize());
    assert_eq!(audit.result_class, AuditResultClass::Authorized);
    assert_eq!(audit.policy_decision, Some(PolicyDecision::Approved));
    assert_eq!(audit.approval_digest, Some(digest('b')));
    assert_eq!(audit.affected_paths, Some(vec!["/repos/vea/src/main.rs".to_string()]));
    assert_eq!(audit.run_id.as_deref(), Some(RUN_ID));
    let failed = side_effect_audit(
        &effect,
        &SideEffectCommand::Finish { result_class: SideEffectResultClass::Failed },
    );
    assert_eq!(failed.result_class, AuditResultClass::Failed);
    assert_eq!(failed.policy_decision, None);
}

#[test]
fn supported_events_and_limits() {
    assert!(supported_event("project", "project.imported"));
    assert!(supported_event("side_effect", "side_effect.outcome_unknown"));
    assert!(!supported_event("project", "side_effect.started"));
    assert!(!supported_event("run", "run.created"));
    assert!(validate_page_limit(1, "event limit").is_ok());
    assert!(validate_page_limit(1_000, "event limit").is_ok());
    assert_eq!(invalid_field(validate_page_limit(0, "event limit")), "event limit");
    assert_eq!(invalid_field(validate_page_limit(1_001, "audit limit")), "audit limit");
    assert_eq!(to_i64(5).unwrap(), 5);
    assert_eq!(invalid_field(to_i64(u64::MAX)), "integer overflow");
    assert_eq!(from_i64(7).unwrap(), 7);
    assert_eq!(integrity_text(from_i64(-1)), "negative integer");
    assert_eq!(sqlite_auxiliary_path("/data/vea.sqlite", "-wal"), "/data/vea.sqlite-wal");
}

#[test]
fn replayed_event_ids_must_be_uuids() {
    assert!(validate_replayed_event_ids(PROJECT_ID, EVENT_ID, COMMAND_ID, None, CORRELATION_ID).is_ok());
    assert_eq!(
        integrity_text(validate_replayed_event_ids(PROJECT_ID, "event-1", COMMAND_ID, None, CORRELATION_ID)),
        "invalid event metadata: invalid store input: event.event_id"
    );
    assert_eq!(
        integrity_text(validate_replayed_event_ids(PROJECT_ID, EVENT_ID, COMMAND_ID, Some("x"), CORRELATION_ID)),
        "invalid event metadata: invalid store input: event.causation_event_id"
    );
}

fn stored(kind: &str, aggregate_type: &str, aggregate_id: &str, payload: Result<EventPayload, StoreError>, revision: i64, at: i64, sequence: i64) -> StoredEvent {
    StoredEvent {
        aggregate_type: aggregate_type.into(),
        aggregate_id: aggregate_id.into(),
        schema_version: 1,
        kind: kind.into(),
        payload,
        revision,
        occurred_at_unix_ms: at,
        global_sequence: sequence,
        event_id: EVENT_ID.into(),
        command_id: COMMAND_ID.into(),
        causation_event_id: None,
        correlation_id: CORRELATION_ID.into(),
        actor_kind: "user".into(),
        actor_id: Some("user-1".into()),
    }
}

fn event_stream() -> Vec<StoredEvent> {
    let created = build_project(PROJECT_ID, &ProjectCommand::Create(create()), None, 1_000).unwrap();
    let authorized = build_effect(ACTION_ID, &authorize(), None, 1_500).unwrap();
    vec![
        stored("project.created", "project", PROJECT_ID, Ok(EventPayload::Project(created.event)), 1, 1_000, 1),
        stored("side_effect.authorized", "side_effect", ACTION_ID, Ok(EventPayload::SideEffect(authorized.event)), 1, 1_500, 2),
        stored("project.renamed", "project", PROJECT_ID, Ok(EventPayload::Project(ProjectEvent::Renamed { display_name: "Vea AI".into() })), 2, 2_000, 3),
        stored("side_effect.started", "side_effect", ACTION_ID, Ok(EventPayload::SideEffect(SideEffectEvent::Started)), 2, 2_500, 4),
    ]
}

#[test]
fn the_event_stream_replays_into_projections_and_cursors() {
    let state = replay_derived_state(event_stream()).unwrap();
    assert_eq!(state.event_count, 4);
    assert_eq!(state.project_cursor, 3);
    assert_eq!(state.side_effect_cursor, 4);
    assert_eq!(state.projects.len(), 1);
    assert_eq!(state.projects[0].0, PROJECT_ID);
    assert_eq!(state.projects[0].1.display_name, "Vea AI");
    assert_eq!(state.projects[0].1.revision, 2);
    assert_eq!(state.side_effects[0].1.phase, SideEffectPhase::Started);
    let report = verification_report(&state, false);
    assert_eq!((report.event_count, report.project_count, report.side_effect_count), (4, 1, 1));

    let actual_projects = keyed_projects(state.projects.iter().map(|(_, p)| p.clone()).collect());
    let actual_effects = keyed_side_effects(state.side_effects.iter().map(|(_, e)| e.clone()).collect());
    let check = compare_projections(&state, &actual_projects, 3, &actual_effects, 4, false).unwrap();
    assert!(!check.projects_mismatch && !check.side_effects_mismatch);

    let mut tampered = state.projects[0].1.clone();
    tampered.display_name = "tampered".into();
    let tampered = keyed_projects(vec![tampered]);
    assert_eq!(
        integrity_text(compare_projections(&state, &tampered, 3, &actual_effects, 4, false)),
        "derived projections differ from event stream"
    );
    let repair = compare_projections(&state, &tampered, 3, &actual_effects, 0, true).unwrap();
    assert!(repair.projects_mismatch && repair.side_effects_mismatch);
}

#[test]
fn replay_stops_at_the_first_bad_event() {
    let mut events = event_stream();
    events[2].revision = 3;
    assert_eq!(integrity_text(replay_derived_state(events)), "project revision gap");
    let mut events = event_stream();
    events[1].global_sequence = -2;
    assert_eq!(integrity_text(replay_derived_state(events)), "negative integer");
    let mut events = event_stream();
    events[3].actor_kind = "robot".into();
    assert_eq!(integrity_text(replay_derived_state(events)), "invalid actor kind");
    let mut events = event_stream();
    events[0].actor_id = None;
    assert_eq!(
        integrity_text(replay_derived_state(events)),
        "invalid event actor: invalid store input: actor_id"
    );
    let mut events = event_stream();
    events[2].schema_version = 2;
    assert!(matches!(
        replay_derived_state(events),
        Err(StoreError::UnsupportedEvent { kind, schema_version: 2 }) if kind == "project.renamed"
    ));
    let mut events = event_stream();
    events[0].payload = Err(StoreError::InvalidTransition);
    assert!(matches!(replay_derived_state(events), Err(StoreError::InvalidTransition)));
}

#[test]
fn stored_streams_are_checked_before_replay() {
    let state = replay_stored_events(event_stream()).unwrap();
    assert_eq!((state.event_count, state.project_cursor, state.side_effect_cursor), (4, 3, 4));
    assert!(event_stream().iter().all(event_payload_fits));

    let mut events = event_stream();
    events[0].aggregate_type = "side_effect".into();
    assert!(!event_payload_fits(&events[0]));
    assert_eq!(integrity_text(replay_stored_events(events)), "event payload does not match its kind");
    let mut events = event_stream();
    events[3].kind = "side_effect.finished".into();
    assert!(!event_payload_fits(&events[3]));
    assert_eq!(integrity_text(replay_stored_events(events)), "event payload does not match its kind");
    let mut events = event_stream();
    events[2].payload = Err(StoreError::InvalidTransition);
    assert!(event_payload_fits(&events[2]));
    assert!(matches!(replay_stored_events(events), Err(StoreError::InvalidTransition)));
}

fn migrations() -> Vec<Migration> {
    vec![
        Migration { version: 1, name: "core".into(), sql: "CREATE TABLE a(x);".into() },
        Migration { version: 2, name: "events_audit".into(), sql: "CREATE TABLE b(y);".into() },
    ]
}

fn record(version: u32, name: &str, sql: &str) -> MigrationRecord {
    MigrationRecord { version, name: name.into(), sha256: checksum(sql).to_vec() }
}

#[test]
fn migration_history_must_match_the_embedded_migrations() {
    let ms = migrations();
    let history = vec![record(1, "core", "CREATE TABLE a(x);")];
    assert_eq!(verify_applied_checksums(&ms, &history).unwrap(), 1);
    let gap = vec![record(2, "events_audit", "CREATE TABLE b(y);")];
    assert_eq!(
        integrity_text(verify_applied_checksums(&ms, &gap)),
        "non-contiguous migration history at version 2"
    );
    let renamed = vec![record(1, "renamed", "CREATE TABLE a(x);")];
    assert!(matches!(verify_applied_checksums(&ms, &renamed), Err(StoreError::MigrationChecksumMismatch(1))));
    let altered = vec![record(1, "core", "CREATE TABLE a(z);")];
    assert!(matches!(verify_applied_checksums(&ms, &altered), Err(StoreError::MigrationChecksumMismatch(1))));
    let newer = vec![
        record(1, "core", "CREATE TABLE a(x);"),
        record(2, "events_audit", "CREATE TABLE b(y);"),
        record(3, "future", ""),
    ];
    assert!(matches!(
        verify_applied_checksums(&ms, &newer),
        Err(StoreError::DatabaseTooNew { found: 3, supported: 2 })
    ));
}

#[test]
fn migration_plans_follow_the_recorded_history() {
    let ms = migrations();
    let fresh = plan_migrations(&ms, 0, None, 0).unwrap();
    assert_eq!((fresh.supported, fresh.applied_version, fresh.backup_first), (2, 0, false));
    assert_eq!(fresh.pending, vec![1, 2]);
    let history = vec![record(1, "core", "CREATE TABLE a(x);")];
    let upgrade = plan_migrations(&ms, 1, Some(&history), 3).unwrap();
    assert_eq!(upgrade.pending, vec![2]);
    assert!(upgrade.backup_first);
    assert!(matches!(
        plan_migrations(&ms, 99, Some(&history), 3),
        Err(StoreError::DatabaseTooNew { found: 99, supported: 2 })
    ));
    assert_eq!(
        integrity_text(plan_migrations(&ms, 0, None, 1)),
        "database has schema but no migration history"
    );
    assert_eq!(
        integrity_text(plan_migrations(&ms, 2, Some(&history), 3)),
        "schema version metadata disagrees: pragma=2, migrations=1"
    );
    assert_eq!(
        integrity_text(validate_migration_history(&ms, 0, None)),
        "database has no migration history"
    );
    assert_eq!(validate_migration_history(&ms, 1, Some(&history)).unwrap(), 1);
}

#[test]
fn ledger_triggers_are_compared_as_normalized_sql() {
    let triggers = required_triggers();
    assert_eq!(triggers.len(), 6);
    let (name, sql) = triggers[0];
    assert_eq!(name, "domain_events_no_update");
    let reformatted = sql.to_uppercase().replace(' ', "\n  ");
    assert!(check_trigger(name, Some(&reformatted), sql).is_ok());
    assert_eq!(normalize_sql(" Select ;\tX "), "selectx");
    assert_eq!(
        integrity_text(check_trigger(name, None, sql)),
        "missing or altered immutable-ledger trigger: domain_events_no_update"
    );
    assert!(check_trigger(name, Some("CREATE TRIGGER other"), sql).is_err());
}

#[test]
fn project_snapshots_hold_validated_projects() {
    let project: Project = created_project(1_000);
    assert!(project.validate().is_ok());
    let mut invalid = project.clone();
    invalid.revision = 0;
    assert_eq!(invalid_field(invalid.validate()), "project metadata");
    let mut effect: SideEffect = build_effect(ACTION_ID, &authorize(), None, 1_000).unwrap().side_effect;
    effect.started_at_unix_ms = Some(1_500);
    assert_eq!(invalid_field(effect.validate()), "side-effect timestamps");
}

#[test]
fn host_info_exposes_protocol_without_privileged_handles() {
    let info = vea::host::get_host_info("0.1.0");
    assert_eq!(info.protocol_version, 1);
    assert_eq!(info.security_boundary, "rust-host");
}

#[test]
fn absolute_paths_normalize_lexically() {
    assert_eq!(normalize_lexically("/a/./b/../c"), "/a/c");
    assert_eq!(normalize_lexically("/.."), "/");
    assert_eq!(normalize_lexically("//a//b/"), "/a/b");
    assert_eq!(normalize_lexically("/"), "/");
    assert_eq!(normalize_lexically("/data/vea.sqlite-wal"), "/data/vea.sqlite-wal");
    assert_eq!(normalize_lexically("/a/b/../../../c/.."), "/");
}
