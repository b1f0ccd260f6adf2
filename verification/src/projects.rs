//! The project aggregate: the events a command produces and the projection
//! that replaying those events rebuilds.
use vstd::prelude::*;
use crate::error::{StoreError, input_error_text, prefixed_input_error};
use crate::model::{
    CreateProject, Project, ProjectCommand, ProjectModel, TrustState, project_check,
    project_command_check, trust_transition_ok, uuid_v7_ok, valid_trust_transition,
};

verus! {

/// The payload of a project event, one variant per event kind.
#[derive(Debug, Clone, PartialEq)]
pub enum ProjectEvent {
    Created {
        display_name: String,
        repo_root: String,
        repo_identity: String,
        default_branch: String,
        provider_policy: String,
        data_classification: String,
        weight_bits: u64,
    },
    Imported(Project),
    Renamed { display_name: String },
    TrustChanged { trust_state: TrustState },
    SchedulingWeightChanged { weight_bits: u64 },
    PolicyChanged { provider_policy: String, data_classification: String },
}

/// The kind under which a project event is recorded.
pub open spec fn project_event_kind(e: ProjectEvent) -> Seq<char> {
    match e {
        ProjectEvent::Created { .. } => "project.created"@,
        ProjectEvent::Imported(_) => "project.imported"@,
        ProjectEvent::Renamed { .. } => "project.renamed"@,
        ProjectEvent::TrustChanged { .. } => "project.trust_changed"@,
        ProjectEvent::SchedulingWeightChanged { .. } => "project.scheduling_weight_changed"@,
        ProjectEvent::PolicyChanged { .. } => "project.policy_changed"@,
    }
}

impl ProjectEvent {
    /// The kind under which the event is recorded.
    pub fn kind(&self) -> (r: &'static str)
        ensures
            r@ == project_event_kind(*self),
    {
        match self {
            ProjectEvent::Created { .. } => "project.created",
            ProjectEvent::Imported(_) => "project.imported",
            ProjectEvent::Renamed { .. } => "project.renamed",
            ProjectEvent::TrustChanged { .. } => "project.trust_changed",
            ProjectEvent::SchedulingWeightChanged { .. } => "project.scheduling_weight_changed",
            ProjectEvent::PolicyChanged { .. } => "project.policy_changed",
        }
    }
}

/// What a project command commits: the event and the new projection.
#[derive(Debug)]
pub struct ProjectMutation {
    pub kind: &'static str,
    pub event: ProjectEvent,
    pub project: Project,
}

/// The event that a project command records.
pub open spec fn command_event(c: ProjectCommand) -> ProjectEvent {
    match c {
        ProjectCommand::Create(p) => ProjectEvent::Created {
            display_name: p.display_name,
            repo_root: p.repo_root,
            repo_identity: p.repo_identity,
            default_branch: p.default_branch,
            provider_policy: p.provider_policy,
            data_classification: p.data_classification,
            weight_bits: p.weight_bits,
        },
        ProjectCommand::Rename { display_name } => ProjectEvent::Renamed { display_name },
        ProjectCommand::SetTrust { trust_state } => ProjectEvent::TrustChanged { trust_state },
        ProjectCommand::SetSchedulingWeight { weight_bits } => ProjectEvent::SchedulingWeightChanged {
            weight_bits,
        },
        ProjectCommand::SetPolicy { provider_policy, data_classification } => ProjectEvent::PolicyChanged {
            provider_policy,
            data_classification,
        },
    }
}

/// The fields that a change event sets on a project; other events leave it.
pub open spec fn apply_change(p: ProjectModel, e: ProjectEvent) -> ProjectModel {
    match e {
        ProjectEvent::Renamed { display_name } => ProjectModel { display_name: display_name@, ..p },
        ProjectEvent::TrustChanged { trust_state } => ProjectModel { trust_state, ..p },
        ProjectEvent::SchedulingWeightChanged { weight_bits } => ProjectModel { weight_bits, ..p },
        ProjectEvent::PolicyChanged { provider_policy, data_classification } => ProjectModel {
            provider_policy: provider_policy@,
            data_classification: data_classification@,
            ..p
        },
        _ => p,
    }
}

/// A new project: untrusted, at revision 1, created and updated at `t`.
pub open spec fn created_model(id: Seq<char>, c: CreateProject, t: u64) -> ProjectModel {
    ProjectModel {
        id,
        display_name: c.display_name@,
        repo_root: c.repo_root@,
        repo_identity: c.repo_identity@,
        default_branch: c.default_branch@,
        trust_state: TrustState::Untrusted,
        weight_bits: c.weight_bits,
        provider_policy: c.provider_policy@,
        data_classification: c.data_classification@,
        revision: 1,
        created_at_unix_ms: t,
        updated_at_unix_ms: t,
        last_event_sequence: 0,
    }
}

/// What a command does to the project `current`: the event it records and
/// the new projection, or `None` when it is refused (a second creation, a
/// change of a missing project, or a trust transition that is not allowed).
pub open spec fn project_mutation(
    id: Seq<char>,
    c: ProjectCommand,
    current: Option<ProjectModel>,
    t: u64,
) -> Option<(ProjectEvent, ProjectModel)> {
    match c {
        ProjectCommand::Create(create) => if current is Some {
            None
        } else {
            Some((command_event(c), created_model(id, create, t)))
        },
        _ => match current {
            None => None,
            Some(p) => if c matches ProjectCommand::SetTrust { trust_state } && !trust_transition_ok(
                p.trust_state,
                trust_state,
            ) {
                None
            } else {
                Some(
                    (
                        command_event(c),
                        ProjectModel {
                            revision: (p.revision + 1) as u64,
                            updated_at_unix_ms: t,
                            ..apply_change(p, command_event(c))
                        },
                    ),
                )
            },
        },
    }
}

/// The view of an optional project.
pub open spec fn project_opt_view(p: Option<&Project>) -> Option<ProjectModel> {
    match p {
        Some(p) => Some(p@),
        None => None,
    }
}

fn clone_create(c: &CreateProject) -> (r: ProjectEvent)
    ensures
        r == command_event(ProjectCommand::Create(*c)),
{
    ProjectEvent::Created {
        display_name: c.display_name.clone(),
        repo_root: c.repo_root.clone(),
        repo_identity: c.repo_identity.clone(),
        default_branch: c.default_branch.clone(),
        provider_policy: c.provider_policy.clone(),
        data_classification: c.data_classification.clone(),
        weight_bits: c.weight_bits,
    }
}

/// Turns a project command into the event it records and the projection it
/// leaves. The caller has checked the command and the revision.
pub fn build_mutation(
    aggregate_id: &str,
    command: &ProjectCommand,
    current: Option<&Project>,
    occurred_at_unix_ms: u64,
) -> (r: Result<ProjectMutation, StoreError>)
    requires
        current matches Some(p) ==> p.revision < u64::MAX,
    ensures
        match project_mutation(aggregate_id@, *command, project_opt_view(current), occurred_at_unix_ms) {
            Some((e, p)) => r matches Ok(m) && m.event == e && m.project@ == p && m.kind@
                == project_event_kind(e),
            None => r matches Err(err) && (if command is Create {
                err matches StoreError::AggregateAlreadyExists(id) && id@ == aggregate_id@
            } else if current is None {
                err matches StoreError::AggregateNotFound(id) && id@ == aggregate_id@
            } else {
                err is InvalidTransition
            }),
        },
{
    match command {
        ProjectCommand::Create(create) => {
            if current.is_some() {
                return Err(StoreError::AggregateAlreadyExists(aggregate_id.to_owned()));
            }
            let event = clone_create(create);
            let kind = event.kind();
            Ok(ProjectMutation {
                kind,
                event,
                project: Project {
                    id: aggregate_id.to_owned(),
                    display_name: create.display_name.clone(),
                    repo_root: create.repo_root.clone(),
                    repo_identity: create.repo_identity.clone(),
                    default_branch: create.default_branch.clone(),
                    trust_state: TrustState::Untrusted,
                    weight_bits: create.weight_bits,
                    provider_policy: create.provider_policy.clone(),
                    data_classification: create.data_classification.clone(),
                    revision: 1,
                    created_at_unix_ms: occurred_at_unix_ms,
                    updated_at_unix_ms: occurred_at_unix_ms,
                    last_event_sequence: 0,
                },
            })
        },
        _ => {
            let existing = match current {
                Some(p) => p,
                None => {
                    return Err(StoreError::AggregateNotFound(aggregate_id.to_owned()));
                },
            };
            let mut project = existing.duplicate();
            let event = match command {
                ProjectCommand::Rename { display_name } => {
                    project.display_name = display_name.clone();
                    ProjectEvent::Renamed { display_name: display_name.clone() }
                },
                ProjectCommand::SetTrust { trust_state } => {
                    if !valid_trust_transition(&project.trust_state, trust_state) {
                        return Err(StoreError::InvalidTransition);
                    }
                    project.trust_state = *trust_state;
                    ProjectEvent::TrustChanged { trust_state: *trust_state }
                },
                ProjectCommand::SetSchedulingWeight { weight_bits } => {
                    project.weight_bits = *weight_bits;
                    ProjectEvent::SchedulingWeightChanged { weight_bits: *weight_bits }
                },
                ProjectCommand::SetPolicy { provider_policy, data_classification } => {
                    project.provider_policy = provider_policy.clone();
                    project.data_classification = data_classification.clone();
                    ProjectEvent::PolicyChanged {
                        provider_policy: provider_policy.clone(),
                        data_classification: data_classification.clone(),
                    }
                },
                ProjectCommand::Create(_) => {
                    proof {
                        assert(false);
                    }
                    return Err(StoreError::InvalidTransition);
                },
            };
            project.revision = project.revision + 1;
            project.updated_at_unix_ms = occurred_at_unix_ms;
            let kind = event.kind();
            Ok(ProjectMutation { kind, event, project })
        },
    }
}

/// What replaying one event gives.
pub enum Replayed {
    Model(ProjectModel),
    Failure(Seq<char>),
    Error(StoreError),
}

/// A projection that passes validation, or the integrity failure that says
/// why it does not.
pub open spec fn validated_project(p: ProjectModel) -> Replayed {
    match project_check(p) {
        Ok(_) => Replayed::Model(p),
        Err(e) => Replayed::Failure("invalid replayed project: "@ + input_error_text(e)),
    }
}

/// The projection that replaying the parsed event `e` of project `id` at
/// `revision`, time `t` and global sequence `seq` leaves, given the
/// projection so far.
pub open spec fn replay_parsed_project(
    current: Option<ProjectModel>,
    id: Seq<char>,
    e: ProjectEvent,
    revision: u64,
    t: u64,
    seq: u64,
) -> Replayed {
    match e {
        ProjectEvent::Created {
            display_name,
            repo_root,
            repo_identity,
            default_branch,
            provider_policy,
            data_classification,
            weight_bits,
        } => if current is Some || revision != 1 {
            Replayed::Failure("invalid project creation event"@)
        } else {
            validated_project(
                ProjectModel {
                    id,
                    display_name: display_name@,
                    repo_root: repo_root@,
                    repo_identity: repo_identity@,
                    default_branch: default_branch@,
                    trust_state: TrustState::Untrusted,
                    weight_bits,
                    provider_policy: provider_policy@,
                    data_classification: data_classification@,
                    revision,
                    created_at_unix_ms: t,
                    updated_at_unix_ms: t,
                    last_event_sequence: seq,
                },
            )
        },
        ProjectEvent::Imported(p) => if current is Some {
            Replayed::Failure("duplicate project import event"@)
        } else if project_check(p@) is Err {
            Replayed::Failure("invalid imported project: "@ + input_error_text(project_check(p@)->Err_0))
        } else if p.id@ != id || p.revision != revision {
            Replayed::Failure("imported project metadata mismatch"@)
        } else {
            validated_project(ProjectModel { last_event_sequence: seq, ..p@ })
        },
        _ => match current {
            None => Replayed::Failure("project event without aggregate"@),
            Some(c) => if revision != c.revision + 1 {
                Replayed::Failure("project revision gap"@)
            } else if e matches ProjectEvent::TrustChanged { trust_state } && !trust_transition_ok(
                c.trust_state,
                trust_state,
            ) {
                Replayed::Failure("invalid trust transition"@)
            } else {
                validated_project(
                    ProjectModel {
                        revision,
                        updated_at_unix_ms: t,
                        last_event_sequence: seq,
                        ..apply_change(c, e)
                    },
                )
            },
        },
    }
}

/// Every failure of a project check names an invalid input.
pub proof fn lemma_project_check_names_input(p: ProjectModel)
    ensures
        project_check(p) is Err ==> project_check(p)->Err_0 is InvalidInput,
{
}

/// The outcome of replay as a result: the projection or an integrity failure.
pub open spec fn replay_matches(r: Result<Project, StoreError>, expected: Replayed) -> bool {
    match expected {
        Replayed::Model(p) => r matches Ok(q) && q@ == p,
        Replayed::Failure(text) => r matches Err(StoreError::IntegrityFailure(m)) && m@ == text,
        Replayed::Error(e) => r == Err::<Project, StoreError>(e),
    }
}

fn validated(project: Project) -> (r: Result<Project, StoreError>)
    ensures
        replay_matches(r, validated_project(project@)),
{
    match project.validate() {
        Ok(()) => Ok(project),
        Err(error) => {
            proof {
                lemma_project_check_names_input(project@);
            }
            Err(StoreError::IntegrityFailure(prefixed_input_error("invalid replayed project: ", error)))
        },
    }
}

fn replay_parsed(
    current: Option<Project>,
    aggregate_id: &str,
    event: &ProjectEvent,
    revision: u64,
    occurred_at_unix_ms: u64,
    sequence: u64,
) -> (r: Result<Project, StoreError>)
    requires
        current matches Some(p) ==> p.revision < u64::MAX,
    ensures
        replay_matches(
            r,
            replay_parsed_project(
                match current {
                    Some(p) => Some(p@),
                    None => None,
                },
                aggregate_id@,
                *event,
                revision,
                occurred_at_unix_ms,
                sequence,
            ),
        ),
{
    match event {
        ProjectEvent::Created {
            display_name,
            repo_root,
            repo_identity,
            default_branch,
            provider_policy,
            data_classification,
            weight_bits,
        } => {
            if current.is_some() || revision != 1 {
                return Err(StoreError::IntegrityFailure("invalid project creation event".to_owned()));
            }
            validated(
                Project {
                    id: aggregate_id.to_owned(),
                    display_name: display_name.clone(),
                    repo_root: repo_root.clone(),
                    repo_identity: repo_identity.clone(),
                    default_branch: default_branch.clone(),
                    trust_state: TrustState::Untrusted,
                    weight_bits: *weight_bits,
                    provider_policy: provider_policy.clone(),
                    data_classification: data_classification.clone(),
                    revision,
                    created_at_unix_ms: occurred_at_unix_ms,
                    updated_at_unix_ms: occurred_at_unix_ms,
                    last_event_sequence: sequence,
                },
            )
        },
        ProjectEvent::Imported(imported) => {
            if current.is_some() {
                return Err(StoreError::IntegrityFailure("duplicate project import event".to_owned()));
            }
            let mut project = imported.duplicate();
            match project.validate() {
                Ok(()) => {},
                Err(error) => {
                    proof {
                        lemma_project_check_names_input(project@);
                    }
                    return Err(
                        StoreError::IntegrityFailure(prefixed_input_error("invalid imported project: ", error)),
                    );
                },
            }
            if !crate::model::str_eq(project.id.as_str(), aggregate_id) || project.revision
                != revision {
                return Err(
                    StoreError::IntegrityFailure("imported project metadata mismatch".to_owned()),
                );
            }
            project.last_event_sequence = sequence;
            validated(project)
        },
        _ => {
            let mut project = match current {
                Some(p) => p,
                None => {
                    return Err(
                        StoreError::IntegrityFailure("project event without aggregate".to_owned()),
                    );
                },
            };
            if revision != project.revision + 1 {
                return Err(StoreError::IntegrityFailure("project revision gap".to_owned()));
            }
            match event {
                ProjectEvent::Renamed { display_name } => {
                    project.display_name = display_name.clone();
                },
                ProjectEvent::TrustChanged { trust_state } => {
                    if !valid_trust_transition(&project.trust_state, trust_state) {
                        return Err(
                            StoreError::IntegrityFailure("invalid trust transition".to_owned()),
                        );
                    }
                    project.trust_state = *trust_state;
                },
                ProjectEvent::SchedulingWeightChanged { weight_bits } => {
                    project.weight_bits = *weight_bits;
                },
                ProjectEvent::PolicyChanged { provider_policy, data_classification } => {
                    project.provider_policy = provider_policy.clone();
                    project.data_classification = data_classification.clone();
                },
                _ => {},
            }
            project.revision = revision;
            project.updated_at_unix_ms = occurred_at_unix_ms;
            project.last_event_sequence = sequence;
            validated(project)
        },
    }
}

/// The project event kinds whose payload changes an existing project.
pub open spec fn is_change_kind(kind: Seq<char>) -> bool {
    kind == "project.renamed"@ || kind == "project.trust_changed"@ || kind
        == "project.scheduling_weight_changed"@ || kind == "project.policy_changed"@
}

/// The projection that replaying a stored project event leaves. The payload
/// is the result of reading the event's JSON by its kind; a payload that
/// could not be read is reported where the event's checks reach it.
pub open spec fn replay_project(
    current: Option<ProjectModel>,
    id: Seq<char>,
    kind: Seq<char>,
    payload: Result<ProjectEvent, StoreError>,
    revision: u64,
    t: u64,
    seq: u64,
) -> Replayed {
    match payload {
        Ok(e) => replay_parsed_project(current, id, e, revision, t, seq),
        Err(err) => if kind == "project.created"@ {
            if current is Some || revision != 1 {
                Replayed::Failure("invalid project creation event"@)
            } else {
                Replayed::Error(err)
            }
        } else if kind == "project.imported"@ {
            if current is Some {
                Replayed::Failure("duplicate project import event"@)
            } else {
                Replayed::Error(err)
            }
        } else {
            match current {
                None => Replayed::Failure("project event without aggregate"@),
                Some(c) => if revision != c.revision + 1 {
                    Replayed::Failure("project revision gap"@)
                } else if is_change_kind(kind) {
                    Replayed::Error(err)
                } else {
                    Replayed::Failure("unsupported project event: "@ + kind)
                },
            }
        },
    }
}

/// Replays one stored project event onto the projection so far. The payload
/// is the event's JSON as read for its kind, or the error of reading it.
pub fn replay_event(
    current: Option<Project>,
    aggregate_id: &str,
    kind: &str,
    payload: Result<ProjectEvent, StoreError>,
    revision: u64,
    occurred_at_unix_ms: u64,
    sequence: u64,
) -> (r: Result<Project, StoreError>)
    requires
        current matches Some(p) ==> p.revision < u64::MAX,
        payload matches Ok(e) ==> project_event_kind(e) == kind@,
    ensures
        replay_matches(
            r,
            replay_project(
                match current {
                    Some(p) => Some(p@),
                    None => None,
                },
                aggregate_id@,
                kind@,
                payload,
                revision,
                occurred_at_unix_ms,
                sequence,
            ),
        ),
{
    match payload {
        Ok(event) => replay_parsed(current, aggregate_id, &event, revision, occurred_at_unix_ms, sequence),
        Err(error) => {
            if crate::model::str_eq(kind, "project.created") {
                if current.is_some() || revision != 1 {
                    return Err(
                        StoreError::IntegrityFailure("invalid project creation event".to_owned()),
                    );
                }
                return Err(error);
            }
            if crate::model::str_eq(kind, "project.imported") {
                if current.is_some() {
                    return Err(
                        StoreError::IntegrityFailure("duplicate project import event".to_owned()),
                    );
                }
                return Err(error);
            }
            let project = match current {
                Some(p) => p,
                None => {
                    return Err(
                        StoreError::IntegrityFailure("project event without aggregate".to_owned()),
                    );
                },
            };
            if revision != project.revision + 1 {
                return Err(StoreError::IntegrityFailure("project revision gap".to_owned()));
            }
            if crate::model::str_eq(kind, "project.renamed") || crate::model::str_eq(
                kind,
                "project.trust_changed",
            ) || crate::model::str_eq(kind, "project.scheduling_weight_changed")
                || crate::model::str_eq(kind, "project.policy_changed") {
                return Err(error);
            }
            let mut text = "unsupported project event: ".to_owned();
            text.append(kind);
            Err(StoreError::IntegrityFailure(text))
        },
    }
}

/// Replaying the event that a committed project command recorded rebuilds
/// the projection that the command committed, with the event's global
/// sequence as its cursor: the projection read back from the event stream
/// is the one written.
pub proof fn lemma_replay_rebuilds_committed_project(
    id: Seq<char>,
    c: ProjectCommand,
    current: Option<ProjectModel>,
    t: u64,
    seq: u64,
)
    requires
        project_mutation(id, c, current, t) matches Some((e, p)) && project_check(p) is Ok,
        current matches Some(q) ==> q.revision < u64::MAX,
    ensures
        project_mutation(id, c, current, t) matches Some((e, p)) && replay_project(
            current,
            id,
            project_event_kind(e),
            Ok(e),
            p.revision,
            t,
            seq,
        ) == Replayed::Model(ProjectModel { last_event_sequence: seq, ..p }),
{
    let (e, p) = project_mutation(id, c, current, t)->Some_0;
    let q = ProjectModel { last_event_sequence: seq, ..p };
    assert(project_check(q) == project_check(p));
}

/// Revisions count committed commands: a new project starts at revision 1,
/// and every accepted change advances the revision by exactly one and stamps
/// the command's time, leaving the project's id and creation time.
pub proof fn lemma_project_revisions_count_commands(
    id: Seq<char>,
    c: ProjectCommand,
    current: Option<ProjectModel>,
    t: u64,
)
    requires
        current matches Some(q) ==> q.revision < u64::MAX,
    ensures
        project_mutation(id, c, current, t) matches Some((_, p)) ==> {
            &&& p.updated_at_unix_ms == t
            &&& match current {
                None => p.revision == 1 && p.id == id && p.created_at_unix_ms == t,
                Some(q) => p.revision == q.revision + 1 && p.id == q.id && p.created_at_unix_ms
                    == q.created_at_unix_ms,
            }
        },
{
}

/// Valid commands keep projects valid: a valid command creating a project
/// under a version-7 id, or changing a valid project no earlier than its
/// creation, leaves a project that passes validation.
pub proof fn lemma_valid_commands_keep_projects_valid(
    id: Seq<char>,
    c: ProjectCommand,
    current: Option<ProjectModel>,
    t: u64,
)
    requires
        project_command_check(c) is Ok,
        c is Create ==> uuid_v7_ok(id),
        current matches Some(q) ==> project_check(q) is Ok && q.created_at_unix_ms <= t && q.revision
            < u64::MAX,
    ensures
        project_mutation(id, c, current, t) matches Some((_, p)) ==> project_check(p) is Ok,
{
}

/// A project command records what it was given and changes only that:
/// a rename sets the display name, a trust change the trust state, a weight
/// change the weight, a policy change the provider policy and data
/// classification; each leaves every other field, moves the revision on by
/// one and stamps the update time. A trust change is refused exactly when it
/// would take a revoked project straight back to trusted.
pub proof fn lemma_project_commands_record_their_inputs(
    id: Seq<char>,
    c: ProjectCommand,
    p: ProjectModel,
    t: u64,
)
    requires
        !(c is Create),
        p.revision < u64::MAX,
    ensures
        c matches ProjectCommand::SetTrust { trust_state } ==> (project_mutation(id, c, Some(p), t) is None
            <==> (p.trust_state == TrustState::Revoked && trust_state == TrustState::Trusted)),
        !(c is SetTrust) ==> project_mutation(id, c, Some(p), t) is Some,
        project_mutation(id, c, Some(p), t) matches Some((e, n)) ==> ({
            &&& n.revision == p.revision + 1
            &&& n.updated_at_unix_ms == t
            &&& n.id == p.id && n.repo_root == p.repo_root && n.repo_identity == p.repo_identity
            &&& n.default_branch == p.default_branch && n.created_at_unix_ms == p.created_at_unix_ms
            &&& n.last_event_sequence == p.last_event_sequence
            &&& n.display_name == (match c {
                ProjectCommand::Rename { display_name } => display_name@,
                _ => p.display_name,
            })
            &&& n.trust_state == (match c {
                ProjectCommand::SetTrust { trust_state } => trust_state,
                _ => p.trust_state,
            })
            &&& n.weight_bits == (match c {
                ProjectCommand::SetSchedulingWeight { weight_bits } => weight_bits,
                _ => p.weight_bits,
            })
            &&& n.provider_policy == (match c {
                ProjectCommand::SetPolicy { provider_policy, .. } => provider_policy@,
                _ => p.provider_policy,
            })
            &&& n.data_classification == (match c {
                ProjectCommand::SetPolicy { data_classification, .. } => data_classification@,
                _ => p.data_classification,
            })
            &&& (c matches ProjectCommand::SetTrust { trust_state } ==> e == ProjectEvent::TrustChanged { trust_state })
            &&& (c matches ProjectCommand::Rename { display_name } ==> e == ProjectEvent::Renamed { display_name })
            &&& (c matches ProjectCommand::SetSchedulingWeight { weight_bits } ==> e
                == ProjectEvent::SchedulingWeightChanged { weight_bits })
        }),
{
}

} // verus!
