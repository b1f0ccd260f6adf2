//! Effective policies and the authorization decision for an action.
use vstd::prelude::*;
use vstd::utf8::encode_utf8;
use crate::action::{
    id_ok, jstr, lit, needs_destination_state, same_scope, scope_to_json, sb, scope_authorizes, scope_check, scope_json, scope_kind, then_check,
    action_canonical, action_domain, shape_check, validate_id, ActionError, ActionProposal, ActionOperation, CapabilityKind, CapabilityScope, MAX_ACTION_TTL_MS,
};
use crate::canonical::{
    digest_text, domain_digest, is_sha256_text, ActionDigest, ApprovalBindingDigest, CanonicalError,
    PolicyDigest, StateDigest,
};
use crate::json::{
    canonical_json, ins, insert_member, json_text, member_get, key_bytes, members_view, no_members, object_insert,
    items_view, json_wf, lemma_json_wf_unfold, members_wf, Json, JsonMember, JsonValue,
};
use crate::order::{compare_scope, scope_order, Order};
use crate::bytes::lex_lt;
use crate::action::scope_matches;

verus! {

pub const POLICY_SCHEMA_VERSION: u16 = 1;

pub const MAX_CANONICAL_POLICY_BYTES: usize = 262_144;

pub const MAX_TRUSTED_PROJECTS: usize = 256;

pub const MAX_CAPABILITY_GRANTS: usize = 1024;

pub const MAX_CAPABILITY_RULES: usize = 6;

/// What a policy rule decides for a capability kind.
#[derive(Debug, Clone, Copy, PartialEq, Eq, Structural)]
pub enum RuleDecision {
    AllowWithoutApproval,
    RequireApproval { max_ttl_ms: u64 },
    Deny,
}

/// Inserting a scope into a sequence ordered by `scope_order`; an equal scope
/// already present is kept.
pub open spec fn insert_grant(s: Seq<CapabilityScope>, x: CapabilityScope) -> Seq<CapabilityScope>
    decreases s.len(),
{
    if s.len() == 0 {
        seq![x]
    } else if scope_order(s[0], x) == Order::Equal {
        s
    } else if scope_order(s[0], x) == Order::Less {
        seq![s[0]] + insert_grant(s.drop_first(), x)
    } else {
        seq![x] + s
    }
}

proof fn lemma_insert_grant_prefix(s: Seq<CapabilityScope>, x: CapabilityScope, i: int)
    requires
        0 <= i <= s.len(),
        forall|j: int| 0 <= j < i ==> scope_order(#[trigger] s[j], x) == Order::Less,
    ensures
        insert_grant(s, x) == s.take(i) + insert_grant(s.skip(i), x),
    decreases i,
{
    if i == 0 {
        assert(s.skip(0) =~= s);
        assert(s.take(0) + s =~= s);
    } else {
        assert(scope_order(s[0], x) == Order::Less);
        lemma_insert_grant_prefix(s.drop_first(), x, i - 1);
        assert(s.drop_first().skip(i - 1) =~= s.skip(i));
        assert(seq![s[0]] + s.drop_first().take(i - 1) =~= s.take(i));
        assert(seq![s[0]] + (s.drop_first().take(i - 1) + insert_grant(s.skip(i), x))
            =~= s.take(i) + insert_grant(s.skip(i), x));
    }
}

/// The host-issued capability grants of a policy, kept in scope order without
/// repetition, as a set ordered by that order keeps them.
#[derive(Debug, Clone, PartialEq, Eq)]
pub struct GrantSet {
    items: Vec<CapabilityScope>,
}

impl View for GrantSet {
    type V = Seq<CapabilityScope>;

    closed spec fn view(&self) -> Seq<CapabilityScope> {
        self.items@
    }
}

impl GrantSet {
    /// The empty set.
    pub fn new() -> (r: Self)
        ensures
            r@ == Seq::<CapabilityScope>::empty(),
    {
        GrantSet { items: Vec::new() }
    }

    /// Adds a grant unless an equal one is present.
    pub fn insert(&mut self, x: CapabilityScope)
        ensures
            final(self)@ == insert_grant(old(self)@, x),
    {
        let ghost s0 = self.items@;
        let mut i: usize = 0;
        while i < self.items.len() && compare_scope(&self.items[i], &x) == Order::Less
            invariant
                self.items@ == s0,
                i <= s0.len(),
                forall|j: int| 0 <= j < i ==> scope_order(#[trigger] s0[j], x) == Order::Less,
            decreases self.items.len() - i,
        {
            i = i + 1;
        }
        proof {
            lemma_insert_grant_prefix(s0, x, i as int);
        }
        let ghost rest = s0.skip(i as int);
        if i < self.items.len() && compare_scope(&self.items[i], &x) == Order::Equal {
            assert(rest[0] == s0[i as int]);
            assert(insert_grant(rest, x) == rest);
            assert(s0.take(i as int) + rest =~= s0);
        } else {
            proof {
                if i < s0.len() {
                    assert(rest[0] == s0[i as int]);
                }
            }
            assert(insert_grant(rest, x) == seq![x] + rest);
            self.items.insert(i, x);
            assert(self.items@ =~= s0.take(i as int) + (seq![x] + rest));
        }
    }

    /// A set holding the given grants.
    pub fn from_vec(grants: Vec<CapabilityScope>) -> (r: Self)
        ensures
            r@ == insert_grants(Seq::<CapabilityScope>::empty(), grants@),
    {
        let mut set = GrantSet::new();
        let mut rest = grants;
        let ghost orig = rest@;
        while rest.len() > 0
            invariant
                insert_grants(set@, rest@) == insert_grants(Seq::<CapabilityScope>::empty(), orig),
            decreases rest.len(),
        {
            let x = rest.remove(0);
            let ghost before = set@;
            set.insert(x);
            assert(insert_grants(before, seq![x] + rest@) == insert_grants(insert_grant(before, x), rest@)) by {
                assert((seq![x] + rest@).drop_first() =~= rest@);
            }
        }
        assert(insert_grants(set@, rest@) == set@);
        set
    }

    /// Removes every grant.
    pub fn clear(&mut self)
        ensures
            final(self)@ == Seq::<CapabilityScope>::empty(),
    {
        self.items.clear();
    }

    /// The number of grants.
    pub fn len(&self) -> (r: usize)
        ensures
            r == self@.len(),
    {
        self.items.len()
    }

    /// The grant at position `i` in scope order.
    pub fn get(&self, i: usize) -> (r: &CapabilityScope)
        requires
            i < self@.len(),
        ensures
            *r == self@[i as int],
    {
        &self.items[i]
    }
}

/// Inserting each grant of `xs` in turn.
pub open spec fn insert_grants(s: Seq<CapabilityScope>, xs: Seq<CapabilityScope>) -> Seq<CapabilityScope>
    decreases xs.len(),
{
    if xs.len() == 0 {
        s
    } else {
        insert_grants(insert_grant(s, xs[0]), xs.drop_first())
    }
}

/// A trusted project: its identifier and the state digest it is trusted at.
#[derive(Debug, Clone, PartialEq, Eq)]
pub struct TrustedProject {
    pub project_id: String,
    pub state: StateDigest,
}

/// Setting the state of a project in a list of trusted projects: the first
/// entry for the project is replaced, or a new entry is appended.
pub open spec fn put_trusted(s: Seq<TrustedProject>, k: String, v: StateDigest) -> Seq<TrustedProject>
    decreases s.len(),
{
    if s.len() == 0 {
        seq![TrustedProject { project_id: k, state: v }]
    } else if s[0].project_id@ == k@ {
        s.update(0, TrustedProject { project_id: k, state: v })
    } else {
        seq![s[0]] + put_trusted(s.drop_first(), k, v)
    }
}

/// The state a project is trusted at: that of its first entry.
pub open spec fn trusted_state(s: Seq<TrustedProject>, k: Seq<char>) -> Option<StateDigest>
    decreases s.len(),
{
    if s.len() == 0 {
        None
    } else if s[0].project_id@ == k {
        Some(s[0].state)
    } else {
        trusted_state(s.drop_first(), k)
    }
}

proof fn lemma_put_trusted_prefix(s: Seq<TrustedProject>, k: String, v: StateDigest, i: int)
    requires
        0 <= i <= s.len(),
        forall|j: int| 0 <= j < i ==> (#[trigger] s[j]).project_id@ != k@,
    ensures
        put_trusted(s, k, v) == s.take(i) + put_trusted(s.skip(i), k, v),
    decreases i,
{
    if i == 0 {
        assert(s.skip(0) =~= s);
        assert(s.take(0) + s =~= s);
    } else {
        assert(s[0].project_id@ != k@);
        lemma_put_trusted_prefix(s.drop_first(), k, v, i - 1);
        assert(s.drop_first().skip(i - 1) =~= s.skip(i));
        assert(seq![s[0]] + s.drop_first().take(i - 1) =~= s.take(i));
        assert(seq![s[0]] + (s.drop_first().take(i - 1) + put_trusted(s.skip(i), k, v))
            =~= s.take(i) + put_trusted(s.skip(i), k, v));
    }
}

proof fn lemma_trusted_state_prefix(s: Seq<TrustedProject>, k: Seq<char>, i: int)
    requires
        0 <= i <= s.len(),
        forall|j: int| 0 <= j < i ==> (#[trigger] s[j]).project_id@ != k,
    ensures
        trusted_state(s, k) == trusted_state(s.skip(i), k),
    decreases i,
{
    if i == 0 {
        assert(s.skip(0) =~= s);
    } else {
        lemma_trusted_state_prefix(s.drop_first(), k, i - 1);
        assert(s.drop_first().skip(i - 1) =~= s.skip(i));
    }
}

/// The projects a policy trusts, each with the state digest it is trusted at:
/// a map from project identifier to state digest.
#[derive(Debug, Clone, PartialEq, Eq)]
pub struct TrustedProjects {
    entries: Vec<TrustedProject>,
}

impl View for TrustedProjects {
    type V = Seq<TrustedProject>;

    closed spec fn view(&self) -> Seq<TrustedProject> {
        self.entries@
    }
}

impl TrustedProjects {
    /// The empty map.
    pub fn new() -> (r: Self)
        ensures
            r@ == Seq::<TrustedProject>::empty(),
    {
        TrustedProjects { entries: Vec::new() }
    }

    /// Sets the state a project is trusted at.
    pub fn insert(&mut self, project_id: String, state: StateDigest)
        ensures
            final(self)@ == put_trusted(old(self)@, project_id, state),
    {
        let ghost s0 = self.entries@;
        let mut i: usize = 0;
        while i < self.entries.len() && self.entries[i].project_id != project_id
            invariant
                self.entries@ == s0,
                i <= s0.len(),
                forall|j: int| 0 <= j < i ==> (#[trigger] s0[j]).project_id@ != project_id@,
            decreases self.entries.len() - i,
        {
            i = i + 1;
        }
        proof {
            lemma_put_trusted_prefix(s0, project_id, state, i as int);
        }
        let ghost rest = s0.skip(i as int);
        if i < self.entries.len() {
            assert(rest[0] == s0[i as int]);
            self.entries.set(i, TrustedProject { project_id, state });
            assert(self.entries@ =~= s0.take(i as int) + rest.update(0, TrustedProject { project_id, state }));
        } else {
            assert(rest.len() == 0);
            self.entries.push(TrustedProject { project_id, state });
            assert(self.entries@ =~= s0.take(i as int) + seq![TrustedProject { project_id, state }]);
        }
    }

    /// The state a project is trusted at, if it is trusted.
    pub fn get(&self, project_id: &String) -> (r: Option<&StateDigest>)
        ensures
            match r {
                Some(d) => trusted_state(self@, project_id@) == Some(*d),
                None => trusted_state(self@, project_id@) is None,
            },
    {
        let mut i: usize = 0;
        while i < self.entries.len()
            invariant
                i <= self.entries@.len(),
                forall|j: int| 0 <= j < i ==> (#[trigger] self.entries@[j]).project_id@ != project_id@,
            decreases self.entries.len() - i,
        {
            if self.entries[i].project_id == *project_id {
                proof {
                    lemma_trusted_state_prefix(self.entries@, project_id@, i as int);
                }
                return Some(&self.entries[i].state);
            }
            i = i + 1;
        }
        proof {
            lemma_trusted_state_prefix(self.entries@, project_id@, i as int);
        }
        None
    }

    /// Removes every project.
    pub fn clear(&mut self)
        ensures
            final(self)@ == Seq::<TrustedProject>::empty(),
    {
        self.entries.clear();
    }

    /// The number of entries.
    pub fn len(&self) -> (r: usize)
        ensures
            r == self@.len(),
    {
        self.entries.len()
    }

    /// The entry at position `i`.
    pub fn entry(&self, i: usize) -> (r: &TrustedProject)
        requires
            i < self@.len(),
        ensures
            *r == self@[i as int],
    {
        &self.entries[i]
    }
}

/// The policy rules: at most one decision per capability kind.
#[derive(Debug, Clone, Copy, PartialEq, Eq)]
pub struct RuleMap {
    pub project_read: Option<RuleDecision>,
    pub project_apply_patch: Option<RuleDecision>,
    pub broker_command: Option<RuleDecision>,
    pub provider_submit: Option<RuleDecision>,
    pub credential_use: Option<RuleDecision>,
    pub worktree_integrate: Option<RuleDecision>,
}

/// The rule for a capability kind.
pub open spec fn rule_for(m: RuleMap, kind: CapabilityKind) -> Option<RuleDecision> {
    match kind {
        CapabilityKind::ProjectRead => m.project_read,
        CapabilityKind::ProjectApplyPatch => m.project_apply_patch,
        CapabilityKind::BrokerCommand => m.broker_command,
        CapabilityKind::ProviderSubmit => m.provider_submit,
        CapabilityKind::CredentialUse => m.credential_use,
        CapabilityKind::WorktreeIntegrate => m.worktree_integrate,
    }
}

/// The number of kinds that have a rule.
pub open spec fn rule_count(m: RuleMap) -> nat {
    (if m.project_read is Some { 1nat } else { 0nat }) + (if m.project_apply_patch is Some {
        1nat
    } else {
        0nat
    }) + (if m.broker_command is Some { 1nat } else { 0nat }) + (if m.provider_submit is Some {
        1nat
    } else {
        0nat
    }) + (if m.credential_use is Some { 1nat } else { 0nat }) + (if m.worktree_integrate is Some {
        1nat
    } else {
        0nat
    })
}

impl RuleMap {
    /// No rules.
    pub fn new() -> (r: Self)
        ensures
            forall|k: CapabilityKind| rule_for(r, k) is None,
    {
        RuleMap {
            project_read: None,
            project_apply_patch: None,
            broker_command: None,
            provider_submit: None,
            credential_use: None,
            worktree_integrate: None,
        }
    }

    /// Sets the rule for a capability kind.
    pub fn insert(&mut self, kind: CapabilityKind, decision: RuleDecision)
        ensures
            rule_for(*final(self), kind) == Some(decision),
            forall|k: CapabilityKind| k != kind ==> rule_for(*final(self), k) == rule_for(*old(self), k),
    {
        match kind {
            CapabilityKind::ProjectRead => self.project_read = Some(decision),
            CapabilityKind::ProjectApplyPatch => self.project_apply_patch = Some(decision),
            CapabilityKind::BrokerCommand => self.broker_command = Some(decision),
            CapabilityKind::ProviderSubmit => self.provider_submit = Some(decision),
            CapabilityKind::CredentialUse => self.credential_use = Some(decision),
            CapabilityKind::WorktreeIntegrate => self.worktree_integrate = Some(decision),
        }
    }

    /// The rule for a capability kind.
    pub fn get(&self, kind: CapabilityKind) -> (r: Option<RuleDecision>)
        ensures
            r == rule_for(*self, kind),
    {
        match kind {
            CapabilityKind::ProjectRead => self.project_read,
            CapabilityKind::ProjectApplyPatch => self.project_apply_patch,
            CapabilityKind::BrokerCommand => self.broker_command,
            CapabilityKind::ProviderSubmit => self.provider_submit,
            CapabilityKind::CredentialUse => self.credential_use,
            CapabilityKind::WorktreeIntegrate => self.worktree_integrate,
        }
    }

    /// Removes every rule.
    pub fn clear(&mut self)
        ensures
            forall|k: CapabilityKind| rule_for(*final(self), k) is None,
    {
        *self = RuleMap::new();
    }

    /// The number of kinds that have a rule.
    pub fn len(&self) -> (r: usize)
        ensures
            r == rule_count(*self),
    {
        let mut n: usize = 0;
        if self.project_read.is_some() {
            n = n + 1;
        }
        if self.project_apply_patch.is_some() {
            n = n + 1;
        }
        if self.broker_command.is_some() {
            n = n + 1;
        }
        if self.provider_submit.is_some() {
            n = n + 1;
        }
        if self.credential_use.is_some() {
            n = n + 1;
        }
        if self.worktree_integrate.is_some() {
            n = n + 1;
        }
        n
    }
}

/// An effective policy: trusted projects, host grants, rules and the longest
/// approval lifetime.
#[derive(Debug, Clone, PartialEq, Eq)]
pub struct EffectivePolicy {
    pub schema_version: u16,
    pub revision: String,
    pub trusted_projects: TrustedProjects,
    pub grants: GrantSet,
    pub rules: RuleMap,
    pub max_approval_ttl_ms: u64,
}

/// Why a policy is refused.
#[derive(Debug, PartialEq, Eq)]
pub enum PolicyError {
    Canonical(CanonicalError),
    InvalidField(&'static str),
    PolicyTooLarge,
}

/// A rule is allowed for its kind: only reads may go without approval, and
/// an approval lifetime is between 1 ms and the longest action lifetime.
pub open spec fn rule_ok(kind: CapabilityKind, d: RuleDecision) -> bool {
    match d {
        RuleDecision::AllowWithoutApproval => kind == CapabilityKind::ProjectRead,
        RuleDecision::RequireApproval { max_ttl_ms } => 0 < max_ttl_ms <= MAX_ACTION_TTL_MS,
        RuleDecision::Deny => true,
    }
}

pub open spec fn rules_ok(m: RuleMap) -> bool {
    &&& rule_count(m) <= MAX_CAPABILITY_RULES
    &&& forall|k: CapabilityKind| #[trigger] rule_for(m, k) matches Some(d) ==> rule_ok(k, d)
}

pub open spec fn trusted_ok(s: Seq<TrustedProject>) -> bool {
    &&& s.len() <= MAX_TRUSTED_PROJECTS
    &&& forall|i: int| 0 <= i < s.len() ==> id_ok(sb((#[trigger] s[i]).project_id)) && is_sha256_text(s[i].state@)
}

pub open spec fn grants_ok(g: Seq<CapabilityScope>) -> bool {
    &&& g.len() <= MAX_CAPABILITY_GRANTS
    &&& forall|i: int| 0 <= i < g.len() ==> scope_check(#[trigger] g[i]) is Ok
}

/// The JSON members of the trusted projects, keyed by project identifier.
pub open spec fn trusted_members(s: Seq<TrustedProject>) -> Seq<(Seq<u8>, Json)>
    decreases s.len(),
{
    if s.len() == 0 {
        no_members()
    } else {
        insert_member(
            trusted_members(s.drop_last()),
            (sb(s.last().project_id), Json::Str(encode_utf8(s.last().state@))),
        )
    }
}

#[verifier::opaque]
pub open spec fn rule_json(d: RuleDecision) -> Json {
    match d {
        RuleDecision::AllowWithoutApproval => Json::Object(ins(no_members(), "decision", lit("allow_without_approval"))),
        RuleDecision::RequireApproval { max_ttl_ms } => Json::Object(
            ins(ins(no_members(), "decision", lit("require_approval")), "max_ttl_ms", Json::Number(max_ttl_ms)),
        ),
        RuleDecision::Deny => Json::Object(ins(no_members(), "decision", lit("deny"))),
    }
}

pub open spec fn rule_member(ms: Seq<(Seq<u8>, Json)>, key: &str, d: Option<RuleDecision>) -> Seq<(Seq<u8>, Json)> {
    match d {
        Some(d) => ins(ms, key, rule_json(d)),
        None => ms,
    }
}

/// The JSON members of the rules, keyed by capability kind name.
pub open spec fn rules_members(m: RuleMap) -> Seq<(Seq<u8>, Json)> {
    rule_member(
        rule_member(
            rule_member(
                rule_member(
                    rule_member(rule_member(no_members(), "project_read", m.project_read), "project_apply_patch", m.project_apply_patch),
                    "broker_command",
                    m.broker_command,
                ),
                "provider_submit",
                m.provider_submit,
            ),
            "credential_use",
            m.credential_use,
        ),
        "worktree_integrate",
        m.worktree_integrate,
    )
}

/// The JSON form of an effective policy.
pub open spec fn policy_json(p: EffectivePolicy) -> Json {
    Json::Object(
        policy_members(
            Json::Number(p.schema_version as u64),
            jstr(p.revision),
            Json::Object(trusted_members(p.trusted_projects@)),
            Json::Array(Seq::new(p.grants@.len(), |i: int| scope_json(p.grants@[i]))),
            Json::Object(rules_members(p.rules)),
            Json::Number(p.max_approval_ttl_ms),
        ),
    )
}

/// The members of a policy's JSON form, inserted by key.
#[verifier::opaque]
pub open spec fn policy_members(
    v0: Json,
    v1: Json,
    v2: Json,
    v3: Json,
    v4: Json,
    v5: Json,
) -> Seq<(Seq<u8>, Json)> {
    ins(ins(ins(ins(ins(ins(no_members(), "schema_version", v0), "revision", v1), "trusted_projects", v2), "grants", v3), "rules", v4), "max_approval_ttl_ms", v5)
}

proof fn lemma_policy_members_keys(
    v0: Json,
    v1: Json,
    v2: Json,
    v3: Json,
    v4: Json,
    v5: Json,
)
    ensures
        ({
            let m = policy_members(v0, v1, v2, v3, v4, v5);
            &&& member_get(m, encode_utf8("schema_version"@)) == Some(v0)
            &&& member_get(m, encode_utf8("revision"@)) == Some(v1)
            &&& member_get(m, encode_utf8("trusted_projects"@)) == Some(v2)
            &&& member_get(m, encode_utf8("grants"@)) == Some(v3)
            &&& member_get(m, encode_utf8("rules"@)) == Some(v4)
            &&& member_get(m, encode_utf8("max_approval_ttl_ms"@)) == Some(v5)
        }),
{
    broadcast use crate::json::lemma_member_get_insert_at;
    reveal(policy_members);
    reveal_strlit("schema_version");
    vstd::utf8::is_ascii_chars_encode_utf8("schema_version"@);
    reveal_strlit("revision");
    vstd::utf8::is_ascii_chars_encode_utf8("revision"@);
    reveal_strlit("trusted_projects");
    vstd::utf8::is_ascii_chars_encode_utf8("trusted_projects"@);
    reveal_strlit("grants");
    vstd::utf8::is_ascii_chars_encode_utf8("grants"@);
    reveal_strlit("rules");
    vstd::utf8::is_ascii_chars_encode_utf8("rules"@);
    reveal_strlit("max_approval_ttl_ms");
    vstd::utf8::is_ascii_chars_encode_utf8("max_approval_ttl_ms"@);
    assert(encode_utf8("schema_version"@).len() == 14 && encode_utf8("schema_version"@)[0] == 0x73u8);
    assert(encode_utf8("revision"@).len() == 8 && encode_utf8("revision"@)[0] == 0x72u8);
    assert(encode_utf8("trusted_projects"@).len() == 16 && encode_utf8("trusted_projects"@)[0] == 0x74u8);
    assert(encode_utf8("grants"@).len() == 6 && encode_utf8("grants"@)[0] == 0x67u8);
    assert(encode_utf8("rules"@).len() == 5 && encode_utf8("rules"@)[0] == 0x72u8);
    assert(encode_utf8("max_approval_ttl_ms"@).len() == 19 && encode_utf8("max_approval_ttl_ms"@)[0] == 0x6du8);
}

/// The members determine every inserted value.
proof fn lemma_policy_members_injective(
    v0: Json,
    v1: Json,
    v2: Json,
    v3: Json,
    v4: Json,
    v5: Json,
    w0: Json,
    w1: Json,
    w2: Json,
    w3: Json,
    w4: Json,
    w5: Json,
)
    requires
        policy_members(v0, v1, v2, v3, v4, v5) == policy_members(w0, w1, w2, w3, w4, w5),
    ensures
        v0 == w0,
        v1 == w1,
        v2 == w2,
        v3 == w3,
        v4 == w4,
        v5 == w5,
{
    lemma_policy_members_keys(v0, v1, v2, v3, v4, v5);
    lemma_policy_members_keys(w0, w1, w2, w3, w4, w5);
}

/// The JSON form of an optional rule.
pub open spec fn rule_json_opt(d: Option<RuleDecision>) -> Option<Json> {
    match d {
        Some(x) => Some(rule_json(x)),
        None => None,
    }
}

/// The `decision` tag of a rule.
pub open spec fn rule_tag(d: RuleDecision) -> &'static str {
    match d {
        RuleDecision::AllowWithoutApproval => "allow_without_approval",
        RuleDecision::RequireApproval { .. } => "require_approval",
        RuleDecision::Deny => "deny",
    }
}

/// Two rules with the same JSON form are the same rule.
proof fn lemma_rule_json_injective(d1: RuleDecision, d2: RuleDecision)
    requires
        rule_json(d1) == rule_json(d2),
    ensures
        d1 == d2,
{
    broadcast use crate::json::lemma_member_get_insert_at;
    reveal(rule_json);
    reveal_strlit("decision");
    vstd::utf8::is_ascii_chars_encode_utf8("decision"@);
    reveal_strlit("max_ttl_ms");
    vstd::utf8::is_ascii_chars_encode_utf8("max_ttl_ms"@);
    assert(encode_utf8("decision"@).len() == 8 && encode_utf8("decision"@)[0] == 0x64u8);
    assert(encode_utf8("max_ttl_ms"@).len() == 10 && encode_utf8("max_ttl_ms"@)[0] == 0x6du8);
    assert(member_get(rule_json(d1)->Object_0, encode_utf8("decision"@)) == Some(lit(rule_tag(d1))));
    assert(member_get(rule_json(d2)->Object_0, encode_utf8("decision"@)) == Some(lit(rule_tag(d2))));
    crate::json::lemma_encode_utf8_injective(rule_tag(d1)@, rule_tag(d2)@);
    reveal_strlit("allow_without_approval");
    reveal_strlit("require_approval");
    reveal_strlit("deny");
    match (d1, d2) {
        (RuleDecision::RequireApproval { max_ttl_ms: m1 }, RuleDecision::RequireApproval { max_ttl_ms: m2 }) => {
            assert(member_get(rule_json(d1)->Object_0, encode_utf8("max_ttl_ms"@)) == Some(Json::Number(m1)));
            assert(member_get(rule_json(d2)->Object_0, encode_utf8("max_ttl_ms"@)) == Some(Json::Number(m2)));
        },
        (RuleDecision::AllowWithoutApproval, RuleDecision::AllowWithoutApproval) => {},
        (RuleDecision::Deny, RuleDecision::Deny) => {},
        _ => {
            assert(false);
        },
    }
}

/// Where each rule stands in the JSON members of the rules.
proof fn lemma_rules_members_get(m: RuleMap)
    ensures
        member_get(rules_members(m), encode_utf8("project_read"@)) == rule_json_opt(m.project_read),
        member_get(rules_members(m), encode_utf8("project_apply_patch"@)) == rule_json_opt(m.project_apply_patch),
        member_get(rules_members(m), encode_utf8("broker_command"@)) == rule_json_opt(m.broker_command),
        member_get(rules_members(m), encode_utf8("provider_submit"@)) == rule_json_opt(m.provider_submit),
        member_get(rules_members(m), encode_utf8("credential_use"@)) == rule_json_opt(m.credential_use),
        member_get(rules_members(m), encode_utf8("worktree_integrate"@)) == rule_json_opt(m.worktree_integrate),
{
    broadcast use crate::json::lemma_member_get_insert_at;
    reveal_strlit("project_read");
    vstd::utf8::is_ascii_chars_encode_utf8("project_read"@);
    reveal_strlit("project_apply_patch");
    vstd::utf8::is_ascii_chars_encode_utf8("project_apply_patch"@);
    reveal_strlit("broker_command");
    vstd::utf8::is_ascii_chars_encode_utf8("broker_command"@);
    reveal_strlit("provider_submit");
    vstd::utf8::is_ascii_chars_encode_utf8("provider_submit"@);
    reveal_strlit("credential_use");
    vstd::utf8::is_ascii_chars_encode_utf8("credential_use"@);
    reveal_strlit("worktree_integrate");
    vstd::utf8::is_ascii_chars_encode_utf8("worktree_integrate"@);
    assert(encode_utf8("project_read"@).len() == 12 && encode_utf8("project_read"@)[0] == 0x70u8);
    assert(encode_utf8("project_apply_patch"@).len() == 19 && encode_utf8("project_apply_patch"@)[0] == 0x70u8);
    assert(encode_utf8("broker_command"@).len() == 14 && encode_utf8("broker_command"@)[0] == 0x62u8);
    assert(encode_utf8("provider_submit"@).len() == 15 && encode_utf8("provider_submit"@)[0] == 0x70u8);
    assert(encode_utf8("credential_use"@).len() == 14 && encode_utf8("credential_use"@)[0] == 0x63u8);
    assert(encode_utf8("worktree_integrate"@).len() == 18 && encode_utf8("worktree_integrate"@)[0] == 0x77u8);
}

/// The state text of the last entry for project `k`, which is what the JSON
/// form of the trusted projects keeps for it.
pub open spec fn trusted_last(s: Seq<TrustedProject>, k: Seq<char>) -> Option<Seq<char>>
    decreases s.len(),
{
    if s.len() == 0 {
        None
    } else if s.last().project_id@ == k {
        Some(s.last().state@)
    } else {
        trusted_last(s.drop_last(), k)
    }
}

proof fn lemma_trusted_members_get(s: Seq<TrustedProject>, k: Seq<char>)
    ensures
        member_get(trusted_members(s), encode_utf8(k)) == match trusted_last(s, k) {
            Some(t) => Some(Json::Str(encode_utf8(t))),
            None => None::<Json>,
        },
    decreases s.len(),
{
    if s.len() > 0 {
        lemma_trusted_members_get(s.drop_last(), k);
        crate::json::lemma_member_get_insert(
            trusted_members(s.drop_last()),
            (sb(s.last().project_id), Json::Str(encode_utf8(s.last().state@))),
        );
        crate::json::lemma_encode_utf8_injective(s.last().project_id@, k);
    }
}

/// Two policies whose fields hold the same values: schema version,
/// revision, the state trusted for every project, the grants in order, the
/// rules and the approval lifetime.
pub open spec fn same_policy(p: EffectivePolicy, q: EffectivePolicy) -> bool {
    &&& p.schema_version == q.schema_version
    &&& p.revision@ == q.revision@
    &&& forall|k: Seq<char>| #[trigger] trusted_last(p.trusted_projects@, k) == trusted_last(q.trusted_projects@, k)
    &&& p.grants@.len() == q.grants@.len()
    &&& forall|i: int| 0 <= i < p.grants@.len() ==> same_scope(#[trigger] p.grants@[i], q.grants@[i])
    &&& p.rules == q.rules
    &&& p.max_approval_ttl_ms == q.max_approval_ttl_ms
}

/// The canonical bytes determine the policy: two policies with the same
/// canonical JSON hold the same values in every field, so a change to any
/// of them changes the bytes that the policy digest is taken over.
pub proof fn lemma_policy_canonical_injective(p1: EffectivePolicy, p2: EffectivePolicy)
    requires
        json_text(policy_json(p1)) == json_text(policy_json(p2)),
    ensures
        same_policy(p1, p2),
{
    crate::json::lemma_json_text_injective(policy_json(p1), policy_json(p2));
    let g1 = Seq::new(p1.grants@.len(), |i: int| scope_json(p1.grants@[i]));
    let g2 = Seq::new(p2.grants@.len(), |i: int| scope_json(p2.grants@[i]));
    lemma_policy_members_injective(
        Json::Number(p1.schema_version as u64),
        jstr(p1.revision),
        Json::Object(trusted_members(p1.trusted_projects@)),
        Json::Array(g1),
        Json::Object(rules_members(p1.rules)),
        Json::Number(p1.max_approval_ttl_ms),
        Json::Number(p2.schema_version as u64),
        jstr(p2.revision),
        Json::Object(trusted_members(p2.trusted_projects@)),
        Json::Array(g2),
        Json::Object(rules_members(p2.rules)),
        Json::Number(p2.max_approval_ttl_ms),
    );
    crate::action::lemma_same_bytes(p1.revision, p2.revision);
    assert forall|k: Seq<char>| #[trigger] trusted_last(p1.trusted_projects@, k) == trusted_last(
        p2.trusted_projects@,
        k,
    ) by {
        lemma_trusted_members_get(p1.trusted_projects@, k);
        lemma_trusted_members_get(p2.trusted_projects@, k);
        match (trusted_last(p1.trusted_projects@, k), trusted_last(p2.trusted_projects@, k)) {
            (Some(t1), Some(t2)) => {
                crate::json::lemma_encode_utf8_injective(t1, t2);
            },
            _ => {},
        }
    }
    assert(g1.len() == g2.len());
    assert forall|i: int| 0 <= i < p1.grants@.len() implies same_scope(#[trigger] p1.grants@[i], p2.grants@[i]) by {
        assert(g1[i] == g2[i]);
        crate::action::lemma_scope_json_injective(p1.grants@[i], p2.grants@[i]);
    }
    lemma_rules_members_get(p1.rules);
    lemma_rules_members_get(p2.rules);
    if p1.rules.project_read is Some && p2.rules.project_read is Some {
        lemma_rule_json_injective(p1.rules.project_read->0, p2.rules.project_read->0);
    }
    if p1.rules.project_apply_patch is Some && p2.rules.project_apply_patch is Some {
        lemma_rule_json_injective(p1.rules.project_apply_patch->0, p2.rules.project_apply_patch->0);
    }
    if p1.rules.broker_command is Some && p2.rules.broker_command is Some {
        lemma_rule_json_injective(p1.rules.broker_command->0, p2.rules.broker_command->0);
    }
    if p1.rules.provider_submit is Some && p2.rules.provider_submit is Some {
        lemma_rule_json_injective(p1.rules.provider_submit->0, p2.rules.provider_submit->0);
    }
    if p1.rules.credential_use is Some && p2.rules.credential_use is Some {
        lemma_rule_json_injective(p1.rules.credential_use->0, p2.rules.credential_use->0);
    }
    if p1.rules.worktree_integrate is Some && p2.rules.worktree_integrate is Some {
        lemma_rule_json_injective(p1.rules.worktree_integrate->0, p2.rules.worktree_integrate->0);
    }
}

/// The checks of a policy, in order.
pub open spec fn policy_check(p: EffectivePolicy) -> Result<(), PolicyError> {
    if p.schema_version != POLICY_SCHEMA_VERSION {
        Err(PolicyError::InvalidField("schema_version"))
    } else if !id_ok(sb(p.revision)) {
        Err(PolicyError::InvalidField("revision"))
    } else if !trusted_ok(p.trusted_projects@) {
        Err(PolicyError::InvalidField("trusted_projects"))
    } else if !grants_ok(p.grants@) {
        Err(PolicyError::InvalidField("grants"))
    } else if !rules_ok(p.rules) {
        Err(PolicyError::InvalidField("rules"))
    } else if p.max_approval_ttl_ms == 0 || p.max_approval_ttl_ms > MAX_ACTION_TTL_MS {
        Err(PolicyError::InvalidField("max_approval_ttl_ms"))
    } else if json_text(policy_json(p)).len() > MAX_CANONICAL_POLICY_BYTES {
        Err(PolicyError::PolicyTooLarge)
    } else {
        Ok(())
    }
}

/// The domain separator of policy digests: `vea`, `policy`, `v1`, each
/// followed by a NUL byte.
pub open spec fn policy_domain() -> Seq<u8> {
    seq![0x76u8, 0x65u8, 0x61u8, 0u8, 0x70u8, 0x6fu8, 0x6cu8, 0x69u8, 0x63u8, 0x79u8, 0u8, 0x76u8, 0x31u8, 0u8]
}

/// The digest text of a valid policy.
pub open spec fn policy_digest_text(p: EffectivePolicy) -> Seq<char> {
    digest_text(policy_domain() + json_text(policy_json(p)))
}

fn rule_to_json(d: RuleDecision) -> (r: JsonValue)
    ensures
        r@ == rule_json(d),
        json_wf(r@),
{
    proof {
        reveal(rule_json);
    }
    let mut m: Vec<JsonMember> = Vec::new();
    match d {
        RuleDecision::AllowWithoutApproval => {
            object_insert(&mut m, key_bytes("decision"), JsonValue::Str(key_bytes("allow_without_approval")));
        },
        RuleDecision::RequireApproval { max_ttl_ms } => {
            object_insert(&mut m, key_bytes("decision"), JsonValue::Str(key_bytes("require_approval")));
            object_insert(&mut m, key_bytes("max_ttl_ms"), JsonValue::Number(max_ttl_ms));
        },
        RuleDecision::Deny => {
            object_insert(&mut m, key_bytes("decision"), JsonValue::Str(key_bytes("deny")));
        },
    }
    let r = JsonValue::Object(m);
    proof {
        lemma_json_wf_unfold(r@);
    }
    r
}

fn add_rule(m: &mut Vec<JsonMember>, key: &str, d: Option<RuleDecision>)
    ensures
        members_view(final(m)@) == rule_member(members_view(old(m)@), key, d),
        members_wf(members_view(old(m)@)) ==> members_wf(members_view(final(m)@)),
{
    match d {
        Some(d) => object_insert(m, key_bytes(key), rule_to_json(d)),
        None => {},
    }
}

fn rules_to_json(r: &RuleMap) -> (out: JsonValue)
    ensures
        out@ == Json::Object(rules_members(*r)),
        json_wf(out@),
{
    let mut m: Vec<JsonMember> = Vec::new();
    add_rule(&mut m, "project_read", r.project_read);
    add_rule(&mut m, "project_apply_patch", r.project_apply_patch);
    add_rule(&mut m, "broker_command", r.broker_command);
    add_rule(&mut m, "provider_submit", r.provider_submit);
    add_rule(&mut m, "credential_use", r.credential_use);
    add_rule(&mut m, "worktree_integrate", r.worktree_integrate);
    let out = JsonValue::Object(m);
    proof {
        lemma_json_wf_unfold(out@);
    }
    out
}

fn trusted_to_json(t: &TrustedProjects) -> (out: JsonValue)
    ensures
        out@ == Json::Object(trusted_members(t@)),
        json_wf(out@),
{
    let mut m: Vec<JsonMember> = Vec::new();
    let mut i: usize = 0;
    while i < t.len()
        invariant
            i <= t@.len(),
            members_view(m@) == trusted_members(t@.take(i as int)),
            members_wf(members_view(m@)),
        decreases t@.len() - i,
    {
        let e = t.entry(i);
        let key = vstd::slice::slice_to_vec(e.project_id.as_str().as_bytes());
        let value = JsonValue::Str(vstd::slice::slice_to_vec(e.state.as_str().as_bytes()));
        object_insert(&mut m, key, value);
        assert(t@.take(i + 1).drop_last() =~= t@.take(i as int));
        i = i + 1;
    }
    assert(t@.take(i as int) =~= t@);
    let out = JsonValue::Object(m);
    proof {
        lemma_json_wf_unfold(out@);
    }
    out
}

fn grants_to_json(g: &GrantSet) -> (out: JsonValue)
    ensures
        out@ == Json::Array(Seq::new(g@.len(), |i: int| scope_json(g@[i]))),
        json_wf(out@),
{
    let mut items: Vec<JsonValue> = Vec::new();
    let mut i: usize = 0;
    while i < g.len()
        invariant
            i <= g@.len(),
            items_view(items@) == Seq::new(g@.len(), |k: int| scope_json(g@[k])).take(i as int),
            forall|k: int| 0 <= k < i ==> json_wf(#[trigger] items_view(items@)[k]),
        decreases g@.len() - i,
    {
        let item = scope_to_json(g.get(i));
        let ghost before = items@;
        items.push(item);
        assert(items@.drop_last() =~= before);
        assert(items_view(items@) == items_view(before).push(item@));
        i = i + 1;
        assert(items_view(items@) =~= Seq::new(g@.len(), |k: int| scope_json(g@[k])).take(i as int));
    }
    assert(Seq::new(g@.len(), |k: int| scope_json(g@[k])).take(i as int) =~= Seq::new(g@.len(), |k: int| scope_json(g@[k])));
    let out = JsonValue::Array(items);
    proof {
        lemma_json_wf_unfold(out@);
    }
    out
}

fn rule_allowed(kind: CapabilityKind, d: Option<RuleDecision>) -> (r: bool)
    ensures
        r == (d matches Some(x) ==> rule_ok(kind, x)),
{
    match d {
        None => true,
        Some(RuleDecision::AllowWithoutApproval) => match kind {
            CapabilityKind::ProjectRead => true,
            _ => false,
        },
        Some(RuleDecision::RequireApproval { max_ttl_ms }) => max_ttl_ms != 0 && max_ttl_ms <= MAX_ACTION_TTL_MS,
        Some(RuleDecision::Deny) => true,
    }
}

impl EffectivePolicy {
    /// The JSON value of this policy.
    pub fn to_json(&self) -> (r: JsonValue)
        ensures
            r@ == policy_json(*self),
            json_wf(r@),
    {
        proof {
            reveal(policy_members);
        }
        let mut m: Vec<JsonMember> = Vec::new();
        object_insert(&mut m, key_bytes("schema_version"), JsonValue::Number(self.schema_version as u64));
        object_insert(&mut m, key_bytes("revision"), crate::json::json_string(&self.revision));
        object_insert(&mut m, key_bytes("trusted_projects"), trusted_to_json(&self.trusted_projects));
        object_insert(&mut m, key_bytes("grants"), grants_to_json(&self.grants));
        object_insert(&mut m, key_bytes("rules"), rules_to_json(&self.rules));
        object_insert(&mut m, key_bytes("max_approval_ttl_ms"), JsonValue::Number(self.max_approval_ttl_ms));
        let r = JsonValue::Object(m);
        proof {
            lemma_json_wf_unfold(r@);
        }
        r
    }

    /// Checks schema, revision, trusted projects, grants, rules, the approval
    /// lifetime and the canonical size; the first failing check gives the error.
    #[verifier::loop_isolation(false)]
    pub fn validate(&self) -> (r: Result<(), PolicyError>)
        ensures
            r == policy_check(*self),
    {
        if self.schema_version != POLICY_SCHEMA_VERSION {
            return Err(PolicyError::InvalidField("schema_version"));
        }
        if validate_id(self.revision.as_str(), "revision").is_err() {
            return Err(PolicyError::InvalidField("revision"));
        }
        if self.trusted_projects.len() > MAX_TRUSTED_PROJECTS {
            return Err(PolicyError::InvalidField("trusted_projects"));
        }
        let mut i: usize = 0;
        while i < self.trusted_projects.len()
            invariant
                i <= self.trusted_projects@.len(),
                forall|j: int| 0 <= j < i ==> id_ok(sb((#[trigger] self.trusted_projects@[j]).project_id))
                    && is_sha256_text(self.trusted_projects@[j].state@),
            decreases self.trusted_projects@.len() - i,
        {
            let e = self.trusted_projects.entry(i);
            if validate_id(e.project_id.as_str(), "trusted_project_id").is_err() || !e.state.is_valid() {
                assert(!(id_ok(sb(self.trusted_projects@[i as int].project_id))
                    && is_sha256_text(self.trusted_projects@[i as int].state@)));
                return Err(PolicyError::InvalidField("trusted_projects"));
            }
            i = i + 1;
        }
        if self.grants.len() > MAX_CAPABILITY_GRANTS {
            return Err(PolicyError::InvalidField("grants"));
        }
        let mut k: usize = 0;
        while k < self.grants.len()
            invariant
                k <= self.grants@.len(),
                forall|j: int| 0 <= j < k ==> scope_check(#[trigger] self.grants@[j]) is Ok,
            decreases self.grants@.len() - k,
        {
            if self.grants.get(k).validate().is_err() {
                assert(scope_check(self.grants@[k as int]) is Err);
                return Err(PolicyError::InvalidField("grants"));
            }
            k = k + 1;
        }
        let rules = &self.rules;
        if rules.len() > MAX_CAPABILITY_RULES
            || !rule_allowed(CapabilityKind::ProjectRead, rules.project_read)
            || !rule_allowed(CapabilityKind::ProjectApplyPatch, rules.project_apply_patch)
            || !rule_allowed(CapabilityKind::BrokerCommand, rules.broker_command)
            || !rule_allowed(CapabilityKind::ProviderSubmit, rules.provider_submit)
            || !rule_allowed(CapabilityKind::CredentialUse, rules.credential_use)
            || !rule_allowed(CapabilityKind::WorktreeIntegrate, rules.worktree_integrate) {
            proof {
                if rules_ok(*rules) {
                    assert(rule_for(*rules, CapabilityKind::ProjectRead) == rules.project_read);
                    assert(rule_for(*rules, CapabilityKind::ProjectApplyPatch) == rules.project_apply_patch);
                    assert(rule_for(*rules, CapabilityKind::BrokerCommand) == rules.broker_command);
                    assert(rule_for(*rules, CapabilityKind::ProviderSubmit) == rules.provider_submit);
                    assert(rule_for(*rules, CapabilityKind::CredentialUse) == rules.credential_use);
                    assert(rule_for(*rules, CapabilityKind::WorktreeIntegrate) == rules.worktree_integrate);
                }
            }
            return Err(PolicyError::InvalidField("rules"));
        }
        assert(rules_ok(*rules)) by {
            assert forall|kind: CapabilityKind| (#[trigger] rule_for(*rules, kind) matches Some(d) ==> rule_ok(kind, d)) by {
                match kind {
                    CapabilityKind::ProjectRead => {},
                    CapabilityKind::ProjectApplyPatch => {},
                    CapabilityKind::BrokerCommand => {},
                    CapabilityKind::ProviderSubmit => {},
                    CapabilityKind::CredentialUse => {},
                    CapabilityKind::WorktreeIntegrate => {},
                }
            }
        }
        if self.max_approval_ttl_ms == 0 || self.max_approval_ttl_ms > MAX_ACTION_TTL_MS {
            return Err(PolicyError::InvalidField("max_approval_ttl_ms"));
        }
        if canonical_json(&self.to_json()).len() > MAX_CANONICAL_POLICY_BYTES {
            return Err(PolicyError::PolicyTooLarge);
        }
        Ok(())
    }

    /// The canonical JSON bytes of a valid policy.
    pub fn canonical_bytes(&self) -> (r: Result<Vec<u8>, PolicyError>)
        ensures
            match r {
                Ok(b) => policy_check(*self) is Ok && b@ == json_text(policy_json(*self)),
                Err(e) => policy_check(*self) == Err::<(), PolicyError>(e),
            },
    {
        match self.validate() {
            Err(e) => Err(e),
            Ok(_) => Ok(canonical_json(&self.to_json())),
        }
    }

    /// The domain-separated digest of a valid policy.
    pub fn digest(&self) -> (r: Result<PolicyDigest, PolicyError>)
        ensures
            match r {
                Ok(d) => policy_check(*self) is Ok && d@ == policy_digest_text(*self) && is_sha256_text(d@),
                Err(e) => policy_check(*self) == Err::<(), PolicyError>(e),
            },
    {
        match self.canonical_bytes() {
            Err(e) => Err(e),
            Ok(bytes) => {
                let domain: Vec<u8> = vec![0x76u8, 0x65, 0x61, 0, 0x70, 0x6f, 0x6c, 0x69, 0x63, 0x79, 0, 0x76, 0x31, 0];
                assert(domain@ =~= policy_domain());
                Ok(PolicyDigest::from_raw(domain_digest(domain.as_slice(), bytes.as_slice())))
            },
        }
    }
}

/// Fresh broker-owned state an action is evaluated against.
#[derive(Debug, Clone, PartialEq, Eq)]
pub struct ExecutionState {
    pub project_state: StateDigest,
    pub resource_state: StateDigest,
    pub destination_state: Option<StateDigest>,
}

/// The state is well formed and carries a destination state exactly when
/// the action reaches a remote destination.
pub open spec fn state_ok_for(s: ExecutionState, a: ActionProposal) -> bool {
    &&& is_sha256_text(s.project_state@)
    &&& is_sha256_text(s.resource_state@)
    &&& (s.destination_state matches Some(d) ==> is_sha256_text(d@))
    &&& needs_destination_state(a.operation) == s.destination_state is Some
}

/// The JSON form of an approval binding.
pub open spec fn binding_json(action_digest: Seq<char>, policy_digest: Seq<char>, s: ExecutionState) -> Json {
    Json::Object(
        ins(
            ins(
                ins(
                    ins(ins(no_members(), "action_digest", Json::Str(encode_utf8(action_digest))), "policy_digest", Json::Str(encode_utf8(policy_digest))),
                    "project_state",
                    Json::Str(encode_utf8(s.project_state@)),
                ),
                "resource_state",
                Json::Str(encode_utf8(s.resource_state@)),
            ),
            "destination_state",
            match s.destination_state {
                Some(d) => Json::Str(encode_utf8(d@)),
                None => Json::Null,
            },
        ),
    )
}

/// The domain separator of approval bindings: `vea`, `approval-binding`,
/// `v1`, each followed by a NUL byte.
pub open spec fn binding_domain() -> Seq<u8> {
    seq![
        0x76u8, 0x65u8, 0x61u8, 0u8, 0x61u8, 0x70u8, 0x70u8, 0x72u8, 0x6fu8, 0x76u8, 0x61u8, 0x6cu8, 0x2du8,
        0x62u8, 0x69u8, 0x6eu8, 0x64u8, 0x69u8, 0x6eu8, 0x67u8, 0u8, 0x76u8, 0x31u8, 0u8,
    ]
}

/// The digest text of an approval binding.
pub open spec fn binding_digest_text(action_digest: Seq<char>, policy_digest: Seq<char>, s: ExecutionState) -> Seq<char> {
    digest_text(binding_domain() + json_text(binding_json(action_digest, policy_digest, s)))
}

/// The digest text of an action with canonical bytes.
pub open spec fn action_digest_text(a: ActionProposal) -> Seq<char> {
    digest_text(action_domain() + action_canonical(a)->Ok_0)
}

/// The JSON value of an optional state digest.
pub open spec fn optional_state_json(d: Option<StateDigest>) -> Json {
    match d {
        Some(x) => Json::Str(encode_utf8(x@)),
        None => Json::Null,
    }
}

/// The members of an approval binding in key order.
pub open spec fn binding_members(action_digest: Seq<char>, policy_digest: Seq<char>, s: ExecutionState) -> Seq<
    (Seq<u8>, Json),
> {
    seq![
        (encode_utf8("action_digest"@), Json::Str(encode_utf8(action_digest))),
        (encode_utf8("destination_state"@), optional_state_json(s.destination_state)),
        (encode_utf8("policy_digest"@), Json::Str(encode_utf8(policy_digest))),
        (encode_utf8("project_state"@), Json::Str(encode_utf8(s.project_state@))),
        (encode_utf8("resource_state"@), Json::Str(encode_utf8(s.resource_state@))),
    ]
}

/// The binding object holds its five members in key order.
proof fn lemma_binding_members(action_digest: Seq<char>, policy_digest: Seq<char>, s: ExecutionState)
    ensures
        binding_json(action_digest, policy_digest, s) == Json::Object(
            binding_members(action_digest, policy_digest, s),
        ),
{
    reveal_strlit("action_digest");
    reveal_strlit("destination_state");
    reveal_strlit("policy_digest");
    reveal_strlit("project_state");
    reveal_strlit("resource_state");
    vstd::utf8::is_ascii_chars_encode_utf8("action_digest"@);
    vstd::utf8::is_ascii_chars_encode_utf8("destination_state"@);
    vstd::utf8::is_ascii_chars_encode_utf8("policy_digest"@);
    vstd::utf8::is_ascii_chars_encode_utf8("project_state"@);
    vstd::utf8::is_ascii_chars_encode_utf8("resource_state"@);
    let kad = encode_utf8("action_digest"@);
    let kds = encode_utf8("destination_state"@);
    let kpd = encode_utf8("policy_digest"@);
    let kps = encode_utf8("project_state"@);
    let krs = encode_utf8("resource_state"@);
    assert(kad[0] == 0x61 && kds[0] == 0x64 && kpd[0] == 0x70 && kps[0] == 0x70 && krs[0] == 0x72);
    assert(kpd[1] == 0x6f && kps[1] == 0x72);
    assert(kpd.drop_first()[0] == 0x6f && kps.drop_first()[0] == 0x72);
    assert(lex_lt(kad, kpd) && lex_lt(kad, kps) && lex_lt(kad, krs) && lex_lt(kad, kds));
    assert(lex_lt(kpd.drop_first(), kps.drop_first()));
    assert(lex_lt(kpd, kps) && lex_lt(kpd, krs) && lex_lt(kps, krs));
    assert(!lex_lt(kpd, kds) && kpd != kds);
    assert(kad != kpd && kad != kps && kad != krs && kad != kds && kpd != kps && kpd != krs && kps != krs);
    let ad = (kad, Json::Str(encode_utf8(action_digest)));
    let ds = (kds, optional_state_json(s.destination_state));
    let pd = (kpd, Json::Str(encode_utf8(policy_digest)));
    let ps = (kps, Json::Str(encode_utf8(s.project_state@)));
    let rs = (krs, Json::Str(encode_utf8(s.resource_state@)));
    let e = no_members();
    let m1 = insert_member(e, ad);
    assert(m1 =~= seq![ad]);
    let m2 = insert_member(m1, pd);
    assert(insert_member(m1.drop_first(), pd) =~= seq![pd]);
    assert(m2 =~= seq![ad, pd]);
    let m3 = insert_member(m2, ps);
    assert(insert_member(m2.drop_first().drop_first(), ps) =~= seq![ps]);
    assert(insert_member(m2.drop_first(), ps) =~= seq![pd, ps]);
    assert(m3 =~= seq![ad, pd, ps]);
    let m4 = insert_member(m3, rs);
    assert(insert_member(m3.drop_first().drop_first().drop_first(), rs) =~= seq![rs]);
    assert(insert_member(m3.drop_first().drop_first(), rs) =~= seq![ps, rs]);
    assert(insert_member(m3.drop_first(), rs) =~= seq![pd, ps, rs]);
    assert(m4 =~= seq![ad, pd, ps, rs]);
    let m5 = insert_member(m4, ds);
    assert(insert_member(m4.drop_first(), ds) =~= seq![ds, pd, ps, rs]);
    assert(m5 =~= seq![ad, ds, pd, ps, rs]);
    assert(optional_state_json(s.destination_state) == match s.destination_state {
        Some(d) => Json::Str(encode_utf8(d@)),
        None => Json::Null,
    });
    assert(m5 =~= binding_members(action_digest, policy_digest, s));
}

/// The text between two members: a comma, the next key and a colon.
spec fn member_sep(key: &str) -> Seq<u8> {
    seq![0x2cu8] + crate::json::quoted(encode_utf8(key@)) + seq![0x3au8]
}

/// The binding text from the resource state on.
spec fn binding_tail_r(r: Seq<u8>) -> Seq<u8> {
    crate::json::quoted(r) + seq![0x7du8]
}

/// The binding text from the project state on.
spec fn binding_tail_s(s: Seq<u8>, r: Seq<u8>) -> Seq<u8> {
    crate::json::quoted(s) + (member_sep("resource_state") + binding_tail_r(r))
}

/// The binding text from the policy digest on.
spec fn binding_tail_p(p: Seq<u8>, s: Seq<u8>, r: Seq<u8>) -> Seq<u8> {
    crate::json::quoted(p) + (member_sep("project_state") + binding_tail_s(s, r))
}

/// The binding text from the destination state on.
spec fn binding_tail_d(d: Json, p: Seq<u8>, s: Seq<u8>, r: Seq<u8>) -> Seq<u8> {
    json_text(d) + (member_sep("policy_digest") + binding_tail_p(p, s, r))
}

/// The binding text from the action digest on.
spec fn binding_tail_a(a: Seq<u8>, d: Json, p: Seq<u8>, s: Seq<u8>, r: Seq<u8>) -> Seq<u8> {
    crate::json::quoted(a) + (member_sep("destination_state") + binding_tail_d(d, p, s, r))
}

/// The binding text up to the action digest.
spec fn binding_head() -> Seq<u8> {
    seq![0x7bu8] + crate::json::quoted(encode_utf8("action_digest"@)) + seq![0x3au8]
}

/// The binding text, part by part.
#[verifier::rlimit(60)]
proof fn lemma_binding_text(action_digest: Seq<char>, policy_digest: Seq<char>, s: ExecutionState)
    ensures
        json_text(binding_json(action_digest, policy_digest, s)) == binding_head() + binding_tail_a(
            encode_utf8(action_digest),
            optional_state_json(s.destination_state),
            encode_utf8(policy_digest),
            encode_utf8(s.project_state@),
            encode_utf8(s.resource_state@),
        ),
{
    lemma_binding_members(action_digest, policy_digest, s);
    let m = binding_members(action_digest, policy_digest, s);
    let t = |i: int| crate::json::member_text(m[i]);
    let m1 = seq![m[0]];
    crate::json::lemma_members_text_push(Seq::empty(), m[0]);
    assert(Seq::<(Seq<u8>, Json)>::empty().push(m[0]) =~= m1);
    crate::json::lemma_members_text_push(m1, m[1]);
    crate::json::lemma_members_text_push(m1.push(m[1]), m[2]);
    crate::json::lemma_members_text_push(m1.push(m[1]).push(m[2]), m[3]);
    crate::json::lemma_members_text_push(m1.push(m[1]).push(m[2]).push(m[3]), m[4]);
    assert(m1.push(m[1]).push(m[2]).push(m[3]).push(m[4]) =~= m);
    let c = seq![0x2cu8];
    let (ea, d, ep, es, er) = (
        encode_utf8(action_digest),
        optional_state_json(s.destination_state),
        encode_utf8(policy_digest),
        encode_utf8(s.project_state@),
        encode_utf8(s.resource_state@),
    );
    let x4 = c + t(4) + seq![0x7du8];
    assert(x4 =~= member_sep("resource_state") + binding_tail_r(er));
    let x3 = c + t(3) + x4;
    assert(x3 =~= member_sep("project_state") + binding_tail_s(es, er));
    let x2 = c + t(2) + x3;
    assert(x2 =~= member_sep("policy_digest") + binding_tail_p(ep, es, er));
    let x1 = c + t(1) + x2;
    assert(x1 =~= member_sep("destination_state") + binding_tail_d(d, ep, es, er));
    assert(seq![0x7bu8] + t(0) + x1 =~= binding_head() + binding_tail_a(ea, d, ep, es, er));
    let y1 = t(0) + c + t(1);
    let y2 = y1 + c + t(2);
    let y3 = y2 + c + t(3);
    let y4 = y3 + c + t(4);
    assert(crate::json::members_text(m) == y4);
    assert(y4 + seq![0x7du8] =~= y3 + x4);
    assert(y3 + x4 =~= y2 + x3);
    assert(y2 + x3 =~= y1 + x2);
    assert(y1 + x2 =~= t(0) + x1);
    assert(json_text(binding_json(action_digest, policy_digest, s)) =~= seq![0x7bu8] + (y4 + seq![0x7du8]));
}

/// `c + x == c + y` only where `x == y`.
proof fn lemma_strip_prefix(c: Seq<u8>, x: Seq<u8>, y: Seq<u8>)
    requires
        c + x == c + y,
    ensures
        x == y,
{
    assert(x =~= (c + x).skip(c.len() as int));
    assert(y =~= (c + y).skip(c.len() as int));
}

/// The canonical binding bytes, those that `binding_canonical_bytes` returns
/// and `binding_digest` hashes, determine their five inputs: equal bytes come
/// only from equal action digests, policy digests, project states, resource
/// states and destination states, so a change to any of them changes the bytes.
pub proof fn lemma_binding_bytes_injective(
    a1: Seq<char>,
    p1: Seq<char>,
    s1: ExecutionState,
    a2: Seq<char>,
    p2: Seq<char>,
    s2: ExecutionState,
)
    requires
        json_text(binding_json(a1, p1, s1)) == json_text(binding_json(a2, p2, s2)),
    ensures
        a1 == a2,
        p1 == p2,
        s1.project_state@ == s2.project_state@,
        s1.resource_state@ == s2.resource_state@,
        s1.destination_state is Some <==> s2.destination_state is Some,
        s1.destination_state is Some ==> s1.destination_state->0@ == s2.destination_state->0@,
{
    lemma_binding_text(a1, p1, s1);
    lemma_binding_text(a2, p2, s2);
    let (ea1, ep1, es1, er1) = (encode_utf8(a1), encode_utf8(p1), encode_utf8(s1.project_state@), encode_utf8(s1.resource_state@));
    let (ea2, ep2, es2, er2) = (encode_utf8(a2), encode_utf8(p2), encode_utf8(s2.project_state@), encode_utf8(s2.resource_state@));
    let d1 = optional_state_json(s1.destination_state);
    let d2 = optional_state_json(s2.destination_state);
    lemma_strip_prefix(binding_head(), binding_tail_a(ea1, d1, ep1, es1, er1), binding_tail_a(ea2, d2, ep2, es2, er2));
    crate::json::lemma_quoted_prefix(ea1, ea2, member_sep("destination_state") + binding_tail_d(d1, ep1, es1, er1),
        member_sep("destination_state") + binding_tail_d(d2, ep2, es2, er2));
    lemma_strip_prefix(member_sep("destination_state"), binding_tail_d(d1, ep1, es1, er1), binding_tail_d(d2, ep2, es2, er2));
    let rest1 = member_sep("policy_digest") + binding_tail_p(ep1, es1, er1);
    let rest2 = member_sep("policy_digest") + binding_tail_p(ep2, es2, er2);
    match (s1.destination_state, s2.destination_state) {
        (Some(x1), Some(x2)) => {
            crate::json::lemma_quoted_prefix(encode_utf8(x1@), encode_utf8(x2@), rest1, rest2);
            vstd::utf8::encode_utf8_decode_utf8(x1@);
            vstd::utf8::encode_utf8_decode_utf8(x2@);
        },
        (None, None) => {
            lemma_strip_prefix(json_text(Json::Null), rest1, rest2);
        },
        (Some(x1), None) => {
            assert((json_text(d1) + rest1)[0] == 0x22);
            assert((json_text(d2) + rest2)[0] == 0x6e);
        },
        (None, Some(x2)) => {
            assert((json_text(d1) + rest1)[0] == 0x6e);
            assert((json_text(d2) + rest2)[0] == 0x22);
        },
    }
    lemma_strip_prefix(member_sep("policy_digest"), binding_tail_p(ep1, es1, er1), binding_tail_p(ep2, es2, er2));
    crate::json::lemma_quoted_prefix(ep1, ep2, member_sep("project_state") + binding_tail_s(es1, er1),
        member_sep("project_state") + binding_tail_s(es2, er2));
    lemma_strip_prefix(member_sep("project_state"), binding_tail_s(es1, er1), binding_tail_s(es2, er2));
    crate::json::lemma_quoted_prefix(es1, es2, member_sep("resource_state") + binding_tail_r(er1),
        member_sep("resource_state") + binding_tail_r(er2));
    lemma_strip_prefix(member_sep("resource_state"), binding_tail_r(er1), binding_tail_r(er2));
    crate::json::lemma_quoted_prefix(er1, er2, seq![0x7du8], seq![0x7du8]);
    vstd::utf8::encode_utf8_decode_utf8(a1);
    vstd::utf8::encode_utf8_decode_utf8(a2);
    vstd::utf8::encode_utf8_decode_utf8(p1);
    vstd::utf8::encode_utf8_decode_utf8(p2);
    vstd::utf8::encode_utf8_decode_utf8(s1.project_state@);
    vstd::utf8::encode_utf8_decode_utf8(s2.project_state@);
    vstd::utf8::encode_utf8_decode_utf8(s1.resource_state@);
    vstd::utf8::encode_utf8_decode_utf8(s2.resource_state@);
}

fn optional_digest_json(d: &Option<StateDigest>) -> (r: JsonValue)
    ensures
        r@ == match *d {
            Some(x) => Json::Str(encode_utf8(x@)),
            None => Json::Null,
        },
{
    match d {
        Some(x) => JsonValue::Str(vstd::slice::slice_to_vec(x.as_str().as_bytes())),
        None => JsonValue::Null,
    }
}

impl ExecutionState {
    /// Whether the state is well formed for the action.
    pub fn validate_for(&self, action: &ActionProposal) -> (r: bool)
        ensures
            r == state_ok_for(*self, *action),
    {
        let destination_ok = match &self.destination_state {
            Some(d) => d.is_valid(),
            None => true,
        };
        self.project_state.is_valid() && self.resource_state.is_valid() && destination_ok
            && action.operation.requires_destination_state() == self.destination_state.is_some()
    }

    /// The canonical bytes that bind an action digest, a policy digest and
    /// this state.
    pub fn binding_canonical_bytes(&self, action_digest: &ActionDigest, policy_digest: &PolicyDigest) -> (r:
        Result<Vec<u8>, CanonicalError>)
        ensures
            r matches Ok(b) && b@ == json_text(binding_json(action_digest@, policy_digest@, *self)),
    {
        let mut m: Vec<JsonMember> = Vec::new();
        object_insert(&mut m, key_bytes("action_digest"), JsonValue::Str(vstd::slice::slice_to_vec(action_digest.as_str().as_bytes())));
        object_insert(&mut m, key_bytes("policy_digest"), JsonValue::Str(vstd::slice::slice_to_vec(policy_digest.as_str().as_bytes())));
        object_insert(&mut m, key_bytes("project_state"), JsonValue::Str(vstd::slice::slice_to_vec(self.project_state.as_str().as_bytes())));
        object_insert(&mut m, key_bytes("resource_state"), JsonValue::Str(vstd::slice::slice_to_vec(self.resource_state.as_str().as_bytes())));
        object_insert(&mut m, key_bytes("destination_state"), optional_digest_json(&self.destination_state));
        Ok(canonical_json(&JsonValue::Object(m)))
    }

    /// The digest that binds an action digest, a policy digest and this state.
    pub fn binding_digest(&self, action_digest: &ActionDigest, policy_digest: &PolicyDigest) -> (r: Result<
        ApprovalBindingDigest,
        CanonicalError,
    >)
        ensures
            r matches Ok(d) && d@ == binding_digest_text(action_digest@, policy_digest@, *self) && is_sha256_text(d@),
    {
        match self.binding_canonical_bytes(action_digest, policy_digest) {
            Err(e) => Err(e),
            Ok(bytes) => {
                let domain: Vec<u8> = vec![
                    0x76u8, 0x65, 0x61, 0, 0x61, 0x70, 0x70, 0x72, 0x6f, 0x76, 0x61, 0x6c, 0x2d, 0x62, 0x69, 0x6e, 0x64,
                    0x69, 0x6e, 0x67, 0, 0x76, 0x31, 0,
                ];
                assert(domain@ =~= binding_domain());
                Ok(ApprovalBindingDigest::from_raw(domain_digest(domain.as_slice(), bytes.as_slice())))
            },
        }
    }
}

/// What an approval must be bound to.
#[derive(Debug, Clone, PartialEq, Eq)]
pub struct ApprovalRequirement {
    pub action_id: String,
    pub action_digest: ActionDigest,
    pub policy_digest: PolicyDigest,
    pub binding_digest: ApprovalBindingDigest,
    pub max_ttl_ms: u64,
    pub action_created_at_unix_ms: u64,
    pub action_expires_at_unix_ms: u64,
}

/// Why an action is denied.
#[derive(Debug, Clone, Copy, PartialEq, Eq, Structural)]
pub enum DenialReason {
    InvalidAction,
    InvalidPolicy,
    InvalidExecutionState,
    Expired,
    UntrustedProject,
    NoCapabilityGrant,
    NoPolicyRule,
    RuleDenied,
    ProjectStateDrift,
}

/// The authorization decision for an action.
#[derive(Debug, Clone, PartialEq, Eq)]
pub enum PolicyDecision {
    AllowedWithoutApproval {
        action_digest: ActionDigest,
        policy_digest: PolicyDigest,
        binding_digest: ApprovalBindingDigest,
    },
    ApprovalRequired { requirement: ApprovalRequirement },
    Denied { reason: DenialReason },
}

/// The decision in outline: a denial with its reason, an allowance, or an
/// approval requirement with its longest approval lifetime.
pub enum Verdict {
    Denied(DenialReason),
    Allowed,
    ApprovalRequired(u64),
}

/// Some valid grant of the policy matches the action.
pub open spec fn some_grant_authorizes(g: Seq<CapabilityScope>, a: ActionProposal) -> bool {
    exists|i: int| 0 <= i < g.len() && scope_authorizes(#[trigger] g[i], a)
}

/// The authorization rule. The first check that fails denies the action:
/// its shape, the policy, the broker state, its time window, project trust,
/// the project state, a host grant, a rule for its capability kind; a
/// remaining action whose canonical form is too large is invalid. A rule that
/// allows without approval allows; one that requires approval requires it for
/// at most the smaller of the rule's and the policy's approval lifetime.
pub open spec fn verdict(a: ActionProposal, p: EffectivePolicy, s: ExecutionState, now: u64) -> Verdict {
    if shape_check(a) is Err {
        Verdict::Denied(DenialReason::InvalidAction)
    } else if policy_check(p) is Err {
        Verdict::Denied(DenialReason::InvalidPolicy)
    } else if !state_ok_for(s, a) {
        Verdict::Denied(DenialReason::InvalidExecutionState)
    } else if now < a.created_at_unix_ms || now >= a.expires_at_unix_ms {
        Verdict::Denied(DenialReason::Expired)
    } else {
        match trusted_state(p.trusted_projects@, a.project_id@) {
            None => Verdict::Denied(DenialReason::UntrustedProject),
            Some(t) => if t@ != s.project_state@ {
                Verdict::Denied(DenialReason::ProjectStateDrift)
            } else if !some_grant_authorizes(p.grants@, a) {
                Verdict::Denied(DenialReason::NoCapabilityGrant)
            } else {
                match rule_for(p.rules, scope_kind(a.requested_capability)) {
                    None => Verdict::Denied(DenialReason::NoPolicyRule),
                    Some(RuleDecision::Deny) => Verdict::Denied(DenialReason::RuleDenied),
                    Some(rule) => if action_canonical(a) is Err {
                        Verdict::Denied(DenialReason::InvalidAction)
                    } else {
                        match rule {
                            RuleDecision::RequireApproval { max_ttl_ms } => Verdict::ApprovalRequired(
                                if p.max_approval_ttl_ms <= max_ttl_ms {
                                    p.max_approval_ttl_ms
                                } else {
                                    max_ttl_ms
                                },
                            ),
                            _ => Verdict::Allowed,
                        }
                    },
                }
            },
        }
    }
}

/// The decision for an action: the verdict, with the action, policy and
/// binding digests it is bound to.
pub open spec fn decision_matches(
    r: PolicyDecision,
    a: ActionProposal,
    p: EffectivePolicy,
    s: ExecutionState,
    now: u64,
) -> bool {
    match r {
        PolicyDecision::Denied { reason } => verdict(a, p, s, now) == Verdict::Denied(reason),
        PolicyDecision::AllowedWithoutApproval { action_digest, policy_digest, binding_digest } => {
            &&& verdict(a, p, s, now) == Verdict::Allowed
            &&& action_digest@ == action_digest_text(a)
            &&& policy_digest@ == policy_digest_text(p)
            &&& binding_digest@ == binding_digest_text(action_digest_text(a), policy_digest_text(p), s)
        },
        PolicyDecision::ApprovalRequired { requirement } => {
            &&& verdict(a, p, s, now) == Verdict::ApprovalRequired(requirement.max_ttl_ms)
            &&& requirement.action_id@ == a.action_id@
            &&& requirement.action_digest@ == action_digest_text(a)
            &&& requirement.policy_digest@ == policy_digest_text(p)
            &&& requirement.binding_digest@ == binding_digest_text(action_digest_text(a), policy_digest_text(p), s)
            &&& requirement.action_created_at_unix_ms == a.created_at_unix_ms
            &&& requirement.action_expires_at_unix_ms == a.expires_at_unix_ms
        },
    }
}

fn any_grant_authorizes(grants: &GrantSet, action: &ActionProposal) -> (r: bool)
    ensures
        r == some_grant_authorizes(grants@, *action),
{
    let mut i: usize = 0;
    while i < grants.len()
        invariant
            i <= grants@.len(),
            forall|j: int| 0 <= j < i ==> !scope_authorizes(#[trigger] grants@[j], *action),
        decreases grants@.len() - i,
    {
        if grants.get(i).authorizes(action) {
            return true;
        }
        i = i + 1;
    }
    false
}

/// Evaluates an action against the effective policy and fresh broker state.
pub fn evaluate_action(
    action: &ActionProposal,
    policy: &EffectivePolicy,
    state: &ExecutionState,
    now_unix_ms: u64,
) -> (r: PolicyDecision)
    ensures
        decision_matches(r, *action, *policy, *state, now_unix_ms),
{
    if action.validate_shape().is_err() {
        return PolicyDecision::Denied { reason: DenialReason::InvalidAction };
    }
    if policy.validate().is_err() {
        return PolicyDecision::Denied { reason: DenialReason::InvalidPolicy };
    }
    if !state.validate_for(action) {
        return PolicyDecision::Denied { reason: DenialReason::InvalidExecutionState };
    }
    if now_unix_ms < action.created_at_unix_ms || now_unix_ms >= action.expires_at_unix_ms {
        return PolicyDecision::Denied { reason: DenialReason::Expired };
    }
    let trusted = match policy.trusted_projects.get(&action.project_id) {
        None => {
            return PolicyDecision::Denied { reason: DenialReason::UntrustedProject };
        },
        Some(t) => t,
    };
    if !trusted.same_as(&state.project_state) {
        return PolicyDecision::Denied { reason: DenialReason::ProjectStateDrift };
    }
    if !any_grant_authorizes(&policy.grants, action) {
        return PolicyDecision::Denied { reason: DenialReason::NoCapabilityGrant };
    }
    let rule = match policy.rules.get(action.requested_capability.kind()) {
        None => {
            return PolicyDecision::Denied { reason: DenialReason::NoPolicyRule };
        },
        Some(rule) => rule,
    };
    match rule {
        RuleDecision::Deny => {
            return PolicyDecision::Denied { reason: DenialReason::RuleDenied };
        },
        _ => {},
    }
    let action_digest = match action.digest() {
        Err(_) => {
            return PolicyDecision::Denied { reason: DenialReason::InvalidAction };
        },
        Ok(d) => d,
    };
    let policy_digest = match policy.digest() {
        Err(_) => {
            return PolicyDecision::Denied { reason: DenialReason::InvalidPolicy };
        },
        Ok(d) => d,
    };
    let binding_digest = match state.binding_digest(&action_digest, &policy_digest) {
        Err(_) => {
            return PolicyDecision::Denied { reason: DenialReason::InvalidExecutionState };
        },
        Ok(d) => d,
    };
    match rule {
        RuleDecision::AllowWithoutApproval => PolicyDecision::AllowedWithoutApproval {
            action_digest,
            policy_digest,
            binding_digest,
        },
        RuleDecision::RequireApproval { max_ttl_ms } => {
            let ttl = if policy.max_approval_ttl_ms <= max_ttl_ms {
                policy.max_approval_ttl_ms
            } else {
                max_ttl_ms
            };
            PolicyDecision::ApprovalRequired {
                requirement: ApprovalRequirement {
                    action_id: action.action_id.clone(),
                    action_digest,
                    policy_digest,
                    binding_digest,
                    max_ttl_ms: ttl,
                    action_created_at_unix_ms: action.created_at_unix_ms,
                    action_expires_at_unix_ms: action.expires_at_unix_ms,
                },
            }
        },
        RuleDecision::Deny => PolicyDecision::Denied { reason: DenialReason::RuleDenied },
    }
}

/// An action is allowed or sent for approval only if some valid grant issued
/// by the host in the policy authorizes it, the project is trusted at the
/// fresh project state, and the time lies in the action's lifetime: an
/// action's own requested capability never grants it authority.
pub proof fn lemma_authority_comes_from_host_grants(
    a: ActionProposal,
    p: EffectivePolicy,
    s: ExecutionState,
    now: u64,
)
    requires
        !(verdict(a, p, s, now) is Denied),
    ensures
        some_grant_authorizes(p.grants@, a),
        trusted_state(p.trusted_projects@, a.project_id@) matches Some(t) && t@ == s.project_state@,
        a.created_at_unix_ms <= now < a.expires_at_unix_ms,
        shape_check(a) is Ok,
        policy_check(p) is Ok,
        state_ok_for(s, a),
{
}

/// Only reads can be allowed without approval.
pub proof fn lemma_only_reads_skip_approval(a: ActionProposal, p: EffectivePolicy, s: ExecutionState, now: u64)
    requires
        verdict(a, p, s, now) == Verdict::Allowed,
    ensures
        scope_kind(a.requested_capability) == CapabilityKind::ProjectRead,
        a.operation is ReadFiles,
{
    let k = scope_kind(a.requested_capability);
    assert(rule_for(p.rules, k) == Some(RuleDecision::AllowWithoutApproval));
    assert(rules_ok(p.rules));
    assert(rule_ok(k, RuleDecision::AllowWithoutApproval));
}

/// An approval requirement never allows an approval to outlive the policy's
/// longest approval lifetime, nor five minutes.
pub proof fn lemma_approval_lifetime_bounded(a: ActionProposal, p: EffectivePolicy, s: ExecutionState, now: u64, ttl: u64)
    requires
        verdict(a, p, s, now) == Verdict::ApprovalRequired(ttl),
    ensures
        0 < ttl <= p.max_approval_ttl_ms <= MAX_ACTION_TTL_MS,
{
    let k = scope_kind(a.requested_capability);
    assert(rules_ok(p.rules));
    let rule = rule_for(p.rules, k)->Some_0;
    assert(rule_ok(k, rule));
}

/// A policy without grants denies every action.
pub proof fn lemma_no_grants_denies(a: ActionProposal, p: EffectivePolicy, s: ExecutionState, now: u64)
    requires
        p.grants@.len() == 0,
    ensures
        verdict(a, p, s, now) is Denied,
{
}

/// Outside the action's lifetime every action is denied.
pub proof fn lemma_outside_lifetime_denies(a: ActionProposal, p: EffectivePolicy, s: ExecutionState, now: u64)
    requires
        now < a.created_at_unix_ms || now >= a.expires_at_unix_ms,
    ensures
        verdict(a, p, s, now) is Denied,
{
}

/// The verdict does not depend on the time inside the action's lifetime.
pub proof fn lemma_verdict_stable_in_lifetime(
    a: ActionProposal,
    p: EffectivePolicy,
    s: ExecutionState,
    t1: u64,
    t2: u64,
)
    requires
        a.created_at_unix_ms <= t1 < a.expires_at_unix_ms,
        a.created_at_unix_ms <= t2 < a.expires_at_unix_ms,
    ensures
        verdict(a, p, s, t1) == verdict(a, p, s, t2),
{
}

/// A broker command is allowed or sent for approval only under a valid host
/// grant for its own project, run, worktree and catalog entry; when the
/// policy holds no grant for the operation's catalog entry, an action that
/// passes the earlier checks is denied for want of a grant.
pub proof fn lemma_broker_command_needs_its_catalog_entry(
    a: ActionProposal,
    p: EffectivePolicy,
    s: ExecutionState,
    now: u64,
)
    requires
        a.operation is RunBrokerCommand,
    ensures
        !(verdict(a, p, s, now) is Denied) ==> exists|i: int|
            0 <= i < p.grants@.len() && (#[trigger] p.grants@[i] matches CapabilityScope::BrokerCommand {
                project_id,
                run_id,
                worktree_id,
                catalog_entry_id,
            } && project_id@ == a.project_id@ && run_id@ == a.run_id@ && worktree_id@
                == a.operation->RunBrokerCommand_worktree_id@ && catalog_entry_id@
                == a.operation->RunBrokerCommand_catalog_entry_id@),
        (forall|i: int|
            0 <= i < p.grants@.len() ==> !(#[trigger] p.grants@[i] matches CapabilityScope::BrokerCommand {
                catalog_entry_id,
                ..
            } && catalog_entry_id@ == a.operation->RunBrokerCommand_catalog_entry_id@))
            && shape_check(a) is Ok && policy_check(p) is Ok && state_ok_for(s, a)
            && a.created_at_unix_ms <= now < a.expires_at_unix_ms && (trusted_state(
            p.trusted_projects@,
            a.project_id@,
        ) matches Some(t) && t@ == s.project_state@) ==> verdict(a, p, s, now) == Verdict::Denied(
            DenialReason::NoCapabilityGrant,
        ),
{
    if !(verdict(a, p, s, now) is Denied) {
        lemma_authority_comes_from_host_grants(a, p, s, now);
        let i = choose|i: int| 0 <= i < p.grants@.len() && scope_authorizes(#[trigger] p.grants@[i], a);
        crate::action::lemma_grant_names_what_the_action_does(p.grants@[i], a);
        assert(p.grants@[i] is BrokerCommand);
    }
    if forall|i: int|
        0 <= i < p.grants@.len() ==> !(#[trigger] p.grants@[i] matches CapabilityScope::BrokerCommand {
            catalog_entry_id,
            ..
        } && catalog_entry_id@ == a.operation->RunBrokerCommand_catalog_entry_id@) {
        assert forall|i: int| 0 <= i < p.grants@.len() implies !scope_authorizes(#[trigger] p.grants@[i], a) by {
            if scope_authorizes(p.grants@[i], a) {
                crate::action::lemma_grant_names_what_the_action_does(p.grants@[i], a);
            }
        }
        assert(!some_grant_authorizes(p.grants@, a));
    }
}

/// Which rules a policy may hold: a denial for any capability kind, an
/// allowance without approval only for reads, and an approval requirement
/// whose lifetime is at least one millisecond and at most five minutes.
pub proof fn lemma_rule_table(k: CapabilityKind, ttl: u64)
    ensures
        rule_ok(k, RuleDecision::Deny),
        rule_ok(k, RuleDecision::AllowWithoutApproval) <==> k == CapabilityKind::ProjectRead,
        rule_ok(k, RuleDecision::RequireApproval { max_ttl_ms: ttl }) <==> 1 <= ttl <= 300_000,
{
}

/// Denying a capability never makes rules invalid: valid rules in which one
/// kind's rule is set to a denial, the others unchanged, stay valid, and
/// rules that only deny are valid.
pub proof fn lemma_denials_keep_rules_valid(m: RuleMap, n: RuleMap, k: CapabilityKind)
    ensures
        rules_ok(m) && rule_for(n, k) == Some(RuleDecision::Deny) && (forall|j: CapabilityKind|
            j != k ==> #[trigger] rule_for(n, j) == rule_for(m, j)) ==> rules_ok(n),
        (forall|j: CapabilityKind| #[trigger] rule_for(n, j) is None || rule_for(n, j) == Some(RuleDecision::Deny))
            ==> rules_ok(n),
{
    assert(rule_count(n) <= MAX_CAPABILITY_RULES);
    if rules_ok(m) && rule_for(n, k) == Some(RuleDecision::Deny) && (forall|j: CapabilityKind|
        j != k ==> #[trigger] rule_for(n, j) == rule_for(m, j)) {
        assert forall|j: CapabilityKind| #[trigger] rule_for(n, j) is Some implies rule_ok(j, rule_for(n, j)->Some_0) by {
            if j != k {
                assert(rule_for(m, j) == rule_for(n, j));
            }
        }
    }
}

/// The rule for the requested capability decides what a granted action
/// gets: an allowance only under an allowance rule, an approval requirement
/// only under an approval rule, for the shorter of the rule's and the
/// policy's approval lifetimes, and a denial rule denies.
pub proof fn lemma_rule_decides_the_outcome(a: ActionProposal, p: EffectivePolicy, s: ExecutionState, now: u64)
    ensures
        verdict(a, p, s, now) == Verdict::Allowed ==> rule_for(p.rules, scope_kind(a.requested_capability))
            == Some(RuleDecision::AllowWithoutApproval),
        verdict(a, p, s, now) matches Verdict::ApprovalRequired(ttl) ==> (rule_for(
            p.rules,
            scope_kind(a.requested_capability),
        ) matches Some(RuleDecision::RequireApproval { max_ttl_ms: m }) && ttl <= m && ttl
            <= p.max_approval_ttl_ms && (ttl == m || ttl == p.max_approval_ttl_ms)),
        !(verdict(a, p, s, now) is Denied) ==> rule_for(p.rules, scope_kind(a.requested_capability))
            != Some(RuleDecision::Deny),
{
}

} // verus!
