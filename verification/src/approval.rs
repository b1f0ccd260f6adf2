//! Human approvals of actions and their verification against fresh state.
use vstd::prelude::*;
use crate::action::{action_canonical, action_domain, id_ok, sb, validate_id, ActionProposal};
use crate::json::json_text;
use crate::canonical::{is_sha256_text, lemma_digest_text_is_sha256, ActionDigest, ApprovalBindingDigest, PolicyDigest};
use crate::engine::{
    action_digest_text, binding_digest_text, decision_matches, evaluate_action, policy_digest_text, verdict,
    lemma_verdict_stable_in_lifetime, ApprovalRequirement, EffectivePolicy, binding_domain, policy_domain, binding_json, policy_json, ExecutionState, PolicyDecision, Verdict,
};

verus! {

/// What the approver decided.
#[derive(Debug, Clone, Copy, PartialEq, Eq, Structural)]
pub enum ApprovalDecision {
    Approved,
    Denied,
}

/// Whether an approval can still be used.
#[derive(Debug, Clone, Copy, PartialEq, Eq, Structural)]
pub enum ApprovalStatus {
    Unused,
    Consumed,
    Revoked,
}

/// An approval of one action, bound to its digests and a time window.
#[derive(Debug, Clone, PartialEq, Eq)]
pub struct ApprovalGrant {
    pub approval_id: String,
    pub action_id: String,
    pub actor_id: String,
    pub decision: ApprovalDecision,
    pub status: ApprovalStatus,
    pub action_digest: ActionDigest,
    pub policy_digest: PolicyDigest,
    pub binding_digest: ApprovalBindingDigest,
    pub issued_at_unix_ms: u64,
    pub expires_at_unix_ms: u64,
}

/// An action that a verified approval authorizes.
#[derive(Debug, Clone, PartialEq, Eq)]
pub struct AuthorizedAction {
    pub approval_id: String,
    pub action_id: String,
    pub binding_digest: ApprovalBindingDigest,
}

/// Why an approval is refused.
#[derive(Debug, Clone, Copy, PartialEq, Eq, Structural)]
pub enum ApprovalError {
    InvalidIdentity,
    InvalidLifetime,
    Denied,
    NotUnused,
    RequirementChanged,
    InvalidTimeWindow,
}

/// An approval or actor identity: the identifier rule.
pub open spec fn identity_ok(value: Seq<char>) -> bool {
    id_ok(vstd::utf8::encode_utf8(value))
}

fn valid_identity(value: &str) -> (r: bool)
    ensures
        r == identity_ok(value@),
{
    validate_id(value, "identity").is_ok()
}

/// The checks of an approval being issued, in order.
pub open spec fn approve_check(
    req: ApprovalRequirement,
    approval_id: Seq<char>,
    actor_id: Seq<char>,
    issued: u64,
    ttl: u64,
) -> Result<(), ApprovalError> {
    if !identity_ok(approval_id) || !identity_ok(actor_id) {
        Err(ApprovalError::InvalidIdentity)
    } else if issued + ttl > u64::MAX {
        Err(ApprovalError::InvalidLifetime)
    } else if ttl == 0 || ttl > req.max_ttl_ms || issued < req.action_created_at_unix_ms || issued
        >= req.action_expires_at_unix_ms || issued + ttl > req.action_expires_at_unix_ms {
        Err(ApprovalError::InvalidLifetime)
    } else {
        Ok(())
    }
}

/// The approval issued for a requirement.
pub open spec fn issued_approval(
    g: ApprovalGrant,
    req: ApprovalRequirement,
    approval_id: Seq<char>,
    actor_id: Seq<char>,
    issued: u64,
    ttl: u64,
) -> bool {
    &&& g.approval_id@ == approval_id
    &&& g.action_id@ == req.action_id@
    &&& g.actor_id@ == actor_id
    &&& g.decision == ApprovalDecision::Approved
    &&& g.status == ApprovalStatus::Unused
    &&& g.action_digest@ == req.action_digest@
    &&& g.policy_digest@ == req.policy_digest@
    &&& g.binding_digest@ == req.binding_digest@
    &&& g.issued_at_unix_ms == issued
    &&& g.expires_at_unix_ms == issued + ttl
}

impl ApprovalGrant {
    /// Issues an unused approval of a requirement for `ttl_ms` from
    /// `issued_at_unix_ms`, inside the action's lifetime and no longer than
    /// the requirement allows.
    pub fn approve(
        requirement: &ApprovalRequirement,
        approval_id: String,
        actor_id: String,
        issued_at_unix_ms: u64,
        ttl_ms: u64,
    ) -> (r: Result<Self, ApprovalError>)
        ensures
            match r {
                Ok(g) => approve_check(*requirement, approval_id@, actor_id@, issued_at_unix_ms, ttl_ms) is Ok
                    && issued_approval(g, *requirement, approval_id@, actor_id@, issued_at_unix_ms, ttl_ms),
                Err(e) => approve_check(*requirement, approval_id@, actor_id@, issued_at_unix_ms, ttl_ms)
                    == Err::<(), ApprovalError>(e),
            },
    {
        if !valid_identity(approval_id.as_str()) || !valid_identity(actor_id.as_str()) {
            return Err(ApprovalError::InvalidIdentity);
        }
        let expires_at_unix_ms = match issued_at_unix_ms.checked_add(ttl_ms) {
            None => {
                return Err(ApprovalError::InvalidLifetime);
            },
            Some(e) => e,
        };
        if ttl_ms == 0 || ttl_ms > requirement.max_ttl_ms || issued_at_unix_ms
            < requirement.action_created_at_unix_ms || issued_at_unix_ms
            >= requirement.action_expires_at_unix_ms || expires_at_unix_ms
            > requirement.action_expires_at_unix_ms {
            return Err(ApprovalError::InvalidLifetime);
        }
        Ok(ApprovalGrant {
            approval_id,
            action_id: requirement.action_id.clone(),
            actor_id,
            decision: ApprovalDecision::Approved,
            status: ApprovalStatus::Unused,
            action_digest: requirement.action_digest.duplicate(),
            policy_digest: requirement.policy_digest.duplicate(),
            binding_digest: requirement.binding_digest.duplicate(),
            issued_at_unix_ms,
            expires_at_unix_ms,
        })
    }
}

/// The approval is bound to exactly the fresh requirement of the action: its
/// window lies inside the action's lifetime and is at most `ttl` long, and its
/// digests are the action's, the policy's and the fresh binding's.
pub open spec fn approval_bound(
    g: ApprovalGrant,
    a: ActionProposal,
    p: EffectivePolicy,
    s: ExecutionState,
    ttl: u64,
) -> bool {
    &&& g.expires_at_unix_ms > g.issued_at_unix_ms
    &&& g.expires_at_unix_ms - g.issued_at_unix_ms <= ttl
    &&& g.issued_at_unix_ms >= a.created_at_unix_ms
    &&& g.expires_at_unix_ms <= a.expires_at_unix_ms
    &&& g.action_id@ == a.action_id@
    &&& g.action_digest@ == action_digest_text(a)
    &&& g.policy_digest@ == policy_digest_text(p)
    &&& g.binding_digest@ == binding_digest_text(action_digest_text(a), policy_digest_text(p), s)
    &&& is_sha256_text(g.action_digest@)
    &&& is_sha256_text(g.policy_digest@)
    &&& is_sha256_text(g.binding_digest@)
}

/// The checks of an approval at use, in order.
pub open spec fn verify_check(
    a: ActionProposal,
    p: EffectivePolicy,
    s: ExecutionState,
    g: ApprovalGrant,
    now: u64,
) -> Result<(), ApprovalError> {
    if g.decision != ApprovalDecision::Approved {
        Err(ApprovalError::Denied)
    } else if !identity_ok(g.approval_id@) || !identity_ok(g.actor_id@) {
        Err(ApprovalError::InvalidIdentity)
    } else if g.status != ApprovalStatus::Unused {
        Err(ApprovalError::NotUnused)
    } else if now < g.issued_at_unix_ms || now >= g.expires_at_unix_ms {
        Err(ApprovalError::InvalidTimeWindow)
    } else {
        match verdict(a, p, s, now) {
            Verdict::ApprovalRequired(ttl) => if approval_bound(g, a, p, s, ttl) {
                Ok(())
            } else {
                Err(ApprovalError::RequirementChanged)
            },
            _ => Err(ApprovalError::RequirementChanged),
        }
    }
}

/// Verifies an approval against the action, the policy and fresh broker
/// state at `now_unix_ms`.
pub fn verify_approval(
    action: &ActionProposal,
    policy: &EffectivePolicy,
    fresh_state: &ExecutionState,
    approval: &ApprovalGrant,
    now_unix_ms: u64,
) -> (r: Result<AuthorizedAction, ApprovalError>)
    ensures
        match r {
            Ok(auth) => {
                &&& verify_check(*action, *policy, *fresh_state, *approval, now_unix_ms) is Ok
                &&& auth.approval_id@ == approval.approval_id@
                &&& auth.action_id@ == approval.action_id@
                &&& auth.binding_digest@ == approval.binding_digest@
            },
            Err(e) => verify_check(*action, *policy, *fresh_state, *approval, now_unix_ms) == Err::<
                (),
                ApprovalError,
            >(e),
        },
{
    if approval.decision != ApprovalDecision::Approved {
        return Err(ApprovalError::Denied);
    }
    if !valid_identity(approval.approval_id.as_str()) || !valid_identity(approval.actor_id.as_str()) {
        return Err(ApprovalError::InvalidIdentity);
    }
    if approval.status != ApprovalStatus::Unused {
        return Err(ApprovalError::NotUnused);
    }
    if now_unix_ms < approval.issued_at_unix_ms || now_unix_ms >= approval.expires_at_unix_ms {
        return Err(ApprovalError::InvalidTimeWindow);
    }
    let requirement = match evaluate_action(action, policy, fresh_state, now_unix_ms) {
        PolicyDecision::ApprovalRequired { requirement } => requirement,
        _ => {
            return Err(ApprovalError::RequirementChanged);
        },
    };
    if approval.expires_at_unix_ms <= approval.issued_at_unix_ms || approval.expires_at_unix_ms
        - approval.issued_at_unix_ms > requirement.max_ttl_ms || approval.issued_at_unix_ms
        < requirement.action_created_at_unix_ms || approval.expires_at_unix_ms
        > requirement.action_expires_at_unix_ms || approval.action_id != requirement.action_id
        || !approval.action_digest.same_as(&requirement.action_digest)
        || !approval.policy_digest.same_as(&requirement.policy_digest)
        || !approval.binding_digest.same_as(&requirement.binding_digest)
        || !approval.action_digest.is_valid() || !approval.policy_digest.is_valid()
        || !approval.binding_digest.is_valid() {
        return Err(ApprovalError::RequirementChanged);
    }
    Ok(AuthorizedAction {
        approval_id: approval.approval_id.clone(),
        action_id: approval.action_id.clone(),
        binding_digest: approval.binding_digest.duplicate(),
    })
}

/// An approval issued for the requirement that the policy engine stated for
/// an action is accepted, at any time inside the approval's window, for the
/// same action, policy and broker state.
pub proof fn lemma_approval_round_trip(
    a: ActionProposal,
    p: EffectivePolicy,
    s: ExecutionState,
    evaluated_at: u64,
    req: ApprovalRequirement,
    approval_id: Seq<char>,
    actor_id: Seq<char>,
    issued: u64,
    ttl: u64,
    g: ApprovalGrant,
    now: u64,
)
    requires
        decision_matches(PolicyDecision::ApprovalRequired { requirement: req }, a, p, s, evaluated_at),
        approve_check(req, approval_id, actor_id, issued, ttl) is Ok,
        issued_approval(g, req, approval_id, actor_id, issued, ttl),
        issued <= now < issued + ttl,
    ensures
        verify_check(a, p, s, g, now) is Ok,
{
    assert(a.created_at_unix_ms <= evaluated_at < a.expires_at_unix_ms);
    lemma_verdict_stable_in_lifetime(a, p, s, evaluated_at, now);
    lemma_digest_text_is_sha256(action_domain() + action_canonical(a)->Ok_0);
    lemma_digest_text_is_sha256(policy_domain() + json_text(policy_json(p)));
    lemma_digest_text_is_sha256(
        binding_domain() + json_text(binding_json(action_digest_text(a), policy_digest_text(p), s)),
    );
}

/// A verified approval is an unused approval whose window contains the time
/// of use, and it is bound to the action's digest, the policy's digest and
/// the binding of the fresh broker state.
pub proof fn lemma_verified_approval_is_bound(
    a: ActionProposal,
    p: EffectivePolicy,
    s: ExecutionState,
    g: ApprovalGrant,
    now: u64,
)
    requires
        verify_check(a, p, s, g, now) is Ok,
    ensures
        g.decision == ApprovalDecision::Approved,
        g.status == ApprovalStatus::Unused,
        g.issued_at_unix_ms <= now < g.expires_at_unix_ms,
        g.action_digest@ == action_digest_text(a),
        g.policy_digest@ == policy_digest_text(p),
        g.binding_digest@ == binding_digest_text(action_digest_text(a), policy_digest_text(p), s),
        verdict(a, p, s, now) is ApprovalRequired,
{
}

/// An approval that has been consumed or revoked is never accepted again.
pub proof fn lemma_used_approval_refused(
    a: ActionProposal,
    p: EffectivePolicy,
    s: ExecutionState,
    g: ApprovalGrant,
    now: u64,
)
    requires
        g.status != ApprovalStatus::Unused,
    ensures
        verify_check(a, p, s, g, now) is Err,
{
}

} // verus!
