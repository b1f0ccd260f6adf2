//! The store's commands, aggregates and their validation.
use vstd::prelude::*;
use vstd::utf8::encode_utf8;
use crate::bytes::{has_control, has_pair, contains_control, contains_pair};
use crate::error::StoreError;
use crate::canonical::{hex_text, is_sha256, is_sha256_bytes};
use crate::bytes::bytes_eq;
use crate::action::then_check;

verus! {

/// The only command schema this store accepts.
pub const COMMAND_SCHEMA_VERSION: u16 = 1;

/// The largest integer that a JSON number holds exactly.
pub const MAX_SAFE_JSON_INTEGER: u64 = 9_007_199_254_740_991;

/// Who issued a command.
#[derive(Debug, Clone, Copy, PartialEq, Eq, Structural)]
pub enum ActorKind {
    User,
    System,
}

/// The text under which a `ActorKind` is stored.
pub open spec fn actor_kind_text(x: ActorKind) -> Seq<char> {
    match x {
        ActorKind::User => "user"@,
        ActorKind::System => "system"@,
    }
}

/// The `ActorKind` stored under the text `s`.
pub open spec fn actor_kind_from_text(s: Seq<char>) -> Option<ActorKind> {
    if s == "user"@ {
        Some(ActorKind::User)
    } else if s == "system"@ {
        Some(ActorKind::System)
    } else {
        None
    }
}

impl ActorKind {
    /// The stored text.
    pub fn as_str(&self) -> (r: &'static str)
        ensures
            r@ == actor_kind_text(*self),
    {
        match self {
            ActorKind::User => "user",
            ActorKind::System => "system",
        }
    }
}

/// Reading back the stored text of a `ActorKind` gives the same value.
pub proof fn lemma_actor_kind_text_round_trip(x: ActorKind)
    ensures
        actor_kind_from_text(actor_kind_text(x)) == Some(x),
{
    reveal_strlit("user");
    reveal_strlit("system");
    assert("user"@.len() != "system"@.len());
}

/// How the policy engine let a side effect through.
#[derive(Debug, Clone, Copy, PartialEq, Eq, Structural)]
pub enum PolicyDecision {
    Allowed,
    Approved,
}

/// The text under which a `PolicyDecision` is stored.
pub open spec fn policy_decision_text(x: PolicyDecision) -> Seq<char> {
    match x {
        PolicyDecision::Allowed => "allowed"@,
        PolicyDecision::Approved => "approved"@,
    }
}

/// The `PolicyDecision` stored under the text `s`.
pub open spec fn policy_decision_from_text(s: Seq<char>) -> Option<PolicyDecision> {
    if s == "allowed"@ {
        Some(PolicyDecision::Allowed)
    } else if s == "approved"@ {
        Some(PolicyDecision::Approved)
    } else {
        None
    }
}

impl PolicyDecision {
    /// The stored text.
    pub fn as_str(&self) -> (r: &'static str)
        ensures
            r@ == policy_decision_text(*self),
    {
        match self {
            PolicyDecision::Allowed => "allowed",
            PolicyDecision::Approved => "approved",
        }
    }

    /// Reads a stored text back; any other text is an integrity failure.
    pub fn parse(value: &str) -> (r: Result<Self, StoreError>)
        ensures
            match policy_decision_from_text(value@) {
                Some(x) => r == Ok::<Self, StoreError>(x),
                None => r matches Err(StoreError::IntegrityFailure(m)) && m@ == "invalid audit policy decision"@,
            },
    {
        if str_eq(value, "allowed") {
            return Ok(PolicyDecision::Allowed);
        }
        if str_eq(value, "approved") {
            return Ok(PolicyDecision::Approved);
        }
        Err(StoreError::IntegrityFailure("invalid audit policy decision".to_owned()))
    }
}

/// Reading back the stored text of a `PolicyDecision` gives the same value.
pub proof fn lemma_policy_decision_text_round_trip(x: PolicyDecision)
    ensures
        policy_decision_from_text(policy_decision_text(x)) == Some(x),
{
    reveal_strlit("allowed");
    reveal_strlit("approved");
    assert("allowed"@.len() != "approved"@.len());
}

/// The outcome an audit record states.
#[derive(Debug, Clone, Copy, PartialEq, Eq, Structural)]
pub enum AuditResultClass {
    Succeeded,
    Failed,
    Authorized,
    Started,
    Unknown,
}

/// The text under which a `AuditResultClass` is stored.
pub open spec fn audit_result_class_text(x: AuditResultClass) -> Seq<char> {
    match x {
        AuditResultClass::Succeeded => "succeeded"@,
        AuditResultClass::Failed => "failed"@,
        AuditResultClass::Authorized => "authorized"@,
        AuditResultClass::Started => "started"@,
        AuditResultClass::Unknown => "unknown"@,
    }
}

/// The `AuditResultClass` stored under the text `s`.
pub open spec fn audit_result_class_from_text(s: Seq<char>) -> Option<AuditResultClass> {
    if s == "succeeded"@ {
        Some(AuditResultClass::Succeeded)
    } else if s == "failed"@ {
        Some(AuditResultClass::Failed)
    } else if s == "authorized"@ {
        Some(AuditResultClass::Authorized)
    } else if s == "started"@ {
        Some(AuditResultClass::Started)
    } else if s == "unknown"@ {
        Some(AuditResultClass::Unknown)
    } else {
        None
    }
}

impl AuditResultClass {
    /// The stored text.
    pub fn as_str(&self) -> (r: &'static str)
        ensures
            r@ == audit_result_class_text(*self),
    {
        match self {
            AuditResultClass::Succeeded => "succeeded",
            AuditResultClass::Failed => "failed",
            AuditResultClass::Authorized => "authorized",
            AuditResultClass::Started => "started",
            AuditResultClass::Unknown => "unknown",
        }
    }

    /// Reads a stored text back; any other text is an integrity failure.
    pub fn parse(value: &str) -> (r: Result<Self, StoreError>)
        ensures
            match audit_result_class_from_text(value@) {
                Some(x) => r == Ok::<Self, StoreError>(x),
                None => r matches Err(StoreError::IntegrityFailure(m)) && m@ == "invalid audit result class"@,
            },
    {
        if str_eq(value, "succeeded") {
            return Ok(AuditResultClass::Succeeded);
        }
        if str_eq(value, "failed") {
            return Ok(AuditResultClass::Failed);
        }
        if str_eq(value, "authorized") {
            return Ok(AuditResultClass::Authorized);
        }
        if str_eq(value, "started") {
            return Ok(AuditResultClass::Started);
        }
        if str_eq(value, "unknown") {
            return Ok(AuditResultClass::Unknown);
        }
        Err(StoreError::IntegrityFailure("invalid audit result class".to_owned()))
    }
}

/// Reading back the stored text of a `AuditResultClass` gives the same value.
pub proof fn lemma_audit_result_class_text_round_trip(x: AuditResultClass)
    ensures
        audit_result_class_from_text(audit_result_class_text(x)) == Some(x),
{
    reveal_strlit("succeeded");
    reveal_strlit("failed");
    reveal_strlit("authorized");
    reveal_strlit("started");
    reveal_strlit("unknown");
    assert("succeeded"@.len() != "failed"@.len());
    assert("succeeded"@.len() != "authorized"@.len());
    assert("succeeded"@.len() != "started"@.len());
    assert("succeeded"@.len() != "unknown"@.len());
    assert("failed"@.len() != "authorized"@.len());
    assert("failed"@.len() != "started"@.len());
    assert("failed"@.len() != "unknown"@.len());
    assert("authorized"@.len() != "started"@.len());
    assert("authorized"@.len() != "unknown"@.len());
    assert("started"@[0] != "unknown"@[0]);
}

/// How a finished side effect ended.
#[derive(Debug, Clone, Copy, PartialEq, Eq, Structural)]
pub enum SideEffectResultClass {
    Succeeded,
    Failed,
}

/// The text under which a `SideEffectResultClass` is stored.
pub open spec fn side_effect_result_class_text(x: SideEffectResultClass) -> Seq<char> {
    match x {
        SideEffectResultClass::Succeeded => "succeeded"@,
        SideEffectResultClass::Failed => "failed"@,
    }
}

/// The `SideEffectResultClass` stored under the text `s`.
pub open spec fn side_effect_result_class_from_text(s: Seq<char>) -> Option<SideEffectResultClass> {
    if s == "succeeded"@ {
        Some(SideEffectResultClass::Succeeded)
    } else if s == "failed"@ {
        Some(SideEffectResultClass::Failed)
    } else {
        None
    }
}

impl SideEffectResultClass {
    /// The stored text.
    pub fn as_str(&self) -> (r: &'static str)
        ensures
            r@ == side_effect_result_class_text(*self),
    {
        match self {
            SideEffectResultClass::Succeeded => "succeeded",
            SideEffectResultClass::Failed => "failed",
        }
    }

    /// Reads a stored text back; any other text is an integrity failure.
    pub fn parse(value: &str) -> (r: Result<Self, StoreError>)
        ensures
            match side_effect_result_class_from_text(value@) {
                Some(x) => r == Ok::<Self, StoreError>(x),
                None => r matches Err(StoreError::IntegrityFailure(m)) && m@ == "invalid side-effect result class"@,
            },
    {
        if str_eq(value, "succeeded") {
            return Ok(SideEffectResultClass::Succeeded);
        }
        if str_eq(value, "failed") {
            return Ok(SideEffectResultClass::Failed);
        }
        Err(StoreError::IntegrityFailure("invalid side-effect result class".to_owned()))
    }
}

/// Reading back the stored text of a `SideEffectResultClass` gives the same value.
pub proof fn lemma_side_effect_result_class_text_round_trip(x: SideEffectResultClass)
    ensures
        side_effect_result_class_from_text(side_effect_result_class_text(x)) == Some(x),
{
    reveal_strlit("succeeded");
    reveal_strlit("failed");
    assert("succeeded"@.len() != "failed"@.len());
}

/// Whether the host trusts a project.
#[derive(Debug, Clone, Copy, PartialEq, Eq, Structural)]
pub enum TrustState {
    Untrusted,
    Trusted,
    Revoked,
}

/// The text under which a `TrustState` is stored.
pub open spec fn trust_state_text(x: TrustState) -> Seq<char> {
    match x {
        TrustState::Untrusted => "untrusted"@,
        TrustState::Trusted => "trusted"@,
        TrustState::Revoked => "revoked"@,
    }
}

/// The `TrustState` stored under the text `s`.
pub open spec fn trust_state_from_text(s: Seq<char>) -> Option<TrustState> {
    if s == "untrusted"@ {
        Some(TrustState::Untrusted)
    } else if s == "trusted"@ {
        Some(TrustState::Trusted)
    } else if s == "revoked"@ {
        Some(TrustState::Revoked)
    } else {
        None
    }
}

impl TrustState {
    /// The stored text.
    pub fn as_str(&self) -> (r: &'static str)
        ensures
            r@ == trust_state_text(*self),
    {
        match self {
            TrustState::Untrusted => "untrusted",
            TrustState::Trusted => "trusted",
            TrustState::Revoked => "revoked",
        }
    }

    /// Reads a stored text back; any other text is an integrity failure.
    pub fn parse(value: &str) -> (r: Result<Self, StoreError>)
        ensures
            match trust_state_from_text(value@) {
                Some(x) => r == Ok::<Self, StoreError>(x),
                None => r matches Err(StoreError::IntegrityFailure(m)) && m@ == "invalid project trust state"@,
            },
    {
        if str_eq(value, "untrusted") {
            return Ok(TrustState::Untrusted);
        }
        if str_eq(value, "trusted") {
            return Ok(TrustState::Trusted);
        }
        if str_eq(value, "revoked") {
            return Ok(TrustState::Revoked);
        }
        Err(StoreError::IntegrityFailure("invalid project trust state".to_owned()))
    }
}

/// Reading back the stored text of a `TrustState` gives the same value.
pub proof fn lemma_trust_state_text_round_trip(x: TrustState)
    ensures
        trust_state_from_text(trust_state_text(x)) == Some(x),
{
    reveal_strlit("untrusted");
    reveal_strlit("trusted");
    reveal_strlit("revoked");
    assert("untrusted"@.len() != "trusted"@.len());
    assert("untrusted"@.len() != "revoked"@.len());
    assert("trusted"@[0] != "revoked"@[0]);
}

/// Where a side effect stands: `authorized -> started -> finished`, or `unknown` when a start was interrupted.
#[derive(Debug, Clone, Copy, PartialEq, Eq, Structural)]
pub enum SideEffectPhase {
    Authorized,
    Started,
    Finished,
    Unknown,
}

/// The text under which a `SideEffectPhase` is stored.
pub open spec fn side_effect_phase_text(x: SideEffectPhase) -> Seq<char> {
    match x {
        SideEffectPhase::Authorized => "authorized"@,
        SideEffectPhase::Started => "started"@,
        SideEffectPhase::Finished => "finished"@,
        SideEffectPhase::Unknown => "unknown"@,
    }
}

/// The `SideEffectPhase` stored under the text `s`.
pub open spec fn side_effect_phase_from_text(s: Seq<char>) -> Option<SideEffectPhase> {
    if s == "authorized"@ {
        Some(SideEffectPhase::Authorized)
    } else if s == "started"@ {
        Some(SideEffectPhase::Started)
    } else if s == "finished"@ {
        Some(SideEffectPhase::Finished)
    } else if s == "unknown"@ {
        Some(SideEffectPhase::Unknown)
    } else {
        None
    }
}

impl SideEffectPhase {
    /// The stored text.
    pub fn as_str(&self) -> (r: &'static str)
        ensures
            r@ == side_effect_phase_text(*self),
    {
        match self {
            SideEffectPhase::Authorized => "authorized",
            SideEffectPhase::Started => "started",
            SideEffectPhase::Finished => "finished",
            SideEffectPhase::Unknown => "unknown",
        }
    }

    /// Reads a stored text back; any other text is an integrity failure.
    pub fn parse(value: &str) -> (r: Result<Self, StoreError>)
        ensures
            match side_effect_phase_from_text(value@) {
                Some(x) => r == Ok::<Self, StoreError>(x),
                None => r matches Err(StoreError::IntegrityFailure(m)) && m@ == "invalid side-effect phase"@,
            },
    {
        if str_eq(value, "authorized") {
            return Ok(SideEffectPhase::Authorized);
        }
        if str_eq(value, "started") {
            return Ok(SideEffectPhase::Started);
        }
        if str_eq(value, "finished") {
            return Ok(SideEffectPhase::Finished);
        }
        if str_eq(value, "unknown") {
            return Ok(SideEffectPhase::Unknown);
        }
        Err(StoreError::IntegrityFailure("invalid side-effect phase".to_owned()))
    }
}

/// Reading back the stored text of a `SideEffectPhase` gives the same value.
pub proof fn lemma_side_effect_phase_text_round_trip(x: SideEffectPhase)
    ensures
        side_effect_phase_from_text(side_effect_phase_text(x)) == Some(x),
{
    reveal_strlit("authorized");
    reveal_strlit("started");
    reveal_strlit("finished");
    reveal_strlit("unknown");
    assert("authorized"@.len() != "started"@.len());
    assert("authorized"@.len() != "finished"@.len());
    assert("authorized"@.len() != "unknown"@.len());
    assert("started"@.len() != "finished"@.len());
    assert("started"@[0] != "unknown"@[0]);
    assert("finished"@.len() != "unknown"@.len());
}

/// `char::is_whitespace`: the characters with the Unicode `White_Space` property.
pub open spec fn is_whitespace(c: char) -> bool {
    let u = c as u32;
    ||| 0x09 <= u <= 0x0d
    ||| u == 0x20
    ||| u == 0x85
    ||| u == 0xa0
    ||| u == 0x1680
    ||| 0x2000 <= u <= 0x200a
    ||| u == 0x2028
    ||| u == 0x2029
    ||| u == 0x202f
    ||| u == 0x205f
    ||| u == 0x3000
}

/// Every character of `s` is whitespace, so that `trim` leaves nothing.
pub open spec fn blank(s: Seq<char>) -> bool {
    forall|i: int| 0 <= i < s.len() ==> is_whitespace(#[trigger] s[i])
}

fn char_is_whitespace(c: char) -> (r: bool)
    ensures
        r == is_whitespace(c),
{
    let u = c as u32;
    (0x09 <= u && u <= 0x0d) || u == 0x20 || u == 0x85 || u == 0xa0 || u == 0x1680 || (0x2000
        <= u && u <= 0x200a) || u == 0x2028 || u == 0x2029 || u == 0x202f || u == 0x205f || u
        == 0x3000
}

/// The number of characters of `value` and whether all of them are whitespace.
fn char_count_and_blank(value: &str) -> (r: (usize, bool))
    ensures
        r.0 == value@.len(),
        r.1 == blank(value@),
{
    proof {
        vstd::string::axiom_spec_iter(value);
    }
    let n = value.unicode_len();
    let mut count: usize = 0;
    let mut all_blank = true;
    for c in it: value.chars()
        invariant
            it.seq() == value@,
            n == value@.len(),
            count == it.index(),
            all_blank == (forall|i: int| 0 <= i < count ==> is_whitespace(#[trigger] value@[i])),
    {
        if !char_is_whitespace(c) {
            all_blank = false;
        }
        count = count + 1;
    }
    (count, all_blank)
}

/// A non-blank text of at most `max` characters without ASCII control bytes.
pub open spec fn bounded_text_ok(s: Seq<char>, max: nat) -> bool {
    &&& !blank(s)
    &&& s.len() <= max
    &&& !has_control(encode_utf8(s))
}

/// An identifier: 1 to 128 ASCII bytes, none of them a control byte.
pub open spec fn identifier_ok(b: Seq<u8>) -> bool {
    &&& 0 < b.len() <= 128
    &&& forall|i: int| 0 <= i < b.len() ==> #[trigger] b[i] < 0x80
    &&& !has_control(b)
}

/// Checks an identifier field.
pub fn validate_identifier(value: &str, field: &'static str) -> (r: Result<(), StoreError>)
    ensures
        r == (if identifier_ok(encode_utf8(value@)) {
            Ok(())
        } else {
            Err(StoreError::InvalidInput(field))
        }),
{
    let b = value.as_bytes();
    if b.len() == 0 || b.len() > 128 {
        return Err(StoreError::InvalidInput(field));
    }
    let mut i: usize = 0;
    while i < b.len()
        invariant
            i <= b.len(),
            b@ == encode_utf8(value@),
            forall|j: int| 0 <= j < i ==> #[trigger] b@[j] < 0x80,
        decreases b.len() - i,
    {
        if b[i] >= 0x80 {
            return Err(StoreError::InvalidInput(field));
        }
        i = i + 1;
    }
    if contains_control(b) {
        return Err(StoreError::InvalidInput(field));
    }
    Ok(())
}

/// Checks a text field against a length in characters.
pub fn validate_bounded(value: &str, max: usize, field: &'static str) -> (r: Result<(), StoreError>)
    ensures
        r == (if bounded_text_ok(value@, max as nat) {
            Ok(())
        } else {
            Err(StoreError::InvalidInput(field))
        }),
{
    let (count, all_blank) = char_count_and_blank(value);
    if all_blank || count > max || contains_control(value.as_bytes()) {
        return Err(StoreError::InvalidInput(field));
    }
    Ok(())
}

/// Checks a display name: a bounded text of at most 200 characters.
pub fn validate_display_name(value: &str) -> (r: Result<(), StoreError>)
    ensures
        r == (if bounded_text_ok(value@, 200) {
            Ok(())
        } else {
            Err(StoreError::InvalidInput("display_name"))
        }),
{
    validate_bounded(value, 200, "display_name")
}

/// A path segment `..` occurs in `b`, bounded by `/` or the ends.
pub open spec fn has_parent_segment(b: Seq<u8>) -> bool {
    exists|i: int|
        0 <= i && i + 2 <= b.len() && #[trigger] b[i] == 0x2e && b[i + 1] == 0x2e && (i == 0
            || b[i - 1] == 0x2f) && (i + 2 == b.len() || b[i + 2] == 0x2f)
}

/// A repository root: a bounded text of at most 4096 characters that is an
/// absolute Unix path (it begins with `/`) without a `..` component. A `.`
/// component after the root is normalized away by `Path::components`, so
/// only `..` counts.
pub open spec fn repo_root_ok(s: Seq<char>) -> bool {
    let b = encode_utf8(s);
    &&& bounded_text_ok(s, 4096)
    &&& b.len() > 0
    &&& b[0] == 0x2f
    &&& !has_parent_segment(b)
}

fn contains_parent_segment(b: &[u8]) -> (r: bool)
    ensures
        r == has_parent_segment(b@),
{
    let mut i: usize = 0;
    while b.len() >= 2 && i <= b.len() - 2
        invariant
            i <= b.len(),
            forall|j: int|
                0 <= j < i && j + 2 <= b.len() ==> !(#[trigger] b@[j] == 0x2e && b@[j + 1] == 0x2e
                    && (j == 0 || b@[j - 1] == 0x2f) && (j + 2 == b.len() || b@[j + 2] == 0x2f)),
        decreases b.len() - i,
    {
        if b[i] == 0x2e && b[i + 1] == 0x2e && (i == 0 || b[i - 1] == 0x2f) && (i + 2 == b.len()
            || b[i + 2] == 0x2f) {
            return true;
        }
        i = i + 1;
    }
    false
}

/// Checks a repository root.
pub fn validate_repo_root(value: &str) -> (r: Result<(), StoreError>)
    ensures
        r == (if repo_root_ok(value@) {
            Ok(())
        } else {
            Err(StoreError::InvalidInput("repo_root"))
        }),
{
    validate_bounded(value, 4096, "repo_root")?;
    let b = value.as_bytes();
    if b.len() == 0 || b[0] != 0x2f || contains_parent_segment(b) {
        return Err(StoreError::InvalidInput("repo_root"));
    }
    Ok(())
}

/// A default branch: a bounded text of at most 255 characters that neither
/// begins with `-`, holds `..` nor ends with `.`.
pub open spec fn branch_ok(s: Seq<char>) -> bool {
    let b = encode_utf8(s);
    &&& bounded_text_ok(s, 255)
    &&& b.len() > 0
    &&& b[0] != 0x2d
    &&& !has_pair(b, 0x2e, 0x2e)
    &&& b[b.len() - 1] != 0x2e
}

/// Checks a default branch name.
pub fn validate_branch(value: &str) -> (r: Result<(), StoreError>)
    ensures
        r == (if branch_ok(value@) {
            Ok(())
        } else {
            Err(StoreError::InvalidInput("default_branch"))
        }),
{
    validate_bounded(value, 255, "default_branch")?;
    let b = value.as_bytes();
    if b.len() == 0 || b[0] == 0x2d || contains_pair(b, 0x2e, 0x2e) || b[b.len() - 1] == 0x2e {
        return Err(StoreError::InvalidInput("default_branch"));
    }
    Ok(())
}

/// Checks a digest field: `sha256:` and 64 lower-case hexadecimal digits.
pub fn validate_sha256(value: &str, field: &'static str) -> (r: Result<(), StoreError>)
    ensures
        r == (if is_sha256_bytes(encode_utf8(value@)) {
            Ok(())
        } else {
            Err(StoreError::InvalidInput(field))
        }),
{
    if !is_sha256(value) {
        return Err(StoreError::InvalidInput(field));
    }
    Ok(())
}

/// The IEEE-754 bits of the double nearest to 0.1.
pub const WEIGHT_MIN_BITS: u64 = 0x3FB9_9999_9999_999A;

/// The IEEE-754 bits of 100.0.
pub const WEIGHT_MAX_BITS: u64 = 0x4059_0000_0000_0000;

/// A scheduling weight, given by the bits of a double: finite and within
/// 0.1 to 100.0. Positive finite doubles are ordered as their bits are, and
/// the bits of every negative number, infinity and NaN lie outside the range.
pub open spec fn weight_ok(bits: u64) -> bool {
    WEIGHT_MIN_BITS <= bits <= WEIGHT_MAX_BITS
}

/// Checks a scheduling weight given by the bits of a double.
pub fn validate_weight(bits: u64) -> (r: Result<(), StoreError>)
    ensures
        r == (if weight_ok(bits) {
            Ok(())
        } else {
            Err(StoreError::InvalidInput("weight"))
        }),
{
    if bits < WEIGHT_MIN_BITS || bits > WEIGHT_MAX_BITS {
        return Err(StoreError::InvalidInput("weight"));
    }
    Ok(())
}

/// Character-wise equality of two strings.
pub fn str_eq(a: &str, b: &str) -> (r: bool)
    ensures
        r == (a@ == b@),
{
    let r = bytes_eq(a.as_bytes(), b.as_bytes());
    proof {
        vstd::utf8::encode_utf8_decode_utf8(a@);
        vstd::utf8::encode_utf8_decode_utf8(b@);
    }
    r
}

/// The 16 bytes of a UUID, most significant first.
pub open spec fn uuid_bytes(v: u128) -> Seq<u8> {
    Seq::new(16, |i: int| ((v as int / vstd::arithmetic::power::pow(256, (15 - i) as nat)) % 256) as u8)
}

/// The hyphenated lower-case text of a UUID: 8-4-4-4-12 hexadecimal digits.
pub open spec fn uuid_text(v: u128) -> Seq<char> {
    let b = uuid_bytes(v);
    hex_text(b.subrange(0, 4)) + seq!['-'] + hex_text(b.subrange(4, 6)) + seq!['-'] + hex_text(
        b.subrange(6, 8),
    ) + seq!['-'] + hex_text(b.subrange(8, 10)) + seq!['-'] + hex_text(b.subrange(10, 16))
}

/// The version number of a UUID: the high nibble of its seventh byte.
pub open spec fn uuid_version(v: u128) -> usize {
    (uuid_bytes(v)[6] / 16) as usize
}

/// What `uuid::Uuid::parse_str` gives for a text, as the UUID's 128-bit value.
pub uninterp spec fn uuid_parsed(s: Seq<char>) -> Option<u128>;

/// Calls `uuid::Uuid::parse_str`. Trusted: the result is a function of the
/// text alone, and the hyphenated lower-case text of any UUID parses back to
/// that UUID (the parser takes 36 bytes with hyphens at 8, 13, 18 and 23 and
/// hexadecimal digits elsewhere). Which other spellings parse, and to what,
/// is left unsaid.
#[verifier::external_body]
fn parse_uuid(value: &str) -> (r: Option<u128>)
    ensures
        r == uuid_parsed(value@),
        forall|v: u128| value@ == #[trigger] uuid_text(v) ==> r == Some(v),
{
    match uuid::Uuid::parse_str(value) {
        Ok(uuid) => Some(uuid.as_u128()),
        Err(_) => None,
    }
}

/// Calls `uuid::Uuid::get_version_num`. Trusted: the high nibble of byte 6.
#[verifier::external_body]
fn uuid_version_num(v: u128) -> (r: usize)
    ensures
        r == uuid_version(v),
{
    uuid::Uuid::from_u128(v).get_version_num()
}

/// Calls `to_string` on a `uuid::Uuid`. Trusted: the hyphenated lower-case
/// text, as the crate's `Display` writes it.
#[verifier::external_body]
fn uuid_to_string(v: u128) -> (r: String)
    ensures
        r@ == uuid_text(v),
{
    uuid::Uuid::from_u128(v).to_string()
}

/// A version-7 UUID in its hyphenated lower-case text.
pub open spec fn uuid_v7_ok(s: Seq<char>) -> bool {
    exists|v: u128| s == #[trigger] uuid_text(v) && uuid_version(v) == 7
}

/// Checks that a field holds a version-7 UUID written as the crate writes it.
pub fn validate_uuid_v7(value: &str, field: &'static str) -> (r: Result<(), StoreError>)
    ensures
        r == (if uuid_v7_ok(value@) {
            Ok(())
        } else {
            Err(StoreError::InvalidInput(field))
        }),
{
    match parse_uuid(value) {
        None => {
            assert(!uuid_v7_ok(value@));
            Err(StoreError::InvalidInput(field))
        },
        Some(v) => {
            let version = uuid_version_num(v);
            let text = uuid_to_string(v);
            if version != 7 || !str_eq(text.as_str(), value) {
                assert(!uuid_v7_ok(value@)) by {
                    if uuid_v7_ok(value@) {
                        let w = choose|w: u128| value@ == uuid_text(w) && uuid_version(w) == 7;
                        assert(value@ == uuid_text(w));
                    }
                }
                Err(StoreError::InvalidInput(field))
            } else {
                assert(value@ == uuid_text(v) && uuid_version(v) == 7);
                Ok(())
            }
        },
    }
}

/// The result of checking an identifier field.
pub open spec fn identifier_check(s: Seq<char>, field: &'static str) -> Result<(), StoreError> {
    if identifier_ok(encode_utf8(s)) {
        Ok(())
    } else {
        Err(StoreError::InvalidInput(field))
    }
}

/// The result of checking an optional identifier field.
pub open spec fn opt_identifier_check(o: Option<String>, field: &'static str) -> Result<(), StoreError> {
    match o {
        Some(s) => identifier_check(s@, field),
        None => Ok(()),
    }
}

/// The result of checking a bounded text field.
pub open spec fn bounded_check(s: Seq<char>, max: nat, field: &'static str) -> Result<(), StoreError> {
    if bounded_text_ok(s, max) {
        Ok(())
    } else {
        Err(StoreError::InvalidInput(field))
    }
}

/// The result of checking a UUID field.
pub open spec fn uuid_check(s: Seq<char>, field: &'static str) -> Result<(), StoreError> {
    if uuid_v7_ok(s) {
        Ok(())
    } else {
        Err(StoreError::InvalidInput(field))
    }
}

/// The result of checking an optional UUID field.
pub open spec fn opt_uuid_check(o: Option<String>, field: &'static str) -> Result<(), StoreError> {
    match o {
        Some(s) => uuid_check(s@, field),
        None => Ok(()),
    }
}

/// The result of checking a digest field.
pub open spec fn sha256_check(s: Seq<char>, field: &'static str) -> Result<(), StoreError> {
    if is_sha256_bytes(encode_utf8(s)) {
        Ok(())
    } else {
        Err(StoreError::InvalidInput(field))
    }
}

/// The result of checking a display name.
pub open spec fn display_name_check(s: Seq<char>) -> Result<(), StoreError> {
    bounded_check(s, 200, "display_name")
}

/// The result of checking a repository root.
pub open spec fn repo_root_check(s: Seq<char>) -> Result<(), StoreError> {
    if repo_root_ok(s) {
        Ok(())
    } else {
        Err(StoreError::InvalidInput("repo_root"))
    }
}

/// The result of checking a default branch.
pub open spec fn branch_check(s: Seq<char>) -> Result<(), StoreError> {
    if branch_ok(s) {
        Ok(())
    } else {
        Err(StoreError::InvalidInput("default_branch"))
    }
}

/// The result of checking a scheduling weight.
pub open spec fn weight_check(bits: u64) -> Result<(), StoreError> {
    if weight_ok(bits) {
        Ok(())
    } else {
        Err(StoreError::InvalidInput("weight"))
    }
}

fn validate_opt_identifier(o: &Option<String>, field: &'static str) -> (r: Result<(), StoreError>)
    ensures
        r == opt_identifier_check(*o, field),
{
    match o {
        Some(s) => validate_identifier(s.as_str(), field),
        None => Ok(()),
    }
}

fn validate_opt_uuid(o: &Option<String>, field: &'static str) -> (r: Result<(), StoreError>)
    ensures
        r == opt_uuid_check(*o, field),
{
    match o {
        Some(s) => validate_uuid_v7(s.as_str(), field),
        None => Ok(()),
    }
}

/// The author of a command.
#[derive(Debug, Clone, PartialEq, Eq)]
pub struct Actor {
    pub kind: ActorKind,
    pub actor_id: Option<String>,
}

/// The result of checking an actor: a user names itself, a system may.
pub open spec fn actor_check(a: Actor) -> Result<(), StoreError> {
    match a.kind {
        ActorKind::User => match a.actor_id {
            Some(id) => identifier_check(id@, "actor_id"),
            None => Err(StoreError::InvalidInput("actor_id")),
        },
        ActorKind::System => opt_identifier_check(a.actor_id, "actor_id"),
    }
}

impl Actor {
    /// Checks the actor.
    pub fn validate(&self) -> (r: Result<(), StoreError>)
        ensures
            r == actor_check(*self),
    {
        match self.kind {
            ActorKind::User => match &self.actor_id {
                Some(id) => validate_identifier(id.as_str(), "actor_id"),
                None => Err(StoreError::InvalidInput("actor_id")),
            },
            ActorKind::System => validate_opt_identifier(&self.actor_id, "actor_id"),
        }
    }
}

/// Reads an actor kind back from its stored text.
pub fn parse_actor_kind(value: &str) -> (r: Result<ActorKind, StoreError>)
    ensures
        match actor_kind_from_text(value@) {
            Some(x) => r == Ok::<ActorKind, StoreError>(x),
            None => r matches Err(StoreError::IntegrityFailure(m)) && m@ == "invalid actor kind"@,
        },
{
    if str_eq(value, "user") {
        return Ok(ActorKind::User);
    }
    if str_eq(value, "system") {
        return Ok(ActorKind::System);
    }
    Err(StoreError::IntegrityFailure("invalid actor kind".to_owned()))
}

/// What the audit log records of an authorized side effect besides its ids.
#[derive(Debug, Clone, PartialEq, Eq)]
pub struct SideEffectAuditContext {
    pub policy_decision: PolicyDecision,
    pub provider_id: Option<String>,
    pub account_alias: Option<String>,
    pub affected_paths: Vec<String>,
    pub destination: Option<String>,
}

/// The mathematical value of an audit context.
pub struct AuditContextModel {
    pub policy_decision: PolicyDecision,
    pub provider_id: Option<Seq<char>>,
    pub account_alias: Option<Seq<char>>,
    pub affected_paths: Seq<Seq<char>>,
    pub destination: Option<Seq<char>>,
}

/// The characters of an optional string.
pub open spec fn opt_text(o: Option<String>) -> Option<Seq<char>> {
    match o {
        Some(s) => Some(s@),
        None => None,
    }
}

impl View for SideEffectAuditContext {
    type V = AuditContextModel;

    open spec fn view(&self) -> AuditContextModel {
        AuditContextModel {
            policy_decision: self.policy_decision,
            provider_id: opt_text(self.provider_id),
            account_alias: opt_text(self.account_alias),
            affected_paths: self.affected_paths@.map_values(|p: String| p@),
            destination: opt_text(self.destination),
        }
    }
}

/// The result of checking an optional identifier text.
pub open spec fn opt_identifier_text_check(o: Option<Seq<char>>, field: &'static str) -> Result<(), StoreError> {
    match o {
        Some(s) => identifier_check(s, field),
        None => Ok(()),
    }
}

/// Every path of `ps` is a valid repository root.
pub open spec fn all_repo_roots(ps: Seq<Seq<char>>) -> bool {
    forall|i: int| 0 <= i < ps.len() ==> repo_root_ok(#[trigger] ps[i])
}

/// The result of checking an audit context.
pub open spec fn audit_context_check(c: AuditContextModel) -> Result<(), StoreError> {
    then_check(
        opt_identifier_text_check(c.provider_id, "audit.provider_id"),
        then_check(
            opt_identifier_text_check(c.account_alias, "audit.account_alias"),
            then_check(
                if c.affected_paths.len() > 64 {
                    Err(StoreError::InvalidInput("audit.affected_paths"))
                } else {
                    Ok(())
                },
                then_check(
                    if all_repo_roots(c.affected_paths) {
                        Ok(())
                    } else {
                        Err(StoreError::InvalidInput("repo_root"))
                    },
                    match c.destination {
                        Some(d) => bounded_check(d, 2048, "audit.destination"),
                        None => Ok(()),
                    },
                ),
            ),
        ),
    )
}

/// A copy of an optional string.
pub fn clone_opt_string(o: &Option<String>) -> (r: Option<String>)
    ensures
        r == *o,
{
    match o {
        Some(s) => Some(s.clone()),
        None => None,
    }
}

impl SideEffectAuditContext {
    /// Checks the audit context.
    pub fn validate(&self) -> (r: Result<(), StoreError>)
        ensures
            r == audit_context_check(self@),
    {
        validate_opt_identifier(&self.provider_id, "audit.provider_id")?;
        validate_opt_identifier(&self.account_alias, "audit.account_alias")?;
        if self.affected_paths.len() > 64 {
            return Err(StoreError::InvalidInput("audit.affected_paths"));
        }
        let mut i: usize = 0;
        while i < self.affected_paths.len()
            invariant
                i <= self.affected_paths@.len() <= 64,
                opt_identifier_check(self.provider_id, "audit.provider_id") is Ok,
                opt_identifier_check(self.account_alias, "audit.account_alias") is Ok,
                forall|j: int| 0 <= j < i ==> repo_root_ok(#[trigger] self.affected_paths@[j]@),
                self@.affected_paths == self.affected_paths@.map_values(|p: String| p@),
            decreases self.affected_paths.len() - i,
        {
            let checked = validate_repo_root(self.affected_paths[i].as_str());
            if checked.is_err() {
                assert(!repo_root_ok(self@.affected_paths[i as int]));
                return checked;
            }
            i = i + 1;
        }
        assert(all_repo_roots(self@.affected_paths));
        match &self.destination {
            Some(d) => validate_bounded(d.as_str(), 2048, "audit.destination"),
            None => Ok(()),
        }
    }

    /// A copy of the audit context.
    pub fn duplicate(&self) -> (r: Self)
        ensures
            r@ == self@,
    {
        let paths = self.affected_paths.clone();
        proof {
            assert forall|i: int| 0 <= i < paths@.len() implies paths@[i] == self.affected_paths@[i] by {
                assert(cloned::<String>(self.affected_paths[i], paths[i]));
            }
            assert(paths@.map_values(|p: String| p@) =~= self.affected_paths@.map_values(
                |p: String| p@,
            ));
        }
        SideEffectAuditContext {
            policy_decision: self.policy_decision,
            provider_id: clone_opt_string(&self.provider_id),
            account_alias: clone_opt_string(&self.account_alias),
            affected_paths: paths,
            destination: clone_opt_string(&self.destination),
        }
    }
}

/// The trust transitions a project may take: to the same state, between
/// untrusted and trusted, to revoked from either, and from revoked back to
/// untrusted only.
pub open spec fn trust_transition_ok(from: TrustState, to: TrustState) -> bool {
    ||| from == to
    ||| from == TrustState::Untrusted && (to == TrustState::Trusted || to == TrustState::Revoked)
    ||| from == TrustState::Trusted && (to == TrustState::Untrusted || to == TrustState::Revoked)
    ||| from == TrustState::Revoked && to == TrustState::Untrusted
}

/// Whether a project may move from one trust state to another.
pub fn valid_trust_transition(from: &TrustState, to: &TrustState) -> (r: bool)
    ensures
        r == trust_transition_ok(*from, *to),
{
    match (from, to) {
        (TrustState::Untrusted, TrustState::Trusted) => true,
        (TrustState::Untrusted, TrustState::Revoked) => true,
        (TrustState::Trusted, TrustState::Untrusted) => true,
        (TrustState::Trusted, TrustState::Revoked) => true,
        (TrustState::Revoked, TrustState::Untrusted) => true,
        _ => *from == *to,
    }
}

/// A revoked project regains trust only by passing through untrusted: no
/// single transition leads from revoked to trusted, and every other state
/// can be revoked.
pub proof fn lemma_revocation_is_sticky(s: TrustState)
    ensures
        !trust_transition_ok(TrustState::Revoked, TrustState::Trusted),
        trust_transition_ok(s, TrustState::Revoked),
        trust_transition_ok(TrustState::Revoked, TrustState::Untrusted),
        trust_transition_ok(TrustState::Untrusted, TrustState::Trusted),
{
}

/// The trust table: every change of trust state is allowed, and staying in
/// a state too, except the one step from revoked straight to trusted.
pub proof fn lemma_trust_table(from: TrustState, to: TrustState)
    ensures
        trust_transition_ok(from, to) <==> !(from == TrustState::Revoked && to == TrustState::Trusted),
{
}

/// A registered project as the projection holds it. The scheduling weight is
/// held as the bits of its double.
#[derive(Debug, Clone, PartialEq)]
pub struct Project {
    pub id: String,
    pub display_name: String,
    pub repo_root: String,
    pub repo_identity: String,
    pub default_branch: String,
    pub trust_state: TrustState,
    pub weight_bits: u64,
    pub provider_policy: String,
    pub data_classification: String,
    pub revision: u64,
    pub created_at_unix_ms: u64,
    pub updated_at_unix_ms: u64,
    pub last_event_sequence: u64,
}

/// The mathematical value of a project: its texts as character sequences.
pub struct ProjectModel {
    pub id: Seq<char>,
    pub display_name: Seq<char>,
    pub repo_root: Seq<char>,
    pub repo_identity: Seq<char>,
    pub default_branch: Seq<char>,
    pub trust_state: TrustState,
    pub weight_bits: u64,
    pub provider_policy: Seq<char>,
    pub data_classification: Seq<char>,
    pub revision: u64,
    pub created_at_unix_ms: u64,
    pub updated_at_unix_ms: u64,
    pub last_event_sequence: u64,
}

impl View for Project {
    type V = ProjectModel;

    open spec fn view(&self) -> ProjectModel {
        ProjectModel {
            id: self.id@,
            display_name: self.display_name@,
            repo_root: self.repo_root@,
            repo_identity: self.repo_identity@,
            default_branch: self.default_branch@,
            trust_state: self.trust_state,
            weight_bits: self.weight_bits,
            provider_policy: self.provider_policy@,
            data_classification: self.data_classification@,
            revision: self.revision,
            created_at_unix_ms: self.created_at_unix_ms,
            updated_at_unix_ms: self.updated_at_unix_ms,
            last_event_sequence: self.last_event_sequence,
        }
    }
}

/// The result of checking a project: its fields in order, then its revision
/// and timestamps.
pub open spec fn project_check(p: ProjectModel) -> Result<(), StoreError> {
    then_check(
        uuid_check(p.id, "project.id"),
        then_check(
            display_name_check(p.display_name),
            then_check(
                repo_root_check(p.repo_root),
                then_check(
                    bounded_check(p.repo_identity, 512, "repo_identity"),
                    then_check(
                        branch_check(p.default_branch),
                        then_check(
                            identifier_check(p.provider_policy, "provider_policy"),
                            then_check(
                                identifier_check(p.data_classification, "data_classification"),
                                then_check(
                                    weight_check(p.weight_bits),
                                    if p.revision == 0 || p.updated_at_unix_ms
                                        < p.created_at_unix_ms {
                                        Err(StoreError::InvalidInput("project metadata"))
                                    } else {
                                        Ok(())
                                    },
                                ),
                            ),
                        ),
                    ),
                ),
            ),
        ),
    )
}

impl Project {
    /// A copy of the project.
    pub fn duplicate(&self) -> (r: Project)
        ensures
            r == *self,
    {
        Project {
            id: self.id.clone(),
            display_name: self.display_name.clone(),
            repo_root: self.repo_root.clone(),
            repo_identity: self.repo_identity.clone(),
            default_branch: self.default_branch.clone(),
            trust_state: self.trust_state,
            weight_bits: self.weight_bits,
            provider_policy: self.provider_policy.clone(),
            data_classification: self.data_classification.clone(),
            revision: self.revision,
            created_at_unix_ms: self.created_at_unix_ms,
            updated_at_unix_ms: self.updated_at_unix_ms,
            last_event_sequence: self.last_event_sequence,
        }
    }

    /// Checks the project.
    pub fn validate(&self) -> (r: Result<(), StoreError>)
        ensures
            r == project_check(self@),
    {
        validate_uuid_v7(self.id.as_str(), "project.id")?;
        validate_display_name(self.display_name.as_str())?;
        validate_repo_root(self.repo_root.as_str())?;
        validate_bounded(self.repo_identity.as_str(), 512, "repo_identity")?;
        validate_branch(self.default_branch.as_str())?;
        validate_identifier(self.provider_policy.as_str(), "provider_policy")?;
        validate_identifier(self.data_classification.as_str(), "data_classification")?;
        validate_weight(self.weight_bits)?;
        if self.revision == 0 || self.updated_at_unix_ms < self.created_at_unix_ms {
            return Err(StoreError::InvalidInput("project metadata"));
        }
        Ok(())
    }
}

/// The fields of a new project.
#[derive(Debug, Clone, PartialEq)]
pub struct CreateProject {
    pub display_name: String,
    pub repo_root: String,
    pub repo_identity: String,
    pub default_branch: String,
    pub provider_policy: String,
    pub data_classification: String,
    pub weight_bits: u64,
}

/// The result of checking the fields of a new project.
pub open spec fn create_project_check(c: CreateProject) -> Result<(), StoreError> {
    then_check(
        display_name_check(c.display_name@),
        then_check(
            repo_root_check(c.repo_root@),
            then_check(
                bounded_check(c.repo_identity@, 512, "repo_identity"),
                then_check(
                    branch_check(c.default_branch@),
                    then_check(
                        identifier_check(c.provider_policy@, "provider_policy"),
                        then_check(
                            identifier_check(c.data_classification@, "data_classification"),
                            weight_check(c.weight_bits),
                        ),
                    ),
                ),
            ),
        ),
    )
}

impl CreateProject {
    /// Checks the fields of a new project.
    pub fn validate(&self) -> (r: Result<(), StoreError>)
        ensures
            r == create_project_check(*self),
    {
        validate_display_name(self.display_name.as_str())?;
        validate_repo_root(self.repo_root.as_str())?;
        validate_bounded(self.repo_identity.as_str(), 512, "repo_identity")?;
        validate_branch(self.default_branch.as_str())?;
        validate_identifier(self.provider_policy.as_str(), "provider_policy")?;
        validate_identifier(self.data_classification.as_str(), "data_classification")?;
        validate_weight(self.weight_bits)
    }
}

/// A command on a project.
#[derive(Debug, Clone, PartialEq)]
pub enum ProjectCommand {
    Create(CreateProject),
    Rename { display_name: String },
    SetTrust { trust_state: TrustState },
    SetSchedulingWeight { weight_bits: u64 },
    SetPolicy { provider_policy: String, data_classification: String },
}

/// The result of checking a project command.
pub open spec fn project_command_check(c: ProjectCommand) -> Result<(), StoreError> {
    match c {
        ProjectCommand::Create(create) => create_project_check(create),
        ProjectCommand::Rename { display_name } => display_name_check(display_name@),
        ProjectCommand::SetTrust { .. } => Ok(()),
        ProjectCommand::SetSchedulingWeight { weight_bits } => weight_check(weight_bits),
        ProjectCommand::SetPolicy { provider_policy, data_classification } => then_check(
            identifier_check(provider_policy@, "provider_policy"),
            identifier_check(data_classification@, "data_classification"),
        ),
    }
}

impl ProjectCommand {
    /// Checks the command.
    pub fn validate(&self) -> (r: Result<(), StoreError>)
        ensures
            r == project_command_check(*self),
    {
        match self {
            ProjectCommand::Create(create) => create.validate(),
            ProjectCommand::Rename { display_name } => validate_display_name(display_name.as_str()),
            ProjectCommand::SetTrust { .. } => Ok(()),
            ProjectCommand::SetSchedulingWeight { weight_bits } => validate_weight(*weight_bits),
            ProjectCommand::SetPolicy { provider_policy, data_classification } => {
                validate_identifier(provider_policy.as_str(), "provider_policy")?;
                validate_identifier(data_classification.as_str(), "data_classification")
            },
        }
    }
}

/// An authorized side effect as the projection holds it.
#[derive(Debug, Clone, PartialEq, Eq)]
pub struct SideEffect {
    pub action_id: String,
    pub project_id: Option<String>,
    pub run_id: String,
    pub capability: String,
    pub action_digest: String,
    pub approval_id: String,
    pub binding_digest: String,
    pub phase: SideEffectPhase,
    pub revision: u64,
    pub result_class: Option<SideEffectResultClass>,
    pub authorized_at_unix_ms: u64,
    pub started_at_unix_ms: Option<u64>,
    pub finished_at_unix_ms: Option<u64>,
    pub updated_at_unix_ms: u64,
    pub last_event_sequence: u64,
}

/// The mathematical value of a side effect.
pub struct SideEffectModel {
    pub action_id: Seq<char>,
    pub project_id: Option<Seq<char>>,
    pub run_id: Seq<char>,
    pub capability: Seq<char>,
    pub action_digest: Seq<char>,
    pub approval_id: Seq<char>,
    pub binding_digest: Seq<char>,
    pub phase: SideEffectPhase,
    pub revision: u64,
    pub result_class: Option<SideEffectResultClass>,
    pub authorized_at_unix_ms: u64,
    pub started_at_unix_ms: Option<u64>,
    pub finished_at_unix_ms: Option<u64>,
    pub updated_at_unix_ms: u64,
    pub last_event_sequence: u64,
}

impl View for SideEffect {
    type V = SideEffectModel;

    open spec fn view(&self) -> SideEffectModel {
        SideEffectModel {
            action_id: self.action_id@,
            project_id: opt_text(self.project_id),
            run_id: self.run_id@,
            capability: self.capability@,
            action_digest: self.action_digest@,
            approval_id: self.approval_id@,
            binding_digest: self.binding_digest@,
            phase: self.phase,
            revision: self.revision,
            result_class: self.result_class,
            authorized_at_unix_ms: self.authorized_at_unix_ms,
            started_at_unix_ms: self.started_at_unix_ms,
            finished_at_unix_ms: self.finished_at_unix_ms,
            updated_at_unix_ms: self.updated_at_unix_ms,
            last_event_sequence: self.last_event_sequence,
        }
    }
}

/// The result of checking an optional UUID text.
pub open spec fn opt_uuid_text_check(o: Option<Seq<char>>, field: &'static str) -> Result<(), StoreError> {
    match o {
        Some(s) => uuid_check(s, field),
        None => Ok(()),
    }
}

/// The timestamps and result that each phase carries: none before the start;
/// a start no earlier than the authorization once started or unknown; and,
/// once finished, a finish no earlier than the start and a result.
pub open spec fn phase_timestamps_ok(e: SideEffectModel) -> bool {
    match e.phase {
        SideEffectPhase::Authorized => e.started_at_unix_ms is None && e.finished_at_unix_ms is None
            && e.result_class is None,
        SideEffectPhase::Started | SideEffectPhase::Unknown => (e.started_at_unix_ms matches Some(
            started,
        ) && started >= e.authorized_at_unix_ms) && e.finished_at_unix_ms is None
            && e.result_class is None,
        SideEffectPhase::Finished => (e.started_at_unix_ms matches Some(started) && started
            >= e.authorized_at_unix_ms && (e.finished_at_unix_ms matches Some(finished) && finished
            >= started)) && e.result_class is Some,
    }
}

/// The result of checking a side effect: its ids and digests in order, then
/// its revision, then the timestamps of its phase.
pub open spec fn side_effect_check(e: SideEffectModel) -> Result<(), StoreError> {
    then_check(
        uuid_check(e.action_id, "side_effect.action_id"),
        then_check(
            opt_uuid_text_check(e.project_id, "side_effect.project_id"),
            then_check(
                uuid_check(e.run_id, "side_effect.run_id"),
                then_check(
                    identifier_check(e.capability, "side_effect.capability"),
                    then_check(
                        sha256_check(e.action_digest, "side_effect.action_digest"),
                        then_check(
                            uuid_check(e.approval_id, "side_effect.approval_id"),
                            then_check(
                                sha256_check(e.binding_digest, "side_effect.binding_digest"),
                                then_check(
                                    if e.revision == 0 || e.updated_at_unix_ms
                                        < e.authorized_at_unix_ms {
                                        Err(StoreError::InvalidInput("side-effect metadata"))
                                    } else {
                                        Ok(())
                                    },
                                    if phase_timestamps_ok(e) {
                                        Ok(())
                                    } else {
                                        Err(StoreError::InvalidInput("side-effect timestamps"))
                                    },
                                ),
                            ),
                        ),
                    ),
                ),
            ),
        ),
    )
}

impl SideEffect {
    /// Checks the side effect.
    pub fn validate(&self) -> (r: Result<(), StoreError>)
        ensures
            r == side_effect_check(self@),
    {
        validate_uuid_v7(self.action_id.as_str(), "side_effect.action_id")?;
        validate_opt_uuid(&self.project_id, "side_effect.project_id")?;
        validate_uuid_v7(self.run_id.as_str(), "side_effect.run_id")?;
        validate_identifier(self.capability.as_str(), "side_effect.capability")?;
        validate_sha256(self.action_digest.as_str(), "side_effect.action_digest")?;
        validate_uuid_v7(self.approval_id.as_str(), "side_effect.approval_id")?;
        validate_sha256(self.binding_digest.as_str(), "side_effect.binding_digest")?;
        if self.revision == 0 || self.updated_at_unix_ms < self.authorized_at_unix_ms {
            return Err(StoreError::InvalidInput("side-effect metadata"));
        }
        let timestamps_match = match self.phase {
            SideEffectPhase::Authorized => self.started_at_unix_ms.is_none()
                && self.finished_at_unix_ms.is_none() && self.result_class.is_none(),
            SideEffectPhase::Started | SideEffectPhase::Unknown => {
                let started_ok = match self.started_at_unix_ms {
                    Some(started) => started >= self.authorized_at_unix_ms,
                    None => false,
                };
                started_ok && self.finished_at_unix_ms.is_none() && self.result_class.is_none()
            },
            SideEffectPhase::Finished => {
                let ordered = match (self.started_at_unix_ms, self.finished_at_unix_ms) {
                    (Some(started), Some(finished)) => started >= self.authorized_at_unix_ms
                        && finished >= started,
                    _ => false,
                };
                ordered && self.result_class.is_some()
            },
        };
        if !timestamps_match {
            return Err(StoreError::InvalidInput("side-effect timestamps"));
        }
        Ok(())
    }
}

/// A command on a side effect.
#[derive(Debug, Clone, PartialEq, Eq)]
pub enum SideEffectCommand {
    Authorize {
        project_id: Option<String>,
        run_id: String,
        capability: String,
        action_digest: String,
        approval_id: String,
        binding_digest: String,
        audit: Box<SideEffectAuditContext>,
    },
    Start,
    Finish { result_class: SideEffectResultClass },
    MarkUnknown,
}

/// The result of checking a side-effect command.
pub open spec fn side_effect_command_check(c: SideEffectCommand) -> Result<(), StoreError> {
    match c {
        SideEffectCommand::Authorize {
            project_id,
            run_id,
            capability,
            action_digest,
            approval_id,
            binding_digest,
            audit,
        } => then_check(
            opt_uuid_check(project_id, "project_id"),
            then_check(
                uuid_check(run_id@, "run_id"),
                then_check(
                    identifier_check(capability@, "capability"),
                    then_check(
                        sha256_check(action_digest@, "action_digest"),
                        then_check(
                            uuid_check(approval_id@, "approval_id"),
                            then_check(
                                sha256_check(binding_digest@, "binding_digest"),
                                audit_context_check(audit@),
                            ),
                        ),
                    ),
                ),
            ),
        ),
        _ => Ok(()),
    }
}

impl SideEffectCommand {
    /// Checks the command.
    pub fn validate(&self) -> (r: Result<(), StoreError>)
        ensures
            r == side_effect_command_check(*self),
    {
        match self {
            SideEffectCommand::Authorize {
                project_id,
                run_id,
                capability,
                action_digest,
                approval_id,
                binding_digest,
                audit,
            } => {
                validate_opt_uuid(project_id, "project_id")?;
                validate_uuid_v7(run_id.as_str(), "run_id")?;
                validate_identifier(capability.as_str(), "capability")?;
                validate_sha256(action_digest.as_str(), "action_digest")?;
                validate_uuid_v7(approval_id.as_str(), "approval_id")?;
                validate_sha256(binding_digest.as_str(), "binding_digest")?;
                audit.validate()
            },
            _ => Ok(()),
        }
    }
}

/// A command on one of the store's aggregates.
#[derive(Debug, Clone, PartialEq)]
pub enum StoreCommand {
    Project(ProjectCommand),
    SideEffect(SideEffectCommand),
}

/// The aggregate type a command addresses.
pub open spec fn aggregate_type_text(c: StoreCommand) -> Seq<char> {
    match c {
        StoreCommand::Project(_) => "project"@,
        StoreCommand::SideEffect(_) => "side_effect"@,
    }
}

/// The kind under which a command is recorded.
pub open spec fn command_kind_text(c: StoreCommand) -> Seq<char> {
    match c {
        StoreCommand::Project(ProjectCommand::Create(_)) => "project.create"@,
        StoreCommand::Project(ProjectCommand::Rename { .. }) => "project.rename"@,
        StoreCommand::Project(ProjectCommand::SetTrust { .. }) => "project.set_trust"@,
        StoreCommand::Project(ProjectCommand::SetSchedulingWeight { .. }) => "project.set_scheduling_weight"@,
        StoreCommand::Project(ProjectCommand::SetPolicy { .. }) => "project.set_policy"@,
        StoreCommand::SideEffect(SideEffectCommand::Authorize { .. }) => "side_effect.authorize"@,
        StoreCommand::SideEffect(SideEffectCommand::Start) => "side_effect.start"@,
        StoreCommand::SideEffect(SideEffectCommand::Finish { .. }) => "side_effect.finish"@,
        StoreCommand::SideEffect(SideEffectCommand::MarkUnknown) => "side_effect.mark_unknown"@,
    }
}

/// The result of checking a store command.
pub open spec fn store_command_check(c: StoreCommand) -> Result<(), StoreError> {
    match c {
        StoreCommand::Project(command) => project_command_check(command),
        StoreCommand::SideEffect(command) => side_effect_command_check(command),
    }
}

impl StoreCommand {
    /// The aggregate type the command addresses.
    pub fn aggregate_type(&self) -> (r: &'static str)
        ensures
            r@ == aggregate_type_text(*self),
    {
        match self {
            StoreCommand::Project(_) => "project",
            StoreCommand::SideEffect(_) => "side_effect",
        }
    }

    /// The kind under which the command is recorded.
    pub fn kind(&self) -> (r: &'static str)
        ensures
            r@ == command_kind_text(*self),
    {
        match self {
            StoreCommand::Project(ProjectCommand::Create(_)) => "project.create",
            StoreCommand::Project(ProjectCommand::Rename { .. }) => "project.rename",
            StoreCommand::Project(ProjectCommand::SetTrust { .. }) => "project.set_trust",
            StoreCommand::Project(ProjectCommand::SetSchedulingWeight { .. }) => "project.set_scheduling_weight",
            StoreCommand::Project(ProjectCommand::SetPolicy { .. }) => "project.set_policy",
            StoreCommand::SideEffect(SideEffectCommand::Authorize { .. }) => "side_effect.authorize",
            StoreCommand::SideEffect(SideEffectCommand::Start) => "side_effect.start",
            StoreCommand::SideEffect(SideEffectCommand::Finish { .. }) => "side_effect.finish",
            StoreCommand::SideEffect(SideEffectCommand::MarkUnknown) => "side_effect.mark_unknown",
        }
    }

    /// Checks the command.
    pub fn validate(&self) -> (r: Result<(), StoreError>)
        ensures
            r == store_command_check(*self),
    {
        match self {
            StoreCommand::Project(command) => command.validate(),
            StoreCommand::SideEffect(command) => command.validate(),
        }
    }
}

/// A command with its identity, concurrency token and provenance.
#[derive(Debug, Clone, PartialEq)]
pub struct CommandEnvelope {
    pub schema_version: u16,
    pub command_id: String,
    pub aggregate_id: String,
    pub expected_revision: u64,
    pub actor: Actor,
    pub correlation_id: String,
    pub causation_event_id: Option<String>,
    pub occurred_at_unix_ms: u64,
    pub command: StoreCommand,
}

/// The result of checking an envelope: the schema, the ids in order, the
/// numeric fields, the actor and then the command.
pub open spec fn envelope_check(e: CommandEnvelope) -> Result<(), StoreError> {
    if e.schema_version != COMMAND_SCHEMA_VERSION {
        Err(StoreError::UnsupportedCommandSchema(e.schema_version))
    } else {
        then_check(
            uuid_check(e.command_id@, "command_id"),
            then_check(
                uuid_check(e.aggregate_id@, "aggregate_id"),
                then_check(
                    uuid_check(e.correlation_id@, "correlation_id"),
                    then_check(
                        opt_uuid_check(e.causation_event_id, "causation_event_id"),
                        then_check(
                            if e.expected_revision > MAX_SAFE_JSON_INTEGER || e.occurred_at_unix_ms
                                > MAX_SAFE_JSON_INTEGER {
                                Err(StoreError::InvalidInput("numeric field"))
                            } else {
                                Ok(())
                            },
                            then_check(actor_check(e.actor), store_command_check(e.command)),
                        ),
                    ),
                ),
            ),
        )
    }
}

impl CommandEnvelope {
    /// Checks the envelope and its command.
    pub fn validate(&self) -> (r: Result<(), StoreError>)
        ensures
            r == envelope_check(*self),
    {
        if self.schema_version != COMMAND_SCHEMA_VERSION {
            return Err(StoreError::UnsupportedCommandSchema(self.schema_version));
        }
        validate_uuid_v7(self.command_id.as_str(), "command_id")?;
        validate_uuid_v7(self.aggregate_id.as_str(), "aggregate_id")?;
        validate_uuid_v7(self.correlation_id.as_str(), "correlation_id")?;
        validate_opt_uuid(&self.causation_event_id, "causation_event_id")?;
        if self.expected_revision > MAX_SAFE_JSON_INTEGER || self.occurred_at_unix_ms
            > MAX_SAFE_JSON_INTEGER {
            return Err(StoreError::InvalidInput("numeric field"));
        }
        self.actor.validate()?;
        self.command.validate()
    }
}

/// What a committed (or replayed) command returns.
#[derive(Debug, Clone, PartialEq, Eq)]
pub struct CommandReceipt {
    pub command_id: String,
    pub aggregate_id: String,
    pub aggregate_revision: u64,
    pub first_global_sequence: u64,
    pub last_global_sequence: u64,
    pub replayed: bool,
}

/// One record of the audit log.
#[derive(Debug, Clone, PartialEq, Eq)]
pub struct AuditRecord {
    pub audit_sequence: u64,
    pub audit_id: String,
    pub occurred_at_unix_ms: u64,
    pub actor: Actor,
    pub action: String,
    pub project_id: Option<String>,
    pub run_id: Option<String>,
    pub action_id: Option<String>,
    pub command_id: String,
    pub correlation_id: String,
    pub policy_decision: Option<PolicyDecision>,
    pub approval_digest: Option<String>,
    pub provider_id: Option<String>,
    pub account_alias: Option<String>,
    pub affected_paths: Option<Vec<String>>,
    pub destination: Option<String>,
    pub result_class: AuditResultClass,
}

/// The projects at one point of the event stream.
#[derive(Debug, Clone, PartialEq)]
pub struct ProjectSnapshot {
    pub cursor: u64,
    pub projects: Vec<Project>,
}

/// What a verification of the ledger found.
#[derive(Debug, Clone, PartialEq, Eq)]
pub struct VerificationReport {
    pub event_count: u64,
    pub project_count: u64,
    pub side_effect_count: u64,
    pub projections_rebuilt: bool,
}

/// What opening the store did.
#[derive(Debug, Clone, PartialEq, Eq)]
pub struct OpenReport {
    pub schema_version: u32,
    pub applied_migrations: Vec<u32>,
    pub recovered_side_effects: u64,
    pub verification: VerificationReport,
    pub backup_path: Option<String>,
}

} // verus!
