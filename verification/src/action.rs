//! Typed action proposals, capability scopes and their validation.
use vstd::prelude::*;
use vstd::utf8::encode_utf8;
use crate::bytes::{
    bytes_lt, contains_byte, contains_control, contains_pair, has_byte, has_control, has_pair,
    is_alphanumeric, is_digit, is_lower, is_lower_hex, lex_lt,
};
use crate::canonical::{digest_text, domain_digest, is_sha256, is_sha256_bytes, is_sha256_text, ActionDigest, CanonicalError};
use crate::json::{
    canonical_json, ins, json_string, json_string_array, json_text, items_view, key_bytes, no_members,
    object_insert, strings_json, json_wf, member_get, lemma_json_wf_unfold, members_view, members_wf, Json, JsonMember,
    JsonValue,
};

verus! {

pub const ACTION_SCHEMA_VERSION: u16 = 1;

pub const MAX_ACTION_TTL_MS: u64 = 300_000;

pub const MAX_CANONICAL_ACTION_BYTES: usize = 65_536;

pub const MAX_SAFE_JSON_INTEGER: u64 = 9_007_199_254_740_991;

pub const MAX_ID_BYTES: usize = 128;

pub const MAX_STRING_BYTES: usize = 4096;

pub const MAX_PATHS: usize = 256;

pub const MAX_ARGV: usize = 128;

pub const MAX_PROVENANCE: usize = 32;

pub const MAX_DATA_CLASSES: usize = 32;

pub const MAX_PATCH_BYTES: u64 = 16_777_216;

pub const MAX_PROVIDER_REQUEST_BYTES: u64 = 16_777_216;

/// The risk class of an operation.
#[derive(Debug, Clone, Copy, PartialEq, Eq, Structural)]
pub enum RiskClass {
    ReadOnly,
    LocalMutation,
    ProcessExecution,
    ExternalDisclosure,
    CredentialUse,
    GitIntegration,
}

/// Whether an operation can be undone.
#[derive(Debug, Clone, Copy, PartialEq, Eq, Structural)]
pub enum Reversibility {
    NoMutation,
    WorktreeRecoverable,
    SideEffectUnknown,
}

/// Where the content behind a proposal came from.
#[derive(Debug, Clone, PartialEq, Eq)]
pub struct Provenance {
    pub source_kind: String,
    pub source_id: String,
    pub content_digest: String,
}

/// A network destination of a provider request.
#[derive(Debug, Clone, PartialEq, Eq, PartialOrd, Ord)]
pub struct Destination {
    pub scheme: String,
    pub host: String,
    pub port: u16,
    pub path: String,
}

/// What a project-path capability allows.
#[derive(Debug, Clone, Copy, PartialEq, Eq, PartialOrd, Ord, Structural)]
pub enum PathCapability {
    Read,
    ApplyPatch,
}

/// The kind of a capability, which policy rules are keyed by.
#[derive(Debug, Clone, Copy, PartialEq, Eq, PartialOrd, Ord, Structural)]
pub enum CapabilityKind {
    ProjectRead,
    ProjectApplyPatch,
    BrokerCommand,
    ProviderSubmit,
    CredentialUse,
    WorktreeIntegrate,
}

/// A capability scope: requested by an action, or granted by the host.
#[derive(Debug, Clone, PartialEq, Eq, PartialOrd, Ord)]
pub enum CapabilityScope {
    ProjectPaths {
        capability: PathCapability,
        project_id: String,
        run_id: String,
        worktree_id: String,
        paths: Vec<String>,
    },
    BrokerCommand {
        project_id: String,
        run_id: String,
        worktree_id: String,
        catalog_entry_id: String,
    },
    Provider {
        project_id: String,
        run_id: String,
        provider_id: String,
        account_id: String,
        destination: Destination,
    },
    Credential {
        project_id: String,
        run_id: String,
        provider_id: String,
        account_id: String,
        credential_ref: String,
        destination: Destination,
    },
    Integration {
        project_id: String,
        run_id: String,
        worktree_id: String,
        target_ref: String,
    },
}

/// The operation an action proposes.
#[derive(Debug, Clone, PartialEq, Eq)]
pub enum ActionOperation {
    ReadFiles {
        worktree_id: String,
        paths: Vec<String>,
    },
    ApplyPatch {
        worktree_id: String,
        patch_digest: String,
        patch_bytes: u64,
        affected_paths: Vec<String>,
    },
    RunBrokerCommand {
        worktree_id: String,
        catalog_entry_id: String,
        catalog_entry_digest: String,
        executable_digest: String,
        cwd: String,
        argv: Vec<String>,
    },
    SubmitProviderRequest {
        provider_id: String,
        account_id: String,
        destination: Destination,
        request_digest: String,
        request_bytes: u64,
        data_classes: Vec<String>,
    },
    UseCredential {
        provider_id: String,
        account_id: String,
        credential_ref: String,
        destination: Destination,
    },
    IntegrateWorktree {
        worktree_id: String,
        source_ref: String,
        source_oid: String,
        target_ref: String,
        expected_target_oid: String,
        diff_digest: String,
    },
}

/// A model-proposed action.
#[derive(Debug, Clone, PartialEq, Eq)]
pub struct ActionProposal {
    pub schema_version: u16,
    pub action_id: String,
    pub run_id: String,
    pub project_id: String,
    pub requested_capability: CapabilityScope,
    pub operation: ActionOperation,
    pub provenance: Vec<Provenance>,
    pub created_at_unix_ms: u64,
    pub expires_at_unix_ms: u64,
}

/// Why an action was refused.
#[derive(Debug, PartialEq, Eq)]
pub enum ActionError {
    Canonical(CanonicalError),
    UnsupportedSchema,
    InvalidField(&'static str),
    InvalidCollection(&'static str),
    InvalidDigest(&'static str),
    CapabilityMismatch,
    InvalidLifetime,
    ActionTooLarge,
}

/// The first failure of two checks made in order.
pub open spec fn then_check<E>(first: Result<(), E>, next: Result<(), E>) -> Result<(), E> {
    match first {
        Err(e) => Err(e),
        Ok(_) => next,
    }
}

/// The UTF-8 bytes of a string.
pub open spec fn sb(s: String) -> Seq<u8> {
    encode_utf8(s@)
}

/// A byte allowed after the first byte of an identifier.
pub open spec fn id_byte(c: u8) -> bool {
    is_alphanumeric(c) || c == 0x2e || c == 0x5f || c == 0x3a || c == 0x2d
}

/// An identifier: 1 to 128 bytes, an ASCII letter or digit first, then
/// letters, digits, `.`, `_`, `:` or `-`.
pub open spec fn id_ok(b: Seq<u8>) -> bool {
    &&& 0 < b.len() <= 128
    &&& is_alphanumeric(b[0])
    &&& forall|i: int| 1 <= i < b.len() ==> id_byte(#[trigger] b[i])
}

/// A non-empty string of at most 4096 bytes without a NUL byte.
pub open spec fn bounded_ok(b: Seq<u8>) -> bool {
    0 < b.len() <= 4096 && !has_byte(b, 0)
}

/// A git reference name as accepted in actions.
pub open spec fn ref_ok(b: Seq<u8>) -> bool {
    &&& bounded_ok(b)
    &&& b[0] != 0x2d
    &&& !has_pair(b, 0x2e, 0x2e)
    &&& !has_control(b)
}

/// A git object id: 40 or 64 lower-case hexadecimal digits.
pub open spec fn oid_ok(b: Seq<u8>) -> bool {
    (b.len() == 40 || b.len() == 64) && forall|i: int| 0 <= i < b.len() ==> is_lower_hex(#[trigger] b[i])
}

/// A size or count: positive, at most `maximum` and a safe JSON integer.
pub open spec fn count_ok(value: u64, maximum: u64) -> bool {
    value != 0 && value <= maximum && value <= MAX_SAFE_JSON_INTEGER
}

/// A path segment that is refused: empty, `.`, `..` or `.git`.
pub open spec fn bad_segment(s: Seq<u8>) -> bool {
    ||| s.len() == 0
    ||| s == seq![0x2eu8]
    ||| s == seq![0x2eu8, 0x2eu8]
    ||| s == seq![0x2eu8, 0x67u8, 0x69u8, 0x74u8]
}

/// The index of the first `sep` in `b`, or its length.
pub open spec fn sep_at(b: Seq<u8>, sep: u8) -> int
    decreases b.len(),
{
    if b.len() == 0 {
        0
    } else if b[0] == sep {
        0
    } else {
        1 + sep_at(b.drop_first(), sep)
    }
}

pub proof fn lemma_sep_at(b: Seq<u8>, sep: u8)
    ensures
        0 <= sep_at(b, sep) <= b.len(),
        forall|i: int| 0 <= i < sep_at(b, sep) ==> b[i] != sep,
        sep_at(b, sep) < b.len() ==> b[sep_at(b, sep)] == sep,
    decreases b.len(),
{
    if b.len() > 0 && b[0] != sep {
        lemma_sep_at(b.drop_first(), sep);
        assert forall|i: int| 0 <= i < sep_at(b, sep) implies b[i] != sep by {
            if i > 0 {
                assert(b[i] == b.drop_first()[i - 1]);
            }
        }
    }
}

proof fn lemma_sep_at_is(b: Seq<u8>, sep: u8, n: int)
    requires
        0 <= n <= b.len(),
        forall|i: int| 0 <= i < n ==> b[i] != sep,
        n < b.len() ==> b[n] == sep,
    ensures
        sep_at(b, sep) == n,
    decreases n,
{
    if n > 0 {
        lemma_sep_at_is(b.drop_first(), sep, n - 1);
    }
}

/// The parts of `b` between occurrences of `sep`, as `str::split` yields them.
pub open spec fn split(b: Seq<u8>, sep: u8) -> Seq<Seq<u8>>
    decreases b.len(),
{
    let k = sep_at(b, sep);
    if k < b.len() {
        proof {
            lemma_sep_at(b, sep);
        }
        seq![b.take(k)] + split(b.skip(k + 1), sep)
    } else {
        seq![b]
    }
}

/// Splits `b` at every `sep`.
pub fn split_bytes(b: &[u8], sep: u8) -> (r: Vec<Vec<u8>>)
    ensures
        r@.len() == split(b@, sep).len(),
        forall|i: int| 0 <= i < r@.len() ==> #[trigger] r@[i]@ == split(b@, sep)[i],
{
    let mut parts: Vec<Vec<u8>> = Vec::new();
    let mut start: usize = 0;
    let ghost whole = split(b@, sep);
    assert(b@.skip(0) =~= b@);
    loop
        invariant
            start <= b.len(),
            whole == split(b@, sep),
            parts@.len() + split(b@.skip(start as int), sep).len() == whole.len(),
            forall|i: int| 0 <= i < parts@.len() ==> #[trigger] parts@[i]@ == whole[i],
            forall|i: int| 0 <= i < split(b@.skip(start as int), sep).len()
                ==> #[trigger] split(b@.skip(start as int), sep)[i] == whole[parts@.len() + i],
        decreases b.len() - start,
    {
        let ghost s = b@.skip(start as int);
        let mut part: Vec<u8> = Vec::new();
        let mut k: usize = start;
        while k < b.len() && b[k] != sep
            invariant
                start <= k <= b.len(),
                s == b@.skip(start as int),
                part@ == b@.subrange(start as int, k as int),
                forall|i: int| start <= i < k ==> b@[i] != sep,
            decreases b.len() - k,
        {
            part.push(b[k]);
            k = k + 1;
            assert(part@ =~= b@.subrange(start as int, k as int));
        }
        proof {
            assert forall|i: int| 0 <= i < k - start implies s[i] != sep by {
                assert(s[i] == b@[start + i]);
            }
            lemma_sep_at_is(s, sep, k - start);
            assert(part@ =~= s.take(k - start));
        }
        let ghost n: int = parts@.len() as int;
        parts.push(part);
        if k == b.len() {
            assert(s.take(k - start) =~= s);
            assert(split(s, sep) == seq![s]);
            assert(parts@.len() == whole.len());
            assert forall|i: int| 0 <= i < parts@.len() implies #[trigger] parts@[i]@ == whole[i] by {
                if i == n {
                    assert(split(s, sep)[0] == whole[n + 0]);
                }
            }
            return parts;
        }
        let ghost rest = s.skip(k - start + 1);
        assert(rest =~= b@.skip(k + 1));
        assert(split(s, sep) == seq![s.take(k - start)] + split(rest, sep));
        assert forall|i: int| 0 <= i < parts@.len() implies #[trigger] parts@[i]@ == whole[i] by {
            if i == n {
                assert(split(s, sep)[0] == whole[n + 0]);
            }
        }
        assert forall|i: int| 0 <= i < split(rest, sep).len()
            implies #[trigger] split(rest, sep)[i] == whole[parts@.len() + i] by {
            assert(split(s, sep)[i + 1] == split(rest, sep)[i]);
            assert(split(s, sep)[i + 1] == whole[n + (i + 1)]);
        }
        start = k + 1;
    }
}

/// Every `/`-separated segment of `b` is allowed.
pub open spec fn segments_ok(b: Seq<u8>) -> bool {
    forall|i: int| 0 <= i < split(b, 0x2f).len() ==> !bad_segment(#[trigger] split(b, 0x2f)[i])
}

/// A relative, normalized path inside a worktree.
pub open spec fn path_ok(b: Seq<u8>) -> bool {
    &&& bounded_ok(b)
    &&& b[0] != 0x2f
    &&& b[b.len() - 1] != 0x2f
    &&& !has_byte(b, 0x5c)
    &&& !has_control(b)
    &&& segments_ok(b)
}

/// Checks an identifier field.
pub fn validate_id(value: &str, field: &'static str) -> (r: Result<(), ActionError>)
    ensures
        r == (if id_ok(encode_utf8(value@)) {
            Ok(())
        } else {
            Err(ActionError::InvalidField(field))
        }),
{
    let b = value.as_bytes();
    if b.len() == 0 || b.len() > 128 {
        return Err(ActionError::InvalidField(field));
    }
    let first = b[0];
    if !((0x30 <= first && first <= 0x39) || (0x61 <= first && first <= 0x7a) || (0x41 <= first
        && first <= 0x5a)) {
        return Err(ActionError::InvalidField(field));
    }
    let mut i: usize = 1;
    while i < b.len()
        invariant
            1 <= i <= b.len(),
            b@ == encode_utf8(value@),
            forall|j: int| 1 <= j < i ==> id_byte(#[trigger] b@[j]),
        decreases b.len() - i,
    {
        let c = b[i];
        if !((0x30 <= c && c <= 0x39) || (0x61 <= c && c <= 0x7a) || (0x41 <= c && c <= 0x5a)
            || c == 0x2e || c == 0x5f || c == 0x3a || c == 0x2d) {
            assert(!id_byte(b@[i as int]));
            return Err(ActionError::InvalidField(field));
        }
        i = i + 1;
    }
    Ok(())
}

/// Checks a digest field.
pub fn validate_digest(value: &str, field: &'static str) -> (r: Result<(), ActionError>)
    ensures
        r == (if is_sha256_bytes(encode_utf8(value@)) {
            Ok(())
        } else {
            Err(ActionError::InvalidDigest(field))
        }),
{
    if !is_sha256(value) {
        return Err(ActionError::InvalidDigest(field));
    }
    Ok(())
}

/// Checks a size or count field.
pub fn validate_count(value: u64, maximum: u64, field: &'static str) -> (r: Result<(), ActionError>)
    ensures
        r == (if count_ok(value, maximum) {
            Ok(())
        } else {
            Err(ActionError::InvalidField(field))
        }),
{
    if value == 0 || value > maximum || value > MAX_SAFE_JSON_INTEGER {
        return Err(ActionError::InvalidField(field));
    }
    Ok(())
}

/// Whether a string is non-empty, at most 4096 bytes and free of NUL bytes.
pub fn is_bounded_string(value: &str) -> (r: bool)
    ensures
        r == bounded_ok(encode_utf8(value@)),
{
    let b = value.as_bytes();
    b.len() != 0 && b.len() <= 4096 && !contains_byte(b, 0)
}

/// Checks a git reference field.
pub fn validate_ref(value: &str, field: &'static str) -> (r: Result<(), ActionError>)
    ensures
        r == (if ref_ok(encode_utf8(value@)) {
            Ok(())
        } else {
            Err(ActionError::InvalidField(field))
        }),
{
    let b = value.as_bytes();
    if !is_bounded_string(value) || b[0] == 0x2d || contains_pair(b, 0x2e, 0x2e)
        || contains_control(b) {
        return Err(ActionError::InvalidField(field));
    }
    Ok(())
}

/// Checks a git object id field.
pub fn validate_oid(value: &str, field: &'static str) -> (r: Result<(), ActionError>)
    ensures
        r == (if oid_ok(encode_utf8(value@)) {
            Ok(())
        } else {
            Err(ActionError::InvalidField(field))
        }),
{
    let b = value.as_bytes();
    if b.len() != 40 && b.len() != 64 {
        return Err(ActionError::InvalidField(field));
    }
    let mut i: usize = 0;
    while i < b.len()
        invariant
            i <= b.len(),
            b@ == encode_utf8(value@),
            b@.len() == 40 || b@.len() == 64,
            forall|j: int| 0 <= j < i ==> is_lower_hex(#[trigger] b@[j]),
        decreases b.len() - i,
    {
        let c = b[i];
        if !((0x30 <= c && c <= 0x39) || (0x61 <= c && c <= 0x66)) {
            assert(!is_lower_hex(b@[i as int]));
            return Err(ActionError::InvalidField(field));
        }
        i = i + 1;
    }
    Ok(())
}

fn is_bad_segment(seg: &Vec<u8>) -> (r: bool)
    ensures
        r == bad_segment(seg@),
{
    let n = seg.len();
    let bad = n == 0 || (n == 1 && seg[0] == 0x2e) || (n == 2 && seg[0] == 0x2e && seg[1] == 0x2e)
        || (n == 4 && seg[0] == 0x2e && seg[1] == 0x67 && seg[2] == 0x69 && seg[3] == 0x74);
    proof {
        let s = seg@;
        if n == 1 && s == seq![0x2eu8] {
            assert(s[0] == 0x2e);
        }
        if n == 2 && s == seq![0x2eu8, 0x2eu8] {
            assert(s[0] == 0x2e && s[1] == 0x2e);
        }
        if n == 4 && s == seq![0x2eu8, 0x67u8, 0x69u8, 0x74u8] {
            assert(s[0] == 0x2e && s[1] == 0x67 && s[2] == 0x69 && s[3] == 0x74);
        }
        if n == 1 && s[0] == 0x2e {
            assert(s =~= seq![0x2eu8]);
        }
        if n == 2 && s[0] == 0x2e && s[1] == 0x2e {
            assert(s =~= seq![0x2eu8, 0x2eu8]);
        }
        if n == 4 && s[0] == 0x2e && s[1] == 0x67 && s[2] == 0x69 && s[3] == 0x74 {
            assert(s =~= seq![0x2eu8, 0x67u8, 0x69u8, 0x74u8]);
        }
    }
    bad
}

fn segments_allowed(b: &[u8]) -> (r: bool)
    ensures
        r == segments_ok(b@),
{
    let parts = split_bytes(b, 0x2f);
    let mut i: usize = 0;
    while i < parts.len()
        invariant
            i <= parts@.len(),
            parts@.len() == split(b@, 0x2f).len(),
            forall|j: int| 0 <= j < parts@.len() ==> #[trigger] parts@[j]@ == split(b@, 0x2f)[j],
            forall|j: int| 0 <= j < i ==> !bad_segment(#[trigger] split(b@, 0x2f)[j]),
        decreases parts.len() - i,
    {
        if is_bad_segment(&parts[i]) {
            assert(bad_segment(split(b@, 0x2f)[i as int]));
            return false;
        }
        i = i + 1;
    }
    true
}

/// Checks a relative worktree path.
pub fn validate_path(path: &str, field: &'static str) -> (r: Result<(), ActionError>)
    ensures
        r == (if path_ok(encode_utf8(path@)) {
            Ok(())
        } else {
            Err(ActionError::InvalidField(field))
        }),
{
    let b = path.as_bytes();
    if !is_bounded_string(path) || b[0] == 0x2f || b[b.len() - 1] == 0x2f || contains_byte(b, 0x5c)
        || contains_control(b) || !segments_allowed(b) {
        return Err(ActionError::InvalidField(field));
    }
    Ok(())
}

/// The check of one identifier field.
pub open spec fn id_check(s: Seq<char>, field: &'static str) -> Result<(), ActionError> {
    if id_ok(encode_utf8(s)) {
        Ok(())
    } else {
        Err(ActionError::InvalidField(field))
    }
}

/// The check of one digest field.
pub open spec fn digest_check(s: Seq<char>, field: &'static str) -> Result<(), ActionError> {
    if is_sha256_bytes(encode_utf8(s)) {
        Ok(())
    } else {
        Err(ActionError::InvalidDigest(field))
    }
}

/// The check of one path field.
pub open spec fn path_check(s: Seq<char>, field: &'static str) -> Result<(), ActionError> {
    if path_ok(encode_utf8(s)) {
        Ok(())
    } else {
        Err(ActionError::InvalidField(field))
    }
}

/// The check of one git reference field.
pub open spec fn ref_check(s: Seq<char>, field: &'static str) -> Result<(), ActionError> {
    if ref_ok(encode_utf8(s)) {
        Ok(())
    } else {
        Err(ActionError::InvalidField(field))
    }
}

/// The check of one git object id field.
pub open spec fn oid_check(s: Seq<char>, field: &'static str) -> Result<(), ActionError> {
    if oid_ok(encode_utf8(s)) {
        Ok(())
    } else {
        Err(ActionError::InvalidField(field))
    }
}

/// The check of one count field.
pub open spec fn count_check(v: u64, maximum: u64, field: &'static str) -> Result<(), ActionError> {
    if count_ok(v, maximum) {
        Ok(())
    } else {
        Err(ActionError::InvalidField(field))
    }
}

/// The checks of the first `n` paths, in order: each path must be valid and
/// greater than the one before it.
pub open spec fn paths_scan(ps: Seq<String>, n: int, field: &'static str) -> Result<(), ActionError>
    decreases n,
{
    if n <= 0 {
        Ok(())
    } else {
        then_check(
            paths_scan(ps, n - 1, field),
            if !path_ok(sb(ps[n - 1])) {
                Err(ActionError::InvalidField(field))
            } else if n >= 2 && !lex_lt(sb(ps[n - 2]), sb(ps[n - 1])) {
                Err(ActionError::InvalidCollection(field))
            } else {
                Ok(())
            },
        )
    }
}

/// The check of a path collection.
pub open spec fn paths_check(ps: Seq<String>, field: &'static str) -> Result<(), ActionError> {
    if ps.len() == 0 || ps.len() > MAX_PATHS {
        Err(ActionError::InvalidCollection(field))
    } else {
        paths_scan(ps, ps.len() as int, field)
    }
}

/// 1 to 256 valid paths in strictly increasing byte order.
pub open spec fn paths_valid(ps: Seq<String>) -> bool {
    &&& 0 < ps.len() <= MAX_PATHS
    &&& forall|i: int| 0 <= i < ps.len() ==> path_ok(#[trigger] sb(ps[i]))
    &&& forall|i: int| 0 < i < ps.len() ==> lex_lt(sb(ps[i - 1]), #[trigger] sb(ps[i]))
}

proof fn lemma_paths_scan(ps: Seq<String>, n: int, field: &'static str)
    requires
        0 <= n <= ps.len(),
    ensures
        paths_scan(ps, n, field) is Ok <==> (forall|i: int| 0 <= i < n ==> path_ok(#[trigger] sb(ps[i])))
            && (forall|i: int| 0 < i < n ==> lex_lt(sb(ps[i - 1]), #[trigger] sb(ps[i]))),
    decreases n,
{
    if n > 0 {
        lemma_paths_scan(ps, n - 1, field);
    }
}

/// The path collection check succeeds exactly on valid path collections.
pub proof fn lemma_paths_check(ps: Seq<String>, field: &'static str)
    ensures
        paths_check(ps, field) is Ok <==> paths_valid(ps),
{
    if 0 < ps.len() <= MAX_PATHS {
        lemma_paths_scan(ps, ps.len() as int, field);
    }
}

/// Checks a path collection.
pub fn validate_paths(paths: &Vec<String>, field: &'static str) -> (r: Result<(), ActionError>)
    ensures
        r == paths_check(paths@, field),
{
    if paths.len() == 0 || paths.len() > MAX_PATHS {
        return Err(ActionError::InvalidCollection(field));
    }
    let mut i: usize = 0;
    while i < paths.len()
        invariant
            0 < paths@.len() <= MAX_PATHS,
            i <= paths@.len(),
            paths_scan(paths@, i as int, field) == Ok::<(), ActionError>(()),
        decreases paths.len() - i,
    {
        let r = validate_path(paths[i].as_str(), field);
        if r.is_err() {
            proof {
                lemma_paths_scan_err(paths@, i as int + 1, paths@.len() as int, field);
            }
            return r;
        }
        if i > 0 && !bytes_lt(paths[i - 1].as_str().as_bytes(), paths[i].as_str().as_bytes()) {
            proof {
                lemma_paths_scan_err(paths@, i as int + 1, paths@.len() as int, field);
            }
            return Err(ActionError::InvalidCollection(field));
        }
        i = i + 1;
    }
    Ok(())
}

proof fn lemma_paths_scan_err(ps: Seq<String>, n: int, m: int, field: &'static str)
    requires
        0 < n <= m,
        paths_scan(ps, n, field) is Err,
    ensures
        paths_scan(ps, m, field) == paths_scan(ps, n, field),
    decreases m - n,
{
    if m > n {
        lemma_paths_scan_err(ps, n, m - 1, field);
    }
}

/// 1 to `max` bounded strings in strictly increasing byte order.
pub open spec fn sorted_strings_ok(values: Seq<String>, max: usize) -> bool {
    &&& 0 < values.len() <= max
    &&& forall|i: int| 0 <= i < values.len() ==> bounded_ok(#[trigger] sb(values[i]))
    &&& forall|i: int| 0 < i < values.len() ==> lex_lt(sb(values[i - 1]), #[trigger] sb(values[i]))
}

/// Checks a sorted collection of bounded strings.
pub fn validate_sorted_strings(values: &Vec<String>, max: usize, field: &'static str) -> (r: Result<
    (),
    ActionError,
>)
    ensures
        r == (if sorted_strings_ok(values@, max) {
            Ok(())
        } else {
            Err(ActionError::InvalidCollection(field))
        }),
{
    if values.len() == 0 || values.len() > max {
        return Err(ActionError::InvalidCollection(field));
    }
    let mut i: usize = 0;
    while i < values.len()
        invariant
            0 < values@.len() <= max,
            i <= values@.len(),
            forall|j: int| 0 <= j < i ==> bounded_ok(#[trigger] sb(values@[j])),
            forall|j: int| 0 < j < i ==> lex_lt(sb(values@[j - 1]), #[trigger] sb(values@[j])),
        decreases values.len() - i,
    {
        if !is_bounded_string(values[i].as_str()) || (i > 0 && !bytes_lt(
            values[i - 1].as_str().as_bytes(),
            values[i].as_str().as_bytes(),
        )) {
            assert(!bounded_ok(sb(values@[i as int])) || (i > 0 && !lex_lt(
                sb(values@[i - 1]),
                sb(values@[i as int]),
            )));
            return Err(ActionError::InvalidCollection(field));
        }
        i = i + 1;
    }
    Ok(())
}

/// At most 128 bounded arguments.
pub open spec fn argv_ok(argv: Seq<String>) -> bool {
    argv.len() <= MAX_ARGV && forall|i: int| 0 <= i < argv.len() ==> bounded_ok(#[trigger] sb(argv[i]))
}

fn validate_argv(argv: &Vec<String>) -> (r: Result<(), ActionError>)
    ensures
        r == (if argv_ok(argv@) {
            Ok(())
        } else {
            Err(ActionError::InvalidCollection("operation.argv"))
        }),
{
    if argv.len() > MAX_ARGV {
        return Err(ActionError::InvalidCollection("operation.argv"));
    }
    let mut i: usize = 0;
    while i < argv.len()
        invariant
            argv@.len() <= MAX_ARGV,
            i <= argv@.len(),
            forall|j: int| 0 <= j < i ==> bounded_ok(#[trigger] sb(argv@[j])),
        decreases argv.len() - i,
    {
        if !is_bounded_string(argv[i].as_str()) {
            assert(!bounded_ok(sb(argv@[i as int])));
            return Err(ActionError::InvalidCollection("operation.argv"));
        }
        i = i + 1;
    }
    Ok(())
}

/// The checks of one provenance record, in order.
pub open spec fn provenance_item_check(p: Provenance) -> Result<(), ActionError> {
    then_check(
        id_check(p.source_kind@, "provenance.source_kind"),
        then_check(
            id_check(p.source_id@, "provenance.source_id"),
            digest_check(p.content_digest@, "provenance.content_digest"),
        ),
    )
}

/// The checks of the first `n` provenance records, in order.
pub open spec fn provenance_scan(ps: Seq<Provenance>, n: int) -> Result<(), ActionError>
    decreases n,
{
    if n <= 0 {
        Ok(())
    } else {
        then_check(provenance_scan(ps, n - 1), provenance_item_check(ps[n - 1]))
    }
}

/// The check of the provenance collection.
pub open spec fn provenance_check(ps: Seq<Provenance>) -> Result<(), ActionError> {
    if ps.len() == 0 || ps.len() > MAX_PROVENANCE {
        Err(ActionError::InvalidCollection("provenance"))
    } else {
        provenance_scan(ps, ps.len() as int)
    }
}

proof fn lemma_provenance_scan_err(ps: Seq<Provenance>, n: int, m: int)
    requires
        0 < n <= m,
        provenance_scan(ps, n) is Err,
    ensures
        provenance_scan(ps, m) == provenance_scan(ps, n),
    decreases m - n,
{
    if m > n {
        lemma_provenance_scan_err(ps, n, m - 1);
    }
}

fn validate_provenance(provenance: &Vec<Provenance>) -> (r: Result<(), ActionError>)
    ensures
        r == provenance_check(provenance@),
{
    if provenance.len() == 0 || provenance.len() > MAX_PROVENANCE {
        return Err(ActionError::InvalidCollection("provenance"));
    }
    let mut i: usize = 0;
    while i < provenance.len()
        invariant
            0 < provenance@.len() <= MAX_PROVENANCE,
            i <= provenance@.len(),
            provenance_scan(provenance@, i as int) == Ok::<(), ActionError>(()),
        decreases provenance.len() - i,
    {
        let value = &provenance[i];
        let mut r = validate_id(value.source_kind.as_str(), "provenance.source_kind");
        if r.is_ok() {
            r = validate_id(value.source_id.as_str(), "provenance.source_id");
        }
        if r.is_ok() {
            r = validate_digest(value.content_digest.as_str(), "provenance.content_digest");
        }
        assert(r == provenance_item_check(provenance@[i as int]));
        if r.is_err() {
            proof {
                lemma_provenance_scan_err(provenance@, i as int + 1, provenance@.len() as int);
            }
            return r;
        }
        i = i + 1;
    }
    Ok(())
}

/// The bytes `https`.
pub open spec fn https_bytes() -> Seq<u8> {
    seq![0x68u8, 0x74u8, 0x74u8, 0x70u8, 0x73u8]
}

/// A DNS label: 1 to 63 lower-case letters, digits or `-`, not starting or
/// ending with `-`.
pub open spec fn label_ok(l: Seq<u8>) -> bool {
    &&& 0 < l.len() <= 63
    &&& l[0] != 0x2d
    &&& l[l.len() - 1] != 0x2d
    &&& forall|i: int| 0 <= i < l.len() ==> #[trigger] is_lower(l[i]) || is_digit(l[i]) || l[i] == 0x2d
}

/// The value of a run of decimal digits.
pub open spec fn digits_value(o: Seq<u8>) -> nat
    decreases o.len(),
{
    if o.len() == 0 {
        0
    } else {
        digits_value(o.drop_last()) * 10 + (o.last() - 0x30) as nat
    }
}

/// One octet of a dotted-decimal IPv4 address: 1 to 3 digits, no leading
/// zero, at most 255.
pub open spec fn octet_ok(o: Seq<u8>) -> bool {
    &&& 0 < o.len() <= 3
    &&& forall|i: int| 0 <= i < o.len() ==> is_digit(#[trigger] o[i])
    &&& (o.len() == 1 || o[0] != 0x30)
    &&& digits_value(o) <= 255
}

/// A dotted-decimal IPv4 address, the text form that `std` parses as an
/// `Ipv4Addr` (octal and hexadecimal octets are refused). A host that passes
/// the label rule holds no `:`, so it is never an IPv6 address.
pub open spec fn ipv4_ok(b: Seq<u8>) -> bool {
    split(b, 0x2e).len() == 4 && forall|i: int| 0 <= i < 4 ==> octet_ok(#[trigger] split(b, 0x2e)[i])
}

/// A lower-case DNS host name with at least two labels that is not an IP address.
pub open spec fn host_ok(b: Seq<u8>) -> bool {
    &&& 0 < b.len() <= 253
    &&& forall|i: int| 0 <= i < b.len() ==> #[trigger] b[i] < 0x80
    &&& forall|i: int| 0 <= i < b.len() ==> !crate::bytes::is_upper(#[trigger] b[i])
    &&& b[b.len() - 1] != 0x2e
    &&& has_byte(b, 0x2e)
    &&& forall|i: int| 0 <= i < split(b, 0x2e).len() ==> label_ok(#[trigger] split(b, 0x2e)[i])
    &&& !ipv4_ok(b)
}

/// An absolute ASCII request path without query, fragment or control bytes.
pub open spec fn destination_path_ok(b: Seq<u8>) -> bool {
    &&& 0 < b.len() <= 4096
    &&& b[0] == 0x2f
    &&& forall|i: int| 0 <= i < b.len() ==> #[trigger] b[i] < 0x80
    &&& !has_byte(b, 0x3f)
    &&& !has_byte(b, 0x23)
    &&& !has_control(b)
}

/// The checks of a destination, in order.
pub open spec fn destination_check(d: Destination) -> Result<(), ActionError> {
    if sb(d.scheme) != https_bytes() {
        Err(ActionError::InvalidField("destination.scheme"))
    } else if !host_ok(sb(d.host)) {
        Err(ActionError::InvalidField("destination.host"))
    } else if d.port == 0 {
        Err(ActionError::InvalidField("destination.port"))
    } else if !destination_path_ok(sb(d.path)) {
        Err(ActionError::InvalidField("destination.path"))
    } else {
        Ok(())
    }
}

fn label_allowed(l: &Vec<u8>) -> (r: bool)
    ensures
        r == label_ok(l@),
{
    if l.len() == 0 || l.len() > 63 || l[0] == 0x2d || l[l.len() - 1] == 0x2d {
        return false;
    }
    let mut i: usize = 0;
    while i < l.len()
        invariant
            i <= l@.len(),
            forall|j: int| 0 <= j < i ==> #[trigger] is_lower(l@[j]) || is_digit(l@[j]) || l@[j] == 0x2d,
        decreases l.len() - i,
    {
        let c = l[i];
        if !((0x61 <= c && c <= 0x7a) || (0x30 <= c && c <= 0x39) || c == 0x2d) {
            assert(!(is_lower(l@[i as int]) || is_digit(l@[i as int]) || l@[i as int] == 0x2d));
            return false;
        }
        i = i + 1;
    }
    true
}

fn octet_allowed(o: &Vec<u8>) -> (r: bool)
    ensures
        r == octet_ok(o@),
{
    if o.len() == 0 || o.len() > 3 {
        return false;
    }
    let mut value: u32 = 0;
    let mut i: usize = 0;
    while i < o.len()
        invariant
            0 < o@.len() <= 3,
            i <= o@.len(),
            forall|j: int| 0 <= j < i ==> is_digit(#[trigger] o@[j]),
            value == digits_value(o@.take(i as int)),
            value < 1000,
            i == 0 ==> value == 0,
            i == 1 ==> value < 10,
            i == 2 ==> value < 100,
        decreases o.len() - i,
    {
        let c = o[i];
        if !(0x30 <= c && c <= 0x39) {
            assert(!is_digit(o@[i as int]));
            return false;
        }
        assert(o@.take(i + 1).drop_last() =~= o@.take(i as int));
        value = value * 10 + (c - 0x30) as u32;
        i = i + 1;
    }
    assert(o@.take(i as int) =~= o@);
    (o.len() == 1 || o[0] != 0x30) && value <= 255
}

fn is_ipv4(b: &[u8]) -> (r: bool)
    ensures
        r == ipv4_ok(b@),
{
    let parts = split_bytes(b, 0x2e);
    if parts.len() != 4 {
        return false;
    }
    let mut i: usize = 0;
    while i < 4
        invariant
            i <= 4,
            parts@.len() == 4,
            parts@.len() == split(b@, 0x2e).len(),
            forall|j: int| 0 <= j < parts@.len() ==> #[trigger] parts@[j]@ == split(b@, 0x2e)[j],
            forall|j: int| 0 <= j < i ==> octet_ok(#[trigger] split(b@, 0x2e)[j]),
        decreases 4 - i,
    {
        if !octet_allowed(&parts[i]) {
            assert(!octet_ok(split(b@, 0x2e)[i as int]));
            return false;
        }
        i = i + 1;
    }
    true
}

fn host_allowed(b: &[u8]) -> (r: bool)
    ensures
        r == host_ok(b@),
{
    if b.len() == 0 || b.len() > 253 {
        return false;
    }
    let mut i: usize = 0;
    while i < b.len()
        invariant
            i <= b@.len(),
            forall|j: int| 0 <= j < i ==> #[trigger] b@[j] < 0x80,
            forall|j: int| 0 <= j < i ==> !crate::bytes::is_upper(#[trigger] b@[j]),
        decreases b.len() - i,
    {
        if b[i] >= 0x80 || (0x41 <= b[i] && b[i] <= 0x5a) {
            return false;
        }
        i = i + 1;
    }
    if b[b.len() - 1] == 0x2e || !contains_byte(b, 0x2e) {
        return false;
    }
    let labels = split_bytes(b, 0x2e);
    let mut k: usize = 0;
    while k < labels.len()
        invariant
            k <= labels@.len(),
            labels@.len() == split(b@, 0x2e).len(),
            forall|j: int| 0 <= j < labels@.len() ==> #[trigger] labels@[j]@ == split(b@, 0x2e)[j],
            forall|j: int| 0 <= j < k ==> label_ok(#[trigger] split(b@, 0x2e)[j]),
        decreases labels.len() - k,
    {
        if !label_allowed(&labels[k]) {
            assert(!label_ok(split(b@, 0x2e)[k as int]));
            return false;
        }
        k = k + 1;
    }
    !is_ipv4(b)
}

fn destination_path_allowed(b: &[u8]) -> (r: bool)
    ensures
        r == destination_path_ok(b@),
{
    if b.len() == 0 || b.len() > 4096 || b[0] != 0x2f {
        return false;
    }
    let mut i: usize = 0;
    while i < b.len()
        invariant
            i <= b@.len(),
            forall|j: int| 0 <= j < i ==> #[trigger] b@[j] < 0x80,
        decreases b.len() - i,
    {
        if b[i] >= 0x80 {
            return false;
        }
        i = i + 1;
    }
    !contains_byte(b, 0x3f) && !contains_byte(b, 0x23) && !contains_control(b)
}

impl Destination {
    /// Checks the destination: an `https` URL of a DNS host with a non-zero
    /// port and a plain absolute path.
    pub fn validate(&self) -> (r: Result<(), ActionError>)
        ensures
            r == destination_check(*self),
    {
        let scheme = self.scheme.as_str().as_bytes();
        if !(scheme.len() == 5 && scheme[0] == 0x68 && scheme[1] == 0x74 && scheme[2] == 0x74
            && scheme[3] == 0x70 && scheme[4] == 0x73) {
            proof {
                if scheme@ == https_bytes() {
                    assert(scheme@[0] == 0x68 && scheme@[1] == 0x74 && scheme@[2] == 0x74
                        && scheme@[3] == 0x70 && scheme@[4] == 0x73);
                }
            }
            return Err(ActionError::InvalidField("destination.scheme"));
        }
        assert(scheme@ =~= https_bytes());
        if !host_allowed(self.host.as_str().as_bytes()) {
            return Err(ActionError::InvalidField("destination.host"));
        }
        if self.port == 0 {
            return Err(ActionError::InvalidField("destination.port"));
        }
        if !destination_path_allowed(self.path.as_str().as_bytes()) {
            return Err(ActionError::InvalidField("destination.path"));
        }
        Ok(())
    }
}

/// `p` is one of `allowed`.
pub open spec fn path_in(p: String, allowed: Seq<String>) -> bool {
    exists|j: int| 0 <= j < allowed.len() && #[trigger] allowed[j]@ == p@
}

/// Every path of `ops` is one of `allowed`.
pub open spec fn paths_within(ops: Seq<String>, allowed: Seq<String>) -> bool {
    forall|i: int| 0 <= i < ops.len() ==> path_in(#[trigger] ops[i], allowed)
}

fn all_paths_within(ops: &Vec<String>, allowed: &Vec<String>) -> (r: bool)
    ensures
        r == paths_within(ops@, allowed@),
{
    let mut i: usize = 0;
    while i < ops.len()
        invariant
            i <= ops@.len(),
            forall|k: int| 0 <= k < i ==> path_in(#[trigger] ops@[k], allowed@),
        decreases ops.len() - i,
    {
        let mut j: usize = 0;
        let mut found = false;
        while j < allowed.len() && !found
            invariant
                j <= allowed@.len(),
                i < ops@.len(),
                found ==> path_in(ops@[i as int], allowed@),
                !found ==> forall|jj: int| 0 <= jj < j ==> #[trigger] allowed@[jj]@ != ops@[i as int]@,
            decreases allowed.len() - j,
        {
            if allowed[j] == ops[i] {
                found = true;
            }
            j = j + 1;
        }
        if !found {
            assert(!path_in(ops@[i as int], allowed@));
            return false;
        }
        i = i + 1;
    }
    true
}

/// Two destinations are field by field equal.
pub open spec fn same_destination(a: Destination, b: Destination) -> bool {
    a.scheme@ == b.scheme@ && a.host@ == b.host@ && a.port == b.port && a.path@ == b.path@
}

impl Destination {
    /// Field-by-field equality.
    pub fn same_as(&self, other: &Destination) -> (r: bool)
        ensures
            r == same_destination(*self, *other),
    {
        self.scheme == other.scheme && self.host == other.host && self.port == other.port
            && self.path == other.path
    }
}

/// The kind of a capability scope.
pub open spec fn scope_kind(scope: CapabilityScope) -> CapabilityKind {
    match scope {
        CapabilityScope::ProjectPaths { capability, .. } => match capability {
            PathCapability::Read => CapabilityKind::ProjectRead,
            PathCapability::ApplyPatch => CapabilityKind::ProjectApplyPatch,
        },
        CapabilityScope::BrokerCommand { .. } => CapabilityKind::BrokerCommand,
        CapabilityScope::Provider { .. } => CapabilityKind::ProviderSubmit,
        CapabilityScope::Credential { .. } => CapabilityKind::CredentialUse,
        CapabilityScope::Integration { .. } => CapabilityKind::WorktreeIntegrate,
    }
}

/// The checks of a capability scope, in order.
pub open spec fn scope_check(scope: CapabilityScope) -> Result<(), ActionError> {
    match scope {
        CapabilityScope::ProjectPaths { project_id, run_id, worktree_id, paths, .. } => then_check(
            id_check(project_id@, "capability.project_id"),
            then_check(
                id_check(run_id@, "capability.run_id"),
                then_check(
                    id_check(worktree_id@, "capability.worktree_id"),
                    paths_check(paths@, "capability.paths"),
                ),
            ),
        ),
        CapabilityScope::BrokerCommand { project_id, run_id, worktree_id, catalog_entry_id } =>
            then_check(
            id_check(project_id@, "capability.project_id"),
            then_check(
                id_check(run_id@, "capability.run_id"),
                then_check(
                    id_check(worktree_id@, "capability.worktree_id"),
                    id_check(catalog_entry_id@, "capability.catalog_entry_id"),
                ),
            ),
        ),
        CapabilityScope::Provider { project_id, run_id, provider_id, account_id, destination } =>
            then_check(
            id_check(project_id@, "capability.project_id"),
            then_check(
                id_check(run_id@, "capability.run_id"),
                then_check(
                    id_check(provider_id@, "capability.provider_id"),
                    then_check(
                        id_check(account_id@, "capability.account_id"),
                        destination_check(destination),
                    ),
                ),
            ),
        ),
        CapabilityScope::Credential {
            project_id,
            run_id,
            provider_id,
            account_id,
            credential_ref,
            destination,
        } => then_check(
            id_check(project_id@, "capability.project_id"),
            then_check(
                id_check(run_id@, "capability.run_id"),
                then_check(
                    id_check(provider_id@, "capability.provider_id"),
                    then_check(
                        id_check(account_id@, "capability.account_id"),
                        then_check(
                            id_check(credential_ref@, "capability.credential_ref"),
                            destination_check(destination),
                        ),
                    ),
                ),
            ),
        ),
        CapabilityScope::Integration { project_id, run_id, worktree_id, target_ref } => then_check(
            id_check(project_id@, "capability.project_id"),
            then_check(
                id_check(run_id@, "capability.run_id"),
                then_check(
                    id_check(worktree_id@, "capability.worktree_id"),
                    ref_check(target_ref@, "capability.target_ref"),
                ),
            ),
        ),
    }
}

/// Whether a scope covers exactly what an action does: same project, run and
/// target, and every path of the operation among the scope's paths.
pub open spec fn scope_matches(scope: CapabilityScope, a: ActionProposal) -> bool {
    match (scope, a.operation) {
        (
            CapabilityScope::ProjectPaths { capability, project_id, run_id, worktree_id, paths },
            ActionOperation::ReadFiles { worktree_id: ow, paths: ops },
        ) => {
            &&& capability == PathCapability::Read
            &&& project_id@ == a.project_id@
            &&& run_id@ == a.run_id@
            &&& worktree_id@ == ow@
            &&& paths_within(ops@, paths@)
        },
        (
            CapabilityScope::ProjectPaths { capability, project_id, run_id, worktree_id, paths },
            ActionOperation::ApplyPatch { worktree_id: ow, affected_paths, .. },
        ) => {
            &&& capability == PathCapability::ApplyPatch
            &&& project_id@ == a.project_id@
            &&& run_id@ == a.run_id@
            &&& worktree_id@ == ow@
            &&& paths_within(affected_paths@, paths@)
        },
        (
            CapabilityScope::BrokerCommand { project_id, run_id, worktree_id, catalog_entry_id },
            ActionOperation::RunBrokerCommand { worktree_id: ow, catalog_entry_id: oe, .. },
        ) => {
            &&& project_id@ == a.project_id@
            &&& run_id@ == a.run_id@
            &&& worktree_id@ == ow@
            &&& catalog_entry_id@ == oe@
        },
        (
            CapabilityScope::Provider { project_id, run_id, provider_id, account_id, destination },
            ActionOperation::SubmitProviderRequest {
                provider_id: op,
                account_id: oa,
                destination: od,
                ..
            },
        ) => {
            &&& project_id@ == a.project_id@
            &&& run_id@ == a.run_id@
            &&& provider_id@ == op@
            &&& account_id@ == oa@
            &&& same_destination(destination, od)
        },
        (
            CapabilityScope::Credential {
                project_id,
                run_id,
                provider_id,
                account_id,
                credential_ref,
                destination,
            },
            ActionOperation::UseCredential {
                provider_id: op,
                account_id: oa,
                credential_ref: oc,
                destination: od,
            },
        ) => {
            &&& project_id@ == a.project_id@
            &&& run_id@ == a.run_id@
            &&& provider_id@ == op@
            &&& account_id@ == oa@
            &&& credential_ref@ == oc@
            &&& same_destination(destination, od)
        },
        (
            CapabilityScope::Integration { project_id, run_id, worktree_id, target_ref },
            ActionOperation::IntegrateWorktree { worktree_id: ow, target_ref: ot, .. },
        ) => {
            &&& project_id@ == a.project_id@
            &&& run_id@ == a.run_id@
            &&& worktree_id@ == ow@
            &&& target_ref@ == ot@
        },
        _ => false,
    }
}

/// A grant authorizes an action when it is valid and matches it.
pub open spec fn scope_authorizes(scope: CapabilityScope, a: ActionProposal) -> bool {
    scope_check(scope) is Ok && scope_matches(scope, a)
}

impl CapabilityScope {
    /// The kind of this scope.
    pub fn kind(&self) -> (r: CapabilityKind)
        ensures
            r == scope_kind(*self),
    {
        match self {
            CapabilityScope::ProjectPaths { capability, .. } => match capability {
                PathCapability::Read => CapabilityKind::ProjectRead,
                PathCapability::ApplyPatch => CapabilityKind::ProjectApplyPatch,
            },
            CapabilityScope::BrokerCommand { .. } => CapabilityKind::BrokerCommand,
            CapabilityScope::Provider { .. } => CapabilityKind::ProviderSubmit,
            CapabilityScope::Credential { .. } => CapabilityKind::CredentialUse,
            CapabilityScope::Integration { .. } => CapabilityKind::WorktreeIntegrate,
        }
    }

    /// Whether this scope, as a host grant, authorizes the action.
    pub fn authorizes(&self, action: &ActionProposal) -> (r: bool)
        ensures
            r == scope_authorizes(*self, *action),
    {
        self.validate().is_ok() && self.matches_action(action)
    }

    /// Checks the identifiers, paths, references and destination of the scope.
    pub fn validate(&self) -> (r: Result<(), ActionError>)
        ensures
            r == scope_check(*self),
    {
        match self {
            CapabilityScope::ProjectPaths { project_id, run_id, worktree_id, paths, .. } => {
                let r = validate_id(project_id.as_str(), "capability.project_id");
                if r.is_err() {
                    return r;
                }
                let r = validate_id(run_id.as_str(), "capability.run_id");
                if r.is_err() {
                    return r;
                }
                let r = validate_id(worktree_id.as_str(), "capability.worktree_id");
                if r.is_err() {
                    return r;
                }
                validate_paths(paths, "capability.paths")
            },
            CapabilityScope::BrokerCommand { project_id, run_id, worktree_id, catalog_entry_id } => {
                let r = validate_id(project_id.as_str(), "capability.project_id");
                if r.is_err() {
                    return r;
                }
                let r = validate_id(run_id.as_str(), "capability.run_id");
                if r.is_err() {
                    return r;
                }
                let r = validate_id(worktree_id.as_str(), "capability.worktree_id");
                if r.is_err() {
                    return r;
                }
                validate_id(catalog_entry_id.as_str(), "capability.catalog_entry_id")
            },
            CapabilityScope::Provider { project_id, run_id, provider_id, account_id, destination } => {
                let r = validate_id(project_id.as_str(), "capability.project_id");
                if r.is_err() {
                    return r;
                }
                let r = validate_id(run_id.as_str(), "capability.run_id");
                if r.is_err() {
                    return r;
                }
                let r = validate_id(provider_id.as_str(), "capability.provider_id");
                if r.is_err() {
                    return r;
                }
                let r = validate_id(account_id.as_str(), "capability.account_id");
                if r.is_err() {
                    return r;
                }
                destination.validate()
            },
            CapabilityScope::Credential {
                project_id,
                run_id,
                provider_id,
                account_id,
                credential_ref,
                destination,
            } => {
                let r = validate_id(project_id.as_str(), "capability.project_id");
                if r.is_err() {
                    return r;
                }
                let r = validate_id(run_id.as_str(), "capability.run_id");
                if r.is_err() {
                    return r;
                }
                let r = validate_id(provider_id.as_str(), "capability.provider_id");
                if r.is_err() {
                    return r;
                }
                let r = validate_id(account_id.as_str(), "capability.account_id");
                if r.is_err() {
                    return r;
                }
                let r = validate_id(credential_ref.as_str(), "capability.credential_ref");
                if r.is_err() {
                    return r;
                }
                destination.validate()
            },
            CapabilityScope::Integration { project_id, run_id, worktree_id, target_ref } => {
                let r = validate_id(project_id.as_str(), "capability.project_id");
                if r.is_err() {
                    return r;
                }
                let r = validate_id(run_id.as_str(), "capability.run_id");
                if r.is_err() {
                    return r;
                }
                let r = validate_id(worktree_id.as_str(), "capability.worktree_id");
                if r.is_err() {
                    return r;
                }
                validate_ref(target_ref.as_str(), "capability.target_ref")
            },
        }
    }

    /// Whether the scope covers exactly what the action does.
    pub fn matches_action(&self, action: &ActionProposal) -> (r: bool)
        ensures
            r == scope_matches(*self, *action),
    {
        match (self, &action.operation) {
            (
                CapabilityScope::ProjectPaths { capability, project_id, run_id, worktree_id, paths },
                ActionOperation::ReadFiles { worktree_id: ow, paths: ops },
            ) => {
                let is_read = match capability {
                    PathCapability::Read => true,
                    PathCapability::ApplyPatch => false,
                };
                is_read && *project_id == action.project_id && *run_id == action.run_id
                    && *worktree_id == *ow && all_paths_within(ops, paths)
            },
            (
                CapabilityScope::ProjectPaths { capability, project_id, run_id, worktree_id, paths },
                ActionOperation::ApplyPatch { worktree_id: ow, affected_paths, .. },
            ) => {
                let is_patch = match capability {
                    PathCapability::Read => false,
                    PathCapability::ApplyPatch => true,
                };
                is_patch && *project_id == action.project_id && *run_id == action.run_id
                    && *worktree_id == *ow && all_paths_within(affected_paths, paths)
            },
            (
                CapabilityScope::BrokerCommand { project_id, run_id, worktree_id, catalog_entry_id },
                ActionOperation::RunBrokerCommand { worktree_id: ow, catalog_entry_id: oe, .. },
            ) => {
                *project_id == action.project_id && *run_id == action.run_id && *worktree_id == *ow
                    && *catalog_entry_id == *oe
            },
            (
                CapabilityScope::Provider { project_id, run_id, provider_id, account_id, destination },
                ActionOperation::SubmitProviderRequest {
                    provider_id: op,
                    account_id: oa,
                    destination: od,
                    ..
                },
            ) => {
                *project_id == action.project_id && *run_id == action.run_id && *provider_id == *op
                    && *account_id == *oa && destination.same_as(od)
            },
            (
                CapabilityScope::Credential {
                    project_id,
                    run_id,
                    provider_id,
                    account_id,
                    credential_ref,
                    destination,
                },
                ActionOperation::UseCredential {
                    provider_id: op,
                    account_id: oa,
                    credential_ref: oc,
                    destination: od,
                },
            ) => {
                *project_id == action.project_id && *run_id == action.run_id && *provider_id == *op
                    && *account_id == *oa && *credential_ref == *oc && destination.same_as(od)
            },
            (
                CapabilityScope::Integration { project_id, run_id, worktree_id, target_ref },
                ActionOperation::IntegrateWorktree { worktree_id: ow, target_ref: ot, .. },
            ) => {
                *project_id == action.project_id && *run_id == action.run_id && *worktree_id == *ow
                    && *target_ref == *ot
            },
            _ => false,
        }
    }
}

/// The checks of an operation, in order.
pub open spec fn operation_check(op: ActionOperation) -> Result<(), ActionError> {
    match op {
        ActionOperation::ReadFiles { worktree_id, paths } => then_check(
            id_check(worktree_id@, "operation.worktree_id"),
            paths_check(paths@, "operation.paths"),
        ),
        ActionOperation::ApplyPatch { worktree_id, patch_digest, patch_bytes, affected_paths } =>
            then_check(
            id_check(worktree_id@, "operation.worktree_id"),
            then_check(
                digest_check(patch_digest@, "operation.patch_digest"),
                then_check(
                    count_check(patch_bytes, MAX_PATCH_BYTES, "operation.patch_bytes"),
                    paths_check(affected_paths@, "operation.affected_paths"),
                ),
            ),
        ),
        ActionOperation::RunBrokerCommand {
            worktree_id,
            catalog_entry_id,
            catalog_entry_digest,
            executable_digest,
            cwd,
            argv,
        } => then_check(
            id_check(worktree_id@, "operation.worktree_id"),
            then_check(
                id_check(catalog_entry_id@, "operation.catalog_entry_id"),
                then_check(
                    digest_check(catalog_entry_digest@, "operation.catalog_entry_digest"),
                    then_check(
                        digest_check(executable_digest@, "operation.executable_digest"),
                        then_check(
                            path_check(cwd@, "operation.cwd"),
                            if argv_ok(argv@) {
                                Ok(())
                            } else {
                                Err(ActionError::InvalidCollection("operation.argv"))
                            },
                        ),
                    ),
                ),
            ),
        ),
        ActionOperation::SubmitProviderRequest {
            provider_id,
            account_id,
            destination,
            request_digest,
            request_bytes,
            data_classes,
        } => then_check(
            id_check(provider_id@, "operation.provider_id"),
            then_check(
                id_check(account_id@, "operation.account_id"),
                then_check(
                    destination_check(destination),
                    then_check(
                        digest_check(request_digest@, "operation.request_digest"),
                        then_check(
                            count_check(
                                request_bytes,
                                MAX_PROVIDER_REQUEST_BYTES,
                                "operation.request_bytes",
                            ),
                            if sorted_strings_ok(data_classes@, MAX_DATA_CLASSES) {
                                Ok(())
                            } else {
                                Err(ActionError::InvalidCollection("operation.data_classes"))
                            },
                        ),
                    ),
                ),
            ),
        ),
        ActionOperation::UseCredential { provider_id, account_id, credential_ref, destination } =>
            then_check(
            id_check(provider_id@, "operation.provider_id"),
            then_check(
                id_check(account_id@, "operation.account_id"),
                then_check(
                    id_check(credential_ref@, "operation.credential_ref"),
                    destination_check(destination),
                ),
            ),
        ),
        ActionOperation::IntegrateWorktree {
            worktree_id,
            source_ref,
            source_oid,
            target_ref,
            expected_target_oid,
            diff_digest,
        } => then_check(
            id_check(worktree_id@, "operation.worktree_id"),
            then_check(
                ref_check(source_ref@, "operation.source_ref"),
                then_check(
                    oid_check(source_oid@, "operation.source_oid"),
                    then_check(
                        ref_check(target_ref@, "operation.target_ref"),
                        then_check(
                            oid_check(expected_target_oid@, "operation.expected_target_oid"),
                            digest_check(diff_digest@, "operation.diff_digest"),
                        ),
                    ),
                ),
            ),
        ),
    }
}

/// Operations that reach a remote destination need the destination's state.
pub open spec fn needs_destination_state(op: ActionOperation) -> bool {
    op is SubmitProviderRequest || op is UseCredential
}

impl ActionOperation {
    /// Checks every field of the operation.
    pub fn validate(&self) -> (r: Result<(), ActionError>)
        ensures
            r == operation_check(*self),
    {
        match self {
            ActionOperation::ReadFiles { worktree_id, paths } => {
                let r = validate_id(worktree_id.as_str(), "operation.worktree_id");
                if r.is_err() {
                    return r;
                }
                validate_paths(paths, "operation.paths")
            },
            ActionOperation::ApplyPatch { worktree_id, patch_digest, patch_bytes, affected_paths } => {
                let r = validate_id(worktree_id.as_str(), "operation.worktree_id");
                if r.is_err() {
                    return r;
                }
                let r = validate_digest(patch_digest.as_str(), "operation.patch_digest");
                if r.is_err() {
                    return r;
                }
                let r = validate_count(*patch_bytes, MAX_PATCH_BYTES, "operation.patch_bytes");
                if r.is_err() {
                    return r;
                }
                validate_paths(affected_paths, "operation.affected_paths")
            },
            ActionOperation::RunBrokerCommand {
                worktree_id,
                catalog_entry_id,
                catalog_entry_digest,
                executable_digest,
                cwd,
                argv,
            } => {
                let r = validate_id(worktree_id.as_str(), "operation.worktree_id");
                if r.is_err() {
                    return r;
                }
                let r = validate_id(catalog_entry_id.as_str(), "operation.catalog_entry_id");
                if r.is_err() {
                    return r;
                }
                let r = validate_digest(catalog_entry_digest.as_str(), "operation.catalog_entry_digest");
                if r.is_err() {
                    return r;
                }
                let r = validate_digest(executable_digest.as_str(), "operation.executable_digest");
                if r.is_err() {
                    return r;
                }
                let r = validate_path(cwd.as_str(), "operation.cwd");
                if r.is_err() {
                    return r;
                }
                validate_argv(argv)
            },
            ActionOperation::SubmitProviderRequest {
                provider_id,
                account_id,
                destination,
                request_digest,
                request_bytes,
                data_classes,
            } => {
                let r = validate_id(provider_id.as_str(), "operation.provider_id");
                if r.is_err() {
                    return r;
                }
                let r = validate_id(account_id.as_str(), "operation.account_id");
                if r.is_err() {
                    return r;
                }
                let r = destination.validate();
                if r.is_err() {
                    return r;
                }
                let r = validate_digest(request_digest.as_str(), "operation.request_digest");
                if r.is_err() {
                    return r;
                }
                let r = validate_count(
                    *request_bytes,
                    MAX_PROVIDER_REQUEST_BYTES,
                    "operation.request_bytes",
                );
                if r.is_err() {
                    return r;
                }
                validate_sorted_strings(data_classes, MAX_DATA_CLASSES, "operation.data_classes")
            },
            ActionOperation::UseCredential { provider_id, account_id, credential_ref, destination } => {
                let r = validate_id(provider_id.as_str(), "operation.provider_id");
                if r.is_err() {
                    return r;
                }
                let r = validate_id(account_id.as_str(), "operation.account_id");
                if r.is_err() {
                    return r;
                }
                let r = validate_id(credential_ref.as_str(), "operation.credential_ref");
                if r.is_err() {
                    return r;
                }
                destination.validate()
            },
            ActionOperation::IntegrateWorktree {
                worktree_id,
                source_ref,
                source_oid,
                target_ref,
                expected_target_oid,
                diff_digest,
            } => {
                let r = validate_id(worktree_id.as_str(), "operation.worktree_id");
                if r.is_err() {
                    return r;
                }
                let r = validate_ref(source_ref.as_str(), "operation.source_ref");
                if r.is_err() {
                    return r;
                }
                let r = validate_oid(source_oid.as_str(), "operation.source_oid");
                if r.is_err() {
                    return r;
                }
                let r = validate_ref(target_ref.as_str(), "operation.target_ref");
                if r.is_err() {
                    return r;
                }
                let r = validate_oid(expected_target_oid.as_str(), "operation.expected_target_oid");
                if r.is_err() {
                    return r;
                }
                validate_digest(diff_digest.as_str(), "operation.diff_digest")
            },
        }
    }

    /// Whether the broker must supply the state of a remote destination.
    pub fn requires_destination_state(&self) -> (r: bool)
        ensures
            r == needs_destination_state(*self),
    {
        match self {
            ActionOperation::SubmitProviderRequest { .. } => true,
            ActionOperation::UseCredential { .. } => true,
            _ => false,
        }
    }
}

/// The risk class of an operation.
pub open spec fn operation_risk(op: ActionOperation) -> RiskClass {
    match op {
        ActionOperation::ReadFiles { .. } => RiskClass::ReadOnly,
        ActionOperation::ApplyPatch { .. } => RiskClass::LocalMutation,
        ActionOperation::RunBrokerCommand { .. } => RiskClass::ProcessExecution,
        ActionOperation::SubmitProviderRequest { .. } => RiskClass::ExternalDisclosure,
        ActionOperation::UseCredential { .. } => RiskClass::CredentialUse,
        ActionOperation::IntegrateWorktree { .. } => RiskClass::GitIntegration,
    }
}

/// The reversibility of an operation.
pub open spec fn operation_reversibility(op: ActionOperation) -> Reversibility {
    match op {
        ActionOperation::ReadFiles { .. } => Reversibility::NoMutation,
        ActionOperation::ApplyPatch { .. } => Reversibility::WorktreeRecoverable,
        ActionOperation::IntegrateWorktree { .. } => Reversibility::WorktreeRecoverable,
        _ => Reversibility::SideEffectUnknown,
    }
}

/// The lifetime rule: both times are safe JSON integers and the action
/// expires after it is created, at most five minutes later.
pub open spec fn lifetime_ok(a: ActionProposal) -> bool {
    &&& a.created_at_unix_ms <= MAX_SAFE_JSON_INTEGER
    &&& a.expires_at_unix_ms <= MAX_SAFE_JSON_INTEGER
    &&& a.created_at_unix_ms < a.expires_at_unix_ms
    &&& a.expires_at_unix_ms - a.created_at_unix_ms <= MAX_ACTION_TTL_MS
}

/// The checks of an action's shape, in order.
pub open spec fn shape_check(a: ActionProposal) -> Result<(), ActionError> {
    if a.schema_version != ACTION_SCHEMA_VERSION {
        Err(ActionError::UnsupportedSchema)
    } else {
        then_check(
            id_check(a.action_id@, "action_id"),
            then_check(
                id_check(a.run_id@, "run_id"),
                then_check(
                    id_check(a.project_id@, "project_id"),
                    then_check(
                        if lifetime_ok(a) {
                            Ok(())
                        } else {
                            Err(ActionError::InvalidLifetime)
                        },
                        then_check(
                            provenance_check(a.provenance@),
                            then_check(
                                scope_check(a.requested_capability),
                                then_check(
                                    operation_check(a.operation),
                                    if scope_matches(a.requested_capability, a) {
                                        Ok(())
                                    } else {
                                        Err(ActionError::CapabilityMismatch)
                                    },
                                ),
                            ),
                        ),
                    ),
                ),
            ),
        )
    }
}

/// A well-formed action: every check of `shape_check` passes.
pub open spec fn shape_valid(a: ActionProposal) -> bool {
    &&& a.schema_version == ACTION_SCHEMA_VERSION
    &&& id_ok(sb(a.action_id))
    &&& id_ok(sb(a.run_id))
    &&& id_ok(sb(a.project_id))
    &&& lifetime_ok(a)
    &&& provenance_check(a.provenance@) is Ok
    &&& scope_check(a.requested_capability) is Ok
    &&& operation_check(a.operation) is Ok
    &&& scope_matches(a.requested_capability, a)
}

impl ActionProposal {
    /// The risk class of the proposed operation.
    pub fn risk_class(&self) -> (r: RiskClass)
        ensures
            r == operation_risk(self.operation),
    {
        match self.operation {
            ActionOperation::ReadFiles { .. } => RiskClass::ReadOnly,
            ActionOperation::ApplyPatch { .. } => RiskClass::LocalMutation,
            ActionOperation::RunBrokerCommand { .. } => RiskClass::ProcessExecution,
            ActionOperation::SubmitProviderRequest { .. } => RiskClass::ExternalDisclosure,
            ActionOperation::UseCredential { .. } => RiskClass::CredentialUse,
            ActionOperation::IntegrateWorktree { .. } => RiskClass::GitIntegration,
        }
    }

    /// Whether the proposed operation can be undone.
    pub fn reversibility(&self) -> (r: Reversibility)
        ensures
            r == operation_reversibility(self.operation),
    {
        match self.operation {
            ActionOperation::ReadFiles { .. } => Reversibility::NoMutation,
            ActionOperation::ApplyPatch { .. } => Reversibility::WorktreeRecoverable,
            ActionOperation::IntegrateWorktree { .. } => Reversibility::WorktreeRecoverable,
            ActionOperation::RunBrokerCommand { .. } => Reversibility::SideEffectUnknown,
            ActionOperation::SubmitProviderRequest { .. } => Reversibility::SideEffectUnknown,
            ActionOperation::UseCredential { .. } => Reversibility::SideEffectUnknown,
        }
    }

    /// Checks schema, identifiers, lifetime, provenance, the requested
    /// capability, the operation, and that the capability matches the
    /// operation; the first failing check gives the error.
    pub fn validate_shape(&self) -> (r: Result<(), ActionError>)
        ensures
            r == shape_check(*self),
            r is Ok <==> shape_valid(*self),
    {
        if self.schema_version != ACTION_SCHEMA_VERSION {
            return Err(ActionError::UnsupportedSchema);
        }
        let r = validate_id(self.action_id.as_str(), "action_id");
        if r.is_err() {
            return r;
        }
        let r = validate_id(self.run_id.as_str(), "run_id");
        if r.is_err() {
            return r;
        }
        let r = validate_id(self.project_id.as_str(), "project_id");
        if r.is_err() {
            return r;
        }
        if self.created_at_unix_ms > MAX_SAFE_JSON_INTEGER || self.expires_at_unix_ms
            > MAX_SAFE_JSON_INTEGER || self.expires_at_unix_ms <= self.created_at_unix_ms
            || self.expires_at_unix_ms - self.created_at_unix_ms > MAX_ACTION_TTL_MS {
            return Err(ActionError::InvalidLifetime);
        }
        let r = validate_provenance(&self.provenance);
        if r.is_err() {
            return r;
        }
        let r = self.requested_capability.validate();
        if r.is_err() {
            return r;
        }
        let r = self.operation.validate();
        if r.is_err() {
            return r;
        }
        if !self.requested_capability.matches_action(self) {
            return Err(ActionError::CapabilityMismatch);
        }
        Ok(())
    }
}

/// A JSON string of a literal.
pub open spec fn lit(s: &str) -> Json {
    Json::Str(encode_utf8(s@))
}

/// A JSON string of a string field.
pub open spec fn jstr(s: String) -> Json {
    Json::Str(sb(s))
}

/// A JSON array of string fields.
pub open spec fn jstrs(v: Vec<String>) -> Json {
    Json::Array(strings_json(v@))
}

pub open spec fn destination_json(d: Destination) -> Json {
    Json::Object(destination_members(jstr(d.scheme), jstr(d.host), Json::Number(d.port as u64), jstr(d.path)))
}

pub open spec fn path_capability_json(c: PathCapability) -> Json {
    match c {
        PathCapability::Read => lit("read"),
        PathCapability::ApplyPatch => lit("apply_patch"),
    }
}

/// The `kind` tag of a capability scope.
pub open spec fn scope_tag(scope: CapabilityScope) -> &'static str {
    match scope {
        CapabilityScope::ProjectPaths { .. } => "project_paths",
        CapabilityScope::BrokerCommand { .. } => "broker_command",
        CapabilityScope::Provider { .. } => "provider",
        CapabilityScope::Credential { .. } => "credential",
        CapabilityScope::Integration { .. } => "integration",
    }
}

/// The JSON form of a capability scope: its fields and a `kind` tag.
#[verifier::opaque]
pub open spec fn scope_json(scope: CapabilityScope) -> Json {
    match scope {
        CapabilityScope::ProjectPaths { capability, project_id, run_id, worktree_id, paths } =>
            Json::Object(
            project_paths_scope_members(
                lit("project_paths"),
                path_capability_json(capability),
                jstr(project_id),
                jstr(run_id),
                jstr(worktree_id),
                jstrs(paths),
            ),
        ),
        CapabilityScope::BrokerCommand { project_id, run_id, worktree_id, catalog_entry_id } =>
            Json::Object(
            broker_command_scope_members(
                lit("broker_command"),
                jstr(project_id),
                jstr(run_id),
                jstr(worktree_id),
                jstr(catalog_entry_id),
            ),
        ),
        CapabilityScope::Provider { project_id, run_id, provider_id, account_id, destination } =>
            Json::Object(
            provider_scope_members(
                lit("provider"),
                jstr(project_id),
                jstr(run_id),
                jstr(provider_id),
                jstr(account_id),
                destination_json(destination),
            ),
        ),
        CapabilityScope::Credential {
            project_id,
            run_id,
            provider_id,
            account_id,
            credential_ref,
            destination,
        } => Json::Object(
            credential_scope_members(
                lit("credential"),
                jstr(project_id),
                jstr(run_id),
                jstr(provider_id),
                jstr(account_id),
                jstr(credential_ref),
                destination_json(destination),
            ),
        ),
        CapabilityScope::Integration { project_id, run_id, worktree_id, target_ref } => Json::Object(
            integration_scope_members(
                lit("integration"),
                jstr(project_id),
                jstr(run_id),
                jstr(worktree_id),
                jstr(target_ref),
            ),
        ),
    }
}

/// The `kind` tag of an operation.
pub open spec fn operation_tag(op: ActionOperation) -> &'static str {
    match op {
        ActionOperation::ReadFiles { .. } => "read_files",
        ActionOperation::ApplyPatch { .. } => "apply_patch",
        ActionOperation::RunBrokerCommand { .. } => "run_broker_command",
        ActionOperation::SubmitProviderRequest { .. } => "submit_provider_request",
        ActionOperation::UseCredential { .. } => "use_credential",
        ActionOperation::IntegrateWorktree { .. } => "integrate_worktree",
    }
}

/// The JSON form of an operation: its fields and a `kind` tag.
#[verifier::opaque]
pub open spec fn operation_json(op: ActionOperation) -> Json {
    match op {
        ActionOperation::ReadFiles { worktree_id, paths } => Json::Object(
            read_files_members(lit("read_files"), jstr(worktree_id), jstrs(paths)),
        ),
        ActionOperation::ApplyPatch { worktree_id, patch_digest, patch_bytes, affected_paths } =>
            Json::Object(
            apply_patch_members(
                lit("apply_patch"),
                jstr(worktree_id),
                jstr(patch_digest),
                Json::Number(patch_bytes),
                jstrs(affected_paths),
            ),
        ),
        ActionOperation::RunBrokerCommand {
            worktree_id,
            catalog_entry_id,
            catalog_entry_digest,
            executable_digest,
            cwd,
            argv,
        } => Json::Object(
            broker_command_op_members(
                lit("run_broker_command"),
                jstr(worktree_id),
                jstr(catalog_entry_id),
                jstr(catalog_entry_digest),
                jstr(executable_digest),
                jstr(cwd),
                jstrs(argv),
            ),
        ),
        ActionOperation::SubmitProviderRequest {
            provider_id,
            account_id,
            destination,
            request_digest,
            request_bytes,
            data_classes,
        } => Json::Object(
            provider_request_members(
                lit("submit_provider_request"),
                jstr(provider_id),
                jstr(account_id),
                destination_json(destination),
                jstr(request_digest),
                Json::Number(request_bytes),
                jstrs(data_classes),
            ),
        ),
        ActionOperation::UseCredential { provider_id, account_id, credential_ref, destination } =>
            Json::Object(
            use_credential_members(
                lit("use_credential"),
                jstr(provider_id),
                jstr(account_id),
                jstr(credential_ref),
                destination_json(destination),
            ),
        ),
        ActionOperation::IntegrateWorktree {
            worktree_id,
            source_ref,
            source_oid,
            target_ref,
            expected_target_oid,
            diff_digest,
        } => Json::Object(
            integrate_worktree_members(
                lit("integrate_worktree"),
                jstr(worktree_id),
                jstr(source_ref),
                jstr(source_oid),
                jstr(target_ref),
                jstr(expected_target_oid),
                jstr(diff_digest),
            ),
        ),
    }
}

#[verifier::opaque]
pub open spec fn provenance_json(p: Provenance) -> Json {
    Json::Object(provenance_members(jstr(p.source_kind), jstr(p.source_id), jstr(p.content_digest)))
}

/// The members of a destination's JSON form.
#[verifier::opaque]
pub open spec fn destination_members(
    v0: Json,
    v1: Json,
    v2: Json,
    v3: Json,
) -> Seq<(Seq<u8>, Json)> {
    ins(ins(ins(ins(no_members(), "scheme", v0), "host", v1), "port", v2), "path", v3)
}

proof fn lemma_destination_members_keys(
    v0: Json,
    v1: Json,
    v2: Json,
    v3: Json,
)
    ensures
        ({
            let m = destination_members(v0, v1, v2, v3);
            &&& member_get(m, encode_utf8("scheme"@)) == Some(v0)
            &&& member_get(m, encode_utf8("host"@)) == Some(v1)
            &&& member_get(m, encode_utf8("port"@)) == Some(v2)
            &&& member_get(m, encode_utf8("path"@)) == Some(v3)
        }),
{
    broadcast use crate::json::lemma_member_get_insert_at;
    reveal(destination_members);
    reveal_strlit("scheme");
    vstd::utf8::is_ascii_chars_encode_utf8("scheme"@);
    reveal_strlit("host");
    vstd::utf8::is_ascii_chars_encode_utf8("host"@);
    reveal_strlit("port");
    vstd::utf8::is_ascii_chars_encode_utf8("port"@);
    reveal_strlit("path");
    vstd::utf8::is_ascii_chars_encode_utf8("path"@);
    assert(encode_utf8("scheme"@).len() == 6 && encode_utf8("scheme"@)[0] == 0x73u8);
    assert(encode_utf8("host"@).len() == 4 && encode_utf8("host"@)[0] == 0x68u8);
    assert(encode_utf8("port"@).len() == 4 && encode_utf8("port"@)[0] == 0x70u8);
    assert(encode_utf8("path"@).len() == 4 && encode_utf8("path"@)[0] == 0x70u8);
    assert(encode_utf8("path"@)[1] == 0x61u8);
    assert(encode_utf8("port"@)[1] == 0x6fu8);
}

/// The members determine every inserted value.
proof fn lemma_destination_members_injective(
    v0: Json,
    v1: Json,
    v2: Json,
    v3: Json,
    w0: Json,
    w1: Json,
    w2: Json,
    w3: Json,
)
    requires
        destination_members(v0, v1, v2, v3) == destination_members(w0, w1, w2, w3),
    ensures
        v0 == w0,
        v1 == w1,
        v2 == w2,
        v3 == w3,
{
    lemma_destination_members_keys(v0, v1, v2, v3);
    lemma_destination_members_keys(w0, w1, w2, w3);
}

/// The members of a project paths scope's JSON form.
#[verifier::opaque]
pub open spec fn project_paths_scope_members(
    v0: Json,
    v1: Json,
    v2: Json,
    v3: Json,
    v4: Json,
    v5: Json,
) -> Seq<(Seq<u8>, Json)> {
    ins(ins(ins(ins(ins(ins(no_members(), "kind", v0), "capability", v1), "project_id", v2), "run_id", v3), "worktree_id", v4), "paths", v5)
}

proof fn lemma_project_paths_scope_members_keys(
    v0: Json,
    v1: Json,
    v2: Json,
    v3: Json,
    v4: Json,
    v5: Json,
)
    ensures
        ({
            let m = project_paths_scope_members(v0, v1, v2, v3, v4, v5);
            &&& member_get(m, encode_utf8("kind"@)) == Some(v0)
            &&& member_get(m, encode_utf8("capability"@)) == Some(v1)
            &&& member_get(m, encode_utf8("project_id"@)) == Some(v2)
            &&& member_get(m, encode_utf8("run_id"@)) == Some(v3)
            &&& member_get(m, encode_utf8("worktree_id"@)) == Some(v4)
            &&& member_get(m, encode_utf8("paths"@)) == Some(v5)
        }),
{
    broadcast use crate::json::lemma_member_get_insert_at;
    reveal(project_paths_scope_members);
    reveal_strlit("kind");
    vstd::utf8::is_ascii_chars_encode_utf8("kind"@);
    reveal_strlit("capability");
    vstd::utf8::is_ascii_chars_encode_utf8("capability"@);
    reveal_strlit("project_id");
    vstd::utf8::is_ascii_chars_encode_utf8("project_id"@);
    reveal_strlit("run_id");
    vstd::utf8::is_ascii_chars_encode_utf8("run_id"@);
    reveal_strlit("worktree_id");
    vstd::utf8::is_ascii_chars_encode_utf8("worktree_id"@);
    reveal_strlit("paths");
    vstd::utf8::is_ascii_chars_encode_utf8("paths"@);
    assert(encode_utf8("kind"@).len() == 4 && encode_utf8("kind"@)[0] == 0x6bu8);
    assert(encode_utf8("capability"@).len() == 10 && encode_utf8("capability"@)[0] == 0x63u8);
    assert(encode_utf8("project_id"@).len() == 10 && encode_utf8("project_id"@)[0] == 0x70u8);
    assert(encode_utf8("run_id"@).len() == 6 && encode_utf8("run_id"@)[0] == 0x72u8);
    assert(encode_utf8("worktree_id"@).len() == 11 && encode_utf8("worktree_id"@)[0] == 0x77u8);
    assert(encode_utf8("paths"@).len() == 5 && encode_utf8("paths"@)[0] == 0x70u8);
}

/// The members determine every inserted value.
proof fn lemma_project_paths_scope_members_injective(
    v0: Json,
    v1: Json,
    v2: Json,
    v3: Json,
    v4: Json,
    v5: Json,
    w0: Json,
    w1: Json,
    w2: Json,
    w3: Json,
    w4: Json,
    w5: Json,
)
    requires
        project_paths_scope_members(v0, v1, v2, v3, v4, v5) == project_paths_scope_members(w0, w1, w2, w3, w4, w5),
    ensures
        v0 == w0,
        v1 == w1,
        v2 == w2,
        v3 == w3,
        v4 == w4,
        v5 == w5,
{
    lemma_project_paths_scope_members_keys(v0, v1, v2, v3, v4, v5);
    lemma_project_paths_scope_members_keys(w0, w1, w2, w3, w4, w5);
}

/// The members of a broker command scope's JSON form.
#[verifier::opaque]
pub open spec fn broker_command_scope_members(
    v0: Json,
    v1: Json,
    v2: Json,
    v3: Json,
    v4: Json,
) -> Seq<(Seq<u8>, Json)> {
    ins(ins(ins(ins(ins(no_members(), "kind", v0), "project_id", v1), "run_id", v2), "worktree_id", v3), "catalog_entry_id", v4)
}

proof fn lemma_broker_command_scope_members_keys(
    v0: Json,
    v1: Json,
    v2: Json,
    v3: Json,
    v4: Json,
)
    ensures
        ({
            let m = broker_command_scope_members(v0, v1, v2, v3, v4);
            &&& member_get(m, encode_utf8("kind"@)) == Some(v0)
            &&& member_get(m, encode_utf8("project_id"@)) == Some(v1)
            &&& member_get(m, encode_utf8("run_id"@)) == Some(v2)
            &&& member_get(m, encode_utf8("worktree_id"@)) == Some(v3)
            &&& member_get(m, encode_utf8("catalog_entry_id"@)) == Some(v4)
        }),
{
    broadcast use crate::json::lemma_member_get_insert_at;
    reveal(broker_command_scope_members);
    reveal_strlit("kind");
    vstd::utf8::is_ascii_chars_encode_utf8("kind"@);
    reveal_strlit("project_id");
    vstd::utf8::is_ascii_chars_encode_utf8("project_id"@);
    reveal_strlit("run_id");
    vstd::utf8::is_ascii_chars_encode_utf8("run_id"@);
    reveal_strlit("worktree_id");
    vstd::utf8::is_ascii_chars_encode_utf8("worktree_id"@);
    reveal_strlit("catalog_entry_id");
    vstd::utf8::is_ascii_chars_encode_utf8("catalog_entry_id"@);
    assert(encode_utf8("kind"@).len() == 4 && encode_utf8("kind"@)[0] == 0x6bu8);
    assert(encode_utf8("project_id"@).len() == 10 && encode_utf8("project_id"@)[0] == 0x70u8);
    assert(encode_utf8("run_id"@).len() == 6 && encode_utf8("run_id"@)[0] == 0x72u8);
    assert(encode_utf8("worktree_id"@).len() == 11 && encode_utf8("worktree_id"@)[0] == 0x77u8);
    assert(encode_utf8("catalog_entry_id"@).len() == 16 && encode_utf8("catalog_entry_id"@)[0] == 0x63u8);
}

/// The members determine every inserted value.
proof fn lemma_broker_command_scope_members_injective(
    v0: Json,
    v1: Json,
    v2: Json,
    v3: Json,
    v4: Json,
    w0: Json,
    w1: Json,
    w2: Json,
    w3: Json,
    w4: Json,
)
    requires
        broker_command_scope_members(v0, v1, v2, v3, v4) == broker_command_scope_members(w0, w1, w2, w3, w4),
    ensures
        v0 == w0,
        v1 == w1,
        v2 == w2,
        v3 == w3,
        v4 == w4,
{
    lemma_broker_command_scope_members_keys(v0, v1, v2, v3, v4);
    lemma_broker_command_scope_members_keys(w0, w1, w2, w3, w4);
}

/// The members of a provider scope's JSON form.
#[verifier::opaque]
pub open spec fn provider_scope_members(
    v0: Json,
    v1: Json,
    v2: Json,
    v3: Json,
    v4: Json,
    v5: Json,
) -> Seq<(Seq<u8>, Json)> {
    ins(ins(ins(ins(ins(ins(no_members(), "kind", v0), "project_id", v1), "run_id", v2), "provider_id", v3), "account_id", v4), "destination", v5)
}

proof fn lemma_provider_scope_members_keys(
    v0: Json,
    v1: Json,
    v2: Json,
    v3: Json,
    v4: Json,
    v5: Json,
)
    ensures
        ({
            let m = provider_scope_members(v0, v1, v2, v3, v4, v5);
            &&& member_get(m, encode_utf8("kind"@)) == Some(v0)
            &&& member_get(m, encode_utf8("project_id"@)) == Some(v1)
            &&& member_get(m, encode_utf8("run_id"@)) == Some(v2)
            &&& member_get(m, encode_utf8("provider_id"@)) == Some(v3)
            &&& member_get(m, encode_utf8("account_id"@)) == Some(v4)
            &&& member_get(m, encode_utf8("destination"@)) == Some(v5)
        }),
{
    broadcast use crate::json::lemma_member_get_insert_at;
    reveal(provider_scope_members);
    reveal_strlit("kind");
    vstd::utf8::is_ascii_chars_encode_utf8("kind"@);
    reveal_strlit("project_id");
    vstd::utf8::is_ascii_chars_encode_utf8("project_id"@);
    reveal_strlit("run_id");
    vstd::utf8::is_ascii_chars_encode_utf8("run_id"@);
    reveal_strlit("provider_id");
    vstd::utf8::is_ascii_chars_encode_utf8("provider_id"@);
    reveal_strlit("account_id");
    vstd::utf8::is_ascii_chars_encode_utf8("account_id"@);
    reveal_strlit("destination");
    vstd::utf8::is_ascii_chars_encode_utf8("destination"@);
    assert(encode_utf8("kind"@).len() == 4 && encode_utf8("kind"@)[0] == 0x6bu8);
    assert(encode_utf8("project_id"@).len() == 10 && encode_utf8("project_id"@)[0] == 0x70u8);
    assert(encode_utf8("run_id"@).len() == 6 && encode_utf8("run_id"@)[0] == 0x72u8);
    assert(encode_utf8("provider_id"@).len() == 11 && encode_utf8("provider_id"@)[0] == 0x70u8);
    assert(encode_utf8("account_id"@).len() == 10 && encode_utf8("account_id"@)[0] == 0x61u8);
    assert(encode_utf8("destination"@).len() == 11 && encode_utf8("destination"@)[0] == 0x64u8);
}

/// The members determine every inserted value.
proof fn lemma_provider_scope_members_injective(
    v0: Json,
    v1: Json,
    v2: Json,
    v3: Json,
    v4: Json,
    v5: Json,
    w0: Json,
    w1: Json,
    w2: Json,
    w3: Json,
    w4: Json,
    w5: Json,
)
    requires
        provider_scope_members(v0, v1, v2, v3, v4, v5) == provider_scope_members(w0, w1, w2, w3, w4, w5),
    ensures
        v0 == w0,
        v1 == w1,
        v2 == w2,
        v3 == w3,
        v4 == w4,
        v5 == w5,
{
    lemma_provider_scope_members_keys(v0, v1, v2, v3, v4, v5);
    lemma_provider_scope_members_keys(w0, w1, w2, w3, w4, w5);
}

/// The members of a credential scope's JSON form.
#[verifier::opaque]
pub open spec fn credential_scope_members(
    v0: Json,
    v1: Json,
    v2: Json,
    v3: Json,
    v4: Json,
    v5: Json,
    v6: Json,
) -> Seq<(Seq<u8>, Json)> {
    ins(ins(ins(ins(ins(ins(ins(no_members(), "kind", v0), "project_id", v1), "run_id", v2), "provider_id", v3), "account_id", v4), "credential_ref", v5), "destination", v6)
}

proof fn lemma_credential_scope_members_keys(
    v0: Json,
    v1: Json,
    v2: Json,
    v3: Json,
    v4: Json,
    v5: Json,
    v6: Json,
)
    ensures
        ({
            let m = credential_scope_members(v0, v1, v2, v3, v4, v5, v6);
            &&& member_get(m, encode_utf8("kind"@)) == Some(v0)
            &&& member_get(m, encode_utf8("project_id"@)) == Some(v1)
            &&& member_get(m, encode_utf8("run_id"@)) == Some(v2)
            &&& member_get(m, encode_utf8("provider_id"@)) == Some(v3)
            &&& member_get(m, encode_utf8("account_id"@)) == Some(v4)
            &&& member_get(m, encode_utf8("credential_ref"@)) == Some(v5)
            &&& member_get(m, encode_utf8("destination"@)) == Some(v6)
        }),
{
    broadcast use crate::json::lemma_member_get_insert_at;
    reveal(credential_scope_members);
    reveal_strlit("kind");
    vstd::utf8::is_ascii_chars_encode_utf8("kind"@);
    reveal_strlit("project_id");
    vstd::utf8::is_ascii_chars_encode_utf8("project_id"@);
    reveal_strlit("run_id");
    vstd::utf8::is_ascii_chars_encode_utf8("run_id"@);
    reveal_strlit("provider_id");
    vstd::utf8::is_ascii_chars_encode_utf8("provider_id"@);
    reveal_strlit("account_id");
    vstd::utf8::is_ascii_chars_encode_utf8("account_id"@);
    reveal_strlit("credential_ref");
    vstd::utf8::is_ascii_chars_encode_utf8("credential_ref"@);
    reveal_strlit("destination");
    vstd::utf8::is_ascii_chars_encode_utf8("destination"@);
    assert(encode_utf8("kind"@).len() == 4 && encode_utf8("kind"@)[0] == 0x6bu8);
    assert(encode_utf8("project_id"@).len() == 10 && encode_utf8("project_id"@)[0] == 0x70u8);
    assert(encode_utf8("run_id"@).len() == 6 && encode_utf8("run_id"@)[0] == 0x72u8);
    assert(encode_utf8("provider_id"@).len() == 11 && encode_utf8("provider_id"@)[0] == 0x70u8);
    assert(encode_utf8("account_id"@).len() == 10 && encode_utf8("account_id"@)[0] == 0x61u8);
    assert(encode_utf8("credential_ref"@).len() == 14 && encode_utf8("credential_ref"@)[0] == 0x63u8);
    assert(encode_utf8("destination"@).len() == 11 && encode_utf8("destination"@)[0] == 0x64u8);
}

/// The members determine every inserted value.
proof fn lemma_credential_scope_members_injective(
    v0: Json,
    v1: Json,
    v2: Json,
    v3: Json,
    v4: Json,
    v5: Json,
    v6: Json,
    w0: Json,
    w1: Json,
    w2: Json,
    w3: Json,
    w4: Json,
    w5: Json,
    w6: Json,
)
    requires
        credential_scope_members(v0, v1, v2, v3, v4, v5, v6) == credential_scope_members(w0, w1, w2, w3, w4, w5, w6),
    ensures
        v0 == w0,
        v1 == w1,
        v2 == w2,
        v3 == w3,
        v4 == w4,
        v5 == w5,
        v6 == w6,
{
    lemma_credential_scope_members_keys(v0, v1, v2, v3, v4, v5, v6);
    lemma_credential_scope_members_keys(w0, w1, w2, w3, w4, w5, w6);
}

/// The members of an integration scope's JSON form.
#[verifier::opaque]
pub open spec fn integration_scope_members(
    v0: Json,
    v1: Json,
    v2: Json,
    v3: Json,
    v4: Json,
) -> Seq<(Seq<u8>, Json)> {
    ins(ins(ins(ins(ins(no_members(), "kind", v0), "project_id", v1), "run_id", v2), "worktree_id", v3), "target_ref", v4)
}

proof fn lemma_integration_scope_members_keys(
    v0: Json,
    v1: Json,
    v2: Json,
    v3: Json,
    v4: Json,
)
    ensures
        ({
            let m = integration_scope_members(v0, v1, v2, v3, v4);
            &&& member_get(m, encode_utf8("kind"@)) == Some(v0)
            &&& member_get(m, encode_utf8("project_id"@)) == Some(v1)
            &&& member_get(m, encode_utf8("run_id"@)) == Some(v2)
            &&& member_get(m, encode_utf8("worktree_id"@)) == Some(v3)
            &&& member_get(m, encode_utf8("target_ref"@)) == Some(v4)
        }),
{
    broadcast use crate::json::lemma_member_get_insert_at;
    reveal(integration_scope_members);
    reveal_strlit("kind");
    vstd::utf8::is_ascii_chars_encode_utf8("kind"@);
    reveal_strlit("project_id");
    vstd::utf8::is_ascii_chars_encode_utf8("project_id"@);
    reveal_strlit("run_id");
    vstd::utf8::is_ascii_chars_encode_utf8("run_id"@);
    reveal_strlit("worktree_id");
    vstd::utf8::is_ascii_chars_encode_utf8("worktree_id"@);
    reveal_strlit("target_ref");
    vstd::utf8::is_ascii_chars_encode_utf8("target_ref"@);
    assert(encode_utf8("kind"@).len() == 4 && encode_utf8("kind"@)[0] == 0x6bu8);
    assert(encode_utf8("project_id"@).len() == 10 && encode_utf8("project_id"@)[0] == 0x70u8);
    assert(encode_utf8("run_id"@).len() == 6 && encode_utf8("run_id"@)[0] == 0x72u8);
    assert(encode_utf8("worktree_id"@).len() == 11 && encode_utf8("worktree_id"@)[0] == 0x77u8);
    assert(encode_utf8("target_ref"@).len() == 10 && encode_utf8("target_ref"@)[0] == 0x74u8);
}

/// The members determine every inserted value.
proof fn lemma_integration_scope_members_injective(
    v0: Json,
    v1: Json,
    v2: Json,
    v3: Json,
    v4: Json,
    w0: Json,
    w1: Json,
    w2: Json,
    w3: Json,
    w4: Json,
)
    requires
        integration_scope_members(v0, v1, v2, v3, v4) == integration_scope_members(w0, w1, w2, w3, w4),
    ensures
        v0 == w0,
        v1 == w1,
        v2 == w2,
        v3 == w3,
        v4 == w4,
{
    lemma_integration_scope_members_keys(v0, v1, v2, v3, v4);
    lemma_integration_scope_members_keys(w0, w1, w2, w3, w4);
}

/// The members of a file read's JSON form.
#[verifier::opaque]
pub open spec fn read_files_members(
    v0: Json,
    v1: Json,
    v2: Json,
) -> Seq<(Seq<u8>, Json)> {
    ins(ins(ins(no_members(), "kind", v0), "worktree_id", v1), "paths", v2)
}

proof fn lemma_read_files_members_keys(
    v0: Json,
    v1: Json,
    v2: Json,
)
    ensures
        ({
            let m = read_files_members(v0, v1, v2);
            &&& member_get(m, encode_utf8("kind"@)) == Some(v0)
            &&& member_get(m, encode_utf8("worktree_id"@)) == Some(v1)
            &&& member_get(m, encode_utf8("paths"@)) == Some(v2)
        }),
{
    broadcast use crate::json::lemma_member_get_insert_at;
    reveal(read_files_members);
    reveal_strlit("kind");
    vstd::utf8::is_ascii_chars_encode_utf8("kind"@);
    reveal_strlit("worktree_id");
    vstd::utf8::is_ascii_chars_encode_utf8("worktree_id"@);
    reveal_strlit("paths");
    vstd::utf8::is_ascii_chars_encode_utf8("paths"@);
    assert(encode_utf8("kind"@).len() == 4 && encode_utf8("kind"@)[0] == 0x6bu8);
    assert(encode_utf8("worktree_id"@).len() == 11 && encode_utf8("worktree_id"@)[0] == 0x77u8);
    assert(encode_utf8("paths"@).len() == 5 && encode_utf8("paths"@)[0] == 0x70u8);
}

/// The members determine every inserted value.
proof fn lemma_read_files_members_injective(
    v0: Json,
    v1: Json,
    v2: Json,
    w0: Json,
    w1: Json,
    w2: Json,
)
    requires
        read_files_members(v0, v1, v2) == read_files_members(w0, w1, w2),
    ensures
        v0 == w0,
        v1 == w1,
        v2 == w2,
{
    lemma_read_files_members_keys(v0, v1, v2);
    lemma_read_files_members_keys(w0, w1, w2);
}

/// The members of a patch application's JSON form.
#[verifier::opaque]
pub open spec fn apply_patch_members(
    v0: Json,
    v1: Json,
    v2: Json,
    v3: Json,
    v4: Json,
) -> Seq<(Seq<u8>, Json)> {
    ins(ins(ins(ins(ins(no_members(), "kind", v0), "worktree_id", v1), "patch_digest", v2), "patch_bytes", v3), "affected_paths", v4)
}

proof fn lemma_apply_patch_members_keys(
    v0: Json,
    v1: Json,
    v2: Json,
    v3: Json,
    v4: Json,
)
    ensures
        ({
            let m = apply_patch_members(v0, v1, v2, v3, v4);
            &&& member_get(m, encode_utf8("kind"@)) == Some(v0)
            &&& member_get(m, encode_utf8("worktree_id"@)) == Some(v1)
            &&& member_get(m, encode_utf8("patch_digest"@)) == Some(v2)
            &&& member_get(m, encode_utf8("patch_bytes"@)) == Some(v3)
            &&& member_get(m, encode_utf8("affected_paths"@)) == Some(v4)
        }),
{
    broadcast use crate::json::lemma_member_get_insert_at;
    reveal(apply_patch_members);
    reveal_strlit("kind");
    vstd::utf8::is_ascii_chars_encode_utf8("kind"@);
    reveal_strlit("worktree_id");
    vstd::utf8::is_ascii_chars_encode_utf8("worktree_id"@);
    reveal_strlit("patch_digest");
    vstd::utf8::is_ascii_chars_encode_utf8("patch_digest"@);
    reveal_strlit("patch_bytes");
    vstd::utf8::is_ascii_chars_encode_utf8("patch_bytes"@);
    reveal_strlit("affected_paths");
    vstd::utf8::is_ascii_chars_encode_utf8("affected_paths"@);
    assert(encode_utf8("kind"@).len() == 4 && encode_utf8("kind"@)[0] == 0x6bu8);
    assert(encode_utf8("worktree_id"@).len() == 11 && encode_utf8("worktree_id"@)[0] == 0x77u8);
    assert(encode_utf8("patch_digest"@).len() == 12 && encode_utf8("patch_digest"@)[0] == 0x70u8);
    assert(encode_utf8("patch_bytes"@).len() == 11 && encode_utf8("patch_bytes"@)[0] == 0x70u8);
    assert(encode_utf8("affected_paths"@).len() == 14 && encode_utf8("affected_paths"@)[0] == 0x61u8);
}

/// The members determine every inserted value.
proof fn lemma_apply_patch_members_injective(
    v0: Json,
    v1: Json,
    v2: Json,
    v3: Json,
    v4: Json,
    w0: Json,
    w1: Json,
    w2: Json,
    w3: Json,
    w4: Json,
)
    requires
        apply_patch_members(v0, v1, v2, v3, v4) == apply_patch_members(w0, w1, w2, w3, w4),
    ensures
        v0 == w0,
        v1 == w1,
        v2 == w2,
        v3 == w3,
        v4 == w4,
{
    lemma_apply_patch_members_keys(v0, v1, v2, v3, v4);
    lemma_apply_patch_members_keys(w0, w1, w2, w3, w4);
}

/// The members of a broker command run's JSON form.
#[verifier::opaque]
pub open spec fn broker_command_op_members(
    v0: Json,
    v1: Json,
    v2: Json,
    v3: Json,
    v4: Json,
    v5: Json,
    v6: Json,
) -> Seq<(Seq<u8>, Json)> {
    ins(ins(ins(ins(ins(ins(ins(no_members(), "kind", v0), "worktree_id", v1), "catalog_entry_id", v2), "catalog_entry_digest", v3), "executable_digest", v4), "cwd", v5), "argv", v6)
}

proof fn lemma_broker_command_op_members_keys(
    v0: Json,
    v1: Json,
    v2: Json,
    v3: Json,
    v4: Json,
    v5: Json,
    v6: Json,
)
    ensures
        ({
            let m = broker_command_op_members(v0, v1, v2, v3, v4, v5, v6);
            &&& member_get(m, encode_utf8("kind"@)) == Some(v0)
            &&& member_get(m, encode_utf8("worktree_id"@)) == Some(v1)
            &&& member_get(m, encode_utf8("catalog_entry_id"@)) == Some(v2)
            &&& member_get(m, encode_utf8("catalog_entry_digest"@)) == Some(v3)
            &&& member_get(m, encode_utf8("executable_digest"@)) == Some(v4)
            &&& member_get(m, encode_utf8("cwd"@)) == Some(v5)
            &&& member_get(m, encode_utf8("argv"@)) == Some(v6)
        }),
{
    broadcast use crate::json::lemma_member_get_insert_at;
    reveal(broker_command_op_members);
    reveal_strlit("kind");
    vstd::utf8::is_ascii_chars_encode_utf8("kind"@);
    reveal_strlit("worktree_id");
    vstd::utf8::is_ascii_chars_encode_utf8("worktree_id"@);
    reveal_strlit("catalog_entry_id");
    vstd::utf8::is_ascii_chars_encode_utf8("catalog_entry_id"@);
    reveal_strlit("catalog_entry_digest");
    vstd::utf8::is_ascii_chars_encode_utf8("catalog_entry_digest"@);
    reveal_strlit("executable_digest");
    vstd::utf8::is_ascii_chars_encode_utf8("executable_digest"@);
    reveal_strlit("cwd");
    vstd::utf8::is_ascii_chars_encode_utf8("cwd"@);
    reveal_strlit("argv");
    vstd::utf8::is_ascii_chars_encode_utf8("argv"@);
    assert(encode_utf8("kind"@).len() == 4 && encode_utf8("kind"@)[0] == 0x6bu8);
    assert(encode_utf8("worktree_id"@).len() == 11 && encode_utf8("worktree_id"@)[0] == 0x77u8);
    assert(encode_utf8("catalog_entry_id"@).len() == 16 && encode_utf8("catalog_entry_id"@)[0] == 0x63u8);
    assert(encode_utf8("catalog_entry_digest"@).len() == 20 && encode_utf8("catalog_entry_digest"@)[0] == 0x63u8);
    assert(encode_utf8("executable_digest"@).len() == 17 && encode_utf8("executable_digest"@)[0] == 0x65u8);
    assert(encode_utf8("cwd"@).len() == 3 && encode_utf8("cwd"@)[0] == 0x63u8);
    assert(encode_utf8("argv"@).len() == 4 && encode_utf8("argv"@)[0] == 0x61u8);
}

/// The members determine every inserted value.
proof fn lemma_broker_command_op_members_injective(
    v0: Json,
    v1: Json,
    v2: Json,
    v3: Json,
    v4: Json,
    v5: Json,
    v6: Json,
    w0: Json,
    w1: Json,
    w2: Json,
    w3: Json,
    w4: Json,
    w5: Json,
    w6: Json,
)
    requires
        broker_command_op_members(v0, v1, v2, v3, v4, v5, v6) == broker_command_op_members(w0, w1, w2, w3, w4, w5, w6),
    ensures
        v0 == w0,
        v1 == w1,
        v2 == w2,
        v3 == w3,
        v4 == w4,
        v5 == w5,
        v6 == w6,
{
    lemma_broker_command_op_members_keys(v0, v1, v2, v3, v4, v5, v6);
    lemma_broker_command_op_members_keys(w0, w1, w2, w3, w4, w5, w6);
}

/// The members of a provider request's JSON form.
#[verifier::opaque]
pub open spec fn provider_request_members(
    v0: Json,
    v1: Json,
    v2: Json,
    v3: Json,
    v4: Json,
    v5: Json,
    v6: Json,
) -> Seq<(Seq<u8>, Json)> {
    ins(ins(ins(ins(ins(ins(ins(no_members(), "kind", v0), "provider_id", v1), "account_id", v2), "destination", v3), "request_digest", v4), "request_bytes", v5), "data_classes", v6)
}

proof fn lemma_provider_request_members_keys(
    v0: Json,
    v1: Json,
    v2: Json,
    v3: Json,
    v4: Json,
    v5: Json,
    v6: Json,
)
    ensures
        ({
            let m = provider_request_members(v0, v1, v2, v3, v4, v5, v6);
            &&& member_get(m, encode_utf8("kind"@)) == Some(v0)
            &&& member_get(m, encode_utf8("provider_id"@)) == Some(v1)
            &&& member_get(m, encode_utf8("account_id"@)) == Some(v2)
            &&& member_get(m, encode_utf8("destination"@)) == Some(v3)
            &&& member_get(m, encode_utf8("request_digest"@)) == Some(v4)
            &&& member_get(m, encode_utf8("request_bytes"@)) == Some(v5)
            &&& member_get(m, encode_utf8("data_classes"@)) == Some(v6)
        }),
{
    broadcast use crate::json::lemma_member_get_insert_at;
    reveal(provider_request_members);
    reveal_strlit("kind");
    vstd::utf8::is_ascii_chars_encode_utf8("kind"@);
    reveal_strlit("provider_id");
    vstd::utf8::is_ascii_chars_encode_utf8("provider_id"@);
    reveal_strlit("account_id");
    vstd::utf8::is_ascii_chars_encode_utf8("account_id"@);
    reveal_strlit("destination");
    vstd::utf8::is_ascii_chars_encode_utf8("destination"@);
    reveal_strlit("request_digest");
    vstd::utf8::is_ascii_chars_encode_utf8("request_digest"@);
    reveal_strlit("request_bytes");
    vstd::utf8::is_ascii_chars_encode_utf8("request_bytes"@);
    reveal_strlit("data_classes");
    vstd::utf8::is_ascii_chars_encode_utf8("data_classes"@);
    assert(encode_utf8("kind"@).len() == 4 && encode_utf8("kind"@)[0] == 0x6bu8);
    assert(encode_utf8("provider_id"@).len() == 11 && encode_utf8("provider_id"@)[0] == 0x70u8);
    assert(encode_utf8("account_id"@).len() == 10 && encode_utf8("account_id"@)[0] == 0x61u8);
    assert(encode_utf8("destination"@).len() == 11 && encode_utf8("destination"@)[0] == 0x64u8);
    assert(encode_utf8("request_digest"@).len() == 14 && encode_utf8("request_digest"@)[0] == 0x72u8);
    assert(encode_utf8("request_bytes"@).len() == 13 && encode_utf8("request_bytes"@)[0] == 0x72u8);
    assert(encode_utf8("data_classes"@).len() == 12 && encode_utf8("data_classes"@)[0] == 0x64u8);
}

/// The members determine every inserted value.
proof fn lemma_provider_request_members_injective(
    v0: Json,
    v1: Json,
    v2: Json,
    v3: Json,
    v4: Json,
    v5: Json,
    v6: Json,
    w0: Json,
    w1: Json,
    w2: Json,
    w3: Json,
    w4: Json,
    w5: Json,
    w6: Json,
)
    requires
        provider_request_members(v0, v1, v2, v3, v4, v5, v6) == provider_request_members(w0, w1, w2, w3, w4, w5, w6),
    ensures
        v0 == w0,
        v1 == w1,
        v2 == w2,
        v3 == w3,
        v4 == w4,
        v5 == w5,
        v6 == w6,
{
    lemma_provider_request_members_keys(v0, v1, v2, v3, v4, v5, v6);
    lemma_provider_request_members_keys(w0, w1, w2, w3, w4, w5, w6);
}

/// The members of a credential use's JSON form.
#[verifier::opaque]
pub open spec fn use_credential_members(
    v0: Json,
    v1: Json,
    v2: Json,
    v3: Json,
    v4: Json,
) -> Seq<(Seq<u8>, Json)> {
    ins(ins(ins(ins(ins(no_members(), "kind", v0), "provider_id", v1), "account_id", v2), "credential_ref", v3), "destination", v4)
}

proof fn lemma_use_credential_members_keys(
    v0: Json,
    v1: Json,
    v2: Json,
    v3: Json,
    v4: Json,
)
    ensures
        ({
            let m = use_credential_members(v0, v1, v2, v3, v4);
            &&& member_get(m, encode_utf8("kind"@)) == Some(v0)
            &&& member_get(m, encode_utf8("provider_id"@)) == Some(v1)
            &&& member_get(m, encode_utf8("account_id"@)) == Some(v2)
            &&& member_get(m, encode_utf8("credential_ref"@)) == Some(v3)
            &&& member_get(m, encode_utf8("destination"@)) == Some(v4)
        }),
{
    broadcast use crate::json::lemma_member_get_insert_at;
    reveal(use_credential_members);
    reveal_strlit("kind");
    vstd::utf8::is_ascii_chars_encode_utf8("kind"@);
    reveal_strlit("provider_id");
    vstd::utf8::is_ascii_chars_encode_utf8("provider_id"@);
    reveal_strlit("account_id");
    vstd::utf8::is_ascii_chars_encode_utf8("account_id"@);
    reveal_strlit("credential_ref");
    vstd::utf8::is_ascii_chars_encode_utf8("credential_ref"@);
    reveal_strlit("destination");
    vstd::utf8::is_ascii_chars_encode_utf8("destination"@);
    assert(encode_utf8("kind"@).len() == 4 && encode_utf8("kind"@)[0] == 0x6bu8);
    assert(encode_utf8("provider_id"@).len() == 11 && encode_utf8("provider_id"@)[0] == 0x70u8);
    assert(encode_utf8("account_id"@).len() == 10 && encode_utf8("account_id"@)[0] == 0x61u8);
    assert(encode_utf8("credential_ref"@).len() == 14 && encode_utf8("credential_ref"@)[0] == 0x63u8);
    assert(encode_utf8("destination"@).len() == 11 && encode_utf8("destination"@)[0] == 0x64u8);
}

/// The members determine every inserted value.
proof fn lemma_use_credential_members_injective(
    v0: Json,
    v1: Json,
    v2: Json,
    v3: Json,
    v4: Json,
    w0: Json,
    w1: Json,
    w2: Json,
    w3: Json,
    w4: Json,
)
    requires
        use_credential_members(v0, v1, v2, v3, v4) == use_credential_members(w0, w1, w2, w3, w4),
    ensures
        v0 == w0,
        v1 == w1,
        v2 == w2,
        v3 == w3,
        v4 == w4,
{
    lemma_use_credential_members_keys(v0, v1, v2, v3, v4);
    lemma_use_credential_members_keys(w0, w1, w2, w3, w4);
}

/// The members of a worktree integration's JSON form.
#[verifier::opaque]
pub open spec fn integrate_worktree_members(
    v0: Json,
    v1: Json,
    v2: Json,
    v3: Json,
    v4: Json,
    v5: Json,
    v6: Json,
) -> Seq<(Seq<u8>, Json)> {
    ins(ins(ins(ins(ins(ins(ins(no_members(), "kind", v0), "worktree_id", v1), "source_ref", v2), "source_oid", v3), "target_ref", v4), "expected_target_oid", v5), "diff_digest", v6)
}

proof fn lemma_integrate_worktree_members_keys(
    v0: Json,
    v1: Json,
    v2: Json,
    v3: Json,
    v4: Json,
    v5: Json,
    v6: Json,
)
    ensures
        ({
            let m = integrate_worktree_members(v0, v1, v2, v3, v4, v5, v6);
            &&& member_get(m, encode_utf8("kind"@)) == Some(v0)
            &&& member_get(m, encode_utf8("worktree_id"@)) == Some(v1)
            &&& member_get(m, encode_utf8("source_ref"@)) == Some(v2)
            &&& member_get(m, encode_utf8("source_oid"@)) == Some(v3)
            &&& member_get(m, encode_utf8("target_ref"@)) == Some(v4)
            &&& member_get(m, encode_utf8("expected_target_oid"@)) == Some(v5)
            &&& member_get(m, encode_utf8("diff_digest"@)) == Some(v6)
        }),
{
    broadcast use crate::json::lemma_member_get_insert_at;
    reveal(integrate_worktree_members);
    reveal_strlit("kind");
    vstd::utf8::is_ascii_chars_encode_utf8("kind"@);
    reveal_strlit("worktree_id");
    vstd::utf8::is_ascii_chars_encode_utf8("worktree_id"@);
    reveal_strlit("source_ref");
    vstd::utf8::is_ascii_chars_encode_utf8("source_ref"@);
    reveal_strlit("source_oid");
    vstd::utf8::is_ascii_chars_encode_utf8("source_oid"@);
    reveal_strlit("target_ref");
    vstd::utf8::is_ascii_chars_encode_utf8("target_ref"@);
    reveal_strlit("expected_target_oid");
    vstd::utf8::is_ascii_chars_encode_utf8("expected_target_oid"@);
    reveal_strlit("diff_digest");
    vstd::utf8::is_ascii_chars_encode_utf8("diff_digest"@);
    assert(encode_utf8("kind"@).len() == 4 && encode_utf8("kind"@)[0] == 0x6bu8);
    assert(encode_utf8("worktree_id"@).len() == 11 && encode_utf8("worktree_id"@)[0] == 0x77u8);
    assert(encode_utf8("source_ref"@).len() == 10 && encode_utf8("source_ref"@)[0] == 0x73u8);
    assert(encode_utf8("source_oid"@).len() == 10 && encode_utf8("source_oid"@)[0] == 0x73u8);
    assert(encode_utf8("target_ref"@).len() == 10 && encode_utf8("target_ref"@)[0] == 0x74u8);
    assert(encode_utf8("expected_target_oid"@).len() == 19 && encode_utf8("expected_target_oid"@)[0] == 0x65u8);
    assert(encode_utf8("diff_digest"@).len() == 11 && encode_utf8("diff_digest"@)[0] == 0x64u8);
    assert(encode_utf8("source_oid"@)[7] == 0x6fu8);
    assert(encode_utf8("source_ref"@)[7] == 0x72u8);
}

/// The members determine every inserted value.
proof fn lemma_integrate_worktree_members_injective(
    v0: Json,
    v1: Json,
    v2: Json,
    v3: Json,
    v4: Json,
    v5: Json,
    v6: Json,
    w0: Json,
    w1: Json,
    w2: Json,
    w3: Json,
    w4: Json,
    w5: Json,
    w6: Json,
)
    requires
        integrate_worktree_members(v0, v1, v2, v3, v4, v5, v6) == integrate_worktree_members(w0, w1, w2, w3, w4, w5, w6),
    ensures
        v0 == w0,
        v1 == w1,
        v2 == w2,
        v3 == w3,
        v4 == w4,
        v5 == w5,
        v6 == w6,
{
    lemma_integrate_worktree_members_keys(v0, v1, v2, v3, v4, v5, v6);
    lemma_integrate_worktree_members_keys(w0, w1, w2, w3, w4, w5, w6);
}

/// The members of a provenance record's JSON form.
#[verifier::opaque]
pub open spec fn provenance_members(
    v0: Json,
    v1: Json,
    v2: Json,
) -> Seq<(Seq<u8>, Json)> {
    ins(ins(ins(no_members(), "source_kind", v0), "source_id", v1), "content_digest", v2)
}

proof fn lemma_provenance_members_keys(
    v0: Json,
    v1: Json,
    v2: Json,
)
    ensures
        ({
            let m = provenance_members(v0, v1, v2);
            &&& member_get(m, encode_utf8("source_kind"@)) == Some(v0)
            &&& member_get(m, encode_utf8("source_id"@)) == Some(v1)
            &&& member_get(m, encode_utf8("content_digest"@)) == Some(v2)
        }),
{
    broadcast use crate::json::lemma_member_get_insert_at;
    reveal(provenance_members);
    reveal_strlit("source_kind");
    vstd::utf8::is_ascii_chars_encode_utf8("source_kind"@);
    reveal_strlit("source_id");
    vstd::utf8::is_ascii_chars_encode_utf8("source_id"@);
    reveal_strlit("content_digest");
    vstd::utf8::is_ascii_chars_encode_utf8("content_digest"@);
    assert(encode_utf8("source_kind"@).len() == 11 && encode_utf8("source_kind"@)[0] == 0x73u8);
    assert(encode_utf8("source_id"@).len() == 9 && encode_utf8("source_id"@)[0] == 0x73u8);
    assert(encode_utf8("content_digest"@).len() == 14 && encode_utf8("content_digest"@)[0] == 0x63u8);
}

/// The members determine every inserted value.
proof fn lemma_provenance_members_injective(
    v0: Json,
    v1: Json,
    v2: Json,
    w0: Json,
    w1: Json,
    w2: Json,
)
    requires
        provenance_members(v0, v1, v2) == provenance_members(w0, w1, w2),
    ensures
        v0 == w0,
        v1 == w1,
        v2 == w2,
{
    lemma_provenance_members_keys(v0, v1, v2);
    lemma_provenance_members_keys(w0, w1, w2);
}

/// Two string lists hold the same strings, in the same order.
pub open spec fn same_strs(a: Seq<String>, b: Seq<String>) -> bool {
    a.len() == b.len() && forall|i: int| 0 <= i < a.len() ==> (#[trigger] a[i])@ == b[i]@
}

/// Two string lists with the same JSON strings hold the same strings.
proof fn lemma_strings_json_injective(a: Seq<String>, b: Seq<String>)
    requires
        strings_json(a) == strings_json(b),
    ensures
        same_strs(a, b),
{
    assert(strings_json(a).len() == a.len());
    assert(strings_json(b).len() == b.len());
    assert(a.len() == b.len());
    assert forall|i: int| 0 <= i < a.len() implies (#[trigger] a[i])@ == b[i]@ by {
        assert(strings_json(a)[i] == strings_json(b)[i]);
        assert(strings_json(a)[i] == Json::Str(encode_utf8(a[i]@)));
        assert(strings_json(b)[i] == Json::Str(encode_utf8(b[i]@)));
        crate::json::lemma_encode_utf8_injective(a[i]@, b[i]@);
    }
}

/// Two destinations with the same JSON form are the same destination.
proof fn lemma_destination_json_injective(a: Destination, b: Destination)
    requires
        destination_json(a) == destination_json(b),
    ensures
        same_destination(a, b),
{
    lemma_destination_members_injective(
        jstr(a.scheme),
        jstr(a.host),
        Json::Number(a.port as u64),
        jstr(a.path),
        jstr(b.scheme),
        jstr(b.host),
        Json::Number(b.port as u64),
        jstr(b.path),
    );
    lemma_same_bytes(a.scheme, b.scheme);
    lemma_same_bytes(a.host, b.host);
    lemma_same_bytes(a.path, b.path);
}

proof fn lemma_path_capability_json_injective(a: PathCapability, b: PathCapability)
    requires
        path_capability_json(a) == path_capability_json(b),
    ensures
        a == b,
{
    reveal_strlit("read");
    reveal_strlit("apply_patch");
    crate::json::lemma_encode_utf8_injective("read"@, "apply_patch"@);
}

/// Two provenance records with the same source kind, source id and content
/// digest.
pub open spec fn same_provenance(a: Provenance, b: Provenance) -> bool {
    a.source_kind@ == b.source_kind@ && a.source_id@ == b.source_id@ && a.content_digest@
        == b.content_digest@
}

/// Two provenance records with the same JSON form are the same record.
proof fn lemma_provenance_json_injective(a: Provenance, b: Provenance)
    requires
        provenance_json(a) == provenance_json(b),
    ensures
        same_provenance(a, b),
{
    reveal(provenance_json);
    lemma_provenance_members_injective(
        jstr(a.source_kind),
        jstr(a.source_id),
        jstr(a.content_digest),
        jstr(b.source_kind),
        jstr(b.source_id),
        jstr(b.content_digest),
    );
    lemma_same_bytes(a.source_kind, b.source_kind);
    lemma_same_bytes(a.source_id, b.source_id);
    lemma_same_bytes(a.content_digest, b.content_digest);
}

/// Two scopes of the same kind whose fields hold the same values.
pub open spec fn same_scope(a: CapabilityScope, b: CapabilityScope) -> bool {
    match (a, b) {
        (CapabilityScope::ProjectPaths { capability: capability1, project_id: project_id1, run_id: run_id1, worktree_id: worktree_id1, paths: paths1 }, CapabilityScope::ProjectPaths { capability: capability2, project_id: project_id2, run_id: run_id2, worktree_id: worktree_id2, paths: paths2 }) => capability1 == capability2 && project_id1@ == project_id2@ && run_id1@ == run_id2@ && worktree_id1@ == worktree_id2@ && same_strs(paths1@, paths2@),
        (CapabilityScope::BrokerCommand { project_id: project_id1, run_id: run_id1, worktree_id: worktree_id1, catalog_entry_id: catalog_entry_id1 }, CapabilityScope::BrokerCommand { project_id: project_id2, run_id: run_id2, worktree_id: worktree_id2, catalog_entry_id: catalog_entry_id2 }) => project_id1@ == project_id2@ && run_id1@ == run_id2@ && worktree_id1@ == worktree_id2@ && catalog_entry_id1@ == catalog_entry_id2@,
        (CapabilityScope::Provider { project_id: project_id1, run_id: run_id1, provider_id: provider_id1, account_id: account_id1, destination: destination1 }, CapabilityScope::Provider { project_id: project_id2, run_id: run_id2, provider_id: provider_id2, account_id: account_id2, destination: destination2 }) => project_id1@ == project_id2@ && run_id1@ == run_id2@ && provider_id1@ == provider_id2@ && account_id1@ == account_id2@ && same_destination(destination1, destination2),
        (CapabilityScope::Credential { project_id: project_id1, run_id: run_id1, provider_id: provider_id1, account_id: account_id1, credential_ref: credential_ref1, destination: destination1 }, CapabilityScope::Credential { project_id: project_id2, run_id: run_id2, provider_id: provider_id2, account_id: account_id2, credential_ref: credential_ref2, destination: destination2 }) => project_id1@ == project_id2@ && run_id1@ == run_id2@ && provider_id1@ == provider_id2@ && account_id1@ == account_id2@ && credential_ref1@ == credential_ref2@ && same_destination(destination1, destination2),
        (CapabilityScope::Integration { project_id: project_id1, run_id: run_id1, worktree_id: worktree_id1, target_ref: target_ref1 }, CapabilityScope::Integration { project_id: project_id2, run_id: run_id2, worktree_id: worktree_id2, target_ref: target_ref2 }) => project_id1@ == project_id2@ && run_id1@ == run_id2@ && worktree_id1@ == worktree_id2@ && target_ref1@ == target_ref2@,
        _ => false,
    }
}

proof fn lemma_scope_kind(x: CapabilityScope)
    ensures
        member_get(scope_json(x)->Object_0, encode_utf8("kind"@)) == Some(lit(scope_tag(x))),
{
    reveal(scope_json);
    match x {
        CapabilityScope::ProjectPaths { capability: capability, project_id: project_id, run_id: run_id, worktree_id: worktree_id, paths: paths } => lemma_project_paths_scope_members_keys(lit("project_paths"), path_capability_json(capability), jstr(project_id), jstr(run_id), jstr(worktree_id), jstrs(paths)),
        CapabilityScope::BrokerCommand { project_id: project_id, run_id: run_id, worktree_id: worktree_id, catalog_entry_id: catalog_entry_id } => lemma_broker_command_scope_members_keys(lit("broker_command"), jstr(project_id), jstr(run_id), jstr(worktree_id), jstr(catalog_entry_id)),
        CapabilityScope::Provider { project_id: project_id, run_id: run_id, provider_id: provider_id, account_id: account_id, destination: destination } => lemma_provider_scope_members_keys(lit("provider"), jstr(project_id), jstr(run_id), jstr(provider_id), jstr(account_id), destination_json(destination)),
        CapabilityScope::Credential { project_id: project_id, run_id: run_id, provider_id: provider_id, account_id: account_id, credential_ref: credential_ref, destination: destination } => lemma_credential_scope_members_keys(lit("credential"), jstr(project_id), jstr(run_id), jstr(provider_id), jstr(account_id), jstr(credential_ref), destination_json(destination)),
        CapabilityScope::Integration { project_id: project_id, run_id: run_id, worktree_id: worktree_id, target_ref: target_ref } => lemma_integration_scope_members_keys(lit("integration"), jstr(project_id), jstr(run_id), jstr(worktree_id), jstr(target_ref)),
    }
}

/// Two scopes with the same JSON form are the same kind of scope with
/// the same field values.
pub proof fn lemma_scope_json_injective(x1: CapabilityScope, x2: CapabilityScope)
    requires
        scope_json(x1) == scope_json(x2),
    ensures
        same_scope(x1, x2),
{
    lemma_scope_kind(x1);
    lemma_scope_kind(x2);
    crate::json::lemma_encode_utf8_injective(scope_tag(x1)@, scope_tag(x2)@);
    reveal_strlit("project_paths");
    reveal_strlit("broker_command");
    reveal_strlit("provider");
    reveal_strlit("credential");
    reveal_strlit("integration");
    reveal(scope_json);
    match (x1, x2) {
        (CapabilityScope::ProjectPaths { capability: capability1, project_id: project_id1, run_id: run_id1, worktree_id: worktree_id1, paths: paths1 }, CapabilityScope::ProjectPaths { capability: capability2, project_id: project_id2, run_id: run_id2, worktree_id: worktree_id2, paths: paths2 }) => {
            lemma_project_paths_scope_members_injective(lit("project_paths"), path_capability_json(capability1), jstr(project_id1), jstr(run_id1), jstr(worktree_id1), jstrs(paths1), lit("project_paths"), path_capability_json(capability2), jstr(project_id2), jstr(run_id2), jstr(worktree_id2), jstrs(paths2));
            lemma_path_capability_json_injective(capability1, capability2);
            lemma_same_bytes(project_id1, project_id2);
            lemma_same_bytes(run_id1, run_id2);
            lemma_same_bytes(worktree_id1, worktree_id2);
            lemma_strings_json_injective(paths1@, paths2@);
        },
        (CapabilityScope::BrokerCommand { project_id: project_id1, run_id: run_id1, worktree_id: worktree_id1, catalog_entry_id: catalog_entry_id1 }, CapabilityScope::BrokerCommand { project_id: project_id2, run_id: run_id2, worktree_id: worktree_id2, catalog_entry_id: catalog_entry_id2 }) => {
            lemma_broker_command_scope_members_injective(lit("broker_command"), jstr(project_id1), jstr(run_id1), jstr(worktree_id1), jstr(catalog_entry_id1), lit("broker_command"), jstr(project_id2), jstr(run_id2), jstr(worktree_id2), jstr(catalog_entry_id2));
            lemma_same_bytes(project_id1, project_id2);
            lemma_same_bytes(run_id1, run_id2);
            lemma_same_bytes(worktree_id1, worktree_id2);
            lemma_same_bytes(catalog_entry_id1, catalog_entry_id2);
        },
        (CapabilityScope::Provider { project_id: project_id1, run_id: run_id1, provider_id: provider_id1, account_id: account_id1, destination: destination1 }, CapabilityScope::Provider { project_id: project_id2, run_id: run_id2, provider_id: provider_id2, account_id: account_id2, destination: destination2 }) => {
            lemma_provider_scope_members_injective(lit("provider"), jstr(project_id1), jstr(run_id1), jstr(provider_id1), jstr(account_id1), destination_json(destination1), lit("provider"), jstr(project_id2), jstr(run_id2), jstr(provider_id2), jstr(account_id2), destination_json(destination2));
            lemma_same_bytes(project_id1, project_id2);
            lemma_same_bytes(run_id1, run_id2);
            lemma_same_bytes(provider_id1, provider_id2);
            lemma_same_bytes(account_id1, account_id2);
            lemma_destination_json_injective(destination1, destination2);
        },
        (CapabilityScope::Credential { project_id: project_id1, run_id: run_id1, provider_id: provider_id1, account_id: account_id1, credential_ref: credential_ref1, destination: destination1 }, CapabilityScope::Credential { project_id: project_id2, run_id: run_id2, provider_id: provider_id2, account_id: account_id2, credential_ref: credential_ref2, destination: destination2 }) => {
            lemma_credential_scope_members_injective(lit("credential"), jstr(project_id1), jstr(run_id1), jstr(provider_id1), jstr(account_id1), jstr(credential_ref1), destination_json(destination1), lit("credential"), jstr(project_id2), jstr(run_id2), jstr(provider_id2), jstr(account_id2), jstr(credential_ref2), destination_json(destination2));
            lemma_same_bytes(project_id1, project_id2);
            lemma_same_bytes(run_id1, run_id2);
            lemma_same_bytes(provider_id1, provider_id2);
            lemma_same_bytes(account_id1, account_id2);
            lemma_same_bytes(credential_ref1, credential_ref2);
            lemma_destination_json_injective(destination1, destination2);
        },
        (CapabilityScope::Integration { project_id: project_id1, run_id: run_id1, worktree_id: worktree_id1, target_ref: target_ref1 }, CapabilityScope::Integration { project_id: project_id2, run_id: run_id2, worktree_id: worktree_id2, target_ref: target_ref2 }) => {
            lemma_integration_scope_members_injective(lit("integration"), jstr(project_id1), jstr(run_id1), jstr(worktree_id1), jstr(target_ref1), lit("integration"), jstr(project_id2), jstr(run_id2), jstr(worktree_id2), jstr(target_ref2));
            lemma_same_bytes(project_id1, project_id2);
            lemma_same_bytes(run_id1, run_id2);
            lemma_same_bytes(worktree_id1, worktree_id2);
            lemma_same_bytes(target_ref1, target_ref2);
        },
        _ => {
            assert(false);
        },
    }
}

/// Two operations of the same kind whose fields hold the same values.
pub open spec fn same_operation(a: ActionOperation, b: ActionOperation) -> bool {
    match (a, b) {
        (ActionOperation::ReadFiles { worktree_id: worktree_id1, paths: paths1 }, ActionOperation::ReadFiles { worktree_id: worktree_id2, paths: paths2 }) => worktree_id1@ == worktree_id2@ && same_strs(paths1@, paths2@),
        (ActionOperation::ApplyPatch { worktree_id: worktree_id1, patch_digest: patch_digest1, patch_bytes: patch_bytes1, affected_paths: affected_paths1 }, ActionOperation::ApplyPatch { worktree_id: worktree_id2, patch_digest: patch_digest2, patch_bytes: patch_bytes2, affected_paths: affected_paths2 }) => worktree_id1@ == worktree_id2@ && patch_digest1@ == patch_digest2@ && patch_bytes1 == patch_bytes2 && same_strs(affected_paths1@, affected_paths2@),
        (ActionOperation::RunBrokerCommand { worktree_id: worktree_id1, catalog_entry_id: catalog_entry_id1, catalog_entry_digest: catalog_entry_digest1, executable_digest: executable_digest1, cwd: cwd1, argv: argv1 }, ActionOperation::RunBrokerCommand { worktree_id: worktree_id2, catalog_entry_id: catalog_entry_id2, catalog_entry_digest: catalog_entry_digest2, executable_digest: executable_digest2, cwd: cwd2, argv: argv2 }) => worktree_id1@ == worktree_id2@ && catalog_entry_id1@ == catalog_entry_id2@ && catalog_entry_digest1@ == catalog_entry_digest2@ && executable_digest1@ == executable_digest2@ && cwd1@ == cwd2@ && same_strs(argv1@, argv2@),
        (ActionOperation::SubmitProviderRequest { provider_id: provider_id1, account_id: account_id1, destination: destination1, request_digest: request_digest1, request_bytes: request_bytes1, data_classes: data_classes1 }, ActionOperation::SubmitProviderRequest { provider_id: provider_id2, account_id: account_id2, destination: destination2, request_digest: request_digest2, request_bytes: request_bytes2, data_classes: data_classes2 }) => provider_id1@ == provider_id2@ && account_id1@ == account_id2@ && same_destination(destination1, destination2) && request_digest1@ == request_digest2@ && request_bytes1 == request_bytes2 && same_strs(data_classes1@, data_classes2@),
        (ActionOperation::UseCredential { provider_id: provider_id1, account_id: account_id1, credential_ref: credential_ref1, destination: destination1 }, ActionOperation::UseCredential { provider_id: provider_id2, account_id: account_id2, credential_ref: credential_ref2, destination: destination2 }) => provider_id1@ == provider_id2@ && account_id1@ == account_id2@ && credential_ref1@ == credential_ref2@ && same_destination(destination1, destination2),
        (ActionOperation::IntegrateWorktree { worktree_id: worktree_id1, source_ref: source_ref1, source_oid: source_oid1, target_ref: target_ref1, expected_target_oid: expected_target_oid1, diff_digest: diff_digest1 }, ActionOperation::IntegrateWorktree { worktree_id: worktree_id2, source_ref: source_ref2, source_oid: source_oid2, target_ref: target_ref2, expected_target_oid: expected_target_oid2, diff_digest: diff_digest2 }) => worktree_id1@ == worktree_id2@ && source_ref1@ == source_ref2@ && source_oid1@ == source_oid2@ && target_ref1@ == target_ref2@ && expected_target_oid1@ == expected_target_oid2@ && diff_digest1@ == diff_digest2@,
        _ => false,
    }
}

proof fn lemma_operation_kind(x: ActionOperation)
    ensures
        member_get(operation_json(x)->Object_0, encode_utf8("kind"@)) == Some(lit(operation_tag(x))),
{
    reveal(operation_json);
    match x {
        ActionOperation::ReadFiles { worktree_id: worktree_id, paths: paths } => lemma_read_files_members_keys(lit("read_files"), jstr(worktree_id), jstrs(paths)),
        ActionOperation::ApplyPatch { worktree_id: worktree_id, patch_digest: patch_digest, patch_bytes: patch_bytes, affected_paths: affected_paths } => lemma_apply_patch_members_keys(lit("apply_patch"), jstr(worktree_id), jstr(patch_digest), Json::Number(patch_bytes), jstrs(affected_paths)),
        ActionOperation::RunBrokerCommand { worktree_id: worktree_id, catalog_entry_id: catalog_entry_id, catalog_entry_digest: catalog_entry_digest, executable_digest: executable_digest, cwd: cwd, argv: argv } => lemma_broker_command_op_members_keys(lit("run_broker_command"), jstr(worktree_id), jstr(catalog_entry_id), jstr(catalog_entry_digest), jstr(executable_digest), jstr(cwd), jstrs(argv)),
        ActionOperation::SubmitProviderRequest { provider_id: provider_id, account_id: account_id, destination: destination, request_digest: request_digest, request_bytes: request_bytes, data_classes: data_classes } => lemma_provider_request_members_keys(lit("submit_provider_request"), jstr(provider_id), jstr(account_id), destination_json(destination), jstr(request_digest), Json::Number(request_bytes), jstrs(data_classes)),
        ActionOperation::UseCredential { provider_id: provider_id, account_id: account_id, credential_ref: credential_ref, destination: destination } => lemma_use_credential_members_keys(lit("use_credential"), jstr(provider_id), jstr(account_id), jstr(credential_ref), destination_json(destination)),
        ActionOperation::IntegrateWorktree { worktree_id: worktree_id, source_ref: source_ref, source_oid: source_oid, target_ref: target_ref, expected_target_oid: expected_target_oid, diff_digest: diff_digest } => lemma_integrate_worktree_members_keys(lit("integrate_worktree"), jstr(worktree_id), jstr(source_ref), jstr(source_oid), jstr(target_ref), jstr(expected_target_oid), jstr(diff_digest)),
    }
}

/// Two operations with the same JSON form are the same kind of operation with
/// the same field values.
pub proof fn lemma_operation_json_injective(x1: ActionOperation, x2: ActionOperation)
    requires
        operation_json(x1) == operation_json(x2),
    ensures
        same_operation(x1, x2),
{
    lemma_operation_kind(x1);
    lemma_operation_kind(x2);
    crate::json::lemma_encode_utf8_injective(operation_tag(x1)@, operation_tag(x2)@);
    reveal_strlit("read_files");
    reveal_strlit("apply_patch");
    reveal_strlit("run_broker_command");
    reveal_strlit("submit_provider_request");
    reveal_strlit("use_credential");
    reveal_strlit("integrate_worktree");
    reveal(operation_json);
    match (x1, x2) {
        (ActionOperation::ReadFiles { worktree_id: worktree_id1, paths: paths1 }, ActionOperation::ReadFiles { worktree_id: worktree_id2, paths: paths2 }) => {
            lemma_read_files_members_injective(lit("read_files"), jstr(worktree_id1), jstrs(paths1), lit("read_files"), jstr(worktree_id2), jstrs(paths2));
            lemma_same_bytes(worktree_id1, worktree_id2);
            lemma_strings_json_injective(paths1@, paths2@);
        },
        (ActionOperation::ApplyPatch { worktree_id: worktree_id1, patch_digest: patch_digest1, patch_bytes: patch_bytes1, affected_paths: affected_paths1 }, ActionOperation::ApplyPatch { worktree_id: worktree_id2, patch_digest: patch_digest2, patch_bytes: patch_bytes2, affected_paths: affected_paths2 }) => {
            lemma_apply_patch_members_injective(lit("apply_patch"), jstr(worktree_id1), jstr(patch_digest1), Json::Number(patch_bytes1), jstrs(affected_paths1), lit("apply_patch"), jstr(worktree_id2), jstr(patch_digest2), Json::Number(patch_bytes2), jstrs(affected_paths2));
            lemma_same_bytes(worktree_id1, worktree_id2);
            lemma_same_bytes(patch_digest1, patch_digest2);
            lemma_strings_json_injective(affected_paths1@, affected_paths2@);
        },
        (ActionOperation::RunBrokerCommand { worktree_id: worktree_id1, catalog_entry_id: catalog_entry_id1, catalog_entry_digest: catalog_entry_digest1, executable_digest: executable_digest1, cwd: cwd1, argv: argv1 }, ActionOperation::RunBrokerCommand { worktree_id: worktree_id2, catalog_entry_id: catalog_entry_id2, catalog_entry_digest: catalog_entry_digest2, executable_digest: executable_digest2, cwd: cwd2, argv: argv2 }) => {
            lemma_broker_command_op_members_injective(lit("run_broker_command"), jstr(worktree_id1), jstr(catalog_entry_id1), jstr(catalog_entry_digest1), jstr(executable_digest1), jstr(cwd1), jstrs(argv1), lit("run_broker_command"), jstr(worktree_id2), jstr(catalog_entry_id2), jstr(catalog_entry_digest2), jstr(executable_digest2), jstr(cwd2), jstrs(argv2));
            lemma_same_bytes(worktree_id1, worktree_id2);
            lemma_same_bytes(catalog_entry_id1, catalog_entry_id2);
            lemma_same_bytes(catalog_entry_digest1, catalog_entry_digest2);
            lemma_same_bytes(executable_digest1, executable_digest2);
            lemma_same_bytes(cwd1, cwd2);
            lemma_strings_json_injective(argv1@, argv2@);
        },
        (ActionOperation::SubmitProviderRequest { provider_id: provider_id1, account_id: account_id1, destination: destination1, request_digest: request_digest1, request_bytes: request_bytes1, data_classes: data_classes1 }, ActionOperation::SubmitProviderRequest { provider_id: provider_id2, account_id: account_id2, destination: destination2, request_digest: request_digest2, request_bytes: request_bytes2, data_classes: data_classes2 }) => {
            lemma_provider_request_members_injective(lit("submit_provider_request"), jstr(provider_id1), jstr(account_id1), destination_json(destination1), jstr(request_digest1), Json::Number(request_bytes1), jstrs(data_classes1), lit("submit_provider_request"), jstr(provider_id2), jstr(account_id2), destination_json(destination2), jstr(request_digest2), Json::Number(request_bytes2), jstrs(data_classes2));
            lemma_same_bytes(provider_id1, provider_id2);
            lemma_same_bytes(account_id1, account_id2);
            lemma_destination_json_injective(destination1, destination2);
            lemma_same_bytes(request_digest1, request_digest2);
            lemma_strings_json_injective(data_classes1@, data_classes2@);
        },
        (ActionOperation::UseCredential { provider_id: provider_id1, account_id: account_id1, credential_ref: credential_ref1, destination: destination1 }, ActionOperation::UseCredential { provider_id: provider_id2, account_id: account_id2, credential_ref: credential_ref2, destination: destination2 }) => {
            lemma_use_credential_members_injective(lit("use_credential"), jstr(provider_id1), jstr(account_id1), jstr(credential_ref1), destination_json(destination1), lit("use_credential"), jstr(provider_id2), jstr(account_id2), jstr(credential_ref2), destination_json(destination2));
            lemma_same_bytes(provider_id1, provider_id2);
            lemma_same_bytes(account_id1, account_id2);
            lemma_same_bytes(credential_ref1, credential_ref2);
            lemma_destination_json_injective(destination1, destination2);
        },
        (ActionOperation::IntegrateWorktree { worktree_id: worktree_id1, source_ref: source_ref1, source_oid: source_oid1, target_ref: target_ref1, expected_target_oid: expected_target_oid1, diff_digest: diff_digest1 }, ActionOperation::IntegrateWorktree { worktree_id: worktree_id2, source_ref: source_ref2, source_oid: source_oid2, target_ref: target_ref2, expected_target_oid: expected_target_oid2, diff_digest: diff_digest2 }) => {
            lemma_integrate_worktree_members_injective(lit("integrate_worktree"), jstr(worktree_id1), jstr(source_ref1), jstr(source_oid1), jstr(target_ref1), jstr(expected_target_oid1), jstr(diff_digest1), lit("integrate_worktree"), jstr(worktree_id2), jstr(source_ref2), jstr(source_oid2), jstr(target_ref2), jstr(expected_target_oid2), jstr(diff_digest2));
            lemma_same_bytes(worktree_id1, worktree_id2);
            lemma_same_bytes(source_ref1, source_ref2);
            lemma_same_bytes(source_oid1, source_oid2);
            lemma_same_bytes(target_ref1, target_ref2);
            lemma_same_bytes(expected_target_oid1, expected_target_oid2);
            lemma_same_bytes(diff_digest1, diff_digest2);
        },
        _ => {
            assert(false);
        },
    }
}

/// The JSON form of an action proposal.
pub open spec fn action_json(a: ActionProposal) -> Json {
    Json::Object(
        action_members(
            Json::Number(a.schema_version as u64),
            jstr(a.action_id),
            jstr(a.run_id),
            jstr(a.project_id),
            scope_json(a.requested_capability),
            operation_json(a.operation),
            Json::Array(Seq::new(a.provenance@.len(), |i: int| provenance_json(a.provenance@[i]))),
            Json::Number(a.created_at_unix_ms),
            Json::Number(a.expires_at_unix_ms),
        ),
    )
}

/// The members of an action's JSON form, inserted by key: schema version,
/// action, run and project ids, capability, operation, provenance and times.
#[verifier::opaque]
pub open spec fn action_members(
    v0: Json,
    v1: Json,
    v2: Json,
    v3: Json,
    v4: Json,
    v5: Json,
    v6: Json,
    v7: Json,
    v8: Json,
) -> Seq<(Seq<u8>, Json)> {
    ins(ins(ins(ins(ins(ins(ins(ins(ins(no_members(), "schema_version", v0), "action_id", v1), "run_id", v2), "project_id", v3), "requested_capability", v4), "operation", v5), "provenance", v6), "created_at_unix_ms", v7), "expires_at_unix_ms", v8)
}

/// The canonical bytes of an action, or why there are none.
pub open spec fn action_canonical(a: ActionProposal) -> Result<Seq<u8>, ActionError> {
    match shape_check(a) {
        Err(e) => Err(e),
        Ok(_) => if json_text(action_json(a)).len() > MAX_CANONICAL_ACTION_BYTES {
            Err(ActionError::ActionTooLarge)
        } else {
            Ok(json_text(action_json(a)))
        },
    }
}

/// The domain separator of action digests: `vea`, `action`, `v1`, each
/// followed by a NUL byte.
pub open spec fn action_domain() -> Seq<u8> {
    seq![0x76u8, 0x65u8, 0x61u8, 0u8, 0x61u8, 0x63u8, 0x74u8, 0x69u8, 0x6fu8, 0x6eu8, 0u8, 0x76u8, 0x31u8, 0u8]
}

fn string_member(m: &mut Vec<JsonMember>, key: &str, value: &String)
    ensures
        members_view(final(m)@) == ins(members_view(old(m)@), key, jstr(*value)),
        members_wf(members_view(old(m)@)) ==> members_wf(members_view(final(m)@)),
{
    object_insert(m, key_bytes(key), json_string(value));
}

fn literal_member(m: &mut Vec<JsonMember>, key: &str, value: &str)
    ensures
        members_view(final(m)@) == ins(members_view(old(m)@), key, lit(value)),
        members_wf(members_view(old(m)@)) ==> members_wf(members_view(final(m)@)),
{
    object_insert(m, key_bytes(key), JsonValue::Str(key_bytes(value)));
}

fn value_member(m: &mut Vec<JsonMember>, key: &str, value: JsonValue)
    ensures
        members_view(final(m)@) == ins(members_view(old(m)@), key, value@),
        members_wf(members_view(old(m)@)) && json_wf(value@) ==> members_wf(
            members_view(final(m)@),
        ),
{
    object_insert(m, key_bytes(key), value);
}

fn destination_to_json(d: &Destination) -> (r: JsonValue)
    ensures
        r@ == destination_json(*d),
        json_wf(r@),
{
    proof {
        reveal(destination_members);
    }
    let mut m: Vec<JsonMember> = Vec::new();
    string_member(&mut m, "scheme", &d.scheme);
    string_member(&mut m, "host", &d.host);
    value_member(&mut m, "port", JsonValue::Number(d.port as u64));
    string_member(&mut m, "path", &d.path);
    let r = JsonValue::Object(m);
    proof {
        lemma_json_wf_unfold(r@);
    }
    r
}

pub fn scope_to_json(scope: &CapabilityScope) -> (r: JsonValue)
    ensures
        r@ == scope_json(*scope),
        json_wf(r@),
{
    proof {
        reveal(scope_json);
        reveal(project_paths_scope_members);
        reveal(broker_command_scope_members);
        reveal(provider_scope_members);
        reveal(credential_scope_members);
        reveal(integration_scope_members);
    }
    let mut m: Vec<JsonMember> = Vec::new();
    match scope {
        CapabilityScope::ProjectPaths { capability, project_id, run_id, worktree_id, paths } => {
            literal_member(&mut m, "kind", "project_paths");
            match capability {
                PathCapability::Read => literal_member(&mut m, "capability", "read"),
                PathCapability::ApplyPatch => literal_member(&mut m, "capability", "apply_patch"),
            }
            string_member(&mut m, "project_id", project_id);
            string_member(&mut m, "run_id", run_id);
            string_member(&mut m, "worktree_id", worktree_id);
            value_member(&mut m, "paths", json_string_array(paths));
        },
        CapabilityScope::BrokerCommand { project_id, run_id, worktree_id, catalog_entry_id } => {
            literal_member(&mut m, "kind", "broker_command");
            string_member(&mut m, "project_id", project_id);
            string_member(&mut m, "run_id", run_id);
            string_member(&mut m, "worktree_id", worktree_id);
            string_member(&mut m, "catalog_entry_id", catalog_entry_id);
        },
        CapabilityScope::Provider { project_id, run_id, provider_id, account_id, destination } => {
            literal_member(&mut m, "kind", "provider");
            string_member(&mut m, "project_id", project_id);
            string_member(&mut m, "run_id", run_id);
            string_member(&mut m, "provider_id", provider_id);
            string_member(&mut m, "account_id", account_id);
            value_member(&mut m, "destination", destination_to_json(destination));
        },
        CapabilityScope::Credential {
            project_id,
            run_id,
            provider_id,
            account_id,
            credential_ref,
            destination,
        } => {
            literal_member(&mut m, "kind", "credential");
            string_member(&mut m, "project_id", project_id);
            string_member(&mut m, "run_id", run_id);
            string_member(&mut m, "provider_id", provider_id);
            string_member(&mut m, "account_id", account_id);
            string_member(&mut m, "credential_ref", credential_ref);
            value_member(&mut m, "destination", destination_to_json(destination));
        },
        CapabilityScope::Integration { project_id, run_id, worktree_id, target_ref } => {
            literal_member(&mut m, "kind", "integration");
            string_member(&mut m, "project_id", project_id);
            string_member(&mut m, "run_id", run_id);
            string_member(&mut m, "worktree_id", worktree_id);
            string_member(&mut m, "target_ref", target_ref);
        },
    }
    let r = JsonValue::Object(m);
    proof {
        lemma_json_wf_unfold(r@);
    }
    r
}

fn operation_to_json(op: &ActionOperation) -> (r: JsonValue)
    ensures
        r@ == operation_json(*op),
        json_wf(r@),
{
    proof {
        reveal(operation_json);
        reveal(read_files_members);
        reveal(apply_patch_members);
        reveal(broker_command_op_members);
        reveal(provider_request_members);
        reveal(use_credential_members);
        reveal(integrate_worktree_members);
    }
    let mut m: Vec<JsonMember> = Vec::new();
    match op {
        ActionOperation::ReadFiles { worktree_id, paths } => {
            literal_member(&mut m, "kind", "read_files");
            string_member(&mut m, "worktree_id", worktree_id);
            value_member(&mut m, "paths", json_string_array(paths));
        },
        ActionOperation::ApplyPatch { worktree_id, patch_digest, patch_bytes, affected_paths } => {
            literal_member(&mut m, "kind", "apply_patch");
            string_member(&mut m, "worktree_id", worktree_id);
            string_member(&mut m, "patch_digest", patch_digest);
            value_member(&mut m, "patch_bytes", JsonValue::Number(*patch_bytes));
            value_member(&mut m, "affected_paths", json_string_array(affected_paths));
        },
        ActionOperation::RunBrokerCommand {
            worktree_id,
            catalog_entry_id,
            catalog_entry_digest,
            executable_digest,
            cwd,
            argv,
        } => {
            literal_member(&mut m, "kind", "run_broker_command");
            string_member(&mut m, "worktree_id", worktree_id);
            string_member(&mut m, "catalog_entry_id", catalog_entry_id);
            string_member(&mut m, "catalog_entry_digest", catalog_entry_digest);
            string_member(&mut m, "executable_digest", executable_digest);
            string_member(&mut m, "cwd", cwd);
            value_member(&mut m, "argv", json_string_array(argv));
        },
        ActionOperation::SubmitProviderRequest {
            provider_id,
            account_id,
            destination,
            request_digest,
            request_bytes,
            data_classes,
        } => {
            literal_member(&mut m, "kind", "submit_provider_request");
            string_member(&mut m, "provider_id", provider_id);
            string_member(&mut m, "account_id", account_id);
            value_member(&mut m, "destination", destination_to_json(destination));
            string_member(&mut m, "request_digest", request_digest);
            value_member(&mut m, "request_bytes", JsonValue::Number(*request_bytes));
            value_member(&mut m, "data_classes", json_string_array(data_classes));
        },
        ActionOperation::UseCredential { provider_id, account_id, credential_ref, destination } => {
            literal_member(&mut m, "kind", "use_credential");
            string_member(&mut m, "provider_id", provider_id);
            string_member(&mut m, "account_id", account_id);
            string_member(&mut m, "credential_ref", credential_ref);
            value_member(&mut m, "destination", destination_to_json(destination));
        },
        ActionOperation::IntegrateWorktree {
            worktree_id,
            source_ref,
            source_oid,
            target_ref,
            expected_target_oid,
            diff_digest,
        } => {
            literal_member(&mut m, "kind", "integrate_worktree");
            string_member(&mut m, "worktree_id", worktree_id);
            string_member(&mut m, "source_ref", source_ref);
            string_member(&mut m, "source_oid", source_oid);
            string_member(&mut m, "target_ref", target_ref);
            string_member(&mut m, "expected_target_oid", expected_target_oid);
            string_member(&mut m, "diff_digest", diff_digest);
        },
    }
    let r = JsonValue::Object(m);
    proof {
        lemma_json_wf_unfold(r@);
    }
    r
}

fn provenance_to_json(p: &Provenance) -> (r: JsonValue)
    ensures
        r@ == provenance_json(*p),
        json_wf(r@),
{
    proof {
        reveal(provenance_json);
        reveal(provenance_members);
    }
    let mut m: Vec<JsonMember> = Vec::new();
    string_member(&mut m, "source_kind", &p.source_kind);
    string_member(&mut m, "source_id", &p.source_id);
    string_member(&mut m, "content_digest", &p.content_digest);
    let r = JsonValue::Object(m);
    proof {
        lemma_json_wf_unfold(r@);
    }
    r
}

impl ActionProposal {
    /// The JSON value of this action.
    pub fn to_json(&self) -> (r: JsonValue)
        ensures
            r@ == action_json(*self),
            json_wf(r@),
    {
        proof {
            reveal(action_members);
        }
        let mut items: Vec<JsonValue> = Vec::new();
        let mut i: usize = 0;
        while i < self.provenance.len()
            invariant
                i <= self.provenance@.len(),
                items_view(items@) == Seq::new(self.provenance@.len(), |k: int| provenance_json(self.provenance@[k])).take(i as int),
                forall|k: int| 0 <= k < i ==> json_wf(#[trigger] items_view(items@)[k]),
            decreases self.provenance.len() - i,
        {
            let item = provenance_to_json(&self.provenance[i]);
            let ghost before = items@;
            items.push(item);
            assert(items@.drop_last() =~= before);
            assert(items_view(items@) == items_view(before).push(item@));
            i = i + 1;
            assert(items_view(items@) =~= Seq::new(self.provenance@.len(), |k: int| provenance_json(self.provenance@[k])).take(i as int));
        }
        assert(Seq::new(self.provenance@.len(), |k: int| provenance_json(self.provenance@[k])).take(i as int)
            =~= Seq::new(self.provenance@.len(), |k: int| provenance_json(self.provenance@[k])));
        let mut m: Vec<JsonMember> = Vec::new();
        value_member(&mut m, "schema_version", JsonValue::Number(self.schema_version as u64));
        string_member(&mut m, "action_id", &self.action_id);
        string_member(&mut m, "run_id", &self.run_id);
        string_member(&mut m, "project_id", &self.project_id);
        value_member(&mut m, "requested_capability", scope_to_json(&self.requested_capability));
        value_member(&mut m, "operation", operation_to_json(&self.operation));
        value_member(&mut m, "provenance", JsonValue::Array(items));
        value_member(&mut m, "created_at_unix_ms", JsonValue::Number(self.created_at_unix_ms));
        value_member(&mut m, "expires_at_unix_ms", JsonValue::Number(self.expires_at_unix_ms));
        let r = JsonValue::Object(m);
        proof {
            lemma_json_wf_unfold(r@);
        }
        r
    }

    /// The canonical JSON bytes of a well-formed action of at most 64 KiB.
    pub fn canonical_bytes(&self) -> (r: Result<Vec<u8>, ActionError>)
        ensures
            match r {
                Ok(b) => action_canonical(*self) == Ok::<Seq<u8>, ActionError>(b@),
                Err(e) => action_canonical(*self) == Err::<Seq<u8>, ActionError>(e),
            },
    {
        let r = self.validate_shape();
        match r {
            Err(e) => Err(e),
            Ok(_) => {
                let bytes = canonical_json(&self.to_json());
                if bytes.len() > MAX_CANONICAL_ACTION_BYTES {
                    return Err(ActionError::ActionTooLarge);
                }
                Ok(bytes)
            },
        }
    }

    /// The domain-separated digest of the canonical bytes.
    pub fn digest(&self) -> (r: Result<ActionDigest, ActionError>)
        ensures
            match r {
                Ok(d) => action_canonical(*self) is Ok && d@ == digest_text(
                    action_domain() + action_canonical(*self)->Ok_0,
                ) && is_sha256_text(d@),
                Err(e) => action_canonical(*self) == Err::<Seq<u8>, ActionError>(e),
            },
    {
        match self.canonical_bytes() {
            Err(e) => Err(e),
            Ok(bytes) => {
                let domain: Vec<u8> = vec![0x76u8, 0x65, 0x61, 0, 0x61, 0x63, 0x74, 0x69, 0x6f, 0x6e, 0, 0x76, 0x31, 0];
                assert(domain@ =~= action_domain());
                Ok(ActionDigest::from_raw(domain_digest(domain.as_slice(), bytes.as_slice())))
            },
        }
    }
}

/// Where each of the nine members of an action's JSON form can be read.
proof fn lemma_action_member_keys(v0: Json, v1: Json, v2: Json, v3: Json, v4: Json, v5: Json, v6: Json, v7: Json, v8: Json)
    ensures
        ({
            let m = action_members(v0, v1, v2, v3, v4, v5, v6, v7, v8);
            &&& member_get(m, encode_utf8("schema_version"@)) == Some(v0)
            &&& member_get(m, encode_utf8("action_id"@)) == Some(v1)
            &&& member_get(m, encode_utf8("run_id"@)) == Some(v2)
            &&& member_get(m, encode_utf8("project_id"@)) == Some(v3)
            &&& member_get(m, encode_utf8("requested_capability"@)) == Some(v4)
            &&& member_get(m, encode_utf8("operation"@)) == Some(v5)
            &&& member_get(m, encode_utf8("provenance"@)) == Some(v6)
            &&& member_get(m, encode_utf8("created_at_unix_ms"@)) == Some(v7)
            &&& member_get(m, encode_utf8("expires_at_unix_ms"@)) == Some(v8)
        }),
{
    broadcast use crate::json::lemma_member_get_insert_at;
    reveal(action_members);
    reveal_strlit("schema_version");
    vstd::utf8::is_ascii_chars_encode_utf8("schema_version"@);
    reveal_strlit("action_id");
    vstd::utf8::is_ascii_chars_encode_utf8("action_id"@);
    reveal_strlit("run_id");
    vstd::utf8::is_ascii_chars_encode_utf8("run_id"@);
    reveal_strlit("project_id");
    vstd::utf8::is_ascii_chars_encode_utf8("project_id"@);
    reveal_strlit("requested_capability");
    vstd::utf8::is_ascii_chars_encode_utf8("requested_capability"@);
    reveal_strlit("operation");
    vstd::utf8::is_ascii_chars_encode_utf8("operation"@);
    reveal_strlit("provenance");
    vstd::utf8::is_ascii_chars_encode_utf8("provenance"@);
    reveal_strlit("created_at_unix_ms");
    vstd::utf8::is_ascii_chars_encode_utf8("created_at_unix_ms"@);
    reveal_strlit("expires_at_unix_ms");
    vstd::utf8::is_ascii_chars_encode_utf8("expires_at_unix_ms"@);
    assert(encode_utf8("schema_version"@).len() == 14 && encode_utf8("schema_version"@)[0] == 0x73u8);
    assert(encode_utf8("action_id"@).len() == 9 && encode_utf8("action_id"@)[0] == 0x61u8);
    assert(encode_utf8("run_id"@).len() == 6 && encode_utf8("run_id"@)[0] == 0x72u8);
    assert(encode_utf8("project_id"@).len() == 10 && encode_utf8("project_id"@)[0] == 0x70u8);
    assert(encode_utf8("requested_capability"@).len() == 20 && encode_utf8("requested_capability"@)[0] == 0x72u8);
    assert(encode_utf8("operation"@).len() == 9 && encode_utf8("operation"@)[0] == 0x6fu8);
    assert(encode_utf8("provenance"@).len() == 10 && encode_utf8("provenance"@)[0] == 0x70u8);
    assert(encode_utf8("created_at_unix_ms"@).len() == 18 && encode_utf8("created_at_unix_ms"@)[0] == 0x63u8);
    assert(encode_utf8("expires_at_unix_ms"@).len() == 18 && encode_utf8("expires_at_unix_ms"@)[0] == 0x65u8);
    assert(encode_utf8("project_id"@)[3] == 0x6au8);
    assert(encode_utf8("provenance"@)[3] == 0x76u8);
}

/// Two strings with the same UTF-8 bytes are the same string.
pub proof fn lemma_same_bytes(s1: String, s2: String)
    requires
        sb(s1) == sb(s2),
    ensures
        s1@ == s2@,
{
    vstd::utf8::encode_utf8_decode_utf8(s1@);
    vstd::utf8::encode_utf8_decode_utf8(s2@);
}

/// Two actions whose fields hold the same values: schema version, ids,
/// capability, operation, provenance records and times.
pub open spec fn same_action(a: ActionProposal, b: ActionProposal) -> bool {
    &&& a.schema_version == b.schema_version
    &&& a.action_id@ == b.action_id@
    &&& a.run_id@ == b.run_id@
    &&& a.project_id@ == b.project_id@
    &&& same_scope(a.requested_capability, b.requested_capability)
    &&& same_operation(a.operation, b.operation)
    &&& a.provenance@.len() == b.provenance@.len()
    &&& forall|i: int|
        0 <= i < a.provenance@.len() ==> same_provenance(#[trigger] a.provenance@[i], b.provenance@[i])
    &&& a.created_at_unix_ms == b.created_at_unix_ms
    &&& a.expires_at_unix_ms == b.expires_at_unix_ms
}

/// Two actions with the same JSON form hold the same values in every field.
pub proof fn lemma_action_json_injective(a1: ActionProposal, a2: ActionProposal)
    requires
        action_json(a1) == action_json(a2),
    ensures
        same_action(a1, a2),
{
    lemma_action_member_keys(
        Json::Number(a1.schema_version as u64),
        jstr(a1.action_id),
        jstr(a1.run_id),
        jstr(a1.project_id),
        scope_json(a1.requested_capability),
        operation_json(a1.operation),
        Json::Array(Seq::new(a1.provenance@.len(), |i: int| provenance_json(a1.provenance@[i]))),
        Json::Number(a1.created_at_unix_ms),
        Json::Number(a1.expires_at_unix_ms),
    );
    lemma_action_member_keys(
        Json::Number(a2.schema_version as u64),
        jstr(a2.action_id),
        jstr(a2.run_id),
        jstr(a2.project_id),
        scope_json(a2.requested_capability),
        operation_json(a2.operation),
        Json::Array(Seq::new(a2.provenance@.len(), |i: int| provenance_json(a2.provenance@[i]))),
        Json::Number(a2.created_at_unix_ms),
        Json::Number(a2.expires_at_unix_ms),
    );
    lemma_same_bytes(a1.action_id, a2.action_id);
    lemma_same_bytes(a1.run_id, a2.run_id);
    lemma_same_bytes(a1.project_id, a2.project_id);
    lemma_provenance_items(a1.provenance@, a2.provenance@);
    lemma_scope_json_injective(a1.requested_capability, a2.requested_capability);
    lemma_operation_json_injective(a1.operation, a2.operation);
    assert forall|i: int| 0 <= i < a1.provenance@.len() implies same_provenance(
        #[trigger] a1.provenance@[i],
        a2.provenance@[i],
    ) by {
        lemma_provenance_json_injective(a1.provenance@[i], a2.provenance@[i]);
    }
}

/// The canonical bytes determine the action: two actions with the same
/// canonical bytes hold the same values in every field, so a change to any
/// field changes the bytes that the action digest is taken over.
pub proof fn lemma_action_canonical_injective(a1: ActionProposal, a2: ActionProposal)
    requires
        action_canonical(a1) is Ok,
        action_canonical(a1) == action_canonical(a2),
    ensures
        same_action(a1, a2),
{
    crate::json::lemma_json_text_injective(action_json(a1), action_json(a2));
    lemma_action_json_injective(a1, a2);
}

proof fn lemma_provenance_items(p1: Seq<Provenance>, p2: Seq<Provenance>)
    requires
        Seq::new(p1.len(), |i: int| provenance_json(p1[i])) == Seq::new(p2.len(), |i: int| provenance_json(p2[i])),
    ensures
        p1.len() == p2.len(),
        forall|i: int| 0 <= i < p1.len() ==> provenance_json(#[trigger] p1[i]) == provenance_json(p2[i]),
{
    let s1 = Seq::new(p1.len(), |i: int| provenance_json(p1[i]));
    let s2 = Seq::new(p2.len(), |i: int| provenance_json(p2[i]));
    assert(s1.len() == s2.len());
    assert forall|i: int| 0 <= i < p1.len() implies provenance_json(#[trigger] p1[i]) == provenance_json(p2[i]) by {
        assert(s1[i] == s2[i]);
    }
}

/// Each operation has a risk class of its own, and the class tells the
/// operation: reads are read-only, patches the only local mutations, broker
/// commands process executions, provider requests external disclosures,
/// credential uses credential uses and integrations git integrations.
pub proof fn lemma_risk_class_names_the_operation(op: ActionOperation)
    ensures
        (operation_risk(op) == RiskClass::ReadOnly) <==> op is ReadFiles,
        (operation_risk(op) == RiskClass::LocalMutation) <==> op is ApplyPatch,
        (operation_risk(op) == RiskClass::ProcessExecution) <==> op is RunBrokerCommand,
        (operation_risk(op) == RiskClass::ExternalDisclosure) <==> op is SubmitProviderRequest,
        (operation_risk(op) == RiskClass::CredentialUse) <==> op is UseCredential,
        (operation_risk(op) == RiskClass::GitIntegration) <==> op is IntegrateWorktree,
{
}

/// Reads mutate nothing; patches and integrations can be recovered from the
/// worktree; broker commands, provider requests and credential uses act
/// outside it, with an outcome that may stay unknown.
pub proof fn lemma_reversibility_follows_the_operation(op: ActionOperation)
    ensures
        (operation_reversibility(op) == Reversibility::NoMutation) <==> op is ReadFiles,
        (operation_reversibility(op) == Reversibility::WorktreeRecoverable) <==> (op is ApplyPatch
            || op is IntegrateWorktree),
        (operation_reversibility(op) == Reversibility::SideEffectUnknown) <==> (op is RunBrokerCommand
            || op is SubmitProviderRequest || op is UseCredential),
{
}

/// Some string of `listed` has the characters of `p`.
pub open spec fn is_listed(p: String, listed: Seq<String>) -> bool {
    exists|j: int| 0 <= j < listed.len() && (#[trigger] listed[j])@ == p@
}

/// Every path of `ops` is, character for character, one of `listed`.
pub open spec fn every_path_listed(ops: Seq<String>, listed: Seq<String>) -> bool {
    forall|i: int| 0 <= i < ops.len() ==> is_listed(#[trigger] ops[i], listed)
}

/// The project and run a scope is for.
pub open spec fn scope_project_and_run(g: CapabilityScope) -> (Seq<char>, Seq<char>) {
    match g {
        CapabilityScope::ProjectPaths { project_id, run_id, .. } => (project_id@, run_id@),
        CapabilityScope::BrokerCommand { project_id, run_id, .. } => (project_id@, run_id@),
        CapabilityScope::Provider { project_id, run_id, .. } => (project_id@, run_id@),
        CapabilityScope::Credential { project_id, run_id, .. } => (project_id@, run_id@),
        CapabilityScope::Integration { project_id, run_id, .. } => (project_id@, run_id@),
    }
}

/// A grant matches an action only if it names exactly what the action does:
/// the grant's project and run are the action's, and the grant is of the
/// operation's own kind over the same worktree, catalog entry, provider,
/// account, credential, destination or target reference, with every path
/// the operation reads or patches among the grant's paths.
pub proof fn lemma_grant_names_what_the_action_does(g: CapabilityScope, a: ActionProposal)
    requires
        scope_matches(g, a),
    ensures
        scope_project_and_run(g) == (a.project_id@, a.run_id@),
        a.operation matches ActionOperation::ReadFiles { worktree_id: w, paths: ps } ==> (g matches CapabilityScope::ProjectPaths {
            capability,
            worktree_id,
            paths,
            ..
        } && capability == PathCapability::Read && worktree_id@ == w@ && every_path_listed(ps@, paths@)),
        a.operation matches ActionOperation::ApplyPatch { worktree_id: w, affected_paths: ps, .. } ==> (g matches CapabilityScope::ProjectPaths {
            capability,
            worktree_id,
            paths,
            ..
        } && capability == PathCapability::ApplyPatch && worktree_id@ == w@ && every_path_listed(ps@, paths@)),
        a.operation matches ActionOperation::RunBrokerCommand { worktree_id: w, catalog_entry_id: e, .. } ==> (g matches CapabilityScope::BrokerCommand {
            worktree_id,
            catalog_entry_id,
            ..
        } && worktree_id@ == w@ && catalog_entry_id@ == e@),
        a.operation matches ActionOperation::SubmitProviderRequest {
            provider_id: pv,
            account_id: ac,
            destination: d,
            ..
        } ==> (g matches CapabilityScope::Provider { provider_id, account_id, destination, .. }
            && provider_id@ == pv@ && account_id@ == ac@ && destination.scheme@ == d.scheme@
            && destination.host@ == d.host@ && destination.port == d.port && destination.path@
            == d.path@),
        a.operation matches ActionOperation::UseCredential {
            provider_id: pv,
            account_id: ac,
            credential_ref: cr,
            destination: d,
        } ==> (g matches CapabilityScope::Credential {
            provider_id,
            account_id,
            credential_ref,
            destination,
            ..
        } && provider_id@ == pv@ && account_id@ == ac@ && credential_ref@ == cr@
            && destination.scheme@ == d.scheme@ && destination.host@ == d.host@ && destination.port
            == d.port && destination.path@ == d.path@),
        a.operation matches ActionOperation::IntegrateWorktree { worktree_id: w, target_ref: t, .. } ==> (g matches CapabilityScope::Integration {
            worktree_id,
            target_ref,
            ..
        } && worktree_id@ == w@ && target_ref@ == t@),
{
    match (g, a.operation) {
        (
            CapabilityScope::ProjectPaths { paths, .. },
            ActionOperation::ReadFiles { paths: ps, .. },
        ) => {
            lemma_paths_within_listed(ps@, paths@);
        },
        (
            CapabilityScope::ProjectPaths { paths, .. },
            ActionOperation::ApplyPatch { affected_paths: ps, .. },
        ) => {
            lemma_paths_within_listed(ps@, paths@);
        },
        _ => {},
    }
}

proof fn lemma_paths_within_listed(ops: Seq<String>, allowed: Seq<String>)
    requires
        paths_within(ops, allowed),
    ensures
        every_path_listed(ops, allowed),
{
    assert forall|i: int| 0 <= i < ops.len() implies is_listed(#[trigger] ops[i], allowed) by {
        assert(path_in(ops[i], allowed));
        let j = choose|j: int| 0 <= j < allowed.len() && #[trigger] allowed[j]@ == ops[i]@;
        assert(allowed[j]@ == ops[i]@);
    }
}

} // verus!
