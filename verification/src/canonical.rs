//! Domain-separated SHA-256 digests of canonical bytes and the digest types.
use vstd::prelude::*;
use vstd::utf8::{encode_utf8, is_ascii_chars, is_ascii_chars_encode_utf8};
use crate::bytes::is_lower_hex;
use crate::json::hex_digit;
use sha2::Digest;

verus! {

/// Errors of canonical serialization.
#[derive(Debug, Clone, PartialEq, Eq)]
pub enum CanonicalError {
    Serialization(String),
    FloatingPoint,
}

/// The SHA-256 digest of `data`.
pub uninterp spec fn sha256(data: Seq<u8>) -> [u8; 32];

/// Calls `sha2::Sha256::digest`. Trusted: the 32 bytes returned are the
/// SHA-256 digest of the input, a value fixed by the input alone.
#[verifier::external_body]
pub(crate) fn sha256_digest(data: &[u8]) -> (r: [u8; 32])
    ensures
        r == sha256(data@),
{
    sha2::Sha256::digest(data).into()
}

/// The lower-case hexadecimal character for `n < 16`.
pub open spec fn hex_char(n: u8) -> char {
    hex_digit(n) as char
}

/// Lower-case hexadecimal text of a byte string, two characters per byte.
pub open spec fn hex_text(data: Seq<u8>) -> Seq<char>
    decreases data.len(),
{
    if data.len() == 0 {
        seq![]
    } else {
        hex_text(data.drop_last()) + seq![hex_char(data.last() / 16), hex_char(data.last() % 16)]
    }
}

/// Calls `hex::encode`. Trusted: the result is the lower-case hexadecimal
/// text of the input, high nibble first, as the crate's source writes it.
#[verifier::external_body]
fn hex_encode(data: &[u8]) -> (r: String)
    ensures
        r@ == hex_text(data@),
{
    hex::encode(data)
}

/// The bytes `sha256:`.
pub open spec fn sha256_prefix() -> Seq<u8> {
    seq![0x73u8, 0x68u8, 0x61u8, 0x32u8, 0x35u8, 0x36u8, 0x3au8]
}

/// The characters `sha256:`.
pub open spec fn sha256_prefix_chars() -> Seq<char> {
    seq!['s', 'h', 'a', '2', '5', '6', ':']
}

/// `sha256:` followed by 64 lower-case hexadecimal digits.
pub open spec fn is_sha256_bytes(b: Seq<u8>) -> bool {
    &&& b.len() == 71
    &&& b.take(7) == sha256_prefix()
    &&& forall|i: int| 7 <= i < 71 ==> is_lower_hex(#[trigger] b[i])
}

/// A string whose UTF-8 bytes are a SHA-256 digest text.
pub open spec fn is_sha256_text(s: Seq<char>) -> bool {
    is_sha256_bytes(encode_utf8(s))
}

/// The digest text of `data`: `sha256:` and the hexadecimal SHA-256 digest.
pub open spec fn digest_text(data: Seq<u8>) -> Seq<char> {
    sha256_prefix_chars() + hex_text(sha256(data)@)
}

/// Whether `value` is a digest text.
pub fn is_sha256(value: &str) -> (r: bool)
    ensures
        r == is_sha256_text(value@),
{
    let b = value.as_bytes();
    if b.len() != 71 {
        return false;
    }
    if !(b[0] == 0x73 && b[1] == 0x68 && b[2] == 0x61 && b[3] == 0x32 && b[4] == 0x35
        && b[5] == 0x36 && b[6] == 0x3a) {
        assert(b@.take(7) != sha256_prefix()) by {
            if b@.take(7) == sha256_prefix() {
                assert(b@[0] == b@.take(7)[0]);
                assert(b@[1] == b@.take(7)[1]);
                assert(b@[2] == b@.take(7)[2]);
                assert(b@[3] == b@.take(7)[3]);
                assert(b@[4] == b@.take(7)[4]);
                assert(b@[5] == b@.take(7)[5]);
                assert(b@[6] == b@.take(7)[6]);
            }
        }
        return false;
    }
    assert(b@.take(7) =~= sha256_prefix());
    let mut i: usize = 7;
    while i < 71
        invariant
            b@.len() == 71,
            b@ == encode_utf8(value@),
            b@.take(7) == sha256_prefix(),
            7 <= i <= 71,
            forall|j: int| 7 <= j < i ==> is_lower_hex(#[trigger] b@[j]),
        decreases 71 - i,
    {
        let c = b[i];
        if !((0x30 <= c && c <= 0x39) || (0x61 <= c && c <= 0x66)) {
            assert(!is_lower_hex(b@[i as int]));
            return false;
        }
        i = i + 1;
    }
    true
}

proof fn lemma_hex_text(data: Seq<u8>)
    ensures
        hex_text(data).len() == 2 * data.len(),
        forall|i: int|
            0 <= i < hex_text(data).len() ==> {
                let c = #[trigger] hex_text(data)[i];
                '\0' <= c <= '\u{7f}' && is_lower_hex(c as u8)
            },
    decreases data.len(),
{
    if data.len() > 0 {
        lemma_hex_text(data.drop_last());
        let hi = data.last() / 16;
        let lo = data.last() % 16;
        assert(hi < 16 && lo < 16);
        let h = hex_text(data);
        assert forall|i: int| 0 <= i < h.len() implies {
            let c = #[trigger] h[i];
            '\0' <= c <= '\u{7f}' && is_lower_hex(c as u8)
        } by {
            if i < h.len() - 2 {
                assert(h[i] == hex_text(data.drop_last())[i]);
            } else if i == h.len() - 2 {
                assert(h[i] == hex_char(hi));
            } else {
                assert(h[i] == hex_char(lo));
            }
        }
    }
}

/// A digest text is well formed.
pub proof fn lemma_digest_text_is_sha256(data: Seq<u8>)
    ensures
        is_sha256_text(digest_text(data)),
{
    let d = sha256(data)@;
    let t = digest_text(data);
    assert(d.len() == 32);
    lemma_hex_text(d);
    assert(is_ascii_chars(t)) by {
        assert forall|i: int| 0 <= i < t.len() implies '\0' <= #[trigger] t[i] <= '\u{7f}' by {
            if i >= 7 {
                assert(t[i] == hex_text(d)[i - 7]);
            }
        }
    }
    is_ascii_chars_encode_utf8(t);
    let b = encode_utf8(t);
    assert(b.take(7) =~= sha256_prefix()) by {
        assert(b[0] == t[0] as u8);
        assert(b[1] == t[1] as u8);
        assert(b[2] == t[2] as u8);
        assert(b[3] == t[3] as u8);
        assert(b[4] == t[4] as u8);
        assert(b[5] == t[5] as u8);
        assert(b[6] == t[6] as u8);
    }
    assert forall|i: int| 7 <= i < 71 implies is_lower_hex(#[trigger] b[i]) by {
        assert(b[i] == t[i] as u8);
        assert(t[i] == hex_text(d)[i - 7]);
    }
}

/// `sha256:` followed by the hexadecimal digest of `domain` then `canonical`.
pub fn domain_digest(domain: &[u8], canonical: &[u8]) -> (r: String)
    ensures
        r@ == digest_text(domain@ + canonical@),
        is_sha256_text(r@),
{
    let mut data: Vec<u8> = Vec::new();
    let mut i: usize = 0;
    while i < domain.len()
        invariant
            i <= domain.len(),
            data@ == domain@.take(i as int),
        decreases domain.len() - i,
    {
        data.push(domain[i]);
        i = i + 1;
        assert(data@ =~= domain@.take(i as int));
    }
    let mut j: usize = 0;
    while j < canonical.len()
        invariant
            j <= canonical.len(),
            i == domain.len(),
            data@ == domain@ + canonical@.take(j as int),
        decreases canonical.len() - j,
    {
        data.push(canonical[j]);
        j = j + 1;
        assert(data@ =~= domain@ + canonical@.take(j as int));
    }
    assert(domain@.take(i as int) =~= domain@);
    assert(canonical@.take(j as int) =~= canonical@);
    let hash = sha256_digest(data.as_slice());
    let hex = hex_encode(vstd::array::array_as_slice(&hash));
    let mut text = "sha256:".to_owned();
    proof {
        reveal_strlit("sha256:");
    }
    assert(text@ =~= sha256_prefix_chars());
    text.append(hex.as_str());
    proof {
        lemma_digest_text_is_sha256(domain@ + canonical@);
    }
    text
}

/// The domain-separated digest of a canonical action.
#[derive(Debug, Clone, PartialEq, Eq, PartialOrd, Ord)]
pub struct ActionDigest(String);

impl View for ActionDigest {
    type V = Seq<char>;

    closed spec fn view(&self) -> Seq<char> {
        self.0@
    }
}

impl ActionDigest {
    /// A digest from its text as a wire form carries it; whether it is a
    /// digest text is checked where it is used.
    pub fn from_raw(value: String) -> (r: Self)
        ensures
            r@ == value@,
    {
        ActionDigest(value)
    }

    /// The digest text.
    pub fn as_str(&self) -> (r: &str)
        ensures
            r@ == self@,
    {
        self.0.as_str()
    }

    /// Whether the text is `sha256:` and 64 lower-case hexadecimal digits.
    pub fn is_valid(&self) -> (r: bool)
        ensures
            r == is_sha256_text(self@),
    {
        is_sha256(self.0.as_str())
    }

    /// A copy of this digest.
    pub fn duplicate(&self) -> (r: Self)
        ensures
            r@ == self@,
    {
        ActionDigest(self.0.clone())
    }

    /// Whether two digests have the same text.
    pub fn same_as(&self, other: &Self) -> (r: bool)
        ensures
            r == (self@ == other@),
    {
        self.0 == other.0
    }
}

/// The domain-separated digest of a canonical effective policy.
#[derive(Debug, Clone, PartialEq, Eq, PartialOrd, Ord)]
pub struct PolicyDigest(String);

impl View for PolicyDigest {
    type V = Seq<char>;

    closed spec fn view(&self) -> Seq<char> {
        self.0@
    }
}

impl PolicyDigest {
    /// A digest from its text as a wire form carries it; whether it is a
    /// digest text is checked where it is used.
    pub fn from_raw(value: String) -> (r: Self)
        ensures
            r@ == value@,
    {
        PolicyDigest(value)
    }

    /// The digest text.
    pub fn as_str(&self) -> (r: &str)
        ensures
            r@ == self@,
    {
        self.0.as_str()
    }

    /// Whether the text is `sha256:` and 64 lower-case hexadecimal digits.
    pub fn is_valid(&self) -> (r: bool)
        ensures
            r == is_sha256_text(self@),
    {
        is_sha256(self.0.as_str())
    }

    /// A copy of this digest.
    pub fn duplicate(&self) -> (r: Self)
        ensures
            r@ == self@,
    {
        PolicyDigest(self.0.clone())
    }

    /// Whether two digests have the same text.
    pub fn same_as(&self, other: &Self) -> (r: bool)
        ensures
            r == (self@ == other@),
    {
        self.0 == other.0
    }
}

/// The digest that binds an approval to an action, a policy and broker state.
#[derive(Debug, Clone, PartialEq, Eq, PartialOrd, Ord)]
pub struct ApprovalBindingDigest(String);

impl View for ApprovalBindingDigest {
    type V = Seq<char>;

    closed spec fn view(&self) -> Seq<char> {
        self.0@
    }
}

impl ApprovalBindingDigest {
    /// A digest from its text as a wire form carries it; whether it is a
    /// digest text is checked where it is used.
    pub fn from_raw(value: String) -> (r: Self)
        ensures
            r@ == value@,
    {
        ApprovalBindingDigest(value)
    }

    /// The digest text.
    pub fn as_str(&self) -> (r: &str)
        ensures
            r@ == self@,
    {
        self.0.as_str()
    }

    /// Whether the text is `sha256:` and 64 lower-case hexadecimal digits.
    pub fn is_valid(&self) -> (r: bool)
        ensures
            r == is_sha256_text(self@),
    {
        is_sha256(self.0.as_str())
    }

    /// A copy of this digest.
    pub fn duplicate(&self) -> (r: Self)
        ensures
            r@ == self@,
    {
        ApprovalBindingDigest(self.0.clone())
    }

    /// Whether two digests have the same text.
    pub fn same_as(&self, other: &Self) -> (r: bool)
        ensures
            r == (self@ == other@),
    {
        self.0 == other.0
    }
}

/// An opaque digest of broker-owned state, supplied by the host.
#[derive(Debug, Clone, PartialEq, Eq, PartialOrd, Ord)]
pub struct StateDigest(String);

impl View for StateDigest {
    type V = Seq<char>;

    closed spec fn view(&self) -> Seq<char> {
        self.0@
    }
}

impl StateDigest {
    /// A state digest from its text as a wire form carries it; whether it is
    /// a digest text is checked where it is used.
    pub fn from_raw(value: String) -> (r: Self)
        ensures
            r@ == value@,
    {
        StateDigest(value)
    }

    /// A state digest from its text, when the text is a digest text.
    pub fn parse(value: String) -> (r: Option<Self>)
        ensures
            r is Some <==> is_sha256_text(value@),
            r matches Some(d) ==> d@ == value@,
    {
        if is_sha256(value.as_str()) {
            Some(StateDigest(value))
        } else {
            None
        }
    }

    /// The digest text.
    pub fn as_str(&self) -> (r: &str)
        ensures
            r@ == self@,
    {
        self.0.as_str()
    }

    /// Whether the text is `sha256:` and 64 lower-case hexadecimal digits.
    pub fn is_valid(&self) -> (r: bool)
        ensures
            r == is_sha256_text(self@),
    {
        is_sha256(self.0.as_str())
    }

    /// A copy of this digest.
    pub fn duplicate(&self) -> (r: Self)
        ensures
            r@ == self@,
    {
        StateDigest(self.0.clone())
    }

    /// Whether two digests have the same text.
    pub fn same_as(&self, other: &Self) -> (r: bool)
        ensures
            r == (self@ == other@),
    {
        self.0 == other.0
    }
}

} // verus!
