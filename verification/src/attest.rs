//! Detached signatures over attestation tokens.
use crate::text::{
    chars_of, hex_digit, lower, lowercase, same_text, to_lowercase, trim, trimmed, trimmed_start,
};
use base64::engine::general_purpose::STANDARD;
use base64::Engine;
use ed25519_dalek::{Signature, Verifier, VerifyingKey};
use sha2::{Digest, Sha256};
use vstd::prelude::*;

verus! {

// ---- outside functions ----

/// The error of a base64 decoder.
#[verifier::external_type_specification]
#[verifier::external_body]
pub struct ExDecodeError(base64::DecodeError);

/// The error of an Ed25519 key or signature.
#[verifier::external_type_specification]
#[verifier::external_body]
pub struct ExSignatureError(ed25519_dalek::SignatureError);

/// The bytes that a text stands for in standard base64, where it is well formed.
pub uninterp spec fn base64_bytes(text: Seq<char>) -> Option<Seq<u8>>;

/// The SHA-256 digest of a message.
pub uninterp spec fn sha256_digest(message: Seq<u8>) -> Seq<u8>;

/// The 32 bytes are an Ed25519 public key.
pub uninterp spec fn ed25519_key(key: Seq<u8>) -> bool;

/// The 64 bytes are an Ed25519 signature of the message under the public key.
pub uninterp spec fn ed25519_signed(key: Seq<u8>, message: Seq<u8>, signature: Seq<u8>) -> bool;

/// Calls `Engine::decode` of the engine `STANDARD` of `base64`. It succeeds on
/// well-formed base64 text alone, with the bytes that the text stands for.
#[verifier::external_body]
fn decode_base64(text: &str) -> (r: Result<Vec<u8>, base64::DecodeError>)
    ensures
        match r {
            Ok(bytes) => base64_bytes(text@) == Some(bytes@),
            Err(_) => base64_bytes(text@) is None,
        },
{
    STANDARD.decode(text)
}

/// Calls `Sha256::digest` of `sha2`: 32 bytes that depend on the message alone.
#[verifier::external_body]
fn sha256(message: &[u8]) -> (r: Vec<u8>)
    ensures
        r@ == sha256_digest(message@),
        r@.len() == 32,
{
    Sha256::digest(message).to_vec()
}

/// The bytes in lower-case hexadecimal, two digits for each byte.
pub open spec fn hex_text(bytes: Seq<u8>) -> Seq<char> {
    Seq::new(
        bytes.len() * 2,
        |i: int|
            if i % 2 == 0 {
                hex_digit(bytes[i / 2] as int / 16)
            } else {
                hex_digit(bytes[i / 2] as int % 16)
            },
    )
}

/// Calls `hex::encode`: two lower-case digits for each byte, the high one first.
#[verifier::external_body]
fn encode_hex(bytes: &[u8]) -> (r: String)
    ensures
        r@ == hex_text(bytes@),
{
    hex::encode(bytes)
}

/// Calls `VerifyingKey::from_bytes` of `ed25519_dalek`, which succeeds on public
/// keys alone.
#[verifier::external_body]
fn check_key(key: &[u8; 32]) -> (r: Result<(), ed25519_dalek::SignatureError>)
    ensures
        r is Ok <==> ed25519_key(key@),
{
    VerifyingKey::from_bytes(key).map(|_key| ())
}

/// Calls `Verifier::verify` of `VerifyingKey` of `ed25519_dalek`, on the key that
/// `from_bytes` makes of the bytes. It succeeds on valid signatures alone.
#[verifier::external_body]
fn verify_signature(key: &[u8; 32], message: &[u8], signature: &[u8; 64]) -> (r: Result<
    (),
    ed25519_dalek::SignatureError,
>)
    ensures
        r is Ok <==> ed25519_signed(key@, message@, signature@),
        r is Ok ==> ed25519_key(key@),
{
    VerifyingKey::from_bytes(key)?.verify(message, &Signature::from_bytes(signature))
}

// ---- fingerprints ----

/// A lower-case hexadecimal digit.
pub open spec fn is_hex(c: char) -> bool {
    '0' <= c <= '9' || 'a' <= c <= 'f'
}

/// The fingerprint that a text gives, in lower case and without white space
/// around it, where it is 64 hexadecimal digits.
pub open spec fn fingerprint(value: Seq<char>) -> Option<Seq<char>> {
    let fp = lowercase(trimmed(value));
    if fp.len() == 64 && forall|k: int| 0 <= k < fp.len() ==> is_hex(#[trigger] fp[k]) {
        Some(fp)
    } else {
        None
    }
}

/// Why a signature is refused.
#[derive(Copy, Clone, Debug, PartialEq, Eq, Structural)]
pub enum AttestationError {
    PubkeyEncoding,
    SignatureEncoding,
    PubkeyLength,
    SignatureLength,
    InvalidPubkey,
    InvalidSignature,
    FingerprintFormat,
    FingerprintMismatch,
}

impl AttestationError {
    pub open spec fn spec_message(self) -> Seq<char> {
        match self {
            AttestationError::PubkeyEncoding => "Failed decoding base64 attestation pubkey"@,
            AttestationError::SignatureEncoding => "Failed decoding base64 attestation signature"@,
            AttestationError::PubkeyLength => "attestation pubkey must decode to 32 bytes"@,
            AttestationError::SignatureLength => "attestation signature must decode to 64 bytes"@,
            AttestationError::InvalidPubkey => "invalid ed25519 pubkey"@,
            AttestationError::InvalidSignature => "ed25519 signature verification failed"@,
            AttestationError::FingerprintFormat => "fingerprint must be exactly 64 hex characters"@,
            AttestationError::FingerprintMismatch => "attestation key fingerprint mismatch"@,
        }
    }

    /// The error in words.
    pub fn message(self) -> (r: &'static str)
        ensures
            r@ == self.spec_message(),
    {
        match self {
            AttestationError::PubkeyEncoding => "Failed decoding base64 attestation pubkey",
            AttestationError::SignatureEncoding => "Failed decoding base64 attestation signature",
            AttestationError::PubkeyLength => "attestation pubkey must decode to 32 bytes",
            AttestationError::SignatureLength => "attestation signature must decode to 64 bytes",
            AttestationError::InvalidPubkey => "invalid ed25519 pubkey",
            AttestationError::InvalidSignature => "ed25519 signature verification failed",
            AttestationError::FingerprintFormat => "fingerprint must be exactly 64 hex characters",
            AttestationError::FingerprintMismatch => "attestation key fingerprint mismatch",
        }
    }
}

/// The fingerprint that a text gives.
pub fn normalize_fingerprint(value: &str) -> (r: Result<String, AttestationError>)
    ensures
        match (r, fingerprint(value@)) {
            (Ok(text), Some(fp)) => text@ == fp,
            (Err(e), None) => e is FingerprintFormat,
            _ => false,
        },
{
    let fp: String = to_lowercase(trim(value));
    let chars: Vec<char> = chars_of(fp.as_str());
    if chars.len() != 64 {
        return Err(AttestationError::FingerprintFormat);
    }
    let mut i: usize = 0;
    while i < 64
        invariant
            i <= 64,
            chars@ == fp@,
            chars.len() == 64,
            fp@ == lowercase(trimmed(value@)),
            forall|k: int| 0 <= k < i ==> is_hex(#[trigger] fp@[k]),
        decreases 64 - i,
    {
        let c: char = chars[i];
        if !(('0' <= c && c <= '9') || ('a' <= c && c <= 'f')) {
            assert(!is_hex(fp@[i as int]));
            return Err(AttestationError::FingerprintFormat);
        }
        i = i + 1;
    }
    Ok(fp)
}

// ---- signatures ----

/// What a verified signature tells.
pub struct SignatureMeta {
    pub key_fingerprint: String,
    pub token_sha256: String,
}

/// What was found out about a signature: the lengths of key and signature,
/// where they decode, whether the key is one, and whether it signed the token.
pub struct Evidence {
    pub pubkey_len: Option<usize>,
    pub signature_len: Option<usize>,
    pub key_valid: bool,
    pub signed: bool,
}

/// The first objection to a signature.
pub open spec fn objection(
    evidence: Evidence,
    key_fingerprint: Seq<char>,
    expected: Seq<char>,
) -> Option<AttestationError> {
    if evidence.pubkey_len is None {
        Some(AttestationError::PubkeyEncoding)
    } else if evidence.signature_len is None {
        Some(AttestationError::SignatureEncoding)
    } else if evidence.pubkey_len != Some(32usize) {
        Some(AttestationError::PubkeyLength)
    } else if evidence.signature_len != Some(64usize) {
        Some(AttestationError::SignatureLength)
    } else if !evidence.key_valid {
        Some(AttestationError::InvalidPubkey)
    } else if !evidence.signed {
        Some(AttestationError::InvalidSignature)
    } else if fingerprint(expected) is None {
        Some(AttestationError::FingerprintFormat)
    } else if fingerprint(expected) != Some(key_fingerprint) {
        Some(AttestationError::FingerprintMismatch)
    } else {
        None
    }
}

/// Judges a signature by what was found out about it, the fingerprint of the key
/// and the fingerprint that is expected.
pub fn judge_signature(evidence: &Evidence, key_fingerprint: &str, expected: &str) -> (r: Result<
    (),
    AttestationError,
>)
    ensures
        match (r, objection(*evidence, key_fingerprint@, expected@)) {
            (Ok(_), None) => true,
            (Err(e), Some(why)) => e == why,
            _ => false,
        },
{
    match evidence.pubkey_len {
        None => return Err(AttestationError::PubkeyEncoding),
        Some(n) => match evidence.signature_len {
            None => return Err(AttestationError::SignatureEncoding),
            Some(m) => {
                if n != 32 {
                    return Err(AttestationError::PubkeyLength);
                }
                if m != 64 {
                    return Err(AttestationError::SignatureLength);
                }
            },
        },
    }
    if !evidence.key_valid {
        return Err(AttestationError::InvalidPubkey);
    }
    if !evidence.signed {
        return Err(AttestationError::InvalidSignature);
    }
    let normal: String = normalize_fingerprint(expected)?;
    if !same_text(key_fingerprint, normal.as_str()) {
        return Err(AttestationError::FingerprintMismatch);
    }
    Ok(())
}

/// The bytes as an array.
fn array<const N: usize>(bytes: &[u8]) -> (r: [u8; N])
    requires
        bytes@.len() == N,
    ensures
        r@ == bytes@,
{
    let mut r: [u8; N] = [0u8;N];
    let mut i: usize = 0;
    while i < N
        invariant
            i <= N,
            bytes@.len() == N,
            r@.len() == N,
            forall|k: int| 0 <= k < i ==> r@[k] == bytes@[k],
        decreases N - i,
    {
        r[i] = bytes[i];
        i = i + 1;
    }
    assert(r@ =~= bytes@);
    r
}

/// What there is to find out about a signature: key and signature as decoded
/// from base64 text with white space around it.
pub open spec fn evidence_of(token: Seq<u8>, pubkey_b64: Seq<char>, sig_b64: Seq<char>) -> Evidence {
    let pubkey = base64_bytes(trimmed(pubkey_b64));
    let signature = base64_bytes(trimmed(sig_b64));
    let sized = pubkey is Some && signature is Some && (pubkey->0).len() == 32 && (
    signature->0).len() == 64;
    let key_valid = sized && ed25519_key(pubkey->0);
    Evidence {
        pubkey_len: match pubkey {
            Some(bytes) => Some(bytes.len() as usize),
            None => None,
        },
        signature_len: match signature {
            Some(bytes) => Some(bytes.len() as usize),
            None => None,
        },
        key_valid,
        signed: key_valid && ed25519_signed(pubkey->0, token, signature->0),
    }
}

/// The fingerprint of the key that a base64 text gives.
pub open spec fn fingerprint_of(pubkey_b64: Seq<char>) -> Seq<char> {
    match base64_bytes(trimmed(pubkey_b64)) {
        Some(bytes) => hex_text(sha256_digest(bytes)),
        None => Seq::empty(),
    }
}

/// Verifies a detached Ed25519 signature over a token, and that the key is the
/// one whose fingerprint is expected. Key and signature are base64 text.
pub fn verify_attestation_signature(
    token: &[u8],
    pubkey_b64: &str,
    sig_b64: &str,
    expected_key_fingerprint: &str,
) -> (r: Result<SignatureMeta, AttestationError>)
    ensures
        match (
            r,
            objection(
                evidence_of(token@, pubkey_b64@, sig_b64@),
                fingerprint_of(pubkey_b64@),
                expected_key_fingerprint@,
            ),
        ) {
            (Ok(meta), None) => {
                &&& meta.key_fingerprint@ == fingerprint_of(pubkey_b64@)
                &&& meta.token_sha256@ == hex_text(sha256_digest(token@))
            },
            (Err(e), Some(why)) => e == why,
            _ => false,
        },
{
    let pubkey: Option<Vec<u8>> = match decode_base64(trim(pubkey_b64)) {
        Ok(bytes) => Some(bytes),
        Err(_) => None,
    };
    let signature: Option<Vec<u8>> = match decode_base64(trim(sig_b64)) {
        Ok(bytes) => Some(bytes),
        Err(_) => None,
    };
    let mut key_valid: bool = false;
    let mut signed: bool = false;
    let mut key_fingerprint: String = String::new();
    if let Some(key) = &pubkey {
        key_fingerprint = encode_hex(sha256(key.as_slice()).as_slice());
        if let Some(sig) = &signature {
            if key.len() == 32 && sig.len() == 64 {
                let key_bytes: [u8; 32] = array(key.as_slice());
                let sig_bytes: [u8; 64] = array(sig.as_slice());
                key_valid = check_key(&key_bytes).is_ok();
                signed = key_valid && verify_signature(&key_bytes, token, &sig_bytes).is_ok();
            }
        }
    }
    let evidence: Evidence = Evidence {
        pubkey_len: match &pubkey {
            Some(bytes) => Some(bytes.len()),
            None => None,
        },
        signature_len: match &signature {
            Some(bytes) => Some(bytes.len()),
            None => None,
        },
        key_valid,
        signed,
    };
    assert(evidence == evidence_of(token@, pubkey_b64@, sig_b64@));
    assert(key_fingerprint@ == fingerprint_of(pubkey_b64@));
    match judge_signature(&evidence, key_fingerprint.as_str(), expected_key_fingerprint) {
        Ok(_) => Ok(
            SignatureMeta { key_fingerprint, token_sha256: encode_hex(sha256(token).as_slice()) },
        ),
        Err(e) => Err(e),
    }
}

// ---- laws ----

proof fn lemma_hex_is_plain(s: Seq<char>)
    requires
        forall|k: int| 0 <= k < s.len() ==> is_hex(#[trigger] s[k]),
    ensures
        trimmed(s) == s,
        lowercase(s) == s,
{
    if s.len() > 0 {
        assert(is_hex(s[0]));
        assert(is_hex(s[s.len() - 1]));
    }
    assert(trimmed_start(s) == s);
    assert forall|k: int| 0 <= k < s.len() implies lower(s[k]) == s[k] by {
        assert(is_hex(s[k]));
    }
    assert(lowercase(s) =~= s);
}

/// A normalized fingerprint is its own normal form.
pub proof fn law_fingerprint_is_stable(value: Seq<char>)
    requires
        fingerprint(value) is Some,
    ensures
        fingerprint(fingerprint(value)->0) == fingerprint(value),
{
    lemma_hex_is_plain(fingerprint(value)->0);
}

/// White space around a fingerprint and the case of its letters do not matter.
pub proof fn law_fingerprint_ignores_case(a: Seq<char>, b: Seq<char>)
    requires
        lowercase(trimmed(a)) == lowercase(trimmed(b)),
    ensures
        fingerprint(a) == fingerprint(b),
{
}

/// A digest of 32 bytes in hexadecimal is a normalized fingerprint: what a
/// verified signature reports can be pinned as it stands.
pub proof fn law_digest_is_fingerprint(digest: Seq<u8>)
    requires
        digest.len() == 32,
    ensures
        fingerprint(hex_text(digest)) == Some(hex_text(digest)),
{
    let text = hex_text(digest);
    assert forall|k: int| 0 <= k < text.len() implies is_hex(#[trigger] text[k]) by {
        let byte = digest[k / 2] as int;
        assert(0 <= byte / 16 < 16 && 0 <= byte % 16 < 16);
    }
    lemma_hex_is_plain(text);
}

/// Hexadecimal tells byte sequences apart.
pub proof fn law_hex_is_injective(a: Seq<u8>, b: Seq<u8>)
    requires
        hex_text(a) == hex_text(b),
    ensures
        a == b,
{
    assert(hex_text(a).len() == a.len() * 2 && hex_text(b).len() == b.len() * 2);
    assert(a.len() == b.len());
    assert forall|k: int| 0 <= k < a.len() implies a[k] == b[k] by {
        let (p, q) = (a[k] as int, b[k] as int);
        assert(hex_text(a)[2 * k] == hex_digit(p / 16));
        assert(hex_text(b)[2 * k] == hex_digit(q / 16));
        assert(hex_text(a)[2 * k + 1] == hex_digit(p % 16));
        assert(hex_text(b)[2 * k + 1] == hex_digit(q % 16));
        assert(p / 16 == q / 16 && p % 16 == q % 16);
    }
    assert(a =~= b);
}

/// A signature is accepted if and only if key and signature decode to the right
/// lengths, the key signed the token, and the key's fingerprint is the one
/// expected.
pub proof fn law_accepted_signature(
    token: Seq<u8>,
    pubkey_b64: Seq<char>,
    sig_b64: Seq<char>,
    expected: Seq<char>,
)
    ensures
        objection(
            evidence_of(token, pubkey_b64, sig_b64),
            fingerprint_of(pubkey_b64),
            expected,
        ) is None <==> {
            &&& base64_bytes(trimmed(pubkey_b64)) matches Some(key)
            &&& base64_bytes(trimmed(sig_b64)) matches Some(signature)
            &&& key.len() == 32
            &&& signature.len() == 64
            &&& ed25519_key(key)
            &&& ed25519_signed(key, token, signature)
            &&& fingerprint(expected) == Some(hex_text(sha256_digest(key)))
        },
{
}

/// The fingerprint that an accepted signature reports is accepted in place of
/// the one that was expected.
pub proof fn law_reported_fingerprint_can_be_pinned(
    evidence: Evidence,
    key_fingerprint: Seq<char>,
    expected: Seq<char>,
)
    requires
        objection(evidence, key_fingerprint, expected) is None,
    ensures
        objection(evidence, key_fingerprint, key_fingerprint) is None,
{
    law_fingerprint_is_stable(expected);
}

/// A fingerprint is 64 hexadecimal digits, white space around them and the case of
/// letters aside, and nothing else is one.
pub proof fn law_fingerprint_form(value: Seq<char>)
    ensures
        ({
            let text = lowercase(trimmed(value));
            let hexadecimal = forall|k: int|
                0 <= k < text.len() ==> '0' <= #[trigger] text[k] <= '9' || 'a' <= text[k] <= 'f';
            &&& text.len() == 64 && hexadecimal ==> fingerprint(value) == Some(text)
            &&& text.len() != 64 || !hexadecimal ==> fingerprint(value) is None
        }),
{
    let text = lowercase(trimmed(value));
    assert(forall|k: int|
        0 <= k < text.len() ==> is_hex(#[trigger] text[k]) == ('0' <= text[k] <= '9' || 'a'
            <= text[k] <= 'f'));
}

/// Every objection has its reason, and the reasons count in order.
pub proof fn law_objections(evidence: Evidence, key: Seq<char>, expected: Seq<char>)
    ensures
        match objection(evidence, key, expected) {
            Some(AttestationError::PubkeyEncoding) => evidence.pubkey_len is None,
            Some(AttestationError::SignatureEncoding) => evidence.pubkey_len is Some
                && evidence.signature_len is None,
            Some(AttestationError::PubkeyLength) => evidence.pubkey_len matches Some(n) && n != 32
                && evidence.signature_len is Some,
            Some(AttestationError::SignatureLength) => evidence.pubkey_len == Some(32usize) && (
            evidence.signature_len matches Some(n) && n != 64),
            Some(AttestationError::InvalidPubkey) => evidence.pubkey_len == Some(32usize)
                && evidence.signature_len == Some(64usize) && !evidence.key_valid,
            Some(AttestationError::InvalidSignature) => evidence.key_valid && !evidence.signed,
            Some(AttestationError::FingerprintFormat) => evidence.signed && fingerprint(expected)
                is None,
            Some(AttestationError::FingerprintMismatch) => evidence.signed && (fingerprint(
                expected,
            ) matches Some(fp) && fp != key),
            None => {
                &&& evidence.pubkey_len == Some(32usize)
                &&& evidence.signature_len == Some(64usize)
                &&& evidence.key_valid && evidence.signed
                &&& fingerprint(expected) == Some(key)
            },
        },
{
}

} // verus!
