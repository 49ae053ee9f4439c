//! The ring policy: which attestation a ring demands before a result stands.
use crate::attest::SignatureMeta;
use crate::hitl::enforced;
use crate::modes::{HitlMode, RingMode};
use crate::text::{chars_of, same_text};
use crate::verdict::{AnalysisResult, Finding};
use vstd::prelude::*;

verus! {

/// What a run is given for its attestation. Paths are given by their text where
/// it is handed on, else by whether they are there.
pub struct RingRequest {
    pub ring: RingMode,
    pub token: Option<String>,
    pub max_age_sec: u64,
    pub nonce: Option<String>,
    pub replay_state: Option<String>,
    pub pubkey: bool,
    pub signature: bool,
    pub key_fingerprint: bool,
    pub root_pubkey: bool,
    pub root_signature: bool,
    pub root_key_fingerprint: bool,
}

/// What has come back so far: the check of the signature over the token, the
/// check of the root signature, and what the token validator returned.
pub struct RingReplies {
    pub signature: Option<Result<SignatureMeta, String>>,
    pub root: Option<Result<SignatureMeta, String>>,
    pub validation: Option<i32>,
}

/// What is to be done next.
pub enum RingStep {
    /// Check the signature over the token.
    VerifySignature,
    /// Check the root signature over the token.
    VerifyRootSignature,
    /// Have the token validated for a ring and an age in seconds.
    ValidateToken { required_ring: i32, max_age_sec: i64 },
    /// The result stands.
    Decided {
        result: AnalysisResult,
        key_fingerprint: Option<String>,
        token_sha256: Option<String>,
    },
}

/// A step by the characters of its texts.
pub enum RingDecision {
    VerifySignature,
    VerifyRootSignature,
    ValidateToken { required_ring: i32, max_age_sec: i64 },
    Decided {
        result: Finding,
        key_fingerprint: Option<Seq<char>>,
        token_sha256: Option<Seq<char>>,
    },
}

/// The characters of an optional text.
pub open spec fn text_of(value: Option<String>) -> Option<Seq<char>> {
    match value {
        Some(text) => Some(text@),
        None => None,
    }
}

impl View for RingStep {
    type V = RingDecision;

    open spec fn view(&self) -> RingDecision {
        match *self {
            RingStep::VerifySignature => RingDecision::VerifySignature,
            RingStep::VerifyRootSignature => RingDecision::VerifyRootSignature,
            RingStep::ValidateToken { required_ring, max_age_sec } => RingDecision::ValidateToken {
                required_ring,
                max_age_sec,
            },
            RingStep::Decided {
                result,
                key_fingerprint,
                token_sha256,
            } => RingDecision::Decided {
                result: result@,
                key_fingerprint: text_of(key_fingerprint),
                token_sha256: text_of(token_sha256),
            },
        }
    }
}

/// A NUL character ends a C string early.
pub open spec fn has_nul(text: Seq<char>) -> bool {
    text.contains('\0')
}

/// What is missing before the signature can be checked.
pub open spec fn missing_for_signature(request: RingRequest) -> Option<Seq<char>> {
    let label = request.ring.spec_label();
    match request.token {
        None => Some(
            label + " requires C-validated attestation token (--attestation-token <path>)"@,
        ),
        Some(token) => if has_nul(token@) {
            Some("Attestation token path contains NUL byte"@)
        } else if !request.pubkey {
            Some(label + " requires --attestation-pubkey for signature verification"@)
        } else if !request.signature {
            Some(label + " requires --attestation-signature for signature verification"@)
        } else if !request.key_fingerprint {
            Some(label + " requires --attestation-key-fingerprint for key pinning"@)
        } else {
            None
        },
    }
}

/// What is missing before the root signature can be checked.
pub open spec fn missing_for_root(request: RingRequest) -> Option<Seq<char>> {
    if !request.root_pubkey {
        Some("Ring -2 requires --ring2-root-pubkey for independent root attestation"@)
    } else if !request.root_signature {
        Some("Ring -2 requires --ring2-root-signature for independent root attestation"@)
    } else if !request.root_key_fingerprint {
        Some("Ring -2 requires --ring2-root-key-fingerprint for root key pinning"@)
    } else {
        None
    }
}

/// What is missing before the token can be validated.
pub open spec fn missing_for_validation(request: RingRequest) -> Option<Seq<char>> {
    let label = request.ring.spec_label();
    if request.max_age_sec == 0 {
        Some("attestation max age must be > 0"@)
    } else if request.max_age_sec > i64::MAX {
        Some("attestation max age is too large"@)
    } else {
        match request.nonce {
            None => Some(label + " requires --attestation-nonce for anti-replay binding"@),
            Some(nonce) => if has_nul(nonce@) {
                Some("attestation nonce contains NUL byte"@)
            } else {
                match request.replay_state {
                    None => Some(
                        label + " requires --attestation-replay-state for replay protection"@,
                    ),
                    Some(path) => if has_nul(path@) {
                        Some("attestation replay state path contains NUL byte"@)
                    } else {
                        None
                    },
                }
            },
        }
    }
}

/// The result under a strict ring: what is not settled fails.
pub open spec fn strict(result: Finding, ring: RingMode) -> Finding {
    match result {
        Finding::Unknown(reason) => if ring is Ring0 {
            result
        } else {
            Finding::Fail(
                ring.spec_label() + " strict policy rejected unresolved proof: "@ + reason,
            )
        },
        _ => result,
    }
}

/// A failure, with what the signature told.
pub open spec fn refused(message: Seq<char>, meta: Option<SignatureMeta>) -> RingDecision {
    settled(Finding::Fail(message), meta)
}

/// A result, with what the signature told.
pub open spec fn settled(result: Finding, meta: Option<SignatureMeta>) -> RingDecision {
    match meta {
        Some(m) => RingDecision::Decided {
            result,
            key_fingerprint: Some(m.key_fingerprint@),
            token_sha256: Some(m.token_sha256@),
        },
        None => RingDecision::Decided { result, key_fingerprint: None, token_sha256: None },
    }
}

/// The validation of the token and what follows it.
pub open spec fn validation_stage(
    result: Finding,
    request: RingRequest,
    replies: RingReplies,
    meta: SignatureMeta,
) -> RingDecision {
    let label = request.ring.spec_label();
    match missing_for_validation(request) {
        Some(message) => refused(message, Some(meta)),
        None => match replies.validation {
            None => RingDecision::ValidateToken {
                required_ring: request.ring.spec_token_ring()->0,
                max_age_sec: request.max_age_sec as i64,
            },
            Some(code) => if code == 1 {
                settled(strict(result, request.ring), Some(meta))
            } else {
                refused(label + " attestation token validation failed"@, Some(meta))
            },
        },
    }
}

/// What the ring policy demands next, or the result that stands.
pub open spec fn decision(
    result: Finding,
    request: RingRequest,
    replies: RingReplies,
) -> RingDecision {
    let label = request.ring.spec_label();
    if request.ring is Ring0 {
        settled(result, None)
    } else {
        match missing_for_signature(request) {
            Some(message) => refused(message, None),
            None => match replies.signature {
                None => RingDecision::VerifySignature,
                Some(Err(e)) => refused(label + " attestation signature invalid: "@ + e@, None),
                Some(Ok(meta)) => if request.ring is RingM2 {
                    match missing_for_root(request) {
                        Some(message) => refused(message, Some(meta)),
                        None => match replies.root {
                            None => RingDecision::VerifyRootSignature,
                            Some(Err(e)) => refused(
                                "Ring -2 root signature invalid: "@ + e@,
                                Some(meta),
                            ),
                            Some(Ok(root)) => if root.key_fingerprint@ == meta.key_fingerprint@ {
                                refused(
                                    "Ring -2 root key must be independent of the attestation key"@,
                                    Some(meta),
                                )
                            } else {
                                validation_stage(result, request, replies, meta)
                            },
                        },
                    }
                } else {
                    validation_stage(result, request, replies, meta)
                },
            },
        }
    }
}

// ---- executable ----

/// Tells whether a text holds a NUL character.
pub fn contains_nul(text: &str) -> (r: bool)
    ensures
        r == has_nul(text@),
{
    let chars: Vec<char> = chars_of(text);
    let mut i: usize = 0;
    while i < chars.len()
        invariant
            i <= chars.len(),
            chars@ == text@,
            forall|k: int| 0 <= k < i ==> text@[k] != '\0',
        decreases chars.len() - i,
    {
        if chars[i] == '\0' {
            assert(text@[i as int] == '\0');
            return true;
        }
        i = i + 1;
    }
    false
}

/// `label` followed by `rest`.
fn labelled(ring: RingMode, rest: &str) -> (r: String)
    ensures
        r@ == ring.spec_label() + rest@,
{
    let mut r: String = ring.label().to_owned();
    r.append(rest);
    r
}

/// The message for what is missing before the signature can be checked.
pub fn check_signature_inputs(request: &RingRequest) -> (r: Option<String>)
    ensures
        text_of(r) == missing_for_signature(*request),
{
    match &request.token {
        None => Some(
            labelled(
                request.ring,
                " requires C-validated attestation token (--attestation-token <path>)",
            ),
        ),
        Some(token) => {
            if contains_nul(token.as_str()) {
                Some("Attestation token path contains NUL byte".to_owned())
            } else if !request.pubkey {
                Some(
                    labelled(
                        request.ring,
                        " requires --attestation-pubkey for signature verification",
                    ),
                )
            } else if !request.signature {
                Some(
                    labelled(
                        request.ring,
                        " requires --attestation-signature for signature verification",
                    ),
                )
            } else if !request.key_fingerprint {
                Some(
                    labelled(
                        request.ring,
                        " requires --attestation-key-fingerprint for key pinning",
                    ),
                )
            } else {
                None
            }
        },
    }
}

/// The message for what is missing before the root signature can be checked.
pub fn check_root_inputs(request: &RingRequest) -> (r: Option<String>)
    ensures
        text_of(r) == missing_for_root(*request),
{
    if !request.root_pubkey {
        Some("Ring -2 requires --ring2-root-pubkey for independent root attestation".to_owned())
    } else if !request.root_signature {
        Some("Ring -2 requires --ring2-root-signature for independent root attestation".to_owned())
    } else if !request.root_key_fingerprint {
        Some("Ring -2 requires --ring2-root-key-fingerprint for root key pinning".to_owned())
    } else {
        None
    }
}

/// The message for what is missing before the token can be validated.
pub fn check_validation_inputs(request: &RingRequest) -> (r: Option<String>)
    ensures
        text_of(r) == missing_for_validation(*request),
{
    if request.max_age_sec == 0 {
        return Some("attestation max age must be > 0".to_owned());
    }
    if request.max_age_sec > 0x7fff_ffff_ffff_ffff {
        return Some("attestation max age is too large".to_owned());
    }
    match &request.nonce {
        None => Some(
            labelled(request.ring, " requires --attestation-nonce for anti-replay binding"),
        ),
        Some(nonce) => {
            if contains_nul(nonce.as_str()) {
                return Some("attestation nonce contains NUL byte".to_owned());
            }
            match &request.replay_state {
                None => Some(
                    labelled(
                        request.ring,
                        " requires --attestation-replay-state for replay protection",
                    ),
                ),
                Some(path) => {
                    if contains_nul(path.as_str()) {
                        Some("attestation replay state path contains NUL byte".to_owned())
                    } else {
                        None
                    }
                },
            }
        },
    }
}

fn refuse(message: String, meta: Option<&SignatureMeta>) -> (r: RingStep)
    ensures
        r@ == refused(
            message@,
            match meta {
                Some(m) => Some(*m),
                None => None,
            },
        ),
{
    settle(AnalysisResult::Fail(message), meta)
}

fn settle(result: AnalysisResult, meta: Option<&SignatureMeta>) -> (r: RingStep)
    ensures
        r@ == settled(
            result@,
            match meta {
                Some(m) => Some(*m),
                None => None,
            },
        ),
{
    match meta {
        Some(m) => RingStep::Decided {
            result,
            key_fingerprint: Some(m.key_fingerprint.clone()),
            token_sha256: Some(m.token_sha256.clone()),
        },
        None => RingStep::Decided { result, key_fingerprint: None, token_sha256: None },
    }
}

/// A strict ring turns what is not settled into a failure.
pub fn promote(result: AnalysisResult, ring: RingMode) -> (r: AnalysisResult)
    ensures
        r@ == strict(result@, ring),
{
    match result {
        AnalysisResult::Unknown(reason) => {
            if matches!(ring, RingMode::Ring0) {
                AnalysisResult::Unknown(reason)
            } else {
                let mut message: String = labelled(
                    ring,
                    " strict policy rejected unresolved proof: ",
                );
                message.append(reason.as_str());
                AnalysisResult::Fail(message)
            }
        },
        other => other,
    }
}

fn validate(
    result: AnalysisResult,
    request: &RingRequest,
    replies: &RingReplies,
    meta: &SignatureMeta,
) -> (r: RingStep)
    requires
        !(request.ring is Ring0),
    ensures
        r@ == validation_stage(result@, *request, *replies, *meta),
{
    match check_validation_inputs(request) {
        Some(message) => refuse(message, Some(meta)),
        None => match replies.validation {
            None => {
                let required_ring: i32 = match request.ring.token_ring() {
                    Some(ring) => ring,
                    None => 0,
                };
                RingStep::ValidateToken { required_ring, max_age_sec: request.max_age_sec as i64 }
            },
            Some(code) => {
                if code == 1 {
                    settle(promote(result, request.ring), Some(meta))
                } else {
                    refuse(
                        labelled(request.ring, " attestation token validation failed"),
                        Some(meta),
                    )
                }
            },
        },
    }
}

/// What the ring policy demands next, given what has come back so far, or the
/// result that stands. Ring 0 demands nothing; the other rings demand a verified
/// signature and a validated token, and let no unsettled result stand.
pub fn apply_ring_policy(
    result: AnalysisResult,
    request: &RingRequest,
    replies: &RingReplies,
) -> (r: RingStep)
    ensures
        r@ == decision(result@, *request, *replies),
{
    if matches!(request.ring, RingMode::Ring0) {
        return settle(result, None);
    }
    if let Some(message) = check_signature_inputs(request) {
        return refuse(message, None);
    }
    let meta: &SignatureMeta = match &replies.signature {
        None => return RingStep::VerifySignature,
        Some(Err(e)) => {
            let mut message: String = labelled(request.ring, " attestation signature invalid: ");
            message.append(e.as_str());
            return refuse(message, None);
        },
        Some(Ok(meta)) => meta,
    };
    if matches!(request.ring, RingMode::RingM2) {
        if let Some(message) = check_root_inputs(request) {
            return refuse(message, Some(meta));
        }
        match &replies.root {
            None => return RingStep::VerifyRootSignature,
            Some(Err(e)) => {
                let mut message: String = "Ring -2 root signature invalid: ".to_owned();
                message.append(e.as_str());
                return refuse(message, Some(meta));
            },
            Some(Ok(root)) => {
                if same_text(root.key_fingerprint.as_str(), meta.key_fingerprint.as_str()) {
                    return refuse(
                        "Ring -2 root key must be independent of the attestation key".to_owned(),
                        Some(meta),
                    );
                }
            },
        }
    }
    validate(result, request, replies, meta)
}

// ---- laws ----

/// Ring 0 lets the result stand and asks for nothing.
pub proof fn law_ring0_is_plain(result: Finding, request: RingRequest, replies: RingReplies)
    requires
        request.ring is Ring0,
    ensures
        decision(result, request, replies) == (RingDecision::Decided {
            result,
            key_fingerprint: None,
            token_sha256: None,
        }),
{
}

/// A strict ring never ends unsettled, and never makes a failure milder.
pub proof fn law_strict_ring_settles(result: Finding, request: RingRequest, replies: RingReplies)
    requires
        !(request.ring is Ring0),
        decision(result, request, replies) is Decided,
    ensures
        !(decision(result, request, replies)->result is Unknown),
        result is Fail ==> decision(result, request, replies)->result is Fail,
        result is Unknown ==> decision(result, request, replies)->result is Fail,
{
}

/// Under a strict ring a pass means that the signature over the token was
/// verified, for Ring -2 the root signature too and with another key, that the
/// token was validated, and that nonce, replay state and age were given.
pub proof fn law_strict_pass_is_attested(
    result: Finding,
    request: RingRequest,
    replies: RingReplies,
)
    requires
        !(request.ring is Ring0),
        decision(result, request, replies) is Decided,
        decision(result, request, replies)->result is Pass,
    ensures
        result is Pass,
        request.token is Some && request.pubkey && request.signature && request.key_fingerprint,
        replies.signature matches Some(Ok(_)),
        request.ring is RingM2 ==> request.root_pubkey && request.root_signature
            && request.root_key_fingerprint,
        request.ring is RingM2 ==> (replies.root matches Some(Ok(root)) && (
        replies.signature matches Some(Ok(meta)) && root.key_fingerprint@
            != meta.key_fingerprint@)),
        request.nonce is Some && request.replay_state is Some,
        0 < request.max_age_sec <= i64::MAX,
        replies.validation == Some(1i32),
{
}

/// On Ring -2 a key does not serve as its own root: with one key for both the
/// result fails.
pub proof fn law_root_is_independent(
    result: Finding,
    request: RingRequest,
    replies: RingReplies,
    meta: SignatureMeta,
    root: SignatureMeta,
)
    requires
        request.ring is RingM2,
        replies.signature == Some(Ok::<SignatureMeta, String>(meta)),
        replies.root == Some(Ok::<SignatureMeta, String>(root)),
        root.key_fingerprint@ == meta.key_fingerprint@,
    ensures
        decision(result, request, replies) is Decided,
        decision(result, request, replies)->result is Fail,
{
}

/// Steps are taken in order, and none twice: the token is validated only after
/// its signatures were verified, the root signature is checked only after the
/// first one, and nothing is asked for that has come back.
pub proof fn law_steps_in_order(result: Finding, request: RingRequest, replies: RingReplies)
    ensures
        match decision(result, request, replies) {
            RingDecision::VerifySignature => replies.signature is None && !(request.ring is Ring0),
            RingDecision::VerifyRootSignature => {
                &&& replies.root is None
                &&& request.ring is RingM2
                &&& replies.signature matches Some(Ok(_))
            },
            RingDecision::ValidateToken { required_ring, max_age_sec } => {
                &&& replies.validation is None
                &&& request.ring.spec_token_ring() == Some(required_ring)
                &&& max_age_sec == request.max_age_sec
                &&& replies.signature matches Some(Ok(_))
                &&& request.ring is RingM2 ==> (replies.root matches Some(Ok(root)) && (
                replies.signature matches Some(Ok(meta)) && root.key_fingerprint@
                    != meta.key_fingerprint@))
            },
            RingDecision::Decided { .. } => true,
        },
{
}

/// Once all replies are there the result stands.
pub proof fn law_policy_ends(result: Finding, request: RingRequest, replies: RingReplies)
    requires
        replies.signature is Some,
        replies.root is Some,
        replies.validation is Some,
    ensures
        decision(result, request, replies) is Decided,
{
}

/// A key fingerprint is reported only where the signature was verified, and is
/// then the one that came back.
pub proof fn law_fingerprint_is_earned(result: Finding, request: RingRequest, replies: RingReplies)
    requires
        decision(result, request, replies) is Decided,
        decision(result, request, replies)->key_fingerprint is Some,
    ensures
        replies.signature matches Some(Ok(meta)) && {
            &&& decision(result, request, replies)->key_fingerprint == Some(meta.key_fingerprint@)
            &&& decision(result, request, replies)->token_sha256 == Some(meta.token_sha256@)
        },
{
}

/// In require mode a blocked VC fails the run on every ring.
pub proof fn law_blocked_fails_on_every_ring(
    result: Finding,
    blocked_vcs: nat,
    request: RingRequest,
    replies: RingReplies,
)
    requires
        blocked_vcs > 0,
        decision(enforced(result, HitlMode::Require, blocked_vcs), request, replies) is Decided,
    ensures
        decision(
            enforced(result, HitlMode::Require, blocked_vcs),
            request,
            replies,
        )->result is Fail,
{
}

/// No text that is handed to C holds a NUL character where a strict ring passes.
pub proof fn law_strict_pass_holds_no_nul(
    result: Finding,
    request: RingRequest,
    replies: RingReplies,
)
    requires
        !(request.ring is Ring0),
        decision(result, request, replies) is Decided,
        decision(result, request, replies)->result is Pass,
    ensures
        request.token matches Some(text) && forall|k: int|
            0 <= k < text@.len() ==> #[trigger] text@[k] != '\0',
        request.nonce matches Some(text) && forall|k: int|
            0 <= k < text@.len() ==> #[trigger] text@[k] != '\0',
        request.replay_state matches Some(text) && forall|k: int|
            0 <= k < text@.len() ==> #[trigger] text@[k] != '\0',
{
    assert(!request.token->0@.contains('\0'));
    assert(!request.nonce->0@.contains('\0'));
    assert(!request.replay_state->0@.contains('\0'));
}

/// Everything that a strict ring demands is given.
pub open spec fn is_complete(request: RingRequest) -> bool {
    &&& request.token matches Some(token) && !token@.contains('\0')
    &&& request.pubkey && request.signature && request.key_fingerprint
    &&& request.ring is RingM2 ==> request.root_pubkey && request.root_signature
        && request.root_key_fingerprint
    &&& 0 < request.max_age_sec <= 0x7fff_ffff_ffff_ffff
    &&& request.nonce matches Some(nonce) && !nonce@.contains('\0')
    &&& request.replay_state matches Some(path) && !path@.contains('\0')
}

/// Where everything is given, a strict ring asks for the signature, then on Ring -2
/// for the root signature, then for the validation with the number of the ring and
/// the age that was given.
pub proof fn law_strict_ring_asks(result: Finding, request: RingRequest, replies: RingReplies)
    requires
        !(request.ring is Ring0),
        is_complete(request),
    ensures
        replies.signature is None ==> decision(result, request, replies) is VerifySignature,
        replies.signature matches Some(Ok(meta)) ==> {
            &&& request.ring is RingM2 && replies.root is None ==> decision(
                result,
                request,
                replies,
            ) is VerifyRootSignature
            &&& replies.validation is None && (request.ring is RingM1 || (
            replies.root matches Some(Ok(root)) && root.key_fingerprint@ != meta.key_fingerprint@))
                ==> decision(result, request, replies) == (RingDecision::ValidateToken {
                required_ring: if request.ring is RingM1 {
                    -1i32
                } else {
                    -2i32
                },
                max_age_sec: request.max_age_sec as i64,
            })
        },
{
}

/// Where everything is given and attested, the result stands on a strict ring, but
/// for an unknown one, which fails; and the key and the token are reported.
pub proof fn law_attested_result_stands(
    result: Finding,
    request: RingRequest,
    replies: RingReplies,
    meta: SignatureMeta,
)
    requires
        !(request.ring is Ring0),
        is_complete(request),
        replies.signature == Some(Ok::<SignatureMeta, String>(meta)),
        request.ring is RingM2 ==> (replies.root matches Some(Ok(root)) && root.key_fingerprint@
            != meta.key_fingerprint@),
        replies.validation == Some(1i32),
    ensures
        ({
            let label = if request.ring is RingM1 {
                "Ring -1"@
            } else {
                "Ring -2"@
            };
            decision(result, request, replies) == (RingDecision::Decided {
                result: match result {
                    Finding::Pass => Finding::Pass,
                    Finding::Fail(message) => Finding::Fail(message),
                    Finding::Unknown(reason) => Finding::Fail(
                        label + " strict policy rejected unresolved proof: "@ + reason,
                    ),
                },
                key_fingerprint: Some(meta.key_fingerprint@),
                token_sha256: Some(meta.token_sha256@),
            })
        }),
{
}

/// Once the signature is verified, a result that stands reports its key and token.
pub proof fn law_verified_key_is_reported(
    result: Finding,
    request: RingRequest,
    replies: RingReplies,
    meta: SignatureMeta,
)
    requires
        !(request.ring is Ring0),
        is_complete(request),
        replies.signature == Some(Ok::<SignatureMeta, String>(meta)),
        decision(result, request, replies) is Decided,
    ensures
        decision(result, request, replies)->key_fingerprint == Some(meta.key_fingerprint@),
        decision(result, request, replies)->token_sha256 == Some(meta.token_sha256@),
{
}

/// A signature that is not verified, a root signature that is not, and a token that
/// is not validated are refused with the reason.
pub proof fn law_bad_reply_is_refused(
    result: Finding,
    request: RingRequest,
    replies: RingReplies,
    meta: SignatureMeta,
    e: String,
)
    requires
        !(request.ring is Ring0),
        is_complete(request),
    ensures
        ({
            let label = if request.ring is RingM1 {
                "Ring -1"@
            } else {
                "Ring -2"@
            };
            &&& replies.signature == Some(Err::<SignatureMeta, String>(e)) ==> decision(
                result,
                request,
                replies,
            ) == (RingDecision::Decided {
                result: Finding::Fail(label + " attestation signature invalid: "@ + e@),
                key_fingerprint: None,
                token_sha256: None,
            })
            &&& request.ring is RingM2 && replies.signature == Some(
                Ok::<SignatureMeta, String>(meta),
            ) && replies.root == Some(Err::<SignatureMeta, String>(e)) ==> decision(
                result,
                request,
                replies,
            ) is Decided && decision(result, request, replies)->result == Finding::Fail(
                "Ring -2 root signature invalid: "@ + e@,
            )
            &&& request.ring is RingM1 && replies.signature == Some(
                Ok::<SignatureMeta, String>(meta),
            ) && replies.validation is Some && replies.validation != Some(1i32) ==> decision(
                result,
                request,
                replies,
            ) is Decided && decision(result, request, replies)->result == Finding::Fail(
                "Ring -1 attestation token validation failed"@,
            )
        }),
{
    reveal_strlit("Ring -1");
    reveal_strlit(" attestation token validation failed");
    reveal_strlit("Ring -1 attestation token validation failed");
    assert("Ring -1"@ + " attestation token validation failed"@
        =~= "Ring -1 attestation token validation failed"@);
}

/// Whatever a strict ring demands and is not given makes the result fail, whatever
/// came back.
pub proof fn law_incomplete_request_fails(
    result: Finding,
    request: RingRequest,
    replies: RingReplies,
)
    requires
        !(request.ring is Ring0),
        !is_complete(request),
        decision(result, request, replies) is Decided,
    ensures
        decision(result, request, replies)->result is Fail,
{
}

/// A strict ring turns an unknown result into a failure that tells the reason; any
/// other result, and any result on Ring 0, stays.
pub proof fn law_promotion(result: Finding, ring: RingMode)
    ensures
        strict(result, RingMode::Ring0) == result,
        !(result is Unknown) ==> strict(result, ring) == result,
        result matches Finding::Unknown(reason) ==> {
            &&& strict(result, RingMode::RingM1) == Finding::Fail(
                "Ring -1"@ + " strict policy rejected unresolved proof: "@ + reason,
            )
            &&& strict(result, RingMode::RingM2) == Finding::Fail(
                "Ring -2"@ + " strict policy rejected unresolved proof: "@ + reason,
            )
        },
{
}

} // verus!
