use base64::engine::general_purpose::STANDARD;
use base64::Engine;
use ed25519_dalek::{Signer, SigningKey};
use skv_analyzer::attest::{
    judge_signature, normalize_fingerprint, verify_attestation_signature, AttestationError,
    Evidence,
};
use skv_analyzer::modes::RingMode;
use skv_analyzer::ring::{apply_ring_policy, contains_nul, RingReplies, RingRequest, RingStep};
use skv_analyzer::attest::SignatureMeta;
use skv_analyzer::verdict::AnalysisResult;

const KEY: &str = "PUAXw+hDiVqStwqnTRt+vJyYLM8uxJaMwM1V8Sr0Zgw=";
const SIGNATURE: &str = "kqAJqfDUyrhyDoILX2QlQKKye1QWUD+Ps3YiI+vbadoIWsHkPhWZbkWPNhPQ8R2MOHsurrQwKu6wDSkWErsMAA==";
const FINGERPRINT: &str = "39f713d0a644253f04529421b9f51b9b08979d08295959c4f3990ee617f5139f";

fn refusal(token: &[u8], key: &str, signature: &str, fingerprint: &str) -> AttestationError {
    match verify_attestation_signature(token, key, signature, fingerprint) {
        Ok(_) => panic!("accepted"),
        Err(e) => e,
    }
}

#[test]
fn known_signature_is_accepted() {
    let meta = verify_attestation_signature(&[0x72], KEY, SIGNATURE, FINGERPRINT)
        .ok()
        .unwrap();
    assert_eq!(meta.key_fingerprint, FINGERPRINT);
    assert_eq!(
        meta.token_sha256,
        "454349e422f05297191ead13e21d3db520e5abef52055e4964b82fb213f593a1"
    );
}

#[test]
fn white_space_and_case_do_not_matter() {
    let key = format!("  {KEY}\n");
    let signature = format!("\t{SIGNATURE}\r\n");
    let pinned = format!(" {} ", FINGERPRINT.to_uppercase());
    let meta = verify_attestation_signature(&[0x72], &key, &signature, &pinned).ok().unwrap();
    assert_eq!(meta.key_fingerprint, FINGERPRINT);
    assert!(verify_attestation_signature(&[0x72], KEY, SIGNATURE, &meta.key_fingerprint).is_ok());
}

#[test]
fn each_fault_is_named() {
    let short_key = "PUAXw+hDiVqStwqnTRt+vJyYLM8uxJaMwM1V8Sr0Zg==";
    let short_signature =
        "kqAJqfDUyrhyDoILX2QlQKKye1QWUD+Ps3YiI+vbadoIWsHkPhWZbkWPNhPQ8R2MOHsurrQwKu6wDSkWErsM";
    let no_point = "AgAAAAAAAAAAAAAAAAAAAAAAAAAAAAAAAAAAAAAAAAA=";
    let token = [0x72u8];
    assert_eq!(refusal(&token, "?", SIGNATURE, FINGERPRINT), AttestationError::PubkeyEncoding);
    assert_eq!(refusal(&token, "?", "?", FINGERPRINT), AttestationError::PubkeyEncoding);
    assert_eq!(refusal(&token, KEY, "?", FINGERPRINT), AttestationError::SignatureEncoding);
    assert_eq!(refusal(&token, short_key, short_signature, ""), AttestationError::PubkeyLength);
    assert_eq!(refusal(&token, KEY, short_signature, ""), AttestationError::SignatureLength);
    assert_eq!(refusal(&token, no_point, SIGNATURE, ""), AttestationError::InvalidPubkey);
    assert_eq!(refusal(&[0x73], KEY, SIGNATURE, FINGERPRINT), AttestationError::InvalidSignature);
    assert_eq!(refusal(&token, KEY, SIGNATURE, "39f7"), AttestationError::FingerprintFormat);
    let other = FINGERPRINT.replace("39f7", "49f7");
    assert_eq!(refusal(&token, KEY, SIGNATURE, &other), AttestationError::FingerprintMismatch);
}

#[test]
fn faults_have_their_messages() {
    assert_eq!(
        AttestationError::PubkeyEncoding.message(),
        "Failed decoding base64 attestation pubkey"
    );
    assert_eq!(
        AttestationError::SignatureEncoding.message(),
        "Failed decoding base64 attestation signature"
    );
    assert_eq!(
        AttestationError::PubkeyLength.message(),
        "attestation pubkey must decode to 32 bytes"
    );
    assert_eq!(
        AttestationError::SignatureLength.message(),
        "attestation signature must decode to 64 bytes"
    );
    assert_eq!(AttestationError::InvalidPubkey.message(), "invalid ed25519 pubkey");
    assert_eq!(
        AttestationError::InvalidSignature.message(),
        "ed25519 signature verification failed"
    );
    assert_eq!(
        AttestationError::FingerprintFormat.message(),
        "fingerprint must be exactly 64 hex characters"
    );
    assert_eq!(
        AttestationError::FingerprintMismatch.message(),
        "attestation key fingerprint mismatch"
    );
}

#[test]
fn fresh_signatures_verify() {
    let signing = SigningKey::from_bytes(&[7u8; 32]);
    let token = b"ring:-1\nattested:true\n";
    let key = STANDARD.encode(signing.verifying_key().to_bytes());
    let signature = STANDARD.encode(signing.sign(token).to_bytes());
    assert_eq!(
        refusal(token, &key, &signature, FINGERPRINT),
        AttestationError::FingerprintMismatch
    );
    assert_eq!(
        refusal(b"ring:-2\n", &key, &signature, FINGERPRINT),
        AttestationError::InvalidSignature
    );
}

#[test]
fn judgement_follows_the_evidence() {
    let good = |signed: bool| Evidence {
        pubkey_len: Some(32),
        signature_len: Some(64),
        key_valid: true,
        signed,
    };
    assert!(judge_signature(&good(true), FINGERPRINT, FINGERPRINT).is_ok());
    assert_eq!(
        judge_signature(&good(false), FINGERPRINT, FINGERPRINT),
        Err(AttestationError::InvalidSignature)
    );
    assert_eq!(
        judge_signature(&good(true), "ab", FINGERPRINT),
        Err(AttestationError::FingerprintMismatch)
    );
}

#[test]
fn fingerprints_are_normalized() {
    let upper = format!("\u{a0}{}\n", FINGERPRINT.to_uppercase());
    assert_eq!(normalize_fingerprint(&upper).ok().unwrap(), FINGERPRINT);
    assert_eq!(normalize_fingerprint(FINGERPRINT).ok().unwrap(), FINGERPRINT);
    assert!(normalize_fingerprint(&FINGERPRINT[1..]).is_err());
    assert!(normalize_fingerprint(&FINGERPRINT.replace('3', "g")).is_err());
    assert!(normalize_fingerprint(&FINGERPRINT.replace("39", "\u{e9}")).is_err());
    assert!(normalize_fingerprint("").is_err());
}

// ---- ring policy ----

fn request(ring: RingMode) -> RingRequest {
    RingRequest {
        ring,
        token: Some("token.txt".to_string()),
        max_age_sec: 300,
        nonce: Some("n".to_string()),
        replay_state: Some("replay.state".to_string()),
        pubkey: true,
        signature: true,
        key_fingerprint: true,
        root_pubkey: true,
        root_signature: true,
        root_key_fingerprint: true,
    }
}

fn meta() -> SignatureMeta {
    SignatureMeta { key_fingerprint: "fp".to_string(), token_sha256: "sha".to_string() }
}

fn root_meta() -> SignatureMeta {
    SignatureMeta { key_fingerprint: "root".to_string(), token_sha256: "sha".to_string() }
}

fn attested() -> RingReplies {
    RingReplies { signature: Some(Ok(meta())), root: Some(Ok(root_meta())), validation: Some(1) }
}

fn outcome(
    result: AnalysisResult,
    request: &RingRequest,
    replies: &RingReplies,
) -> (AnalysisResult, bool) {
    match apply_ring_policy(result, request, replies) {
        RingStep::Decided { result, key_fingerprint, token_sha256 } => {
            assert_eq!(key_fingerprint.is_some(), token_sha256.is_some());
            (result, key_fingerprint.is_some())
        }
        _ => panic!("not decided"),
    }
}

fn refused(request: &RingRequest, replies: &RingReplies) -> String {
    match outcome(AnalysisResult::Pass, request, replies).0 {
        AnalysisResult::Fail(message) => message,
        _ => panic!("not refused"),
    }
}

#[test]
fn ring0_asks_for_nothing() {
    let nothing = RingReplies { signature: None, root: None, validation: None };
    let (r, reported) =
        outcome(AnalysisResult::Unknown("why".to_string()), &request(RingMode::Ring0), &nothing);
    assert_eq!(r, AnalysisResult::Unknown("why".to_string()));
    assert!(!reported);
}

#[test]
fn strict_rings_reject_unknown() {
    let (r, reported) =
        outcome(AnalysisResult::Unknown("why".to_string()), &request(RingMode::RingM1), &attested());
    assert_eq!(
        r,
        AnalysisResult::Fail("Ring -1 strict policy rejected unresolved proof: why".to_string())
    );
    assert!(reported);
    let (r, _) =
        outcome(AnalysisResult::Unknown("why".to_string()), &request(RingMode::RingM2), &attested());
    assert_eq!(
        r,
        AnalysisResult::Fail("Ring -2 strict policy rejected unresolved proof: why".to_string())
    );
}

#[test]
fn attested_results_stand() {
    assert_eq!(
        outcome(AnalysisResult::Pass, &request(RingMode::RingM2), &attested()).0,
        AnalysisResult::Pass
    );
    let fail = AnalysisResult::Fail("x".to_string());
    assert_eq!(
        outcome(AnalysisResult::Fail("x".to_string()), &request(RingMode::RingM1), &attested()).0,
        fail
    );
}

#[test]
fn steps_come_in_order() {
    let mut replies = RingReplies { signature: None, root: None, validation: None };
    let strict = request(RingMode::RingM2);
    assert!(matches!(
        apply_ring_policy(AnalysisResult::Pass, &strict, &replies),
        RingStep::VerifySignature
    ));
    replies.signature = Some(Ok(meta()));
    assert!(matches!(
        apply_ring_policy(AnalysisResult::Pass, &strict, &replies),
        RingStep::VerifyRootSignature
    ));
    replies.root = Some(Ok(root_meta()));
    assert!(matches!(
        apply_ring_policy(AnalysisResult::Pass, &strict, &replies),
        RingStep::ValidateToken { required_ring: -2, max_age_sec: 300 }
    ));
    let replies = RingReplies { signature: Some(Ok(meta())), root: None, validation: None };
    assert!(matches!(
        apply_ring_policy(AnalysisResult::Pass, &request(RingMode::RingM1), &replies),
        RingStep::ValidateToken { required_ring: -1, max_age_sec: 300 }
    ));
}

#[test]
fn what_is_missing_is_named() {
    let m1 = || request(RingMode::RingM1);
    let m2 = || request(RingMode::RingM2);
    let a = attested();
    let cases: Vec<(RingRequest, &str)> = vec![
        (
            RingRequest { token: None, ..m1() },
            "Ring -1 requires C-validated attestation token (--attestation-token <path>)",
        ),
        (
            RingRequest { token: Some("a\0b".to_string()), ..m1() },
            "Attestation token path contains NUL byte",
        ),
        (
            RingRequest { pubkey: false, ..m2() },
            "Ring -2 requires --attestation-pubkey for signature verification",
        ),
        (
            RingRequest { signature: false, ..m1() },
            "Ring -1 requires --attestation-signature for signature verification",
        ),
        (
            RingRequest { key_fingerprint: false, ..m1() },
            "Ring -1 requires --attestation-key-fingerprint for key pinning",
        ),
        (
            RingRequest { root_pubkey: false, ..m2() },
            "Ring -2 requires --ring2-root-pubkey for independent root attestation",
        ),
        (
            RingRequest { root_signature: false, ..m2() },
            "Ring -2 requires --ring2-root-signature for independent root attestation",
        ),
        (
            RingRequest { root_key_fingerprint: false, ..m2() },
            "Ring -2 requires --ring2-root-key-fingerprint for root key pinning",
        ),
        (RingRequest { max_age_sec: 0, ..m1() }, "attestation max age must be > 0"),
        (
            RingRequest { max_age_sec: 9223372036854775808, ..m1() },
            "attestation max age is too large",
        ),
        (
            RingRequest { nonce: None, ..m1() },
            "Ring -1 requires --attestation-nonce for anti-replay binding",
        ),
        (
            RingRequest { nonce: Some("\0".to_string()), ..m1() },
            "attestation nonce contains NUL byte",
        ),
        (
            RingRequest { replay_state: None, ..m2() },
            "Ring -2 requires --attestation-replay-state for replay protection",
        ),
        (
            RingRequest { replay_state: Some("r\0".to_string()), ..m1() },
            "attestation replay state path contains NUL byte",
        ),
    ];
    for (request, message) in cases {
        assert_eq!(refused(&request, &a), message);
    }
    assert_ne!(
        refused(&RingRequest { max_age_sec: 9223372036854775807, nonce: None, ..m1() }, &a),
        "attestation max age is too large"
    );
}

#[test]
fn bad_replies_are_refused() {
    let bad = |e: &str| Some(Err(e.to_string()));
    let replies = RingReplies { signature: bad("why"), root: None, validation: None };
    assert_eq!(
        refused(&request(RingMode::RingM1), &replies),
        "Ring -1 attestation signature invalid: why"
    );
    assert!(!outcome(AnalysisResult::Pass, &request(RingMode::RingM1), &replies).1);
    let replies = RingReplies { signature: Some(Ok(meta())), root: bad("why"), validation: None };
    assert_eq!(refused(&request(RingMode::RingM2), &replies), "Ring -2 root signature invalid: why");
    for code in [0, 2, -1] {
        let replies = RingReplies {
            signature: Some(Ok(meta())),
            root: Some(Ok(root_meta())),
            validation: Some(code),
        };
        assert_eq!(
            refused(&request(RingMode::RingM2), &replies),
            "Ring -2 attestation token validation failed"
        );
        assert!(outcome(AnalysisResult::Pass, &request(RingMode::RingM2), &replies).1);
    }
}

#[test]
fn the_root_key_is_another_key() {
    let replies = |validation: Option<i32>| RingReplies {
        signature: Some(Ok(meta())),
        root: Some(Ok(meta())),
        validation,
    };
    let message = "Ring -2 root key must be independent of the attestation key";
    assert_eq!(refused(&request(RingMode::RingM2), &replies(None)), message);
    assert_eq!(refused(&request(RingMode::RingM2), &replies(Some(1))), message);
    assert_eq!(
        outcome(AnalysisResult::Pass, &request(RingMode::RingM1), &replies(Some(1))).0,
        AnalysisResult::Pass
    );
}

#[test]
fn nul_is_found_anywhere() {
    assert!(contains_nul("\0"));
    assert!(contains_nul("abc\0"));
    assert!(!contains_nul("abc0"));
    assert!(!contains_nul(""));
}
