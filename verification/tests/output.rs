use skv_analyzer::assembly::is_safe_inline_asm;
use skv_analyzer::catalog::{feature_catalog, feature_catalog_json};
use skv_analyzer::files::{
    check_output_file, ensure_secure_owned_file, file_fault, nix_like_euid, output_mode,
    parse_number, split_words, FileFacts, FileFault,
};
use skv_analyzer::modes::{HitlMode, ProofFormat, RingMode, RuntimeFallbackPolicy};
use skv_analyzer::report::{
    doctor_checks, doctor_code, doctor_json, doctor_text, menu_choice, proof_trace,
    required_checks_ok, token_template, verdict_summary, MenuChoice,
};
use skv_analyzer::text::{
    comes_before, decimal_of, escape, is_white_space, same_text, signed_decimal_of, sort_distinct,
    split_lines, starts_with, to_lowercase, trim,
};
use skv_analyzer::verdict::{mark_unknown, verdict_from_result, AnalysisResult, Verdict};

// ---- text ----

#[test]
fn white_space_is_unicode_white_space() {
    let mut code: u32 = 0;
    while code <= 0x10ffff {
        if let Some(c) = char::from_u32(code) {
            assert_eq!(is_white_space(c), c.is_whitespace());
        }
        code += 1;
    }
}

#[test]
fn text_helpers_agree_with_std() {
    for s in ["", " ", "a", "  a b\t\n", "\u{3000}x\u{85}", "ÀB c", "\\ \"q\"\n"] {
        assert_eq!(trim(s), s.trim());
        assert_eq!(to_lowercase(s), s.to_ascii_lowercase());
        for t in ["", "a", " ", "ÀB c", "b"] {
            assert_eq!(same_text(s, t), s == t);
            assert_eq!(starts_with(s, t), s.starts_with(t));
            assert_eq!(comes_before(s, t), s < t);
        }
    }
    for n in [0u64, 7, 10, 99, 100, 12345, u64::MAX] {
        assert_eq!(decimal_of(n), n.to_string());
    }
    for n in [0i32, -1, 20, i32::MAX, i32::MIN] {
        assert_eq!(signed_decimal_of(n), n.to_string());
    }
    assert_eq!(escape("a\\\"\n"), "a\\\\\\\"\\n");
    assert_eq!(escape("\t\r\u{0}\u{1f} \u{7f}\u{e9}"), "\\u0009\\u000d\\u0000\\u001f \u{7f}\u{e9}");
    assert_eq!(split_lines("a\n\nb"), vec!["a".to_string(), String::new(), "b".to_string()]);
}

#[test]
fn sorting_matches_std() {
    let items = ["b", "a", "", "ab", "b", "\u{e9}", "Z", "a"];
    let given: Vec<String> = items.iter().map(|s| s.to_string()).collect();
    let mut expected = given.clone();
    expected.sort();
    expected.dedup();
    assert_eq!(sort_distinct(&given), expected);
    assert_eq!(sort_distinct(&sort_distinct(&given)), expected);
}

// ---- modes ----

#[test]
fn labels_are_stable() {
    assert_eq!(ProofFormat::Lfsc.label(), "lfsc");
    assert_eq!(ProofFormat::Rup.label(), "rup");
    assert_eq!(RingMode::Ring0.label(), "Ring 0");
    assert_eq!(RingMode::RingM1.label(), "Ring -1");
    assert_eq!(RingMode::RingM2.label(), "Ring -2");
    assert_eq!(RingMode::Ring0.token_ring(), None);
    assert_eq!(RingMode::RingM1.token_ring(), Some(-1));
    assert_eq!(RingMode::RingM2.token_ring(), Some(-2));
    assert_eq!(HitlMode::Off.label(), "off");
    assert_eq!(HitlMode::Require.label(), "require");
}

#[test]
fn fallback_follows_the_architecture() {
    assert_eq!(RuntimeFallbackPolicy::Auto.resolved("aarch64"), "arm-mte");
    assert_eq!(RuntimeFallbackPolicy::Auto.resolved("x86_64"), "integritag");
    assert_eq!(RuntimeFallbackPolicy::Auto.resolved("riscv64"), "software-targeted");
    assert_eq!(RuntimeFallbackPolicy::ArmMte.resolved("x86_64"), "arm-mte");
    assert_eq!(RuntimeFallbackPolicy::IntegriTag.resolved("aarch64"), "integritag");
    assert_eq!(RuntimeFallbackPolicy::SoftwareTargeted.resolved("x86_64"), "software-targeted");
}

#[test]
fn harmless_assembly_is_known() {
    for text in [
        "", "  ", "nop", " RDTSC", "rep nop", "pause\n\t", "int3", "xgetbv", "nop; pause",
        "nop;\n\tcpuid\n", "RDTSC ; rep nop",
    ] {
        assert!(is_safe_inline_asm(text));
    }
    for text in [
        "mov %eax, %ebx", "re", "hlt", "nop; mov %rax, (%rbx)", "nop\nmov %rax, (%rbx)", "nopx",
        "mov %eax, %ebx; nop", "cpuid;hlt", ";", "; nop", " ;\n; ",
    ] {
        assert!(!is_safe_inline_asm(text));
    }
    for text in ["rdtsc", "rep nop", "nop; pause", "nop; mov %rax, (%rbx)", ";", "", "hlt"] {
        let safe = is_safe_inline_asm(text);
        assert_eq!(is_safe_inline_asm(&format!("\t {text}\n")), safe);
        assert_eq!(is_safe_inline_asm(&text.to_ascii_uppercase()), safe);
    }
}

// ---- verdicts ----

fn verdict(result: AnalysisResult, key: Option<String>) -> Verdict<'static> {
    verdict_from_result(
        result,
        key,
        None,
        "integritag".to_string(),
        "off".to_string(),
        1,
        2,
        3,
        4,
        5,
        6,
        7,
    )
}

#[test]
fn verdicts_carry_status_and_code() {
    let pass = verdict(AnalysisResult::Pass, None);
    assert_eq!((pass.status, pass.code), ("pass", 0));
    assert_eq!(pass.message, "Proved safe for all checked accesses.");
    let fail = verdict(AnalysisResult::Fail("m".to_string()), None);
    assert_eq!((fail.status, fail.code, fail.message.as_str()), ("fail", 10, "m"));
    let unknown = verdict(AnalysisResult::Unknown("r".to_string()), None);
    assert_eq!((unknown.status, unknown.code, unknown.message.as_str()), ("unknown", 20, "r"));
}

#[test]
fn verdicts_are_json() {
    let v = verdict(AnalysisResult::Fail("a \"b\"\\\n".to_string()), Some("fp".to_string()));
    assert_eq!(
        v.to_json(),
        "{\"status\":\"fail\",\"code\":10,\"message\":\"a \\\"b\\\"\\\\\\n\",\"key_fingerprint\":\"fp\",\"token_sha256\":null,\"runtime_fallback\":\"integritag\",\"hitl_mode\":\"off\",\"hitl_seen_vcs\":1,\"hitl_blocked_vcs\":2,\"hitl_seen_classes\":3,\"hitl_blocked_classes\":4,\"inline_asm_vcs\":5,\"dma_vcs\":6,\"irq_race_vcs\":7}"
    );
}

#[test]
fn control_characters_are_escaped_everywhere() {
    let mut v = verdict(AnalysisResult::Unknown("mov\t%eax\r\u{1}".to_string()), None);
    v.runtime_fallback = "a\"\u{1b}".to_string();
    v.hitl_mode = "\u{b}".to_string();
    v.token_sha256 = Some("\t".to_string());
    let json = v.to_json();
    assert!(json.contains("\"message\":\"mov\\u0009%eax\\u000d\\u0001\","));
    assert!(json.contains("\"runtime_fallback\":\"a\\\"\\u001b\","));
    assert!(json.contains("\"hitl_mode\":\"\\u000b\","));
    assert!(json.contains("\"token_sha256\":\"\\u0009\","));
    assert!(json.chars().all(|c| c >= ' '));
}

#[test]
fn verdicts_are_summarized() {
    assert_eq!(
        verdict_summary(&verdict(AnalysisResult::Pass, None)),
        "[PASS] Proved safe for all checked accesses.\n[INFO] runtime fallback policy: integritag\n[INFO] HITL mode: off (seen_vcs=1, blocked_vcs=2, seen_classes=3, blocked_classes=4)\n"
    );
    assert!(verdict_summary(&verdict(AnalysisResult::Fail("m".to_string()), None))
        .starts_with("[FAIL] m\n"));
    assert!(verdict_summary(&verdict(AnalysisResult::Unknown("r".to_string()), None))
        .starts_with("[UNKNOWN] r\n"));
}

#[test]
fn only_a_pass_becomes_unknown() {
    let mut r = AnalysisResult::Pass;
    mark_unknown(&mut r, "first");
    mark_unknown(&mut r, "second");
    assert_eq!(r, AnalysisResult::Unknown("first".to_string()));
    let mut r = AnalysisResult::Fail("f".to_string());
    mark_unknown(&mut r, "first");
    assert_eq!(r, AnalysisResult::Fail("f".to_string()));
}

#[test]
fn proof_traces_name_their_format() {
    assert_eq!(
        proof_trace(ProofFormat::Rup, "pass", "x86_64"),
        ";; Sentinel-KV Z3 Proof Trace (Format: rup)\n;; Verdict Status: pass\n;; Target Arch: x86_64\n(proof-trace-placeholder)\n"
    );
}

// ---- files ----

#[test]
fn files_are_refused_in_order() {
    let facts = |regular: bool, uid: u32, mode: u32| FileFacts { regular, uid, mode };
    assert_eq!(file_fault(facts(true, 5, 0o100600), 5), None);
    assert_eq!(file_fault(facts(true, 5, 0o100755), 5), None);
    assert_eq!(file_fault(facts(true, 5, 0o100620), 5), Some(FileFault::Writable));
    assert_eq!(file_fault(facts(true, 5, 0o100602), 5), Some(FileFault::Writable));
    assert_eq!(file_fault(facts(true, 6, 0o100666), 5), Some(FileFault::ForeignOwner));
    assert_eq!(file_fault(facts(false, 6, 0o120777), 5), Some(FileFault::NotRegular));
    assert_eq!(
        ensure_secure_owned_file("key", facts(false, 5, 0), 5),
        Err("key must be a regular file".to_string())
    );
    assert_eq!(
        ensure_secure_owned_file("key", facts(true, 6, 0), 5),
        Err("key must be owned by current effective user".to_string())
    );
    assert_eq!(
        ensure_secure_owned_file("key", facts(true, 5, 0o22), 5),
        Err("key must not be group/world writable".to_string())
    );
    assert_eq!(ensure_secure_owned_file("key", facts(true, 5, 0o600), 5), Ok(()));
    assert_eq!(check_output_file(None, 5), Ok(()));
    assert_eq!(check_output_file(Some(facts(true, 5, 0o600)), 5), Ok(()));
    assert_eq!(
        check_output_file(Some(facts(false, 5, 0)), 5),
        Err("output path must be a regular file")
    );
    assert_eq!(
        check_output_file(Some(facts(true, 6, 0)), 5),
        Err("output file must be owned by current effective user")
    );
    assert_eq!(
        check_output_file(Some(facts(true, 5, 0o666)), 5),
        Err("output file must not be group/world writable")
    );
    assert_eq!(output_mode(), 0o600);
}

#[test]
fn effective_user_is_the_second_number() {
    let status = "Name:\tx\nUid:\t1000\t1001\t1002\t1003\nGid:\t7\t8\n";
    assert_eq!(nix_like_euid(status), 1001);
    assert_eq!(nix_like_euid("Uid: 1\r\nUid: 1 x\nUid: 1 +42 9"), 42);
    assert_eq!(nix_like_euid("Uid:1 4294967296\n"), 0);
    assert_eq!(nix_like_euid(" Uid: 1 2\n"), 0);
    assert_eq!(nix_like_euid(""), 0);
}

#[test]
fn numbers_parse_as_in_std() {
    for s in ["", "+", "-1", "0", "007", "+9", "++9", "4294967295", "4294967296", "1 ", "99999999999"] {
        assert_eq!(parse_number(s), s.parse::<u32>().ok());
    }
    for s in ["", "  ", "a", " a  b ", "a\u{a0}b\tc"] {
        let expected: Vec<String> = s.split_whitespace().map(|w| w.to_string()).collect();
        assert_eq!(split_words(s), expected);
    }
}

// ---- other commands ----

#[test]
fn templates_fit_their_ring() {
    assert_eq!(
        token_template(RingMode::RingM2, false),
        "ring:-2\nattested:true\nroot_attested:true\ntimestamp:1700000000\nnonce:<nonce>\ncounter:1\n"
    );
    assert_eq!(
        token_template(RingMode::RingM1, false),
        "ring:-1\nattested:true\ntimestamp:1700000000\nnonce:<nonce>\ncounter:1\n"
    );
    assert_eq!(
        token_template(RingMode::RingM2, true),
        "{\"ring\":-2,\"attested\":true,\"root_attested\":true,\"timestamp\":1700000000,\"nonce\":\"<nonce>\",\"counter\":1}\n"
    );
    assert_eq!(
        token_template(RingMode::Ring0, true),
        "{\"ring\":0,\"attested\":true,\"timestamp\":1700000000,\"nonce\":\"<nonce>\",\"counter\":1}\n"
    );
}

#[test]
fn diagnostics_report_each_check() {
    let checks = doctor_checks(true, false);
    assert!(required_checks_ok(&checks));
    assert_eq!(
        doctor_json(&checks),
        "{\"doctor\":[{\"check\":\"os_supported\",\"ok\":true,\"required\":true,\"detail\":\"linux\"},{\"check\":\"ffi_symbol_linked\",\"ok\":true,\"required\":true,\"detail\":\"attestation bridge linked\"},{\"check\":\"zig_available\",\"ok\":false,\"required\":false,\"detail\":\"no\"}],\"all_ok\":true}\n"
    );
    let checks = doctor_checks(false, true);
    assert!(!required_checks_ok(&checks));
    assert_eq!(
        doctor_text(&checks),
        "SKV Analyzer Doctor\n- os_supported: FAIL [required] (linux)\n- ffi_symbol_linked: OK [required] (attestation bridge linked)\n- zig_available: OK [optional] (yes)\noverall: FAIL\n"
    );
    assert!(doctor_text(&doctor_checks(true, false)).contains("zig_available: WARN [optional] (no)"));
    assert_eq!(doctor_code(true), 0);
    assert_eq!(doctor_code(false), 12);
}

#[test]
fn menu_keys_choose_actions() {
    assert_eq!(menu_choice("1\n"), MenuChoice::Doctor);
    assert_eq!(menu_choice(" D "), MenuChoice::Doctor);
    assert_eq!(menu_choice("2"), MenuChoice::FeaturesText);
    assert_eq!(menu_choice("F"), MenuChoice::FeaturesText);
    assert_eq!(menu_choice("3"), MenuChoice::FeaturesJson);
    assert_eq!(menu_choice("4"), MenuChoice::TokenTemplate(RingMode::RingM1));
    assert_eq!(menu_choice("5"), MenuChoice::TokenTemplate(RingMode::RingM2));
    assert_eq!(menu_choice("j\r\n"), MenuChoice::TokenTemplate(RingMode::RingM2));
    assert_eq!(menu_choice("0"), MenuChoice::Exit);
    assert_eq!(menu_choice("Q"), MenuChoice::Exit);
    assert_eq!(menu_choice(""), MenuChoice::Invalid);
    assert_eq!(menu_choice("11"), MenuChoice::Invalid);
}

#[test]
fn inventory_is_complete() {
    let json = feature_catalog_json();
    assert!(json.starts_with(
        "{\"name\":\"SKV Analyzer\",\"features\":[\"Core LLVM/Z3 memory safety analysis\",\"kmalloc/kzalloc/kcalloc allocation tracking\","
    ));
    assert!(json.ends_with(
        ",\"Stack-spill pointer tracking through alloca/store/load chains\"]}"
    ));
    assert_eq!(json.matches("\",\"").count(), 43);
    let text = feature_catalog();
    assert!(text.starts_with("SKV Analyzer - Full Feature Inventory\n\n1) Core"));
    assert!(text.ends_with(
        "- Equivalence summary includes per-class counts and member VC lists\n"
    ));
    assert_eq!(text.matches('\n').count(), 89);
}
