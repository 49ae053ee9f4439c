use skv_analyzer::hitl::{
    emit_hitl_vcs, enforce_hitl_policy, equiv_summary, load_hitl_approvals, vc_class_id, vc_id,
    HitlGate,
};
use skv_analyzer::modes::HitlMode;
use skv_analyzer::report::{open_gate, plan_approvals};
use skv_analyzer::sets::{count_distinct, StringSet};
use skv_analyzer::solver::{
    access_result, check_access, out_of_bounds_query, AccessCheckResult, SolverAnswer, Term,
};
use skv_analyzer::verdict::AnalysisResult;

fn gate(approved: StringSet, approved_classes: StringSet) -> HitlGate {
    HitlGate {
        mode: HitlMode::Require,
        approved,
        approved_classes,
        seen: Vec::new(),
        blocked: Vec::new(),
        seen_classes: Vec::new(),
        blocked_classes: Vec::new(),
    }
}

#[test]
fn hitl_gate_blocks_unapproved_vc() {
    let mut gate = gate(StringSet::new(), StringSet::new());
    assert!(!gate.should_run_solver("f::bb0::i1::load", "class::load::size4"));
    assert_eq!(gate.seen.len(), 1);
    assert_eq!(gate.blocked.len(), 1);
    assert_eq!(gate.seen_classes.len(), 1);
    assert_eq!(gate.blocked_classes.len(), 1);
}

#[test]
fn hitl_gate_allows_approved_vc() {
    let mut approved = StringSet::new();
    approved.insert("f::bb0::i1::load".to_string());
    let mut gate = gate(approved, StringSet::new());
    assert!(gate.should_run_solver("f::bb0::i1::load", "class::load::size4"));
    assert_eq!(gate.seen.len(), 1);
    assert_eq!(gate.blocked.len(), 0);
}

#[test]
fn hitl_gate_allows_approved_class() {
    let mut approved_classes = StringSet::new();
    approved_classes.insert("class::load::size4".to_string());
    let mut gate = gate(StringSet::new(), approved_classes);
    assert!(gate.should_run_solver("f::bb0::i7::load", "class::load::size4"));
    assert_eq!(gate.blocked.len(), 0);
    assert_eq!(gate.blocked_classes.len(), 0);
}

#[test]
fn enforce_hitl_policy_is_fail_closed() {
    let r = enforce_hitl_policy(AnalysisResult::Pass, HitlMode::Require, 2);
    assert!(matches!(r, AnalysisResult::Fail(_)));
}

#[test]
fn load_hitl_approvals_parses_lines_comments() {
    let parsed = load_hitl_approvals("# comment\n\nf::bb0::i1::load\n  f::bb0::i2::store  \n");
    assert!(parsed.contains("f::bb0::i1::load"));
    assert!(parsed.contains("f::bb0::i2::store"));
    assert_eq!(parsed.len(), 2);
}

#[test]
fn approvals_ignore_carriage_returns_and_repetitions() {
    let parsed = load_hitl_approvals("a\r\n\ta \r\n  # b\r\nc");
    assert_eq!(parsed.len(), 2);
    assert!(parsed.contains("a"));
    assert!(parsed.contains("c"));
    assert!(!parsed.contains("# b"));
    assert!(load_hitl_approvals("").is_empty());
}

#[test]
fn policy_leaves_other_results_alone() {
    let fail = AnalysisResult::Fail("HITL require mode rejected 2 unapproved verification condition(s)".to_string());
    assert_eq!(enforce_hitl_policy(AnalysisResult::Pass, HitlMode::Require, 2), fail);
    assert_eq!(enforce_hitl_policy(AnalysisResult::Pass, HitlMode::Require, 0), AnalysisResult::Pass);
    assert_eq!(enforce_hitl_policy(AnalysisResult::Pass, HitlMode::Off, 2), AnalysisResult::Pass);
    let unknown = AnalysisResult::Unknown("x".to_string());
    assert_eq!(
        enforce_hitl_policy(AnalysisResult::Unknown("x".to_string()), HitlMode::Off, 7),
        unknown
    );
}

#[test]
fn identifiers_name_place_and_kind() {
    assert_eq!(vc_id("probe", 10, 3, "load"), "probe::bb10::i3::load");
    assert_eq!(vc_class_id("memcpy_source", 128), "class::memcpy_source::size128");
    assert_ne!(vc_id("f", 1, 23, "load"), vc_id("f", 12, 3, "load"));
}

#[test]
fn off_mode_blocks_nothing() {
    let mut gate = open_gate(HitlMode::Off, StringSet::new(), StringSet::new());
    assert!(gate.should_run_solver("a", "b"));
    assert!(gate.should_run_solver("a", "b"));
    assert_eq!(gate.seen.len(), 2);
    assert_eq!(count_distinct(&gate.seen), 1);
    assert!(gate.blocked.is_empty());
}

#[test]
fn report_lists_sorted_distinct_records() {
    let mut approved = StringSet::new();
    approved.insert("b".to_string());
    let mut gate = open_gate(HitlMode::Require, approved, StringSet::new());
    gate.should_run_solver("z", "class::q\"");
    gate.should_run_solver("b", "k");
    gate.should_run_solver("B", "k");
    gate.should_run_solver("z", "k");
    assert_eq!(
        emit_hitl_vcs(&gate),
        "{\"hitl_mode\":\"require\",\"seen_count\":3,\"blocked_count\":2,\"seen_class_count\":2,\"blocked_class_count\":2,\"seen_vcs\":[\"B\",\"b\",\"z\"],\"blocked_vcs\":[\"B\",\"z\"],\"seen_classes\":[\"class::q\\\"\",\"k\"],\"blocked_classes\":[\"class::q\\\"\",\"k\"]}\n"
    );
}

#[test]
fn summary_groups_conditions_by_class() {
    let mut gate = open_gate(HitlMode::Off, StringSet::new(), StringSet::new());
    assert_eq!(equiv_summary(&gate), "{\"class_count\":0,\"classes\":[]}\n");
    gate.should_run_solver("z", "class::store");
    gate.should_run_solver("b", "class::load");
    gate.should_run_solver("a\t", "class::load");
    gate.should_run_solver("b", "class::load");
    gate.should_run_solver("b", "class::store");
    assert_eq!(
        equiv_summary(&gate),
        "{\"class_count\":2,\"classes\":[{\"class\":\"class::load\",\"count\":2,\"vcs\":[\"a\\u0009\",\"b\"]},{\"class\":\"class::store\",\"count\":2,\"vcs\":[\"b\",\"z\"]}]}\n"
    );
}

#[test]
fn identifiers_differ_across_functions() {
    assert_ne!(vc_id("f", 1, 2, "load"), vc_id("g", 1, 2, "load"));
    assert_ne!(vc_id("f", 0, 0, "load"), vc_id("f::bb0::i0::load", 0, 0, "load"));
}

#[test]
fn off_mode_keeps_what_was_blocked() {
    let mut gate = gate(StringSet::new(), StringSet::new());
    gate.should_run_solver("a", "b");
    gate.mode = HitlMode::Off;
    assert!(gate.should_run_solver("c", "d"));
    assert_eq!(gate.blocked, vec!["a".to_string()]);
    assert_eq!(gate.blocked_classes, vec!["b".to_string()]);
}

#[test]
fn require_mode_needs_an_approval_source() {
    assert_eq!(
        plan_approvals(HitlMode::Require, false, false),
        Err("--hitl-mode require needs at least one approval source: --hitl-approvals or --hitl-class-approvals")
    );
    let plan = plan_approvals(HitlMode::Require, false, true).unwrap();
    assert!(!plan.vc_ids && plan.vc_classes);
    let plan = plan_approvals(HitlMode::Off, true, true).unwrap();
    assert!(plan.vc_ids && !plan.vc_classes);
    assert!(plan_approvals(HitlMode::Off, false, false).is_ok());
}

fn checked(alloc_size: u64, offset: &Term, len: u64) -> AccessCheckResult {
    let mut gate = open_gate(HitlMode::Off, StringSet::new(), StringSet::new());
    check_access(alloc_size, offset, len, "vc", "class", &mut gate)
}

#[test]
fn solver_decides_bounds() {
    assert_eq!(checked(16, &Term::from_u64(12), 4), AccessCheckResult::Safe);
    assert_eq!(checked(16, &Term::from_u64(13), 4), AccessCheckResult::Oob);
    assert_eq!(checked(0, &Term::from_u64(0), 0), AccessCheckResult::Safe);
    let before = Term::from_u64(3).minus(&Term::from_u64(4));
    assert_eq!(checked(16, &before, 1), AccessCheckResult::Oob);
    let back = before.plus(&Term::from_u64(1));
    assert_eq!(checked(16, &back, 16), AccessCheckResult::Safe);
    assert_eq!(checked(16, &back, 17), AccessCheckResult::Oob);
    let large = Term::from_u64(u64::MAX).plus(&Term::from_u64(u64::MAX));
    assert_eq!(checked(u64::MAX, &large, 1), AccessCheckResult::Oob);
}

#[test]
fn solver_is_not_asked_for_unapproved_conditions() {
    let mut gate = open_gate(HitlMode::Require, StringSet::new(), StringSet::new());
    let r = check_access(1, &Term::from_u64(5), 4, "vc", "class", &mut gate);
    assert_eq!(r, AccessCheckResult::HitlBlocked);
    assert_eq!(gate.blocked, vec!["vc".to_string()]);
}

#[test]
fn answers_map_to_results() {
    assert_eq!(access_result(SolverAnswer::Sat), AccessCheckResult::Oob);
    assert_eq!(access_result(SolverAnswer::Unsat), AccessCheckResult::Safe);
    assert_eq!(access_result(SolverAnswer::Unknown), AccessCheckResult::SolverUnknown);
    let (_ends_behind, _begins_before) = out_of_bounds_query(8, &Term::from_u64(4), 4);
}
