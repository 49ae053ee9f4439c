//! What verdicts, reports and plans hold.
use crate::hitl::{
    class_group, class_vcs, enforced, gate_members, members_of, paired, summary_members, GateState,
};
use crate::json::{text_list, Json};
use crate::modes::{HitlMode, ProofFormat, RingMode, RuntimeFallbackPolicy};
use crate::order::law_sorted_distinct;
use crate::reading::law_group_lists_its_class;
use crate::reading::texts::law_lines;
use crate::report::{
    all_required, check_json, check_line, choice, doctor_members, plan, summary, template_members,
    template_text, trace, Check, MenuChoice,
};
use crate::text::{decimal, lines, lowercase, precedes, sorted_distinct, trimmed};
use crate::verdict::{Finding, Verdict};
use vstd::prelude::*;

verus! {

// ---- verdicts ----

/// Every field of a verdict stands in it under its own name.
pub proof fn law_verdict_holds_its_fields(v: Verdict)
    ensures
        v.members().len() == 14,
        v.members().contains(("status"@, Json::Text(v.status@))),
        v.members().contains(("code"@, Json::Number(v.code as int))),
        v.members().contains(("message"@, Json::Text(v.message@))),
        v.members().contains(
            (
                "key_fingerprint"@,
                match v.key_fingerprint {
                    Some(text) => Json::Text(text@),
                    None => Json::Null,
                },
            ),
        ),
        v.members().contains(
            (
                "token_sha256"@,
                match v.token_sha256 {
                    Some(text) => Json::Text(text@),
                    None => Json::Null,
                },
            ),
        ),
        v.members().contains(("runtime_fallback"@, Json::Text(v.runtime_fallback@))),
        v.members().contains(("hitl_mode"@, Json::Text(v.hitl_mode@))),
        v.members().contains(("hitl_seen_vcs"@, Json::Number(v.hitl_seen_vcs as int))),
        v.members().contains(("hitl_blocked_vcs"@, Json::Number(v.hitl_blocked_vcs as int))),
        v.members().contains(("hitl_seen_classes"@, Json::Number(v.hitl_seen_classes as int))),
        v.members().contains(
            ("hitl_blocked_classes"@, Json::Number(v.hitl_blocked_classes as int)),
        ),
        v.members().contains(("inline_asm_vcs"@, Json::Number(v.inline_asm_vcs as int))),
        v.members().contains(("dma_vcs"@, Json::Number(v.dma_vcs as int))),
        v.members().contains(("irq_race_vcs"@, Json::Number(v.irq_race_vcs as int))),
{
    let m = v.members();
    assert(m[0] == ("status"@, Json::Text(v.status@)));
    assert(m[1] == ("code"@, Json::Number(v.code as int)));
    assert(m[2] == ("message"@, Json::Text(v.message@)));
    assert(m[3].0 == "key_fingerprint"@);
    assert(m[4].0 == "token_sha256"@);
    assert(m[5] == ("runtime_fallback"@, Json::Text(v.runtime_fallback@)));
    assert(m[6] == ("hitl_mode"@, Json::Text(v.hitl_mode@)));
    assert(m[7] == ("hitl_seen_vcs"@, Json::Number(v.hitl_seen_vcs as int)));
    assert(m[8] == ("hitl_blocked_vcs"@, Json::Number(v.hitl_blocked_vcs as int)));
    assert(m[9] == ("hitl_seen_classes"@, Json::Number(v.hitl_seen_classes as int)));
    assert(m[10] == ("hitl_blocked_classes"@, Json::Number(v.hitl_blocked_classes as int)));
    assert(m[11] == ("inline_asm_vcs"@, Json::Number(v.inline_asm_vcs as int)));
    assert(m[12] == ("dma_vcs"@, Json::Number(v.dma_vcs as int)));
    assert(m[13] == ("irq_race_vcs"@, Json::Number(v.irq_race_vcs as int)));
}

/// The words and the message of a finding.
pub proof fn law_finding_in_words(finding: Finding)
    ensures
        match finding {
            Finding::Pass => finding.status() == "pass"@,
            Finding::Fail(message) => finding.status() == "fail"@ && finding.message() == message,
            Finding::Unknown(reason) => finding.status() == "unknown"@ && finding.message()
                == reason,
        },
{
}

/// In require mode any blocked VC makes the result fail, with their number; in
/// every other case the result stands.
pub proof fn law_blocked_conditions_fail(result: Finding, mode: HitlMode, blocked: nat)
    ensures
        mode == HitlMode::Require && blocked > 0 ==> enforced(result, mode, blocked)
            == Finding::Fail(
            "HITL require mode rejected "@ + decimal(blocked)
                + " unapproved verification condition(s)"@,
        ),
        mode == HitlMode::Off || blocked == 0 ==> enforced(result, mode, blocked) == result,
{
}

proof fn lemma_one_line(s: Seq<char>, rest: Seq<char>)
    requires
        !s.contains('\n'),
    ensures
        lines(s + seq!['\n'] + rest) == seq![s] + lines(rest),
{
    law_lines(s, rest);
}

proof fn lemma_empty_end()
    ensures
        lines(Seq::<char>::empty()) == seq![Seq::<char>::empty()],
{
    law_lines(Seq::empty(), Seq::empty());
}

/// No newline is in the text.
pub open spec fn one_line(s: Seq<char>) -> bool {
    !s.contains('\n')
}

proof fn lemma_joined_line(a: Seq<char>, b: Seq<char>)
    requires
        one_line(a),
        one_line(b),
    ensures
        one_line(a + b),
{
    if (a + b).contains('\n') {
        let k = choose|k: int| 0 <= k < (a + b).len() && (a + b)[k] == '\n';
        if k < a.len() {
            assert(a[k] == '\n');
        } else {
            assert(b[k - a.len()] == '\n');
        }
    }
}

/// The first line of a summary is the message behind the status.
pub proof fn law_summary_begins_with_the_message(v: Verdict)
    requires
        one_line(v.message@),
    ensures
        ({
            let first = lines(summary(v))[0];
            &&& v.status@ == "pass"@ ==> first == "[PASS] "@ + v.message@
            &&& v.status@ == "fail"@ ==> first == "[FAIL] "@ + v.message@
            &&& v.status@ == "unknown"@ ==> first == "[UNKNOWN] "@ + v.message@
        }),
{
    reveal_strlit("pass");
    reveal_strlit("fail");
    reveal_strlit("unknown");
    reveal_strlit("[PASS] ");
    reveal_strlit("[FAIL] ");
    reveal_strlit("[UNKNOWN] ");
    reveal_strlit("\n[INFO] runtime fallback policy: ");
    assert("pass"@.len() == 4 && "fail"@.len() == 4 && "unknown"@.len() == 7);
    assert("pass"@[0] != "fail"@[0]);
    let mark = if v.status@ == "pass"@ {
        "[PASS] "@
    } else if v.status@ == "fail"@ {
        "[FAIL] "@
    } else {
        "[UNKNOWN] "@
    };
    assert(one_line(mark));
    let first = mark + v.message@;
    lemma_joined_line(mark, v.message@);
    let all = summary(v);
    let n = first.len() as int;
    assert(all[n] == '\n');
    assert(all.take(n) =~= first);
    assert(all =~= first + seq!['\n'] + all.skip(n + 1));
    lemma_one_line(first, all.skip(n + 1));
}

/// The last line of a summary gives the mode and the four counts.
pub proof fn law_summary_counts(v: Verdict)
    ensures
        ({
            let last = "\n[INFO] HITL mode: "@ + v.hitl_mode@ + " (seen_vcs="@ + decimal(
                v.hitl_seen_vcs as nat,
            ) + ", blocked_vcs="@ + decimal(v.hitl_blocked_vcs as nat) + ", seen_classes="@
                + decimal(v.hitl_seen_classes as nat) + ", blocked_classes="@ + decimal(
                v.hitl_blocked_classes as nat,
            ) + ")\n"@;
            let middle = "\n[INFO] runtime fallback policy: "@ + v.runtime_fallback@;
            &&& last.len() + middle.len() <= summary(v).len()
            &&& summary(v).skip(summary(v).len() - last.len()) == last
            &&& summary(v).subrange(
                summary(v).len() - last.len() - middle.len(),
                summary(v).len() - last.len(),
            ) == middle
        }),
{
    let mark = if v.status@ == "pass"@ {
        "[PASS] "@
    } else if v.status@ == "fail"@ {
        "[FAIL] "@
    } else {
        "[UNKNOWN] "@
    };
    let last = "\n[INFO] HITL mode: "@ + v.hitl_mode@ + " (seen_vcs="@ + decimal(
        v.hitl_seen_vcs as nat,
    ) + ", blocked_vcs="@ + decimal(v.hitl_blocked_vcs as nat) + ", seen_classes="@ + decimal(
        v.hitl_seen_classes as nat,
    ) + ", blocked_classes="@ + decimal(v.hitl_blocked_classes as nat) + ")\n"@;
    let middle = "\n[INFO] runtime fallback policy: "@ + v.runtime_fallback@;
    let head = mark + v.message@;
    assert(summary(v) =~= head + middle + last);
    assert((head + middle + last).skip((head + middle).len() as int) =~= last);
    assert((head + middle + last).subrange(head.len() as int, (head + middle).len() as int)
        =~= middle);
}

/// A proof trace has a line for the format, one for the status and one for the
/// architecture.
pub proof fn law_trace_lines(format: ProofFormat, status: Seq<char>, arch: Seq<char>)
    requires
        one_line(status),
        one_line(arch),
    ensures
        ({
            let all = lines(trace(format, status, arch));
            let name = match format {
                ProofFormat::Lfsc => "lfsc"@,
                ProofFormat::Rup => "rup"@,
            };
            &&& all.len() == 5
            &&& all[0] == ";; Sentinel-KV Z3 Proof Trace (Format: "@ + name + ")"@
            &&& all[1] == ";; Verdict Status: "@ + status
            &&& all[2] == ";; Target Arch: "@ + arch
            &&& all[3] == "(proof-trace-placeholder)"@
            &&& all[4].len() == 0
        }),
{
    reveal_strlit("lfsc");
    reveal_strlit("rup");
    reveal_strlit(";; Sentinel-KV Z3 Proof Trace (Format: ");
    reveal_strlit(")");
    reveal_strlit(")\n;; Verdict Status: ");
    reveal_strlit(";; Verdict Status: ");
    reveal_strlit("\n;; Target Arch: ");
    reveal_strlit(";; Target Arch: ");
    reveal_strlit("\n(proof-trace-placeholder)\n");
    reveal_strlit("(proof-trace-placeholder)");
    let name = format.spec_label();
    let a = ";; Sentinel-KV Z3 Proof Trace (Format: "@ + name + ")"@;
    let b = ";; Verdict Status: "@ + status;
    let c = ";; Target Arch: "@ + arch;
    let d = "(proof-trace-placeholder)"@;
    let none = Seq::<char>::empty();
    assert(one_line(";; Sentinel-KV Z3 Proof Trace (Format: "@) && one_line(name) && one_line(")"@)
        && one_line(";; Verdict Status: "@) && one_line(";; Target Arch: "@) && one_line(d));
    lemma_joined_line(";; Sentinel-KV Z3 Proof Trace (Format: "@, name);
    lemma_joined_line(";; Sentinel-KV Z3 Proof Trace (Format: "@ + name, ")"@);
    lemma_joined_line(";; Verdict Status: "@, status);
    lemma_joined_line(";; Target Arch: "@, arch);
    let nl = seq!['\n'];
    assert(")\n;; Verdict Status: "@ =~= ")"@ + nl + ";; Verdict Status: "@);
    assert("\n;; Target Arch: "@ =~= nl + ";; Target Arch: "@);
    assert("\n(proof-trace-placeholder)\n"@ =~= nl + d + nl);
    let all = trace(format, status, arch);
    assert(all =~= a + nl + (b + nl + (c + nl + (d + nl + none))));
    lemma_one_line(a, b + nl + (c + nl + (d + nl + none)));
    lemma_one_line(b, c + nl + (d + nl + none));
    lemma_one_line(c, d + nl + none);
    lemma_one_line(d, none);
    lemma_empty_end();
}

// ---- records ----

/// The JSON value lists the distinct texts of `s`, sorted.
pub open spec fn lists_exactly(value: Json, s: Seq<Seq<char>>) -> bool {
    &&& value is List
    &&& value->List_0.len() == s.to_set().len()
    &&& forall|k: int| 0 <= k < value->List_0.len() ==> (#[trigger] value->List_0[k]) is Text
    &&& forall|x: Seq<char>| #[trigger]
        s.contains(x) <==> value->List_0.contains(Json::Text(x))
    &&& forall|i: int, j: int|
        0 <= i < j < value->List_0.len() ==> precedes(
            (#[trigger] value->List_0[i])->Text_0,
            (#[trigger] value->List_0[j])->Text_0,
        )
}

proof fn lemma_lists_exactly(s: Seq<Seq<char>>)
    ensures
        lists_exactly(text_list(sorted_distinct(s)), s),
        sorted_distinct(s).len() == s.to_set().len(),
{
    law_sorted_distinct(s);
    let sorted = sorted_distinct(s);
    let list = text_list(sorted)->List_0;
    sorted.unique_seq_to_set();
    assert(list.len() == sorted.len());
    assert(forall|k: int| 0 <= k < sorted.len() ==> #[trigger] list[k] == Json::Text(sorted[k]));
    assert forall|x: Seq<char>| #[trigger] s.contains(x) <==> list.contains(Json::Text(x)) by {
        assert(s.to_set().contains(x) == sorted.to_set().contains(x));
        if s.contains(x) {
            assert(sorted.contains(x));
            let k = choose|k: int| 0 <= k < sorted.len() && sorted[k] == x;
            assert(list[k] == Json::Text(x));
        }
        if list.contains(Json::Text(x)) {
            let k = choose|k: int| 0 <= k < list.len() && list[k] == Json::Text(x);
            assert(list[k] == Json::Text(sorted[k]));
            assert(sorted.to_set().contains(sorted[k]));
        }
    }
    assert forall|i: int, j: int| 0 <= i < j < list.len() implies precedes(
        (#[trigger] list[i])->Text_0,
        (#[trigger] list[j])->Text_0,
    ) by {
        assert(precedes(sorted[i], sorted[j]));
    }
}

/// A report lists the distinct VCs and classes that were seen and blocked, each list
/// under its name, and counts each.
pub proof fn law_report_lists_the_records(gate: GateState)
    ensures
        ({
            let m = gate_members(gate);
            &&& m.len() == 9
            &&& m[0] == (
                "hitl_mode"@,
                Json::Text(
                    match gate.mode {
                        HitlMode::Off => "off"@,
                        HitlMode::Require => "require"@,
                    },
                ),
            )
            &&& m[1] == ("seen_count"@, Json::Number(gate.seen.to_set().len() as int))
            &&& m[2] == ("blocked_count"@, Json::Number(gate.blocked.to_set().len() as int))
            &&& m[3] == (
                "seen_class_count"@,
                Json::Number(gate.seen_classes.to_set().len() as int),
            )
            &&& m[4] == (
                "blocked_class_count"@,
                Json::Number(gate.blocked_classes.to_set().len() as int),
            )
            &&& m[5].0 == "seen_vcs"@ && lists_exactly(m[5].1, gate.seen)
            &&& m[6].0 == "blocked_vcs"@ && lists_exactly(m[6].1, gate.blocked)
            &&& m[7].0 == "seen_classes"@ && lists_exactly(m[7].1, gate.seen_classes)
            &&& m[8].0 == "blocked_classes"@ && lists_exactly(m[8].1, gate.blocked_classes)
        }),
{
    lemma_lists_exactly(gate.seen);
    lemma_lists_exactly(gate.blocked);
    lemma_lists_exactly(gate.seen_classes);
    lemma_lists_exactly(gate.blocked_classes);
}

/// The group of a class names it, counts its distinct VCs and lists just those that
/// were seen in it.
pub proof fn law_group_of_a_class(gate: GateState, class: Seq<char>, vc: Seq<char>)
    ensures
        class_group(gate, class) is Object,
        ({
            let m = class_group(gate, class)->Object_0;
            &&& m.len() == 3
            &&& m[0] == ("class"@, Json::Text(class))
            &&& m[1].0 == "count"@ && m[2].0 == "vcs"@
            &&& m[2].1 is List
            &&& m[1].1 == Json::Number(m[2].1->List_0.len() as int)
            &&& m[2].1->List_0.no_duplicates()
            &&& m[2].1->List_0.contains(Json::Text(vc)) <==> exists|k: int|
                0 <= k < gate.seen.len() && k < gate.seen_classes.len() && gate.seen_classes[k]
                    == class && #[trigger] gate.seen[k] == vc
        }),
{
    let vcs = class_vcs(gate, class);
    let list = text_list(vcs)->List_0;
    let members = members_of(gate.seen, gate.seen_classes, class, paired(gate));
    law_sorted_distinct(members);
    law_group_lists_its_class(gate, class, vc);
    assert(forall|k: int| 0 <= k < vcs.len() ==> #[trigger] list[k] == Json::Text(vcs[k]));
    assert(list.contains(Json::Text(vc)) == vcs.contains(vc)) by {
        if vcs.contains(vc) {
            let k = choose|k: int| 0 <= k < vcs.len() && vcs[k] == vc;
            assert(list[k] == Json::Text(vc));
        }
        if list.contains(Json::Text(vc)) {
            let k = choose|k: int| 0 <= k < list.len() && list[k] == Json::Text(vc);
            assert(list[k] == Json::Text(vcs[k]));
        }
    }
}

/// A summary has one group for every class that was seen, in order.
pub proof fn law_summary_groups_every_class(gate: GateState)
    ensures
        ({
            let m = summary_members(gate);
            let n = gate.seen_classes.to_set().len();
            &&& m.len() == 2
            &&& m[0] == ("class_count"@, Json::Number(n as int))
            &&& m[1].0 == "classes"@ && m[1].1 is List
            &&& m[1].1->List_0.len() == n
            &&& forall|class: Seq<char>| #[trigger]
                gate.seen_classes.contains(class) ==> m[1].1->List_0.contains(
                    class_group(gate, class),
                )
        }),
{
    law_sorted_distinct(gate.seen_classes);
    let sorted = sorted_distinct(gate.seen_classes);
    sorted.unique_seq_to_set();
    let list = summary_members(gate)[1].1->List_0;
    assert forall|class: Seq<char>| #[trigger] gate.seen_classes.contains(class) implies list
        .contains(class_group(gate, class)) by {
        assert(gate.seen_classes.to_set().contains(class));
        assert(sorted.to_set().contains(class));
        let k = choose|k: int| 0 <= k < sorted.len() && sorted[k] == class;
        assert(list[k] == class_group(gate, class));
    }
}

// ---- plans and choices ----

/// The file of VC approvals is read where it is given; that of class approvals only
/// in require mode, which needs one of the two.
pub proof fn law_plan(mode: HitlMode, ids: bool, classes: bool)
    ensures
        plan(mode, ids, classes) is None <==> mode == HitlMode::Require && !ids && !classes,
        plan(mode, ids, classes) matches Some(p) ==> {
            &&& p.vc_ids <==> ids
            &&& p.vc_classes <==> classes && mode == HitlMode::Require
        },
{
}

/// A key makes its choice, whatever its case and the white space around it; any
/// other input makes none.
pub proof fn law_choice(input: Seq<char>)
    ensures
        ({
            let key = lowercase(trimmed(input));
            match choice(input) {
                MenuChoice::Doctor => key == "1"@ || key == "d"@,
                MenuChoice::FeaturesText => key == "2"@ || key == "f"@,
                MenuChoice::FeaturesJson => key == "3"@,
                MenuChoice::TokenTemplate(ring) => {
                    ||| key == "4"@ && ring == RingMode::RingM1
                    ||| (key == "5"@ || key == "j"@) && ring == RingMode::RingM2
                },
                MenuChoice::Exit => key == "0"@ || key == "q"@,
                MenuChoice::Invalid => {
                    &&& key != "0"@ && key != "1"@ && key != "2"@ && key != "3"@ && key != "4"@
                    &&& key != "5"@ && key != "d"@ && key != "f"@ && key != "j"@ && key != "q"@
                },
            }
        }),
{
    reveal_strlit("0");
    reveal_strlit("1");
    reveal_strlit("2");
    reveal_strlit("3");
    reveal_strlit("4");
    reveal_strlit("5");
    reveal_strlit("d");
    reveal_strlit("f");
    reveal_strlit("j");
    reveal_strlit("q");
}

/// A fallback that is named is taken on every machine; else the architecture
/// decides, and only two have one of their own.
pub proof fn law_fallback(policy: RuntimeFallbackPolicy, arch: Seq<char>, other: Seq<char>)
    ensures
        !(policy is Auto) ==> policy.spec_resolved(arch) == policy.spec_resolved(other),
        RuntimeFallbackPolicy::Auto.spec_resolved("aarch64"@)
            == RuntimeFallbackPolicy::ArmMte.spec_resolved(arch),
        RuntimeFallbackPolicy::Auto.spec_resolved("x86_64"@)
            == RuntimeFallbackPolicy::IntegriTag.spec_resolved(arch),
        arch != "aarch64"@ && arch != "x86_64"@ ==> RuntimeFallbackPolicy::Auto.spec_resolved(arch)
            == RuntimeFallbackPolicy::SoftwareTargeted.spec_resolved(other),
        RuntimeFallbackPolicy::ArmMte.spec_resolved(arch) == "arm-mte"@,
        RuntimeFallbackPolicy::IntegriTag.spec_resolved(arch) == "integritag"@,
        RuntimeFallbackPolicy::SoftwareTargeted.spec_resolved(arch) == "software-targeted"@,
{
    reveal_strlit("aarch64");
    reveal_strlit("x86_64");
    assert("aarch64"@.len() == 7 && "x86_64"@.len() == 6);
}

/// A token template carries the number of its ring; the root is attested on Ring -2
/// alone.
pub proof fn law_template(ring: RingMode)
    ensures
        ({
            let m = template_members(ring);
            let number: int = match ring {
                RingMode::Ring0 => 0,
                RingMode::RingM1 => -1,
                RingMode::RingM2 => -2,
            };
            &&& m.contains(("ring"@, Json::Number(number)))
            &&& m.contains(("attested"@, Json::Bool(true)))
            &&& m.contains(("timestamp"@, Json::Number(1700000000)))
            &&& m.contains(("nonce"@, Json::Text("<nonce>"@)))
            &&& m.contains(("counter"@, Json::Number(1)))
            &&& ring == RingMode::RingM2 ==> m.len() == 6 && m.contains(
                ("root_attested"@, Json::Bool(true)),
            )
            &&& ring != RingMode::RingM2 ==> m.len() == 5
            &&& template_text(ring) == (match ring {
                RingMode::Ring0 => "ring:0\nattested:true\n"@,
                RingMode::RingM1 => "ring:-1\nattested:true\n"@,
                RingMode::RingM2 => "ring:-2\nattested:true\nroot_attested:true\n"@,
            }) + "timestamp:1700000000\nnonce:<nonce>\ncounter:1\n"@
        }),
{
    let m = template_members(ring);
    assert(m[0].0 == "ring"@);
    assert(m[1] == ("attested"@, Json::Bool(true)));
    let n = m.len() as int;
    if ring == RingMode::RingM2 {
        assert(m[2] == ("root_attested"@, Json::Bool(true)));
    }
    assert(m[n - 3] == ("timestamp"@, Json::Number(1700000000)));
    assert(m[n - 2] == ("nonce"@, Json::Text("<nonce>"@)));
    assert(m[n - 1] == ("counter"@, Json::Number(1)));
    reveal_strlit("ring:");
    reveal_strlit("\nattested:true\n");
    reveal_strlit("\nattested:true\nroot_attested:true\n");
    reveal_strlit("ring:0\nattested:true\n");
    reveal_strlit("ring:-1\nattested:true\n");
    reveal_strlit("ring:-2\nattested:true\nroot_attested:true\n");
    assert(decimal(0) =~= seq!['0']);
    assert(decimal(1) =~= seq!['1']);
    assert(decimal(2) =~= seq!['2']);
    match ring {
        RingMode::Ring0 => {
            assert("ring:"@ + seq!['0'] + "\nattested:true\n"@ =~= "ring:0\nattested:true\n"@);
        },
        RingMode::RingM1 => {
            assert("ring:"@ + (seq!['-'] + seq!['1']) + "\nattested:true\n"@
                =~= "ring:-1\nattested:true\n"@);
        },
        RingMode::RingM2 => {
            assert("ring:"@ + (seq!['-'] + seq!['2']) + "\nattested:true\nroot_attested:true\n"@
                =~= "ring:-2\nattested:true\nroot_attested:true\n"@);
        },
    }
}

/// Diagnostics list every check as it is, and are fine if and only if no required
/// check is missed.
pub proof fn law_diagnostics(checks: Seq<Check>, k: int)
    requires
        0 <= k < checks.len(),
    ensures
        ({
            let m = doctor_members(checks);
            &&& m.len() == 2
            &&& m[0].0 == "doctor"@ && m[0].1 is List && m[0].1->List_0.len() == checks.len()
            &&& m[0].1->List_0[k] == Json::Object(
                seq![
                    ("check"@, Json::Text(checks[k].name@)),
                    ("ok"@, Json::Bool(checks[k].ok)),
                    ("required"@, Json::Bool(checks[k].required)),
                    ("detail"@, Json::Text(checks[k].detail@)),
                ],
            )
            &&& m[1].0 == "all_ok"@
            &&& m[1].1 == Json::Bool(all_required(checks))
            &&& checks[k].required && !checks[k].ok ==> !all_required(checks)
        }),
        (forall|j: int| 0 <= j < checks.len() ==> !(#[trigger] checks[j]).required || checks[j].ok)
            ==> all_required(checks),
{
    assert(doctor_members(checks)[0].1->List_0[k] == check_json(checks[k]));
}

/// The line of a check tells whether it is met and whether it must be.
pub proof fn law_check_line(check: Check)
    ensures
        check_line(check) == "- "@ + check.name@ + ": "@ + (if check.ok {
            "OK"@
        } else if check.required {
            "FAIL"@
        } else {
            "WARN"@
        }) + (if check.required {
            " [required] ("@
        } else {
            " [optional] ("@
        }) + check.detail@ + ")\n"@,
{
}

} // verus!
