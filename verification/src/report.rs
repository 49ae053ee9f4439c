//! What a run tells its user besides the verdict.
use crate::hitl::HitlGate;
use crate::json::{json_text, Json, ListWriter, ObjectWriter};
use crate::modes::{HitlMode, ProofFormat, RingMode};
use crate::sets::StringSet;
use crate::text::{
    decimal, decimal_of, lowercase, same_text, signed_decimal, signed_decimal_of, to_lowercase, trim,
    trimmed,
};
use crate::verdict::Verdict;
use vstd::prelude::*;

verus! {

// ---- verdicts ----

/// The verdict for readers, in three lines.
pub open spec fn summary(verdict: Verdict) -> Seq<char> {
    let mark = if verdict.status@ == "pass"@ {
        "[PASS] "@
    } else if verdict.status@ == "fail"@ {
        "[FAIL] "@
    } else {
        "[UNKNOWN] "@
    };
    mark + verdict.message@ + "\n[INFO] runtime fallback policy: "@ + verdict.runtime_fallback@
        + "\n[INFO] HITL mode: "@ + verdict.hitl_mode@ + " (seen_vcs="@ + decimal(
        verdict.hitl_seen_vcs as nat,
    ) + ", blocked_vcs="@ + decimal(verdict.hitl_blocked_vcs as nat) + ", seen_classes="@ + decimal(
        verdict.hitl_seen_classes as nat,
    ) + ", blocked_classes="@ + decimal(verdict.hitl_blocked_classes as nat) + ")\n"@
}

/// The verdict for readers.
pub fn verdict_summary(verdict: &Verdict) -> (r: String)
    ensures
        r@ == summary(*verdict),
{
    let mut r: String = if same_text(verdict.status, "pass") {
        "[PASS] ".to_owned()
    } else if same_text(verdict.status, "fail") {
        "[FAIL] ".to_owned()
    } else {
        "[UNKNOWN] ".to_owned()
    };
    r.append(verdict.message.as_str());
    r.append("\n[INFO] runtime fallback policy: ");
    r.append(verdict.runtime_fallback.as_str());
    r.append("\n[INFO] HITL mode: ");
    r.append(verdict.hitl_mode.as_str());
    r.append(" (seen_vcs=");
    r.append(decimal_of(verdict.hitl_seen_vcs as u64).as_str());
    r.append(", blocked_vcs=");
    r.append(decimal_of(verdict.hitl_blocked_vcs as u64).as_str());
    r.append(", seen_classes=");
    r.append(decimal_of(verdict.hitl_seen_classes as u64).as_str());
    r.append(", blocked_classes=");
    r.append(decimal_of(verdict.hitl_blocked_classes as u64).as_str());
    r.append(")\n");
    r
}

/// The proof trace of a verdict.
pub open spec fn trace(format: ProofFormat, status: Seq<char>, arch: Seq<char>) -> Seq<char> {
    ";; Sentinel-KV Z3 Proof Trace (Format: "@ + format.spec_label() + ")\n;; Verdict Status: "@
        + status + "\n;; Target Arch: "@ + arch + "\n(proof-trace-placeholder)\n"@
}

/// The proof trace of a verdict on a target architecture.
pub fn proof_trace(format: ProofFormat, status: &str, arch: &str) -> (r: String)
    ensures
        r@ == trace(format, status@, arch@),
{
    let mut r: String = ";; Sentinel-KV Z3 Proof Trace (Format: ".to_owned();
    r.append(format.label());
    r.append(")\n;; Verdict Status: ");
    r.append(status);
    r.append("\n;; Target Arch: ");
    r.append(arch);
    r.append("\n(proof-trace-placeholder)\n");
    r
}

// ---- approvals ----

/// Which approval files a run reads.
#[derive(Copy, Clone, Debug, PartialEq, Eq, Structural)]
pub struct ApprovalPlan {
    pub vc_ids: bool,
    pub vc_classes: bool,
}

/// The approval files that are read in a mode, of those that are given. Require
/// mode needs one; class approvals count in require mode alone.
pub open spec fn plan(mode: HitlMode, ids_given: bool, classes_given: bool) -> Option<ApprovalPlan> {
    if mode is Require && !ids_given && !classes_given {
        None
    } else {
        Some(ApprovalPlan { vc_ids: ids_given, vc_classes: mode is Require && classes_given })
    }
}

/// Tells which approval files to read, or what is missing.
pub fn plan_approvals(mode: HitlMode, ids_given: bool, classes_given: bool) -> (r: Result<
    ApprovalPlan,
    &'static str,
>)
    ensures
        match (r, plan(mode, ids_given, classes_given)) {
            (Ok(p), Some(expected)) => p == expected,
            (Err(message), None) => message@
                == "--hitl-mode require needs at least one approval source: --hitl-approvals or --hitl-class-approvals"@,
            _ => false,
        },
{
    let required: bool = matches!(mode, HitlMode::Require);
    if required && !ids_given && !classes_given {
        return Err(
            "--hitl-mode require needs at least one approval source: --hitl-approvals or --hitl-class-approvals",
        );
    }
    Ok(ApprovalPlan { vc_ids: ids_given, vc_classes: required && classes_given })
}

/// A gate with the given approvals and no records.
pub fn open_gate(mode: HitlMode, approved: StringSet, approved_classes: StringSet) -> (r: HitlGate)
    ensures
        r@.mode == mode,
        r@.approved == approved@,
        r@.approved_classes == approved_classes@,
        r@.seen.len() == 0,
        r@.blocked.len() == 0,
        r@.seen_classes.len() == 0,
        r@.blocked_classes.len() == 0,
        r@.orderly(),
{
    HitlGate {
        mode,
        approved,
        approved_classes,
        seen: Vec::new(),
        blocked: Vec::new(),
        seen_classes: Vec::new(),
        blocked_classes: Vec::new(),
    }
}

// ---- attestation tokens ----

/// The ring in a token for a mode.
pub open spec fn template_ring(ring: RingMode) -> int {
    match ring.spec_token_ring() {
        Some(n) => n as int,
        None => 0,
    }
}

/// A token template as text lines.
pub open spec fn template_text(ring: RingMode) -> Seq<char> {
    let root = if ring is RingM2 {
        "\nattested:true\nroot_attested:true\n"@
    } else {
        "\nattested:true\n"@
    };
    "ring:"@ + signed_decimal(template_ring(ring)) + root
        + "timestamp:1700000000\nnonce:<nonce>\ncounter:1\n"@
}

/// The members of a token template.
pub open spec fn template_members(ring: RingMode) -> Seq<(Seq<char>, Json)> {
    let head = seq![
        ("ring"@, Json::Number(template_ring(ring))),
        ("attested"@, Json::Bool(true)),
    ];
    let root = if ring is RingM2 {
        head.push(("root_attested"@, Json::Bool(true)))
    } else {
        head
    };
    root.push(("timestamp"@, Json::Number(1700000000))).push(
        ("nonce"@, Json::Text("<nonce>"@)),
    ).push(("counter"@, Json::Number(1)))
}

/// A token template as one JSON object on a line.
pub open spec fn template_json(ring: RingMode) -> Seq<char> {
    json_text(Json::Object(template_members(ring))) + "\n"@
}

/// A token template for a ring.
pub fn token_template(ring: RingMode, json: bool) -> (r: String)
    ensures
        r@ == if json {
            template_json(ring)
        } else {
            template_text(ring)
        },
{
    let number: i32 = match ring.token_ring() {
        Some(n) => n,
        None => 0,
    };
    let root: bool = matches!(ring, RingMode::RingM2);
    if json {
        let mut w: ObjectWriter = ObjectWriter::new();
        w.put(
            "ring",
            signed_decimal_of(number).as_str(),
            Ghost(Json::Number(number as int)),
        );
        w.put_bool("attested", true);
        if root {
            w.put_bool("root_attested", true);
        }
        w.put_number("timestamp", 1700000000);
        w.put_text("nonce", "<nonce>");
        w.put_number("counter", 1);
        assert(w.members() =~= template_members(ring));
        let mut r: String = w.finish();
        r.append("\n");
        return r;
    }
    let mut r: String = "ring:".to_owned();
    r.append(signed_decimal_of(number).as_str());
    if root {
        r.append("\nattested:true\nroot_attested:true\n");
    } else {
        r.append("\nattested:true\n");
    }
    r.append("timestamp:1700000000\nnonce:<nonce>\ncounter:1\n");
    r
}

// ---- diagnostics ----

/// One diagnostic check.
pub struct Check {
    pub name: &'static str,
    pub ok: bool,
    pub required: bool,
    pub detail: &'static str,
}

/// The checks of an installation.
pub fn doctor_checks(linux: bool, zig: bool) -> (r: Vec<Check>)
    ensures
        r@.len() == 3,
        r@[0].name@ == "os_supported"@ && r@[0].ok == linux && r@[0].required && r@[0].detail@
            == "linux"@,
        r@[1].name@ == "ffi_symbol_linked"@ && r@[1].ok && r@[1].required && r@[1].detail@
            == "attestation bridge linked"@,
        r@[2].name@ == "zig_available"@ && r@[2].ok == zig && !r@[2].required && r@[2].detail@ == (
        if zig {
            "yes"@
        } else {
            "no"@
        }),
{
    let mut r: Vec<Check> = Vec::new();
    r.push(Check { name: "os_supported", ok: linux, required: true, detail: "linux" });
    r.push(
        Check {
            name: "ffi_symbol_linked",
            ok: true,
            required: true,
            detail: "attestation bridge linked",
        },
    );
    let detail: &'static str = if zig {
        "yes"
    } else {
        "no"
    };
    r.push(Check { name: "zig_available", ok: zig, required: false, detail });
    r
}

/// All required checks are met.
pub open spec fn all_required(checks: Seq<Check>) -> bool {
    forall|k: int| 0 <= k < checks.len() && (#[trigger] checks[k]).required ==> checks[k].ok
}

/// Tells whether all required checks are met.
pub fn required_checks_ok(checks: &Vec<Check>) -> (r: bool)
    ensures
        r == all_required(checks@),
{
    let mut i: usize = 0;
    while i < checks.len()
        invariant
            i <= checks.len(),
            forall|k: int| 0 <= k < i && (#[trigger] checks@[k]).required ==> checks@[k].ok,
        decreases checks.len() - i,
    {
        if checks[i].required && !checks[i].ok {
            assert(!all_required(checks@));
            return false;
        }
        i = i + 1;
    }
    true
}

/// The members of a check.
pub open spec fn check_json(check: Check) -> Json {
    Json::Object(
        seq![
            ("check"@, Json::Text(check.name@)),
            ("ok"@, Json::Bool(check.ok)),
            ("required"@, Json::Bool(check.required)),
            ("detail"@, Json::Text(check.detail@)),
        ],
    )
}

fn write_check(check: &Check) -> (r: String)
    ensures
        r@ == json_text(check_json(*check)),
{
    let mut w: ObjectWriter = ObjectWriter::new();
    w.put_text("check", check.name);
    w.put_bool("ok", check.ok);
    w.put_bool("required", check.required);
    w.put_text("detail", check.detail);
    assert(w.members() =~= seq![
        ("check"@, Json::Text(check.name@)),
        ("ok"@, Json::Bool(check.ok)),
        ("required"@, Json::Bool(check.required)),
        ("detail"@, Json::Text(check.detail@)),
    ]);
    w.finish()
}

/// The members of the diagnostics.
pub open spec fn doctor_members(checks: Seq<Check>) -> Seq<(Seq<char>, Json)> {
    seq![
        ("doctor"@, Json::List(checks.map_values(|c: Check| check_json(c)))),
        ("all_ok"@, Json::Bool(all_required(checks))),
    ]
}

/// The diagnostics as one JSON object on a line.
pub fn doctor_json(checks: &Vec<Check>) -> (r: String)
    ensures
        r@ == json_text(Json::Object(doctor_members(checks@))) + "\n"@,
{
    let mut list: ListWriter = ListWriter::new();
    let mut i: usize = 0;
    while i < checks.len()
        invariant
            i <= checks.len(),
            list.valid(),
            list.items().len() == i,
            forall|k: int| 0 <= k < i ==> #[trigger] list.items()[k] == check_json(checks@[k]),
        decreases checks.len() - i,
    {
        list.put(write_check(&checks[i]).as_str(), Ghost(check_json(checks@[i as int])));
        i = i + 1;
    }
    assert(list.items() =~= checks@.map_values(|c: Check| check_json(c)));
    let ghost items = Json::List(list.items());
    let text: String = list.finish();
    let mut w: ObjectWriter = ObjectWriter::new();
    w.put("doctor", text.as_str(), Ghost(items));
    w.put_bool("all_ok", required_checks_ok(checks));
    assert(w.members() =~= doctor_members(checks@));
    let mut r: String = w.finish();
    r.append("\n");
    r
}

/// A check as a line.
pub open spec fn check_line(check: Check) -> Seq<char> {
    let state = if check.ok {
        "OK"@
    } else if check.required {
        "FAIL"@
    } else {
        "WARN"@
    };
    let need = if check.required {
        " [required] ("@
    } else {
        " [optional] ("@
    };
    "- "@ + check.name@ + ": "@ + state + need + check.detail@ + ")\n"@
}

/// Checks as lines.
pub open spec fn check_lines(checks: Seq<Check>) -> Seq<char>
    decreases checks.len(),
{
    if checks.len() == 0 {
        "SKV Analyzer Doctor\n"@
    } else {
        check_lines(checks.drop_last()) + check_line(checks.last())
    }
}

fn write_line(check: &Check) -> (r: String)
    ensures
        r@ == check_line(*check),
{
    let mut r: String = "- ".to_owned();
    r.append(check.name);
    r.append(": ");
    if check.ok {
        r.append("OK");
    } else if check.required {
        r.append("FAIL");
    } else {
        r.append("WARN");
    }
    if check.required {
        r.append(" [required] (");
    } else {
        r.append(" [optional] (");
    }
    r.append(check.detail);
    r.append(")\n");
    r
}

/// The diagnostics for readers.
pub fn doctor_text(checks: &Vec<Check>) -> (r: String)
    ensures
        r@ == check_lines(checks@) + (if all_required(checks@) {
            "overall: OK\n"@
        } else {
            "overall: FAIL\n"@
        }),
{
    let mut r: String = "SKV Analyzer Doctor\n".to_owned();
    let mut i: usize = 0;
    assert(r@ =~= check_lines(checks@.take(0)));
    while i < checks.len()
        invariant
            i <= checks.len(),
            r@ == check_lines(checks@.take(i as int)),
        decreases checks.len() - i,
    {
        assert(checks@.take(i + 1).drop_last() =~= checks@.take(i as int));
        r.append(write_line(&checks[i]).as_str());
        i = i + 1;
    }
    assert(checks@.take(i as int) =~= checks@);
    if required_checks_ok(checks) {
        r.append("overall: OK\n");
    } else {
        r.append("overall: FAIL\n");
    }
    r
}

/// The exit code of the diagnostics.
pub fn doctor_code(ok: bool) -> (code: u8)
    ensures
        code == (if ok {
            0u8
        } else {
            12u8
        }),
{
    if ok {
        0
    } else {
        12
    }
}

// ---- the terminal menu ----

/// A choice in the terminal menu.
#[derive(Copy, Clone, Debug, PartialEq, Eq, Structural)]
pub enum MenuChoice {
    Doctor,
    FeaturesText,
    FeaturesJson,
    TokenTemplate(RingMode),
    Exit,
    Invalid,
}

/// The choice that a line of input makes, whatever its case and the white space
/// around it.
pub open spec fn choice(input: Seq<char>) -> MenuChoice {
    let key = lowercase(trimmed(input));
    if key == "1"@ || key == "d"@ {
        MenuChoice::Doctor
    } else if key == "2"@ || key == "f"@ {
        MenuChoice::FeaturesText
    } else if key == "3"@ {
        MenuChoice::FeaturesJson
    } else if key == "4"@ {
        MenuChoice::TokenTemplate(RingMode::RingM1)
    } else if key == "5"@ || key == "j"@ {
        MenuChoice::TokenTemplate(RingMode::RingM2)
    } else if key == "0"@ || key == "q"@ {
        MenuChoice::Exit
    } else {
        MenuChoice::Invalid
    }
}

/// The choice that a line of input makes.
pub fn menu_choice(input: &str) -> (r: MenuChoice)
    ensures
        r == choice(input@),
{
    let key: String = to_lowercase(trim(input));
    let k: &str = key.as_str();
    if same_text(k, "1") || same_text(k, "d") {
        MenuChoice::Doctor
    } else if same_text(k, "2") || same_text(k, "f") {
        MenuChoice::FeaturesText
    } else if same_text(k, "3") {
        MenuChoice::FeaturesJson
    } else if same_text(k, "4") {
        MenuChoice::TokenTemplate(RingMode::RingM1)
    } else if same_text(k, "5") || same_text(k, "j") {
        MenuChoice::TokenTemplate(RingMode::RingM2)
    } else if same_text(k, "0") || same_text(k, "q") {
        MenuChoice::Exit
    } else {
        MenuChoice::Invalid
    }
}

} // verus!
