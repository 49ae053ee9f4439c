//! The feature inventory.
use crate::json::{json_text, text_list, write_text_list, Json, ObjectWriter};
use crate::text::texts;
use vstd::prelude::*;

verus! {

/// The features in the machine-readable inventory.
pub open spec fn features() -> Seq<Seq<char>> {
    seq![
        "Core LLVM/Z3 memory safety analysis"@,
        "kmalloc/kzalloc/kcalloc allocation tracking"@,
        "Bounds checks for load/store/memcpy/memset"@,
        "Use-after-free and double-free detection via kfree tracking"@,
        "Pointer provenance through GEP, bitcast, ptrtoint/inttoptr, add/sub"@,
        "Conservative UNKNOWN semantics for unsupported patterns"@,
        "Ring policy: ring0/ring-1/ring-2"@,
        "Ring-2 independent root trust requirements"@,
        "Attestation fields: ring, attested, timestamp, nonce, counter"@,
        "Ring-2 token requirement: root_attested:true"@,
        "Freshness max-age enforcement"@,
        "Nonce challenge binding"@,
        "Replay protection with monotonic counter state"@,
        "Atomic replay-state locking + fsync"@,
        "Secure file checks: regular, owner UID, safe permissions"@,
        "Detached Ed25519 signature verification"@,
        "Pinned SHA-256 key fingerprint checks"@,
        "Ring-2 independent root signature + key pinning"@,
        "Machine-readable verdict JSON (--json)"@,
        "Verdict file output (--verdict-out)"@,
        "Stable exit codes: 0/10/20/1"@,
        "Panic-safe LLVM parse rejection"@,
        "HITL gate: --hitl-mode off|require"@,
        "HITL approvals file: --hitl-approvals"@,
        "HITL class approvals: --hitl-class-approvals"@,
        "HITL require mode requires VC or class approvals"@,
        "VC emission for human review: --emit-vcs"@,
        "HITL require mode fail-closed on blocked VCs"@,
        "Runtime fallback policy: --runtime-fallback auto|arm-mte|integritag|software-targeted"@,
        "IntegriTag Intel TME-MK hardware support"@,
        "Proof-Carrying Code emission: --emit-proof <path>"@,
        "Supported PCC formats: LFSC and RUP"@,
        "Secure output writing: 0600 + sync_all + owner/mode checks"@,
        "Backends: C default, Zig optional, C fallback"@,
        "Inline asm detection: --inline-asm-policy conservative|trap"@,
        "Opaque inline asm VC emission with HITL gate integration"@,
        "DMA allocation tracking: dma_alloc_coherent/dma_map_single"@,
        "DMA bounds verification: --dma-policy verify|require-iommu|ignore"@,
        "Interrupt sequentialization via request_irq pre-scan"@,
        "IRQ race VC emission for handler-induced frees"@,
        "VC equivalence class grouping: --emit-equiv-summary"@,
        "Structural VC class approval to prevent approver fatigue"@,
        "Stack-spill pointer tracking through alloca/store/load chains"@,
    ]
}

/// The lines of the inventory for readers.
pub open spec fn inventory() -> Seq<Seq<char>> {
    seq![
        "SKV Analyzer - Full Feature Inventory"@,
        ""@,
        "1) Core LLVM/Z3 memory safety analysis"@,
        "- kmalloc/kzalloc/kcalloc allocation tracking"@,
        "- Bounds checks for load/store/memcpy/memset"@,
        "- Use-after-free and double-free detection via kfree tracking"@,
        "- Pointer provenance through GEP, bitcast, ptrtoint/inttoptr, add/sub"@,
        "- Conservative UNKNOWN semantics for unsupported patterns"@,
        ""@,
        "2) Ring policy enforcement"@,
        "- ring0: standard analysis verdict flow"@,
        "- ring-1: strict mode (UNKNOWN promoted to FAIL)"@,
        "- ring-2: strict mode + independent root trust requirements"@,
        ""@,
        "3) Attestation validation (C or Zig backend)"@,
        "- Token field validation: ring, attested, timestamp, nonce, counter"@,
        "- ring-2 extra token requirement: root_attested:true"@,
        "- Freshness enforcement with max token age"@,
        "- Nonce challenge binding"@,
        "- Replay protection with monotonic counter state"@,
        "- Atomic replay-state update with file lock + fsync"@,
        "- Secure file checks: regular file, owner UID match, safe permissions"@,
        ""@,
        "4) Cryptographic trust"@,
        "- Detached Ed25519 signature verification over token bytes"@,
        "- Pinned SHA-256 fingerprint check for attestation key"@,
        "- ring-2 independent root signature + root key pinning"@,
        ""@,
        "5) Operational output and CI integration"@,
        "- Human-readable PASS/FAIL/UNKNOWN output"@,
        "- --json machine-readable verdict output"@,
        "- --verdict-out file emission for SIEM/pipeline ingestion"@,
        "- Stable exit codes: 0(pass), 10(fail), 20(unknown), 1(error)"@,
        "- Panic-safe LLVM parse path (fail closed instead of process crash)"@,
        ""@,
        "6) HITL verification gate"@,
        "- --hitl-mode off|require"@,
        "- --hitl-approvals <path> newline-delimited approved VC IDs"@,
        "- --hitl-class-approvals <path> newline-delimited approved VC class IDs"@,
        "- require mode needs at least one approval source (VC IDs or class IDs)"@,
        "- --emit-vcs <path> emits seen/blocked VC IDs for human review"@,
        "- Class approvals allow approver to approve families of similar VCs"@,
        "- Solver is never executed for unapproved VCs in require mode"@,
        ""@,
        "7) Runtime fallback policy"@,
        "- --runtime-fallback auto|arm-mte|integritag|software-targeted"@,
        "- auto resolves to arm-mte on aarch64, integritag on x86_64, software-targeted otherwise"@,
        "- Runtime fallback policy is included in verdict output"@,
        "- IntegriTag supports Intel TME-MK hardware cryptographic memory tagging"@,
        ""@,
        "8) Proof-Carrying Code (PCC)"@,
        "- --emit-proof <path> outputs formal proof trace for memory safety"@,
        "- --proof-format lfsc|rup selects trace format (LFSC/RUP)"@,
        ""@,
        "9) Build/runtime backends"@,
        "- Default C attestation backend"@,
        "- Optional Zig backend via SKV_ATTESTATION_IMPL=zig"@,
        "- Automatic fallback to C when Zig is unavailable"@,
        ""@,
        "10) Production output hardening"@,
        "- Verdict and VC emission files are written with secure 0600 permissions"@,
        "- Existing output files must be regular files, owner-matched, and safe-mode"@,
        "- Output file writes use explicit sync_all() for durability"@,
        ""@,
        "11) Inline assembly detection"@,
        "- --inline-asm-policy conservative|trap"@,
        "- Conservative mode: emit UNKNOWN VC for opaque inline asm (promoted to FAIL under Ring -1/-2)"@,
        "- Trap mode: always FAIL on any inline assembly"@,
        "- Inline asm VC count included in verdict JSON output"@,
        ""@,
        "12) DMA allocation verification"@,
        "- --dma-policy verify|require-iommu|ignore"@,
        "- Tracks dma_alloc_coherent as DMA allocation source"@,
        "- Bounds-checks dma_map_single against allocation size"@,
        "- require-iommu: FAIL if DMA allocation has no paired iommu_map call"@,
        "- DMA VC count included in verdict JSON output"@,
        ""@,
        "13) Interrupt sequentialization"@,
        "- Pre-scans module for request_irq handler registrations"@,
        "- Identifies handlers that call kfree on tracked allocations"@,
        "- Emits irq_race VCs for accesses that could race with interrupt-triggered frees"@,
        "- Conservative over-approximation: sound but may produce false positives"@,
        "- IRQ race VC count included in verdict JSON output"@,
        ""@,
        "14) VC equivalence class grouping"@,
        "- --emit-equiv-summary <path> outputs grouped VC classes for HITL review"@,
        "- VC classes group structurally equivalent access patterns"@,
        "- Class-level approval via --hitl-class-approvals prevents approver fatigue"@,
        "- Equivalence summary includes per-class counts and member VC lists"@,
    ]
}

/// The characters of each text.
pub open spec fn views(items: Seq<&'static str>) -> Seq<Seq<char>> {
    items.map_values(|s: &'static str| s@)
}

/// The features in the machine-readable inventory.
fn feature_names() -> (r: Vec<&'static str>)
    ensures
        views(r@) == features(),
{
    let r: Vec<&'static str> = vec![
        "Core LLVM/Z3 memory safety analysis",
        "kmalloc/kzalloc/kcalloc allocation tracking",
        "Bounds checks for load/store/memcpy/memset",
        "Use-after-free and double-free detection via kfree tracking",
        "Pointer provenance through GEP, bitcast, ptrtoint/inttoptr, add/sub",
        "Conservative UNKNOWN semantics for unsupported patterns",
        "Ring policy: ring0/ring-1/ring-2",
        "Ring-2 independent root trust requirements",
        "Attestation fields: ring, attested, timestamp, nonce, counter",
        "Ring-2 token requirement: root_attested:true",
        "Freshness max-age enforcement",
        "Nonce challenge binding",
        "Replay protection with monotonic counter state",
        "Atomic replay-state locking + fsync",
        "Secure file checks: regular, owner UID, safe permissions",
        "Detached Ed25519 signature verification",
        "Pinned SHA-256 key fingerprint checks",
        "Ring-2 independent root signature + key pinning",
        "Machine-readable verdict JSON (--json)",
        "Verdict file output (--verdict-out)",
        "Stable exit codes: 0/10/20/1",
        "Panic-safe LLVM parse rejection",
        "HITL gate: --hitl-mode off|require",
        "HITL approvals file: --hitl-approvals",
        "HITL class approvals: --hitl-class-approvals",
        "HITL require mode requires VC or class approvals",
        "VC emission for human review: --emit-vcs",
        "HITL require mode fail-closed on blocked VCs",
        "Runtime fallback policy: --runtime-fallback auto|arm-mte|integritag|software-targeted",
        "IntegriTag Intel TME-MK hardware support",
        "Proof-Carrying Code emission: --emit-proof <path>",
        "Supported PCC formats: LFSC and RUP",
        "Secure output writing: 0600 + sync_all + owner/mode checks",
        "Backends: C default, Zig optional, C fallback",
        "Inline asm detection: --inline-asm-policy conservative|trap",
        "Opaque inline asm VC emission with HITL gate integration",
        "DMA allocation tracking: dma_alloc_coherent/dma_map_single",
        "DMA bounds verification: --dma-policy verify|require-iommu|ignore",
        "Interrupt sequentialization via request_irq pre-scan",
        "IRQ race VC emission for handler-induced frees",
        "VC equivalence class grouping: --emit-equiv-summary",
        "Structural VC class approval to prevent approver fatigue",
        "Stack-spill pointer tracking through alloca/store/load chains",
    ];
    assert(views(r@) =~= features());
    r
}

/// The lines of the inventory for readers.
fn inventory_lines() -> (r: Vec<&'static str>)
    ensures
        views(r@) == inventory(),
{
    let r: Vec<&'static str> = vec![
        "SKV Analyzer - Full Feature Inventory",
        "",
        "1) Core LLVM/Z3 memory safety analysis",
        "- kmalloc/kzalloc/kcalloc allocation tracking",
        "- Bounds checks for load/store/memcpy/memset",
        "- Use-after-free and double-free detection via kfree tracking",
        "- Pointer provenance through GEP, bitcast, ptrtoint/inttoptr, add/sub",
        "- Conservative UNKNOWN semantics for unsupported patterns",
        "",
        "2) Ring policy enforcement",
        "- ring0: standard analysis verdict flow",
        "- ring-1: strict mode (UNKNOWN promoted to FAIL)",
        "- ring-2: strict mode + independent root trust requirements",
        "",
        "3) Attestation validation (C or Zig backend)",
        "- Token field validation: ring, attested, timestamp, nonce, counter",
        "- ring-2 extra token requirement: root_attested:true",
        "- Freshness enforcement with max token age",
        "- Nonce challenge binding",
        "- Replay protection with monotonic counter state",
        "- Atomic replay-state update with file lock + fsync",
        "- Secure file checks: regular file, owner UID match, safe permissions",
        "",
        "4) Cryptographic trust",
        "- Detached Ed25519 signature verification over token bytes",
        "- Pinned SHA-256 fingerprint check for attestation key",
        "- ring-2 independent root signature + root key pinning",
        "",
        "5) Operational output and CI integration",
        "- Human-readable PASS/FAIL/UNKNOWN output",
        "- --json machine-readable verdict output",
        "- --verdict-out file emission for SIEM/pipeline ingestion",
        "- Stable exit codes: 0(pass), 10(fail), 20(unknown), 1(error)",
        "- Panic-safe LLVM parse path (fail closed instead of process crash)",
        "",
        "6) HITL verification gate",
        "- --hitl-mode off|require",
        "- --hitl-approvals <path> newline-delimited approved VC IDs",
        "- --hitl-class-approvals <path> newline-delimited approved VC class IDs",
        "- require mode needs at least one approval source (VC IDs or class IDs)",
        "- --emit-vcs <path> emits seen/blocked VC IDs for human review",
        "- Class approvals allow approver to approve families of similar VCs",
        "- Solver is never executed for unapproved VCs in require mode",
        "",
        "7) Runtime fallback policy",
        "- --runtime-fallback auto|arm-mte|integritag|software-targeted",
        "- auto resolves to arm-mte on aarch64, integritag on x86_64, software-targeted otherwise",
        "- Runtime fallback policy is included in verdict output",
        "- IntegriTag supports Intel TME-MK hardware cryptographic memory tagging",
        "",
        "8) Proof-Carrying Code (PCC)",
        "- --emit-proof <path> outputs formal proof trace for memory safety",
        "- --proof-format lfsc|rup selects trace format (LFSC/RUP)",
        "",
        "9) Build/runtime backends",
        "- Default C attestation backend",
        "- Optional Zig backend via SKV_ATTESTATION_IMPL=zig",
        "- Automatic fallback to C when Zig is unavailable",
        "",
        "10) Production output hardening",
        "- Verdict and VC emission files are written with secure 0600 permissions",
        "- Existing output files must be regular files, owner-matched, and safe-mode",
        "- Output file writes use explicit sync_all() for durability",
        "",
        "11) Inline assembly detection",
        "- --inline-asm-policy conservative|trap",
        "- Conservative mode: emit UNKNOWN VC for opaque inline asm (promoted to FAIL under Ring -1/-2)",
        "- Trap mode: always FAIL on any inline assembly",
        "- Inline asm VC count included in verdict JSON output",
        "",
        "12) DMA allocation verification",
        "- --dma-policy verify|require-iommu|ignore",
        "- Tracks dma_alloc_coherent as DMA allocation source",
        "- Bounds-checks dma_map_single against allocation size",
        "- require-iommu: FAIL if DMA allocation has no paired iommu_map call",
        "- DMA VC count included in verdict JSON output",
        "",
        "13) Interrupt sequentialization",
        "- Pre-scans module for request_irq handler registrations",
        "- Identifies handlers that call kfree on tracked allocations",
        "- Emits irq_race VCs for accesses that could race with interrupt-triggered frees",
        "- Conservative over-approximation: sound but may produce false positives",
        "- IRQ race VC count included in verdict JSON output",
        "",
        "14) VC equivalence class grouping",
        "- --emit-equiv-summary <path> outputs grouped VC classes for HITL review",
        "- VC classes group structurally equivalent access patterns",
        "- Class-level approval via --hitl-class-approvals prevents approver fatigue",
        "- Equivalence summary includes per-class counts and member VC lists",
    ];
    assert(views(r@) =~= inventory());
    r
}

/// The texts as strings of their own.
fn owned(items: &Vec<&'static str>) -> (r: Vec<String>)
    ensures
        texts(r@) == views(items@),
{
    let mut r: Vec<String> = Vec::new();
    let mut i: usize = 0;
    while i < items.len()
        invariant
            i <= items.len(),
            r.len() == i,
            forall|k: int| 0 <= k < i ==> (#[trigger] r@[k])@ == items@[k]@,
        decreases items.len() - i,
    {
        r.push(items[i].to_owned());
        i = i + 1;
    }
    assert(texts(r@) =~= views(items@));
    r
}

/// The members of the machine-readable inventory.
pub open spec fn catalog_members() -> Seq<(Seq<char>, Json)> {
    seq![("name"@, Json::Text("SKV Analyzer"@)), ("features"@, text_list(features()))]
}

/// The machine-readable inventory: one JSON object.
pub fn feature_catalog_json() -> (r: String)
    ensures
        r@ == json_text(Json::Object(catalog_members())),
{
    let names: Vec<String> = owned(&feature_names());
    let mut w: ObjectWriter = ObjectWriter::new();
    w.put_text("name", "SKV Analyzer");
    w.put("features", write_text_list(&names).as_str(), Ghost(text_list(texts(names@))));
    assert(w.members() =~= catalog_members());
    w.finish()
}

/// The lines, each with a newline at its end.
pub open spec fn with_newlines(all: Seq<Seq<char>>) -> Seq<char>
    decreases all.len(),
{
    if all.len() == 0 {
        Seq::empty()
    } else {
        with_newlines(all.drop_last()) + all.last() + "\n"@
    }
}

/// The inventory for readers.
pub fn feature_catalog() -> (r: String)
    ensures
        r@ == with_newlines(inventory()),
{
    let all: Vec<&'static str> = inventory_lines();
    let ghost view = views(all@);
    let mut r: String = String::new();
    let mut i: usize = 0;
    assert(r@ =~= with_newlines(view.take(0)));
    while i < all.len()
        invariant
            i <= all.len(),
            view == views(all@),
            r@ == with_newlines(view.take(i as int)),
        decreases all.len() - i,
    {
        assert(view.take(i + 1).drop_last() =~= view.take(i as int));
        r.append(all[i]);
        r.append("\n");
        i = i + 1;
    }
    assert(view.take(i as int) =~= view);
    r
}

} // verus!
