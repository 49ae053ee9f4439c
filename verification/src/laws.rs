//! Laws of the analysis as a whole.
pub mod checks;
pub mod coverage;
pub mod handlers;
pub mod tracking;
pub mod vocabulary;

use crate::analyze::{analysed, AnalysisOutcome};
use crate::assembly::safe_inline_asm;
use crate::hitl::{enforced, GateState};
use crate::invariants::{accounted, lemma_inside, lemma_one_step};
use crate::ir::{Call, Callee, Instruction, Module};
use crate::machine::{
    one_step, reaches, settings_for, sites, Allocation, Settings, Site, State,
};
use crate::modes::{DmaPolicy, InlineAsmPolicy};
use crate::order::law_sorted_distinct;
use crate::solver::out_of_bounds;
use crate::text::sorted_distinct;
use vstd::prelude::*;

verus! {

// ---- what every run keeps ----

/// A run keeps its state well formed, keeps what was settled before, keeps
/// every check truthful and keeps the records of the human-in-the-loop gate in
/// order.
pub proof fn law_run_keeps(
    settings: Settings,
    before: State,
    path: Seq<(Site, Instruction)>,
    after: State,
)
    requires
        reaches(settings, before, path, after),
        before.well_formed(settings),
    ensures
        after.well_formed(settings),
        before.extends_to(after),
        before.sound() ==> after.sound(),
        accounted(before.checked, before.gate) ==> accounted(after.checked, after.gate),
    decreases path.len(),
{
    if path.len() > 0 {
        let mid = choose|mid: State|
            reaches(settings, before, path.drop_last(), mid) && #[trigger] one_step(
                settings,
                mid,
                path.last(),
                after,
            );
        law_run_keeps(settings, before, path.drop_last(), mid);
        lemma_one_step(mid, settings, path.last(), after);
        reveal(State::leads_to);
    }
}

/// A pass means that every access that was checked is safe: it was admitted,
/// the solver decided it, and it stays within its allocation.
pub proof fn law_pass_is_safe(
    settings: Settings,
    gate: GateState,
    path: Seq<(Site, Instruction)>,
    end: State,
)
    requires
        reaches(settings, State::initial(gate), path, end),
        end.finished(settings.dma) is Pass,
    ensures
        forall|k: int|
            0 <= k < end.checked.len() ==> {
                let access = #[trigger] end.checked[k];
                &&& access.verdict is Safe
                &&& gate.admits(access.vc, access.class)
                &&& !out_of_bounds(access.alloc_size as int, access.offset, access.len as int)
            },
{
    law_run_keeps(settings, State::initial(gate), path, end);
}

/// An access that was found out of bounds makes the analysis fail.
pub proof fn law_out_of_bounds_fails(
    settings: Settings,
    gate: GateState,
    path: Seq<(Site, Instruction)>,
    end: State,
    k: int,
)
    requires
        reaches(settings, State::initial(gate), path, end),
        0 <= k < end.checked.len(),
        end.checked[k].verdict is Oob,
    ensures
        end.finished(settings.dma) is Fail,
{
    law_run_keeps(settings, State::initial(gate), path, end);
}

/// The solver decides a check only where its VC is admitted: in require mode no
/// unapproved VC reaches it, and such a VC is on record as blocked.
pub proof fn law_unapproved_never_solved(
    settings: Settings,
    gate: GateState,
    path: Seq<(Site, Instruction)>,
    end: State,
    k: int,
)
    requires
        gate.orderly(),
        reaches(settings, State::initial(gate), path, end),
        0 <= k < end.checked.len(),
        !gate.admits(end.checked[k].vc, end.checked[k].class),
    ensures
        end.checked[k].verdict is HitlBlocked,
        end.gate.blocked.contains(end.checked[k].vc),
        !(end.finished(settings.dma) is Pass),
{
    let start = State::initial(gate);
    assert(accounted(start.checked, start.gate)) by {
        reveal(accounted);
    }
    law_run_keeps(settings, start, path, end);
    reveal(accounted);
}

// ---- the records of an analysis ----

/// An analysis adds to the records of the human-in-the-loop gate and leaves its
/// mode and approvals alone; records in order stay in order.
pub proof fn law_records_grow(
    module: Module,
    assembly: InlineAsmPolicy,
    dma: DmaPolicy,
    before: GateState,
    after: GateState,
    r: AnalysisOutcome,
)
    requires
        analysed(module, assembly, dma, before, after, r),
    ensures
        after.mode == before.mode,
        after.approved == before.approved,
        after.approved_classes == before.approved_classes,
        before.seen.is_prefix_of(after.seen),
        before.blocked.is_prefix_of(after.blocked),
        before.seen_classes.is_prefix_of(after.seen_classes),
        before.blocked_classes.is_prefix_of(after.blocked_classes),
        before.orderly() ==> after.orderly(),
{
    let settings = settings_for(module, assembly, dma);
    let start = State::initial(before);
    let end = choose|end: State| #[trigger]
        reaches(settings, start, sites(module), end) && end.gate == after && r.reports(end, dma);
    if before.orderly() {
        assert(accounted(start.checked, start.gate)) by {
            reveal(accounted);
        }
    }
    law_run_keeps(settings, start, sites(module), end);
    reveal(accounted);
}

/// With the mode off an analysis blocks nothing: what is blocked behind it was
/// blocked before it.
pub proof fn law_off_blocks_nothing(
    module: Module,
    assembly: InlineAsmPolicy,
    dma: DmaPolicy,
    before: GateState,
    after: GateState,
    r: AnalysisOutcome,
)
    requires
        analysed(module, assembly, dma, before, after, r),
        before.mode is Off,
    ensures
        after.blocked == before.blocked,
        after.blocked_classes == before.blocked_classes,
        r.hitl_blocked_vcs == before.blocked.to_set().len(),
        r.hitl_blocked_classes == before.blocked_classes.to_set().len(),
{
    let settings = settings_for(module, assembly, dma);
    let start = State::initial(before);
    let end = choose|end: State| #[trigger]
        reaches(settings, start, sites(module), end) && end.gate == after && r.reports(end, dma);
    law_run_keeps(settings, start, sites(module), end);
}

/// In require mode the policy is fail-closed: where the enforced result is not
/// a failure, every VC that was put is approved.
pub proof fn law_require_is_fail_closed(
    module: Module,
    assembly: InlineAsmPolicy,
    dma: DmaPolicy,
    before: GateState,
    after: GateState,
    r: AnalysisOutcome,
)
    requires
        analysed(module, assembly, dma, before, after, r),
        before.orderly(),
        before.mode is Require,
        !(enforced(r.result@, before.mode, r.hitl_blocked_vcs as nat) is Fail),
    ensures
        after.blocked.len() == 0,
        forall|k: int|
            0 <= k < after.seen.len() ==> before.approved.contains(#[trigger] after.seen[k])
                || before.approved_classes.contains(after.seen_classes[k]),
{
    law_records_grow(module, assembly, dma, before, after, r);
    if after.blocked.len() > 0 {
        after.blocked.lemma_cardinality_of_set();
        assert(after.blocked.to_set().contains(after.blocked[0]));
        assert(after.blocked.to_set().len() > 0);
    }
    assert forall|k: int| 0 <= k < after.seen.len() implies before.approved.contains(
        #[trigger] after.seen[k],
    ) || before.approved_classes.contains(after.seen_classes[k]) by {
        assert(!after.blocked.contains(after.seen[k]));
    }
}

/// Where every VC that was put is approved, nothing is blocked.
pub proof fn law_approved_is_not_blocked(
    module: Module,
    assembly: InlineAsmPolicy,
    dma: DmaPolicy,
    before: GateState,
    after: GateState,
    r: AnalysisOutcome,
)
    requires
        analysed(module, assembly, dma, before, after, r),
        before.orderly(),
        forall|vc: Seq<char>| #[trigger]
            after.seen.contains(vc) ==> before.approved.contains(vc),
    ensures
        after.blocked.len() == 0,
        r.hitl_blocked_vcs == 0,
{
    law_records_grow(module, assembly, dma, before, after, r);
    if after.blocked.len() > 0 {
        assert(after.seen.contains(after.blocked[0]));
    }
    assert(after.blocked.to_set() =~= Set::empty());
}

/// The outcome counts as many VCs and classes as a report lists.
pub proof fn law_counts_match_report(r: AnalysisOutcome, end: State, dma: DmaPolicy)
    requires
        r.reports(end, dma),
    ensures
        r.hitl_seen_vcs == sorted_distinct(end.gate.seen).len(),
        r.hitl_blocked_vcs == sorted_distinct(end.gate.blocked).len(),
        r.hitl_seen_classes == sorted_distinct(end.gate.seen_classes).len(),
        r.hitl_blocked_classes == sorted_distinct(end.gate.blocked_classes).len(),
{
    law_sorted_distinct(end.gate.seen);
    law_sorted_distinct(end.gate.blocked);
    law_sorted_distinct(end.gate.seen_classes);
    law_sorted_distinct(end.gate.blocked_classes);
}

// ---- inline assembly ----

/// The instruction is inline assembly.
pub open spec fn is_assembly(instr: Instruction) -> bool {
    match instr {
        Instruction::Call(call) => call.function is InlineAssembly,
        _ => false,
    }
}

/// The instruction is inline assembly that is not known to be harmless.
pub open spec fn is_opaque_assembly(instr: Instruction) -> bool {
    match instr {
        Instruction::Call(call) => match call.function {
            Callee::InlineAssembly(text) => !safe_inline_asm(text@),
            _ => false,
        },
        _ => false,
    }
}

/// Under the trap policy any inline assembly makes the analysis fail.
pub proof fn law_trap_fails(
    settings: Settings,
    gate: GateState,
    path: Seq<(Site, Instruction)>,
    end: State,
    k: int,
)
    requires
        settings.assembly is Trap,
        reaches(settings, State::initial(gate), path, end),
        0 <= k < path.len(),
        is_assembly(path[k].1),
    ensures
        end.result is Fail,
        end.finished(settings.dma) is Fail,
    decreases path.len(),
{
    let mid = choose|mid: State|
        reaches(settings, State::initial(gate), path.drop_last(), mid) && #[trigger] one_step(
            settings,
            mid,
            path.last(),
            end,
        );
    if k < path.len() - 1 {
        law_trap_fails(settings, gate, path.drop_last(), mid, k);
    }
}

/// Inline assembly that is not known to be harmless never passes.
pub proof fn law_opaque_assembly_never_passes(
    settings: Settings,
    gate: GateState,
    path: Seq<(Site, Instruction)>,
    end: State,
    k: int,
)
    requires
        reaches(settings, State::initial(gate), path, end),
        0 <= k < path.len(),
        is_opaque_assembly(path[k].1),
    ensures
        !(end.result is Pass),
        !(end.finished(settings.dma) is Pass),
    decreases path.len(),
{
    let start = State::initial(gate);
    let mid = choose|mid: State|
        reaches(settings, start, path.drop_last(), mid) && #[trigger] one_step(
            settings,
            mid,
            path.last(),
            end,
        );
    let at = path.last();
    let gave_up = choose|gave_up: (bool, bool)|
        end == #[trigger] mid.inside(at.0.function).step(settings, at.0, at.1, gave_up);
    law_run_keeps(settings, start, path.drop_last(), mid);
    lemma_one_step(mid, settings, at, end);
    reveal(State::leads_to);
    if k < path.len() - 1 {
        law_opaque_assembly_never_passes(settings, gate, path.drop_last(), mid, k);
    }
}

// ---- memory that is not followed ----

/// Memory that is not followed turns a pass into unknown and hides nothing else
/// that was found: any other result stands, unless a DMA allocation lacks the
/// mapping that is required.
pub proof fn law_unfollowed_hides_nothing(end: State, dma: DmaPolicy)
    ensures
        end.unfollowed is Some ==> !(end.finished(dma) is Pass),
        !(end.result is Pass) ==> end.finished(dma) == end.result || dma is RequireIommu
            && end.finished(dma) is Fail,
{
}

// ---- DMA ----

/// Where an IOMMU is required, a pass means that every DMA allocation is covered
/// by a mapping of its own.
pub proof fn law_iommu_required(end: State)
    requires
        end.finished(DmaPolicy::RequireIommu) is Pass,
    ensures
        forall|k: int|
            0 <= k < end.allocs.len() && (#[trigger] end.allocs[k]).dma ==> end.allocs[k].mapped,
{
    assert forall|k: int| 0 <= k < end.allocs.len() && (#[trigger] end.allocs[k]).dma implies
        end.allocs[k].mapped by {
        assert(!end.unmapped(k));
    }
}

/// Covering one allocation leaves the others as they are: a call of `iommu_map`
/// covers no allocation that none of its arguments points into.
pub proof fn law_mapping_is_paired(s: State, call: Call, k: int)
    requires
        0 <= k < s.allocs.len(),
        !s.passed(call, k),
    ensures
        s.iommu_map(call).allocs[k] == s.allocs[k],
{
}

/// Where an IOMMU is required, a DMA allocation that is not covered fails the run.
pub proof fn law_unmapped_fails(end: State, k: int)
    requires
        0 <= k < end.allocs.len(),
        end.allocs[k].dma && !end.allocs[k].mapped,
    ensures
        end.finished(DmaPolicy::RequireIommu) is Fail,
{
    assert(end.unmapped(k));
}

/// No allocation is one for DMA.
#[verifier::opaque]
pub open spec fn none_for_dma(allocs: Seq<Allocation>) -> bool {
    forall|k: int| 0 <= k < allocs.len() ==> !(#[trigger] allocs[k]).dma
}

proof fn lemma_call_without_dma(
    s: State,
    settings: Settings,
    site: Site,
    call: Call,
    gave_up: (bool, bool),
)
    requires
        settings.dma is Ignore,
        none_for_dma(s.allocs),
        s.well_formed(settings),
    ensures
        none_for_dma(s.call(settings, site, call, gave_up).allocs),
        s.call(settings, site, call, gave_up).dma_vcs == s.dma_vcs,
{
    let next = s.call(settings, site, call, gave_up);
    assert(none_for_dma(s.kmalloc(call).allocs)) by {
        reveal(none_for_dma);
    }
    assert(none_for_dma(s.kcalloc(call).allocs)) by {
        reveal(none_for_dma);
    }
    assert(none_for_dma(s.kfree(site, call).allocs)) by {
        reveal(none_for_dma);
    }
    assert(none_for_dma(s.iommu_map(call).allocs)) by {
        reveal(none_for_dma);
    }
    assert(s.memset(site, call, gave_up.0).allocs == s.allocs);
    assert(s.memcpy(site, call, gave_up).allocs == s.allocs);
}

proof fn lemma_step_without_dma(
    s: State,
    settings: Settings,
    site: Site,
    instr: Instruction,
    gave_up: (bool, bool),
)
    requires
        settings.dma is Ignore,
        none_for_dma(s.allocs),
        s.well_formed(settings),
    ensures
        none_for_dma(s.step(settings, site, instr, gave_up).allocs),
        s.step(settings, site, instr, gave_up).dma_vcs == s.dma_vcs,
{
    if !(s.result is Fail) {
        match instr {
            Instruction::Call(call) => lemma_call_without_dma(s, settings, site, call, gave_up),
            Instruction::GetElementPtr(gep) => {
                let next = s.gep(settings, gep);
                assert(next.allocs == s.allocs && next.dma_vcs == s.dma_vcs);
            },
            Instruction::Store { address, value } => {
                let next = s.store(settings, site, address, value, gave_up.0);
                assert(next.allocs == s.allocs && next.dma_vcs == s.dma_vcs);
            },
            Instruction::Load { address, dest, loaded_ty } => {
                let next = s.load(settings, site, address, dest, loaded_ty, gave_up.0);
                assert(next.allocs == s.allocs && next.dma_vcs == s.dma_vcs);
            },
            _ => {},
        }
    }
}

/// With DMA ignored no DMA allocation and no DMA VC arises.
pub proof fn law_dma_ignored(
    settings: Settings,
    gate: GateState,
    path: Seq<(Site, Instruction)>,
    end: State,
)
    requires
        settings.dma is Ignore,
        reaches(settings, State::initial(gate), path, end),
    ensures
        end.dma_vcs == 0,
        none_for_dma(end.allocs),
    decreases path.len(),
{
    let start = State::initial(gate);
    if path.len() > 0 {
        let mid = choose|mid: State|
            reaches(settings, start, path.drop_last(), mid) && #[trigger] one_step(
                settings,
                mid,
                path.last(),
                end,
            );
        let at = path.last();
        let here = mid.inside(at.0.function);
        let gave_up = choose|gave_up: (bool, bool)|
            end == #[trigger] here.step(settings, at.0, at.1, gave_up);
        law_dma_ignored(settings, gate, path.drop_last(), mid);
        law_run_keeps(settings, start, path.drop_last(), mid);
        assert(here.well_formed(settings)) by {
            lemma_inside(mid, settings, at.0.function);
            reveal(State::leads_to);
        }
        lemma_step_without_dma(here, settings, at.0, at.1, gave_up);
    } else {
        reveal(none_for_dma);
    }
}

// ---- interrupt handlers ----

proof fn lemma_step_without_race(
    s: State,
    settings: Settings,
    site: Site,
    instr: Instruction,
    gave_up: (bool, bool),
)
    requires
        s.result is Pass,
        s.step(settings, site, instr, gave_up).result is Pass,
    ensures
        s.step(settings, site, instr, gave_up).irq_race_vcs == s.irq_race_vcs,
        s.step(settings, site, instr, gave_up).inline_asm_vcs == s.inline_asm_vcs,
{
    match instr {
        Instruction::Call(call) => {
            let set = s.memset(site, call, gave_up.0);
            let copied = s.memcpy(site, call, gave_up);
            let mapped = s.dma_map(site, call, gave_up.0);
            assert(set.irq_race_vcs == s.irq_race_vcs && set.inline_asm_vcs == s.inline_asm_vcs);
            assert(copied.irq_race_vcs == s.irq_race_vcs && copied.inline_asm_vcs
                == s.inline_asm_vcs);
            assert(mapped.irq_race_vcs == s.irq_race_vcs && mapped.inline_asm_vcs
                == s.inline_asm_vcs);
        },
        Instruction::GetElementPtr(gep) => {
            let next = s.gep(settings, gep);
            assert(next.irq_race_vcs == s.irq_race_vcs && next.inline_asm_vcs == s.inline_asm_vcs);
        },
        _ => {},
    }
}

/// A pass raised no race VC and met no inline assembly that needed a VC.
pub proof fn law_pass_raises_no_race(
    settings: Settings,
    gate: GateState,
    path: Seq<(Site, Instruction)>,
    end: State,
)
    requires
        reaches(settings, State::initial(gate), path, end),
        end.result is Pass,
    ensures
        end.irq_race_vcs == 0,
        end.inline_asm_vcs == 0,
    decreases path.len(),
{
    let start = State::initial(gate);
    if path.len() > 0 {
        let mid = choose|mid: State|
            reaches(settings, start, path.drop_last(), mid) && #[trigger] one_step(
                settings,
                mid,
                path.last(),
                end,
            );
        let at = path.last();
        let here = mid.inside(at.0.function);
        let gave_up = choose|gave_up: (bool, bool)|
            end == #[trigger] here.step(settings, at.0, at.1, gave_up);
        law_run_keeps(settings, start, path.drop_last(), mid);
        assert(mid.result is Pass) by {
            lemma_one_step(mid, settings, at, end);
            reveal(State::leads_to);
        }
        law_pass_raises_no_race(settings, gate, path.drop_last(), mid);
        lemma_step_without_race(here, settings, at.0, at.1, gave_up);
    }
}

/// Where an interrupt handler may free memory, a load or store that goes through
/// a pointer to an allocation never leaves a pass.
pub proof fn law_irq_risk_never_passes(
    s: State,
    settings: Settings,
    site: Site,
    operation: Seq<char>,
    no_size: Seq<char>,
    place: (nat, int),
    len: Option<nat>,
    gave_up: bool,
)
    requires
        settings.irq_risk,
    ensures
        !(s.touch(settings, site, operation, no_size, place, len, gave_up).result is Pass),
{
}

} // verus!
