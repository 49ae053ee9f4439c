//! A pass vouches for every access that the analysis meets.
use crate::determinism::{decided, lemma_before};
use crate::faults::{
    copies, frees, law_unsupported_never_passes, lemma_names, reloads_itself, unsupported,
};
use crate::hitl::GateState;
use crate::invariants::lemma_one_step;
use crate::ir::{
    called_name, const_value, local_name, operand_size, size_of_type, Call, Instruction, Operand,
};
use crate::laws::coverage::lemma_reaches_last;
use crate::laws::law_run_keeps;
use crate::laws::tracking::lemma_all_names;
use crate::laws::vocabulary::{calls_global, is_number};
use crate::machine::{is_slot, one_step, reaches, target, Settings, Site, State};
use crate::solver::out_of_bounds;
use vstd::prelude::*;

verus! {

/// The access stays within live memory.
pub open spec fn is_safe(s: State, place: (nat, int), len: nat) -> bool {
    &&& !s.allocs[place.0 as int].freed
    &&& !out_of_bounds(s.allocs[place.0 as int].size as int, place.1, len as int)
}

/// The operand points to live memory with room for `len` bytes, where both are
/// known.
pub open spec fn points_safely(s: State, op: Operand, len: Option<u64>) -> bool {
    target(s, op) is Some && len is Some && is_safe(s, target(s, op)->0, len->0 as nat)
}

/// Every access of a call is safe, a DMA mapping stays within its allocation, and
/// what is freed is an allocation that was not freed before.
pub open spec fn call_is_safe(s: State, settings: Settings, call: Call) -> bool {
    let args = call.arguments@;
    let len = const_value(args[2]);
    &&& called_name(call) == Some("memset"@) ==> args.len() > 2 && points_safely(s, args[0], len)
    &&& copies(call) ==> args.len() > 2 && points_safely(s, args[0], len) && points_safely(
        s,
        args[1],
        len,
    )
    &&& called_name(call) == Some("dma_map_single"@) && !(settings.dma is Ignore) ==> {
        let place = target(s, args[1])->0;
        args.len() > 2 && target(s, args[1]) is Some && len is Some && !out_of_bounds(
            s.allocs[place.0 as int].size as int,
            place.1,
            len->0 as int,
        )
    }
    &&& called_name(call) == Some("kfree"@) ==> exists|alloc_id: nat| #[trigger]
        frees(s, call, alloc_id) && !s.allocs[alloc_id as int].freed
}

/// Every access of an instruction is safe: it goes to a stack slot or stays
/// within live memory; and nothing is freed twice.
pub open spec fn accesses_are_safe(s: State, settings: Settings, instr: Instruction) -> bool {
    match instr {
        Instruction::Load { address, dest, loaded_ty } => match target(s, address) {
            Some(place) => !reloads_itself(s, address, dest) ==> {
                let len = size_of_type(settings.types, loaded_ty);
                len is Some && is_safe(s, place, len->0)
            },
            None => is_slot(s, address),
        },
        Instruction::Store { address, value } => match target(s, address) {
            Some(place) => {
                let len = operand_size(settings.types, value);
                len is Some && is_safe(s, place, len->0)
            },
            None => is_slot(s, address),
        },
        Instruction::Call(call) => call_is_safe(s, settings, call),
        Instruction::OtherAccess => false,
        _ => true,
    }
}

proof fn lemma_fill_is_safe(
    s: State,
    site: Site,
    kind: Seq<char>,
    access: Seq<char>,
    operation: Seq<char>,
    op: Operand,
    len: nat,
    gave_up: bool,
)
    requires
        target(s, op) is Some,
        s.fill(site, kind, access, operation, op, len, gave_up).result is Pass,
    ensures
        is_safe(s, target(s, op)->0, len),
{
}

proof fn lemma_call_is_safe(
    s: State,
    settings: Settings,
    site: Site,
    call: Call,
    gave_up: (bool, bool),
)
    requires
        s.passes(),
        s.call(settings, site, call, gave_up).passes(),
    ensures
        call_is_safe(s, settings, call),
{
    lemma_names();
    let instr = Instruction::Call(call);
    if unsupported(s, settings, instr) {
        law_unsupported_never_passes(s, settings, site, instr, gave_up);
    }
    if called_name(call) == Some("memset"@) && call.arguments@.len() > 2 && target(
        s,
        call.arguments@[0],
    ) is Some {
        lemma_fill_is_safe(
            s,
            site,
            "memset"@,
            "memset"@,
            "memset"@,
            call.arguments@[0],
            const_value(call.arguments@[2])->0 as nat,
            gave_up.0,
        );
    }
    if copies(call) && call.arguments@.len() > 2 {
        let len = const_value(call.arguments@[2])->0 as nat;
        let next = s.fill(
            site,
            "memcpy_destination"@,
            "memcpy destination"@,
            "memcpy"@,
            call.arguments@[0],
            len,
            gave_up.0,
        );
        assert(next.allocs == s.allocs && next.ptr_env == s.ptr_env);
        assert(s.call(settings, site, call, gave_up) == s.memcpy(site, call, gave_up));
        if target(s, call.arguments@[0]) is Some {
            lemma_fill_is_safe(
                s,
                site,
                "memcpy_destination"@,
                "memcpy destination"@,
                "memcpy"@,
                call.arguments@[0],
                len,
                gave_up.0,
            );
        }
        if target(s, call.arguments@[1]) is Some {
            lemma_fill_is_safe(
                next,
                site,
                "memcpy_source"@,
                "memcpy source"@,
                "memcpy"@,
                call.arguments@[1],
                len,
                gave_up.1,
            );
        }
    }
}

/// A load or store through a pointer that is followed.
pub open spec fn touches(s: State, instr: Instruction) -> bool {
    match instr {
        Instruction::Load { address, dest, .. } => target(s, address) is Some && !reloads_itself(
            s,
            address,
            dest,
        ),
        Instruction::Store { address, .. } => target(s, address) is Some,
        _ => false,
    }
}

/// An instruction that leaves a pass made safe accesses only, is none that the
/// analysis does not follow, and touches no memory that an interrupt handler may
/// free.
pub proof fn law_passed_step_is_safe(
    s: State,
    settings: Settings,
    site: Site,
    instr: Instruction,
    gave_up: (bool, bool),
)
    requires
        s.passes(),
        s.step(settings, site, instr, gave_up).passes(),
    ensures
        accesses_are_safe(s, settings, instr),
        !unsupported(s, settings, instr),
        settings.irq_risk ==> !touches(s, instr),
{
    if unsupported(s, settings, instr) {
        law_unsupported_never_passes(s, settings, site, instr, gave_up);
    }
    match instr {
        Instruction::Call(call) => lemma_call_is_safe(s, settings, site, call, gave_up),
        _ => {},
    }
}

proof fn lemma_reaches_first(
    settings: Settings,
    start: State,
    at: (Site, Instruction),
    tail: Seq<(Site, Instruction)>,
    end: State,
) -> (next: State)
    requires
        reaches(settings, start, seq![at] + tail, end),
    ensures
        one_step(settings, start, at, next),
        reaches(settings, next, tail, end),
    decreases tail.len(),
{
    let path = seq![at] + tail;
    let mid = choose|mid: State|
        reaches(settings, start, path.drop_last(), mid) && #[trigger] one_step(
            settings,
            mid,
            path.last(),
            end,
        );
    if tail.len() == 0 {
        assert(path.drop_last() =~= Seq::empty());
        assert(path.last() == at);
        end
    } else {
        assert(path.drop_last() =~= seq![at] + tail.drop_last());
        assert(path.last() == tail.last());
        let next = lemma_reaches_first(settings, start, at, tail.drop_last(), mid);
        assert(one_step(settings, mid, tail.last(), end));
        next
    }
}

/// A run that passes made safe accesses only: wherever it met an instruction,
/// every access of it goes to a stack slot or stays within live memory, and
/// nothing is freed twice. It met no pattern that the analysis does not follow,
/// and touched no memory that an interrupt handler may free. Names are those of
/// the function that the instruction stands in.
pub proof fn law_passed_run_is_safe(
    settings: Settings,
    gate: GateState,
    head: Seq<(Site, Instruction)>,
    s: State,
    at: (Site, Instruction),
    tail: Seq<(Site, Instruction)>,
    end: State,
)
    requires
        reaches(settings, State::initial(gate), head, s),
        reaches(settings, s, seq![at] + tail, end),
        end.finished(settings.dma) is Pass,
    ensures
        ({
            let here = s.inside(at.0.function);
            &&& accesses_are_safe(here, settings, at.1)
            &&& !unsupported(here, settings, at.1)
            &&& settings.irq_risk ==> !touches(here, at.1)
        }),
{
    law_run_keeps(settings, State::initial(gate), head, s);
    let here = s.inside(at.0.function);
    let next = lemma_reaches_first(settings, s, at, tail, end);
    let gave_up = choose|gave_up: (bool, bool)|
        next == #[trigger] here.step(settings, at.0, at.1, gave_up);
    lemma_one_step(s, settings, at, next);
    reveal(State::leads_to);
    law_run_keeps(settings, next, tail, end);
    law_passed_step_is_safe(here, settings, at.0, at.1, gave_up);
}

// ---- no false alarm ----

/// The instruction fails by itself, whatever the state: an allocation whose size does
/// not fit in 64 bits, or assembly where it is trapped.
pub open spec fn fails_by_itself(settings: Settings, instr: Instruction) -> bool {
    match instr {
        Instruction::Call(call) => {
            ||| {
                &&& calls_global(call, "kcalloc"@)
                &&& call.arguments@.len() > 1
                &&& exists|a: u64, b: u64|
                    #![trigger is_number(call.arguments@[0], a), is_number(call.arguments@[1], b)]
                    is_number(call.arguments@[0], a) && is_number(call.arguments@[1], b) && a * b
                        > u64::MAX
            }
            ||| settings.assembly is Trap && call.function is InlineAssembly
        },
        _ => false,
    }
}

/// An instruction whose accesses are safe, that the analysis follows, and that touches
/// no memory that an interrupt handler may free, leaves a pass a pass, where no
/// approval is required and the solver decides.
pub proof fn law_safe_step_passes(s: State, settings: Settings, site: Site, instr: Instruction)
    requires
        s.passes(),
        s.gate.mode is Off,
        accesses_are_safe(s, settings, instr),
        !unsupported(s, settings, instr),
        settings.irq_risk ==> !touches(s, instr),
        !fails_by_itself(settings, instr),
        !(instr matches Instruction::Load { address, dest, .. } && reloads_itself(s, address, dest)),
    ensures
        s.step(settings, site, instr, (false, false)).passes(),
        s.step(settings, site, instr, (false, false)).gate.mode is Off,
{
    lemma_names();
    match instr {
        Instruction::Call(call) => {
            lemma_safe_call_passes(s, settings, site, call);
        },
        Instruction::Load { address, dest, loaded_ty } => {
            let back = s.reload(address, dest);
            if local_name(address) != Some(dest@) {
                assert(target(back, address) == target(s, address));
            }
        },
        _ => {},
    }
}

proof fn lemma_safe_fill_passes(
    s: State,
    site: Site,
    kind: Seq<char>,
    access: Seq<char>,
    operation: Seq<char>,
    op: Operand,
    len: nat,
)
    requires
        s.passes(),
        s.gate.mode is Off,
        target(s, op) is Some,
        is_safe(s, target(s, op)->0, len),
    ensures
        ({
            let next = s.fill(site, kind, access, operation, op, len, false);
            &&& next.passes()
            &&& next.gate.mode is Off
            &&& next.allocs == s.allocs && next.ptr_env == s.ptr_env
        }),
{
}

proof fn lemma_safe_call_passes(s: State, settings: Settings, site: Site, call: Call)
    requires
        s.passes(),
        s.gate.mode is Off,
        call_is_safe(s, settings, call),
        !unsupported(s, settings, Instruction::Call(call)),
        !fails_by_itself(settings, Instruction::Call(call)),
    ensures
        s.call(settings, site, call, (false, false)).passes(),
        s.call(settings, site, call, (false, false)).gate.mode is Off,
{
    lemma_all_names();
    lemma_names();
    let args = call.arguments@;
    if let Some(name) = called_name(call) {
        assert(calls_global(call, name));
        if name == "kcalloc"@ {
            if let (Some(a), Some(b)) = (const_value(args[0]), const_value(args[1])) {
                assert(is_number(args[0], a) && is_number(args[1], b));
            }
        } else if name == "memset"@ {
            let len = const_value(args[2])->0 as nat;
            lemma_safe_fill_passes(s, site, "memset"@, "memset"@, "memset"@, args[0], len);
        } else if copies(call) {
            let len = const_value(args[2])->0 as nat;
            let (a, b) = ("memcpy_destination"@, "memcpy destination"@);
            lemma_safe_fill_passes(s, site, a, b, "memcpy"@, args[0], len);
            let next = s.fill(site, a, b, "memcpy"@, args[0], len, false);
            let (c, d) = ("memcpy_source"@, "memcpy source"@);
            lemma_safe_fill_passes(next, site, c, d, "memcpy"@, args[1], len);
        } else if name == "kfree"@ {
            let alloc_id = choose|alloc_id: nat| #[trigger]
                frees(s, call, alloc_id) && !s.allocs[alloc_id as int].freed;
            assert(frees(s, call, alloc_id));
        }
    }
}

/// A run that meets only such instructions passes, where no approval is required, the
/// solver gave up on nothing, and, if an IOMMU is required, every DMA allocation is
/// mapped.
pub proof fn law_safe_run_passes(
    settings: Settings,
    gate: GateState,
    path: Seq<(Site, Instruction)>,
    end: State,
)
    requires
        gate.mode is Off,
        reaches(settings, State::initial(gate), path, end),
        decided(end.checked),
        forall|k: int, s: State|
            0 <= k < path.len() && #[trigger] reaches(
                settings,
                State::initial(gate),
                path.take(k),
                s,
            ) ==> is_safe_step(s.inside(path[k].0.function), settings, path[k].1),
        settings.dma is RequireIommu ==> forall|k: int|
            0 <= k < end.allocs.len() && (#[trigger] end.allocs[k]).dma ==> end.allocs[k].mapped,
    ensures
        end.passes(),
        end.finished(settings.dma) is Pass,
{
    lemma_safe_prefix_passes(settings, gate, path, path.len() as int, end);
    assert(path.take(path.len() as int) =~= path);
}

/// All that `law_safe_step_passes` asks of an instruction.
pub open spec fn is_safe_step(s: State, settings: Settings, instr: Instruction) -> bool {
    &&& accesses_are_safe(s, settings, instr)
    &&& !unsupported(s, settings, instr)
    &&& settings.irq_risk ==> !touches(s, instr)
    &&& !fails_by_itself(settings, instr)
    &&& !(instr matches Instruction::Load { address, dest, .. } && reloads_itself(
        s,
        address,
        dest,
    ))
}

#[verifier::rlimit(60)]
proof fn lemma_safe_prefix_passes(
    settings: Settings,
    gate: GateState,
    path: Seq<(Site, Instruction)>,
    n: int,
    end: State,
)
    requires
        gate.mode is Off,
        0 <= n <= path.len(),
        reaches(settings, State::initial(gate), path.take(n), end),
        decided(end.checked),
        forall|k: int, s: State|
            0 <= k < path.len() && #[trigger] reaches(
                settings,
                State::initial(gate),
                path.take(k),
                s,
            ) ==> is_safe_step(s.inside(path[k].0.function), settings, path[k].1),
    ensures
        end.passes(),
        end.gate.mode is Off,
    decreases n,
{
    if n > 0 {
        let head = path.take(n);
        let last = lemma_reaches_last(settings, State::initial(gate), head, end);
        assert(head.drop_last() =~= path.take(n - 1));
        let at = head.last();
        assert(at == path[n - 1]);
        lemma_before(settings, State::initial(gate), path.take(n - 1), last, at, end);
        lemma_safe_prefix_passes(settings, gate, path, n - 1, last);
        let here = last.inside(at.0.function);
        assert(is_safe_step(here, settings, at.1));
        law_safe_step_passes(here, settings, at.0, at.1);
    }
}

} // verus!
