//! What every instruction keeps of the state of an analysis.
use crate::hitl::{lemma_contains_push, vc_class_text, GateState};
use crate::ir::{
    const_value, operand_size, size_of_type, BinaryOp, Call, Callee, Cast, GetElementPtr,
    Instruction, Name, Operand, Type,
};
use crate::machine::{one_step, target, Access, Settings, Site, State};
use crate::modes::InlineAsmPolicy;
use crate::solver::out_of_bounds;
use crate::text::decimal;
use crate::verdict::Finding;
use vstd::prelude::*;

verus! {

impl Access {
    /// The check agrees with the bounds wherever the solver decided.
    pub open spec fn truthful(self) -> bool {
        let oob = out_of_bounds(self.alloc_size as int, self.offset, self.len as int);
        &&& self.verdict is Safe ==> !oob
        &&& self.verdict is Oob ==> oob
    }
}

impl State {
    /// Every recorded check is truthful and was admitted where it was decided;
    /// the result passes only while all checks were found safe, and is fail
    /// once one was out of bounds.
    pub open spec fn sound(self) -> bool {
        &&& forall|k: int| 0 <= k < self.checked.len() ==> (#[trigger] self.checked[k]).truthful()
        &&& forall|k: int|
            0 <= k < self.checked.len() ==> ((#[trigger] self.checked[k]).verdict is HitlBlocked
                || self.gate.admits(self.checked[k].vc, self.checked[k].class))
        &&& self.result is Pass ==> forall|k: int|
            0 <= k < self.checked.len() ==> (#[trigger] self.checked[k]).verdict is Safe
        &&& !(self.result is Fail) ==> forall|k: int|
            0 <= k < self.checked.len() ==> !((#[trigger] self.checked[k]).verdict is Oob)
    }

    /// `next` keeps what `self` has settled: allocations keep their size and
    /// kind and stay freed and mapped, records only grow, nothing is blocked in
    /// off mode, approvals stay, and the result does not become milder.
    pub open spec fn extends_to(self, next: State) -> bool {
        &&& self.allocs.len() <= next.allocs.len()
        &&& forall|k: int|
            #![trigger self.allocs[k]]
            #![trigger next.allocs[k]]
            0 <= k < self.allocs.len() ==> {
                &&& next.allocs[k].size == self.allocs[k].size
                &&& next.allocs[k].dma == self.allocs[k].dma
                &&& self.allocs[k].freed ==> next.allocs[k].freed
                &&& self.allocs[k].mapped ==> next.allocs[k].mapped
            }
        &&& self.checked.is_prefix_of(next.checked)
        &&& self.gate.seen.is_prefix_of(next.gate.seen)
        &&& self.gate.blocked.is_prefix_of(next.gate.blocked)
        &&& self.gate.seen_classes.is_prefix_of(next.gate.seen_classes)
        &&& self.gate.blocked_classes.is_prefix_of(next.gate.blocked_classes)
        &&& next.gate.mode == self.gate.mode
        &&& next.gate.approved == self.gate.approved
        &&& next.gate.approved_classes == self.gate.approved_classes
        &&& self.unfollowed is Some ==> next.unfollowed == self.unfollowed
        &&& self.gate.mode is Off ==> {
            &&& next.gate.blocked == self.gate.blocked
            &&& next.gate.blocked_classes == self.gate.blocked_classes
        }
        &&& match self.result {
            Finding::Pass => true,
            Finding::Unknown(_) => next.result == self.result || next.result is Fail,
            Finding::Fail(_) => next.result is Fail,
        }
    }

    /// `next` is a lawful successor.
    #[verifier::opaque]
    pub open spec fn leads_to(self, settings: Settings, next: State) -> bool {
        self.well_formed(settings) ==> {
            &&& self.extends_to(next)
            &&& next.well_formed(settings)
            &&& self.sound() ==> next.sound()
            &&& accounted(self.checked, self.gate) ==> accounted(next.checked, next.gate)
        }
    }
}

/// The records of the human-in-the-loop gate are in order, every check has its
/// VC among those seen, and a check is blocked if and only if its VC is not
/// admitted; it is then among those blocked.
#[verifier::opaque]
pub open spec fn accounted(checked: Seq<Access>, gate: GateState) -> bool {
    &&& gate.orderly()
    &&& forall|k: int|
        0 <= k < checked.len() ==> {
            &&& gate.seen.contains((#[trigger] checked[k]).vc)
            &&& checked[k].verdict is HitlBlocked <==> !gate.admits(checked[k].vc, checked[k].class)
            &&& checked[k].verdict is HitlBlocked ==> gate.blocked.contains(checked[k].vc)
        }
}

proof fn lemma_accounted_put(checked: Seq<Access>, gate: GateState, vc: Seq<char>, class: Seq<char>)
    ensures
        accounted(checked, gate) ==> accounted(checked, gate.after(vc, class)),
{
    reveal(accounted);
    lemma_contains_push(gate.seen, vc);
    lemma_contains_push(gate.blocked, vc);
    if accounted(checked, gate) {
        gate.law_after_orderly(vc, class);
    }
}

proof fn lemma_accounted_check(checked: Seq<Access>, gate: GateState, access: Access)
    requires
        access.verdict is HitlBlocked <==> !gate.admits(access.vc, access.class),
    ensures
        accounted(checked, gate) ==> accounted(
            checked.push(access),
            gate.after(access.vc, access.class),
        ),
{
    reveal(accounted);
    lemma_accounted_put(checked, gate, access.vc, access.class);
    lemma_contains_push(gate.seen, access.vc);
    lemma_contains_push(gate.blocked, access.vc);
    if accounted(checked, gate) {
        let longer = checked.push(access);
        let next = gate.after(access.vc, access.class);
        assert forall|k: int| 0 <= k < longer.len() implies {
            &&& next.seen.contains((#[trigger] longer[k]).vc)
            &&& longer[k].verdict is HitlBlocked <==> !next.admits(longer[k].vc, longer[k].class)
            &&& longer[k].verdict is HitlBlocked ==> next.blocked.contains(longer[k].vc)
        } by {
            if k < checked.len() {
                assert(longer[k] == checked[k]);
            }
        }
    }
}

proof fn lemma_same(s: State, settings: Settings)
    ensures
        s.leads_to(settings, s),
{
    reveal(State::leads_to);
}

proof fn lemma_chain(settings: Settings, a: State, b: State, c: State)
    requires
        a.leads_to(settings, b),
        b.leads_to(settings, c),
    ensures
        a.leads_to(settings, c),
{
    reveal(State::leads_to);
}

proof fn lemma_mark(s: State, settings: Settings, reason: Seq<char>)
    ensures
        s.leads_to(settings, s.mark(reason)),
{
    reveal(State::leads_to);
}

proof fn lemma_unfollow(s: State, settings: Settings, reason: Seq<char>)
    ensures
        s.leads_to(settings, s.unfollow(reason)),
{
    reveal(State::leads_to);
}

proof fn lemma_fail(s: State, settings: Settings, message: Seq<char>)
    ensures
        s.leads_to(settings, s.fail(message)),
{
    reveal(State::leads_to);
}

proof fn lemma_put(s: State, settings: Settings, vc: Seq<char>, class: Seq<char>)
    ensures
        s.leads_to(settings, s.put(vc, class)),
        s.leads_to(settings, State { dma_vcs: s.dma_vcs + 1, ..s.put(vc, class) }),
        s.leads_to(settings, State { irq_race_vcs: s.irq_race_vcs + 1, ..s.put(vc, class) }),
        settings.assembly is Conservative ==> s.leads_to(
            settings,
            State { inline_asm_vcs: s.inline_asm_vcs + 1, ..s.put(vc, class) },
        ),
{
    reveal(State::leads_to);
    let t = s.put(vc, class);
    lemma_accounted_put(s.checked, s.gate, vc, class);
    assert(s.gate.seen =~= t.gate.seen.subrange(0, s.gate.seen.len() as int));
}

pub(crate) proof fn lemma_access(
    s: State,
    settings: Settings,
    site: Site,
    kind: Seq<char>,
    access: Seq<char>,
    operation: Seq<char>,
    alloc_id: nat,
    offset: int,
    len: nat,
    gave_up: bool,
)
    ensures
        s.leads_to(
            settings,
            s.access(site, kind, access, operation, alloc_id, offset, len, gave_up),
        ),
{
    reveal(State::leads_to);
    let t = s.access(site, kind, access, operation, alloc_id, offset, len, gave_up);
    lemma_accounted_check(s.checked, s.gate, t.checked.last());
    assert(s.checked =~= t.checked.subrange(0, s.checked.len() as int));
}

proof fn lemma_dma_check(
    s: State,
    settings: Settings,
    site: Site,
    place: (nat, int),
    len: nat,
    gave_up: bool,
)
    ensures
        s.leads_to(settings, s.dma_check(site, place, len, gave_up)),
{
    reveal(State::leads_to);
    let t = s.dma_check(site, place, len, gave_up);
    lemma_accounted_check(s.checked, s.gate, t.checked.last());
    assert(s.checked =~= t.checked.subrange(0, s.checked.len() as int));
}

proof fn lemma_race(
    s: State,
    settings: Settings,
    site: Site,
    operation: Seq<char>,
    alloc_id: nat,
)
    ensures
        s.leads_to(settings, s.race(site, operation, alloc_id)),
{
    let vc = site.vc("irq_race_"@ + operation);
    let class = "class::irq_race::alloc"@ + decimal(alloc_id);
    let next = State { irq_race_vcs: s.irq_race_vcs + 1, ..s.put(vc, class) };
    lemma_put(s, settings, vc, class);
    let blocked = "HITL gate blocked IRQ race VC: "@ + vc;
    let race = "Potential IRQ race: interrupt handler may free allocation "@
        + decimal(alloc_id) + " before "@ + operation + " in "@ + site.function;
    lemma_mark(next, settings, blocked);
    lemma_mark(next, settings, race);
    lemma_chain(settings, s, next, next.mark(blocked));
    lemma_chain(settings, s, next, next.mark(race));
}

proof fn lemma_touch(
    s: State,
    settings: Settings,
    site: Site,
    operation: Seq<char>,
    no_size: Seq<char>,
    place: (nat, int),
    len: Option<nat>,
    gave_up: bool,
)
    ensures
        s.leads_to(settings, s.touch(settings, site, operation, no_size, place, len, gave_up)),
{
    if s.allocs[place.0 as int].freed {
        lemma_fail(
            s,
            settings,
            "Use-after-free "@ + operation + " in function "@ + site.function,
        );
    } else {
        match len {
            None => lemma_mark(s, settings, no_size),
            Some(n) => {
                let next = s.access(
                    site,
                    operation,
                    operation,
                    operation,
                    place.0,
                    place.1,
                    n,
                    gave_up,
                );
                lemma_access(
                    s,
                    settings,
                    site,
                    operation,
                    operation,
                    operation,
                    place.0,
                    place.1,
                    n,
                    gave_up,
                );
                lemma_race(next, settings, site, operation, place.0);
                lemma_chain(settings, s, next, next.race(site, operation, place.0));
            },
        }
    }
}

proof fn lemma_allocate(s: State, settings: Settings, size: u64, dma: bool, dest: Option<Name>)
    ensures
        s.leads_to(settings, s.allocate(size, dma, dest)),
{
    reveal(State::leads_to);
}

pub(crate) proof fn lemma_fill(
    s: State,
    settings: Settings,
    site: Site,
    kind: Seq<char>,
    access: Seq<char>,
    operation: Seq<char>,
    op: Operand,
    len: nat,
    gave_up: bool,
)
    ensures
        s.leads_to(settings, s.fill(site, kind, access, operation, op, len, gave_up)),
{
    lemma_same(s, settings);
    lemma_unfollow(s, settings, access + " through pointer of unknown provenance"@);
    if let Some(place) = target(s, op) {
        lemma_fail(
            s,
            settings,
            "Use-after-free in "@ + access + " in function "@ + site.function,
        );
        lemma_access(s, settings, site, kind, access, operation, place.0, place.1, len, gave_up);
    }
}

proof fn lemma_kcalloc(s: State, settings: Settings, call: Call)
    ensures
        s.leads_to(settings, s.kmalloc(call)),
        s.leads_to(settings, s.kcalloc(call)),
{
    assert forall|reason: Seq<char>| s.leads_to(settings, #[trigger] s.mark(reason)) by {
        lemma_mark(s, settings, reason);
    }
    assert forall|message: Seq<char>| s.leads_to(settings, #[trigger] s.fail(message)) by {
        lemma_fail(s, settings, message);
    }
    assert forall|size: u64|
        s.leads_to(settings, #[trigger] s.allocate(size, false, call.dest)) by {
        lemma_allocate(s, settings, size, false, call.dest);
    }
}

proof fn lemma_kfree(s: State, settings: Settings, site: Site, call: Call)
    ensures
        s.leads_to(settings, s.kfree(site, call)),
{
    reveal(State::leads_to);
}

proof fn lemma_memset(s: State, settings: Settings, site: Site, call: Call, gave_up: bool)
    ensures
        s.leads_to(settings, s.memset(site, call, gave_up)),
{
    lemma_same(s, settings);
    lemma_unfollow(s, settings, "memset missing destination argument"@);
    lemma_unfollow(s, settings, "memset through pointer of unknown provenance"@);
    lemma_mark(s, settings, "memset missing length argument"@);
    lemma_mark(s, settings, "memset with non-constant length unsupported"@);
    if let Some(len) = const_value(call.arguments@[2]) {
        lemma_fill(
            s,
            settings,
            site,
            "memset"@,
            "memset"@,
            "memset"@,
            call.arguments@[0],
            len as nat,
            gave_up,
        );
    }
}

proof fn lemma_memcpy(s: State, settings: Settings, site: Site, call: Call, gave_up: (bool, bool))
    ensures
        s.leads_to(settings, s.memcpy(site, call, gave_up)),
{
    lemma_same(s, settings);
    lemma_unfollow(s, settings, "memcpy missing destination argument"@);
    lemma_mark(s, settings, "memcpy missing source argument"@);
    lemma_mark(s, settings, "memcpy missing length argument"@);
    lemma_mark(s, settings, "memcpy with non-constant length unsupported"@);
    if let Some(len) = const_value(call.arguments@[2]) {
        lemma_fill(
            s,
            settings,
            site,
            "memcpy_destination"@,
            "memcpy destination"@,
            "memcpy"@,
            call.arguments@[0],
            len as nat,
            gave_up.0,
        );
        let next = s.fill(
            site,
            "memcpy_destination"@,
            "memcpy destination"@,
            "memcpy"@,
            call.arguments@[0],
            len as nat,
            gave_up.0,
        );
        lemma_fill(
            next,
            settings,
            site,
            "memcpy_source"@,
            "memcpy source"@,
            "memcpy"@,
            call.arguments@[1],
            len as nat,
            gave_up.1,
        );
        lemma_chain(
            settings,
            s,
            next,
            next.fill(
                site,
                "memcpy_source"@,
                "memcpy source"@,
                "memcpy"@,
                call.arguments@[1],
                len as nat,
                gave_up.1,
            ),
        );
    }
}

proof fn lemma_dma(s: State, settings: Settings, site: Site, call: Call, gave_up: bool)
    ensures
        s.leads_to(settings, s.dma_alloc(site, call)),
        s.leads_to(settings, s.dma_map(site, call, gave_up)),
{
    lemma_same(s, settings);
    assert forall|reason: Seq<char>| s.leads_to(settings, #[trigger] s.mark(reason)) by {
        lemma_mark(s, settings, reason);
    }
    if let Some(size) = const_value(call.arguments@[1]) {
        let next = s.allocate(size, true, call.dest);
        lemma_allocate(s, settings, size, true, call.dest);
        let vc = site.vc("dma_alloc"@);
        let class = vc_class_text("dma_alloc"@, size as nat);
        lemma_put(next, settings, vc, class);
        let last = State { dma_vcs: next.dma_vcs + 1, ..next }.put(vc, class);
        assert(last == State { dma_vcs: next.dma_vcs + 1, ..next.put(vc, class) });
        lemma_chain(settings, s, next, last);
    }
    lemma_unfollow(s, settings, "dma_map_single on pointer of unknown provenance"@);
    if let Some(size) = const_value(call.arguments@[2]) {
        if let Some(place) = target(s, call.arguments@[1]) {
            lemma_dma_check(s, settings, site, place, size as nat, gave_up);
        }
    }
}

proof fn lemma_iommu_map(s: State, settings: Settings, call: Call)
    ensures
        s.leads_to(settings, s.iommu_map(call)),
{
    reveal(State::leads_to);
}

proof fn lemma_assembly(s: State, settings: Settings, site: Site, text: Seq<char>)
    requires
        !(s.result is Fail),
    ensures
        s.leads_to(settings, s.assembly(settings, site, text)),
{
    match settings.assembly {
        InlineAsmPolicy::Trap => {
            reveal(State::leads_to);
        },
        InlineAsmPolicy::Conservative => {
            lemma_same(s, settings);
            let vc = site.vc("inline_asm"@);
            let class = "class::inline_asm::opaque"@;
            lemma_put(s, settings, vc, class);
            let next = State { inline_asm_vcs: s.inline_asm_vcs + 1, ..s.put(vc, class) };
            assert(State { inline_asm_vcs: s.inline_asm_vcs + 1, ..s }.put(vc, class) == next);
            assert forall|reason: Seq<char>| s.leads_to(settings, #[trigger] next.mark(reason)) by {
                lemma_mark(next, settings, reason);
                lemma_chain(settings, s, next, next.mark(reason));
            }
        },
    }
}

proof fn lemma_call(s: State, settings: Settings, site: Site, call: Call, gave_up: (bool, bool))
    requires
        !(s.result is Fail),
    ensures
        s.leads_to(settings, s.call(settings, site, call, gave_up)),
{
    lemma_same(s, settings);
    lemma_kcalloc(s, settings, call);
    lemma_kfree(s, settings, site, call);
    lemma_memset(s, settings, site, call, gave_up.0);
    lemma_memcpy(s, settings, site, call, gave_up);
    lemma_dma(s, settings, site, call, gave_up.0);
    lemma_iommu_map(s, settings, call);
    if let Callee::InlineAssembly(text) = call.function {
        lemma_assembly(s, settings, site, text@);
    }
}

proof fn lemma_pointer_arithmetic(s: State, settings: Settings, gep: GetElementPtr)
    ensures
        s.leads_to(settings, s.gep(settings, gep)),
{
    reveal(State::leads_to);
}

proof fn lemma_casts(s: State, settings: Settings, cast: Cast)
    ensures
        s.leads_to(settings, s.ptr_to_int(cast)),
        s.leads_to(settings, s.int_to_ptr(cast)),
        s.leads_to(settings, s.bit_cast(cast)),
{
    reveal(State::leads_to);
}

proof fn lemma_binary(s: State, settings: Settings, op: BinaryOp)
    ensures
        s.leads_to(settings, s.add_int(op)),
        s.leads_to(settings, s.sub_int(op)),
{
    reveal(State::leads_to);
}

proof fn lemma_store(
    s: State,
    settings: Settings,
    site: Site,
    address: Operand,
    value: Operand,
    gave_up: bool,
)
    ensures
        s.leads_to(settings, s.store(settings, site, address, value, gave_up)),
{
    let spilled = s.spill(address, value);
    assert(s.leads_to(settings, spilled)) by {
        reveal(State::leads_to);
    }
    let reason = "Store through pointer of unknown provenance"@;
    lemma_unfollow(spilled, settings, reason);
    lemma_chain(settings, s, spilled, spilled.unfollow(reason));
    if let Some(place) = target(s, address) {
        let len = operand_size(settings.types, value);
        let no_size = "Store with unknown value type size"@;
        let next = spilled.touch(settings, site, "store"@, no_size, place, len, gave_up);
        lemma_touch(spilled, settings, site, "store"@, no_size, place, len, gave_up);
        lemma_chain(settings, s, spilled, next);
    }
}

proof fn lemma_load(
    s: State,
    settings: Settings,
    site: Site,
    address: Operand,
    dest: Name,
    loaded_ty: Type,
    gave_up: bool,
)
    ensures
        s.leads_to(settings, s.load(settings, site, address, dest, loaded_ty, gave_up)),
{
    let recovered = s.reload(address, dest);
    assert(s.leads_to(settings, recovered)) by {
        reveal(State::leads_to);
    }
    let reason = "Load through pointer of unknown provenance"@;
    lemma_unfollow(recovered, settings, reason);
    lemma_chain(settings, s, recovered, recovered.unfollow(reason));
    if let Some(place) = target(recovered, address) {
        let len = size_of_type(settings.types, loaded_ty);
        let no_size = "Load with unknown type size"@;
        let next = recovered.touch(settings, site, "load"@, no_size, place, len, gave_up);
        lemma_touch(recovered, settings, site, "load"@, no_size, place, len, gave_up);
        lemma_chain(settings, s, recovered, next);
    }
}

pub(crate) proof fn lemma_step(
    s: State,
    settings: Settings,
    site: Site,
    instr: Instruction,
    gave_up: (bool, bool),
)
    ensures
        s.leads_to(settings, s.step(settings, site, instr, gave_up)),
{
    lemma_same(s, settings);
    if !(s.result is Fail) {
        match instr {
            Instruction::Alloca { dest } => {
                reveal(State::leads_to);
            },
            Instruction::Call(call) => lemma_call(s, settings, site, call, gave_up),
            Instruction::GetElementPtr(gep) => lemma_pointer_arithmetic(s, settings, gep),
            Instruction::PtrToInt(cast) => lemma_casts(s, settings, cast),
            Instruction::IntToPtr(cast) => lemma_casts(s, settings, cast),
            Instruction::BitCast(cast) => lemma_casts(s, settings, cast),
            Instruction::Add(op) => lemma_binary(s, settings, op),
            Instruction::Sub(op) => lemma_binary(s, settings, op),
            Instruction::Store { address, value } => lemma_store(
                s,
                settings,
                site,
                address,
                value,
                gave_up.0,
            ),
            Instruction::Load { address, dest, loaded_ty } => lemma_load(
                s,
                settings,
                site,
                address,
                dest,
                loaded_ty,
                gave_up.0,
            ),
            Instruction::OtherAccess => lemma_unfollow(
                s,
                settings,
                "Unsupported memory access instruction"@,
            ),
            Instruction::Other => {},
        }
    }
}

pub(crate) proof fn lemma_inside(s: State, settings: Settings, function: Seq<char>)
    ensures
        s.leads_to(settings, s.inside(function)),
{
    reveal(State::leads_to);
}

pub(crate) proof fn lemma_one_step(
    s: State,
    settings: Settings,
    at: (Site, Instruction),
    next: State,
)
    requires
        one_step(settings, s, at, next),
    ensures
        s.leads_to(settings, next),
{
    let here = s.inside(at.0.function);
    let gave_up = choose|gave_up: (bool, bool)|
        next == #[trigger] here.step(settings, at.0, at.1, gave_up);
    lemma_inside(s, settings, at.0.function);
    lemma_step(here, settings, at.0, at.1, gave_up);
    lemma_chain(settings, s, here, next);
}

} // verus!
