//! What comes of every access: what it is checked against, what is recorded, and
//! when it fails, is unknown or leaves the result alone.
use crate::assembly::safe_inline_asm;
use crate::hitl::{vc_class_text, GateState};
use crate::ir::{
    called_name, operand_size, size_of_type, Call, Callee, Instruction, Name, NameId, Operand, Type,
};
use crate::laws::tracking::lemma_all_names;
use crate::laws::vocabulary::{
    calls_global, clouded, holds_pointer, is_approved, is_local, is_number, lies_within, points_at,
    points_nowhere, with_record,
};
use crate::machine::{target, Pointer, Settings, Site, State};
use crate::modes::DmaPolicy;
use crate::solver::out_of_bounds;
use crate::text::decimal;
use crate::verdict::Finding;
use vstd::prelude::*;

verus! {

/// An access is out of bounds if and only if some of its bytes, or its beginning,
/// lie outside the allocation.
pub proof fn law_bounds(size: int, offset: int, len: int)
    ensures
        out_of_bounds(size, offset, len) <==> !lies_within(offset, len, size),
        0 < len ==> (out_of_bounds(size, offset, len) <==> exists|k: int|
            offset <= k < offset + len && !(0 <= #[trigger] byte(k) < size)),
{
    if 0 < len {
        if out_of_bounds(size, offset, len) {
            if offset < 0 {
                assert(byte(offset) == offset);
            } else {
                assert(byte(offset + len - 1) == offset + len - 1);
            }
        }
    }
}

/// The byte with the number `k`.
pub open spec fn byte(k: int) -> int {
    k
}

/// What the human-in-the-loop gate admits and records.
pub proof fn law_gate(gate: GateState, vc: Seq<char>, class: Seq<char>)
    ensures
        gate.admits(vc, class) == is_approved(gate, vc, class),
        gate.after(vc, class) == with_record(gate, vc, class),
{
    assert(gate.seen.push(vc) =~= gate.seen + seq![vc]);
    assert(gate.seen_classes.push(class) =~= gate.seen_classes + seq![class]);
    assert(gate.blocked.push(vc) =~= gate.blocked + seq![vc]);
    assert(gate.blocked_classes.push(class) =~= gate.blocked_classes + seq![class]);
}

/// What a finding becomes when it is marked.
pub proof fn law_marking(result: Finding, reason: Seq<char>)
    ensures
        result.marked(reason) == clouded(result, reason),
{
}

// ---- one access ----

/// The state after a bound check, but for what the check found: it is on record,
/// and names, allocations and counters are as they were.
pub open spec fn is_recorded(s: State, next: State, vc: Seq<char>, class: Seq<char>) -> bool {
    &&& next.checked.len() == s.checked.len() + 1
    &&& next == State {
        gate: with_record(s.gate, vc, class),
        checked: next.checked,
        result: next.result,
        ..s
    }
}

/// `next` is what comes of a bound check of `len` bytes at `place`: a failure where
/// the solver finds that they leave the allocation, no change where it finds that
/// they do not, and otherwise unknown.
pub open spec fn is_judged(
    s: State,
    next: State,
    vc: Seq<char>,
    class: Seq<char>,
    place: (nat, int),
    len: nat,
    gave_up: bool,
    failure: Seq<char>,
    undecided: Seq<char>,
    unapproved: Seq<char>,
) -> bool {
    let within = lies_within(place.1, len as int, s.allocs[place.0 as int].size as int);
    &&& is_recorded(s, next, vc, class)
    &&& next.result == (if !is_approved(s.gate, vc, class) {
        clouded(s.result, unapproved + vc)
    } else if gave_up {
        clouded(s.result, undecided)
    } else if within {
        s.result
    } else {
        Finding::Fail(failure)
    })
}

/// `next` is what comes of a load or store of `len` bytes at `place`.
pub open spec fn is_touched(
    s: State,
    next: State,
    settings: Settings,
    site: Site,
    operation: Seq<char>,
    no_size: Seq<char>,
    place: (nat, int),
    len: Option<nat>,
    gave_up: bool,
) -> bool {
    let failure = Finding::Fail("Use-after-free "@ + operation + " in function "@ + site.function);
    if s.allocs[place.0 as int].freed {
        next == State { result: failure, ..s }
    } else {
        match len {
            None => next == State { result: clouded(s.result, no_size), ..s },
            Some(n) => exists|mid: State|
                {
                    &&& #[trigger] is_judged(
                        s,
                        mid,
                        site.vc(operation),
                        vc_class_text(operation, n),
                        place,
                        n,
                        gave_up,
                        "Out-of-bounds "@ + operation + " in function "@ + site.function,
                        "Solver returned unknown for "@ + operation + " bound check"@,
                        "HITL gate blocked unapproved VC: "@,
                    )
                    &&& mid.result is Fail || !settings.irq_risk ==> next == mid
                    &&& !(mid.result is Fail) && settings.irq_risk ==> {
                        let vc = site.vc("irq_race_"@ + operation);
                        let class = "class::irq_race::alloc"@ + decimal(place.0);
                        &&& next == State {
                            gate: with_record(mid.gate, vc, class),
                            irq_race_vcs: mid.irq_race_vcs + 1,
                            result: next.result,
                            ..mid
                        }
                        &&& next.result == clouded(
                            mid.result,
                            if is_approved(mid.gate, vc, class) {
                                "Potential IRQ race: interrupt handler may free allocation "@
                                    + decimal(place.0) + " before "@ + operation + " in "@
                                    + site.function
                            } else {
                                "HITL gate blocked IRQ race VC: "@ + vc
                            },
                        )
                    }
                },
        }
    }
}

proof fn lemma_access(
    s: State,
    site: Site,
    kind: Seq<char>,
    access: Seq<char>,
    operation: Seq<char>,
    place: (nat, int),
    len: nat,
    gave_up: bool,
)
    ensures
        is_judged(
            s,
            s.access(site, kind, access, operation, place.0, place.1, len, gave_up),
            site.vc(kind),
            vc_class_text(kind, len),
            place,
            len,
            gave_up,
            "Out-of-bounds "@ + access + " in function "@ + site.function,
            "Solver returned unknown for "@ + operation + " bound check"@,
            "HITL gate blocked unapproved VC: "@,
        ),
{
    law_gate(s.gate, site.vc(kind), vc_class_text(kind, len));
}

proof fn lemma_touch(
    s: State,
    settings: Settings,
    site: Site,
    operation: Seq<char>,
    no_size: Seq<char>,
    place: (nat, int),
    len: Option<nat>,
    gave_up: bool,
)
    ensures
        is_touched(
            s,
            s.touch(settings, site, operation, no_size, place, len, gave_up),
            settings,
            site,
            operation,
            no_size,
            place,
            len,
            gave_up,
        ),
{
    if let Some(n) = len {
        lemma_access(s, site, operation, operation, operation, place, n, gave_up);
        let mid = s.access(site, operation, operation, operation, place.0, place.1, n, gave_up);
        let vc = site.vc("irq_race_"@ + operation);
        let class = "class::irq_race::alloc"@ + decimal(place.0);
        law_gate(mid.gate, vc, class);
        assert(is_judged(
            s,
            mid,
            site.vc(operation),
            vc_class_text(operation, n),
            place,
            n,
            gave_up,
            "Out-of-bounds "@ + operation + " in function "@ + site.function,
            "Solver returned unknown for "@ + operation + " bound check"@,
            "HITL gate blocked unapproved VC: "@,
        ));
    }
}

/// A load through a pointer to an allocation is judged by the size of what is
/// loaded, and where an interrupt handler may free memory it raises one race VC
/// more.
pub proof fn law_load_is_judged(
    s: State,
    settings: Settings,
    site: Site,
    address: Operand,
    dest: Name,
    loaded_ty: Type,
    gave_up: (bool, bool),
    place: (nat, int),
)
    requires
        !(s.result is Fail),
        points_at(s, address, place.0, place.1),
        forall|name: NameId| is_local(address, name) ==> !(#[trigger] s.alloca_names.contains(name)),
    ensures
        is_touched(
            s,
            s.step(settings, site, Instruction::Load { address, dest, loaded_ty }, gave_up),
            settings,
            site,
            "load"@,
            "Load with unknown type size"@,
            place,
            size_of_type(settings.types, loaded_ty),
            gave_up.0,
        ),
{
    let name = address->LocalOperand_name@;
    assert(is_local(address, name));
    assert(!s.alloca_names.contains(name));
    lemma_touch(
        s,
        settings,
        site,
        "load"@,
        "Load with unknown type size"@,
        place,
        size_of_type(settings.types, loaded_ty),
        gave_up.0,
    );
}

/// A store through a pointer to an allocation is judged by the size of what is
/// stored, and where an interrupt handler may free memory it raises one race VC
/// more.
pub proof fn law_store_is_judged(
    s: State,
    settings: Settings,
    site: Site,
    address: Operand,
    value: Operand,
    gave_up: (bool, bool),
    place: (nat, int),
)
    requires
        !(s.result is Fail),
        points_at(s, address, place.0, place.1),
        forall|name: NameId| is_local(address, name) ==> !(#[trigger] s.alloca_names.contains(name)),
    ensures
        is_touched(
            s,
            s.step(settings, site, Instruction::Store { address, value }, gave_up),
            settings,
            site,
            "store"@,
            "Store with unknown value type size"@,
            place,
            operand_size(settings.types, value),
            gave_up.0,
        ),
{
    let name = address->LocalOperand_name@;
    assert(is_local(address, name));
    assert(!s.alloca_names.contains(name));
    lemma_touch(
        s,
        settings,
        site,
        "store"@,
        "Store with unknown value type size"@,
        place,
        operand_size(settings.types, value),
        gave_up.0,
    );
}

/// The size of an operand is that of its type.
pub proof fn law_operand_has_the_size_of_its_type(table: Map<Seq<char>, Type>, op: Operand)
    ensures
        match op {
            Operand::LocalOperand { ty, .. } => operand_size(table, op) == size_of_type(table, ty),
            Operand::ConstantOperand { ty, .. } => operand_size(table, op) == size_of_type(
                table,
                ty,
            ),
            Operand::MetadataOperand => operand_size(table, op) is None,
        },
{
}

// ---- calls ----

/// `memset` through a pointer to an allocation fails on freed memory, and is
/// otherwise judged by its length.
pub proof fn law_memset_is_judged(
    s: State,
    settings: Settings,
    site: Site,
    call: Call,
    gave_up: (bool, bool),
    place: (nat, int),
    len: u64,
)
    requires
        !(s.result is Fail),
        calls_global(call, "memset"@),
        call.arguments@.len() > 2,
        points_at(s, call.arguments@[0], place.0, place.1),
        is_number(call.arguments@[2], len),
    ensures
        ({
            let next = s.step(settings, site, Instruction::Call(call), gave_up);
            let failure = "Use-after-free in memset in function "@ + site.function;
            if s.allocs[place.0 as int].freed {
                next == State { result: Finding::Fail(failure), ..s }
            } else {
                is_judged(
                    s,
                    next,
                    site.vc("memset"@),
                    vc_class_text("memset"@, len as nat),
                    place,
                    len as nat,
                    gave_up.0,
                    "Out-of-bounds memset in function "@ + site.function,
                    "Solver returned unknown for memset bound check"@,
                    "HITL gate blocked unapproved VC: "@,
                )
            }
        }),
{
    lemma_all_names();
    lemma_texts();
    lemma_access(s, site, "memset"@, "memset"@, "memset"@, place, len as nat, gave_up.0);
}

/// Parts of messages, put together.
proof fn lemma_texts()
    ensures
        "Use-after-free in "@ + "memset"@ + " in function "@
            == "Use-after-free in memset in function "@,
        "Use-after-free in "@ + "memcpy destination"@ + " in function "@
            == "Use-after-free in memcpy destination in function "@,
        "Use-after-free in "@ + "memcpy source"@ + " in function "@
            == "Use-after-free in memcpy source in function "@,
        "Out-of-bounds "@ + "memset"@ + " in function "@ == "Out-of-bounds memset in function "@,
        "Out-of-bounds "@ + "memcpy destination"@ + " in function "@
            == "Out-of-bounds memcpy destination in function "@,
        "Out-of-bounds "@ + "memcpy source"@ + " in function "@
            == "Out-of-bounds memcpy source in function "@,
        "Solver returned unknown for "@ + "memset"@ + " bound check"@
            == "Solver returned unknown for memset bound check"@,
        "Solver returned unknown for "@ + "memcpy"@ + " bound check"@
            == "Solver returned unknown for memcpy bound check"@,
{
    reveal_strlit("Use-after-free in ");
    reveal_strlit("Out-of-bounds ");
    reveal_strlit("Solver returned unknown for ");
    reveal_strlit("memset");
    reveal_strlit("memcpy");
    reveal_strlit("memcpy destination");
    reveal_strlit("memcpy source");
    reveal_strlit(" in function ");
    reveal_strlit(" bound check");
    reveal_strlit("Use-after-free in memset in function ");
    reveal_strlit("Use-after-free in memcpy destination in function ");
    reveal_strlit("Use-after-free in memcpy source in function ");
    reveal_strlit("Out-of-bounds memset in function ");
    reveal_strlit("Out-of-bounds memcpy destination in function ");
    reveal_strlit("Out-of-bounds memcpy source in function ");
    reveal_strlit("Solver returned unknown for memset bound check");
    reveal_strlit("Solver returned unknown for memcpy bound check");
    assert("Use-after-free in "@ + "memset"@ + " in function "@
        =~= "Use-after-free in memset in function "@);
    assert("Use-after-free in "@ + "memcpy destination"@ + " in function "@
        =~= "Use-after-free in memcpy destination in function "@);
    assert("Use-after-free in "@ + "memcpy source"@ + " in function "@
        =~= "Use-after-free in memcpy source in function "@);
    assert("Out-of-bounds "@ + "memset"@ + " in function "@
        =~= "Out-of-bounds memset in function "@);
    assert("Out-of-bounds "@ + "memcpy destination"@ + " in function "@
        =~= "Out-of-bounds memcpy destination in function "@);
    assert("Out-of-bounds "@ + "memcpy source"@ + " in function "@
        =~= "Out-of-bounds memcpy source in function "@);
    assert("Solver returned unknown for "@ + "memset"@ + " bound check"@
        =~= "Solver returned unknown for memset bound check"@);
    assert("Solver returned unknown for "@ + "memcpy"@ + " bound check"@
        =~= "Solver returned unknown for memcpy bound check"@);
}

/// `next` is what comes of one side of a `memcpy`.
pub open spec fn is_copied(
    s: State,
    next: State,
    site: Site,
    kind: Seq<char>,
    freed: Seq<char>,
    failure: Seq<char>,
    place: (nat, int),
    len: nat,
    gave_up: bool,
) -> bool {
    if s.allocs[place.0 as int].freed {
        next == State { result: Finding::Fail(freed + site.function), ..s }
    } else {
        is_judged(
            s,
            next,
            site.vc(kind),
            vc_class_text(kind, len),
            place,
            len,
            gave_up,
            failure + site.function,
            "Solver returned unknown for memcpy bound check"@,
            "HITL gate blocked unapproved VC: "@,
        )
    }
}

/// `memcpy` is judged on both sides by its length: first where it writes, then,
/// unless that failed, where it reads.
pub proof fn law_memcpy_is_judged(
    s: State,
    settings: Settings,
    site: Site,
    call: Call,
    gave_up: (bool, bool),
    to: (nat, int),
    from: (nat, int),
    len: u64,
)
    requires
        !(s.result is Fail),
        calls_global(call, "memcpy"@) || calls_global(call, "__memcpy"@),
        call.arguments@.len() > 2,
        points_at(s, call.arguments@[0], to.0, to.1),
        points_at(s, call.arguments@[1], from.0, from.1),
        is_number(call.arguments@[2], len),
    ensures
        exists|mid: State|
            {
                let next = s.step(settings, site, Instruction::Call(call), gave_up);
                &&& #[trigger] is_copied(
                    s,
                    mid,
                    site,
                    "memcpy_destination"@,
                    "Use-after-free in memcpy destination in function "@,
                    "Out-of-bounds memcpy destination in function "@,
                    to,
                    len as nat,
                    gave_up.0,
                )
                &&& mid.result is Fail ==> next == mid
                &&& !(mid.result is Fail) ==> is_copied(
                    mid,
                    next,
                    site,
                    "memcpy_source"@,
                    "Use-after-free in memcpy source in function "@,
                    "Out-of-bounds memcpy source in function "@,
                    from,
                    len as nat,
                    gave_up.1,
                )
            },
{
    lemma_all_names();
    lemma_texts();
    let (a, b) = ("memcpy_destination"@, "memcpy destination"@);
    let (c, d) = ("memcpy_source"@, "memcpy source"@);
    let n = len as nat;
    let mid = s.fill(site, a, b, "memcpy"@, call.arguments@[0], n, gave_up.0);
    lemma_access(s, site, a, b, "memcpy"@, to, n, gave_up.0);
    assert(mid.ptr_env == s.ptr_env);
    lemma_access(mid, site, c, d, "memcpy"@, from, n, gave_up.1);
    assert(is_copied(
        s,
        mid,
        site,
        a,
        "Use-after-free in memcpy destination in function "@,
        "Out-of-bounds memcpy destination in function "@,
        to,
        n,
        gave_up.0,
    ));
}

/// A DMA mapping through a pointer to an allocation is judged by its length, unless
/// DMA is ignored. One that is not found safe counts as a DMA VC.
pub proof fn law_dma_map_is_judged(
    s: State,
    settings: Settings,
    site: Site,
    call: Call,
    gave_up: (bool, bool),
    place: (nat, int),
    len: u64,
)
    requires
        !(s.result is Fail),
        calls_global(call, "dma_map_single"@),
        call.arguments@.len() > 2,
        points_at(s, call.arguments@[1], place.0, place.1),
        is_number(call.arguments@[2], len),
    ensures
        ({
            let next = s.step(settings, site, Instruction::Call(call), gave_up);
            let vc = site.vc("dma_map"@);
            let class = vc_class_text("dma_bounds"@, len as nat);
            let safe = is_approved(s.gate, vc, class) && !gave_up.0 && lies_within(
                place.1,
                len as int,
                s.allocs[place.0 as int].size as int,
            );
            &&& settings.dma is Ignore ==> next == s
            &&& !(settings.dma is Ignore) ==> {
                &&& is_judged(
                    s,
                    State { dma_vcs: s.dma_vcs, ..next },
                    vc,
                    class,
                    place,
                    len as nat,
                    gave_up.0,
                    "DMA mapping exceeds allocation bounds in function "@ + site.function,
                    "Solver unknown for DMA mapping bound check"@,
                    "HITL gate blocked DMA VC: "@,
                )
                &&& next.dma_vcs == s.dma_vcs + (if safe {
                    0int
                } else {
                    1
                })
            }
        }),
{
    lemma_all_names();
    law_gate(s.gate, site.vc("dma_map"@), vc_class_text("dma_bounds"@, len as nat));
}

/// The call names none of the functions that the analysis knows.
pub open spec fn is_unknown_call(call: Call) -> bool {
    &&& !(call.function is InlineAssembly)
    &&& forall|name: Seq<char>| #[trigger]
        calls_global(call, name) ==> {
            &&& name != "kmalloc"@ && name != "kzalloc"@ && name != "kcalloc"@
            &&& name != "kfree"@
            &&& name != "memset"@ && name != "memcpy"@ && name != "__memcpy"@
            &&& name != "dma_alloc_coherent"@ && name != "dma_map_single"@
            &&& name != "iommu_map"@
        }
}

/// Any other call, and any instruction that touches no memory, changes nothing.
pub proof fn law_the_rest_is_left_alone(
    s: State,
    settings: Settings,
    site: Site,
    call: Call,
    gave_up: (bool, bool),
)
    ensures
        is_unknown_call(call) ==> s.step(settings, site, Instruction::Call(call), gave_up) == s,
        s.step(settings, site, Instruction::Other, gave_up) == s,
{
    if let Some(name) = called_name(call) {
        assert(calls_global(call, name));
    }
}

/// A failed analysis stays as it is, whatever comes.
pub proof fn law_failure_is_final(
    s: State,
    settings: Settings,
    site: Site,
    instr: Instruction,
    gave_up: (bool, bool),
)
    requires
        s.result is Fail,
    ensures
        s.step(settings, site, instr, gave_up) == s,
{
}

/// Inline assembly: the trap policy fails on any; else harmless text changes
/// nothing, and any other text raises one VC and is unknown.
pub proof fn law_assembly(
    s: State,
    settings: Settings,
    site: Site,
    call: Call,
    gave_up: (bool, bool),
    text: String,
)
    requires
        !(s.result is Fail),
        call.function == Callee::InlineAssembly(text),
    ensures
        ({
            let next = s.step(settings, site, Instruction::Call(call), gave_up);
            let vc = site.vc("inline_asm"@);
            let class = "class::inline_asm::opaque"@;
            if settings.assembly is Trap {
                next == State {
                    inline_asm_vcs: s.inline_asm_vcs + 1,
                    result: Finding::Fail(
                        "Inline assembly detected in function "@ + site.function
                            + " (trap policy)"@,
                    ),
                    ..s
                }
            } else if safe_inline_asm(text@) {
                next == s
            } else {
                next == State {
                    inline_asm_vcs: s.inline_asm_vcs + 1,
                    gate: with_record(s.gate, vc, class),
                    result: clouded(
                        s.result,
                        if is_approved(s.gate, vc, class) {
                            "Opaque inline assembly in function "@ + site.function + ": '"@
                                + text@ + "'"@
                        } else {
                            "HITL gate blocked inline asm VC: "@ + vc
                        },
                    ),
                    ..s
                }
            }
        }),
{
    law_gate(s.gate, site.vc("inline_asm"@), "class::inline_asm::opaque"@);
}

// ---- memory that is not followed ----

/// `next` notes that memory was not followed, keeps the first such note, and is
/// else as `s`.
pub open spec fn is_noted(s: State, next: State) -> bool {
    &&& next == State { unfollowed: next.unfollowed, ..s }
    &&& next.unfollowed is Some
    &&& s.unfollowed is Some ==> next.unfollowed == s.unfollowed
}

/// A load or store through what points nowhere known and is no stack slot is noted,
/// and changes nothing else.
pub proof fn law_unknown_access_is_noted(
    s: State,
    settings: Settings,
    site: Site,
    address: Operand,
    value: Operand,
    dest: Name,
    loaded_ty: Type,
    gave_up: (bool, bool),
)
    requires
        !(s.result is Fail),
        points_nowhere(s, address),
        forall|name: NameId| is_local(address, name) ==> !(#[trigger] s.alloca_names.contains(name)),
    ensures
        is_noted(s, s.step(settings, site, Instruction::Store { address, value }, gave_up)),
        is_noted(
            s,
            s.step(settings, site, Instruction::Load { address, dest, loaded_ty }, gave_up),
        ),
        is_noted(s, s.step(settings, site, Instruction::OtherAccess, gave_up)),
{
    lemma_nowhere(s, address);
    if address is LocalOperand {
        assert(is_local(address, address->LocalOperand_name@));
    }
}

proof fn lemma_nowhere(s: State, op: Operand)
    requires
        points_nowhere(s, op),
    ensures
        target(s, op) is None,
{
    if let Some(place) = target(s, op) {
        assert(points_at(s, op, place.0, place.1));
    }
}

/// A call that writes, reads, maps or frees through what points nowhere known is
/// noted, and changes nothing else.
pub proof fn law_unknown_argument_is_noted(
    s: State,
    settings: Settings,
    site: Site,
    call: Call,
    gave_up: (bool, bool),
    len: u64,
)
    requires
        !(s.result is Fail),
        call.arguments@.len() > 2,
        is_number(call.arguments@[2], len),
    ensures
        ({
            let next = s.step(settings, site, Instruction::Call(call), gave_up);
            let args = call.arguments@;
            &&& calls_global(call, "memset"@) && points_nowhere(s, args[0]) ==> is_noted(s, next)
            &&& calls_global(call, "memcpy"@) && points_nowhere(s, args[0]) && points_nowhere(
                s,
                args[1],
            ) ==> is_noted(s, next)
            &&& calls_global(call, "dma_map_single"@) && points_nowhere(s, args[1]) && !(
            settings.dma is Ignore) ==> is_noted(s, next)
            &&& calls_global(call, "kfree"@) && args[0] is LocalOperand && points_nowhere(
                s,
                args[0],
            ) ==> is_noted(s, next)
        }),
{
    lemma_all_names();
    if points_nowhere(s, call.arguments@[0]) {
        lemma_nowhere(s, call.arguments@[0]);
    }
    if points_nowhere(s, call.arguments@[1]) {
        lemma_nowhere(s, call.arguments@[1]);
    }
}

/// `kfree` of a freed allocation fails and changes nothing else.
pub proof fn law_second_free_fails(
    s: State,
    settings: Settings,
    site: Site,
    call: Call,
    gave_up: (bool, bool),
    alloc_id: nat,
    offset: int,
)
    requires
        !(s.result is Fail),
        calls_global(call, "kfree"@),
        call.arguments@.len() > 0,
        holds_pointer(s, call.arguments@[0], Pointer::Kmalloc { alloc_id, offset }),
        s.allocs[alloc_id as int].freed,
    ensures
        s.step(settings, site, Instruction::Call(call), gave_up) == (State {
            result: Finding::Fail("Double free detected in function "@ + site.function),
            ..s
        }),
{
    lemma_all_names();
}

// ---- the end of an analysis ----

/// The result of an analysis: where an IOMMU is required and a DMA allocation is
/// not mapped, a failure that names the first such allocation; else what was found;
/// and a pass only where no memory was left unfollowed.
pub proof fn law_final_result(end: State, dma: DmaPolicy, k: int)
    ensures
        dma is RequireIommu && 0 <= k < end.allocs.len() && end.allocs[k].dma
            && !end.allocs[k].mapped && (forall|j: int|
            0 <= j < k ==> !(#[trigger] end.allocs[j]).dma || end.allocs[j].mapped)
            ==> end.finished(dma) == Finding::Fail(
            "DMA allocation "@ + decimal(k as nat)
                + " has no paired iommu_map call (require-iommu policy)"@,
        ),
        !(dma is RequireIommu) || (forall|j: int|
            0 <= j < end.allocs.len() ==> !(#[trigger] end.allocs[j]).dma || end.allocs[j].mapped)
            ==> end.finished(dma) == (match end.unfollowed {
            Some(reason) => clouded(end.result, reason),
            None => end.result,
        }),
{
    if dma is RequireIommu && 0 <= k < end.allocs.len() && end.allocs[k].dma
        && !end.allocs[k].mapped && (forall|j: int|
        0 <= j < k ==> !(#[trigger] end.allocs[j]).dma || end.allocs[j].mapped) {
        assert(end.unmapped(k));
        assert forall|j: int| 0 <= j < k implies !end.unmapped(j) by {
            assert(!end.allocs[j].dma || end.allocs[j].mapped);
        }
        let first = choose|id: int|
            end.unmapped(id) && forall|j: int| 0 <= j < id ==> !end.unmapped(j);
        assert(end.unmapped(first) && forall|j: int| 0 <= j < first ==> !end.unmapped(j));
        assert(first == k) by {
            if first < k {
                assert(!end.unmapped(first));
            } else if k < first {
                assert(!end.unmapped(k));
            }
        }
    }
}

/// `memcpy` with one side that points nowhere known is noted, and its other side is
/// judged all the same.
pub proof fn law_memcpy_with_an_unknown_side(
    s: State,
    settings: Settings,
    site: Site,
    call: Call,
    gave_up: (bool, bool),
    place: (nat, int),
    len: u64,
)
    requires
        !(s.result is Fail),
        calls_global(call, "memcpy"@) || calls_global(call, "__memcpy"@),
        call.arguments@.len() > 2,
        is_number(call.arguments@[2], len),
    ensures
        points_at(s, call.arguments@[0], place.0, place.1) && points_nowhere(
            s,
            call.arguments@[1],
        ) ==> exists|mid: State|
            {
                let next = s.step(settings, site, Instruction::Call(call), gave_up);
                &&& #[trigger] is_copied(
                    s,
                    mid,
                    site,
                    "memcpy_destination"@,
                    "Use-after-free in memcpy destination in function "@,
                    "Out-of-bounds memcpy destination in function "@,
                    place,
                    len as nat,
                    gave_up.0,
                )
                &&& mid.result is Fail ==> next == mid
                &&& !(mid.result is Fail) ==> is_noted(mid, next)
            },
        points_nowhere(s, call.arguments@[0]) && points_at(
            s,
            call.arguments@[1],
            place.0,
            place.1,
        ) ==> exists|mid: State|
            {
                let next = s.step(settings, site, Instruction::Call(call), gave_up);
                &&& #[trigger] is_noted(s, mid)
                &&& is_copied(
                    mid,
                    next,
                    site,
                    "memcpy_source"@,
                    "Use-after-free in memcpy source in function "@,
                    "Out-of-bounds memcpy source in function "@,
                    place,
                    len as nat,
                    gave_up.1,
                )
            },
{
    lemma_all_names();
    lemma_texts();
    let (a, b) = ("memcpy_destination"@, "memcpy destination"@);
    let (c, d) = ("memcpy_source"@, "memcpy source"@);
    let n = len as nat;
    let mid = s.fill(site, a, b, "memcpy"@, call.arguments@[0], n, gave_up.0);
    assert(mid.ptr_env == s.ptr_env);
    if points_nowhere(s, call.arguments@[1]) {
        lemma_nowhere(s, call.arguments@[1]);
        if points_at(s, call.arguments@[0], place.0, place.1) {
            lemma_access(s, site, a, b, "memcpy"@, place, n, gave_up.0);
            assert(is_copied(
                s,
                mid,
                site,
                a,
                "Use-after-free in memcpy destination in function "@,
                "Out-of-bounds memcpy destination in function "@,
                place,
                n,
                gave_up.0,
            ));
        }
    }
    if points_nowhere(s, call.arguments@[0]) {
        lemma_nowhere(s, call.arguments@[0]);
        if points_at(s, call.arguments@[1], place.0, place.1) {
            assert(is_noted(s, mid));
            lemma_access(mid, site, c, d, "memcpy"@, place, n, gave_up.1);
        }
    }
}

} // verus!
