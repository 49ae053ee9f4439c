//! Which faults an analysis finds, and how it follows pointers to find them.
use crate::assembly::safe_inline_asm;
use crate::hitl::vc_class_text;
use crate::ir::{
    called_name, const_value, gep_distance, local_name, operand_size, size_of_type, BinaryOp, Call,
    Callee, Cast, Instruction, Name, Operand, Type,
};
use crate::machine::{
    is_slot, lookup, lookup_local, one_step, place_of, target, Derived, Pointer, Settings, Site,
    State,
};
use crate::solver::out_of_bounds;
use vstd::prelude::*;

verus! {

// ---- loads and stores ----

/// The load replaces the very pointer that it goes through: it reads a stack
/// slot with a remembered pointer into the name of the slot.
pub open spec fn reloads_itself(s: State, address: Operand, dest: Name) -> bool {
    &&& local_name(address) == Some(dest@)
    &&& s.alloca_names.contains(dest@)
    &&& s.alloca_store.contains_key(dest@)
}

/// A store through a pointer to freed memory fails.
pub proof fn law_store_after_free(
    s: State,
    settings: Settings,
    site: Site,
    address: Operand,
    value: Operand,
    gave_up: (bool, bool),
    place: (nat, int),
)
    requires
        target(s, address) == Some(place),
        s.allocs[place.0 as int].freed,
    ensures
        s.step(settings, site, Instruction::Store { address, value }, gave_up).result is Fail,
{
}

/// A load through a pointer to freed memory fails.
pub proof fn law_load_after_free(
    s: State,
    settings: Settings,
    site: Site,
    address: Operand,
    dest: Name,
    loaded_ty: Type,
    gave_up: (bool, bool),
    place: (nat, int),
)
    requires
        !reloads_itself(s, address, dest),
        target(s, address) == Some(place),
        s.allocs[place.0 as int].freed,
    ensures
        s.step(settings, site, Instruction::Load { address, dest, loaded_ty }, gave_up).result
            is Fail,
{
}

/// A store through a pointer to live memory is checked; out of bounds it fails
/// unless its VC is blocked or the solver gives up.
pub proof fn law_store_is_checked(
    s: State,
    settings: Settings,
    site: Site,
    address: Operand,
    value: Operand,
    gave_up: (bool, bool),
    place: (nat, int),
    len: nat,
)
    requires
        !(s.result is Fail),
        target(s, address) == Some(place),
        !s.allocs[place.0 as int].freed,
        operand_size(settings.types, value) == Some(len),
    ensures
        ({
            let next = s.step(settings, site, Instruction::Store { address, value }, gave_up);
            let oob = out_of_bounds(s.allocs[place.0 as int].size as int, place.1, len as int);
            let class = vc_class_text("store"@, len);
            &&& next.checked == s.checked.push(next.checked.last())
            &&& next.checked.last().vc == site.vc("store"@)
            &&& next.checked.last().class == class
            &&& next.checked.last().alloc_id == place.0
            &&& next.checked.last().offset == place.1
            &&& next.checked.last().len == len
            &&& oob && s.gate.admits(site.vc("store"@), class) && !gave_up.0 ==> next.result is Fail
        }),
{
}

/// A load through a pointer to live memory is checked; out of bounds it fails
/// unless its VC is blocked or the solver gives up.
pub proof fn law_load_is_checked(
    s: State,
    settings: Settings,
    site: Site,
    address: Operand,
    dest: Name,
    loaded_ty: Type,
    gave_up: (bool, bool),
    place: (nat, int),
    len: nat,
)
    requires
        !(s.result is Fail),
        !reloads_itself(s, address, dest),
        target(s, address) == Some(place),
        !s.allocs[place.0 as int].freed,
        size_of_type(settings.types, loaded_ty) == Some(len),
    ensures
        ({
            let next = s.step(
                settings,
                site,
                Instruction::Load { address, dest, loaded_ty },
                gave_up,
            );
            let oob = out_of_bounds(s.allocs[place.0 as int].size as int, place.1, len as int);
            let class = vc_class_text("load"@, len);
            &&& next.checked == s.checked.push(next.checked.last())
            &&& next.checked.last().vc == site.vc("load"@)
            &&& next.checked.last().class == class
            &&& next.checked.last().alloc_id == place.0
            &&& next.checked.last().offset == place.1
            &&& next.checked.last().len == len
            &&& oob && s.gate.admits(site.vc("load"@), class) && !gave_up.0 ==> next.result is Fail
        }),
{
}

// ---- calls ----

/// The call frees the allocation `alloc_id`.
pub open spec fn frees(s: State, call: Call, alloc_id: nat) -> bool {
    &&& called_name(call) == Some("kfree"@)
    &&& call.arguments@.len() > 0
    &&& lookup_local(s.ptr_env, call.arguments@[0]) matches Some(
        Pointer::Kmalloc { alloc_id: id, .. },
    ) && id == alloc_id
}

/// Freeing an allocation marks it as freed.
pub proof fn law_free_marks(
    s: State,
    settings: Settings,
    site: Site,
    call: Call,
    gave_up: (bool, bool),
    alloc_id: nat,
)
    requires
        s.well_formed(settings),
        !(s.result is Fail),
        frees(s, call, alloc_id),
        !s.allocs[alloc_id as int].freed,
    ensures
        s.step(settings, site, Instruction::Call(call), gave_up).allocs[alloc_id as int].freed,
{
    lemma_names();
}

/// Freeing twice what two pointers refer to fails, whichever pointers they are.
pub proof fn law_double_free(
    s: State,
    settings: Settings,
    first: (Site, Call),
    second: (Site, Call),
    gave_up: (bool, bool),
    alloc_id: nat,
)
    requires
        s.well_formed(settings),
        frees(s, first.1, alloc_id),
        frees(s, second.1, alloc_id),
    ensures
        s.step(settings, first.0, Instruction::Call(first.1), gave_up).step(
            settings,
            second.0,
            Instruction::Call(second.1),
            gave_up,
        ).result is Fail,
{
    lemma_names();
    let next = s.step(settings, first.0, Instruction::Call(first.1), gave_up);
    assert(next == s || next == s.kfree(first.0, first.1));
}

/// The names of the handled functions differ.
pub(crate) proof fn lemma_names()
    ensures
        "kfree"@ != "kmalloc"@,
        "kfree"@ != "kzalloc"@,
        "kfree"@ != "kcalloc"@,
        "memset"@ != "kmalloc"@,
        "memset"@ != "kzalloc"@,
        "memset"@ != "kcalloc"@,
        "memset"@ != "kfree"@,
        "memcpy"@ != "kmalloc"@,
        "memcpy"@ != "kzalloc"@,
        "memcpy"@ != "kcalloc"@,
        "memcpy"@ != "kfree"@,
        "memcpy"@ != "memset"@,
        "__memcpy"@ != "kmalloc"@,
        "__memcpy"@ != "kzalloc"@,
        "__memcpy"@ != "kcalloc"@,
        "__memcpy"@ != "kfree"@,
        "__memcpy"@ != "memset"@,
        "dma_map_single"@ != "kmalloc"@,
        "dma_map_single"@ != "kzalloc"@,
        "dma_map_single"@ != "kcalloc"@,
        "dma_map_single"@ != "kfree"@,
        "dma_map_single"@ != "memset"@,
        "dma_map_single"@ != "memcpy"@,
        "dma_map_single"@ != "__memcpy"@,
        "dma_map_single"@ != "dma_alloc_coherent"@,
{
    reveal_strlit("kmalloc");
    reveal_strlit("kzalloc");
    reveal_strlit("kcalloc");
    reveal_strlit("kfree");
    reveal_strlit("memset");
    reveal_strlit("memcpy");
    reveal_strlit("__memcpy");
    reveal_strlit("dma_map_single");
    reveal_strlit("dma_alloc_coherent");
    assert("kfree"@.len() == 5 && "memset"@.len() == 6 && "memcpy"@.len() == 6);
    assert("__memcpy"@.len() == 8 && "dma_map_single"@.len() == 14);
    assert("memset"@[3] != "memcpy"@[3]);
}

/// The call copies memory.
pub open spec fn copies(call: Call) -> bool {
    called_name(call) == Some("memcpy"@) || called_name(call) == Some("__memcpy"@)
}

/// `memset` on freed memory fails.
pub proof fn law_memset_after_free(
    s: State,
    settings: Settings,
    site: Site,
    call: Call,
    gave_up: (bool, bool),
    place: (nat, int),
)
    requires
        called_name(call) == Some("memset"@),
        call.arguments@.len() > 2,
        const_value(call.arguments@[2]) is Some,
        target(s, call.arguments@[0]) == Some(place),
        s.allocs[place.0 as int].freed,
    ensures
        s.step(settings, site, Instruction::Call(call), gave_up).result is Fail,
{
    lemma_names();
}

/// `memcpy` from or to freed memory fails.
pub proof fn law_memcpy_after_free(
    s: State,
    settings: Settings,
    site: Site,
    call: Call,
    gave_up: (bool, bool),
    side: int,
    place: (nat, int),
)
    requires
        copies(call),
        call.arguments@.len() > 2,
        const_value(call.arguments@[2]) is Some,
        0 <= side < 2,
        target(s, call.arguments@[side]) == Some(place),
        s.allocs[place.0 as int].freed,
    ensures
        s.step(settings, site, Instruction::Call(call), gave_up).result is Fail,
{
    lemma_names();
}

/// `memset` on live memory is checked; out of bounds it fails unless its VC is
/// blocked or the solver gives up.
pub proof fn law_memset_is_checked(
    s: State,
    settings: Settings,
    site: Site,
    call: Call,
    gave_up: (bool, bool),
    place: (nat, int),
    len: nat,
)
    requires
        !(s.result is Fail),
        called_name(call) == Some("memset"@),
        call.arguments@.len() > 2,
        const_value(call.arguments@[2]) == Some(len as u64),
        len <= u64::MAX,
        target(s, call.arguments@[0]) == Some(place),
        !s.allocs[place.0 as int].freed,
    ensures
        ({
            let next = s.step(settings, site, Instruction::Call(call), gave_up);
            let oob = out_of_bounds(s.allocs[place.0 as int].size as int, place.1, len as int);
            let class = vc_class_text("memset"@, len);
            &&& next.checked == s.checked.push(next.checked.last())
            &&& next.checked.last().vc == site.vc("memset"@)
            &&& next.checked.last().class == class
            &&& next.checked.last().alloc_id == place.0
            &&& next.checked.last().offset == place.1
            &&& next.checked.last().len == len
            &&& oob && s.gate.admits(site.vc("memset"@), class) && !gave_up.0
                ==> next.result is Fail
        }),
{
    lemma_names();
}

/// `memcpy` to live memory is checked; out of bounds it fails unless its VC is
/// blocked or the solver gives up. So is, behind a destination that is no
/// failure, `memcpy` from live memory.
pub proof fn law_memcpy_is_checked(
    s: State,
    settings: Settings,
    site: Site,
    call: Call,
    gave_up: (bool, bool),
    to: (nat, int),
    from: (nat, int),
    len: nat,
)
    requires
        !(s.result is Fail),
        copies(call),
        call.arguments@.len() > 2,
        const_value(call.arguments@[2]) == Some(len as u64),
        len <= u64::MAX,
        target(s, call.arguments@[0]) == Some(to),
        target(s, call.arguments@[1]) == Some(from),
        !s.allocs[to.0 as int].freed,
        !s.allocs[from.0 as int].freed,
    ensures
        ({
            let next = s.step(settings, site, Instruction::Call(call), gave_up);
            let behind_to = out_of_bounds(s.allocs[to.0 as int].size as int, to.1, len as int);
            let behind_from = out_of_bounds(
                s.allocs[from.0 as int].size as int,
                from.1,
                len as int,
            );
            let to_class = vc_class_text("memcpy_destination"@, len);
            let from_class = vc_class_text("memcpy_source"@, len);
            &&& s.checked.len() < next.checked.len()
            &&& next.checked[s.checked.len() as int].vc == site.vc("memcpy_destination"@)
            &&& next.checked[s.checked.len() as int].alloc_id == to.0
            &&& behind_to && s.gate.admits(site.vc("memcpy_destination"@), to_class) && !gave_up.0
                ==> next.result is Fail
            &&& behind_from && s.gate.admits(site.vc("memcpy_source"@), from_class) && !gave_up.1
                ==> next.result is Fail
        }),
{
    lemma_names();
    let next = s.fill(
        site,
        "memcpy_destination"@,
        "memcpy destination"@,
        "memcpy"@,
        call.arguments@[0],
        len,
        gave_up.0,
    );
    assert(next.allocs == s.allocs && next.ptr_env == s.ptr_env);
    assert(s.step(settings, site, Instruction::Call(call), gave_up) == s.memcpy(
        site,
        call,
        gave_up,
    ));
}

/// A DMA mapping of a pointer to an allocation is checked, unless DMA is
/// ignored; out of bounds it fails unless its VC is blocked or the solver gives
/// up.
pub proof fn law_dma_map_is_checked(
    s: State,
    settings: Settings,
    site: Site,
    call: Call,
    gave_up: (bool, bool),
    place: (nat, int),
    len: nat,
)
    requires
        !(s.result is Fail),
        !(settings.dma is Ignore),
        called_name(call) == Some("dma_map_single"@),
        call.arguments@.len() > 2,
        const_value(call.arguments@[2]) == Some(len as u64),
        len <= u64::MAX,
        target(s, call.arguments@[1]) == Some(place),
    ensures
        ({
            let next = s.step(settings, site, Instruction::Call(call), gave_up);
            let oob = out_of_bounds(s.allocs[place.0 as int].size as int, place.1, len as int);
            let class = vc_class_text("dma_bounds"@, len);
            &&& next.checked == s.checked.push(next.checked.last())
            &&& next.checked.last().vc == site.vc("dma_map"@)
            &&& next.checked.last().class == class
            &&& next.checked.last().alloc_id == place.0
            &&& next.checked.last().offset == place.1
            &&& next.checked.last().len == len
            &&& oob && s.gate.admits(site.vc("dma_map"@), class) && !gave_up.0
                ==> next.result is Fail
        }),
{
    lemma_names();
}

// ---- pointers that are followed ----

/// A pointer survives the way through an integer and back.
pub proof fn law_integer_round_trip(
    s: State,
    there: Cast,
    back: Cast,
    alloc_id: nat,
    offset: int,
)
    requires
        lookup_local(s.ptr_env, there.operand) == Some(Pointer::Kmalloc { alloc_id, offset }),
        local_name(back.operand) == Some(there.dest@),
    ensures
        lookup(s.ptr_to_int(there).int_to_ptr(back).ptr_env, back.dest@) == Some(
            Pointer::Kmalloc { alloc_id, offset },
        ),
{
}

/// Adding a constant to a pointer-derived integer and subtracting it again gives
/// the integer back.
pub proof fn law_add_then_subtract(
    s: State,
    plus: BinaryOp,
    minus: BinaryOp,
    alloc_id: nat,
    offset: int,
)
    requires
        lookup_local(s.int_env, plus.operand0) == Some(Derived::PtrOffset { alloc_id, offset }),
        const_value(plus.operand1) is Some,
        const_value(minus.operand1) == const_value(plus.operand1),
        local_name(minus.operand0) == Some(plus.dest@),
    ensures
        lookup(s.add_int(plus).sub_int(minus).int_env, minus.dest@) == Some(
            Derived::PtrOffset { alloc_id, offset },
        ),
{
}

/// A constant may stand on either side of an addition.
pub proof fn law_addition_commutes(s: State, a: BinaryOp, b: BinaryOp, alloc_id: nat, offset: int)
    requires
        lookup_local(s.int_env, a.operand0) == Some(Derived::PtrOffset { alloc_id, offset }),
        const_value(a.operand1) is Some,
        b.operand0 == a.operand1,
        b.operand1 == a.operand0,
        b.dest == a.dest,
    ensures
        s.add_int(a) == s.add_int(b),
{
}

/// A pointer that is stored in a stack slot comes back from it, unless the
/// accesses themselves fail.
pub proof fn law_spill_and_reload(
    s: State,
    settings: Settings,
    spill: Site,
    reload: Site,
    slot: Operand,
    value: Operand,
    dest: Name,
    loaded_ty: Type,
    gave_up: (bool, bool),
    pointer: Pointer,
)
    requires
        local_name(slot) is Some,
        s.alloca_names.contains(local_name(slot)->0),
        lookup_local(s.ptr_env, value) == Some(pointer),
    ensures
        ({
            let next = s.step(
                settings,
                spill,
                Instruction::Store { address: slot, value },
                gave_up,
            ).step(settings, reload, Instruction::Load { address: slot, dest, loaded_ty }, gave_up);
            next.result is Fail || lookup(next.ptr_env, dest@) == Some(pointer)
        }),
{
}

/// A cast of a pointer keeps where it points.
pub proof fn law_cast_keeps_pointer(s: State, cast: Cast, pointer: Pointer)
    requires
        lookup_local(s.ptr_env, cast.operand) == Some(pointer),
    ensures
        lookup(s.bit_cast(cast).ptr_env, cast.dest@) == Some(pointer),
{
}

// ---- patterns that the analysis does not follow ----

/// The call has an argument at `index`, and it is a constant.
pub open spec fn has_constant(call: Call, index: int) -> bool {
    index < call.arguments@.len() && const_value(call.arguments@[index]) is Some
}

/// A call of a known function whose arguments the analysis cannot follow, such
/// as a pointer of unknown provenance, or assembly that is not known to be
/// harmless.
pub open spec fn unsupported_call(s: State, settings: Settings, call: Call) -> bool {
    match called_name(call) {
        Some(name) => if name == "kmalloc"@ || name == "kzalloc"@ {
            !has_constant(call, 0)
        } else if name == "kcalloc"@ {
            !has_constant(call, 0) || !has_constant(call, 1)
        } else if name == "kfree"@ {
            forall|alloc_id: nat| !(#[trigger] frees(s, call, alloc_id))
        } else if name == "memset"@ {
            !has_constant(call, 2) || target(s, call.arguments@[0]) is None
        } else if name == "memcpy"@ || name == "__memcpy"@ {
            !has_constant(call, 2) || target(s, call.arguments@[0]) is None || target(
                s,
                call.arguments@[1],
            ) is None
        } else if name == "dma_alloc_coherent"@ && !(settings.dma is Ignore) {
            !has_constant(call, 1)
        } else if name == "dma_map_single"@ && !(settings.dma is Ignore) {
            !has_constant(call, 2) || target(s, call.arguments@[1]) is None
        } else {
            false
        },
        None => match call.function {
            Callee::InlineAssembly(text) => !safe_inline_asm(text@),
            _ => false,
        },
    }
}

/// An integer that was derived from a pointer, or from what was once one.
pub open spec fn derived(s: State, op: Operand) -> bool {
    lookup_local(s.int_env, op) is Some
}

/// An integer that points into an allocation, moved by a constant.
pub open spec fn moved(s: State, op: Operand, by: Operand) -> bool {
    &&& lookup_local(s.int_env, op) matches Some(Derived::PtrOffset { .. })
    &&& const_value(by) is Some
}

/// A pattern that the analysis meets on its way but does not follow: among them
/// every access through a pointer of unknown provenance that is no stack slot.
pub open spec fn unsupported(s: State, settings: Settings, instr: Instruction) -> bool {
    match instr {
        Instruction::Call(call) => unsupported_call(s, settings, call),
        Instruction::GetElementPtr(gep) => match local_name(gep.address) {
            None => true,
            Some(base) => {
                let found = if s.ptr_env.contains_key(base) {
                    lookup(s.ptr_env, base)
                } else {
                    lookup(s.alloca_store, base)
                };
                found is Some && place_of(found->0) is Some && gep_distance(
                    settings.types,
                    gep.source_element_type,
                    gep.indices@,
                ) is None
            },
        },
        Instruction::PtrToInt(cast) => local_name(cast.operand) is None,
        Instruction::IntToPtr(cast) => local_name(cast.operand) is None,
        Instruction::BitCast(cast) => local_name(cast.operand) is None,
        Instruction::Add(op) => {
            &&& derived(s, op.operand0) || derived(s, op.operand1)
            &&& !moved(s, op.operand0, op.operand1) && !moved(s, op.operand1, op.operand0)
        },
        Instruction::Sub(op) => {
            ||| derived(s, op.operand1)
            ||| derived(s, op.operand0) && !moved(s, op.operand0, op.operand1)
        },
        Instruction::Store { address, value } => match target(s, address) {
            Some(_) => operand_size(settings.types, value) is None,
            None => !is_slot(s, address),
        },
        Instruction::Load { address, dest, loaded_ty } => match target(s, address) {
            Some(_) => !reloads_itself(s, address, dest) && size_of_type(
                settings.types,
                loaded_ty,
            ) is None,
            None => !is_slot(s, address),
        },
        Instruction::OtherAccess => true,
        _ => false,
    }
}

/// A pattern that the analysis does not follow is never passed over: behind it
/// the analysis no longer passes.
pub proof fn law_unsupported_never_passes(
    s: State,
    settings: Settings,
    site: Site,
    instr: Instruction,
    gave_up: (bool, bool),
)
    requires
        unsupported(s, settings, instr),
    ensures
        !s.step(settings, site, instr, gave_up).passes(),
{
    match instr {
        Instruction::Call(call) => {
            if let Some(Pointer::Kmalloc { alloc_id, .. }) = lookup_local(
                s.ptr_env,
                call.arguments@[0],
            ) {
                assert(called_name(call) == Some("kfree"@) && call.arguments@.len() > 0 ==> frees(
                    s,
                    call,
                    alloc_id,
                ));
            }
            assert(!(s.result is Fail) ==> !s.call(settings, site, call, gave_up).passes());
        },
        _ => {},
    }
}

/// Names mean nothing outside their function: behind an access through a name
/// that only another function bound the analysis no longer passes.
pub proof fn law_names_end_with_their_function(
    s: State,
    settings: Settings,
    at: (Site, Instruction),
    next: State,
)
    requires
        s.scope != at.0.function,
        at.1 is Load || at.1 is Store,
        one_step(settings, s, at, next),
    ensures
        !next.passes(),
{
    let here = s.inside(at.0.function);
    let gave_up = choose|gave_up: (bool, bool)|
        next == #[trigger] here.step(settings, at.0, at.1, gave_up);
    law_unsupported_never_passes(here, settings, at.0, at.1, gave_up);
}

} // verus!
