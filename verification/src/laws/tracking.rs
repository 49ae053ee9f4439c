//! How every instruction moves pointers, integers and allocations, and what it
//! leaves alone.
use crate::faults::{frees, unsupported};
use crate::hitl::vc_class_text;
use crate::ir::{
    called_name, const_value, gep_distance, local_name, walked, BinaryOp, Call, Callee, Cast,
    GetElementPtr, Instruction, Name, NameId, Operand, Type,
};
use crate::laws::checks::law_gate;
use crate::laws::vocabulary::{
    calls_global, fresh, holds_pointer, is_local, is_number, points_at, points_into,
    points_nowhere, with_record,
};
use crate::layout::{law_rounded, scalar, scalar_align};
use crate::machine::{
    lookup_local, place_in, place_of, target, Allocation, Derived, Pointer, Settings, Site, State,
};
use vstd::prelude::*;

verus! {

// ---- integers ----

/// The local value that the operand names is an integer at `offset` in `alloc_id`.
pub open spec fn holds_integer(s: State, op: Operand, alloc_id: nat, offset: int) -> bool {
    op is LocalOperand && s.int_env.contains_key(op->LocalOperand_name@)
        && s.int_env[op->LocalOperand_name@] == (Derived::PtrOffset { alloc_id, offset })
}

/// The operand names no integer that came from a pointer.
pub open spec fn is_plain(s: State, op: Operand) -> bool {
    op is LocalOperand ==> !s.int_env.contains_key(op->LocalOperand_name@)
}

/// Adding the constant `n` to an integer at `offset` in an allocation gives one at
/// `offset + n`, on whichever side the constant stands. Nothing else changes.
pub proof fn law_addition_moves(
    s: State,
    settings: Settings,
    site: Site,
    op: BinaryOp,
    gave_up: (bool, bool),
    alloc_id: nat,
    offset: int,
    n: u64,
)
    requires
        !(s.result is Fail),
        holds_integer(s, op.operand0, alloc_id, offset) && is_number(op.operand1, n)
            || holds_integer(s, op.operand1, alloc_id, offset) && is_number(op.operand0, n),
    ensures
        s.step(settings, site, Instruction::Add(op), gave_up) == (State {
            int_env: s.int_env.insert(
                op.dest@,
                Derived::PtrOffset { alloc_id, offset: offset + n },
            ),
            ..s
        }),
{
}

/// Subtracting the constant `n` from an integer at `offset` in an allocation gives
/// one at `offset - n`. Nothing else changes.
pub proof fn law_subtraction_moves(
    s: State,
    settings: Settings,
    site: Site,
    op: BinaryOp,
    gave_up: (bool, bool),
    alloc_id: nat,
    offset: int,
    n: u64,
)
    requires
        !(s.result is Fail),
        holds_integer(s, op.operand0, alloc_id, offset),
        is_number(op.operand1, n),
    ensures
        s.step(settings, site, Instruction::Sub(op), gave_up) == (State {
            int_env: s.int_env.insert(
                op.dest@,
                Derived::PtrOffset { alloc_id, offset: offset - n },
            ),
            ..s
        }),
{
}

/// Arithmetic on plain numbers is left alone.
pub proof fn law_plain_arithmetic_is_left_alone(
    s: State,
    settings: Settings,
    site: Site,
    op: BinaryOp,
    gave_up: (bool, bool),
)
    requires
        is_plain(s, op.operand0),
        is_plain(s, op.operand1),
    ensures
        s.step(settings, site, Instruction::Add(op), gave_up) == s,
        s.step(settings, site, Instruction::Sub(op), gave_up) == s,
{
}

/// Other arithmetic on an integer that came from a pointer forgets where it
/// points, and is not passed over.
pub proof fn law_other_arithmetic_forgets(
    s: State,
    settings: Settings,
    site: Site,
    op: BinaryOp,
    gave_up: (bool, bool),
)
    requires
        !(s.result is Fail),
        !(op.operand0 is ConstantOperand),
        !(op.operand1 is ConstantOperand),
        !is_plain(s, op.operand0) || !is_plain(s, op.operand1),
    ensures
        ({
            let sum = s.step(settings, site, Instruction::Add(op), gave_up);
            let difference = s.step(settings, site, Instruction::Sub(op), gave_up);
            &&& !sum.passes() && !difference.passes()
            &&& sum.int_env == s.int_env.insert(op.dest@, Derived::Unknown)
            &&& difference.int_env == s.int_env.insert(op.dest@, Derived::Unknown)
            &&& sum.ptr_env == s.ptr_env && difference.ptr_env == s.ptr_env
            &&& sum.allocs == s.allocs && difference.allocs == s.allocs
        }),
{
}

/// A pointer into a heap allocation, as an integer, is at the same place; any
/// other is not followed. Nothing else changes.
pub proof fn law_pointer_to_integer(
    s: State,
    settings: Settings,
    site: Site,
    cast: Cast,
    gave_up: (bool, bool),
    alloc_id: nat,
    offset: int,
)
    requires
        !(s.result is Fail),
        cast.operand is LocalOperand,
    ensures
        ({
            let next = s.step(settings, site, Instruction::PtrToInt(cast), gave_up);
            &&& next.int_env.contains_key(cast.dest@)
            &&& next == State {
                int_env: s.int_env.insert(cast.dest@, next.int_env[cast.dest@]),
                ..s
            }
            &&& next.int_env[cast.dest@] == (Derived::PtrOffset { alloc_id, offset })
                <==> holds_pointer(s, cast.operand, Pointer::Kmalloc { alloc_id, offset })
        }),
{
}

/// An integer at a place in a heap allocation, as a pointer, points to that
/// place; any other points nowhere. Nothing else changes.
pub proof fn law_integer_to_pointer(
    s: State,
    settings: Settings,
    site: Site,
    cast: Cast,
    gave_up: (bool, bool),
    alloc_id: nat,
    offset: int,
)
    requires
        !(s.result is Fail),
        cast.operand is LocalOperand,
    ensures
        ({
            let next = s.step(settings, site, Instruction::IntToPtr(cast), gave_up);
            &&& next.ptr_env.contains_key(cast.dest@)
            &&& next == State {
                ptr_env: s.ptr_env.insert(cast.dest@, next.ptr_env[cast.dest@]),
                ..s
            }
            &&& next.ptr_env[cast.dest@] == (Pointer::Kmalloc { alloc_id, offset })
                <==> holds_integer(s, cast.operand, alloc_id, offset)
            &&& !(next.ptr_env[cast.dest@] is DmaAlloc)
        }),
{
}

// ---- pointers ----

/// A cast pointer points where it pointed; a value that is no known pointer
/// becomes none. Nothing else changes.
pub proof fn law_cast_moves_nothing(
    s: State,
    settings: Settings,
    site: Site,
    cast: Cast,
    gave_up: (bool, bool),
)
    requires
        !(s.result is Fail),
        cast.operand is LocalOperand,
    ensures
        ({
            let next = s.step(settings, site, Instruction::BitCast(cast), gave_up);
            let name = cast.operand->LocalOperand_name@;
            next == State {
                ptr_env: s.ptr_env.insert(
                    cast.dest@,
                    if s.ptr_env.contains_key(name) {
                        s.ptr_env[name]
                    } else {
                        Pointer::Unknown
                    },
                ),
                ..s
            }
        }),
{
}

/// The pointer that a computation begins from: the binding of its base, or else
/// what the stack slot of that name remembers.
pub open spec fn begins_from(s: State, base: Operand, pointer: Pointer) -> bool {
    ||| holds_pointer(s, base, pointer)
    ||| {
        &&& base is LocalOperand
        &&& !s.ptr_env.contains_key(base->LocalOperand_name@)
        &&& s.alloca_store.contains_key(base->LocalOperand_name@)
        &&& s.alloca_store[base->LocalOperand_name@] == pointer
    }
}

/// A pointer computation whose indices lead `distance` bytes on moves a pointer by
/// just that, within its allocation and whatever its kind. Nothing else changes.
pub proof fn law_computation_moves(
    s: State,
    settings: Settings,
    site: Site,
    gep: GetElementPtr,
    gave_up: (bool, bool),
    alloc_id: nat,
    offset: int,
    distance: nat,
)
    requires
        !(s.result is Fail),
        gep_distance(settings.types, gep.source_element_type, gep.indices@) == Some(distance),
    ensures
        ({
            let next = s.step(settings, site, Instruction::GetElementPtr(gep), gave_up);
            let dest = gep.dest@;
            &&& begins_from(s, gep.address, Pointer::Kmalloc { alloc_id, offset }) ==> next == State {
                ptr_env: s.ptr_env.insert(
                    dest,
                    Pointer::Kmalloc { alloc_id, offset: offset + distance },
                ),
                ..s
            }
            &&& begins_from(s, gep.address, Pointer::DmaAlloc { alloc_id, offset }) ==> next == State {
                ptr_env: s.ptr_env.insert(
                    dest,
                    Pointer::DmaAlloc { alloc_id, offset: offset + distance },
                ),
                ..s
            }
        }),
{
}

proof fn lemma_integer_size(bits: u32)
    requires
        bits == 8 || bits == 16 || bits == 32 || bits == 64 || bits == 128,
    ensures
        scalar(bits as int).size * 8 == bits,
{
    let bytes = (bits as int + 7) / 8;
    law_rounded(bytes, scalar_align(bytes) as int);
    assert(bytes % scalar_align(bytes) as int == 0);
}

/// With one index `n` into integers of `w` bytes, a pointer of either kind moves by
/// `n * w` bytes.
pub proof fn law_one_index_scales(
    s: State,
    settings: Settings,
    site: Site,
    gep: GetElementPtr,
    gave_up: (bool, bool),
    alloc_id: nat,
    offset: int,
    n: u64,
    w: nat,
)
    requires
        !(s.result is Fail),
        w == 1 || w == 2 || w == 4 || w == 8 || w == 16,
        gep.source_element_type == (Type::IntegerType { bits: (8 * w) as u32 }),
        gep.indices@.len() == 1,
        is_number(gep.indices@[0], n),
        n * w <= u64::MAX,
        points_at(s, gep.address, alloc_id, offset),
    ensures
        ({
            let next = s.step(settings, site, Instruction::GetElementPtr(gep), gave_up);
            &&& next.ptr_env.contains_key(gep.dest@)
            &&& holds_pointer(s, gep.address, Pointer::Kmalloc { alloc_id, offset })
                ==> next.ptr_env[gep.dest@] == (Pointer::Kmalloc {
                alloc_id,
                offset: offset + n * w,
            })
            &&& holds_pointer(s, gep.address, Pointer::DmaAlloc { alloc_id, offset })
                ==> next.ptr_env[gep.dest@] == (Pointer::DmaAlloc {
                alloc_id,
                offset: offset + n * w,
            })
        }),
{
    lemma_integer_size((8 * w) as u32);
    assert(gep.indices@.drop_last() =~= Seq::empty());
    reveal_with_fuel(walked, 2);
    assert(gep_distance(settings.types, gep.source_element_type, gep.indices@) == Some(
        (n * w) as nat,
    ));
    law_computation_moves(
        s,
        settings,
        site,
        gep,
        gave_up,
        alloc_id,
        offset,
        (n * w) as nat,
    );
}

/// A computation from a pointer into an allocation whose indices lead nowhere known
/// forgets the pointer and is not passed over. From any other local value it gives
/// no pointer, and leaves the result alone.
pub proof fn law_computation_forgets(
    s: State,
    settings: Settings,
    site: Site,
    gep: GetElementPtr,
    gave_up: (bool, bool),
    alloc_id: nat,
    offset: int,
)
    requires
        !(s.result is Fail),
        gep.address is LocalOperand,
    ensures
        ({
            let next = s.step(settings, site, Instruction::GetElementPtr(gep), gave_up);
            let led = gep_distance(settings.types, gep.source_element_type, gep.indices@);
            let heap = begins_from(s, gep.address, Pointer::Kmalloc { alloc_id, offset });
            let dma = begins_from(s, gep.address, Pointer::DmaAlloc { alloc_id, offset });
            let forgotten = s.ptr_env.insert(gep.dest@, Pointer::Unknown);
            &&& (heap || dma) && led is None ==> !next.passes() && next.ptr_env == forgotten
            &&& begins_from(s, gep.address, Pointer::Unknown) ==> next == State {
                ptr_env: forgotten,
                ..s
            }
            &&& !s.ptr_env.contains_key(gep.address->LocalOperand_name@)
                && !s.alloca_store.contains_key(gep.address->LocalOperand_name@) ==> next == State {
                ptr_env: forgotten,
                ..s
            }
        }),
{
}

// ---- allocations ----

/// The state with one more allocation, whose address, with offset zero, is in the
/// destination of the call.
pub open spec fn with_allocation(s: State, call: Call, size: u64, dma: bool) -> State {
    let next = State { allocs: s.allocs.push(fresh(size, dma)), ..s };
    let alloc_id = s.allocs.len();
    match call.dest {
        None => next,
        Some(name) => State {
            ptr_env: s.ptr_env.insert(
                name@,
                if dma {
                    Pointer::DmaAlloc { alloc_id, offset: 0 }
                } else {
                    Pointer::Kmalloc { alloc_id, offset: 0 }
                },
            ),
            ..next
        },
    }
}

/// `kmalloc` and `kzalloc` of a constant size make one live allocation of that
/// size. Nothing else changes.
pub proof fn law_kmalloc_allocates(
    s: State,
    settings: Settings,
    site: Site,
    call: Call,
    gave_up: (bool, bool),
    size: u64,
)
    requires
        !(s.result is Fail),
        calls_global(call, "kmalloc"@) || calls_global(call, "kzalloc"@),
        call.arguments@.len() > 0,
        is_number(call.arguments@[0], size),
    ensures
        s.step(settings, site, Instruction::Call(call), gave_up) == with_allocation(
            s,
            call,
            size,
            false,
        ),
{
}

/// `kcalloc` of constant numbers makes one live allocation of their product, or
/// fails where that does not fit.
pub proof fn law_kcalloc_allocates(
    s: State,
    settings: Settings,
    site: Site,
    call: Call,
    gave_up: (bool, bool),
    count: u64,
    size: u64,
)
    requires
        !(s.result is Fail),
        calls_global(call, "kcalloc"@),
        call.arguments@.len() > 1,
        is_number(call.arguments@[0], count),
        is_number(call.arguments@[1], size),
    ensures
        ({
            let next = s.step(settings, site, Instruction::Call(call), gave_up);
            &&& count * size <= u64::MAX ==> next == with_allocation(
                s,
                call,
                (count * size) as u64,
                false,
            )
            &&& count * size > u64::MAX ==> next.result is Fail && next.allocs == s.allocs
        }),
{
    lemma_all_names();
}

/// `dma_alloc_coherent` of a constant size makes one live DMA allocation of that
/// size and one VC, unless DMA is ignored.
pub proof fn law_dma_alloc_allocates(
    s: State,
    settings: Settings,
    site: Site,
    call: Call,
    gave_up: (bool, bool),
    size: u64,
)
    requires
        !(s.result is Fail),
        calls_global(call, "dma_alloc_coherent"@),
        call.arguments@.len() > 1,
        is_number(call.arguments@[1], size),
    ensures
        ({
            let next = s.step(settings, site, Instruction::Call(call), gave_up);
            &&& settings.dma is Ignore ==> next == s
            &&& !(settings.dma is Ignore) ==> next == State {
                dma_vcs: s.dma_vcs + 1,
                gate: with_record(
                    s.gate,
                    site.vc("dma_alloc"@),
                    vc_class_text("dma_alloc"@, size as nat),
                ),
                ..with_allocation(s, call, size, true)
            }
        }),
{
    lemma_all_names();
    law_gate(s.gate, site.vc("dma_alloc"@), vc_class_text("dma_alloc"@, size as nat));
}

/// `iommu_map` changes nothing but which allocations are mapped.
pub proof fn law_iommu_map_only_maps(
    s: State,
    settings: Settings,
    site: Site,
    call: Call,
    gave_up: (bool, bool),
    k: int,
)
    requires
        !(s.result is Fail),
        calls_global(call, "iommu_map"@),
        0 <= k < s.allocs.len(),
    ensures
        ({
            let next = s.step(settings, site, Instruction::Call(call), gave_up);
            &&& next == State { allocs: next.allocs, ..s }
            &&& next.allocs.len() == s.allocs.len()
            &&& next.allocs[k] == Allocation { mapped: next.allocs[k].mapped, ..s.allocs[k] }
        }),
{
    lemma_all_names();
}

/// The names of the handled functions differ.
pub(crate) proof fn lemma_all_names()
    ensures
        "kcalloc"@ != "kmalloc"@,
        "kcalloc"@ != "kzalloc"@,
        "dma_alloc_coherent"@.len() == 18,
        "iommu_map"@.len() == 9,
        "kmalloc"@.len() == 7,
        "kzalloc"@.len() == 7,
        "kcalloc"@.len() == 7,
        "kfree"@.len() == 5,
        "memset"@.len() == 6,
        "memcpy"@.len() == 6,
        "__memcpy"@.len() == 8,
        "dma_map_single"@.len() == 14,
        "memset"@ != "memcpy"@,
{
    reveal_strlit("kmalloc");
    reveal_strlit("kzalloc");
    reveal_strlit("kcalloc");
    reveal_strlit("kfree");
    reveal_strlit("memset");
    reveal_strlit("memcpy");
    reveal_strlit("__memcpy");
    reveal_strlit("dma_map_single");
    reveal_strlit("dma_alloc_coherent");
    reveal_strlit("iommu_map");
    assert("kcalloc"@[1] != "kmalloc"@[1]);
    assert("kcalloc"@[1] != "kzalloc"@[1]);
    assert("memset"@[3] != "memcpy"@[3]);
}

/// `kfree` of a pointer into a live allocation frees that allocation and leaves
/// every other one, and everything else, as it was.
pub proof fn law_free_is_precise(
    s: State,
    settings: Settings,
    site: Site,
    call: Call,
    gave_up: (bool, bool),
    alloc_id: nat,
    offset: int,
)
    requires
        !(s.result is Fail),
        calls_global(call, "kfree"@),
        call.arguments@.len() > 0,
        holds_pointer(s, call.arguments@[0], Pointer::Kmalloc { alloc_id, offset }),
        alloc_id < s.allocs.len(),
        !s.allocs[alloc_id as int].freed,
    ensures
        ({
            let next = s.step(settings, site, Instruction::Call(call), gave_up);
            &&& next.allocs.len() == s.allocs.len()
            &&& next.allocs[alloc_id as int].freed
            &&& next.allocs[alloc_id as int].size == s.allocs[alloc_id as int].size
            &&& forall|k: int|
                0 <= k < s.allocs.len() && k != alloc_id ==> #[trigger] next.allocs[k]
                    == s.allocs[k]
            &&& next == State { allocs: next.allocs, ..s }
        }),
{
    lemma_all_names();
}

/// An allocation becomes freed only by `kfree` of a pointer into that very
/// allocation.
pub proof fn law_only_kfree_frees(
    s: State,
    settings: Settings,
    site: Site,
    instr: Instruction,
    gave_up: (bool, bool),
    k: int,
)
    requires
        s.well_formed(settings),
        0 <= k < s.allocs.len(),
        !s.allocs[k].freed,
        s.step(settings, site, instr, gave_up).allocs[k].freed,
    ensures
        instr matches Instruction::Call(call) && {
            &&& calls_global(call, "kfree"@)
            &&& call.arguments@.len() > 0
            &&& exists|offset: int| #[trigger]
                holds_pointer(
                    s,
                    call.arguments@[0],
                    Pointer::Kmalloc { alloc_id: k as nat, offset },
                )
        },
{
    lemma_all_names();
    if let Instruction::Call(call) = instr {
        lemma_call_keeps(s, settings, site, call, gave_up, k);
    } else {
        lemma_rest_keeps(s, settings, site, instr, gave_up);
    }
}

/// An allocation becomes mapped only by `iommu_map` with a pointer into that very
/// allocation, which is one for DMA; and each such call maps it.
pub proof fn law_only_iommu_map_maps(
    s: State,
    settings: Settings,
    site: Site,
    instr: Instruction,
    gave_up: (bool, bool),
    k: int,
)
    requires
        s.well_formed(settings),
        0 <= k < s.allocs.len(),
        !(s.result is Fail),
        !s.allocs[k].mapped,
    ensures
        s.step(settings, site, instr, gave_up).allocs[k].mapped <==> {
            &&& s.allocs[k].dma
            &&& instr matches Instruction::Call(call) && {
                &&& calls_global(call, "iommu_map"@)
                &&& exists|j: int|
                    0 <= j < call.arguments@.len() && points_into(
                        s,
                        #[trigger] call.arguments@[j],
                        k as nat,
                    )
            }
        },
{
    lemma_all_names();
    if let Instruction::Call(call) = instr {
        lemma_call_keeps(s, settings, site, call, gave_up, k);
        assert forall|j: int| 0 <= j < call.arguments@.len() implies points_into(
            s,
            #[trigger] call.arguments@[j],
            k as nat,
        ) == place_in(s, call.arguments@[j], k) by {
            lemma_points_into(s, call.arguments@[j], k as nat);
        }
    } else {
        lemma_rest_keeps(s, settings, site, instr, gave_up);
    }
}

proof fn lemma_points_into(s: State, op: Operand, alloc_id: nat)
    ensures
        points_into(s, op, alloc_id) == place_in(s, op, alloc_id as int),
{
    if place_in(s, op, alloc_id as int) {
        let offset = (target(s, op)->0).1;
        assert(points_at(s, op, alloc_id, offset));
    }
    if points_into(s, op, alloc_id) {
        let offset = choose|offset: int| #[trigger] points_at(s, op, alloc_id, offset);
        assert(points_at(s, op, alloc_id, offset));
    }
}

proof fn lemma_making_keeps(s: State, site: Site, call: Call, k: int)
    requires
        0 <= k < s.allocs.len(),
    ensures
        s.kmalloc(call).allocs[k] == s.allocs[k],
        s.kcalloc(call).allocs[k] == s.allocs[k],
        s.dma_alloc(site, call).allocs[k] == s.allocs[k],
{
}

proof fn lemma_access_keeps(
    s: State,
    settings: Settings,
    site: Site,
    call: Call,
    gave_up: (bool, bool),
)
    ensures
        s.memset(site, call, gave_up.0).allocs == s.allocs,
        s.memcpy(site, call, gave_up).allocs == s.allocs,
        s.dma_map(site, call, gave_up.0).allocs == s.allocs,
        same_names(s, s.memset(site, call, gave_up.0)),
        same_names(s, s.memcpy(site, call, gave_up)),
        same_names(s, s.dma_map(site, call, gave_up.0)),
{
}

proof fn lemma_assembly_keeps(s: State, settings: Settings, site: Site, text: Seq<char>)
    ensures
        s.assembly(settings, site, text).allocs == s.allocs,
        same_names(s, s.assembly(settings, site, text)),
{
}

/// What `kfree` does to the allocation `k`.
proof fn lemma_kfree_keeps(s: State, settings: Settings, site: Site, call: Call, k: int)
    requires
        s.well_formed(settings),
        0 <= k < s.allocs.len(),
    ensures
        ({
            let was = s.allocs[k];
            let now = s.kfree(site, call).allocs[k];
            &&& s.kfree(site, call).allocs.len() == s.allocs.len()
            &&& now.size == was.size && now.dma == was.dma && now.mapped == was.mapped
            &&& now.freed != was.freed ==> call.arguments@.len() > 0 && exists|offset: int|
                #[trigger]
                holds_pointer(
                    s,
                    call.arguments@[0],
                    Pointer::Kmalloc { alloc_id: k as nat, offset },
                )
        }),
{
    if let Some(Pointer::Kmalloc { alloc_id, offset }) = lookup_local(
        s.ptr_env,
        call.arguments@[0],
    ) {
        assert(s.points_inside(s.ptr_env[call.arguments@[0]->LocalOperand_name@]));
        let n = k as nat;
        if alloc_id == n {
            assert(holds_pointer(s, call.arguments@[0], Pointer::Kmalloc { alloc_id: n, offset }));
        } else {
            assert(s.kfree(site, call).allocs[k] == s.allocs[k]);
        }
    }
}

/// What a call does to the allocation `k`.
proof fn lemma_call_keeps(
    s: State,
    settings: Settings,
    site: Site,
    call: Call,
    gave_up: (bool, bool),
    k: int,
)
    requires
        s.well_formed(settings),
        0 <= k < s.allocs.len(),
    ensures
        ({
            let next = s.step(settings, site, Instruction::Call(call), gave_up);
            let was = s.allocs[k];
            let now = next.allocs[k];
            &&& now.size == was.size && now.dma == was.dma
            &&& now.freed != was.freed ==> {
                &&& calls_global(call, "kfree"@)
                &&& call.arguments@.len() > 0
                &&& exists|offset: int| #[trigger]
                    holds_pointer(
                        s,
                        call.arguments@[0],
                        Pointer::Kmalloc { alloc_id: k as nat, offset },
                    )
            }
            &&& !calls_global(call, "iommu_map"@) || s.result is Fail ==> now.mapped == was.mapped
            &&& calls_global(call, "iommu_map"@) && !(s.result is Fail) ==> now.mapped == (
            was.mapped || was.dma && s.passed(call, k))
        }),
{
    lemma_all_names();
    lemma_making_keeps(s, site, call, k);
    lemma_access_keeps(s, settings, site, call, gave_up);
    lemma_kfree_keeps(s, settings, site, call, k);
    if let Callee::InlineAssembly(text) = call.function {
        lemma_assembly_keeps(s, settings, site, text@);
    }
}

/// What is no call leaves the allocations alone.
proof fn lemma_rest_keeps(
    s: State,
    settings: Settings,
    site: Site,
    instr: Instruction,
    gave_up: (bool, bool),
)
    requires
        !(instr is Call),
    ensures
        s.step(settings, site, instr, gave_up).allocs == s.allocs,
{
    if !(s.result is Fail) {
        match instr {
            Instruction::GetElementPtr(gep) => {
                assert(s.gep(settings, gep).allocs == s.allocs);
            },
            Instruction::Store { address, value } => {
                assert(s.store(settings, site, address, value, gave_up.0).allocs == s.allocs);
            },
            Instruction::Load { address, dest, loaded_ty } => {
                assert(s.load(settings, site, address, dest, loaded_ty, gave_up.0).allocs
                    == s.allocs);
            },
            _ => {},
        }
    }
}

/// The call is one of those that make an allocation, with the size of it.
pub open spec fn allocates(settings: Settings, call: Call, size: u64, dma: bool) -> bool {
    let args = call.arguments@;
    ||| {
        &&& !dma
        &&& calls_global(call, "kmalloc"@) || calls_global(call, "kzalloc"@)
        &&& args.len() > 0
        &&& is_number(args[0], size)
    }
    ||| {
        &&& !dma
        &&& calls_global(call, "kcalloc"@)
        &&& args.len() > 1
        &&& exists|a: u64, b: u64|
            #![trigger is_number(args[0], a), is_number(args[1], b)]
            is_number(args[0], a) && is_number(args[1], b) && a * b == size
    }
    ||| {
        &&& dma
        &&& !(settings.dma is Ignore)
        &&& calls_global(call, "dma_alloc_coherent"@)
        &&& args.len() > 1
        &&& is_number(args[1], size)
    }
}

/// Allocations come from allocating calls alone, one at a time.
pub proof fn law_allocations_come_from_calls(
    s: State,
    settings: Settings,
    site: Site,
    instr: Instruction,
    gave_up: (bool, bool),
)
    requires
        s.well_formed(settings),
    ensures
        ({
            let next = s.step(settings, site, instr, gave_up);
            ||| next.allocs.len() == s.allocs.len()
            ||| {
                &&& next.allocs.len() == s.allocs.len() + 1
                &&& next.allocs.last() == fresh(next.allocs.last().size, next.allocs.last().dma)
                &&& instr matches Instruction::Call(call) && allocates(
                    settings,
                    call,
                    next.allocs.last().size,
                    next.allocs.last().dma,
                )
            }
        }),
{
    lemma_all_names();
    let next = s.step(settings, site, instr, gave_up);
    if let Instruction::Call(call) = instr {
        if !(s.result is Fail) {
            let set = s.memset(site, call, gave_up.0);
            let copied = s.memcpy(site, call, gave_up);
            let mapped = s.dma_map(site, call, gave_up.0);
            assert(set.allocs == s.allocs);
            assert(copied.allocs == s.allocs);
            assert(mapped.allocs == s.allocs);
            if let Some(Pointer::Kmalloc { .. }) = lookup_local(s.ptr_env, call.arguments@[0]) {
                assert(s.points_inside(s.ptr_env[call.arguments@[0]->LocalOperand_name@]));
            }
            if next.allocs.len() != s.allocs.len() {
                if let (Some(a), Some(b)) = (
                    const_value(call.arguments@[0]),
                    const_value(call.arguments@[1]),
                ) {
                    assert(is_number(call.arguments@[0], a) && is_number(call.arguments@[1], b));
                }
            }
        }
    } else {
        lemma_rest_keeps(s, settings, site, instr, gave_up);
    }
}

// ---- names ----

/// The name that the instruction gives a value to, where it does.
pub open spec fn dest_of(instr: Instruction) -> Option<NameId> {
    match instr {
        Instruction::Alloca { dest } => Some(dest@),
        Instruction::Call(call) => match call.dest {
            Some(name) => Some(name@),
            None => None,
        },
        Instruction::GetElementPtr(gep) => Some(gep.dest@),
        Instruction::PtrToInt(cast) => Some(cast.dest@),
        Instruction::IntToPtr(cast) => Some(cast.dest@),
        Instruction::BitCast(cast) => Some(cast.dest@),
        Instruction::Add(op) => Some(op.dest@),
        Instruction::Sub(op) => Some(op.dest@),
        Instruction::Load { dest, .. } => Some(dest@),
        _ => None,
    }
}

/// An instruction changes no binding but that of its own destination.
pub proof fn law_other_names_keep_their_value(
    s: State,
    settings: Settings,
    site: Site,
    instr: Instruction,
    gave_up: (bool, bool),
    name: NameId,
)
    requires
        dest_of(instr) != Some(name),
    ensures
        ({
            let next = s.step(settings, site, instr, gave_up);
            &&& next.scope == s.scope
            &&& next.ptr_env.contains_key(name) == s.ptr_env.contains_key(name)
            &&& s.ptr_env.contains_key(name) ==> next.ptr_env[name] == s.ptr_env[name]
            &&& next.int_env.contains_key(name) == s.int_env.contains_key(name)
            &&& s.int_env.contains_key(name) ==> next.int_env[name] == s.int_env[name]
            &&& next.alloca_names.contains(name) == s.alloca_names.contains(name)
        }),
{
    if !(s.result is Fail) {
        match instr {
            Instruction::Call(call) => {
                lemma_access_keeps(s, settings, site, call, gave_up);
                if let Callee::InlineAssembly(text) = call.function {
                    lemma_assembly_keeps(s, settings, site, text@);
                }
            },
            Instruction::Store { address, value } => lemma_store_keeps(
                s,
                settings,
                site,
                address,
                value,
                gave_up.0,
            ),
            Instruction::Load { address, dest, loaded_ty } => lemma_load_keeps(
                s,
                settings,
                site,
                address,
                dest,
                loaded_ty,
                gave_up.0,
            ),
            _ => {},
        }
    }
}

proof fn lemma_store_keeps(
    s: State,
    settings: Settings,
    site: Site,
    address: Operand,
    value: Operand,
    gave_up: bool,
)
    ensures
        same_names(s, s.store(settings, site, address, value, gave_up)),
{
}

proof fn lemma_load_keeps(
    s: State,
    settings: Settings,
    site: Site,
    address: Operand,
    dest: Name,
    loaded_ty: Type,
    gave_up: bool,
)
    ensures
        same_names(
            s.reload(address, dest),
            s.load(settings, site, address, dest, loaded_ty, gave_up),
        ),
{
}

spec fn same_names(a: State, b: State) -> bool {
    &&& a.scope == b.scope
    &&& a.ptr_env == b.ptr_env
    &&& a.int_env == b.int_env
    &&& a.alloca_names == b.alloca_names
}

// ---- stack slots ----

/// `alloca` makes its destination a stack slot. Nothing else changes.
pub proof fn law_alloca_makes_a_slot(
    s: State,
    settings: Settings,
    site: Site,
    dest: Name,
    gave_up: (bool, bool),
)
    requires
        !(s.result is Fail),
    ensures
        s.step(settings, site, Instruction::Alloca { dest }, gave_up) == (State {
            alloca_names: s.alloca_names.insert(dest@),
            ..s
        }),
{
}

/// A store to a stack slot that is bound to no pointer remembers there the pointer
/// that was stored, or that none was. Nothing else changes.
pub proof fn law_store_to_a_slot(
    s: State,
    settings: Settings,
    site: Site,
    address: Operand,
    value: Operand,
    gave_up: (bool, bool),
    slot: NameId,
    pointer: Pointer,
)
    requires
        !(s.result is Fail),
        is_local(address, slot),
        s.alloca_names.contains(slot),
        points_nowhere(s, address),
        holds_pointer(s, value, pointer) || pointer is Unknown && forall|p: Pointer|
            !(#[trigger] holds_pointer(s, value, p)),
    ensures
        s.step(settings, site, Instruction::Store { address, value }, gave_up) == (State {
            alloca_store: s.alloca_store.insert(slot, pointer),
            ..s
        }),
{
    if let Some(place) = target(s, address) {
        assert(points_at(s, address, place.0, place.1));
    }
    if let Some(p) = lookup_local(s.ptr_env, value) {
        assert(holds_pointer(s, value, p));
    }
}

/// A load from a stack slot that is bound to no pointer gives its destination the
/// pointer that the slot remembers, where it remembers one. Nothing else changes.
pub proof fn law_load_from_a_slot(
    s: State,
    settings: Settings,
    site: Site,
    address: Operand,
    dest: Name,
    loaded_ty: Type,
    gave_up: (bool, bool),
    slot: NameId,
)
    requires
        !(s.result is Fail),
        is_local(address, slot),
        slot != dest@,
        s.alloca_names.contains(slot),
        points_nowhere(s, address),
    ensures
        s.step(settings, site, Instruction::Load { address, dest, loaded_ty }, gave_up) == (
        if s.alloca_store.contains_key(slot) {
            State { ptr_env: s.ptr_env.insert(dest@, s.alloca_store[slot]), ..s }
        } else {
            s
        }),
{
    if let Some(place) = target(s, address) {
        assert(points_at(s, address, place.0, place.1));
    }
    let back = s.reload(address, dest);
    assert(target(back, address) == target(s, address));
}

/// What a slot remembers is changed by a store to that slot alone.
pub proof fn law_slots_keep_their_pointer(
    s: State,
    settings: Settings,
    site: Site,
    instr: Instruction,
    gave_up: (bool, bool),
    slot: NameId,
)
    requires
        !(instr matches Instruction::Store { address, .. } && is_local(address, slot)),
    ensures
        ({
            let next = s.step(settings, site, instr, gave_up);
            &&& next.alloca_store.contains_key(slot) == s.alloca_store.contains_key(slot)
            &&& s.alloca_store.contains_key(slot) ==> next.alloca_store[slot]
                == s.alloca_store[slot]
        }),
{
    if !(s.result is Fail) {
        match instr {
            Instruction::Call(call) => {
                let set = s.memset(site, call, gave_up.0);
                let copied = s.memcpy(site, call, gave_up);
                let mapped = s.dma_map(site, call, gave_up.0);
                assert(set.alloca_store == s.alloca_store);
                assert(copied.alloca_store == s.alloca_store);
                assert(mapped.alloca_store == s.alloca_store);
            },
            Instruction::Store { address, value } => {
                let spilled = s.spill(address, value);
                let next = s.store(settings, site, address, value, gave_up.0);
                assert(next.alloca_store == spilled.alloca_store);
            },
            Instruction::Load { address, dest, loaded_ty } => {
                let next = s.load(settings, site, address, dest, loaded_ty, gave_up.0);
                assert(next.alloca_store == s.alloca_store);
            },
            _ => {},
        }
    }
}

/// Two names are the same value if and only if they have the same characters or
/// the same number.
pub proof fn law_names_are_told_apart(a: Name, b: Name)
    ensures
        a@ == b@ <==> match (a, b) {
            (Name::Name(x), Name::Name(y)) => x@ == y@,
            (Name::Number(x), Name::Number(y)) => x == y,
            _ => false,
        },
{
}

// ---- operands ----

/// What operands and calls are read as.
pub proof fn law_operands(op: Operand, call: Call, n: u64, id: NameId, text: Seq<char>)
    ensures
        const_value(op) == Some(n) <==> is_number(op, n),
        local_name(op) == Some(id) <==> is_local(op, id),
        called_name(call) == Some(text) <==> calls_global(call, text),
{
}

/// A pointer of either kind is at a place; any other is at none.
pub proof fn law_places(pointer: Pointer, alloc_id: nat, offset: int)
    ensures
        place_of(pointer) == Some((alloc_id, offset)) <==> pointer == (Pointer::Kmalloc {
            alloc_id,
            offset,
        }) || pointer == (Pointer::DmaAlloc { alloc_id, offset }),
{
}

/// A call that the analysis does not follow makes no allocation, frees and maps
/// none, and binds no name.
pub proof fn law_unsupported_call_changes_nothing(
    s: State,
    settings: Settings,
    site: Site,
    call: Call,
    gave_up: (bool, bool),
)
    requires
        unsupported(s, settings, Instruction::Call(call)),
    ensures
        ({
            let next = s.step(settings, site, Instruction::Call(call), gave_up);
            &&& next.allocs == s.allocs
            &&& next.ptr_env == s.ptr_env && next.int_env == s.int_env
            &&& next.alloca_names == s.alloca_names && next.alloca_store == s.alloca_store
        }),
{
    lemma_all_names();
    lemma_access_keeps(s, settings, site, call, gave_up);
    lemma_access_keeps_slots(s, settings, site, call, gave_up);
    if let Callee::InlineAssembly(text) = call.function {
        lemma_assembly_keeps(s, settings, site, text@);
    }
    if let Some(Pointer::Kmalloc { alloc_id, offset }) = lookup_local(
        s.ptr_env,
        call.arguments@[0],
    ) {
        assert(called_name(call) == Some("kfree"@) && call.arguments@.len() > 0 ==> frees(
            s,
            call,
            alloc_id,
        ));
    }
}

proof fn lemma_access_keeps_slots(
    s: State,
    settings: Settings,
    site: Site,
    call: Call,
    gave_up: (bool, bool),
)
    ensures
        s.memset(site, call, gave_up.0).alloca_store == s.alloca_store,
        s.memcpy(site, call, gave_up).alloca_store == s.alloca_store,
        s.dma_map(site, call, gave_up.0).alloca_store == s.alloca_store,
{
}

} // verus!
