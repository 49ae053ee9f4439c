//! What laws say of operands, calls and states, by their parts alone.
use crate::hitl::GateState;
use crate::ir::{Call, Constant, Function, Instruction, Name, NameId, Operand};
use crate::machine::{Allocation, Pointer, State};
use crate::verdict::Finding;
use vstd::prelude::*;

verus! {

/// The operand is the local value `id`.
pub open spec fn is_local(op: Operand, id: NameId) -> bool {
    op is LocalOperand && op->LocalOperand_name@ == id
}

/// The operand is the constant `n`.
pub open spec fn is_number(op: Operand, n: u64) -> bool {
    op is ConstantOperand && op->constant == (Constant::Int { value: n })
}

/// The operand is the global with the characters `text`.
pub open spec fn is_global(op: Operand, text: Seq<char>) -> bool {
    op is ConstantOperand && op->constant is GlobalReference && op->constant->name is Name
        && op->constant->name->Name_0@ == text
}

/// The call calls the global with the characters `text`.
pub open spec fn calls_global(call: Call, text: Seq<char>) -> bool {
    call.function is Operand && is_global(call.function->Operand_0, text)
}

/// The local value that the operand names is bound to `pointer`.
pub open spec fn holds_pointer(s: State, op: Operand, pointer: Pointer) -> bool {
    op is LocalOperand && s.ptr_env.contains_key(op->LocalOperand_name@)
        && s.ptr_env[op->LocalOperand_name@] == pointer
}

/// The operand is bound to a pointer, of either kind, to `offset` in `alloc_id`.
pub open spec fn points_at(s: State, op: Operand, alloc_id: nat, offset: int) -> bool {
    holds_pointer(s, op, Pointer::Kmalloc { alloc_id, offset }) || holds_pointer(
        s,
        op,
        Pointer::DmaAlloc { alloc_id, offset },
    )
}

/// The operand is bound to a pointer, of either kind, into `alloc_id`.
pub open spec fn points_into(s: State, op: Operand, alloc_id: nat) -> bool {
    exists|offset: int| #[trigger] points_at(s, op, alloc_id, offset)
}

/// The operand is not bound to any pointer into an allocation.
pub open spec fn points_nowhere(s: State, op: Operand) -> bool {
    forall|alloc_id: nat, offset: int| !(#[trigger] points_at(s, op, alloc_id, offset))
}

/// There is an instruction at the indices.
pub open spec fn has_instruction(functions: Seq<Function>, f: int, b: int, i: int) -> bool {
    &&& 0 <= f < functions.len()
    &&& 0 <= b < functions[f].basic_blocks@.len()
    &&& 0 <= i < functions[f].basic_blocks@[b].instrs@.len()
}

/// The instruction at the indices.
pub open spec fn instruction_at(functions: Seq<Function>, f: int, b: int, i: int) -> Instruction {
    functions[f].basic_blocks@[b].instrs@[i]
}

/// The condition may be put to the solver: approval is not required, or the
/// condition itself or its class is approved.
pub open spec fn is_approved(gate: GateState, vc: Seq<char>, class: Seq<char>) -> bool {
    ||| gate.mode is Off
    ||| gate.approved.contains(vc)
    ||| gate.approved_classes.contains(class)
}

/// The records with one more condition: it is seen, and blocked unless approved.
pub open spec fn with_record(gate: GateState, vc: Seq<char>, class: Seq<char>) -> GateState {
    let blocked = !is_approved(gate, vc, class);
    GateState {
        mode: gate.mode,
        approved: gate.approved,
        approved_classes: gate.approved_classes,
        seen: gate.seen + seq![vc],
        seen_classes: gate.seen_classes + seq![class],
        blocked: if blocked {
            gate.blocked + seq![vc]
        } else {
            gate.blocked
        },
        blocked_classes: if blocked {
            gate.blocked_classes + seq![class]
        } else {
            gate.blocked_classes
        },
    }
}

/// `len` bytes from `offset` on lie within `size` bytes.
pub open spec fn lies_within(offset: int, len: int, size: int) -> bool {
    0 <= offset && offset + len <= size
}

/// A pass becomes unknown for the reason given; anything else stays.
pub open spec fn clouded(result: Finding, reason: Seq<char>) -> Finding {
    match result {
        Finding::Pass => Finding::Unknown(reason),
        Finding::Fail(message) => Finding::Fail(message),
        Finding::Unknown(before) => Finding::Unknown(before),
    }
}

/// An allocation that nothing happened to yet.
pub open spec fn fresh(size: u64, dma: bool) -> Allocation {
    Allocation { size, freed: false, dma, mapped: false }
}

} // verus!
