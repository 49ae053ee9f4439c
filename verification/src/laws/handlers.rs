//! Which interrupt handlers are found to free memory.
use crate::ir::{
    block_calls, block_registers, calls, function_calls, function_registers, handler_frees,
    registers, Call, Function, Instruction, Module,
};
use crate::laws::vocabulary::{calls_global, has_instruction, instruction_at, is_global};
use crate::machine::settings_for;
use crate::modes::{DmaPolicy, InlineAsmPolicy};
use vstd::prelude::*;

verus! {

/// The instruction at the indices calls `request_irq` with the function `handler`
/// as second argument.
pub open spec fn registers_at(
    functions: Seq<Function>,
    handler: Seq<char>,
    f: int,
    b: int,
    i: int,
) -> bool {
    &&& has_instruction(functions, f, b, i)
    &&& instruction_at(functions, f, b, i) matches Instruction::Call(call) && {
        &&& calls_global(call, "request_irq"@)
        &&& call.arguments@.len() > 1
        &&& is_global(call.arguments@[1], handler)
    }
}

/// The instruction at the indices calls `kfree`.
pub open spec fn frees_at(functions: Seq<Function>, f: int, b: int, i: int) -> bool {
    &&& has_instruction(functions, f, b, i)
    &&& instruction_at(functions, f, b, i) matches Instruction::Call(call) && calls_global(
        call,
        "kfree"@,
    )
}

/// Where any instruction of any block registers a handler, and any instruction of
/// any block of a function of that name calls `kfree`, the handler is found.
pub proof fn law_freeing_handler_is_found(
    module: Module,
    handler: Seq<char>,
    f: int,
    b: int,
    i: int,
    g: int,
    c: int,
    j: int,
)
    requires
        registers_at(module.functions@, handler, f, b, i),
        frees_at(module.functions@, g, c, j),
        module.functions@[g].name@ == handler,
    ensures
        handler_frees(module.functions@, handler),
{
    let functions = module.functions@;
    let first = instruction_at(functions, f, b, i);
    let second = instruction_at(functions, g, c, j);
    assert(registers(first, handler));
    assert(block_registers(functions[f].basic_blocks@[b], handler));
    assert(function_registers(functions[f], handler));
    assert(calls(second, "kfree"@));
    assert(block_calls(functions[g].basic_blocks@[c], "kfree"@));
    assert(function_calls(functions[g], "kfree"@));
    assert(functions[g].name@ == handler);
}

/// A handler that is found is registered by an instruction of the module, and an
/// instruction of a function of its name calls `kfree`.
pub proof fn law_found_handler_frees(module: Module, handler: Seq<char>)
    requires
        handler_frees(module.functions@, handler),
    ensures
        exists|f: int, b: int, i: int| #[trigger]
            registers_at(module.functions@, handler, f, b, i),
        exists|g: int, c: int, j: int| #[trigger]
            frees_at(module.functions@, g, c, j) && module.functions@[g].name@ == handler,
{
    let functions = module.functions@;
    let f = choose|f: int|
        0 <= f < functions.len() && function_registers(#[trigger] functions[f], handler);
    let b = choose|b: int|
        0 <= b < functions[f].basic_blocks@.len() && block_registers(
            #[trigger] functions[f].basic_blocks@[b],
            handler,
        );
    let i = choose|i: int|
        0 <= i < functions[f].basic_blocks@[b].instrs@.len() && registers(
            #[trigger] functions[f].basic_blocks@[b].instrs@[i],
            handler,
        );
    assert(registers_at(functions, handler, f, b, i));
    let g = choose|g: int|
        0 <= g < functions.len() && (#[trigger] functions[g]).name@ == handler && function_calls(
            functions[g],
            "kfree"@,
        );
    let c = choose|c: int|
        0 <= c < functions[g].basic_blocks@.len() && block_calls(
            #[trigger] functions[g].basic_blocks@[c],
            "kfree"@,
        );
    let j = choose|j: int|
        0 <= j < functions[g].basic_blocks@[c].instrs@.len() && calls(
            #[trigger] functions[g].basic_blocks@[c].instrs@[j],
            "kfree"@,
        );
    assert(frees_at(functions, g, c, j));
}

/// An analysis runs with interrupt risk if and only if some instruction of the
/// module registers a handler and some instruction of a function of its name
/// calls `kfree`.
pub proof fn law_interrupt_risk(module: Module, assembly: InlineAsmPolicy, dma: DmaPolicy)
    ensures
        settings_for(module, assembly, dma).irq_risk <==> exists|
            handler: Seq<char>,
            f: int,
            b: int,
            i: int,
            g: int,
            c: int,
            j: int,
        |
            #![trigger registers_at(module.functions@, handler, f, b, i),
                frees_at(module.functions@, g, c, j)]
            registers_at(module.functions@, handler, f, b, i) && frees_at(
                module.functions@,
                g,
                c,
                j,
            ) && module.functions@[g].name@ == handler,
{
    let functions = module.functions@;
    if settings_for(module, assembly, dma).irq_risk {
        let handler = choose|h: Seq<char>| handler_frees(functions, h);
        law_found_handler_frees(module, handler);
        let (f, b, i) = choose|f: int, b: int, i: int| #[trigger]
            registers_at(functions, handler, f, b, i);
        let (g, c, j) = choose|g: int, c: int, j: int| #[trigger]
            frees_at(functions, g, c, j) && functions[g].name@ == handler;
        assert(registers_at(functions, handler, f, b, i) && frees_at(functions, g, c, j));
    }
    if exists|handler: Seq<char>, f: int, b: int, i: int, g: int, c: int, j: int|
        #![trigger registers_at(functions, handler, f, b, i), frees_at(functions, g, c, j)]
        registers_at(functions, handler, f, b, i) && frees_at(functions, g, c, j)
            && functions[g].name@ == handler {
        let (handler, f, b, i, g, c, j) = choose|
            handler: Seq<char>,
            f: int,
            b: int,
            i: int,
            g: int,
            c: int,
            j: int,
        |
            #![trigger registers_at(functions, handler, f, b, i), frees_at(functions, g, c, j)]
            registers_at(functions, handler, f, b, i) && frees_at(functions, g, c, j)
                && functions[g].name@ == handler;
        law_freeing_handler_is_found(module, handler, f, b, i, g, c, j);
    }
}

} // verus!
