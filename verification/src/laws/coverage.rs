//! An analysis meets every instruction of its module, once and in order.
use crate::analyze::{analysed, lemma_reaches_push, AnalysisOutcome};
use crate::faults::unsupported;
use crate::hitl::GateState;
use crate::ir::{BasicBlock, Function, Instruction, Module};
use crate::laws::vocabulary::{has_instruction, instruction_at};
use crate::machine::{
    block_sites, function_sites, module_sites, one_step, reaches, settings_for, sites, Settings,
    Site, State,
};
use crate::modes::{DmaPolicy, InlineAsmPolicy};
use crate::soundness::{accesses_are_safe, law_passed_run_is_safe, touches};
use vstd::prelude::*;

verus! {

/// The number of instructions in the first `n` blocks.
pub open spec fn instructions_of_blocks(blocks: Seq<BasicBlock>, n: int) -> int
    decreases n,
{
    if n <= 0 {
        0
    } else {
        instructions_of_blocks(blocks, n - 1) + blocks[n - 1].instrs@.len()
    }
}

/// The number of instructions in the first `n` functions.
pub open spec fn instructions_of(functions: Seq<Function>, n: int) -> int
    decreases n,
{
    if n <= 0 {
        0
    } else {
        instructions_of(functions, n - 1) + instructions_of_blocks(
            functions[n - 1].basic_blocks@,
            functions[n - 1].basic_blocks@.len() as int,
        )
    }
}

/// The number of instructions that stand before the one at the indices.
pub open spec fn position(functions: Seq<Function>, f: int, b: int, i: int) -> int {
    instructions_of(functions, f) + instructions_of_blocks(functions[f].basic_blocks@, b) + i
}

proof fn lemma_blocks_grow(blocks: Seq<BasicBlock>, n: int, m: int)
    requires
        0 <= n <= m,
    ensures
        0 <= instructions_of_blocks(blocks, n) <= instructions_of_blocks(blocks, m),
        n < m ==> instructions_of_blocks(blocks, n) + blocks[n].instrs@.len()
            <= instructions_of_blocks(blocks, m),
    decreases m,
{
    if n < m {
        lemma_blocks_grow(blocks, n, m - 1);
    } else if n > 0 {
        lemma_blocks_grow(blocks, n - 1, m - 1);
    }
}

proof fn lemma_functions_grow(functions: Seq<Function>, n: int, m: int)
    requires
        0 <= n <= m,
    ensures
        0 <= instructions_of(functions, n) <= instructions_of(functions, m),
        n < m ==> instructions_of(functions, n) + instructions_of_blocks(
            functions[n].basic_blocks@,
            functions[n].basic_blocks@.len() as int,
        ) <= instructions_of(functions, m),
    decreases m,
{
    if n < m {
        lemma_functions_grow(functions, n, m - 1);
        let blocks = functions[m - 1].basic_blocks@;
        lemma_blocks_grow(blocks, 0, blocks.len() as int);
    } else if n > 0 {
        lemma_functions_grow(functions, n - 1, m - 1);
        let blocks = functions[n - 1].basic_blocks@;
        lemma_blocks_grow(blocks, 0, blocks.len() as int);
    }
}

proof fn lemma_function_sites(function: Function, n: nat, b: int, i: int)
    requires
        n <= function.basic_blocks@.len(),
        0 <= b < n ==> 0 <= i < function.basic_blocks@[b].instrs@.len(),
    ensures
        function_sites(function, n).len() == instructions_of_blocks(
            function.basic_blocks@,
            n as int,
        ),
        0 <= b < n ==> {
            let k = instructions_of_blocks(function.basic_blocks@, b) + i;
            &&& 0 <= k < function_sites(function, n).len()
            &&& function_sites(function, n)[k] == (
                Site { function: function.name@, bb: b as nat, index: i as nat },
                function.basic_blocks@[b].instrs@[i],
            )
        },
    decreases n,
{
    let blocks = function.basic_blocks@;
    if n > 0 {
        lemma_function_sites(function, (n - 1) as nat, b, i);
        let before = function_sites(function, (n - 1) as nat);
        let last = block_sites(function.name@, (n - 1) as nat, blocks[n - 1]);
        let all = function_sites(function, n);
        assert(all == before + last);
        if 0 <= b < n {
            let k = instructions_of_blocks(blocks, b) + i;
            lemma_blocks_grow(blocks, b, n as int);
            if b < n - 1 {
                lemma_blocks_grow(blocks, b, n - 1);
                assert(all[k] == before[k]);
            } else {
                assert(all[k] == last[i]);
            }
        }
    }
}

proof fn lemma_module_sites(functions: Seq<Function>, n: nat, f: int, b: int, i: int)
    requires
        n <= functions.len(),
        f < n ==> has_instruction(functions, f, b, i),
    ensures
        module_sites(functions, n).len() == instructions_of(functions, n as int),
        0 <= f < n ==> {
            let k = position(functions, f, b, i);
            &&& 0 <= k < module_sites(functions, n).len()
            &&& module_sites(functions, n)[k] == (
                Site { function: functions[f].name@, bb: b as nat, index: i as nat },
                instruction_at(functions, f, b, i),
            )
        },
    decreases n,
{
    if n > 0 {
        lemma_module_sites(functions, (n - 1) as nat, f, b, i);
        let function = functions[n - 1];
        let blocks = function.basic_blocks@;
        lemma_function_sites(
            function,
            blocks.len(),
            if f == n - 1 {
                b
            } else {
                -1
            },
            i,
        );
        let before = module_sites(functions, (n - 1) as nat);
        let last = function_sites(function, blocks.len());
        let all = module_sites(functions, n);
        assert(all == before + last);
        if 0 <= f < n {
            let k = position(functions, f, b, i);
            let mine = functions[f].basic_blocks@;
            lemma_functions_grow(functions, f, n as int);
            lemma_blocks_grow(mine, b, mine.len() as int);
            if f < n - 1 {
                lemma_functions_grow(functions, f, n - 1);
                assert(all[k] == before[k]);
            } else {
                let at = instructions_of_blocks(blocks, b) + i;
                assert(blocks[b].instrs@[i] == instruction_at(functions, f, b, i));
                assert(0 <= at < last.len());
                assert(all[k] == last[at]);
            }
        }
    }
}

/// The instructions that are analysed are those of the module: every instruction
/// of every block of every function is among them, under its own function, block
/// and index, with as many before it as stand before it in the module.
pub proof fn law_every_instruction_is_met(module: Module, f: int, b: int, i: int)
    requires
        has_instruction(module.functions@, f, b, i),
    ensures
        ({
            let k = position(module.functions@, f, b, i);
            &&& 0 <= k < sites(module).len()
            &&& sites(module)[k] == (
                Site { function: module.functions@[f].name@, bb: b as nat, index: i as nat },
                instruction_at(module.functions@, f, b, i),
            )
        }),
{
    lemma_module_sites(module.functions@, module.functions@.len(), f, b, i);
}

/// Nothing else is analysed: there are as many sites as instructions.
pub proof fn law_nothing_else_is_met(module: Module)
    ensures
        sites(module).len() == instructions_of(
            module.functions@,
            module.functions@.len() as int,
        ),
{
    lemma_module_sites(
        module.functions@,
        module.functions@.len(),
        module.functions@.len() as int,
        0,
        0,
    );
}

/// Instructions are met in program order: first by function, then by block, then
/// by index.
pub proof fn law_program_order(
    module: Module,
    f: int,
    b: int,
    i: int,
    g: int,
    c: int,
    j: int,
)
    requires
        has_instruction(module.functions@, f, b, i),
        has_instruction(module.functions@, g, c, j),
        f < g || f == g && b < c || f == g && b == c && i < j,
    ensures
        position(module.functions@, f, b, i) < position(module.functions@, g, c, j),
{
    let functions = module.functions@;
    let mine = functions[f].basic_blocks@;
    let other = functions[g].basic_blocks@;
    lemma_blocks_grow(mine, b, mine.len() as int);
    lemma_blocks_grow(other, 0, c);
    if f < g {
        lemma_functions_grow(functions, f, g);
    } else if b < c {
        lemma_blocks_grow(mine, b, c);
    }
}

pub(crate) proof fn lemma_reaches_last(
    settings: Settings,
    start: State,
    path: Seq<(Site, Instruction)>,
    end: State,
) -> (last: State)
    requires
        path.len() > 0,
        reaches(settings, start, path, end),
    ensures
        reaches(settings, start, path.drop_last(), last),
        one_step(settings, last, path.last(), end),
{
    choose|last: State|
        reaches(settings, start, path.drop_last(), last) && #[trigger] one_step(
            settings,
            last,
            path.last(),
            end,
        )
}

#[verifier::rlimit(60)]
#[verifier::spinoff_prover]
proof fn lemma_reaches_split(
    settings: Settings,
    start: State,
    head: Seq<(Site, Instruction)>,
    tail: Seq<(Site, Instruction)>,
    end: State,
) -> (mid: State)
    requires
        reaches(settings, start, head + tail, end),
    ensures
        reaches(settings, start, head, mid),
        reaches(settings, mid, tail, end),
    decreases tail.len(),
{
    let path = head + tail;
    if tail.len() == 0 {
        assert(path =~= head);
        end
    } else {
        let last = lemma_reaches_last(settings, start, path, end);
        assert(path.drop_last() =~= head + tail.drop_last());
        assert(path.last() == tail.last());
        let mid = lemma_reaches_split(settings, start, head, tail.drop_last(), last);
        assert(tail =~= tail.drop_last().push(tail.last()));
        lemma_reaches_push(settings, mid, tail.drop_last(), last, tail.last(), end);
        mid
    }
}

/// The analysis of a module is in the state `s` before the instruction at the
/// indices: what stands before that instruction leads to `s`.
pub open spec fn comes_to(
    module: Module,
    settings: Settings,
    gate: GateState,
    f: int,
    b: int,
    i: int,
    s: State,
) -> bool {
    exists|before: State| #[trigger]
        reaches(
            settings,
            State::initial(gate),
            sites(module).take(position(module.functions@, f, b, i)),
            before,
        ) && s == before.inside(module.functions@[f].name@)
}

/// Where an analysis of a module passes, every instruction of the module, in
/// whatever function and block, makes safe accesses only, is none that the
/// analysis does not follow, and touches no memory that an interrupt handler may
/// free.
pub proof fn law_pass_vouches_for_the_module(
    module: Module,
    assembly: InlineAsmPolicy,
    dma: DmaPolicy,
    before: GateState,
    after: GateState,
    r: AnalysisOutcome,
    f: int,
    b: int,
    i: int,
)
    requires
        analysed(module, assembly, dma, before, after, r),
        r.result@ is Pass,
        has_instruction(module.functions@, f, b, i),
    ensures
        exists|s: State| #[trigger]
            comes_to(module, settings_for(module, assembly, dma), before, f, b, i, s) && {
                let settings = settings_for(module, assembly, dma);
                let instr = instruction_at(module.functions@, f, b, i);
                &&& accesses_are_safe(s, settings, instr)
                &&& !unsupported(s, settings, instr)
                &&& settings.irq_risk ==> !touches(s, instr)
            },
{
    let settings = settings_for(module, assembly, dma);
    let start = State::initial(before);
    let path = sites(module);
    let end = choose|end: State| #[trigger]
        reaches(settings, start, path, end) && end.gate == after && r.reports(end, dma);
    let k = position(module.functions@, f, b, i);
    law_every_instruction_is_met(module, f, b, i);
    let head = path.take(k);
    let rest = path.skip(k);
    let tail = path.skip(k + 1);
    assert(path =~= head + rest);
    assert(rest =~= seq![path[k]] + tail);
    let mid = lemma_reaches_split(settings, start, head, rest, end);
    law_passed_run_is_safe(settings, before, head, mid, path[k], tail, end);
    let here = mid.inside(module.functions@[f].name@);
    assert(reaches(settings, start, head, mid));
    assert(comes_to(module, settings, before, f, b, i, here));
}

/// An analysis begins with nothing: no name is bound, nothing is allocated,
/// nothing was found, and the records are those that were handed in.
pub proof fn law_analysis_begins_with_nothing(gate: GateState)
    ensures
        ({
            let s = State::initial(gate);
            &&& s.gate == gate
            &&& s.passes()
            &&& s.allocs.len() == 0 && s.checked.len() == 0
            &&& s.inline_asm_vcs == 0 && s.dma_vcs == 0 && s.irq_race_vcs == 0
            &&& forall|name| !(#[trigger] s.ptr_env.contains_key(name))
            &&& forall|name| !(#[trigger] s.int_env.contains_key(name))
            &&& forall|name| !(#[trigger] s.alloca_names.contains(name))
            &&& forall|name| !(#[trigger] s.alloca_store.contains_key(name))
        }),
{
}

/// Entering a function keeps allocations, records and findings. Inside the same
/// function names keep their bindings; names of another one are forgotten.
pub proof fn law_entering_a_function(s: State, function: Seq<char>)
    ensures
        ({
            let next = s.inside(function);
            &&& next.scope == function
            &&& next.allocs == s.allocs && next.checked == s.checked && next.gate == s.gate
            &&& next.result == s.result && next.unfollowed == s.unfollowed
            &&& next.inline_asm_vcs == s.inline_asm_vcs && next.dma_vcs == s.dma_vcs
                && next.irq_race_vcs == s.irq_race_vcs
            &&& s.scope == function ==> next == s
            &&& s.scope != function ==> {
                &&& forall|name| !(#[trigger] next.ptr_env.contains_key(name))
                &&& forall|name| !(#[trigger] next.int_env.contains_key(name))
                &&& forall|name| !(#[trigger] next.alloca_names.contains(name))
                &&& forall|name| !(#[trigger] next.alloca_store.contains_key(name))
            }
        }),
{
}

/// What an analysis reports is the end of its run over the module: the counters
/// as they stand, and the numbers of distinct VCs and classes on record.
pub proof fn law_outcome_reports_the_end(
    module: Module,
    assembly: InlineAsmPolicy,
    dma: DmaPolicy,
    before: GateState,
    after: GateState,
    r: AnalysisOutcome,
)
    requires
        analysed(module, assembly, dma, before, after, r),
    ensures
        r.hitl_seen_vcs == after.seen.to_set().len(),
        r.hitl_blocked_vcs == after.blocked.to_set().len(),
        r.hitl_seen_classes == after.seen_classes.to_set().len(),
        r.hitl_blocked_classes == after.blocked_classes.to_set().len(),
        exists|end: State| #[trigger]
            reaches(
                settings_for(module, assembly, dma),
                State::initial(before),
                sites(module),
                end,
            ) && {
                &&& end.gate == after
                &&& r.inline_asm_vcs == end.inline_asm_vcs
                &&& r.dma_vcs == end.dma_vcs
                &&& r.irq_race_vcs == end.irq_race_vcs
                &&& r.result@ == end.finished(dma)
            },
{
}

/// The settings are those that were asked for, on the types of the module.
pub proof fn law_settings(module: Module, assembly: InlineAsmPolicy, dma: DmaPolicy)
    ensures
        settings_for(module, assembly, dma).types == module.types@,
        settings_for(module, assembly, dma).assembly == assembly,
        settings_for(module, assembly, dma).dma == dma,
{
}

/// A run goes on step by step: one instruction more takes the state that the run came
/// to into its function and makes one step there, and a run over nothing changes
/// nothing.
pub proof fn law_run_goes_step_by_step(
    settings: Settings,
    start: State,
    path: Seq<(Site, Instruction)>,
    at: (Site, Instruction),
    end: State,
)
    ensures
        reaches(settings, start, Seq::empty(), end) <==> end == start,
        reaches(settings, start, path.push(at), end) <==> exists|mid: State, gave_up: (bool, bool)|
            reaches(settings, start, path, mid) && end == #[trigger] mid.inside(
                at.0.function,
            ).step(settings, at.0, at.1, gave_up),
{
    let longer = path.push(at);
    assert(longer.drop_last() =~= path);
    if reaches(settings, start, longer, end) {
        let mid = lemma_reaches_last(settings, start, longer, end);
        let gave_up = lemma_step_of(settings, mid, at, end);
        assert(end == mid.inside(at.0.function).step(settings, at.0, at.1, gave_up));
    }
    if exists|mid: State, gave_up: (bool, bool)|
        reaches(settings, start, path, mid) && end == #[trigger] mid.inside(at.0.function).step(
            settings,
            at.0,
            at.1,
            gave_up,
        ) {
        let (mid, gave_up) = choose|mid: State, gave_up: (bool, bool)|
            reaches(settings, start, path, mid) && end == #[trigger] mid.inside(
                at.0.function,
            ).step(settings, at.0, at.1, gave_up);
        assert(one_step(settings, mid, at, end));
        lemma_reaches_push(settings, start, path, mid, at, end);
    }
}

proof fn lemma_step_of(
    settings: Settings,
    s: State,
    at: (Site, Instruction),
    next: State,
) -> (gave_up: (bool, bool))
    requires
        one_step(settings, s, at, next),
    ensures
        next == s.inside(at.0.function).step(settings, at.0, at.1, gave_up),
{
    choose|gave_up: (bool, bool)|
        next == #[trigger] s.inside(at.0.function).step(settings, at.0, at.1, gave_up)
}

} // verus!
