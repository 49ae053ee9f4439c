use skv_analyzer::analyze::{analyze, analyze_within_limit, AnalysisOutcome};
use skv_analyzer::hitl::{load_hitl_approvals, HitlGate};
use skv_analyzer::ir::{
    infer_gep_offset, operand_const_u64, resolve_named_type, scan_irq_handlers, type_size,
    BasicBlock, BinaryOp, Call, Callee, Cast, Constant, Function, GetElementPtr, Instruction,
    Module, Name, Operand, Type, TypeTable,
};
use skv_analyzer::layout::type_layout;
use skv_analyzer::modes::{DmaPolicy, HitlMode, InlineAsmPolicy};
use skv_analyzer::report::open_gate;
use skv_analyzer::sets::StringSet;
use skv_analyzer::solver::{check_access, AccessCheckResult, Term};
use skv_analyzer::verdict::AnalysisResult;

fn name(text: &str) -> Name {
    Name::Name(text.to_string())
}

fn integer(bits: u32) -> Type {
    Type::IntegerType { bits }
}

fn local(text: &str) -> Operand {
    Operand::LocalOperand { name: name(text), ty: Type::PointerType }
}

fn local_of(text: &str, ty: Type) -> Operand {
    Operand::LocalOperand { name: name(text), ty }
}

fn constant(value: u64) -> Operand {
    Operand::ConstantOperand { constant: Constant::Int { value }, ty: integer(64) }
}

fn global(text: &str) -> Operand {
    Operand::ConstantOperand {
        constant: Constant::GlobalReference { name: name(text) },
        ty: Type::PointerType,
    }
}

fn call(function: &str, arguments: Vec<Operand>, dest: Option<&str>) -> Instruction {
    Instruction::Call(Call {
        function: Callee::Operand(global(function)),
        arguments,
        dest: dest.map(name),
    })
}

fn assembly(text: &str) -> Instruction {
    Instruction::Call(Call {
        function: Callee::InlineAssembly(text.to_string()),
        arguments: Vec::new(),
        dest: None,
    })
}

fn kmalloc(dest: &str, size: u64) -> Instruction {
    call("kmalloc", vec![constant(size), constant(0)], Some(dest))
}

fn load(address: &str, dest: &str, bits: u32) -> Instruction {
    Instruction::Load { address: local(address), dest: name(dest), loaded_ty: integer(bits) }
}

fn store(address: &str, value: Operand) -> Instruction {
    Instruction::Store { address: local(address), value }
}

fn gep(base: Operand, source: Type, indices: Vec<Operand>, dest: &str) -> Instruction {
    Instruction::GetElementPtr(GetElementPtr {
        address: base,
        source_element_type: source,
        indices,
        dest: name(dest),
    })
}

fn array(element: Type, n: usize) -> Type {
    Type::ArrayType { element_type: Box::new(element), num_elements: n }
}

fn structure(element_types: Vec<Type>) -> Type {
    Type::StructType { element_types, packed: false }
}

fn packed(element_types: Vec<Type>) -> Type {
    Type::StructType { element_types, packed: true }
}

fn float(bits: u32) -> Type {
    Type::FloatType { bits }
}

fn vector(element: Type, n: usize) -> Type {
    Type::VectorType { element_type: Box::new(element), num_elements: n }
}

fn cast(operand: Operand, dest: &str) -> Cast {
    Cast { operand, dest: name(dest) }
}

fn binary(operand0: Operand, operand1: Operand, dest: &str) -> BinaryOp {
    BinaryOp { operand0, operand1, dest: name(dest) }
}

fn function(text: &str, instrs: Vec<Instruction>) -> Function {
    Function { name: text.to_string(), basic_blocks: vec![BasicBlock { instrs }] }
}

fn module(functions: Vec<Function>) -> Module {
    Module { functions, types: TypeTable::new() }
}

fn off() -> HitlGate {
    open_gate(HitlMode::Off, StringSet::new(), StringSet::new())
}

fn run(module: &Module) -> AnalysisOutcome {
    analyze(module, &mut off(), InlineAsmPolicy::Conservative, DmaPolicy::Verify)
}

fn result(instrs: Vec<Instruction>) -> AnalysisResult {
    run(&module(vec![function("f", instrs)])).result
}

fn fail(message: &str) -> AnalysisResult {
    AnalysisResult::Fail(message.to_string())
}

fn unknown(reason: &str) -> AnalysisResult {
    AnalysisResult::Unknown(reason.to_string())
}

// ---- allocations and bounds ----

#[test]
fn access_within_an_allocation_passes() {
    let outcome = run(&module(vec![function(
        "f",
        vec![kmalloc("p", 8), load("p", "v", 64), store("p", constant(1))],
    )]));
    assert_eq!(outcome.result, AnalysisResult::Pass);
    assert_eq!(outcome.hitl_seen_vcs, 2);
    assert_eq!(outcome.hitl_seen_classes, 2);
    assert_eq!(outcome.hitl_blocked_vcs, 0);
}

#[test]
fn access_behind_an_allocation_fails() {
    assert_eq!(
        result(vec![kmalloc("p", 7), load("p", "v", 64)]),
        fail("Out-of-bounds load in function f")
    );
    assert_eq!(
        result(vec![kmalloc("p", 7), store("p", constant(1))]),
        fail("Out-of-bounds store in function f")
    );
}

#[test]
fn analysis_stops_at_the_first_failure() {
    let outcome = run(&module(vec![
        function("f", vec![kmalloc("p", 1), load("p", "a", 16), load("p", "b", 32)]),
        function("g", vec![kmalloc("p", 1), load("p", "c", 64)]),
    ]));
    assert_eq!(outcome.result, fail("Out-of-bounds load in function f"));
    assert_eq!(outcome.hitl_seen_vcs, 1);
}

#[test]
fn calloc_multiplies_its_sizes() {
    let calloc = |n: u64, m: u64| {
        call("kcalloc", vec![constant(n), constant(m), constant(0)], Some("p"))
    };
    assert_eq!(result(vec![calloc(4, 2), load("p", "v", 64)]), AnalysisResult::Pass);
    assert_eq!(
        result(vec![calloc(7, 1), load("p", "v", 64)]),
        fail("Out-of-bounds load in function f")
    );
    assert_eq!(
        result(vec![calloc(1 << 32, 1 << 32)]),
        fail("kcalloc size multiplication overflow")
    );
}

#[test]
fn memset_and_memcpy_are_checked() {
    let set = |len: u64| call("memset", vec![local("p"), constant(0), constant(len)], None);
    let copy = |len: u64| call("memcpy", vec![local("p"), local("q"), constant(len)], None);
    assert_eq!(result(vec![kmalloc("p", 8), set(8)]), AnalysisResult::Pass);
    assert_eq!(
        result(vec![kmalloc("p", 8), set(9)]),
        fail("Out-of-bounds memset in function f")
    );
    assert_eq!(result(vec![kmalloc("p", 8), kmalloc("q", 8), copy(8)]), AnalysisResult::Pass);
    assert_eq!(
        result(vec![kmalloc("p", 7), kmalloc("q", 8), copy(8)]),
        fail("Out-of-bounds memcpy destination in function f")
    );
    assert_eq!(
        result(vec![kmalloc("p", 8), kmalloc("q", 7), copy(8)]),
        fail("Out-of-bounds memcpy source in function f")
    );
}

// ---- freed memory ----

#[test]
fn freed_memory_is_not_touched() {
    let free = || call("kfree", vec![local("p")], None);
    assert_eq!(
        result(vec![kmalloc("p", 8), free(), free()]),
        fail("Double free detected in function f")
    );
    assert_eq!(
        result(vec![kmalloc("p", 8), free(), load("p", "v", 8)]),
        fail("Use-after-free load in function f")
    );
    assert_eq!(
        result(vec![kmalloc("p", 8), free(), store("p", constant(1))]),
        fail("Use-after-free store in function f")
    );
    assert_eq!(
        result(vec![
            kmalloc("p", 8),
            free(),
            call("memset", vec![local("p"), constant(0), constant(1)], None),
        ]),
        fail("Use-after-free in memset in function f")
    );
    assert_eq!(
        result(vec![
            kmalloc("p", 8),
            kmalloc("q", 8),
            free(),
            call("__memcpy", vec![local("q"), local("p"), constant(1)], None),
        ]),
        fail("Use-after-free in memcpy source in function f")
    );
    assert_eq!(result(vec![kmalloc("p", 8), load("p", "v", 8), free()]), AnalysisResult::Pass);
}

// ---- pointers that are followed ----

fn reached(size: u64, source: Type, indices: Vec<u64>, bits: u32) -> AnalysisResult {
    result(vec![
        kmalloc("p", size),
        gep(local("p"), source, indices.into_iter().map(constant).collect(), "q"),
        load("q", "v", bits),
    ])
}

#[test]
fn pointer_arithmetic_moves_the_offset() {
    let behind = || fail("Out-of-bounds load in function f");
    assert_eq!(reached(16, integer(64), vec![1], 64), AnalysisResult::Pass);
    assert_eq!(reached(16, integer(64), vec![2], 64), behind());
    assert_eq!(reached(16, integer(32), vec![2], 64), AnalysisResult::Pass);
    assert_eq!(reached(16, integer(32), vec![3], 64), behind());
    assert_eq!(reached(16, integer(8), vec![8], 64), AnalysisResult::Pass);
    assert_eq!(reached(16, integer(8), vec![9], 64), behind());
    assert_eq!(reached(16, integer(8), vec![u64::MAX], 8), behind());
}

#[test]
fn pointer_arithmetic_counts_in_elements() {
    let behind = || fail("Out-of-bounds load in function f");
    let wide = || array(integer(64), 4);
    assert_eq!(reached(16, wide(), vec![0, 1], 64), AnalysisResult::Pass);
    assert_eq!(reached(16, wide(), vec![0, 2], 64), behind());
    assert_eq!(reached(64, wide(), vec![1, 3], 64), AnalysisResult::Pass);
    assert_eq!(reached(64, wide(), vec![2, 0], 64), behind());
    let grid = || array(array(integer(16), 3), 2);
    assert_eq!(reached(12, grid(), vec![0, 1, 2], 16), AnalysisResult::Pass);
    assert_eq!(reached(11, grid(), vec![0, 1, 2], 16), behind());
}

#[test]
fn pointer_arithmetic_selects_fields() {
    let behind = || fail("Out-of-bounds load in function f");
    let record = || structure(vec![integer(32), integer(32), Type::PointerType, integer(64)]);
    assert_eq!(reached(24, record(), vec![0, 3], 64), AnalysisResult::Pass);
    assert_eq!(reached(23, record(), vec![0, 3], 64), behind());
    assert_eq!(reached(8, record(), vec![0, 1], 32), AnalysisResult::Pass);
    assert_eq!(reached(8, record(), vec![0, 2], 8), behind());
    assert_eq!(reached(48, record(), vec![1, 3], 64), AnalysisResult::Pass);
    let nested = || structure(vec![integer(64), array(integer(32), 4)]);
    assert_eq!(reached(24, nested(), vec![0, 1, 3], 32), AnalysisResult::Pass);
    assert_eq!(reached(23, nested(), vec![0, 1, 3], 32), behind());
}

#[test]
fn padding_counts() {
    let behind = || fail("Out-of-bounds load in function f");
    let small = || structure(vec![integer(8), integer(32)]);
    assert_eq!(reached(8, small(), vec![0, 1], 32), AnalysisResult::Pass);
    assert_eq!(reached(7, small(), vec![0, 1], 32), behind());
    let padded = || structure(vec![integer(64), integer(8)]);
    assert_eq!(reached(17, padded(), vec![1, 0], 8), AnalysisResult::Pass);
    assert_eq!(reached(16, padded(), vec![1, 0], 8), behind());
    let tight = || packed(vec![integer(8), integer(32)]);
    assert_eq!(reached(5, tight(), vec![0, 1], 32), AnalysisResult::Pass);
    assert_eq!(reached(4, tight(), vec![0, 1], 32), behind());
}

#[test]
fn unknown_parts_are_unknown() {
    let unclear = || unknown("GEP with unsupported index/type pattern");
    assert_eq!(reached(64, Type::Other, vec![1], 8), unclear());
    assert_eq!(reached(64, named("missing"), vec![1], 8), unclear());
    assert_eq!(reached(64, array(Type::Other, 4), vec![0, 1], 8), unclear());
    assert_eq!(reached(64, integer(64), vec![0, 7], 64), AnalysisResult::Pass);
    assert_eq!(
        reached(64, integer(64), vec![0, 8], 8),
        fail("Out-of-bounds load in function f")
    );
    assert_eq!(reached(64, Type::Other, vec![0, 0], 8), AnalysisResult::Pass);
    assert_eq!(reached(64, integer(64), vec![0, 0], 64), AnalysisResult::Pass);
}

#[test]
fn pointers_survive_integers() {
    let trip = |plus: u64, minus: u64| {
        vec![
            kmalloc("p", 8),
            Instruction::PtrToInt(cast(local("p"), "i")),
            Instruction::Add(binary(constant(plus), local_of("i", integer(64)), "j")),
            Instruction::Sub(binary(local_of("j", integer(64)), constant(minus), "k")),
            Instruction::IntToPtr(cast(local_of("k", integer(64)), "q")),
            Instruction::BitCast(cast(local("q"), "r")),
            load("r", "v", 64),
        ]
    };
    assert_eq!(result(trip(40, 40)), AnalysisResult::Pass);
    assert_eq!(result(trip(41, 40)), fail("Out-of-bounds load in function f"));
    assert_eq!(result(trip(40, 41)), fail("Out-of-bounds load in function f"));
    assert_eq!(
        result(vec![
            kmalloc("p", 8),
            Instruction::PtrToInt(cast(local("p"), "i")),
            Instruction::Sub(binary(constant(9), local_of("i", integer(64)), "j")),
        ]),
        unknown("Unsupported pointer-derived integer sub pattern")
    );
}

#[test]
fn spilled_pointers_come_back() {
    let spill = |size: u64| {
        vec![
            Instruction::Alloca { dest: name("slot") },
            kmalloc("p", size),
            store("slot", local("p")),
            Instruction::Load {
                address: local("slot"),
                dest: name("q"),
                loaded_ty: Type::PointerType,
            },
            load("q", "v", 64),
        ]
    };
    assert_eq!(result(spill(8)), AnalysisResult::Pass);
    assert_eq!(result(spill(7)), fail("Out-of-bounds load in function f"));
    let mut overwritten = spill(8);
    overwritten.insert(3, store("slot", local("x")));
    assert_eq!(
        result(overwritten),
        unknown("Load through pointer of unknown provenance")
    );
}

// ---- unsupported patterns ----

#[test]
fn unsupported_patterns_are_unknown() {
    let n = || local_of("n", integer(64));
    let cases: Vec<(Vec<Instruction>, &str)> = vec![
        (vec![call("kmalloc", vec![], None)], "kmalloc/kzalloc missing size argument"),
        (
            vec![call("kzalloc", vec![n()], None)],
            "kmalloc/kzalloc with non-constant size unsupported",
        ),
        (vec![call("kcalloc", vec![], None)], "kcalloc missing nmemb argument"),
        (vec![call("kcalloc", vec![n()], None)], "kcalloc missing size argument"),
        (
            vec![call("kcalloc", vec![constant(1), n()], None)],
            "kcalloc with non-constant nmemb/size unsupported",
        ),
        (vec![call("kfree", vec![], None)], "kfree missing pointer argument"),
        (vec![call("kfree", vec![constant(0)], None)], "kfree on non-local operand unsupported"),
        (vec![call("memset", vec![local("p")], None)], "memset missing length argument"),
        (
            vec![call("memset", vec![local("p"), constant(0), n()], None)],
            "memset with non-constant length unsupported",
        ),
        (vec![call("memcpy", vec![local("p")], None)], "memcpy missing source argument"),
        (
            vec![call("memcpy", vec![local("p"), local("q")], None)],
            "memcpy missing length argument",
        ),
        (
            vec![call("memcpy", vec![local("p"), local("q"), n()], None)],
            "memcpy with non-constant length unsupported",
        ),
        (
            vec![call("dma_alloc_coherent", vec![local("d")], None)],
            "dma_alloc_coherent missing size argument",
        ),
        (
            vec![call("dma_alloc_coherent", vec![local("d"), n()], None)],
            "dma_alloc_coherent with non-constant size",
        ),
        (
            vec![call("dma_map_single", vec![local("d")], None)],
            "dma_map_single missing ptr argument",
        ),
        (
            vec![call("dma_map_single", vec![local("d"), local("p")], None)],
            "dma_map_single missing size argument",
        ),
        (
            vec![call("dma_map_single", vec![local("d"), local("p"), n()], None)],
            "dma_map_single with non-constant size",
        ),
        (vec![gep(global("g"), integer(8), vec![], "q")], "GEP base is not a local operand"),
        (
            vec![kmalloc("p", 8), gep(local("p"), integer(8), vec![n()], "q")],
            "GEP with unsupported index/type pattern",
        ),
        (
            vec![
                call("dma_alloc_coherent", vec![local("d"), constant(8)], Some("p")),
                gep(local("p"), integer(8), vec![n()], "q"),
            ],
            "GEP with unsupported index/type pattern (DMA)",
        ),
        (
            vec![Instruction::PtrToInt(cast(global("g"), "i"))],
            "PtrToInt from non-local operand unsupported",
        ),
        (
            vec![Instruction::IntToPtr(cast(constant(1), "q"))],
            "IntToPtr from non-local operand unsupported",
        ),
        (
            vec![Instruction::BitCast(cast(global("g"), "q"))],
            "BitCast from non-local operand unsupported",
        ),
        (
            vec![
                kmalloc("p", 8),
                Instruction::PtrToInt(cast(local("p"), "i")),
                Instruction::Add(binary(local_of("i", integer(64)), n(), "j")),
            ],
            "Unsupported pointer-derived integer add pattern",
        ),
        (
            vec![kmalloc("p", 8), store("p", local_of("x", Type::Other))],
            "Store with unknown value type size",
        ),
        (
            vec![
                kmalloc("p", 8),
                Instruction::Load {
                    address: local("p"),
                    dest: name("v"),
                    loaded_ty: Type::Other,
                },
            ],
            "Load with unknown type size",
        ),
        (
            vec![call("kfree", vec![local("x")], None)],
            "kfree on pointer of unsupported provenance",
        ),
        (
            vec![dma_alloc(8), call("kfree", vec![local("p")], None)],
            "kfree on pointer of unsupported provenance",
        ),
        (vec![call("memset", vec![], None)], "memset missing destination argument"),
        (
            vec![call("memset", vec![global("g"), constant(0), n()], None)],
            "memset through pointer of unknown provenance",
        ),
        (vec![call("__memcpy", vec![], None)], "memcpy missing destination argument"),
        (vec![Instruction::OtherAccess], "Unsupported memory access instruction"),
        (vec![load("x", "v", 64)], "Load through pointer of unknown provenance"),
        (vec![store("x", constant(1))], "Store through pointer of unknown provenance"),
        (
            vec![Instruction::Store { address: global("g"), value: constant(1) }],
            "Store through pointer of unknown provenance",
        ),
        (
            vec![call("memset", vec![global("g"), constant(0), constant(9)], None)],
            "memset through pointer of unknown provenance",
        ),
        (
            vec![kmalloc("q", 8), call("memcpy", vec![local("x"), local("q"), constant(8)], None)],
            "memcpy destination through pointer of unknown provenance",
        ),
        (
            vec![kmalloc("p", 8), call("memcpy", vec![local("p"), local("x"), constant(8)], None)],
            "memcpy source through pointer of unknown provenance",
        ),
        (
            vec![call("dma_map_single", vec![local("d"), local("x"), constant(8)], None)],
            "dma_map_single on pointer of unknown provenance",
        ),
    ];
    for (instrs, reason) in cases {
        assert_eq!(result(instrs), unknown(reason));
    }
}

#[test]
fn the_first_reason_is_kept() {
    assert_eq!(
        result(vec![call("kfree", vec![], None), call("kmalloc", vec![], None)]),
        unknown("kfree missing pointer argument")
    );
    assert_eq!(
        result(vec![call("kfree", vec![], None), kmalloc("p", 1), load("p", "v", 16)]),
        fail("Out-of-bounds load in function f")
    );
}

// ---- inline assembly ----

#[test]
fn assembly_is_trapped_or_opaque() {
    let m = module(vec![function("f", vec![assembly(" CPUID"), assembly("mov %eax, %ebx")])]);
    let outcome = run(&m);
    assert_eq!(outcome.result, unknown("Opaque inline assembly in function f: 'mov %eax, %ebx'"));
    assert_eq!(outcome.inline_asm_vcs, 1);
    let trapped = analyze(&m, &mut off(), InlineAsmPolicy::Trap, DmaPolicy::Verify);
    assert_eq!(
        trapped.result,
        fail("Inline assembly detected in function f (trap policy)")
    );
    assert_eq!(trapped.inline_asm_vcs, 1);
    assert_eq!(trapped.hitl_seen_vcs, 0);
    let mut gate = open_gate(HitlMode::Require, StringSet::new(), StringSet::new());
    let blocked = analyze(&m, &mut gate, InlineAsmPolicy::Conservative, DmaPolicy::Verify);
    assert_eq!(
        blocked.result,
        unknown("HITL gate blocked inline asm VC: f::bb0::i1::inline_asm")
    );
    assert_eq!(gate.blocked_classes, vec!["class::inline_asm::opaque".to_string()]);
}

// ---- DMA ----

fn dma_alloc(size: u64) -> Instruction {
    call("dma_alloc_coherent", vec![local("d"), constant(size)], Some("p"))
}

fn dma_map(size: u64) -> Instruction {
    call("dma_map_single", vec![local("d"), local("p"), constant(size)], None)
}

#[test]
fn dma_mappings_are_checked() {
    let outcome = run(&module(vec![function("f", vec![dma_alloc(64), dma_map(64)])]));
    assert_eq!(outcome.result, AnalysisResult::Pass);
    assert_eq!(outcome.dma_vcs, 1);
    assert_eq!(outcome.hitl_seen_vcs, 2);
    let outcome = run(&module(vec![function("f", vec![dma_alloc(64), dma_map(65)])]));
    assert_eq!(outcome.result, fail("DMA mapping exceeds allocation bounds in function f"));
    assert_eq!(outcome.dma_vcs, 2);
    let m = module(vec![function("f", vec![dma_alloc(64), dma_map(65)])]);
    let ignored = analyze(&m, &mut off(), InlineAsmPolicy::Trap, DmaPolicy::Ignore);
    assert_eq!(ignored.result, AnalysisResult::Pass);
    assert_eq!(ignored.dma_vcs, 0);
    let m = module(vec![function("f", vec![dma_alloc(64), load("p", "v", 999)])]);
    let ignored = analyze(&m, &mut off(), InlineAsmPolicy::Trap, DmaPolicy::Ignore);
    assert_eq!(ignored.result, unknown("Load through pointer of unknown provenance"));
}

#[test]
fn accesses_to_dma_memory_are_checked() {
    let set = |len: u64| call("memset", vec![local("p"), constant(0), constant(len)], None);
    assert_eq!(result(vec![dma_alloc(16), set(16)]), AnalysisResult::Pass);
    assert_eq!(
        result(vec![dma_alloc(16), set(64)]),
        fail("Out-of-bounds memset in function f")
    );
    let copy = |to: &str, from: &str, len: u64| {
        call("memcpy", vec![local(to), local(from), constant(len)], None)
    };
    assert_eq!(
        result(vec![dma_alloc(16), kmalloc("q", 64), copy("p", "q", 64)]),
        fail("Out-of-bounds memcpy destination in function f")
    );
    assert_eq!(
        result(vec![dma_alloc(16), kmalloc("q", 64), copy("q", "p", 64)]),
        fail("Out-of-bounds memcpy source in function f")
    );
    assert_eq!(
        result(vec![dma_alloc(16), kmalloc("q", 64), copy("q", "p", 16)]),
        AnalysisResult::Pass
    );
    assert_eq!(
        result(vec![dma_alloc(16), load("p", "v", 136)]),
        fail("Out-of-bounds load in function f")
    );
}

#[test]
fn iommu_is_required_for_every_dma_allocation() {
    let verdict = |instrs: Vec<Instruction>| {
        analyze(
            &module(vec![function("f", instrs)]),
            &mut off(),
            InlineAsmPolicy::Conservative,
            DmaPolicy::RequireIommu,
        )
        .result
    };
    let iommu = |pointer: &str| call("iommu_map", vec![local("domain"), local(pointer)], None);
    let second = || call("dma_alloc_coherent", vec![local("d"), constant(8)], Some("q"));
    let missing = |k: usize| {
        fail(&format!(
            "DMA allocation {k} has no paired iommu_map call (require-iommu policy)"
        ))
    };
    assert_eq!(verdict(vec![dma_alloc(8), iommu("p")]), AnalysisResult::Pass);
    assert_eq!(verdict(vec![kmalloc("q", 1), dma_alloc(8)]), missing(1));
    assert_eq!(verdict(vec![dma_alloc(8), second(), iommu("p")]), missing(1));
    assert_eq!(verdict(vec![dma_alloc(8), second(), iommu("q")]), missing(0));
    assert_eq!(verdict(vec![dma_alloc(8), second(), iommu("domain")]), missing(0));
    assert_eq!(
        verdict(vec![dma_alloc(8), second(), iommu("q"), iommu("p")]),
        AnalysisResult::Pass
    );
    assert_eq!(verdict(vec![dma_alloc(8), call("iommu_map", vec![], None)]), missing(0));
    assert_eq!(verdict(vec![dma_alloc(8), iommu("p"), second()]), missing(1));
    assert_eq!(
        verdict(vec![
            dma_alloc(8),
            gep(local("p"), integer(8), vec![constant(4)], "r"),
            iommu("r"),
        ]),
        AnalysisResult::Pass
    );
    assert_eq!(verdict(vec![kmalloc("q", 1)]), AnalysisResult::Pass);
}

// ---- interrupt handlers ----

fn with_handler(handler: Vec<Instruction>) -> Module {
    module(vec![
        function(
            "f",
            vec![
                call("request_irq", vec![constant(3), global("handler")], None),
                kmalloc("p", 8),
                load("p", "v", 64),
            ],
        ),
        function("handler", handler),
    ])
}

#[test]
fn freeing_handlers_are_found() {
    let m = with_handler(vec![call("kfree", vec![local("x")], None)]);
    let found = scan_irq_handlers(&m);
    assert!(found.contains("handler"));
    assert_eq!(found.len(), 1);
    let outcome = run(&m);
    assert_eq!(
        outcome.result,
        unknown("Potential IRQ race: interrupt handler may free allocation 0 before load in f")
    );
    assert_eq!(outcome.irq_race_vcs, 1);
    let harmless = with_handler(vec![call("kmalloc", vec![constant(1)], None)]);
    assert!(scan_irq_handlers(&harmless).is_empty());
    assert_eq!(run(&harmless).result, AnalysisResult::Pass);
}

#[test]
fn handlers_may_come_first() {
    let m = module(vec![
        function("h", vec![call("kfree", vec![local("d")], None)]),
        function(
            "f",
            vec![
                call("request_irq", vec![constant(5), global("h"), constant(0)], Some("r")),
                kmalloc("p", 8),
                load("p", "v", 32),
            ],
        ),
    ]);
    let mut gate = off();
    let outcome = analyze(&m, &mut gate, InlineAsmPolicy::Conservative, DmaPolicy::Verify);
    assert_eq!(
        outcome.result,
        unknown("Potential IRQ race: interrupt handler may free allocation 0 before load in f")
    );
    assert_eq!(outcome.irq_race_vcs, 1);
    assert_eq!(
        gate.seen,
        vec!["f::bb0::i2::load".to_string(), "f::bb0::i2::irq_race_load".to_string()]
    );
    assert_eq!(
        gate.seen_classes,
        vec!["class::load::size4".to_string(), "class::irq_race::alloc0".to_string()]
    );
}

#[test]
fn what_is_not_followed_hides_nothing() {
    let lone = || vec![load("x", "v", 64), call("kfree", vec![local("x")], None)];
    assert_eq!(result(lone()), unknown("Load through pointer of unknown provenance"));
    let mut found = lone();
    found.push(call("kmalloc", vec![], None));
    assert_eq!(result(found), unknown("kmalloc/kzalloc missing size argument"));
    let mut failed = lone();
    failed.push(kmalloc("p", 1));
    failed.push(load("p", "w", 16));
    assert_eq!(result(failed), fail("Out-of-bounds load in function f"));
    let mut unmapped = lone();
    unmapped.push(dma_alloc(8));
    let m = module(vec![function("f", unmapped)]);
    let outcome =
        analyze(&m, &mut off(), InlineAsmPolicy::Conservative, DmaPolicy::RequireIommu);
    assert_eq!(
        outcome.result,
        fail("DMA allocation 0 has no paired iommu_map call (require-iommu policy)")
    );
}

#[test]
fn race_conditions_go_through_the_gate() {
    let m = with_handler(vec![call("kfree", vec![local("x")], None)]);
    let mut classes = StringSet::new();
    classes.insert("class::load::size8".to_string());
    let mut gate = open_gate(HitlMode::Require, StringSet::new(), classes);
    let outcome = analyze(&m, &mut gate, InlineAsmPolicy::Conservative, DmaPolicy::Verify);
    assert_eq!(
        outcome.result,
        unknown("HITL gate blocked IRQ race VC: f::bb0::i2::irq_race_load")
    );
    assert_eq!(gate.blocked_classes, vec!["class::irq_race::alloc0".to_string()]);
    assert_eq!(outcome.hitl_blocked_vcs, 1);
}

// ---- approvals ----

#[test]
fn approvals_decide_what_is_solved() {
    let m = module(vec![function("f", vec![kmalloc("p", 4), load("p", "v", 64)])]);
    let mut gate = open_gate(HitlMode::Require, StringSet::new(), StringSet::new());
    let blocked = analyze(&m, &mut gate, InlineAsmPolicy::Conservative, DmaPolicy::Verify);
    assert_eq!(
        blocked.result,
        unknown("HITL gate blocked unapproved VC: f::bb0::i1::load")
    );
    assert_eq!(blocked.hitl_blocked_vcs, 1);
    let mut ids = StringSet::new();
    ids.insert("f::bb0::i1::load".to_string());
    let mut gate = open_gate(HitlMode::Require, ids, StringSet::new());
    let solved = analyze(&m, &mut gate, InlineAsmPolicy::Conservative, DmaPolicy::Verify);
    assert_eq!(solved.result, fail("Out-of-bounds load in function f"));
    assert_eq!(solved.hitl_blocked_vcs, 0);
}

#[test]
fn a_time_limit_changes_no_decided_result() {
    let m = module(vec![function("f", vec![kmalloc("p", 8), load("p", "v", 64)])]);
    let mut gate = off();
    let outcome =
        analyze_within_limit(&m, &mut gate, InlineAsmPolicy::Conservative, DmaPolicy::Verify);
    assert_eq!(outcome.result, AnalysisResult::Pass);
    assert_eq!(gate.seen, vec!["f::bb0::i1::load".to_string()]);
    let m = module(vec![function("f", vec![kmalloc("p", 7), load("p", "v", 64)])]);
    let outcome =
        analyze_within_limit(&m, &mut off(), InlineAsmPolicy::Conservative, DmaPolicy::Verify);
    assert_eq!(outcome.result, fail("Out-of-bounds load in function f"));
}

#[test]
fn runs_agree() {
    let m = with_handler(vec![call("kfree", vec![local("x")], None)]);
    let mut first = off();
    let mut second = off();
    let a = analyze(&m, &mut first, InlineAsmPolicy::Conservative, DmaPolicy::Verify);
    let b = analyze(&m, &mut second, InlineAsmPolicy::Conservative, DmaPolicy::Verify);
    assert_eq!(a.result, b.result);
    assert_eq!(first.seen, second.seen);
    assert_eq!(first.seen_classes, second.seen_classes);
}

#[test]
fn approving_what_was_seen_blocks_nothing() {
    let m = module(vec![function(
        "f",
        vec![kmalloc("p", 8), load("p", "v", 8), store("p", constant(1)), assembly("hlt")],
    )]);
    let mut gate = open_gate(HitlMode::Require, StringSet::new(), StringSet::new());
    analyze(&m, &mut gate, InlineAsmPolicy::Conservative, DmaPolicy::Verify);
    assert_eq!(gate.blocked.len(), 3);
    let mut list = String::new();
    for id in gate.blocked.iter() {
        list.push_str(id);
        list.push('\n');
    }
    let mut gate = open_gate(HitlMode::Require, load_hitl_approvals(&list), StringSet::new());
    let outcome = analyze(&m, &mut gate, InlineAsmPolicy::Conservative, DmaPolicy::Verify);
    assert!(gate.blocked.is_empty());
    assert_eq!(outcome.hitl_seen_vcs, 3);
    assert_eq!(outcome.result, unknown("Opaque inline assembly in function f: 'hlt'"));
}

#[test]
fn names_belong_to_their_function() {
    let both = |second: Vec<Instruction>| {
        run(&module(vec![
            function("f", vec![Instruction::Alloca { dest: name("slot") }, kmalloc("p", 8)]),
            function("g", second),
        ]))
        .result
    };
    assert_eq!(
        both(vec![load("p", "v", 64)]),
        unknown("Load through pointer of unknown provenance")
    );
    assert_eq!(
        both(vec![store("slot", constant(1))]),
        unknown("Store through pointer of unknown provenance")
    );
    assert_eq!(
        both(vec![kmalloc("p", 4), load("p", "v", 64)]),
        fail("Out-of-bounds load in function g")
    );
    assert_eq!(both(vec![kmalloc("p", 8), load("p", "v", 64)]), AnalysisResult::Pass);
}

#[test]
fn what_touches_no_memory_is_left_alone() {
    assert_eq!(
        result(vec![
            Instruction::Alloca { dest: name("slot") },
            store("slot", constant(1)),
            load("slot", "v", 64),
            call("other", vec![], None),
            Instruction::Other,
        ]),
        AnalysisResult::Pass
    );
}

// ---- types ----

fn named(text: &str) -> Type {
    Type::NamedStructType { name: text.to_string() }
}

#[test]
fn sizes_are_sums_of_parts() {
    let mut m = module(vec![]);
    m.types.define(
        "pair".to_string(),
        structure(vec![integer(9), Type::PointerType]),
    );
    m.types.define("alias".to_string(), named("pair"));
    m.types.define(
        "list".to_string(),
        structure(vec![named("list"), integer(8)]),
    );
    m.types.define("loop".to_string(), named("loop"));
    assert_eq!(type_size(&integer(0), &m), Some(0));
    assert_eq!(type_size(&integer(1), &m), Some(1));
    assert_eq!(type_size(&integer(8), &m), Some(1));
    assert_eq!(type_size(&integer(9), &m), Some(2));
    assert_eq!(type_size(&Type::PointerType, &m), Some(8));
    assert_eq!(type_size(&named("pair"), &m), Some(10));
    assert_eq!(type_size(&named("alias"), &m), Some(10));
    assert_eq!(type_size(&array(named("alias"), 3), &m), Some(30));
    assert_eq!(type_size(&array(array(integer(32), 4), 4), &m), Some(64));
    assert_eq!(type_size(&array(integer(64), usize::MAX), &m), None);
    assert_eq!(type_size(&Type::Other, &m), None);
    assert_eq!(type_size(&float(64), &m), None);
    assert_eq!(type_size(&vector(integer(32), 4), &m), None);
    assert_eq!(type_size(&named("missing"), &m), None);
    assert_eq!(type_size(&named("list"), &m), None);
    assert_eq!(type_size(&named("loop"), &m), None);
    assert!(matches!(resolve_named_type(&named("alias"), &m), Some(Type::StructType { .. })));
    assert!(resolve_named_type(&named("loop"), &m).is_none());
    assert!(matches!(resolve_named_type(&integer(3), &m), Some(Type::IntegerType { bits: 3 })));
}

#[test]
fn layouts_are_natural() {
    let mut m = module(vec![]);
    m.types.define("pair".to_string(), structure(vec![integer(8), Type::PointerType]));
    m.types.define("list".to_string(), structure(vec![integer(8), named("list")]));
    let layout = |ty: Type| type_layout(&ty, &m).map(|l| (l.size, l.align));
    assert_eq!(layout(integer(1)), Some((1, 1)));
    assert_eq!(layout(integer(16)), Some((2, 2)));
    assert_eq!(layout(integer(24)), Some((4, 4)));
    assert_eq!(layout(integer(33)), Some((8, 8)));
    assert_eq!(layout(integer(128)), Some((16, 16)));
    assert_eq!(layout(integer(200)), Some((32, 16)));
    assert_eq!(layout(float(16)), Some((2, 2)));
    assert_eq!(layout(float(80)), Some((16, 16)));
    assert_eq!(layout(Type::PointerType), Some((8, 8)));
    assert_eq!(layout(vector(float(32), 3)), Some((16, 16)));
    assert_eq!(layout(vector(integer(1), 9)), Some((2, 2)));
    assert_eq!(layout(vector(Type::PointerType, 8)), Some((64, 64)));
    assert_eq!(layout(array(float(64), 5)), Some((40, 8)));
    assert_eq!(layout(structure(vec![])), Some((0, 1)));
    assert_eq!(
        layout(structure(vec![integer(8), integer(32), integer(8), integer(16)])),
        Some((12, 4))
    );
    assert_eq!(layout(packed(vec![integer(8), integer(32), integer(16)])), Some((7, 1)));
    assert_eq!(layout(array(named("pair"), 3)), Some((48, 8)));
    assert_eq!(layout(structure(vec![integer(8), vector(integer(32), 4)])), Some((32, 16)));
    assert_eq!(layout(array(integer(64), usize::MAX)), Some((u64::MAX, 8)));
    assert_eq!(layout(named("list")), None);
    assert_eq!(layout(named("missing")), None);
    assert_eq!(layout(structure(vec![integer(8), Type::Other])), None);
}

#[test]
fn offsets_follow_the_indices() {
    let mut m = module(vec![]);
    m.types.define("pair".to_string(), structure(vec![integer(64), Type::PointerType]));
    let offset = |source: Type, indices: Vec<Operand>| {
        infer_gep_offset(
            &GetElementPtr {
                address: local("p"),
                source_element_type: source,
                indices,
                dest: name("q"),
            },
            &Term::from_u64(5),
            &m,
        )
    };
    let is = |term: &Term, value: u64| {
        let mut gate = off();
        let behind = check_access(value, term, 0, "v", "c", &mut gate);
        let before = check_access(u64::MAX, &term.minus(&Term::from_u64(value)), 0, "v", "c", &mut gate);
        behind == AccessCheckResult::Safe && before == AccessCheckResult::Safe
    };
    let table = || array(array(integer(16), 5), 7);
    let term = offset(table(), vec![constant(2), constant(3), constant(4)]).unwrap();
    assert!(is(&term, 5 + 2 * 70 + 3 * 10 + 4 * 2));
    let term = offset(integer(16), vec![constant(7)]).unwrap();
    assert!(is(&term, 5 + 14));
    let term = offset(named("pair"), vec![constant(1), constant(1)]).unwrap();
    assert!(is(&term, 5 + 16 + 8));
    let small = || structure(vec![integer(8), integer(32)]);
    assert!(is(&offset(small(), vec![constant(0), constant(1)]).unwrap(), 5 + 4));
    let term = offset(array(float(64), 4), vec![constant(0), constant(3)]).unwrap();
    assert!(is(&term, 5 + 24));
    let term = offset(vector(integer(16), 8), vec![constant(2), constant(3)]).unwrap();
    assert!(is(&term, 5 + 32 + 6));
    let term = offset(integer(64), vec![constant(u64::MAX)]).unwrap();
    assert!(is(&term.minus(&Term::from_u64(5)), u64::MAX));
    assert!(is(&offset(Type::Other, vec![]).unwrap(), 5));
    assert!(is(&offset(Type::Other, vec![constant(0)]).unwrap(), 5));
    assert!(offset(Type::Other, vec![constant(1)]).is_none());
    assert!(offset(table(), vec![constant(1), local("n")]).is_none());
    assert_eq!(operand_const_u64(&constant(77)), Some(77));
    assert_eq!(operand_const_u64(&local("p")), None);
    assert_eq!(operand_const_u64(&global("g")), None);
}
