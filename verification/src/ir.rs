//! The part of LLVM IR that the analysis reads.
use crate::layout::{element_offset, layout_of, offset_of, type_layout, Layout};
use crate::sets::StringSet;
use crate::solver::Term;
use crate::text::same_text;
use vstd::hash_map::StringHashMap;
use vstd::prelude::*;

verus! {

/// Name of a local value or of a global.
#[derive(Debug)]
pub enum Name {
    Name(String),
    Number(usize),
}

/// A name by its characters or its number.
pub enum NameId {
    Named(Seq<char>),
    Numbered(nat),
}

impl View for Name {
    type V = NameId;

    open spec fn view(&self) -> NameId {
        match *self {
            Name::Name(text) => NameId::Named(text@),
            Name::Number(number) => NameId::Numbered(number as nat),
        }
    }
}

impl Clone for Name {
    fn clone(&self) -> (r: Name)
        ensures
            r@ == self@,
    {
        match self {
            Name::Name(text) => Name::Name(text.clone()),
            Name::Number(number) => Name::Number(*number),
        }
    }
}

/// Type of a value.
#[derive(Debug)]
pub enum Type {
    IntegerType { bits: u32 },
    PointerType,
    /// A floating-point number of that many bits.
    FloatType { bits: u32 },
    /// A vector of fixed length.
    VectorType { element_type: Box<Type>, num_elements: usize },
    ArrayType { element_type: Box<Type>, num_elements: usize },
    /// The elements of a packed structure lie without padding.
    StructType { element_types: Vec<Type>, packed: bool },
    NamedStructType { name: String },
    /// Any other type: nothing is known of its values.
    Other,
}

/// The definitions of named structures; opaque structures have none.
pub struct TypeTable {
    defs: StringHashMap<Type>,
}

impl View for TypeTable {
    type V = Map<Seq<char>, Type>;

    closed spec fn view(&self) -> Map<Seq<char>, Type> {
        self.defs@
    }
}

impl TypeTable {
    /// A table without definitions.
    pub fn new() -> (r: TypeTable)
        ensures
            r@ == Map::<Seq<char>, Type>::empty(),
    {
        TypeTable { defs: StringHashMap::new() }
    }

    /// Defines the structure `name`.
    pub fn define(&mut self, name: String, ty: Type)
        ensures
            final(self)@ == old(self)@.insert(name@, ty),
    {
        self.defs.insert(name, ty);
    }

    /// The definition of the structure `name`.
    pub fn get(&self, name: &str) -> (r: Option<&Type>)
        ensures
            match r {
                Some(ty) => self@.contains_key(name@) && *ty == self@[name@],
                None => !self@.contains_key(name@),
            },
    {
        self.defs.get(name)
    }

    /// The number of definitions.
    pub fn len(&self) -> (n: usize)
        ensures
            n == self@.len(),
    {
        self.defs.len()
    }
}

/// A constant operand.
#[derive(Debug)]
pub enum Constant {
    Int { value: u64 },
    GlobalReference { name: Name },
    Other,
}

/// An operand of an instruction.
#[derive(Debug)]
pub enum Operand {
    LocalOperand { name: Name, ty: Type },
    ConstantOperand { constant: Constant, ty: Type },
    MetadataOperand,
}

/// What a call calls.
#[derive(Debug)]
pub enum Callee {
    InlineAssembly(String),
    Operand(Operand),
}

/// A call instruction.
#[derive(Debug)]
pub struct Call {
    pub function: Callee,
    pub arguments: Vec<Operand>,
    pub dest: Option<Name>,
}

/// A pointer computation.
#[derive(Debug)]
pub struct GetElementPtr {
    pub address: Operand,
    /// The type that the first index counts in.
    pub source_element_type: Type,
    pub indices: Vec<Operand>,
    pub dest: Name,
}

/// A conversion of one operand.
#[derive(Debug)]
pub struct Cast {
    pub operand: Operand,
    pub dest: Name,
}

/// An operation on two operands.
#[derive(Debug)]
pub struct BinaryOp {
    pub operand0: Operand,
    pub operand1: Operand,
    pub dest: Name,
}

/// An instruction.
#[derive(Debug)]
pub enum Instruction {
    Alloca { dest: Name },
    Call(Call),
    GetElementPtr(GetElementPtr),
    PtrToInt(Cast),
    IntToPtr(Cast),
    BitCast(Cast),
    Add(BinaryOp),
    Sub(BinaryOp),
    Store { address: Operand, value: Operand },
    Load { address: Operand, dest: Name, loaded_ty: Type },
    /// Another instruction that reads or writes memory, such as an atomic exchange.
    OtherAccess,
    /// An instruction that touches no memory.
    Other,
}

/// A straight-line sequence of instructions.
#[derive(Debug)]
pub struct BasicBlock {
    pub instrs: Vec<Instruction>,
}

/// A function.
#[derive(Debug)]
pub struct Function {
    pub name: String,
    pub basic_blocks: Vec<BasicBlock>,
}

/// A module.
pub struct Module {
    pub functions: Vec<Function>,
    pub types: TypeTable,
}

// ---- types and their sizes ----

/// The type that `ty` stands for and the unfoldings that are left, where it is
/// reached by unfolding definitions at most `fuel` times.
pub open spec fn unfolded(table: Map<Seq<char>, Type>, ty: Type, fuel: nat) -> Option<(Type, nat)>
    decreases fuel,
{
    match ty {
        Type::NamedStructType { name } => if fuel > 0 && table.contains_key(name@) {
            unfolded(table, table[name@], (fuel - 1) as nat)
        } else {
            None
        },
        _ => Some((ty, fuel)),
    }
}

/// The type that `ty` stands for. A type that is defined as itself stands for none.
pub open spec fn resolved_type(table: Map<Seq<char>, Type>, ty: Type) -> Option<Type> {
    match unfolded(table, ty, table.len()) {
        Some((inner, _)) => Some(inner),
        None => None,
    }
}

/// `a + b`, where it fits in 64 bits.
pub open spec fn checked_sum(a: Option<nat>, b: Option<nat>) -> Option<nat> {
    if a is Some && b is Some && a->0 + b->0 <= u64::MAX {
        Some(a->0 + b->0)
    } else {
        None
    }
}

/// `a * n`, where it fits in 64 bits.
pub open spec fn checked_product(a: Option<nat>, n: nat) -> Option<nat> {
    if a is Some && a->0 * n <= u64::MAX {
        Some(a->0 * n)
    } else {
        None
    }
}

/// The size of `ty` in bytes with definitions unfolded at most `fuel` deep.
pub open spec fn size_within(table: Map<Seq<char>, Type>, ty: Type, fuel: nat) -> Option<nat>
    decreases fuel, ty,
{
    match ty {
        Type::IntegerType { bits } => Some(((bits + 7) / 8) as nat),
        Type::PointerType => Some(8nat),
        Type::ArrayType { element_type, num_elements } => checked_product(
            size_within(table, *element_type, fuel),
            num_elements as nat,
        ),
        Type::StructType { element_types, .. } => sum_within(table, element_types@, fuel),
        Type::NamedStructType { name } => if fuel > 0 && table.contains_key(name@) {
            size_within(table, table[name@], (fuel - 1) as nat)
        } else {
            None
        },
        _ => None,
    }
}

/// The sum of the sizes of `elements`.
pub open spec fn sum_within(
    table: Map<Seq<char>, Type>,
    elements: Seq<Type>,
    fuel: nat,
) -> Option<nat>
    decreases fuel, elements,
{
    if elements.len() == 0 {
        Some(0nat)
    } else {
        checked_sum(
            sum_within(table, elements.drop_last(), fuel),
            size_within(table, elements[elements.len() - 1], fuel),
        )
    }
}

/// The number of bytes that an access to a value of type `ty` is known to touch:
/// its size without padding. There is none for a type that accesses are not
/// followed for, for a structure that contains itself, and where it does not fit
/// in 64 bits.
pub open spec fn size_of_type(table: Map<Seq<char>, Type>, ty: Type) -> Option<nat> {
    size_within(table, ty, table.len())
}

proof fn lemma_size_unfolded(table: Map<Seq<char>, Type>, ty: Type, fuel: nat)
    ensures
        match unfolded(table, ty, fuel) {
            Some((inner, rest)) => {
                &&& size_within(table, ty, fuel) == size_within(table, inner, rest)
                &&& rest <= fuel
                &&& ty is NamedStructType ==> rest < fuel
                &&& inner !is NamedStructType
            },
            None => size_within(table, ty, fuel) is None,
        },
    decreases fuel,
{
    if let Type::NamedStructType { name } = ty {
        if fuel > 0 && table.contains_key(name@) {
            lemma_size_unfolded(table, table[name@], (fuel - 1) as nat);
        }
    }
}

fn unfold<'a>(table: &'a TypeTable, ty: &'a Type, fuel: usize) -> (r: Option<(&'a Type, usize)>)
    ensures
        match (r, unfolded(table@, *ty, fuel as nat)) {
            (Some((t, rest)), Some((u, left))) => *t == u && rest == left,
            (None, None) => true,
            _ => false,
        },
    decreases fuel,
{
    match ty {
        Type::NamedStructType { name } => {
            if fuel == 0 {
                return None;
            }
            match table.get(name.as_str()) {
                Some(inner) => unfold(table, inner, fuel - 1),
                None => None,
            }
        },
        _ => Some((ty, fuel)),
    }
}

/// The type that `ty` stands for once names are replaced by their definitions.
pub fn resolve_named_type<'a>(ty: &'a Type, module: &'a Module) -> (r: Option<&'a Type>)
    ensures
        match (r, resolved_type(module.types@, *ty)) {
            (Some(t), Some(u)) => *t == u,
            (None, None) => true,
            _ => false,
        },
{
    match unfold(&module.types, ty, module.types.len()) {
        Some((inner, _)) => Some(inner),
        None => None,
    }
}

fn measure(table: &TypeTable, ty: &Type, fuel: usize) -> (r: Option<u64>)
    ensures
        match (r, size_within(table@, *ty, fuel as nat)) {
            (Some(n), Some(m)) => n == m,
            (None, None) => true,
            _ => false,
        },
    decreases fuel, *ty,
{
    proof {
        lemma_size_unfolded(table@, *ty, fuel as nat);
    }
    match ty {
        Type::IntegerType { bits } => Some((*bits as u64 + 7) / 8),
        Type::PointerType => Some(8),
        Type::ArrayType { element_type, num_elements } => match measure(table, element_type, fuel) {
            Some(size) => size.checked_mul(*num_elements as u64),
            None => None,
        },
        Type::StructType { element_types, .. } => {
            let mut sum: u64 = 0;
            let mut i: usize = 0;
            assert(element_types@.take(0) =~= Seq::empty());
            while i < element_types.len()
                invariant
                    i <= element_types.len(),
                    sum_within(table@, element_types@.take(i as int), fuel as nat) == Some(
                        sum as nat,
                    ),
                    ty is StructType,
                    ty->element_types == *element_types,
                    decreases_to!(*ty => element_types@),
                decreases element_types.len() - i,
            {
                let ghost now = element_types@.take(i + 1);
                proof {
                    assert(now.drop_last() =~= element_types@.take(i as int));
                    assert(now[now.len() - 1] == element_types@[i as int]);
                    assert(decreases_to!(element_types@ => element_types@[i as int]));
                }
                match measure(table, &element_types[i], fuel) {
                    Some(size) => match sum.checked_add(size) {
                        Some(next) => {
                            sum = next;
                        },
                        None => {
                            proof {
                                lemma_sum_prefix(table@, element_types@, i + 1, fuel as nat);
                            }
                            return None;
                        },
                    },
                    None => {
                        proof {
                            lemma_sum_prefix(table@, element_types@, i + 1, fuel as nat);
                        }
                        return None;
                    },
                }
                i = i + 1;
            }
            assert(element_types@.take(i as int) =~= element_types@);
            Some(sum)
        },
        Type::NamedStructType { .. } => match unfold(table, ty, fuel) {
            Some((inner, rest)) => measure(table, inner, rest),
            None => None,
        },
        _ => None,
    }
}

proof fn lemma_sum_prefix(table: Map<Seq<char>, Type>, elements: Seq<Type>, n: int, fuel: nat)
    requires
        0 <= n <= elements.len(),
        sum_within(table, elements.take(n), fuel) is None,
    ensures
        sum_within(table, elements, fuel) is None,
    decreases elements.len() - n,
{
    if n == elements.len() {
        assert(elements.take(n) =~= elements);
    } else {
        assert(elements.take(n + 1).drop_last() =~= elements.take(n));
        lemma_sum_prefix(table, elements, n + 1, fuel);
    }
}

/// The size of `ty` in bytes, where it has one.
pub fn type_size(ty: &Type, module: &Module) -> (r: Option<u64>)
    ensures
        match (r, size_of_type(module.types@, *ty)) {
            (Some(n), Some(m)) => n == m,
            (None, None) => true,
            _ => false,
        },
{
    measure(&module.types, ty, module.types.len())
}

/// The type of an operand.
pub open spec fn operand_type(op: Operand) -> Type {
    match op {
        Operand::LocalOperand { ty, .. } => ty,
        Operand::ConstantOperand { ty, .. } => ty,
        Operand::MetadataOperand => Type::Other,
    }
}

/// The size of the type of an operand.
pub open spec fn operand_size(table: Map<Seq<char>, Type>, op: Operand) -> Option<nat> {
    size_of_type(table, operand_type(op))
}

/// The size of the type of an operand, where it has one.
pub fn size_of_operand(op: &Operand, module: &Module) -> (r: Option<u64>)
    ensures
        match (r, operand_size(module.types@, *op)) {
            (Some(n), Some(m)) => n == m,
            (None, None) => true,
            _ => false,
        },
{
    match op {
        Operand::LocalOperand { ty, .. } => type_size(ty, module),
        Operand::ConstantOperand { ty, .. } => type_size(ty, module),
        Operand::MetadataOperand => None,
    }
}

// ---- operands ----

/// The name of the function that a call names.
pub open spec fn called_name(call: Call) -> Option<Seq<char>> {
    match call.function {
        Callee::Operand(
            Operand::ConstantOperand {
                constant: Constant::GlobalReference { name: Name::Name(text) },
                ..
            },
        ) => Some(text@),
        _ => None,
    }
}

/// The name of the function that a call names; inline assembly, indirect calls
/// and numbered globals have none.
pub fn function_name_of_call(call: &Call) -> (r: Option<&str>)
    ensures
        match (r, called_name(*call)) {
            (Some(text), Some(name)) => text@ == name,
            (None, None) => true,
            _ => false,
        },
{
    match &call.function {
        Callee::Operand(Operand::ConstantOperand { constant, .. }) => match constant {
            Constant::GlobalReference { name } => match name {
                Name::Name(text) => Some(text.as_str()),
                Name::Number(_) => None,
            },
            _ => None,
        },
        _ => None,
    }
}

/// The value of a constant integer operand.
pub open spec fn const_value(op: Operand) -> Option<u64> {
    match op {
        Operand::ConstantOperand { constant: Constant::Int { value }, .. } => Some(value),
        _ => None,
    }
}

/// The value of a constant integer operand.
pub fn operand_const_u64(op: &Operand) -> (r: Option<u64>)
    ensures
        r == const_value(*op),
{
    match op {
        Operand::ConstantOperand { constant, .. } => match constant {
            Constant::Int { value } => Some(*value),
            _ => None,
        },
        _ => None,
    }
}

/// The name of a local operand.
pub open spec fn local_name(op: Operand) -> Option<NameId> {
    match op {
        Operand::LocalOperand { name, .. } => Some(name@),
        _ => None,
    }
}

/// The name of a local operand.
pub fn operand_local_name(op: &Operand) -> (r: Option<&Name>)
    ensures
        match (r, local_name(*op)) {
            (Some(name), Some(id)) => name@ == id,
            (None, None) => true,
            _ => false,
        },
{
    match op {
        Operand::LocalOperand { name, .. } => Some(name),
        _ => None,
    }
}

/// The solver term of a constant integer operand.
pub fn int_const_ast(op: &Operand) -> (r: Option<Term>)
    ensures
        match (r, const_value(*op)) {
            (Some(term), Some(value)) => term@ == value,
            (None, None) => true,
            _ => false,
        },
{
    match operand_const_u64(op) {
        Some(value) => Some(Term::from_u64(value)),
        None => None,
    }
}

// ---- pointer computations ----

/// `a * b`, or the largest 64-bit number where that is less.
pub open spec fn saturating_product(a: nat, b: nat) -> nat {
    if a * b <= u64::MAX {
        a * b
    } else {
        u64::MAX as nat
    }
}

fn saturating_mul(a: u64, b: u64) -> (r: u64)
    ensures
        r == saturating_product(a as nat, b as nat),
{
    match a.checked_mul(b) {
        Some(product) => product,
        None => u64::MAX,
    }
}

/// The distance of `index` parts. No part is none, whatever its layout.
pub open spec fn scaled(index: u64, part: Option<Layout>) -> Option<nat> {
    if index == 0 {
        Some(0nat)
    } else {
        match part {
            Some(layout) => Some(saturating_product(index as nat, layout.size as nat)),
            None => None,
        }
    }
}

/// One index into a value of type `ty`: the distance to the part that it selects
/// and the type of that part. Where there is no such part, the index counts in
/// whole values of the type.
pub open spec fn selected(
    table: Map<Seq<char>, Type>,
    ty: Type,
    index: u64,
) -> Option<(nat, Type)> {
    match resolved_type(table, ty) {
        Some(Type::ArrayType { element_type, .. }) => match scaled(
            index,
            layout_of(table, *element_type),
        ) {
            Some(distance) => Some((distance, *element_type)),
            None => None,
        },
        Some(Type::VectorType { element_type, .. }) => match scaled(
            index,
            layout_of(table, *element_type),
        ) {
            Some(distance) => Some((distance, *element_type)),
            None => None,
        },
        Some(Type::StructType { element_types, packed }) if index < element_types@.len() => {
            match element_offset(table, element_types@, packed, index as int) {
                Some(distance) => Some((distance, element_types@[index as int])),
                None => None,
            }
        },
        _ => match scaled(index, layout_of(table, ty)) {
            Some(distance) => Some((distance, ty)),
            None => None,
        },
    }
}

/// Where constant indices lead from a pointer to `source`: the first counts in
/// whole values of that type, each other selects a part of what is reached.
pub open spec fn walked(
    table: Map<Seq<char>, Type>,
    source: Type,
    indices: Seq<Operand>,
) -> Option<(nat, Type)>
    decreases indices.len(),
{
    if indices.len() == 0 {
        Some((0nat, source))
    } else {
        match (walked(table, source, indices.drop_last()), const_value(indices.last())) {
            (Some((distance, ty)), Some(index)) => if indices.len() == 1 {
                match scaled(index, layout_of(table, source)) {
                    Some(step) => Some((distance + step, source)),
                    None => None,
                }
            } else {
                match selected(table, ty, index) {
                    Some((step, part)) => Some((distance + step, part)),
                    None => None,
                }
            },
            _ => None,
        }
    }
}

/// The distance in bytes that constant indices lead from a pointer to `source`.
pub open spec fn gep_distance(
    table: Map<Seq<char>, Type>,
    source: Type,
    indices: Seq<Operand>,
) -> Option<nat> {
    match walked(table, source, indices) {
        Some((distance, _)) => Some(distance),
        None => None,
    }
}

proof fn lemma_walked_prefix(
    table: Map<Seq<char>, Type>,
    source: Type,
    indices: Seq<Operand>,
    n: int,
)
    requires
        0 <= n <= indices.len(),
        walked(table, source, indices.take(n)) is None,
    ensures
        walked(table, source, indices) is None,
    decreases indices.len() - n,
{
    if n == indices.len() {
        assert(indices.take(n) =~= indices);
    } else {
        assert(indices.take(n + 1).drop_last() =~= indices.take(n));
        lemma_walked_prefix(table, source, indices, n + 1);
    }
}

fn scale(index: u64, part: Option<Layout>) -> (r: Option<u64>)
    ensures
        match (r, scaled(index, part)) {
            (Some(n), Some(m)) => n == m,
            (None, None) => true,
            _ => false,
        },
{
    if index == 0 {
        Some(0)
    } else {
        match part {
            Some(layout) => Some(saturating_mul(index, layout.size)),
            None => None,
        }
    }
}

fn select<'a>(ty: &'a Type, index: u64, module: &'a Module) -> (r: Option<(u64, &'a Type)>)
    ensures
        match (r, selected(module.types@, *ty, index)) {
            (Some((n, t)), Some((m, u))) => n == m && *t == u,
            (None, None) => true,
            _ => false,
        },
{
    match resolve_named_type(ty, module) {
        Some(Type::ArrayType { element_type, .. }) => match scale(
            index,
            type_layout(element_type, module),
        ) {
            Some(distance) => Some((distance, element_type)),
            None => None,
        },
        Some(Type::VectorType { element_type, .. }) => match scale(
            index,
            type_layout(element_type, module),
        ) {
            Some(distance) => Some((distance, element_type)),
            None => None,
        },
        Some(Type::StructType { element_types, packed }) if index < element_types.len() as u64 => {
            match offset_of(element_types, *packed, index as usize, module) {
                Some(distance) => Some((distance, &element_types[index as usize])),
                None => None,
            }
        },
        _ => match scale(index, type_layout(ty, module)) {
            Some(distance) => Some((distance, ty)),
            None => None,
        },
    }
}

/// The offset that a pointer computation yields from `base_offset`. There is none
/// where an index is not constant, or counts parts of a type that is not known.
pub fn infer_gep_offset(gep: &GetElementPtr, base_offset: &Term, module: &Module) -> (r: Option<
    Term,
>)
    ensures
        match (r, gep_distance(module.types@, gep.source_element_type, gep.indices@)) {
            (Some(term), Some(distance)) => term@ == base_offset@ + distance,
            (None, None) => true,
            _ => false,
        },
{
    let ghost table = module.types@;
    let ghost source = gep.source_element_type;
    let mut computed: Term = base_offset.clone();
    let mut ty: &Type = &gep.source_element_type;
    let mut i: usize = 0;
    assert(gep.indices@.take(0) =~= Seq::empty());
    while i < gep.indices.len()
        invariant
            i <= gep.indices.len(),
            table == module.types@,
            source == gep.source_element_type,
            walked(table, source, gep.indices@.take(i as int)) is Some,
            (walked(table, source, gep.indices@.take(i as int))->0).1 == *ty,
            computed@ == base_offset@ + (walked(
                table,
                source,
                gep.indices@.take(i as int),
            )->0).0,
        decreases gep.indices.len() - i,
    {
        let ghost now = gep.indices@.take(i + 1);
        proof {
            assert(now.drop_last() =~= gep.indices@.take(i as int));
            assert(now.last() == gep.indices@[i as int]);
            if walked(table, source, now) is None {
                lemma_walked_prefix(table, source, gep.indices@, i + 1);
            }
        }
        let index: u64 = match operand_const_u64(&gep.indices[i]) {
            Some(value) => value,
            None => return None,
        };
        if i == 0 {
            match scale(index, type_layout(ty, module)) {
                Some(step) => {
                    computed = computed.plus(&Term::from_u64(step));
                },
                None => return None,
            }
        } else {
            match select(ty, index, module) {
                Some((step, part)) => {
                    computed = computed.plus(&Term::from_u64(step));
                    ty = part;
                },
                None => return None,
            }
        }
        i = i + 1;
    }
    assert(gep.indices@.take(i as int) =~= gep.indices@);
    Some(computed)
}

// ---- interrupt handlers ----

/// The instruction is a call of the named function.
pub open spec fn calls(instr: Instruction, name: Seq<char>) -> bool {
    instr is Call && called_name(instr->Call_0) == Some(name)
}

/// The instruction registers `handler` with `request_irq`, whose second
/// argument is the handler.
pub open spec fn registers(instr: Instruction, handler: Seq<char>) -> bool {
    &&& calls(instr, "request_irq"@)
    &&& instr->Call_0.arguments@.len() > 1
    &&& match instr->Call_0.arguments@[1] {
        Operand::ConstantOperand {
            constant: Constant::GlobalReference { name: Name::Name(text) },
            ..
        } => text@ == handler,
        _ => false,
    }
}

pub open spec fn block_registers(block: BasicBlock, handler: Seq<char>) -> bool {
    exists|i: int| 0 <= i < block.instrs@.len() && registers(#[trigger] block.instrs@[i], handler)
}

pub open spec fn function_registers(function: Function, handler: Seq<char>) -> bool {
    exists|b: int|
        0 <= b < function.basic_blocks@.len() && block_registers(
            #[trigger] function.basic_blocks@[b],
            handler,
        )
}

pub open spec fn module_registers(functions: Seq<Function>, handler: Seq<char>) -> bool {
    exists|f: int| 0 <= f < functions.len() && function_registers(#[trigger] functions[f], handler)
}

pub open spec fn block_calls(block: BasicBlock, name: Seq<char>) -> bool {
    exists|i: int| 0 <= i < block.instrs@.len() && calls(#[trigger] block.instrs@[i], name)
}

pub open spec fn function_calls(function: Function, name: Seq<char>) -> bool {
    exists|b: int|
        0 <= b < function.basic_blocks@.len() && block_calls(
            #[trigger] function.basic_blocks@[b],
            name,
        )
}

/// The module registers `handler` for an interrupt and a function of that name
/// calls `kfree`.
pub open spec fn handler_frees(functions: Seq<Function>, handler: Seq<char>) -> bool {
    &&& module_registers(functions, handler)
    &&& exists|f: int|
        0 <= f < functions.len() && (#[trigger] functions[f]).name@ == handler && function_calls(
            functions[f],
            "kfree"@,
        )
}

fn instruction_calls(instr: &Instruction, name: &str) -> (r: bool)
    ensures
        r == calls(*instr, name@),
{
    match instr {
        Instruction::Call(call) => match function_name_of_call(call) {
            Some(text) => same_text(text, name),
            None => false,
        },
        _ => false,
    }
}

fn registered_handler(instr: &Instruction) -> (r: Option<String>)
    ensures
        match r {
            Some(text) => forall|h: Seq<char>| #[trigger] registers(*instr, h) <==> h == text@,
            None => forall|h: Seq<char>| !#[trigger] registers(*instr, h),
        },
{
    if !instruction_calls(instr, "request_irq") {
        return None;
    }
    match instr {
        Instruction::Call(call) => {
            if call.arguments.len() <= 1 {
                return None;
            }
            match &call.arguments[1] {
                Operand::ConstantOperand { constant, .. } => match constant {
                    Constant::GlobalReference { name } => match name {
                        Name::Name(text) => Some(text.clone()),
                        Name::Number(_) => None,
                    },
                    _ => None,
                },
                _ => None,
            }
        },
        _ => None,
    }
}

fn collect_from_block(block: &BasicBlock, handlers: &mut StringSet)
    ensures
        forall|h: Seq<char>| #[trigger]
            final(handlers)@.contains(h) <==> old(handlers)@.contains(h) || block_registers(
                *block,
                h,
            ),
{
    let mut i: usize = 0;
    while i < block.instrs.len()
        invariant
            i <= block.instrs.len(),
            forall|h: Seq<char>| #[trigger]
                handlers@.contains(h) <==> old(handlers)@.contains(h) || exists|k: int|
                    0 <= k < i && registers(#[trigger] block.instrs@[k], h),
        decreases block.instrs.len() - i,
    {
        match registered_handler(&block.instrs[i]) {
            Some(text) => {
                assert(registers(block.instrs@[i as int], text@));
                handlers.insert(text);
            },
            None => {},
        }
        i = i + 1;
    }
}

fn collect_from_function(function: &Function, handlers: &mut StringSet)
    ensures
        forall|h: Seq<char>| #[trigger]
            final(handlers)@.contains(h) <==> old(handlers)@.contains(h) || function_registers(
                *function,
                h,
            ),
{
    let mut b: usize = 0;
    while b < function.basic_blocks.len()
        invariant
            b <= function.basic_blocks.len(),
            forall|h: Seq<char>| #[trigger]
                handlers@.contains(h) <==> old(handlers)@.contains(h) || exists|k: int|
                    0 <= k < b && block_registers(#[trigger] function.basic_blocks@[k], h),
        decreases function.basic_blocks.len() - b,
    {
        collect_from_block(&function.basic_blocks[b], handlers);
        b = b + 1;
    }
}

fn function_calls_named(function: &Function, name: &str) -> (r: bool)
    ensures
        r == function_calls(*function, name@),
{
    let mut b: usize = 0;
    while b < function.basic_blocks.len()
        invariant
            b <= function.basic_blocks.len(),
            forall|k: int| 0 <= k < b ==> !block_calls(#[trigger] function.basic_blocks@[k], name@),
        decreases function.basic_blocks.len() - b,
    {
        let block: &BasicBlock = &function.basic_blocks[b];
        let mut i: usize = 0;
        while i < block.instrs.len()
            invariant
                b < function.basic_blocks.len(),
                *block == function.basic_blocks@[b as int],
                i <= block.instrs.len(),
                forall|k: int| 0 <= k < i ==> !calls(#[trigger] block.instrs@[k], name@),
            decreases block.instrs.len() - i,
        {
            if instruction_calls(&block.instrs[i], name) {
                assert(calls(block.instrs@[i as int], name@));
                assert(block_calls(function.basic_blocks@[b as int], name@));
                return true;
            }
            i = i + 1;
        }
        b = b + 1;
    }
    false
}

/// The functions that the module registers as interrupt handlers with
/// `request_irq` and that call `kfree`.
pub fn scan_irq_handlers(module: &Module) -> (r: StringSet)
    ensures
        forall|h: Seq<char>| #[trigger] r@.contains(h) <==> handler_frees(module.functions@, h),
{
    let functions: &Vec<Function> = &module.functions;
    let mut handlers: StringSet = StringSet::new();
    let mut f: usize = 0;
    while f < functions.len()
        invariant
            f <= functions.len(),
            forall|h: Seq<char>| #[trigger]
                handlers@.contains(h) <==> exists|k: int|
                    0 <= k < f && function_registers(#[trigger] functions@[k], h),
        decreases functions.len() - f,
    {
        collect_from_function(&functions[f], &mut handlers);
        f = f + 1;
    }
    let mut freeing: StringSet = StringSet::new();
    let mut g: usize = 0;
    while g < functions.len()
        invariant
            g <= functions.len(),
            forall|h: Seq<char>| #[trigger]
                handlers@.contains(h) <==> module_registers(functions@, h),
            forall|h: Seq<char>| #[trigger]
                freeing@.contains(h) <==> module_registers(functions@, h) && exists|k: int|
                    0 <= k < g && (#[trigger] functions@[k]).name@ == h && function_calls(
                        functions@[k],
                        "kfree"@,
                    ),
        decreases functions.len() - g,
    {
        let function: &Function = &functions[g];
        if handlers.contains(function.name.as_str()) && function_calls_named(function, "kfree") {
            assert(functions@[g as int].name@ == function.name@);
            freeing.insert(function.name.clone());
        }
        g = g + 1;
    }
    freeing
}

} // verus!
