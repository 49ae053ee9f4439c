//! Where the parts of a type lie in memory.
//!
//! Every part lies on a multiple of its natural alignment, as on 64-bit targets:
//! padding fills the space between parts, and behind the last one up to the
//! alignment of the whole. A size that does not fit in 64 bits counts as the
//! largest one that does.
use crate::ir::{size_within, sum_within, Module, Type, TypeTable};
use vstd::arithmetic::div_mod::{lemma_fundamental_div_mod, lemma_mod_multiples_basic};
use vstd::prelude::*;

verus! {

/// Size and alignment of a type in bytes. The size includes padding.
#[derive(Copy, Clone, Debug)]
pub struct Layout {
    pub size: u64,
    pub align: u64,
}

/// No alignment is greater.
pub const MAX_ALIGN: u64 = 0x1_0000_0000;

/// `n`, or the largest 64-bit number where that is less.
pub open spec fn capped(n: int) -> u64 {
    if n <= u64::MAX {
        n as u64
    } else {
        u64::MAX
    }
}

/// The first multiple of `align` that is no less than `size`.
pub open spec fn rounded(size: int, align: int) -> int {
    if size % align == 0 {
        size
    } else {
        size + align - size % align
    }
}

/// The greater of two numbers.
pub open spec fn greater(a: u64, b: u64) -> u64 {
    if a < b {
        b
    } else {
        a
    }
}

/// The natural alignment of a number of `bytes` bytes.
pub open spec fn scalar_align(bytes: int) -> u64 {
    if bytes <= 1 {
        1
    } else if bytes <= 2 {
        2
    } else if bytes <= 4 {
        4
    } else if bytes <= 8 {
        8
    } else {
        16
    }
}

/// `bytes` bytes on a multiple of `align`.
pub open spec fn aligned(bytes: int, align: u64) -> Layout {
    Layout { size: capped(rounded(bytes, align as int)), align }
}

/// The layout of a number of `bits` bits.
pub open spec fn scalar(bits: int) -> Layout {
    aligned((bits + 7) / 8, scalar_align((bits + 7) / 8))
}

/// The bits of a value that can stand in a vector.
pub open spec fn element_bits(ty: Type) -> Option<nat> {
    match ty {
        Type::IntegerType { bits } => Some(bits as nat),
        Type::FloatType { bits } => Some(bits as nat),
        Type::PointerType => Some(64nat),
        _ => None,
    }
}

/// The first of `p`, `2 * p`, `4 * p` and so on that is no less than `n`, and at
/// most the greatest alignment.
pub open spec fn doubled(p: nat, n: nat) -> nat
    decreases 2 * MAX_ALIGN - p,
{
    if n <= p || MAX_ALIGN <= p || p == 0 {
        p
    } else {
        doubled(2 * p, n)
    }
}

/// The bytes of `n` elements of `bits` bits each, bit by bit behind each other.
pub open spec fn vector_bytes(bits: nat, n: nat) -> u64 {
    capped((bits * n + 7) as int / 8)
}

/// The layout of a vector, whose alignment is the power of two that covers it.
pub open spec fn vector(element: Type, n: nat) -> Option<Layout> {
    match element_bits(element) {
        Some(bits) => {
            let bytes = vector_bytes(bits, n);
            Some(aligned(bytes as int, doubled(1, bytes as nat) as u64))
        },
        None => None,
    }
}

/// Where a part lies behind others.
pub open spec fn part_offset(before: Layout, part: Layout, packed: bool) -> u64 {
    if packed {
        before.size
    } else {
        capped(rounded(before.size as int, part.align as int))
    }
}

/// Parts with one more behind them.
pub open spec fn placed(before: Option<Layout>, part: Option<Layout>, packed: bool) -> Option<
    Layout,
> {
    match (before, part) {
        (Some(b), Some(p)) => Some(
            Layout {
                size: capped(part_offset(b, p, packed) + p.size),
                align: if packed {
                    1
                } else {
                    greater(b.align, p.align)
                },
            },
        ),
        _ => None,
    }
}

/// `n` parts of one kind in a row.
pub open spec fn repeated(part: Option<Layout>, n: nat) -> Option<Layout> {
    match part {
        Some(p) => Some(Layout { size: capped(p.size * n), align: p.align }),
        None => None,
    }
}

/// Parts with padding behind the last one.
pub open spec fn complete(parts: Option<Layout>) -> Option<Layout> {
    match parts {
        Some(p) => Some(aligned(p.size as int, p.align)),
        None => None,
    }
}

/// The layout of `ty` with definitions unfolded at most `fuel` deep.
pub open spec fn layout_within(table: Map<Seq<char>, Type>, ty: Type, fuel: nat) -> Option<Layout>
    decreases fuel, ty,
{
    match ty {
        Type::IntegerType { bits } => Some(scalar(bits as int)),
        Type::FloatType { bits } => Some(scalar(bits as int)),
        Type::PointerType => Some(scalar(64)),
        Type::VectorType { element_type, num_elements } => vector(
            *element_type,
            num_elements as nat,
        ),
        Type::ArrayType { element_type, num_elements } => repeated(
            layout_within(table, *element_type, fuel),
            num_elements as nat,
        ),
        Type::StructType { element_types, packed } => complete(
            parts_within(table, element_types@, packed, fuel),
        ),
        Type::NamedStructType { name } => if fuel > 0 && table.contains_key(name@) {
            layout_within(table, table[name@], (fuel - 1) as nat)
        } else {
            None
        },
        Type::Other => None,
    }
}

/// The layout of parts one behind the other.
pub open spec fn parts_within(
    table: Map<Seq<char>, Type>,
    elements: Seq<Type>,
    packed: bool,
    fuel: nat,
) -> Option<Layout>
    decreases fuel, elements,
{
    if elements.len() == 0 {
        Some(Layout { size: 0, align: 1 })
    } else {
        placed(
            parts_within(table, elements.drop_last(), packed, fuel),
            layout_within(table, elements[elements.len() - 1], fuel),
            packed,
        )
    }
}

/// The layout of `ty`. There is none for a type that is not known or not defined,
/// and for a structure that contains itself.
pub open spec fn layout_of(table: Map<Seq<char>, Type>, ty: Type) -> Option<Layout> {
    layout_within(table, ty, table.len())
}

/// The offset of the element `index` of a structure. The first lies at its start,
/// whatever its layout.
pub open spec fn element_offset(
    table: Map<Seq<char>, Type>,
    elements: Seq<Type>,
    packed: bool,
    index: int,
) -> Option<nat> {
    if index == 0 {
        Some(0nat)
    } else {
        match (
            parts_within(table, elements.take(index), packed, table.len()),
            layout_of(table, elements[index]),
        ) {
            (Some(before), Some(part)) => Some(part_offset(before, part, packed) as nat),
            _ => None,
        }
    }
}

// ---- executable ----

fn round_up(size: u64, align: u64) -> (r: u64)
    requires
        align > 0,
    ensures
        r == capped(rounded(size as int, align as int)),
{
    let rest: u64 = size % align;
    if rest == 0 {
        return size;
    }
    match size.checked_add(align - rest) {
        Some(sum) => sum,
        None => u64::MAX,
    }
}

fn scalar_layout(bits: u32) -> (r: Layout)
    ensures
        r == scalar(bits as int),
{
    let bytes: u64 = (bits as u64 + 7) / 8;
    let align: u64 = if bytes <= 1 {
        1
    } else if bytes <= 2 {
        2
    } else if bytes <= 4 {
        4
    } else if bytes <= 8 {
        8
    } else {
        16
    };
    Layout { size: round_up(bytes, align), align }
}

proof fn lemma_doubled(p: nat, n: nat)
    requires
        0 < p <= MAX_ALIGN,
    ensures
        p <= doubled(p, n) < 2 * MAX_ALIGN,
    decreases MAX_ALIGN - p,
{
    if !(n <= p || MAX_ALIGN <= p) {
        if 2 * p <= MAX_ALIGN {
            lemma_doubled(2 * p, n);
        }
    }
}

fn vector_align(bytes: u64) -> (r: u64)
    ensures
        r == doubled(1, bytes as nat),
        r > 0,
{
    let mut p: u64 = 1;
    while p < bytes && p < MAX_ALIGN
        invariant
            0 < p < 2 * MAX_ALIGN,
            doubled(1, bytes as nat) == doubled(p as nat, bytes as nat),
        decreases 2 * MAX_ALIGN - p,
    {
        p = 2 * p;
    }
    p
}

fn bits_of_element(ty: &Type) -> (r: Option<u32>)
    ensures
        match (r, element_bits(*ty)) {
            (Some(n), Some(m)) => n == m,
            (None, None) => true,
            _ => false,
        },
{
    match ty {
        Type::IntegerType { bits } => Some(*bits),
        Type::FloatType { bits } => Some(*bits),
        Type::PointerType => Some(64),
        _ => None,
    }
}

fn vector_layout(element: &Type, n: usize) -> (r: Option<Layout>)
    ensures
        r == vector(*element, n as nat),
{
    match bits_of_element(element) {
        Some(bits) => {
            let a: u128 = bits as u128;
            let b: u128 = n as u128;
            assert(a * b <= 0xffff_ffff * 0xffff_ffff_ffff_ffff) by (nonlinear_arith)
                requires
                    a <= 0xffff_ffff,
                    b <= 0xffff_ffff_ffff_ffff,
            ;
            let whole: u128 = (a * b + 7) / 8;
            let bytes: u64 = if whole <= u64::MAX as u128 {
                whole as u64
            } else {
                u64::MAX
            };
            let align: u64 = vector_align(bytes);
            Some(Layout { size: round_up(bytes, align), align })
        },
        None => None,
    }
}

fn offset_behind(before: Layout, part: Layout, packed: bool) -> (r: u64)
    requires
        part.align > 0,
    ensures
        r == part_offset(before, part, packed),
{
    if packed {
        before.size
    } else {
        round_up(before.size, part.align)
    }
}

fn place(before: Layout, part: Layout, packed: bool) -> (r: Layout)
    requires
        part.align > 0,
    ensures
        Some(r) == placed(Some(before), Some(part), packed),
{
    let offset: u64 = offset_behind(before, part, packed);
    let size: u64 = match offset.checked_add(part.size) {
        Some(sum) => sum,
        None => u64::MAX,
    };
    let align: u64 = if packed {
        1
    } else if before.align < part.align {
        part.align
    } else {
        before.align
    };
    Layout { size, align }
}

/// Every alignment is at least one byte.
pub proof fn law_layout_is_aligned(table: Map<Seq<char>, Type>, ty: Type, fuel: nat)
    requires
        layout_within(table, ty, fuel) is Some,
    ensures
        layout_within(table, ty, fuel)->0.align > 0,
    decreases fuel, ty,
{
    match ty {
        Type::VectorType { element_type, num_elements } => {
            let bits = element_bits(*element_type)->0;
            lemma_doubled(1, vector_bytes(bits, num_elements as nat) as nat);
        },
        Type::ArrayType { element_type, .. } => law_layout_is_aligned(table, *element_type, fuel),
        Type::StructType { element_types, packed } => lemma_parts_aligned(
            table,
            element_types@,
            packed,
            fuel,
        ),
        Type::NamedStructType { name } => law_layout_is_aligned(
            table,
            table[name@],
            (fuel - 1) as nat,
        ),
        _ => {},
    }
}

proof fn lemma_parts_aligned(
    table: Map<Seq<char>, Type>,
    elements: Seq<Type>,
    packed: bool,
    fuel: nat,
)
    requires
        parts_within(table, elements, packed, fuel) is Some,
    ensures
        parts_within(table, elements, packed, fuel)->0.align > 0,
    decreases fuel, elements,
{
    if elements.len() > 0 {
        lemma_parts_aligned(table, elements.drop_last(), packed, fuel);
        law_layout_is_aligned(table, elements[elements.len() - 1], fuel);
    }
}

proof fn lemma_parts_prefix(
    table: Map<Seq<char>, Type>,
    elements: Seq<Type>,
    packed: bool,
    n: int,
    m: int,
    fuel: nat,
)
    requires
        0 <= n <= m <= elements.len(),
        parts_within(table, elements.take(n), packed, fuel) is None,
    ensures
        parts_within(table, elements.take(m), packed, fuel) is None,
    decreases m - n,
{
    if n < m {
        assert(elements.take(n + 1).drop_last() =~= elements.take(n));
        lemma_parts_prefix(table, elements, packed, n + 1, m, fuel);
    }
}

fn measure(table: &TypeTable, ty: &Type, fuel: usize) -> (r: Option<Layout>)
    ensures
        r == layout_within(table@, *ty, fuel as nat),
    decreases fuel, *ty,
{
    match ty {
        Type::IntegerType { bits } => Some(scalar_layout(*bits)),
        Type::FloatType { bits } => Some(scalar_layout(*bits)),
        Type::PointerType => Some(scalar_layout(64)),
        Type::VectorType { element_type, num_elements } => vector_layout(
            element_type,
            *num_elements,
        ),
        Type::ArrayType { element_type, num_elements } => match measure(table, element_type, fuel) {
            Some(part) => {
                let size: u64 = match part.size.checked_mul(*num_elements as u64) {
                    Some(product) => product,
                    None => u64::MAX,
                };
                Some(Layout { size, align: part.align })
            },
            None => None,
        },
        Type::StructType { element_types, packed } => {
            let mut parts: Layout = Layout { size: 0, align: 1 };
            let mut i: usize = 0;
            assert(element_types@.take(0) =~= Seq::empty());
            while i < element_types.len()
                invariant
                    i <= element_types.len(),
                    parts_within(table@, element_types@.take(i as int), *packed, fuel as nat)
                        == Some(parts),
                    ty is StructType,
                    ty->element_types == *element_types,
                    ty->packed == *packed,
                    decreases_to!(*ty => element_types@),
                decreases element_types.len() - i,
            {
                let ghost now = element_types@.take(i + 1);
                proof {
                    assert(now.drop_last() =~= element_types@.take(i as int));
                    assert(now[now.len() - 1] == element_types@[i as int]);
                    assert(decreases_to!(element_types@ => element_types@[i as int]));
                    if parts_within(table@, now, *packed, fuel as nat) is None {
                        lemma_parts_prefix(
                            table@,
                            element_types@,
                            *packed,
                            i + 1,
                            element_types@.len() as int,
                            fuel as nat,
                        );
                        assert(element_types@.take(element_types@.len() as int) =~= element_types@);
                    } else {
                        law_layout_is_aligned(table@, element_types@[i as int], fuel as nat);
                    }
                }
                match measure(table, &element_types[i], fuel) {
                    Some(part) => {
                        parts = place(parts, part, *packed);
                    },
                    None => return None,
                }
                i = i + 1;
            }
            proof {
                assert(element_types@.take(i as int) =~= element_types@);
                lemma_parts_aligned(table@, element_types@, *packed, fuel as nat);
            }
            Some(Layout { size: round_up(parts.size, parts.align), align: parts.align })
        },
        Type::NamedStructType { name } => {
            if fuel == 0 {
                return None;
            }
            match table.get(name.as_str()) {
                Some(inner) => measure(table, inner, fuel - 1),
                None => None,
            }
        },
        Type::Other => None,
    }
}

/// The layout of `ty`, where it has one.
pub fn type_layout(ty: &Type, module: &Module) -> (r: Option<Layout>)
    ensures
        r == layout_of(module.types@, *ty),
{
    measure(&module.types, ty, module.types.len())
}

/// The offset of the element `index` of a structure, where it has one.
pub(crate) fn offset_of(elements: &Vec<Type>, packed: bool, index: usize, module: &Module) -> (r:
    Option<u64>)
    requires
        index < elements.len(),
    ensures
        match (r, element_offset(module.types@, elements@, packed, index as int)) {
            (Some(n), Some(m)) => n == m,
            (None, None) => true,
            _ => false,
        },
{
    if index == 0 {
        return Some(0);
    }
    let ghost table = module.types@;
    let mut parts: Layout = Layout { size: 0, align: 1 };
    let mut i: usize = 0;
    assert(elements@.take(0) =~= Seq::empty());
    while i < index
        invariant
            0 < index < elements.len(),
            i <= index,
            table == module.types@,
            parts_within(table, elements@.take(i as int), packed, table.len()) == Some(parts),
        decreases index - i,
    {
        let ghost now = elements@.take(i + 1);
        proof {
            assert(now.drop_last() =~= elements@.take(i as int));
            assert(now[now.len() - 1] == elements@[i as int]);
            if parts_within(table, now, packed, table.len()) is None {
                lemma_parts_prefix(table, elements@, packed, i + 1, index as int, table.len());
            } else {
                law_layout_is_aligned(table, elements@[i as int], table.len());
            }
        }
        match type_layout(&elements[i], module) {
            Some(part) => {
                parts = place(parts, part, packed);
            },
            None => return None,
        }
        i = i + 1;
    }
    match type_layout(&elements[index], module) {
        Some(part) => {
            proof {
                law_layout_is_aligned(table, elements@[index as int], table.len());
            }
            Some(offset_behind(parts, part, packed))
        },
        None => None,
    }
}

// ---- laws ----

/// Rounding finds the first multiple.
pub proof fn law_rounded(size: int, align: int)
    requires
        0 <= size,
        0 < align,
    ensures
        rounded(size, align) % align == 0,
        size <= rounded(size, align) < size + align,
{
    lemma_fundamental_div_mod(size, align);
    let q = size / align;
    if size % align != 0 {
        assert(rounded(size, align) == align * (q + 1)) by (nonlinear_arith)
            requires
                size == align * q + size % align,
                rounded(size, align) == size + align - size % align,
        ;
        lemma_mod_multiples_basic(q + 1, align);
        assert((q + 1) * align == align * (q + 1)) by (nonlinear_arith);
    }
}

/// The elements of a structure lie one behind the other: each begins where those
/// before it end or behind that, and where padding is allowed, on a multiple of
/// its alignment.
pub proof fn law_elements_lie_in_order(
    table: Map<Seq<char>, Type>,
    elements: Seq<Type>,
    packed: bool,
    index: int,
)
    requires
        0 < index < elements.len(),
        element_offset(table, elements, packed, index) is Some,
    ensures
        ({
            let before = parts_within(table, elements.take(index), packed, table.len())->0;
            let part = layout_of(table, elements[index])->0;
            let offset = element_offset(table, elements, packed, index)->0;
            &&& before.size <= offset
            &&& packed ==> offset == before.size
            &&& !packed && offset < u64::MAX ==> offset % (part.align as nat) == 0 && offset
                < before.size + part.align
        }),
{
    let before = parts_within(table, elements.take(index), packed, table.len())->0;
    let part = layout_of(table, elements[index])->0;
    law_layout_is_aligned(table, elements[index], table.len());
    law_rounded(before.size as int, part.align as int);
}

/// A type with a size has a layout, and it leaves room for that size.
pub proof fn law_layout_covers_size(table: Map<Seq<char>, Type>, ty: Type, fuel: nat)
    requires
        size_within(table, ty, fuel) is Some,
    ensures
        layout_within(table, ty, fuel) is Some,
        size_within(table, ty, fuel)->0 <= layout_within(table, ty, fuel)->0.size,
    decreases fuel, ty,
{
    match ty {
        Type::IntegerType { bits } => {
            let bytes = (bits as int + 7) / 8;
            law_rounded(bytes, scalar_align(bytes) as int);
        },
        Type::PointerType => {
            law_rounded(8, 8);
        },
        Type::ArrayType { element_type, num_elements } => {
            law_layout_covers_size(table, *element_type, fuel);
            let size = size_within(table, *element_type, fuel)->0;
            let part = layout_within(table, *element_type, fuel)->0;
            let n = num_elements as nat;
            assert(size * n <= part.size * n) by (nonlinear_arith)
                requires
                    size <= part.size,
            ;
        },
        Type::StructType { element_types, packed } => {
            lemma_parts_cover_sum(table, element_types@, packed, fuel);
            let parts = parts_within(table, element_types@, packed, fuel)->0;
            lemma_parts_aligned(table, element_types@, packed, fuel);
            law_rounded(parts.size as int, parts.align as int);
        },
        Type::NamedStructType { name } => law_layout_covers_size(
            table,
            table[name@],
            (fuel - 1) as nat,
        ),
        _ => {},
    }
}

proof fn lemma_parts_cover_sum(
    table: Map<Seq<char>, Type>,
    elements: Seq<Type>,
    packed: bool,
    fuel: nat,
)
    requires
        sum_within(table, elements, fuel) is Some,
    ensures
        parts_within(table, elements, packed, fuel) is Some,
        sum_within(table, elements, fuel)->0 <= parts_within(table, elements, packed, fuel)->0.size,
    decreases fuel, elements,
{
    if elements.len() > 0 {
        let last = elements[elements.len() - 1];
        lemma_parts_cover_sum(table, elements.drop_last(), packed, fuel);
        law_layout_covers_size(table, last, fuel);
        law_layout_is_aligned(table, last, fuel);
        let before = parts_within(table, elements.drop_last(), packed, fuel)->0;
        law_rounded(before.size as int, layout_within(table, last, fuel)->0.align as int);
    }
}

} // verus!
