//! Identifiers of verification conditions tell them apart.
use crate::hitl::{vc_class_text, vc_text};
use crate::text::{decimal, digit, signed_decimal};
use vstd::prelude::*;

verus! {

/// The number that the digits `s` stand for.
pub open spec fn number(s: Seq<char>) -> int
    decreases s.len(),
{
    if s.len() == 0 {
        0
    } else {
        number(s.drop_last()) * 10 + (s.last() as int - 48)
    }
}

/// A decimal digit.
pub open spec fn is_digit(c: char) -> bool {
    48 <= c as int <= 57
}

/// A number is written with digits that stand for it, without leading zeros.
pub proof fn lemma_decimal(n: nat)
    ensures
        number(decimal(n)) == n,
        decimal(n).len() > 0,
        decimal(n)[0] == '0' ==> n == 0,
        forall|k: int| 0 <= k < decimal(n).len() ==> is_digit(#[trigger] decimal(n)[k]),
    decreases n,
{
    let s = decimal(n);
    if n < 10 {
        assert(s.drop_last() =~= Seq::empty());
        assert(number(s.drop_last()) == 0);
        assert(s.last() == digit(n));
    } else {
        lemma_decimal(n / 10);
        assert(s.drop_last() =~= decimal(n / 10));
        assert(s.last() == digit(n % 10));
        assert forall|k: int| 0 <= k < s.len() implies is_digit(#[trigger] s[k]) by {
            if k < s.len() - 1 {
                assert(s[k] == decimal(n / 10)[k]);
            }
        }
    }
}

/// Different numbers are written differently.
pub proof fn law_decimal_is_injective(a: nat, b: nat)
    requires
        decimal(a) == decimal(b),
    ensures
        a == b,
{
    lemma_decimal(a);
    lemma_decimal(b);
}

/// A number at the end, behind something that is no digit, is read in one way
/// only.
proof fn lemma_read_last(x: Seq<char>, a: nat, y: Seq<char>, b: nat)
    requires
        x + decimal(a) == y + decimal(b),
        x.len() > 0,
        y.len() > 0,
        !is_digit(x.last()),
        !is_digit(y.last()),
    ensures
        a == b,
        x == y,
{
    let p = decimal(a);
    let q = decimal(b);
    let all = x + p;
    assert(all.len() == x.len() + p.len() && all.len() == y.len() + q.len());
    lemma_decimal(a);
    lemma_decimal(b);
    if x.len() < y.len() {
        assert(all[y.len() - 1] == p[y.len() - 1 - x.len()]);
        assert((y + q)[y.len() - 1] == y.last());
    }
    if y.len() < x.len() {
        assert((y + q)[x.len() - 1] == q[x.len() - 1 - y.len()]);
        assert(all[x.len() - 1] == x.last());
    }
    assert(all.take(x.len() as int) =~= x);
    assert((y + q).take(y.len() as int) =~= y);
    assert(all.skip(x.len() as int) =~= p);
    assert((y + q).skip(y.len() as int) =~= q);
}

/// What stands behind the last colon is read in one way only.
proof fn lemma_read_kind(x: Seq<char>, kind: Seq<char>, y: Seq<char>, other_kind: Seq<char>)
    requires
        x + "::"@ + kind == y + "::"@ + other_kind,
        !kind.contains(':'),
        !other_kind.contains(':'),
    ensures
        x == y,
        kind == other_kind,
{
    reveal_strlit("::");
    let p = x + "::"@;
    let q = y + "::"@;
    let all = p + kind;
    assert(all == q + other_kind);
    assert(all.len() == p.len() + kind.len() && all.len() == q.len() + other_kind.len());
    if p.len() < q.len() {
        assert(all[q.len() - 1] == kind[q.len() - 1 - p.len()]);
        assert((q + other_kind)[q.len() - 1] == ':');
        assert(kind.contains(':'));
    }
    if q.len() < p.len() {
        assert((q + other_kind)[p.len() - 1] == other_kind[p.len() - 1 - q.len()]);
        assert(all[p.len() - 1] == ':');
        assert(other_kind.contains(':'));
    }
    assert(all.take(p.len() as int) =~= p);
    assert((q + other_kind).take(q.len() as int) =~= q);
    assert(all.skip(p.len() as int) =~= kind);
    assert((q + other_kind).skip(q.len() as int) =~= other_kind);
    assert(p.take(x.len() as int) =~= x);
    assert(q.take(y.len() as int) =~= y);
}

/// An identifier belongs to one place in one function and to one kind of check.
/// Kinds hold no colon; function names may.
pub proof fn law_vc_is_unique(
    function: Seq<char>,
    bb: nat,
    instr: nat,
    kind: Seq<char>,
    other_function: Seq<char>,
    other_bb: nat,
    other_instr: nat,
    other_kind: Seq<char>,
)
    requires
        vc_text(function, bb, instr, kind) == vc_text(
            other_function,
            other_bb,
            other_instr,
            other_kind,
        ),
        !kind.contains(':'),
        !other_kind.contains(':'),
    ensures
        function == other_function,
        bb == other_bb,
        instr == other_instr,
        kind == other_kind,
{
    reveal_strlit("::bb");
    reveal_strlit("::i");
    let name = function + "::bb"@;
    let other_name = other_function + "::bb"@;
    let block = name + decimal(bb) + "::i"@;
    let other_block = other_name + decimal(other_bb) + "::i"@;
    lemma_read_kind(block + decimal(instr), kind, other_block + decimal(other_instr), other_kind);
    lemma_read_last(block, instr, other_block, other_instr);
    let place = name + decimal(bb);
    let other_place = other_name + decimal(other_bb);
    assert(block.take(block.len() - 3) =~= place);
    assert(other_block.take(other_block.len() - 3) =~= other_place);
    lemma_read_last(name, bb, other_name, other_bb);
    assert(name.take(name.len() - 4) =~= function);
    assert(other_name.take(other_name.len() - 4) =~= other_function);
}

/// A class of one kind of check holds accesses of one size only.
pub proof fn law_class_has_one_size(kind: Seq<char>, size: nat, other_size: nat)
    requires
        vc_class_text(kind, size) == vc_class_text(kind, other_size),
    ensures
        size == other_size,
{
    let head = "class::"@ + kind + "::size"@;
    assert(vc_class_text(kind, size) =~= head + decimal(size));
    assert(vc_class_text(kind, other_size) =~= head + decimal(other_size));
    assert((head + decimal(size)).skip(head.len() as int) =~= decimal(size));
    assert((head + decimal(other_size)).skip(head.len() as int) =~= decimal(other_size));
    law_decimal_is_injective(size, other_size);
}

/// An identifier begins with the function, ends with the kind, and gives block and
/// instruction by number in between.
pub proof fn law_vc_names_its_place(function: Seq<char>, bb: nat, instr: nat, kind: Seq<char>)
    ensures
        function.is_prefix_of(vc_text(function, bb, instr, kind)),
        ({
            let all = vc_text(function, bb, instr, kind);
            let middle = all.subrange(function.len() as int, all.len() - kind.len());
            &&& all.skip(all.len() - kind.len()) == kind
            &&& middle == "::bb"@ + decimal(bb) + "::i"@ + decimal(instr) + "::"@
        }),
{
    let all = vc_text(function, bb, instr, kind);
    let middle = "::bb"@ + decimal(bb) + "::i"@ + decimal(instr) + "::"@;
    assert(all =~= function + middle + kind);
    assert(all.skip((function + middle).len() as int) =~= kind);
    assert(all.subrange(function.len() as int, (function + middle).len() as int) =~= middle);
    assert(all.take(function.len() as int) =~= function);
}

/// A class names its kind and its size.
pub proof fn law_class_names_kind_and_size(kind: Seq<char>, size: nat)
    ensures
        ({
            let all = vc_class_text(kind, size);
            let n = "class::"@.len() as int;
            &&& all.take(n) == "class::"@
            &&& all.subrange(n, n + kind.len()) == kind
            &&& all.skip(n + kind.len()) == "::size"@ + decimal(size)
        }),
{
    let all = vc_class_text(kind, size);
    let n = "class::"@.len() as int;
    assert(all.take(n) =~= "class::"@);
    assert(all.subrange(n, n + kind.len()) =~= kind);
    assert(all.skip(n + kind.len()) =~= "::size"@ + decimal(size));
}

/// A number that is not negative is written by its digits; a negative one has a minus
/// sign before the digits of its amount.
pub proof fn law_signed_decimal(n: int)
    ensures
        0 <= n ==> signed_decimal(n) == decimal(n as nat),
        n < 0 ==> signed_decimal(n).len() > 1 && signed_decimal(n)[0] == '-' && number(
            signed_decimal(n).skip(1),
        ) == -n,
{
    if n < 0 {
        lemma_decimal((-n) as nat);
        assert(signed_decimal(n).skip(1) =~= decimal((-n) as nat));
    }
}

} // verus!
