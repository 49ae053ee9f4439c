//! Laws of the text order and of sorted texts.
use crate::text::{inserted, precedes, sorted_distinct};
use vstd::prelude::*;

verus! {

/// The order is strict and total: of two texts, one comes first or they are the
/// same, and never two of these.
pub proof fn law_order_is_total(a: Seq<char>, b: Seq<char>)
    ensures
        a == b || precedes(a, b) || precedes(b, a),
        !(precedes(a, b) && precedes(b, a)),
        !precedes(a, a),
    decreases a.len(),
{
    if a.len() > 0 {
        if b.len() > 0 {
            law_order_is_total(a.drop_first(), b.drop_first());
            if a.first() == b.first() && a.drop_first() == b.drop_first() {
                assert(a =~= seq![a.first()] + a.drop_first());
                assert(b =~= seq![b.first()] + b.drop_first());
            }
        }
        law_order_is_total(a.drop_first(), a.drop_first());
    } else if b.len() == 0 {
        assert(a =~= b);
    }
}

/// The order is transitive.
pub proof fn law_order_is_transitive(a: Seq<char>, b: Seq<char>, c: Seq<char>)
    requires
        precedes(a, b),
        precedes(b, c),
    ensures
        precedes(a, c),
    decreases a.len(),
{
    if a.len() > 0 && a.first() == b.first() && b.first() == c.first() {
        law_order_is_transitive(a.drop_first(), b.drop_first(), c.drop_first());
    }
}

/// Each text comes before those behind it.
pub open spec fn increasing(s: Seq<Seq<char>>) -> bool {
    forall|i: int, j: int| 0 <= i < j < s.len() ==> #[trigger] precedes(s[i], s[j])
}

proof fn lemma_inserted(s: Seq<Seq<char>>, x: Seq<char>)
    requires
        increasing(s),
    ensures
        increasing(inserted(s, x)),
        inserted(s, x).to_set() == s.to_set().insert(x),
    decreases s.len(),
{
    let r = inserted(s, x);
    if s.len() == 0 {
        assert(r[0] == x);
        assert(r.to_set() =~= s.to_set().insert(x));
    } else if s.last() == x {
        assert(s.to_set().contains(s[s.len() - 1]));
        assert(r.to_set() =~= s.to_set().insert(x));
    } else if precedes(s.last(), x) {
        assert forall|i: int, j: int| 0 <= i < j < r.len() implies #[trigger] precedes(
            r[i],
            r[j],
        ) by {
            if j == s.len() && i < s.len() - 1 {
                assert(precedes(s[i], s[s.len() - 1]));
                law_order_is_transitive(s[i], s.last(), x);
            }
        }
        lemma_set_push(s, x);
    } else {
        let head = s.drop_last();
        let last = s.last();
        law_order_is_total(last, x);
        lemma_inserted(head, x);
        let start = inserted(head, x);
        assert forall|i: int, j: int| 0 <= i < j < r.len() implies #[trigger] precedes(
            r[i],
            r[j],
        ) by {
            if j == start.len() {
                assert(start.to_set().contains(start[i]));
                if start[i] != x {
                    assert(head.to_set().contains(start[i]));
                    let k = choose|k: int| 0 <= k < head.len() && head[k] == start[i];
                    assert(precedes(s[k], s[s.len() - 1]));
                }
            }
        }
        lemma_set_push(start, last);
        lemma_set_push(head, last);
        assert(head.push(last) =~= s);
        assert(r.to_set() =~= s.to_set().insert(x));
    }
}

proof fn lemma_set_push(s: Seq<Seq<char>>, x: Seq<char>)
    ensures
        s.push(x).to_set() == s.to_set().insert(x),
{
    let t = s.push(x);
    assert forall|y: Seq<char>| t.to_set().contains(y) == s.to_set().insert(x).contains(y) by {
        if s.contains(y) {
            let k = choose|k: int| 0 <= k < s.len() && s[k] == y;
            assert(t[k] == y);
        }
        if y == x {
            assert(t[s.len() as int] == y);
        }
        if t.contains(y) {
            let k = choose|k: int| 0 <= k < t.len() && t[k] == y;
            if k < s.len() {
                assert(s[k] == y);
            }
        }
    }
    assert(t.to_set() =~= s.to_set().insert(x));
}

/// Sorting puts texts in increasing order, keeps every text, drops repetitions
/// and adds nothing; so the number of sorted texts is the number of distinct ones.
pub proof fn law_sorted_distinct(s: Seq<Seq<char>>)
    ensures
        increasing(sorted_distinct(s)),
        sorted_distinct(s).to_set() == s.to_set(),
        sorted_distinct(s).no_duplicates(),
        sorted_distinct(s).len() == s.to_set().len(),
    decreases s.len(),
{
    let r = sorted_distinct(s);
    if s.len() == 0 {
        assert(r.to_set() =~= s.to_set());
    } else {
        law_sorted_distinct(s.drop_last());
        lemma_inserted(sorted_distinct(s.drop_last()), s.last());
        lemma_set_push(s.drop_last(), s.last());
        assert(s.drop_last().push(s.last()) =~= s);
    }
    assert forall|i: int, j: int| 0 <= i < r.len() && 0 <= j < r.len() && i != j implies r[i]
        != r[j] by {
        if i < j {
            assert(precedes(r[i], r[j]));
        } else {
            assert(precedes(r[j], r[i]));
        }
        law_order_is_total(r[i], r[i]);
    }
    r.unique_seq_to_set();
}

/// Two increasing sequences with the same members are the same.
pub proof fn law_increasing_is_unique(a: Seq<Seq<char>>, b: Seq<Seq<char>>)
    requires
        increasing(a),
        increasing(b),
        a.to_set() == b.to_set(),
    ensures
        a == b,
    decreases a.len(),
{
    if a.len() == 0 || b.len() == 0 {
        if a.len() > 0 {
            assert(a.to_set().contains(a[0]));
            assert(b.to_set().contains(a[0]));
        }
        if b.len() > 0 {
            assert(b.to_set().contains(b[0]));
            assert(a.to_set().contains(b[0]));
        }
        assert(a =~= b);
    } else {
        lemma_last_is_greatest(a, b);
        lemma_last_is_greatest(b, a);
        law_order_is_total(a.last(), b.last());
        lemma_without_last(a);
        lemma_without_last(b);
        law_increasing_is_unique(a.drop_last(), b.drop_last());
        assert(a =~= a.drop_last().push(a.last()));
        assert(b =~= b.drop_last().push(b.last()));
    }
}

proof fn lemma_last_is_greatest(a: Seq<Seq<char>>, b: Seq<Seq<char>>)
    requires
        increasing(a),
        a.to_set() == b.to_set(),
        a.len() > 0,
        b.len() > 0,
    ensures
        b.last() == a.last() || precedes(b.last(), a.last()),
{
    assert(b.to_set().contains(b[b.len() - 1]));
    assert(a.contains(b.last()));
    let k = choose|k: int| 0 <= k < a.len() && a[k] == b.last();
    if k < a.len() - 1 {
        assert(precedes(a[k], a[a.len() - 1]));
    }
}

proof fn lemma_without_last(a: Seq<Seq<char>>)
    requires
        increasing(a),
        a.len() > 0,
    ensures
        increasing(a.drop_last()),
        a.drop_last().to_set() == a.to_set().remove(a.last()),
{
    let head = a.drop_last();
    lemma_set_push(head, a.last());
    assert(head.push(a.last()) =~= a);
    assert forall|i: int, j: int| 0 <= i < j < head.len() implies #[trigger] precedes(
        head[i],
        head[j],
    ) by {
        assert(precedes(a[i], a[j]));
    }
    if head.contains(a.last()) {
        let k = choose|k: int| 0 <= k < head.len() && head[k] == a.last();
        assert(precedes(a[k], a[a.len() - 1]));
        law_order_is_total(a.last(), a.last());
    }
    assert(head.to_set() =~= a.to_set().remove(a.last()));
}

/// Texts are ordered by the first character in which they differ, and a text comes
/// before every longer one that begins with it.
pub proof fn law_order_is_lexicographic(
    common: Seq<char>,
    a: char,
    b: char,
    x: Seq<char>,
    y: Seq<char>,
)
    requires
        a != b,
    ensures
        precedes(common + seq![a] + x, common + seq![b] + y) <==> a < b,
        precedes(common, common + seq![a] + x),
        !precedes(common + seq![a] + x, common),
    decreases common.len(),
{
    let (p, q) = (common + seq![a] + x, common + seq![b] + y);
    if common.len() > 0 {
        law_order_is_lexicographic(common.drop_first(), a, b, x, y);
        assert(p.drop_first() =~= common.drop_first() + seq![a] + x);
        assert(q.drop_first() =~= common.drop_first() + seq![b] + y);
        assert(p.first() == common.first() && q.first() == common.first());
    } else {
        assert(p.first() == a && q.first() == b);
    }
}

} // verus!
