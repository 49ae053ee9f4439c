//! How text is trimmed, split and read.
use crate::catalog::with_newlines;
use crate::files::{digits_value, number_of, uid_of_line, uid_of_lines, words};
use crate::hitl::entries;
use crate::identity::{is_digit, lemma_decimal, number};
use crate::reading::{lemma_lines_extend, lemma_lines_of_list};
use crate::text::{
    decimal, escaped, escaped_char, lines, lowercase, trimmed, trimmed_end, trimmed_start,
    white_space,
};
use vstd::prelude::*;

verus! {

// ---- trimming and case ----

proof fn lemma_start(s: Seq<char>) -> (i: int)
    ensures
        0 <= i <= s.len(),
        trimmed_start(s) == s.skip(i),
        forall|k: int| 0 <= k < i ==> white_space(#[trigger] s[k]),
        i < s.len() ==> !white_space(s[i]),
    decreases s.len(),
{
    if s.len() > 0 && white_space(s.first()) {
        let t = s.drop_first();
        let i = lemma_start(t);
        assert(t.skip(i) =~= s.skip(i + 1));
        assert forall|k: int| 0 <= k < i + 1 implies white_space(#[trigger] s[k]) by {
            if k > 0 {
                assert(s[k] == t[k - 1]);
            }
        }
        i + 1
    } else {
        assert(s.skip(0) =~= s);
        0
    }
}

proof fn lemma_end(s: Seq<char>) -> (j: int)
    ensures
        0 <= j <= s.len(),
        trimmed_end(s) == s.take(j),
        forall|k: int| j <= k < s.len() ==> white_space(#[trigger] s[k]),
        j > 0 ==> !white_space(s[j - 1]),
    decreases s.len(),
{
    if s.len() > 0 && white_space(s.last()) {
        let t = s.drop_last();
        let j = lemma_end(t);
        assert(t.take(j) =~= s.take(j));
        assert forall|k: int| j <= k < s.len() implies white_space(#[trigger] s[k]) by {
            if k < s.len() - 1 {
                assert(s[k] == t[k]);
            }
        }
        j
    } else {
        assert(s.take(s.len() as int) =~= s);
        s.len() as int
    }
}

/// Trimming cuts white space at both ends and nothing else: what is left neither
/// begins nor ends with any, and all that is cut is.
pub proof fn law_trimming(s: Seq<char>)
    ensures
        exists|i: int, j: int|
            {
                &&& 0 <= i <= j <= s.len()
                &&& trimmed(s) == #[trigger] s.subrange(i, j)
                &&& forall|k: int| 0 <= k < i || j <= k < s.len() ==> white_space(#[trigger] s[k])
                &&& i < j ==> !white_space(s[i]) && !white_space(s[j - 1])
            },
{
    let i = lemma_start(s);
    let t = s.skip(i);
    let n = lemma_end(t);
    let j = i + n;
    assert(t.take(n) =~= s.subrange(i, j));
    assert forall|k: int| 0 <= k < i || j <= k < s.len() implies white_space(#[trigger] s[k]) by {
        if j <= k {
            assert(s[k] == t[k - i]);
        }
    }
    if n > 0 {
        assert(s[j - 1] == t[n - 1]);
    }
}

/// Lower case changes the 26 letters of ASCII and no other character.
pub proof fn law_lower_case(s: Seq<char>, k: int)
    requires
        0 <= k < s.len(),
    ensures
        lowercase(s).len() == s.len(),
        'A' <= s[k] <= 'Z' ==> lowercase(s)[k] as int == s[k] as int + 32,
        !('A' <= s[k] <= 'Z') ==> lowercase(s)[k] == s[k],
{
}

/// Escaping works character by character, and leaves alone what needs none.
pub proof fn law_escaping(a: Seq<char>, b: Seq<char>)
    ensures
        escaped(a + b) == escaped(a) + escaped(b),
        (forall|k: int|
            0 <= k < a.len() ==> #[trigger] a[k] > '\u{1f}' && a[k] != '"' && a[k] != '\\') ==> escaped(
            a,
        ) == a,
    decreases b.len(), a.len(),
{
    if b.len() == 0 {
        assert(a + b =~= a);
        assert(escaped(a) + escaped(b) =~= escaped(a));
        if a.len() > 0 {
            law_escaping(a.drop_last(), b);
            if forall|k: int|
                0 <= k < a.len() ==> #[trigger] a[k] > '\u{1f}' && a[k] != '"' && a[k] != '\\' {
                let t = a.drop_last();
                assert forall|k: int| 0 <= k < t.len() implies #[trigger] t[k] > '\u{1f}' && t[k]
                    != '"' && t[k] != '\\' by {
                    assert(t[k] == a[k]);
                }
                assert(a[a.len() - 1] > '\u{1f}');
                assert(escaped(t) + seq![a.last()] =~= a);
            }
        }
    } else {
        law_escaping(a, b.drop_last());
        assert((a + b).drop_last() =~= a + b.drop_last());
        assert(escaped(a) + (escaped(b.drop_last()) + escaped_char(b.last()))
            =~= escaped(a) + escaped(b.drop_last()) + escaped_char(b.last()));
    }
}

// ---- lines and words ----

proof fn lemma_no_newline(s: Seq<char>)
    requires
        !s.contains('\n'),
    ensures
        lines(s) == seq![s],
{
    let none = Seq::<char>::empty();
    lemma_lines_extend(none, s);
    assert(none + s =~= s);
    assert(lines(none) =~= seq![none]);
    assert(lines(none).drop_last().push(lines(none).last() + s) =~= seq![s]);
}

/// A newline ends a line, and nothing else does.
pub proof fn law_lines(a: Seq<char>, b: Seq<char>)
    ensures
        !a.contains('\n') ==> lines(a) == seq![a],
        lines(a + seq!['\n'] + b) == lines(a) + lines(b),
    decreases b.len(),
{
    if !a.contains('\n') {
        lemma_no_newline(a);
    }
    let s = a + seq!['\n'] + b;
    lemma_lines_extend(a, Seq::empty());
    lemma_lines_extend(b, Seq::empty());
    if b.len() == 0 {
        assert(s.drop_last() =~= a);
        assert(lines(s) =~= lines(a) + lines(b));
    } else {
        let c = b.drop_last();
        law_lines(a, c);
        lemma_lines_extend(c, Seq::empty());
        assert(s.drop_last() =~= a + seq!['\n'] + c);
        assert(s.last() == b.last());
        let (x, y) = (lines(a), lines(c));
        assert((x + y).drop_last() =~= x + y.drop_last());
        assert((x + y).last() == y.last());
        assert(lines(s) =~= x + lines(b));
    }
}

proof fn lemma_ends_in_a_word(s: Seq<char>)
    requires
        s.len() > 0,
        !white_space(s.last()),
    ensures
        words(s).len() > 0,
{
}

/// White space ends a word, and nothing else does. Text without white space is one
/// word, and none where it is empty.
pub proof fn law_words(a: Seq<char>, space: char, b: Seq<char>)
    requires
        white_space(space),
    ensures
        words(a + seq![space] + b) == words(a) + words(b),
        a.len() == 0 ==> words(a).len() == 0,
        a.len() > 0 && (forall|k: int| 0 <= k < a.len() ==> !white_space(#[trigger] a[k]))
            ==> words(a) == seq![a],
    decreases b.len(),
{
    lemma_one_word(a);
    let s = a + seq![space] + b;
    if b.len() == 0 {
        assert(s.drop_last() =~= a);
        assert(words(s) =~= words(a) + words(b));
    } else {
        let c = b.drop_last();
        law_words(a, space, c);
        let t = a + seq![space] + c;
        assert(s.drop_last() =~= t);
        assert(s.last() == b.last());
        if !white_space(b.last()) {
            if b.len() == 1 {
                assert(s[s.len() - 2] == space);
                assert(words(s) =~= words(a) + words(b));
            } else {
                assert(s[s.len() - 2] == b[b.len() - 2]);
                if white_space(b[b.len() - 2]) {
                    assert(words(s) =~= words(a) + words(b));
                } else {
                    lemma_ends_in_a_word(c);
                    let (x, y) = (words(a), words(c));
                    assert((x + y).drop_last() =~= x + y.drop_last());
                    assert((x + y).last() == y.last());
                    assert(words(s) =~= x + words(b));
                }
            }
        }
    }
}

proof fn lemma_one_word(a: Seq<char>)
    ensures
        a.len() > 0 && (forall|k: int| 0 <= k < a.len() ==> !white_space(#[trigger] a[k]))
            ==> words(a) == seq![a],
    decreases a.len(),
{
    if a.len() > 0 && (forall|k: int| 0 <= k < a.len() ==> !white_space(#[trigger] a[k])) {
        let t = a.drop_last();
        assert(!white_space(a[a.len() - 1]));
        if t.len() > 0 {
            assert forall|k: int| 0 <= k < t.len() implies !white_space(#[trigger] t[k]) by {
                assert(t[k] == a[k]);
            }
            lemma_one_word(t);
            assert(!white_space(a[a.len() - 2]));
            assert(t.push(a.last()) =~= a);
            assert(words(a) =~= seq![a]);
        } else {
            assert(words(t) =~= Seq::empty());
            assert(seq![a.last()] =~= a);
            assert(words(a) =~= seq![a]);
        }
    }
}

// ---- numbers ----

/// Text of digits, and only such text, stands for the number with those digits.
pub proof fn law_digits(s: Seq<char>)
    ensures
        digits_value(s) == (if s.len() > 0 && forall|k: int|
            0 <= k < s.len() ==> is_digit(#[trigger] s[k]) {
            Some(number(s) as nat)
        } else {
            None
        }),
        s.len() > 0 && (forall|k: int| 0 <= k < s.len() ==> is_digit(#[trigger] s[k])) ==> number(s)
            >= 0,
    decreases s.len(),
{
    if s.len() > 0 {
        let t = s.drop_last();
        law_digits(t);
        assert(t.len() == 0 ==> number(t) == 0);
        if forall|k: int| 0 <= k < s.len() ==> is_digit(#[trigger] s[k]) {
            assert forall|k: int| 0 <= k < t.len() implies is_digit(#[trigger] t[k]) by {
                assert(t[k] == s[k]);
            }
            assert(is_digit(s[s.len() - 1]));
        } else {
            let k = choose|k: int| 0 <= k < s.len() && !is_digit(#[trigger] s[k]);
            if k < t.len() {
                assert(t[k] == s[k]);
                assert(!is_digit(t[k]));
            }
        }
    }
}

/// A number of 32 bits reads back from its decimal digits, with a plus sign or
/// without one; a greater number does not.
pub proof fn law_numbers_read_back(n: nat)
    ensures
        number_of(decimal(n)) == (if n <= u32::MAX {
            Some(n as u32)
        } else {
            None
        }),
        number_of(seq!['+'] + decimal(n)) == number_of(decimal(n)),
{
    lemma_decimal(n);
    law_digits(decimal(n));
    assert(is_digit(decimal(n)[0]));
    let signed = seq!['+'] + decimal(n);
    assert(signed.skip(1) =~= decimal(n));
}

/// What reads as a number is digits behind at most one plus sign.
pub proof fn law_only_digits_are_numbers(s: Seq<char>)
    requires
        number_of(s) is Some,
    ensures
        s.len() > 0,
        forall|k: int| 0 < k < s.len() ==> is_digit(#[trigger] s[k]),
        is_digit(s[0]) || s[0] == '+' && s.len() > 1,
{
    if s.len() > 0 && s[0] == '+' {
        let t = s.skip(1);
        law_digits(t);
        assert forall|k: int| 0 < k < s.len() implies is_digit(#[trigger] s[k]) by {
            assert(t[k - 1] == s[k]);
        }
    } else {
        law_digits(s);
    }
}

// ---- approvals ----

/// A list approves what its lines hold, each without white space around it, but for
/// blank lines and comments, which begin with `#`.
pub proof fn law_approvals(all: Seq<Seq<char>>, id: Seq<char>)
    requires
        forall|k: int| 0 <= k < all.len() ==> !(#[trigger] all[k]).contains('\n'),
    ensures
        entries(lines(with_newlines(all))).contains(id) <==> {
            &&& id.len() > 0
            &&& id[0] != '#'
            &&& exists|k: int| 0 <= k < all.len() && trimmed(#[trigger] all[k]) == id
        },
{
    lemma_lines_of_list(all);
    let with_end = all.push(Seq::empty());
    if entries(with_end).contains(id) {
        let k = choose|k: int| 0 <= k < with_end.len() && trimmed(#[trigger] with_end[k]) == id;
        if k == all.len() {
            assert(trimmed(with_end[k]) =~= Seq::empty());
        } else {
            assert(trimmed(all[k]) == id);
        }
    }
    if exists|k: int| 0 <= k < all.len() && trimmed(#[trigger] all[k]) == id {
        let k = choose|k: int| 0 <= k < all.len() && trimmed(#[trigger] all[k]) == id;
        assert(trimmed(with_end[k]) == id);
    }
}

// ---- the effective user ----

/// A word: not empty, and without white space.
pub open spec fn is_word(s: Seq<char>) -> bool {
    s.len() > 0 && forall|k: int| 0 <= k < s.len() ==> !white_space(#[trigger] s[k])
}

/// Of the numbers behind `Uid:` the second counts.
pub proof fn law_effective_user_is_second(
    a: Seq<char>,
    b: Seq<char>,
    rest: Seq<char>,
    first: char,
    second: char,
    third: char,
)
    requires
        is_word(a),
        is_word(b),
        white_space(first),
        white_space(second),
        white_space(third),
    ensures
        uid_of_line("Uid:"@ + seq![first] + a + seq![second] + b) == number_of(b),
        uid_of_line("Uid:"@ + seq![first] + a + seq![second] + b + seq![third] + rest)
            == number_of(b),
{
    reveal_strlit("Uid:");
    let none = Seq::<char>::empty();
    let short = "Uid:"@ + seq![first] + a + seq![second] + b;
    let long = short + seq![third] + rest;
    assert(short.skip(4) =~= none + seq![first] + (a + seq![second] + b));
    assert(long.skip(4) =~= none + seq![first] + (a + seq![second] + (b + seq![third] + rest)));
    assert("Uid:"@.is_prefix_of(short)) by {
        assert(short.take(4) =~= "Uid:"@);
    }
    assert("Uid:"@.is_prefix_of(long)) by {
        assert(long.take(4) =~= "Uid:"@);
    }
    law_words(none, first, a + seq![second] + b);
    law_words(a, second, b);
    law_words(b, third, rest);
    law_words(none, first, a + seq![second] + (b + seq![third] + rest));
    law_words(a, second, b + seq![third] + rest);
    assert(words(none) =~= Seq::empty());
    assert(words(short.skip(4))[1] == b);
    assert(words(long.skip(4))[1] == b);
}

/// A line without `Uid:` at its beginning gives no user.
pub proof fn law_other_lines_give_no_user(line: Seq<char>)
    requires
        line.len() < 4 || line.take(4) != "Uid:"@,
    ensures
        uid_of_line(line) is None,
{
    reveal_strlit("Uid:");
    if "Uid:"@.is_prefix_of(line) {
        assert(line.take(4) =~= "Uid:"@);
    }
}

/// The first line that gives a user decides; where none does, the user is 0.
pub proof fn law_first_user_counts(all: Seq<Seq<char>>, k: int, uid: u32)
    ensures
        0 <= k < all.len() && uid_of_line(all[k]) == Some(uid) && (forall|j: int|
            0 <= j < k ==> uid_of_line(#[trigger] all[j]) is None) ==> uid_of_lines(all) == uid,
        (forall|j: int| 0 <= j < all.len() ==> uid_of_line(#[trigger] all[j]) is None)
            ==> uid_of_lines(all) == 0,
    decreases all.len(),
{
    if all.len() > 0 {
        let rest = all.drop_first();
        law_first_user_counts(rest, k - 1, uid);
        assert(forall|j: int| 0 <= j < rest.len() ==> #[trigger] rest[j] == all[j + 1]);
        assert(all.first() == all[0]);
    }
}

} // verus!
