//! Text helpers: trimming, ASCII case folding, decimal numbers and escapes,
//! each with the sequence of characters that it yields.
use vstd::prelude::*;

verus! {

/// `String::push` appends the character to the end of the string.
pub assume_specification[ String::push ](s: &mut String, c: char)
    ensures
        final(s)@ == old(s)@.push(c),
;

/// The code points with the Unicode `White_Space` property.
pub open spec fn white_space(c: char) -> bool {
    ||| '\u{9}' <= c <= '\u{d}'
    ||| c == ' '
    ||| c == '\u{85}'
    ||| c == '\u{a0}'
    ||| c == '\u{1680}'
    ||| '\u{2000}' <= c <= '\u{200a}'
    ||| c == '\u{2028}'
    ||| c == '\u{2029}'
    ||| c == '\u{202f}'
    ||| c == '\u{205f}'
    ||| c == '\u{3000}'
}

/// Tells whether `c` has the Unicode `White_Space` property.
pub fn is_white_space(c: char) -> (r: bool)
    ensures
        r == white_space(c),
{
    ('\u{9}' <= c && c <= '\u{d}') || c == ' ' || c == '\u{85}' || c == '\u{a0}' || c == '\u{1680}'
        || ('\u{2000}' <= c && c <= '\u{200a}') || c == '\u{2028}' || c == '\u{2029}' || c
        == '\u{202f}' || c == '\u{205f}' || c == '\u{3000}'
}

/// `s` without its leading white space.
pub open spec fn trimmed_start(s: Seq<char>) -> Seq<char>
    decreases s.len(),
{
    if s.len() > 0 && white_space(s.first()) {
        trimmed_start(s.drop_first())
    } else {
        s
    }
}

/// `s` without its trailing white space.
pub open spec fn trimmed_end(s: Seq<char>) -> Seq<char>
    decreases s.len(),
{
    if s.len() > 0 && white_space(s.last()) {
        trimmed_end(s.drop_last())
    } else {
        s
    }
}

/// `s` without white space at either end.
pub open spec fn trimmed(s: Seq<char>) -> Seq<char> {
    trimmed_end(trimmed_start(s))
}

/// The characters of `s`, in order.
pub fn chars_of(s: &str) -> (r: Vec<char>)
    ensures
        r@ == s@,
{
    let mut r: Vec<char> = Vec::new();
    for c in it: s.chars()
        invariant
            r@ == it.seq().take(it.index()),
            it.seq() == s@,
    {
        r.push(c);
    }
    r
}

/// `s` without white space at either end.
pub fn trim(s: &str) -> (r: &str)
    ensures
        r@ == trimmed(s@),
{
    let chars: Vec<char> = chars_of(s);
    let n: usize = chars.len();
    let mut i: usize = 0;
    assert(s@.skip(0) =~= s@);
    while i < n && is_white_space(chars[i])
        invariant
            chars@ == s@,
            n == chars.len(),
            i <= n,
            trimmed_start(s@) == trimmed_start(s@.skip(i as int)),
        decreases n - i,
    {
        assert(s@.skip(i as int).drop_first() =~= s@.skip(i + 1));
        i = i + 1;
    }
    let mut j: usize = n;
    assert(s@.skip(i as int) =~= s@.subrange(i as int, j as int));
    while j > i && is_white_space(chars[j - 1])
        invariant
            chars@ == s@,
            n == chars.len(),
            i <= j <= n,
            trimmed_end(s@.skip(i as int)) == trimmed_end(s@.subrange(i as int, j as int)),
        decreases j,
    {
        assert(s@.subrange(i as int, j as int).drop_last() =~= s@.subrange(i as int, j - 1));
        j = j - 1;
    }
    s.substring_char(i, j)
}

/// `c`, in lower case where it is an ASCII letter.
pub open spec fn lower(c: char) -> char {
    if 'A' <= c <= 'Z' {
        (c as u32 + 32) as char
    } else {
        c
    }
}

/// `s` with its ASCII letters in lower case.
pub open spec fn lowercase(s: Seq<char>) -> Seq<char> {
    s.map_values(|c: char| lower(c))
}

/// `c`, in upper case where it is an ASCII letter.
pub open spec fn upper(c: char) -> char {
    if 'a' <= c <= 'z' {
        (c as u32 - 32) as char
    } else {
        c
    }
}

/// `s` with its ASCII letters in upper case.
pub open spec fn uppercase(s: Seq<char>) -> Seq<char> {
    s.map_values(|c: char| upper(c))
}

/// `s` with its ASCII letters in lower case.
pub fn to_lowercase(s: &str) -> (r: String)
    ensures
        r@ == lowercase(s@),
{
    let mut r: String = String::new();
    for c in it: s.chars()
        invariant
            r@ == lowercase(it.seq().take(it.index())),
            it.seq() == s@,
    {
        if 'A' <= c && c <= 'Z' {
            r.push((c as u8 + 32) as char);
        } else {
            r.push(c);
        }
    }
    r
}

/// Tells whether `a` and `b` hold the same characters.
pub fn same_text(a: &str, b: &str) -> (r: bool)
    ensures
        r == (a@ == b@),
{
    let x: Vec<char> = chars_of(a);
    let y: Vec<char> = chars_of(b);
    if x.len() != y.len() {
        return false;
    }
    let mut i: usize = 0;
    while i < x.len()
        invariant
            x@ == a@,
            y@ == b@,
            x.len() == y.len(),
            i <= x.len(),
            forall|k: int| 0 <= k < i ==> x[k] == y[k],
        decreases x.len() - i,
    {
        if x[i] != y[i] {
            return false;
        }
        i = i + 1;
    }
    assert(a@ =~= b@);
    true
}

/// Tells whether `s` begins with `prefix`.
pub fn starts_with(s: &str, prefix: &str) -> (r: bool)
    ensures
        r == prefix@.is_prefix_of(s@),
{
    let x: Vec<char> = chars_of(s);
    let y: Vec<char> = chars_of(prefix);
    if y.len() > x.len() {
        return false;
    }
    let mut i: usize = 0;
    while i < y.len()
        invariant
            x@ == s@,
            y@ == prefix@,
            y.len() <= x.len(),
            i <= y.len(),
            forall|k: int| 0 <= k < i ==> x[k] == y[k],
        decreases y.len() - i,
    {
        if x[i] != y[i] {
            return false;
        }
        i = i + 1;
    }
    assert(prefix@ =~= s@.subrange(0, prefix@.len() as int));
    true
}

/// The decimal digit `d`.
pub open spec fn digit(d: nat) -> char {
    (48 + d) as char
}

/// `n` in decimal, without leading zeros.
pub open spec fn decimal(n: nat) -> Seq<char>
    decreases n,
{
    if n < 10 {
        seq![digit(n)]
    } else {
        decimal(n / 10).push(digit(n % 10))
    }
}

/// `n` in decimal, without leading zeros.
pub fn decimal_of(n: u64) -> (r: String)
    ensures
        r@ == decimal(n as nat),
    decreases n,
{
    let d: char = ((n % 10) as u8 + 48) as char;
    let mut r: String = if n < 10 {
        String::new()
    } else {
        decimal_of(n / 10)
    };
    r.push(d);
    assert(n < 10 ==> r@ =~= seq![digit(n as nat)]);
    r
}

/// `n` in decimal, with a minus sign where it is negative.
pub open spec fn signed_decimal(n: int) -> Seq<char> {
    if n < 0 {
        seq!['-'] + decimal((-n) as nat)
    } else {
        decimal(n as nat)
    }
}

/// `n` in decimal, with a minus sign where it is negative.
pub fn signed_decimal_of(n: i32) -> (r: String)
    ensures
        r@ == signed_decimal(n as int),
{
    if n < 0 {
        let mut r: String = String::new();
        r.push('-');
        assert(r@ =~= seq!['-']);
        let magnitude: u64 = (-(n as i64)) as u64;
        r.append(decimal_of(magnitude).as_str());
        r
    } else {
        decimal_of(n as u64)
    }
}

/// The lower-case hexadecimal digit `d`.
pub open spec fn hex_digit(d: int) -> char {
    if d < 10 {
        (48 + d) as char
    } else {
        (87 + d) as char
    }
}

/// The escape of one character inside a JSON string: backslashes, quotes and
/// control characters have one.
pub open spec fn escaped_char(c: char) -> Seq<char> {
    if c == '\\' {
        "\\\\"@
    } else if c == '"' {
        "\\\""@
    } else if c == '\n' {
        "\\n"@
    } else if c <= '\u{1f}' {
        "\\u00"@.push(hex_digit(c as int / 16)).push(hex_digit(c as int % 16))
    } else {
        seq![c]
    }
}

/// `s` with backslashes, quotes and control characters escaped.
pub open spec fn escaped(s: Seq<char>) -> Seq<char>
    decreases s.len(),
{
    if s.len() == 0 {
        Seq::empty()
    } else {
        escaped(s.drop_last()) + escaped_char(s.last())
    }
}

fn hex_char(d: u8) -> (r: char)
    requires
        d < 16,
    ensures
        r == hex_digit(d as int),
{
    if d < 10 {
        (48 + d) as char
    } else {
        (87 + d) as char
    }
}

/// Appends the two hexadecimal digits of a control character.
fn push_code(r: &mut String, c: char)
    requires
        c <= '\u{1f}',
    ensures
        final(r)@ == old(r)@.push(hex_digit(c as int / 16)).push(hex_digit(c as int % 16)),
{
    let code: u8 = c as u8;
    r.push(hex_char(code / 16));
    r.push(hex_char(code % 16));
}

/// `s` with backslashes, quotes and control characters escaped.
pub fn escape(s: &str) -> (r: String)
    ensures
        r@ == escaped(s@),
{
    let mut r: String = String::new();
    for c in it: s.chars()
        invariant
            r@ == escaped(it.seq().take(it.index())),
            it.seq() == s@,
    {
        let ghost before = r@;
        assert(it.seq().take(it.index() + 1).drop_last() =~= it.seq().take(it.index()));
        if c == '\\' {
            r.append("\\\\");
        } else if c == '"' {
            r.append("\\\"");
        } else if c == '\n' {
            r.append("\\n");
        } else if c <= '\u{1f}' {
            r.append("\\u00");
            push_code(&mut r, c);
            assert(r@ =~= before + escaped_char(c));
        } else {
            r.push(c);
            assert(r@ =~= before + escaped_char(c));
        }
    }
    assert(s@.take(s@.len() as int) =~= s@);
    r
}

/// The lines of `s`, split at each newline.
pub open spec fn lines(s: Seq<char>) -> Seq<Seq<char>>
    decreases s.len(),
{
    if s.len() == 0 {
        seq![Seq::empty()]
    } else {
        let before = lines(s.drop_last());
        if s.last() == '\n' {
            before.push(Seq::empty())
        } else {
            before.drop_last().push(before.last().push(s.last()))
        }
    }
}

/// The lines of `s`, split at each newline.
pub fn split_lines(s: &str) -> (r: Vec<String>)
    ensures
        texts(r@) == lines(s@),
{
    let mut done: Vec<String> = Vec::new();
    let mut current: String = String::new();
    assert(texts(done@).push(current@) =~= seq![Seq::<char>::empty()]);
    for c in it: s.chars()
        invariant
            texts(done@).push(current@) == lines(it.seq().take(it.index())),
            it.seq() == s@,
    {
        proof {
            let before = it.seq().take(it.index());
            assert(it.seq().take(it.index() + 1).drop_last() =~= before);
            assert(lines(before).drop_last() =~= texts(done@));
        }
        if c == '\n' {
            done.push(current);
            current = String::new();
        } else {
            current.push(c);
        }
    }
    assert(s@.take(s@.len() as int) =~= s@);
    done.push(current);
    done
}

/// The characters of each string.
pub open spec fn texts(v: Seq<String>) -> Seq<Seq<char>> {
    v.map_values(|s: String| s@)
}

/// Lexicographic order by code point.
pub open spec fn precedes(a: Seq<char>, b: Seq<char>) -> bool
    decreases a.len(),
{
    if b.len() == 0 {
        false
    } else if a.len() == 0 {
        true
    } else if a.first() != b.first() {
        a.first() < b.first()
    } else {
        precedes(a.drop_first(), b.drop_first())
    }
}

/// Tells whether `a` comes before `b` in code point order.
pub fn comes_before(a: &str, b: &str) -> (r: bool)
    ensures
        r == precedes(a@, b@),
{
    let x: Vec<char> = chars_of(a);
    let y: Vec<char> = chars_of(b);
    let mut i: usize = 0;
    assert(a@.skip(0) =~= a@);
    assert(b@.skip(0) =~= b@);
    while i < x.len() && i < y.len() && x[i] == y[i]
        invariant
            x@ == a@,
            y@ == b@,
            i <= x.len(),
            i <= y.len(),
            precedes(a@, b@) == precedes(a@.skip(i as int), b@.skip(i as int)),
        decreases x.len() - i,
    {
        assert(a@.skip(i as int).drop_first() =~= a@.skip(i + 1));
        assert(b@.skip(i as int).drop_first() =~= b@.skip(i + 1));
        i = i + 1;
    }
    i < y.len() && (i == x.len() || x[i] < y[i])
}

/// The strictly increasing sequence `s` with `x` added where it is missing.
pub open spec fn inserted(s: Seq<Seq<char>>, x: Seq<char>) -> Seq<Seq<char>>
    decreases s.len(),
{
    if s.len() == 0 {
        seq![x]
    } else if s.last() == x {
        s
    } else if precedes(s.last(), x) {
        s.push(x)
    } else {
        inserted(s.drop_last(), x).push(s.last())
    }
}

/// The distinct members of `s` in code point order.
pub open spec fn sorted_distinct(s: Seq<Seq<char>>) -> Seq<Seq<char>>
    decreases s.len(),
{
    if s.len() == 0 {
        Seq::empty()
    } else {
        inserted(sorted_distinct(s.drop_last()), s.last())
    }
}

/// Adds `x` to a strictly increasing vector unless it is there.
fn insert_sorted(v: &mut Vec<String>, x: String)
    ensures
        texts(final(v)@) == inserted(texts(old(v)@), x@),
{
    let mut i: usize = v.len();
    let ghost all = texts(v@);
    assert(all.take(i as int) =~= all);
    while i > 0 && !same_text(v[i - 1].as_str(), x.as_str()) && !comes_before(
        v[i - 1].as_str(),
        x.as_str(),
    )
        invariant
            i <= v.len(),
            all == texts(v@),
            inserted(all, x@) == inserted(all.take(i as int), x@) + all.skip(i as int),
        decreases i,
    {
        proof {
            let head = all.take(i as int);
            assert(head.drop_last() =~= all.take(i - 1));
            assert(head.last() == v[i - 1]@);
            assert(inserted(head.drop_last(), x@).push(head.last()) + all.skip(i as int) =~= inserted(
                head.drop_last(),
                x@,
            ) + all.skip(i - 1));
        }
        i = i - 1;
    }
    if i > 0 && same_text(v[i - 1].as_str(), x.as_str()) {
        proof {
            assert(all.take(i as int).last() == v[i - 1]@);
            assert(all.take(i as int) + all.skip(i as int) =~= all);
        }
        return ;
    }
    proof {
        if i > 0 {
            assert(all.take(i as int).last() == v[i - 1]@);
        }
        assert(inserted(all.take(i as int), x@) =~= all.take(i as int).push(x@));
    }
    let ghost text = x@;
    v.insert(i, x);
    assert(texts(v@) =~= all.take(i as int).push(text) + all.skip(i as int));
}

/// The distinct members of `v` in code point order.
pub fn sort_distinct(v: &Vec<String>) -> (r: Vec<String>)
    ensures
        texts(r@) == sorted_distinct(texts(v@)),
{
    let mut r: Vec<String> = Vec::new();
    let mut i: usize = 0;
    assert(texts(r@) =~= Seq::empty());
    while i < v.len()
        invariant
            i <= v.len(),
            texts(r@) == sorted_distinct(texts(v@).take(i as int)),
        decreases v.len() - i,
    {
        assert(texts(v@).take(i + 1).drop_last() =~= texts(v@).take(i as int));
        insert_sorted(&mut r, v[i].clone());
        i = i + 1;
    }
    assert(texts(v@).take(i as int) =~= texts(v@));
    r
}

} // verus!
