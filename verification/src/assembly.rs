//! Recognition of inline assembly that cannot touch tracked memory.
use crate::text::{
    chars_of, is_white_space, lower, lowercase, starts_with, texts, to_lowercase, trim, trimmed,
    trimmed_end, trimmed_start, upper, uppercase, white_space,
};
use vstd::prelude::*;

verus! {

/// Mnemonics of read-only, barrier and trap instructions.
pub open spec fn safe_asm_patterns() -> Seq<Seq<char>> {
    seq![
        "rdtsc"@,
        "rdtscp"@,
        "cpuid"@,
        "pause"@,
        "mfence"@,
        "sfence"@,
        "lfence"@,
        "cli"@,
        "sti"@,
        "nop"@,
        "rep nop"@,
        "ud2"@,
        "int3"@,
        "wbinvd"@,
        "invlpg"@,
        "xgetbv"@,
    ]
}

/// The statements of assembly text, which end at semicolons and newlines.
pub open spec fn statements(s: Seq<char>) -> Seq<Seq<char>>
    decreases s.len(),
{
    if s.len() == 0 {
        seq![Seq::empty()]
    } else {
        let before = statements(s.drop_last());
        if s.last() == ';' || s.last() == '\n' {
            before.push(Seq::empty())
        } else {
            before.drop_last().push(before.last().push(s.last()))
        }
    }
}

/// The statement is the pattern, or the pattern with operands behind it.
pub open spec fn matches_pattern(statement: Seq<char>, pattern: Seq<char>) -> bool {
    &&& pattern.is_prefix_of(statement)
    &&& statement.len() > pattern.len() ==> white_space(statement[pattern.len() as int])
}

/// The statement is empty or matches a safe pattern.
pub open spec fn safe_statement(statement: Seq<char>) -> bool {
    ||| statement.len() == 0
    ||| exists|i: int|
        0 <= i < safe_asm_patterns().len() && matches_pattern(
            statement,
            #[trigger] safe_asm_patterns()[i],
        )
}

/// Every statement, trimmed, is empty or matches a safe pattern.
pub open spec fn safe_statements(all: Seq<Seq<char>>) -> bool {
    forall|k: int| 0 <= k < all.len() ==> safe_statement(trimmed(#[trigger] all[k]))
}

/// Inline assembly is safe when it is blank, which makes it a compiler barrier,
/// or when, trimmed and in lower case, it begins with a statement and every
/// statement of it matches a safe pattern.
pub open spec fn safe_inline_asm(assembly: Seq<char>) -> bool {
    let text = lowercase(trimmed(assembly));
    ||| text.len() == 0
    ||| text[0] != ';' && safe_statements(statements(text))
}

/// The statements of assembly text.
fn split_statements(s: &str) -> (r: Vec<String>)
    ensures
        texts(r@) == statements(s@),
{
    let mut done: Vec<String> = Vec::new();
    let mut current: String = String::new();
    assert(texts(done@).push(current@) =~= seq![Seq::<char>::empty()]);
    for c in it: s.chars()
        invariant
            texts(done@).push(current@) == statements(it.seq().take(it.index())),
            it.seq() == s@,
    {
        proof {
            let before = it.seq().take(it.index());
            assert(it.seq().take(it.index() + 1).drop_last() =~= before);
            assert(statements(before).drop_last() =~= texts(done@));
        }
        if c == ';' || c == '\n' {
            done.push(current);
            current = String::new();
        } else {
            current.push(c);
        }
    }
    assert(s@.take(s@.len() as int) =~= s@);
    done.push(current);
    done
}

fn has_pattern(statement: &str, pattern: &str) -> (r: bool)
    ensures
        r == matches_pattern(statement@, pattern@),
{
    if !starts_with(statement, pattern) {
        return false;
    }
    let chars: Vec<char> = chars_of(statement);
    let n: usize = chars_of(pattern).len();
    n == chars.len() || is_white_space(chars[n])
}

fn is_safe_statement(statement: &str) -> (r: bool)
    ensures
        r == safe_statement(statement@),
{
    let patterns: [&str; 16] = [
        "rdtsc", "rdtscp", "cpuid", "pause", "mfence", "sfence", "lfence", "cli", "sti", "nop",
        "rep nop", "ud2", "int3", "wbinvd", "invlpg", "xgetbv",
    ];
    assert(forall|k: int| 0 <= k < 16 ==> (#[trigger] patterns[k])@ == safe_asm_patterns()[k]);
    let mut i: usize = 0;
    while i < 16
        invariant
            i <= 16,
            forall|k: int| 0 <= k < 16 ==> (#[trigger] patterns[k])@ == safe_asm_patterns()[k],
            forall|k: int|
                0 <= k < i ==> !matches_pattern(statement@, #[trigger] safe_asm_patterns()[k]),
        decreases 16 - i,
    {
        if has_pattern(statement, patterns[i]) {
            assert(matches_pattern(statement@, safe_asm_patterns()[i as int]));
            return true;
        }
        i = i + 1;
    }
    statement.is_empty()
}

/// Tells whether the assembly text is composed of known-safe patterns only.
pub fn is_safe_inline_asm(asm_string: &str) -> (r: bool)
    ensures
        r == safe_inline_asm(asm_string@),
{
    let normalized: String = to_lowercase(trim(asm_string));
    let ghost text = normalized@;
    if normalized.as_str().is_empty() {
        return true;
    }
    if starts_with(normalized.as_str(), ";") {
        proof {
            reveal_strlit(";");
            assert(text[0] == ";"@[0]);
        }
        return false;
    }
    proof {
        reveal_strlit(";");
        if text[0] == ';' {
            assert(";"@.is_prefix_of(text)) by {
                assert(text.take(1) =~= ";"@);
            }
        }
    }
    let all: Vec<String> = split_statements(normalized.as_str());
    let ghost view = texts(all@);
    let mut i: usize = 0;
    while i < all.len()
        invariant
            i <= all.len(),
            view == texts(all@),
            text == lowercase(trimmed(asm_string@)),
            text.len() > 0,
            text[0] != ';',
            view == statements(text),
            forall|k: int| 0 <= k < i ==> safe_statement(trimmed(#[trigger] view[k])),
        decreases all.len() - i,
    {
        assert(view[i as int] == all[i as int]@);
        if !is_safe_statement(trim(all[i].as_str())) {
            return false;
        }
        i = i + 1;
    }
    true
}

// ---- laws ----

proof fn lemma_statements_join(a: Seq<char>, b: Seq<char>)
    ensures
        statements(a).len() > 0,
        statements(b).len() > 0,
        statements(a + seq![';'] + b) == statements(a) + statements(b),
    decreases b.len(),
{
    lemma_statements_some(a);
    lemma_statements_some(b);
    let joined = a + seq![';'] + b;
    if b.len() == 0 {
        assert(joined.drop_last() =~= a);
        assert(joined.last() == ';');
        assert(statements(joined) =~= statements(a) + statements(b));
    } else {
        lemma_statements_join(a, b.drop_last());
        lemma_statements_some(b.drop_last());
        assert(joined.drop_last() =~= a + seq![';'] + b.drop_last());
        assert(joined.last() == b.last());
        let x = statements(a);
        let y = statements(b.drop_last());
        assert((x + y).drop_last() =~= x + y.drop_last());
        assert((x + y).last() == y.last());
        assert(statements(joined) =~= x + statements(b));
    }
}

proof fn lemma_statements_some(s: Seq<char>)
    ensures
        statements(s).len() > 0,
    decreases s.len(),
{
    if s.len() > 0 {
        lemma_statements_some(s.drop_last());
    }
}

/// Two texts joined by a semicolon, in lower case and without white space around
/// them, are safe if and only if the first begins with a statement and every
/// statement of both is safe: nothing hides behind a safe beginning.
pub proof fn law_nothing_hides_behind_a_statement(a: Seq<char>, b: Seq<char>)
    requires
        lowercase(trimmed(a + seq![';'] + b)) == a + seq![';'] + b,
    ensures
        safe_inline_asm(a + seq![';'] + b) <==> a.len() > 0 && a[0] != ';' && safe_statements(
            statements(a),
        ) && safe_statements(statements(b)),
{
    lemma_statements_join(a, b);
    let all = statements(a) + statements(b);
    let n = statements(a).len();
    if a.len() > 0 {
        assert((a + seq![';'] + b)[0] == a[0]);
    } else {
        assert((a + seq![';'] + b)[0] == ';');
    }
    if safe_statements(all) {
        assert forall|k: int| 0 <= k < n implies safe_statement(
            trimmed(#[trigger] statements(a)[k]),
        ) by {
            assert(safe_statement(trimmed(all[k])));
        }
        assert forall|k: int| 0 <= k < statements(b).len() implies safe_statement(
            trimmed(#[trigger] statements(b)[k]),
        ) by {
            assert(all[n + k] == statements(b)[k]);
            assert(safe_statement(trimmed(all[n + k])));
        }
    } else {
        let k = choose|k: int|
            0 <= k < all.len() && !safe_statement(trimmed(#[trigger] all[k]));
        if k >= n {
            assert(all[k] == statements(b)[k - n]);
        } else {
            assert(all[k] == statements(a)[k]);
        }
    }
}

proof fn lemma_trimmed_ends(s: Seq<char>)
    ensures
        trimmed(s).len() <= s.len(),
        trimmed(s).len() > 0 ==> !white_space(trimmed(s).first()) && !white_space(
            trimmed(s).last(),
        ),
    decreases s.len(),
{
    if s.len() > 0 && white_space(s.first()) {
        lemma_trimmed_ends(s.drop_first());
    } else {
        lemma_trimmed_end(s);
    }
}

proof fn lemma_trimmed_end(s: Seq<char>)
    ensures
        trimmed_end(s).is_prefix_of(s),
        trimmed_end(s).len() > 0 ==> !white_space(trimmed_end(s).last()),
        s.len() > 0 && !white_space(s.first()) ==> trimmed_end(s).len() > 0,
    decreases s.len(),
{
    if s.len() > 0 && white_space(s.last()) {
        lemma_trimmed_end(s.drop_last());
    }
}

/// Text without white space around it is its own trim.
proof fn lemma_trimmed_same(s: Seq<char>)
    requires
        s.len() > 0 ==> !white_space(s.first()) && !white_space(s.last()),
    ensures
        trimmed(s) == s,
{
}

/// White space around the text does not matter.
pub proof fn law_trimming_keeps_safety(assembly: Seq<char>)
    ensures
        safe_inline_asm(trimmed(assembly)) == safe_inline_asm(assembly),
{
    lemma_trimmed_ends(assembly);
    lemma_trimmed_same(trimmed(assembly));
}

proof fn lemma_upper_char(c: char)
    ensures
        white_space(upper(c)) == white_space(c),
        lower(upper(c)) == lower(c),
{
    if 'a' <= c <= 'z' {
        let n = c as u32;
        assert(97 <= n <= 122);
        assert(((n - 32) as char) as u32 == n - 32);
        assert('A' <= upper(c) <= 'Z');
    }
}

proof fn lemma_upper_start(s: Seq<char>)
    ensures
        trimmed_start(uppercase(s)) == uppercase(trimmed_start(s)),
    decreases s.len(),
{
    if s.len() > 0 {
        lemma_upper_char(s.first());
        if white_space(s.first()) {
            lemma_upper_start(s.drop_first());
            assert(uppercase(s).drop_first() =~= uppercase(s.drop_first()));
        }
    }
}

proof fn lemma_upper_end(s: Seq<char>)
    ensures
        trimmed_end(uppercase(s)) == uppercase(trimmed_end(s)),
    decreases s.len(),
{
    if s.len() > 0 {
        lemma_upper_char(s.last());
        if white_space(s.last()) {
            lemma_upper_end(s.drop_last());
            assert(uppercase(s).drop_last() =~= uppercase(s.drop_last()));
        }
    }
}

/// The case of letters does not matter.
pub proof fn law_case_keeps_safety(assembly: Seq<char>)
    ensures
        safe_inline_asm(uppercase(assembly)) == safe_inline_asm(assembly),
{
    lemma_upper_start(assembly);
    lemma_upper_end(trimmed_start(assembly));
    let t = trimmed(assembly);
    assert forall|k: int| 0 <= k < t.len() implies lower(#[trigger] uppercase(t)[k]) == lower(
        t[k],
    ) by {
        lemma_upper_char(t[k]);
    }
    assert(lowercase(uppercase(t)) =~= lowercase(t));
}

proof fn lemma_one_statement(s: Seq<char>)
    requires
        !s.contains(';'),
        !s.contains('\n'),
    ensures
        statements(s) == seq![s],
    decreases s.len(),
{
    if s.len() > 0 {
        let before = s.drop_last();
        assert forall|k: int| 0 <= k < before.len() implies before[k] != ';' && before[k]
            != '\n' by {
            assert(s.contains(s[k]));
        }
        lemma_one_statement(before);
        assert(s.contains(s.last()));
        assert(before.push(s.last()) =~= s);
        assert(statements(s) =~= seq![s]);
    } else {
        assert(s =~= Seq::empty());
    }
}

/// What the patterns are made of.
spec fn plain(s: Seq<char>) -> bool {
    &&& s.len() > 0
    &&& !white_space(s.first()) && !white_space(s.last())
    &&& forall|k: int|
        0 <= k < s.len() ==> 'a' <= #[trigger] s[k] <= 'z' || '0' <= s[k] <= '9' || s[k] == ' '
}

proof fn lemma_patterns_are_plain(i: int)
    requires
        0 <= i < safe_asm_patterns().len(),
    ensures
        plain(safe_asm_patterns()[i]),
{
    reveal_strlit("rdtsc");
    reveal_strlit("rdtscp");
    reveal_strlit("cpuid");
    reveal_strlit("pause");
    reveal_strlit("mfence");
    reveal_strlit("sfence");
    reveal_strlit("lfence");
    reveal_strlit("cli");
    reveal_strlit("sti");
    reveal_strlit("nop");
    reveal_strlit("rep nop");
    reveal_strlit("ud2");
    reveal_strlit("int3");
    reveal_strlit("wbinvd");
    reveal_strlit("invlpg");
    reveal_strlit("xgetbv");
}

/// Each safe pattern is itself safe.
pub proof fn law_patterns_are_safe(i: int)
    requires
        0 <= i < safe_asm_patterns().len(),
    ensures
        safe_inline_asm(safe_asm_patterns()[i]),
{
    let p = safe_asm_patterns()[i];
    lemma_patterns_are_plain(i);
    lemma_trimmed_same(p);
    assert(lowercase(p) =~= p);
    assert(!p.contains(';') && !p.contains('\n'));
    lemma_one_statement(p);
    assert(p.is_prefix_of(p));
    assert(matches_pattern(p, safe_asm_patterns()[i]));
}

proof fn lemma_first_statement(s: Seq<char>)
    ensures
        statements(s).len() > 0,
        statements(s)[0].is_prefix_of(s),
        s.len() > 0 && s[0] != ';' && s[0] != '\n' ==> statements(s)[0].len() > 0,
    decreases s.len(),
{
    if s.len() > 0 {
        let t = s.drop_last();
        lemma_first_statement(t);
        let before = statements(t);
        if s.last() == ';' || s.last() == '\n' {
            assert(statements(s)[0] == before[0]);
        } else if before.len() == 1 {
            lemma_single_statement(t);
            assert(before.last().push(s.last()) =~= s);
            assert(statements(s)[0] == s);
        } else {
            assert(statements(s)[0] == before[0]);
        }
        assert(statements(s)[0].is_prefix_of(s)) by {
            if statements(s)[0] == before[0] {
                assert(before[0].is_prefix_of(t));
            }
        }
    }
}

proof fn lemma_single_statement(s: Seq<char>)
    requires
        statements(s).len() == 1,
    ensures
        statements(s)[0] == s,
    decreases s.len(),
{
    if s.len() > 0 {
        let t = s.drop_last();
        lemma_statements_some(t);
        if !(s.last() == ';' || s.last() == '\n') {
            lemma_single_statement(t);
            assert(t.push(s.last()) =~= s);
        }
    }
}

/// Safe text is blank or begins, in lower case, with a safe pattern.
pub proof fn law_safe_text_begins_safely(assembly: Seq<char>)
    requires
        safe_inline_asm(assembly),
    ensures
        trimmed(assembly).len() == 0 || exists|i: int|
            0 <= i < safe_asm_patterns().len() && (#[trigger] safe_asm_patterns()[i]).is_prefix_of(
                lowercase(trimmed(assembly)),
            ),
{
    let text = lowercase(trimmed(assembly));
    if text.len() > 0 {
        lemma_trimmed_ends(assembly);
        lemma_lower_space(trimmed(assembly)[0]);
        lemma_first_statement(text);
        let first = statements(text)[0];
        assert(first[0] == text[0]);
        lemma_trimmed_end(first);
        let head = trimmed(first);
        assert(head == trimmed_end(first));
        assert(safe_statement(head));
        let i = choose|i: int|
            0 <= i < safe_asm_patterns().len() && matches_pattern(
                head,
                #[trigger] safe_asm_patterns()[i],
            );
        assert(safe_asm_patterns()[i].is_prefix_of(text));
    }
}

proof fn lemma_lower_space(c: char)
    ensures
        white_space(lower(c)) == white_space(c),
{
    if 'A' <= c <= 'Z' {
        let n = c as u32;
        assert(((n + 32) as char) as u32 == n + 32);
    }
}

// ---- statements by their place ----

/// A statement ends here.
pub open spec fn is_separator(c: char) -> bool {
    c == ';' || c == '\n'
}

/// The characters from `i` to `j` are what stands between two separators, or between
/// one and an end of the text.
pub open spec fn is_piece(s: Seq<char>, i: int, j: int) -> bool {
    &&& 0 <= i <= j <= s.len()
    &&& i == 0 || is_separator(s[i - 1])
    &&& j == s.len() || is_separator(s[j])
    &&& forall|k: int| i <= k < j ==> !is_separator(#[trigger] s[k])
}

/// The text is the mnemonic, alone or with operands behind white space.
pub open spec fn is_mnemonic(s: Seq<char>, mnemonic: Seq<char>) -> bool {
    &&& mnemonic.len() <= s.len()
    &&& s.take(mnemonic.len() as int) == mnemonic
    &&& s.len() == mnemonic.len() || white_space(s[mnemonic.len() as int])
}

/// The text is one instruction that reads no tracked memory and writes none: it reads
/// a counter or the processor's identity, waits, orders or traps, switches interrupts,
/// or works on a cache.
pub open spec fn is_harmless(s: Seq<char>) -> bool {
    ||| is_mnemonic(s, "rdtsc"@)
    ||| is_mnemonic(s, "rdtscp"@)
    ||| is_mnemonic(s, "cpuid"@)
    ||| is_mnemonic(s, "pause"@)
    ||| is_mnemonic(s, "mfence"@)
    ||| is_mnemonic(s, "sfence"@)
    ||| is_mnemonic(s, "lfence"@)
    ||| is_mnemonic(s, "cli"@)
    ||| is_mnemonic(s, "sti"@)
    ||| is_mnemonic(s, "nop"@)
    ||| is_mnemonic(s, "rep nop"@)
    ||| is_mnemonic(s, "ud2"@)
    ||| is_mnemonic(s, "int3"@)
    ||| is_mnemonic(s, "wbinvd"@)
    ||| is_mnemonic(s, "invlpg"@)
    ||| is_mnemonic(s, "xgetbv"@)
}

proof fn lemma_harmless(s: Seq<char>)
    ensures
        safe_statement(s) <==> s.len() == 0 || is_harmless(s),
{
    let all = safe_asm_patterns();
    assert(all[0] == "rdtsc"@);
    assert(all[1] == "rdtscp"@);
    assert(all[2] == "cpuid"@);
    assert(all[3] == "pause"@);
    assert(all[4] == "mfence"@);
    assert(all[5] == "sfence"@);
    assert(all[6] == "lfence"@);
    assert(all[7] == "cli"@);
    assert(all[8] == "sti"@);
    assert(all[9] == "nop"@);
    assert(all[10] == "rep nop"@);
    assert(all[11] == "ud2"@);
    assert(all[12] == "int3"@);
    assert(all[13] == "wbinvd"@);
    assert(all[14] == "invlpg"@);
    assert(all[15] == "xgetbv"@);
    assert forall|k: int| 0 <= k < all.len() implies matches_pattern(s, #[trigger] all[k])
        == is_mnemonic(s, all[k]) by {
        let p = all[k];
        if p.is_prefix_of(s) {
            assert(s.take(p.len() as int) =~= p);
        }
        if p.len() <= s.len() && s.take(p.len() as int) == p {
            assert(p =~= s.subrange(0, p.len() as int));
        }
    }
    if is_harmless(s) {
        assert(exists|k: int| 0 <= k < all.len() && is_mnemonic(s, #[trigger] all[k]));
        let k = choose|k: int| 0 <= k < all.len() && is_mnemonic(s, #[trigger] all[k]);
        assert(matches_pattern(s, all[k]));
    }
}

/// The beginning of the last statement.
proof fn lemma_last_piece(s: Seq<char>) -> (i: int)
    ensures
        is_piece(s, i, s.len() as int),
        statements(s).len() > 0,
        statements(s).last() == s.subrange(i, s.len() as int),
    decreases s.len(),
{
    let n = s.len() as int;
    if n == 0 {
        assert(s.subrange(0, 0) =~= Seq::empty());
        0
    } else {
        let t = s.drop_last();
        let i = lemma_last_piece(t);
        if is_separator(s.last()) {
            assert(s.subrange(n, n) =~= Seq::empty());
            n
        } else {
            assert(t.subrange(i, n - 1).push(s.last()) =~= s.subrange(i, n));
            assert forall|k: int| i <= k < n implies !is_separator(#[trigger] s[k]) by {
                if k < n - 1 {
                    assert(s[k] == t[k]);
                }
            }
            if i > 0 {
                assert(s[i - 1] == t[i - 1]);
            }
            i
        }
    }
}

/// Every statement but the last is a piece that ends at a separator.
proof fn lemma_statement_is_piece(s: Seq<char>, k: int) -> (r: (int, int))
    requires
        0 <= k < statements(s).len() - 1,
    ensures
        is_piece(s, r.0, r.1),
        r.1 < s.len(),
        statements(s)[k] == s.subrange(r.0, r.1),
    decreases s.len(),
{
    let n = s.len() as int;
    let t = s.drop_last();
    let before = statements(t);
    lemma_statements_some(t);
    let r = if is_separator(s.last()) && k == before.len() - 1 {
        (lemma_last_piece(t), n - 1)
    } else {
        lemma_statement_is_piece(t, k)
    };
    let (i, j) = r;
    assert(t.subrange(i, j) =~= s.subrange(i, j));
    assert(forall|m: int| 0 <= m < n - 1 ==> #[trigger] s[m] == t[m]);
    if i > 0 {
        assert(s[i - 1] == t[i - 1]);
    }
    if j < n - 1 {
        assert(s[j] == t[j]);
    }
    assert(statements(s)[k] == before[k]);
    r
}

/// Every piece is a statement, and not the last one where it ends at a separator.
proof fn lemma_piece_is_statement(s: Seq<char>, i: int, j: int) -> (k: int)
    requires
        is_piece(s, i, j),
    ensures
        0 <= k < statements(s).len(),
        j < s.len() ==> k < statements(s).len() - 1,
        statements(s)[k] == s.subrange(i, j),
    decreases s.len(),
{
    let n = s.len() as int;
    let last = lemma_last_piece(s);
    if j == n {
        if i < last {
            assert(!is_separator(s[last - 1]));
        }
        if last < i {
            assert(!is_separator(s[i - 1]));
        }
        statements(s).len() - 1
    } else {
        let t = s.drop_last();
        let before = statements(t);
        lemma_statements_some(t);
        assert(t.subrange(i, j) =~= s.subrange(i, j));
        assert(forall|m: int| 0 <= m < n - 1 ==> #[trigger] s[m] == t[m]);
        if i > 0 {
            assert(s[i - 1] == t[i - 1]);
        }
        if j < n - 1 {
            assert(s[j] == t[j]);
        }
        assert(is_piece(t, i, j));
        let k = lemma_piece_is_statement(t, i, j);
        assert(statements(s)[k] == before[k]);
        k
    }
}

/// Assembly text is safe if and only if it is blank, or it does not begin with a
/// separator and all that stands between separators is blank or harmless, white
/// space around it and the case of letters aside.
pub proof fn law_safe_text_is_harmless_throughout(assembly: Seq<char>)
    ensures
        ({
            let text = lowercase(trimmed(assembly));
            safe_inline_asm(assembly) <==> text.len() == 0 || text[0] != ';' && forall|
                i: int,
                j: int,
            | #[trigger]
                is_piece(text, i, j) ==> trimmed(text.subrange(i, j)).len() == 0 || is_harmless(
                    trimmed(text.subrange(i, j)),
                )
        }),
{
    let text = lowercase(trimmed(assembly));
    let all = statements(text);
    lemma_statements_some(text);
    if safe_statements(all) {
        assert forall|i: int, j: int| #[trigger] is_piece(text, i, j) implies trimmed(
            text.subrange(i, j),
        ).len() == 0 || is_harmless(trimmed(text.subrange(i, j))) by {
            let k = lemma_piece_is_statement(text, i, j);
            assert(safe_statement(trimmed(all[k])));
            lemma_harmless(trimmed(all[k]));
        }
    }
    if forall|i: int, j: int| #[trigger]
        is_piece(text, i, j) ==> trimmed(text.subrange(i, j)).len() == 0 || is_harmless(
            trimmed(text.subrange(i, j)),
        ) {
        assert forall|k: int| 0 <= k < all.len() implies safe_statement(
            trimmed(#[trigger] all[k]),
        ) by {
            let (i, j) = if k == all.len() - 1 {
                (lemma_last_piece(text), text.len() as int)
            } else {
                lemma_statement_is_piece(text, k)
            };
            assert(is_piece(text, i, j));
            assert(all[k] == text.subrange(i, j));
            lemma_harmless(trimmed(all[k]));
        }
    }
}

} // verus!
