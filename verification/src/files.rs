//! Which files are trusted as inputs and accepted as outputs.
use crate::text::{
    chars_of, is_white_space, lines, split_lines, starts_with, texts, white_space,
};
use vstd::prelude::*;

verus! {

/// What is known of a file without following links.
#[derive(Copy, Clone, Debug)]
pub struct FileFacts {
    /// It is a regular file.
    pub regular: bool,
    /// The user that owns it.
    pub uid: u32,
    /// Its mode bits.
    pub mode: u32,
}

/// Why a file is refused.
#[derive(Copy, Clone, Debug, PartialEq, Eq, Structural)]
pub enum FileFault {
    NotRegular,
    ForeignOwner,
    Writable,
}

/// The mode lets the group or others write.
pub open spec fn writable_by_others(mode: u32) -> bool {
    mode & 0o020 != 0 || mode & 0o002 != 0
}

/// The first fault of a file for the effective user `euid`.
pub open spec fn fault_of(facts: FileFacts, euid: u32) -> Option<FileFault> {
    if !facts.regular {
        Some(FileFault::NotRegular)
    } else if facts.uid != euid {
        Some(FileFault::ForeignOwner)
    } else if writable_by_others(facts.mode) {
        Some(FileFault::Writable)
    } else {
        None
    }
}

/// The first fault of a file for the effective user `euid`.
pub fn file_fault(facts: FileFacts, euid: u32) -> (r: Option<FileFault>)
    ensures
        r == fault_of(facts, euid),
{
    let mode: u32 = facts.mode;
    assert(mode & 0o022 != 0 <==> (mode & 0o020 != 0 || mode & 0o002 != 0)) by (bit_vector);
    if !facts.regular {
        Some(FileFault::NotRegular)
    } else if facts.uid != euid {
        Some(FileFault::ForeignOwner)
    } else if mode & 0o022 != 0 {
        Some(FileFault::Writable)
    } else {
        None
    }
}

/// The fault of an input file in words.
pub open spec fn input_message(fault: FileFault, label: Seq<char>) -> Seq<char> {
    match fault {
        FileFault::NotRegular => label + " must be a regular file"@,
        FileFault::ForeignOwner => label + " must be owned by current effective user"@,
        FileFault::Writable => label + " must not be group/world writable"@,
    }
}

/// Refuses an input file, called `label`, that is not a regular file of the
/// effective user that nobody else can write to.
pub fn ensure_secure_owned_file(label: &str, facts: FileFacts, euid: u32) -> (r: Result<
    (),
    String,
>)
    ensures
        match (r, fault_of(facts, euid)) {
            (Ok(_), None) => true,
            (Err(message), Some(fault)) => message@ == input_message(fault, label@),
            _ => false,
        },
{
    match file_fault(facts, euid) {
        None => Ok(()),
        Some(fault) => {
            let mut message: String = label.to_owned();
            match fault {
                FileFault::NotRegular => message.append(" must be a regular file"),
                FileFault::ForeignOwner => message.append(
                    " must be owned by current effective user",
                ),
                FileFault::Writable => message.append(" must not be group/world writable"),
            }
            Err(message)
        },
    }
}

/// The fault of an output file in words.
pub open spec fn output_message(fault: FileFault) -> Seq<char> {
    match fault {
        FileFault::NotRegular => "output path must be a regular file"@,
        FileFault::ForeignOwner => "output file must be owned by current effective user"@,
        FileFault::Writable => "output file must not be group/world writable"@,
    }
}

/// Refuses to write over a file that is not a regular file of the effective user
/// that nobody else can write to. A file that is not there is no obstacle.
pub fn check_output_file(existing: Option<FileFacts>, euid: u32) -> (r: Result<(), &'static str>)
    ensures
        match (
            r,
            match existing {
                Some(facts) => fault_of(facts, euid),
                None => None,
            },
        ) {
            (Ok(_), None) => true,
            (Err(message), Some(fault)) => message@ == output_message(fault),
            _ => false,
        },
{
    match existing {
        None => Ok(()),
        Some(facts) => match file_fault(facts, euid) {
            None => Ok(()),
            Some(FileFault::NotRegular) => Err("output path must be a regular file"),
            Some(FileFault::ForeignOwner) => Err(
                "output file must be owned by current effective user",
            ),
            Some(FileFault::Writable) => Err("output file must not be group/world writable"),
        },
    }
}

/// The permission bits of an output file: its owner alone may read and write it.
pub fn output_mode() -> (mode: u32)
    ensures
        mode == 0o600,
        !writable_by_others(mode),
{
    assert(0o600u32 & 0o020 == 0 && 0o600u32 & 0o002 == 0) by (bit_vector);
    0o600
}

// ---- the effective user ----

/// The words of `s`, separated by white space.
pub open spec fn words(s: Seq<char>) -> Seq<Seq<char>>
    decreases s.len(),
{
    if s.len() == 0 {
        Seq::empty()
    } else if white_space(s.last()) {
        words(s.drop_last())
    } else if s.len() == 1 || white_space(s[s.len() - 2]) {
        words(s.drop_last()).push(seq![s.last()])
    } else {
        let before = words(s.drop_last());
        before.drop_last().push(before.last().push(s.last()))
    }
}

/// The words of `s`, separated by white space.
pub fn split_words(s: &str) -> (r: Vec<String>)
    ensures
        texts(r@) == words(s@),
{
    let chars: Vec<char> = chars_of(s);
    let mut done: Vec<String> = Vec::new();
    let mut current: String = String::new();
    let mut inside: bool = false;
    let mut i: usize = 0;
    assert(texts(done@) =~= words(s@.take(0)));
    while i < chars.len()
        invariant
            i <= chars.len(),
            chars@ == s@,
            inside <==> i > 0 && !white_space(s@[i - 1]),
            !inside ==> current@.len() == 0 && texts(done@) == words(s@.take(i as int)),
            inside ==> texts(done@).push(current@) == words(s@.take(i as int)),
        decreases chars.len() - i,
    {
        let c: char = chars[i];
        proof {
            assert(s@.take(i + 1).drop_last() =~= s@.take(i as int));
            assert(inside ==> words(s@.take(i as int)).drop_last() =~= texts(done@));
        }
        if is_white_space(c) {
            if inside {
                let ghost before = texts(done@);
                done.push(current);
                assert(texts(done@) =~= before.push(words(s@.take(i as int)).last()));
                current = String::new();
                inside = false;
            }
        } else {
            let ghost t = s@.take(i + 1);
            let ghost before = words(s@.take(i as int));
            assert(t.last() == c);
            assert(i > 0 ==> t[t.len() - 2] == s@[i - 1]);
            assert(inside ==> words(t) == before.drop_last().push(before.last().push(c)));
            assert(!inside ==> words(t) == before.push(seq![c]));
            current.push(c);
            assert(!inside ==> current@ =~= seq![c]);
            inside = true;
            assert(texts(done@).push(current@) =~= words(t));
        }
        i = i + 1;
    }
    assert(s@.take(i as int) =~= s@);
    if inside {
        let ghost before = texts(done@);
        done.push(current);
        assert(texts(done@) =~= words(s@));
    }
    done
}

/// The number that a text of decimal digits stands for, where it is one.
pub open spec fn digits_value(s: Seq<char>) -> Option<nat>
    decreases s.len(),
{
    if s.len() == 0 {
        None
    } else if !('0' <= s.last() <= '9') {
        None
    } else if s.len() == 1 {
        Some((s.last() as int - 48) as nat)
    } else {
        match digits_value(s.drop_last()) {
            Some(n) => Some((n * 10 + (s.last() as int - 48)) as nat),
            None => None,
        }
    }
}

/// The 32-bit number that a text stands for: decimal digits with an optional
/// plus sign, in range.
pub open spec fn number_of(s: Seq<char>) -> Option<u32> {
    let digits = if s.len() > 0 && s[0] == '+' {
        s.skip(1)
    } else {
        s
    };
    match digits_value(digits) {
        Some(n) => if n <= u32::MAX {
            Some(n as u32)
        } else {
            None
        },
        None => None,
    }
}

proof fn lemma_digits_grow(s: Seq<char>, k: int)
    requires
        0 < k <= s.len(),
        digits_value(s) is Some,
    ensures
        digits_value(s.take(k)) is Some,
        digits_value(s.take(k))->0 <= digits_value(s)->0,
    decreases s.len(),
{
    if k == s.len() {
        assert(s.take(k) =~= s);
    } else {
        assert(s.drop_last().take(k) =~= s.take(k));
        lemma_digits_grow(s.drop_last(), k);
    }
}

/// The 32-bit number that a text stands for.
pub fn parse_number(s: &str) -> (r: Option<u32>)
    ensures
        r == number_of(s@),
{
    let chars: Vec<char> = chars_of(s);
    let n: usize = chars.len();
    let start: usize = if n > 0 && chars[0] == '+' {
        1
    } else {
        0
    };
    let ghost digits = s@.skip(start as int);
    assert(start == 0 ==> digits =~= s@);
    if start == n {
        return None;
    }
    let mut value: u32 = 0;
    let mut i: usize = start;
    while i < n
        invariant
            start <= i <= n,
            start < n,
            n == chars.len(),
            chars@ == s@,
            digits == s@.skip(start as int),
            number_of(s@) == (match digits_value(digits) {
                Some(v) => if v <= u32::MAX {
                    Some(v as u32)
                } else {
                    None
                },
                None => None::<u32>,
            }),
            i == start ==> value == 0,
            i > start ==> digits_value(digits.take(i - start)) == Some(value as nat),
        decreases n - i,
    {
        let c: char = chars[i];
        let ghost next = digits.take(i - start + 1);
        assert(next.last() == c);
        assert(next.drop_last() =~= digits.take(i - start));
        if !('0' <= c && c <= '9') {
            proof {
                if digits_value(digits) is Some {
                    lemma_digits_grow(digits, i - start + 1);
                }
            }
            return None;
        }
        let d: u32 = c as u32 - 48;
        match value.checked_mul(10) {
            None => {
                proof {
                    if digits_value(digits) is Some {
                        lemma_digits_grow(digits, i - start + 1);
                    }
                }
                return None;
            },
            Some(scaled) => match scaled.checked_add(d) {
                None => {
                    proof {
                        if digits_value(digits) is Some {
                            lemma_digits_grow(digits, i - start + 1);
                        }
                    }
                    return None;
                },
                Some(sum) => {
                    value = sum;
                },
            },
        }
        i = i + 1;
    }
    assert(digits.take(i - start) =~= digits);
    Some(value)
}

/// The effective user that a line of a process status gives: the second number
/// behind `Uid:`.
pub open spec fn uid_of_line(line: Seq<char>) -> Option<u32> {
    let parts = words(line.skip(4));
    if "Uid:"@.is_prefix_of(line) && parts.len() > 1 {
        number_of(parts[1])
    } else {
        None
    }
}

/// The effective user of the first of the lines that gives one, or 0.
pub open spec fn uid_of_lines(all: Seq<Seq<char>>) -> u32
    decreases all.len(),
{
    if all.len() == 0 {
        0
    } else {
        match uid_of_line(all.first()) {
            Some(uid) => uid,
            None => uid_of_lines(all.drop_first()),
        }
    }
}

/// The effective user that a line of a process status gives.
fn line_uid(line: &str) -> (r: Option<u32>)
    ensures
        r == uid_of_line(line@),
{
    if !starts_with(line, "Uid:") {
        return None;
    }
    proof {
        reveal_strlit("Uid:");
    }
    let n: usize = chars_of(line).len();
    let rest: &str = line.substring_char(4, n);
    assert(rest@ =~= line@.skip(4));
    let parts: Vec<String> = split_words(rest);
    assert(parts@.len() == texts(parts@).len());
    if parts.len() > 1 {
        parse_number(parts[1].as_str())
    } else {
        None
    }
}

/// The effective user of a process by the text of its status file. It is 0 where
/// the text gives none.
pub fn nix_like_euid(status: &str) -> (r: u32)
    ensures
        r == uid_of_lines(lines(status@)),
{
    let all: Vec<String> = split_lines(status);
    let ghost view = texts(all@);
    let mut i: usize = 0;
    assert(view.skip(0) =~= view);
    while i < all.len()
        invariant
            i <= all.len(),
            view == texts(all@),
            view == lines(status@),
            uid_of_lines(view) == uid_of_lines(view.skip(i as int)),
        decreases all.len() - i,
    {
        assert(view.skip(i as int).first() == all[i as int]@);
        assert(view.skip(i as int).drop_first() =~= view.skip(i + 1));
        if let Some(uid) = line_uid(all[i].as_str()) {
            return uid;
        }
        i = i + 1;
    }
    0
}

// ---- laws ----

/// A file is trusted if and only if it is a regular file of the effective user whose
/// mode has neither the group's nor the others' write bit: those of worth 16 and 2.
/// What is wrong first is what is named.
pub proof fn law_trusted_file(facts: FileFacts, euid: u32)
    ensures
        ({
            let group = (facts.mode / 16) % 2 == 1;
            let others = (facts.mode / 2) % 2 == 1;
            &&& fault_of(facts, euid) == Some(FileFault::NotRegular) <==> !facts.regular
            &&& fault_of(facts, euid) == Some(FileFault::ForeignOwner) <==> facts.regular
                && facts.uid != euid
            &&& fault_of(facts, euid) == Some(FileFault::Writable) <==> facts.regular && facts.uid
                == euid && (group || others)
            &&& fault_of(facts, euid) is None <==> facts.regular && facts.uid == euid && !group
                && !others
        }),
{
    let mode = facts.mode;
    assert(mode & 0o020 != 0 <==> (mode / 16) % 2 == 1) by (bit_vector);
    assert(mode & 0o002 != 0 <==> (mode / 2) % 2 == 1) by (bit_vector);
}

/// The fault of a file is told in words that name the file.
pub proof fn law_fault_names_the_file(fault: FileFault, label: Seq<char>)
    ensures
        label.is_prefix_of(input_message(fault, label)),
        input_message(fault, label).skip(label.len() as int) == (match fault {
            FileFault::NotRegular => " must be a regular file"@,
            FileFault::ForeignOwner => " must be owned by current effective user"@,
            FileFault::Writable => " must not be group/world writable"@,
        }),
{
    let rest = match fault {
        FileFault::NotRegular => " must be a regular file"@,
        FileFault::ForeignOwner => " must be owned by current effective user"@,
        FileFault::Writable => " must not be group/world writable"@,
    };
    assert((label + rest).skip(label.len() as int) =~= rest);
    assert((label + rest).take(label.len() as int) =~= label);
}

} // verus!
