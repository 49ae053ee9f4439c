//! JSON values, how they are written and how they are read.
use crate::identity::{is_digit, lemma_decimal, number};
use crate::text::{
    decimal, decimal_of, escape, escaped, escaped_char, hex_digit, signed_decimal, texts,
};
use vstd::prelude::*;

verus! {

/// A JSON value. An object is a sequence of members with their names.
pub enum Json {
    Null,
    Bool(bool),
    Number(int),
    Text(Seq<char>),
    List(Seq<Json>),
    Object(Seq<(Seq<char>, Json)>),
}

// ---- writing ----

/// A string in quotes.
pub open spec fn quoted(s: Seq<char>) -> Seq<char> {
    "\""@ + escaped(s) + "\""@
}

/// The words for truth values.
pub open spec fn truth(b: bool) -> Seq<char> {
    if b {
        "true"@
    } else {
        "false"@
    }
}

/// A value as JSON text without white space.
pub open spec fn json_text(value: Json) -> Seq<char>
    decreases value,
{
    match value {
        Json::Null => "null"@,
        Json::Bool(b) => truth(b),
        Json::Number(n) => signed_decimal(n),
        Json::Text(s) => quoted(s),
        Json::List(items) => "["@ + items_text(items) + "]"@,
        Json::Object(members) => "{"@ + members_text(members) + "}"@,
    }
}

/// The items of a list, separated by commas.
pub open spec fn items_text(items: Seq<Json>) -> Seq<char>
    decreases items,
{
    if items.len() == 0 {
        Seq::empty()
    } else if items.len() == 1 {
        json_text(items[0])
    } else {
        json_text(items[0]) + ","@ + items_text(items.drop_first())
    }
}

/// The members of an object, separated by commas.
pub open spec fn members_text(members: Seq<(Seq<char>, Json)>) -> Seq<char>
    decreases members,
{
    if members.len() == 0 {
        Seq::empty()
    } else if members.len() == 1 {
        quoted(members[0].0) + ":"@ + json_text(members[0].1)
    } else {
        quoted(members[0].0) + ":"@ + json_text(members[0].1) + ","@ + members_text(
            members.drop_first(),
        )
    }
}

/// Texts as a list.
pub open spec fn text_list(items: Seq<Seq<char>>) -> Json {
    Json::List(items.map_values(|s: Seq<char>| Json::Text(s)))
}

/// A string in quotes.
pub fn quote(s: &str) -> (r: String)
    ensures
        r@ == quoted(s@),
        r@ == json_text(Json::Text(s@)),
{
    let mut r: String = "\"".to_owned();
    r.append(escape(s).as_str());
    r.append("\"");
    r
}

/// The words for truth values.
pub fn truth_word(b: bool) -> (r: &'static str)
    ensures
        r@ == truth(b),
        r@ == json_text(Json::Bool(b)),
{
    if b {
        "true"
    } else {
        "false"
    }
}

proof fn lemma_items_push(items: Seq<Json>, last: Json)
    ensures
        items_text(items.push(last)) == if items.len() == 0 {
            json_text(last)
        } else {
            items_text(items) + ","@ + json_text(last)
        },
    decreases items.len(),
{
    let all = items.push(last);
    if items.len() == 0 {
        assert(all[0] == last);
    } else {
        lemma_items_push(items.drop_first(), last);
        assert(all.drop_first() =~= items.drop_first().push(last));
        assert(all[0] == items[0]);
        if items.len() == 1 {
            assert(items.drop_first() =~= Seq::empty());
        }
        assert(items_text(all) =~= items_text(items) + ","@ + json_text(last));
    }
}

proof fn lemma_members_push(members: Seq<(Seq<char>, Json)>, last: (Seq<char>, Json))
    ensures
        members_text(members.push(last)) == if members.len() == 0 {
            quoted(last.0) + ":"@ + json_text(last.1)
        } else {
            members_text(members) + ","@ + quoted(last.0) + ":"@ + json_text(last.1)
        },
    decreases members.len(),
{
    let all = members.push(last);
    if members.len() == 0 {
        assert(all[0] == last);
    } else {
        lemma_members_push(members.drop_first(), last);
        assert(all.drop_first() =~= members.drop_first().push(last));
        assert(all[0] == members[0]);
        if members.len() == 1 {
            assert(members.drop_first() =~= Seq::empty());
        }
        assert(members_text(all) =~= members_text(members) + ","@ + quoted(last.0) + ":"@
            + json_text(last.1));
    }
}

/// A list under way.
pub(crate) struct ListWriter {
    text: String,
    empty: bool,
    items: Ghost<Seq<Json>>,
}

impl ListWriter {
    pub(crate) closed spec fn valid(self) -> bool {
        &&& self.text@ == "["@ + items_text(self.items@)
        &&& self.empty <==> self.items@.len() == 0
    }

    pub(crate) closed spec fn items(self) -> Seq<Json> {
        self.items@
    }

    pub(crate) fn new() -> (r: ListWriter)
        ensures
            r.valid(),
            r.items() == Seq::<Json>::empty(),
    {
        let r: ListWriter = ListWriter {
            text: "[".to_owned(),
            empty: true,
            items: Ghost(Seq::empty()),
        };
        assert(r.text@ =~= "["@ + items_text(r.items@));
        r
    }

    /// Adds an item, given by its text.
    pub(crate) fn put(&mut self, text: &str, value: Ghost<Json>)
        requires
            old(self).valid(),
            text@ == json_text(value@),
        ensures
            final(self).valid(),
            final(self).items() == old(self).items().push(value@),
    {
        let ghost before = self.items@;
        proof {
            lemma_items_push(before, value@);
        }
        if !self.empty {
            self.text.append(",");
        }
        self.text.append(text);
        self.empty = false;
        self.items = Ghost(before.push(value@));
        assert(self.text@ =~= "["@ + items_text(self.items@));
    }

    pub(crate) fn finish(self) -> (r: String)
        requires
            self.valid(),
        ensures
            r@ == json_text(Json::List(self.items())),
    {
        let mut r: String = self.text;
        r.append("]");
        r
    }
}

/// An object under way.
pub(crate) struct ObjectWriter {
    text: String,
    empty: bool,
    members: Ghost<Seq<(Seq<char>, Json)>>,
}

impl ObjectWriter {
    pub(crate) closed spec fn valid(self) -> bool {
        &&& self.text@ == "{"@ + members_text(self.members@)
        &&& self.empty <==> self.members@.len() == 0
    }

    pub(crate) closed spec fn members(self) -> Seq<(Seq<char>, Json)> {
        self.members@
    }

    pub(crate) fn new() -> (r: ObjectWriter)
        ensures
            r.valid(),
            r.members() == Seq::<(Seq<char>, Json)>::empty(),
    {
        let r: ObjectWriter = ObjectWriter {
            text: "{".to_owned(),
            empty: true,
            members: Ghost(Seq::empty()),
        };
        assert(r.text@ =~= "{"@ + members_text(r.members@));
        r
    }

    /// Adds a member, given by the text of its value.
    pub(crate) fn put(&mut self, name: &str, text: &str, value: Ghost<Json>)
        requires
            old(self).valid(),
            text@ == json_text(value@),
        ensures
            final(self).valid(),
            final(self).members() == old(self).members().push((name@, value@)),
    {
        let ghost before = self.members@;
        proof {
            lemma_members_push(before, (name@, value@));
        }
        if !self.empty {
            self.text.append(",");
        }
        self.text.append(quote(name).as_str());
        self.text.append(":");
        self.text.append(text);
        self.empty = false;
        self.members = Ghost(before.push((name@, value@)));
        assert(self.text@ =~= "{"@ + members_text(self.members@));
    }

    /// Adds a member with a text.
    pub(crate) fn put_text(&mut self, name: &str, value: &str)
        requires
            old(self).valid(),
        ensures
            final(self).valid(),
            final(self).members() == old(self).members().push((name@, Json::Text(value@))),
    {
        self.put(name, quote(value).as_str(), Ghost(Json::Text(value@)));
    }

    /// Adds a member with a number.
    pub(crate) fn put_number(&mut self, name: &str, value: usize)
        requires
            old(self).valid(),
        ensures
            final(self).valid(),
            final(self).members() == old(self).members().push((name@, Json::Number(value as int))),
    {
        self.put(name, decimal_of(value as u64).as_str(), Ghost(Json::Number(value as int)));
    }

    /// Adds a member with a truth value.
    pub(crate) fn put_bool(&mut self, name: &str, value: bool)
        requires
            old(self).valid(),
        ensures
            final(self).valid(),
            final(self).members() == old(self).members().push((name@, Json::Bool(value))),
    {
        self.put(name, truth_word(value), Ghost(Json::Bool(value)));
    }

    /// Adds a member with a text, or `null` where there is none.
    pub(crate) fn put_optional(&mut self, name: &str, value: &Option<String>)
        requires
            old(self).valid(),
        ensures
            final(self).valid(),
            final(self).members() == old(self).members().push((name@, optional(*value))),
    {
        match value {
            Some(text) => self.put_text(name, text.as_str()),
            None => self.put(name, "null", Ghost(Json::Null)),
        }
    }

    pub(crate) fn finish(self) -> (r: String)
        requires
            self.valid(),
        ensures
            r@ == json_text(Json::Object(self.members())),
    {
        let mut r: String = self.text;
        r.append("}");
        r
    }
}

/// A text, or `null` where there is none.
pub open spec fn optional(value: Option<String>) -> Json {
    match value {
        Some(text) => Json::Text(text@),
        None => Json::Null,
    }
}

/// Texts as a list.
pub fn write_text_list(items: &Vec<String>) -> (r: String)
    ensures
        r@ == json_text(text_list(texts(items@))),
{
    let mut list: ListWriter = ListWriter::new();
    let mut i: usize = 0;
    while i < items.len()
        invariant
            i <= items.len(),
            list.valid(),
            list.items().len() == i,
            forall|k: int| 0 <= k < i ==> #[trigger] list.items()[k] == Json::Text(items@[k]@),
        decreases items.len() - i,
    {
        let text: &str = items[i].as_str();
        list.put(quote(text).as_str(), Ghost(Json::Text(text@)));
        i = i + 1;
    }
    assert(list.items() =~= texts(items@).map_values(|s: Seq<char>| Json::Text(s)));
    list.finish()
}

// ---- reading ----

/// What a letter behind a backslash stands for.
pub open spec fn simple_escape(c: char) -> Option<char> {
    if c == '"' || c == '\\' || c == '/' {
        Some(c)
    } else if c == 'b' {
        Some('\u{8}')
    } else if c == 'f' {
        Some('\u{c}')
    } else if c == 'n' {
        Some('\n')
    } else if c == 'r' {
        Some('\r')
    } else if c == 't' {
        Some('\t')
    } else {
        None
    }
}

/// The value of a hexadecimal digit.
pub open spec fn hex_value(c: char) -> Option<int> {
    if '0' <= c <= '9' {
        Some(c as int - 48)
    } else if 'a' <= c <= 'f' {
        Some(c as int - 87)
    } else if 'A' <= c <= 'F' {
        Some(c as int - 55)
    } else {
        None
    }
}

/// The character that four hexadecimal digits stand for.
pub open spec fn code_point(a: char, b: char, c: char, d: char) -> Option<char> {
    match (hex_value(a), hex_value(b), hex_value(c), hex_value(d)) {
        (Some(w), Some(x), Some(y), Some(z)) => {
            let code = ((w * 16 + x) * 16 + y) * 16 + z;
            if 0xd800 <= code < 0xe000 {
                None
            } else {
                Some(code as char)
            }
        },
        _ => None,
    }
}

/// `c` before what was read.
pub open spec fn with_first(
    c: char,
    read: Option<(Seq<char>, Seq<char>)>,
) -> Option<(Seq<char>, Seq<char>)> {
    match read {
        Some((s, rest)) => Some((seq![c] + s, rest)),
        None => None,
    }
}

/// A string behind its opening quote: its characters and what stands behind its
/// closing quote. Control characters must be escaped.
pub open spec fn read_chars(t: Seq<char>) -> Option<(Seq<char>, Seq<char>)>
    decreases t.len(),
{
    if t.len() == 0 {
        None
    } else if t[0] == '"' {
        Some((Seq::empty(), t.skip(1)))
    } else if t[0] == '\\' {
        if t.len() > 1 && simple_escape(t[1]) is Some {
            with_first(simple_escape(t[1])->0, read_chars(t.skip(2)))
        } else if t.len() > 5 && t[1] == 'u' && code_point(t[2], t[3], t[4], t[5]) is Some {
            with_first(code_point(t[2], t[3], t[4], t[5])->0, read_chars(t.skip(6)))
        } else {
            None
        }
    } else if t[0] <= '\u{1f}' {
        None
    } else {
        with_first(t[0], read_chars(t.skip(1)))
    }
}

/// The number of digits at the start of a text.
pub open spec fn digit_run(t: Seq<char>) -> nat
    decreases t.len(),
{
    if t.len() > 0 && is_digit(t[0]) {
        1 + digit_run(t.skip(1))
    } else {
        0
    }
}

/// A whole number without leading zeros, and what stands behind it.
pub open spec fn read_number(t: Seq<char>) -> Option<(Json, Seq<char>)> {
    let negative = t.len() > 0 && t[0] == '-';
    let u = if negative {
        t.skip(1)
    } else {
        t
    };
    let n = digit_run(u) as int;
    if n == 0 || n > 1 && u[0] == '0' {
        None
    } else if n < u.len() && (u[n] == '.' || u[n] == 'e' || u[n] == 'E') {
        None
    } else {
        let value = number(u.take(n));
        Some((
            Json::Number(
                if negative {
                    -value
                } else {
                    value
                },
            ),
            u.skip(n),
        ))
    }
}

/// A JSON value at the start of a text without white space, and what stands
/// behind it.
pub open spec fn read_value(t: Seq<char>) -> Option<(Json, Seq<char>)>
    decreases t.len(), 0int,
{
    if t.len() == 0 {
        None
    } else if t[0] == '"' {
        match read_chars(t.skip(1)) {
            Some((s, rest)) => Some((Json::Text(s), rest)),
            None => None,
        }
    } else if t[0] == '[' {
        if t.len() > 1 && t[1] == ']' {
            Some((Json::List(Seq::empty()), t.skip(2)))
        } else {
            match read_items(t.skip(1)) {
                Some((items, rest)) => Some((Json::List(items), rest)),
                None => None,
            }
        }
    } else if t[0] == '{' {
        if t.len() > 1 && t[1] == '}' {
            Some((Json::Object(Seq::empty()), t.skip(2)))
        } else {
            match read_members(t.skip(1)) {
                Some((members, rest)) => Some((Json::Object(members), rest)),
                None => None,
            }
        }
    } else if "null"@.is_prefix_of(t) {
        Some((Json::Null, t.skip(4)))
    } else if "true"@.is_prefix_of(t) {
        Some((Json::Bool(true), t.skip(4)))
    } else if "false"@.is_prefix_of(t) {
        Some((Json::Bool(false), t.skip(5)))
    } else {
        read_number(t)
    }
}

/// The items of a list up to its closing bracket.
pub open spec fn read_items(t: Seq<char>) -> Option<(Seq<Json>, Seq<char>)>
    decreases t.len(), 1int,
{
    match read_value(t) {
        Some((value, rest)) => if 0 < rest.len() < t.len() && rest[0] == ']' {
            Some((seq![value], rest.skip(1)))
        } else if 0 < rest.len() < t.len() && rest[0] == ',' {
            match read_items(rest.skip(1)) {
                Some((values, end)) => Some((seq![value] + values, end)),
                None => None,
            }
        } else {
            None
        },
        None => None,
    }
}

/// The members of an object up to its closing brace.
pub open spec fn read_members(t: Seq<char>) -> Option<(Seq<(Seq<char>, Json)>, Seq<char>)>
    decreases t.len(), 1int,
{
    if t.len() == 0 || t[0] != '"' {
        None
    } else {
        match read_chars(t.skip(1)) {
            Some((name, colon)) => if 0 < colon.len() < t.len() && colon[0] == ':' {
                match read_value(colon.skip(1)) {
                    Some((value, rest)) => if 0 < rest.len() < t.len() && rest[0] == '}' {
                        Some((seq![(name, value)], rest.skip(1)))
                    } else if 0 < rest.len() < t.len() && rest[0] == ',' {
                        match read_members(rest.skip(1)) {
                            Some((members, end)) => Some((seq![(name, value)] + members, end)),
                            None => None,
                        }
                    } else {
                        None
                    },
                    None => None,
                }
            } else {
                None
            },
            None => None,
        }
    }
}

// ---- laws ----

proof fn lemma_escaped_first(s: Seq<char>)
    requires
        s.len() > 0,
    ensures
        escaped(s) == escaped_char(s[0]) + escaped(s.skip(1)),
    decreases s.len(),
{
    if s.len() == 1 {
        assert(s.drop_last() =~= Seq::empty());
        assert(s.skip(1) =~= Seq::empty());
        assert(escaped(s) =~= escaped_char(s[0]) + escaped(s.skip(1)));
    } else {
        lemma_escaped_first(s.drop_last());
        assert(s.drop_last().skip(1) =~= s.skip(1).drop_last());
        assert(escaped(s) =~= escaped_char(s[0]) + escaped(s.skip(1)));
    }
}

/// Reading one escaped character gives it back.
proof fn lemma_read_one(c: char, rest: Seq<char>)
    ensures
        read_chars(escaped_char(c) + rest) == with_first(c, read_chars(rest)),
{
    reveal_strlit("\\\\");
    reveal_strlit("\\\"");
    reveal_strlit("\\n");
    reveal_strlit("\\u00");
    let head = escaped_char(c);
    let t = head + rest;
    if c == '\\' || c == '"' || c == '\n' {
        assert(head.len() == 2);
        assert(t[0] == '\\' && t[1] == head[1]);
        assert(t.skip(2) =~= rest);
    } else if c <= '\u{1f}' {
        let (hi, lo) = (c as int / 16, c as int % 16);
        assert(head.len() == 6);
        assert(t[0] == '\\' && t[1] == 'u' && t[2] == '0' && t[3] == '0');
        assert(t[4] == hex_digit(hi) && t[5] == hex_digit(lo));
        assert(0 <= hi < 16 && 0 <= lo < 16);
        assert(hex_value(hex_digit(hi)) == Some(hi));
        assert(hex_value(hex_digit(lo)) == Some(lo));
        assert(hex_value('0') == Some(0int));
        assert(code_point(t[2], t[3], t[4], t[5]) == Some(c));
        assert(t.skip(6) =~= rest);
    } else {
        assert(t[0] == c);
        assert(t.skip(1) =~= rest);
    }
}

/// Reading an escaped text up to its closing quote gives it back.
proof fn lemma_read_chars(s: Seq<char>, rest: Seq<char>)
    ensures
        read_chars(escaped(s) + "\""@ + rest) == Some((s, rest)),
    decreases s.len(),
{
    reveal_strlit("\"");
    let end = "\""@ + rest;
    if s.len() == 0 {
        assert(escaped(s) + "\""@ + rest =~= end);
        assert(end.skip(1) =~= rest);
        assert(s =~= Seq::empty());
    } else {
        let tail = s.skip(1);
        lemma_escaped_first(s);
        lemma_read_chars(tail, rest);
        let after = escaped(tail) + "\""@ + rest;
        assert(escaped(s) + "\""@ + rest =~= escaped_char(s[0]) + after);
        lemma_read_one(s[0], after);
        assert(seq![s[0]] + tail =~= s);
    }
}

proof fn lemma_digit_run(digits: Seq<char>, rest: Seq<char>)
    requires
        forall|k: int| 0 <= k < digits.len() ==> is_digit(#[trigger] digits[k]),
        rest.len() == 0 || !is_digit(rest[0]),
    ensures
        digit_run(digits + rest) == digits.len(),
    decreases digits.len(),
{
    let t = digits + rest;
    if digits.len() > 0 {
        assert(t[0] == digits[0]);
        assert(t.skip(1) =~= digits.skip(1) + rest);
        assert forall|k: int| 0 <= k < digits.skip(1).len() implies is_digit(
            #[trigger] digits.skip(1)[k],
        ) by {
            assert(digits.skip(1)[k] == digits[k + 1]);
        }
        lemma_digit_run(digits.skip(1), rest);
    } else {
        assert(t =~= rest);
    }
}

/// What may stand behind a value: nothing, a comma, a closing bracket or brace, or
/// a newline.
pub open spec fn ends_value(rest: Seq<char>) -> bool {
    rest.len() == 0 || rest[0] == ',' || rest[0] == ']' || rest[0] == '}' || rest[0] == '\n'
}

proof fn lemma_read_number(n: int, rest: Seq<char>)
    requires
        ends_value(rest),
    ensures
        read_number(signed_decimal(n) + rest) == Some((Json::Number(n), rest)),
        signed_decimal(n).len() > 0,
        signed_decimal(n)[0] == '-' || is_digit(signed_decimal(n)[0]),
{
    let size: nat = if n < 0 {
        (-n) as nat
    } else {
        n as nat
    };
    let digits = decimal(size);
    lemma_decimal(size);
    lemma_digit_run(digits, rest);
    let t = signed_decimal(n) + rest;
    let u = digits + rest;
    if n < 0 {
        assert(t.skip(1) =~= u);
        assert(t[0] == '-');
    } else {
        assert(t =~= u);
        assert(is_digit(digits[0]));
    }
    assert(u.take(digits.len() as int) =~= digits);
    assert(u.skip(digits.len() as int) =~= rest);
    assert(u[0] == digits[0]);
    if digits.len() > 1 && digits[0] == '0' {
        assert(size == 0);
        assert(decimal(0).len() == 1);
    }
    if digits.len() < u.len() {
        assert(u[digits.len() as int] == rest[0]);
    }
}

/// The text of a value begins with a character that no list or object ends with.
proof fn lemma_first(value: Json)
    ensures
        json_text(value).len() > 0,
        json_text(value)[0] != ']',
        json_text(value)[0] != '}',
{
    reveal_strlit("null");
    reveal_strlit("true");
    reveal_strlit("false");
    reveal_strlit("\"");
    reveal_strlit("[");
    reveal_strlit("{");
    if let Json::Number(n) = value {
        lemma_read_number(n, Seq::empty());
    }
}

/// A value reads back from its text, whatever may follow a value.
pub proof fn law_json_reads_back(value: Json, rest: Seq<char>)
    requires
        ends_value(rest),
    ensures
        read_value(json_text(value) + rest) == Some((value, rest)),
    decreases value, 0int,
{
    reveal_strlit("null");
    reveal_strlit("true");
    reveal_strlit("false");
    reveal_strlit("\"");
    reveal_strlit("[");
    reveal_strlit("]");
    reveal_strlit("{");
    reveal_strlit("}");
    let text = json_text(value);
    let t = text + rest;
    lemma_first(value);
    assert(t[0] == text[0]);
    match value {
        Json::Null => {
            assert(t.skip(4) =~= rest);
            assert("null"@ =~= t.subrange(0, 4));
        },
        Json::Bool(b) => {
            if b {
                assert(t.skip(4) =~= rest);
                assert("true"@ =~= t.subrange(0, 4));
                assert(t[0] == 't' && "null"@[0] == 'n');
            } else {
                assert(t.skip(5) =~= rest);
                assert("false"@ =~= t.subrange(0, 5));
                assert(t[0] == 'f' && "null"@[0] == 'n' && "true"@[0] == 't');
            }
        },
        Json::Number(n) => {
            lemma_read_number(n, rest);
            assert("null"@[0] == 'n' && "true"@[0] == 't' && "false"@[0] == 'f');
        },
        Json::Text(s) => {
            lemma_read_chars(s, rest);
            assert(t.skip(1) =~= escaped(s) + "\""@ + rest);
        },
        Json::List(items) => {
            if items.len() == 0 {
                assert(t[1] == ']');
                assert(t.skip(2) =~= rest);
                assert(items =~= Seq::empty());
            } else {
                lemma_items_read_back(items, rest);
                assert(t.skip(1) =~= items_text(items) + "]"@ + rest);
                lemma_first(items[0]);
                assert(t[1] == json_text(items[0])[0]);
            }
        },
        Json::Object(members) => {
            if members.len() == 0 {
                assert(t[1] == '}');
                assert(t.skip(2) =~= rest);
                assert(members =~= Seq::empty());
            } else {
                lemma_members_read_back(members, rest);
                assert(t.skip(1) =~= members_text(members) + "}"@ + rest);
                assert(t[1] == '"');
            }
        },
    }
}

#[verifier::rlimit(60)]
#[verifier::spinoff_prover]
proof fn lemma_items_read_back(items: Seq<Json>, rest: Seq<char>)
    requires
        items.len() > 0,
    ensures
        read_items(items_text(items) + "]"@ + rest) == Some((items, rest)),
    decreases items, 1int,
{
    reveal_strlit("]");
    reveal_strlit(",");
    let first = items[0];
    let t = items_text(items) + "]"@ + rest;
    lemma_first(first);
    if items.len() == 1 {
        let tail = "]"@ + rest;
        assert(t =~= json_text(first) + tail);
        law_json_reads_back(first, tail);
        assert(tail.skip(1) =~= rest);
        assert(items =~= seq![first]);
    } else {
        let others = items.drop_first();
        let tail = ","@ + (items_text(others) + "]"@ + rest);
        assert(t =~= json_text(first) + tail);
        law_json_reads_back(first, tail);
        lemma_items_read_back(others, rest);
        assert(tail.skip(1) =~= items_text(others) + "]"@ + rest);
        assert(seq![first] + others =~= items);
    }
}

#[verifier::rlimit(60)]
#[verifier::spinoff_prover]
proof fn lemma_members_read_back(members: Seq<(Seq<char>, Json)>, rest: Seq<char>)
    requires
        members.len() > 0,
    ensures
        read_members(members_text(members) + "}"@ + rest) == Some((members, rest)),
    decreases members, 1int,
{
    reveal_strlit("}");
    reveal_strlit(",");
    reveal_strlit(":");
    reveal_strlit("\"");
    let (name, value) = members[0];
    let t = members_text(members) + "}"@ + rest;
    lemma_first(value);
    if members.len() == 1 {
        let tail = "}"@ + rest;
        let colon = ":"@ + (json_text(value) + tail);
        assert(t =~= quoted(name) + colon);
        assert(t.skip(1) =~= escaped(name) + "\""@ + colon);
        lemma_read_chars(name, colon);
        assert(colon.skip(1) =~= json_text(value) + tail);
        law_json_reads_back(value, tail);
        assert(tail.skip(1) =~= rest);
        assert(members =~= seq![(name, value)]);
    } else {
        let others = members.drop_first();
        let tail = ","@ + (members_text(others) + "}"@ + rest);
        let colon = ":"@ + (json_text(value) + tail);
        assert(t =~= quoted(name) + colon);
        assert(t.skip(1) =~= escaped(name) + "\""@ + colon);
        lemma_read_chars(name, colon);
        assert(colon.skip(1) =~= json_text(value) + tail);
        law_json_reads_back(value, tail);
        lemma_members_read_back(others, rest);
        assert(tail.skip(1) =~= members_text(others) + "}"@ + rest);
        assert(seq![(name, value)] + others =~= members);
    }
}

} // verus!
