use vstd::prelude::*;
use vstd::string::StringExecFns;

verus! {

/// Relies on `String::push`: the character is added at the end of the string.
pub assume_specification[ String::push ](s: &mut String, ch: char)
    ensures
        final(s)@ == old(s)@.push(ch),
;

/// Where the machine-parseable payload goes: `KEY=VALUE` lines or one JSON line.
#[derive(PartialEq, Eq, Structural, Clone, Copy, Debug)]
pub enum OutputMode {
    Text,
    Json,
}

/// Lowercase hexadecimal digit of a value below 16.
pub open spec fn hex_digit(n: nat) -> char {
    if n < 10 {
        (48 + n) as char
    } else {
        (87 + n) as char
    }
}

/// The escaped form of one character inside a JSON string.
pub open spec fn escape_char(c: char) -> Seq<char> {
    if c == '"' {
        seq!['\\', '"']
    } else if c == '\\' {
        seq!['\\', '\\']
    } else if c == '\n' {
        seq!['\\', 'n']
    } else if c == '\r' {
        seq!['\\', 'r']
    } else if c == '\t' {
        seq!['\\', 't']
    } else if (c as u32) < 0x20 {
        seq!['\\', 'u', '0', '0', hex_digit((c as u32 / 16) as nat), hex_digit((c as u32 % 16) as nat)]
    } else {
        seq![c]
    }
}

/// The body of a JSON string for `s`: each character escaped in turn.
pub open spec fn json_escape(s: Seq<char>) -> Seq<char>
    decreases s.len(),
{
    if s.len() == 0 {
        Seq::empty()
    } else {
        json_escape(s.drop_last()) + escape_char(s.last())
    }
}

/// A complete JSON string literal for `s`.
pub open spec fn json_quote(s: Seq<char>) -> Seq<char> {
    seq!['"'] + json_escape(s) + seq!['"']
}

pub open spec fn bool_text(v: bool) -> Seq<char> {
    if v {
        seq!['t', 'r', 'u', 'e']
    } else {
        seq!['f', 'a', 'l', 's', 'e']
    }
}

/// Decimal digits of a natural number, most significant first, without leading zeros.
pub open spec fn nat_digits(n: nat) -> Seq<char>
    decreases n,
{
    if n < 10 {
        seq![(48 + n) as char]
    } else {
        nat_digits(n / 10).push((48 + n % 10) as char)
    }
}

/// Decimal text of an integer, with a leading `-` when it is negative.
pub open spec fn int_text(v: int) -> Seq<char> {
    if v < 0 {
        seq!['-'] + nat_digits((-v) as nat)
    } else {
        nat_digits(v as nat)
    }
}

/// The items joined by single `sep` characters, in the order given.
pub open spec fn join_with(items: Seq<Seq<char>>, sep: char) -> Seq<char>
    decreases items.len(),
{
    if items.len() == 0 {
        Seq::empty()
    } else if items.len() == 1 {
        items[0]
    } else {
        join_with(items.drop_last(), sep) + seq![sep] + items.last()
    }
}

/// One `key=value` line of the text protocol.
pub open spec fn kv_line(field: (Seq<char>, Seq<char>)) -> Seq<char> {
    field.0 + seq!['='] + field.1 + seq!['\n']
}

/// The `key=value` lines of the given pairs, in the order given.
pub open spec fn kv_lines(fields: Seq<(Seq<char>, Seq<char>)>) -> Seq<char>
    decreases fields.len(),
{
    if fields.len() == 0 {
        Seq::empty()
    } else {
        kv_lines(fields.drop_last()) + kv_line(fields.last())
    }
}

/// A JSON array whose elements are the given encoded values, in order.
pub open spec fn json_array(items: Seq<Seq<char>>) -> Seq<char> {
    seq!['['] + join_with(items, ',') + seq![']']
}

/// One `"key":value` member of a JSON object.
pub open spec fn json_member(field: (Seq<char>, Seq<char>)) -> Seq<char> {
    json_quote(field.0) + seq![':'] + field.1
}

/// A JSON object with the given members, in the order given.
pub open spec fn json_object(fields: Seq<(Seq<char>, Seq<char>)>) -> Seq<char> {
    seq!['{'] + join_with(fields.map_values(|f: (Seq<char>, Seq<char>)| json_member(f)), ',') + seq!['}']
}

/// The views of a slice of strings.
pub open spec fn texts(items: Seq<String>) -> Seq<Seq<char>> {
    items.map_values(|s: String| s@)
}

/// The views of a slice of (key, encoded value) pairs.
pub open spec fn field_texts(fields: Seq<(&str, String)>) -> Seq<(Seq<char>, Seq<char>)> {
    fields.map_values(|f: (&str, String)| (f.0@, f.1@))
}

fn hex_nibble(n: u8) -> (r: char)
    requires
        n < 16,
    ensures
        r == hex_digit(n as nat),
{
    if n < 10 {
        (48u8 + n) as char
    } else {
        (87u8 + n) as char
    }
}

/// Escapes `s` for use between the quotes of a JSON string.
pub fn json_escape_str(s: &str) -> (r: String)
    ensures
        r@ == json_escape(s@),
{
    let mut out = String::new();
    for ch in it: s.chars()
        invariant
            it.seq() == s@,
            out@ == json_escape(s@.take(it.index() as int)),
    {
        let ghost i = it.index() as int;
        proof {
            assert(s@.take(i + 1).drop_last() == s@.take(i));
        }
        if ch == '"' {
            out.append("\\\"");
        } else if ch == '\\' {
            out.append("\\\\");
        } else if ch == '\n' {
            out.append("\\n");
        } else if ch == '\r' {
            out.append("\\r");
        } else if ch == '\t' {
            out.append("\\t");
        } else if (ch as u32) < 0x20 {
            let b: u8 = ch as u32 as u8;
            out.append("\\u00");
            out.push(hex_nibble(b / 16));
            out.push(hex_nibble(b % 16));
        } else {
            out.push(ch);
        }
        proof {
            reveal_strlit("\\\"");
            reveal_strlit("\\\\");
            reveal_strlit("\\n");
            reveal_strlit("\\r");
            reveal_strlit("\\t");
            reveal_strlit("\\u00");
        }
        assert(out@ == json_escape(s@.take(i)) + escape_char(ch));
    }
    assert(s@.take(s@.len() as int) == s@);
    out
}

/// A JSON string literal for `s`, quotes included.
pub fn json_str(s: &str) -> (r: String)
    ensures
        r@ == json_quote(s@),
{
    let mut out = String::new();
    out.push('"');
    let body = json_escape_str(s);
    out.append(body.as_str());
    out.push('"');
    out
}

/// The JSON text of a boolean.
pub fn json_bool(v: bool) -> (r: &'static str)
    ensures
        r@ == bool_text(v),
{
    proof {
        reveal_strlit("true");
        reveal_strlit("false");
    }
    if v {
        "true"
    } else {
        "false"
    }
}

fn push_digits(out: &mut String, n: u32)
    ensures
        final(out)@ == old(out)@ + nat_digits(n as nat),
    decreases n,
{
    if n >= 10 {
        push_digits(out, n / 10);
    }
    let d: u32 = n % 10;
    out.push(((48 + d) as u8) as char);
}

/// The JSON (decimal) text of a 32-bit integer.
pub fn json_num_i32(v: i32) -> (r: String)
    ensures
        r@ == int_text(v as int),
{
    let mut out = String::new();
    if v < 0 {
        out.push('-');
        let m: u32 = (-(v as i64)) as u32;
        push_digits(&mut out, m);
    } else {
        push_digits(&mut out, v as u32);
    }
    out
}

/// A JSON array of already-encoded values, in the order given.
pub fn json_arr(items: &[String]) -> (r: String)
    ensures
        r@ == json_array(texts(items@)),
{
    let mut out = String::new();
    out.push('[');
    let mut i: usize = 0;
    while i < items.len()
        invariant
            i <= items@.len(),
            out@ == seq!['['] + join_with(texts(items@.take(i as int)), ','),
        decreases items@.len() - i,
    {
        proof {
            assert(texts(items@.take(i + 1)).drop_last() == texts(items@.take(i as int)));
        }
        if i > 0 {
            out.push(',');
        }
        out.append(items[i].as_str());
        i = i + 1;
    }
    assert(items@.take(items@.len() as int) == items@);
    out.push(']');
    out
}

/// A JSON object of (key, already-encoded value) members, in the order given.
pub fn json_obj(fields: &[(&str, String)]) -> (r: String)
    ensures
        r@ == json_object(field_texts(fields@)),
{
    let mut out = String::new();
    out.push('{');
    let mut i: usize = 0;
    while i < fields.len()
        invariant
            i <= fields@.len(),
            out@ == seq!['{'] + join_with(field_texts(fields@.take(i as int)).map_values(
                |f: (Seq<char>, Seq<char>)| json_member(f),
            ), ','),
        decreases fields@.len() - i,
    {
        proof {
            assert(field_texts(fields@.take(i + 1)).map_values(
                |f: (Seq<char>, Seq<char>)| json_member(f),
            ).drop_last() == field_texts(fields@.take(i as int)).map_values(
                |f: (Seq<char>, Seq<char>)| json_member(f),
            ));
        }
        if i > 0 {
            out.push(',');
        }
        let key = json_str(fields[i].0);
        out.append(key.as_str());
        out.push(':');
        out.append(fields[i].1.as_str());
        i = i + 1;
    }
    assert(fields@.take(fields@.len() as int) == fields@);
    out.push('}');
    out
}

/// The `key=value` lines of the given pairs, each ended by a newline.
/// Values are written as they are: they must not need escaping.
pub fn kv_text(fields: &[(&str, String)]) -> (r: String)
    ensures
        r@ == kv_lines(field_texts(fields@)),
{
    let mut out = String::new();
    let mut i: usize = 0;
    while i < fields.len()
        invariant
            i <= fields@.len(),
            out@ == kv_lines(field_texts(fields@.take(i as int))),
        decreases fields@.len() - i,
    {
        proof {
            assert(field_texts(fields@.take(i + 1)).drop_last() == field_texts(fields@.take(i as int)));
        }
        out.append(fields[i].0);
        out.push('=');
        out.append(fields[i].1.as_str());
        out.push('\n');
        i = i + 1;
    }
    assert(fields@.take(fields@.len() as int) == fields@);
    out
}

/// The items joined by single spaces, in the order given.
pub fn join_words(items: &[String]) -> (r: String)
    ensures
        r@ == join_with(texts(items@), ' '),
{
    let mut out = String::new();
    let mut i: usize = 0;
    while i < items.len()
        invariant
            i <= items@.len(),
            out@ == join_with(texts(items@.take(i as int)), ' '),
        decreases items@.len() - i,
    {
        proof {
            assert(texts(items@.take(i + 1)).drop_last() == texts(items@.take(i as int)));
        }
        if i > 0 {
            out.push(' ');
        }
        out.append(items[i].as_str());
        i = i + 1;
    }
    assert(items@.take(items@.len() as int) == items@);
    out
}

/// Order preservation: adding a member to an object keeps the text of the
/// members before it and writes the new one last, just before the `}`.
pub proof fn lemma_object_field_order(fields: Seq<(Seq<char>, Seq<char>)>, field: (Seq<char>, Seq<char>))
    requires
        fields.len() > 0,
    ensures
        json_object(fields.push(field)) == json_object(fields).drop_last() + seq![','] + json_member(
            field,
        ) + seq!['}'],
{
    let f = |x: (Seq<char>, Seq<char>)| json_member(x);
    let members = fields.map_values(f);
    assert(fields.push(field).map_values(f) == members.push(json_member(field)));
    assert(members.push(json_member(field)).drop_last() == members);
    let body = seq!['{'] + join_with(members, ',');
    assert((body + seq!['}']).drop_last() == body);
}

/// Order preservation: adding an element to an array keeps the text of the
/// elements before it and writes the new one last, just before the `]`.
pub proof fn lemma_array_element_order(items: Seq<Seq<char>>, item: Seq<char>)
    requires
        items.len() > 0,
    ensures
        json_array(items.push(item)) == json_array(items).drop_last() + seq![','] + item + seq![']'],
{
    assert(items.push(item).drop_last() == items);
    let body = seq!['['] + join_with(items, ',');
    assert((body + seq![']']).drop_last() == body);
}

/// No newline anywhere in `s`.
pub open spec fn single_line(s: Seq<char>) -> bool {
    forall|i: int| 0 <= i < s.len() ==> s[i] != '\n'
}

proof fn lemma_concat_single_line(a: Seq<char>, b: Seq<char>)
    requires
        single_line(a),
        single_line(b),
    ensures
        single_line(a + b),
{
    assert forall|i: int| 0 <= i < (a + b).len() implies (a + b)[i] != '\n' by {
        if i >= a.len() {
            assert((a + b)[i] == b[i - a.len()]);
        }
    }
}

/// An escaped string holds no raw newline.
pub proof fn lemma_escape_single_line(s: Seq<char>)
    ensures
        single_line(json_escape(s)),
    decreases s.len(),
{
    if s.len() > 0 {
        lemma_escape_single_line(s.drop_last());
        let c = s.last();
        let t = escape_char(c);
        assert(single_line(t)) by {
            if c != '"' && c != '\\' && c != '\n' && c != '\r' && c != '\t' && (c as u32) < 0x20 {
                assert(t[4] != '\n' && t[5] != '\n');
            }
        }
        lemma_concat_single_line(json_escape(s.drop_last()), t);
    }
}

/// A JSON string literal holds no raw newline.
pub proof fn lemma_quote_single_line(s: Seq<char>)
    ensures
        single_line(json_quote(s)),
{
    lemma_escape_single_line(s);
    lemma_concat_single_line(seq!['"'], json_escape(s));
    lemma_concat_single_line(seq!['"'] + json_escape(s), seq!['"']);
}

proof fn lemma_digits_single_line(n: nat)
    ensures
        single_line(nat_digits(n)),
    decreases n,
{
    if n >= 10 {
        lemma_digits_single_line(n / 10);
        lemma_concat_single_line(nat_digits(n / 10), seq![(48 + n % 10) as char]);
        assert(nat_digits(n) == nat_digits(n / 10) + seq![(48 + n % 10) as char]);
    }
}

/// The decimal text of an integer holds no newline.
pub proof fn lemma_int_single_line(v: int)
    ensures
        single_line(int_text(v)),
{
    if v < 0 {
        lemma_digits_single_line((-v) as nat);
        lemma_concat_single_line(seq!['-'], nat_digits((-v) as nat));
    } else {
        lemma_digits_single_line(v as nat);
    }
}

pub proof fn lemma_join_single_line(items: Seq<Seq<char>>, sep: char)
    requires
        sep != '\n',
        forall|i: int| 0 <= i < items.len() ==> single_line(#[trigger] items[i]),
    ensures
        single_line(join_with(items, sep)),
    decreases items.len(),
{
    if items.len() > 1 {
        lemma_join_single_line(items.drop_last(), sep);
        lemma_concat_single_line(join_with(items.drop_last(), sep), seq![sep]);
        lemma_concat_single_line(join_with(items.drop_last(), sep) + seq![sep], items.last());
    }
}

/// A JSON array of one-line values is one line.
pub proof fn lemma_array_single_line(items: Seq<Seq<char>>)
    requires
        forall|i: int| 0 <= i < items.len() ==> single_line(#[trigger] items[i]),
    ensures
        single_line(json_array(items)),
{
    lemma_join_single_line(items, ',');
    lemma_concat_single_line(seq!['['], join_with(items, ','));
    lemma_concat_single_line(seq!['['] + join_with(items, ','), seq![']']);
}

/// A JSON object whose keys and values are one line each is one line, and opens with `{`.
pub proof fn lemma_object_single_line(fields: Seq<(Seq<char>, Seq<char>)>)
    requires
        forall|i: int| 0 <= i < fields.len() ==> single_line(#[trigger] fields[i].1),
    ensures
        single_line(json_object(fields)),
        json_object(fields)[0] == '{',
{
    let members = fields.map_values(|f: (Seq<char>, Seq<char>)| json_member(f));
    assert forall|i: int| 0 <= i < members.len() implies single_line(#[trigger] members[i]) by {
        lemma_quote_single_line(fields[i].0);
        lemma_concat_single_line(json_quote(fields[i].0), seq![':']);
        lemma_concat_single_line(json_quote(fields[i].0) + seq![':'], fields[i].1);
    }
    lemma_join_single_line(members, ',');
    lemma_concat_single_line(seq!['{'], join_with(members, ','));
    lemma_concat_single_line(seq!['{'] + join_with(members, ','), seq!['}']);
}

/// The value of a hexadecimal digit of either case.
pub open spec fn hex_value(c: char) -> Option<nat> {
    if '0' <= c <= '9' {
        Some((c as u32 - 48) as nat)
    } else if 'a' <= c <= 'f' {
        Some((c as u32 - 87) as nat)
    } else if 'A' <= c <= 'F' {
        Some((c as u32 - 55) as nat)
    } else {
        None
    }
}

/// The character that a two-character escape `\e` stands for in JSON.
pub open spec fn short_escape(e: char) -> Option<char> {
    if e == '"' {
        Some('"')
    } else if e == '\\' {
        Some('\\')
    } else if e == '/' {
        Some('/')
    } else if e == 'b' {
        Some('\x08')
    } else if e == 'f' {
        Some('\x0c')
    } else if e == 'n' {
        Some('\n')
    } else if e == 'r' {
        Some('\r')
    } else if e == 't' {
        Some('\t')
    } else {
        None
    }
}

pub open spec fn prepend(c: char, r: Option<Seq<char>>) -> Option<Seq<char>> {
    match r {
        Some(rest) => Some(seq![c] + rest),
        None => None,
    }
}

/// Standard JSON decoding of the text between a string's quotes: the escapes
/// `\" \\ \/ \b \f \n \r \t \uXXXX`, raw characters other than `"` and the
/// controls below 0x20. A `\u` escape in the surrogate range (half of a UTF-16
/// pair) is not decoded and gives `None`.
pub open spec fn json_unescape(t: Seq<char>) -> Option<Seq<char>>
    decreases t.len(),
{
    if t.len() == 0 {
        Some(Seq::empty())
    } else if t[0] == '\\' {
        if t.len() < 2 {
            None
        } else if t[1] == 'u' {
            if t.len() < 6 {
                None
            } else {
                match (hex_value(t[2]), hex_value(t[3]), hex_value(t[4]), hex_value(t[5])) {
                    (Some(a), Some(b), Some(c), Some(d)) => {
                        let v = 4096 * a + 256 * b + 16 * c + d;
                        if 0xD800 <= v <= 0xDFFF {
                            None
                        } else {
                            prepend((v as u32) as char, json_unescape(t.subrange(6, t.len() as int)))
                        }
                    },
                    _ => None,
                }
            }
        } else {
            match short_escape(t[1]) {
                Some(c) => prepend(c, json_unescape(t.subrange(2, t.len() as int))),
                None => None,
            }
        }
    } else if t[0] == '"' || (t[0] as u32) < 0x20 {
        None
    } else {
        prepend(t[0], json_unescape(t.drop_first()))
    }
}

/// Standard JSON decoding of a whole string literal, quotes included.
pub open spec fn json_decode_string(t: Seq<char>) -> Option<Seq<char>> {
    if t.len() >= 2 && t[0] == '"' && t.last() == '"' {
        json_unescape(t.subrange(1, t.len() - 1))
    } else {
        None
    }
}

proof fn lemma_escape_prepend(c: char, s: Seq<char>)
    ensures
        json_escape(seq![c] + s) == escape_char(c) + json_escape(s),
    decreases s.len(),
{
    if s.len() == 0 {
        assert(seq![c] + s == seq![c]);
        assert(seq![c].drop_last() == Seq::<char>::empty());
        assert(json_escape(seq![c]) == json_escape(Seq::<char>::empty()) + escape_char(c));
        assert(Seq::<char>::empty() + escape_char(c) =~= escape_char(c));
        assert(escape_char(c) + Seq::<char>::empty() =~= escape_char(c));
    } else {
        lemma_escape_prepend(c, s.drop_last());
        assert((seq![c] + s).drop_last() == seq![c] + s.drop_last());
        assert((seq![c] + s).last() == s.last());
        assert(escape_char(c) + json_escape(s.drop_last()) + escape_char(s.last())
            == escape_char(c) + (json_escape(s.drop_last()) + escape_char(s.last())));
    }
}

proof fn lemma_hex_round_trip(d: nat)
    requires
        d < 16,
    ensures
        hex_value(hex_digit(d)) == Some(d),
{
}

proof fn lemma_unescape_char(c: char, rest: Seq<char>)
    ensures
        json_unescape(escape_char(c) + rest) == prepend(c, json_unescape(rest)),
{
    let t = escape_char(c) + rest;
    if c == '"' || c == '\\' || c == '\n' || c == '\r' || c == '\t' {
        assert(t.subrange(2, t.len() as int) == rest);
    } else if (c as u32) < 0x20 {
        let hi = (c as u32 / 16) as nat;
        let lo = (c as u32 % 16) as nat;
        lemma_hex_round_trip(hi);
        lemma_hex_round_trip(lo);
        assert(hex_value(t[2]) == Some(0nat));
        assert(hex_value(t[3]) == Some(0nat));
        assert(t[4] == hex_digit(hi));
        assert(t[5] == hex_digit(lo));
        let v = 4096 * 0nat + 256 * 0nat + 16 * hi + lo;
        assert(v == c as u32);
        assert(((v as u32) as char) == c) by {
            vstd::utf8::char_u32_cast(c, v as u32);
        }
        assert(t.subrange(6, t.len() as int) == rest);
    } else {
        assert(t.drop_first() == rest);
    }
}

/// Escaping round trip: standard JSON decoding of the body that `json_escape`
/// writes gives back the original characters.
pub proof fn lemma_unescape_escape(s: Seq<char>)
    ensures
        json_unescape(json_escape(s)) == Some(s),
    decreases s.len(),
{
    if s.len() > 0 {
        let c = s[0];
        let rest = s.drop_first();
        assert(s == seq![c] + rest);
        lemma_escape_prepend(c, rest);
        lemma_unescape_char(c, json_escape(rest));
        lemma_unescape_escape(rest);
    }
}

/// Escaping round trip: standard JSON decoding of the literal that `json_str`
/// writes gives back the original string.
pub proof fn lemma_decode_json_str(s: Seq<char>)
    ensures
        json_decode_string(json_quote(s)) == Some(s),
{
    let t = json_quote(s);
    assert(t.subrange(1, t.len() - 1) == json_escape(s));
    lemma_unescape_escape(s);
}

} // verus!
