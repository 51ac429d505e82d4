//! A JSON document model and a verified serializer. The model carries
//! numbers as `i64` integers, which is all the endpoints of this
//! library produce or read; the serializer's output is pinned, character
//! by character, by the spec function `json_text`.

use vstd::prelude::*;
use crate::numtext::dec_int;
use crate::numtext::digit_char;
use crate::numtext::push_dec_i128;

verus! {

broadcast use vstd::std_specs::vec::group_vec_axioms;

/// A JSON value. Object fields keep their stored order; the
/// serialization writes them exactly in that order.
pub enum JsonVal {
    Null,
    Bool(bool),
    Int(i64),
    Str(String),
    Arr(Vec<JsonVal>),
    Obj(Vec<(String, JsonVal)>),
}

/// The character for a hexadecimal digit value, lower case.
pub open spec fn hex_char(d: nat) -> char {
    if d < 10 {
        digit_char(d)
    } else if d == 10 {
        'a'
    } else if d == 11 {
        'b'
    } else if d == 12 {
        'c'
    } else if d == 13 {
        'd'
    } else if d == 14 {
        'e'
    } else {
        'f'
    }
}

/// How one character appears inside a JSON string literal: quotes and
/// backslashes are escaped, the named control characters use their
/// short escapes, other control characters use `\u00XX`, and everything
/// else stands as itself.
pub open spec fn esc_char(c: char) -> Seq<char> {
    if c == '"' {
        seq!['\\', '"']
    } else if c == '\\' {
        seq!['\\', '\\']
    } else if c as int == 8 {
        seq!['\\', 'b']
    } else if c as int == 9 {
        seq!['\\', 't']
    } else if c as int == 10 {
        seq!['\\', 'n']
    } else if c as int == 12 {
        seq!['\\', 'f']
    } else if c as int == 13 {
        seq!['\\', 'r']
    } else if (c as int) < 32 {
        let hi = hex_char((c as int / 16) as nat);
        let lo = hex_char((c as int % 16) as nat);
        seq!['\\', 'u', '0', '0', hi, lo]
    } else {
        seq![c]
    }
}

/// The body of a JSON string literal: each character escaped in turn.
pub open spec fn esc_text(s: Seq<char>) -> Seq<char>
    decreases s.len(),
{
    if s.len() == 0 {
        Seq::empty()
    } else {
        esc_text(s.drop_last()) + esc_char(s.last())
    }
}

/// A quoted JSON string literal.
pub open spec fn quoted(s: Seq<char>) -> Seq<char> {
    seq!['"'] + esc_text(s) + seq!['"']
}

/// The text of a JSON value: no whitespace, object fields in stored
/// order, integers in decimal.
pub open spec fn json_text(v: JsonVal) -> Seq<char>
    decreases v, 1int,
{
    match v {
        JsonVal::Null => seq!['n', 'u', 'l', 'l'],
        JsonVal::Bool(b) => if b {
            seq!['t', 'r', 'u', 'e']
        } else {
            seq!['f', 'a', 'l', 's', 'e']
        },
        JsonVal::Int(n) => dec_int(n as int),
        JsonVal::Str(s) => quoted(s@),
        JsonVal::Arr(items) => seq!['['] + arr_text(items@, 0) + seq![']'],
        JsonVal::Obj(fields) => seq!['{'] + obj_text(fields@, 0) + seq!['}'],
    }
}

/// The comma-separated texts of the array items from position `i` on.
pub open spec fn arr_text(items: Seq<JsonVal>, i: int) -> Seq<char>
    decreases items, items.len() - i,
{
    if i < 0 || i >= items.len() {
        Seq::empty()
    } else if i + 1 < items.len() {
        json_text(items[i]) + seq![','] + arr_text(items, i + 1)
    } else {
        json_text(items[i])
    }
}

/// The comma-separated `"key":value` texts of the object fields from
/// position `i` on.
pub open spec fn obj_text(fields: Seq<(String, JsonVal)>, i: int) -> Seq<char>
    decreases fields, fields.len() - i,
{
    if i < 0 || i >= fields.len() {
        Seq::empty()
    } else if i + 1 < fields.len() {
        quoted(fields[i].0@) + seq![':'] + json_text(fields[i].1) + seq![','] + obj_text(
            fields,
            i + 1,
        )
    } else {
        quoted(fields[i].0@) + seq![':'] + json_text(fields[i].1)
    }
}

/// The character for a hexadecimal digit value, executable side.
fn hex_char_of(d: u32) -> (c: char)
    requires
        d < 16,
    ensures
        c == hex_char(d as nat),
{
    if d == 0 {
        '0'
    } else if d == 1 {
        '1'
    } else if d == 2 {
        '2'
    } else if d == 3 {
        '3'
    } else if d == 4 {
        '4'
    } else if d == 5 {
        '5'
    } else if d == 6 {
        '6'
    } else if d == 7 {
        '7'
    } else if d == 8 {
        '8'
    } else if d == 9 {
        '9'
    } else if d == 10 {
        'a'
    } else if d == 11 {
        'b'
    } else if d == 12 {
        'c'
    } else if d == 13 {
        'd'
    } else if d == 14 {
        'e'
    } else {
        'f'
    }
}

/// Appends the escaped form of one string character.
fn push_esc_char(buf: &mut Vec<char>, c: char)
    ensures
        final(buf)@ == old(buf)@ + esc_char(c),
{
    let u = c as u32;
    if c == '"' {
        buf.push('\\');
        buf.push('"');
    } else if c == '\\' {
        buf.push('\\');
        buf.push('\\');
    } else if u == 8 {
        buf.push('\\');
        buf.push('b');
    } else if u == 9 {
        buf.push('\\');
        buf.push('t');
    } else if u == 10 {
        buf.push('\\');
        buf.push('n');
    } else if u == 12 {
        buf.push('\\');
        buf.push('f');
    } else if u == 13 {
        buf.push('\\');
        buf.push('r');
    } else if u < 32 {
        buf.push('\\');
        buf.push('u');
        buf.push('0');
        buf.push('0');
        buf.push(hex_char_of(u / 16));
        buf.push(hex_char_of(u % 16));
    } else {
        buf.push(c);
    }
    assert(final(buf)@ =~= old(buf)@ + esc_char(c));
}

/// Appends the escaped body of a string literal.
fn push_esc(buf: &mut Vec<char>, s: &str)
    ensures
        final(buf)@ == old(buf)@ + esc_text(s@),
{
    let n = s.unicode_len();
    let mut i: usize = 0;
    while i < n
        invariant
            i <= n,
            n == s@.len(),
            buf@ == old(buf)@ + esc_text(s@.subrange(0, i as int)),
        decreases n - i,
    {
        let c = s.get_char(i);
        push_esc_char(buf, c);
        proof {
            assert(s@.subrange(0, i + 1 as int).drop_last() =~= s@.subrange(0, i as int));
            assert(s@.subrange(0, i + 1 as int).last() == c);
            assert(buf@ =~= old(buf)@ + esc_text(s@.subrange(0, i + 1 as int)));
        }
        i = i + 1;
    }
    proof {
        assert(s@.subrange(0, n as int) =~= s@);
    }
}

/// Appends the characters of `s` unchanged.
pub fn push_str_chars(buf: &mut Vec<char>, s: &str)
    ensures
        final(buf)@ == old(buf)@ + s@,
{
    let n = s.unicode_len();
    let mut i: usize = 0;
    while i < n
        invariant
            i <= n,
            n == s@.len(),
            buf@ == old(buf)@ + s@.subrange(0, i as int),
        decreases n - i,
    {
        let c = s.get_char(i);
        buf.push(c);
        proof {
            assert(buf@ =~= old(buf)@ + s@.subrange(0, i + 1 as int));
        }
        i = i + 1;
    }
    proof {
        assert(s@.subrange(0, n as int) =~= s@);
    }
}

/// Appends a quoted JSON string literal.
pub fn push_quoted(buf: &mut Vec<char>, s: &str)
    ensures
        final(buf)@ == old(buf)@ + quoted(s@),
{
    buf.push('"');
    push_esc(buf, s);
    buf.push('"');
    assert(final(buf)@ =~= old(buf)@ + quoted(s@));
}

/// Appends the text of a JSON value.
pub fn push_json(buf: &mut Vec<char>, v: &JsonVal)
    ensures
        final(buf)@ == old(buf)@ + json_text(*v),
    decreases *v,
{
    match v {
        JsonVal::Null => {
            buf.push('n');
            buf.push('u');
            buf.push('l');
            buf.push('l');
            assert(buf@ =~= old(buf)@ + json_text(*v));
        },
        JsonVal::Bool(b) => {
            if *b {
                buf.push('t');
                buf.push('r');
                buf.push('u');
                buf.push('e');
            } else {
                buf.push('f');
                buf.push('a');
                buf.push('l');
                buf.push('s');
                buf.push('e');
            }
            assert(buf@ =~= old(buf)@ + json_text(*v));
        },
        JsonVal::Int(n) => {
            push_dec_i128(buf, *n as i128);
        },
        JsonVal::Str(s) => {
            push_quoted(buf, s.as_str());
        },
        JsonVal::Arr(items) => {
            buf.push('[');
            let m = items.len();
            let mut i: usize = 0;
            while i < m
                invariant
                    i <= m,
                    m == items@.len(),
                    *v == JsonVal::Arr(*items),
                    buf@ + arr_text(items@, i as int) =~= old(buf)@ + seq!['['] + arr_text(
                        items@,
                        0,
                    ),
                decreases m - i,
            {
                proof {
                    assert(decreases_to!(*v => v->Arr_0));
                    assert(decreases_to!(*items => items@));
                    assert(decreases_to!(items@ => items@[i as int]));
                }
                push_json(buf, &items[i]);
                if i + 1 < m {
                    buf.push(',');
                }
                i = i + 1;
            }
            buf.push(']');
            assert(buf@ =~= old(buf)@ + json_text(*v));
        },
        JsonVal::Obj(fields) => {
            buf.push('{');
            let m = fields.len();
            let mut i: usize = 0;
            while i < m
                invariant
                    i <= m,
                    m == fields@.len(),
                    *v == JsonVal::Obj(*fields),
                    buf@ + obj_text(fields@, i as int) =~= old(buf)@ + seq!['{'] + obj_text(
                        fields@,
                        0,
                    ),
                decreases m - i,
            {
                push_quoted(buf, fields[i].0.as_str());
                buf.push(':');
                proof {
                    assert(decreases_to!(*v => v->Obj_0));
                    assert(decreases_to!(*fields => fields@));
                    assert(decreases_to!(fields@ => fields@[i as int]));
                    assert(decreases_to!(fields@[i as int] => fields@[i as int].1));
                }
                push_json(buf, &fields[i].1);
                if i + 1 < m {
                    buf.push(',');
                }
                i = i + 1;
            }
            buf.push('}');
            assert(buf@ =~= old(buf)@ + json_text(*v));
        },
    }
}

/// The text of a JSON value as a `String`.
pub fn render_json(v: &JsonVal) -> (r: String)
    ensures
        r@ == json_text(*v),
{
    let mut buf: Vec<char> = Vec::new();
    push_json(&mut buf, v);
    crate::numtext::chars_to_string(buf)
}

} // verus!
