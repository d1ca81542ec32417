//! Compact JSON text of a `JsonValue`: no whitespace, members in their
//! stored order, strings escaped as serde_json escapes them (`"` and `\`,
//! the short escapes `\b \t \n \f \r`, and `\u00xx` with lower-case hex for
//! the other control characters).

use vstd::prelude::*;

use crate::json::{JsonModel, JsonNumber, JsonValue, NumberModel};
use crate::text::{char_from_ascii, chars_of, decimal, push_char, push_i64, push_str, push_u64, signed_decimal};

verus! {

/// The hexadecimal digit (lower case) for `d < 16`.
pub open spec fn hex_digit(d: nat) -> char {
    if d < 10 {
        (('0' as u32) + d) as char
    } else {
        (('a' as u32) + d - 10) as char
    }
}

/// The escaped form of one character inside a JSON string.
pub open spec fn escaped_char(c: char) -> Seq<char> {
    if c == '"' {
        seq!['\\', '"']
    } else if c == '\\' {
        seq!['\\', '\\']
    } else if c == '\u{8}' {
        seq!['\\', 'b']
    } else if c == '\t' {
        seq!['\\', 't']
    } else if c == '\n' {
        seq!['\\', 'n']
    } else if c == '\u{c}' {
        seq!['\\', 'f']
    } else if c == '\r' {
        seq!['\\', 'r']
    } else if (c as u32) < 32 {
        seq!['\\', 'u', '0', '0', hex_digit((c as u32 / 16) as nat), hex_digit((c as u32 % 16) as nat)]
    } else {
        seq![c]
    }
}

/// The escaped form of a whole string (without the quotes).
pub open spec fn escaped(s: Seq<char>) -> Seq<char>
    decreases s.len(),
{
    if s.len() == 0 {
        Seq::empty()
    } else {
        escaped(s.drop_last()) + escaped_char(s.last())
    }
}

/// A JSON string literal.
pub open spec fn quoted(s: Seq<char>) -> Seq<char> {
    seq!['"'] + escaped(s) + seq!['"']
}

/// The text of a number: integers in decimal, other numbers as stored.
pub open spec fn number_text(n: NumberModel) -> Seq<char> {
    match n {
        NumberModel::PosInt(u) => decimal(u as nat),
        NumberModel::NegInt(i) => signed_decimal(i as int),
        NumberModel::Float(t) => t,
    }
}

/// The compact JSON text of a value.
pub open spec fn json_text(m: JsonModel) -> Seq<char>
    decreases m, 2int,
{
    match m {
        JsonModel::Null => seq!['n', 'u', 'l', 'l'],
        JsonModel::Bool(b) => if b {
            seq!['t', 'r', 'u', 'e']
        } else {
            seq!['f', 'a', 'l', 's', 'e']
        },
        JsonModel::Number(n) => number_text(n),
        JsonModel::String(s) => quoted(s),
        JsonModel::Array(xs) => seq!['['] + items_text(xs) + seq![']'],
        JsonModel::Object(es) => seq!['{'] + members_text(es) + seq!['}'],
    }
}

/// Array elements separated by commas.
pub open spec fn items_text(xs: Seq<JsonModel>) -> Seq<char>
    decreases xs, 1int,
{
    if xs.len() == 0 {
        Seq::empty()
    } else {
        proof {
            assert(decreases_to!(xs => xs.subrange(0, xs.len() - 1)));
        }
        items_text(xs.drop_last()) + (if xs.len() > 1 {
            seq![',']
        } else {
            Seq::empty()
        }) + json_text(xs.last())
    }
}

/// Object members as `"key":value`, separated by commas.
pub open spec fn members_text(es: Seq<(Seq<char>, JsonModel)>) -> Seq<char>
    decreases es, 1int,
{
    if es.len() == 0 {
        Seq::empty()
    } else {
        proof {
            assert(decreases_to!(es => es.subrange(0, es.len() - 1)));
            assert(decreases_to!(es => es.last().1));
        }
        members_text(es.drop_last()) + (if es.len() > 1 {
            seq![',']
        } else {
            Seq::empty()
        }) + quoted(es.last().0) + seq![':'] + json_text(es.last().1)
    }
}

fn hex(d: u32) -> (c: char)
    requires
        d < 16,
    ensures
        c == hex_digit(d as nat),
{
    if d < 10 {
        char_from_ascii(d + 48)
    } else {
        char_from_ascii(d + 87)
    }
}

fn push_escaped_char(out: &mut String, c: char)
    ensures
        final(out)@ == old(out)@ + escaped_char(c),
{
    let ghost start = out@;
    if c == '"' {
        push_char(out, '\\');
        push_char(out, '"');
    } else if c == '\\' {
        push_char(out, '\\');
        push_char(out, '\\');
    } else if c == '\u{8}' {
        push_char(out, '\\');
        push_char(out, 'b');
    } else if c == '\t' {
        push_char(out, '\\');
        push_char(out, 't');
    } else if c == '\n' {
        push_char(out, '\\');
        push_char(out, 'n');
    } else if c == '\u{c}' {
        push_char(out, '\\');
        push_char(out, 'f');
    } else if c == '\r' {
        push_char(out, '\\');
        push_char(out, 'r');
    } else if (c as u32) < 32 {
        let u: u32 = c as u32;
        push_char(out, '\\');
        push_char(out, 'u');
        push_char(out, '0');
        push_char(out, '0');
        push_char(out, hex(u / 16));
        push_char(out, hex(u % 16));
    } else {
        push_char(out, c);
    }
    assert(out@ =~= start + escaped_char(c));
}

/// Appends the JSON string literal for `s`.
pub fn push_quoted_json(out: &mut String, s: &str)
    ensures
        final(out)@ == old(out)@ + quoted(s@),
{
    let ghost start = out@;
    let cs = chars_of(s);
    push_char(out, '"');
    let mut i: usize = 0;
    while i < cs.len()
        invariant
            i <= cs@.len(),
            cs@ == s@,
            out@ == start + seq!['"'] + escaped(cs@.take(i as int)),
        decreases cs@.len() - i,
    {
        assert(cs@.take(i + 1).drop_last() =~= cs@.take(i as int));
        push_escaped_char(out, cs[i]);
        i = i + 1;
        assert(out@ =~= start + seq!['"'] + escaped(cs@.take(i as int)));
    }
    assert(cs@.take(cs@.len() as int) =~= cs@);
    push_char(out, '"');
    assert(out@ =~= start + quoted(s@));
}

/// Appends the compact JSON text of `v`.
#[verifier::loop_isolation(false)]
pub fn write_json(out: &mut String, v: &JsonValue)
    ensures
        final(out)@ == old(out)@ + json_text(v.model()),
    decreases v,
{
    let ghost start = out@;
    match v {
        JsonValue::Null => {
            push_str(out, "null");
            proof {
                reveal_strlit("null");
            }
            assert(out@ =~= start + json_text(v.model()));
        },
        JsonValue::Bool(b) => {
            if *b {
                push_str(out, "true");
                proof {
                    reveal_strlit("true");
                }
            } else {
                push_str(out, "false");
                proof {
                    reveal_strlit("false");
                }
            }
            assert(out@ =~= start + json_text(v.model()));
        },
        JsonValue::Number(n) => {
            match n {
                JsonNumber::PosInt(u) => push_u64(out, *u),
                JsonNumber::NegInt(i) => push_i64(out, *i),
                JsonNumber::Float(t) => push_str(out, t.as_str()),
            }
        },
        JsonValue::String(s) => {
            push_quoted_json(out, s.as_str());
        },
        JsonValue::Array(xs) => {
            let ghost m = v.model()->Array_0;
            push_char(out, '[');
            let mut i: usize = 0;
            while i < xs.len()
                invariant
                    i <= xs@.len(),
                    m.len() == xs@.len(),
                    forall|k: int| 0 <= k < xs@.len() ==> #[trigger] m[k] == xs@[k].model(),
                    out@ == start + seq!['['] + items_text(m.take(i as int)),
                decreases xs@.len() - i,
            {
                assert(decreases_to!(*xs => xs[i as int]));
                assert(m.take(i + 1).drop_last() =~= m.take(i as int));
                if i > 0 {
                    push_char(out, ',');
                }
                write_json(out, &xs[i]);
                i = i + 1;
                assert(out@ =~= start + seq!['['] + items_text(m.take(i as int)));
            }
            assert(m.take(xs@.len() as int) =~= m);
            push_char(out, ']');
            assert(out@ =~= start + json_text(v.model()));
        },
        JsonValue::Object(es) => {
            let ghost m = v.model()->Object_0;
            push_char(out, '{');
            let mut i: usize = 0;
            while i < es.len()
                invariant
                    i <= es@.len(),
                    m.len() == es@.len(),
                    forall|k: int| 0 <= k < es@.len() ==> #[trigger] m[k] == (es@[k].0@, es@[k].1.model()),
                    out@ == start + seq!['{'] + members_text(m.take(i as int)),
                decreases es@.len() - i,
            {
                assert(decreases_to!(*es => es[i as int]));
                assert(m.take(i + 1).drop_last() =~= m.take(i as int));
                assert(m[i as int] == (es@[i as int].0@, es@[i as int].1.model()));
                if i > 0 {
                    push_char(out, ',');
                }
                push_quoted_json(out, es[i].0.as_str());
                push_char(out, ':');
                write_json(out, &es[i].1);
                i = i + 1;
                assert(out@ =~= start + seq!['{'] + members_text(m.take(i as int)));
            }
            assert(m.take(es@.len() as int) =~= m);
            push_char(out, '}');
            assert(out@ =~= start + json_text(v.model()));
        },
    }
}

/// The compact JSON text of `v` (as serde_json's `to_string`).
pub fn to_json_text(v: &JsonValue) -> (r: String)
    ensures
        r@ == json_text(v.model()),
{
    let mut out = String::new();
    write_json(&mut out, v);
    assert(out@ =~= json_text(v.model()));
    out
}

} // verus!
