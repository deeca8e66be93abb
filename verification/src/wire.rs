//! The wire-level encoding of operations: a JSON object with stable field
//! names. A client edit travels as
//! `{"type":"insert","position":<uint>,"data":<string>}` or
//! `{"type":"delete","position":<uint>,"length":<uint>}`; the form the
//! server broadcasts adds `"from":<user>` and `"timestamp":<instant>`.
//!
//! Everything the server emits is produced here, character for character,
//! against an exact specification. Inbound messages are decoded by the
//! unverified rim, which must accept any legal JSON spelling of the same
//! object.

use vstd::prelude::*;
use vstd::string::StrSliceExecFns;
use crate::models::Update;
use crate::ops::{OpView, Operation};

verus! {

/// The decimal digit for a value below ten.
pub open spec fn spec_digit(n: int) -> char {
    if n == 0 {
        '0'
    } else if n == 1 {
        '1'
    } else if n == 2 {
        '2'
    } else if n == 3 {
        '3'
    } else if n == 4 {
        '4'
    } else if n == 5 {
        '5'
    } else if n == 6 {
        '6'
    } else if n == 7 {
        '7'
    } else if n == 8 {
        '8'
    } else {
        '9'
    }
}

/// The usual decimal rendering of a non-negative integer, most significant
/// digit first and without leading zeroes.
pub open spec fn spec_decimal(n: nat) -> Seq<char>
    decreases n,
{
    if n < 10 {
        seq![spec_digit(n as int)]
    } else {
        spec_decimal(n / 10).push(spec_digit((n % 10) as int))
    }
}

/// The lower-case hexadecimal digit for a value below sixteen.
pub open spec fn spec_hex_digit(n: int) -> char {
    if n < 10 {
        spec_digit(n)
    } else if n == 10 {
        'a'
    } else if n == 11 {
        'b'
    } else if n == 12 {
        'c'
    } else if n == 13 {
        'd'
    } else if n == 14 {
        'e'
    } else {
        'f'
    }
}

/// How one character appears inside a JSON string literal: quote and
/// backslash are escaped, control characters take the `\u00xx` form, and
/// everything else stands for itself.
pub open spec fn spec_escape_char(c: char) -> Seq<char> {
    if c == '"' {
        seq!['\\', '"']
    } else if c == '\\' {
        seq!['\\', '\\']
    } else if (c as u32) < 0x20 {
        seq![
            '\\',
            'u',
            '0',
            '0',
            spec_hex_digit((c as u32) as int / 16),
            spec_hex_digit((c as u32) as int % 16),
        ]
    } else {
        seq![c]
    }
}

/// A text as it appears between the quotes of a JSON string literal.
pub open spec fn spec_escape(s: Seq<char>) -> Seq<char>
    decreases s.len(),
{
    if s.len() == 0 {
        Seq::<char>::empty()
    } else {
        spec_escape(s.drop_last()) + spec_escape_char(s.last())
    }
}

/// The canonical wire form of one operation, exactly as a client sends it.
pub open spec fn spec_encode_op(op: OpView) -> Seq<char> {
    match op {
        OpView::Insert { offset, data } => ("{\"type\":\"insert\",\"position\":")@ + spec_decimal(
            offset as nat,
        ) + (",\"data\":\"")@ + spec_escape(data) + ("\"}")@,
        OpView::Delete { offset, length } => ("{\"type\":\"delete\",\"position\":")@ + spec_decimal(
            offset as nat,
        ) + (",\"length\":")@ + spec_decimal(length as nat) + ("}")@,
    }
}

/// The canonical broadcast form: the operation's fields followed by the
/// originating user and the server-assigned instant, both as JSON strings.
pub open spec fn spec_encode_broadcast(op: OpView, from: Seq<char>, timestamp: Seq<char>) -> Seq<
    char,
> {
    spec_encode_op(op).drop_last() + (",\"from\":\"")@ + spec_escape(from) + (
    "\",\"timestamp\":\"")@ + spec_escape(timestamp) + ("\"}")@
}

/// Escaping a single character is that character's escape form.
proof fn lemma_escape_single(c: char)
    ensures
        spec_escape(seq![c]) == spec_escape_char(c),
{
    assert(seq![c].drop_last() =~= Seq::<char>::empty());
    assert(spec_escape(Seq::<char>::empty()) == Seq::<char>::empty());
    assert(spec_escape(seq![c]) =~= spec_escape_char(c));
}

/// Escaping splits over concatenation.
proof fn lemma_escape_concat(a: Seq<char>, b: Seq<char>)
    ensures
        spec_escape(a + b) == spec_escape(a) + spec_escape(b),
    decreases b.len(),
{
    if b.len() == 0 {
        assert(a + b =~= a);
        assert(spec_escape(a + b) =~= spec_escape(a) + spec_escape(b));
    } else {
        lemma_escape_concat(a, b.drop_last());
        assert((a + b).drop_last() =~= a + b.drop_last());
        assert((a + b).last() == b.last());
        assert(spec_escape(a + b) =~= spec_escape(a) + spec_escape(b));
    }
}

/// Appends the characters of `s` to `out`.
fn append_str(out: &mut Vec<char>, s: &str)
    ensures
        final(out)@ == old(out)@ + s@,
{
    let ghost pre = out@;
    let n: usize = s.unicode_len();
    let mut i: usize = 0;
    while i < n
        invariant
            n == s@.len(),
            i <= n,
            out@ == pre + s@.take(i as int),
        decreases n - i,
    {
        out.push(s.get_char(i));
        proof {
            assert(out@ =~= pre + s@.take(i + 1 as int));
        }
        i = i + 1;
    }
    proof {
        assert(out@ =~= pre + s@);
    }
}

/// The decimal digit character for `n < 10`.
fn digit(n: u64) -> (c: char)
    requires
        n < 10,
    ensures
        c == spec_digit(n as int),
{
    match n {
        0 => '0',
        1 => '1',
        2 => '2',
        3 => '3',
        4 => '4',
        5 => '5',
        6 => '6',
        7 => '7',
        8 => '8',
        _ => '9',
    }
}

/// The lower-case hexadecimal digit character for `n < 16`.
fn hex_digit(n: u32) -> (c: char)
    requires
        n < 16,
    ensures
        c == spec_hex_digit(n as int),
{
    match n {
        0 => '0',
        1 => '1',
        2 => '2',
        3 => '3',
        4 => '4',
        5 => '5',
        6 => '6',
        7 => '7',
        8 => '8',
        9 => '9',
        10 => 'a',
        11 => 'b',
        12 => 'c',
        13 => 'd',
        14 => 'e',
        _ => 'f',
    }
}

/// Appends the decimal rendering of `n` to `out`.
fn append_decimal(out: &mut Vec<char>, n: u64)
    ensures
        final(out)@ == old(out)@ + spec_decimal(n as nat),
    decreases n,
{
    if n >= 10 {
        append_decimal(out, n / 10);
    }
    out.push(digit(n % 10));
    proof {
        assert(out@ =~= old(out)@ + spec_decimal(n as nat));
    }
}

/// Appends `s` as it appears inside a JSON string literal.
fn append_escaped(out: &mut Vec<char>, s: &Vec<char>)
    ensures
        final(out)@ == old(out)@ + spec_escape(s@),
{
    let ghost pre = out@;
    let mut i: usize = 0;
    while i < s.len()
        invariant
            i <= s@.len(),
            out@ == pre + spec_escape(s@.take(i as int)),
        decreases s@.len() - i,
    {
        let c = s[i];
        if c == '"' {
            out.push('\\');
            out.push('"');
        } else if c == '\\' {
            out.push('\\');
            out.push('\\');
        } else if (c as u32) < 0x20 {
            out.push('\\');
            out.push('u');
            out.push('0');
            out.push('0');
            out.push(hex_digit((c as u32) / 16));
            out.push(hex_digit((c as u32) % 16));
        } else {
            out.push(c);
        }
        proof {
            let t = s@.take(i + 1 as int);
            lemma_escape_concat(s@.take(i as int), t.skip(i as int));
            assert(t =~= s@.take(i as int) + t.skip(i as int));
            assert(t.skip(i as int) =~= seq![s@[i as int]]);
            lemma_escape_single(s@[i as int]);
            assert(out@ =~= pre + spec_escape(t));
        }
        i = i + 1;
    }
    proof {
        assert(s@.take(s@.len() as int) =~= s@);
    }
}

/// The canonical wire form of one operation.
pub fn encode_op(op: &Operation) -> (r: Vec<char>)
    ensures
        r@ == spec_encode_op(op@),
{
    let mut out: Vec<char> = Vec::new();
    match op {
        Operation::Insert { offset, data } => {
            append_str(&mut out, "{\"type\":\"insert\",\"position\":");
            append_decimal(&mut out, *offset as u64);
            append_str(&mut out, ",\"data\":\"");
            append_escaped(&mut out, data);
            append_str(&mut out, "\"}");
            proof {
                assert(out@ =~= spec_encode_op(op@));
            }
        },
        Operation::Delete { offset, length } => {
            append_str(&mut out, "{\"type\":\"delete\",\"position\":");
            append_decimal(&mut out, *offset as u64);
            append_str(&mut out, ",\"length\":");
            append_decimal(&mut out, *length as u64);
            append_str(&mut out, "}");
            proof {
                assert(out@ =~= spec_encode_op(op@));
            }
        },
    }
    out
}

/// The canonical broadcast form of one finalized operation. `from` and
/// `timestamp` are the outward spellings of the update's origin and
/// instant, chosen by the caller.
pub fn encode_broadcast(update: &Update, from: &Vec<char>, timestamp: &Vec<char>) -> (r: Vec<char>)
    ensures
        r@ == spec_encode_broadcast(update@.op, from@, timestamp@),
{
    let mut out = encode_op(&update.op);
    let ghost closed = out@;
    proof {
        reveal_strlit("\"}");
        reveal_strlit("}");
        assert(spec_encode_op(update@.op).len() > 0);
    }
    let _popped = out.pop();
    append_str(&mut out, ",\"from\":\"");
    append_escaped(&mut out, from);
    append_str(&mut out, "\",\"timestamp\":\"");
    append_escaped(&mut out, timestamp);
    append_str(&mut out, "\"}");
    proof {
        assert(out@ =~= spec_encode_broadcast(update@.op, from@, timestamp@));
    }
    out
}

} // verus!
