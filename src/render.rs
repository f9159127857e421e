//! Textual renderings of values, as bytes: a user-facing one and a
//! diagnostic one.
//!
//! A string value renders as its own bytes, which need not be UTF-8; a
//! printer turns the result into text. A float renders as the text that the
//! host formats for it, handed in as `float_text`.
use vstd::prelude::*;
use crate::table::Tables;
use crate::value::Value;

verus! {

/// The decimal digits of `n`.
pub open spec fn digits(n: nat) -> Seq<u8>
    decreases n,
{
    if n < 10 {
        seq![(n + 48) as u8]
    } else {
        digits(n / 10).push((n % 10 + 48) as u8)
    }
}

/// `i` in decimal, with a leading `-` when negative.
pub open spec fn decimal(i: int) -> Seq<u8> {
    if i < 0 {
        seq![45u8] + digits((-i) as nat)
    } else {
        digits(i as nat)
    }
}

/// The user-facing rendering: numbers in their natural form, strings bare,
/// a table as a tag with its handle, a function as a tag.
pub open spec fn display_bytes(v: Value, float_text: Seq<u8>) -> Seq<u8> {
    match v {
        Value::Nil => seq![110u8, 105, 108],
        Value::Boolean(b) => if b {
            seq![116u8, 114, 117, 101]
        } else {
            seq![102u8, 97, 108, 115, 101]
        },
        Value::Integer(i) => decimal(i as int),
        Value::Float(_) => float_text,
        Value::Table(h) => seq![116u8, 97, 98, 108, 101, 58, 32] + decimal(h as int),
        Value::Function(_) => seq![102u8, 117, 110, 99, 116, 105, 111, 110],
        _ => v.str_bytes(),
    }
}

/// The diagnostic rendering: as [`display_bytes`], but a short string is
/// quoted with `'`, a mid string with `"`, a long string with `'''`, and a
/// table shows the sizes of its two parts as `table:<array>:<map>`.
pub open spec fn debug_bytes(v: Value, tables: Tables, float_text: Seq<u8>) -> Seq<u8> {
    match v {
        Value::ShortStr(_, _) => seq![39u8] + v.str_bytes() + seq![39u8],
        Value::MidStr(_) => seq![34u8] + v.str_bytes() + seq![34u8],
        Value::LongStr(_) => seq![39u8, 39, 39] + v.str_bytes() + seq![39u8, 39, 39],
        Value::Table(h) => seq![116u8, 97, 98, 108, 101, 58] + decimal(
            tables.tables@[h as int].array@.len() as int,
        ) + seq![58u8] + decimal(tables.tables@[h as int].map@.len() as int),
        _ => display_bytes(v, float_text),
    }
}

fn push_all(out: &mut Vec<u8>, s: &[u8])
    ensures
        final(out)@ == old(out)@ + s@,
{
    let mut i: usize = 0;
    while i < s.len()
        invariant
            i <= s@.len(),
            out@ == old(out)@ + s@.subrange(0, i as int),
        decreases s@.len() - i,
    {
        out.push(s[i]);
        assert(s@.subrange(0, i + 1) =~= s@.subrange(0, i as int).push(s@[i as int]));
        i = i + 1;
    }
    assert(s@ =~= s@.subrange(0, i as int));
}

fn push_digits(out: &mut Vec<u8>, n: u64)
    ensures
        final(out)@ == old(out)@ + digits(n as nat),
    decreases n,
{
    if n < 10 {
        out.push((n + 48) as u8);
    } else {
        push_digits(out, n / 10);
        out.push((n % 10 + 48) as u8);
    }
    assert(out@ =~= old(out)@ + digits(n as nat));
}

fn push_decimal(out: &mut Vec<u8>, i: i64)
    ensures
        final(out)@ == old(out)@ + decimal(i as int),
{
    if i < 0 {
        out.push(45u8);
        let m: u64 = if i == i64::MIN {
            0x8000_0000_0000_0000u64
        } else {
            (-i) as u64
        };
        push_digits(out, m);
    } else {
        push_digits(out, i as u64);
    }
    assert(out@ =~= old(out)@ + decimal(i as int));
}

fn push_seq(out: &mut Vec<u8>, lit: Vec<u8>)
    ensures
        final(out)@ == old(out)@ + lit@,
{
    push_all(out, lit.as_slice());
}

impl Value {
    /// The user-facing rendering; `float_text` is the host's rendering of a
    /// float's value and is used for floats only.
    pub fn display_bytes(&self, float_text: &[u8]) -> (r: Vec<u8>)
        ensures
            r@ == display_bytes(*self, float_text@),
    {
        let mut out: Vec<u8> = Vec::new();
        match self {
            Value::Nil => push_seq(&mut out, vec![110u8, 105, 108]),
            Value::Boolean(b) => if *b {
                push_seq(&mut out, vec![116u8, 114, 117, 101])
            } else {
                push_seq(&mut out, vec![102u8, 97, 108, 115, 101])
            },
            Value::Integer(i) => push_decimal(&mut out, *i),
            Value::Float(_) => push_all(&mut out, float_text),
            Value::Table(h) => {
                push_seq(&mut out, vec![116u8, 97, 98, 108, 101, 58, 32]);
                push_digits(&mut out, *h as u64);
            },
            Value::Function(_) => push_seq(&mut out, vec![102u8, 117, 110, 99, 116, 105, 111, 110]),
            _ => if let Some(b) = self.string_bytes() {
                push_all(&mut out, b);
            },
        }
        assert(out@ =~= display_bytes(*self, float_text@));
        out
    }

    /// The diagnostic rendering; a table value must name a table of
    /// `tables`.
    pub fn debug_bytes(&self, tables: &Tables, float_text: &[u8]) -> (r: Vec<u8>)
        requires
            self is Table ==> tables.holds(*self),
        ensures
            r@ == debug_bytes(*self, *tables, float_text@),
    {
        let mut out: Vec<u8> = Vec::new();
        match self {
            Value::ShortStr(_, _) => {
                out.push(39u8);
                if let Some(b) = self.string_bytes() {
                    push_all(&mut out, b);
                }
                out.push(39u8);
            },
            Value::MidStr(_) => {
                out.push(34u8);
                if let Some(b) = self.string_bytes() {
                    push_all(&mut out, b);
                }
                out.push(34u8);
            },
            Value::LongStr(_) => {
                push_seq(&mut out, vec![39u8, 39, 39]);
                if let Some(b) = self.string_bytes() {
                    push_all(&mut out, b);
                }
                push_seq(&mut out, vec![39u8, 39, 39]);
            },
            Value::Table(h) => {
                let t = &tables.tables[*h];
                push_seq(&mut out, vec![116u8, 97, 98, 108, 101, 58]);
                push_digits(&mut out, t.array.len() as u64);
                out.push(58u8);
                push_digits(&mut out, t.map.len() as u64);
            },
            _ => {
                return self.display_bytes(float_text);
            },
        }
        assert(out@ =~= debug_bytes(*self, *tables, float_text@));
        out
    }
}

} // verus!
