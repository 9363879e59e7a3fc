//! Small byte encodings shared by the wire formats: decimal numbers and
//! byte concatenation.

use vstd::prelude::*;

use crate::common::Address;

verus! {

/// Calls `String::push`: appends `c` to `text`.
#[verifier::external_body]
pub(crate) fn push_char(text: &mut String, c: char)
    ensures
        final(text)@ == old(text)@.push(c),
{
    text.push(c)
}

/// The decimal digits of `n` as text, most significant first.
pub open spec fn decimal_text(n: nat) -> Seq<char>
    decreases n,
{
    if n < 10 {
        seq![digit_char(n)]
    } else {
        decimal_text(n / 10).push(digit_char(n % 10))
    }
}

/// The character of a decimal digit.
pub open spec fn digit_char(d: nat) -> char {
    if d == 0 { '0' }
    else if d == 1 { '1' }
    else if d == 2 { '2' }
    else if d == 3 { '3' }
    else if d == 4 { '4' }
    else if d == 5 { '5' }
    else if d == 6 { '6' }
    else if d == 7 { '7' }
    else if d == 8 { '8' }
    else { '9' }
}

fn digit(d: u64) -> (c: char)
    requires
        d < 10,
    ensures
        c == digit_char(d as nat),
{
    if d == 0 { '0' }
    else if d == 1 { '1' }
    else if d == 2 { '2' }
    else if d == 3 { '3' }
    else if d == 4 { '4' }
    else if d == 5 { '5' }
    else if d == 6 { '6' }
    else if d == 7 { '7' }
    else if d == 8 { '8' }
    else { '9' }
}

/// Appends the decimal digits of `n` to `text`.
pub fn push_decimal_text(text: &mut String, n: u64)
    ensures
        final(text)@ == old(text)@ + decimal_text(n as nat),
    decreases n,
{
    if n >= 10 {
        push_decimal_text(text, n / 10);
    }
    let c = digit(n % 10);
    push_char(text, c);
    assert(decimal_text(n as nat) == if n < 10 { seq![c] } else { decimal_text((n / 10) as nat).push(c) });
}

/// The usual text form of an IPv4 socket address: `a.b.c.d:port`.
pub open spec fn address_text(address: Address) -> Seq<char> {
    decimal_text(address.ip[0] as nat) + seq!['.'] + decimal_text(address.ip[1] as nat) + seq!['.']
        + decimal_text(address.ip[2] as nat) + seq!['.'] + decimal_text(address.ip[3] as nat) + seq![':']
        + decimal_text(address.port as nat)
}

impl Address {
    /// The usual text form of this address: `a.b.c.d:port`.
    pub fn to_string(&self) -> (text: String)
        ensures
            text@ == address_text(*self),
    {
        let mut text = String::new();
        push_decimal_text(&mut text, self.ip[0] as u64);
        push_char(&mut text, '.');
        push_decimal_text(&mut text, self.ip[1] as u64);
        push_char(&mut text, '.');
        push_decimal_text(&mut text, self.ip[2] as u64);
        push_char(&mut text, '.');
        push_decimal_text(&mut text, self.ip[3] as u64);
        push_char(&mut text, ':');
        push_decimal_text(&mut text, self.port as u64);
        assert(text@ =~= address_text(*self));
        text
    }
}

/// The ASCII decimal digits of `n`, most significant first.
pub open spec fn decimal(n: nat) -> Seq<u8>
    decreases n,
{
    if n < 10 {
        seq![(n + 48) as u8]
    } else {
        decimal(n / 10).push((n % 10 + 48) as u8)
    }
}

/// The ASCII decimal form of `i`, with a leading `-` when negative.
pub open spec fn signed_decimal(i: int) -> Seq<u8> {
    if i < 0 {
        seq![45u8] + decimal((-i) as nat)
    } else {
        decimal(i as nat)
    }
}

/// Appends the decimal digits of `n` to `out`.
pub fn push_decimal(out: &mut Vec<u8>, n: u64)
    ensures
        final(out)@ == old(out)@ + decimal(n as nat),
    decreases n,
{
    if n >= 10 {
        push_decimal(out, n / 10);
    }
    let digit: u8 = (n % 10) as u8 + 48;
    out.push(digit);
    assert(decimal(n as nat) == if n < 10 { seq![digit] } else { decimal((n / 10) as nat).push(digit) });
}

/// Appends the decimal form of `i`, signed, to `out`.
pub fn push_signed_decimal(out: &mut Vec<u8>, i: i64)
    ensures
        final(out)@ == old(out)@ + signed_decimal(i as int),
{
    if i < 0 {
        out.push(45u8);
        let magnitude: u64 = if i == i64::MIN {
            9223372036854775808u64
        } else {
            (-i) as u64
        };
        push_decimal(out, magnitude);
        assert(out@ =~= old(out)@ + (seq![45u8] + decimal(magnitude as nat)));
    } else {
        push_decimal(out, i as u64);
    }
}

/// Appends all of `bytes` to `out`.
pub fn push_bytes(out: &mut Vec<u8>, bytes: &[u8])
    ensures
        final(out)@ == old(out)@ + bytes@,
{
    let mut i: usize = 0;
    while i < bytes.len()
        invariant
            i <= bytes@.len(),
            out@ == old(out)@ + bytes@.subrange(0, i as int),
        decreases bytes@.len() - i,
    {
        out.push(bytes[i]);
        assert(bytes@.subrange(0, i + 1) =~= bytes@.subrange(0, i as int).push(bytes@[i as int]));
        i = i + 1;
    }
    assert(bytes@.subrange(0, bytes@.len() as int) =~= bytes@);
}

} // verus!
