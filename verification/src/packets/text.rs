//! Numbers as text: decimal for counts and codes, two hexadecimal digits for a
//! byte of an address.
use vstd::prelude::*;

verus! {

/// The digit that stands for `d`, as text of one character.
pub open spec fn spec_digit(d: nat) -> Seq<char> {
    "0123456789abcdef"@.subrange(d as int, d as int + 1)
}

/// `n` in decimal, without leading zeros.
pub open spec fn spec_decimal(n: nat) -> Seq<char>
    decreases n,
{
    if n < 10 {
        spec_digit(n)
    } else {
        spec_decimal(n / 10) + spec_digit(n % 10)
    }
}

/// A byte as two hexadecimal digits, lower case.
pub open spec fn spec_hex(byte: u8) -> Seq<char> {
    spec_digit((byte / 16) as nat) + spec_digit((byte % 16) as nat)
}

/// The digit that stands for `d`.
pub fn digit(d: u8) -> (text: &'static str)
    requires
        d < 16,
    ensures
        text@ == spec_digit(d as nat),
{
    proof {
        reveal_strlit("0123456789abcdef");
    }
    let from: usize = d as usize;
    "0123456789abcdef".substring_char(from, from + 1)
}

/// Appends `n` in decimal to `text`.
pub fn push_decimal(text: &mut String, n: u8)
    ensures
        final(text)@ == old(text)@ + spec_decimal(n as nat),
{
    let ghost low = spec_digit((n % 10) as nat);
    let ghost mid = spec_digit(((n / 10) % 10) as nat);
    let ghost high = spec_digit((n / 100) as nat);
    if n >= 100 {
        text.append(digit(n / 100));
    }
    if n >= 10 {
        text.append(digit((n / 10) % 10));
    }
    text.append(digit(n % 10));
    proof {
        reveal_with_fuel(spec_decimal, 3);
        if n >= 100 {
            assert((n as nat / 10) / 10 == n as nat / 100);
            assert(spec_decimal(n as nat) == high + mid + low);
            assert(old(text)@ + high + mid + low =~= old(text)@ + (high + mid + low));
        } else if n >= 10 {
            assert((n as nat / 10) % 10 == n as nat / 10);
            assert(old(text)@ + mid + low =~= old(text)@ + (mid + low));
        }
    }

}

/// Appends a byte as two hexadecimal digits to `text`.
pub fn push_hex(text: &mut String, byte: u8)
    ensures
        final(text)@ == old(text)@ + spec_hex(byte),
{
    text.append(digit(byte / 16));
    text.append(digit(byte % 16));
    assert(old(text)@ + spec_digit((byte / 16) as nat) + spec_digit((byte % 16) as nat)
        =~= old(text)@ + spec_hex(byte));
}

} // verus!
