//! Rendering of unsigned integers as lowercase hexadecimal and decimal
//! strings, with a proof that the hexadecimal rendering is injective.
//! Hexadecimal strings identify registered sites; decimal strings appear in
//! listen addresses and thumbnail cache names.

use vstd::prelude::*;

verus! {

/// The character for one digit value below sixteen, `0`..=`9` then `a`..=`f`.
pub open spec fn digit_char(d: nat) -> char
    recommends
        d < 16,
{
    if d < 10 {
        ((48 + d) as u8) as char
    } else {
        ((87 + d) as u8) as char
    }
}

/// The numeric value of one digit character; inverse of `digit_char`.
pub open spec fn digit_val(c: char) -> nat {
    if '0' <= c && c <= '9' {
        ((c as u32) - 48) as nat
    } else if 'a' <= c && c <= 'f' {
        ((c as u32) - 87) as nat
    } else {
        16
    }
}

/// Hexadecimal digits of `n`, most significant first; empty for zero.
pub open spec fn hex_digits(n: nat) -> Seq<char>
    decreases n,
{
    if n == 0 {
        Seq::empty()
    } else {
        hex_digits(n / 16).push(digit_char(n % 16))
    }
}

/// Lowercase hexadecimal rendering of `n` without leading zeros, the way
/// `{:x}` formatting renders an unsigned integer.
pub open spec fn hex_of(n: nat) -> Seq<char> {
    if n == 0 {
        seq!['0']
    } else {
        hex_digits(n)
    }
}

/// Decimal digits of `n`, most significant first; empty for zero.
pub open spec fn dec_digits(n: nat) -> Seq<char>
    decreases n,
{
    if n == 0 {
        Seq::empty()
    } else {
        dec_digits(n / 10).push(digit_char(n % 10))
    }
}

/// Decimal rendering of `n` without leading zeros, the way `{}` formatting
/// renders an unsigned integer.
pub open spec fn dec_of(n: nat) -> Seq<char> {
    if n == 0 {
        seq!['0']
    } else {
        dec_digits(n)
    }
}

/// The number a digit string denotes in base sixteen.
pub open spec fn hex_val(s: Seq<char>) -> nat
    decreases s.len(),
{
    if s.len() == 0 {
        0
    } else {
        hex_val(s.drop_last()) * 16 + digit_val(s.last())
    }
}

fn digit_to_char(d: u8) -> (c: char)
    requires
        d < 16,
    ensures
        c == digit_char(d as nat),
{
    if d < 10 {
        (48 + d) as char
    } else {
        (87 + d) as char
    }
}

fn push_hex_digits(s: &mut String, n: u64)
    ensures
        final(s)@ == old(s)@ + hex_digits(n as nat),
    decreases n,
{
    if n == 0 {
        assert(old(s)@ + hex_digits(0) =~= old(s)@);
        return ;
    }
    push_hex_digits(s, n / 16);
    let c = digit_to_char((n % 16) as u8);
    crate::text::push_char(s, c);
    assert(old(s)@ + hex_digits(n as nat) =~= (old(s)@ + hex_digits(n as nat / 16)).push(
        digit_char(n as nat % 16),
    ));
}

fn push_dec_digits(s: &mut String, n: u64)
    ensures
        final(s)@ == old(s)@ + dec_digits(n as nat),
    decreases n,
{
    if n == 0 {
        assert(old(s)@ + dec_digits(0) =~= old(s)@);
        return ;
    }
    push_dec_digits(s, n / 10);
    let c = digit_to_char((n % 10) as u8);
    crate::text::push_char(s, c);
    assert(old(s)@ + dec_digits(n as nat) =~= (old(s)@ + dec_digits(n as nat / 10)).push(
        digit_char(n as nat % 10),
    ));
}

/// Lowercase hexadecimal rendering of `n`, as `{:x}` formatting would give.
pub fn hex_string(n: u64) -> (r: String)
    ensures
        r@ == hex_of(n as nat),
{
    let mut s = String::new();
    if n == 0 {
        crate::text::push_char(&mut s, '0');
        assert(s@ =~= hex_of(0));
    } else {
        push_hex_digits(&mut s, n);
        assert(s@ =~= hex_digits(n as nat));
    }
    s
}

/// Decimal rendering of `n`, as `{}` formatting would give.
pub fn dec_string(n: u64) -> (r: String)
    ensures
        r@ == dec_of(n as nat),
{
    let mut s = String::new();
    if n == 0 {
        crate::text::push_char(&mut s, '0');
        assert(s@ =~= dec_of(0));
    } else {
        push_dec_digits(&mut s, n);
        assert(s@ =~= dec_digits(n as nat));
    }
    s
}

/// Reading back the hexadecimal digits of `n` yields `n`.
proof fn lemma_hex_digits_val(n: nat)
    ensures
        hex_val(hex_digits(n)) == n,
    decreases n,
{
    if n == 0 {
    } else {
        lemma_hex_digits_val(n / 16);
        let s = hex_digits(n);
        assert(s.drop_last() =~= hex_digits(n / 16));
        assert(digit_val(digit_char(n % 16)) == n % 16);
    }
}

/// Reading back the hexadecimal rendering of `n` yields `n`.
pub proof fn lemma_hex_of_val(n: nat)
    ensures
        hex_val(hex_of(n)) == n,
{
    if n == 0 {
        assert(hex_of(0).drop_last() =~= Seq::<char>::empty());
        assert(hex_of(0).last() == '0');
        assert(hex_val(Seq::<char>::empty()) == 0);
        assert(digit_val('0') == 0);
    } else {
        lemma_hex_digits_val(n);
    }
}

/// Two numbers with the same hexadecimal rendering are equal: the rendering
/// is injective.
pub proof fn lemma_hex_of_injective(a: nat, b: nat)
    ensures
        hex_of(a) == hex_of(b) ==> a == b,
{
    lemma_hex_of_val(a);
    lemma_hex_of_val(b);
}

} // verus!
