//! The digits the serial console prints for numbers.
use vstd::prelude::*;
use crate::display::shell_buffer::{decimal, hexadecimal};

verus! {

/// The decimal digits of `value`, most significant first.
pub fn decimal_digits(value: u64) -> (r: Vec<u8>)
    ensures
        r@ == decimal(value as nat),
{
    let mut digits: Vec<u8> = Vec::new();
    let mut v = value;
    proof {
        assert(decimal(value as nat) == decimal(v as nat) + digits@);
    }
    while v >= 10
        invariant
            decimal(value as nat) == decimal(v as nat) + digits@,
        decreases v,
    {
        let d = (v % 10) as u8;
        let ghost old_digits = digits@;
        digits.insert(0, 48 + d);
        proof {
            assert(decimal(v as nat) == decimal((v / 10) as nat).push((48 + v % 10) as u8));
            assert(decimal(v as nat) + old_digits =~= decimal((v / 10) as nat) + digits@);
        }
        v = v / 10;
    }
    let ghost rest = digits@;
    digits.insert(0, 48 + v as u8);
    proof {
        assert(decimal(v as nat) == seq![(48 + v) as u8]);
        assert(decimal(v as nat) + rest =~= digits@);
    }
    digits
}

/// The lowercase hexadecimal digits of `value`, most significant first.
pub fn hex_digits(value: u64) -> (r: Vec<u8>)
    ensures
        r@ == hexadecimal(value as nat),
{
    let mut digits: Vec<u8> = Vec::new();
    let mut v = value;
    proof {
        assert(hexadecimal(value as nat) == hexadecimal(v as nat) + digits@);
    }
    while v >= 16
        invariant
            hexadecimal(value as nat) == hexadecimal(v as nat) + digits@,
        decreases v,
    {
        let d = (v % 16) as u8;
        let ghost old_digits = digits@;
        let c = if d < 10 { 48 + d } else { 87 + d };
        digits.insert(0, c);
        proof {
            assert(hexadecimal(v as nat) == hexadecimal((v / 16) as nat).push(crate::display::shell_buffer::hex_digit((v % 16) as nat)));
            assert(hexadecimal(v as nat) + old_digits =~= hexadecimal((v / 16) as nat) + digits@);
        }
        v = v / 16;
    }
    let ghost rest = digits@;
    let d = v as u8;
    let c = if d < 10 { 48 + d } else { 87 + d };
    digits.insert(0, c);
    proof {
        assert(hexadecimal(v as nat) == seq![crate::display::shell_buffer::hex_digit(v as nat)]);
        assert(hexadecimal(v as nat) + rest =~= digits@);
    }
    digits
}

} // verus!
