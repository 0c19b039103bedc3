//! Decimal rendering of non-negative integers, with the zero-padded forms
//! date formatting needs.

use vstd::prelude::*;

verus! {

/// The digit character for a value below ten.
pub open spec fn digit_char(d: int) -> char {
    if d == 0 {
        '0'
    } else if d == 1 {
        '1'
    } else if d == 2 {
        '2'
    } else if d == 3 {
        '3'
    } else if d == 4 {
        '4'
    } else if d == 5 {
        '5'
    } else if d == 6 {
        '6'
    } else if d == 7 {
        '7'
    } else if d == 8 {
        '8'
    } else {
        '9'
    }
}

/// The decimal digits of a non-negative integer, most significant first.
pub open spec fn dec_str(n: int) -> Seq<char>
    decreases n when n >= 0
{
    if n < 10 {
        seq![digit_char(n)]
    } else {
        dec_str(n / 10).push(digit_char(n % 10))
    }
}

/// Two-digit zero-padded form (wider when the value needs more digits).
pub open spec fn pad2(n: int) -> Seq<char> {
    if 0 <= n < 10 {
        seq!['0'] + dec_str(n)
    } else {
        dec_str(n)
    }
}

/// Four-digit zero-padded form (wider when the value needs more digits).
pub open spec fn pad4(n: int) -> Seq<char> {
    if 0 <= n < 10 {
        seq!['0', '0', '0'] + dec_str(n)
    } else if 10 <= n < 100 {
        seq!['0', '0'] + dec_str(n)
    } else if 100 <= n < 1000 {
        seq!['0'] + dec_str(n)
    } else {
        dec_str(n)
    }
}

/// The digit character, exact for `digit_char`.
fn digit_exec(d: usize) -> (c: char)
    requires
        d < 10,
    ensures
        c == digit_char(d as int),
{
    if d == 0 {
        '0'
    } else if d == 1 {
        '1'
    } else if d == 2 {
        '2'
    } else if d == 3 {
        '3'
    } else if d == 4 {
        '4'
    } else if d == 5 {
        '5'
    } else if d == 6 {
        '6'
    } else if d == 7 {
        '7'
    } else if d == 8 {
        '8'
    } else {
        '9'
    }
}

/// Decimal digits of `n`, exact for `dec_str`.
pub fn usize_to_chars(n: usize) -> (r: Vec<char>)
    ensures
        r@ == dec_str(n as int),
    decreases n,
{
    if n < 10 {
        let mut r: Vec<char> = Vec::new();
        r.push(digit_exec(n));
        proof {
            assert(r@ =~= dec_str(n as int));
        }
        r
    } else {
        let mut r = usize_to_chars(n / 10);
        r.push(digit_exec(n % 10));
        r
    }
}

/// Two-digit zero-padded digits, exact for `pad2`.
pub fn pad2_chars(n: usize) -> (r: Vec<char>)
    ensures
        r@ == pad2(n as int),
{
    if n < 10 {
        let mut r: Vec<char> = Vec::new();
        r.push('0');
        r.push(digit_exec(n));
        proof {
            assert(r@ =~= seq!['0'] + dec_str(n as int));
        }
        r
    } else {
        usize_to_chars(n)
    }
}

/// Four-digit zero-padded digits, exact for `pad4`.
pub fn pad4_chars(n: usize) -> (r: Vec<char>)
    ensures
        r@ == pad4(n as int),
{
    if n < 10 {
        let mut r: Vec<char> = Vec::new();
        r.push('0');
        r.push('0');
        r.push('0');
        r.push(digit_exec(n));
        proof {
            assert(r@ =~= seq!['0', '0', '0'] + dec_str(n as int));
        }
        r
    } else if n < 100 {
        let mut r: Vec<char> = Vec::new();
        r.push('0');
        r.push('0');
        let d = usize_to_chars(n);
        crate::words::push_all(&mut r, &d);
        proof {
            assert(r@ =~= seq!['0', '0'] + dec_str(n as int));
        }
        r
    } else if n < 1000 {
        let mut r: Vec<char> = Vec::new();
        r.push('0');
        let d = usize_to_chars(n);
        crate::words::push_all(&mut r, &d);
        proof {
            assert(r@ =~= seq!['0'] + dec_str(n as int));
        }
        r
    } else {
        usize_to_chars(n)
    }
}

} // verus!
