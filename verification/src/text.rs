//! Decimal numerals and string building shared by the naming rules.

use vstd::prelude::*;
use vstd::string::*;

verus! {

/// The character that writes the digit `d`.
pub open spec fn digit(d: nat) -> char {
    if d == 0 {
        '0'
    } else if d == 1 {
        '1'
    } else if d == 2 {
        '2'
    } else if d == 3 {
        '3'
    } else if d == 4 {
        '4'
    } else if d == 5 {
        '5'
    } else if d == 6 {
        '6'
    } else if d == 7 {
        '7'
    } else if d == 8 {
        '8'
    } else {
        '9'
    }
}

/// The decimal numeral of `n`, without leading zeros.
pub open spec fn decimal(n: nat) -> Seq<char>
    decreases n,
{
    if n < 10 {
        seq![digit(n)]
    } else {
        decimal(n / 10).push(digit(n % 10))
    }
}

/// The one-character string of a digit.
pub fn digit_str(d: u8) -> (s: &'static str)
    requires
        d < 10,
    ensures
        s@ == seq![digit(d as nat)],
{
    proof {
        reveal_strlit("0");
        reveal_strlit("1");
        reveal_strlit("2");
        reveal_strlit("3");
        reveal_strlit("4");
        reveal_strlit("5");
        reveal_strlit("6");
        reveal_strlit("7");
        reveal_strlit("8");
        reveal_strlit("9");
    }
    let s: &'static str = if d == 0 {
        "0"
    } else if d == 1 {
        "1"
    } else if d == 2 {
        "2"
    } else if d == 3 {
        "3"
    } else if d == 4 {
        "4"
    } else if d == 5 {
        "5"
    } else if d == 6 {
        "6"
    } else if d == 7 {
        "7"
    } else if d == 8 {
        "8"
    } else {
        "9"
    };
    assert(s@ =~= seq![digit(d as nat)]);
    s
}

/// Appends the decimal numeral of `n` to `out`.
pub fn push_decimal(out: &mut String, n: u8)
    ensures
        final(out)@ == old(out)@ + decimal(n as nat),
{
    let ghost before = out@;
    if n >= 100 {
        let hundreds: u8 = n / 100;
        let tens: u8 = (n / 10) % 10;
        let ones: u8 = n % 10;
        out.append(digit_str(hundreds));
        out.append(digit_str(tens));
        out.append(digit_str(ones));
        proof {
            let m = n as nat;
            assert(decimal(m / 100) == seq![digit(hundreds as nat)]);
            assert((m / 10) / 10 == m / 100);
            assert(decimal(m / 10) == decimal(m / 100).push(digit(tens as nat)));
            assert(decimal(m) == decimal(m / 10).push(digit(ones as nat)));
            assert(out@ =~= before + decimal(m));
        }
    } else if n >= 10 {
        let tens: u8 = n / 10;
        let ones: u8 = n % 10;
        out.append(digit_str(tens));
        out.append(digit_str(ones));
        proof {
            let m = n as nat;
            assert(decimal(m / 10) == seq![digit(tens as nat)]);
            assert(decimal(m) == decimal(m / 10).push(digit(ones as nat)));
            assert(out@ =~= before + decimal(m));
        }
    } else {
        out.append(digit_str(n));
        proof {
            assert(out@ =~= before + decimal(n as nat));
        }
    }
}

/// `prefix` followed by the decimal numeral of `n`.
pub fn numbered(prefix: &str, n: u8) -> (s: String)
    ensures
        s@ == prefix@ + decimal(n as nat),
{
    let mut s = String::from_str(prefix);
    push_decimal(&mut s, n);
    s
}

} // verus!
