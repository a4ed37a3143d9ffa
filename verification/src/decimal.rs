//! Angles written out in decimal digits, for the descriptions of errors.
use vstd::prelude::*;

verus! {

/// The decimal digit for `d`.
pub open spec fn digit(d: int) -> char {
    if d == 0 {
        '0'
    } else if d == 1 {
        '1'
    } else if d == 2 {
        '2'
    } else if d == 3 {
        '3'
    } else if d == 4 {
        '4'
    } else if d == 5 {
        '5'
    } else if d == 6 {
        '6'
    } else if d == 7 {
        '7'
    } else if d == 8 {
        '8'
    } else {
        '9'
    }
}

/// `n` in decimal digits, with no zero in front.
pub open spec fn decimal(n: nat) -> Seq<char>
    decreases n,
{
    if n < 10 {
        seq![digit(n as int)]
    } else {
        decimal(n / 10).push(digit((n % 10) as int))
    }
}

/// The digits of `frac` behind a decimal point, where `unit` is the weight of the first
/// of them, a power of ten: zeros in front are written, zeros at the end are not.
pub open spec fn fraction(frac: nat, unit: nat) -> Seq<char>
    decreases unit,
{
    if frac == 0 || unit == 0 {
        Seq::empty()
    } else {
        seq![digit((frac / unit) as int)] + fraction(frac % unit, unit / 10)
    }
}

/// An angle of `units` written in degrees, as short as can be: `91`, `-118.8088034`,
/// `0.5`.
pub open spec fn degrees_text(units: int) -> Seq<char> {
    let size = if units < 0 {
        -units
    } else {
        units
    };
    let sign = if units < 0 {
        seq!['-']
    } else {
        Seq::empty()
    };
    let whole = decimal((size / 10_000_000) as nat);
    let frac = (size % 10_000_000) as nat;
    if frac == 0 {
        sign + whole
    } else {
        sign + whole + seq!['.'] + fraction(frac, 1_000_000)
    }
}

/// Whether `unit` is a power of ten of at most seven digits.
spec fn is_decimal_unit(unit: nat) -> bool {
    unit == 1 || unit == 10 || unit == 100 || unit == 1_000 || unit == 10_000 || unit
        == 100_000 || unit == 1_000_000
}

/// The text of [`digit`].
fn digit_str(d: u32) -> (s: &'static str)
    requires
        d < 10,
    ensures
        s@ == seq![digit(d as int)],
{
    proof {
        reveal_strlit("0");
        reveal_strlit("1");
        reveal_strlit("2");
        reveal_strlit("3");
        reveal_strlit("4");
        reveal_strlit("5");
        reveal_strlit("6");
        reveal_strlit("7");
        reveal_strlit("8");
        reveal_strlit("9");
    }
    let s = if d == 0 {
        "0"
    } else if d == 1 {
        "1"
    } else if d == 2 {
        "2"
    } else if d == 3 {
        "3"
    } else if d == 4 {
        "4"
    } else if d == 5 {
        "5"
    } else if d == 6 {
        "6"
    } else if d == 7 {
        "7"
    } else if d == 8 {
        "8"
    } else {
        "9"
    };
    assert(s@ =~= seq![digit(d as int)]);
    s
}

/// The text of [`decimal`].
fn decimal_string(n: u32) -> (s: String)
    ensures
        s@ == decimal(n as nat),
    decreases n,
{
    if n < 10 {
        String::from_str(digit_str(n))
    } else {
        let s = decimal_string(n / 10).concat(digit_str(n % 10));
        assert(s@ =~= decimal(n as nat));
        s
    }
}

/// The text of [`fraction`].
fn fraction_string(frac: u32, unit: u32) -> (s: String)
    requires
        is_decimal_unit(unit as nat),
        frac < 10 * unit,
    ensures
        s@ == fraction(frac as nat, unit as nat),
    decreases unit,
{
    if frac == 0 {
        String::new()
    } else if unit == 1 {
        let s = String::from_str(digit_str(frac));
        proof {
            reveal_with_fuel(fraction, 2);
            assert(s@ =~= fraction(frac as nat, 1));
        }
        s
    } else {
        assert(frac / unit < 10 && frac % unit < unit) by (nonlinear_arith)
            requires
                0 <= frac < 10 * unit,
                unit > 0,
        ;
        let rest = fraction_string(frac % unit, unit / 10);
        String::from_str(digit_str(frac / unit)).concat(rest.as_str())
    }
}

/// The text of [`degrees_text`].
pub(crate) fn degrees_string(units: i32) -> (s: String)
    ensures
        s@ == degrees_text(units as int),
{
    let size: i64 = if units < 0 {
        -(units as i64)
    } else {
        units as i64
    };
    let whole = decimal_string((size / 10_000_000) as u32);
    let frac: u32 = (size % 10_000_000) as u32;
    let mut s = if units < 0 {
        proof {
            reveal_strlit("-");
        }
        String::from_str("-")
    } else {
        String::new()
    };
    s.append(whole.as_str());
    if frac != 0 {
        proof {
            reveal_strlit(".");
        }
        s.append(".");
        s.append(fraction_string(frac, 1_000_000).as_str());
    }
    assert(s@ =~= degrees_text(units as int));
    s
}

} // verus!
