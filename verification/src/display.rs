//! Decimal rendering of line and column numbers.

use vstd::prelude::*;

verus! {

/// The number of decimal digits of `n`.
pub open spec fn spec_count_digits(n: nat) -> nat
    decreases n,
{
    if n < 10 {
        1
    } else {
        1 + spec_count_digits(n / 10)
    }
}

/// A positive number has no more digits than its magnitude.
proof fn lemma_count_digits_le(n: nat)
    requires
        n >= 1,
    ensures
        spec_count_digits(n) <= n,
    decreases n,
{
    if n >= 10 {
        lemma_count_digits_le(n / 10);
        assert(n / 10 + 1 <= n) by (nonlinear_arith)
            requires n >= 10;
    }
}

/// Count the decimal digits of a number.
pub fn count_digits(n: usize) -> (r: usize)
    ensures
        r == spec_count_digits(n as nat),
{
    let mut digits: usize = 1;
    let mut rest: usize = n / 10;
    proof {
        if n >= 1 {
            lemma_count_digits_le(n as nat);
        }
    }
    while rest > 0
        invariant
            rest > 0 ==> spec_count_digits(n as nat) == digits + spec_count_digits(rest as nat),
            rest == 0 ==> digits == spec_count_digits(n as nat),
            rest > 0 ==> spec_count_digits(n as nat) <= n,
        decreases rest,
    {
        proof {
            assert(spec_count_digits(rest as nat) >= 1);
        }
        digits = digits + 1;
        rest = rest / 10;
    }
    digits
}

/// The character for one decimal digit.
pub open spec fn spec_digit(d: nat) -> char {
    if d == 0 {
        '0'
    } else if d == 1 {
        '1'
    } else if d == 2 {
        '2'
    } else if d == 3 {
        '3'
    } else if d == 4 {
        '4'
    } else if d == 5 {
        '5'
    } else if d == 6 {
        '6'
    } else if d == 7 {
        '7'
    } else if d == 8 {
        '8'
    } else {
        '9'
    }
}

/// The decimal rendering of a number, most significant digit first.
pub open spec fn spec_decimal(n: nat) -> Seq<char>
    decreases n,
{
    if n < 10 {
        seq![spec_digit(n)]
    } else {
        spec_decimal(n / 10).push(spec_digit(n % 10))
    }
}

/// A run of spaces.
pub open spec fn spec_spaces(k: nat) -> Seq<char> {
    Seq::new(k, |i: int| ' ')
}

/// The number of pad spaces in front of `n` rendered right-aligned in `w`
/// columns.
pub open spec fn spec_pad_width(n: nat, w: nat) -> nat {
    if spec_count_digits(n) <= w {
        (w - spec_count_digits(n)) as nat
    } else {
        0
    }
}

/// The decimal rendering of `n`, right-aligned in `w` columns.
pub open spec fn spec_padded(n: nat, w: nat) -> Seq<char> {
    spec_spaces(spec_pad_width(n, w)) + spec_decimal(n)
}

/// Append one decimal digit to a string.
fn append_digit(out: &mut String, d: usize)
    requires
        d < 10,
    ensures
        final(out)@ == old(out)@.push(spec_digit(d as nat)),
{
    let digit: &str = match d {
        0 => "0",
        1 => "1",
        2 => "2",
        3 => "3",
        4 => "4",
        5 => "5",
        6 => "6",
        7 => "7",
        8 => "8",
        _ => "9",
    };
    proof {
        reveal_strlit("0");
        reveal_strlit("1");
        reveal_strlit("2");
        reveal_strlit("3");
        reveal_strlit("4");
        reveal_strlit("5");
        reveal_strlit("6");
        reveal_strlit("7");
        reveal_strlit("8");
        reveal_strlit("9");
    }
    out.append(digit);
    proof {
        assert(out@ =~= old(out)@.push(spec_digit(d as nat)));
    }
}

/// Render a number in decimal.
pub fn decimal_string(n: usize) -> (r: String)
    ensures
        r@ == spec_decimal(n as nat),
    decreases n,
{
    let mut out = if n < 10 {
        String::new()
    } else {
        decimal_string(n / 10)
    };
    append_digit(&mut out, n % 10);
    proof {
        assert(out@ =~= spec_decimal(n as nat));
    }
    out
}

/// Append a run of spaces to a string.
pub fn append_spaces(out: &mut String, k: usize)
    ensures
        final(out)@ == old(out)@ + spec_spaces(k as nat),
{
    let mut i: usize = 0;
    while i < k
        invariant
            i <= k,
            out@ == old(out)@ + spec_spaces(i as nat),
        decreases k - i,
    {
        out.append(" ");
        proof {
            reveal_strlit(" ");
            assert(out@ =~= old(out)@ + spec_spaces((i + 1) as nat));
        }
        i = i + 1;
    }
}

/// Append a number right-aligned in a column width.
pub fn append_padded_number(out: &mut String, n: usize, width: usize)
    ensures
        final(out)@ == old(out)@ + spec_padded(n as nat, width as nat),
{
    let digits = count_digits(n);
    if digits < width {
        append_spaces(out, width - digits);
    }
    let rendered = decimal_string(n);
    out.append(rendered.as_str());
    proof {
        assert(out@ =~= old(out)@ + spec_padded(n as nat, width as nat));
    }
}

} // verus!
