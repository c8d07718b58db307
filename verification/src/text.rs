//! Decimal numbers as text.

use vstd::arithmetic::div_mod;
use vstd::arithmetic::power;
use vstd::prelude::*;

verus! {

/// The character of a decimal digit.
pub open spec fn digit(d: nat) -> char {
    ('0' as int + d) as char
}

/// The decimal form of a number, without leading zeros.
pub open spec fn decimal(n: nat) -> Seq<char>
    decreases n,
{
    if n < 10 {
        seq![digit(n)]
    } else {
        decimal(n / 10).push(digit(n % 10))
    }
}

fn digit_text(d: usize) -> (s: &'static str)
    requires
        d < 10,
    ensures
        s@ == seq![digit(d as nat)],
{
    proof {
        reveal_strlit("0");
        reveal_strlit("1");
        reveal_strlit("2");
        reveal_strlit("3");
        reveal_strlit("4");
        reveal_strlit("5");
        reveal_strlit("6");
        reveal_strlit("7");
        reveal_strlit("8");
        reveal_strlit("9");
    }
    let s = match d {
        0 => "0",
        1 => "1",
        2 => "2",
        3 => "3",
        4 => "4",
        5 => "5",
        6 => "6",
        7 => "7",
        8 => "8",
        _ => "9",
    };
    assert(s@ =~= seq![digit(d as nat)]);
    s
}

/// Appends the decimal form of `n` to `out`.
pub fn append_decimal(out: &mut String, n: usize)
    ensures
        final(out)@ == old(out)@ + decimal(n as nat),
    decreases n,
{
    if n < 10 {
        out.append(digit_text(n));
    } else {
        append_decimal(out, n / 10);
        let ghost prefix = out@;
        out.append(digit_text(n % 10));
        assert(out@ =~= old(out)@ + decimal(n as nat));
    }
}

/// The decimal form of a number is its digits in base ten, the lowest last, without leading
/// zeros.
pub proof fn law_decimal_is_the_digits(n: nat, k: int)
    ensures
        decimal(n).len() >= 1,
        n < power::pow(10, decimal(n).len()),
        decimal(n).len() > 1 ==> power::pow(10, (decimal(n).len() - 1) as nat) <= n,
        0 <= k < decimal(n).len() ==> decimal(n)[decimal(n).len() - 1 - k] as int == 48 + (n
            / power::pow(10, k as nat) as nat) % 10,
    decreases n,
{
    reveal(power::pow);
    let len = decimal(n).len();
    assert(digit(n % 10) as int == 48 + n % 10);
    if 0 <= k {
        power::lemma_pow_positive(10, k as nat);
    }
    let one = power::pow(10, 0) as nat;
    assert(n / one == n) by (nonlinear_arith)
        requires
            one == 1,
    ;
    if n < 10 {
        assert(power::pow(10, 0) == 1);
        assert(power::pow(10, 1) == 10);
        assert(decimal(n)[0] == digit(n));
    } else {
        let rest = decimal(n / 10);
        law_decimal_is_the_digits(n / 10, k - 1);
        let top = power::pow(10, rest.len());
        assert(power::pow(10, len) == 10 * top);
        assert(power::pow(10, rest.len()) == 10 * power::pow(10, (rest.len() - 1) as nat));
        if rest.len() == 1 {
            assert(power::pow(10, 0) == 1);
        }
        if 0 < k < len {
            power::lemma_pow_positive(10, (k - 1) as nat);
            div_mod::lemma_div_denominator(n as int, 10, power::pow(10, (k - 1) as nat));
            assert(power::pow(10, k as nat) == 10 * power::pow(10, (k - 1) as nat));
            assert(decimal(n)[len - 1 - k] == rest[rest.len() - 1 - (k - 1)]);
            assert((n / 10) / power::pow(10, (k - 1) as nat) as nat == n / power::pow(
                10,
                k as nat,
            ) as nat);
        } else if k == 0 {
            assert(power::pow(10, 0) == 1);
            assert(decimal(n)[len - 1 - k] == digit(n % 10));
        }
    }
}

} // verus!
