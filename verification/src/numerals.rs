//! Writing numbers as text.

use vstd::prelude::*;

use crate::text::char_of;

verus! {

/// The digit for `d`, beyond nine a letter.
pub open spec fn digit(d: nat, capital: bool) -> char {
    if d < 10 {
        ('0' as int + d) as char
    } else if capital {
        ('A' as int + (d - 10)) as char
    } else {
        ('a' as int + (d - 10)) as char
    }
}

/// The numeral of `n` in base `base`, filled up with zeros to `width` digits.
pub open spec fn numeral(n: nat, base: nat, width: nat, capital: bool) -> Seq<char>
    decreases n + width,
    when base >= 2
{
    if n < base && width <= 1 {
        seq![digit(n, capital)]
    } else {
        proof {
            lemma_quotient(n, base);
        }
        numeral(
            n / base,
            base,
            if width == 0 {
                0
            } else {
                (width - 1) as nat
            },
            capital,
        ).push(digit(n % base, capital))
    }
}

pub proof fn lemma_quotient(n: nat, base: nat)
    requires
        base >= 2,
    ensures
        n / base <= n,
        n > 0 ==> n / base < n,
        0 <= n % base < base,
{
    assert(n / base <= n && (n > 0 ==> n / base < n) && 0 <= n % base < base) by (nonlinear_arith)
        requires
            base >= 2,
            n >= 0,
    ;
}

/// `n` in decimal.
pub open spec fn decimal(n: nat) -> Seq<char> {
    numeral(n, 10, 1, false)
}

/// `U+` and the code point of `c`, in at least four capital hexadecimal digits.
pub open spec fn code_point(c: char) -> Seq<char> {
    "U+"@ + numeral(c as nat, 16, 4, true)
}

/// Appends the numeral of `n`.
pub fn push_numeral(out: &mut String, n: u128, base: u128, width: usize, capital: bool)
    requires
        base == 10 || base == 16,
    ensures
        final(out)@ == old(out)@ + numeral(n as nat, base as nat, width as nat, capital),
    decreases n + width,
{
    proof {
        lemma_quotient(n as nat, base as nat);
    }
    if n >= base || width > 1 {
        let less: usize = if width == 0 {
            0
        } else {
            width - 1
        };
        push_numeral(out, n / base, base, less, capital);
    }
    let d: u128 = n % base;
    let code: u32 = if d < 10 {
        0x30 + d as u32
    } else if capital {
        0x41 + (d as u32 - 10)
    } else {
        0x61 + (d as u32 - 10)
    };
    out.push(char_of(code));
    assert(out@ == old(out)@ + numeral(n as nat, base as nat, width as nat, capital));
}

/// Appends `n` in decimal.
pub fn push_decimal(out: &mut String, n: usize)
    ensures
        final(out)@ == old(out)@ + decimal(n as nat),
{
    push_numeral(out, n as u128, 10, 1, false);
}

/// Appends the code point of `c`.
pub fn push_code_point(out: &mut String, c: char)
    ensures
        final(out)@ == old(out)@ + code_point(c),
{
    out.push('U');
    out.push('+');
    push_numeral(out, c as u32 as u128, 16, 4, true);
    proof {
        reveal_strlit("U+");
    }
    assert(out@ == old(out)@ + code_point(c));
}

// ---------------------------------------------------------------------------
// What decimal numerals satisfy
// ---------------------------------------------------------------------------
/// The number that a decimal numeral stands for.
pub open spec fn value(s: Seq<char>) -> int
    decreases s.len(),
{
    if s.len() == 0 {
        0
    } else {
        value(s.drop_last()) * 10 + (s.last() as int - '0' as int)
    }
}

/// Ten to the power of `k`.
pub open spec fn power_of_ten(k: nat) -> nat
    decreases k,
{
    if k == 0 {
        1
    } else {
        10 * power_of_ten((k - 1) as nat)
    }
}

/// A decimal numeral is made of digits and stands for its number.
pub proof fn lemma_decimal(n: nat, width: nat)
    requires
        width <= 1,
    ensures
        numeral(n, 10, width, false).len() > 0,
        forall|i: int|
            0 <= i < numeral(n, 10, width, false).len() ==> '0' <= #[trigger] numeral(
                n,
                10,
                width,
                false,
            )[i] <= '9',
        value(numeral(n, 10, width, false)) == n,
    decreases n,
{
    let s = numeral(n, 10, width, false);
    if n < 10 {
        assert(s == seq![digit(n, false)]);
        assert(s.drop_last() == Seq::<char>::empty());
        reveal_with_fuel(value, 2);
    } else {
        lemma_decimal(n / 10, 0);
        let head = numeral(n / 10, 10, 0, false);
        assert(s == head.push(digit(n % 10, false)));
        assert(s.drop_last() == head);
    }
}

/// Different numbers have different numerals.
pub proof fn law_decimal_injective(m: nat, n: nat)
    requires
        decimal(m) == decimal(n),
    ensures
        m == n,
{
    lemma_decimal(m, 1);
    lemma_decimal(n, 1);
}

proof fn lemma_decimal_len(n: nat, width: nat, k: nat)
    requires
        width <= 1,
        k >= 1,
        n < power_of_ten(k),
    ensures
        numeral(n, 10, width, false).len() <= k,
    decreases k,
{
    if n >= 10 {
        if k == 1 {
            reveal_with_fuel(power_of_ten, 2);
        }
        lemma_decimal_len(n / 10, 0, (k - 1) as nat);
    }
}

/// A number of 64 bits and a little more has twenty digits at most.
pub proof fn lemma_decimal_is_short(n: nat)
    requires
        n <= u64::MAX + 10,
    ensures
        decimal(n).len() <= 20,
{
    assert(power_of_ten(20) == 100000000000000000000) by {
        reveal_with_fuel(power_of_ten, 21);
    }
    lemma_decimal_len(n, 1, 20);
}

} // verus!
