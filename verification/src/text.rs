//! Decimal numerals and indentation.
use vstd::prelude::*;
use vstd::string::*;

verus! {

/// The character of a decimal digit.
pub open spec fn digit(d: nat) -> char {
    if d == 0 {
        '0'
    } else if d == 1 {
        '1'
    } else if d == 2 {
        '2'
    } else if d == 3 {
        '3'
    } else if d == 4 {
        '4'
    } else if d == 5 {
        '5'
    } else if d == 6 {
        '6'
    } else if d == 7 {
        '7'
    } else if d == 8 {
        '8'
    } else {
        '9'
    }
}

/// The decimal numeral of `n`, without leading zeros.
pub open spec fn decimal(n: nat) -> Seq<char>
    decreases n,
{
    if n < 10 {
        seq![digit(n)]
    } else {
        decimal(n / 10).push(digit(n % 10))
    }
}

/// The decimal numeral of `n`, with a sign if it is negative.
pub open spec fn signed_decimal(n: int) -> Seq<char> {
    if n < 0 {
        "-"@ + decimal((-n) as nat)
    } else {
        decimal(n as nat)
    }
}

/// `count` tabs.
pub open spec fn tabs(count: nat) -> Seq<char> {
    Seq::new(count, |i: int| '\t')
}

/// A digit, as a string.
fn digit_str(d: u64) -> (s: &'static str)
    requires
        d < 10,
    ensures
        s@ == seq![digit(d as nat)],
{
    proof {
        reveal_strlit("0");
        reveal_strlit("1");
        reveal_strlit("2");
        reveal_strlit("3");
        reveal_strlit("4");
        reveal_strlit("5");
        reveal_strlit("6");
        reveal_strlit("7");
        reveal_strlit("8");
        reveal_strlit("9");
    }
    let s = if d == 0 {
        "0"
    } else if d == 1 {
        "1"
    } else if d == 2 {
        "2"
    } else if d == 3 {
        "3"
    } else if d == 4 {
        "4"
    } else if d == 5 {
        "5"
    } else if d == 6 {
        "6"
    } else if d == 7 {
        "7"
    } else if d == 8 {
        "8"
    } else {
        "9"
    };
    assert(s@ =~= seq![digit(d as nat)]);
    s
}

/// Appends the decimal numeral of `n`.
pub fn append_decimal(out: &mut String, n: u64)
    ensures
        final(out)@ == old(out)@ + decimal(n as nat),
    decreases n,
{
    if n < 10 {
        out.append(digit_str(n));
    } else {
        append_decimal(out, n / 10);
        out.append(digit_str(n % 10));
        assert(out@ =~= old(out)@ + decimal(n as nat));
    }
}

/// Appends the decimal numeral of `n`, with a sign if it is negative.
pub fn append_signed_decimal(out: &mut String, n: i64)
    ensures
        final(out)@ == old(out)@ + signed_decimal(n as int),
{
    if n < 0 {
        out.append("-");
        let magnitude: i128 = -(n as i128);
        append_decimal(out, magnitude as u64);
        assert(out@ =~= old(out)@ + signed_decimal(n as int));
    } else {
        append_decimal(out, n as u64);
    }
}

/// Appends `count` tabs.
pub fn append_tabs(out: &mut String, count: usize)
    ensures
        final(out)@ == old(out)@ + tabs(count as nat),
{
    proof {
        reveal_strlit("\t");
    }
    assert(out@ =~= old(out)@ + tabs(0));
    for done in 0..count
        invariant
            out@ == old(out)@ + tabs(done as nat),
            "\t"@ == tabs(1),
    {
        out.append("\t");
        assert(out@ =~= old(out)@ + tabs((done + 1) as nat));
    }
}

/// Numerals consist of digits, and there is at least one.
pub proof fn decimal_has_only_digits(n: nat)
    ensures
        decimal(n).len() > 0,
        forall|i: int| 0 <= i < decimal(n).len() ==> '0' <= #[trigger] decimal(n)[i] <= '9',
    decreases n,
{
    if n >= 10 {
        decimal_has_only_digits(n / 10);
    }
}

/// Different numbers have different numerals.
pub proof fn decimal_is_injective(a: nat, b: nat)
    requires
        decimal(a) == decimal(b),
    ensures
        a == b,
    decreases a,
{
    let s = decimal(a);
    if a < 10 && b < 10 {
        assert(seq![digit(a)][0] == seq![digit(b)][0]);
    } else if a >= 10 && b >= 10 {
        assert(decimal(a / 10) =~= s.drop_last());
        assert(decimal(b / 10) =~= s.drop_last());
        assert(s.last() == digit(a % 10));
        assert(s.last() == digit(b % 10));
        decimal_is_injective(a / 10, b / 10);
    } else if a >= 10 {
        decimal_has_only_digits(a / 10);
        assert(decimal(b).len() == 1);
    } else {
        decimal_has_only_digits(b / 10);
        assert(decimal(a).len() == 1);
    }
}

/// The number that a numeral stands for: each digit counts ten times as much as the one behind it.
pub open spec fn value_of(numeral: Seq<char>) -> int
    decreases numeral.len(),
{
    if numeral.len() == 0 {
        0
    } else {
        value_of(numeral.drop_last()) * 10 + (numeral.last() as int - '0' as int)
    }
}

/// The numeral of a number stands for that number.
pub proof fn numerals_have_their_value(n: nat)
    ensures
        value_of(decimal(n)) == n,
    decreases n,
{
    let numeral = decimal(n);
    if n < 10 {
        assert(numeral.drop_last() =~= Seq::empty());
        assert(numeral.last() as int == '0' as int + n);
        reveal_with_fuel(value_of, 2);
    } else {
        numerals_have_their_value(n / 10);
        assert(numeral.drop_last() =~= decimal(n / 10));
        assert(numeral.last() as int == '0' as int + n % 10);
    }
}

/// Numerals have no zeros in front: only that of zero starts with one.
pub proof fn numerals_have_no_leading_zeros(n: nat)
    ensures
        decimal(n).len() > 0,
        decimal(n)[0] == '0' <==> n == 0,
        n == 0 ==> decimal(n).len() == 1,
    decreases n,
{
    if n >= 10 {
        numerals_have_no_leading_zeros(n / 10);
        assert(decimal(n)[0] == decimal(n / 10)[0]);
    }
}

/// The numeral of a negative number is a minus sign and then the numeral of its magnitude, that of
/// any other number has no sign.
pub proof fn signed_numerals_have_their_value(n: int)
    ensures
        signed_decimal(n).len() > 0,
        signed_decimal(n)[0] == '-' <==> n < 0,
        n < 0 ==> value_of(signed_decimal(n).skip(1)) == -n,
        n >= 0 ==> value_of(signed_decimal(n)) == n,
{
    if n < 0 {
        reveal_strlit("-");
        numerals_have_their_value((-n) as nat);
        assert(signed_decimal(n).skip(1) =~= decimal((-n) as nat));
    } else {
        numerals_have_their_value(n as nat);
        decimal_has_only_digits(n as nat);
    }
}

/// One more level of indentation is one more tab.
pub proof fn indentation_is_made_of_tabs(count: nat)
    ensures
        tabs(0) == Seq::<char>::empty(),
        tabs(count + 1) == tabs(count) + "\t"@,
{
    reveal_strlit("\t");
    assert(tabs(0) =~= Seq::<char>::empty());
    assert(tabs(count + 1) =~= tabs(count) + "\t"@);
}

} // verus!
