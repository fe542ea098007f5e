//! Numbers as report text.
use vstd::prelude::*;

verus! {

/// `String::push_str`, the standard library's append: the characters of `s` follow those
/// already there.
pub assume_specification[ String::push_str ](string: &mut String, s: &str)
    ensures
        final(string)@ == old(string)@ + s@,
;

/// `String::push`, the standard library's append of one character.
pub assume_specification[ String::push ](string: &mut String, ch: char)
    ensures
        final(string)@ == old(string)@.push(ch),
;

/// The decimal digit that stands for `d`.
pub open spec fn digit(d: nat) -> char {
    if d == 0 {
        '0'
    } else if d == 1 {
        '1'
    } else if d == 2 {
        '2'
    } else if d == 3 {
        '3'
    } else if d == 4 {
        '4'
    } else if d == 5 {
        '5'
    } else if d == 6 {
        '6'
    } else if d == 7 {
        '7'
    } else if d == 8 {
        '8'
    } else {
        '9'
    }
}

/// `n` in decimal, without leading zeros.
pub open spec fn nat_text(n: nat) -> Seq<char>
    decreases n,
{
    if n < 10 {
        seq![digit(n)]
    } else {
        nat_text(n / 10).push(digit(n % 10))
    }
}

/// `n / d` rounded to the nearest whole number, a tie going to the even one.
pub open spec fn round_half_even(n: nat, d: nat) -> nat {
    let q = n / d;
    let r = n % d;
    if 2 * r > d || (2 * r == d && q % 2 == 1) {
        q + 1
    } else {
        q
    }
}

/// The sign that a signed number is written with.
pub open spec fn sign_text(v: int, plus: bool) -> Seq<char> {
    if v < 0 {
        "-"@
    } else if plus {
        "+"@
    } else {
        ""@
    }
}

/// `|v|` as a natural number.
pub open spec fn magnitude(v: int) -> nat {
    if v < 0 {
        (-v) as nat
    } else {
        v as nat
    }
}

/// A number of tenths, with one decimal place.
pub open spec fn tenths_text(q: nat) -> Seq<char> {
    (nat_text(q / 10) + "."@).push(digit(q % 10))
}

/// A number of hundredths, with two decimal places.
pub open spec fn hundredths_text(q: nat) -> Seq<char> {
    (nat_text(q / 100) + "."@).push(digit(q / 10 % 10)).push(digit(q % 10))
}

/// Millimetres as metres with one decimal place.
pub open spec fn metres1(mm: int) -> Seq<char> {
    sign_text(mm, false) + tenths_text(round_half_even(magnitude(mm), 100))
}

/// Millimetres as metres with two decimal places, a plus sign in front when `plus`.
pub open spec fn metres2(mm: int, plus: bool) -> Seq<char> {
    sign_text(mm, plus) + hundredths_text(round_half_even(magnitude(mm), 10))
}

/// `part / whole` in whole percent.
pub open spec fn percent_text(part: int, whole: nat) -> Seq<char> {
    sign_text(part, false) + nat_text(round_half_even(magnitude(part) * 100, whole))
}

fn digit_char(d: u128) -> (c: char)
    requires
        d < 10,
    ensures
        c == digit(d as nat),
{
    if d == 0 {
        '0'
    } else if d == 1 {
        '1'
    } else if d == 2 {
        '2'
    } else if d == 3 {
        '3'
    } else if d == 4 {
        '4'
    } else if d == 5 {
        '5'
    } else if d == 6 {
        '6'
    } else if d == 7 {
        '7'
    } else if d == 8 {
        '8'
    } else {
        '9'
    }
}

/// Appends `n` in decimal.
pub fn push_nat(out: &mut String, n: u128)
    ensures
        final(out)@ == old(out)@ + nat_text(n as nat),
    decreases n,
{
    if n >= 10 {
        push_nat(out, n / 10);
    }
    out.push(digit_char(n % 10));
    assert(out@ =~= old(out)@ + nat_text(n as nat));
}

/// `n / d` to the nearest whole number, ties to even.
pub fn rounded(n: u128, d: u128) -> (q: u128)
    requires
        0 < d <= 0xffff_ffff_ffff_ffff,
        n <= 0xffff_ffff_ffff_ffff_ffff_ffff,
    ensures
        q == round_half_even(n as nat, d as nat),
        q <= n + 1,
{
    let q: u128 = n / d;
    let r: u128 = n % d;
    assert(q <= n) by (nonlinear_arith)
        requires
            d >= 1,
            q == n / d,
    ;
    if 2 * r > d || (2 * r == d && q % 2 == 1) {
        q + 1
    } else {
        q
    }
}

fn push_sign(out: &mut String, negative: bool, plus: bool)
    ensures
        final(out)@ == old(out)@ + sign_text(
            if negative {
                -1int
            } else {
                0int
            },
            plus,
        ),
{
    if negative {
        out.push_str("-");
    } else if plus {
        out.push_str("+");
    } else {
        proof {
            reveal_strlit("");
        }
        assert(out@ =~= old(out)@ + ""@);
    }
}

/// Appends a number of tenths.
pub fn push_tenths(out: &mut String, q: u128)
    ensures
        final(out)@ == old(out)@ + tenths_text(q as nat),
{
    push_nat(out, q / 10);
    out.push_str(".");
    out.push(digit_char(q % 10));
    assert(out@ =~= old(out)@ + tenths_text(q as nat));
}

fn size_of(mm: i64) -> (m: u128)
    ensures
        m == magnitude(mm as int),
        m <= 0x8000_0000_0000_0000,
{
    let v: i128 = mm as i128;
    if v < 0 {
        (-v) as u128
    } else {
        v as u128
    }
}

/// Appends millimetres as metres with one decimal place.
pub fn push_metres1(out: &mut String, mm: i64)
    ensures
        final(out)@ == old(out)@ + metres1(mm as int),
{
    push_sign(out, mm < 0, false);
    let m: u128 = size_of(mm);
    push_tenths(out, rounded(m, 100));
    assert(out@ =~= old(out)@ + metres1(mm as int));
}

/// Appends millimetres as metres with two decimal places.
pub fn push_metres2(out: &mut String, mm: i64, plus: bool)
    ensures
        final(out)@ == old(out)@ + metres2(mm as int, plus),
{
    push_sign(out, mm < 0, plus);
    let m: u128 = size_of(mm);
    let q: u128 = rounded(m, 10);
    push_nat(out, q / 100);
    out.push_str(".");
    out.push(digit_char(q / 10 % 10));
    out.push(digit_char(q % 10));
    assert(out@ =~= old(out)@ + metres2(mm as int, plus));
}

/// Appends `part / whole` in whole percent.
pub fn push_percent(out: &mut String, part: i128, whole: u64)
    requires
        -0xffff_ffff_ffff_ffff <= part <= 0xffff_ffff_ffff_ffff,
        whole > 0,
    ensures
        final(out)@ == old(out)@ + percent_text(part as int, whole as nat),
{
    push_sign(out, part < 0, false);
    let m: u128 = if part < 0 {
        (-part) as u128
    } else {
        part as u128
    };
    push_nat(out, rounded(m * 100, whole as u128));
    assert(out@ =~= old(out)@ + percent_text(part as int, whole as nat));
}

/// The number that a row of decimal digits stands for.
pub open spec fn value_of(t: Seq<char>) -> int
    decreases t.len(),
{
    if t.len() == 0 {
        0
    } else {
        10 * value_of(t.drop_last()) + (t.last() as int - '0' as int)
    }
}

/// A number is written in decimal digits that read back as that number, without a leading zero.
pub proof fn numbers_read_back(n: nat)
    ensures
        value_of(nat_text(n)) == n,
        nat_text(n).len() > 0,
        forall|i: int|
            0 <= i < nat_text(n).len() ==> '0' as int <= (#[trigger] nat_text(n)[i]) as int <= '9' as int,
        n > 0 ==> nat_text(n)[0] != '0',
    decreases n,
{
    if n < 10 {
        let t = nat_text(n);
        assert(t.drop_last() =~= Seq::empty());
        assert(value_of(t.drop_last()) == 0);
        assert(t.last() as int == '0' as int + n);
    } else {
        numbers_read_back(n / 10);
        let t = nat_text(n);
        assert(t.drop_last() =~= nat_text(n / 10));
        assert(t.last() as int == '0' as int + n % 10);
    }
}

/// Rounding goes to the nearest whole number, and to the even one from halfway.
pub proof fn rounding_goes_to_the_nearest(n: nat, d: nat)
    requires
        d > 0,
    ensures
        2 * n - d <= 2 * (round_half_even(n, d) * d) <= 2 * n + d,
        2 * n + d == 2 * (round_half_even(n, d) * d) || 2 * n - d == 2 * (round_half_even(n, d) * d)
            ==> round_half_even(n, d) % 2 == 0,
{
    let q = (n / d) as int;
    let r = (n % d) as int;
    assert(n == q * d + r && 0 <= r < d) by (nonlinear_arith)
        requires
            d > 0,
            q == n as int / d as int,
            r == n as int % d as int,
    ;
    assert((q + 1) * d == q * d + d) by (nonlinear_arith);
}

/// A length is written with the sign of a negative one, a plus only where one is asked for, and
/// as it measures either way.
pub proof fn signs_are_written(v: int)
    ensures
        v < 0 ==> sign_text(v, true) == "-"@ && sign_text(v, false) == "-"@,
        v >= 0 ==> sign_text(v, true) == "+"@ && sign_text(v, false) == ""@,
        magnitude(v) == magnitude(-v),
        magnitude(v) == v || magnitude(v) == -v,
{
}

/// A share is told in whole percent, to the nearest one, with a sign only below zero.
pub proof fn shares_are_told_in_percent(part: int, whole: nat)
    requires
        whole > 0,
        part >= 0,
    ensures
        exists|p: nat| percent_text(part, whole) == #[trigger] nat_text(p) && -(whole as int) <= 2
            * (part * 100 - p * whole) <= whole,
{
    reveal_strlit("");
    rounding_goes_to_the_nearest((part * 100) as nat, whole);
    let p = round_half_even((part * 100) as nat, whole);
    assert(percent_text(part, whole) =~= nat_text(p));
}

/// A number with decimals is written as the whole part, a point, and one digit for each decimal.
pub proof fn decimals_follow_the_point(q: nat)
    ensures
        ({
            let t = tenths_text(q);
            let whole = nat_text(q / 10);
            &&& t.len() == whole.len() + 2
            &&& t.take(whole.len() as int) == whole
            &&& t[whole.len() as int] == '.'
            &&& t.last() as int == '0' as int + q % 10
        }),
        ({
            let t = hundredths_text(q);
            let whole = nat_text(q / 100);
            &&& t.len() == whole.len() + 3
            &&& t.take(whole.len() as int) == whole
            &&& t[whole.len() as int] == '.'
            &&& t[whole.len() as int + 1] as int == '0' as int + q / 10 % 10
            &&& t.last() as int == '0' as int + q % 10
        }),
{
    reveal_strlit(".");
    assert(tenths_text(q).take(nat_text(q / 10).len() as int) =~= nat_text(q / 10));
    assert(hundredths_text(q).take(nat_text(q / 100).len() as int) =~= nat_text(q / 100));
}

/// Millimetres are told in metres, with one decimal to the nearest 100 mm or with two to the
/// nearest 10 mm, the sign in front.
pub proof fn lengths_are_told_in_metres(mm: int, plus: bool)
    ensures
        exists|q: nat| metres1(mm) == sign_text(mm, false) + #[trigger] tenths_text(q) && (if mm
            >= 0 {
            mm - 50 <= 100 * q <= mm + 50
        } else {
            -mm - 50 <= 100 * q <= -mm + 50
        }),
        exists|q: nat| metres2(mm, plus) == sign_text(mm, plus) + #[trigger] hundredths_text(q) && (
        if mm >= 0 {
            mm - 5 <= 10 * q <= mm + 5
        } else {
            -mm - 5 <= 10 * q <= -mm + 5
        }),
{
    rounding_goes_to_the_nearest(magnitude(mm), 100);
    rounding_goes_to_the_nearest(magnitude(mm), 10);
    let a = round_half_even(magnitude(mm), 100);
    let b = round_half_even(magnitude(mm), 10);
    assert(metres1(mm) == sign_text(mm, false) + tenths_text(a));
    assert(metres2(mm, plus) == sign_text(mm, plus) + hundredths_text(b));
}

} // verus!
