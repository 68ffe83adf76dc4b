//! Decimal numerals: the text form of natural numbers.

use vstd::arithmetic::div_mod::lemma_fundamental_div_mod_converse;
use vstd::prelude::*;

verus! {

/// Whether `c` is one of the ten ASCII digits.
pub open spec fn is_digit(c: char) -> bool {
    '0' <= c && c <= '9'
}

/// The number that the ASCII digit `c` stands for.
pub open spec fn digit_value(c: char) -> nat
    recommends
        is_digit(c),
{
    (c as nat - '0' as nat) as nat
}

/// The ASCII digit that stands for `d`.
pub open spec fn digit_char(d: nat) -> char
    recommends
        d < 10,
{
    if d == 0 {
        '0'
    } else if d == 1 {
        '1'
    } else if d == 2 {
        '2'
    } else if d == 3 {
        '3'
    } else if d == 4 {
        '4'
    } else if d == 5 {
        '5'
    } else if d == 6 {
        '6'
    } else if d == 7 {
        '7'
    } else if d == 8 {
        '8'
    } else {
        '9'
    }
}

/// Whether every character of `s` is an ASCII digit.
pub open spec fn all_digits(s: Seq<char>) -> bool {
    forall|i: int| 0 <= i < s.len() ==> is_digit(#[trigger] s[i])
}

/// The number written by the digits `s`, most significant first. The empty
/// sequence writes zero.
pub open spec fn decimal_value(s: Seq<char>) -> nat
    decreases s.len(),
{
    if s.len() == 0 {
        0
    } else {
        decimal_value(s.drop_last()) * 10 + digit_value(s.last())
    }
}

/// The canonical numeral of `n`: no leading zero, except for zero itself.
pub open spec fn decimal_text(n: nat) -> Seq<char>
    decreases n,
{
    if n < 10 {
        seq![digit_char(n)]
    } else {
        decimal_text(n / 10).push(digit_char(n % 10))
    }
}

/// The one-character string of a single digit.
pub(crate) fn digit_str(d: u64) -> (s: &'static str)
    requires
        d < 10,
    ensures
        s@ == seq![digit_char(d as nat)],
{
    proof {
        reveal_strlit("0");
        reveal_strlit("1");
        reveal_strlit("2");
        reveal_strlit("3");
        reveal_strlit("4");
        reveal_strlit("5");
        reveal_strlit("6");
        reveal_strlit("7");
        reveal_strlit("8");
        reveal_strlit("9");
    }
    if d == 0 {
        "0"
    } else if d == 1 {
        "1"
    } else if d == 2 {
        "2"
    } else if d == 3 {
        "3"
    } else if d == 4 {
        "4"
    } else if d == 5 {
        "5"
    } else if d == 6 {
        "6"
    } else if d == 7 {
        "7"
    } else if d == 8 {
        "8"
    } else {
        "9"
    }
}

/// Writes `n` as its canonical decimal numeral.
pub fn format_decimal(n: u64) -> (text: String)
    ensures
        text@ == decimal_text(n as nat),
    decreases n,
{
    if n < 10 {
        String::from_str(digit_str(n))
    } else {
        let mut text = format_decimal(n / 10);
        text.append(digit_str(n % 10));
        text
    }
}

/// The value of an ASCII digit, or `None` for any other character.
pub fn digit_of(c: char) -> (d: Option<u8>)
    ensures
        d is Some <==> is_digit(c),
        d matches Some(v) ==> v as nat == digit_value(c) && v < 10,
{
    if '0' <= c && c <= '9' {
        Some((c as u32 - '0' as u32) as u8)
    } else {
        None
    }
}

/// Ten to the power `k`.
pub open spec fn pow10(k: nat) -> nat
    decreases k,
{
    if k == 0 {
        1
    } else {
        10 * pow10((k - 1) as nat)
    }
}

/// The quotient `num / den` rounded to the nearest integer; a quotient that
/// lies exactly halfway between two integers goes to the even one.
pub open spec fn round_half_even(num: nat, den: nat) -> nat
    recommends
        den > 0,
{
    let q = num / den;
    let r = num % den;
    if 2 * r < den {
        q
    } else if 2 * r > den {
        q + 1
    } else if q % 2 == 0 {
        q
    } else {
        q + 1
    }
}

/// Whether `s` writes a decimal fraction whose point stands at `point`:
/// digits, then optionally a point and more digits, with at least one digit
/// in all. A text without a point has `point == s.len()`.
pub open spec fn is_fraction_split(s: Seq<char>, point: int) -> bool {
    &&& 0 <= point <= s.len()
    &&& forall|i: int| 0 <= i < s.len() && i != point ==> is_digit(#[trigger] s[i])
    &&& point < s.len() ==> s[point] == '.' && s.len() >= 2
    &&& s.len() >= 1
}

/// Whether `s` writes a decimal fraction, such as `1`, `1.25`, `1.` or `.5`.
pub open spec fn is_fraction(s: Seq<char>) -> bool {
    exists|point: int| is_fraction_split(s, point)
}

/// Where the point of the fraction `s` stands (`s.len()` without a point).
pub open spec fn point_of(s: Seq<char>) -> int {
    choose|point: int| is_fraction_split(s, point)
}

/// The digits after the point of the fraction `s`.
pub open spec fn fraction_digits(s: Seq<char>) -> Seq<char> {
    if point_of(s) < s.len() {
        s.subrange(point_of(s) + 1, s.len() as int)
    } else {
        Seq::empty()
    }
}

/// A hundred times the value of the fraction `s`, rounded to the nearest
/// integer, ties to even: 125 for `1.25`, 133 for `1.333`, 2 for `0.025`.
pub open spec fn hundredths_of(s: Seq<char>) -> nat {
    let whole = decimal_value(s.subrange(0, point_of(s)));
    let fraction = fraction_digits(s);
    round_half_even(
        (whole * pow10(fraction.len()) + decimal_value(fraction)) * 100,
        pow10(fraction.len()),
    )
}

/// The digit at position `i` of `text`, or `None` if another character
/// stands there.
fn digit_at(text: &str, i: usize) -> (d: Option<u8>)
    requires
        i < text@.len(),
    ensures
        d is Some <==> is_digit(text@[i as int]),
        d matches Some(v) ==> v as nat == digit_value(text@[i as int]) && v < 10,
{
    digit_of(text.get_char(i))
}

/// A fraction has its point where its leading digits end.
pub proof fn lemma_point_is_first_non_digit(s: Seq<char>, q: int, p: int)
    requires
        is_fraction_split(s, q),
        0 <= p <= s.len(),
        forall|j: int| 0 <= j < p ==> is_digit(#[trigger] s[j]),
        p < s.len() ==> !is_digit(s[p]),
    ensures
        q == p,
{
    if q < p {
        assert(is_digit(s[q]));
    }
    if p < q {
        assert(is_digit(s[p]));
    }
}

/// How the digits beyond the second decimal place compare with one half of
/// a hundredth.
#[derive(Clone, Copy, PartialEq, Eq, Structural)]
enum Remainder {
    BelowHalf,
    Half,
    AboveHalf,
}

/// Whether `state` says how `2 * rest` compares with `unit`.
spec fn remainder_is(state: Remainder, rest: nat, unit: nat) -> bool {
    match state {
        Remainder::BelowHalf => 2 * rest < unit,
        Remainder::Half => 2 * rest == unit,
        Remainder::AboveHalf => 2 * rest > unit,
    }
}

/// The largest whole part that is told apart from larger ones.
const WHOLE_LIMIT: u64 = 0x1_0000_0000;

/// The smaller of `v` and the limit on whole parts.
spec fn capped(v: nat) -> nat {
    if v < WHOLE_LIMIT {
        v
    } else {
        WHOLE_LIMIT as nat
    }
}

/// Rounding a quotient never gives less than `a` when the dividend is at
/// least `a` times the divisor.
proof fn lemma_round_at_least(num: nat, den: nat, a: nat)
    requires
        den > 0,
        num >= a * den,
    ensures
        round_half_even(num, den) >= a,
{
    let q = num / den;
    let r = num % den;
    vstd::arithmetic::div_mod::lemma_fundamental_div_mod(num as int, den as int);
    vstd::arithmetic::div_mod::lemma_mod_bound(num as int, den as int);
    assert(q >= a) by (nonlinear_arith)
        requires
            num == den * q + r,
            0 <= r < den,
            num >= a * den,
            den > 0,
    ;
}

/// `base` hundredths, and one more where the digits that follow them, which
/// write `rest` out of `unit`, come to more than half a hundredth, or to
/// exactly half while `base` is odd.
spec fn rounded_up(base: nat, rest: nat, unit: nat) -> nat {
    if 2 * rest < unit {
        base
    } else if 2 * rest > unit {
        base + 1
    } else if base % 2 == 0 {
        base
    } else {
        base + 1
    }
}

/// Rounds a value whose first two decimal places are `base2` and whose
/// further places write `rest` out of `unit`.
proof fn lemma_round_split(whole: nat, base2: nat, unit: nat, rest: nat)
    requires
        unit > 0,
        rest < unit,
    ensures
        round_half_even((whole * (100 * unit) + (base2 * unit + rest)) * 100, 100 * unit)
            == rounded_up(100 * whole + base2, rest, unit),
{
    let base = 100 * whole + base2;
    let num = (whole * (100 * unit) + (base2 * unit + rest)) * 100;
    let den = 100 * unit;
    assert(num == base * den + 100 * rest) by (nonlinear_arith)
        requires
            base == 100 * whole + base2,
            num == (whole * (100 * unit) + (base2 * unit + rest)) * 100,
            den == 100 * unit,
    ;
    lemma_fundamental_div_mod_converse(num as int, den as int, base as int, (100 * rest) as int);
}

/// Rounds the hundredths of a fraction with `places` decimal places, given
/// its whole part, the value of its decimal places, and how that value
/// splits into the first two places and the rest.
proof fn lemma_hundredths_by_places(
    whole: nat,
    places: nat,
    fraction: nat,
    tenths: nat,
    hundredths: nat,
    unit: nat,
    rest: nat,
)
    requires
        rest < unit,
        places == 0 ==> fraction == 0 && tenths == 0 && hundredths == 0,
        places == 1 ==> fraction == tenths && hundredths == 0,
        places <= 2 ==> rest == 0 && unit == 1,
        places >= 2 ==> unit == pow10((places - 2) as nat),
        places >= 2 ==> fraction == (10 * tenths + hundredths) * unit + rest,
    ensures
        round_half_even((whole * pow10(places) + fraction) * 100, pow10(places)) == rounded_up(
            100 * whole + 10 * tenths + hundredths,
            rest,
            unit,
        ),
{
    let num = (whole * pow10(places) + fraction) * 100;
    if places == 0 {
        assert(whole * pow10(places) == whole) by (nonlinear_arith)
            requires
                pow10(places) == 1,
        ;
        lemma_fundamental_div_mod_converse(num as int, 1, num as int, 0);
    } else if places == 1 {
        assert(pow10(places) == 10) by {
            reveal_with_fuel(pow10, 2);
        }
        assert(whole * pow10(places) == whole * 10) by (nonlinear_arith)
            requires
                pow10(places) == 10,
        ;
        lemma_fundamental_div_mod_converse(num as int, 10, (100 * whole + 10 * tenths) as int, 0);
    } else {
        assert(pow10(places) == 100 * unit) by {
            assert(pow10((places - 1) as nat) == 10 * pow10((places - 2) as nat));
            assert(pow10(places) == 10 * pow10((places - 1) as nat));
        }
        assert(whole * pow10(places) == whole * (100 * unit));
        lemma_round_split(whole, 10 * tenths + hundredths, unit, rest);
    }
}

/// Reads a decimal fraction and gives a hundred times its value, rounded to
/// the nearest integer, ties to even. Fails on a text that is no fraction,
/// and on one whose result does not fit in a `u32`.
#[verifier::spinoff_prover]
pub fn parse_hundredths(text: &str) -> (parsed: Option<u32>)
    ensures
        parsed is Some <==> is_fraction(text@) && hundredths_of(text@) <= u32::MAX,
        parsed matches Some(v) ==> v == hundredths_of(text@),
{
    let ghost s = text@;
    let n = text.unicode_len();
    let mut i: usize = 0;
    let mut whole: u64 = 0;
    while i < n && digit_at(text, i).is_some()
        invariant
            n == s.len(),
            s == text@,
            i <= n,
            forall|j: int| 0 <= j < i ==> is_digit(#[trigger] s[j]),
            whole == capped(decimal_value(s.subrange(0, i as int))),
        decreases n - i,
    {
        let d = digit_at(text, i).unwrap();
        proof {
            assert(s.subrange(0, i + 1).drop_last() =~= s.subrange(0, i as int));
            assert(s.subrange(0, i + 1).last() == s[i as int]);
        }
        let next: u64 = whole * 10 + d as u64;
        whole = if next < WHOLE_LIMIT {
            next
        } else {
            WHOLE_LIMIT
        };
        i += 1;
    }
    let point = i;
    let mut tenths: u64 = 0;
    let mut hundredths: u64 = 0;
    let mut state = Remainder::BelowHalf;
    let ghost mut fraction_value: nat = 0;
    let ghost mut rest: nat = 0;
    let ghost mut unit: nat = 1;
    let mut j: usize = point;
    if point < n {
        if text.get_char(point) != '.' || n < 2 {
            proof {
                assert forall|q: int| !is_fraction_split(s, q) by {
                    if is_fraction_split(s, q) {
                        lemma_point_is_first_non_digit(s, q, point as int);
                    }
                }
            }
            return None;
        }
        j = point + 1;
        proof {
            assert(s.subrange(point + 1, j as int) =~= Seq::<char>::empty());
        }
        while j < n && digit_at(text, j).is_some()
            invariant
                n == s.len(),
                s == text@,
                point < j <= n,
                forall|m: int| point < m < j ==> is_digit(#[trigger] s[m]),
                fraction_value == decimal_value(s.subrange(point + 1, j as int)),
                tenths < 10,
                hundredths < 10,
                j == point + 1 ==> fraction_value == 0 && tenths == 0 && hundredths == 0,
                j == point + 2 ==> fraction_value == tenths && hundredths == 0,
                j <= point + 3 ==> state == Remainder::BelowHalf && rest == 0 && unit == 1,
                j >= point + 3 ==> unit == pow10((j - point - 3) as nat),
                j >= point + 3 ==> fraction_value == (10 * tenths + hundredths) * unit + rest,
                unit == 1 || unit % 10 == 0,
                rest < unit,
                remainder_is(state, rest, unit),
            decreases n - j,
        {
            let d = digit_at(text, j).unwrap();
            let count = j - point - 1;
            proof {
                assert(s.subrange(point + 1, j + 1).drop_last() =~= s.subrange(
                    point + 1,
                    j as int,
                ));
                assert(s.subrange(point + 1, j + 1).last() == s[j as int]);
                fraction_value = fraction_value * 10 + d as nat;
            }
            if count == 0 {
                tenths = d as u64;
            } else if count == 1 {
                hundredths = d as u64;
            } else {
                proof {
                    assert(pow10((count - 1) as nat) == 10 * pow10((count - 2) as nat));
                    assert(fraction_value == (10 * tenths + hundredths) * (unit * 10) + (rest * 10
                        + d)) by (nonlinear_arith)
                        requires
                            fraction_value == ((10 * tenths + hundredths) * unit + rest) * 10 + d,
                    ;
                    assert(unit == 1 || unit % 2 == 0);
                }
                state =
                match state {
                    Remainder::BelowHalf => {
                        if count == 2 {
                            if d < 5 {
                                Remainder::BelowHalf
                            } else if d == 5 {
                                Remainder::Half
                            } else {
                                Remainder::AboveHalf
                            }
                        } else {
                            Remainder::BelowHalf
                        }
                    },
                    Remainder::Half => {
                        if d == 0 {
                            Remainder::Half
                        } else {
                            Remainder::AboveHalf
                        }
                    },
                    Remainder::AboveHalf => Remainder::AboveHalf,
                };
                proof {
                    rest = rest * 10 + d as nat;
                    unit = unit * 10;
                }
            }
            j += 1;
        }
        if j < n {
            proof {
                assert forall|q: int| !is_fraction_split(s, q) by {
                    if is_fraction_split(s, q) {
                        lemma_point_is_first_non_digit(s, q, point as int);
                        assert(is_digit(s[j as int]));
                    }
                }
            }
            return None;
        }
    } else if n == 0 {
        proof {
            assert forall|q: int| !is_fraction_split(s, q) by {}
        }
        return None;
    }
    proof {
        assert(is_fraction_split(s, point as int));
        lemma_point_is_first_non_digit(s, point_of(s), point as int);
        let places = fraction_digits(s).len();
        let value = decimal_value(s.subrange(0, point as int));
        assert(fraction_value == decimal_value(fraction_digits(s)));
        if whole >= WHOLE_LIMIT {
            lemma_pow10_positive(places);
            assert((value * pow10(places) + fraction_value) * 100 >= (100 * value) * pow10(places))
                by (nonlinear_arith);
            lemma_round_at_least(
                (value * pow10(places) + fraction_value) * 100,
                pow10(places),
                100 * value,
            );
        } else {
            lemma_hundredths_by_places(
                value,
                places,
                fraction_value,
                tenths as nat,
                hundredths as nat,
                unit,
                rest,
            );
        }
    }
    if whole >= WHOLE_LIMIT {
        return None;
    }
    let base: u64 = whole * 100 + tenths * 10 + hundredths;
    let rounded: u64 = match state {
        Remainder::BelowHalf => base,
        Remainder::Half => if base % 2 == 0 {
            base
        } else {
            base + 1
        },
        Remainder::AboveHalf => base + 1,
    };
    if rounded > u32::MAX as u64 {
        None
    } else {
        Some(rounded as u32)
    }
}

/// Every power of ten is positive.
proof fn lemma_pow10_positive(k: nat)
    ensures
        pow10(k) > 0,
    decreases k,
{
    if k > 0 {
        lemma_pow10_positive((k - 1) as nat);
    }
}

/// The canonical numeral of a number is made of digits, is not empty, and
/// writes that number.
pub proof fn lemma_decimal_text_value(n: nat)
    ensures
        decimal_text(n).len() > 0,
        all_digits(decimal_text(n)),
        decimal_value(decimal_text(n)) == n,
    decreases n,
{
    if n < 10 {
        let text = decimal_text(n);
        assert(text.drop_last() =~= Seq::<char>::empty());
        assert(decimal_value(text.drop_last()) == 0);
        assert(text.last() == digit_char(n));
    } else {
        lemma_decimal_text_value(n / 10);
        let text = decimal_text(n);
        assert(text.drop_last() =~= decimal_text(n / 10));
        assert(text.last() == digit_char(n % 10));
        assert forall|i: int| 0 <= i < text.len() implies is_digit(#[trigger] text[i]) by {
            if i < text.len() - 1 {
                assert(text[i] == decimal_text(n / 10)[i]);
            }
        }
    }
}

/// Whether `s` writes a port number as `u16` parsing takes it: an optional
/// plus sign, then at least one digit, with a value of at most 65535.
pub open spec fn is_port_text(s: Seq<char>) -> bool {
    let digits = unsigned_digits(s);
    &&& digits.len() > 0
    &&& all_digits(digits)
    &&& decimal_value(digits) <= u16::MAX
}

/// The text `s` without the plus sign that it may begin with.
pub open spec fn unsigned_digits(s: Seq<char>) -> Seq<char> {
    if s.len() > 0 && s[0] == '+' {
        s.subrange(1, s.len() as int)
    } else {
        s
    }
}

/// The port that `s` writes, and 0 where it writes none.
pub open spec fn port_of(s: Seq<char>) -> u16 {
    if is_port_text(s) {
        decimal_value(unsigned_digits(s)) as u16
    } else {
        0
    }
}

/// Reads a port number; a text that writes none reads as port 0.
pub fn parse_port(text: &str) -> (port: u16)
    ensures
        port == port_of(text@),
{
    let ghost s = text@;
    let n = text.unicode_len();
    let start: usize = if n > 0 && text.get_char(0) == '+' {
        1
    } else {
        0
    };
    let ghost digits = unsigned_digits(s);
    if start == n {
        return 0;
    }
    let mut i: usize = start;
    let mut value: u32 = 0;
    while i < n && digit_at(text, i).is_some()
        invariant
            n == s.len(),
            s == text@,
            digits == s.subrange(start as int, n as int),
            start <= i <= n,
            forall|j: int| start <= j < i ==> is_digit(#[trigger] s[j]),
            value as nat == if decimal_value(s.subrange(start as int, i as int)) <= u16::MAX {
                decimal_value(s.subrange(start as int, i as int))
            } else {
                0x1_0000
            },
        decreases n - i,
    {
        let d = digit_at(text, i).unwrap();
        proof {
            assert(s.subrange(start as int, i + 1).drop_last() =~= s.subrange(
                start as int,
                i as int,
            ));
            assert(s.subrange(start as int, i + 1).last() == s[i as int]);
        }
        let next: u32 = value * 10 + d as u32;
        value = if next <= u16::MAX as u32 {
            next
        } else {
            0x1_0000
        };
        i += 1;
    }
    if i < n {
        proof {
            assert(digits[i - start] == s[i as int]);
        }
        return 0;
    }
    proof {
        assert(s.subrange(start as int, i as int) =~= digits);
        assert forall|j: int| 0 <= j < digits.len() implies is_digit(#[trigger] digits[j]) by {
            assert(digits[j] == s[start + j]);
        }
    }
    if value > u16::MAX as u32 {
        0
    } else {
        value as u16
    }
}

/// Reading the numeral of a port gives the port back.
pub proof fn lemma_port_round_trip(port: u16)
    ensures
        port_of(decimal_text(port as nat)) == port,
{
    let text = decimal_text(port as nat);
    lemma_decimal_text_value(port as nat);
    assert(is_digit(text[0]));
    assert(unsigned_digits(text) == text);
}

} // verus!
