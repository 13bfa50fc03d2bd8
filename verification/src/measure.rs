//! Lengths and places, in whole millionths of a point or of a pixel.
//!
//! Everything that is measured here is a whole number of millionths, so that what
//! is decided about a place is decided exactly.

use vstd::arithmetic::power2;
use vstd::prelude::*;

use crate::text;

verus! {

/// One point, or one pixel.
pub const UNIT: i64 = 1_000_000;

/// The nearest whole number, halves away from zero.
pub open spec fn rounded(length: int) -> int {
    if length >= 0 {
        (length + 500_000) / 1_000_000
    } else {
        -((500_000 - length) / 1_000_000)
    }
}

/// The whole number is the nearest there is, and a half goes away from zero.
pub proof fn a_length_rounds_to_the_nearest(length: int)
    ensures
        -UNIT <= 2 * (rounded(length) * UNIT - length) <= UNIT,
        length >= 0 ==> -UNIT < 2 * (rounded(length) * UNIT - length),
        length < 0 ==> 2 * (rounded(length) * UNIT - length) < UNIT,
{
}

/// The nearest whole number of points or pixels, halves away from zero.
pub fn round(length: i64) -> (r: i64)
    ensures
        r == rounded(length as int),
{
    if length >= 0 {
        ((length as i128 + 500_000) / 1_000_000) as i64
    } else {
        let size: i128 = (500_000 - length as i128) / 1_000_000;
        (-size) as i64
    }
}

/// The distance between two numbers.
pub open spec fn distance(a: int, b: int) -> int {
    if a >= b {
        a - b
    } else {
        b - a
    }
}

/// Exactly `places` decimal digits of a number, with leading zeros.
pub open spec fn padded(n: nat, places: nat) -> Seq<char>
    decreases places,
{
    if places == 0 {
        Seq::empty()
    } else {
        padded(n / 10, (places - 1) as nat) + text::digit(n % 10)
    }
}

/// The decimal places of a fraction, with no trailing zero.
pub open spec fn fraction(n: nat, places: nat) -> Seq<char>
    decreases places,
{
    if places == 0 {
        Seq::empty()
    } else if n % 10 == 0 {
        fraction(n / 10, (places - 1) as nat)
    } else {
        padded(n, places)
    }
}

/// A length in decimal: as many places as it needs, and none where it is whole.
pub open spec fn written(length: int) -> Seq<char> {
    let size = if length < 0 {
        (-length) as nat
    } else {
        length as nat
    };
    let sign = if length < 0 {
        "-"@
    } else {
        ""@
    };
    let whole = sign + text::decimal(size / 1_000_000);
    if size % 1_000_000 == 0 {
        whole
    } else {
        whole + "."@ + fraction(size % 1_000_000, 6)
    }
}

pub fn write_padded(n: u64, places: u64) -> (r: String)
    ensures
        r@ == padded(n as nat, places as nat),
    decreases places,
{
    if places == 0 {
        String::new()
    } else {
        let mut out = write_padded(n / 10, places - 1);
        let last = text::write_decimal(n % 10);
        out.append(last.as_str());
        out
    }
}

fn write_fraction(n: u64, places: u64) -> (r: String)
    ensures
        r@ == fraction(n as nat, places as nat),
    decreases places,
{
    if places == 0 {
        String::new()
    } else if n % 10 == 0 {
        write_fraction(n / 10, places - 1)
    } else {
        write_padded(n, places)
    }
}

/// Writes a length in decimal.
pub fn write(length: i64) -> (r: String)
    ensures
        r@ == written(length as int),
{
    let size: u64 = if length == i64::MIN {
        9223372036854775808
    } else if length < 0 {
        (-length) as u64
    } else {
        length as u64
    };
    let mut out = if length < 0 {
        "-".to_owned()
    } else {
        "".to_owned()
    };
    out.append(text::write_decimal(size / 1_000_000).as_str());
    if size % 1_000_000 != 0 {
        out.append(".");
        out.append(write_fraction(size % 1_000_000, 6).as_str());
    }
    out
}

/// The exponent a double's bits hold, as they hold it.
pub open spec fn raw_exponent(bits: u64) -> int {
    bits as int / 0x10_0000_0000_0000 % 2048
}

/// The whole number a double's magnitude is, before its power of two.
pub open spec fn significand(bits: u64) -> nat {
    let low = bits as int % 0x10_0000_0000_0000;
    (if raw_exponent(bits) == 0 {
        low
    } else {
        low + 0x10_0000_0000_0000
    }) as nat
}

/// The power of two a double's significand is to be taken with.
pub open spec fn binary_power(bits: u64) -> int {
    if raw_exponent(bits) == 0 {
        -1074
    } else {
        raw_exponent(bits) - 1075
    }
}

/// How many millionths the magnitude of a double is, to the nearest whole one, a
/// half counted up.
pub open spec fn millionths_size(bits: u64) -> nat {
    let n = significand(bits) * 1_000_000;
    if binary_power(bits) >= 0 {
        n * power2::pow2(binary_power(bits) as nat)
    } else {
        let d = power2::pow2((-binary_power(bits)) as nat);
        (2 * n + d) / (2 * d)
    }
}

/// A double as a length, given by its bits: to the nearest millionth, halves away
/// from zero, and no further from zero than a length can be.
pub open spec fn millionths(bits: u64) -> int {
    let size = if millionths_size(bits) <= i64::MAX {
        millionths_size(bits) as int
    } else {
        i64::MAX as int
    };
    if bits < 0x8000_0000_0000_0000 {
        size
    } else {
        -size
    }
}

/// A whole number of points or pixels as a length, and no longer than one can be.
pub open spec fn whole(n: int) -> int {
    if n * UNIT > i64::MAX {
        i64::MAX as int
    } else if n * UNIT < -i64::MAX {
        -i64::MAX
    } else {
        n * UNIT
    }
}

/// `n` doubled `times` times over, unless it grows past what a length can be.
fn doubled(n: u128, times: u64) -> (r: Option<u128>)
    requires
        n < 0x400_0000_0000_0000_0000,
    ensures
        r is Some <==> n * power2::pow2(times as nat) <= i64::MAX,
        r matches Some(m) ==> m == n * power2::pow2(times as nat),
{
    let mut grown: u128 = n;
    let mut done: u64 = 0;
    proof {
        power2::lemma2_to64();
        assert(n * 1 == n);
    }
    while done < times && grown <= i64::MAX as u128 && grown > 0
        invariant
            done <= times,
            n < 0x400_0000_0000_0000_0000,
            grown == n * power2::pow2(done as nat),
            grown < 0x400_0000_0000_0000_0000,
        decreases times - done,
    {
        proof {
            power2::lemma_pow2_unfold((done + 1) as nat);
            assert(n * (2 * power2::pow2(done as nat)) == 2 * (n * power2::pow2(done as nat))) by (nonlinear_arith);
        }
        grown = grown * 2;
        done += 1;
    }
    proof {
        let rest = (times - done) as nat;
        power2::lemma_pow2_adds(done as nat, rest);
        power2::lemma_pow2_pos(rest);
        assert(n * (power2::pow2(done as nat) * power2::pow2(rest)) == (n * power2::pow2(done as nat)) * power2::pow2(rest))
            by (nonlinear_arith);
        assert(grown * power2::pow2(rest) >= grown) by (nonlinear_arith)
            requires
                grown >= 0,
                power2::pow2(rest) >= 1,
        ;
        if grown == 0 {
            assert(0 * power2::pow2(rest) == 0);
        }
        if done == times {
            power2::lemma2_to64();
            assert(grown * 1 == grown);
        }
    }
    if grown > i64::MAX as u128 {
        None
    } else {
        Some(grown)
    }
}

/// A number halved `times` times over, to the nearest whole number, a half up.
fn halved(n: u128, times: u64) -> (r: u128)
    requires
        n < 0x400_0000_0000_0000_0000,
        1 <= times,
    ensures
        r == (2 * (n as nat) + power2::pow2(times as nat)) / (2 * power2::pow2(times as nat)),
        r <= n,
{
    proof {
        power2::lemma2_to64();
        power2::lemma_pow2_adds(64, 14);
        power2::lemma_pow2_pos(times as nat);
    }
    if times >= 78 {
        proof {
            if times > 78 {
                power2::lemma_pow2_strictly_increases(78, times as nat);
            }
            let d = power2::pow2(times as nat) as int;
            assert((2 * n + d) / (2 * d) == 0) by (nonlinear_arith)
                requires
                    0 <= 2 * n < d,
            ;
        }
        return 0;
    }
    let mut d: u128 = 1;
    let mut done: u64 = 0;
    while done < times
        invariant
            done <= times < 78,
            d == power2::pow2(done as nat),
            power2::pow2(78) == 0x4000_0000_0000_0000_0000,
        decreases times - done,
    {
        proof {
            power2::lemma_pow2_unfold((done + 1) as nat);
            power2::lemma_pow2_strictly_increases(done as nat, 78);
        }
        d = d * 2;
        done += 1;
    }
    proof {
        power2::lemma_pow2_strictly_increases(times as nat, 78);
        power2::lemma_pow2_unfold(times as nat);
        power2::lemma_pow2_pos((times - 1) as nat);
        assert((2 * n + d) / (2 * d) <= n) by (nonlinear_arith)
            requires
                2 <= d,
                0 <= n,
        ;
    }
    (2 * n + d) / (2 * d)
}

/// A double as a length, given by its bits.
pub fn from_double(bits: u64) -> (r: i64)
    ensures
        r == millionths(bits),
{
    let raw: u64 = bits / 0x10_0000_0000_0000 % 2048;
    let low: u64 = bits % 0x10_0000_0000_0000;
    let whole: u64 = if raw == 0 {
        low
    } else {
        low + 0x10_0000_0000_0000
    };
    let n: u128 = whole as u128 * 1_000_000;
    let size: Option<u128> = if raw >= 1075 {
        doubled(n, raw - 1075)
    } else {
        let fine: u64 = if raw == 0 {
            1074
        } else {
            1075 - raw
        };
        let near: u128 = halved(n, fine);
        if near > i64::MAX as u128 {
            None
        } else {
            Some(near)
        }
    };
    let capped: i64 = match size {
        Some(near) => near as i64,
        None => i64::MAX,
    };
    if bits < 0x8000_0000_0000_0000 {
        capped
    } else {
        -capped
    }
}

/// A whole number of points or pixels as a length.
pub fn from_whole(n: i64) -> (r: i64)
    ensures
        r == whole(n as int),
        -i64::MAX <= n * 1_000_000 <= i64::MAX ==> r == n * 1_000_000,
        n * 1_000_000 > i64::MAX ==> r == i64::MAX,
        n * 1_000_000 < -i64::MAX ==> r == -i64::MAX,
{
    let wide: i128 = n as i128 * 1_000_000;
    if wide > i64::MAX as i128 {
        i64::MAX
    } else if wide < -(i64::MAX as i128) {
        -i64::MAX
    } else {
        wide as i64
    }
}

proof fn padded_digits_read_back(n: nat, places: nat)
    requires
        n < text::ten_to(places),
    ensures
        padded(n, places).len() == places,
        text::read_decimal(padded(n, places)) == n,
        places > 0 ==> padded(n, places).last() as nat == 48 + n % 10,
    decreases places,
{
    if places > 0 {
        padded_digits_read_back(n / 10, (places - 1) as nat);
        text::a_digit_is_one_character(n % 10);
        assert(padded(n, places).drop_last() =~= padded(n / 10, (places - 1) as nat));
    }
}

proof fn a_fraction_reads_back(n: nat, places: nat)
    requires
        0 < n < text::ten_to(places),
    ensures
        1 <= fraction(n, places).len() <= places,
        text::read_decimal(fraction(n, places)) * text::ten_to(
            (places - fraction(n, places).len()) as nat,
        ) == n,
        fraction(n, places).last() != '0',
    decreases places,
{
    if n % 10 == 0 {
        a_fraction_reads_back(n / 10, (places - 1) as nat);
        let digits = fraction(n / 10, (places - 1) as nat);
        let read = text::read_decimal(digits);
        let less = text::ten_to((places - 1 - digits.len()) as nat);
        assert(text::ten_to((places - digits.len()) as nat) == 10 * less);
        assert(read * (10 * less) == 10 * (read * less)) by (nonlinear_arith);
        assert(fraction(n, places) == digits);
    } else {
        padded_digits_read_back(n, places);
        assert(text::ten_to(0) == 1);
        assert('0' as nat == 48);
        let read = text::read_decimal(fraction(n, places));
        assert(read * 1 == read) by (nonlinear_arith);
    }
}

/// Whether some digits say a number of millionths: so many of them its whole units,
/// and then, where it is not whole, a point and up to six places that do not end in a
/// zero.
pub open spec fn says(digits: Seq<char>, size: int, k: int) -> bool {
    &&& 0 < k <= digits.len()
    &&& text::read_decimal(digits.take(k)) == size / 1_000_000
    &&& k == digits.len() ==> size % 1_000_000 == 0
    &&& k < digits.len() ==> {
        let places = digits.skip(k + 1);
        &&& digits[k] == '.'
        &&& 1 <= places.len() <= 6
        &&& text::read_decimal(places) * text::ten_to((6 - places.len()) as nat) == size % 1_000_000
        &&& places.last() != '0'
    }
}

proof fn the_places_are_said(size: nat)
    ensures
        ({
            let whole = text::decimal(size / 1_000_000);
            let digits = if size % 1_000_000 == 0 {
                whole
            } else {
                whole + "."@ + fraction(size % 1_000_000, 6)
            };
            says(digits, size as int, whole.len() as int) && digits[0] != '-'
        }),
{
    reveal_strlit(".");
    let whole = text::decimal(size / 1_000_000);
    let k = whole.len() as int;
    text::a_decimal_reads_back(size / 1_000_000);
    assert('-' as nat == 45 && '0' as nat == 48);
    if size % 1_000_000 == 0 {
        assert(whole.take(k) =~= whole);
    } else {
        let rest = fraction(size % 1_000_000, 6);
        let digits = whole + "."@ + rest;
        reveal_with_fuel(text::ten_to, 7);
        a_fraction_reads_back(size % 1_000_000, 6);
        assert(digits.take(k) =~= whole);
        assert(digits.skip(k + 1) =~= rest);
        assert(digits[k] == '.');
        assert(digits[0] == whole[0]);
    }
}

/// A length in decimal reads back as itself: a minus sign exactly where it is below
/// zero, and then what says how long it is.
pub proof fn a_length_reads_back(length: int)
    ensures
        length >= 0 ==> written(length)[0] != '-' && exists|k: int| #[trigger]
            says(written(length), length, k),
        length < 0 ==> written(length)[0] == '-' && exists|k: int| #[trigger]
            says(written(length).skip(1), -length, k),
{
    reveal_strlit("-");
    reveal_strlit("");
    let size = if length < 0 {
        (-length) as nat
    } else {
        length as nat
    };
    let whole = text::decimal(size / 1_000_000);
    let k = whole.len() as int;
    let digits = if size % 1_000_000 == 0 {
        whole
    } else {
        whole + "."@ + fraction(size % 1_000_000, 6)
    };
    the_places_are_said(size);
    assert(says(digits, size as int, k));
    if length < 0 {
        assert(written(length) =~= "-"@ + digits);
        assert(written(length).skip(1) =~= digits);
    } else {
        assert(written(length) =~= digits);
    }
}

/// A double is the length nearest to the number its bits stand for: its sign, its
/// fraction taken with the leading one that all but the smallest have, and the power
/// of two its exponent says. One past what a length can be is the longest there is.
pub proof fn a_double_is_the_nearest_length(bits: u64, sign: int, exponent: int, low: int)
    requires
        0 <= sign <= 1,
        0 <= exponent < 2048,
        0 <= low < 0x10_0000_0000_0000,
        bits == sign * 0x8000_0000_0000_0000 + exponent * 0x10_0000_0000_0000 + low,
    ensures
        ({
            let size = if sign == 1 {
                -millionths(bits)
            } else {
                millionths(bits)
            };
            let n = 1_000_000 * (if exponent == 0 {
                low
            } else {
                low + 0x10_0000_0000_0000
            });
            let down = power2::pow2(
                (if exponent == 0 {
                    1074
                } else {
                    1075 - exponent
                }) as nat,
            );
            &&& 0 <= size <= i64::MAX
            &&& exponent >= 1075 && size < i64::MAX ==> size == n * power2::pow2(
                (exponent - 1075) as nat,
            )
            &&& exponent >= 1075 && size == i64::MAX ==> n * power2::pow2((exponent - 1075) as nat)
                >= i64::MAX
            &&& exponent < 1075 && size < i64::MAX ==> -(down as int) < 2 * (size * down - n)
                <= down
            &&& exponent < 1075 && size == i64::MAX ==> 2 * n >= 2 * (size * down) - down
        }),
{
    assert(raw_exponent(bits) == exponent);
    assert(bits as int % 0x10_0000_0000_0000 == low);
    let n = 1_000_000 * (if exponent == 0 {
        low
    } else {
        low + 0x10_0000_0000_0000
    });
    assert(significand(bits) * 1_000_000 == n);
    if exponent < 1075 {
        let down = power2::pow2((-binary_power(bits)) as nat) as int;
        power2::lemma_pow2_pos((-binary_power(bits)) as nat);
        let twice = 2 * n + down;
        vstd::arithmetic::div_mod::lemma_fundamental_div_mod(twice, 2 * down);
        vstd::arithmetic::div_mod::lemma_mod_bound(twice, 2 * down);
        let near = twice / (2 * down);
        let rest = twice % (2 * down);
        assert(2 * (near * down) == twice - rest) by (nonlinear_arith)
            requires
                twice == (2 * down) * near + rest,
        ;
        assert(near == millionths_size(bits));
        if near > i64::MAX {
            assert(near * down >= i64::MAX * down) by (nonlinear_arith)
                requires
                    near > i64::MAX,
                    down > 0,
            ;
        }
    }
}

/// A distance is how far it is between two numbers, whichever comes first.
pub proof fn a_distance_is_between_two(a: int, b: int)
    ensures
        distance(a, b) >= 0,
        distance(a, b) == a - b || distance(a, b) == b - a,
        distance(a, b) == distance(b, a),
{
}

} // verus!
