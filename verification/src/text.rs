//! Text: comparison, and numbers written out.

use vstd::prelude::*;

verus! {

/// The characters of an optional string.
pub open spec fn text_of(text: Option<String>) -> Option<Seq<char>> {
    match text {
        Some(t) => Some(t@),
        None => None,
    }
}

/// The characters of an optional string slice.
pub open spec fn slice_of(text: Option<&str>) -> Option<Seq<char>> {
    match text {
        Some(t) => Some(t@),
        None => None,
    }
}

/// The characters of every string of a list.
pub open spec fn texts(list: Seq<String>) -> Seq<Seq<char>> {
    list.map_values(|t: String| t@)
}

/// Whether two texts are the same.
pub fn same(a: &str, b: &str) -> (r: bool)
    ensures
        r == (a@ == b@),
{
    let left = a.as_bytes();
    let right = b.as_bytes();
    proof {
        vstd::utf8::encode_utf8_decode_utf8(a@);
        vstd::utf8::encode_utf8_decode_utf8(b@);
    }
    if left.len() != right.len() {
        return false;
    }
    let mut i: usize = 0;
    while i < left.len()
        invariant
            i <= left@.len(),
            left@.len() == right@.len(),
            left@ == vstd::utf8::encode_utf8(a@),
            right@ == vstd::utf8::encode_utf8(b@),
            forall|j: int| 0 <= j < i ==> left@[j] == right@[j],
        decreases left@.len() - i,
    {
        if left[i] != right[i] {
            return false;
        }
        i += 1;
    }
    assert(left@ =~= right@);
    true
}

/// A copy of an optional string.
pub fn copy_text(text: &Option<String>) -> (r: Option<String>)
    ensures
        text_of(r) == text_of(*text),
{
    match text {
        Some(t) => Some(t.clone()),
        None => None,
    }
}

/// A copy of an optional string slice as an owned string.
pub fn own_text(text: Option<&str>) -> (r: Option<String>)
    ensures
        text_of(r) == slice_of(text),
{
    match text {
        Some(t) => Some(t.to_owned()),
        None => None,
    }
}

/// One decimal or hexadecimal digit, written out.
pub open spec fn digit(d: nat) -> Seq<char> {
    if d == 0 {
        "0"@
    } else if d == 1 {
        "1"@
    } else if d == 2 {
        "2"@
    } else if d == 3 {
        "3"@
    } else if d == 4 {
        "4"@
    } else if d == 5 {
        "5"@
    } else if d == 6 {
        "6"@
    } else if d == 7 {
        "7"@
    } else if d == 8 {
        "8"@
    } else if d == 9 {
        "9"@
    } else if d == 10 {
        "a"@
    } else if d == 11 {
        "b"@
    } else if d == 12 {
        "c"@
    } else if d == 13 {
        "d"@
    } else if d == 14 {
        "e"@
    } else {
        "f"@
    }
}

fn digit_text(d: u64) -> (r: &'static str)
    requires
        d < 16,
    ensures
        r@ == digit(d as nat),
{
    if d == 0 {
        "0"
    } else if d == 1 {
        "1"
    } else if d == 2 {
        "2"
    } else if d == 3 {
        "3"
    } else if d == 4 {
        "4"
    } else if d == 5 {
        "5"
    } else if d == 6 {
        "6"
    } else if d == 7 {
        "7"
    } else if d == 8 {
        "8"
    } else if d == 9 {
        "9"
    } else if d == 10 {
        "a"
    } else if d == 11 {
        "b"
    } else if d == 12 {
        "c"
    } else if d == 13 {
        "d"
    } else if d == 14 {
        "e"
    } else {
        "f"
    }
}

/// A number in decimal, with no leading zero.
pub open spec fn decimal(n: nat) -> Seq<char>
    decreases n,
{
    if n < 10 {
        digit(n)
    } else {
        decimal(n / 10) + digit(n % 10)
    }
}

/// A signed number in decimal.
pub open spec fn signed_decimal(n: int) -> Seq<char> {
    if n < 0 {
        "-"@ + decimal((-n) as nat)
    } else {
        decimal(n as nat)
    }
}

/// The low sixteen bits of a number as four hexadecimal digits.
pub open spec fn hex4(n: nat) -> Seq<char> {
    digit(n / 4096 % 16) + digit(n / 256 % 16) + digit(n / 16 % 16) + digit(n % 16)
}

/// Writes a number in decimal.
pub fn write_decimal(n: u64) -> (r: String)
    ensures
        r@ == decimal(n as nat),
    decreases n,
{
    if n < 10 {
        digit_text(n).to_owned()
    } else {
        let mut out = write_decimal(n / 10);
        out.append(digit_text(n % 10));
        out
    }
}

/// Writes a number in decimal.
pub fn write_decimal_wide(n: u128) -> (r: String)
    ensures
        r@ == decimal(n as nat),
    decreases n,
{
    if n < 10 {
        digit_text(n as u64).to_owned()
    } else {
        let mut out = write_decimal_wide(n / 10);
        out.append(digit_text((n % 10) as u64));
        out
    }
}

/// Writes a signed number in decimal.
pub fn write_signed(n: i64) -> (r: String)
    ensures
        r@ == signed_decimal(n as int),
{
    if n < 0 {
        let mut out = "-".to_owned();
        let size: u64 = if n == i64::MIN {
            9223372036854775808
        } else {
            (-n) as u64
        };
        out.append(write_decimal(size).as_str());
        out
    } else {
        write_decimal(n as u64)
    }
}

/// Writes the low sixteen bits of a number as four hexadecimal digits.
pub fn write_hex4(n: u64) -> (r: String)
    ensures
        r@ == hex4(n as nat),
{
    let mut out = digit_text(n / 4096 % 16).to_owned();
    out.append(digit_text(n / 256 % 16));
    out.append(digit_text(n / 16 % 16));
    out.append(digit_text(n % 16));
    out
}

/// A decimal digit is one character, the one that many after the zero.
pub proof fn a_digit_is_one_character(d: nat)
    requires
        d < 10,
    ensures
        digit(d).len() == 1,
        digit(d)[0] as nat == 48 + d,
{
    reveal_strlit("0");
    reveal_strlit("1");
    reveal_strlit("2");
    reveal_strlit("3");
    reveal_strlit("4");
    reveal_strlit("5");
    reveal_strlit("6");
    reveal_strlit("7");
    reveal_strlit("8");
    reveal_strlit("9");
}

/// Whether a character is a lower-case hexadecimal digit.
pub open spec fn is_hex(c: char) -> bool {
    '0' as nat <= c as nat <= '9' as nat || 'a' as nat <= c as nat <= 'f' as nat
}

proof fn a_hex_digit_is_one_character(d: nat)
    requires
        d < 16,
    ensures
        digit(d).len() == 1,
        is_hex(digit(d)[0]),
{
    if d < 10 {
        a_digit_is_one_character(d);
    } else {
        reveal_strlit("a");
        reveal_strlit("b");
        reveal_strlit("c");
        reveal_strlit("d");
        reveal_strlit("e");
        reveal_strlit("f");
    }
}

/// Four hexadecimal digits are four characters, each a lower-case one.
pub proof fn four_digits_are_four(n: nat)
    ensures
        hex4(n).len() == 4,
        forall|i: int| 0 <= i < 4 ==> is_hex(#[trigger] hex4(n)[i]),
{
    a_hex_digit_is_one_character(n / 4096 % 16);
    a_hex_digit_is_one_character(n / 256 % 16);
    a_hex_digit_is_one_character(n / 16 % 16);
    a_hex_digit_is_one_character(n % 16);
}

/// Two numbers written the same are the same.
pub proof fn decimals_are_their_own(a: nat, b: nat)
    requires
        decimal(a) == decimal(b),
    ensures
        a == b,
    decreases a + b,
{
    a_digit_is_one_character(a % 10);
    a_digit_is_one_character(b % 10);
    decimal_ends(a);
    decimal_ends(b);
    assert(a % 10 == b % 10);
    if a < 10 && b < 10 {
    } else if a >= 10 && b >= 10 {
        assert(decimal(a).drop_last() =~= decimal(a / 10));
        assert(decimal(b).drop_last() =~= decimal(b / 10));
        decimals_are_their_own(a / 10, b / 10);
    } else if a >= 10 {
        decimal_ends(a / 10);
    } else {
        decimal_ends(b / 10);
    }
}

proof fn decimal_ends(n: nat)
    ensures
        decimal(n).len() > 0,
        decimal(n).last() == digit(n % 10)[0],
        n < 10 ==> decimal(n).len() == 1,
{
    a_digit_is_one_character(n % 10);
}

/// A power of ten.
pub open spec fn ten_to(k: nat) -> nat
    decreases k,
{
    if k == 0 {
        1
    } else {
        10 * ten_to((k - 1) as nat)
    }
}

/// A number below a power of ten has no more digits than that power.
pub proof fn a_decimal_is_short(n: nat, k: nat)
    requires
        k >= 1,
        n < ten_to(k),
    ensures
        1 <= decimal(n).len() <= k,
    decreases k,
{
    a_digit_is_one_character(n % 10);
    if n >= 10 {
        assert(ten_to(k) == 10 * ten_to((k - 1) as nat));
        assert(ten_to(0) == 1);
        assert(k >= 2);
        a_decimal_is_short(n / 10, (k - 1) as nat);
    } else {
        a_digit_is_one_character(n);
    }
}

/// A number of 64 bits has at most twenty digits.
pub proof fn a_decimal_of_64_bits_is_short(n: nat)
    requires
        n <= u64::MAX,
    ensures
        1 <= decimal(n).len() <= 20,
{
    reveal_with_fuel(ten_to, 21);
    a_decimal_is_short(n, 20);
}

/// The number some decimal digits say.
pub open spec fn read_decimal(digits: Seq<char>) -> int
    decreases digits.len(),
{
    if digits.len() == 0 {
        0
    } else {
        10 * read_decimal(digits.drop_last()) + (digits.last() as nat - '0' as nat)
    }
}

/// A number in decimal is digits that say it, and only zero begins with a zero.
pub proof fn a_decimal_reads_back(n: nat)
    ensures
        read_decimal(decimal(n)) == n,
        decimal(n).len() > 0,
        forall|i: int|
            0 <= i < decimal(n).len() ==> '0' as nat <= (#[trigger] decimal(n)[i]) as nat
                <= '9' as nat,
        n > 0 ==> decimal(n)[0] != '0',
    decreases n,
{
    reveal_with_fuel(read_decimal, 2);
    a_digit_is_one_character(n % 10);
    if n < 10 {
        assert(digit(n).drop_last() =~= Seq::empty());
    } else {
        a_decimal_reads_back(n / 10);
        assert(decimal(n).drop_last() =~= decimal(n / 10));
        assert(decimal(n).last() == digit(n % 10)[0]);
        assert(decimal(n)[0] == decimal(n / 10)[0]);
    }
}

/// A signed number in decimal is a minus sign exactly where it is below zero, and then
/// the digits that say how large it is.
pub proof fn a_signed_decimal_reads_back(n: int)
    ensures
        n >= 0 ==> read_decimal(signed_decimal(n)) == n && signed_decimal(n)[0] != '-',
        n < 0 ==> signed_decimal(n)[0] == '-' && read_decimal(signed_decimal(n).skip(1)) == -n,
{
    reveal_strlit("-");
    if n >= 0 {
        a_decimal_reads_back(n as nat);
    } else {
        a_decimal_reads_back((-n) as nat);
        assert(signed_decimal(n).skip(1) =~= decimal((-n) as nat));
    }
}

/// The value of a lower-case hexadecimal digit.
pub open spec fn hex_value(c: char) -> int {
    if c as nat <= '9' as nat {
        c as nat - '0' as nat
    } else {
        c as nat - 'a' as nat + 10
    }
}

/// Four hexadecimal digits say the low sixteen bits, the highest first.
pub proof fn four_digits_read_back(n: nat)
    ensures
        hex4(n).len() == 4,
        hex_value(hex4(n)[0]) * 4096 + hex_value(hex4(n)[1]) * 256 + hex_value(hex4(n)[2]) * 16
            + hex_value(hex4(n)[3]) == n % 65536,
{
    a_hex_digit_has_its_value(n / 4096 % 16);
    a_hex_digit_has_its_value(n / 256 % 16);
    a_hex_digit_has_its_value(n / 16 % 16);
    a_hex_digit_has_its_value(n % 16);
    sixteen_bits_are_four_digits(n);
    assert(hex4(n)[0] == digit(n / 4096 % 16)[0]);
    assert(hex4(n)[1] == digit(n / 256 % 16)[0]);
    assert(hex4(n)[2] == digit(n / 16 % 16)[0]);
    assert(hex4(n)[3] == digit(n % 16)[0]);
}

proof fn sixteen_bits_are_four_digits(n: nat)
    ensures
        n / 4096 % 16 * 4096 + n / 256 % 16 * 256 + n / 16 % 16 * 16 + n % 16 == n % 65536,
{
    let q = n / 16;
    let r = q / 16;
    let s = r / 16;
    assert(n / 256 == r && n / 4096 == s);
    assert(n == 65536 * (s / 16) + s % 16 * 4096 + r % 16 * 256 + q % 16 * 16 + n % 16);
}

proof fn a_hex_digit_has_its_value(d: nat)
    requires
        d < 16,
    ensures
        digit(d).len() == 1,
        hex_value(digit(d)[0]) == d,
{
    a_hex_digit_is_one_character(d);
    if d < 10 {
        a_digit_is_one_character(d);
    } else {
        reveal_strlit("a");
        reveal_strlit("b");
        reveal_strlit("c");
        reveal_strlit("d");
        reveal_strlit("e");
        reveal_strlit("f");
        assert('a' as nat == 97 && 'b' as nat == 98 && 'c' as nat == 99);
        assert('d' as nat == 100 && 'e' as nat == 101 && 'f' as nat == 102);
    }
}

/// Whether a text holds another somewhere.
pub open spec fn holds(text: Seq<char>, part: Seq<char>) -> bool {
    exists|i: int|
        0 <= i && i + part.len() <= text.len() && #[trigger] text.subrange(
            i,
            i + part.len(),
        ) == part
}

/// A text that is put together holds what it was put together of.
pub proof fn a_text_holds_its_parts(before: Seq<char>, part: Seq<char>, after: Seq<char>)
    ensures
        holds(before + part + after, part),
{
    let text = before + part + after;
    let i = before.len() as int;
    assert(text.subrange(i, i + part.len()) =~= part);
}

/// A part that a text holds is held by whatever holds that text.
pub proof fn what_is_held_is_held_further(text: Seq<char>, part: Seq<char>, more: Seq<char>)
    requires
        holds(text, part),
    ensures
        holds(text + more, part),
        holds(more + text, part),
{
    let i = choose|i: int|
        0 <= i && i + part.len() <= text.len() && #[trigger] text.subrange(i, i + part.len())
            == part;
    assert((text + more).subrange(i, i + part.len()) =~= part);
    let j = more.len() + i;
    assert((more + text).subrange(j, j + part.len()) =~= part);
}

} // verus!
