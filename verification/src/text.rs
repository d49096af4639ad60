//! Text helpers: conversions between strings and character vectors, and the
//! decimal, hexadecimal and binary notations of integers.

use vstd::prelude::*;
use vstd::string::StringExecFns;

verus! {

/// Appends one character to a string.
///
/// Trusted: wraps `String::push`, which the standard library documents as
/// appending the given character to the end of the string.
#[verifier::external_body]
pub(crate) fn push_char(s: &mut String, c: char)
    ensures
        final(s)@ == old(s)@.push(c),
{
    s.push(c);
}

/// The characters of a string, in order.
pub fn chars_of(s: &str) -> (r: Vec<char>)
    ensures
        r@ == s@,
{
    let mut out: Vec<char> = Vec::new();
    for c in it: s.chars()
        invariant
            out@ == it.seq().take(it.index() as int),
            it.seq() == s@,
    {
        out.push(c);
    }
    out
}

/// The string made of the given characters, in order.
pub fn string_of(chars: &Vec<char>) -> (r: String)
    ensures
        r@ == chars@,
{
    let mut out = String::new();
    let mut i: usize = 0;
    while i < chars.len()
        invariant
            i <= chars@.len(),
            out@ == chars@.take(i as int),
        decreases chars@.len() - i,
    {
        push_char(&mut out, chars[i]);
        i += 1;
        assert(chars@.take(i as int) == chars@.take(i as int - 1).push(chars@[i as int - 1]));
    }
    assert(chars@.take(chars@.len() as int) == chars@);
    out
}

/// The concatenation of two strings.
pub fn concat(a: &str, b: &str) -> (r: String)
    ensures
        r@ == a@ + b@,
{
    let mut out = String::from_str(a);
    out.append(b);
    out
}

/// The concatenation of three strings.
pub fn concat3(a: &str, b: &str, c: &str) -> (r: String)
    ensures
        r@ == a@ + b@ + c@,
{
    let mut out = String::from_str(a);
    out.append(b);
    out.append(c);
    out
}

/// The character that stands for the digit `d`, for `d` below sixteen, in
/// lower case.
pub open spec fn digit_char(d: int) -> char {
    if d == 0 {
        '0'
    } else if d == 1 {
        '1'
    } else if d == 2 {
        '2'
    } else if d == 3 {
        '3'
    } else if d == 4 {
        '4'
    } else if d == 5 {
        '5'
    } else if d == 6 {
        '6'
    } else if d == 7 {
        '7'
    } else if d == 8 {
        '8'
    } else if d == 9 {
        '9'
    } else if d == 10 {
        'a'
    } else if d == 11 {
        'b'
    } else if d == 12 {
        'c'
    } else if d == 13 {
        'd'
    } else if d == 14 {
        'e'
    } else {
        'f'
    }
}

/// The value of a digit character in the given radix, if it is one. Letters
/// count in either case.
pub open spec fn digit_value(c: char, radix: int) -> Option<int> {
    let v: int = if '0' <= c && c <= '9' {
        c as int - '0' as int
    } else if 'a' <= c && c <= 'f' {
        c as int - 'a' as int + 10
    } else if 'A' <= c && c <= 'F' {
        c as int - 'A' as int + 10
    } else {
        16
    };
    if v < radix {
        Some(v)
    } else {
        None
    }
}

/// Whether the character is a hexadecimal digit.
pub open spec fn is_hex_digit(c: char) -> bool {
    digit_value(c, 16) is Some
}

/// The digits of a natural number in the given radix, most significant first.
pub open spec fn nat_digits(n: nat, radix: nat) -> Seq<char>
    decreases n,
    when radix >= 2
    via nat_digits_decreases
{
    if n < radix {
        seq![digit_char(n as int)]
    } else {
        nat_digits(n / radix, radix).push(digit_char((n % radix) as int))
    }
}

#[via_fn]
proof fn nat_digits_decreases(n: nat, radix: nat) {
    if n >= radix {
        assert(n / radix < n) by (nonlinear_arith)
            requires
                radix >= 2,
                n >= radix,
        ;
    }
}

/// The decimal notation of an integer: a minus sign for a negative number,
/// then its digits without leading zeros.
pub open spec fn int_text(i: int) -> Seq<char> {
    if i < 0 {
        seq!['-'] + nat_digits((-i) as nat, 10)
    } else {
        nat_digits(i as nat, 10)
    }
}

/// The notation of a natural number starts with a digit.
pub proof fn lemma_nat_digits_first(n: nat)
    ensures
        nat_digits(n, 10).len() >= 1,
        '0' <= nat_digits(n, 10)[0] <= '9',
    decreases n,
{
    if n >= 10 {
        lemma_nat_digits_first(n / 10);
    }
}

/// The notation of an integer starts with a digit, or with a minus sign
/// that a digit follows.
pub proof fn lemma_int_text_first(i: int)
    ensures
        int_text(i).len() >= 1,
        ('0' <= int_text(i)[0] <= '9') || (int_text(i)[0] == '-' && int_text(i).len() >= 2),
{
    if i < 0 {
        lemma_nat_digits_first((-i) as nat);
    } else {
        lemma_nat_digits_first(i as nat);
    }
}

/// The number that a sequence of digits denotes in the given radix, if every
/// character is a digit of that radix. The empty sequence denotes zero.
pub open spec fn digits_value(s: Seq<char>, radix: int) -> Option<int>
    decreases s.len(),
{
    if s.len() == 0 {
        Some(0)
    } else {
        match (digits_value(s.drop_last(), radix), digit_value(s.last(), radix)) {
            (Some(high), Some(low)) => Some(high * radix + low),
            _ => None,
        }
    }
}

/// The 64-bit signed integer that a text denotes in the given radix: an
/// optional sign, then at least one digit, the whole within range.
pub open spec fn parse_int(s: Seq<char>, radix: int) -> Option<i64> {
    let negative = s.len() > 0 && s[0] == '-';
    let signed = s.len() > 0 && (s[0] == '-' || s[0] == '+');
    let digits = if signed {
        s.skip(1)
    } else {
        s
    };
    if digits.len() == 0 {
        None
    } else {
        match digits_value(digits, radix) {
            Some(magnitude) => {
                let value = if negative {
                    -magnitude
                } else {
                    magnitude
                };
                if i64::MIN <= value <= i64::MAX {
                    Some(value as i64)
                } else {
                    None
                }
            },
            None => None,
        }
    }
}

/// The value of a digit character in the given radix.
pub fn digit_of(c: char, radix: u8) -> (r: Option<u8>)
    requires
        2 <= radix <= 16,
    ensures
        match r {
            Some(v) => digit_value(c, radix as int) == Some(v as int),
            None => digit_value(c, radix as int) is None,
        },
{
    let code: u32 = c as u32;
    let v: u32 = if '0' <= c && c <= '9' {
        code - ('0' as u32)
    } else if 'a' <= c && c <= 'f' {
        code - ('a' as u32) + 10
    } else if 'A' <= c && c <= 'F' {
        code - ('A' as u32) + 10
    } else {
        16
    };
    if v < radix as u32 {
        Some(v as u8)
    } else {
        None
    }
}

/// A prefix of a sequence of digits denotes a number that is not larger than
/// the whole.
pub proof fn lemma_digits_prefix(s: Seq<char>, k: int, radix: int)
    requires
        2 <= radix <= 16,
        0 <= k <= s.len(),
        digits_value(s, radix) is Some,
    ensures
        digits_value(s.take(k), radix) is Some,
        0 <= digits_value(s.take(k), radix)->0 <= digits_value(s, radix)->0,
    decreases s.len(),
{
    if k == s.len() {
        assert(s.take(k) == s);
        lemma_digits_nonnegative(s, radix);
    } else {
        assert(s.drop_last().take(k) == s.take(k));
        lemma_digits_prefix(s.drop_last(), k, radix);
        let high = digits_value(s.drop_last(), radix)->0;
        let low = digit_value(s.last(), radix)->0;
        assert(high * radix + low >= high) by (nonlinear_arith)
            requires
                high >= 0,
                low >= 0,
                radix >= 2,
        ;
    }
}

/// A sequence of digits denotes no negative number.
pub proof fn lemma_digits_nonnegative(s: Seq<char>, radix: int)
    requires
        2 <= radix <= 16,
        digits_value(s, radix) is Some,
    ensures
        digits_value(s, radix)->0 >= 0,
    decreases s.len(),
{
    if s.len() > 0 {
        lemma_digits_nonnegative(s.drop_last(), radix);
        let high = digits_value(s.drop_last(), radix)->0;
        let low = digit_value(s.last(), radix)->0;
        assert(high * radix + low >= 0) by (nonlinear_arith)
            requires
                high >= 0,
                low >= 0,
                radix >= 2,
        ;
    }
}

/// Where a prefix of a text is no sequence of digits, the text is none.
pub proof fn lemma_digits_prefix_none(s: Seq<char>, k: int, radix: int)
    requires
        0 <= k <= s.len(),
        digits_value(s.take(k), radix) is None,
    ensures
        digits_value(s, radix) is None,
    decreases s.len(),
{
    if k == s.len() {
        assert(s.take(k) == s);
    } else {
        assert(s.drop_last().take(k) == s.take(k));
        lemma_digits_prefix_none(s.drop_last(), k, radix);
    }
}

/// The 64-bit signed integer that the characters from `from` on denote in the
/// given radix.
#[verifier::loop_isolation(false)]
pub fn parse_int_chars(chars: &Vec<char>, from: usize, radix: u8) -> (r: Option<i64>)
    requires
        2 <= radix <= 16,
        from <= chars@.len(),
    ensures
        r == parse_int(chars@.skip(from as int), radix as int),
{
    let ghost s = chars@.skip(from as int);
    let n = chars.len();
    if from >= n {
        return None;
    }
    let negative = chars[from] == '-';
    let signed = negative || chars[from] == '+';
    let first: usize = if signed {
        from + 1
    } else {
        from
    };
    let ghost digits = if signed {
        s.skip(1)
    } else {
        s
    };
    assert(digits == chars@.skip(first as int));
    if first >= n {
        return None;
    }
    let limit: u64 = 0x8000_0000_0000_0000;
    let mut acc: u64 = 0;
    let mut i: usize = first;
    assert(digits.take(0) == Seq::<char>::empty());
    while i < n
        invariant
            2 <= radix <= 16,
            first <= i <= n,
            n == chars@.len(),
            digits == chars@.skip(first as int),
            limit == 0x8000_0000_0000_0000,
            digits_value(digits.take(i - first), radix as int) == Some(acc as int),
            acc <= limit,
        decreases n - i,
    {
        let ghost prefix = digits.take(i - first + 1);
        assert(prefix.drop_last() == digits.take(i - first));
        assert(prefix.last() == chars@[i as int]);
        match digit_of(chars[i], radix) {
            None => {
                proof {
                    assert(digits_value(prefix, radix as int) is None);
                    lemma_digits_prefix_none(digits, i - first + 1, radix as int);
                }
                return None;
            },
            Some(d) => {
                assert(acc * radix <= 0x8000_0000_0000_0000 * 16) by (nonlinear_arith)
                    requires
                        acc <= 0x8000_0000_0000_0000,
                        radix <= 16,
                ;
                let wide: u128 = (acc as u128) * (radix as u128) + (d as u128);
                assert(wide == acc * radix + d) by (nonlinear_arith)
                    requires
                        wide == (acc as u128) * (radix as u128) + (d as u128),
                        acc <= 0x8000_0000_0000_0000,
                        radix <= 16,
                        d < 16,
                ;
                assert(digits_value(prefix, radix as int) == Some(wide as int));
                if wide > limit as u128 {
                    proof {
                        if digits_value(digits, radix as int) is Some {
                            lemma_digits_prefix(digits, i - first + 1, radix as int);
                        }
                    }
                    return None;
                }
                acc = wide as u64;
            },
        }
        i += 1;
    }
    assert(digits.take(n - first) == digits);
    if negative {
        if acc == limit {
            Some(i64::MIN)
        } else {
            Some(-(acc as i64))
        }
    } else {
        if acc == limit {
            None
        } else {
            Some(acc as i64)
        }
    }
}

/// The character of a digit below sixteen.
pub fn char_of_digit(d: u8) -> (r: char)
    requires
        d < 16,
    ensures
        r == digit_char(d as int),
{
    if d == 0 {
        '0'
    } else if d == 1 {
        '1'
    } else if d == 2 {
        '2'
    } else if d == 3 {
        '3'
    } else if d == 4 {
        '4'
    } else if d == 5 {
        '5'
    } else if d == 6 {
        '6'
    } else if d == 7 {
        '7'
    } else if d == 8 {
        '8'
    } else if d == 9 {
        '9'
    } else if d == 10 {
        'a'
    } else if d == 11 {
        'b'
    } else if d == 12 {
        'c'
    } else if d == 13 {
        'd'
    } else if d == 14 {
        'e'
    } else {
        'f'
    }
}

/// The digits of a number in the given radix, most significant first.
pub fn nat_to_chars(value: u64, radix: u8) -> (r: Vec<char>)
    requires
        2 <= radix <= 16,
    ensures
        r@ == nat_digits(value as nat, radix as nat),
{
    let mut reversed: Vec<char> = Vec::new();
    let mut rest: u64 = value;
    let ghost mut suffix: Seq<char> = Seq::empty();
    assert(nat_digits(rest as nat, radix as nat) + suffix =~= nat_digits(
        value as nat,
        radix as nat,
    ));
    while rest >= radix as u64
        invariant
            2 <= radix <= 16,
            nat_digits(value as nat, radix as nat) == nat_digits(rest as nat, radix as nat)
                + suffix,
            reversed@.len() == suffix.len(),
            forall|k: int|
                0 <= k < suffix.len() ==> reversed@[k] == suffix[suffix.len() - 1 - k],
        decreases rest,
    {
        let d = (rest % (radix as u64)) as u8;
        let c = char_of_digit(d);
        reversed.push(c);
        proof {
            let shorter = nat_digits((rest / (radix as u64)) as nat, radix as nat);
            assert(nat_digits(rest as nat, radix as nat) == shorter.push(c));
            assert(shorter.push(c) + suffix =~= shorter + (seq![c] + suffix));
            suffix = seq![c] + suffix;
        }
        rest = rest / (radix as u64);
    }
    let c = char_of_digit(rest as u8);
    reversed.push(c);
    proof {
        assert(nat_digits(rest as nat, radix as nat) == seq![c]);
        suffix = seq![c] + suffix;
    }
    let mut out: Vec<char> = Vec::new();
    let mut k: usize = reversed.len();
    while k > 0
        invariant
            k <= reversed@.len(),
            reversed@.len() == suffix.len(),
            forall|m: int|
                0 <= m < suffix.len() ==> reversed@[m] == suffix[suffix.len() - 1 - m],
            out@ == suffix.take(suffix.len() - k),
        decreases k,
    {
        k -= 1;
        out.push(reversed[k]);
        assert(out@ =~= suffix.take(suffix.len() - k));
    }
    assert(suffix.take(suffix.len() as int) =~= suffix);
    out
}

/// The decimal notation of a 64-bit signed integer.
pub fn int_to_string(value: i64) -> (r: String)
    ensures
        r@ == int_text(value as int),
{
    if value >= 0 {
        let digits = nat_to_chars(value as u64, 10);
        string_of(&digits)
    } else {
        let magnitude: u64 = (-(value + 1)) as u64 + 1;
        let digits = nat_to_chars(magnitude, 10);
        let mut out: Vec<char> = Vec::new();
        out.push('-');
        let mut k: usize = 0;
        while k < digits.len()
            invariant
                k <= digits@.len(),
                out@ == seq!['-'] + digits@.take(k as int),
            decreases digits@.len() - k,
        {
            out.push(digits[k]);
            k += 1;
            assert(out@ =~= seq!['-'] + digits@.take(k as int));
        }
        assert(digits@.take(digits@.len() as int) =~= digits@);
        string_of(&out)
    }
}

/// The digits of a natural number are digits of its radix and denote it.
pub proof fn lemma_nat_digits_value(n: nat, radix: nat)
    requires
        2 <= radix <= 16,
    ensures
        nat_digits(n, radix).len() > 0,
        digits_value(nat_digits(n, radix), radix as int) == Some(n as int),
        forall|k: int|
            0 <= k < nat_digits(n, radix).len() ==> digit_value(
                #[trigger] nat_digits(n, radix)[k],
                radix as int,
            ) is Some,
        n > 0 ==> nat_digits(n, radix)[0] != '0',
    decreases n,
{
    let s = nat_digits(n, radix);
    if n < radix {
        assert(s =~= seq![digit_char(n as int)]);
        assert(s.drop_last() =~= Seq::<char>::empty());
        assert(digits_value(s.drop_last(), radix as int) == Some(0int));
        assert(s.last() == digit_char(n as int));
        assert(digit_value(digit_char(n as int), radix as int) == Some(n as int));
        assert(0int * (radix as int) + (n as int) == n) by (nonlinear_arith);
        assert(digits_value(s, radix as int) == Some(n as int));
    } else {
        assert(n / radix < n) by (nonlinear_arith)
            requires
                radix >= 2,
                n >= radix,
        ;
        assert(n / radix > 0) by (nonlinear_arith)
            requires
                radix >= 2,
                n >= radix,
        ;
        lemma_nat_digits_value(n / radix, radix);
        let high = nat_digits(n / radix, radix);
        let d = (n % radix) as int;
        assert(s == high.push(digit_char(d)));
        assert(s.drop_last() =~= high);
        assert(s.last() == digit_char(d));
        assert(digit_value(digit_char(d), radix as int) == Some(d));
        let hv = (n / radix) as int;
        let r = radix as int;
        assert(hv * r + d == n) by (nonlinear_arith)
            requires
                r >= 2,
                n >= 0,
                hv == (n as int) / r,
                d == (n as int) % r,
        ;
        assert(digits_value(high, r) == Some(hv));
        assert(digits_value(s, r) == Some(hv * r + d));
        assert(high.len() > 0);
        assert(s[0] == high[0]);
    }
}

/// Reading the decimal notation of an integer gives the integer back.
pub proof fn lemma_parse_int_text(value: i64)
    ensures
        parse_int(int_text(value as int), 10) == Some(value),
{
    let s = int_text(value as int);
    if value < 0 {
        let digits = nat_digits((-value) as nat, 10);
        lemma_nat_digits_value((-value) as nat, 10);
        assert(s.skip(1) =~= digits);
        assert(s[0] == '-');
    } else {
        lemma_nat_digits_value(value as nat, 10);
        assert(digit_value(s[0], 10) is Some);
    }
}

} // verus!
