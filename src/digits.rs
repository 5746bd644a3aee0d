//! Decimal and hexadecimal numerals: reading a course id from a CSV field and
//! writing a number in decimal.

use vstd::prelude::*;
use vstd::string::StringExecFns;

verus! {

/// The value of `c` as a digit in base `radix` (10 or 16), if it is one.
pub open spec fn digit_value(c: char, radix: nat) -> Option<nat> {
    if '0' <= c && c <= '9' {
        Some((c as nat - '0' as nat) as nat)
    } else if radix == 16 && 'a' <= c && c <= 'f' {
        Some((c as nat - 'a' as nat + 10) as nat)
    } else if radix == 16 && 'A' <= c && c <= 'F' {
        Some((c as nat - 'A' as nat + 10) as nat)
    } else {
        None
    }
}

pub open spec fn all_digits(s: Seq<char>, radix: nat) -> bool {
    forall|i: int| 0 <= i < s.len() ==> (#[trigger] digit_value(s[i], radix)) is Some
}

/// The number that the digits `s` denote in base `radix`, most significant first.
pub open spec fn numeral_value(s: Seq<char>, radix: nat) -> nat
    decreases s.len(),
{
    if s.len() == 0 {
        0
    } else {
        numeral_value(s.drop_last(), radix) * radix + digit_value(s.last(), radix).unwrap_or(0)
    }
}

/// An unsigned numeral in base `radix`: an optional `+`, then at least one digit.
pub open spec fn unsigned_numeral(s: Seq<char>, radix: nat) -> Option<nat> {
    let digits = if s.len() > 0 && s[0] == '+' { s.skip(1) } else { s };
    if digits.len() > 0 && all_digits(digits, radix) {
        Some(numeral_value(digits, radix))
    } else {
        None
    }
}

/// The id that a CSV field holds: after a leading `0x` a hexadecimal numeral,
/// otherwise a decimal one, in the range of `u32`.
pub open spec fn id_of_field(f: Seq<char>) -> Option<u32> {
    let n = if f.len() >= 2 && f[0] == '0' && f[1] == 'x' {
        unsigned_numeral(f.skip(2), 16)
    } else {
        unsigned_numeral(f, 10)
    };
    match n {
        Some(v) => if v <= u32::MAX { Some(v as u32) } else { None },
        None => None,
    }
}

/// The decimal numeral of `n`, without sign or leading zeros.
pub open spec fn decimal(n: nat) -> Seq<char>
    decreases n,
{
    if n < 10 {
        seq![digit_char(n)]
    } else {
        decimal(n / 10).push(digit_char(n % 10))
    }
}

pub open spec fn digit_char(d: nat) -> char {
    if d == 0 { '0' }
    else if d == 1 { '1' }
    else if d == 2 { '2' }
    else if d == 3 { '3' }
    else if d == 4 { '4' }
    else if d == 5 { '5' }
    else if d == 6 { '6' }
    else if d == 7 { '7' }
    else if d == 8 { '8' }
    else { '9' }
}

proof fn lemma_prefix_value_bounded(s: Seq<char>, radix: nat, n: int)
    requires
        0 <= n <= s.len(),
        radix >= 1,
    ensures
        numeral_value(s.take(n), radix) <= numeral_value(s, radix),
    decreases s.len(),
{
    if n < s.len() {
        assert(s.drop_last().take(n) =~= s.take(n));
        lemma_prefix_value_bounded(s.drop_last(), radix, n);
        let p = numeral_value(s.drop_last(), radix);
        assert(p * radix >= p) by (nonlinear_arith)
            requires radix >= 1;
    } else {
        assert(s.take(n) =~= s);
    }
}

fn digit_of(c: char, radix: u64) -> (r: Option<u64>)
    requires
        radix == 10 || radix == 16,
    ensures
        r matches Some(d) ==> digit_value(c, radix as nat) == Some(d as nat) && d < radix,
        r is None ==> digit_value(c, radix as nat) is None,
{
    if '0' <= c && c <= '9' {
        Some(c as u64 - '0' as u64)
    } else if radix == 16 && 'a' <= c && c <= 'f' {
        Some(c as u64 - 'a' as u64 + 10)
    } else if radix == 16 && 'A' <= c && c <= 'F' {
        Some(c as u64 - 'A' as u64 + 10)
    } else {
        None
    }
}

/// Reads the unsigned numeral `s[start..]` in base `radix`, if it fits in `u32`.
fn numeral_from(s: &str, start: usize, radix: u64) -> (r: Option<u32>)
    requires
        radix == 10 || radix == 16,
        start <= s@.len(),
    ensures
        r == (match unsigned_numeral(s@.skip(start as int), radix as nat) {
            Some(v) => if v <= u32::MAX { Some(v as u32) } else { None },
            None => None,
        }),
{
    let ghost t = s@.skip(start as int);
    let len = s.unicode_len();
    let mut i: usize = start;
    if i < len && s.get_char(i) == '+' {
        i = i + 1;
    }
    let first: usize = i;
    let ghost digits = s@.skip(first as int);
    assert(digits =~= (if t.len() > 0 && t[0] == '+' { t.skip(1) } else { t }));
    if first == len {
        return None;
    }
    let mut acc: u64 = 0;
    while i < len
        invariant
            first <= i <= len,
            len == s@.len(),
            radix == 10 || radix == 16,
            digits == s@.skip(first as int),
            t == s@.skip(start as int),
            digits == (if t.len() > 0 && t[0] == '+' { t.skip(1) } else { t }),
            acc <= u32::MAX,
            all_digits(digits.take(i - first), radix as nat),
            acc == numeral_value(digits.take(i - first), radix as nat),
        decreases len - i,
    {
        let c = s.get_char(i);
        let ghost k = i - first;
        match digit_of(c, radix) {
            None => {
                assert(digits[k] == c);
                assert(digit_value(digits[k], radix as nat) is None);
                assert(!all_digits(digits, radix as nat));
                assert(unsigned_numeral(t, radix as nat) is None);
                return None;
            },
            Some(d) => {
                assert(digits.take(k + 1).drop_last() =~= digits.take(k));
                assert(digits.take(k + 1).last() == c);
                assert(acc * radix + d <= u32::MAX as u64 * 16 + 15) by (nonlinear_arith)
                    requires acc <= u32::MAX, radix <= 16, d < radix;
                let next = acc * radix + d;
                assert(numeral_value(digits.take(k + 1), radix as nat) == acc * radix + d);
                if next > u32::MAX as u64 {
                    proof {
                        if all_digits(digits, radix as nat) {
                            lemma_prefix_value_bounded(digits, radix as nat, k + 1);
                            assert(numeral_value(digits, radix as nat) > u32::MAX);
                        }
                    }
                    return None;
                }
                assert forall|j: int| 0 <= j < k + 1 implies
                    (#[trigger] digit_value(digits.take(k + 1)[j], radix as nat)) is Some by {
                    if j < k {
                        assert(digits.take(k + 1)[j] == digits.take(k)[j]);
                    }
                };
                acc = next;
                i = i + 1;
            },
        }
    }
    assert(digits.take(i - first) =~= digits);
    Some(acc as u32)
}

/// Reads a course id from a CSV field.
pub fn parse_id(field: &str) -> (r: Option<u32>)
    ensures
        r == id_of_field(field@),
{
    let len = field.unicode_len();
    if len >= 2 && field.get_char(0) == '0' && field.get_char(1) == 'x' {
        numeral_from(field, 2, 16)
    } else {
        proof {
            assert(field@.skip(0) =~= field@);
        }
        numeral_from(field, 0, 10)
    }
}

fn digit_str(d: u64) -> (r: &'static str)
    requires
        d < 10,
    ensures
        r@ == seq![digit_char(d as nat)],
{
    proof {
        reveal_strlit("0");
        reveal_strlit("1");
        reveal_strlit("2");
        reveal_strlit("3");
        reveal_strlit("4");
        reveal_strlit("5");
        reveal_strlit("6");
        reveal_strlit("7");
        reveal_strlit("8");
        reveal_strlit("9");
    }
    let r = if d == 0 { "0" }
    else if d == 1 { "1" }
    else if d == 2 { "2" }
    else if d == 3 { "3" }
    else if d == 4 { "4" }
    else if d == 5 { "5" }
    else if d == 6 { "6" }
    else if d == 7 { "7" }
    else if d == 8 { "8" }
    else { "9" };
    assert(r@ =~= seq![digit_char(d as nat)]);
    r
}

/// Appends the decimal numeral of `n` to `out`.
pub fn push_decimal(out: &mut String, n: u64)
    ensures
        final(out)@ == old(out)@ + decimal(n as nat),
    decreases n,
{
    if n >= 10 {
        push_decimal(out, n / 10);
    }
    out.append(digit_str(n % 10));
    assert(out@ =~= old(out)@ + decimal(n as nat));
}

} // verus!
