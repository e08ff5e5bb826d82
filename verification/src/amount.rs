//! Fixed-precision monetary amounts.
//!
//! An amount is a non-negative number of ten-thousandths of the currency
//! unit, carried as a `u64`. All arithmetic stays on that scaled integer, so
//! repeated additions and subtractions are exact. Rendering appends exactly
//! four fractional digits.

use vstd::prelude::*;

verus! {

/// A monetary value in ten-thousandths of the currency unit.
pub type Amount = u64;

/// How many scaled units make one currency unit.
pub const SCALE: u64 = 10000;

/// The decimal digit character for `d`, which must be below ten.
pub open spec fn digit_char(d: int) -> char {
    if d == 0 {
        '0'
    } else if d == 1 {
        '1'
    } else if d == 2 {
        '2'
    } else if d == 3 {
        '3'
    } else if d == 4 {
        '4'
    } else if d == 5 {
        '5'
    } else if d == 6 {
        '6'
    } else if d == 7 {
        '7'
    } else if d == 8 {
        '8'
    } else {
        '9'
    }
}

/// The ordinary decimal rendering of `n`: no sign, no leading zero except on
/// zero itself.
pub open spec fn dec_digits(n: nat) -> Seq<char>
    decreases n,
{
    if n < 10 {
        seq![digit_char(n as int)]
    } else {
        dec_digits(n / 10) + seq![digit_char((n % 10) as int)]
    }
}

/// The four fractional digits of a scaled amount, most significant first,
/// with leading zeros kept. `f` must be below `SCALE`.
pub open spec fn frac_digits(f: nat) -> Seq<char> {
    seq![
        digit_char(((f / 1000) % 10) as int),
        digit_char(((f / 100) % 10) as int),
        digit_char(((f / 10) % 10) as int),
        digit_char((f % 10) as int),
    ]
}

/// The fixed four-decimal rendering of a scaled amount: the whole currency
/// units, a point, then exactly four fractional digits.
pub open spec fn amount_digits(a: Amount) -> Seq<char> {
    dec_digits(a as nat / SCALE as nat) + seq!['.'] + frac_digits(a as nat % SCALE as nat)
}

/// Whether `c` is a decimal digit.
pub open spec fn is_digit(c: char) -> bool {
    48 <= c as u32 && c as u32 <= 57
}

/// The value of a decimal digit character.
pub open spec fn digit_val(c: char) -> int {
    c as u32 - 48
}

/// Every character of the sequence is a decimal digit.
pub open spec fn all_digits(s: Seq<char>) -> bool {
    forall|i: int| 0 <= i < s.len() ==> is_digit(#[trigger] s[i])
}

/// The value of a sequence of decimal digits, most significant first; zero
/// when empty.
pub open spec fn dec_val(s: Seq<char>) -> int
    decreases s.len(),
{
    if s.len() == 0 {
        0
    } else {
        dec_val(s.drop_last()) * 10 + digit_val(s.last())
    }
}

/// Ten to the power `n`.
pub open spec fn pow10(n: nat) -> int
    decreases n,
{
    if n == 0 {
        1
    } else {
        10 * pow10((n - 1) as nat)
    }
}

/// The values of the small powers of ten, up to the widest numeral the
/// parser accepts.
pub proof fn lemma_pow10_values()
    ensures
        pow10(4) == 10000,
        pow10(15) == 1000000000000000,
        pow10(0) == 1,
        pow10(1) == 10,
        pow10(2) == 100,
        pow10(3) == 1000,
{
    assert(pow10(0) == 1);
    assert(pow10(1) == 10);
    assert(pow10(2) == 100);
    assert(pow10(3) == 1000);
    assert(pow10(4) == 10000);
    assert(pow10(5) == 100000);
    assert(pow10(6) == 1000000);
    assert(pow10(7) == 10000000);
    assert(pow10(8) == 100000000);
    assert(pow10(9) == 1000000000);
    assert(pow10(10) == 10000000000);
    assert(pow10(11) == 100000000000);
    assert(pow10(12) == 1000000000000);
    assert(pow10(13) == 10000000000000);
    assert(pow10(14) == 100000000000000);
    assert(pow10(15) == 1000000000000000);
}

/// Ten to any power is positive.
pub proof fn lemma_pow10_pos(n: nat)
    ensures
        pow10(n) >= 1,
    decreases n,
{
    if n > 0 {
        lemma_pow10_pos((n - 1) as nat);
    }
}

/// Powers of ten grow with the exponent.
pub proof fn lemma_pow10_increases(a: nat, b: nat)
    requires
        a <= b,
    ensures
        pow10(a) <= pow10(b),
    decreases b,
{
    if a < b {
        lemma_pow10_increases(a, (b - 1) as nat);
        lemma_pow10_pos((b - 1) as nat);
    }
}

/// A numeral splits validly at `k`: one to fifteen integer digits, then
/// either the end or a point followed by at most four fractional digits.
pub open spec fn valid_split(s: Seq<char>, k: int) -> bool {
    &&& 1 <= k <= s.len()
    &&& k <= 15
    &&& (k == s.len() || s[k] == '.')
    &&& all_digits(s.subrange(0, k))
    &&& (k < s.len() ==> s.len() - k - 1 <= 4 && all_digits(s.subrange(k + 1, s.len() as int)))
}

/// The scaled value of a numeral split at `k`: the integer digits in whole
/// units, plus the fractional digits padded on the right to four places.
pub open spec fn split_value(s: Seq<char>, k: int) -> int {
    if k == s.len() {
        dec_val(s) * 10000
    } else {
        dec_val(s.subrange(0, k)) * 10000 + dec_val(s.subrange(k + 1, s.len() as int)) * pow10(
            (4 - (s.len() - k - 1)) as nat,
        )
    }
}

/// A numeral splits validly in at most one place: the digits before the
/// point admit no second point.
pub proof fn lemma_valid_split_unique(s: Seq<char>, k1: int, k2: int)
    requires
        valid_split(s, k1),
        valid_split(s, k2),
    ensures
        k1 == k2,
{
    if k1 < k2 {
        assert(is_digit(s.subrange(0, k2)[k1]));
        assert(!is_digit('.'));
    } else if k2 < k1 {
        assert(is_digit(s.subrange(0, k1)[k2]));
        assert(!is_digit('.'));
    }
}

/// The value of an amount field, in ten-thousandths: an empty field means
/// zero; otherwise the field must be a numeral of one to fifteen integer
/// digits with an optional point and at most four fractional digits.
pub open spec fn amount_chars_value(s: Seq<char>) -> Option<u64> {
    if s.len() == 0 {
        Some(0u64)
    } else if exists|k: int| valid_split(s, k) {
        Some(split_value(s, choose|k: int| valid_split(s, k)) as u64)
    } else {
        None
    }
}

/// Parses an amount field into ten-thousandths, without floating point.
///
/// Accepts the empty field (zero), or one to fifteen integer digits with an
/// optional point and at most four fractional digits; anything else, and
/// nothing else, is refused. The result is exactly `amount_chars_value` of
/// the field.
pub fn parse_amount(s: &str) -> (r: Option<Amount>)
    ensures
        r == amount_chars_value(s@),
{
    let n = s.unicode_len();
    if n == 0 {
        return Some(0);
    }
    proof {
        lemma_pow10_values();
    }
    // find the first point, if any
    let mut dot: usize = n;
    let mut j: usize = 0;
    while j < n
        invariant
            n == s@.len(),
            0 <= j <= n,
            dot <= n,
            dot == n ==> forall|t: int| 0 <= t < j ==> s@[t] != '.',
            dot < n ==> s@[dot as int] == '.',
            dot < n ==> forall|t: int| 0 <= t < dot ==> s@[t] != '.',
        decreases n - j,
    {
        let c = s.get_char(j);
        if dot == n && c == '.' {
            dot = j;
        }
        j = j + 1;
    }
    if dot == 0 {
        proof {
            assert forall|k: int| !valid_split(s@, k) by {
                if valid_split(s@, k) {
                    assert(is_digit(s@.subrange(0, k)[0]));
                }
            }
        }
        return None;
    }
    if dot > 15 {
        proof {
            assert forall|k: int| !valid_split(s@, k) by {
                if valid_split(s@, k) {
                    assert(s@[k] == '.');
                }
            }
        }
        return None;
    }
    if dot < n && n - dot - 1 > 4 {
        proof {
            assert forall|k: int| !valid_split(s@, k) by {
                if valid_split(s@, k) {
                    if k < dot {
                        assert(s@[k] == '.');
                    } else if k > dot {
                        assert(is_digit(s@.subrange(0, k)[dot as int]));
                    }
                }
            }
        }
        return None;
    }
    // integer part: s[0 .. dot]
    let mut units: u64 = 0;
    let mut i: usize = 0;
    while i < dot
        invariant
            n == s@.len(),
            1 <= dot <= n,
            dot <= 15,
            dot == n || s@[dot as int] == '.',
            forall|t: int| 0 <= t < dot ==> s@[t] != '.',
            dot < n ==> n - dot - 1 <= 4,
            0 <= i <= dot,
            all_digits(s@.subrange(0, i as int)),
            units == dec_val(s@.subrange(0, i as int)),
            units < pow10(i as nat),
        decreases dot - i,
    {
        let c = s.get_char(i);
        let cv = c as u32;
        if cv < 48 || cv > 57 {
            proof {
                assert forall|k: int| !valid_split(s@, k) by {
                    if valid_split(s@, k) {
                        if k <= i {
                            assert(s@[k] == '.');
                        } else {
                            assert(is_digit(s@.subrange(0, k)[i as int]));
                        }
                    }
                }
            }
            return None;
        }
        proof {
            lemma_pow10_values();
            lemma_pow10_increases((i + 1) as nat, 15);
            assert(s@.subrange(0, i + 1).drop_last() =~= s@.subrange(0, i as int));
            assert(s@.subrange(0, i + 1).last() == s@[i as int]);
            assert(pow10((i + 1) as nat) == 10 * pow10(i as nat));
            assert(all_digits(s@.subrange(0, i + 1)));
        }
        units = units * 10 + ((cv - 48) as u64);
        i = i + 1;
    }
    if dot == n {
        proof {
            lemma_pow10_values();
            lemma_pow10_increases(dot as nat, 15);
            assert(s@.subrange(0, n as int) =~= s@);
            assert(valid_split(s@, n as int));
            let k = choose|k: int| valid_split(s@, k);
            lemma_valid_split_unique(s@, k, n as int);
        }
        return Some(units * 10000);
    }
    // fractional part: s[dot + 1 .. n]
    let flen = n - dot - 1;
    let mut frac: u64 = 0;
    let mut p: usize = dot + 1;
    while p < n
        invariant
            n == s@.len(),
            1 <= dot <= 15,
            dot < n,
            s@[dot as int] == '.',
            forall|t: int| 0 <= t < dot ==> s@[t] != '.',
            flen == n - dot - 1,
            flen <= 4,
            all_digits(s@.subrange(0, dot as int)),
            units == dec_val(s@.subrange(0, dot as int)),
            units < pow10(dot as nat),
            dot + 1 <= p <= n,
            all_digits(s@.subrange(dot as int + 1, p as int)),
            frac == dec_val(s@.subrange(dot as int + 1, p as int)),
            frac < pow10((p - dot - 1) as nat),
        decreases n - p,
    {
        let c = s.get_char(p);
        let cv = c as u32;
        if cv < 48 || cv > 57 {
            proof {
                assert forall|k: int| !valid_split(s@, k) by {
                    if valid_split(s@, k) {
                        if k < dot {
                            assert(s@[k] == '.');
                        } else if k > dot {
                            assert(is_digit(s@.subrange(0, k)[dot as int]));
                        } else {
                            assert(is_digit(
                                s@.subrange(dot as int + 1, n as int)[p - dot - 1],
                            ));
                        }
                    }
                }
            }
            return None;
        }
        proof {
            lemma_pow10_values();
            lemma_pow10_increases((p - dot) as nat, 4);
            assert(s@.subrange(dot as int + 1, p + 1).drop_last() =~= s@.subrange(
                dot as int + 1,
                p as int,
            ));
            assert(s@.subrange(dot as int + 1, p + 1).last() == s@[p as int]);
            assert(pow10((p - dot) as nat) == 10 * pow10((p - dot - 1) as nat));
            assert(all_digits(s@.subrange(dot as int + 1, p + 1)));
        }
        frac = frac * 10 + ((cv - 48) as u64);
        p = p + 1;
    }
    let scale: u64 = if flen == 0 {
        10000
    } else if flen == 1 {
        1000
    } else if flen == 2 {
        100
    } else if flen == 3 {
        10
    } else {
        1
    };
    proof {
        lemma_pow10_values();
        lemma_pow10_increases(dot as nat, 15);
        assert(scale == pow10((4 - flen) as nat));
        assert(valid_split(s@, dot as int));
        let k = choose|k: int| valid_split(s@, k);
        lemma_valid_split_unique(s@, k, dot as int);
        assert(frac * scale < 10000) by {
            if flen == 0 {
                assert(frac == 0);
            }
        }
    }
    Some(units * 10000 + frac * scale)
}

/// Appends the decimal digit character for `d` to `out`.
fn push_digit(d: u64, out: &mut String)
    requires
        d < 10,
    ensures
        final(out)@ == old(out)@ + seq![digit_char(d as int)],
{
    let s: &str = if d == 0 {
        "0"
    } else if d == 1 {
        "1"
    } else if d == 2 {
        "2"
    } else if d == 3 {
        "3"
    } else if d == 4 {
        "4"
    } else if d == 5 {
        "5"
    } else if d == 6 {
        "6"
    } else if d == 7 {
        "7"
    } else if d == 8 {
        "8"
    } else {
        "9"
    };
    proof {
        reveal_strlit("0");
        reveal_strlit("1");
        reveal_strlit("2");
        reveal_strlit("3");
        reveal_strlit("4");
        reveal_strlit("5");
        reveal_strlit("6");
        reveal_strlit("7");
        reveal_strlit("8");
        reveal_strlit("9");
    }
    out.append(s);
    proof {
        assert(out@ =~= old(out)@ + seq![digit_char(d as int)]);
    }
}

/// Appends the ordinary decimal rendering of `n` to `out`.
fn push_dec(n: u64, out: &mut String)
    ensures
        final(out)@ == old(out)@ + dec_digits(n as nat),
    decreases n,
{
    if n >= 10 {
        push_dec(n / 10, out);
        push_digit(n % 10, out);
        proof {
            assert(out@ =~= old(out)@ + dec_digits(n as nat));
        }
    } else {
        push_digit(n, out);
    }
}

/// The ordinary decimal rendering of `n` as a fresh string.
pub fn dec_string(n: u64) -> (r: String)
    ensures
        r@ == dec_digits(n as nat),
{
    let mut out = String::new();
    push_dec(n, &mut out);
    proof {
        assert(out@ =~= dec_digits(n as nat));
    }
    out
}

/// The rendering of a boolean as a literal word.
pub open spec fn bool_chars(b: bool) -> Seq<char> {
    if b {
        seq!['t', 'r', 'u', 'e']
    } else {
        seq!['f', 'a', 'l', 's', 'e']
    }
}

/// Renders a boolean as `true` or `false`.
pub fn bool_string(b: bool) -> (r: String)
    ensures
        r@ == bool_chars(b),
{
    proof {
        reveal_strlit("true");
        reveal_strlit("false");
    }
    if b {
        let r = String::from_str("true");
        proof {
            assert(r@ =~= bool_chars(true));
        }
        r
    } else {
        let r = String::from_str("false");
        proof {
            assert(r@ =~= bool_chars(false));
        }
        r
    }
}

/// Renders a scaled amount with exactly four fractional digits.
pub fn amount_string(a: Amount) -> (r: String)
    ensures
        r@ == amount_digits(a),
{
    let mut out = String::new();
    push_dec(a / SCALE, &mut out);
    out.append(".");
    let f = a % SCALE;
    push_digit(f / 1000 % 10, &mut out);
    push_digit(f / 100 % 10, &mut out);
    push_digit(f / 10 % 10, &mut out);
    push_digit(f % 10, &mut out);
    proof {
        reveal_strlit(".");
        assert(out@ =~= amount_digits(a));
    }
    out
}

} // verus!
