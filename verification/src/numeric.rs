//! Decimal and hexadecimal text: `str::parse` for integers and the
//! `Display` / `{:X}` renderings of unsigned numbers.
use vstd::prelude::*;

verus! {

/// An ASCII decimal digit.
pub open spec fn is_digit(c: char) -> bool {
    '0' <= c <= '9'
}

/// Every character is an ASCII decimal digit.
pub open spec fn all_digits(s: Seq<char>) -> bool {
    forall|i: int| 0 <= i < s.len() ==> is_digit(#[trigger] s[i])
}

/// Value of a digit.
pub open spec fn digit_val(c: char) -> nat {
    ((c as u32) - ('0' as u32)) as nat
}

/// Value of a run of decimal digits (most significant first).
pub open spec fn digits_val(s: Seq<char>) -> nat
    decreases s.len(),
{
    if s.len() == 0 {
        0
    } else {
        digits_val(s.drop_last()) * 10 + digit_val(s.last())
    }
}

/// `s` without one leading `'+'`.
pub open spec fn strip_plus(s: Seq<char>) -> Seq<char> {
    if s.len() > 0 && s[0] == '+' {
        s.drop_first()
    } else {
        s
    }
}

/// `str::parse` for an unsigned integer type whose largest value is `max`:
/// an optional `'+'`, then at least one ASCII digit, value at most `max`.
pub open spec fn parse_unsigned(s: Seq<char>, max: nat) -> Option<nat> {
    let t = strip_plus(s);
    if t.len() > 0 && all_digits(t) && digits_val(t) <= max {
        Some(digits_val(t))
    } else {
        None
    }
}

/// `str::parse::<i64>`: an optional sign, then at least one ASCII digit,
/// value within `i64`.
pub open spec fn parse_i64(s: Seq<char>) -> Option<int> {
    if s.len() > 0 && s[0] == '-' {
        let t = s.drop_first();
        if t.len() > 0 && all_digits(t) && digits_val(t) <= 0x8000_0000_0000_0000 {
            Some(-(digits_val(t) as int))
        } else {
            None
        }
    } else {
        match parse_unsigned(s, 0x7FFF_FFFF_FFFF_FFFF) {
            Some(n) => Some(n as int),
            None => None,
        }
    }
}

pub proof fn lemma_digits_prefix(s: Seq<char>, k: int)
    requires
        0 <= k <= s.len(),
    ensures
        digits_val(s.take(k)) <= digits_val(s),
    decreases s.len() - k,
{
    if k < s.len() {
        lemma_digits_prefix(s, k + 1);
        assert(s.take(k + 1).drop_last() =~= s.take(k));
    } else {
        assert(s.take(k) =~= s);
    }
}

/// Value of the digits `v[lo..hi]`, provided it is at most `max`.
fn digits_upto(v: &Vec<char>, lo: usize, hi: usize, max: u64) -> (r: Option<u64>)
    requires
        lo < hi <= v@.len(),
    ensures
        r matches Some(n) ==> all_digits(v@.subrange(lo as int, hi as int)) && n == digits_val(
            v@.subrange(lo as int, hi as int),
        ) && n <= max,
        r is None ==> !(all_digits(v@.subrange(lo as int, hi as int)) && digits_val(
            v@.subrange(lo as int, hi as int),
        ) <= max),
{
    let ghost s = v@.subrange(lo as int, hi as int);
    let mut acc: u64 = 0;
    let mut i = lo;
    while i < hi
        invariant
            lo <= i <= hi <= v@.len(),
            s == v@.subrange(lo as int, hi as int),
            all_digits(s.take(i - lo)),
            acc == digits_val(s.take(i - lo)),
            acc <= max,
        decreases hi - i,
    {
        let c = v[i];
        proof {
            assert(s[i - lo] == c);
        }
        if !('0' <= c && c <= '9') {
            return None;
        }
        let d = (c as u32 - '0' as u32) as u64;
        proof {
            assert(s.take(i - lo + 1).drop_last() =~= s.take(i - lo));
            assert(s.take(i - lo + 1).last() == c);
        }
        if d > max || acc > (max - d) / 10 {
            proof {
                if d <= max {
                    assert(acc * 10 + d > max) by (nonlinear_arith)
                        requires
                            acc > (max - d) / 10,
                            d <= max,
                    ;
                }
                lemma_digits_prefix(s, i - lo + 1);
            }
            return None;
        }
        proof {
            assert(acc * 10 + d <= max) by (nonlinear_arith)
                requires
                    acc <= (max - d) / 10,
                    d <= max,
            ;
            assert forall|k: int| 0 <= k < i - lo + 1 implies is_digit(#[trigger] s.take(i - lo + 1)[k]) by {
                if k < i - lo {
                    assert(s.take(i - lo + 1)[k] == s.take(i - lo)[k]);
                }
            }
        }
        acc = acc * 10 + d;
        i = i + 1;
    }
    proof {
        assert(s.take(hi - lo) =~= s);
    }
    Some(acc)
}

/// `str::parse` for unsigned integers bounded by `max` (`u16`, `u32`,
/// `u64` pass their own `MAX`), over the characters `v[lo..hi]`.
pub fn parse_unsigned_range(v: &Vec<char>, lo: usize, hi: usize, max: u64) -> (r: Option<u64>)
    requires
        lo <= hi <= v@.len(),
    ensures
        r matches Some(n) ==> parse_unsigned(v@.subrange(lo as int, hi as int), max as nat)
            == Some(n as nat),
        r is None ==> parse_unsigned(v@.subrange(lo as int, hi as int), max as nat) is None,
{
    let ghost s = v@.subrange(lo as int, hi as int);
    let mut start = lo;
    if lo < hi && v[lo] == '+' {
        start = lo + 1;
        proof {
            assert(strip_plus(s) =~= v@.subrange(start as int, hi as int));
        }
    } else {
        proof {
            assert(strip_plus(s) =~= v@.subrange(start as int, hi as int));
        }
    }
    if start >= hi {
        return None;
    }
    if max == 0 {
        // Only an all-zero run fits.
        let r = digits_upto(v, start, hi, 0);
        return r;
    }
    digits_upto(v, start, hi, max)
}

/// `str::parse::<i64>` over the characters `v[lo..hi]`.
pub fn parse_i64_range(v: &Vec<char>, lo: usize, hi: usize) -> (r: Option<i64>)
    requires
        lo <= hi <= v@.len(),
    ensures
        r matches Some(n) ==> parse_i64(v@.subrange(lo as int, hi as int)) == Some(n as int),
        r is None ==> parse_i64(v@.subrange(lo as int, hi as int)) is None,
{
    let ghost s = v@.subrange(lo as int, hi as int);
    if lo < hi && v[lo] == '-' {
        proof {
            assert(s[0] == '-');
            assert(s.drop_first() =~= v@.subrange(lo + 1, hi as int));
        }
        if lo + 1 >= hi {
            return None;
        }
        match digits_upto(v, lo + 1, hi, 0x8000_0000_0000_0000) {
            Some(n) => {
                if n == 0x8000_0000_0000_0000 {
                    Some(i64::MIN)
                } else {
                    Some(-(n as i64))
                }
            },
            None => None,
        }
    } else {
        proof {
            if lo < hi {
                assert(s[0] == v@[lo as int]);
            }
        }
        match parse_unsigned_range(v, lo, hi, 0x7FFF_FFFF_FFFF_FFFF) {
            Some(n) => Some(n as i64),
            None => None,
        }
    }
}

// ---------------------------------------------------------------------
// Rendering
// ---------------------------------------------------------------------

/// The digit character for `d < 16` (upper-case letters above 9).
pub open spec fn digit_char(d: nat) -> char {
    if d < 10 {
        (('0' as u32) + d) as char
    } else {
        (('A' as u32) + (d - 10)) as char
    }
}

/// `n` written in `base` without leading zeros (`"0"` for zero).
pub open spec fn radix(n: nat, base: nat) -> Seq<char>
    recommends
        2 <= base <= 16,
    decreases n,
{
    if base < 2 || n < base {
        seq![digit_char(n % 16)]
    } else {
        proof {
            vstd::arithmetic::div_mod::lemma_div_decreases(n as int, base as int);
        }
        radix(n / base, base).push(digit_char(n % base))
    }
}

/// `n.to_string()` for unsigned `n`.
pub open spec fn dec(n: nat) -> Seq<char> {
    radix(n, 10)
}

/// `format!("{:X}", n)`.
pub open spec fn hex(n: nat) -> Seq<char> {
    radix(n, 16)
}

/// `format!("{:02X}", n)`: upper-case hex, zero-padded to two digits.
pub open spec fn hex2(n: nat) -> Seq<char> {
    if n < 16 {
        seq!['0', digit_char(n)]
    } else {
        hex(n)
    }
}

fn digit_char_exec(d: u64) -> (c: char)
    requires
        d < 16,
    ensures
        c == digit_char(d as nat),
{
    if d < 10 {
        (48u8 + d as u8) as char
    } else {
        (65u8 + (d as u8 - 10)) as char
    }
}

/// Appends `n` written in `base`.
pub fn push_radix(out: &mut String, n: u64, base: u64)
    requires
        2 <= base <= 16,
    ensures
        final(out)@ == old(out)@ + radix(n as nat, base as nat),
    decreases n,
{
    if n >= base {
        proof {
            vstd::arithmetic::div_mod::lemma_div_decreases(n as int, base as int);
        }
        push_radix(out, n / base, base);
        let c = digit_char_exec(n % base);
        crate::text::push_char(out, c);
    } else {
        let c = digit_char_exec(n);
        proof {
            assert(n % 16 == n);
        }
        crate::text::push_char(out, c);
        proof {
            assert(old(out)@.push(c) =~= old(out)@ + seq![c]);
        }
    }
}

/// Appends `n.to_string()`.
pub fn push_dec(out: &mut String, n: u64)
    ensures
        final(out)@ == old(out)@ + dec(n as nat),
{
    push_radix(out, n, 10)
}

/// Appends `format!("{:02X}", n)`.
pub fn push_hex2(out: &mut String, n: u64)
    ensures
        final(out)@ == old(out)@ + hex2(n as nat),
{
    if n < 16 {
        crate::text::push_char(out, '0');
        let c = digit_char_exec(n);
        crate::text::push_char(out, c);
        proof {
            assert(old(out)@.push('0').push(c) =~= old(out)@ + seq!['0', c]);
        }
    } else {
        push_radix(out, n, 16);
    }
}

/// `n.to_string()` for an unsigned number.
pub fn dec_string(n: u64) -> (r: String)
    ensures
        r@ == dec(n as nat),
{
    let mut r = String::new();
    push_dec(&mut r, n);
    r
}

/// `n.to_string()` for a signed number.
pub open spec fn dec_signed(n: int) -> Seq<char> {
    if n < 0 {
        seq!['-'] + dec((-n) as nat)
    } else {
        dec(n as nat)
    }
}

/// Appends `n.to_string()` for a signed `n`.
pub fn push_i64(out: &mut String, n: i64)
    ensures
        final(out)@ == old(out)@ + dec_signed(n as int),
{
    if n < 0 {
        crate::text::push_char(out, '-');
        let m = (-(n as i128)) as u64;
        push_dec(out, m);
        proof {
            assert(old(out)@.push('-') + dec(m as nat) =~= old(out)@ + (seq!['-'] + dec(m as nat)));
        }
    } else {
        push_dec(out, n as u64);
    }
}

/// Decimal text is digits whose value is the number.
pub proof fn lemma_dec_digits(n: nat)
    ensures
        dec(n).len() > 0,
        all_digits(dec(n)),
        digits_val(dec(n)) == n,
    decreases n,
{
    if n < 10 {
        assert(dec(n) == seq![digit_char(n % 16)]);
        assert(n % 16 == n);
        let c = digit_char(n);
        assert(c as u32 == 48 + n);
        assert('0' as u32 == 48);
        assert(digit_val(c) == n);
        assert(dec(n).drop_last() =~= Seq::<char>::empty());
        assert(dec(n).last() == c);
        assert(digits_val(dec(n)) == digits_val(dec(n).drop_last()) * 10 + digit_val(dec(n).last()));
    } else {
        lemma_dec_digits(n / 10);
        let s = dec(n / 10);
        let c = digit_char(n % 10);
        assert(dec(n) == s.push(c));
        assert(c as u32 == 48 + n % 10);
        assert('0' as u32 == 48);
        assert(digit_val(c) == n % 10);
        assert(dec(n).drop_last() =~= s);
        assert(dec(n).last() == c);
        assert(digits_val(dec(n)) == digits_val(s) * 10 + digit_val(c));
        assert(n == (n / 10) * 10 + n % 10);
    }
}

/// Parsing decimal text gives the number back (when it fits).
pub proof fn lemma_parse_dec(n: nat, max: nat)
    requires
        n <= max,
    ensures
        parse_unsigned(dec(n), max) == Some(n),
{
    lemma_dec_digits(n);
    assert(strip_plus(dec(n)) == dec(n));
}


/// `10^k`.
pub open spec fn ten_pow(k: nat) -> nat
    decreases k,
{
    if k == 0 {
        1
    } else {
        10 * ten_pow((k - 1) as nat)
    }
}

/// A number below `10^k` has at most `k` decimal digits.
pub proof fn lemma_dec_len(n: nat, k: nat)
    requires
        k >= 1,
        n < ten_pow(k),
    ensures
        dec(n).len() <= k,
    decreases k,
{
    if n >= 10 {
        if k == 1 {
            assert(ten_pow(1) == 10 * ten_pow(0));
        } else {
            assert(ten_pow(k) == 10 * ten_pow((k - 1) as nat));
            assert(n / 10 < ten_pow((k - 1) as nat));
            lemma_dec_len(n / 10, (k - 1) as nat);
            assert(dec(n) == radix(n / 10, 10).push(digit_char(n % 10)));
        }
    }
}

} // verus!
