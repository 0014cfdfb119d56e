//! Percent-encoding of query-string values (RFC 3986 unreserved set) and
//! assembly of `name=value&` query parameters.
use crate::numeric::{digit_char, hex2, push_hex2};
use crate::text::{chars_of, push_char, push_str};
use vstd::prelude::*;
use vstd::string::StringSliceAdditionalSpecFns;

verus! {

/// RFC 3986 unreserved byte: ASCII letters, digits, `-`, `.`, `_`, `~`.
pub open spec fn unreserved(b: u8) -> bool {
    (0x41 <= b <= 0x5A) || (0x61 <= b <= 0x7A) || (0x30 <= b <= 0x39) || b == 0x2D || b == 0x2E
        || b == 0x5F || b == 0x7E
}

/// The encoding of one byte: itself when unreserved, else `%` and two
/// upper-case hex digits.
pub open spec fn pct_byte(b: u8) -> Seq<char> {
    if unreserved(b) {
        seq![b as char]
    } else {
        seq!['%'] + hex2(b as nat)
    }
}

/// Percent-encoding of a byte string.
pub open spec fn pct_encode(bs: Seq<u8>) -> Seq<char>
    decreases bs.len(),
{
    if bs.len() == 0 {
        Seq::empty()
    } else {
        pct_byte(bs[0]) + pct_encode(bs.drop_first())
    }
}

pub proof fn lemma_pct_encode_push(bs: Seq<u8>, b: u8)
    ensures
        pct_encode(bs.push(b)) == pct_encode(bs) + pct_byte(b),
    decreases bs.len(),
{
    if bs.len() == 0 {
        assert(bs.push(b).drop_first() =~= Seq::<u8>::empty());
        assert(pct_encode(Seq::<u8>::empty()) == Seq::<char>::empty());
        assert(pct_encode(bs) == Seq::<char>::empty());
        assert(pct_encode(bs.push(b)) =~= pct_byte(b));
    } else {
        lemma_pct_encode_push(bs.drop_first(), b);
        assert(bs.push(b).drop_first() =~= bs.drop_first().push(b));
        assert(pct_encode(bs.push(b)) =~= pct_encode(bs) + pct_byte(b));
    }
}

/// Percent-encodes a query-string value byte by byte (UTF-8), keeping the
/// unreserved set and escaping everything else as `%XX`.
pub fn encode_query_value(value: &str) -> (r: String)
    ensures
        r@ == pct_encode(value.spec_bytes()),
{
    let bytes = value.as_bytes();
    let mut encoded = String::new();
    let mut i: usize = 0;
    while i < bytes.len()
        invariant
            i <= bytes@.len(),
            bytes@ == value.spec_bytes(),
            encoded@ == pct_encode(bytes@.take(i as int)),
        decreases bytes@.len() - i,
    {
        let b = bytes[i];
        if (0x41 <= b && b <= 0x5A) || (0x61 <= b && b <= 0x7A) || (0x30 <= b && b <= 0x39) || b
            == 0x2D || b == 0x2E || b == 0x5F || b == 0x7E {
            push_char(&mut encoded, b as char);
            proof {
                assert(encoded@ =~= pct_encode(bytes@.take(i as int)) + pct_byte(b));
            }
        } else {
            push_char(&mut encoded, '%');
            push_hex2(&mut encoded, b as u64);
            proof {
                assert(encoded@ =~= pct_encode(bytes@.take(i as int)) + pct_byte(b));
            }
        }
        proof {
            lemma_pct_encode_push(bytes@.take(i as int), b);
            assert(bytes@.take(i + 1) =~= bytes@.take(i as int).push(b));
        }
        i = i + 1;
    }
    proof {
        assert(bytes@.take(bytes@.len() as int) =~= bytes@);
    }
    encoded
}

/// `name=<encoded value>&`, or nothing when the value is absent.
pub open spec fn query_param(name: Seq<char>, value: Option<Seq<u8>>) -> Seq<char> {
    match value {
        Some(v) => name + seq!['='] + pct_encode(v) + seq!['&'],
        None => Seq::empty(),
    }
}

/// Appends `name=value&` to `path`, percent-encoding the value, when the
/// value is present.
pub fn append_query_param(path: &mut String, name: &str, value: Option<&str>)
    ensures
        final(path)@ == old(path)@ + query_param(
            name@,
            match value {
                Some(v) => Some(v.spec_bytes()),
                None => None,
            },
        ),
{
    if let Some(value) = value {
        push_str(path, name);
        push_char(path, '=');
        let enc = encode_query_value(value);
        push_str(path, enc.as_str());
        push_char(path, '&');
        proof {
            assert(path@ =~= old(path)@ + (name@ + seq!['='] + pct_encode(value.spec_bytes())
                + seq!['&']));
        }
    } else {
        proof {
            assert(path@ =~= old(path)@ + Seq::<char>::empty());
        }
    }
}

// ---------------------------------------------------------------------
// Decoding, to state that the encoding loses nothing
// ---------------------------------------------------------------------

/// Value of an upper-case hex digit.
pub open spec fn hex_val(c: char) -> int {
    if '0' <= c <= '9' {
        (c as int) - ('0' as int)
    } else {
        (c as int) - ('A' as int) + 10
    }
}

/// Percent-decoding: `%XX` yields the byte `XX`, any other character
/// yields its own code (the encoder only emits ASCII).
pub open spec fn pct_decode(s: Seq<char>) -> Seq<u8>
    decreases s.len(),
{
    if s.len() == 0 {
        Seq::empty()
    } else if s[0] == '%' && s.len() >= 3 {
        seq![(hex_val(s[1]) * 16 + hex_val(s[2])) as u8] + pct_decode(s.skip(3))
    } else {
        seq![s[0] as u8] + pct_decode(s.skip(1))
    }
}

proof fn lemma_hex2_byte(b: u8)
    ensures
        hex2(b as nat).len() == 2,
        hex_val(hex2(b as nat)[0]) * 16 + hex_val(hex2(b as nat)[1]) == b,
{
    let n = b as nat;
    if n < 16 {
        assert(hex2(n) =~= seq!['0', digit_char(n)]);
    } else {
        reveal_with_fuel(crate::numeric::radix, 3);
        assert(n / 16 < 16);
        assert(crate::numeric::hex(n) =~= seq![digit_char((n / 16) % 16), digit_char(n % 16)]);
    }
}

/// Decoding an encoded byte string gives back the bytes: percent-decoding
/// what `encode_query_value` returns yields exactly the value's UTF-8
/// bytes, so the query-string encoding is lossless.
pub proof fn pct_roundtrip(bs: Seq<u8>)
    ensures
        pct_decode(pct_encode(bs)) == bs,
    decreases bs.len(),
{
    if bs.len() > 0 {
        let b = bs[0];
        let rest = pct_encode(bs.drop_first());
        pct_roundtrip(bs.drop_first());
        let e = pct_byte(b) + rest;
        if unreserved(b) {
            assert(e[0] == b as char);
            assert(e.skip(1) =~= rest);
        } else {
            lemma_hex2_byte(b);
            assert(e[0] == '%');
            assert(e.skip(3) =~= rest);
        }
        assert(pct_decode(e) =~= bs);
    }
}

/// A hex digit of a byte is an upper-case hex digit, so safe in a URL.
proof fn lemma_digit_safe(d: nat)
    requires
        d < 16,
    ensures
        ('0' <= digit_char(d) <= '9') || ('A' <= digit_char(d) <= 'F'),
{
}

/// The encoding only writes unreserved characters and `%` (followed by
/// two upper-case hex digits, which are unreserved too).
pub proof fn pct_encode_is_unreserved(bs: Seq<u8>)
    ensures
        forall|i: int|
            0 <= i < pct_encode(bs).len() ==> url_safe(#[trigger] pct_encode(bs)[i])
                || pct_encode(bs)[i] == '%',
    decreases bs.len(),
{
    if bs.len() > 0 {
        let b = bs[0];
        let rest = pct_encode(bs.drop_first());
        pct_encode_is_unreserved(bs.drop_first());
        let e = pct_byte(b);
        if !unreserved(b) {
            let n = b as nat;
            if n < 16 {
                assert(hex2(n) =~= seq!['0', digit_char(n)]);
                lemma_digit_safe(n);
            } else {
                reveal_with_fuel(crate::numeric::radix, 3);
                assert(n / 16 < 16);
                assert(crate::numeric::hex(n) =~= seq![digit_char((n / 16) % 16), digit_char(n % 16)]);
                lemma_digit_safe((n / 16) % 16);
                lemma_digit_safe(n % 16);
            }
            assert(e.len() == 3);
        }
        assert forall|i: int| 0 <= i < e.len() implies url_safe(#[trigger] e[i]) || e[i] == '%' by {}
        assert forall|i: int|
            0 <= i < pct_encode(bs).len() implies url_safe(#[trigger] pct_encode(bs)[i])
                || pct_encode(bs)[i] == '%' by {
            assert(pct_encode(bs) == e + rest);
            if i < e.len() {
                assert(pct_encode(bs)[i] == e[i]);
            } else {
                assert(pct_encode(bs)[i] == rest[i - e.len()]);
            }
        }
    }
}

// ---------------------------------------------------------------------
// Character-wise encoding used for repository names
// ---------------------------------------------------------------------

/// Characters kept as-is by [`urlencode`]: ASCII letters and digits,
/// `-`, `_`, `.`, `~`.
pub open spec fn url_safe(c: char) -> bool {
    ('A' <= c <= 'Z') || ('a' <= c <= 'z') || ('0' <= c <= '9') || c == '-' || c == '_' || c
        == '.' || c == '~'
}

/// The encoding of one character: itself when safe, else `%` followed by
/// its code point in upper-case hex (at least two digits).
pub open spec fn url_char(c: char) -> Seq<char> {
    if url_safe(c) {
        seq![c]
    } else {
        seq!['%'] + hex2((c as u32) as nat)
    }
}

/// Character-wise encoding of a text.
pub open spec fn url_text(s: Seq<char>) -> Seq<char>
    decreases s.len(),
{
    if s.len() == 0 {
        Seq::empty()
    } else {
        url_text(s.drop_last()) + url_char(s.last())
    }
}

/// Encodes a repository name for a query string, escaping every character
/// outside the safe set by its code point.
pub fn urlencode(s: &str) -> (r: String)
    ensures
        r@ == url_text(s@),
{
    let v = chars_of(s);
    let mut r = String::new();
    let mut i: usize = 0;
    while i < v.len()
        invariant
            i <= v@.len(),
            v@ == s@,
            r@ == url_text(v@.take(i as int)),
        decreases v@.len() - i,
    {
        let c = v[i];
        let ghost before = r@;
        if ('A' <= c && c <= 'Z') || ('a' <= c && c <= 'z') || ('0' <= c && c <= '9') || c == '-'
            || c == '_' || c == '.' || c == '~' {
            push_char(&mut r, c);
            proof {
                assert(r@ =~= before + url_char(c));
            }
        } else {
            push_char(&mut r, '%');
            push_hex2(&mut r, c as u32 as u64);
            proof {
                assert(r@ =~= before + url_char(c));
            }
        }
        proof {
            assert(v@.take(i + 1).drop_last() =~= v@.take(i as int));
        }
        i = i + 1;
    }
    proof {
        assert(v@.take(v@.len() as int) =~= v@);
    }
    r
}

} // verus!
