//! Percent-encoding of query strings, as used when building search URLs.
//!
//! Unreserved characters pass through; every other byte becomes `%` followed
//! by its two uppercase hexadecimal digits.

use vstd::prelude::*;
use vstd::string::*;

verus! {

/// Relies on `String::push`: appends the given character to the end of the
/// string.
pub assume_specification[ String::push ](s: &mut String, ch: char)
    ensures
        final(s)@ == old(s)@.push(ch),
;

/// Bytes that must not be percent-encoded: ASCII letters, digits, and
/// `-`, `_`, `.`, `~`.
pub open spec fn is_unreserved(b: u8) -> bool {
    (0x41 <= b <= 0x5A)  // 'A'..'Z'
    || (0x61 <= b <= 0x7A)  // 'a'..'z'
    || (0x30 <= b <= 0x39)  // '0'..'9'
    || b == 0x2D  // '-'
    || b == 0x5F  // '_'
    || b == 0x2E  // '.'
    || b == 0x7E  // '~'
}

/// The uppercase hexadecimal digit for a value below 16.
pub open spec fn hex_digit(v: u8) -> char {
    if v == 0 {
        '0'
    } else if v == 1 {
        '1'
    } else if v == 2 {
        '2'
    } else if v == 3 {
        '3'
    } else if v == 4 {
        '4'
    } else if v == 5 {
        '5'
    } else if v == 6 {
        '6'
    } else if v == 7 {
        '7'
    } else if v == 8 {
        '8'
    } else if v == 9 {
        '9'
    } else if v == 10 {
        'A'
    } else if v == 11 {
        'B'
    } else if v == 12 {
        'C'
    } else if v == 13 {
        'D'
    } else if v == 14 {
        'E'
    } else {
        'F'
    }
}

/// How one byte appears in the encoded output.
pub open spec fn encode_byte(b: u8) -> Seq<char> {
    if is_unreserved(b) {
        seq![b as char]
    } else {
        seq!['%', hex_digit(b / 16), hex_digit(b % 16)]
    }
}

/// The whole encoded output for a byte sequence.
pub open spec fn percent_encoded(bs: Seq<u8>) -> Seq<char>
    decreases bs.len(),
{
    if bs.len() == 0 {
        Seq::empty()
    } else {
        percent_encoded(bs.drop_last()) + encode_byte(bs.last())
    }
}

proof fn lemma_percent_encoded_take_succ(bs: Seq<u8>, i: int)
    requires
        0 <= i < bs.len(),
    ensures
        percent_encoded(bs.take(i + 1)) == percent_encoded(bs.take(i)) + encode_byte(bs[i]),
{
    let t = bs.take(i + 1);
    assert(t.drop_last() =~= bs.take(i));
    assert(percent_encoded(t) == percent_encoded(t.drop_last()) + encode_byte(t.last()));
}

fn hex_char(v: u8) -> (c: char)
    requires
        v < 16,
    ensures
        c == hex_digit(v),
{
    if v == 0 {
        '0'
    } else if v == 1 {
        '1'
    } else if v == 2 {
        '2'
    } else if v == 3 {
        '3'
    } else if v == 4 {
        '4'
    } else if v == 5 {
        '5'
    } else if v == 6 {
        '6'
    } else if v == 7 {
        '7'
    } else if v == 8 {
        '8'
    } else if v == 9 {
        '9'
    } else if v == 10 {
        'A'
    } else if v == 11 {
        'B'
    } else if v == 12 {
        'C'
    } else if v == 13 {
        'D'
    } else if v == 14 {
        'E'
    } else {
        'F'
    }
}

/// Percent-encode the UTF-8 bytes of a string, leaving unreserved
/// characters as they are.
#[verifier::loop_isolation(false)]
pub fn percent_encode(from: &str) -> (res: String)
    ensures
        res@ == percent_encoded(from.spec_bytes()),
{
    let bytes: &[u8] = from.as_bytes();
    let n = bytes.len();
    let mut res = String::new();
    let mut i: usize = 0;
    while i < n
        invariant
            i <= n,
            res@ == percent_encoded(bytes@.take(i as int)),
        decreases n - i,
    {
        let b = bytes[i];
        proof {
            lemma_percent_encoded_take_succ(bytes@, i as int);
        }
        if (b >= 0x41 && b <= 0x5A) || (b >= 0x61 && b <= 0x7A) || (b >= 0x30 && b <= 0x39)
            || b == 0x2D || b == 0x5F || b == 0x2E || b == 0x7E {
            res.push(b as char);
            assert(res@ =~= percent_encoded(bytes@.take(i + 1)));
        } else {
            res.push('%');
            res.push(hex_char(b / 16));
            res.push(hex_char(b % 16));
            assert(res@ =~= percent_encoded(bytes@.take(i + 1)));
        }
        i = i + 1;
    }
    assert(bytes@.take(n as int) =~= bytes@);
    res
}

} // verus!
