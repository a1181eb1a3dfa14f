//! Byte-to-text encodings used across the relay: lower-case hex, decimal
//! digit strings, base64 (URL-safe without padding, and standard with
//! padding), and UTF-8 conversion. Hex and decimal are implemented and
//! verified here; base64 and UTF-8 validation stand behind trusted wrappers.

use vstd::prelude::*;

verus! {

use vstd::utf8::{valid_utf8, decode_utf8, encode_utf8};
use vstd::string::StringSliceAdditionalSpecFns;

/// The lower-case hex digit for a nibble.
pub open spec fn hex_digit_spec(n: u8) -> char
    recommends
        n < 16,
{
    if n < 10 {
        ((n + 48) as u8) as char
    } else {
        ((n + 87) as u8) as char
    }
}

/// Lower-case hex encoding of a byte sequence, two digits per byte.
pub open spec fn hex_of(bytes: Seq<u8>) -> Seq<char>
    decreases bytes.len(),
{
    if bytes.len() == 0 {
        seq![]
    } else {
        seq![hex_digit_spec(bytes[0] / 16), hex_digit_spec(bytes[0] % 16)] + hex_of(
            bytes.drop_first(),
        )
    }
}

/// Decimal digit string of a natural number, no leading zeros (except "0").
pub open spec fn dec_of(n: nat) -> Seq<char>
    decreases n,
{
    if n < 10 {
        seq![hex_digit_spec(n as u8)]
    } else {
        dec_of(n / 10) + seq![hex_digit_spec((n % 10) as u8)]
    }
}

fn hex_digit(n: u8) -> (c: char)
    requires
        n < 16,
    ensures
        c == hex_digit_spec(n),
{
    if n < 10 {
        (n + 48) as char
    } else {
        (n + 87) as char
    }
}

/// Relies on std's String::push: appends one character at the end.
#[verifier::external_body]
pub fn string_push(s: &mut String, c: char)
    ensures
        final(s)@ == old(s)@.push(c),
{
    s.push(c);
}

/// Relies on std's String::from_utf8: succeeds exactly on valid UTF-8 and
/// returns the decoded characters.
#[verifier::external_body]
pub fn string_from_utf8(v: Vec<u8>) -> (r: Result<String, ()>)
    ensures
        r is Ok <==> valid_utf8(v@),
        r is Ok ==> r.unwrap()@ == decode_utf8(v@),
{
    match String::from_utf8(v) {
        Ok(s) => Ok(s),
        Err(_) => Err(()),
    }
}

/// Lower-case hex encoding of a byte slice.
pub fn hex_encode(bytes: &[u8]) -> (r: String)
    ensures
        r@ == hex_of(bytes@),
{
    let mut r = String::new();
    let n = bytes.len();
    let mut i: usize = 0;
    proof {
        assert(bytes@.skip(0) =~= bytes@);
    }
    while i < n
        invariant
            n == bytes@.len(),
            i <= n,
            hex_of(bytes@) =~= r@ + hex_of(bytes@.skip(i as int)),
            r@.len() == 2 * i,
        decreases n - i,
    {
        let b = bytes[i];
        assert(b / 16 < 16);
        assert(b % 16 < 16);
        string_push(&mut r, hex_digit(b / 16));
        string_push(&mut r, hex_digit(b % 16));
        proof {
            assert(bytes@.skip(i as int).drop_first() =~= bytes@.skip(i + 1));
        }
        i = i + 1;
    }
    proof {
        assert(bytes@.skip(n as int) =~= Seq::<u8>::empty());
        assert(r@ + Seq::<char>::empty() =~= r@);
    }
    r
}

/// Decimal string of an unsigned 64-bit number.
pub fn decimal_string(n: u64) -> (r: String)
    ensures
        r@ == dec_of(n as nat),
{
    let mut digits: Vec<char> = Vec::new();
    let mut x: u64 = n;
    if x == 0 {
        let mut r = String::new();
        string_push(&mut r, '0');
        proof {
            assert(dec_of(0) =~= seq![hex_digit_spec(0)]);
            assert(hex_digit_spec(0) == '0');
        }
        return r;
    }
    while x > 0
        invariant
            dec_of(n as nat) =~= (if x > 0 {
                dec_of(x as nat)
            } else {
                Seq::<char>::empty()
            }) + digits@.reverse(),
        decreases x,
    {
        let d = hex_digit((x % 10) as u8);
        proof {
            assert(digits@.push(hex_digit_spec((x % 10) as u8)).reverse() =~= seq![
                hex_digit_spec((x % 10) as u8),
            ] + digits@.reverse());
        }
        digits.push(d);
        x = x / 10;
    }
    let mut r = String::new();
    let k = digits.len();
    let mut j: usize = 0;
    while j < k
        invariant
            k == digits@.len(),
            j <= k,
            r@ =~= digits@.reverse().take(j as int),
        decreases k - j,
    {
        string_push(&mut r, digits[k - 1 - j]);
        proof {
            assert(digits@.reverse().take(j + 1) =~= digits@.reverse().take(j as int).push(
                digits@.reverse()[j as int],
            ));
        }
        j = j + 1;
    }
    proof {
        assert(digits@.reverse().take(k as int) =~= digits@.reverse());
        assert(Seq::<char>::empty() + digits@.reverse() =~= digits@.reverse());
    }
    r
}

/// UTF-8 encoding is injective: equal encodings come from equal strings.
pub proof fn lemma_encode_utf8_injective(a: Seq<char>, b: Seq<char>)
    requires
        encode_utf8(a) == encode_utf8(b),
    ensures
        a == b,
{
    broadcast use vstd::utf8::encode_utf8_decode_utf8;

    assert(decode_utf8(encode_utf8(a)) == a);
    assert(decode_utf8(encode_utf8(b)) == b);
}

/// Whether two strings are equal, compared byte by byte.
pub fn str_eq(a: &str, b: &str) -> (r: bool)
    ensures
        r == (a@ == b@),
{
    let ab = a.as_bytes();
    let bb = b.as_bytes();
    if ab.len() != bb.len() {
        proof {
            if a@ == b@ {
                assert(ab@ == bb@);
            }
        }
        return false;
    }
    let n = ab.len();
    let mut i: usize = 0;
    while i < n
        invariant
            n == ab@.len(),
            n == bb@.len(),
            ab@ == encode_utf8(a@),
            bb@ == encode_utf8(b@),
            i <= n,
            forall|j: int| 0 <= j < i ==> ab@[j] == bb@[j],
        decreases n - i,
    {
        if ab[i] != bb[i] {
            proof {
                if a@ == b@ {
                    assert(ab@ == bb@);
                }
            }
            return false;
        }
        i = i + 1;
    }
    proof {
        assert(ab@ =~= bb@);
        lemma_encode_utf8_injective(a@, b@);
    }
    true
}


/// Hex digits of distinct nibbles are distinct characters.
proof fn lemma_hex_digit_injective(n: u8, m: u8)
    requires
        n < 16,
        m < 16,
        hex_digit_spec(n) == hex_digit_spec(m),
    ensures
        n == m,
{
    assert(hex_digit_spec(n) as u32 == hex_digit_spec(m) as u32);
}

/// Hex encoding doubles the length.
pub proof fn lemma_hex_len(s: Seq<u8>)
    ensures
        hex_of(s).len() == 2 * s.len(),
    decreases s.len(),
{
    if s.len() > 0 {
        lemma_hex_len(s.drop_first());
    }
}

/// Hex encoding is injective: equal encodings come from equal bytes.
pub proof fn lemma_hex_of_injective(a: Seq<u8>, b: Seq<u8>)
    requires
        hex_of(a) == hex_of(b),
    ensures
        a == b,
    decreases a.len(),
{
    lemma_hex_len(a);
    lemma_hex_len(b);
    if a.len() == 0 {
        assert(a =~= b);
    } else {
        assert(hex_of(a)[0] == hex_digit_spec(a[0] / 16));
        assert(hex_of(b)[0] == hex_digit_spec(b[0] / 16));
        assert(hex_of(a)[1] == hex_digit_spec(a[0] % 16));
        assert(hex_of(b)[1] == hex_digit_spec(b[0] % 16));
        lemma_hex_digit_injective(a[0] / 16, b[0] / 16);
        lemma_hex_digit_injective(a[0] % 16, b[0] % 16);
        assert(a[0] == b[0]);
        assert(hex_of(a.drop_first()) =~= hex_of(a).skip(2));
        assert(hex_of(b.drop_first()) =~= hex_of(b).skip(2));
        lemma_hex_of_injective(a.drop_first(), b.drop_first());
        assert forall|i: int| 0 <= i < a.len() implies a[i] == b[i] by {
            if i > 0 {
                assert(a[i] == a.drop_first()[i - 1]);
                assert(b[i] == b.drop_first()[i - 1]);
            }
        }
        assert(a =~= b);
    }
}

/// What base64's URL-safe, unpadded engine returns for a byte sequence.
pub uninterp spec fn b64url_of(bytes: Seq<u8>) -> Seq<char>;

/// What base64's standard, padded engine returns for a byte sequence.
pub uninterp spec fn b64std_of(bytes: Seq<u8>) -> Seq<char>;

/// Relies on base64's URL_SAFE_NO_PAD engine: the encoding is a function of
/// the bytes alone, and an unpadded encoding of n bytes has ceil(4n/3)
/// characters.
#[verifier::external_body]
pub fn b64url_encode(bytes: &[u8]) -> (r: String)
    ensures
        r@ == b64url_of(bytes@),
        r@.len() == (bytes@.len() * 4 + 2) / 3,
{
    base64::Engine::encode(&base64::engine::general_purpose::URL_SAFE_NO_PAD, bytes)
}

/// Relies on base64's URL_SAFE_NO_PAD engine: decoding succeeds exactly on
/// canonical encodings (the engine rejects padding and nonzero trailing
/// bits) and inverts the encoding.
#[verifier::external_body]
pub fn b64url_decode(s: &str) -> (r: Result<Vec<u8>, ()>)
    ensures
        r is Ok <==> exists|b: Seq<u8>| s@ == b64url_of(b),
        forall|b: Seq<u8>| s@ == b64url_of(b) ==> r is Ok && r.unwrap()@ == b,
{
    match base64::Engine::decode(&base64::engine::general_purpose::URL_SAFE_NO_PAD, s) {
        Ok(v) => Ok(v),
        Err(_) => Err(()),
    }
}

/// Relies on base64's STANDARD engine: the encoding is a function of the
/// bytes alone, and a padded encoding of n bytes has 4*ceil(n/3) characters.
#[verifier::external_body]
pub fn b64std_encode(bytes: &[u8]) -> (r: String)
    ensures
        r@ == b64std_of(bytes@),
        r@.len() == ((bytes@.len() + 2) / 3) * 4,
{
    base64::Engine::encode(&base64::engine::general_purpose::STANDARD, bytes)
}

} // verus!
