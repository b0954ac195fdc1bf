//! Parsing a content hash written as 64 hexadecimal digits.

use vstd::prelude::*;
use vstd::string::StringSliceAdditionalSpecFns;
use vstd::utf8::decode_utf8;
use vstd::utf8::encode_utf8;
use vstd::utf8::encode_utf8_decode_utf8;
use vstd::utf8::encode_utf8_valid_utf8;
use vstd::utf8::is_ascii_chars;
use vstd::utf8::is_ascii_chars_encode_utf8;
use vstd::utf8::pop_first_scalar;
use vstd::utf8::valid_utf8;

verus! {

/// Why a hash argument was refused.
#[derive(Debug, Clone, Copy, PartialEq, Eq, Structural)]
pub enum HashError {
    /// The text is not 64 bytes long.
    WrongLength,
    /// A pair of bytes of the text is not valid UTF-8 on its own.
    NotUtf8,
    /// A pair of characters is not a base-16 number that fits in a byte.
    NotHexadecimal,
}

/// The value of one base-16 digit, in either case.
pub open spec fn hex_digit_value(c: char) -> Option<int> {
    if '0' <= c && c <= '9' {
        Some(c as int - '0' as int)
    } else if 'a' <= c && c <= 'f' {
        Some(c as int - 'a' as int + 10)
    } else if 'A' <= c && c <= 'F' {
        Some(c as int - 'A' as int + 10)
    } else {
        None
    }
}

/// The value of a string of base-16 digits, most significant first.
pub open spec fn hex_digits_value(s: Seq<char>) -> Option<int>
    decreases s.len(),
{
    if s.len() == 0 {
        Some(0)
    } else {
        match (hex_digits_value(s.drop_last()), hex_digit_value(s.last())) {
            (Some(v), Some(d)) => Some(16 * v + d),
            _ => None,
        }
    }
}

/// What `u8::from_str_radix(s, 16)` accepts: an optional `+`, then at
/// least one base-16 digit, denoting a number below 256.
pub open spec fn hex_u8(s: Seq<char>) -> Option<u8> {
    let digits = if s.len() > 0 && s[0] == '+' {
        s.drop_first()
    } else {
        s
    };
    if digits.len() == 0 {
        None
    } else {
        match hex_digits_value(digits) {
            Some(v) => if v <= 255 {
                Some(v as u8)
            } else {
                None
            },
            None => None,
        }
    }
}

/// The `i`-th pair of bytes of a hash text.
pub open spec fn hash_pair(bytes: Seq<u8>, i: int) -> Seq<u8> {
    bytes.subrange(2 * i, 2 * i + 2)
}

/// The byte that one pair of bytes of a hash text denotes.
pub open spec fn pair_byte(pair: Seq<u8>) -> Result<u8, HashError> {
    if !valid_utf8(pair) {
        Err(HashError::NotUtf8)
    } else {
        match hex_u8(decode_utf8(pair)) {
            Some(b) => Ok(b),
            None => Err(HashError::NotHexadecimal),
        }
    }
}

/// The bytes of the first `k` pairs of a hash text, or the error of the
/// first pair among them that is refused.
pub open spec fn parse_pairs(bytes: Seq<u8>, k: nat) -> Result<Seq<u8>, HashError>
    decreases k,
{
    if k == 0 {
        Ok(Seq::empty())
    } else {
        match parse_pairs(bytes, (k - 1) as nat) {
            Err(e) => Err(e),
            Ok(prefix) => match pair_byte(hash_pair(bytes, k - 1)) {
                Err(e) => Err(e),
                Ok(b) => Ok(prefix.push(b)),
            },
        }
    }
}

/// The hash that the UTF-8 bytes of a hash text denote.
pub open spec fn parse_hash_bytes(bytes: Seq<u8>) -> Result<Seq<u8>, HashError> {
    if bytes.len() != 64 {
        Err(HashError::WrongLength)
    } else {
        parse_pairs(bytes, 32)
    }
}

/// `core::str::from_utf8`: it returns the text that `bytes` encode exactly
/// when they are valid UTF-8.
#[verifier::external_body]
fn str_from_utf8(bytes: &[u8]) -> (text: Option<&str>)
    ensures
        text is Some <==> valid_utf8(bytes@),
        text matches Some(t) ==> t@ == decode_utf8(bytes@),
{
    core::str::from_utf8(bytes).ok()
}

/// `u8::from_str_radix` in base 16: it returns the number exactly when the
/// text is an optional `+` followed by base-16 digits whose value fits in a
/// byte.
#[verifier::external_body]
fn u8_from_hex_str(digits: &str) -> (value: Option<u8>)
    ensures
        value == hex_u8(digits@),
{
    u8::from_str_radix(digits, 16).ok()
}

proof fn lemma_parse_pairs_err_stays(bytes: Seq<u8>, j: nat, k: nat, e: HashError)
    requires
        j <= k,
        parse_pairs(bytes, j) == Err::<Seq<u8>, HashError>(e),
    ensures
        parse_pairs(bytes, k) == Err::<Seq<u8>, HashError>(e),
    decreases k - j,
{
    if j < k {
        lemma_parse_pairs_err_stays(bytes, j, (k - 1) as nat, e);
    }
}

/// Parses a content hash from 64 hexadecimal digits: each pair of bytes of
/// the text must be valid UTF-8 on its own and a base-16 number below 256.
pub fn parse_hash(value: &str) -> (r: Result<[u8; 32], HashError>)
    ensures
        match r {
            Ok(h) => parse_hash_bytes(value.spec_bytes()) == Ok::<Seq<u8>, HashError>(h@),
            Err(e) => parse_hash_bytes(value.spec_bytes()) == Err::<Seq<u8>, HashError>(e),
        },
        value.spec_bytes().len() != 64 ==> r == Err::<[u8; 32], HashError>(HashError::WrongLength),
        r is Ok ==> value.spec_bytes().len() == 64,
        r matches Ok(h) ==> forall|i: int|
            0 <= i < 32 ==> pair_byte(#[trigger] hash_pair(value.spec_bytes(), i))
                == Ok::<u8, HashError>(h@[i]),
{
    proof {
        lemma_hash_needs_64_bytes(value.spec_bytes());
    }
    let bytes: &[u8] = value.as_bytes();
    if bytes.len() != 64 {
        return Err(HashError::WrongLength);
    }
    let mut output: [u8; 32] = [0u8; 32];
    let mut index: usize = 0;
    assert(output@.take(0) =~= Seq::<u8>::empty());
    while index < 32
        invariant
            index <= 32,
            bytes@ == value.spec_bytes(),
            bytes@.len() == 64,
            parse_pairs(bytes@, index as nat) == Ok::<Seq<u8>, HashError>(
                output@.take(index as int),
            ),
        decreases 32 - index,
    {
        let pair: [u8; 2] = [bytes[2 * index], bytes[2 * index + 1]];
        assert(pair@ == hash_pair(bytes@, index as int));
        let text: &str = match str_from_utf8(pair.as_slice()) {
            Some(t) => t,
            None => {
                proof {
                    lemma_parse_pairs_err_stays(bytes@, (index + 1) as nat, 32, HashError::NotUtf8);
                }
                return Err(HashError::NotUtf8);
            },
        };
        let byte: u8 = match u8_from_hex_str(text) {
            Some(b) => b,
            None => {
                proof {
                    lemma_parse_pairs_err_stays(
                        bytes@,
                        (index + 1) as nat,
                        32,
                        HashError::NotHexadecimal,
                    );
                }
                return Err(HashError::NotHexadecimal);
            },
        };
        let ghost before = output@;
        output[index] = byte;
        assert(output@.take(index + 1) == before.take(index as int).push(byte));
        index = index + 1;
    }
    assert(output@.take(32) == output@);
    Ok(output)
}

/// A text of 64 hexadecimal digits, in either case.
pub open spec fn is_hex_text(s: Seq<char>) -> bool {
    &&& s.len() == 64
    &&& forall|i: int| 0 <= i < 64 ==> (#[trigger] hex_digit_value(s[i])) is Some
}

/// The byte that the `i`-th pair of digits of a hexadecimal text denotes,
/// the first digit the more significant.
pub open spec fn hex_pair_value(s: Seq<char>, i: int) -> u8 {
    (16 * hex_digit_value(s[2 * i])->0 + hex_digit_value(s[2 * i + 1])->0) as u8
}

/// The 32 bytes that a text of 64 hexadecimal digits denotes.
pub open spec fn hex_text_bytes(s: Seq<char>) -> Seq<u8> {
    Seq::new(32, |i: int| hex_pair_value(s, i))
}

proof fn lemma_hex_text_is_ascii(s: Seq<char>)
    requires
        is_hex_text(s),
    ensures
        is_ascii_chars(s),
{
    assert forall|j: int| 0 <= j < s.len() implies '\0' <= #[trigger] s[j] <= '\u{7f}' by {
        assert(hex_digit_value(s[j]) is Some);
    }
}

proof fn lemma_hex_pair(s: Seq<char>, i: int)
    requires
        is_hex_text(s),
        0 <= i < 32,
    ensures
        pair_byte(hash_pair(encode_utf8(s), i)) == Ok::<u8, HashError>(hex_pair_value(s, i)),
{
    let c0 = s[2 * i];
    let c1 = s[2 * i + 1];
    assert(hex_digit_value(c0) is Some);
    assert(hex_digit_value(c1) is Some);
    lemma_hex_text_is_ascii(s);
    is_ascii_chars_encode_utf8(s);
    let two = seq![c0, c1];
    assert(is_ascii_chars(two));
    is_ascii_chars_encode_utf8(two);
    assert(hash_pair(encode_utf8(s), i) =~= encode_utf8(two));
    encode_utf8_valid_utf8(two);
    encode_utf8_decode_utf8(two);
    assert(two.drop_last() =~= seq![c0]);
    assert(seq![c0].drop_last() =~= Seq::<char>::empty());
    assert(seq![c0].last() == c0);
    assert(two.last() == c1);
    assert(hex_digits_value(Seq::<char>::empty()) == Some(0int));
    assert(hex_digits_value(seq![c0]) == Some(hex_digit_value(c0)->0));
    assert(hex_digits_value(two) == Some(16 * hex_digit_value(c0)->0 + hex_digit_value(c1)->0));
}

proof fn lemma_hex_pairs(s: Seq<char>, k: nat)
    requires
        is_hex_text(s),
        k <= 32,
    ensures
        parse_pairs(encode_utf8(s), k) == Ok::<Seq<u8>, HashError>(hex_text_bytes(s).take(k as int)),
    decreases k,
{
    if k == 0 {
        assert(hex_text_bytes(s).take(0) =~= Seq::<u8>::empty());
    } else {
        lemma_hex_pairs(s, (k - 1) as nat);
        lemma_hex_pair(s, k - 1);
        assert(hex_text_bytes(s).take(k as int) =~= hex_text_bytes(s).take(k - 1).push(
            hex_pair_value(s, k - 1),
        ));
    }
}

/// A text of 64 hexadecimal digits, in either case, parses into the 32
/// bytes that its pairs of digits denote.
pub proof fn lemma_hex_text_parses(s: Seq<char>)
    requires
        is_hex_text(s),
    ensures
        parse_hash_bytes(encode_utf8(s)) == Ok::<Seq<u8>, HashError>(hex_text_bytes(s)),
{
    lemma_hex_text_is_ascii(s);
    is_ascii_chars_encode_utf8(s);
    lemma_hex_pairs(s, 32);
    assert(hex_text_bytes(s).take(32) =~= hex_text_bytes(s));
}

/// What `to_ascii_uppercase` does to one byte: `a`..=`z` become `A`..=`Z`,
/// every other byte stays.
pub open spec fn ascii_upper_byte(b: u8) -> u8 {
    if 97 <= b <= 122 {
        (b - 32) as u8
    } else {
        b
    }
}

/// What `to_ascii_lowercase` does to one byte: `A`..=`Z` become `a`..=`z`,
/// every other byte stays.
pub open spec fn ascii_lower_byte(b: u8) -> u8 {
    if 65 <= b <= 90 {
        (b + 32) as u8
    } else {
        b
    }
}

/// The bytes of a text with its ASCII letters made upper case.
pub open spec fn ascii_uppercase(bytes: Seq<u8>) -> Seq<u8> {
    bytes.map_values(|b: u8| ascii_upper_byte(b))
}

/// The bytes of a text with its ASCII letters made lower case.
pub open spec fn ascii_lowercase(bytes: Seq<u8>) -> Seq<u8> {
    bytes.map_values(|b: u8| ascii_lower_byte(b))
}

spec fn fold_byte(b: u8, upper: bool) -> u8 {
    if upper {
        ascii_upper_byte(b)
    } else {
        ascii_lower_byte(b)
    }
}

spec fn fold_bytes(bytes: Seq<u8>, upper: bool) -> Seq<u8> {
    if upper {
        ascii_uppercase(bytes)
    } else {
        ascii_lowercase(bytes)
    }
}

proof fn lemma_fold_ascii_byte(b: u8, upper: bool)
    requires
        b < 0x80,
    ensures
        fold_byte(b, upper) < 0x80,
        hex_digit_value(fold_byte(b, upper) as char) == hex_digit_value(b as char),
        (fold_byte(b, upper) as char == '+') == (b as char == '+'),
{
}

proof fn lemma_ascii_pair(p: Seq<u8>)
    requires
        p.len() == 2,
        p[0] < 0x80,
        p[1] < 0x80,
    ensures
        valid_utf8(p),
        decode_utf8(p) == seq![p[0] as char, p[1] as char],
{
    let cs = seq![p[0] as char, p[1] as char];
    assert(is_ascii_chars(cs));
    is_ascii_chars_encode_utf8(cs);
    assert(encode_utf8(cs) =~= p);
    encode_utf8_valid_utf8(cs);
    encode_utf8_decode_utf8(cs);
}

proof fn lemma_mixed_pair_invalid(p: Seq<u8>)
    requires
        p.len() == 2,
        (p[0] < 0x80) != (p[1] < 0x80),
    ensures
        !valid_utf8(p),
{
    reveal_with_fuel(valid_utf8, 2);
    if p[0] < 0x80 {
        assert(pop_first_scalar(p) =~= seq![p[1]]);
    }
}

proof fn lemma_digits_same_values(s: Seq<char>, t: Seq<char>)
    requires
        s.len() == t.len(),
        forall|i: int| 0 <= i < s.len() ==> hex_digit_value(s[i]) == hex_digit_value(t[i]),
    ensures
        hex_digits_value(s) == hex_digits_value(t),
    decreases s.len(),
{
    if s.len() > 0 {
        lemma_digits_same_values(s.drop_last(), t.drop_last());
        assert(hex_digit_value(s.last()) == hex_digit_value(t.last()));
    }
}

proof fn lemma_hex_u8_same_values(s: Seq<char>, t: Seq<char>)
    requires
        s.len() == t.len(),
        forall|i: int| 0 <= i < s.len() ==> hex_digit_value(s[i]) == hex_digit_value(t[i]),
        forall|i: int| 0 <= i < s.len() ==> (s[i] == '+') == (t[i] == '+'),
    ensures
        hex_u8(s) == hex_u8(t),
{
    if s.len() > 0 && s[0] == '+' {
        lemma_digits_same_values(s.drop_first(), t.drop_first());
    } else {
        lemma_digits_same_values(s, t);
    }
}

proof fn lemma_pair_fold(p: Seq<u8>, upper: bool)
    requires
        p.len() == 2,
    ensures
        pair_byte(fold_bytes(p, upper)) == pair_byte(p),
{
    let q = fold_bytes(p, upper);
    assert(q.len() == 2);
    assert(q[0] == fold_byte(p[0], upper));
    assert(q[1] == fold_byte(p[1], upper));
    if p[0] < 0x80 && p[1] < 0x80 {
        lemma_fold_ascii_byte(p[0], upper);
        lemma_fold_ascii_byte(p[1], upper);
        lemma_ascii_pair(p);
        lemma_ascii_pair(q);
        let s = seq![p[0] as char, p[1] as char];
        let t = seq![q[0] as char, q[1] as char];
        lemma_hex_u8_same_values(t, s);
    } else if p[0] >= 0x80 && p[1] >= 0x80 {
        assert(q =~= p);
    } else {
        lemma_mixed_pair_invalid(p);
        if p[0] < 0x80 {
            lemma_fold_ascii_byte(p[0], upper);
        } else {
            lemma_fold_ascii_byte(p[1], upper);
        }
        lemma_mixed_pair_invalid(q);
    }
}

proof fn lemma_pairs_fold(bytes: Seq<u8>, k: nat, upper: bool)
    requires
        2 * k <= bytes.len(),
    ensures
        parse_pairs(fold_bytes(bytes, upper), k) == parse_pairs(bytes, k),
    decreases k,
{
    if k > 0 {
        lemma_pairs_fold(bytes, (k - 1) as nat, upper);
        let i = k - 1;
        assert(hash_pair(fold_bytes(bytes, upper), i) =~= fold_bytes(hash_pair(bytes, i), upper));
        lemma_pair_fold(hash_pair(bytes, i), upper);
    }
}

/// Parsing a hash ignores the case of its ASCII letters: making them all
/// upper case, or all lower case, gives the same result, the same hash or
/// the same error.
pub proof fn lemma_hash_ignores_letter_case(bytes: Seq<u8>)
    ensures
        parse_hash_bytes(ascii_uppercase(bytes)) == parse_hash_bytes(bytes),
        parse_hash_bytes(ascii_lowercase(bytes)) == parse_hash_bytes(bytes),
{
    if bytes.len() == 64 {
        lemma_pairs_fold(bytes, 32, true);
        lemma_pairs_fold(bytes, 32, false);
    }
}

proof fn lemma_parse_pairs_ok(bytes: Seq<u8>, k: nat)
    requires
        parse_pairs(bytes, k) is Ok,
    ensures
        parse_pairs(bytes, k)->Ok_0.len() == k,
        forall|i: int|
            0 <= i < k ==> pair_byte(#[trigger] hash_pair(bytes, i)) == Ok::<u8, HashError>(
                parse_pairs(bytes, k)->Ok_0[i],
            ),
    decreases k,
{
    if k > 0 {
        lemma_parse_pairs_ok(bytes, (k - 1) as nat);
    }
}

proof fn lemma_parse_pairs_all_ok(bytes: Seq<u8>, k: nat)
    requires
        forall|i: int| 0 <= i < k ==> (#[trigger] pair_byte(hash_pair(bytes, i))) is Ok,
    ensures
        parse_pairs(bytes, k) is Ok,
    decreases k,
{
    if k > 0 {
        lemma_parse_pairs_all_ok(bytes, (k - 1) as nat);
        assert(pair_byte(hash_pair(bytes, k - 1)) is Ok);
    }
}

/// A hash text is accepted only when it is exactly 64 bytes long, and then
/// exactly when each of its 32 pairs of bytes denotes a byte; the hash is
/// those 32 bytes in order. Any other length is refused as such.
pub proof fn lemma_hash_needs_64_bytes(bytes: Seq<u8>)
    ensures
        bytes.len() != 64 ==> parse_hash_bytes(bytes) == Err::<Seq<u8>, HashError>(
            HashError::WrongLength,
        ),
        parse_hash_bytes(bytes) is Ok ==> bytes.len() == 64,
        parse_hash_bytes(bytes) matches Ok(h) ==> {
            &&& h.len() == 32
            &&& forall|i: int|
                0 <= i < 32 ==> pair_byte(#[trigger] hash_pair(bytes, i)) == Ok::<u8, HashError>(
                    h[i],
                )
        },
        bytes.len() == 64 && (forall|i: int|
            0 <= i < 32 ==> (#[trigger] pair_byte(hash_pair(bytes, i))) is Ok) ==> parse_hash_bytes(
            bytes,
        ) is Ok,
{
    if bytes.len() == 64 {
        if parse_pairs(bytes, 32) is Ok {
            lemma_parse_pairs_ok(bytes, 32);
        }
        if forall|i: int| 0 <= i < 32 ==> (#[trigger] pair_byte(hash_pair(bytes, i))) is Ok {
            lemma_parse_pairs_all_ok(bytes, 32);
        }
    }
}

} // verus!
