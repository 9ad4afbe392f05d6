//! Text codecs of the wire protocol: lowercase hex for ids and hashes,
//! decimal for the integer headers.
//!
//! Hex decoding and encoding call the `hex` crate through trusted wrappers
//! whose contracts state the exact byte-for-byte relation; everything else
//! is verified here.

use vstd::prelude::*;
use vstd::string::StrSliceExecFns;
use vstd::string::StringExecFns;
use vstd::string::StringSliceAdditionalSpecFns;

use crate::error::Error;

verus! {

/// The character for one digit value below 16, as the `hex` crate and the
/// decimal renderer produce it: `0`-`9` then lowercase `a`-`f`.
pub open spec fn digit_char(d: int) -> char {
    if d < 10 {
        ((0x30 + d) as u8) as char
    } else {
        ((0x57 + d) as u8) as char
    }
}

/// Lowercase hex of a byte sequence, two digits per byte.
pub open spec fn hex_of(data: Seq<u8>) -> Seq<char>
    decreases data.len(),
{
    if data.len() == 0 {
        Seq::empty()
    } else {
        seq![
            digit_char((data.first() >> 4) as int),
            digit_char((data.first() & 0x0f) as int),
        ] + hex_of(data.drop_first())
    }
}

/// Whether a byte is an ASCII hex digit, upper or lower case.
pub open spec fn is_hex_byte(b: u8) -> bool {
    (0x30 <= b && b <= 0x39) || (0x41 <= b && b <= 0x46) || (0x61 <= b && b <= 0x66)
}

/// The value of one ASCII hex digit byte.
pub open spec fn hex_byte_val(b: u8) -> int {
    if 0x30 <= b && b <= 0x39 {
        b - 0x30
    } else if 0x41 <= b && b <= 0x46 {
        b - 0x41 + 10
    } else {
        b - 0x61 + 10
    }
}

/// Whether every byte of the sequence is a hex digit.
pub open spec fn all_hex_bytes(bs: Seq<u8>) -> bool {
    forall|i: int| 0 <= i < bs.len() ==> is_hex_byte(#[trigger] bs[i])
}

/// The byte decoded from the hex digit pair at positions `2i`, `2i + 1`.
pub open spec fn hex_pair_val(bs: Seq<u8>, i: int) -> u8 {
    (hex_byte_val(bs[2 * i]) * 16 + hex_byte_val(bs[2 * i + 1])) as u8
}

/// Relies on `hex::encode`: lowercase hex, two digits per byte.
#[verifier::external_body]
pub fn encode_hex(data: &[u8]) -> (r: String)
    ensures
        r@ == hex_of(data@),
{
    hex::encode(data)
}

/// Relies on `<[u8; 16]>::from_hex` of the `hex` crate: accepts exactly 32
/// hex digit bytes, upper or lower case, and decodes them pairwise.
#[verifier::external_body]
pub fn decode_hex_16(s: &str) -> (r: Option<[u8; 16]>)
    ensures
        r is Some <==> (s.spec_bytes().len() == 32 && all_hex_bytes(s.spec_bytes())),
        r is Some ==> forall|i: int|
            0 <= i < 16 ==> r->Some_0@[i] == hex_pair_val(s.spec_bytes(), i),
{
    match <[u8; 16] as hex::FromHex>::from_hex(s) {
        Ok(a) => Some(a),
        Err(_) => None,
    }
}

/// Relies on `<[u8; 32]>::from_hex` of the `hex` crate: accepts exactly 64
/// hex digit bytes, upper or lower case, and decodes them pairwise.
#[verifier::external_body]
pub fn decode_hex_32(s: &str) -> (r: Option<[u8; 32]>)
    ensures
        r is Some <==> (s.spec_bytes().len() == 64 && all_hex_bytes(s.spec_bytes())),
        r is Some ==> forall|i: int|
            0 <= i < 32 ==> r->Some_0@[i] == hex_pair_val(s.spec_bytes(), i),
{
    match <[u8; 32] as hex::FromHex>::from_hex(s) {
        Ok(a) => Some(a),
        Err(_) => None,
    }
}

/// One-character string for a digit value below 16.
pub fn digit_str(d: u8) -> (r: &'static str)
    requires
        0 <= d < 16,
    ensures
        r@ == seq![digit_char(d as int)],
{
    proof {
        reveal_strlit("0");
        reveal_strlit("1");
        reveal_strlit("2");
        reveal_strlit("3");
        reveal_strlit("4");
        reveal_strlit("5");
        reveal_strlit("6");
        reveal_strlit("7");
        reveal_strlit("8");
        reveal_strlit("9");
        reveal_strlit("a");
        reveal_strlit("b");
        reveal_strlit("c");
        reveal_strlit("d");
        reveal_strlit("e");
        reveal_strlit("f");
    }
    match d {
        0 => "0",
        1 => "1",
        2 => "2",
        3 => "3",
        4 => "4",
        5 => "5",
        6 => "6",
        7 => "7",
        8 => "8",
        9 => "9",
        10 => "a",
        11 => "b",
        12 => "c",
        13 => "d",
        14 => "e",
        _ => "f",
    }
}

/// Decimal digits of a natural number, most significant first.
pub open spec fn dec_str(n: nat) -> Seq<char>
    decreases n,
{
    if n < 10 {
        seq![digit_char(n as int)]
    } else {
        dec_str(n / 10) + seq![digit_char((n % 10) as int)]
    }
}

/// Decimal rendering of a signed number: a leading `-` for negatives.
pub open spec fn dec_str_i64(n: int) -> Seq<char> {
    if n < 0 {
        seq!['-'] + dec_str((-n) as nat)
    } else {
        dec_str(n as nat)
    }
}

/// Render an unsigned number in decimal.
pub fn u64_to_dec(n: u64) -> (r: String)
    ensures
        r@ == dec_str(n as nat),
    decreases n,
{
    if n < 10 {
        digit_str(n as u8).to_owned()
    } else {
        let mut s = u64_to_dec(n / 10);
        s.append(digit_str((n % 10) as u8));
        s
    }
}

/// Render a signed number in decimal.
pub fn i64_to_dec(n: i64) -> (r: String)
    ensures
        r@ == dec_str_i64(n as int),
{
    if n >= 0 {
        u64_to_dec(n as u64)
    } else {
        let mag: u64 = (-(n as i128)) as u64;
        let mut s = minus_str().to_owned();
        s.append(u64_to_dec(mag).as_str());
        s
    }
}

/// The string of one minus sign.
fn minus_str() -> (r: &'static str)
    ensures
        r@ == seq!['-'],
{
    proof {
        reveal_strlit("-");
    }
    "-"
}

/// Whether a byte is an ASCII decimal digit.
pub open spec fn is_dec_digit(b: u8) -> bool {
    0x30 <= b && b <= 0x39
}

/// Whether every byte of the sequence is a decimal digit.
pub open spec fn all_dec_digits(bs: Seq<u8>) -> bool {
    forall|i: int| 0 <= i < bs.len() ==> is_dec_digit(#[trigger] bs[i])
}

/// The value of a string of decimal digit bytes.
pub open spec fn dec_val(bs: Seq<u8>) -> int
    decreases bs.len(),
{
    if bs.len() == 0 {
        0
    } else {
        dec_val(bs.drop_last()) * 10 + (bs.last() - 0x30)
    }
}

proof fn lemma_dec_val_nonneg(bs: Seq<u8>)
    requires
        all_dec_digits(bs),
    ensures
        dec_val(bs) >= 0,
    decreases bs.len(),
{
    if bs.len() > 0 {
        assert(all_dec_digits(bs.drop_last()));
        lemma_dec_val_nonneg(bs.drop_last());
    }
}

proof fn lemma_dec_val_mono(bs: Seq<u8>, i: int, j: int)
    requires
        all_dec_digits(bs),
        0 <= i <= j <= bs.len(),
    ensures
        dec_val(bs.take(i)) <= dec_val(bs.take(j)),
    decreases j - i,
{
    if i < j {
        lemma_dec_val_mono(bs, i, j - 1);
        let t = bs.take(j);
        assert(t.drop_last() =~= bs.take(j - 1));
        assert(all_dec_digits(bs.take(j - 1)));
        lemma_dec_val_nonneg(bs.take(j - 1));
    }
}

/// Parse an unsigned decimal number: at least one digit, digits only, and
/// the value must fit.
pub fn parse_u64(s: &str) -> (r: Result<u64, Error>)
    ensures
        r is Ok <==> (s.spec_bytes().len() > 0 && all_dec_digits(s.spec_bytes())
            && dec_val(s.spec_bytes()) <= u64::MAX),
        r is Ok ==> r->Ok_0 == dec_val(s.spec_bytes()),
        r is Err ==> r->Err_0 == Error::ApiParseNum,
{
    proof {
        assert(s.spec_bytes().skip(0) =~= s.spec_bytes());
    }
    match parse_dec_bounded(s.as_bytes(), 0, u64::MAX) {
        Some(v) => Ok(v),
        None => Err(Error::ApiParseNum),
    }
}

/// Parse the digit bytes from `start` on, failing when a byte is not a
/// digit, there are no digits, or the value exceeds `bound`.
fn parse_dec_bounded(bs: &[u8], start: usize, bound: u64) -> (r: Option<u64>)
    requires
        start <= bs@.len(),
        bound >= 9,
    ensures
        r is Some <==> (bs@.len() - start > 0 && all_dec_digits(bs@.skip(start as int))
            && dec_val(bs@.skip(start as int)) <= bound),
        r is Some ==> r->Some_0 == dec_val(bs@.skip(start as int)),
{
    let ghost ds = bs@.skip(start as int);
    let n = bs.len();
    if n == start {
        return None;
    }
    let mut acc: u64 = 0;
    let mut i: usize = start;
    while i < n
        invariant
            start <= i <= n,
            n == bs@.len(),
            bound >= 9,
            ds == bs@.skip(start as int),
            all_dec_digits(ds.take(i - start)),
            acc == dec_val(ds.take(i - start)),
            acc <= bound,
        decreases n - i,
    {
        let b = bs[i];
        proof {
            assert(ds[i - start] == bs@[i as int]);
        }
        if b < 0x30 || b > 0x39 {
            proof {
                assert(!is_dec_digit(ds[i - start]));
            }
            return None;
        }
        let d = (b - 0x30) as u64;
        assert(d <= 9);
        proof {
            assert(ds.take(i - start + 1).drop_last() =~= ds.take(i - start));
            assert(ds.take(i - start + 1).last() == ds[i - start]);
        }
        if acc > (bound - d) / 10 {
            proof {
                // The prefix through this digit already exceeds the bound,
                // so the whole string does.
                let v = dec_val(ds.take(i - start + 1));
                assert(v == acc * 10 + d);
                assert(acc >= (bound - d) / 10 + 1);
                assert(((bound - d) / 10 + 1) * 10 == ((bound - d) / 10) * 10 + 10)
                    by (nonlinear_arith);
                assert(acc * 10 >= ((bound - d) / 10 + 1) * 10) by (nonlinear_arith)
                    requires
                        acc >= (bound - d) / 10 + 1,
                ;
                vstd::arithmetic::div_mod::lemma_fundamental_div_mod(
                    (bound - d) as int,
                    10,
                );
                vstd::arithmetic::div_mod::lemma_mod_bound((bound - d) as int, 10);
                assert(v > bound);
                if all_dec_digits(ds) && dec_val(ds) <= bound {
                    assert(all_dec_digits(ds.take(i - start + 1)));
                    lemma_dec_val_mono(ds, i - start + 1, ds.len() as int);
                    assert(ds.take(ds.len() as int) =~= ds);
                    assert(false);
                }
            }
            return None;
        }
        acc = acc * 10 + d;
        i = i + 1;
    }
    proof {
        assert(ds.take(n - start) =~= ds);
    }
    Some(acc)
}

/// Whether the byte string is a valid signed decimal for `i64`.
pub open spec fn i64_str_ok(bs: Seq<u8>) -> bool {
    if bs.len() > 0 && bs[0] == 0x2d {
        bs.len() > 1 && all_dec_digits(bs.skip(1)) && dec_val(bs.skip(1))
            <= 0x8000000000000000
    } else {
        bs.len() > 0 && all_dec_digits(bs) && dec_val(bs) <= i64::MAX
    }
}

/// The value of a valid signed decimal byte string.
pub open spec fn i64_str_val(bs: Seq<u8>) -> int {
    if bs.len() > 0 && bs[0] == 0x2d {
        -dec_val(bs.skip(1))
    } else {
        dec_val(bs)
    }
}

/// Parse a signed decimal number: an optional leading `-`, then digits.
pub fn parse_i64(s: &str) -> (r: Result<i64, Error>)
    ensures
        r is Ok <==> i64_str_ok(s.spec_bytes()),
        r is Ok ==> r->Ok_0 == i64_str_val(s.spec_bytes()),
        r is Err ==> r->Err_0 == Error::ApiParseNum,
{
    let bs = s.as_bytes();
    proof {
        assert(s.spec_bytes().skip(0) =~= s.spec_bytes());
    }
    if bs.len() > 0 && bs[0] == 0x2d {
        match parse_dec_bounded(bs, 1, 0x8000000000000000u64) {
            Some(v) => {
                if v == 0x8000000000000000u64 {
                    Ok(i64::MIN)
                } else {
                    Ok(-(v as i64))
                }
            },
            None => Err(Error::ApiParseNum),
        }
    } else {
        match parse_dec_bounded(bs, 0, i64::MAX as u64) {
            Some(v) => Ok(v as i64),
            None => Err(Error::ApiParseNum),
        }
    }
}

/// Parse a boolean: exactly `true` or `false`.
pub fn parse_bool(s: &str) -> (r: Result<bool, Error>)
    ensures
        r is Ok <==> (s.spec_bytes() =~= seq![0x74u8, 0x72, 0x75, 0x65]
            || s.spec_bytes() =~= seq![0x66u8, 0x61, 0x6c, 0x73, 0x65]),
        r is Ok ==> r->Ok_0 == (s.spec_bytes() =~= seq![0x74u8, 0x72, 0x75, 0x65]),
{
    let bs = s.as_bytes();
    if bs.len() == 4 && bs[0] == 0x74 && bs[1] == 0x72 && bs[2] == 0x75 && bs[3] == 0x65 {
        proof {
            assert(bs@ =~= seq![0x74u8, 0x72, 0x75, 0x65]);
        }
        Ok(true)
    } else if bs.len() == 5 && bs[0] == 0x66 && bs[1] == 0x61 && bs[2] == 0x6c
        && bs[3] == 0x73 && bs[4] == 0x65 {
        proof {
            assert(bs@ =~= seq![0x66u8, 0x61, 0x6c, 0x73, 0x65]);
        }
        Ok(false)
    } else {
        Err(Error::ApiParseNum)
    }
}

/// The UTF-8 bytes of a character sequence.
pub open spec fn str_bytes(s: Seq<char>) -> Seq<u8> {
    vstd::utf8::encode_utf8(s)
}

/// Whether the characters parse as a 16-byte id in hex.
pub open spec fn is_id_chars(s: Seq<char>) -> bool {
    str_bytes(s).len() == 32 && all_hex_bytes(str_bytes(s))
}

/// The id bytes the characters denote.
pub open spec fn id_of_chars(s: Seq<char>) -> Seq<u8> {
    Seq::new(16, |i| hex_pair_val(str_bytes(s), i))
}

/// Whether the characters parse as a 32-byte hash in hex.
pub open spec fn is_hash_chars(s: Seq<char>) -> bool {
    str_bytes(s).len() == 64 && all_hex_bytes(str_bytes(s))
}

/// The hash bytes the characters denote.
pub open spec fn hash_of_chars(s: Seq<char>) -> Seq<u8> {
    Seq::new(32, |i| hex_pair_val(str_bytes(s), i))
}

/// Whether the characters parse as a `u64`.
pub open spec fn is_u64_chars(s: Seq<char>) -> bool {
    str_bytes(s).len() > 0 && all_dec_digits(str_bytes(s)) && dec_val(str_bytes(s)) <= u64::MAX
}

/// The number the characters denote.
pub open spec fn u64_of_chars(s: Seq<char>) -> int {
    dec_val(str_bytes(s))
}

/// Whether the characters parse as an `i64`.
pub open spec fn is_i64_chars(s: Seq<char>) -> bool {
    i64_str_ok(str_bytes(s))
}

/// The signed number the characters denote.
pub open spec fn i64_of_chars(s: Seq<char>) -> int {
    i64_str_val(str_bytes(s))
}

/// Whether two strings hold the same characters.
pub fn str_eq(a: &str, b: &str) -> (r: bool)
    ensures
        r == (a@ == b@),
{
    let an = a.unicode_len();
    let bn = b.unicode_len();
    if an != bn {
        return false;
    }
    let mut i: usize = 0;
    while i < an
        invariant
            0 <= i <= an,
            an == a@.len(),
            an == b@.len(),
            forall|j: int| 0 <= j < i ==> a@[j] == b@[j],
        decreases an - i,
    {
        if a.get_char(i) != b.get_char(i) {
            return false;
        }
        i = i + 1;
    }
    proof {
        assert(a@ =~= b@);
    }
    true
}

/// Parse a boolean: exactly `true` or `false`.
pub fn parse_bool_chars(s: &str) -> (r: Result<bool, Error>)
    ensures
        r is Ok <==> (s@ == "true"@ || s@ == "false"@),
        r is Ok ==> r->Ok_0 == (s@ == "true"@),
        r is Err ==> r->Err_0 == Error::ApiParseNum,
{
    if str_eq(s, "true") {
        Ok(true)
    } else if str_eq(s, "false") {
        Ok(false)
    } else {
        Err(Error::ApiParseNum)
    }
}

/// Whether the string starts with an underscore: such names are reserved.
pub fn starts_with_underscore(s: &str) -> (r: bool)
    ensures
        r == (s@.len() > 0 && s@[0] == '_'),
{
    if s.unicode_len() == 0 {
        false
    } else {
        let c = s.get_char(0);
        c == '_'
    }
}

} // verus!
