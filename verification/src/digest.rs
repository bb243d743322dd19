//! Content digests of the form `<algorithm>:<hex>`, and their verification.
use vstd::prelude::*;
use vstd::string::StringSliceAdditionalSpecFns;
use vstd::utf8::{encode_utf8, decode_utf8, valid_utf8, pop_first_scalar, is_ascii_chars, is_ascii_chars_encode_utf8};
use crate::text::{chars_of, string_of, find_char, chars_equal, first_index_of, decimal, decimal_string};

verus! {

/// The digest algorithms that content digests may name.
#[derive(PartialEq, Eq, Debug, Clone, Copy)]
pub enum DigestAlgorithm {
    Sha256,
    Sha384,
    Sha512,
}

/// The name `sha256`.
pub open spec fn sha256_chars() -> Seq<char> {
    seq!['s', 'h', 'a', '2', '5', '6']
}

/// The name `sha384`.
pub open spec fn sha384_chars() -> Seq<char> {
    seq!['s', 'h', 'a', '3', '8', '4']
}

/// The name `sha512`.
pub open spec fn sha512_chars() -> Seq<char> {
    seq!['s', 'h', 'a', '5', '1', '2']
}

impl DigestAlgorithm {
    /// The number of bytes in a digest of this algorithm.
    pub open spec fn spec_output_len(self) -> nat {
        match self {
            DigestAlgorithm::Sha256 => 32,
            DigestAlgorithm::Sha384 => 48,
            DigestAlgorithm::Sha512 => 64,
        }
    }

    /// The name of the algorithm as it appears in a digest.
    pub open spec fn spec_name(self) -> Seq<char> {
        match self {
            DigestAlgorithm::Sha256 => sha256_chars(),
            DigestAlgorithm::Sha384 => sha384_chars(),
            DigestAlgorithm::Sha512 => sha512_chars(),
        }
    }

    /// The number of bytes in a digest of this algorithm.
    pub fn output_len(&self) -> (n: usize)
        ensures
            n == self.spec_output_len(),
    {
        match self {
            DigestAlgorithm::Sha256 => 32,
            DigestAlgorithm::Sha384 => 48,
            DigestAlgorithm::Sha512 => 64,
        }
    }
}

/// The algorithm that a digest's prefix names.
pub open spec fn algorithm_named(name: Seq<char>) -> Option<DigestAlgorithm> {
    if name == sha256_chars() {
        Some(DigestAlgorithm::Sha256)
    } else if name == sha384_chars() {
        Some(DigestAlgorithm::Sha384)
    } else if name == sha512_chars() {
        Some(DigestAlgorithm::Sha512)
    } else {
        None
    }
}

/// Looks up the algorithm that `v[lo..hi]` names.
pub fn algorithm(v: &[char], lo: usize, hi: usize) -> (r: Option<DigestAlgorithm>)
    requires
        lo <= hi <= v@.len(),
    ensures
        r == algorithm_named(v@.subrange(lo as int, hi as int)),
{
    let sha256 = ['s', 'h', 'a', '2', '5', '6'];
    let sha384 = ['s', 'h', 'a', '3', '8', '4'];
    let sha512 = ['s', 'h', 'a', '5', '1', '2'];
    assert(sha256@ == sha256_chars());
    assert(sha384@ == sha384_chars());
    assert(sha512@ == sha512_chars());
    if chars_equal(v, lo, hi, &sha256) {
        Some(DigestAlgorithm::Sha256)
    } else if chars_equal(v, lo, hi, &sha384) {
        Some(DigestAlgorithm::Sha384)
    } else if chars_equal(v, lo, hi, &sha512) {
        Some(DigestAlgorithm::Sha512)
    } else {
        None
    }
}

/// The name of an algorithm as it appears in a digest.
pub fn algorithm_name(algorithm: DigestAlgorithm) -> (s: &'static str)
    ensures
        s@ == algorithm.spec_name(),
{
    proof {
        reveal_strlit("sha256");
        reveal_strlit("sha384");
        reveal_strlit("sha512");
    }
    match algorithm {
        DigestAlgorithm::Sha256 => "sha256",
        DigestAlgorithm::Sha384 => "sha384",
        DigestAlgorithm::Sha512 => "sha512",
    }
}

// ---------------------------------------------------------------------------
// Hexadecimal

/// Why a hexadecimal digest could not be decoded.
#[derive(PartialEq, Eq, Debug, Clone)]
pub enum HexError {
    /// The hex text has an odd number of bytes.
    OddLength,
    /// The two bytes at `offset` are not UTF-8 text; `reason` says why, in
    /// the words of `std::str::from_utf8`.
    NotUtf8 { offset: usize, reason: String },
    /// The two bytes at `offset` are the text `pair`, which is not two
    /// hexadecimal digits.
    InvalidByte { offset: usize, pair: String },
    /// The digest decodes to `actual` bytes where `algorithm` yields `expected`.
    WrongLength { expected: usize, algorithm: DigestAlgorithm, actual: usize },
}

/// The abstract value of a [`HexError`].
pub ghost enum HexErrorView {
    OddLength,
    NotUtf8 { offset: usize, reason: Seq<char> },
    InvalidByte { offset: usize, pair: Seq<char> },
    WrongLength { expected: usize, algorithm: DigestAlgorithm, actual: usize },
}

impl View for HexError {
    type V = HexErrorView;

    open spec fn view(&self) -> HexErrorView {
        match self {
            HexError::OddLength => HexErrorView::OddLength,
            HexError::NotUtf8 { offset, reason } => HexErrorView::NotUtf8 { offset: *offset, reason: reason@ },
            HexError::InvalidByte { offset, pair } => HexErrorView::InvalidByte { offset: *offset, pair: pair@ },
            HexError::WrongLength { expected, algorithm, actual } => HexErrorView::WrongLength {
                expected: *expected,
                algorithm: *algorithm,
                actual: *actual,
            },
        }
    }
}

/// The text of the error that `std::str::from_utf8` reports for bytes that
/// are not UTF-8.
pub uninterp spec fn utf8_error_text(bytes: Seq<u8>) -> Seq<char>;

/// Calls `std::str::from_utf8` and copies the text out, or the text of its
/// error. Claimed, as std documents it: the call succeeds exactly on valid
/// UTF-8, and then gives the characters that the bytes encode. Of the error
/// text only that it depends on the bytes alone is claimed; its wording is
/// left unsaid.
#[verifier::external_body]
fn utf8_text(bytes: &[u8]) -> (r: Result<String, String>)
    ensures
        r is Ok <==> valid_utf8(bytes@),
        r matches Ok(s) ==> s@ == decode_utf8(bytes@),
        r matches Err(t) ==> t@ == utf8_error_text(bytes@),
{
    match std::str::from_utf8(bytes) {
        Ok(text) => Ok(text.to_owned()),
        Err(error) => Err(error.to_string()),
    }
}

/// The value of an ASCII hexadecimal digit, either case.
pub open spec fn hex_digit(b: u8) -> Option<u8> {
    if 0x30 <= b <= 0x39 {
        Some((b - 0x30) as u8)
    } else if 0x61 <= b <= 0x66 {
        Some((b - 0x57) as u8)
    } else if 0x41 <= b <= 0x46 {
        Some((b - 0x37) as u8)
    } else {
        None
    }
}

/// The byte that two hexadecimal digits spell, high digit first; anything
/// else (a sign included) spells none.
pub open spec fn pair_value(b0: u8, b1: u8) -> Option<u8> {
    match (hex_digit(b0), hex_digit(b1)) {
        (Some(h), Some(l)) => Some((h * 16 + l) as u8),
        _ => None,
    }
}

/// Decodes the byte pairs of `b` from offset `i` on.
pub open spec fn decode_pairs(b: Seq<u8>, i: int) -> Result<Seq<u8>, HexErrorView>
    decreases b.len() - i,
{
    if i < 0 || i + 2 > b.len() {
        Ok(Seq::empty())
    } else if !valid_utf8(seq![b[i], b[i + 1]]) {
        Err(HexErrorView::NotUtf8 { offset: i as usize, reason: utf8_error_text(seq![b[i], b[i + 1]]) })
    } else {
        match pair_value(b[i], b[i + 1]) {
            None => Err(HexErrorView::InvalidByte { offset: i as usize, pair: decode_utf8(seq![b[i], b[i + 1]]) }),
            Some(v) => match decode_pairs(b, i + 2) {
                Ok(rest) => Ok(seq![v] + rest),
                Err(e) => Err(e),
            },
        }
    }
}

/// The bytes that hexadecimal text (given as its UTF-8 bytes) stands for;
/// the first bad pair decides the error.
pub open spec fn decode_hex_bytes(b: Seq<u8>) -> Result<Seq<u8>, HexErrorView> {
    if b.len() % 2 != 0 {
        Err(HexErrorView::OddLength)
    } else {
        decode_pairs(b, 0)
    }
}

spec fn prepend(p: Seq<u8>, r: Result<Seq<u8>, HexErrorView>) -> Result<Seq<u8>, HexErrorView> {
    match r {
        Ok(x) => Ok(p + x),
        Err(e) => Err(e),
    }
}

fn hex_digit_exec(b: u8) -> (r: Option<u8>)
    ensures
        r == hex_digit(b),
{
    if 0x30 <= b && b <= 0x39 {
        Some(b - 0x30)
    } else if 0x61 <= b && b <= 0x66 {
        Some(b - 0x57)
    } else if 0x41 <= b && b <= 0x46 {
        Some(b - 0x37)
    } else {
        None
    }
}

fn pair_value_exec(b0: u8, b1: u8) -> (r: Option<u8>)
    ensures
        r == pair_value(b0, b1),
{
    match (hex_digit_exec(b0), hex_digit_exec(b1)) {
        (Some(h), Some(l)) => Some(h * 16 + l),
        _ => None,
    }
}

/// Decodes hexadecimal text into bytes: two digits per byte, nothing else.
pub fn decode_hex(hex: &str) -> (r: Result<Vec<u8>, HexError>)
    ensures
        match (r, decode_hex_bytes(hex.spec_bytes())) {
            (Ok(v), Ok(w)) => v@ == w,
            (Err(e), Err(f)) => e@ == f,
            _ => false,
        },
{
    let b = hex.as_bytes();
    let n = b.len();
    if n % 2 != 0 {
        return Err(HexError::OddLength);
    }
    let mut out: Vec<u8> = Vec::new();
    let mut i: usize = 0;
    while i < n
        invariant
            b@ == hex.spec_bytes(),
            n == b@.len(),
            n % 2 == 0,
            i % 2 == 0,
            i <= n,
            decode_pairs(b@, 0) == prepend(out@, decode_pairs(b@, i as int)),
        decreases n - i,
    {
        let b0 = b[i];
        let b1 = b[i + 1];
        let pair = vec![b0, b1];
        assert(pair@ == seq![b@[i as int], b@[i + 1]]);
        let text = match utf8_text(pair.as_slice()) {
            Ok(text) => text,
            Err(reason) => {
                return Err(HexError::NotUtf8 { offset: i, reason });
            },
        };
        match pair_value_exec(b0, b1) {
            None => {
                return Err(HexError::InvalidByte { offset: i, pair: text });
            },
            Some(v) => {
                proof {
                    let r = decode_pairs(b@, i + 2);
                    match r {
                        Ok(x) => {
                            assert(out@.push(v) + x == out@ + (seq![v] + x));
                        },
                        Err(e) => {},
                    }
                }
                out.push(v);
            },
        }
        i = i + 2;
    }
    assert(out@ + Seq::<u8>::empty() == out@);
    Ok(out)
}

/// Two ASCII bytes are UTF-8 text.
proof fn lemma_ascii_pair_utf8(b0: u8, b1: u8)
    requires
        b0 < 0x80,
        b1 < 0x80,
    ensures
        valid_utf8(seq![b0, b1]),
{
    let s = seq![b0, b1];
    assert((b0 & 0x7f) <= 0x7f) by (bit_vector);
    assert((b1 & 0x7f) <= 0x7f) by (bit_vector);
    assert(pop_first_scalar(s) == seq![b1]);
    assert(pop_first_scalar(seq![b1]) == Seq::<u8>::empty());
    reveal_with_fuel(valid_utf8, 3);
}

/// Whether every byte is an ASCII hexadecimal digit.
pub open spec fn all_hex_digits(b: Seq<u8>) -> bool {
    forall|j: int| 0 <= j < b.len() ==> hex_digit(#[trigger] b[j]) is Some
}

proof fn lemma_decode_pairs_ok(b: Seq<u8>, i: int)
    requires
        0 <= i <= b.len(),
        (b.len() - i) % 2 == 0,
    ensures
        decode_pairs(b, i) is Ok <==> all_hex_digits(b.skip(i)),
    decreases b.len() - i,
{
    if i + 2 <= b.len() {
        lemma_decode_pairs_ok(b, i + 2);
        let rest = b.skip(i + 2);
        let here = b.skip(i);
        assert forall|j: int| 0 <= j < rest.len() implies rest[j] == here[j + 2] by {}
        if hex_digit(b[i]) is Some && hex_digit(b[i + 1]) is Some {
            lemma_ascii_pair_utf8(b[i], b[i + 1]);
        }
        if all_hex_digits(here) {
            assert(here[0] == b[i] && here[1] == b[i + 1]);
            assert(hex_digit(here[0]) is Some && hex_digit(here[1]) is Some);
            assert forall|j: int| 0 <= j < rest.len() implies hex_digit(#[trigger] rest[j]) is Some by {
                assert(hex_digit(here[j + 2]) is Some);
            }
        }
        if decode_pairs(b, i) is Ok {
            assert forall|j: int| 0 <= j < here.len() implies hex_digit(#[trigger] here[j]) is Some by {
                if j >= 2 {
                    assert(here[j] == rest[j - 2]);
                    assert(hex_digit(rest[j - 2]) is Some);
                } else {
                    assert(here[j] == b[i + j]);
                }
            }
        }
    } else {
        assert(b.skip(i).len() == 0);
    }
}

/// Hexadecimal text decodes exactly when it has an even number of bytes and
/// every byte is a hexadecimal digit: no sign, space or other character is
/// taken.
pub proof fn lemma_decode_hex_digits_only(b: Seq<u8>)
    ensures
        decode_hex_bytes(b) is Ok <==> (b.len() % 2 == 0 && all_hex_digits(b)),
{
    if b.len() % 2 == 0 {
        lemma_decode_pairs_ok(b, 0);
        assert(b.skip(0) == b);
    }
}

/// The lowercase hexadecimal digit for `n < 16`.
pub open spec fn hex_char(n: int) -> char {
    seq!['0', '1', '2', '3', '4', '5', '6', '7', '8', '9', 'a', 'b', 'c', 'd', 'e', 'f'][n]
}

/// Two lowercase hexadecimal digits per byte.
pub open spec fn encode_hex_chars(b: Seq<u8>) -> Seq<char>
    decreases b.len(),
{
    if b.len() == 0 {
        Seq::empty()
    } else {
        encode_hex_chars(b.drop_last()) + seq![hex_char((b.last() / 16) as int), hex_char((b.last() % 16) as int)]
    }
}

/// Where each byte's digits stand in the hexadecimal text.
pub proof fn lemma_encode_hex_chars(b: Seq<u8>)
    ensures
        encode_hex_chars(b).len() == 2 * b.len(),
        forall|k: int|
            0 <= k < b.len() ==> encode_hex_chars(b)[2 * k] == hex_char((b[k] / 16) as int) && encode_hex_chars(
                b,
            )[2 * k + 1] == hex_char((b[k] % 16) as int),
    decreases b.len(),
{
    if b.len() > 0 {
        let t = b.drop_last();
        lemma_encode_hex_chars(t);
        assert forall|k: int| 0 <= k < b.len() implies encode_hex_chars(b)[2 * k] == hex_char(
            (b[k] / 16) as int,
        ) && encode_hex_chars(b)[2 * k + 1] == hex_char((b[k] % 16) as int) by {
            if k < t.len() {
                assert(t[k] == b[k]);
            }
        }
    }
}

/// A hexadecimal digit is ASCII and reads back as its value.
pub proof fn lemma_hex_char(n: int)
    requires
        0 <= n < 16,
    ensures
        '\0' <= hex_char(n) <= '\u{7f}',
        hex_digit(hex_char(n) as u8) == Some(n as u8),
{
    let digits = seq!['0', '1', '2', '3', '4', '5', '6', '7', '8', '9', 'a', 'b', 'c', 'd', 'e', 'f'];
    assert(hex_char(n) == digits[n]);
    if n < 10 {
        assert(digits[n] as u32 == 48 + n);
    } else {
        assert(digits[n] as u32 == 87 + n);
    }
}

/// Decoding the bytes of hexadecimal text that this crate writes gives the
/// bytes back.
pub proof fn lemma_decode_encode_hex(b: Seq<u8>)
    ensures
        decode_hex_bytes(encode_utf8(encode_hex_chars(b))) == Ok::<Seq<u8>, HexErrorView>(b),
{
    let c = encode_hex_chars(b);
    lemma_encode_hex_chars(b);
    assert(is_ascii_chars(c)) by {
        assert forall|i: int| 0 <= i < c.len() implies '\0' <= #[trigger] c[i] <= '\u{7f}' by {
            let k = i / 2;
            if i % 2 == 0 {
                assert(i == 2 * k);
                lemma_hex_char((b[k] / 16) as int);
            } else {
                assert(i == 2 * k + 1);
                lemma_hex_char((b[k] % 16) as int);
            }
        }
    }
    is_ascii_chars_encode_utf8(c);
    let bytes = encode_utf8(c);
    assert(bytes.len() == 2 * b.len());
    assert forall|i: int| 0 <= i < b.len() implies bytes[2 * i] == hex_char((b[i] / 16) as int) as u8
        && bytes[2 * i + 1] == hex_char((b[i] % 16) as int) as u8 by {
        assert(c[2 * i] as u8 == bytes[2 * i]);
        assert(c[2 * i + 1] as u8 == bytes[2 * i + 1]);
    }
    lemma_decode_pairs_from(b, bytes, b.len() as int);
    assert(decode_pairs(bytes, 2 * (b.len() - b.len())) == Ok::<Seq<u8>, HexErrorView>(b.skip(b.len() - b.len())));
    assert(b.skip(0) == b);
}

proof fn lemma_decode_pairs_from(b: Seq<u8>, bytes: Seq<u8>, k: int)
    requires
        0 <= k <= b.len(),
        bytes.len() == 2 * b.len(),
        forall|i: int| 0 <= i < b.len() ==> bytes[2 * i] == hex_char((b[i] / 16) as int) as u8 && bytes[2 * i + 1]
            == hex_char((b[i] % 16) as int) as u8,
    ensures
        forall|j: int| 0 <= j <= k ==> decode_pairs(bytes, 2 * (b.len() - j)) == Ok::<Seq<u8>, HexErrorView>(
            #[trigger] b.skip(b.len() - j),
        ),
    decreases k,
{
    if k > 0 {
        lemma_decode_pairs_from(b, bytes, k - 1);
        let m = b.len() - k;
        let hi = (b[m] / 16) as int;
        let lo = (b[m] % 16) as int;
        lemma_hex_char(hi);
        lemma_hex_char(lo);
        assert(bytes[2 * m] == hex_char(hi) as u8);
        assert(bytes[2 * m + 1] == hex_char(lo) as u8);
        lemma_ascii_pair_utf8(bytes[2 * m], bytes[2 * m + 1]);
        assert(pair_value(bytes[2 * m], bytes[2 * m + 1]) == Some(b[m]));
        assert(decode_pairs(bytes, 2 * (b.len() - (k - 1))) == Ok::<Seq<u8>, HexErrorView>(b.skip(m + 1)));
        assert(seq![b[m]] + b.skip(m + 1) == b.skip(m));
    } else {
        assert(b.skip(b.len() as int) == Seq::<u8>::empty());
    }
}

/// Writes bytes as lowercase hexadecimal text.
pub fn encode_hex(bytes: &[u8]) -> (s: String)
    ensures
        s@ == encode_hex_chars(bytes@),
{
    let digits = ['0', '1', '2', '3', '4', '5', '6', '7', '8', '9', 'a', 'b', 'c', 'd', 'e', 'f'];
    assert(digits@ == seq!['0', '1', '2', '3', '4', '5', '6', '7', '8', '9', 'a', 'b', 'c', 'd', 'e', 'f']);
    let mut s = String::new();
    let mut i: usize = 0;
    while i < bytes.len()
        invariant
            i <= bytes@.len(),
            s@ == encode_hex_chars(bytes@.take(i as int)),
            digits@ == seq!['0', '1', '2', '3', '4', '5', '6', '7', '8', '9', 'a', 'b', 'c', 'd', 'e', 'f'],
        decreases bytes@.len() - i,
    {
        let byte = bytes[i];
        s.push(digits[(byte / 16) as usize]);
        s.push(digits[(byte % 16) as usize]);
        assert(bytes@.take(i + 1).drop_last() == bytes@.take(i as int));
        i = i + 1;
    }
    assert(bytes@.take(i as int) == bytes@);
    s
}


// ---------------------------------------------------------------------------
// Digests computed by `ring`

/// A `ring` digest context. The crate names its own storage context
/// `Context`, so `ring::digest::Context` is held here rather than declared.
#[verifier::external_body]
pub struct DigestState {
    context: ring::digest::Context,
}

/// The digest that `ring` computes with `algorithm` over `data`.
pub uninterp spec fn ring_digest(algorithm: DigestAlgorithm, data: Seq<u8>) -> Seq<u8>;

/// The bytes fed so far to a `ring` digest context.
pub uninterp spec fn context_data(context: DigestState) -> Seq<u8>;

/// The algorithm that a `ring` digest context was made with.
pub uninterp spec fn context_algorithm(context: DigestState) -> DigestAlgorithm;

/// The input length from which `ring` refuses to finish a digest: its bit
/// count must fit in a `u64`.
pub open spec fn digest_input_limit() -> nat {
    0x2000_0000_0000_0000
}

/// The input length from which `ring` refuses to finish a digest.
pub fn digest_input_limit_bytes() -> (n: u64)
    ensures
        n == digest_input_limit(),
{
    0x2000_0000_0000_0000
}

/// Calls `ring::digest::Context::new` with the `ring` algorithm that
/// `algorithm` names. Claimed: the new context has been fed nothing and
/// remembers its algorithm.
#[verifier::external_body]
fn new_context(algorithm: DigestAlgorithm) -> (context: DigestState)
    ensures
        context_data(context) == Seq::<u8>::empty(),
        context_algorithm(context) == algorithm,
{
    DigestState { context: ring::digest::Context::new(match algorithm {
        DigestAlgorithm::Sha256 => &ring::digest::SHA256,
        DigestAlgorithm::Sha384 => &ring::digest::SHA384,
        DigestAlgorithm::Sha512 => &ring::digest::SHA512,
    }) }
}

/// Calls `ring::digest::Context::update`. Claimed: the context has been fed
/// `data` after what it had been fed before, and keeps its algorithm (the
/// source never panics there: it saturates its byte counter).
#[verifier::external_body]
fn update_context(context: &mut DigestState, data: &[u8])
    ensures
        context_data(*final(context)) == context_data(*old(context)) + data@,
        context_algorithm(*final(context)) == context_algorithm(*old(context)),
{
    context.context.update(data)
}

/// Calls `ring::digest::Context::finish` and copies the digest out. Claimed:
/// the result is the digest of everything fed, as `ring::digest::digest`
/// computes it (its source builds a context, feeds it once and finishes
/// it), with the algorithm's output length. `finish` panics when the bit
/// count of the input overflows a `u64`; `requires` leaves that out.
#[verifier::external_body]
fn finish_context(context: DigestState) -> (d: Vec<u8>)
    requires
        context_data(context).len() < digest_input_limit(),
    ensures
        d@ == ring_digest(context_algorithm(context), context_data(context)),
        d@.len() == context_algorithm(context).spec_output_len(),
{
    context.context.finish().as_ref().to_vec()
}

/// Calls `ring::digest::digest` and copies the digest out. Claimed: the
/// result is the named digest of `data`, with the algorithm's output length.
/// It panics on the same inputs as `finish`; `requires` leaves them out.
#[verifier::external_body]
fn digest_bytes(algorithm: DigestAlgorithm, data: &[u8]) -> (d: Vec<u8>)
    requires
        data@.len() < digest_input_limit(),
    ensures
        d@ == ring_digest(algorithm, data@),
        d@.len() == algorithm.spec_output_len(),
{
    ring::digest::digest(match algorithm {
        DigestAlgorithm::Sha256 => &ring::digest::SHA256,
        DigestAlgorithm::Sha384 => &ring::digest::SHA384,
        DigestAlgorithm::Sha512 => &ring::digest::SHA512,
    }, data).as_ref().to_vec()
}

// ---------------------------------------------------------------------------
// Parsing and verifying digests

/// A digest that did not match the content it was checked against.
#[derive(Debug, Clone)]
pub struct VerificationFailed {
    expected: Vec<u8>,
    actual: Vec<u8>,
    algorithm: DigestAlgorithm,
}

/// The abstract value of a [`VerificationFailed`].
pub ghost struct VerificationFailedView {
    pub expected: Seq<u8>,
    pub actual: Seq<u8>,
    pub algorithm: DigestAlgorithm,
}

impl View for VerificationFailed {
    type V = VerificationFailedView;

    closed spec fn view(&self) -> VerificationFailedView {
        VerificationFailedView {
            expected: self.expected@,
            actual: self.actual@,
            algorithm: self.algorithm,
        }
    }
}

/// The message of a failed verification.
pub open spec fn verification_failed_message(v: VerificationFailedView) -> Seq<char> {
    "digest verification failed: expected "@ + v.algorithm.spec_name() + ":"@ + encode_hex_chars(v.expected)
        + ", got "@ + v.algorithm.spec_name() + ":"@ + encode_hex_chars(v.actual)
}

impl VerificationFailed {
    /// The message shown for this failure.
    pub fn to_string(&self) -> (s: String)
        ensures
            s@ == verification_failed_message(self@),
    {
        let mut s = "digest verification failed: expected ".to_owned();
        let name = algorithm_name(self.algorithm);
        s.push_str(name);
        s.push_str(":");
        s.push_str(encode_hex(self.expected.as_slice()).as_str());
        s.push_str(", got ");
        s.push_str(name);
        s.push_str(":");
        s.push_str(encode_hex(self.actual.as_slice()).as_str());
        s
    }
}

/// Why a digest was refused.
#[derive(Debug, Clone)]
pub enum DigestError {
    /// The digest lacks the `:` between algorithm and hex.
    InvalidFormat(String),
    /// The digest names an algorithm outside SHA-256, SHA-384 and SHA-512.
    UnsupportedAlgorithm(String),
    /// The hex part does not decode to a digest of the named algorithm.
    InvalidHex { digest: String, reason: HexError },
    /// The content does not have the digest.
    VerificationFailed(VerificationFailed),
}

/// The abstract value of a [`DigestError`].
pub ghost enum DigestErrorView {
    InvalidFormat(Seq<char>),
    UnsupportedAlgorithm(Seq<char>),
    InvalidHex { digest: Seq<char>, reason: HexErrorView },
    VerificationFailed(VerificationFailedView),
}

impl View for DigestError {
    type V = DigestErrorView;

    open spec fn view(&self) -> DigestErrorView {
        match self {
            DigestError::InvalidFormat(s) => DigestErrorView::InvalidFormat(s@),
            DigestError::UnsupportedAlgorithm(s) => DigestErrorView::UnsupportedAlgorithm(s@),
            DigestError::InvalidHex { digest, reason } => DigestErrorView::InvalidHex {
                digest: digest@,
                reason: reason@,
            },
            DigestError::VerificationFailed(v) => DigestErrorView::VerificationFailed(v@),
        }
    }
}

/// Why hex text was refused, in words.
pub open spec fn hex_error_message(e: HexErrorView) -> Seq<char> {
    match e {
        HexErrorView::OddLength => "hex digest has an odd number of characters"@,
        HexErrorView::NotUtf8 { reason, .. } => "hex digest is not valid UTF-8: "@ + reason,
        HexErrorView::InvalidByte { pair, .. } => "invalid hex byte `"@ + pair + "`: invalid digit found in string"@,
        HexErrorView::WrongLength { expected, algorithm, actual } => "expected "@ + decimal(expected as nat)
            + " bytes for "@ + algorithm.spec_name() + ", got "@ + decimal(actual as nat),
    }
}

impl HexError {
    /// The message shown for this error.
    pub fn to_string(&self) -> (s: String)
        ensures
            s@ == hex_error_message(self@),
    {
        match self {
            HexError::OddLength => "hex digest has an odd number of characters".to_owned(),
            HexError::NotUtf8 { reason, .. } => {
                let mut s = "hex digest is not valid UTF-8: ".to_owned();
                s.push_str(reason.as_str());
                s
            },
            HexError::InvalidByte { pair, .. } => {
                let mut s = "invalid hex byte `".to_owned();
                s.push_str(pair.as_str());
                s.push_str("`: invalid digit found in string");
                s
            },
            HexError::WrongLength { expected, algorithm, actual } => {
                let mut s = "expected ".to_owned();
                s.push_str(decimal_string(*expected).as_str());
                s.push_str(" bytes for ");
                s.push_str(algorithm_name(*algorithm));
                s.push_str(", got ");
                s.push_str(decimal_string(*actual).as_str());
                s
            },
        }
    }
}

/// The message of a refused digest.
pub open spec fn digest_error_message(e: DigestErrorView) -> Seq<char> {
    match e {
        DigestErrorView::InvalidFormat(d) => "digest `"@ + d + "` must use <algorithm>:<hex> format"@,
        DigestErrorView::UnsupportedAlgorithm(a) => "unsupported digest algorithm `"@ + a + "`"@,
        DigestErrorView::InvalidHex { digest, reason } => "invalid digest `"@ + digest + "`: "@ + hex_error_message(
            reason,
        ),
        DigestErrorView::VerificationFailed(v) => verification_failed_message(v),
    }
}

impl DigestError {
    /// The message shown for this error.
    pub fn to_string(&self) -> (s: String)
        ensures
            s@ == digest_error_message(self@),
    {
        match self {
            DigestError::InvalidFormat(d) => {
                let mut s = "digest `".to_owned();
                s.push_str(d.as_str());
                s.push_str("` must use <algorithm>:<hex> format");
                s
            },
            DigestError::UnsupportedAlgorithm(a) => {
                let mut s = "unsupported digest algorithm `".to_owned();
                s.push_str(a.as_str());
                s.push_str("`");
                s
            },
            DigestError::InvalidHex { digest, reason } => {
                let mut s = "invalid digest `".to_owned();
                s.push_str(digest.as_str());
                s.push_str("`: ");
                s.push_str(reason.to_string().as_str());
                s
            },
            DigestError::VerificationFailed(v) => v.to_string(),
        }
    }
}

/// What a digest string says: its algorithm and expected bytes, or why it
/// is refused.
pub open spec fn parse_digest(d: Seq<char>) -> Result<(DigestAlgorithm, Seq<u8>), DigestErrorView> {
    match first_index_of(d, ':') {
        None => Err(DigestErrorView::InvalidFormat(d)),
        Some(i) => match algorithm_named(d.take(i)) {
            None => Err(DigestErrorView::UnsupportedAlgorithm(d.take(i))),
            Some(algorithm) => match decode_hex_bytes(encode_utf8(d.skip(i + 1))) {
                Err(reason) => Err(DigestErrorView::InvalidHex { digest: d, reason }),
                Ok(bytes) => if bytes.len() != algorithm.spec_output_len() {
                    Err(
                        DigestErrorView::InvalidHex {
                            digest: d,
                            reason: HexErrorView::WrongLength {
                                expected: algorithm.spec_output_len() as usize,
                                algorithm,
                                actual: bytes.len() as usize,
                            },
                        },
                    )
                } else {
                    Ok((algorithm, bytes))
                },
            },
        },
    }
}

/// What checking `data` against the digest string `d` gives.
pub open spec fn check_digest(data: Seq<u8>, d: Seq<char>) -> Result<(), DigestErrorView> {
    match parse_digest(d) {
        Err(e) => Err(e),
        Ok((algorithm, expected)) => if ring_digest(algorithm, data) == expected {
            Ok(())
        } else {
            Err(
                DigestErrorView::VerificationFailed(
                    VerificationFailedView {
                        expected,
                        actual: ring_digest(algorithm, data),
                        algorithm,
                    },
                ),
            )
        },
    }
}

/// Checks content, fed piece by piece, against an expected digest.
pub struct DigestVerifier {
    expected: Vec<u8>,
    algorithm: DigestAlgorithm,
    context: DigestState,
}

impl DigestVerifier {
    /// The expected digest bytes.
    pub closed spec fn expected(&self) -> Seq<u8> {
        self.expected@
    }

    /// The digest algorithm.
    pub closed spec fn algorithm(&self) -> DigestAlgorithm {
        self.algorithm
    }

    /// The content fed so far.
    pub closed spec fn data(&self) -> Seq<u8> {
        context_data(self.context)
    }

    pub closed spec fn wf(&self) -> bool {
        context_algorithm(self.context) == self.algorithm
    }

    /// Starts checking content against `digest`, written `<algorithm>:<hex>`.
    pub fn new(digest: &str) -> (r: Result<DigestVerifier, DigestError>)
        ensures
            match (r, parse_digest(digest@)) {
                (Ok(v), Ok((algorithm, expected))) => {
                    &&& v.wf()
                    &&& v.algorithm() == algorithm
                    &&& v.expected() == expected
                    &&& v.data() == Seq::<u8>::empty()
                },
                (Err(e), Err(f)) => e@ == f,
                _ => false,
            },
    {
        let v = chars_of(digest);
        let n = v.len();
        assert(v@.take(n as int) == digest@);
        let colon = match find_char(v.as_slice(), n, ':') {
            Some(i) => i,
            None => {
                return Err(DigestError::InvalidFormat(digest.to_owned()));
            },
        };
        assert(v@.subrange(0, colon as int) == digest@.take(colon as int));
        let algorithm = match algorithm(v.as_slice(), 0, colon) {
            Some(a) => a,
            None => {
                return Err(DigestError::UnsupportedAlgorithm(string_of(v.as_slice(), 0, colon)));
            },
        };
        let hex = string_of(v.as_slice(), colon + 1, n);
        assert(hex@ == digest@.skip(colon + 1));
        let bytes = match decode_hex(hex.as_str()) {
            Ok(b) => b,
            Err(reason) => {
                return Err(DigestError::InvalidHex { digest: digest.to_owned(), reason });
            },
        };
        let expected_len = algorithm.output_len();
        if bytes.len() != expected_len {
            return Err(
                DigestError::InvalidHex {
                    digest: digest.to_owned(),
                    reason: HexError::WrongLength { expected: expected_len, algorithm, actual: bytes.len() },
                },
            );
        }
        let context = new_context(algorithm);
        Ok(DigestVerifier { expected: bytes, algorithm, context })
    }

    /// Feeds the next piece of content.
    pub fn update(&mut self, bytes: &[u8])
        requires
            old(self).wf(),
        ensures
            final(self).wf(),
            final(self).algorithm() == old(self).algorithm(),
            final(self).expected() == old(self).expected(),
            final(self).data() == old(self).data() + bytes@,
    {
        update_context(&mut self.context, bytes);
    }

    /// Finishes the digest of the content fed and compares it with the
    /// expected one.
    pub fn verify(self) -> (r: Result<(), VerificationFailed>)
        requires
            self.wf(),
            self.data().len() < digest_input_limit(),
        ensures
            r is Ok <==> ring_digest(self.algorithm(), self.data()) == self.expected(),
            r matches Err(f) ==> f@ == (VerificationFailedView {
                expected: self.expected(),
                actual: ring_digest(self.algorithm(), self.data()),
                algorithm: self.algorithm(),
            }),
    {
        let actual = finish_context(self.context);
        if slices_equal(actual.as_slice(), self.expected.as_slice()) {
            Ok(())
        } else {
            Err(VerificationFailed { expected: self.expected, actual, algorithm: self.algorithm })
        }
    }
}

fn slices_equal(a: &[u8], b: &[u8]) -> (r: bool)
    ensures
        r == (a@ == b@),
{
    if a.len() != b.len() {
        return false;
    }
    let mut i: usize = 0;
    while i < a.len()
        invariant
            a@.len() == b@.len(),
            i <= a@.len(),
            forall|j: int| 0 <= j < i ==> a@[j] == b@[j],
        decreases a@.len() - i,
    {
        if a[i] != b[i] {
            return false;
        }
        i = i + 1;
    }
    assert(a@ =~= b@);
    true
}

/// Checks `bytes` against `expected_digest`.
pub fn verify_bytes(bytes: &[u8], expected_digest: &str) -> (r: Result<(), DigestError>)
    requires
        bytes@.len() < digest_input_limit(),
    ensures
        match (r, check_digest(bytes@, expected_digest@)) {
            (Ok(()), Ok(())) => true,
            (Err(e), Err(f)) => e@ == f,
            _ => false,
        },
{
    let mut verifier = DigestVerifier::new(expected_digest)?;
    verifier.update(bytes);
    assert(verifier.data() == bytes@);
    match verifier.verify() {
        Ok(()) => Ok(()),
        Err(failed) => Err(DigestError::VerificationFailed(failed)),
    }
}

/// The prefix `sha256:` of a SHA-256 digest.
pub open spec fn sha256_prefix() -> Seq<char> {
    seq!['s', 'h', 'a', '2', '5', '6', ':']
}

/// The SHA-256 digest of `bytes`, written `sha256:<hex>`.
pub fn sha256_digest(bytes: &[u8]) -> (s: String)
    requires
        bytes@.len() < digest_input_limit(),
    ensures
        s@ == sha256_prefix() + encode_hex_chars(ring_digest(DigestAlgorithm::Sha256, bytes@)),
        ring_digest(DigestAlgorithm::Sha256, bytes@).len() == 32,
{
    let d = digest_bytes(DigestAlgorithm::Sha256, bytes);
    let mut s = "sha256:".to_owned();
    proof {
        reveal_strlit("sha256:");
    }
    s.push_str(encode_hex(d.as_slice()).as_str());
    s
}


/// A SHA-256 digest written as this crate writes it parses back to the same
/// algorithm and bytes.
pub proof fn lemma_written_digest_parses(d: Seq<u8>)
    requires
        d.len() == 32,
    ensures
        parse_digest(sha256_prefix() + encode_hex_chars(d)) == Ok::<(DigestAlgorithm, Seq<u8>), DigestErrorView>(
            (DigestAlgorithm::Sha256, d),
        ),
{
    let p = sha256_prefix();
    let c = encode_hex_chars(d);
    let s = p + c;
    lemma_encode_hex_chars(d);
    assert(crate::text::is_first_index(s, ':', 6)) by {
        assert forall|j: int| 0 <= j < 6 implies s[j] != ':' by {
            assert(s[j] == p[j]);
        }
    }
    crate::text::lemma_first_index(s, ':', 6);
    assert(s.take(6) == sha256_chars());
    assert(s.skip(7) == c);
    lemma_decode_encode_hex(d);
}

/// Content checks out against the SHA-256 digest that this crate writes for
/// it.
pub proof fn lemma_written_digest_verifies(data: Seq<u8>)
    requires
        ring_digest(DigestAlgorithm::Sha256, data).len() == 32,
    ensures
        check_digest(data, sha256_prefix() + encode_hex_chars(ring_digest(DigestAlgorithm::Sha256, data)))
            == Ok::<(), DigestErrorView>(()),
{
    lemma_written_digest_parses(ring_digest(DigestAlgorithm::Sha256, data));
}

} // verus!
