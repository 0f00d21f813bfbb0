//! The memory image as project files store it: gzip-compressed, then
//! written as standard base64 text.
use base64::engine::general_purpose;
use base64::Engine as _;
use flate2::read::GzDecoder;
use flate2::write::GzEncoder;
use flate2::Compression;
use std::io::{Read, Write};
use vstd::prelude::*;

verus! {

#[verifier::external_type_specification]
#[verifier::external_body]
pub struct ExIoError(std::io::Error);

#[verifier::external_type_specification]
#[verifier::external_body]
pub struct ExDecodeError(base64::DecodeError);

/// Why stored image data could not be produced or read back.
#[derive(Clone, Copy, Debug, PartialEq, Eq, Structural)]
pub enum RawDataError {
    /// The gzip stream could not be written.
    Compress,
    /// The text is not standard base64.
    Base64,
    /// The base64 text does not hold a readable gzip stream.
    Decompress,
}

impl RawDataError {
    /// A short description for the status line.
    pub fn message(&self) -> (s: String)
        ensures
            s@ == raw_data_error_message(*self),
    {
        match self {
            RawDataError::Compress => "could not compress the image".to_string(),
            RawDataError::Base64 => "image data is not valid base64".to_string(),
            RawDataError::Decompress => "image data is not a valid gzip stream".to_string(),
        }
    }
}

pub open spec fn raw_data_error_message(e: RawDataError) -> Seq<char> {
    match e {
        RawDataError::Compress => "could not compress the image"@,
        RawDataError::Base64 => "image data is not valid base64"@,
        RawDataError::Decompress => "image data is not a valid gzip stream"@,
    }
}

/// The character of the standard base64 alphabet for the six-bit value `v`.
pub open spec fn b64_digit(v: int) -> char {
    if v < 26 {
        (65 + v) as char
    } else if v < 52 {
        (97 + v - 26) as char
    } else if v < 62 {
        (48 + v - 52) as char
    } else if v == 62 {
        '+'
    } else {
        '/'
    }
}

/// Standard base64 (RFC 4648 alphabet, `=` padding) of `data`: each group
/// of three bytes becomes four characters; a final group of one or two
/// bytes is padded to four characters with `=`.
pub open spec fn base64_standard(data: Seq<u8>) -> Seq<char>
    decreases data.len(),
{
    if data.len() == 0 {
        Seq::empty()
    } else if data.len() == 1 {
        let a = data[0] as int;
        seq![b64_digit(a / 4), b64_digit((a % 4) * 16), '=', '=']
    } else if data.len() == 2 {
        let a = data[0] as int;
        let b = data[1] as int;
        seq![b64_digit(a / 4), b64_digit((a % 4) * 16 + b / 16), b64_digit((b % 16) * 4), '=']
    } else {
        let a = data[0] as int;
        let b = data[1] as int;
        let c = data[2] as int;
        seq![
            b64_digit(a / 4),
            b64_digit((a % 4) * 16 + b / 16),
            b64_digit((b % 16) * 4 + c / 64),
            b64_digit(c % 64),
        ] + base64_standard(data.skip(3))
    }
}

/// What gzip compression (default level, default header) makes of
/// `data`, or `None` when the stream could not be written.
pub uninterp spec fn gzip_output(data: Seq<u8>) -> Option<Seq<u8>>;

/// What reading `stream` as a gzip stream gives, or `None` when it is not
/// a readable gzip stream.
pub uninterp spec fn gunzip_output(stream: Seq<u8>) -> Option<Seq<u8>>;

/// Compresses `data` with `flate2::write::GzEncoder` (`new` with
/// `Compression::default()` over an empty `Vec`, `write_all`, `finish`).
/// Claimed: the outcome is a function of `data` alone (flate2 writes a
/// fixed header: no time stamp, operating system 255), and a stream it
/// produces reads back, through `GzDecoder`, as `data`.
#[verifier::external_body]
fn gzip_compress(data: &[u8]) -> (r: Result<Vec<u8>, std::io::Error>)
    ensures
        match r {
            Ok(z) => gzip_output(data@) == Some(z@),
            Err(_) => gzip_output(data@) is None,
        },
        r is Ok ==> gunzip_output(r->Ok_0@) == Some(data@),
{
    let mut encoder = GzEncoder::new(Vec::new(), Compression::default());
    encoder.write_all(data)?;
    encoder.finish()
}

/// Reads `stream` to its end through `flate2::read::GzDecoder`. Claimed:
/// the outcome is a function of `stream` alone.
#[verifier::external_body]
fn gzip_decompress(stream: &[u8]) -> (r: Result<Vec<u8>, std::io::Error>)
    ensures
        match r {
            Ok(v) => gunzip_output(stream@) == Some(v@),
            Err(_) => gunzip_output(stream@) is None,
        },
{
    let mut decoder = GzDecoder::new(stream);
    let mut out = Vec::new();
    decoder.read_to_end(&mut out)?;
    Ok(out)
}

/// `base64::engine::general_purpose::STANDARD.encode`. Claimed: the
/// result is the standard padded base64 text of `data`.
#[verifier::external_body]
fn base64_encode(data: &[u8]) -> (r: String)
    ensures
        r@ == base64_standard(data@),
{
    general_purpose::STANDARD.encode(data)
}

/// `base64::engine::general_purpose::STANDARD.decode`, whose configuration
/// requires canonical padding and rejects nonzero trailing bits. Claimed:
/// it succeeds exactly on the texts that are the standard encoding of some
/// bytes, and then gives those bytes.
#[verifier::external_body]
fn base64_decode(text: &str) -> (r: Result<Vec<u8>, base64::DecodeError>)
    ensures
        r is Ok ==> base64_standard(r->Ok_0@) == text@,
        forall|d: Seq<u8>| #[trigger] base64_standard(d) == text@ ==> r is Ok && r->Ok_0@ == d,
{
    general_purpose::STANDARD.decode(text)
}

/// Whether `text` encodes some bytes in standard base64.
pub open spec fn is_base64_of_some(text: Seq<char>) -> bool {
    exists|z: Seq<u8>| #[trigger] base64_standard(z) == text
}

/// What reading stored image text gives: the bytes of the gzip stream
/// that the base64 text encodes, or the first step that fails.
pub open spec fn raw_data_decoded(text: Seq<char>) -> Result<Seq<u8>, RawDataError> {
    if is_base64_of_some(text) {
        let z = choose|z: Seq<u8>| #[trigger] base64_standard(z) == text;
        match gunzip_output(z) {
            Some(v) => Ok(v),
            None => Err(RawDataError::Decompress),
        }
    } else {
        Err(RawDataError::Base64)
    }
}

/// The text that stores `data`, or the error when compression fails.
pub open spec fn raw_data_encoded(data: Seq<u8>) -> Result<Seq<char>, RawDataError> {
    match gzip_output(data) {
        Some(z) => Ok(base64_standard(z)),
        None => Err(RawDataError::Compress),
    }
}

proof fn lemma_digit_range(v: int)
    requires
        0 <= v < 64,
    ensures
        b64_digit(v) != '=',
        b64_digit(v) as int == if v < 26 {
            65 + v
        } else if v < 52 {
            71 + v
        } else if v < 62 {
            v - 4
        } else if v == 62 {
            43
        } else {
            47
        },
{
}

proof fn lemma_digit_injective(u: int, v: int)
    requires
        0 <= u < 64,
        0 <= v < 64,
        b64_digit(u) == b64_digit(v),
    ensures
        u == v,
{
    lemma_digit_range(u);
    lemma_digit_range(v);
}

proof fn lemma_base64_len(d: Seq<u8>)
    ensures
        base64_standard(d).len() == if d.len() == 0 {
            0
        } else if d.len() < 3 {
            4
        } else {
            4 + base64_standard(d.skip(3)).len()
        },
        d.len() > 0 ==> base64_standard(d).len() >= 4,
        d.len() == 0 <==> base64_standard(d).len() == 0,
    decreases d.len(),
{
    if d.len() >= 3 {
        lemma_base64_len(d.skip(3));
    }
}

proof fn lemma_group_injective(a: int, b: int, c: int, x: int, y: int, z: int)
    requires
        0 <= a < 256,
        0 <= b < 256,
        0 <= c < 256,
        0 <= x < 256,
        0 <= y < 256,
        0 <= z < 256,
        a / 4 == x / 4,
        (a % 4) * 16 + b / 16 == (x % 4) * 16 + y / 16,
        (b % 16) * 4 + c / 64 == (y % 16) * 4 + z / 64,
        c % 64 == z % 64,
    ensures
        a == x,
        b == y,
        c == z,
{
    assert(a % 4 == x % 4 && b / 16 == y / 16);
    assert(b % 16 == y % 16 && c / 64 == z / 64);
}

/// Different byte sequences have different standard base64 texts.
pub proof fn lemma_base64_injective(d: Seq<u8>, e: Seq<u8>)
    requires
        base64_standard(d) == base64_standard(e),
    ensures
        d == e,
    decreases d.len(),
{
    let s = base64_standard(d);
    lemma_base64_len(d);
    lemma_base64_len(e);
    if d.len() == 0 || e.len() == 0 {
        assert(d.len() == 0 && e.len() == 0);
        assert(d =~= e);
        return;
    }
    let a = d[0] as int;
    let x = e[0] as int;
    assert(s[0] == base64_standard(e)[0]);
    lemma_digit_injective(a / 4, x / 4);
    if d.len() >= 3 && e.len() >= 3 {
        let b = d[1] as int;
        let c = d[2] as int;
        let y = e[1] as int;
        let z = e[2] as int;
        assert(s[1] == base64_standard(e)[1]);
        assert(s[2] == base64_standard(e)[2]);
        assert(s[3] == base64_standard(e)[3]);
        lemma_digit_injective((a % 4) * 16 + b / 16, (x % 4) * 16 + y / 16);
        lemma_digit_injective((b % 16) * 4 + c / 64, (y % 16) * 4 + z / 64);
        lemma_digit_injective(c % 64, z % 64);
        lemma_group_injective(a, b, c, x, y, z);
        assert(base64_standard(d.skip(3)) =~= s.skip(4));
        assert(base64_standard(e.skip(3)) =~= s.skip(4));
        lemma_base64_injective(d.skip(3), e.skip(3));
        assert(d =~= seq![d[0], d[1], d[2]] + d.skip(3));
        assert(e =~= seq![e[0], e[1], e[2]] + e.skip(3));
        return;
    }
    if d.len() >= 3 || e.len() >= 3 {
        // One text has four characters, so the other has three bytes at
        // most, and its padding meets a digit of the first.
        let (long, short) = if d.len() >= 3 { (d, e) } else { (e, d) };
        lemma_base64_len(long.skip(3));
        assert(base64_standard(long.skip(3)).len() == 0);
        let l2 = long[2] as int;
        lemma_digit_range(l2 % 64);
        assert(base64_standard(long)[3] == b64_digit(l2 % 64));
        assert(base64_standard(short)[3] == '=');
        assert(false);
    }
    let b_d = if d.len() == 2 { d[1] as int } else { 0 };
    let b_e = if e.len() == 2 { e[1] as int } else { 0 };
    if d.len() != e.len() {
        let (two, one) = if d.len() == 2 { (d, e) } else { (e, d) };
        let t1 = two[1] as int;
        lemma_digit_range((t1 % 16) * 4);
        assert(base64_standard(two)[2] == b64_digit((t1 % 16) * 4));
        assert(base64_standard(one)[2] == '=');
        assert(false);
    }
    if d.len() == 1 {
        lemma_group_injective(a, 0, 0, x, 0, 0);
        assert(d =~= e);
    } else {
        assert(s[1] == base64_standard(e)[1]);
        lemma_digit_injective((a % 4) * 16 + b_d / 16, (x % 4) * 16 + b_e / 16);
        assert(s[2] == base64_standard(e)[2]);
        lemma_digit_injective((b_d % 16) * 4, (b_e % 16) * 4);
        lemma_group_injective(a, b_d, 0, x, b_e, 0);
        assert(d =~= e);
    }
}

/// Decoding is a function of the text: one text never reads back as two
/// different results.
pub proof fn lemma_raw_data_decoded_unique(text: Seq<char>, z: Seq<u8>)
    requires
        base64_standard(z) == text,
    ensures
        raw_data_decoded(text) == match gunzip_output(z) {
            Some(v) => Ok(v),
            None => Err::<Seq<u8>, RawDataError>(RawDataError::Decompress),
        },
{
    assert(is_base64_of_some(text));
    let w = choose|w: Seq<u8>| #[trigger] base64_standard(w) == text;
    lemma_base64_injective(w, z);
}

/// Compresses `data` and writes the stream as base64 text.
pub fn encode_raw_data_to_base64(data: &[u8]) -> (r: Result<String, RawDataError>)
    ensures
        match r {
            Ok(s) => raw_data_encoded(data@) == Ok::<Seq<char>, RawDataError>(s@),
            Err(e) => raw_data_encoded(data@) == Err::<Seq<char>, RawDataError>(e),
        },
        r matches Ok(s) ==> raw_data_decoded(s@) == Ok::<Seq<u8>, RawDataError>(data@),
{
    match gzip_compress(data) {
        Ok(stream) => {
            let text = base64_encode(stream.as_slice());
            proof {
                lemma_raw_data_decoded_unique(text@, stream@);
            }
            Ok(text)
        },
        Err(_) => Err(RawDataError::Compress),
    }
}

/// Reads base64 text back into the bytes of the gzip stream it holds.
pub fn decode_raw_data_from_base64(data: &str) -> (r: Result<Vec<u8>, RawDataError>)
    ensures
        match r {
            Ok(v) => raw_data_decoded(data@) == Ok::<Seq<u8>, RawDataError>(v@),
            Err(e) => raw_data_decoded(data@) == Err::<Seq<u8>, RawDataError>(e),
        },
{
    match base64_decode(data) {
        Ok(stream) => {
            proof {
                lemma_raw_data_decoded_unique(data@, stream@);
            }
            match gzip_decompress(stream.as_slice()) {
                Ok(v) => Ok(v),
                Err(_) => Err(RawDataError::Decompress),
            }
        },
        Err(_) => {
            proof {
                if is_base64_of_some(data@) {
                    let z = choose|z: Seq<u8>| #[trigger] base64_standard(z) == data@;
                    assert(base64_standard(z) == data@);
                }
            }
            Err(RawDataError::Base64)
        },
    }
}

} // verus!
