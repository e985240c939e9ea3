//! Pieces that request signatures are made of: digests, hex text, decimal
//! text and random salts.

use vstd::prelude::*;
use vstd::string::StringSliceAdditionalSpecFns;

verus! {

/// The MD5 digest of `data`.
pub uninterp spec fn md5_of(data: Seq<u8>) -> Seq<u8>;

/// The SHA-256 digest of `data`.
pub uninterp spec fn sha256_of(data: Seq<u8>) -> Seq<u8>;

/// The lowercase hex digit for a value below 16.
pub open spec fn hex_digit(n: u8) -> char {
    seq!['0', '1', '2', '3', '4', '5', '6', '7', '8', '9', 'a', 'b', 'c', 'd', 'e', 'f'][n as int]
}

/// Bytes as lowercase hex text, two digits per byte, high digit first.
pub open spec fn hex_text(bytes: Seq<u8>) -> Seq<char>
    decreases bytes.len(),
{
    if bytes.len() == 0 {
        Seq::empty()
    } else {
        hex_text(bytes.drop_last()) + seq![hex_digit(bytes.last() / 16), hex_digit(bytes.last() % 16)]
    }
}

/// Hex text has two digits per byte.
pub proof fn lemma_hex_text_len(bytes: Seq<u8>)
    ensures
        hex_text(bytes).len() == 2 * bytes.len(),
    decreases bytes.len(),
{
    if bytes.len() > 0 {
        lemma_hex_text_len(bytes.drop_last());
    }
}

/// The decimal digit for a value below 10.
pub open spec fn decimal_digit(n: nat) -> char {
    seq!['0', '1', '2', '3', '4', '5', '6', '7', '8', '9'][n as int]
}

/// A number in decimal notation, without sign or leading zeros.
pub open spec fn decimal_text(n: nat) -> Seq<char>
    decreases n,
{
    if n < 10 {
        seq![decimal_digit(n)]
    } else {
        decimal_text(n / 10).push(decimal_digit(n % 10))
    }
}

/// Relies on md-5's `Digest::digest` for `Md5`: the 16-byte digest of the input.
#[verifier::external_body]
pub(crate) fn md5_digest(data: &[u8]) -> (r: Vec<u8>)
    ensures
        r@ == md5_of(data@),
        r@.len() == 16,
{
    <md5::Md5 as md5::Digest>::digest(data).to_vec()
}

/// Relies on sha2's `Digest::digest` for `Sha256`: the 32-byte digest of the input.
#[verifier::external_body]
pub(crate) fn sha256_digest(data: &[u8]) -> (r: Vec<u8>)
    ensures
        r@ == sha256_of(data@),
        r@.len() == 32,
{
    <sha2::Sha256 as sha2::Digest>::digest(data).to_vec()
}

/// Relies on hex's `encode`: lowercase, two digits per byte, in order.
#[verifier::external_body]
pub(crate) fn hex_encode(data: &[u8]) -> (r: String)
    ensures
        r@ == hex_text(data@),
{
    hex::encode(data)
}

/// Relies on `ToString` for `u64`, which writes the number in decimal.
#[verifier::external_body]
pub(crate) fn decimal(n: u64) -> (r: String)
    ensures
        r@ == decimal_text(n as nat),
{
    n.to_string()
}

/// Relies on `String::push`: appends one character.
#[verifier::external_body]
pub(crate) fn push_char(s: &mut String, c: char)
    ensures
        final(s)@ == old(s)@.push(c),
{
    s.push(c)
}

/// Relies on fastrand's `char(..)`: any character, drawn at random.
#[verifier::external_body]
fn fastrand_char() -> char {
    fastrand::char(..)
}

/// Relies on rand's `random::<char>()`: any character, drawn at random.
#[verifier::external_body]
fn rand_char() -> char {
    rand::random::<char>()
}

/// Which generator a salt is drawn from.
#[derive(Clone, Copy, Debug, PartialEq, Eq, Structural)]
pub enum SaltSource {
    /// The `fastrand` generator.
    Fast,
    /// The thread-local `rand` generator.
    Thread,
}

/// Four random characters, drawn from `source`.
pub fn random_salt(source: SaltSource) -> (r: String)
    ensures
        r@.len() == 4,
{
    let mut salt = String::new();
    let mut i: usize = 0;
    while i < 4
        invariant
            i <= 4,
            salt@.len() == i,
        decreases 4 - i,
    {
        let c = match source {
            SaltSource::Fast => fastrand_char(),
            SaltSource::Thread => rand_char(),
        };
        push_char(&mut salt, c);
        i += 1;
    }
    salt
}

/// The lowercase hex MD5 digest of the UTF-8 bytes of `text`.
pub fn md5_hex(text: &str) -> (r: String)
    ensures
        r@ == hex_text(md5_of(text.spec_bytes())),
        r@.len() == 32,
{
    let digest = md5_digest(text.as_bytes());
    proof {
        lemma_hex_text_len(digest@);
    }
    hex_encode(digest.as_slice())
}

/// The lowercase hex SHA-256 digest of the UTF-8 bytes of `text`.
pub fn sha256_hex(text: &str) -> (r: String)
    ensures
        r@ == hex_text(sha256_of(text.spec_bytes())),
        r@.len() == 64,
{
    let digest = sha256_digest(text.as_bytes());
    proof {
        lemma_hex_text_len(digest@);
    }
    hex_encode(digest.as_slice())
}

} // verus!
