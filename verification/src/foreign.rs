//! The functions of other crates that the library calls, and what it takes
//! for granted about them.
use vstd::prelude::*;
use vstd::utf8::*;

verus! {

// ---------------------------------------------------------------------------
// uuid
// ---------------------------------------------------------------------------

/// The hyphenated text of the version 5 UUID of `name` in `namespace`.
pub uninterp spec fn uuid_v5_text(namespace: u128, name: Seq<u8>) -> Seq<char>;

/// A character of a hyphenated UUID.
pub open spec fn uuid_char(c: char) -> bool {
    '0' <= c <= '9' || 'a' <= c <= 'f' || c == '-'
}

/// `uuid::Uuid::new_v5`, as text: it depends on the namespace and the name
/// alone, and has 36 characters, each a hyphen or a lower-case hex digit.
#[verifier::external_body]
pub(crate) fn uuid_v5(namespace: u128, name: &[u8]) -> (s: String)
    ensures
        s@ == uuid_v5_text(namespace, name@),
        s@.len() == 36,
        forall|i: int| 0 <= i < s@.len() ==> uuid_char(#[trigger] s@[i]),
{
    uuid::Uuid::new_v5(&uuid::Uuid::from_u128(namespace), name).to_string()
}

// ---------------------------------------------------------------------------
// sha2 and hex
// ---------------------------------------------------------------------------

/// The SHA-256 digest of `data`.
pub uninterp spec fn sha256_digest(data: Seq<u8>) -> Seq<u8>;

/// `sha2::Sha256::digest`: 32 bytes that depend on `data` alone.
#[verifier::external_body]
pub(crate) fn sha256(data: &[u8]) -> (d: Vec<u8>)
    ensures
        d@ == sha256_digest(data@),
        d@.len() == 32,
{
    <sha2::Sha256 as sha2::Digest>::digest(data).to_vec()
}

/// The SHA-512 hasher of the `sha2` crate.
#[verifier::external_type_specification]
#[verifier::external_body]
pub struct ExSha512(sha2::Sha512);

/// The bytes that a SHA-512 hasher has processed so far.
pub uninterp spec fn sha512_absorbed(hasher: sha2::Sha512) -> Seq<u8>;

/// The SHA-512 digest of `data`.
pub uninterp spec fn sha512_digest(data: Seq<u8>) -> Seq<u8>;

/// `sha2::Sha512::new`: a hasher that has processed nothing.
#[verifier::external_body]
pub(crate) fn sha512_new() -> (h: sha2::Sha512)
    ensures
        sha512_absorbed(h) == Seq::<u8>::empty(),
{
    <sha2::Sha512 as sha2::Digest>::new()
}

/// `sha2::Sha512::update`: processes `data` behind what came before.
#[verifier::external_body]
pub(crate) fn sha512_update(h: &mut sha2::Sha512, data: &[u8])
    ensures
        sha512_absorbed(*final(h)) == sha512_absorbed(*old(h)) + data@,
{
    sha2::Digest::update(h, data);
}

/// `sha2::Sha512::finalize`: the digest of what was processed, 64 bytes.
#[verifier::external_body]
pub(crate) fn sha512_finalize(h: sha2::Sha512) -> (d: Vec<u8>)
    ensures
        d@ == sha512_digest(sha512_absorbed(h)),
        d@.len() == 64,
{
    sha2::Digest::finalize(h).to_vec()
}

/// The lower-case hex digit for `n`.
pub open spec fn hex_char(n: int) -> char {
    if n < 10 {
        ('0' as u8 + n) as u8 as char
    } else {
        ('a' as u8 + n - 10) as u8 as char
    }
}

/// Two lower-case hex digits for each byte, the high half first.
pub open spec fn lower_hex(data: Seq<u8>) -> Seq<char> {
    Seq::new(
        2 * data.len(),
        |i: int|
            if i % 2 == 0 {
                hex_char(data[i / 2] as int / 16)
            } else {
                hex_char(data[i / 2] as int % 16)
            },
    )
}

/// Different bytes have different texts.
pub proof fn lemma_hex_injective(a: Seq<u8>, b: Seq<u8>)
    requires
        lower_hex(a) == lower_hex(b),
    ensures
        a == b,
{
    let x = lower_hex(a);
    let y = lower_hex(b);
    assert(x.len() == y.len());
    assert forall|i: int| 0 <= i < a.len() implies a[i] == b[i] by {
        assert(x[2 * i] == y[2 * i]);
        assert(x[2 * i + 1] == y[2 * i + 1]);
        assert((2 * i) / 2 == i && (2 * i + 1) / 2 == i);
    }
    assert(a == b);
}

/// `hex::encode`: the bytes in lower-case hex.
#[verifier::external_body]
pub(crate) fn hex_encode(data: &[u8]) -> (s: String)
    ensures
        s@ == lower_hex(data@),
{
    hex::encode(data)
}

// ---------------------------------------------------------------------------
// std
// ---------------------------------------------------------------------------

/// The text that `String::from_utf8_lossy` makes of bytes.
pub uninterp spec fn lossy_text(bytes: Seq<u8>) -> Seq<char>;

/// `String::from_utf8_lossy`: the bytes as text, with each sequence of bytes
/// that is not UTF-8 replaced. Bytes that are UTF-8 are taken as they are.
#[verifier::external_body]
fn lossy(bytes: &[u8]) -> (s: String)
    ensures
        s@ == lossy_text(bytes@),
        valid_utf8(bytes@) ==> s@ == decode_utf8(bytes@),
{
    String::from_utf8_lossy(bytes).into_owned()
}

/// The text that bytes are shown as: the text that they are in UTF-8, else
/// with replacements.
pub open spec fn text_of(bytes: Seq<u8>) -> Seq<char> {
    if valid_utf8(bytes) {
        decode_utf8(bytes)
    } else {
        lossy_text(bytes)
    }
}

/// The bytes as text that can be shown.
pub fn readable(bytes: &[u8]) -> (s: String)
    ensures
        s@ == text_of(bytes@),
{
    lossy(bytes)
}

/// `str::from_utf8`: the bytes as text, if they are UTF-8.
#[verifier::external_body]
pub(crate) fn utf8_text(bytes: &[u8]) -> (s: Option<String>)
    ensures
        s is Some <==> valid_utf8(bytes@),
        s is Some ==> s->0@ == decode_utf8(bytes@),
{
    core::str::from_utf8(bytes).ok().map(str::to_string)
}

/// `s` as Rust writes it in source code: in quotes, with special characters
/// escaped.
pub uninterp spec fn quoted_text(s: Seq<char>) -> Seq<char>;

/// The `Debug` form of a string.
#[verifier::external_body]
pub(crate) fn quoted(s: &str) -> (r: String)
    ensures
        r@ == quoted_text(s@),
{
    format!("{:?}", s)
}

} // verus!
