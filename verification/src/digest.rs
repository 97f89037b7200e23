//! Content identities: MD5 digests over framed bytes, written as hex.
use vstd::prelude::*;

use md5::Digest;

verus! {

/// The MD5 digest of a byte sequence, as the md-5 crate computes it.
pub uninterp spec fn md5_digest(data: Seq<u8>) -> Seq<u8>;

/// Calls `md5::Md5::digest` (md-5 crate) on `data`. Claimed: the 16 bytes
/// returned are the MD5 digest of exactly these bytes, so equal inputs give
/// equal digests. Nothing else about MD5 is stated.
#[verifier::external_body]
pub(crate) fn md5_bytes(data: &[u8]) -> (digest: [u8; 16])
    ensures
        digest@ == md5_digest(data@),
{
    md5::Md5::digest(data).into()
}

/// The bytes of an ASCII text, one byte per character.
pub open spec fn ascii_seq(s: Seq<char>) -> Seq<u8> {
    s.map_values(|c: char| c as u8)
}

/// The bytes of an ASCII string literal.
pub fn ascii_bytes(s: &str) -> (bytes: Vec<u8>)
    ensures
        bytes@ == ascii_seq(s@),
{
    let len = s.unicode_len();
    let mut bytes: Vec<u8> = Vec::new();
    let mut i: usize = 0;
    while i < len
        invariant
            len == s@.len(),
            i <= len,
            bytes@ == ascii_seq(s@.subrange(0, i as int)),
        decreases len - i,
    {
        let c = s.get_char(i);
        bytes.push(c as u8);
        assert(ascii_seq(s@.subrange(0, i + 1)) =~= ascii_seq(s@.subrange(0, i as int)).push(
            c as u8,
        ));
        i = i + 1;
    }
    assert(s@.subrange(0, len as int) =~= s@);
    bytes
}

/// Appends `tail` to `bytes`.
pub fn append_bytes(bytes: &mut Vec<u8>, tail: &[u8])
    ensures
        final(bytes)@ == old(bytes)@ + tail@,
{
    let mut i: usize = 0;
    while i < tail.len()
        invariant
            i <= tail@.len(),
            bytes@ == old(bytes)@ + tail@.subrange(0, i as int),
        decreases tail.len() - i,
    {
        bytes.push(tail[i]);
        assert(tail@.subrange(0, i + 1) =~= tail@.subrange(0, i as int).push(tail@[i as int]));
        i = i + 1;
    }
    assert(tail@.subrange(0, tail@.len() as int) =~= tail@);
}

/// Little-endian bytes of a `u32`.
pub open spec fn le_u32(x: u32) -> Seq<u8> {
    seq![
        (x % 256) as u8,
        ((x / 256) % 256) as u8,
        ((x / 65536) % 256) as u8,
        ((x / 16777216) % 256) as u8,
    ]
}

/// Little-endian bytes of a `u64`.
pub open spec fn le_u64(x: u64) -> Seq<u8> {
    seq![
        (x % 256) as u8,
        ((x / 0x100) % 256) as u8,
        ((x / 0x10000) % 256) as u8,
        ((x / 0x1000000) % 256) as u8,
        ((x / 0x100000000) % 256) as u8,
        ((x / 0x10000000000) % 256) as u8,
        ((x / 0x1000000000000) % 256) as u8,
        ((x / 0x100000000000000) % 256) as u8,
    ]
}

pub fn append_le_u32(bytes: &mut Vec<u8>, x: u32)
    ensures
        final(bytes)@ == old(bytes)@ + le_u32(x),
{
    bytes.push((x % 256) as u8);
    bytes.push(((x / 256) % 256) as u8);
    bytes.push(((x / 65536) % 256) as u8);
    bytes.push(((x / 16777216) % 256) as u8);
    assert(final(bytes)@ =~= old(bytes)@ + le_u32(x));
}

pub fn append_le_u64(bytes: &mut Vec<u8>, x: u64)
    ensures
        final(bytes)@ == old(bytes)@ + le_u64(x),
{
    bytes.push((x % 256) as u8);
    bytes.push(((x / 0x100) % 256) as u8);
    bytes.push(((x / 0x10000) % 256) as u8);
    bytes.push(((x / 0x1000000) % 256) as u8);
    bytes.push(((x / 0x100000000) % 256) as u8);
    bytes.push(((x / 0x10000000000) % 256) as u8);
    bytes.push(((x / 0x1000000000000) % 256) as u8);
    bytes.push(((x / 0x100000000000000) % 256) as u8);
    assert(final(bytes)@ =~= old(bytes)@ + le_u64(x));
}

/// One lower-case hexadecimal digit.
pub open spec fn hex_digit(n: u8) -> char {
    (if n < 10 {
        (48 + n) as u8
    } else {
        (87 + n) as u8
    }) as char
}

/// Lower-case hexadecimal, two digits per byte, most significant first.
pub open spec fn hex_lower(bytes: Seq<u8>) -> Seq<char>
    decreases bytes.len(),
{
    if bytes.len() == 0 {
        Seq::empty()
    } else {
        hex_lower(bytes.drop_last()).push(hex_digit(bytes.last() / 16)).push(
            hex_digit(bytes.last() % 16),
        )
    }
}

fn hex_char(n: u8) -> (c: char)
    requires
        n < 16,
    ensures
        c == hex_digit(n),
{
    if n < 10 {
        (48 + n) as char
    } else {
        (87 + n) as char
    }
}

/// Appends the lower-case hex form of `bytes` to `text`.
pub fn push_hex(text: &mut String, bytes: &[u8])
    ensures
        final(text)@ == old(text)@ + hex_lower(bytes@),
{
    let mut i: usize = 0;
    while i < bytes.len()
        invariant
            i <= bytes@.len(),
            text@ == old(text)@ + hex_lower(bytes@.subrange(0, i as int)),
        decreases bytes.len() - i,
    {
        let b = bytes[i];
        text.push(hex_char(b / 16));
        text.push(hex_char(b % 16));
        assert(bytes@.subrange(0, i + 1).drop_last() =~= bytes@.subrange(0, i as int));
        assert(text@ =~= old(text)@ + hex_lower(bytes@.subrange(0, i + 1)));
        i = i + 1;
    }
    assert(bytes@.subrange(0, bytes@.len() as int) =~= bytes@);
}

/// The identity of a text entry: `text:` and the hex MD5 of `text:` followed
/// by the UTF-8 bytes of the text.
pub open spec fn text_hash(text: Seq<char>) -> Seq<char> {
    "text:"@ + hex_lower(md5_digest(ascii_seq("text:"@) + vstd::utf8::encode_utf8(text)))
}

/// The identity of an image entry: `image:` and the hex MD5 of `image:`, the
/// little-endian width and height, and the RGBA pixels.
pub open spec fn image_hash(width: u32, height: u32, rgba: Seq<u8>) -> Seq<char> {
    "image:"@ + hex_lower(
        md5_digest(ascii_seq("image:"@) + le_u32(width) + le_u32(height) + rgba),
    )
}

pub fn hash_text(text: &str) -> (hash: String)
    ensures
        hash@ == text_hash(text@),
{
    let mut input = ascii_bytes("text:");
    append_bytes(&mut input, text.as_bytes());
    let digest = md5_bytes(input.as_slice());
    let mut hash = String::from_str("text:");
    push_hex(&mut hash, &digest);
    hash
}

pub fn hash_image(width: u32, height: u32, rgba: &[u8]) -> (hash: String)
    ensures
        hash@ == image_hash(width, height, rgba@),
{
    let mut input = ascii_bytes("image:");
    append_le_u32(&mut input, width);
    append_le_u32(&mut input, height);
    append_bytes(&mut input, rgba);
    let digest = md5_bytes(input.as_slice());
    let mut hash = String::from_str("image:");
    push_hex(&mut hash, &digest);
    hash
}

/// A text identity and an image identity never coincide: they start with
/// different prefixes.
pub proof fn lemma_text_and_image_identities_differ(
    text: Seq<char>,
    width: u32,
    height: u32,
    rgba: Seq<u8>,
)
    ensures
        text_hash(text) != image_hash(width, height, rgba),
{
    reveal_strlit("text:");
    reveal_strlit("image:");
    assert(text_hash(text)[0] == 't');
    assert(image_hash(width, height, rgba)[0] == 'i');
}

} // verus!
