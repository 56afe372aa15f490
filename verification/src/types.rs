use vstd::string::StringSliceAdditionalSpecFns;
use vstd::bytes::{spec_u64_to_le_bytes, u64_to_le_bytes, spec_u128_from_le_bytes, u128_from_le_bytes};
use vstd::prelude::*;
use vstd::utf8::{encode_utf8, is_ascii_chars, is_ascii_chars_encode_utf8};
use crate::hash::{sha256, sha256_digest, spec_hex, hex_digit, lemma_spec_hex_index, lemma_hex_digit_byte};

verus! {

/// A 32-byte digest.
pub type Hash32 = [u8; 32];

/// A 32-byte account address.
pub type Address = [u8; 32];

/// A 32-byte signature.
pub type Signature = [u8; 32];

/// A byte string preceded by its length as eight little-endian bytes.
pub open spec fn len_prefixed(bytes: Seq<u8>) -> Seq<u8> {
    spec_u64_to_le_bytes(bytes.len() as u64) + bytes
}

/// The length-prefixed encoding of each part, concatenated in order.
pub open spec fn encode_parts(parts: Seq<Seq<u8>>) -> Seq<u8>
    decreases parts.len(),
{
    if parts.len() == 0 {
        Seq::empty()
    } else {
        encode_parts(parts.drop_last()) + len_prefixed(parts.last())
    }
}

/// The domain-separated hash of a list of byte strings.
pub open spec fn spec_hash_bytes(domain: Seq<u8>, parts: Seq<Seq<u8>>) -> Seq<u8> {
    sha256(len_prefixed(domain) + encode_parts(parts))
}

/// The views of a slice of byte slices.
pub open spec fn slices_view(parts: Seq<&[u8]>) -> Seq<Seq<u8>> {
    parts.map_values(|p: &[u8]| p@)
}

fn push_bytes(out: &mut Vec<u8>, bytes: &[u8])
    ensures
        final(out)@ == old(out)@ + bytes@,
{
    let mut i: usize = 0;
    while i < bytes.len()
        invariant
            i <= bytes@.len(),
            out@ == old(out)@ + bytes@.subrange(0, i as int),
        decreases bytes@.len() - i,
    {
        out.push(bytes[i]);
        i += 1;
    }
    assert(bytes@.subrange(0, bytes@.len() as int) =~= bytes@);
}

fn push_len_prefixed(out: &mut Vec<u8>, bytes: &[u8])
    ensures
        final(out)@ == old(out)@ + len_prefixed(bytes@),
{
    let len_bytes = u64_to_le_bytes(bytes.len() as u64);
    push_bytes(out, len_bytes.as_slice());
    push_bytes(out, bytes);
    assert(final(out)@ =~= old(out)@ + len_prefixed(bytes@));
}

/// Hashes `parts` under the separating `domain`: every byte string is
/// length-prefixed before it enters SHA-256.
pub fn hash_bytes(domain: &[u8], parts: &[&[u8]]) -> (out: Hash32)
    ensures
        out@ == spec_hash_bytes(domain@, slices_view(parts@)),
{
    let mut encoded: Vec<u8> = Vec::new();
    push_len_prefixed(&mut encoded, domain);
    let mut i: usize = 0;
    while i < parts.len()
        invariant
            i <= parts@.len(),
            encoded@ == len_prefixed(domain@) + encode_parts(slices_view(parts@.subrange(0, i as int))),
        decreases parts@.len() - i,
    {
        let ghost before = encoded@;
        push_len_prefixed(&mut encoded, parts[i]);
        proof {
            let s = slices_view(parts@.subrange(0, i + 1));
            assert(s.drop_last() =~= slices_view(parts@.subrange(0, i as int)));
            assert(s.last() == parts@[i as int]@);
        }
        i += 1;
    }
    assert(parts@.subrange(0, parts@.len() as int) =~= parts@);
    sha256_digest(encoded.as_slice())
}

} // verus!

verus! {

/// Domain-separated hash of the pair `(left, right)`.
pub fn hash_pair(domain: &[u8], left: &Hash32, right: &Hash32) -> (out: Hash32)
    ensures
        out@ == spec_hash_bytes(domain@, seq![left@, right@]),
{
    let parts: Vec<&[u8]> = vec![left.as_slice(), right.as_slice()];
    let out = hash_bytes(domain, parts.as_slice());
    assert(slices_view(parts@) =~= seq![left@, right@]);
    out
}

fn le_array_8(bytes: Vec<u8>) -> (out: [u8; 8])
    requires
        bytes@.len() == 8,
    ensures
        out@ == bytes@,
{
    let out = [bytes[0], bytes[1], bytes[2], bytes[3], bytes[4], bytes[5], bytes[6], bytes[7]];
    assert(out@ =~= bytes@);
    out
}

/// The little-endian bytes of a `u64`.
pub fn u64_bytes(value: u64) -> (out: [u8; 8])
    ensures
        out@ == spec_u64_to_le_bytes(value),
{
    le_array_8(u64_to_le_bytes(value))
}

/// The little-endian bytes of a `usize`, widened to 64 bits.
pub fn usize_bytes(value: usize) -> (out: [u8; 8])
    ensures
        out@ == spec_u64_to_le_bytes(value as u64),
{
    le_array_8(u64_to_le_bytes(value as u64))
}

/// The address derived from a label.
pub open spec fn spec_address(label: Seq<u8>) -> Seq<u8> {
    spec_hash_bytes("tensor-vm-address-v1".spec_bytes(), seq![label])
}

/// Derives the address of a label.
pub fn address(label: &[u8]) -> (out: Address)
    ensures
        out@ == spec_address(label@),
{
    let parts: Vec<&[u8]> = vec![label];
    let out = hash_bytes("tensor-vm-address-v1".as_bytes(), parts.as_slice());
    assert(slices_view(parts@) =~= seq![label@]);
    out
}

/// The signature that `address` gives `message`.
pub open spec fn spec_sign(address: Seq<u8>, message: Seq<u8>) -> Seq<u8> {
    spec_hash_bytes("tensor-vm-signature-v1".spec_bytes(), seq![address, message])
}

/// Signs `message` on behalf of `address`.
pub fn sign(address: &Address, message: &Hash32) -> (out: Signature)
    ensures
        out@ == spec_sign(address@, message@),
{
    let parts: Vec<&[u8]> = vec![address.as_slice(), message.as_slice()];
    let out = hash_bytes("tensor-vm-signature-v1".as_bytes(), parts.as_slice());
    assert(slices_view(parts@) =~= seq![address@, message@]);
    out
}

/// Whether every byte of a digest is zero.
pub open spec fn is_zero_hash(h: Hash32) -> bool {
    forall|i: int| 0 <= i < 32 ==> h@[i] == 0
}

/// Whether every byte of a digest is zero.
pub fn hash_is_zero(h: &Hash32) -> (out: bool)
    ensures
        out == is_zero_hash(*h),
{
    let mut i: usize = 0;
    while i < 32
        invariant
            i <= 32,
            forall|j: int| 0 <= j < i ==> h@[j] == 0,
        decreases 32 - i,
    {
        if h[i] != 0 {
            return false;
        }
        i += 1;
    }
    true
}

/// Whether two digests are equal, byte by byte.
pub fn hash_eq(left: &Hash32, right: &Hash32) -> (eq: bool)
    ensures
        eq == (left@ == right@),
{
    let mut i: usize = 0;
    while i < 32
        invariant
            i <= 32,
            left@.len() == 32,
            right@.len() == 32,
            forall|j: int| 0 <= j < i ==> left@[j] == right@[j],
        decreases 32 - i,
    {
        if left[i] != right[i] {
            return false;
        }
        i += 1;
    }
    assert(left@ =~= right@);
    true
}

/// Whether `signature` is the signature of `address` on `message`.
pub fn verify_signature(address: &Address, message: &Hash32, signature: &Signature) -> (valid: bool)
    ensures
        valid == (spec_sign(address@, message@) == signature@),
{
    let expected = sign(address, message);
    hash_eq(&expected, signature)
}

/// The first sixteen bytes of a digest read as a little-endian `u128`.
pub fn hash_to_u128(hash: &Hash32) -> (out: u128)
    ensures
        out == spec_u128_from_le_bytes(hash@.subrange(0, 16)),
{
    let head = &hash.as_slice()[0..16];
    u128_from_le_bytes(head)
}

/// Why a text digest was refused.
#[derive(Clone, Copy, Debug, Eq, PartialEq)]
pub enum HashHexParseError {
    InvalidLength,
    InvalidHex,
}

/// The value of an ASCII hexadecimal digit of either case.
pub open spec fn spec_hex_nibble(c: u8) -> Option<u8> {
    if 48 <= c <= 57 {
        Some((c - 48) as u8)
    } else if 97 <= c <= 102 {
        Some((c - 87) as u8)
    } else if 65 <= c <= 70 {
        Some((c - 55) as u8)
    } else {
        None
    }
}

/// Whether every byte is a hexadecimal digit.
pub open spec fn all_hex(text: Seq<u8>) -> bool {
    forall|i: int| 0 <= i < text.len() ==> (#[trigger] spec_hex_nibble(text[i])) is Some
}

/// The bytes spelled by hexadecimal text, two digits per byte.
pub open spec fn hex_decode(text: Seq<u8>) -> Seq<u8> {
    Seq::new(
        text.len() / 2,
        |i: int|
            (spec_hex_nibble(text[2 * i])->0 * 16 + spec_hex_nibble(text[2 * i + 1])->0) as u8,
    )
}

/// The text without one leading `0x`.
pub open spec fn strip_0x(text: Seq<u8>) -> Seq<u8> {
    if text.len() >= 2 && text[0] == 48 && text[1] == 120 {
        text.subrange(2, text.len() as int)
    } else {
        text
    }
}

/// What `parse_hash_hex` returns for the bytes of its argument.
pub open spec fn spec_parse_hash_hex(text: Seq<u8>) -> core::result::Result<Seq<u8>, HashHexParseError> {
    let digits = strip_0x(text);
    if digits.len() != 64 {
        Err(HashHexParseError::InvalidLength)
    } else if !all_hex(digits) {
        Err(HashHexParseError::InvalidHex)
    } else {
        Ok(hex_decode(digits))
    }
}

/// The value of a hexadecimal digit byte.
pub fn hex_nibble_value(c: u8) -> (out: Option<u8>)
    ensures
        out == spec_hex_nibble(c),
{
    if 48 <= c && c <= 57 {
        Some(c - 48)
    } else if 97 <= c && c <= 102 {
        Some(c - 87)
    } else if 65 <= c && c <= 70 {
        Some(c - 55)
    } else {
        None
    }
}

/// Reads 64 hexadecimal digits, optionally preceded by `0x`, as a digest.
pub fn parse_hash_hex(value: &str) -> (out: core::result::Result<Hash32, HashHexParseError>)
    ensures
        match (out, spec_parse_hash_hex(value.spec_bytes())) {
            (Ok(h), Ok(v)) => h@ == v,
            (Err(e), Err(f)) => e == f,
            _ => false,
        },
{
    parse_hash_hex_bytes(value.as_bytes())
}

/// Reads 64 hexadecimal digits, optionally preceded by `0x`, as a digest.
pub fn parse_hash_hex_bytes(text: &[u8]) -> (out: core::result::Result<Hash32, HashHexParseError>)
    ensures
        match (out, spec_parse_hash_hex(text@)) {
            (Ok(h), Ok(v)) => h@ == v,
            (Err(e), Err(f)) => e == f,
            _ => false,
        },
{
    let digits: &[u8] = if text.len() >= 2 && text[0] == 48 && text[1] == 120 {
        &text[2..text.len()]
    } else {
        text
    };
    assert(digits@ == strip_0x(text@));
    if digits.len() != 64 {
        return Err(HashHexParseError::InvalidLength);
    }
    let mut out = [0u8; 32];
    let mut index: usize = 0;
    while index < 32
        invariant
            index <= 32,
            digits@.len() == 64,
            digits@ == strip_0x(text@),
            out@.len() == 32,
            forall|j: int| 0 <= j < 2 * index ==> (#[trigger] spec_hex_nibble(digits@[j])) is Some,
            forall|j: int| 0 <= j < index ==> out@[j] == hex_decode(digits@)[j],
        decreases 32 - index,
    {
        let high = match hex_nibble_value(digits[2 * index]) {
            Some(v) => v,
            None => {
                assert(!all_hex(digits@));
                return Err(HashHexParseError::InvalidHex);
            }
        };
        let low = match hex_nibble_value(digits[2 * index + 1]) {
            Some(v) => v,
            None => {
                assert(!all_hex(digits@));
                return Err(HashHexParseError::InvalidHex);
            }
        };
        out.set(index, high * 16 + low);
        index += 1;
    }
    assert(all_hex(digits@));
    assert(out@ =~= hex_decode(digits@));
    Ok(out)
}

/// Reading back the hexadecimal text of a digest gives the digest: what
/// `hex` writes, `parse_hash_hex` reads.
pub proof fn lemma_hex_roundtrip(digest: Seq<u8>)
    requires
        digest.len() == 32,
    ensures
        spec_parse_hash_hex(encode_utf8(spec_hex(digest))) == Ok::<Seq<u8>, HashHexParseError>(digest),
{
    let chars = spec_hex(digest);
    lemma_spec_hex_index(digest);
    assert forall|i: int| 0 <= i < chars.len() implies '\0' <= #[trigger] chars[i] <= '\u{7f}' by {
        let k = i / 2;
        assert(digest[k] / 16 < 16 && digest[k] % 16 < 16);
        if i % 2 == 0 {
            assert(i == 2 * k);
        } else {
            assert(i == 2 * k + 1);
        }
    }
    assert(is_ascii_chars(chars));
    is_ascii_chars_encode_utf8(chars);
    let text = encode_utf8(chars);
    assert(text.len() == 64);
    assert(text[1] == chars[1] as u8);
    assert(digest[0] % 16 < 16);
    assert(strip_0x(text) == text);
    assert forall|i: int| 0 <= i < text.len() implies (#[trigger] spec_hex_nibble(text[i])) is Some by {
        let k = i / 2;
        assert(text[i] == chars[i] as u8);
        lemma_hex_digit_byte(digest[k] / 16);
        lemma_hex_digit_byte(digest[k] % 16);
        if i % 2 == 0 {
            assert(i == 2 * k);
        } else {
            assert(i == 2 * k + 1);
        }
    }
    assert forall|k: int| 0 <= k < 32 implies #[trigger] hex_decode(text)[k] == digest[k] by {
        assert(text[2 * k] == chars[2 * k] as u8);
        assert(text[2 * k + 1] == chars[2 * k + 1] as u8);
        lemma_hex_digit_byte(digest[k] / 16);
        lemma_hex_digit_byte(digest[k] % 16);
    }
    assert(hex_decode(text) =~= digest);
}

} // verus!
