use vstd::bytes::{spec_u64_to_le_bytes, u64_to_le_bytes};
use vstd::prelude::*;

verus! {

/// The SHA-256 digest of a byte sequence.
pub uninterp spec fn sha256(data: Seq<u8>) -> Seq<u8>;

/// Calls `sha2::Sha256::digest`; the contract claims only that the result is
/// the SHA-256 digest of the input, which depends on the input alone.
#[verifier::external_body]
pub(crate) fn sha256_digest(data: &[u8]) -> (out: [u8; 32])
    ensures
        out@ == sha256(data@),
{
    <sha2::Sha256 as sha2::Digest>::digest(data).into()
}

/// The lowercase hexadecimal digit of a value below 16.
pub open spec fn hex_digit(v: u8) -> char {
    if v < 10 {
        (v + 48) as char
    } else {
        (v + 87) as char
    }
}

/// The lowercase hexadecimal text of a byte string, two digits per byte,
/// high nibble first.
pub open spec fn spec_hex(bytes: Seq<u8>) -> Seq<char>
    decreases bytes.len(),
{
    if bytes.len() == 0 {
        Seq::empty()
    } else {
        spec_hex(bytes.drop_last()) + seq![hex_digit(bytes.last() / 16), hex_digit(bytes.last() % 16)]
    }
}

fn hex_digit_exec(v: u8) -> (c: char)
    requires
        v < 16,
    ensures
        c == hex_digit(v),
{
    if v < 10 {
        (v + 48) as char
    } else {
        (v + 87) as char
    }
}

/// Lowercase hexadecimal text of `bytes`.
pub fn hex(bytes: &[u8]) -> (out: String)
    ensures
        out@ == spec_hex(bytes@),
{
    let mut chars: Vec<char> = Vec::new();
    let mut i: usize = 0;
    while i < bytes.len()
        invariant
            i <= bytes@.len(),
            chars@ == spec_hex(bytes@.subrange(0, i as int)),
        decreases bytes@.len() - i,
    {
        let b = bytes[i];
        chars.push(hex_digit_exec(b / 16));
        chars.push(hex_digit_exec(b % 16));
        proof {
            let s = bytes@.subrange(0, i + 1);
            assert(s.drop_last() =~= bytes@.subrange(0, i as int));
            assert(chars@ =~= spec_hex(s));
        }
        i += 1;
    }
    assert(bytes@.subrange(0, bytes@.len() as int) =~= bytes@);
    crate::text::string_from_chars(chars.as_slice())
}

/// Each byte of the input stands at two positions of its hexadecimal text.
pub proof fn lemma_spec_hex_index(bytes: Seq<u8>)
    ensures
        spec_hex(bytes).len() == 2 * bytes.len(),
        forall|k: int|
            0 <= k < bytes.len() ==> spec_hex(bytes)[2 * k] == hex_digit(#[trigger] bytes[k] / 16)
                && spec_hex(bytes)[2 * k + 1] == hex_digit(bytes[k] % 16),
    decreases bytes.len(),
{
    if bytes.len() > 0 {
        let prefix = bytes.drop_last();
        lemma_spec_hex_index(prefix);
        assert forall|k: int| 0 <= k < bytes.len() implies spec_hex(bytes)[2 * k] == hex_digit(
            #[trigger] bytes[k] / 16,
        ) && spec_hex(bytes)[2 * k + 1] == hex_digit(bytes[k] % 16) by {
            if k < prefix.len() {
                assert(prefix[k] == bytes[k]);
            }
        }
    }
}

/// A hexadecimal digit is an ASCII byte that reads back as its value.
pub proof fn lemma_hex_digit_byte(v: u8)
    requires
        v < 16,
    ensures
        '\0' <= hex_digit(v) <= '\u{7f}',
        hex_digit(v) as u8 == (if v < 10 { v + 48 } else { v + 87 }),
{
}

} // verus!
