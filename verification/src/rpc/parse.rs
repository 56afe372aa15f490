use vstd::prelude::*;
use vstd::string::StringSliceAdditionalSpecFns;
use crate::error::{Result, TvmError};
use crate::types::{Address, Hash32, parse_hash_hex, spec_parse_hash_hex};

verus! {

/// Reads a digest named in a route: exactly 64 bytes of hexadecimal text.
pub fn parse_hash(value: &str) -> (out: Result<Hash32>)
    ensures
        value.len() != 64 ==> out == Err::<Hash32, TvmError>(TvmError::InvalidReceipt("invalid hash length")),
        value.len() == 64 ==> match spec_parse_hash_hex(value.spec_bytes()) {
            Ok(v) => out matches Ok(h) && h@ == v,
            Err(_) => out == Err::<Hash32, TvmError>(TvmError::InvalidReceipt("invalid hex")),
        },
{
    if value.len() != 64 {
        return Err(TvmError::InvalidReceipt("invalid hash length"));
    }
    match parse_hash_hex(value) {
        Ok(h) => Ok(h),
        Err(_) => Err(TvmError::InvalidReceipt("invalid hex")),
    }
}

/// Reads an address named in a route, as a digest.
pub fn parse_address(value: &str) -> (out: Result<Address>)
    ensures
        value.len() != 64 ==> out == Err::<Address, TvmError>(TvmError::InvalidReceipt("invalid hash length")),
        value.len() == 64 ==> match spec_parse_hash_hex(value.spec_bytes()) {
            Ok(v) => out matches Ok(h) && h@ == v,
            Err(_) => out == Err::<Address, TvmError>(TvmError::InvalidReceipt("invalid hex")),
        },
{
    parse_hash(value)
}

} // verus!
