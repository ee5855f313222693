//! Incremental CRC-32 with the PNG/zlib polynomial, used for chunk checksums.
//!
//! The checksum itself is computed by the `crc32fast` crate; this module
//! names its result and states the chaining contract that the serializer
//! relies on: feeding two byte runs one after the other gives the checksum of
//! their concatenation.

use vstd::prelude::*;

verus! {

/// The CRC-32 (PNG/zlib polynomial and bit ordering) that results from
/// feeding the bytes `s` to a running checksum whose value so far is `state`.
pub uninterp spec fn crc32_chain(state: u32, s: Seq<u8>) -> u32;

/// The CRC-32 of a whole byte sequence, started from the initial value.
pub open spec fn spec_crc32(s: Seq<u8>) -> u32 {
    crc32_chain(0u32, s)
}

/// The initial value of a running CRC-32, before any byte has been fed.
pub fn null_crc32() -> (r: u32)
    ensures
        r == 0u32,
{
    0
}

/// Relies on `crc32fast::Hasher` (`new_with_initial`, `update`, `finalize`):
/// an in-progress CRC-32 computation resumed from the running value `crc`,
/// fed the bytes of `buf`.  The result depends on `crc` and the bytes alone.
/// The crate documents that resuming from a running value continues the same
/// checksum, so if `crc` is the checksum of some bytes `p`, the result is the
/// checksum of `p` followed by `buf`; and feeding no bytes leaves the running
/// value unchanged.
#[verifier::external_body]
pub fn crc32(crc: u32, buf: &[u8]) -> (r: u32)
    ensures
        r == crc32_chain(crc, buf@),
        buf@.len() == 0 ==> r == crc,
        forall|p: Seq<u8>| crc == #[trigger] crc32_chain(0u32, p) ==> r == crc32_chain(
            0u32,
            p + buf@,
        ),
{
    let mut hasher = crc32fast::Hasher::new_with_initial(crc);
    hasher.update(buf);
    hasher.finalize()
}

} // verus!
