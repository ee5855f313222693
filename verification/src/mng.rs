//! The chunk model: the decoded units that the converter re-serializes, the
//! error carried out of the decoding engine, and the dispatch that tells the
//! engine's chunk iteration which units to keep.

use vstd::prelude::*;

verus! {

/// One decoded unit of the source container.
#[derive(Debug)]
pub enum Chunk {
    /// An image header: the seven fields of a PNG `IHDR` payload.
    IHdr {
        width: u32,
        height: u32,
        bit_depth: u8,
        color_type: u8,
        compression: u8,
        filter: u8,
        interlace: u8,
    },
    /// A fragment of compressed pixel data, copied out of engine-owned memory.
    IDat { data: Vec<u8> },
    /// The end marker of one image.
    IEnd,
}

/// An error reported by the decoding engine, its status code kept verbatim.
#[derive(Clone, Debug, PartialEq, Eq, Structural)]
pub struct MngError {
    pub code: i32,
}

impl MngError {
    pub fn new(code: i32) -> (e: MngError)
        ensures
            e.code == code,
    {
        MngError { code }
    }
}

/// The 32-bit type tag of a header chunk (`IHDR` in ASCII).
pub const TAG_IHDR: u32 = 0x49484452;

/// The 32-bit type tag of a pixel-data chunk (`IDAT` in ASCII).
pub const TAG_IDAT: u32 = 0x49444154;

/// The 32-bit type tag of an end-marker chunk (`IEND` in ASCII).
pub const TAG_IEND: u32 = 0x49454e44;

/// What the chunk iteration should do with a chunk of a given type tag.
#[derive(Clone, Copy, Debug, PartialEq, Eq, Structural)]
pub enum TagKind {
    /// Extract the seven header fields and keep a `Chunk::IHdr`.
    Header,
    /// Copy the transient pixel-data buffer and keep a `Chunk::IDat`.
    Data,
    /// Keep a `Chunk::IEnd`.
    End,
    /// Skip the chunk and keep iterating: the one sanctioned place where
    /// unknown chunk types are dropped.
    Skipped,
}

/// One decode pass over a source container.
pub struct MngFile {}

impl MngFile {
    /// Maps an engine status code to the converter's error: zero is success,
    /// any other code is carried out verbatim.
    pub fn check(ret_code: i32) -> (r: Result<(), MngError>)
        ensures
            r is Ok <==> ret_code == 0,
            ret_code != 0 ==> (r matches Err(e) && e.code == ret_code),
    {
        if ret_code != 0 {
            Err(MngError::new(ret_code))
        } else {
            Ok(())
        }
    }

    /// The dispatch of the engine's chunk iteration: which of the three kept
    /// chunk kinds a type tag selects, every other tag being skipped.
    pub fn classify_tag(tag: u32) -> (k: TagKind)
        ensures
            k is Header <==> tag == TAG_IHDR,
            k is Data <==> tag == TAG_IDAT,
            k is End <==> tag == TAG_IEND,
            k is Skipped <==> (tag != TAG_IHDR && tag != TAG_IDAT && tag != TAG_IEND),
    {
        if tag == TAG_IHDR {
            TagKind::Header
        } else if tag == TAG_IDAT {
            TagKind::Data
        } else if tag == TAG_IEND {
            TagKind::End
        } else {
            TagKind::Skipped
        }
    }
}

} // verus!
