//! Turns the ordered chunk sequence decoded from an MNG animation into a set
//! of standalone, byte-exact PNG files.
//!
//! The library holds the deterministic core of the converter: the chunk
//! model, the incremental CRC-32 used for chunk checksums, the PNG
//! re-serializer with its file-splitting state machine, and the naming of the
//! output frames.  Reading the source container through the decoding engine's
//! callback protocol, and all file input/output, live outside the library and
//! hand it plain values.

use vstd::prelude::*;

pub mod crc;
pub mod frames;
pub mod mng;
pub mod png;

verus! {

/// Diagnostics collaborator: the converter only calls into it.
pub trait MngToPngLog {
    fn output(&self, msg: &str);

    fn warning(&self, msg: &str);

    fn error(&self, msg: &str);
}

/// The converter, holding the logging collaborator it reports through.
pub struct MngToPngTool<'a, L: MngToPngLog> {
    pub log: &'a L,
}

/// One output file, ready to be written: its name and its byte-exact
/// contents.
pub struct PngImage {
    pub name: String,
    pub bytes: Vec<u8>,
}

impl<'a, L: MngToPngLog> MngToPngTool<'a, L> {
    pub fn new(log: &'a L) -> (tool: MngToPngTool<'a, L>) {
        MngToPngTool { log }
    }

    /// Serializes the decoded chunk sequence into one named file per
    /// completed image, the frames numbered in encounter order from zero.
    /// When the sequence ends with an image still open, the partial file is
    /// kept as the last frame, a warning is logged, and the second result is
    /// true (the truncated-image condition).
    pub fn render(&self, chunks: &Vec<mng::Chunk>, prefix: &str) -> (out: (Vec<PngImage>, bool))
        requires
            forall|k: int| 0 <= k < chunks@.len() ==> png::chunk_fits(#[trigger] chunks@[k]),
        ensures
            out.0@.len() == png::spec_output_files(chunks@).len(),
            forall|j: int|
                0 <= j < out.0@.len() ==> out.0@[j].bytes@ == png::spec_output_files(chunks@)[j],
            forall|j: int|
                0 <= j < out.0@.len() ==> out.0@[j].name@ == prefix@ + frames::ascii_chars(
                    frames::spec_frame_name_bytes(j as nat),
                ),
            out.1 == png::spec_truncated(chunks@),
    {
        let (mut files, truncated) = png::serialize_chunks(chunks);
        let ghost all = png::spec_output_files(chunks@);
        let mut out: Vec<PngImage> = Vec::new();
        let mut index: usize = 0;
        while files.len() > 0
            invariant
                index == out@.len(),
                index + files@.len() == all.len(),
                forall|j: int| 0 <= j < out@.len() ==> out@[j].bytes@ == all[j],
                forall|j: int|
                    0 <= j < out@.len() ==> out@[j].name@ == prefix@ + frames::ascii_chars(
                        frames::spec_frame_name_bytes(j as nat),
                    ),
                forall|j: int|
                    0 <= j < files@.len() ==> files@[j]@ == all[index + j],
            decreases files@.len(),
        {
            let bytes = files.remove(0);
            let name = frames::frame_file_name(prefix, index);
            out.push(PngImage { name, bytes });
            index = out.len();
        }
        if truncated {
            self.log.warning("the chunk sequence ended with an image still open");
        }
        (out, truncated)
    }
}

} // verus!
