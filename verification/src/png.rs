//! The PNG serializer: turns the ordered chunk sequence into the byte-exact
//! contents of one output file per completed image.
//!
//! The byte layout is modelled by spec functions: a 4-byte big-endian length,
//! the 4-byte ASCII type tag, the payload, and a 4-byte big-endian CRC-32
//! chained over tag and payload.  A small state machine walks the sequence
//! once, opening a file on a header, appending pixel data while an image is
//! open, and closing the file on an end marker.

use vstd::prelude::*;
use crate::crc::{crc32, null_crc32, spec_crc32};
use crate::mng::Chunk;

verus! {

/// The four bytes of `n` in big-endian order.
pub open spec fn spec_u32_be(n: u32) -> Seq<u8> {
    seq![
        ((n >> 24) & 0xff) as u8,
        ((n >> 16) & 0xff) as u8,
        ((n >> 8) & 0xff) as u8,
        (n & 0xff) as u8,
    ]
}

/// The unsigned 32-bit value read from four bytes in big-endian order.
pub open spec fn spec_u32_from_be(s: Seq<u8>) -> u32
    recommends
        s.len() == 4,
{
    (((s[0] as u32) << 24) | ((s[1] as u32) << 16) | ((s[2] as u32) << 8) | (s[3] as u32)) as u32
}

/// The fixed 8-byte signature that opens every produced file.
pub open spec fn spec_signature() -> Seq<u8> {
    seq![137u8, 80u8, 78u8, 71u8, 13u8, 10u8, 26u8, 10u8]
}

/// The ASCII type tag of a header chunk.
pub open spec fn spec_ihdr_tag() -> Seq<u8> {
    seq![0x49u8, 0x48u8, 0x44u8, 0x52u8]
}

/// The ASCII type tag of a pixel-data chunk.
pub open spec fn spec_idat_tag() -> Seq<u8> {
    seq![0x49u8, 0x44u8, 0x41u8, 0x54u8]
}

/// The ASCII type tag of an end-marker chunk.
pub open spec fn spec_iend_tag() -> Seq<u8> {
    seq![0x49u8, 0x45u8, 0x4eu8, 0x44u8]
}

/// One serialized chunk: length prefix, type tag, payload, and the CRC-32
/// chained over tag and payload.
pub open spec fn spec_chunk_bytes(tag: Seq<u8>, payload: Seq<u8>) -> Seq<u8> {
    spec_u32_be(payload.len() as u32) + tag + payload + spec_u32_be(spec_crc32(tag + payload))
}

/// The 13-byte payload of a header chunk.
pub open spec fn spec_header_payload(
    width: u32,
    height: u32,
    bit_depth: u8,
    color_type: u8,
    compression: u8,
    filter: u8,
    interlace: u8,
) -> Seq<u8> {
    spec_u32_be(width) + spec_u32_be(height) + seq![
        bit_depth,
        color_type,
        compression,
        filter,
        interlace,
    ]
}

/// The serializer's state after some prefix of the chunk sequence: the
/// completed files in order, and the partially assembled file of the image
/// that is still open, if any.
pub struct SerializerModel {
    pub done: Seq<Seq<u8>>,
    pub cur: Option<Seq<u8>>,
}

/// The initial (and, on well-formed input, terminal) state: no file
/// completed, no image open.
pub open spec fn initial_model() -> SerializerModel {
    SerializerModel { done: Seq::empty(), cur: None }
}

/// One transition of the serializer: a header opens a fresh file holding the
/// signature and the header chunk; pixel data appends a chunk to the open
/// file and is ignored when no image is open; an end marker appends the end
/// chunk and completes the open file, and is ignored when no image is open.
pub open spec fn spec_step(m: SerializerModel, c: Chunk) -> SerializerModel {
    match c {
        Chunk::IHdr { width, height, bit_depth, color_type, compression, filter, interlace } => {
            SerializerModel {
                done: m.done,
                cur: Some(
                    spec_signature() + spec_chunk_bytes(
                        spec_ihdr_tag(),
                        spec_header_payload(
                            width,
                            height,
                            bit_depth,
                            color_type,
                            compression,
                            filter,
                            interlace,
                        ),
                    ),
                ),
            }
        },
        Chunk::IDat { data } => {
            match m.cur {
                Some(f) => SerializerModel {
                    done: m.done,
                    cur: Some(f + spec_chunk_bytes(spec_idat_tag(), data@)),
                },
                None => m,
            }
        },
        Chunk::IEnd => {
            match m.cur {
                Some(f) => SerializerModel {
                    done: m.done.push(f + spec_chunk_bytes(spec_iend_tag(), Seq::empty())),
                    cur: None,
                },
                None => m,
            }
        },
    }
}

/// The state reached from `m` after one forward pass over `chunks`.
pub open spec fn spec_run(m: SerializerModel, chunks: Seq<Chunk>) -> SerializerModel
    decreases chunks.len(),
{
    if chunks.len() == 0 {
        m
    } else {
        spec_run(spec_step(m, chunks[0]), chunks.skip(1))
    }
}

/// The state after serializing the whole sequence from the initial state.
pub open spec fn spec_serialize(chunks: Seq<Chunk>) -> SerializerModel {
    spec_run(initial_model(), chunks)
}

/// The contents of the files the serializer leaves on disk: the completed
/// files in order and, when the sequence ended with an image still open, the
/// partially written file after them.
pub open spec fn spec_output_files(chunks: Seq<Chunk>) -> Seq<Seq<u8>> {
    let m = spec_serialize(chunks);
    match m.cur {
        Some(f) => m.done.push(f),
        None => m.done,
    }
}

/// Whether the sequence ended with an image still open (the truncated-image
/// condition).
pub open spec fn spec_truncated(chunks: Seq<Chunk>) -> bool {
    spec_serialize(chunks).cur is Some
}

/// A run over a sequence extended by one chunk is the run over the sequence
/// followed by one step.
pub proof fn lemma_run_snoc(m: SerializerModel, chunks: Seq<Chunk>, c: Chunk)
    ensures
        spec_run(m, chunks.push(c)) == spec_step(spec_run(m, chunks), c),
    decreases chunks.len(),
{
    let s = chunks.push(c);
    if chunks.len() == 0 {
        assert(s.skip(1) =~= Seq::<Chunk>::empty());
        assert(spec_run(m, s) == spec_run(spec_step(m, c), s.skip(1)));
    } else {
        assert(s.skip(1) =~= chunks.skip(1).push(c));
        lemma_run_snoc(spec_step(m, chunks[0]), chunks.skip(1), c);
        assert(spec_run(m, s) == spec_run(spec_step(m, chunks[0]), s.skip(1)));
    }
}

/// Appends the four big-endian bytes of `n`.
fn push_u32_be(out: &mut Vec<u8>, n: u32)
    ensures
        final(out)@ == old(out)@ + spec_u32_be(n),
{
    proof {
        assert((n >> 24) & 0xff < 256 && (n >> 16) & 0xff < 256 && (n >> 8) & 0xff < 256 && n
            & 0xff < 256) by (bit_vector);
    }
    out.push(((n >> 24) & 0xff) as u8);
    out.push(((n >> 16) & 0xff) as u8);
    out.push(((n >> 8) & 0xff) as u8);
    out.push((n & 0xff) as u8);
    proof {
        assert(out@ =~= old(out)@ + spec_u32_be(n));
    }
}

/// Appends one serialized chunk: length prefix, type tag, payload, and the
/// CRC-32 chained over the tag and then the payload, exactly as the two
/// successive updates of the running checksum compute it.
fn push_chunk(out: &mut Vec<u8>, tag: &[u8], payload: &[u8])
    requires
        payload@.len() <= u32::MAX,
    ensures
        final(out)@ == old(out)@ + spec_chunk_bytes(tag@, payload@),
{
    let len: u32 = payload.len() as u32;
    push_u32_be(out, len);
    out.extend_from_slice(tag);
    out.extend_from_slice(payload);
    let crc = crc32(crc32(null_crc32(), tag), payload);
    assert(crc == spec_crc32(tag@ + payload@));
    push_u32_be(out, crc);
    proof {
        assert(out@ =~= old(out)@ + spec_chunk_bytes(tag@, payload@));
    }
}

/// Starts a fresh output file: the fixed 8-byte signature followed by the
/// header chunk built from the seven header fields.
fn new_image_file(
    width: u32,
    height: u32,
    bit_depth: u8,
    color_type: u8,
    compression: u8,
    filter: u8,
    interlace: u8,
) -> (f: Vec<u8>)
    ensures
        f@ == spec_signature() + spec_chunk_bytes(
            spec_ihdr_tag(),
            spec_header_payload(
                width,
                height,
                bit_depth,
                color_type,
                compression,
                filter,
                interlace,
            ),
        ),
{
    let mut f: Vec<u8> = Vec::new();
    f.push(137);
    f.push(80);
    f.push(78);
    f.push(71);
    f.push(13);
    f.push(10);
    f.push(26);
    f.push(10);
    proof {
        assert(f@ =~= spec_signature());
    }
    let mut payload: Vec<u8> = Vec::new();
    push_u32_be(&mut payload, width);
    push_u32_be(&mut payload, height);
    payload.push(bit_depth);
    payload.push(color_type);
    payload.push(compression);
    payload.push(filter);
    payload.push(interlace);
    proof {
        assert(payload@ =~= spec_header_payload(
            width,
            height,
            bit_depth,
            color_type,
            compression,
            filter,
            interlace,
        ));
    }
    let tag: Vec<u8> = ihdr_tag_bytes();
    push_chunk(&mut f, tag.as_slice(), payload.as_slice());
    f
}

/// The ASCII bytes `IHDR`.
fn ihdr_tag_bytes() -> (t: Vec<u8>)
    ensures
        t@ == spec_ihdr_tag(),
{
    let mut t: Vec<u8> = Vec::new();
    t.push(0x49);
    t.push(0x48);
    t.push(0x44);
    t.push(0x52);
    proof {
        assert(t@ =~= spec_ihdr_tag());
    }
    t
}

/// The ASCII bytes `IDAT`.
fn idat_tag_bytes() -> (t: Vec<u8>)
    ensures
        t@ == spec_idat_tag(),
{
    let mut t: Vec<u8> = Vec::new();
    t.push(0x49);
    t.push(0x44);
    t.push(0x41);
    t.push(0x54);
    proof {
        assert(t@ =~= spec_idat_tag());
    }
    t
}

/// The ASCII bytes `IEND`.
fn iend_tag_bytes() -> (t: Vec<u8>)
    ensures
        t@ == spec_iend_tag(),
{
    let mut t: Vec<u8> = Vec::new();
    t.push(0x49);
    t.push(0x45);
    t.push(0x4e);
    t.push(0x44);
    proof {
        assert(t@ =~= spec_iend_tag());
    }
    t
}

/// A chunk the serializer accepts: a pixel-data payload must fit the 4-byte
/// length prefix of the output format.
pub open spec fn chunk_fits(c: Chunk) -> bool {
    match c {
        Chunk::IDat { data } => data@.len() <= u32::MAX,
        _ => true,
    }
}

/// Serializes the ordered chunk sequence in one forward pass, splitting into
/// one file per completed image.  Returns the contents of the files in
/// order, and whether the sequence ended with an image still open (the
/// truncated-image condition; the partial file is last in that case).
pub fn serialize_chunks(chunks: &Vec<Chunk>) -> (out: (Vec<Vec<u8>>, bool))
    requires
        forall|k: int| 0 <= k < chunks@.len() ==> chunk_fits(#[trigger] chunks@[k]),
    ensures
        out.0@.len() == spec_output_files(chunks@).len(),
        forall|j: int| 0 <= j < out.0@.len() ==> out.0@[j]@ == spec_output_files(chunks@)[j],
        out.1 == spec_truncated(chunks@),
{
    let mut files: Vec<Vec<u8>> = Vec::new();
    let mut cur: Option<Vec<u8>> = None;
    let mut i: usize = 0;
    while i < chunks.len()
        invariant
            i <= chunks@.len(),
            forall|k: int| 0 <= k < chunks@.len() ==> chunk_fits(#[trigger] chunks@[k]),
            ({
                let m = spec_run(initial_model(), chunks@.take(i as int));
                &&& files@.len() == m.done.len()
                &&& (forall|j: int| 0 <= j < files@.len() ==> files@[j]@ == m.done[j])
                &&& (match cur {
                    Some(f) => m.cur == Some(f@),
                    None => m.cur is None,
                })
            }),
        decreases chunks@.len() - i,
    {
        proof {
            assert(chunks@.take(i + 1) =~= chunks@.take(i as int).push(chunks@[i as int]));
            lemma_run_snoc(initial_model(), chunks@.take(i as int), chunks@[i as int]);
        }
        match &chunks[i] {
            Chunk::IHdr { width, height, bit_depth, color_type, compression, filter, interlace } => {
                let f = new_image_file(
                    *width,
                    *height,
                    *bit_depth,
                    *color_type,
                    *compression,
                    *filter,
                    *interlace,
                );
                cur = Some(f);
            },
            Chunk::IDat { data } => {
                cur = match cur {
                    Some(mut f) => {
                        let tag: Vec<u8> = idat_tag_bytes();
                        push_chunk(&mut f, tag.as_slice(), data.as_slice());
                        Some(f)
                    },
                    None => None,
                };
            },
            Chunk::IEnd => {
                cur = match cur {
                    Some(mut f) => {
                        let tag: Vec<u8> = iend_tag_bytes();
                        let empty: Vec<u8> = Vec::new();
                        push_chunk(&mut f, tag.as_slice(), empty.as_slice());
                        files.push(f);
                        None
                    },
                    None => None,
                };
            },
        }
        i = i + 1;
    }
    proof {
        assert(chunks@.take(i as int) =~= chunks@);
    }
    let truncated: bool = match &cur {
        Some(_) => true,
        None => false,
    };
    match cur {
        Some(f) => files.push(f),
        None => {},
    }
    (files, truncated)
}

/// A run over a concatenation is the run over the first part continued over
/// the second.
pub proof fn lemma_run_concat(m: SerializerModel, a: Seq<Chunk>, b: Seq<Chunk>)
    ensures
        spec_run(m, a + b) == spec_run(spec_run(m, a), b),
    decreases a.len(),
{
    if a.len() == 0 {
        assert(a + b =~= b);
    } else {
        assert((a + b)[0] == a[0]);
        assert((a + b).skip(1) =~= a.skip(1) + b);
        lemma_run_concat(spec_step(m, a[0]), a.skip(1), b);
    }
}

/// Whether `chunks` is a whole number of complete `IHdr, IDat*, IEnd` runs,
/// scanned with `open` telling whether an image is open at the start.
pub open spec fn runs_from(chunks: Seq<Chunk>, open: bool) -> bool
    decreases chunks.len(),
{
    if chunks.len() == 0 {
        !open
    } else {
        match chunks[0] {
            Chunk::IHdr { .. } => !open && runs_from(chunks.skip(1), true),
            Chunk::IDat { .. } => open && runs_from(chunks.skip(1), true),
            Chunk::IEnd => open && runs_from(chunks.skip(1), false),
        }
    }
}

/// Whether `chunks` is zero or more contiguous, non-overlapping complete
/// `IHdr, IDat*, IEnd` runs.
pub open spec fn is_complete_runs(chunks: Seq<Chunk>) -> bool {
    runs_from(chunks, false)
}

/// The number of end markers in the sequence; on complete runs, the number
/// of runs.
pub open spec fn count_ends(chunks: Seq<Chunk>) -> nat
    decreases chunks.len(),
{
    if chunks.len() == 0 {
        0
    } else {
        (if chunks[0] is IEnd {
            1nat
        } else {
            0nat
        }) + count_ends(chunks.skip(1))
    }
}

proof fn lemma_runs_produce_one_file_each(m: SerializerModel, chunks: Seq<Chunk>, open: bool)
    requires
        runs_from(chunks, open),
        open == (m.cur is Some),
    ensures
        spec_run(m, chunks).cur is None,
        spec_run(m, chunks).done.len() == m.done.len() + count_ends(chunks),
    decreases chunks.len(),
{
    if chunks.len() > 0 {
        match chunks[0] {
            Chunk::IHdr { .. } => {
                lemma_runs_produce_one_file_each(spec_step(m, chunks[0]), chunks.skip(1), true);
            },
            Chunk::IDat { .. } => {
                lemma_runs_produce_one_file_each(spec_step(m, chunks[0]), chunks.skip(1), true);
            },
            Chunk::IEnd => {
                lemma_runs_produce_one_file_each(spec_step(m, chunks[0]), chunks.skip(1), false);
            },
        }
    }
}

/// A sequence made of K complete `IHdr, IDat*, IEnd` runs serializes to
/// exactly K files, one per run, with no truncated image left open.
pub proof fn lemma_complete_runs_one_file_per_run(chunks: Seq<Chunk>)
    requires
        is_complete_runs(chunks),
    ensures
        spec_output_files(chunks).len() == count_ends(chunks),
        !spec_truncated(chunks),
{
    lemma_runs_produce_one_file_each(initial_model(), chunks, false);
}

/// Whether a file's first 8 bytes are the fixed signature.
pub open spec fn starts_with_signature(f: Seq<u8>) -> bool {
    f.len() >= 8 && f.take(8) == spec_signature()
}

proof fn lemma_run_keeps_signatures(m: SerializerModel, chunks: Seq<Chunk>)
    requires
        forall|j: int| 0 <= j < m.done.len() ==> starts_with_signature(#[trigger] m.done[j]),
        m.cur matches Some(f) ==> starts_with_signature(f),
    ensures
        forall|j: int|
            0 <= j < spec_run(m, chunks).done.len() ==> starts_with_signature(
                #[trigger] spec_run(m, chunks).done[j],
            ),
        spec_run(m, chunks).cur matches Some(f) ==> starts_with_signature(f),
    decreases chunks.len(),
{
    if chunks.len() > 0 {
        let m1 = spec_step(m, chunks[0]);
        assert forall|j: int| 0 <= j < m1.done.len() implies starts_with_signature(
            #[trigger] m1.done[j],
        ) by {
            if j < m.done.len() {
                assert(starts_with_signature(m.done[j]));
            } else {
                let f = m.cur->0;
                assert(m1.done[j] == f + spec_chunk_bytes(spec_iend_tag(), Seq::empty()));
                assert(m1.done[j].take(8) =~= f.take(8));
            }
        }
        match chunks[0] {
            Chunk::IHdr { .. } => {
                let f = m1.cur->0;
                assert(f.take(8) =~= spec_signature());
            },
            Chunk::IDat { data } => {
                if m.cur is Some {
                    let f = m.cur->0;
                    let f1 = m1.cur->0;
                    assert(f1.take(8) =~= f.take(8));
                }
            },
            Chunk::IEnd => {},
        }
        lemma_run_keeps_signatures(m1, chunks.skip(1));
    }
}

/// Every produced file — completed or truncated — begins with the fixed
/// 8-byte signature.
pub proof fn lemma_every_file_begins_with_signature(chunks: Seq<Chunk>)
    ensures
        forall|j: int|
            0 <= j < spec_output_files(chunks).len() ==> starts_with_signature(
                #[trigger] spec_output_files(chunks)[j],
            ),
{
    lemma_run_keeps_signatures(initial_model(), chunks);
}

/// Big-endian encoding round-trips: reading back the four bytes of `n`
/// yields `n`.
pub proof fn lemma_u32_be_round_trip(n: u32)
    ensures
        spec_u32_be(n).len() == 4,
        spec_u32_from_be(spec_u32_be(n)) == n,
{
    assert(((((((n >> 24) & 0xff) as u8) as u32) << 24) | ((((n >> 16) & 0xff) as u8) as u32)
        << 16 | ((((n >> 8) & 0xff) as u8) as u32) << 8 | (((n & 0xff) as u8) as u32)) as u32
        == n) by (bit_vector);
}

/// The checksum stored in the last four bytes of a serialized chunk is the
/// CRC-32 of its type tag followed by its payload: recomputing it
/// independently over tag and payload gives back the stored value.
pub proof fn lemma_chunk_crc_round_trip(tag: Seq<u8>, payload: Seq<u8>)
    ensures
        spec_chunk_bytes(tag, payload).len() == 8 + tag.len() + payload.len(),
        spec_u32_from_be(
            spec_chunk_bytes(tag, payload).skip((4 + tag.len() + payload.len()) as int),
        ) == spec_crc32(tag + payload),
{
    let b = spec_chunk_bytes(tag, payload);
    assert(b.skip((4 + tag.len() + payload.len()) as int) =~= spec_u32_be(spec_crc32(tag + payload)));
    lemma_u32_be_round_trip(spec_crc32(tag + payload));
}

/// The length field of a header chunk is always 13, and the length field of
/// an end chunk is always 0.
pub proof fn lemma_header_and_end_length_fields(
    width: u32,
    height: u32,
    bit_depth: u8,
    color_type: u8,
    compression: u8,
    filter: u8,
    interlace: u8,
)
    ensures
        spec_header_payload(
            width,
            height,
            bit_depth,
            color_type,
            compression,
            filter,
            interlace,
        ).len() == 13,
        spec_u32_from_be(
            spec_chunk_bytes(
                spec_ihdr_tag(),
                spec_header_payload(
                    width,
                    height,
                    bit_depth,
                    color_type,
                    compression,
                    filter,
                    interlace,
                ),
            ).take(4),
        ) == 13,
        spec_u32_from_be(spec_chunk_bytes(spec_iend_tag(), Seq::empty()).take(4)) == 0,
{
    let hp = spec_header_payload(
        width,
        height,
        bit_depth,
        color_type,
        compression,
        filter,
        interlace,
    );
    assert(hp.len() == 13);
    assert(spec_chunk_bytes(spec_ihdr_tag(), hp).take(4) =~= spec_u32_be(13));
    lemma_u32_be_round_trip(13);
    assert(spec_chunk_bytes(spec_iend_tag(), Seq::<u8>::empty()).take(4) =~= spec_u32_be(0));
    lemma_u32_be_round_trip(0);
}

/// The payload bytes a chunk contributes: the pixel data it carries, empty
/// for the other kinds.
pub open spec fn data_of(c: Chunk) -> Seq<u8> {
    match c {
        Chunk::IDat { data } => data@,
        _ => Seq::empty(),
    }
}

/// The header payload a header chunk carries, empty for the other kinds.
pub open spec fn spec_header_payload_of(c: Chunk) -> Seq<u8> {
    match c {
        Chunk::IHdr { width, height, bit_depth, color_type, compression, filter, interlace } => {
            spec_header_payload(
                width,
                height,
                bit_depth,
                color_type,
                compression,
                filter,
                interlace,
            )
        },
        _ => Seq::empty(),
    }
}

/// Whether every chunk of the sequence is pixel data.
pub open spec fn all_data(datas: Seq<Chunk>) -> bool {
    forall|k: int| 0 <= k < datas.len() ==> #[trigger] datas[k] is IDat
}

/// The serialized pixel-data chunks of a run, in encounter order.
pub open spec fn spec_data_chunks(datas: Seq<Chunk>) -> Seq<u8>
    decreases datas.len(),
{
    if datas.len() == 0 {
        Seq::empty()
    } else {
        spec_chunk_bytes(spec_idat_tag(), data_of(datas[0])) + spec_data_chunks(datas.skip(1))
    }
}

/// The whole contents of one completed image's file: the signature, the
/// header chunk, the pixel-data chunks in encounter order, and the end
/// chunk.
pub open spec fn spec_image_file(header: Chunk, datas: Seq<Chunk>) -> Seq<u8> {
    spec_signature() + spec_chunk_bytes(spec_ihdr_tag(), spec_header_payload_of(header))
        + spec_data_chunks(datas) + spec_chunk_bytes(spec_iend_tag(), Seq::empty())
}

proof fn lemma_open_image_accumulates(m: SerializerModel, datas: Seq<Chunk>)
    requires
        m.cur is Some,
        all_data(datas),
    ensures
        spec_run(m, datas) == (SerializerModel {
            done: m.done,
            cur: Some(m.cur->0 + spec_data_chunks(datas)),
        }),
    decreases datas.len(),
{
    if datas.len() == 0 {
        assert(m.cur->0 + spec_data_chunks(datas) =~= m.cur->0);
    } else {
        assert(datas[0] is IDat);
        let m1 = spec_step(m, datas[0]);
        assert(m1.cur == Some(m.cur->0 + spec_chunk_bytes(spec_idat_tag(), data_of(datas[0]))));
        lemma_open_image_accumulates(m1, datas.skip(1));
        assert(m1.cur->0 + spec_data_chunks(datas.skip(1)) =~= m.cur->0 + spec_data_chunks(
            datas,
        ));
    }
}

/// One complete `IHdr, IDat*, IEnd` run, serialized from a state with no
/// image open, appends exactly one completed file — the signature, the
/// header chunk, the pixel-data chunks in encounter order and the end chunk
/// — and leaves no image open.
pub proof fn lemma_one_run_appends_one_file(m: SerializerModel, header: Chunk, datas: Seq<Chunk>)
    requires
        m.cur is None,
        header is IHdr,
        all_data(datas),
    ensures
        spec_run(m, seq![header] + datas + seq![Chunk::IEnd]) == (SerializerModel {
            done: m.done.push(spec_image_file(header, datas)),
            cur: None,
        }),
{
    let opened = spec_signature() + spec_chunk_bytes(
        spec_ihdr_tag(),
        spec_header_payload_of(header),
    );
    lemma_run_concat(m, seq![header] + datas, seq![Chunk::IEnd]);
    assert((seq![header] + datas + seq![Chunk::IEnd]) =~= (seq![header] + datas) + seq![
        Chunk::IEnd,
    ]);
    lemma_run_concat(m, seq![header], datas);
    let m1 = spec_run(m, seq![header]);
    assert(seq![header][0] == header);
    assert(seq![header].skip(1) =~= Seq::<Chunk>::empty());
    assert(m1 == spec_run(spec_step(m, header), seq![header].skip(1)));
    assert(m1 == spec_step(m, header));
    assert(m1.cur == Some(opened));
    lemma_open_image_accumulates(m1, datas);
    let m2 = spec_run(m1, datas);
    assert(m2.cur == Some(opened + spec_data_chunks(datas)));
    assert(seq![Chunk::IEnd][0] == Chunk::IEnd);
    assert(seq![Chunk::IEnd].skip(1) =~= Seq::<Chunk>::empty());
    assert(spec_run(m2, seq![Chunk::IEnd]) == spec_run(
        spec_step(m2, Chunk::IEnd),
        seq![Chunk::IEnd].skip(1),
    ));
    assert(spec_run(m2, seq![Chunk::IEnd]) == spec_step(m2, Chunk::IEnd));
    assert(opened + spec_data_chunks(datas) + spec_chunk_bytes(spec_iend_tag(), Seq::empty())
        =~= spec_image_file(header, datas));
}

/// Whether the sequence holds no header chunk at all.
pub open spec fn has_no_header(chunks: Seq<Chunk>) -> bool {
    forall|k: int| 0 <= k < chunks.len() ==> !(#[trigger] chunks[k] is IHdr)
}

proof fn lemma_closed_state_skips_non_headers(m: SerializerModel, chunks: Seq<Chunk>)
    requires
        has_no_header(chunks),
        m.cur is None,
    ensures
        spec_run(m, chunks) == m,
    decreases chunks.len(),
{
    if chunks.len() > 0 {
        assert(!(chunks[0] is IHdr));
        assert(spec_step(m, chunks[0]) == m);
        assert(forall|k: int|
            0 <= k < chunks.skip(1).len() ==> #[trigger] chunks.skip(1)[k] == chunks[k + 1]);
        lemma_closed_state_skips_non_headers(m, chunks.skip(1));
    }
}

/// Pixel data and end markers seen before any header are ignored: with no
/// header in the sequence, serialization yields zero files and no truncated
/// image.
pub proof fn lemma_no_header_no_output(chunks: Seq<Chunk>)
    requires
        has_no_header(chunks),
    ensures
        spec_output_files(chunks).len() == 0,
        !spec_truncated(chunks),
{
    lemma_closed_state_skips_non_headers(initial_model(), chunks);
}

/// A leading stretch of pixel data and end markers before the first header
/// changes nothing: serialization of the remainder is the same.
pub proof fn lemma_leading_orphans_ignored(orphans: Seq<Chunk>, rest: Seq<Chunk>)
    requires
        has_no_header(orphans),
    ensures
        spec_serialize(orphans + rest) == spec_serialize(rest),
{
    lemma_run_concat(initial_model(), orphans, rest);
    lemma_closed_state_skips_non_headers(initial_model(), orphans);
}

} // verus!
