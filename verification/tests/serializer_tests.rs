use mng_to_pngs::crc::{crc32, null_crc32};
use mng_to_pngs::frames::frame_file_name;
use mng_to_pngs::mng::{Chunk, MngError, MngFile, TagKind, TAG_IDAT, TAG_IEND, TAG_IHDR};
use mng_to_pngs::png::serialize_chunks;
use mng_to_pngs::{MngToPngLog, MngToPngTool};

fn one_by_one_header() -> Chunk {
    Chunk::IHdr {
        width: 1,
        height: 1,
        bit_depth: 8,
        color_type: 2,
        compression: 0,
        filter: 0,
        interlace: 0,
    }
}

const ONE_BY_ONE_FILE: [u8; 60] = [
    137, 80, 78, 71, 13, 10, 26, 10, 0, 0, 0, 13, 73, 72, 68, 82, 0, 0, 0, 1, 0, 0, 0, 1, 8, 2, 0,
    0, 0, 144, 119, 83, 222, 0, 0, 0, 3, 73, 68, 65, 84, 1, 2, 3, 83, 55, 23, 173, 0, 0, 0, 0, 73,
    69, 78, 68, 174, 66, 96, 130,
];

#[test]
fn single_image_exact_bytes() {
    let chunks = vec![
        one_by_one_header(),
        Chunk::IDat { data: vec![1, 2, 3] },
        Chunk::IEnd,
    ];
    let (files, truncated) = serialize_chunks(&chunks);
    assert!(!truncated);
    assert_eq!(files.len(), 1);
    assert_eq!(files[0].len(), 60);
    assert_eq!(files[0], ONE_BY_ONE_FILE.to_vec());
}

#[test]
fn one_file_per_complete_run() {
    let chunks = vec![
        one_by_one_header(),
        Chunk::IDat { data: vec![1, 2, 3] },
        Chunk::IEnd,
        one_by_one_header(),
        Chunk::IEnd,
        one_by_one_header(),
        Chunk::IDat { data: vec![9] },
        Chunk::IDat { data: vec![8, 7] },
        Chunk::IEnd,
    ];
    let (files, truncated) = serialize_chunks(&chunks);
    assert!(!truncated);
    assert_eq!(files.len(), 3);
}

#[test]
fn every_file_begins_with_the_signature() {
    let chunks = vec![
        one_by_one_header(),
        Chunk::IDat { data: vec![1, 2, 3] },
        Chunk::IEnd,
        one_by_one_header(),
        Chunk::IEnd,
        one_by_one_header(),
        Chunk::IDat { data: vec![5] },
    ];
    let (files, truncated) = serialize_chunks(&chunks);
    assert!(truncated);
    assert_eq!(files.len(), 3);
    for f in files.iter() {
        assert_eq!(&f[0..8], &[137, 80, 78, 71, 13, 10, 26, 10]);
    }
}

#[test]
fn header_and_end_length_fields() {
    let chunks = vec![
        one_by_one_header(),
        Chunk::IDat { data: vec![1, 2, 3] },
        Chunk::IEnd,
    ];
    let (files, _) = serialize_chunks(&chunks);
    let f = &files[0];
    // Header chunk: length field 13, then the IHDR tag.
    assert_eq!(&f[8..12], &[0, 0, 0, 13]);
    assert_eq!(&f[12..16], b"IHDR");
    // End chunk: length field 0, IEND tag, fixed checksum.
    assert_eq!(&f[48..52], &[0, 0, 0, 0]);
    assert_eq!(&f[52..56], b"IEND");
    assert_eq!(&f[56..60], &[0xAE, 0x42, 0x60, 0x82]);
}

#[test]
fn stored_checksums_match_recomputation() {
    let chunks = vec![
        one_by_one_header(),
        Chunk::IDat { data: vec![1, 2, 3] },
        Chunk::IEnd,
    ];
    let (files, _) = serialize_chunks(&chunks);
    let f = &files[0];
    // Walk the three chunks of the file, recomputing each checksum
    // independently over type tag and payload.
    let mut at: usize = 8;
    let mut chunks_seen: usize = 0;
    while at < f.len() {
        let len = u32::from_be_bytes([f[at], f[at + 1], f[at + 2], f[at + 3]]) as usize;
        let tag_and_payload = &f[at + 4..at + 8 + len];
        let stored = u32::from_be_bytes([
            f[at + 8 + len],
            f[at + 9 + len],
            f[at + 10 + len],
            f[at + 11 + len],
        ]);
        assert_eq!(stored, crc32(null_crc32(), tag_and_payload));
        at += 12 + len;
        chunks_seen += 1;
    }
    assert_eq!(at, f.len());
    assert_eq!(chunks_seen, 3);
}

#[test]
fn orphan_chunks_before_any_header_yield_nothing() {
    let chunks = vec![
        Chunk::IDat { data: vec![1, 2, 3] },
        Chunk::IEnd,
        Chunk::IEnd,
    ];
    let (files, truncated) = serialize_chunks(&chunks);
    assert!(!truncated);
    assert_eq!(files.len(), 0);
}

#[test]
fn leading_orphans_do_not_change_the_output() {
    let with_orphans = vec![
        Chunk::IEnd,
        Chunk::IDat { data: vec![4, 4] },
        one_by_one_header(),
        Chunk::IDat { data: vec![1, 2, 3] },
        Chunk::IEnd,
    ];
    let plain = vec![
        one_by_one_header(),
        Chunk::IDat { data: vec![1, 2, 3] },
        Chunk::IEnd,
    ];
    assert_eq!(serialize_chunks(&with_orphans), serialize_chunks(&plain));
}

#[test]
fn truncated_sequence_keeps_the_partial_file() {
    let chunks = vec![one_by_one_header(), Chunk::IDat { data: vec![1, 2, 3] }];
    let (files, truncated) = serialize_chunks(&chunks);
    assert!(truncated);
    assert_eq!(files.len(), 1);
    // The partial file holds the signature, the header chunk and the data
    // chunk, but no end chunk.
    assert_eq!(files[0], ONE_BY_ONE_FILE[0..48].to_vec());
}

#[test]
fn frame_names_are_zero_padded() {
    assert_eq!(frame_file_name("", 0), "00000.png");
    assert_eq!(frame_file_name("", 7), "00007.png");
    assert_eq!(frame_file_name("", 99999), "99999.png");
    assert_eq!(frame_file_name("", 123456), "123456.png");
    assert_eq!(frame_file_name("frame_", 12), "frame_00012.png");
}

struct SilentLog {
    warnings: std::cell::Cell<usize>,
}

impl MngToPngLog for SilentLog {
    fn output(&self, _msg: &str) {}
    fn warning(&self, _msg: &str) {
        self.warnings.set(self.warnings.get() + 1);
    }
    fn error(&self, _msg: &str) {}
}

#[test]
fn render_names_frames_in_order() {
    let log = SilentLog { warnings: std::cell::Cell::new(0) };
    let tool = MngToPngTool::new(&log);
    let chunks = vec![
        one_by_one_header(),
        Chunk::IDat { data: vec![1, 2, 3] },
        Chunk::IEnd,
        one_by_one_header(),
        Chunk::IEnd,
    ];
    let (images, truncated) = tool.render(&chunks, "");
    assert!(!truncated);
    assert_eq!(log.warnings.get(), 0);
    assert_eq!(images.len(), 2);
    assert_eq!(images[0].name, "00000.png");
    assert_eq!(images[1].name, "00001.png");
    assert_eq!(images[0].bytes, ONE_BY_ONE_FILE.to_vec());
}

#[test]
fn render_warns_on_a_truncated_image() {
    let log = SilentLog { warnings: std::cell::Cell::new(0) };
    let tool = MngToPngTool::new(&log);
    let chunks = vec![one_by_one_header()];
    let (images, truncated) = tool.render(&chunks, "x");
    assert!(truncated);
    assert_eq!(log.warnings.get(), 1);
    assert_eq!(images.len(), 1);
    assert_eq!(images[0].name, "x00000.png");
}

#[test]
fn status_codes_map_to_errors_verbatim() {
    assert_eq!(MngFile::check(0), Ok(()));
    assert_eq!(MngFile::check(11), Err(MngError::new(11)));
    assert_eq!(MngFile::check(-3), Err(MngError { code: -3 }));
}

#[test]
fn tag_dispatch_keeps_the_three_known_kinds() {
    assert_eq!(MngFile::classify_tag(TAG_IHDR), TagKind::Header);
    assert_eq!(MngFile::classify_tag(TAG_IDAT), TagKind::Data);
    assert_eq!(MngFile::classify_tag(TAG_IEND), TagKind::End);
    assert_eq!(MngFile::classify_tag(0x12345678), TagKind::Skipped);
    assert_eq!(MngFile::classify_tag(0), TagKind::Skipped);
}
