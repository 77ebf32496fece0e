use std::collections::VecDeque;

use mmd_ffmpeg_encoder::annexb::{AnnexB, CodecKind};

fn sc4() -> Vec<u8> {
    vec![0, 0, 0, 1]
}

fn has_pair(p: &[u8], pair: [u8; 2]) -> bool {
    p.windows(2).any(|w| w == pair)
}

#[test]
fn splits_access_units() {
    let mut ab = AnnexB::new(CodecKind::H264);
    let mut out = VecDeque::new();
    let mut stream = Vec::new();
    // SPS + PPS + IDR (VCL) => one packet
    stream.extend(sc4());
    stream.extend([0x67, 1, 2]); // SPS
    stream.extend(sc4());
    stream.extend([0x68, 3, 4]); // PPS
    stream.extend(sc4());
    stream.extend([0x65, 5, 6]); // IDR slice
    // Next frame: SEI + P slice
    stream.extend(sc4());
    stream.extend([0x06, 7]); // SEI
    stream.extend(sc4());
    stream.extend([0x41, 8, 9]); // P slice

    // Feed in two chunks to exercise buffering.
    let split = 11;
    ab.feed(&stream[..split], &mut out);
    assert_eq!(out.len(), 0, "no complete access unit yet");
    ab.feed(&stream[split..], &mut out);
    ab.finish(&mut out);
    assert_eq!(out.len(), 2, "two access units after finish");

    let first = &out[0];
    assert!(has_pair(first, [0x67, 1]), "SPS in first packet");
    assert!(has_pair(first, [0x68, 3]), "PPS in first packet");
    assert!(has_pair(first, [0x65, 5]), "IDR in first packet");
    assert!(has_pair(&out[1], [0x06, 7]), "SEI in second packet");
    assert!(has_pair(&out[1], [0x41, 8]), "P slice in second packet");
}

#[test]
fn handles_four_byte_and_three_byte_codes() {
    let mut ab = AnnexB::new(CodecKind::H264);
    let mut out = VecDeque::new();
    let mut stream = Vec::new();
    stream.extend(sc4());
    stream.extend([0x65, 1]);
    stream.extend([0, 0, 1]);
    stream.extend([0x41, 2]);
    ab.feed(&stream, &mut out);
    ab.finish(&mut out);
    assert_eq!(out.len(), 2);
}

#[test]
fn ignores_empty_tail() {
    let mut ab = AnnexB::new(CodecKind::H264);
    let mut out = VecDeque::new();
    ab.feed(&[0, 0, 0], &mut out);
    ab.finish(&mut out);
    assert!(out.is_empty());
}

fn two_frames() -> Vec<u8> {
    let mut stream = Vec::new();
    stream.extend(sc4());
    stream.extend([0x67, 1, 2]);
    stream.extend(sc4());
    stream.extend([0x65, 5, 6]);
    stream.extend(sc4());
    stream.extend([0x41, 8, 9]);
    stream
}

#[test]
fn packets_keep_their_start_codes() {
    let mut ab = AnnexB::new(CodecKind::H264);
    let mut out = VecDeque::new();
    ab.feed(&two_frames(), &mut out);
    ab.finish(&mut out);
    assert_eq!(out.len(), 2);
    assert_eq!(out[0], vec![0, 0, 0, 1, 0x67, 1, 2, 0, 0, 0, 1, 0x65, 5, 6]);
    assert_eq!(out[1], vec![0, 0, 0, 1, 0x41, 8, 9]);
}

#[test]
fn byte_by_byte_feeding_gives_the_same_packets() {
    let stream = two_frames();
    let mut whole = VecDeque::new();
    let mut ab = AnnexB::new(CodecKind::H264);
    ab.feed(&stream, &mut whole);
    ab.finish(&mut whole);

    let mut pieces = VecDeque::new();
    let mut ab = AnnexB::new(CodecKind::H264);
    for b in &stream {
        ab.feed(&[*b], &mut pieces);
    }
    ab.finish(&mut pieces);
    assert_eq!(whole, pieces);
}

#[test]
fn hevc_groups_parameter_sets_with_the_slice() {
    let mut ab = AnnexB::new(CodecKind::H265);
    let mut out = VecDeque::new();
    let mut stream = Vec::new();
    // VPS (32), SPS (33), PPS (34), IDR_W_RADL (19), TRAIL_R (1)
    stream.extend(sc4());
    stream.extend([0x40, 0x01, 7]);
    stream.extend(sc4());
    stream.extend([0x42, 0x01, 8]);
    stream.extend(sc4());
    stream.extend([0x44, 0x01, 9]);
    stream.extend(sc4());
    stream.extend([0x26, 0x01, 10]);
    stream.extend(sc4());
    stream.extend([0x02, 0x01, 11]);
    ab.feed(&stream, &mut out);
    ab.finish(&mut out);
    assert_eq!(out.len(), 2);
    assert!(has_pair(&out[0], [0x40, 0x01]));
    assert!(has_pair(&out[0], [0x26, 0x01]));
    assert!(has_pair(&out[1], [0x02, 0x01]));
}

#[test]
fn finish_starts_a_new_stream() {
    let mut ab = AnnexB::new(CodecKind::H264);
    let mut out = VecDeque::new();
    ab.feed(&two_frames(), &mut out);
    ab.finish(&mut out);
    let first_run = out.len();
    ab.feed(&two_frames(), &mut out);
    ab.finish(&mut out);
    assert_eq!(out.len(), 2 * first_run);
}

#[test]
fn no_start_code_gives_no_packet() {
    let mut ab = AnnexB::new(CodecKind::H264);
    let mut out = VecDeque::new();
    ab.feed(&[1, 2, 3, 4, 5], &mut out);
    ab.finish(&mut out);
    assert!(out.is_empty());
}

#[test]
fn joined_packets_are_the_framed_units() {
    let mut ab = AnnexB::new(CodecKind::H264);
    let mut out = VecDeque::new();
    let stream = two_frames();
    ab.feed(&stream, &mut out);
    ab.finish(&mut out);
    let joined: Vec<u8> = out.iter().flatten().copied().collect();
    assert_eq!(joined, stream);

    // Three-byte start codes come out as four-byte ones; trailing zeros go.
    let mut ab = AnnexB::new(CodecKind::H264);
    let mut out = VecDeque::new();
    ab.feed(&[0, 0, 1, 0x65, 7, 0, 0, 0, 1, 0x41, 9, 0, 0], &mut out);
    ab.finish(&mut out);
    let joined: Vec<u8> = out.iter().flatten().copied().collect();
    assert_eq!(joined, vec![0, 0, 0, 1, 0x65, 7, 0, 0, 0, 1, 0x41, 9]);
}

#[test]
fn every_cut_of_the_stream_gives_the_same_packets() {
    let stream = two_frames();
    let mut whole = VecDeque::new();
    let mut ab = AnnexB::new(CodecKind::H265);
    ab.feed(&stream, &mut whole);
    let before_finish = whole.len();
    ab.finish(&mut whole);
    for cut in 0..=stream.len() {
        let mut out = VecDeque::new();
        let mut ab = AnnexB::new(CodecKind::H265);
        ab.feed(&stream[..cut], &mut out);
        ab.feed(&stream[cut..], &mut out);
        assert_eq!(out.len(), before_finish);
        ab.finish(&mut out);
        assert_eq!(out, whole);
    }
}
