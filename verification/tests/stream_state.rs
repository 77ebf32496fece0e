use mmd_ffmpeg_encoder::frame::{buffer_size_fits, frame_geometry_fits};
use mmd_ffmpeg_encoder::frame::{fits_negotiated_buffer, fits_sample, output_buffer_size, tight_frame};
use mmd_ffmpeg_encoder::state::{Core, EosAction, FilterState, FormatInfo};

fn fmt(frame_dur: i64) -> FormatInfo {
    FormatInfo {
        width: 2,
        height: 2,
        bpp: 24,
        bottom_up: true,
        pix_fmt: "bgr24".to_string(),
        frame_dur,
    }
}

fn running_core() -> Core {
    let mut c = Core::new();
    c.fmt = Some(fmt(100));
    c.run();
    c
}

#[test]
fn new_core_is_stopped_and_empty() {
    let c = Core::new();
    assert!(!c.started);
    assert!(c.first_pkt);
    assert!(c.ts_queue.is_empty());
    assert_eq!(c.state, FilterState::Stopped);
    assert!(c.pending_frames.is_empty());
    assert!(!c.eos_pending && !c.eos_sent && !c.completed);
}

#[test]
fn samples_are_dropped_until_run_and_format() {
    let mut c = Core::new();
    assert_eq!(c.accept_sample(Some(5)), None);
    c.run();
    assert_eq!(c.accept_sample(Some(5)), None, "no format yet");
    assert!(c.ts_queue.is_empty());
    c.fmt = Some(fmt(100));
    assert_eq!(c.accept_sample(Some(5)), Some((2, 2, 24)));
    assert_eq!(c.ts_queue.iter().copied().collect::<Vec<_>>(), vec![5]);
}

#[test]
fn packets_take_frame_times_in_order() {
    let mut c = running_core();
    c.accept_sample(Some(1000));
    c.accept_sample(None); // one frame later
    c.accept_sample(Some(5000));
    assert_eq!(c.next_packet_times(), (1000, 1100, true));
    assert_eq!(c.next_packet_times(), (1100, 1200, false));
    assert_eq!(c.next_packet_times(), (5000, 5100, false));
    // Nothing queued: one frame after the last packet.
    assert_eq!(c.next_packet_times(), (5100, 5200, false));
}

#[test]
fn end_of_stream_is_forwarded_once() {
    let mut c = running_core();
    assert_eq!(c.end_of_stream(true), EosAction::Forward);
    assert!(c.completed);
    assert!(c.eos_needed());
    c.mark_eos_sent();
    assert!(!c.eos_needed());
    assert_eq!(c.end_of_stream(true), EosAction::Ignore);
    assert_eq!(c.end_of_stream(false), EosAction::Ignore);
    c.new_segment();
    assert_eq!(c.end_of_stream(true), EosAction::Forward);
}

#[test]
fn early_end_of_stream_waits_for_the_encoder() {
    let mut c = running_core();
    c.hold_frame(vec![1, 2, 3]);
    c.hold_frame(vec![4]);
    assert_eq!(c.end_of_stream(false), EosAction::Defer);
    assert!(c.eos_pending);
    let (frames, eos) = c.take_pending();
    assert_eq!(frames, vec![vec![1, 2, 3], vec![4]]);
    assert!(eos);
    assert!(c.pending_frames.is_empty());
    let (frames, eos) = c.take_pending();
    assert!(frames.is_empty());
    assert!(!eos);
}

#[test]
fn flush_and_stop_clear_the_stream() {
    let mut c = running_core();
    c.accept_sample(Some(7));
    c.next_packet_times();
    c.accept_sample(Some(8));
    c.hold_frame(vec![9]);
    c.end_of_stream(false);
    c.mark_eos_sent();
    c.begin_flush();
    assert!(c.ts_queue.is_empty() && c.first_pkt && c.pending_frames.is_empty());
    assert!(!c.eos_pending && !c.eos_sent);
    assert!(c.started);
    c.accept_sample(Some(8));
    c.pause();
    assert_eq!(c.state, FilterState::Paused);
    c.stop();
    assert!(!c.started && c.ts_queue.is_empty() && c.first_pkt);
    assert_eq!(c.state, FilterState::Stopped);
    assert!(c.completed, "stop keeps the completion flag for the clean-up");
}

#[test]
fn exact_frames_pass_unchanged() {
    let data: Vec<u8> = (0..12).collect();
    assert_eq!(tight_frame(&data, 2, 2, 24), data);
}

#[test]
fn padded_rows_lose_their_padding() {
    // 3 pixels of 24 bits: rows of 9 bytes padded to 12.
    let mut data = Vec::new();
    for y in 0..2u8 {
        for x in 0..12u8 {
            data.push(if x < 9 { y * 16 + x } else { 0xEE });
        }
    }
    let out = tight_frame(&data, 3, 2, 24);
    let mut expected = Vec::new();
    for y in 0..2u8 {
        for x in 0..9u8 {
            expected.push(y * 16 + x);
        }
    }
    assert_eq!(out, expected);
}

#[test]
fn short_samples_are_zero_filled_and_long_ones_cut() {
    assert_eq!(tight_frame(&[1, 2, 3], 2, 1, 16), vec![1, 2, 3, 0]);
    assert_eq!(tight_frame(&[1, 2, 3, 4, 5, 6], 1, 1, 32), vec![1, 2, 3, 4]);
    // Below 8 bits a pixel still takes one byte.
    assert_eq!(tight_frame(&[9, 9, 9], 2, 1, 4), vec![9, 9]);
}

#[test]
fn buffer_size_covers_frame_bitrate_and_minimum() {
    assert_eq!(output_buffer_size(320, 240, 24, 0), 230_400);
    assert_eq!(output_buffer_size(320, 240, 24, 708_332), 708_332);
    assert_eq!(output_buffer_size(16, 16, 24, 100), 65_536);
}

#[test]
fn packets_must_fit_the_buffers() {
    assert!(fits_negotiated_buffer(1000, 0));
    assert!(fits_negotiated_buffer(1000, 1000));
    assert!(!fits_negotiated_buffer(1001, 1000));
    assert!(fits_sample(10, 10));
    assert!(!fits_sample(11, 10));
    assert!(!fits_sample(0, -1));
}

#[test]
fn range_checks_before_arithmetic() {
    assert!(frame_geometry_fits(1920, 1080, 32));
    assert!(!frame_geometry_fits(-1, 1080, 32));
    assert!(!frame_geometry_fits(16, -2, 32));
    assert!(buffer_size_fits(1920, 1080, 32));
    assert!(!buffer_size_fits(65536, 65536, 24));
    assert!(!buffer_size_fits(30000, 30000, 24));

    let mut c = running_core();
    assert!(c.sample_time_fits(None));
    c.last_ts = i64::MAX - 50;
    assert!(!c.sample_time_fits(None));
    assert!(c.sample_time_fits(Some(0)));
    assert!(!c.packet_times_fit());
    c.accept_sample(Some(10));
    assert!(c.packet_times_fit());
}

/// The forwarding step the pins run: send if still needed, record it when
/// the peer accepted it.
fn forward_to_peer(c: &mut Core, peer_accepts: bool) -> bool {
    if !c.eos_needed() {
        return false;
    }
    if peer_accepts {
        c.mark_eos_sent();
    }
    peer_accepts
}

#[test]
fn peer_receives_end_of_stream_at_most_once() {
    let mut c = running_core();
    let mut received = 0;
    assert!(!forward_to_peer(&mut c, false), "a refused EndOfStream is not recorded");
    assert!(c.eos_needed());
    c.end_of_stream(true);
    received += forward_to_peer(&mut c, true) as i32;
    c.accept_sample(Some(10));
    c.next_packet_times();
    c.end_of_stream(true);
    received += forward_to_peer(&mut c, true) as i32;
    received += forward_to_peer(&mut c, true) as i32;
    assert_eq!(received, 1);
    assert!(!c.eos_needed());
}

#[test]
fn failed_start_stops_taking_frames() {
    let mut c = running_core();
    c.start_failed();
    assert!(!c.started);
    assert_eq!(c.state, FilterState::Running);
    assert_eq!(c.accept_sample(Some(5)), None);
}
