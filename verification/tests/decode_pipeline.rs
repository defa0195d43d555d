use browser_port::backend::{
    DecodeBackendKind, DecodeBackendPreference, FastpathState, Platform, SendPath,
};
use browser_port::decoder::{DecodeFinish, DecoderCore, SendOutcome};
use browser_port::helper::{
    build_decoder_config_fingerprint, codec_supported, enqueue_video_chunk, fingerprint_size,
    read_config_message, ChunkQueue, PendingVideoChunk,
};

const IDR_ANNEXB: [u8; 6] = [0, 0, 0, 1, 0x65, 0x88];
const P_ANNEXB: [u8; 6] = [0, 0, 0, 1, 0x41, 0x88];

fn new_core(platform: Platform, fastpath: bool) -> DecoderCore {
    DecoderCore::new(DecodeBackendPreference::Auto, platform, fastpath, 30, false, 0)
}

fn texture_send() -> SendOutcome {
    SendOutcome { sent: true, path: SendPath::Texture, texture_attempted: true, texture_failed: false }
}

#[test]
fn waits_for_keyframe_then_admits() {
    let mut c = new_core(Platform::Other, false);
    let first = c.begin_decode(&P_ANNEXB, false, 0, 0);
    assert!(!first.admitted);
    assert!(first.normalized.is_none());
    assert_eq!(c.video_chunks_dropped, 1);
    let second = c.begin_decode(&IDR_ANNEXB, false, 33_000, 33_000);
    assert!(second.admitted);
    assert!(second.effective_keyframe);
    assert_eq!(second.normalized, Some(IDR_ANNEXB.to_vec()));
    assert!(!c.needs_keyframe);
    let third = c.begin_decode(&P_ANNEXB, false, 66_000, 66_000);
    assert!(third.admitted && !third.effective_keyframe);
}

#[test]
fn flagged_keyframe_is_admitted() {
    let mut c = new_core(Platform::Other, false);
    let admission = c.begin_decode(&P_ANNEXB, true, 0, 0);
    assert!(admission.admitted && admission.effective_keyframe);
}

#[test]
fn decoder_start_and_frame() {
    let mut c = new_core(Platform::Other, false);
    assert_eq!(c.decoder_candidates(), Some(vec![DecodeBackendKind::OpenH264]));
    assert!(!c.decoder_started(Some(DecodeBackendKind::MfD3d11)));
    assert!(c.needs_keyframe);
    assert!(c.decoder_started(Some(DecodeBackendKind::OpenH264)));
    assert_eq!(c.active_backend, Some(DecodeBackendKind::OpenH264));
    assert_eq!(c.decoder_candidates(), None);
    let admission = c.begin_decode(&IDR_ANNEXB, true, 0, 0);
    let inputs = c.decode_inputs(&IDR_ANNEXB, admission.normalized).unwrap();
    assert_eq!(inputs, vec![IDR_ANNEXB.to_vec()]);
    assert_eq!(c.finish_decode(true, 0), DecodeFinish::Frame { first: true });
    assert_eq!(c.finish_decode(true, 0), DecodeFinish::Frame { first: false });
    assert_eq!(c.video_frames_out, 2);
}

#[test]
fn software_decoder_without_annexb_waits_for_keyframe() {
    let mut c = new_core(Platform::Other, false);
    assert!(c.decoder_started(Some(DecodeBackendKind::OpenH264)));
    c.needs_keyframe = false;
    assert_eq!(c.decode_inputs(&[0xAA, 0xBB], None), None);
    assert!(c.needs_keyframe);
}

#[test]
fn media_foundation_tries_chunk_then_annexb() {
    let mut c = new_core(Platform::Windows, false);
    assert!(c.decoder_started(Some(DecodeBackendKind::MfD3d11)));
    let avcc = vec![0, 0, 0, 2, 0x65, 0x88];
    let inputs = c.decode_inputs(&avcc, Some(IDR_ANNEXB.to_vec())).unwrap();
    assert_eq!(inputs, vec![avcc.clone(), IDR_ANNEXB.to_vec()]);
    let same = c.decode_inputs(&IDR_ANNEXB, Some(IDR_ANNEXB.to_vec())).unwrap();
    assert_eq!(same, vec![IDR_ANNEXB.to_vec()]);
}

#[test]
fn software_stall_waits_for_keyframe_after_threshold() {
    let mut c = new_core(Platform::Other, false);
    assert!(c.decoder_started(Some(DecodeBackendKind::OpenH264)));
    c.needs_keyframe = false;
    for _ in 0..44 {
        assert_eq!(c.finish_decode(false, 0), DecodeFinish::Empty);
    }
    assert!(!c.needs_keyframe);
    assert_eq!(c.finish_decode(false, 0), DecodeFinish::Empty);
    assert!(c.needs_keyframe);
    assert_eq!(c.consecutive_empty_decodes, 45);
}

#[test]
fn videotoolbox_stall_hands_over_to_software() {
    let mut c = new_core(Platform::MacOs, false);
    assert!(c.decoder_started(Some(DecodeBackendKind::VideoToolbox)));
    c.needs_keyframe = false;
    for _ in 0..59 {
        assert_eq!(c.finish_decode(false, 0), DecodeFinish::Empty);
    }
    assert_eq!(c.finish_decode(false, 0), DecodeFinish::DecoderDropped);
    assert_eq!(c.active_backend, None);
    assert_eq!(c.decode_preference, DecodeBackendPreference::OpenH264);
    assert_eq!(c.decoder_candidates(), Some(vec![DecodeBackendKind::OpenH264]));
}

#[test]
fn videotoolbox_stall_kept_when_handover_disabled() {
    let mut c = DecoderCore::new(DecodeBackendPreference::Auto, Platform::MacOs, false, 30, true, 0);
    assert!(c.decoder_started(Some(DecodeBackendKind::VideoToolbox)));
    for _ in 0..80 {
        assert_eq!(c.finish_decode(false, 0), DecodeFinish::Empty);
    }
    assert_eq!(c.active_backend, Some(DecodeBackendKind::VideoToolbox));
}

#[test]
fn media_foundation_decode_stall_leaves_texture_path() {
    let mut c = new_core(Platform::Windows, true);
    assert!(c.decoder_started(Some(DecodeBackendKind::MfD3d11)));
    for _ in 0..23 {
        assert_eq!(c.finish_decode(false, 500), DecodeFinish::Empty);
    }
    assert_eq!(c.finish_decode(false, 500), DecodeFinish::DecoderDropped);
    assert_eq!(c.fastpath_state, FastpathState::BgraFallback);
    assert!(!c.texture_fastpath_enabled);
    assert_eq!(c.fastpath_retry_after_us, Some(3_000_500));
    assert_eq!(c.fastpath_fallback_count, 1);
}

#[test]
fn fastpath_falls_back_after_slow_sends_and_recovers() {
    let mut c = new_core(Platform::Windows, true);
    let slow = 22_000;
    for _ in 0..7 {
        c.observe_send(texture_send(), slow, 1_000);
        assert_eq!(c.fastpath_state, FastpathState::Texture);
    }
    c.observe_send(texture_send(), slow, 1_000);
    assert_eq!(c.fastpath_state, FastpathState::BgraFallback);
    assert_eq!(c.fastpath_retry_after_us, Some(3_001_000));
    c.maybe_retry_fastpath(3_000_999);
    assert_eq!(c.fastpath_state, FastpathState::BgraFallback);
    c.maybe_retry_fastpath(3_001_000);
    assert_eq!(c.fastpath_state, FastpathState::Retrying);
    assert!(c.texture_fastpath_enabled);
    for _ in 0..5 {
        c.observe_send(texture_send(), 1_000, 4_000_000);
        assert_eq!(c.fastpath_state, FastpathState::Retrying);
    }
    c.observe_send(texture_send(), 1_000, 4_000_000);
    assert_eq!(c.fastpath_state, FastpathState::Texture);
    assert_eq!(c.fastpath_recover_count, 1);
}

#[test]
fn fastpath_failed_texture_send_falls_back_at_once() {
    let mut c = new_core(Platform::Windows, true);
    let failed = SendOutcome { sent: false, path: SendPath::Bgra, texture_attempted: true, texture_failed: true };
    c.observe_send(failed, 0, 10);
    assert_eq!(c.fastpath_state, FastpathState::BgraFallback);
}

#[test]
fn fast_sends_reset_the_slow_streak() {
    let mut c = new_core(Platform::Windows, true);
    for _ in 0..7 {
        c.observe_send(texture_send(), 30_000, 0);
    }
    c.observe_send(texture_send(), 1_000, 0);
    assert_eq!(c.fastpath_high_send_streak, 0);
    assert_eq!(c.fastpath_state, FastpathState::Texture);
}

#[test]
fn send_window_reports_texture_share() {
    let mut c = new_core(Platform::Windows, false);
    assert_eq!(c.observe_send(texture_send(), 0, 100), None);
    let bgra = SendOutcome { sent: true, path: SendPath::Bgra, texture_attempted: false, texture_failed: false };
    assert_eq!(c.observe_send(bgra, 0, 200), None);
    assert_eq!(c.observe_send(texture_send(), 0, 1_000_000), Some((2, 3)));
    assert_eq!(c.send_window_total, 0);
    let unsent = SendOutcome { sent: false, path: SendPath::NoPath, texture_attempted: false, texture_failed: false };
    assert_eq!(c.observe_send(unsent, 0, 5_000_000), None);
}

#[test]
fn stream_latency_anchors_and_reanchors() {
    let mut c = new_core(Platform::Other, false);
    assert_eq!(c.estimate_stream_latency_us(1_000_000, 50), 0);
    assert_eq!(c.stream_time_anchor, Some((50, 1_000_000)));
    assert_eq!(c.estimate_stream_latency_us(1_100_000, 200_050), 100_000);
    assert_eq!(c.estimate_stream_latency_us(1_300_000, 250_050), -50_000);
    assert_eq!(c.estimate_stream_latency_us(900_000, 300_000), 0);
    assert_eq!(c.stream_time_anchor, Some((50, 1_000_000)));
    assert_eq!(c.estimate_stream_latency_us(2_000_000, 300_000), 0);
    assert_eq!(c.stream_time_anchor, Some((300_000, 2_000_000)));
}

#[test]
fn catchup_turns_on_when_late_and_off_when_caught_up() {
    let mut c = new_core(Platform::Other, false);
    c.needs_keyframe = false;
    c.begin_decode(&P_ANNEXB, false, 0, 0);
    c.begin_decode(&P_ANNEXB, false, 1_000, 200_000);
    assert!(c.catchup_active);
    c.begin_decode(&P_ANNEXB, false, 150_000, 200_000);
    assert!(!c.catchup_active);
}

#[test]
fn backlog_and_idle() {
    let mut c = new_core(Platform::Other, false);
    c.observe_chunk_received(10);
    c.observe_chunk_received(20);
    c.observe_chunk_received(30);
    assert_eq!(c.pending_backlog(), 3);
    assert!(!c.observe_pipeline_drop(0, true));
    assert!(!c.observe_pipeline_drop(1, false));
    assert_eq!(c.pending_backlog(), 2);
    assert!(c.observe_pipeline_drop(5, true));
    assert_eq!(c.pending_backlog(), 0);
    assert!(c.needs_keyframe);
    assert!(!c.is_idle(4_999_999 + 30));
    assert!(c.is_idle(5_000_030));
}

#[test]
fn desired_scale_steps() {
    let mut c = new_core(Platform::Other, false);
    assert_eq!(c.desired_scale_percent(5_000), 100);
    assert_eq!(c.desired_scale_percent(12_000), 75);
    c.output_scale_percent = 75;
    assert_eq!(c.desired_scale_percent(15_000), 30);
    assert_eq!(c.desired_scale_percent(5_000), 100);
    assert_eq!(c.desired_scale_percent(7_000), 75);
    c.output_scale_percent = 30;
    assert_eq!(c.desired_scale_percent(7_000), 75);
    assert_eq!(c.desired_scale_percent(9_000), 30);
}

#[test]
fn frame_statistics_are_sampled() {
    let mut c = DecoderCore::new(DecodeBackendPreference::Auto, Platform::Other, false, 3, false, 0);
    assert!(!c.frame_stats_due(false));
    assert!(!c.frame_stats_due(true));
    assert!(!c.frame_stats_due(true));
    assert!(c.frame_stats_due(true));
    let mut every = DecoderCore::new(DecodeBackendPreference::Auto, Platform::Other, false, 0, false, 0);
    assert!(every.frame_stats_due(true));
}

#[test]
fn coded_size_and_target() {
    let mut c = new_core(Platform::Other, false);
    assert_eq!(c.set_coded_size(Some(1920), Some(1080)), None);
    assert!(c.decoder_started(Some(DecodeBackendKind::OpenH264)));
    assert_eq!(c.set_coded_size(Some(1280), Some(720)), Some((1280, 720)));
    c.output_scale_percent = 75;
    assert_eq!(c.target_size(), Some((1280, 720)));
    assert_eq!(c.output_scale_percent, 100);
    assert_eq!(c.set_coded_size(None, Some(720)), None);
    assert_eq!(c.target_size(), None);
}

fn sample_avcc_b64() -> String {
    // 01 42 00 1F FF E1 | 00 04 67 42 00 1F | 01 | 00 04 68 CE 06 E2
    "AUIAH//hAARnQgAfAQAEaM4G4g==".to_string()
}

#[test]
fn config_with_record_replaces_parameter_sets() {
    let mut c = new_core(Platform::Other, false);
    assert!(c.decoder_started(Some(DecodeBackendKind::OpenH264)));
    let b64 = sample_avcc_b64();
    let outcome = c.apply_config(Some(640), Some(480), Some(&b64), 11, 1_000);
    assert!(outcome.reset);
    assert_eq!(outcome.expected_size, Some((640, 480)));
    assert_eq!(c.active_backend, None);
    assert_eq!(c.h264.nal_length_size, Some(4));
    assert_eq!(c.h264.parameter_sets.len(), 2);
    assert_eq!(c.last_config_fingerprint, Some(11));
    let again = c.apply_config(Some(640), Some(480), Some(&b64), 11, 2_000);
    assert!(!again.reset);
    assert_eq!(c.last_chunk_received_us, Some(2_000));
}

#[test]
fn config_with_bad_record_clears_and_without_record_keeps() {
    let mut c = new_core(Platform::Other, false);
    let b64 = sample_avcc_b64();
    c.apply_config(None, None, Some(&b64), 1, 0);
    assert_eq!(c.h264.nal_length_size, Some(4));
    c.apply_config(None, None, None, 2, 0);
    assert_eq!(c.h264.nal_length_size, Some(4));
    c.apply_config(Some(0), None, Some("not base64!"), 3, 0);
    assert_eq!(c.h264.nal_length_size, None);
    assert!(c.h264.parameter_sets.is_empty());
    assert_eq!(c.coded_width, None);
    c.apply_config(None, None, Some(&b64), 4, 0);
    c.apply_config(None, None, Some(""), 5, 0);
    assert_eq!(c.h264.nal_length_size, None);
}

#[test]
fn base64_record_reaches_the_h264_context() {
    let mut c = new_core(Platform::Other, false);
    assert!(c.update_avcc_from_base64(&sample_avcc_b64()));
    assert_eq!(c.h264.parameter_sets[0], vec![0x67, 0x42, 0x00, 0x1F]);
    assert_eq!(c.h264.parameter_sets[1], vec![0x68, 0xCE, 0x06, 0xE2]);
    assert!(!c.update_avcc_from_base64("AAAA"));
    assert_eq!(c.h264.nal_length_size, Some(4));
    c.clear_avcc();
    assert_eq!(c.h264.nal_length_size, None);
}

#[test]
fn codec_names() {
    assert!(codec_supported(""));
    assert!(codec_supported("avc1.42E01F"));
    assert!(codec_supported("AVC1.64001F"));
    assert!(codec_supported("h264"));
    assert!(!codec_supported("H264"));
    assert!(!codec_supported("vp09.00.10.08"));
    assert!(!codec_supported("av01"));
}

#[test]
fn queue_keeps_the_newest_four() {
    let mut c = new_core(Platform::Other, false);
    let mut q = ChunkQueue::new();
    for i in 0..4u64 {
        let flush = enqueue_video_chunk(
            &mut c,
            &mut q,
            PendingVideoChunk { payload: vec![i as u8], keyframe: false, timestamp_us: i },
            i,
        );
        assert!(!flush);
    }
    assert_eq!(q.len(), 4);
    c.needs_keyframe = false;
    let flush = enqueue_video_chunk(
        &mut c,
        &mut q,
        PendingVideoChunk { payload: vec![9], keyframe: true, timestamp_us: 9 },
        9,
    );
    assert!(flush);
    assert!(c.needs_keyframe);
    assert_eq!(c.video_chunks_dropped, 1);
    assert_eq!(c.video_chunks_in, 5);
    let first = q.pop_front().unwrap();
    assert_eq!(first.payload, vec![1]);
    assert_eq!(q.len(), 3);
    q.pop_front();
    q.pop_front();
    let last = q.pop_front().unwrap();
    assert_eq!(last.payload, vec![9]);
    assert!(q.pop_front().is_none());
    assert!(q.is_empty());
}

#[test]
fn fingerprint_changes_with_configuration() {
    let a = build_decoder_config_fingerprint(Some(640), Some(480), Some("abc"));
    let b = build_decoder_config_fingerprint(Some(640), Some(480), Some("abc"));
    let c = build_decoder_config_fingerprint(Some(640), Some(480), Some("abd"));
    assert_eq!(a, b);
    assert_ne!(a, c);
}

#[test]
fn fingerprint_without_record_matches_empty_record() {
    let none = build_decoder_config_fingerprint(Some(1920), None, None);
    let empty = build_decoder_config_fingerprint(Some(1920), None, Some(""));
    let other = build_decoder_config_fingerprint(None, Some(1920), None);
    assert_eq!(none, empty);
    assert_ne!(none, other);
}

#[test]
fn software_decoder_ignores_garbage() {
    use_software_decoder();
}

fn use_software_decoder() {
    let mut decoder = browser_port::software::OpenH264Decoder::new().expect("openh264 decoder");
    assert_eq!(decoder.backend_kind(), DecodeBackendKind::OpenH264);
    let mut frame = browser_port::software::DecodedFrame::empty();
    frame.width = 3;
    let produced = decoder.decode_into(&[0, 0, 0, 1, 0x41, 0x9A, 0x00], &mut frame);
    assert!(!produced);
    assert_eq!(frame.width, 3);
    assert!(frame.bgra.is_empty());
}

#[test]
fn frame_from_rgba_swaps_channels() {
    let frame = browser_port::software::frame_from_rgba(1, 1, vec![10, 20, 30, 40]);
    assert_eq!((frame.width, frame.height), (1, 1));
    assert_eq!(frame.bgra, vec![30, 20, 10, 40]);
}

#[test]
fn config_messages_are_read_from_text() {
    let m = read_config_message(
        r#"{"type":"config","playerId":5,"codec":"avc1.64001f","codedWidth":1280,"codedHeight":720,"description":"AQID"}"#,
    )
    .unwrap();
    assert_eq!(m.player_id, 5);
    assert_eq!(m.codec, "avc1.64001f");
    assert_eq!((m.coded_width, m.coded_height), (Some(1280), Some(720)));
    assert_eq!(m.description.as_deref(), Some("AQID"));
    let m = read_config_message(r#"{"type":"config","playerId":6,"codedWidth":"wide"}"#).unwrap();
    assert_eq!(m.codec, "");
    assert_eq!(m.coded_width, None);
    assert!(read_config_message(r#"{"type":"status","playerId":5}"#).is_none());
    assert!(read_config_message(r#"{"type":"config","playerId":4294967296}"#).is_none());
    assert!(read_config_message(r#"{"type":"config"}"#).is_none());
    assert!(read_config_message("config").is_none());
    assert_eq!(fingerprint_size(Some(0)), None);
    assert_eq!(fingerprint_size(Some(640)), Some(640));
    assert_eq!(fingerprint_size(None), None);
}
