use browser_port::backend::{
    parse_decode_backend_preference, preferred_backend_order, select_backend_with,
    DecodeBackendKind, DecodeBackendPreference, Platform,
};
use browser_port::h264::H264Context;
use browser_port::nal::{
    annexb_contains_idr, annexb_contains_sps_or_pps, annexb_to_avcc, avcc_to_annexb,
    h264_nal_types, is_annexb, parse_avcc_record, split_annexb_nals, vt_prepare_sample_payload,
};

fn sample_avcc() -> Vec<u8> {
    let sps = [0x67, 0x42, 0x00, 0x1F];
    let pps = [0x68, 0xCE, 0x06, 0xE2];
    let mut avcc = vec![1, 0x42, 0x00, 0x1F, 0xFF, 0xE1];
    avcc.extend_from_slice(&(sps.len() as u16).to_be_bytes());
    avcc.extend_from_slice(&sps);
    avcc.push(1);
    avcc.extend_from_slice(&(pps.len() as u16).to_be_bytes());
    avcc.extend_from_slice(&pps);
    avcc
}

#[test]
fn annexb_input_passes_through() {
    let ctx = H264Context::default();
    let payload = vec![0, 0, 0, 1, 0x65, 0x88];
    let normalized = ctx
        .normalize_for_decode(&payload, true)
        .expect("annexb payload should be preserved");
    assert!(is_annexb(&normalized));
    assert_eq!(normalized, payload);
}

#[test]
fn avcc_payload_converts_to_annexb() {
    let payload = vec![0, 0, 0, 2, 0x65, 0x88, 0, 0, 0, 2, 0x41, 0x99];
    let converted = avcc_to_annexb(&payload, 4).expect("avcc convert");
    assert_eq!(
        converted,
        vec![0, 0, 0, 1, 0x65, 0x88, 0, 0, 0, 1, 0x41, 0x99]
    );
}

#[test]
fn avcc_record_parses_nal_length_and_parameter_sets() {
    let record = sample_avcc();
    let (nal_length_size, parameter_sets, sps, pps) =
        parse_avcc_record(&record).expect("valid avcc record");
    assert_eq!(nal_length_size, 4);
    assert_eq!(parameter_sets.len(), 2);
    assert_eq!(sps.len(), 1);
    assert_eq!(pps.len(), 1);
    assert_eq!(parameter_sets[0][0] & 0x1F, 7);
    assert_eq!(parameter_sets[1][0] & 0x1F, 8);
}

#[test]
fn keyframe_prepends_sps_pps_when_missing() {
    let mut ctx = H264Context::default();
    let record = sample_avcc();
    assert!(ctx.update_from_avcc_record(&record));

    let idr_only_avcc = vec![0, 0, 0, 2, 0x65, 0x88];
    let normalized = ctx
        .normalize_for_decode(&idr_only_avcc, true)
        .expect("normalized keyframe");
    assert!(annexb_contains_sps_or_pps(&normalized));
    assert!(normalized.ends_with(&[0, 0, 0, 1, 0x65, 0x88]));
}

#[test]
fn annexb_payload_converts_to_avcc() {
    let annexb = vec![0, 0, 0, 1, 0x65, 0x88, 0, 0, 1, 0x41, 0x99];
    let avcc = annexb_to_avcc(&annexb).expect("annexb convert");
    assert_eq!(avcc, vec![0, 0, 0, 2, 0x65, 0x88, 0, 0, 0, 2, 0x41, 0x99]);
}

#[test]
fn unknown_non_annexb_payload_is_not_normalized() {
    let ctx = H264Context::default();
    let payload = vec![0xAA, 0xBB, 0xCC, 0xDD, 0xEE];
    assert!(ctx.normalize_for_decode(&payload, false).is_none());
}

#[test]
fn invalid_avcc_payload_is_rejected() {
    let mut ctx = H264Context::default();
    ctx.nal_length_size = Some(4);
    let invalid = vec![0, 0, 0, 5, 0x65, 0x88];
    assert!(ctx.normalize_for_decode(&invalid, true).is_none());
}

#[test]
fn annexb_idr_detection_works() {
    let annexb_idr = vec![0, 0, 0, 1, 0x65, 0x88, 0, 0, 0, 1, 0x41, 0x99];
    assert!(annexb_contains_idr(&annexb_idr));
    let annexb_non_idr = vec![0, 0, 0, 1, 0x41, 0x88];
    assert!(!annexb_contains_idr(&annexb_non_idr));
}

#[test]
fn payload_idr_detection_supports_avcc() {
    let mut ctx = H264Context::default();
    ctx.nal_length_size = Some(4);
    let avcc_idr = vec![0, 0, 0, 2, 0x65, 0x88];
    assert!(ctx.payload_contains_idr(&avcc_idr));
    let avcc_non_idr = vec![0, 0, 0, 2, 0x41, 0x88];
    assert!(!ctx.payload_contains_idr(&avcc_non_idr));
}

#[test]
fn payload_parameter_set_detection_supports_avcc() {
    let mut ctx = H264Context::default();
    ctx.nal_length_size = Some(4);
    let avcc_sps = vec![0, 0, 0, 2, 0x67, 0x88];
    assert!(ctx.payload_contains_parameter_sets(&avcc_sps));
    let avcc_non_param = vec![0, 0, 0, 2, 0x41, 0x88];
    assert!(!ctx.payload_contains_parameter_sets(&avcc_non_param));
}

#[test]
fn nal_type_summary_supports_annexb_and_avcc() {
    let annexb = vec![0, 0, 0, 1, 0x67, 0x88, 0, 0, 0, 1, 0x65, 0x99];
    assert_eq!(h264_nal_types(&annexb, None), vec![7, 5]);
    let avcc = vec![0, 0, 0, 2, 0x67, 0x88, 0, 0, 0, 2, 0x65, 0x99];
    assert_eq!(h264_nal_types(&avcc, Some(4)), vec![7, 5]);
}

#[test]
fn vt_prepare_accepts_annexb() {
    let annexb = vec![0, 0, 0, 1, 0x65, 0x88];
    let avcc = vt_prepare_sample_payload(&annexb).expect("vt sample payload");
    assert_eq!(avcc, vec![0, 0, 0, 2, 0x65, 0x88]);
}

#[test]
fn vt_prepare_normalizes_two_byte_avcc_to_four_byte() {
    let two_byte_avcc = vec![0, 2, 0x65, 0x88];
    let normalized = vt_prepare_sample_payload(&two_byte_avcc).expect("vt sample payload");
    assert_eq!(normalized, vec![0, 0, 0, 2, 0x65, 0x88]);
}

#[test]
fn parse_decode_backend_switches() {
    assert_eq!(
        parse_decode_backend_preference("auto", Platform::Other),
        Some(DecodeBackendPreference::Auto)
    );
    assert_eq!(
        parse_decode_backend_preference("mf", Platform::Other),
        Some(DecodeBackendPreference::Mf)
    );
    assert_eq!(
        parse_decode_backend_preference("openh264", Platform::Other),
        Some(DecodeBackendPreference::OpenH264)
    );
    assert_eq!(parse_decode_backend_preference("unknown", Platform::Other), None);
}

#[test]
fn backend_order_for_auto_is_expected() {
    assert_eq!(
        preferred_backend_order(DecodeBackendPreference::Auto, Platform::Windows),
        vec![DecodeBackendKind::MfD3d11, DecodeBackendKind::OpenH264]
    );
    assert_eq!(
        preferred_backend_order(DecodeBackendPreference::Auto, Platform::MacOs),
        vec![DecodeBackendKind::VideoToolbox, DecodeBackendKind::OpenH264]
    );
    assert_eq!(
        preferred_backend_order(DecodeBackendPreference::Auto, Platform::Other),
        vec![DecodeBackendKind::OpenH264]
    );
}

#[test]
fn fallback_selects_openh264_when_mf_unavailable() {
    let selected = select_backend_with(DecodeBackendPreference::Auto, Platform::Windows, |backend| {
        backend == DecodeBackendKind::OpenH264
    });
    assert_eq!(selected, Some(DecodeBackendKind::OpenH264));
    let selected = select_backend_with(DecodeBackendPreference::Auto, Platform::Other, |backend| {
        backend == DecodeBackendKind::OpenH264
    });
    assert_eq!(selected, Some(DecodeBackendKind::OpenH264));
}

#[test]
fn annexb_units_are_ordered_slices_without_start_codes() {
    assert!(split_annexb_nals(&[0x67, 0x00, 0x00, 0x02, 0x01]).is_none());
    let stream = [0, 0, 1, 0x67, 0x42, 0, 0, 0, 1, 0x68, 0xCE, 0, 0, 1, 0, 0, 1, 0x65, 0x88];
    let units = split_annexb_nals(&stream).unwrap();
    assert_eq!(units, vec![vec![0x67, 0x42], vec![0x68, 0xCE], vec![0x65, 0x88]]);
    let mut from = 0;
    for unit in &units {
        let at = (from..=stream.len() - unit.len())
            .find(|&i| &stream[i..i + unit.len()] == unit.as_slice())
            .unwrap();
        assert!(!unit.windows(3).any(|w| w == [0, 0, 1]));
        from = at + unit.len() + 1;
    }
}
