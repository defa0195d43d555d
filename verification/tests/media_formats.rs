use browser_port::backend::{
    parse_decode_backend_preference, parse_env_bool, DecodeBackendKind, DecodeBackendPreference,
    FastpathState, OutputMode, Platform, SendPath,
};
use browser_port::bmp::encode_bmp;
use browser_port::chunk::{bgra_to_bgrx, deinterleave_audio, parse_binary_info, parse_chunk_header};
use browser_port::helper::{parse_helper_args, ArgErrorKind};
use browser_port::pixel::{
    choose_effective_output_size, nv12_to_bgra, scaled_coded_size, swap_red_blue, yuy2_to_bgra,
};
use browser_port::wide::{copy_wide_truncated, format_player_outputs, wide_null};

fn v1_chunk(msg_type: u8, flags: u8, player_id: u32, timestamp_us: u64, payload: &[u8]) -> Vec<u8> {
    let mut raw = vec![msg_type, 1, flags, 0];
    raw.extend_from_slice(&player_id.to_le_bytes());
    raw.extend_from_slice(&timestamp_us.to_le_bytes());
    raw.extend_from_slice(&(payload.len() as u32).to_le_bytes());
    raw.extend_from_slice(payload);
    raw
}

#[test]
fn version_one_chunk_reads_back() {
    let raw = v1_chunk(1, 1, 0xDEADBEEF, 0x0102_0304_0506_0708, &[9, 8, 7]);
    let info = parse_chunk_header(&raw).unwrap();
    assert_eq!(info.msg_type, 1);
    assert_eq!(info.flags, 1);
    assert_eq!(info.player_id, 0xDEADBEEF);
    assert_eq!(info.timestamp_us, 0x0102_0304_0506_0708);
    assert_eq!(info.payload, vec![9, 8, 7]);
    let mut longer = raw.clone();
    longer.extend_from_slice(&[1, 1]);
    assert_eq!(parse_chunk_header(&longer).unwrap().payload, vec![9, 8, 7]);
    let binary = parse_binary_info(&raw).unwrap();
    assert_eq!(binary.payload_len, 3);
    assert_eq!(binary.player_id, 0xDEADBEEF);
}

#[test]
fn version_one_chunk_cut_short_is_refused() {
    let raw = v1_chunk(1, 0, 1, 2, &[9, 8, 7]);
    assert!(parse_chunk_header(&raw[..22]).is_none());
    assert!(parse_chunk_header(&raw[..18]).is_none());
    assert!(parse_chunk_header(&raw[..15]).is_none());
    assert!(parse_binary_info(&raw[..22]).is_none());
}

#[test]
fn header_size_layout() {
    let mut raw = vec![2, 0x01 << 1, 18, 0];
    raw.extend_from_slice(&7u32.to_le_bytes());
    raw.extend_from_slice(&99u64.to_le_bytes());
    raw.extend_from_slice(&[0xEE, 0xEE, 5, 6, 7]);
    let info = parse_chunk_header(&raw).unwrap();
    assert_eq!(info.msg_type, 2);
    assert_eq!(info.flags, 2);
    assert_eq!(info.player_id, 7);
    assert_eq!(info.timestamp_us, 99);
    assert_eq!(info.payload, vec![5, 6, 7]);
    assert_eq!(parse_binary_info(&raw).unwrap().payload_len, 3);
    let mut small_header = raw.clone();
    small_header[2] = 15;
    assert!(parse_chunk_header(&small_header).is_none());
    let mut long_header = raw.clone();
    long_header[2] = 40;
    assert!(parse_binary_info(&long_header).is_none());
}

#[test]
fn audio_is_deinterleaved() {
    let mut payload = Vec::new();
    payload.extend_from_slice(&48_000u32.to_le_bytes());
    payload.extend_from_slice(&2u16.to_le_bytes());
    payload.extend_from_slice(&2u16.to_le_bytes());
    let samples: [f32; 4] = [0.5, -0.5, 0.25, -0.25];
    for s in samples {
        payload.extend_from_slice(&s.to_le_bytes());
    }
    let frame = deinterleave_audio(&payload).unwrap();
    assert_eq!(frame.sample_rate, 48_000);
    assert_eq!(frame.channels, 2);
    assert_eq!(frame.frame_count, 2);
    let planar: Vec<f32> = frame
        .planar
        .chunks_exact(4)
        .map(|b| f32::from_le_bytes([b[0], b[1], b[2], b[3]]))
        .collect();
    assert_eq!(planar, vec![0.5, 0.25, -0.5, -0.25]);
}

#[test]
fn audio_with_missing_samples_or_zero_fields_is_refused() {
    let mut payload = Vec::new();
    payload.extend_from_slice(&48_000u32.to_le_bytes());
    payload.extend_from_slice(&1u16.to_le_bytes());
    payload.extend_from_slice(&2u16.to_le_bytes());
    payload.extend_from_slice(&[0; 7]);
    assert!(deinterleave_audio(&payload).is_none());
    let mut zero_rate = payload.clone();
    zero_rate[0] = 0;
    zero_rate[1] = 0;
    assert!(deinterleave_audio(&zero_rate).is_none());
    assert!(deinterleave_audio(&[1, 2, 3]).is_none());
    payload.push(0);
    assert!(deinterleave_audio(&payload).is_some());
}

#[test]
fn bgrx_sets_alpha_of_whole_pixels() {
    assert_eq!(bgra_to_bgrx(&[1, 2, 3, 4, 5, 6, 7, 8, 9, 10]), vec![1, 2, 3, 255, 5, 6, 7, 255, 9, 10]);
}

#[test]
fn red_and_blue_swap() {
    let mut buf = vec![1, 2, 3, 4, 5, 6, 7, 8, 9];
    swap_red_blue(&mut buf);
    assert_eq!(buf, vec![3, 2, 1, 4, 7, 6, 5, 8, 9]);
}

#[test]
fn env_switches() {
    assert_eq!(parse_env_bool(" TRUE "), Some(true));
    assert_eq!(parse_env_bool("1"), Some(true));
    assert_eq!(parse_env_bool("Yes"), Some(true));
    assert_eq!(parse_env_bool("on"), Some(true));
    assert_eq!(parse_env_bool("0"), Some(false));
    assert_eq!(parse_env_bool("False"), Some(false));
    assert_eq!(parse_env_bool("\tno\n"), Some(false));
    assert_eq!(parse_env_bool("OFF"), Some(false));
    assert_eq!(parse_env_bool("maybe"), None);
    assert_eq!(parse_env_bool(""), None);
    assert_eq!(parse_env_bool("\u{3000}on\u{3000}"), Some(true));
}

#[test]
fn decode_preference_switches_per_platform() {
    assert_eq!(
        parse_decode_backend_preference("  OpenH264 ", Platform::Windows),
        Some(DecodeBackendPreference::OpenH264)
    );
    assert_eq!(parse_decode_backend_preference("vt", Platform::Other), None);
    assert_eq!(
        parse_decode_backend_preference("VT", Platform::MacOs),
        Some(DecodeBackendPreference::VideoToolbox)
    );
    assert_eq!(
        parse_decode_backend_preference("videotoolbox", Platform::MacOs),
        Some(DecodeBackendPreference::VideoToolbox)
    );
}

#[test]
fn preference_names_parse_back() {
    for platform in [Platform::MacOs, Platform::Windows, Platform::Other] {
        for preference in [
            DecodeBackendPreference::Auto,
            DecodeBackendPreference::Mf,
            DecodeBackendPreference::OpenH264,
        ] {
            assert_eq!(parse_decode_backend_preference(preference.as_str(), platform), Some(preference));
        }
    }
    assert_eq!(
        parse_decode_backend_preference(DecodeBackendPreference::VideoToolbox.as_str(), Platform::MacOs),
        Some(DecodeBackendPreference::VideoToolbox)
    );
    for mode in [OutputMode::Spout, OutputMode::Syphon, OutputMode::Ndi] {
        assert_eq!(OutputMode::parse(mode.as_str()), Some(mode));
    }
}

#[test]
fn names_on_the_wire() {
    assert_eq!(OutputMode::Spout.as_str(), "spout");
    assert_eq!(OutputMode::parse("syphon"), Some(OutputMode::Syphon));
    assert_eq!(OutputMode::parse("NDI"), None);
    assert_eq!(DecodeBackendPreference::VideoToolbox.as_str(), "videotoolbox");
    assert_eq!(DecodeBackendKind::MfD3d11.as_str(), "mf-d3d11");
    assert_eq!(SendPath::NoPath.as_str(), "none");
    assert_eq!(SendPath::SyphonMetalTexture.as_str(), "syphon-metal-texture");
    assert_eq!(FastpathState::BgraFallback.as_str(), "bgra-fallback");
}

fn args(list: &[&str]) -> Vec<String> {
    list.iter().map(|s| s.to_string()).collect()
}

#[test]
fn helper_command_lines() {
    assert!(matches!(parse_helper_args(&args(&[])), Ok(None)));
    assert!(matches!(parse_helper_args(&args(&["serve"])), Ok(None)));
    let parsed = parse_helper_args(&args(&["output-helper", "--mode", "ndi"])).ok().unwrap().unwrap();
    assert_eq!(parsed.mode, OutputMode::Ndi);
    assert_eq!(parsed.ws_url, "ws://127.0.0.1:9876");
    let parsed = parse_helper_args(&args(&[
        "output-helper", "--mode", "spout", "--ws", "ws://127.0.0.1:1844", "--parent-pid", "42",
    ]))
    .ok()
    .unwrap()
    .unwrap();
    assert_eq!(parsed.mode, OutputMode::Spout);
    assert_eq!(parsed.ws_url, "ws://127.0.0.1:1844");
    let err = parse_helper_args(&args(&["output-helper", "--mode"])).err().unwrap();
    assert_eq!(err.kind, ArgErrorKind::MissingValue);
    assert_eq!(err.subject, "--mode");
    let err = parse_helper_args(&args(&["output-helper", "--mode", "hdmi"])).err().unwrap();
    assert_eq!(err.kind, ArgErrorKind::InvalidMode);
    assert_eq!(err.subject, "hdmi");
    let err = parse_helper_args(&args(&["output-helper", "--fps", "60"])).err().unwrap();
    assert_eq!(err.kind, ArgErrorKind::UnsupportedArgument);
    assert_eq!(err.subject, "--fps");
    let err = parse_helper_args(&args(&["output-helper", "--ws", "ws://x"])).err().unwrap();
    assert_eq!(err.kind, ArgErrorKind::ModeRequired);
}

#[test]
fn bmp_layout() {
    let bgra = vec![
        1, 2, 3, 255, 4, 5, 6, 255, // top row
        7, 8, 9, 255, 10, 11, 12, 255, // bottom row
    ];
    let bmp = encode_bmp(&bgra, 2, 2);
    assert_eq!(bmp.len(), 54 + 8 * 2);
    assert_eq!(&bmp[0..2], b"BM");
    assert_eq!(u32::from_le_bytes([bmp[2], bmp[3], bmp[4], bmp[5]]), 70);
    assert_eq!(u32::from_le_bytes([bmp[10], bmp[11], bmp[12], bmp[13]]), 54);
    assert_eq!(u32::from_le_bytes([bmp[18], bmp[19], bmp[20], bmp[21]]), 2);
    assert_eq!(u16::from_le_bytes([bmp[28], bmp[29]]), 24);
    assert_eq!(u32::from_le_bytes([bmp[34], bmp[35], bmp[36], bmp[37]]), 16);
    assert_eq!(&bmp[54..62], &[7, 8, 9, 10, 11, 12, 0, 0]);
    assert_eq!(&bmp[62..70], &[1, 2, 3, 4, 5, 6, 0, 0]);
}

#[test]
fn wide_strings() {
    assert_eq!(wide_null("Ab"), vec![0x41, 0x62, 0]);
    assert_eq!(wide_null("\u{1F600}"), vec![0xD83D, 0xDE00, 0]);
    assert_eq!(wide_null("é"), "é".encode_utf16().chain(std::iter::once(0)).collect::<Vec<u16>>());
    let mut buffer = [7u16; 5];
    copy_wide_truncated(&mut buffer, "BrowserPort");
    assert_eq!(buffer, [0x42, 0x72, 0x6F, 0x77, 0]);
    let mut roomy = [7u16; 6];
    copy_wide_truncated(&mut roomy, "ab");
    assert_eq!(roomy, [0x61, 0x62, 7, 7, 7, 0]);
    let mut empty: [u16; 0] = [];
    copy_wide_truncated(&mut empty, "ab");
}

#[test]
fn player_output_summary() {
    assert_eq!(format_player_outputs(None, None, true, true), "NDI Syphon");
    assert_eq!(format_player_outputs(Some(false), None, true, true), "Syphon");
    assert_eq!(format_player_outputs(None, Some(false), true, false), "NDI");
    assert_eq!(format_player_outputs(Some(false), Some(false), true, true), "");
    assert_eq!(format_player_outputs(Some(true), None, false, false), "NDI");
}

#[test]
fn nv12_converts_bt601() {
    let y_plane = [16u8, 235, 81, 145];
    let uv_plane = [90u8, 240];
    let mut out = vec![7u8; 18];
    nv12_to_bgra(&y_plane, &uv_plane, 2, 2, 2, &mut out);
    assert_eq!(
        &out[..16],
        &[0, 0, 179, 255, 178, 179, 255, 255, 0, 0, 255, 255, 74, 74, 255, 255]
    );
    assert_eq!(&out[16..], &[7, 7]);
}

#[test]
fn yuy2_converts_bt601_with_odd_width() {
    let src = [50u8, 200, 180, 60, 100, 128, 0, 128];
    let mut out = vec![0u8; 12];
    yuy2_to_bgra(&src, 8, 3, 1, &mut out);
    assert_eq!(out, vec![185, 67, 0, 255, 255, 218, 82, 255, 98, 98, 98, 255]);
}

#[test]
fn effective_output_size_crops_to_even() {
    let full = choose_effective_output_size(1920, 1088, 0, 1080);
    assert_eq!((full.width, full.height, full.crop_applied), (1920, 1088, false));
    let cropped = choose_effective_output_size(1920, 1088, 1920, 1080);
    assert_eq!((cropped.width, cropped.height, cropped.crop_applied), (1920, 1080, true));
    let odd = choose_effective_output_size(641, 480, 641, 481);
    assert_eq!((odd.width, odd.height, odd.crop_applied), (640, 480, true));
    let tiny = choose_effective_output_size(1, 1, 5, 5);
    assert_eq!((tiny.width, tiny.height, tiny.crop_applied), (2, 2, false));
}

#[test]
fn scaled_coded_size_steps() {
    assert_eq!(scaled_coded_size(1920, 1080, 100), (1920, 1080));
    assert_eq!(scaled_coded_size(1920, 1080, 75), (1440, 810));
    assert_eq!(scaled_coded_size(1921, 1081, 30), (576, 324));
    assert_eq!(scaled_coded_size(20, 20, 30), (16, 16));
}

#[test]
fn start_mode_switches() {
    use_start_mode();
}

fn use_start_mode() {
    use_start_mode_cases(&[
        (None, None, Platform::Windows, true),
        (None, None, Platform::MacOs, true),
        (None, None, Platform::Other, false),
        (Some("true"), None, Platform::Windows, false),
        (Some("true"), Some("true"), Platform::MacOs, false),
        (Some("no"), Some("1"), Platform::Other, true),
        (Some("maybe"), Some("off"), Platform::Windows, true),
        (None, Some("yes"), Platform::Other, true),
    ]);
}

fn use_start_mode_cases(cases: &[(Option<&str>, Option<&str>, Platform, bool)]) {
    for (headless, tray, platform, expected) in cases {
        assert_eq!(
            browser_port::backend::should_launch_menu_bar_app(*headless, *tray, *platform),
            *expected
        );
    }
}
