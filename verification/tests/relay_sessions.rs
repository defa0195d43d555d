use browser_port::backend::{OutputMode, Platform};
use browser_port::outputs::{
    handle_browser_port_control, handle_control_text, spout_helper_healthy, spout_helper_stalled,
    ControlAction,
    OutputTargets, SpoutWatchdog, StreamActivity, WatchdogAction,
};
use browser_port::relay::{role_name, RelayRoutes, Role};
use browser_port::stream::{browser_port_stats, update_decode_backend, StreamState};
use browser_port::session::{
    accept_binary_message, handle_text_message, parse_hello, parse_hello_text, route_text_message,
    ExtensionMessage, HelloInput, RelayError, TextAction,
};
use std::collections::HashMap;

fn hello(msg_type: &str, version: Option<i64>, role: Option<&str>) -> HelloInput {
    HelloInput::Json {
        msg_type: Some(msg_type.to_string()),
        protocol_version: version,
        role: role.map(|r| r.to_string()),
        source: Some("tab".to_string()),
    }
}

#[test]
fn hello_accepts_extension_and_client_roles() {
    let info = parse_hello(hello("hello", Some(1), Some("browser-port-extension"))).ok().unwrap();
    assert_eq!(info.role, Role::BrowserPortExtension);
    assert_eq!(info.source.as_deref(), Some("tab"));
    let info = parse_hello(hello("hello", Some(1), Some("client"))).ok().unwrap();
    assert_eq!(info.role, Role::Client);
}

#[test]
fn hello_errors_have_their_codes() {
    let cases = vec![
        (HelloInput::ReadFailed, "E_HANDSHAKE_READ"),
        (HelloInput::Closed, "E_HANDSHAKE_CLOSED"),
        (HelloInput::TimedOut, "E_HANDSHAKE_TIMEOUT"),
        (HelloInput::NotText, "E_HANDSHAKE_TYPE"),
        (HelloInput::InvalidJson, "E_HANDSHAKE_JSON"),
        (hello("ping", Some(1), Some("client")), "E_HANDSHAKE_MISSING"),
        (hello("hello", Some(2), Some("client")), "E_PROTOCOL_VERSION"),
        (hello("hello", None, Some("client")), "E_PROTOCOL_VERSION"),
        (hello("hello", Some(1), Some("viewer")), "E_HANDSHAKE_ROLE"),
        (hello("hello", Some(1), None), "E_HANDSHAKE_ROLE"),
    ];
    for (input, code) in cases {
        match parse_hello(input) {
            Ok(_) => panic!("accepted a bad hello"),
            Err(error) => assert_eq!(error.code(), code),
        }
    }
    assert_eq!(RelayError::ProtocolVersion.message(), "unsupported protocolVersion");
}

#[test]
fn role_names_on_the_wire() {
    assert_eq!(role_name(Role::BrowserPortExtension), "browser-port-extension");
    assert_eq!(role_name(Role::Client), "client");
}

#[test]
fn routing_table_reads_back_routes_and_closes_connections() {
    let mut routes = RelayRoutes::new();
    routes.add_connection(1, Role::BrowserPortExtension);
    routes.add_connection(2, Role::Client);
    routes.add_connection(3, Role::Client);
    routes.route_player(7, 1);
    routes.route_player(8, 1);
    routes.route_player(9, 3);
    assert_eq!(routes.route_of(7), Some(1));
    assert_eq!(routes.connection_for_player(9), Some(3));
    assert_eq!(routes.connection_for_player(10), None);
    assert_eq!(routes.counts(), (1, 2));
    let mut clients = routes.connections_with_role(Role::Client);
    clients.sort();
    assert_eq!(clients, vec![2, 3]);
    routes.route_player(8, 3);
    assert_eq!(routes.route_of(8), Some(3));
    let mut gone = routes.remove_connection(1);
    gone.sort();
    assert_eq!(gone, vec![7]);
    assert_eq!(routes.route_of(7), None);
    assert_eq!(routes.route_of(8), Some(3));
    assert_eq!(routes.counts(), (0, 2));
    let mut all = routes.all_connections();
    all.sort();
    assert_eq!(all, vec![2, 3]);
    let mut players = routes.routed_players();
    players.sort();
    assert_eq!(players, vec![8, 9]);
}

#[test]
fn route_to_closed_connection_is_not_found() {
    let mut routes = RelayRoutes::new();
    routes.route_player(5, 42);
    assert_eq!(routes.route_of(5), Some(42));
    assert_eq!(routes.connection_for_player(5), None);
}

#[test]
fn extension_message_routes_player_for_client_commands() {
    let mut routes = RelayRoutes::new();
    routes.add_connection(1, Role::BrowserPortExtension);
    routes.add_connection(2, Role::Client);
    let action = route_text_message(&mut routes, 1, Role::BrowserPortExtension, true, "register", Some(4));
    assert_eq!(
        action,
        TextAction::FromExtension { kind: ExtensionMessage::Register, player_id: Some(4) }
    );
    let action = route_text_message(&mut routes, 2, Role::Client, true, "control", Some(4));
    assert_eq!(action, TextAction::Forward { conn_id: 1 });
    let action = route_text_message(&mut routes, 2, Role::Client, true, "search", Some(6));
    assert_eq!(
        action,
        TextAction::Reply { error: RelayError::PlayerNotRegistered, player_id: Some(6) }
    );
}

#[test]
fn text_message_errors_and_routes() {
    let mut routes = RelayRoutes::new();
    routes.add_connection(1, Role::BrowserPortExtension);
    let ext = Role::BrowserPortExtension;
    assert_eq!(
        route_text_message(&mut routes, 1, ext, false, "", None),
        TextAction::Reply { error: RelayError::InvalidJson, player_id: None }
    );
    assert_eq!(route_text_message(&mut routes, 1, ext, true, "ping", None), TextAction::Pong);
    assert_eq!(
        route_text_message(&mut routes, 1, ext, true, "dance", Some(1)),
        TextAction::Reply { error: RelayError::UnsupportedExtensionMessage, player_id: None }
    );
    assert_eq!(
        route_text_message(&mut routes, 1, ext, true, "config", None),
        TextAction::Reply { error: RelayError::PlayerRequired, player_id: None }
    );
    assert_eq!(
        route_text_message(&mut routes, 1, ext, true, "config", Some(u64::from(u32::MAX) + 1)),
        TextAction::Reply { error: RelayError::PlayerRequired, player_id: None }
    );
    assert_eq!(
        route_text_message(&mut routes, 1, ext, true, "status", None),
        TextAction::FromExtension { kind: ExtensionMessage::Status, player_id: None }
    );
    let client = Role::Client;
    assert_eq!(
        route_text_message(&mut routes, 2, client, true, "browser-port-control", None),
        TextAction::Control
    );
    assert_eq!(
        route_text_message(&mut routes, 2, client, true, "helper-stats", None),
        TextAction::HelperStats
    );
    assert_eq!(route_text_message(&mut routes, 2, client, true, "pong", None), TextAction::Ignore);
    assert_eq!(
        route_text_message(&mut routes, 2, client, true, "register", Some(1)),
        TextAction::Reply { error: RelayError::UnsupportedClientMessage, player_id: None }
    );
    assert_eq!(
        route_text_message(&mut routes, 2, client, true, "control", None),
        TextAction::Reply { error: RelayError::PlayerRequired, player_id: None }
    );
    assert_eq!(RelayError::UnsupportedClientMessage.code(), "E_UNSUPPORTED_MESSAGE");
    assert_eq!(RelayError::PlayerNotRegistered.code(), "E_PLAYER_NOT_REGISTERED");
}

fn v1_chunk(msg_type: u8, player_id: u32, payload: &[u8]) -> Vec<u8> {
    let mut raw = vec![msg_type, 1, 0, 0];
    raw.extend_from_slice(&player_id.to_le_bytes());
    raw.extend_from_slice(&123u64.to_le_bytes());
    raw.extend_from_slice(&(payload.len() as u32).to_le_bytes());
    raw.extend_from_slice(payload);
    raw
}

#[test]
fn binary_messages_are_checked_and_route_their_player() {
    let mut routes = RelayRoutes::new();
    routes.add_connection(1, Role::BrowserPortExtension);
    let raw = v1_chunk(1, 9, &[1, 2, 3]);
    let info = accept_binary_message(&mut routes, 1, Role::BrowserPortExtension, &raw).unwrap();
    assert_eq!(info.player_id, 9);
    assert_eq!(info.payload_len, 3);
    assert_eq!(info.timestamp_us, 123);
    assert_eq!(routes.route_of(9), Some(1));
    assert_eq!(
        accept_binary_message(&mut routes, 2, Role::Client, &raw),
        Err(RelayError::BinaryForbidden)
    );
    assert_eq!(
        accept_binary_message(&mut routes, 1, Role::BrowserPortExtension, &raw[..10]),
        Err(RelayError::BinaryHeader)
    );
    let other = v1_chunk(3, 9, &[1]);
    assert_eq!(
        accept_binary_message(&mut routes, 1, Role::BrowserPortExtension, &other),
        Err(RelayError::UnsupportedChunk)
    );
    assert_eq!(RelayError::BinaryHeader.message(), "invalid binary header");
}

#[test]
fn outputs_start_with_what_the_host_has() {
    let linux = OutputTargets::new(Platform::Other, false);
    assert!(!linux.ndi_enabled && !linux.spout_enabled && !linux.syphon_enabled);
    let windows = OutputTargets::new(Platform::Windows, true);
    assert!(windows.ndi_enabled && windows.spout_enabled && !windows.syphon_available);
    assert_eq!(windows.output_available("spout"), Some(true));
    assert_eq!(windows.output_enabled("syphon"), Some(false));
    assert_eq!(windows.output_available("hdmi"), None);
}

#[test]
fn set_output_refuses_unavailable_and_unknown() {
    let mut targets = OutputTargets::new(Platform::Other, false);
    assert!(!targets.set_output("ndi", true));
    assert!(!targets.ndi_enabled);
    assert!(!targets.set_output("hdmi", true));
    let mut targets = OutputTargets::new(Platform::Other, true);
    assert!(targets.set_output("ndi", false));
    assert_eq!(targets.output_enabled("ndi"), Some(false));
    assert!(targets.set_output("ndi", true));
    assert_eq!(targets.output_enabled("ndi"), Some(true));
}

#[test]
fn control_requests() {
    let mut targets = OutputTargets::new(Platform::Windows, true);
    let ctl = |t: &mut OutputTargets, p, cmd: Option<&str>, out: Option<&str>, en: Option<bool>| {
        handle_browser_port_control(t, p, cmd, None, out, en, None)
    };
    assert_eq!(ctl(&mut targets, Platform::Windows, Some("get-status"), None, None), ControlAction::SendStats);
    assert_eq!(
        handle_browser_port_control(&mut targets, Platform::Windows, None, Some("get-status"), None, None, None),
        ControlAction::SendStats
    );
    assert_eq!(
        ctl(&mut targets, Platform::Windows, Some("reboot"), None, None),
        ControlAction::Reply(RelayError::UnsupportedControl)
    );
    assert_eq!(
        ctl(&mut targets, Platform::Windows, Some("set-output"), None, Some(true)),
        ControlAction::Reply(RelayError::OutputRequired)
    );
    assert_eq!(
        ctl(&mut targets, Platform::Windows, Some("set-output"), Some("hdmi"), Some(true)),
        ControlAction::Reply(RelayError::UnknownOutput)
    );
    assert_eq!(
        ctl(&mut targets, Platform::Windows, Some("set-output"), Some("syphon"), Some(true)),
        ControlAction::Reply(RelayError::OutputUnavailable)
    );
    assert_eq!(
        ctl(&mut targets, Platform::Windows, Some("set-output"), Some("ndi"), None),
        ControlAction::Reply(RelayError::EnabledRequired)
    );
    assert_eq!(
        ctl(&mut targets, Platform::Windows, Some("set-output"), Some("ndi"), Some(false)),
        ControlAction::OutputChanged { output: OutputMode::Ndi, enabled: false, available: true }
    );
    assert!(!targets.ndi_enabled);
    assert_eq!(
        handle_browser_port_control(&mut targets, Platform::Windows, Some("set-output"), None, Some("ndi"), None, Some(true)),
        ControlAction::OutputChanged { output: OutputMode::Ndi, enabled: true, available: true }
    );
    assert!(targets.ndi_enabled);
    assert_eq!(
        ctl(&mut targets, Platform::MacOs, Some("toggle-output"), Some("spout"), None),
        ControlAction::Reply(RelayError::SpoutUnsupportedOnMac)
    );
}

#[test]
fn toggling_twice_restores_outputs() {
    let mut targets = OutputTargets::new(Platform::Windows, true);
    let before = targets;
    let first = handle_browser_port_control(&mut targets, Platform::Windows, Some("toggle-output"), None, Some("spout"), None, None);
    assert_eq!(first, ControlAction::OutputChanged { output: OutputMode::Spout, enabled: false, available: true });
    let second = handle_browser_port_control(&mut targets, Platform::Windows, Some("toggle-output"), None, Some("spout"), None, None);
    assert_eq!(second, ControlAction::OutputChanged { output: OutputMode::Spout, enabled: true, available: true });
    assert_eq!(targets, before);
}

#[test]
fn helper_stall_and_health() {
    let active_reporting = StreamActivity {
        last_video_chunk_us: Some(9_000_000),
        last_helper_stats_us: Some(8_500_000),
        video_chunks: 100,
    };
    let active_silent = StreamActivity {
        last_video_chunk_us: Some(9_000_000),
        last_helper_stats_us: Some(1_000_000),
        video_chunks: 100,
    };
    let active_new = StreamActivity { last_video_chunk_us: Some(9_000_000), last_helper_stats_us: None, video_chunks: 10 };
    let idle = StreamActivity { last_video_chunk_us: Some(1_000_000), last_helper_stats_us: None, video_chunks: 500 };
    let now = 10_000_000;
    assert!(!spout_helper_stalled(&[active_reporting, active_new, idle], now));
    assert!(spout_helper_stalled(&[active_reporting, active_silent], now));
    assert!(spout_helper_healthy(&[active_reporting, idle], now));
    assert!(!spout_helper_healthy(&[active_reporting, active_new], now));
    assert!(!spout_helper_healthy(&[idle], now));
    assert!(!spout_helper_healthy(&[], now));
    let graced_out = StreamActivity { video_chunks: 60, ..active_new };
    assert!(spout_helper_stalled(&[graced_out], now));
}

#[test]
fn spout_watchdog_cycle() {
    let mut watchdog = SpoutWatchdog::new();
    assert_eq!(watchdog.step(false, true, true, false, 0), WatchdogAction::Keep);
    assert_eq!(watchdog.step(true, true, true, false, 1_000), WatchdogAction::RestartWithoutFastpath);
    assert!(watchdog.fastpath_forced_off);
    assert_eq!(watchdog.step(true, true, true, false, 2_000), WatchdogAction::Keep);
    assert_eq!(watchdog.step(true, true, false, true, 5_000_000), WatchdogAction::Keep);
    assert_eq!(watchdog.step(true, true, false, true, 21_000_000), WatchdogAction::RestartWithFastpath);
    assert!(watchdog.retry_in_progress && !watchdog.fastpath_forced_off);
    assert_eq!(watchdog.step(true, true, true, false, 22_000_000), WatchdogAction::RestartWithoutFastpath);
    assert_eq!(watchdog.retry_failures, 1);
    assert_eq!(watchdog.step(true, true, false, true, 60_000_000), WatchdogAction::Keep);
    let mut failed = SpoutWatchdog {
        fastpath_forced_off: false,
        switched_at_us: Some(0),
        retry_in_progress: true,
        retry_failures: 0,
    };
    failed.retry_start_failed();
    assert!(failed.fastpath_forced_off && !failed.retry_in_progress);
}

#[test]
fn spout_watchdog_retry_happens_once() {
    let mut watchdog = SpoutWatchdog {
        fastpath_forced_off: true,
        switched_at_us: Some(1_000),
        retry_in_progress: false,
        retry_failures: 0,
    };
    assert_eq!(watchdog.step(true, true, false, true, 21_000_000), WatchdogAction::RestartWithFastpath);
    assert_eq!(
        watchdog,
        SpoutWatchdog {
            fastpath_forced_off: false,
            switched_at_us: Some(21_000_000),
            retry_in_progress: true,
            retry_failures: 0,
        }
    );
    assert_eq!(watchdog.step(true, true, false, true, 22_000_000), WatchdogAction::Keep);
    assert_eq!(watchdog.switched_at_us, Some(21_000_000));
}

#[test]
fn stream_state_follows_reports() {
    let mut s = StreamState::new();
    s.apply_config_size(Some(1920), Some(5_000_000_000));
    assert!(s.connected);
    assert_eq!((s.coded_width, s.coded_height), (Some(1920), None));
    s.apply_status_size(None, None, Some(1080));
    assert_eq!((s.coded_width, s.coded_height), (Some(1920), Some(1080)));
    s.apply_status_size(Some((Some(1280), None)), Some(640), Some(480));
    assert_eq!((s.coded_width, s.coded_height), (Some(1280), None));
    s.record_chunk(1, 42, 100, 7);
    s.record_chunk(2, 43, 10, 8);
    s.record_chunk(9, 44, 1, 9);
    assert_eq!((s.video_chunks, s.audio_chunks), (1, 1));
    assert_eq!((s.last_timestamp_us, s.last_payload_len), (44, 1));
    assert_eq!(s.last_video_chunk_us, Some(7));
    s.apply_output_report(Some(true), Some(0), None, Some(3), 11);
    assert_eq!((s.ndi_connected, s.ndi_receivers), (Some(false), Some(0)));
    assert_eq!((s.syphon_connected, s.syphon_clients), (Some(true), Some(3)));
    assert_eq!(s.last_helper_stats_us, Some(11));
    s.close_link();
    assert!(!s.connected);
    assert_eq!((s.syphon_connected, s.syphon_clients), (Some(false), Some(0)));
    assert_eq!(s.video_chunks, 1);
}

#[test]
fn hello_text_is_read_as_json() {
    let info = parse_hello_text(
        r#"{"type":"hello","protocolVersion":1,"role":"client","capabilities":{"source":"tray"}}"#,
    )
    .ok()
    .unwrap();
    assert_eq!(info.role, Role::Client);
    assert_eq!(info.source.as_deref(), Some("tray"));
    let info = parse_hello_text(r#"{"type":"hello","protocolVersion":1,"role":"browser-port-extension"}"#)
        .ok()
        .unwrap();
    assert_eq!(info.role, Role::BrowserPortExtension);
    assert_eq!(info.source, None);
    let cases = [
        ("not json", "E_HANDSHAKE_JSON"),
        (r#"{"type":"ping"}"#, "E_HANDSHAKE_MISSING"),
        (r#"{"type":"hello","role":"client"}"#, "E_PROTOCOL_VERSION"),
        (r#"{"type":"hello","protocolVersion":"1","role":"client"}"#, "E_PROTOCOL_VERSION"),
        (r#"{"type":"hello","protocolVersion":1,"role":"viewer"}"#, "E_HANDSHAKE_ROLE"),
    ];
    for (text, code) in cases {
        match parse_hello_text(text) {
            Ok(_) => panic!("accepted a bad hello"),
            Err(error) => assert_eq!(error.code(), code),
        }
    }
}

#[test]
fn text_messages_are_read_and_routed() {
    let mut routes = RelayRoutes::new();
    routes.add_connection(1, Role::BrowserPortExtension);
    routes.add_connection(2, Role::Client);
    assert_eq!(
        handle_text_message(&mut routes, 1, Role::BrowserPortExtension, "{oops"),
        TextAction::Reply { error: RelayError::InvalidJson, player_id: None }
    );
    assert_eq!(handle_text_message(&mut routes, 2, Role::Client, r#"{"type":"ping"}"#), TextAction::Pong);
    assert_eq!(
        handle_text_message(&mut routes, 1, Role::BrowserPortExtension, r#"{"playerId":3}"#),
        TextAction::Reply { error: RelayError::UnsupportedExtensionMessage, player_id: None }
    );
    assert_eq!(
        handle_text_message(&mut routes, 1, Role::BrowserPortExtension, r#"{"type":"config","playerId":-3}"#),
        TextAction::Reply { error: RelayError::PlayerRequired, player_id: None }
    );
    assert_eq!(
        handle_text_message(&mut routes, 1, Role::BrowserPortExtension, r#"{"type":"register","playerId":7}"#),
        TextAction::FromExtension { kind: ExtensionMessage::Register, player_id: Some(7) }
    );
    assert_eq!(routes.route_of(7), Some(1));
    assert_eq!(
        handle_text_message(&mut routes, 2, Role::Client, r#"{"type":"control","playerId":7}"#),
        TextAction::Forward { conn_id: 1 }
    );
    assert_eq!(
        handle_text_message(&mut routes, 2, Role::Client, r#"{"type":"search","playerId":8}"#),
        TextAction::Reply { error: RelayError::PlayerNotRegistered, player_id: Some(8) }
    );
}

#[test]
fn stats_report_players_by_id_and_outputs_per_platform() {
    let mut routes = RelayRoutes::new();
    routes.add_connection(1, Role::BrowserPortExtension);
    routes.add_connection(2, Role::Client);
    routes.add_connection(3, Role::Client);
    routes.route_player(9, 1);
    let mut streams = HashMap::new();
    for id in [30u32, 4, 17] {
        let mut s = StreamState::new();
        s.record_chunk(1, u64::from(id), 1, 0);
        streams.insert(id, s);
    }
    let targets = OutputTargets::new(Platform::Windows, true);
    let stats = browser_port_stats(&routes, &streams, &targets, Platform::Windows);
    assert_eq!((stats.extensions, stats.clients, stats.players_registered), (1, 2, 1));
    let ids: Vec<u32> = stats.players.iter().map(|(id, _)| *id).collect();
    assert_eq!(ids, vec![4, 17, 30]);
    assert_eq!(stats.players[1].1.last_timestamp_us, 17);
    let modes: Vec<OutputMode> = stats.outputs.iter().map(|o| o.mode).collect();
    assert_eq!(modes, vec![OutputMode::Ndi, OutputMode::Spout, OutputMode::Syphon]);
    let mac = browser_port_stats(&routes, &streams, &OutputTargets::new(Platform::MacOs, false), Platform::MacOs);
    let modes: Vec<OutputMode> = mac.outputs.iter().map(|o| o.mode).collect();
    assert_eq!(modes, vec![OutputMode::Ndi, OutputMode::Syphon]);
    assert!(!mac.outputs[0].available);
}

#[test]
fn empty_decode_backend_keeps_the_known_one() {
    let mut known = None;
    update_decode_backend(&mut known, Some("openh264".to_string()));
    assert_eq!(known.as_deref(), Some("openh264"));
    update_decode_backend(&mut known, Some(String::new()));
    update_decode_backend(&mut known, None);
    assert_eq!(known.as_deref(), Some("openh264"));
    update_decode_backend(&mut known, Some("mf-d3d11".to_string()));
    assert_eq!(known.as_deref(), Some("mf-d3d11"));
}

#[test]
fn control_requests_are_read_from_text() {
    let mut targets = OutputTargets::new(Platform::Windows, true);
    assert_eq!(
        handle_control_text(&mut targets, Platform::Windows, r#"{"command":"get-status"}"#),
        ControlAction::SendStats
    );
    assert_eq!(
        handle_control_text(&mut targets, Platform::Windows, r#"{"action":"set-output","output":"ndi","enabled":false}"#),
        ControlAction::OutputChanged { output: OutputMode::Ndi, enabled: false, available: true }
    );
    assert!(!targets.ndi_enabled);
    assert_eq!(
        handle_control_text(&mut targets, Platform::Windows, r#"{"command":"set-output","output":"ndi","enabled":"yes"}"#),
        ControlAction::Reply(RelayError::EnabledRequired)
    );
    assert_eq!(
        handle_control_text(&mut targets, Platform::Windows, "not json"),
        ControlAction::Reply(RelayError::UnsupportedControl)
    );
}
