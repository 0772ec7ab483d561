use alvr_streamer::audio::{
    capture_previous_device, default_already_set, device_exists, find_named_device, names_match,
    pactl_info_ok, parse_restore_file, parse_short_names, parse_uid, restore_file_body,
    restore_target, sink_input_ids, stale_should_restore, ALVR_AUDIO_SINK_NAME,
    ALVR_MICROPHONE_SOURCE_NAME, captured_frames, playback_chunk, write_frame_sample,
    frames_in_ms,
};
use alvr_streamer::connect::{
    connect_plan, connect_start, connect_step, ConnectAction, ConnectPlan, ConnectProgress,
};
use alvr_streamer::discovery::{
    classify_packet, incompatibility_reason, is_unicast_link_local_v6, order_client_ips,
    pick_connectable_address, Clients, DiscoveryPacket, IpAddress,
};

fn s(x: &str) -> String {
    x.to_string()
}

#[test]
fn names_match_ignores_ascii_case() {
    assert!(names_match("ALVR Audio", "alvr audio"));
    assert!(names_match("x", "x"));
    assert!(!names_match("ALVR Audio", "ALVR_Audio"));
    assert!(!names_match("Ä", "ä"));
}

#[test]
fn finds_exact_then_variant() {
    let names = vec![s("alsa_output.pci"), s("alvr_audio"), s("ALVR Audio")];
    assert_eq!(find_named_device(&names, ALVR_AUDIO_SINK_NAME), Some(s("ALVR Audio")));
    let names = vec![s("alsa_output.pci"), s("ALVR_Audio"), s("ALVRAudio.monitor"), s("alvr\u{a0}audio")];
    assert_eq!(find_named_device(&names, ALVR_AUDIO_SINK_NAME), Some(s("ALVR_Audio")));
    let names = vec![s("alsa_output.pci"), s("ALVRAudio.monitor"), s("alvr\u{a0}audio")];
    assert_eq!(find_named_device(&names, ALVR_AUDIO_SINK_NAME), Some(s("alvr\u{a0}audio")));
    let names = vec![s("app: ALVR Audio sink"), s("alvraudio")];
    assert_eq!(find_named_device(&names, ALVR_AUDIO_SINK_NAME), Some(s("app: ALVR Audio sink")));
    let names = vec![s("alsa_output.pci")];
    assert_eq!(find_named_device(&names, ALVR_AUDIO_SINK_NAME), None);
    assert!(!device_exists(&names, ALVR_AUDIO_SINK_NAME));
    assert!(device_exists(&names, "ALSA_OUTPUT.PCI"));
}

#[test]
fn underscore_variant_is_found() {
    let names = vec![s("alsa_output.pci"), s("ALVR_Audio")];
    assert_eq!(find_named_device(&names, "ALVR Audio"), Some(s("ALVR_Audio")));
    let names = vec![s("alsa_input.pci"), s("alvr_microphone")];
    assert_eq!(find_named_device(&names, ALVR_MICROPHONE_SOURCE_NAME), Some(s("alvr_microphone")));
    assert!(device_exists(&names, ALVR_MICROPHONE_SOURCE_NAME));
}

#[test]
fn previous_device_choice() {
    let alvr = ALVR_AUDIO_SINK_NAME;
    assert_eq!(capture_previous_device(Some(s("desk")), Some(s("old")), alvr), Some(s("desk")));
    assert_eq!(capture_previous_device(Some(s("alvr audio")), Some(s("old")), alvr), Some(s("old")));
    assert_eq!(capture_previous_device(Some(s("ALVR Audio")), Some(s("ALVR Audio")), alvr), None);
    assert_eq!(capture_previous_device(None, Some(s("old")), alvr), Some(s("old")));
    assert_eq!(capture_previous_device(None, None, alvr), None);
}

#[test]
fn restore_file_round_trip() {
    let body = restore_file_body(Some("desk speakers"), Some("usb mic")).unwrap();
    assert_eq!(body, "sink=desk speakers\nsource=usb mic\n");
    assert_eq!(parse_restore_file(&body), (Some(s("desk speakers")), Some(s("usb mic"))));
    let body = restore_file_body(Some("ALVR Audio"), Some("usb mic")).unwrap();
    assert_eq!(body, "source=usb mic\n");
    assert_eq!(restore_file_body(Some("alvr audio"), Some(ALVR_MICROPHONE_SOURCE_NAME)), None);
    assert_eq!(restore_file_body(None, None), None);
}

#[test]
fn restore_file_parsing() {
    assert_eq!(parse_restore_file(""), (None, None));
    assert_eq!(
        parse_restore_file("junk\r\nsink=  a  \r\nsink=\nsource=b\nsink=c"),
        (Some(s("c")), Some(s("b")))
    );
    assert_eq!(parse_restore_file("source=x\r"), (None, Some(s("x"))));
}

#[test]
fn pactl_short_listing() {
    let out = "57\tALVR Audio\tPipeWire\ts16le 2ch 48000Hz\tRUNNING\n58\talsa_output.pci\tPipeWire\n59 no tabs here\n60\t \tx";
    assert_eq!(parse_short_names(out), vec![s("ALVR Audio"), s("alsa_output.pci")]);
    assert_eq!(parse_short_names(""), Vec::<String>::new());
    let ids = sink_input_ids("12\tfoo\n\n 13 \tbar\n\tbaz");
    assert_eq!(ids, vec![s("12"), s("13")]);
}

#[test]
fn uid_from_status() {
    let status = "Name:\tcat\nUmask:\t0022\nUid:\t1000\t1000\t1000\t1000\nGid:\t1000\n";
    assert_eq!(parse_uid(status), Some(1000));
    assert_eq!(parse_uid("Uid:\n"), None);
    assert_eq!(parse_uid("Uid: x\nUid: 5\n"), None);
    assert_eq!(parse_uid("Gid: 5\n"), None);
    assert_eq!(parse_uid("Uid:\t4294967296"), None);
}

#[test]
fn session_checks() {
    assert!(pactl_info_ok("Server String: x\nServer Name: PulseAudio (on PipeWire 1.0)\n"));
    assert!(pactl_info_ok("Default Sink: foo"));
    assert!(!pactl_info_ok("Connection failure"));
    assert!(default_already_set(Some("alvr audio"), "ALVR_Audio", ALVR_AUDIO_SINK_NAME));
    assert!(default_already_set(Some("ALVR_Audio"), "ALVR_Audio", ALVR_AUDIO_SINK_NAME));
    assert!(!default_already_set(Some("desk"), "ALVR_Audio", ALVR_AUDIO_SINK_NAME));
    assert!(!default_already_set(None, "ALVR_Audio", ALVR_AUDIO_SINK_NAME));
    assert!(stale_should_restore("desk", None, false, ALVR_AUDIO_SINK_NAME));
    assert!(stale_should_restore("desk", Some("ALVR Audio"), true, ALVR_AUDIO_SINK_NAME));
    assert!(stale_should_restore("desk", Some("gone"), false, ALVR_AUDIO_SINK_NAME));
    assert!(!stale_should_restore("desk", Some("other"), true, ALVR_AUDIO_SINK_NAME));
    assert!(!stale_should_restore("ALVR Audio", None, false, ALVR_AUDIO_SINK_NAME));
    assert_eq!(restore_target(&Some(s("desk")), ALVR_AUDIO_SINK_NAME), Some(s("desk")));
    assert_eq!(restore_target(&Some(s("alvr audio")), ALVR_AUDIO_SINK_NAME), None);
    assert_eq!(restore_target(&None, ALVR_AUDIO_SINK_NAME), None);
}

fn v4(a: u8, b: u8, c: u8, d: u8) -> IpAddress {
    IpAddress::V4(u32::from_be_bytes([a, b, c, d]))
}

fn seg(segs: [u16; 8]) -> u128 {
    segs.iter().fold(0u128, |acc, s| (acc << 16) | *s as u128)
}

fn v6(segs: [u16; 8]) -> IpAddress {
    IpAddress::V6(seg(segs))
}

const LINK_LOCAL: [u16; 8] = [0xfe80, 0, 0, 0, 0, 0, 0, 1];
const GLOBAL5: [u16; 8] = [0x2001, 0xdb8, 0, 0, 0, 0, 0, 5];

#[test]
fn picks_global_ipv4_first() {
    let addrs = vec![v6(LINK_LOCAL), v6(GLOBAL5), v4(127, 0, 0, 1), v4(192, 168, 1, 20), v4(10, 0, 0, 1)];
    assert_eq!(pick_connectable_address(&addrs), Some(v4(192, 168, 1, 20)));
    let addrs = vec![v6(LINK_LOCAL), v6([0xff02, 0, 0, 0, 0, 0, 0, 1]), v6([0, 0, 0, 0, 0, 0, 0, 1]), v6(GLOBAL5), v4(255, 255, 255, 255)];
    assert_eq!(pick_connectable_address(&addrs), Some(v6(GLOBAL5)));
    let addrs = vec![v6(LINK_LOCAL), v4(0, 0, 0, 0), v6([0; 8])];
    assert_eq!(pick_connectable_address(&addrs), None);
    assert!(is_unicast_link_local_v6(seg([0xfebf, 0, 0, 0, 0, 0, 0, 1])));
    assert!(!is_unicast_link_local_v6(seg([0xfec0, 0, 0, 0, 0, 0, 0, 1])));
}

#[test]
fn clients_prefer_ipv4() {
    let mut c = Clients::new();
    c.insert_client_address(s("avp"), v4(10, 0, 0, 2));
    c.insert_client_address(s("avp"), v6(GLOBAL5));
    assert_eq!(c.get(&s("avp")), Some(v4(10, 0, 0, 2)));
    c.insert_client_address(s("avp"), v4(10, 0, 0, 3));
    assert_eq!(c.get(&s("avp")), Some(v4(10, 0, 0, 3)));
    c.insert_client_address(s("quest"), v6([0x2001, 0xdb8, 0, 0, 0, 0, 0, 9]));
    c.insert_client_address(s("quest"), v4(10, 0, 0, 4));
    assert_eq!(c.get(&s("quest")), Some(v4(10, 0, 0, 4)));
    assert_eq!(c.get(&s("none")), None);
    assert_eq!(c.into_entries().len(), 2);
}

fn packet(name: &[u8], protocol: u64, host: &[u8]) -> Vec<u8> {
    let mut b = vec![0u8; 56];
    b[..name.len()].copy_from_slice(name);
    b[16..24].copy_from_slice(&protocol.to_le_bytes());
    b[24..24 + host.len()].copy_from_slice(host);
    b
}

#[test]
fn handshake_packets() {
    let b = packet(b"ALVR", 0x0102030405060708, b"apple-vision-pro");
    assert_eq!(
        classify_packet(&b, 56),
        DiscoveryPacket::Client { protocol_id: 0x0102030405060708, hostname: b"apple-vision-pro".to_vec() }
    );
    assert_eq!(classify_packet(&b, 55), DiscoveryPacket::Unrelated);
    let mut old = vec![0u8; 56];
    old[..16].copy_from_slice(b"\x00\x00\x00\x00\x04\x00\x00\x00\x00\x00\x00\x00ALVR");
    assert_eq!(classify_packet(&old, 56), DiscoveryPacket::OldClient);
    let mut old = vec![0u8; 56];
    old[..5].copy_from_slice(b"\x01ALVR");
    assert_eq!(classify_packet(&old, 20), DiscoveryPacket::OldClient);
    let mut bad = packet(b"ALVR", 1, b"x");
    bad[7] = 1;
    assert_eq!(classify_packet(&bad, 56), DiscoveryPacket::Unrelated);
    let full = packet(b"ALVR", 1, &[b'a'; 32]);
    assert_eq!(classify_packet(&full, 56), DiscoveryPacket::Client { protocol_id: 1, hostname: vec![b'a'; 32] });
}

#[test]
fn connect_order_prefers_ipv4() {
    let ips = vec![v6(LINK_LOCAL), v6([0, 0, 0, 0, 0, 0xffff, 0x0a00, 0x0007]), v4(10, 0, 0, 7), v6([0x2001, 0xdb8, 0, 0, 0, 0, 0, 1]), v4(10, 0, 0, 8), v4(10, 0, 0, 8)];
    assert_eq!(
        order_client_ips(&ips),
        vec![v4(10, 0, 0, 7), v4(10, 0, 0, 8), v6(LINK_LOCAL), v6([0x2001, 0xdb8, 0, 0, 0, 0, 0, 1])]
    );
    assert_eq!(order_client_ips(&vec![]), vec![]);
}

#[test]
fn protocol_mismatch_reasons() {
    assert_eq!(incompatibility_reason("20.14.1", "20.14.1"), None);
    assert_eq!(incompatibility_reason("21.0.0-dev", "20.14.1-dev"), Some("Please use matching nightly versions."));
    assert_eq!(incompatibility_reason("21.0.0-dev", "20.14.1"), Some("Please use nightly server or stable client."));
    assert_eq!(incompatibility_reason("20.14.0", "20.14.1-dev"), Some("Please use stable server or nightly client."));
    assert_eq!(incompatibility_reason("20.14.0", "20.14.1"), Some("Please use matching stable versions."));
}

#[test]
fn captured_frames_keeps_whole_stereo_frames() {
    let data: Vec<u8> = (0u8..20).collect();
    // 2 channels of 16-bit samples: 4-byte frames; 11 bytes hold 2 whole frames.
    assert_eq!(captured_frames(&data, 11, 2), (0u8..8).collect::<Vec<u8>>());
    assert_eq!(captured_frames(&data, 3, 2), Vec::<u8>::new());
    assert_eq!(captured_frames(&data, 20, 1), data);
}

#[test]
fn playback_chunk_limits_frames_by_request_and_room() {
    // stereo f32: 8-byte frames; 100 bytes hold 12 frames.
    assert_eq!(playback_chunk(5, 100, 2), (5, 40, 8));
    assert_eq!(playback_chunk(1000, 100, 2), (12, 96, 8));
    assert_eq!(playback_chunk(0, 100, 1), (0, 0, 4));
}

#[test]
fn write_frame_sample_writes_first_channel_little_endian() {
    let mut slice = vec![0xAAu8; 16];
    write_frame_sample(&mut slice, 1, 2, 1.5f32.to_bits());
    let mut expected = vec![0xAAu8; 16];
    expected[8..12].copy_from_slice(&1.5f32.to_le_bytes());
    assert_eq!(slice, expected);
}

#[test]
fn frames_in_ms_rounds_down() {
    assert_eq!(frames_in_ms(48000, 10), 480);
    assert_eq!(frames_in_ms(44100, 15), 661);
    assert_eq!(frames_in_ms(0, 15), 0);
}

fn run_connect(plan: &ConnectPlan, outcomes: &[bool]) -> Vec<ConnectAction> {
    let mut actions = Vec::new();
    let mut p: ConnectProgress = connect_start();
    let mut last = None;
    let mut results = outcomes.iter();
    loop {
        let (next, action) = connect_step(plan, &p, last);
        p = next;
        last = None;
        actions.push(action);
        match action {
            ConnectAction::Try { .. } => last = Some(*results.next().expect("outcome")),
            ConnectAction::Connected(_) | ConnectAction::Fail { .. } => return actions,
            _ => {}
        }
    }
}

#[test]
fn connect_plan_orders_and_shares_timeout() {
    assert!(connect_plan(&vec![], 1_000_000_000).is_none());
    let v6 = IpAddress::V6(0x2001_0db8_0000_0000_0000_0000_0000_0001);
    let v4 = IpAddress::V4(0xC0A8_0001);
    let plan = connect_plan(&vec![v6, v4, v4], 3_000_000_000).unwrap();
    assert_eq!(plan.ips, vec![v4, v6]);
    assert_eq!(plan.attempt_timeout_ns, 1_500_000_000);
    let plan = connect_plan(&vec![v4, v6], 600_000_000).unwrap();
    assert_eq!(plan.attempt_timeout_ns, 500_000_000);
}

#[test]
fn connect_retries_skips_and_fails() {
    let link_local = IpAddress::V6(0xfe80_0000_0000_0000_0000_0000_0000_0001);
    let v4 = IpAddress::V4(0x0A00_0002);
    let plan = connect_plan(&vec![link_local, v4], 10_000_000_000).unwrap();
    assert_eq!(plan.ips, vec![v4, link_local]);
    let actions = run_connect(&plan, &[false, false, false]);
    assert_eq!(
        actions,
        vec![
            ConnectAction::Try { ip: v4, attempt: 0 },
            ConnectAction::Pause(150),
            ConnectAction::Try { ip: v4, attempt: 1 },
            ConnectAction::Pause(150),
            ConnectAction::Try { ip: v4, attempt: 2 },
            ConnectAction::Pause(150),
            ConnectAction::Skip(link_local),
            ConnectAction::Fail { had_error: true },
        ]
    );
    let actions = run_connect(&plan, &[false, true]);
    assert_eq!(actions.last(), Some(&ConnectAction::Connected(v4)));
    assert_eq!(actions.len(), 4);
    let only_link_local = connect_plan(&vec![link_local], 1).unwrap();
    assert_eq!(
        run_connect(&only_link_local, &[]),
        vec![ConnectAction::Skip(link_local), ConnectAction::Fail { had_error: false }]
    );
}
