use alvr_streamer::hard_config::{
    CodecChoice, ControllerProfileChoice, HardConfigTab, StreamingPreset, FPS_90_BITS,
    H264_MAX_EYE_PX, HEVC_HIGH_EYE_PX,
};
use alvr_streamer::session::{
    apply_avp_profile, solidify_hard_config, AbsoluteFrameSizeDefault, BitrateModeDefault,
    BitrateModeDefaultVariant, CodecTypeDefaultVariant, ControllersDefault,
    ControllersEmulationModeDefaultVariant, FrameSize, FrameSizeDefault, FrameSizeDefaultVariant,
    HandSkeletonDefault, HeadsetSettingsDefault, OpenvrConfig, OptionalU32Default, PatchesDefault,
    ResolvedLayout, SessionConfig, SessionSettings, SocketProtocolDefaultVariant,
    VideoSettingsDefault,
};

fn frame_size(variant: FrameSizeDefaultVariant, w: u32, h: Option<u32>) -> FrameSizeDefault {
    FrameSizeDefault {
        variant,
        scale_bits: 1.0f32.to_bits(),
        absolute: AbsoluteFrameSizeDefault {
            width: w,
            height: OptionalU32Default { set: h.is_some(), content: h.unwrap_or(0) },
        },
    }
}

fn session() -> SessionConfig {
    SessionConfig {
        session_settings: SessionSettings {
            video: VideoSettingsDefault {
                preferred_fps_bits: 72.0f32.to_bits(),
                transcoding_view_resolution: frame_size(FrameSizeDefaultVariant::Scale, 2048, None),
                emulated_headset_view_resolution: frame_size(FrameSizeDefaultVariant::Scale, 2048, None),
                preferred_codec: CodecTypeDefaultVariant::Hevc,
                bitrate_mode: BitrateModeDefault {
                    variant: BitrateModeDefaultVariant::Adaptive,
                    constant_mbps: 30,
                },
                adapter_index: 1,
            },
            headset: HeadsetSettingsDefault {
                controllers: ControllersDefault {
                    enabled: false,
                    emulation_mode: ControllersEmulationModeDefaultVariant::ViveTracker,
                    hand_skeleton: HandSkeletonDefault { enabled: true, steamvr_input_2_0: true },
                },
                tracking_ref_only: true,
                enable_vive_tracker_proxy: false,
            },
            stream_protocol: SocketProtocolDefaultVariant::Udp,
            patches: PatchesDefault { linux_async_compute: true, linux_async_reprojection: false },
        },
        openvr_config: OpenvrConfig {
            eye_resolution_width: 0,
            eye_resolution_height: 0,
            target_eye_resolution_width: 0,
            target_eye_resolution_height: 0,
            refresh_rate: 0,
            controllers_enabled: false,
            controller_is_tracker: false,
            use_separate_hand_trackers: false,
            _controller_profile: -1,
            adapter_index: 0,
            tracking_ref_only: false,
            enable_vive_tracker_proxy: true,
            linux_async_compute: false,
            linux_async_reprojection: true,
        },
        hard_config_solidified: false,
    }
}

fn layout() -> ResolvedLayout {
    ResolvedLayout { eye_width: 3392, eye_height: 3392, target_width: 2144, target_height: 2144, refresh_rate: 90 }
}

#[test]
fn solidify_bakes_layout() {
    let mut s = session();
    s.session_settings.headset.controllers.enabled = true;
    solidify_hard_config(&mut s, layout());
    let c = s.locked_openvr_layout();
    assert_eq!(c.eye_resolution_width, 3392);
    assert_eq!(c.target_eye_resolution_height, 2144);
    assert_eq!(c.refresh_rate, 90);
    assert!(c.controllers_enabled);
    assert!(c.controller_is_tracker);
    assert_eq!(c._controller_profile, 41);
    assert!(c.use_separate_hand_trackers);
    assert_eq!(c.adapter_index, 1);
    assert!(c.tracking_ref_only);
    assert!(!c.enable_vive_tracker_proxy);
    assert!(c.linux_async_compute);
    assert!(!c.linux_async_reprojection);
    assert!(s.hard_config_solidified);
}

#[test]
fn solidify_without_controllers() {
    let mut s = session();
    s.solidify_hard_config(layout());
    let c = s.openvr_config;
    assert!(!c.controllers_enabled);
    assert!(!c.controller_is_tracker);
    assert!(!c.use_separate_hand_trackers);
    assert_eq!(c._controller_profile, 0);
}

#[test]
fn controller_profile_numbers() {
    let cases = [
        (ControllersEmulationModeDefaultVariant::RiftSTouch, 0),
        (ControllersEmulationModeDefaultVariant::Quest2Touch, 1),
        (ControllersEmulationModeDefaultVariant::Quest3Plus, 2),
        (ControllersEmulationModeDefaultVariant::QuestPro, 3),
        (ControllersEmulationModeDefaultVariant::Pico4, 10),
        (ControllersEmulationModeDefaultVariant::ValveIndex, 20),
        (ControllersEmulationModeDefaultVariant::ViveWand, 40),
        (ControllersEmulationModeDefaultVariant::ViveTracker, 41),
        (ControllersEmulationModeDefaultVariant::Custom, 500),
    ];
    for (mode, id) in cases {
        let mut s = session();
        s.session_settings.headset.controllers.enabled = true;
        s.session_settings.headset.controllers.emulation_mode = mode;
        s.session_settings.headset.controllers.hand_skeleton.enabled = false;
        s.solidify_hard_config(layout());
        assert_eq!(s.openvr_config._controller_profile, id);
        assert!(!s.openvr_config.use_separate_hand_trackers);
    }
}

#[test]
fn avp_profile_then_solidify() {
    let mut s = session();
    s.hard_config_solidified = true;
    apply_avp_profile(&mut s);
    assert!(!s.hard_config_solidified);
    assert_eq!(s.session_settings.stream_protocol, SocketProtocolDefaultVariant::Tcp);
    let c = s.session_settings.headset.controllers;
    assert!(c.enabled);
    assert_eq!(c.emulation_mode, ControllersEmulationModeDefaultVariant::ValveIndex);
    assert!(!c.hand_skeleton.enabled);
    assert!(!c.hand_skeleton.steamvr_input_2_0);
    s.solidify_hard_config(layout());
    assert_eq!(s.openvr_config._controller_profile, 20);
    assert!(s.openvr_config.controllers_enabled);
}

#[test]
fn settings_in_effect() {
    let mut s = session();
    let st = s.session_settings.to_settings();
    assert!(st.controllers.is_none());
    assert_eq!(st.transcoding_view_resolution, FrameSize::Scale(1.0f32.to_bits()));
    s.session_settings.video.transcoding_view_resolution = frame_size(FrameSizeDefaultVariant::Absolute, 3000, Some(2000));
    s.session_settings.headset.controllers.enabled = true;
    let st = s.session_settings.to_settings();
    assert_eq!(st.transcoding_view_resolution, FrameSize::Absolute { width: 3000, height: Some(2000) });
    assert_eq!(st.controllers.unwrap().hand_skeleton_steamvr_input_2_0, Some(true));
}

#[test]
fn presets_apply_and_detect() {
    let mut t = HardConfigTab::new();
    assert_eq!(t.preset, StreamingPreset::Medium);
    assert_eq!(t.detect_preset(), StreamingPreset::Medium);
    t.apply_preset(StreamingPreset::High);
    assert_eq!(t.stream_width, HEVC_HIGH_EYE_PX);
    assert_eq!(t.codec, CodecChoice::Hevc);
    assert_eq!(t.bitrate_mbps, 90);
    assert_eq!(t.preferred_fps_bits, 90.0f32.to_bits());
    assert_eq!(t.detect_preset(), StreamingPreset::High);
    t.apply_preset(StreamingPreset::Low);
    assert_eq!((t.stream_width, t.stream_height, t.bitrate_mbps), (2160, 2160, 50));
    assert_eq!(t.detect_preset(), StreamingPreset::Low);
    t.preferred_fps_bits = 90.4f32.to_bits();
    assert_eq!(t.detect_preset(), StreamingPreset::Low);
    t.preferred_fps_bits = 90.5f32.to_bits();
    assert_eq!(t.detect_preset(), StreamingPreset::Custom);
    t.preferred_fps_bits = 89.6f32.to_bits();
    assert_eq!(t.detect_preset(), StreamingPreset::Low);
    t.preferred_fps_bits = f32::NAN.to_bits();
    assert_eq!(t.detect_preset(), StreamingPreset::Custom);
    t.preferred_fps_bits = FPS_90_BITS;
    t.use_absolute_resolution = false;
    assert_eq!(t.detect_preset(), StreamingPreset::Custom);
}

#[test]
fn manual_edits_mark_custom() {
    let mut t = HardConfigTab::new();
    t.mark_custom_if_edited();
    assert_eq!(t.preset, StreamingPreset::Custom);
    t.select_preset(StreamingPreset::Low);
    assert_eq!(t.preset, StreamingPreset::Low);
    t.select_preset(StreamingPreset::Custom);
    assert_eq!(t.preset, StreamingPreset::Custom);
    assert_eq!(t.stream_width, 2160);
}

#[test]
fn write_then_sync_round_trip() {
    let mut t = HardConfigTab::new();
    t.apply_preset(StreamingPreset::High);
    t.controller_profile = ControllerProfileChoice::Pico4;
    t.hand_skeleton = true;
    t.hand_skeleton_steamvr_2 = true;
    t.stream_tcp = false;
    let mut s = session();
    s.hard_config_solidified = true;
    t.write_into_session(&mut s);
    assert!(!s.hard_config_solidified);
    let v = s.session_settings.video;
    assert_eq!(v.transcoding_view_resolution.variant, FrameSizeDefaultVariant::Absolute);
    assert_eq!(v.emulated_headset_view_resolution, v.transcoding_view_resolution);
    assert_eq!(v.bitrate_mode.variant, BitrateModeDefaultVariant::ConstantMbps);
    assert_eq!(s.session_settings.stream_protocol, SocketProtocolDefaultVariant::Udp);
    let mut u = HardConfigTab::new();
    u.sync_from_session(&s);
    assert_eq!(u.preset, StreamingPreset::High);
    assert_eq!(u.controller_profile, ControllerProfileChoice::Pico4);
    assert!(u.hand_skeleton && u.hand_skeleton_steamvr_2);
    assert!(!u.stream_tcp);
    assert_eq!(u.codec, CodecChoice::Hevc);
}

#[test]
fn sync_from_adaptive_session() {
    let mut s = session();
    s.session_settings.video.transcoding_view_resolution =
        frame_size(FrameSizeDefaultVariant::Absolute, 3400, None);
    s.session_settings.video.bitrate_mode.constant_mbps = 0;
    let mut t = HardConfigTab::new();
    t.sync_from_session(&s);
    assert_eq!(t.preset, StreamingPreset::Custom);
    assert_eq!(t.stream_height, 3400);
    assert_eq!(t.bitrate_mbps, 1);
    assert_eq!(t.controller_profile, ControllerProfileChoice::ValveIndex);
    assert!(!t.controllers_enabled);
    assert_eq!(t.preferred_fps_bits, 72.0f32.to_bits());
}

#[test]
fn hand_skeleton_input_needs_skeleton() {
    let mut t = HardConfigTab::new();
    t.hand_skeleton = false;
    t.hand_skeleton_steamvr_2 = true;
    let mut s = session();
    t.write_into_session(&mut s);
    assert!(!s.session_settings.headset.controllers.hand_skeleton.steamvr_input_2_0);
}

#[test]
fn apply_avp_defaults_with_session() {
    let mut t = HardConfigTab::new();
    t.apply_preset(StreamingPreset::High);
    let s = t.apply_avp_defaults(Some(&session())).unwrap();
    assert_eq!(t.preset, StreamingPreset::Medium);
    assert_eq!(t.status_message.as_deref(), Some("Applied AVP + Medium streaming defaults (not solidified)."));
    let v = s.session_settings.video;
    assert_eq!(v.transcoding_view_resolution.absolute.width, 3400);
    assert_eq!(v.bitrate_mode.constant_mbps, 70);
    assert_eq!(v.preferred_codec, CodecTypeDefaultVariant::H264);
    assert_eq!(s.session_settings.stream_protocol, SocketProtocolDefaultVariant::Tcp);
    assert_eq!(s.session_settings.headset.controllers.emulation_mode, ControllersEmulationModeDefaultVariant::ValveIndex);
    assert!(!s.hard_config_solidified);
}

#[test]
fn apply_avp_defaults_without_session() {
    let mut t = HardConfigTab::new();
    t.controller_profile = ControllerProfileChoice::QuestPro;
    t.hand_skeleton = true;
    t.stream_tcp = false;
    assert!(t.apply_avp_defaults(None).is_none());
    assert_eq!(t.controller_profile, ControllerProfileChoice::ValveIndex);
    assert!(!t.hand_skeleton);
    assert!(t.stream_tcp);
    assert_eq!(t.preset, StreamingPreset::Medium);
    assert_eq!(t.status_message.as_deref(), Some("Local defaults set."));
}

#[test]
fn solidify_copy_and_summary() {
    let t = HardConfigTab::new();
    let s = t.session_for_solidify(&session());
    let sum = HardConfigTab::streaming_summary(&s);
    assert_eq!((sum.width, sum.height), (3400, 3400));
    assert_eq!(sum.codec, "H.264");
    assert_eq!(sum.constant_mbps, Some(70));
    let sum = HardConfigTab::streaming_summary(&session());
    assert_eq!((sum.width, sum.height), (2048, 2048));
    assert_eq!(sum.codec, "HEVC");
    assert_eq!(sum.constant_mbps, None);
    assert_eq!(sum.preferred_fps_bits, 72.0f32.to_bits());
}

#[test]
fn labels_and_limits() {
    assert_eq!(StreamingPreset::High.description(), "90 Hz · 5000×5000 · HEVC · 90 Mbps");
    assert_eq!(StreamingPreset::Custom.label(), "Custom");
    assert_eq!(CodecChoice::Hevc.label(), "HEVC (H.265)");
    assert_eq!(CodecChoice::from_variant(&CodecChoice::Av1.to_variant()), CodecChoice::Av1);
    assert_eq!(ControllerProfileChoice::Quest3Plus.label(), "Quest 3 Touch Plus");
    assert_eq!(
        ControllerProfileChoice::from_variant(&ControllersEmulationModeDefaultVariant::ViveWand),
        ControllerProfileChoice::ValveIndex
    );
    let mut t = HardConfigTab::new();
    assert!(!t.h264_over_limit());
    t.stream_height = H264_MAX_EYE_PX + 1;
    assert!(t.h264_over_limit());
    t.codec = CodecChoice::Hevc;
    assert!(!t.h264_over_limit());
}
