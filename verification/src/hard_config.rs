//! The dashboard's pre-launch streaming configuration: presets, the editable
//! values, and how they are read from and written into the session.

use vstd::prelude::*;
use crate::session::{
    SessionConfig, SessionSettings, CodecTypeDefaultVariant, ControllersEmulationModeDefaultVariant,
    FrameSizeDefaultVariant, BitrateModeDefaultVariant, SocketProtocolDefaultVariant,
    OptionalU32Default, AbsoluteFrameSizeDefault, FrameSizeDefault, avp_profile_of,
};

verus! {

/// Practical H.264 per-eye limit on this Linux/NVENC stack (stream fails above ~3500).
pub const H264_MAX_EYE_PX: u32 = 3500;

/// High preset / HEVC target.
pub const HEVC_HIGH_EYE_PX: u32 = 5000;

/// Bits of the `f32` 90.0 (Hz), the refresh rate of every preset.
pub const FPS_90_BITS: u32 = 0x42B4_0000;

/// For the `f32` with bits `bits`: whether it lies within 0.5 of 90.0, that is
/// strictly between 89.5 (bits `0x42B30000`) and 90.5 (bits `0x42B50000`). Positive
/// finite `f32`s are ordered as their bits; negatives, infinities and NaNs have bits
/// outside this range.
pub open spec fn fps_near_90(bits: u32) -> bool {
    0x42B3_0000 < bits && bits < 0x42B5_0000
}

#[derive(Clone, Copy, PartialEq, Eq, Debug, Structural)]
pub enum StreamingPreset {
    Low,
    Medium,
    High,
    Custom,
}

impl StreamingPreset {
    pub fn label(self) -> (s: &'static str)
        ensures
            s@ == match self {
                StreamingPreset::Low => "Low"@,
                StreamingPreset::Medium => "Medium"@,
                StreamingPreset::High => "High"@,
                StreamingPreset::Custom => "Custom"@,
            },
    {
        match self {
            StreamingPreset::Low => "Low",
            StreamingPreset::Medium => "Medium",
            StreamingPreset::High => "High",
            StreamingPreset::Custom => "Custom",
        }
    }

    pub fn description(self) -> (s: &'static str)
        ensures
            s@ == match self {
                StreamingPreset::Low => "90 Hz · 2160×2160 · H.264 · 50 Mbps"@,
                StreamingPreset::Medium => "90 Hz · 3400×3400 · H.264 · 70 Mbps"@,
                StreamingPreset::High => "90 Hz · 5000×5000 · HEVC · 90 Mbps"@,
                StreamingPreset::Custom => "Manual values below"@,
            },
    {
        match self {
            StreamingPreset::Low => "90 Hz · 2160×2160 · H.264 · 50 Mbps",
            StreamingPreset::Medium => "90 Hz · 3400×3400 · H.264 · 70 Mbps",
            StreamingPreset::High => "90 Hz · 5000×5000 · HEVC · 90 Mbps",
            StreamingPreset::Custom => "Manual values below",
        }
    }
}

#[derive(Clone, Copy, PartialEq, Eq, Debug, Structural)]
pub enum CodecChoice {
    H264,
    Hevc,
    Av1,
}

pub open spec fn codec_variant(c: CodecChoice) -> CodecTypeDefaultVariant {
    match c {
        CodecChoice::H264 => CodecTypeDefaultVariant::H264,
        CodecChoice::Hevc => CodecTypeDefaultVariant::Hevc,
        CodecChoice::Av1 => CodecTypeDefaultVariant::AV1,
    }
}

pub open spec fn codec_of_variant(v: CodecTypeDefaultVariant) -> CodecChoice {
    match v {
        CodecTypeDefaultVariant::H264 => CodecChoice::H264,
        CodecTypeDefaultVariant::Hevc => CodecChoice::Hevc,
        CodecTypeDefaultVariant::AV1 => CodecChoice::Av1,
    }
}

impl CodecChoice {
    pub fn label(self) -> (s: &'static str)
        ensures
            s@ == match self {
                CodecChoice::H264 => "H.264"@,
                CodecChoice::Hevc => "HEVC (H.265)"@,
                CodecChoice::Av1 => "AV1"@,
            },
    {
        match self {
            CodecChoice::H264 => "H.264",
            CodecChoice::Hevc => "HEVC (H.265)",
            CodecChoice::Av1 => "AV1",
        }
    }

    pub fn avp_note(self) -> (s: &'static str)
        ensures
            s@ == match self {
                CodecChoice::H264 => "AVP OK. Practical max ~3500×3500 per eye on this stack."@,
                CodecChoice::Hevc => "AVP OK. Can use higher res (e.g. 5000×5000)."@,
                CodecChoice::Av1 => "Not supported for App Store AVP — stream typically fails to start."@,
            },
    {
        match self {
            CodecChoice::H264 => "AVP OK. Practical max ~3500×3500 per eye on this stack.",
            CodecChoice::Hevc => "AVP OK. Can use higher res (e.g. 5000×5000).",
            CodecChoice::Av1 => "Not supported for App Store AVP — stream typically fails to start.",
        }
    }

    pub fn to_variant(self) -> (v: CodecTypeDefaultVariant)
        ensures
            v == codec_variant(self),
    {
        match self {
            CodecChoice::H264 => CodecTypeDefaultVariant::H264,
            CodecChoice::Hevc => CodecTypeDefaultVariant::Hevc,
            CodecChoice::Av1 => CodecTypeDefaultVariant::AV1,
        }
    }

    pub fn from_variant(v: &CodecTypeDefaultVariant) -> (c: CodecChoice)
        ensures
            c == codec_of_variant(*v),
    {
        match v {
            CodecTypeDefaultVariant::H264 => CodecChoice::H264,
            CodecTypeDefaultVariant::Hevc => CodecChoice::Hevc,
            CodecTypeDefaultVariant::AV1 => CodecChoice::Av1,
        }
    }
}

#[derive(Clone, Copy, PartialEq, Eq, Debug, Structural)]
pub enum ControllerProfileChoice {
    ValveIndex,
    Quest3Plus,
    Quest2Touch,
    QuestPro,
    Pico4,
    RiftSTouch,
}

pub open spec fn profile_variant(c: ControllerProfileChoice) -> ControllersEmulationModeDefaultVariant {
    match c {
        ControllerProfileChoice::ValveIndex => ControllersEmulationModeDefaultVariant::ValveIndex,
        ControllerProfileChoice::Quest3Plus => ControllersEmulationModeDefaultVariant::Quest3Plus,
        ControllerProfileChoice::Quest2Touch => ControllersEmulationModeDefaultVariant::Quest2Touch,
        ControllerProfileChoice::QuestPro => ControllersEmulationModeDefaultVariant::QuestPro,
        ControllerProfileChoice::Pico4 => ControllersEmulationModeDefaultVariant::Pico4,
        ControllerProfileChoice::RiftSTouch => ControllersEmulationModeDefaultVariant::RiftSTouch,
    }
}

/// The choice shown for a profile; profiles without a choice show as Valve Index.
pub open spec fn profile_of_variant(v: ControllersEmulationModeDefaultVariant) -> ControllerProfileChoice {
    match v {
        ControllersEmulationModeDefaultVariant::ValveIndex => ControllerProfileChoice::ValveIndex,
        ControllersEmulationModeDefaultVariant::Quest3Plus => ControllerProfileChoice::Quest3Plus,
        ControllersEmulationModeDefaultVariant::Quest2Touch => ControllerProfileChoice::Quest2Touch,
        ControllersEmulationModeDefaultVariant::QuestPro => ControllerProfileChoice::QuestPro,
        ControllersEmulationModeDefaultVariant::Pico4 => ControllerProfileChoice::Pico4,
        ControllersEmulationModeDefaultVariant::RiftSTouch => ControllerProfileChoice::RiftSTouch,
        _ => ControllerProfileChoice::ValveIndex,
    }
}

impl ControllerProfileChoice {
    pub fn label(self) -> (s: &'static str)
        ensures
            s@ == match self {
                ControllerProfileChoice::ValveIndex => "Valve Index"@,
                ControllerProfileChoice::Quest3Plus => "Quest 3 Touch Plus"@,
                ControllerProfileChoice::Quest2Touch => "Quest 2 Touch"@,
                ControllerProfileChoice::QuestPro => "Quest Pro"@,
                ControllerProfileChoice::Pico4 => "Pico 4"@,
                ControllerProfileChoice::RiftSTouch => "Rift S Touch"@,
            },
    {
        match self {
            ControllerProfileChoice::ValveIndex => "Valve Index",
            ControllerProfileChoice::Quest3Plus => "Quest 3 Touch Plus",
            ControllerProfileChoice::Quest2Touch => "Quest 2 Touch",
            ControllerProfileChoice::QuestPro => "Quest Pro",
            ControllerProfileChoice::Pico4 => "Pico 4",
            ControllerProfileChoice::RiftSTouch => "Rift S Touch",
        }
    }

    pub fn to_variant(self) -> (v: ControllersEmulationModeDefaultVariant)
        ensures
            v == profile_variant(self),
    {
        match self {
            ControllerProfileChoice::ValveIndex => ControllersEmulationModeDefaultVariant::ValveIndex,
            ControllerProfileChoice::Quest3Plus => ControllersEmulationModeDefaultVariant::Quest3Plus,
            ControllerProfileChoice::Quest2Touch => ControllersEmulationModeDefaultVariant::Quest2Touch,
            ControllerProfileChoice::QuestPro => ControllersEmulationModeDefaultVariant::QuestPro,
            ControllerProfileChoice::Pico4 => ControllersEmulationModeDefaultVariant::Pico4,
            ControllerProfileChoice::RiftSTouch => ControllersEmulationModeDefaultVariant::RiftSTouch,
        }
    }

    pub fn from_variant(v: &ControllersEmulationModeDefaultVariant) -> (c: ControllerProfileChoice)
        ensures
            c == profile_of_variant(*v),
    {
        match v {
            ControllersEmulationModeDefaultVariant::ValveIndex => ControllerProfileChoice::ValveIndex,
            ControllersEmulationModeDefaultVariant::Quest3Plus => ControllerProfileChoice::Quest3Plus,
            ControllersEmulationModeDefaultVariant::Quest2Touch => ControllerProfileChoice::Quest2Touch,
            ControllersEmulationModeDefaultVariant::QuestPro => ControllerProfileChoice::QuestPro,
            ControllersEmulationModeDefaultVariant::Pico4 => ControllerProfileChoice::Pico4,
            ControllersEmulationModeDefaultVariant::RiftSTouch => ControllerProfileChoice::RiftSTouch,
            _ => ControllerProfileChoice::ValveIndex,
        }
    }
}

/// Round trip of the profile choices through the settings.
pub proof fn lemma_profile_round_trip(c: ControllerProfileChoice)
    ensures
        profile_of_variant(profile_variant(c)) == c,
{
}

/// Each codec choice is written to the session as the codec of the same name
/// (H.264 as H264, HEVC as Hevc, AV1 as AV1), and each session codec is read
/// back as the choice of the same name.
pub proof fn lemma_codec_same_name(c: CodecChoice, v: CodecTypeDefaultVariant)
    ensures
        (codec_variant(c) == CodecTypeDefaultVariant::H264) <==> (c == CodecChoice::H264),
        (codec_variant(c) == CodecTypeDefaultVariant::Hevc) <==> (c == CodecChoice::Hevc),
        (codec_variant(c) == CodecTypeDefaultVariant::AV1) <==> (c == CodecChoice::Av1),
        (codec_of_variant(v) == CodecChoice::H264) <==> (v == CodecTypeDefaultVariant::H264),
        (codec_of_variant(v) == CodecChoice::Hevc) <==> (v == CodecTypeDefaultVariant::Hevc),
        (codec_of_variant(v) == CodecChoice::Av1) <==> (v == CodecTypeDefaultVariant::AV1),
{
}

/// Each controller profile choice is written as the settings profile of the
/// same name, and read back from it; the settings profiles that have no choice
/// (Vive Wand, Vive Tracker, Custom) read back as Valve Index.
pub proof fn lemma_profile_same_name(c: ControllerProfileChoice, v: ControllersEmulationModeDefaultVariant)
    ensures
        (profile_variant(c) == ControllersEmulationModeDefaultVariant::ValveIndex) <==> (c == ControllerProfileChoice::ValveIndex),
        (profile_variant(c) == ControllersEmulationModeDefaultVariant::Quest3Plus) <==> (c == ControllerProfileChoice::Quest3Plus),
        (profile_variant(c) == ControllersEmulationModeDefaultVariant::Quest2Touch) <==> (c == ControllerProfileChoice::Quest2Touch),
        (profile_variant(c) == ControllersEmulationModeDefaultVariant::QuestPro) <==> (c == ControllerProfileChoice::QuestPro),
        (profile_variant(c) == ControllersEmulationModeDefaultVariant::Pico4) <==> (c == ControllerProfileChoice::Pico4),
        (profile_variant(c) == ControllersEmulationModeDefaultVariant::RiftSTouch) <==> (c == ControllerProfileChoice::RiftSTouch),
        (profile_of_variant(v) == ControllerProfileChoice::Quest3Plus) <==> (v == ControllersEmulationModeDefaultVariant::Quest3Plus),
        (profile_of_variant(v) == ControllerProfileChoice::Quest2Touch) <==> (v == ControllersEmulationModeDefaultVariant::Quest2Touch),
        (profile_of_variant(v) == ControllerProfileChoice::QuestPro) <==> (v == ControllersEmulationModeDefaultVariant::QuestPro),
        (profile_of_variant(v) == ControllerProfileChoice::Pico4) <==> (v == ControllersEmulationModeDefaultVariant::Pico4),
        (profile_of_variant(v) == ControllerProfileChoice::RiftSTouch) <==> (v == ControllersEmulationModeDefaultVariant::RiftSTouch),
        (profile_of_variant(v) == ControllerProfileChoice::ValveIndex) <==> (
            v == ControllersEmulationModeDefaultVariant::ValveIndex
            || v == ControllersEmulationModeDefaultVariant::ViveWand
            || v == ControllersEmulationModeDefaultVariant::ViveTracker
            || v == ControllersEmulationModeDefaultVariant::Custom),
{
}

/// Round trip of the codec choices through the settings.
pub proof fn lemma_codec_round_trip(c: CodecChoice, v: CodecTypeDefaultVariant)
    ensures
        codec_of_variant(codec_variant(c)) == c,
        codec_variant(codec_of_variant(v)) == v,
{
}


/// The dashboard's streaming configuration being edited.
pub struct HardConfigTab {
    pub preset: StreamingPreset,
    /// Bits of the `f32` refresh rate in Hz.
    pub preferred_fps_bits: u32,
    pub stream_width: u32,
    pub stream_height: u32,
    pub use_absolute_resolution: bool,
    pub codec: CodecChoice,
    pub bitrate_mbps: u64,
    pub controllers_enabled: bool,
    pub controller_profile: ControllerProfileChoice,
    pub hand_skeleton: bool,
    pub hand_skeleton_steamvr_2: bool,
    pub stream_tcp: bool,
    pub status_message: Option<String>,
    /// Skip auto Custom flip while applying a preset.
    pub applying_preset: bool,
}

/// Whether the edited values are those of a preset with the given size, codec and
/// bitrate at 90 Hz.
pub open spec fn matches_values(
    t: HardConfigTab,
    w: u32,
    h: u32,
    codec: CodecChoice,
    br: u64,
) -> bool {
    &&& t.stream_width == w
    &&& t.stream_height == h
    &&& fps_near_90(t.preferred_fps_bits)
    &&& t.codec == codec
    &&& t.bitrate_mbps == br
}

/// The preset whose values are being edited, `Custom` when none.
pub open spec fn detected_preset(t: HardConfigTab) -> StreamingPreset {
    if !t.use_absolute_resolution {
        StreamingPreset::Custom
    } else if matches_values(t, 2160, 2160, CodecChoice::H264, 50) {
        StreamingPreset::Low
    } else if matches_values(t, 3400, 3400, CodecChoice::H264, 70) {
        StreamingPreset::Medium
    } else if matches_values(t, HEVC_HIGH_EYE_PX, HEVC_HIGH_EYE_PX, CodecChoice::Hevc, 90) {
        StreamingPreset::High
    } else {
        StreamingPreset::Custom
    }
}

/// The values after selecting preset `p` (a `Custom` preset keeps the values).
pub open spec fn preset_applied(t: HardConfigTab, p: StreamingPreset) -> HardConfigTab {
    let t1 = HardConfigTab { preset: p, use_absolute_resolution: true, applying_preset: false, ..t };
    match p {
        StreamingPreset::Low => HardConfigTab {
            preferred_fps_bits: FPS_90_BITS,
            stream_width: 2160,
            stream_height: 2160,
            codec: CodecChoice::H264,
            bitrate_mbps: 50,
            ..t1
        },
        StreamingPreset::Medium => HardConfigTab {
            preferred_fps_bits: FPS_90_BITS,
            stream_width: 3400,
            stream_height: 3400,
            codec: CodecChoice::H264,
            bitrate_mbps: 70,
            ..t1
        },
        StreamingPreset::High => HardConfigTab {
            preferred_fps_bits: FPS_90_BITS,
            stream_width: HEVC_HIGH_EYE_PX,
            stream_height: HEVC_HIGH_EYE_PX,
            codec: CodecChoice::Hevc,
            bitrate_mbps: 90,
            ..t1
        },
        StreamingPreset::Custom => t1,
    }
}

/// The values read from a session's settings.
pub open spec fn synced(t: HardConfigTab, ss: SessionSettings) -> HardConfigTab {
    let v = ss.video;
    let abs = v.transcoding_view_resolution.absolute;
    let t1 = HardConfigTab {
        preferred_fps_bits: v.preferred_fps_bits,
        use_absolute_resolution: v.transcoding_view_resolution.variant
            == FrameSizeDefaultVariant::Absolute,
        stream_width: abs.width,
        stream_height: if !abs.height.set {
            abs.width
        } else if abs.height.content >= 1 {
            abs.height.content
        } else {
            1
        },
        codec: codec_of_variant(v.preferred_codec),
        bitrate_mbps: if v.bitrate_mode.constant_mbps >= 1 { v.bitrate_mode.constant_mbps } else { 1 },
        controllers_enabled: ss.headset.controllers.enabled,
        controller_profile: profile_of_variant(ss.headset.controllers.emulation_mode),
        hand_skeleton: ss.headset.controllers.hand_skeleton.enabled,
        hand_skeleton_steamvr_2: ss.headset.controllers.hand_skeleton.steamvr_input_2_0,
        stream_tcp: ss.stream_protocol == SocketProtocolDefaultVariant::Tcp,
        ..t
    };
    HardConfigTab {
        preset: if v.bitrate_mode.variant == BitrateModeDefaultVariant::ConstantMbps {
            detected_preset(t1)
        } else {
            StreamingPreset::Custom
        },
        ..t1
    }
}

/// The session with the edited values written into its settings; it is no
/// longer solidified.
pub open spec fn written(t: HardConfigTab, s: SessionConfig) -> SessionConfig {
    let ss = s.session_settings;
    let v = ss.video;
    let res = if t.use_absolute_resolution {
        FrameSizeDefault {
            variant: FrameSizeDefaultVariant::Absolute,
            absolute: AbsoluteFrameSizeDefault {
                width: t.stream_width,
                height: OptionalU32Default { set: true, content: t.stream_height },
            },
            ..v.transcoding_view_resolution
        }
    } else {
        v.transcoding_view_resolution
    };
    let emulated = if t.use_absolute_resolution { res } else { v.emulated_headset_view_resolution };
    let c = ss.headset.controllers;
    SessionConfig {
        session_settings: SessionSettings {
            video: crate::session::VideoSettingsDefault {
                preferred_fps_bits: t.preferred_fps_bits,
                transcoding_view_resolution: res,
                emulated_headset_view_resolution: emulated,
                preferred_codec: codec_variant(t.codec),
                bitrate_mode: crate::session::BitrateModeDefault {
                    variant: BitrateModeDefaultVariant::ConstantMbps,
                    constant_mbps: t.bitrate_mbps,
                },
                ..v
            },
            headset: crate::session::HeadsetSettingsDefault {
                controllers: crate::session::ControllersDefault {
                    enabled: t.controllers_enabled,
                    emulation_mode: profile_variant(t.controller_profile),
                    hand_skeleton: crate::session::HandSkeletonDefault {
                        enabled: t.hand_skeleton,
                        steamvr_input_2_0: t.hand_skeleton && t.hand_skeleton_steamvr_2,
                    },
                },
                ..ss.headset
            },
            stream_protocol: if t.stream_tcp {
                SocketProtocolDefaultVariant::Tcp
            } else {
                SocketProtocolDefaultVariant::Udp
            },
            ..ss
        },
        hard_config_solidified: false,
        ..s
    }
}

/// What the settings summary line shows.
pub struct StreamingSummary {
    /// Bits of the `f32` refresh rate in Hz.
    pub preferred_fps_bits: u32,
    pub width: u32,
    pub height: u32,
    pub codec: &'static str,
    /// `Some(mbps)` for constant bitrate, `None` for adaptive.
    pub constant_mbps: Option<u64>,
}

impl HardConfigTab {
    /// The Medium preset at 90 Hz, Valve Index controllers, TCP.
    pub fn new() -> (t: HardConfigTab)
        ensures
            t.preset == StreamingPreset::Medium,
            t.preferred_fps_bits == FPS_90_BITS,
            t.stream_width == 3400,
            t.stream_height == 3400,
            t.use_absolute_resolution,
            t.codec == CodecChoice::H264,
            t.bitrate_mbps == 70,
            t.controllers_enabled,
            t.controller_profile == ControllerProfileChoice::ValveIndex,
            !t.hand_skeleton,
            !t.hand_skeleton_steamvr_2,
            t.stream_tcp,
            t.status_message is None,
            !t.applying_preset,
    {
        HardConfigTab {
            preset: StreamingPreset::Medium,
            preferred_fps_bits: FPS_90_BITS,
            stream_width: 3400,
            stream_height: 3400,
            use_absolute_resolution: true,
            codec: CodecChoice::H264,
            bitrate_mbps: 70,
            controllers_enabled: true,
            controller_profile: ControllerProfileChoice::ValveIndex,
            hand_skeleton: false,
            hand_skeleton_steamvr_2: false,
            stream_tcp: true,
            status_message: None,
            applying_preset: false,
        }
    }

    /// After a manual edit: the preset becomes `Custom` unless a preset is being applied.
    pub fn mark_custom_if_edited(&mut self)
        ensures
            *final(self) == (if !old(self).applying_preset && old(self).preset
                != StreamingPreset::Custom {
                HardConfigTab { preset: StreamingPreset::Custom, ..*old(self) }
            } else {
                *old(self)
            }),
    {
        if !self.applying_preset && self.preset != StreamingPreset::Custom {
            self.preset = StreamingPreset::Custom;
        }
    }

    /// Selects a preset and sets its values.
    pub fn apply_preset(&mut self, preset: StreamingPreset)
        ensures
            *final(self) == preset_applied(*old(self), preset),
    {
        self.applying_preset = true;
        self.preset = preset;
        self.use_absolute_resolution = true;
        match preset {
            StreamingPreset::Low => {
                self.preferred_fps_bits = FPS_90_BITS;
                self.stream_width = 2160;
                self.stream_height = 2160;
                self.codec = CodecChoice::H264;
                self.bitrate_mbps = 50;
            },
            StreamingPreset::Medium => {
                self.preferred_fps_bits = FPS_90_BITS;
                self.stream_width = 3400;
                self.stream_height = 3400;
                self.codec = CodecChoice::H264;
                self.bitrate_mbps = 70;
            },
            StreamingPreset::High => {
                self.preferred_fps_bits = FPS_90_BITS;
                self.stream_width = HEVC_HIGH_EYE_PX;
                self.stream_height = HEVC_HIGH_EYE_PX;
                self.codec = CodecChoice::Hevc;
                self.bitrate_mbps = 90;
            },
            StreamingPreset::Custom => {},
        }
        self.applying_preset = false;
    }

    fn fps_is_near_90(&self) -> (b: bool)
        ensures
            b == fps_near_90(self.preferred_fps_bits),
    {
        0x42B3_0000 < self.preferred_fps_bits && self.preferred_fps_bits < 0x42B5_0000
    }

    fn matches(&self, w: u32, h: u32, codec: CodecChoice, br: u64) -> (b: bool)
        ensures
            b == matches_values(*self, w, h, codec, br),
    {
        self.stream_width == w && self.stream_height == h && self.fps_is_near_90() && self.codec
            == codec && self.bitrate_mbps == br
    }

    /// The preset whose values are being edited, `Custom` when none.
    pub fn detect_preset(&self) -> (p: StreamingPreset)
        ensures
            p == detected_preset(*self),
    {
        if !self.use_absolute_resolution {
            return StreamingPreset::Custom;
        }
        if self.matches(2160, 2160, CodecChoice::H264, 50) {
            StreamingPreset::Low
        } else if self.matches(3400, 3400, CodecChoice::H264, 70) {
            StreamingPreset::Medium
        } else if self.matches(HEVC_HIGH_EYE_PX, HEVC_HIGH_EYE_PX, CodecChoice::Hevc, 90) {
            StreamingPreset::High
        } else {
            StreamingPreset::Custom
        }
    }

    /// Reads the values from the session's settings.
    pub fn sync_from_session(&mut self, session: &SessionConfig)
        ensures
            *final(self) == synced(*old(self), session.session_settings),
    {
        let ss = &session.session_settings;
        self.preferred_fps_bits = ss.video.preferred_fps_bits;
        self.use_absolute_resolution = match ss.video.transcoding_view_resolution.variant {
            FrameSizeDefaultVariant::Absolute => true,
            _ => false,
        };
        self.stream_width = ss.video.transcoding_view_resolution.absolute.width;
        let hc = ss.video.transcoding_view_resolution.absolute.height.content;
        self.stream_height = if hc >= 1 { hc } else { 1 };
        if !ss.video.transcoding_view_resolution.absolute.height.set {
            self.stream_height = self.stream_width;
        }
        self.codec = CodecChoice::from_variant(&ss.video.preferred_codec);
        let mbps = ss.video.bitrate_mode.constant_mbps;
        self.bitrate_mbps = if mbps >= 1 { mbps } else { 1 };
        self.controllers_enabled = ss.headset.controllers.enabled;
        self.controller_profile = ControllerProfileChoice::from_variant(
            &ss.headset.controllers.emulation_mode,
        );
        self.hand_skeleton = ss.headset.controllers.hand_skeleton.enabled;
        self.hand_skeleton_steamvr_2 = ss.headset.controllers.hand_skeleton.steamvr_input_2_0;
        self.stream_tcp = match ss.stream_protocol {
            SocketProtocolDefaultVariant::Tcp => true,
            _ => false,
        };
        self.preset = match ss.video.bitrate_mode.variant {
            BitrateModeDefaultVariant::ConstantMbps => self.detect_preset(),
            _ => StreamingPreset::Custom,
        };
    }

    /// Selects a preset from the preset row: a real preset sets its values,
    /// `Custom` only marks the values as manual.
    pub fn select_preset(&mut self, p: StreamingPreset)
        ensures
            *final(self) == if p != StreamingPreset::Custom {
                preset_applied(*old(self), p)
            } else {
                HardConfigTab { preset: StreamingPreset::Custom, ..*old(self) }
            },
    {
        if p != StreamingPreset::Custom {
            self.apply_preset(p);
        } else {
            self.preset = StreamingPreset::Custom;
        }
    }

    /// Whether the size is over what H.264 streams reliably on this stack.
    pub fn h264_over_limit(&self) -> (b: bool)
        ensures
            b == (self.codec == CodecChoice::H264 && (self.stream_width > H264_MAX_EYE_PX
                || self.stream_height > H264_MAX_EYE_PX)),
    {
        self.codec == CodecChoice::H264 && (self.stream_width > H264_MAX_EYE_PX
            || self.stream_height > H264_MAX_EYE_PX)
    }

    /// What the settings summary line shows for a session: its refresh rate, the
    /// absolute size (the height is the width when unset), codec and bitrate mode.
    pub fn streaming_summary(session: &SessionConfig) -> (r: StreamingSummary)
        ensures
            ({
                let v = session.session_settings.video;
                let abs = v.transcoding_view_resolution.absolute;
                &&& r.preferred_fps_bits == v.preferred_fps_bits
                &&& r.width == abs.width
                &&& r.height == if abs.height.set { abs.height.content } else { abs.width }
                &&& r.codec@ == match v.preferred_codec {
                    CodecTypeDefaultVariant::H264 => "H.264"@,
                    CodecTypeDefaultVariant::Hevc => "HEVC"@,
                    CodecTypeDefaultVariant::AV1 => "AV1"@,
                }
                &&& r.constant_mbps == match v.bitrate_mode.variant {
                    BitrateModeDefaultVariant::ConstantMbps => Some(v.bitrate_mode.constant_mbps),
                    BitrateModeDefaultVariant::Adaptive => None,
                }
            }),
    {
        let v = &session.session_settings.video;
        let w = v.transcoding_view_resolution.absolute.width;
        let h = if v.transcoding_view_resolution.absolute.height.set {
            v.transcoding_view_resolution.absolute.height.content
        } else {
            w
        };
        let codec = match v.preferred_codec {
            CodecTypeDefaultVariant::H264 => "H.264",
            CodecTypeDefaultVariant::Hevc => "HEVC",
            CodecTypeDefaultVariant::AV1 => "AV1",
        };
        let constant_mbps = match v.bitrate_mode.variant {
            BitrateModeDefaultVariant::ConstantMbps => Some(v.bitrate_mode.constant_mbps),
            BitrateModeDefaultVariant::Adaptive => None,
        };
        StreamingSummary { preferred_fps_bits: v.preferred_fps_bits, width: w, height: h, codec, constant_mbps }
    }

    /// The "Apply AVP defaults" action: with a session, its copy gets the Vision Pro
    /// profile and the Medium streaming values, the values are read back from it,
    /// and the copy is returned to be applied; without one, only the local values
    /// take the Medium preset and the Vision Pro controller and connection choices.
    pub fn apply_avp_defaults(&mut self, session: Option<&SessionConfig>) -> (r: Option<SessionConfig>)
        ensures
            match session {
                Some(s) => {
                    let s1 = avp_profile_of(*s);
                    let t1 = synced(preset_applied(*old(self), StreamingPreset::Medium), s1.session_settings);
                    let t2 = preset_applied(t1, StreamingPreset::Medium);
                    let s2 = written(t2, s1);
                    let t3 = synced(t2, s2.session_settings);
                    &&& r == Some(s2)
                    &&& final(self).status_message matches Some(m)
                    &&& m@ == "Applied AVP + Medium streaming defaults (not solidified)."@
                    &&& *final(self) == HardConfigTab { status_message: final(self).status_message, ..t3 }
                },
                None => {
                    let t1 = preset_applied(*old(self), StreamingPreset::Medium);
                    &&& r is None
                    &&& final(self).status_message matches Some(m)
                    &&& m@ == "Local defaults set."@
                    &&& *final(self) == HardConfigTab {
                        controller_profile: ControllerProfileChoice::ValveIndex,
                        hand_skeleton: false,
                        stream_tcp: true,
                        status_message: final(self).status_message,
                        ..t1
                    }
                },
            },
    {
        match session {
            Some(session) => {
                let mut s = *session;
                s.apply_avp_profile();
                self.apply_preset(StreamingPreset::Medium);
                self.sync_from_session(&s);
                self.apply_preset(StreamingPreset::Medium);
                self.write_into_session(&mut s);
                self.sync_from_session(&s);
                self.status_message = Some(
                    "Applied AVP + Medium streaming defaults (not solidified).".to_owned(),
                );
                Some(s)
            },
            None => {
                self.apply_preset(StreamingPreset::Medium);
                self.controller_profile = ControllerProfileChoice::ValveIndex;
                self.hand_skeleton = false;
                self.stream_tcp = true;
                self.status_message = Some("Local defaults set.".to_owned());
                None
            },
        }
    }

    /// A copy of the session with the edited values written into it, ready to be
    /// solidified ("Solidify & Launch SteamVR", "Save streaming config only").
    pub fn session_for_solidify(&self, session: &SessionConfig) -> (s: SessionConfig)
        ensures
            s == written(*self, *session),
    {
        let mut s = *session;
        self.write_into_session(&mut s);
        s
    }

    /// Writes the values into the session's settings; the session is then no
    /// longer solidified.
    pub fn write_into_session(&self, session: &mut SessionConfig)
        ensures
            *final(session) == written(*self, *old(session)),
    {
        let ss = &mut session.session_settings;
        ss.video.preferred_fps_bits = self.preferred_fps_bits;
        if self.use_absolute_resolution {
            ss.video.transcoding_view_resolution.variant = FrameSizeDefaultVariant::Absolute;
            ss.video.transcoding_view_resolution.absolute.width = self.stream_width;
            ss.video.transcoding_view_resolution.absolute.height.set = true;
            ss.video.transcoding_view_resolution.absolute.height.content = self.stream_height;
            ss.video.emulated_headset_view_resolution = ss.video.transcoding_view_resolution;
        }
        ss.video.preferred_codec = self.codec.to_variant();
        ss.video.bitrate_mode.variant = BitrateModeDefaultVariant::ConstantMbps;
        ss.video.bitrate_mode.constant_mbps = self.bitrate_mbps;
        ss.headset.controllers.enabled = self.controllers_enabled;
        ss.headset.controllers.emulation_mode = self.controller_profile.to_variant();
        ss.headset.controllers.hand_skeleton.enabled = self.hand_skeleton;
        ss.headset.controllers.hand_skeleton.steamvr_input_2_0 = self.hand_skeleton
            && self.hand_skeleton_steamvr_2;
        ss.stream_protocol = if self.stream_tcp {
            SocketProtocolDefaultVariant::Tcp
        } else {
            SocketProtocolDefaultVariant::Udp
        };
        session.hard_config_solidified = false;
    }
}


/// A preset's values are recognised as that preset.
pub proof fn lemma_preset_detected(t: HardConfigTab, p: StreamingPreset)
    requires
        p != StreamingPreset::Custom,
    ensures
        detected_preset(preset_applied(t, p)) == p,
{
}

/// Writing the values into a session and reading them back gives the same
/// values, when the size is absolute, the height and bitrate are at least 1, the
/// SteamVR input 2.0 choice is only on with the hand skeleton, and the preset is
/// the one the values match.
pub proof fn lemma_write_then_sync(t: HardConfigTab, s: SessionConfig)
    requires
        t.use_absolute_resolution,
        t.stream_height >= 1,
        t.bitrate_mbps >= 1,
        t.hand_skeleton || !t.hand_skeleton_steamvr_2,
        t.preset == detected_preset(t),
    ensures
        synced(t, written(t, s).session_settings) == t,
{
    lemma_profile_round_trip(t.controller_profile);
    lemma_codec_round_trip(t.codec, CodecTypeDefaultVariant::H264);
    let t1 = synced(t, written(t, s).session_settings);
    assert(t1 == t);
}

/// "Apply AVP defaults" on a session: the session gets the Vision Pro profile
/// (Valve Index controllers, no hand skeleton, TCP, not solidified) with the
/// Medium streaming values at 90 Hz and constant bitrate, and the dashboard shows
/// the Medium preset.
pub proof fn lemma_apply_avp_defaults(t: HardConfigTab, s: SessionConfig)
    ensures
        ({
            let s1 = avp_profile_of(s);
            let t1 = synced(preset_applied(t, StreamingPreset::Medium), s1.session_settings);
            let t2 = preset_applied(t1, StreamingPreset::Medium);
            let s2 = written(t2, s1);
            let t3 = synced(t2, s2.session_settings);
            let v = s2.session_settings.video;
            let c = s2.session_settings.headset.controllers;
            &&& v.preferred_fps_bits == FPS_90_BITS
            &&& v.transcoding_view_resolution.variant == FrameSizeDefaultVariant::Absolute
            &&& v.transcoding_view_resolution.absolute.width == 3400
            &&& v.transcoding_view_resolution.absolute.height == (OptionalU32Default { set: true, content: 3400 })
            &&& v.emulated_headset_view_resolution == v.transcoding_view_resolution
            &&& v.preferred_codec == CodecTypeDefaultVariant::H264
            &&& v.bitrate_mode.variant == BitrateModeDefaultVariant::ConstantMbps
            &&& v.bitrate_mode.constant_mbps == 70
            &&& c.enabled
            &&& c.emulation_mode == ControllersEmulationModeDefaultVariant::ValveIndex
            &&& !c.hand_skeleton.enabled
            &&& !c.hand_skeleton.steamvr_input_2_0
            &&& s2.session_settings.stream_protocol == SocketProtocolDefaultVariant::Tcp
            &&& !s2.hard_config_solidified
            &&& t3.preset == StreamingPreset::Medium
        }),
{
}

} // verus!
