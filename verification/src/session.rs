//! The part of the session configuration that hard configuration reads and
//! writes, and the baking of the SteamVR device layout ("solidify").
//!
//! Floating-point settings (refresh rate, resolution scale) are carried by their
//! IEEE-754 bit patterns; the arithmetic on them stays with the caller.

use vstd::prelude::*;

verus! {

/// SteamVR controller emulation profiles, as selected in the settings.
#[derive(Clone, Copy, Debug, PartialEq, Eq, Structural)]
pub enum ControllersEmulationModeDefaultVariant {
    RiftSTouch,
    Quest2Touch,
    Quest3Plus,
    QuestPro,
    Pico4,
    ValveIndex,
    ViveWand,
    ViveTracker,
    Custom,
}

/// The controller emulation profile in effect.
#[derive(Clone, Copy, Debug, PartialEq, Eq, Structural)]
pub enum ControllersEmulationMode {
    RiftSTouch,
    Quest2Touch,
    Quest3Plus,
    QuestPro,
    Pico4,
    ValveIndex,
    ViveWand,
    ViveTracker,
    Custom,
}

#[derive(Clone, Copy, Debug, PartialEq, Eq, Structural)]
pub enum FrameSizeDefaultVariant {
    Scale,
    Absolute,
}

#[derive(Clone, Copy, Debug, PartialEq, Eq, Structural)]
pub enum CodecTypeDefaultVariant {
    H264,
    Hevc,
    AV1,
}

#[derive(Clone, Copy, Debug, PartialEq, Eq, Structural)]
pub enum BitrateModeDefaultVariant {
    ConstantMbps,
    Adaptive,
}

#[derive(Clone, Copy, Debug, PartialEq, Eq, Structural)]
pub enum SocketProtocolDefaultVariant {
    Udp,
    Tcp,
}

/// An optional value with its last content kept while unset.
#[derive(Clone, Copy, Debug, PartialEq, Eq, Structural)]
pub struct OptionalU32Default {
    pub set: bool,
    pub content: u32,
}

#[derive(Clone, Copy, Debug, PartialEq, Eq, Structural)]
pub struct AbsoluteFrameSizeDefault {
    pub width: u32,
    pub height: OptionalU32Default,
}

/// A frame size setting: the selected variant and the content of each variant
/// (the scale as the bits of an `f32`).
#[derive(Clone, Copy, Debug, PartialEq, Eq, Structural)]
pub struct FrameSizeDefault {
    pub variant: FrameSizeDefaultVariant,
    pub scale_bits: u32,
    pub absolute: AbsoluteFrameSizeDefault,
}

/// A frame size in effect.
#[derive(Clone, Copy, Debug, PartialEq, Eq, Structural)]
pub enum FrameSize {
    /// Scale of the reference resolution (bits of an `f32`).
    Scale(u32),
    Absolute { width: u32, height: Option<u32> },
}

#[derive(Clone, Copy, Debug, PartialEq, Eq, Structural)]
pub struct BitrateModeDefault {
    pub variant: BitrateModeDefaultVariant,
    pub constant_mbps: u64,
}

#[derive(Clone, Copy, Debug, PartialEq, Eq, Structural)]
pub struct VideoSettingsDefault {
    /// Bits of an `f32` refresh rate in Hz.
    pub preferred_fps_bits: u32,
    pub transcoding_view_resolution: FrameSizeDefault,
    pub emulated_headset_view_resolution: FrameSizeDefault,
    pub preferred_codec: CodecTypeDefaultVariant,
    pub bitrate_mode: BitrateModeDefault,
    pub adapter_index: u32,
}

#[derive(Clone, Copy, Debug, PartialEq, Eq, Structural)]
pub struct HandSkeletonDefault {
    pub enabled: bool,
    pub steamvr_input_2_0: bool,
}

#[derive(Clone, Copy, Debug, PartialEq, Eq, Structural)]
pub struct ControllersDefault {
    pub enabled: bool,
    pub emulation_mode: ControllersEmulationModeDefaultVariant,
    pub hand_skeleton: HandSkeletonDefault,
}

#[derive(Clone, Copy, Debug, PartialEq, Eq, Structural)]
pub struct HeadsetSettingsDefault {
    pub controllers: ControllersDefault,
    pub tracking_ref_only: bool,
    pub enable_vive_tracker_proxy: bool,
}

#[derive(Clone, Copy, Debug, PartialEq, Eq, Structural)]
pub struct PatchesDefault {
    pub linux_async_compute: bool,
    pub linux_async_reprojection: bool,
}

/// The session's settings as the dashboard edits them.
#[derive(Clone, Copy, Debug, PartialEq, Eq, Structural)]
pub struct SessionSettings {
    pub video: VideoSettingsDefault,
    pub headset: HeadsetSettingsDefault,
    pub stream_protocol: SocketProtocolDefaultVariant,
    pub patches: PatchesDefault,
}

/// The device layout that the SteamVR driver reads at start.
#[derive(Clone, Copy, Debug, PartialEq, Eq, Structural)]
pub struct OpenvrConfig {
    pub eye_resolution_width: u32,
    pub eye_resolution_height: u32,
    pub target_eye_resolution_width: u32,
    pub target_eye_resolution_height: u32,
    pub refresh_rate: u32,
    pub controllers_enabled: bool,
    pub controller_is_tracker: bool,
    pub use_separate_hand_trackers: bool,
    pub _controller_profile: i32,
    pub adapter_index: u32,
    pub tracking_ref_only: bool,
    pub enable_vive_tracker_proxy: bool,
    pub linux_async_compute: bool,
    pub linux_async_reprojection: bool,
}

#[derive(Clone, Copy, Debug, PartialEq, Eq, Structural)]
pub struct SessionConfig {
    pub session_settings: SessionSettings,
    pub openvr_config: OpenvrConfig,
    pub hard_config_solidified: bool,
}

/// Settings of the controllers when they are enabled.
#[derive(Clone, Copy, Debug, PartialEq, Eq, Structural)]
pub struct ControllersConfig {
    pub emulation_mode: ControllersEmulationMode,
    /// `Some` when the hand skeleton is enabled: whether SteamVR input 2.0 is used.
    pub hand_skeleton_steamvr_input_2_0: Option<bool>,
}

/// The settings in effect that solidifying reads.
#[derive(Clone, Copy, Debug, PartialEq, Eq, Structural)]
pub struct Settings {
    pub transcoding_view_resolution: FrameSize,
    pub emulated_headset_view_resolution: FrameSize,
    pub preferred_fps_bits: u32,
    pub adapter_index: u32,
    pub controllers: Option<ControllersConfig>,
    pub tracking_ref_only: bool,
    pub enable_vive_tracker_proxy: bool,
    pub linux_async_compute: bool,
    pub linux_async_reprojection: bool,
}

pub open spec fn mode_of_variant(v: ControllersEmulationModeDefaultVariant) -> ControllersEmulationMode {
    match v {
        ControllersEmulationModeDefaultVariant::RiftSTouch => ControllersEmulationMode::RiftSTouch,
        ControllersEmulationModeDefaultVariant::Quest2Touch => ControllersEmulationMode::Quest2Touch,
        ControllersEmulationModeDefaultVariant::Quest3Plus => ControllersEmulationMode::Quest3Plus,
        ControllersEmulationModeDefaultVariant::QuestPro => ControllersEmulationMode::QuestPro,
        ControllersEmulationModeDefaultVariant::Pico4 => ControllersEmulationMode::Pico4,
        ControllersEmulationModeDefaultVariant::ValveIndex => ControllersEmulationMode::ValveIndex,
        ControllersEmulationModeDefaultVariant::ViveWand => ControllersEmulationMode::ViveWand,
        ControllersEmulationModeDefaultVariant::ViveTracker => ControllersEmulationMode::ViveTracker,
        ControllersEmulationModeDefaultVariant::Custom => ControllersEmulationMode::Custom,
    }
}

pub fn mode_from_variant(v: ControllersEmulationModeDefaultVariant) -> (m: ControllersEmulationMode)
    ensures
        m == mode_of_variant(v),
{
    match v {
        ControllersEmulationModeDefaultVariant::RiftSTouch => ControllersEmulationMode::RiftSTouch,
        ControllersEmulationModeDefaultVariant::Quest2Touch => ControllersEmulationMode::Quest2Touch,
        ControllersEmulationModeDefaultVariant::Quest3Plus => ControllersEmulationMode::Quest3Plus,
        ControllersEmulationModeDefaultVariant::QuestPro => ControllersEmulationMode::QuestPro,
        ControllersEmulationModeDefaultVariant::Pico4 => ControllersEmulationMode::Pico4,
        ControllersEmulationModeDefaultVariant::ValveIndex => ControllersEmulationMode::ValveIndex,
        ControllersEmulationModeDefaultVariant::ViveWand => ControllersEmulationMode::ViveWand,
        ControllersEmulationModeDefaultVariant::ViveTracker => ControllersEmulationMode::ViveTracker,
        ControllersEmulationModeDefaultVariant::Custom => ControllersEmulationMode::Custom,
    }
}

pub open spec fn frame_size_of(f: FrameSizeDefault) -> FrameSize {
    match f.variant {
        FrameSizeDefaultVariant::Scale => FrameSize::Scale(f.scale_bits),
        FrameSizeDefaultVariant::Absolute => FrameSize::Absolute {
            width: f.absolute.width,
            height: if f.absolute.height.set { Some(f.absolute.height.content) } else { None },
        },
    }
}

pub fn frame_size_from(f: &FrameSizeDefault) -> (r: FrameSize)
    ensures
        r == frame_size_of(*f),
{
    match f.variant {
        FrameSizeDefaultVariant::Scale => FrameSize::Scale(f.scale_bits),
        FrameSizeDefaultVariant::Absolute => FrameSize::Absolute {
            width: f.absolute.width,
            height: if f.absolute.height.set { Some(f.absolute.height.content) } else { None },
        },
    }
}

/// The settings in effect: each switch and variant resolved to its selected content.
pub open spec fn settings_of(s: SessionSettings) -> Settings {
    Settings {
        transcoding_view_resolution: frame_size_of(s.video.transcoding_view_resolution),
        emulated_headset_view_resolution: frame_size_of(s.video.emulated_headset_view_resolution),
        preferred_fps_bits: s.video.preferred_fps_bits,
        adapter_index: s.video.adapter_index,
        controllers: if s.headset.controllers.enabled {
            Some(
                ControllersConfig {
                    emulation_mode: mode_of_variant(s.headset.controllers.emulation_mode),
                    hand_skeleton_steamvr_input_2_0: if s.headset.controllers.hand_skeleton.enabled {
                        Some(s.headset.controllers.hand_skeleton.steamvr_input_2_0)
                    } else {
                        None
                    },
                },
            )
        } else {
            None
        },
        tracking_ref_only: s.headset.tracking_ref_only,
        enable_vive_tracker_proxy: s.headset.enable_vive_tracker_proxy,
        linux_async_compute: s.patches.linux_async_compute,
        linux_async_reprojection: s.patches.linux_async_reprojection,
    }
}

/// The number that the SteamVR driver uses for a controller profile.
pub open spec fn controller_profile_id(m: ControllersEmulationMode) -> i32 {
    match m {
        ControllersEmulationMode::RiftSTouch => 0,
        ControllersEmulationMode::Quest2Touch => 1,
        ControllersEmulationMode::Quest3Plus => 2,
        ControllersEmulationMode::QuestPro => 3,
        ControllersEmulationMode::Pico4 => 10,
        ControllersEmulationMode::ValveIndex => 20,
        ControllersEmulationMode::ViveWand => 40,
        ControllersEmulationMode::ViveTracker => 41,
        ControllersEmulationMode::Custom => 500,
    }
}

/// Resolutions and refresh rate worked out from the frame size and refresh rate
/// settings, which solidifying bakes.
#[derive(Clone, Copy, Debug, PartialEq, Eq, Structural)]
pub struct ResolvedLayout {
    pub eye_width: u32,
    pub eye_height: u32,
    pub target_width: u32,
    pub target_height: u32,
    pub refresh_rate: u32,
}

/// The device layout baked from the settings and the resolved resolutions.
pub open spec fn baked_layout(old: OpenvrConfig, s: Settings, r: ResolvedLayout) -> OpenvrConfig {
    OpenvrConfig {
        eye_resolution_width: r.eye_width,
        eye_resolution_height: r.eye_height,
        target_eye_resolution_width: r.target_width,
        target_eye_resolution_height: r.target_height,
        refresh_rate: r.refresh_rate,
        controllers_enabled: s.controllers is Some,
        controller_is_tracker: s.controllers matches Some(c) && c.emulation_mode
            == ControllersEmulationMode::ViveTracker,
        use_separate_hand_trackers: s.controllers matches Some(c)
            && c.hand_skeleton_steamvr_input_2_0 == Some(true),
        _controller_profile: match s.controllers {
            Some(c) => controller_profile_id(c.emulation_mode),
            None => 0,
        },
        adapter_index: s.adapter_index,
        tracking_ref_only: s.tracking_ref_only,
        enable_vive_tracker_proxy: s.enable_vive_tracker_proxy,
        linux_async_compute: s.linux_async_compute,
        linux_async_reprojection: s.linux_async_reprojection,
    }
}

impl SessionSettings {
    /// The settings in effect.
    pub fn to_settings(&self) -> (s: Settings)
        ensures
            s == settings_of(*self),
    {
        let c = &self.headset.controllers;
        Settings {
            transcoding_view_resolution: frame_size_from(&self.video.transcoding_view_resolution),
            emulated_headset_view_resolution: frame_size_from(
                &self.video.emulated_headset_view_resolution,
            ),
            preferred_fps_bits: self.video.preferred_fps_bits,
            adapter_index: self.video.adapter_index,
            controllers: if c.enabled {
                Some(
                    ControllersConfig {
                        emulation_mode: mode_from_variant(c.emulation_mode),
                        hand_skeleton_steamvr_input_2_0: if c.hand_skeleton.enabled {
                            Some(c.hand_skeleton.steamvr_input_2_0)
                        } else {
                            None
                        },
                    },
                )
            } else {
                None
            },
            tracking_ref_only: self.headset.tracking_ref_only,
            enable_vive_tracker_proxy: self.headset.enable_vive_tracker_proxy,
            linux_async_compute: self.patches.linux_async_compute,
            linux_async_reprojection: self.patches.linux_async_reprojection,
        }
    }
}

/// Bakes the hard layout into `openvr_config` and marks the session solidified;
/// `layout` holds the resolutions and refresh rate resolved from the settings.
pub fn solidify_hard_config(session: &mut SessionConfig, layout: ResolvedLayout)
    ensures
        final(session).session_settings == old(session).session_settings,
        final(session).openvr_config == baked_layout(
            old(session).openvr_config,
            settings_of(old(session).session_settings),
            layout,
        ),
        final(session).hard_config_solidified,
        final(session).openvr_config.use_separate_hand_trackers == ({
            let c = old(session).session_settings.headset.controllers;
            c.enabled && c.hand_skeleton.enabled && c.hand_skeleton.steamvr_input_2_0
        }),
{
    let settings = session.session_settings.to_settings();
    let mut controller_is_tracker = false;
    let mut controller_profile: i32 = 0;
    let mut use_separate_hand_trackers = false;
    let controllers_enabled = match settings.controllers {
        Some(config) => {
            controller_is_tracker = match config.emulation_mode {
                ControllersEmulationMode::ViveTracker => true,
                _ => false,
            };
            controller_profile = match config.emulation_mode {
                ControllersEmulationMode::RiftSTouch => 0,
                ControllersEmulationMode::Quest2Touch => 1,
                ControllersEmulationMode::Quest3Plus => 2,
                ControllersEmulationMode::QuestPro => 3,
                ControllersEmulationMode::Pico4 => 10,
                ControllersEmulationMode::ValveIndex => 20,
                ControllersEmulationMode::ViveWand => 40,
                ControllersEmulationMode::ViveTracker => 41,
                ControllersEmulationMode::Custom => 500,
            };
            use_separate_hand_trackers = match config.hand_skeleton_steamvr_input_2_0 {
                Some(v) => v,
                None => false,
            };
            true
        },
        None => false,
    };
    let cfg = &mut session.openvr_config;
    cfg.eye_resolution_width = layout.eye_width;
    cfg.eye_resolution_height = layout.eye_height;
    cfg.target_eye_resolution_width = layout.target_width;
    cfg.target_eye_resolution_height = layout.target_height;
    cfg.refresh_rate = layout.refresh_rate;
    cfg.controllers_enabled = controllers_enabled;
    cfg.controller_is_tracker = controller_is_tracker;
    cfg.use_separate_hand_trackers = use_separate_hand_trackers;
    cfg._controller_profile = controller_profile;
    cfg.adapter_index = settings.adapter_index;
    cfg.tracking_ref_only = settings.tracking_ref_only;
    cfg.enable_vive_tracker_proxy = settings.enable_vive_tracker_proxy;
    cfg.linux_async_compute = settings.linux_async_compute;
    cfg.linux_async_reprojection = settings.linux_async_reprojection;
    session.hard_config_solidified = true;
}

/// The session with the defaults for the App Store Vision Pro client:
/// controllers on as Valve Index, no hand skeleton, TCP streaming, not solidified.
pub open spec fn avp_profile_of(s: SessionConfig) -> SessionConfig {
    let ss = s.session_settings;
    let c = ss.headset.controllers;
    SessionConfig {
        session_settings: SessionSettings {
            headset: HeadsetSettingsDefault {
                controllers: ControllersDefault {
                    enabled: true,
                    emulation_mode: ControllersEmulationModeDefaultVariant::ValveIndex,
                    hand_skeleton: HandSkeletonDefault { enabled: false, steamvr_input_2_0: false },
                },
                ..ss.headset
            },
            stream_protocol: SocketProtocolDefaultVariant::Tcp,
            ..ss
        },
        hard_config_solidified: false,
        ..s
    }
}

/// Applies the defaults for the App Store Vision Pro client.
pub fn apply_avp_profile(session: &mut SessionConfig)
    ensures
        *final(session) == avp_profile_of(*old(session)),
{
    session.session_settings.headset.controllers.enabled = true;
    session.session_settings.headset.controllers.emulation_mode =
        ControllersEmulationModeDefaultVariant::ValveIndex;
    session.session_settings.headset.controllers.hand_skeleton.enabled = false;
    session.session_settings.headset.controllers.hand_skeleton.steamvr_input_2_0 = false;
    session.session_settings.stream_protocol = SocketProtocolDefaultVariant::Tcp;
    session.hard_config_solidified = false;
}

impl SessionConfig {
    pub fn solidify_hard_config(&mut self, layout: ResolvedLayout)
        ensures
            final(self).session_settings == old(self).session_settings,
            final(self).openvr_config == baked_layout(
                old(self).openvr_config,
                settings_of(old(self).session_settings),
                layout,
            ),
            final(self).hard_config_solidified,
    {
        solidify_hard_config(self, layout);
    }

    pub fn apply_avp_profile(&mut self)
        ensures
            *final(self) == avp_profile_of(*old(self)),
    {
        apply_avp_profile(self);
    }

    pub fn locked_openvr_layout(&self) -> (c: &OpenvrConfig)
        ensures
            *c == self.openvr_config,
    {
        &self.openvr_config
    }
}

/// Solidifying after applying the Vision Pro defaults bakes Valve Index
/// controllers (profile 20) without tracker emulation or separate hand trackers.
pub proof fn lemma_avp_then_solidify(s: SessionConfig, r: ResolvedLayout)
    ensures
        ({
            let c = baked_layout(
                avp_profile_of(s).openvr_config,
                settings_of(avp_profile_of(s).session_settings),
                r,
            );
            &&& c.controllers_enabled
            &&& !c.controller_is_tracker
            &&& !c.use_separate_hand_trackers
            &&& c._controller_profile == 20
        }),
{
}

/// What solidifying bakes, read off the session's own settings: controllers
/// are on exactly when enabled in the settings; separate hand trackers exactly
/// when the controllers, their hand skeleton and its SteamVR input 2.0 setting
/// are all enabled; tracker emulation exactly for enabled Vive Tracker
/// controllers; the profile number is the driver's number for the selected
/// profile (0 without controllers); the resolutions and refresh rate are the
/// resolved ones; the pass-through settings are copied.
pub proof fn lemma_solidify_reads_settings(s0: SessionConfig, s1: SessionConfig, layout: ResolvedLayout)
    requires
        s1.openvr_config == baked_layout(s0.openvr_config, settings_of(s0.session_settings), layout),
    ensures
        ({
            let c = s0.session_settings.headset.controllers;
            let o = s1.openvr_config;
            &&& o.controllers_enabled == c.enabled
            &&& o.use_separate_hand_trackers == (c.enabled && c.hand_skeleton.enabled
                && c.hand_skeleton.steamvr_input_2_0)
            &&& o.controller_is_tracker == (c.enabled && c.emulation_mode
                == ControllersEmulationModeDefaultVariant::ViveTracker)
            &&& o._controller_profile == if !c.enabled {
                0i32
            } else {
                match c.emulation_mode {
                    ControllersEmulationModeDefaultVariant::RiftSTouch => 0i32,
                    ControllersEmulationModeDefaultVariant::Quest2Touch => 1i32,
                    ControllersEmulationModeDefaultVariant::Quest3Plus => 2i32,
                    ControllersEmulationModeDefaultVariant::QuestPro => 3i32,
                    ControllersEmulationModeDefaultVariant::Pico4 => 10i32,
                    ControllersEmulationModeDefaultVariant::ValveIndex => 20i32,
                    ControllersEmulationModeDefaultVariant::ViveWand => 40i32,
                    ControllersEmulationModeDefaultVariant::ViveTracker => 41i32,
                    ControllersEmulationModeDefaultVariant::Custom => 500i32,
                }
            }
            &&& o.eye_resolution_width == layout.eye_width
            &&& o.eye_resolution_height == layout.eye_height
            &&& o.target_eye_resolution_width == layout.target_width
            &&& o.target_eye_resolution_height == layout.target_height
            &&& o.refresh_rate == layout.refresh_rate
            &&& o.adapter_index == s0.session_settings.video.adapter_index
            &&& o.tracking_ref_only == s0.session_settings.headset.tracking_ref_only
            &&& o.enable_vive_tracker_proxy == s0.session_settings.headset.enable_vive_tracker_proxy
            &&& o.linux_async_compute == s0.session_settings.patches.linux_async_compute
            &&& o.linux_async_reprojection == s0.session_settings.patches.linux_async_reprojection
        }),
{
}

} // verus!
