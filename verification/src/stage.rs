//! Pipeline stages and profiling levels.

use vstd::prelude::*;
use crate::text::{chars_of, trim_chars, ascii_lower_chars, chars_eq, trim, ascii_lower_seq};

verus! {

/// A stage of the frame pipeline; the numeric ids are shared with the C++ side.
#[derive(Clone, Copy, Debug, PartialEq, Eq, Structural)]
pub enum Stage {
    TrackingRx,
    PosePublish,
    PresentSubmit,
    PresentRecv,
    StampPick,
    RenderGpu,
    EncodePush,
    EncodeGet,
    NalParse,
    FfiCopy,
    ChannelEnqueue,
    ChannelDequeue,
    StreamCopy,
    TcpSend,
    ClientStatsMatch,
    IpcPresentDelay,
    PoseHistoryLock,
    /// Catch-all / custom
    Other,
}

/// The numeric id of a stage.
pub open spec fn stage_id(s: Stage) -> u8 {
    match s {
        Stage::TrackingRx => 0,
        Stage::PosePublish => 1,
        Stage::PresentSubmit => 2,
        Stage::PresentRecv => 3,
        Stage::StampPick => 4,
        Stage::RenderGpu => 5,
        Stage::EncodePush => 6,
        Stage::EncodeGet => 7,
        Stage::NalParse => 8,
        Stage::FfiCopy => 9,
        Stage::ChannelEnqueue => 10,
        Stage::ChannelDequeue => 11,
        Stage::StreamCopy => 12,
        Stage::TcpSend => 13,
        Stage::ClientStatsMatch => 14,
        Stage::IpcPresentDelay => 15,
        Stage::PoseHistoryLock => 16,
        Stage::Other => 255,
    }
}

/// The stage with a given id; ids without a stage map to `Other`.
pub open spec fn stage_of_id(v: u8) -> Stage {
    if v == 0 { Stage::TrackingRx }
    else if v == 1 { Stage::PosePublish }
    else if v == 2 { Stage::PresentSubmit }
    else if v == 3 { Stage::PresentRecv }
    else if v == 4 { Stage::StampPick }
    else if v == 5 { Stage::RenderGpu }
    else if v == 6 { Stage::EncodePush }
    else if v == 7 { Stage::EncodeGet }
    else if v == 8 { Stage::NalParse }
    else if v == 9 { Stage::FfiCopy }
    else if v == 10 { Stage::ChannelEnqueue }
    else if v == 11 { Stage::ChannelDequeue }
    else if v == 12 { Stage::StreamCopy }
    else if v == 13 { Stage::TcpSend }
    else if v == 14 { Stage::ClientStatsMatch }
    else if v == 15 { Stage::IpcPresentDelay }
    else if v == 16 { Stage::PoseHistoryLock }
    else { Stage::Other }
}

impl Stage {
    pub fn from_u8(v: u8) -> (s: Stage)
        ensures
            s == stage_of_id(v),
    {
        match v {
            0 => Stage::TrackingRx,
            1 => Stage::PosePublish,
            2 => Stage::PresentSubmit,
            3 => Stage::PresentRecv,
            4 => Stage::StampPick,
            5 => Stage::RenderGpu,
            6 => Stage::EncodePush,
            7 => Stage::EncodeGet,
            8 => Stage::NalParse,
            9 => Stage::FfiCopy,
            10 => Stage::ChannelEnqueue,
            11 => Stage::ChannelDequeue,
            12 => Stage::StreamCopy,
            13 => Stage::TcpSend,
            14 => Stage::ClientStatsMatch,
            15 => Stage::IpcPresentDelay,
            16 => Stage::PoseHistoryLock,
            _ => Stage::Other,
        }
    }

    /// The stage's numeric id (`stage as u8`).
    pub fn to_u8(self) -> (v: u8)
        ensures
            v == stage_id(self),
    {
        match self {
            Stage::TrackingRx => 0,
            Stage::PosePublish => 1,
            Stage::PresentSubmit => 2,
            Stage::PresentRecv => 3,
            Stage::StampPick => 4,
            Stage::RenderGpu => 5,
            Stage::EncodePush => 6,
            Stage::EncodeGet => 7,
            Stage::NalParse => 8,
            Stage::FfiCopy => 9,
            Stage::ChannelEnqueue => 10,
            Stage::ChannelDequeue => 11,
            Stage::StreamCopy => 12,
            Stage::TcpSend => 13,
            Stage::ClientStatsMatch => 14,
            Stage::IpcPresentDelay => 15,
            Stage::PoseHistoryLock => 16,
            Stage::Other => 255,
        }
    }
}

/// Every stage survives a round trip through its id.
pub proof fn lemma_stage_id_round_trip(s: Stage)
    ensures
        stage_of_id(stage_id(s)) == s,
{
}

/// Every id of a named stage survives a round trip through the stage.
pub proof fn lemma_id_stage_round_trip(v: u8)
    requires
        v <= 16 || v == 255,
    ensures
        stage_id(stage_of_id(v)) == v,
{
}


/// The name of a stage as it appears in the profile output.
pub open spec fn stage_name(s: Stage) -> Seq<char> {
    match s {
        Stage::TrackingRx => "tracking_rx"@,
        Stage::PosePublish => "pose_publish"@,
        Stage::PresentSubmit => "present_submit"@,
        Stage::PresentRecv => "present_recv"@,
        Stage::StampPick => "stamp_pick"@,
        Stage::RenderGpu => "render_gpu"@,
        Stage::EncodePush => "encode_push"@,
        Stage::EncodeGet => "encode_get"@,
        Stage::NalParse => "nal_parse"@,
        Stage::FfiCopy => "ffi_copy"@,
        Stage::ChannelEnqueue => "channel_enqueue"@,
        Stage::ChannelDequeue => "channel_dequeue"@,
        Stage::StreamCopy => "stream_copy"@,
        Stage::TcpSend => "tcp_send"@,
        Stage::ClientStatsMatch => "client_stats_match"@,
        Stage::IpcPresentDelay => "ipc_present_delay"@,
        Stage::PoseHistoryLock => "pose_history_lock"@,
        Stage::Other => "other"@,
    }
}

impl Stage {
    pub fn name(self) -> (n: &'static str)
        ensures
            n@ == stage_name(self),
    {
        match self {
            Stage::TrackingRx => "tracking_rx",
            Stage::PosePublish => "pose_publish",
            Stage::PresentSubmit => "present_submit",
            Stage::PresentRecv => "present_recv",
            Stage::StampPick => "stamp_pick",
            Stage::RenderGpu => "render_gpu",
            Stage::EncodePush => "encode_push",
            Stage::EncodeGet => "encode_get",
            Stage::NalParse => "nal_parse",
            Stage::FfiCopy => "ffi_copy",
            Stage::ChannelEnqueue => "channel_enqueue",
            Stage::ChannelDequeue => "channel_dequeue",
            Stage::StreamCopy => "stream_copy",
            Stage::TcpSend => "tcp_send",
            Stage::ClientStatsMatch => "client_stats_match",
            Stage::IpcPresentDelay => "ipc_present_delay",
            Stage::PoseHistoryLock => "pose_history_lock",
            Stage::Other => "other",
        }
    }
}

/// How much the profiler records.
#[derive(Clone, Copy, Debug, PartialEq, Eq, Structural)]
pub enum Level {
    Off,
    Summary,
    Frame,
    Detail,
}

/// The value that the process-wide level cell holds for a level.
pub open spec fn level_id(l: Level) -> u8 {
    match l {
        Level::Off => 0,
        Level::Summary => 1,
        Level::Frame => 2,
        Level::Detail => 3,
    }
}

/// The level that a value of the level cell stands for.
pub open spec fn level_of_id(raw: u8) -> Level {
    if raw == 1 {
        Level::Summary
    } else if raw == 2 {
        Level::Frame
    } else if raw == 3 {
        Level::Detail
    } else {
        Level::Off
    }
}

impl Level {
    /// The level's numeric value (`level as u8`).
    pub fn to_u8(self) -> (v: u8)
        ensures
            v == level_id(self),
    {
        match self {
            Level::Off => 0,
            Level::Summary => 1,
            Level::Frame => 2,
            Level::Detail => 3,
        }
    }
}

/// The current level, given the value `raw` of the process-wide level cell.
pub fn level(raw: u8) -> (l: Level)
    ensures
        l == level_of_id(raw),
{
    match raw {
        1 => Level::Summary,
        2 => Level::Frame,
        3 => Level::Detail,
        _ => Level::Off,
    }
}

/// Whether profiling is on, given the value `raw` of the level cell.
pub fn enabled(raw: u8) -> (b: bool)
    ensures
        b == (raw != 0),
{
    raw != 0
}

/// Whether per-span lines are written, given the value `raw` of the level cell.
pub fn is_frame(raw: u8) -> (b: bool)
    ensures
        b == (raw >= level_id(Level::Frame)),
{
    raw >= Level::Frame.to_u8()
}

/// Whether detail marks are on, given the value `raw` of the level cell.
pub fn is_detail(raw: u8) -> (b: bool)
    ensures
        b == (raw >= level_id(Level::Detail)),
{
    raw >= Level::Detail.to_u8()
}

/// The level that a setting text selects: it is trimmed and compared without ASCII case.
pub open spec fn level_of_text(raw: Seq<char>) -> Level {
    let t = ascii_lower_seq(trim(raw));
    if t == ""@ || t == "0"@ || t == "off"@ || t == "false"@ || t == "no"@ {
        Level::Off
    } else if t == "1"@ || t == "summary"@ || t == "on"@ || t == "true"@ || t == "yes"@ {
        Level::Summary
    } else if t == "2"@ || t == "frame"@ {
        Level::Frame
    } else if t == "3"@ || t == "detail"@ {
        Level::Detail
    } else {
        Level::Off
    }
}

fn is_word(t: &Vec<char>, w: &str) -> (b: bool)
    ensures
        b == (t@ == w@),
{
    let wv = chars_of(w);
    chars_eq(t, &wv)
}

/// The level selected by the text of the profiling setting.
pub fn parse_level(raw: &str) -> (l: Level)
    ensures
        l == level_of_text(raw@),
{
    let v = chars_of(raw);
    let trimmed = trim_chars(&v);
    let t = ascii_lower_chars(&trimmed);
    if is_word(&t, "") || is_word(&t, "0") || is_word(&t, "off") || is_word(&t, "false")
        || is_word(&t, "no") {
        Level::Off
    } else if is_word(&t, "1") || is_word(&t, "summary") || is_word(&t, "on") || is_word(
        &t,
        "true",
    ) || is_word(&t, "yes") {
        Level::Summary
    } else if is_word(&t, "2") || is_word(&t, "frame") {
        Level::Frame
    } else if is_word(&t, "3") || is_word(&t, "detail") {
        Level::Detail
    } else {
        Level::Off
    }
}

/// The name of a level.
pub open spec fn level_text(l: Level) -> Seq<char> {
    match l {
        Level::Off => "off"@,
        Level::Summary => "summary"@,
        Level::Frame => "frame"@,
        Level::Detail => "detail"@,
    }
}

pub fn level_name(l: Level) -> (n: &'static str)
    ensures
        n@ == level_text(l),
{
    match l {
        Level::Off => "off",
        Level::Summary => "summary",
        Level::Frame => "frame",
        Level::Detail => "detail",
    }
}

/// Every level survives a round trip through the level cell.
pub proof fn lemma_level_cell_round_trip(l: Level)
    ensures
        level_of_id(level_id(l)) == l,
        (level_id(l) != 0) <==> l != Level::Off,
        (level_id(l) >= level_id(Level::Frame)) <==> (l == Level::Frame || l == Level::Detail),
        (level_id(l) >= level_id(Level::Detail)) <==> l == Level::Detail,
{
}

/// Parsing the name of a level gives that level back.
pub proof fn lemma_parse_level_name(l: Level)
    ensures
        level_of_text(level_text(l)) == l,
{
    reveal_strlit("off");
    reveal_strlit("summary");
    reveal_strlit("frame");
    reveal_strlit("detail");
    reveal_strlit("");
    reveal_strlit("0");
    reveal_strlit("false");
    reveal_strlit("no");
    reveal_strlit("1");
    reveal_strlit("on");
    reveal_strlit("true");
    reveal_strlit("yes");
    reveal_strlit("2");
    reveal_strlit("3");
    let s = level_text(l);
    assert(crate::text::leading_ws(s) == 0);
    assert(s.skip(0) =~= s);
    assert(crate::text::trailing_ws(s) == 0);
    assert(s.take(s.len() as int) =~= s);
    assert(trim(s) == s);
    assert(ascii_lower_seq(s) =~= s);
    match l {
        Level::Off => {},
        Level::Summary => {
            assert(s != ""@ && s != "0"@ && s != "off"@ && s != "false"@ && s != "no"@) by {
                assert(s.len() != "false"@.len());
            }
        },
        Level::Frame => {
            assert(s != "false"@) by { assert(s[1] != "false"@[1]); }
        },
        Level::Detail => {
            assert(s != "false"@) by { assert(s.len() != "false"@.len()); }
            assert(s != "summary"@) by { assert(s.len() != "summary"@.len()); }
        },
    }
}

/// The level a text selects does not change when the text is first trimmed and
/// lower-cased: `parse_level(s) == parse_level(s.trim().to_ascii_lowercase())`.
pub proof fn lemma_parse_level_normalized(s: Seq<char>)
    ensures
        level_of_text(ascii_lower_seq(trim(s))) == level_of_text(s),
{
    crate::text::lemma_normalize_idempotent(s);
}

} // verus!
