use alvr_streamer::agg::Agg;
use alvr_streamer::profiler::{
    flush_summary_now, mark, maybe_emit_summary, next_power_of_two, record, record_inner,
    record_raw, State,
};
use alvr_streamer::span::{libc_timespec, resolve_profile_settings, timespec_to_ns, CSpanTable, Span, Timespec};
use alvr_streamer::stage::{enabled, is_detail, is_frame, level, level_name, parse_level, Level, Stage};

#[test]
fn stage_ids_round_trip() {
    for v in 0u8..=16 {
        assert_eq!(Stage::from_u8(v).to_u8(), v);
    }
    assert_eq!(Stage::from_u8(17), Stage::Other);
    assert_eq!(Stage::from_u8(200), Stage::Other);
    assert_eq!(Stage::Other.to_u8(), 255);
    assert_eq!(Stage::EncodePush.to_u8(), 6);
    assert_eq!(Stage::IpcPresentDelay.to_u8(), 15);
}

#[test]
fn stage_names() {
    assert_eq!(Stage::EncodePush.name(), "encode_push");
    assert_eq!(Stage::TcpSend.name(), "tcp_send");
    assert_eq!(Stage::IpcPresentDelay.name(), "ipc_present_delay");
    assert_eq!(Stage::from_u8(99).name(), "other");
}

#[test]
fn level_cell_values() {
    assert_eq!(level(0), Level::Off);
    assert_eq!(level(1), Level::Summary);
    assert_eq!(level(2), Level::Frame);
    assert_eq!(level(3), Level::Detail);
    assert_eq!(level(9), Level::Off);
    assert!(!enabled(0));
    assert!(enabled(1));
    assert!(!is_frame(1));
    assert!(is_frame(2));
    assert!(is_frame(3));
    assert!(!is_detail(2));
    assert!(is_detail(3));
    for l in [Level::Off, Level::Summary, Level::Frame, Level::Detail] {
        assert_eq!(level(l.to_u8()), l);
    }
}

#[test]
fn parse_level_words() {
    assert_eq!(parse_level(""), Level::Off);
    assert_eq!(parse_level("off"), Level::Off);
    assert_eq!(parse_level("0"), Level::Off);
    assert_eq!(parse_level("no"), Level::Off);
    assert_eq!(parse_level("1"), Level::Summary);
    assert_eq!(parse_level("  SUMMARY \n"), Level::Summary);
    assert_eq!(parse_level("Yes"), Level::Summary);
    assert_eq!(parse_level("on"), Level::Summary);
    assert_eq!(parse_level("frame"), Level::Frame);
    assert_eq!(parse_level("2"), Level::Frame);
    assert_eq!(parse_level("\u{3000}detail\t"), Level::Detail);
    assert_eq!(parse_level("3"), Level::Detail);
    assert_eq!(parse_level("verbose"), Level::Off);
    for l in [Level::Off, Level::Summary, Level::Frame, Level::Detail] {
        assert_eq!(parse_level(level_name(l)), l);
    }
}

#[test]
fn agg_percentiles_small() {
    let mut a = Agg::new();
    assert_eq!(a.percentiles_us(), (0, 0, 0, 0));
    for us in [7u32, 3, 10, 1, 9, 2, 8, 4, 6, 5] {
        a.push_us(us);
    }
    assert_eq!(a.count(), 10);
    // sorted 1..=10: mean 5, p50 index 5, p95 and p99 index 9
    assert_eq!(a.percentiles_us(), (5, 6, 10, 10));
}

#[test]
fn agg_keeps_last_512() {
    let mut a = Agg::new();
    for us in 0u32..600 {
        a.push_us(us);
    }
    assert_eq!(a.count(), 512);
    // window 88..=599
    assert_eq!(a.percentiles_us(), (343, 344, 573, 594));
}

#[test]
fn agg_single_sample() {
    let mut a = Agg::new();
    a.push_us(42);
    assert_eq!(a.percentiles_us(), (42, 42, 42, 42));
}

#[test]
fn next_power_of_two_values() {
    assert_eq!(next_power_of_two(0), 1);
    assert_eq!(next_power_of_two(1), 1);
    assert_eq!(next_power_of_two(1000), 1024);
    assert_eq!(next_power_of_two(1024), 1024);
    assert_eq!(next_power_of_two(1025), 2048);
    assert_eq!(next_power_of_two(65536), 65536);
}

#[test]
fn state_ring_capacity() {
    let st = State::new(0, "/tmp/x".to_string(), 2000, 0);
    assert_eq!(st.ring_capacity(), 1024);
    let st = State::new(5000, "/tmp/x".to_string(), 2000, 0);
    assert_eq!(st.ring_capacity(), 8192);
    assert_eq!(st.path(), "/tmp/x");
}

#[test]
fn record_off_does_nothing() {
    let mut st = Some(State::new(0, "/tmp/p".to_string(), 0, 0));
    assert!(record(&mut st, 0, Stage::EncodePush, 1, 0, 5000, 0, 7).is_none());
    assert!(maybe_emit_summary(&mut st, 0, 10).is_none());
    assert!(maybe_emit_summary(&mut st, 1, 10).is_none());
}

#[test]
fn record_without_state() {
    let mut st: Option<State> = None;
    assert!(record(&mut st, 2, Stage::EncodePush, 1, 0, 5000, 0, 7).is_none());
    assert!(st.is_none());
}

#[test]
fn record_frame_line_and_summary() {
    let mut st = Some(State::new(0, "/tmp/p".to_string(), 0, 100));
    let line = record(&mut st, 2, Stage::EncodePush, 42, 1_000, 201_000, 9, 77).expect("frame line");
    assert_eq!(line.type_, "span");
    assert_eq!(line.stage, "encode_push");
    assert_eq!(line.stage_id, 6);
    assert_eq!(line.frame_id, 42);
    assert_eq!(line.start_ns, 1_000);
    assert_eq!(line.end_ns, 201_000);
    assert_eq!(line.dur_us, 200);
    assert_eq!(line.extra, 9);
    assert_eq!(line.tid, 77);
    // end before start counts as zero duration
    let line = record(&mut st, 2, Stage::TcpSend, 1, 500, 100, 0, 0).unwrap();
    assert_eq!(line.dur_us, 0);
    let summary = flush_summary_now(&mut st, 2, 100).expect("summary");
    assert_eq!(summary.stages.len(), 2);
    assert_eq!(summary.stages[0].stage, "encode_push");
    assert_eq!(summary.stages[0].n, 1);
    assert_eq!(summary.stages[0].p50_us, 200);
    assert_eq!(summary.stages[1].stage, "tcp_send");
    assert_eq!(summary.stages[1].mean_us, 0);
    assert_eq!(summary.frames_seen, 0);
    assert_eq!(summary.dropped, 0);
}

#[test]
fn summary_level_only_no_lines() {
    let mut st = Some(State::new(0, "/tmp/p".to_string(), 0, 0));
    assert!(record(&mut st, 1, Stage::EncodeGet, 1, 0, 3_000, 0, 0).is_none());
    assert!(record(&mut st, 1, Stage::ClientStatsMatch, 1, 0, 1_000, 0, 0).is_none());
    let s = maybe_emit_summary(&mut st, 1, 0).unwrap();
    assert_eq!(s.frames_seen, 2);
    assert_eq!(s.stages.len(), 2);
    assert_eq!(s.stages[0].stage, "encode_get");
    assert_eq!(s.stages[0].mean_us, 3);
    assert_eq!(s.stages[1].stage, "client_stats_match");
}

#[test]
fn summary_waits_for_interval() {
    let mut st = Some(State::new(0, "/tmp/p".to_string(), 2000, 1_000));
    record(&mut st, 1, Stage::RenderGpu, 1, 0, 1_000, 0, 0);
    assert!(maybe_emit_summary(&mut st, 1, 1_999_999_999).is_none());
    let s = maybe_emit_summary(&mut st, 1, 2_000_001_000).unwrap();
    assert_eq!(s.stages[0].stage, "render_gpu");
    // the clock restarted
    assert!(maybe_emit_summary(&mut st, 1, 2_000_001_001).is_none());
}

#[test]
fn flush_forces_summary_before_interval() {
    let mut st = Some(State::new(0, "/tmp/p".to_string(), 2000, 1_000));
    record(&mut st, 1, Stage::RenderGpu, 1, 0, 4_000, 0, 0);
    assert!(maybe_emit_summary(&mut st, 1, 2_000).is_none());
    let s = flush_summary_now(&mut st, 1, 2_000).expect("forced summary");
    assert_eq!(s.stages.len(), 1);
    assert_eq!(s.stages[0].stage, "render_gpu");
    assert_eq!(s.stages[0].mean_us, 4);
    // the clock restarted at the flush
    assert!(maybe_emit_summary(&mut st, 1, 2_000_000_000).is_none());
    assert!(maybe_emit_summary(&mut st, 1, 2_000_002_000).is_some());
    // off, or without a state, nothing is flushed
    assert!(flush_summary_now(&mut st, 0, 3_000_000_000).is_none());
    let mut none: Option<State> = None;
    assert!(flush_summary_now(&mut none, 1, 0).is_none());
}

#[test]
fn summary_empty_restarts_clock() {
    let mut st = Some(State::new(0, "/tmp/p".to_string(), 0, 0));
    assert!(maybe_emit_summary(&mut st, 1, 5).is_none());
}

#[test]
fn stage_ids_beyond_aggregates() {
    let mut st = Some(State::new(0, "/tmp/p".to_string(), 0, 0));
    let line = record_raw(&mut st, 3, 200, 5, 0, 2_000, 1, 2).unwrap();
    assert_eq!(line.stage, "other");
    assert_eq!(line.stage_id, 200);
    assert!(maybe_emit_summary(&mut st, 3, 0).is_none());
    assert!(record_inner(&mut st, 0, 16, 5, 0, 2_000, 1, 2).is_none());
    let s = maybe_emit_summary(&mut st, 3, 0).unwrap();
    assert_eq!(s.stages[0].stage, "pose_history_lock");
}

#[test]
fn marks_have_zero_duration() {
    let mut st = Some(State::new(0, "/tmp/p".to_string(), 0, 0));
    let line = mark(&mut st, 2, Stage::ChannelDequeue, 3, 4, 12_345, 0).unwrap();
    assert_eq!(line.start_ns, 12_345);
    assert_eq!(line.end_ns, 12_345);
    assert_eq!(line.dur_us, 0);
    assert!(mark(&mut st, 0, Stage::ChannelDequeue, 3, 4, 12_345, 0).is_none());
}

#[test]
fn spans_record_when_active() {
    let mut st = Some(State::new(0, "/tmp/p".to_string(), 0, 0));
    let mut s = Span::new(2, Stage::EncodePush, 42, 1_000);
    assert!(s.active);
    s.set_extra(5);
    let line = s.end(&mut st, 2, 301_000, 1).unwrap();
    assert_eq!(line.dur_us, 300);
    assert_eq!(line.extra, 5);
    let off = Span::with_extra(0, Stage::EncodePush, 42, 3, 1_000);
    assert!(!off.active);
    assert_eq!(off.start_ns, 0);
    assert!(off.end(&mut st, 0, 2_000, 1).is_none());
}

#[test]
fn c_spans_pair_up() {
    let mut st = Some(State::new(0, "/tmp/p".to_string(), 0, 0));
    let mut t = CSpanTable::new();
    t.span_begin_extra(2, 5, 77, 8, 10_000);
    let line = t.span_end(&mut st, 2, 5, 30_000, 0).unwrap();
    assert_eq!(line.frame_id, 77);
    assert_eq!(line.start_ns, 10_000);
    assert_eq!(line.end_ns, 30_000);
    assert_eq!(line.extra, 8);
    assert_eq!(line.dur_us, 20);
    // closed: a second end records nothing
    assert!(t.span_end(&mut st, 2, 5, 40_000, 0).is_none());
    // stage 37 shares slot 5 with stage 5
    t.span_begin(2, 5, 1, 0);
    t.span_begin(2, 37, 2, 50);
    let line = t.span_end(&mut st, 2, 5, 100, 0).unwrap();
    assert_eq!(line.frame_id, 2);
    assert_eq!(line.start_ns, 50);
    assert_eq!(line.extra, 0);
    // profiling off: nothing opens
    t.span_begin(0, 6, 1, 0);
    assert!(t.span_end(&mut st, 2, 6, 100, 0).is_none());
}

#[test]
fn clock_conversion() {
    assert_eq!(timespec_to_ns(&libc_timespec()), 0);
    assert_eq!(timespec_to_ns(&Timespec { tv_sec: 1, tv_nsec: 5 }), 1_000_000_005);
    assert_eq!(timespec_to_ns(&Timespec { tv_sec: -1, tv_nsec: 0 }), u64::MAX);
    assert_eq!(
        timespec_to_ns(&Timespec { tv_sec: 18_446_744_073, tv_nsec: 999_999_999 }),
        u64::MAX
    );
}

#[test]
fn profile_settings_defaults() {
    let s = resolve_profile_settings("", None, None, None);
    assert_eq!(s.level, Level::Off);
    assert_eq!(s.path, "/tmp/alvr-profile.jsonl");
    assert_eq!(s.log_ms, 2000);
    assert_eq!(s.ring, 65536);
    let s = resolve_profile_settings("frame", Some("/tmp/t.jsonl".to_string()), Some("50"), Some("+4096"));
    assert_eq!(s.level, Level::Frame);
    assert_eq!(s.path, "/tmp/t.jsonl");
    assert_eq!(s.log_ms, 50);
    assert_eq!(s.ring, 4096);
    let s = resolve_profile_settings("summary", None, Some("-5"), Some("lots"));
    assert_eq!(s.log_ms, 2000);
    assert_eq!(s.ring, 65536);
    let s = resolve_profile_settings("1", None, Some("18446744073709551616"), Some(""));
    assert_eq!(s.log_ms, 2000);
    assert_eq!(s.ring, 65536);
    let s = resolve_profile_settings("1", None, Some("18446744073709551615"), None);
    assert_eq!(s.log_ms, u64::MAX);
}

#[test]
fn span_records_last_extra_set() {
    let mut st = Some(State::new(0, "/tmp/p".to_string(), 0, 0));
    let mut span = Span::with_extra(2, Stage::StreamCopy, 7, 1, 1_000);
    span.set_extra(2);
    span.set_extra(3);
    span.set_extra(4);
    let line = span.end(&mut st, 2, 9_000, 5).expect("line");
    assert_eq!(line.extra, 4);
    assert_eq!(line.start_ns, 1_000);
    assert_eq!(line.end_ns, 9_000);
    assert_eq!(line.frame_id, 7);
    // a span started while off stays unrecorded when profiling is on at its end
    let off = Span::with_extra(0, Stage::StreamCopy, 7, 1, 1_000);
    assert!(off.end(&mut st, 2, 9_000, 5).is_none());
}

#[test]
fn parse_level_ignores_normalising_first() {
    for s in [" FRAME ", "Detail", "\tsummary\n", "verbose", "", "  On  ", "3"] {
        assert_eq!(parse_level(s), parse_level(&s.trim().to_ascii_lowercase()));
    }
    assert_eq!(parse_level(" FRAME "), Level::Frame);
    assert_eq!(parse_level("verbose"), Level::Off);
}
