//! Spans measured from the Rust side, begin/end pairs from the C side, the
//! monotonic clock's conversion and the profiler's settings.

use vstd::prelude::*;
use crate::profiler::{JsonSpan, State, record, record_inner, spec_record_inner, state_ok, DEFAULT_RING, DEFAULT_LOG_MS};
use crate::stage::{Stage, Level, stage_id, enabled, parse_level, level_of_text};
use crate::text::{chars_of, parse_u64_chars, parse_usize_chars, parse_u64_spec, parse_usize_spec};

verus! {

/// A span that started at `start_ns`; it is recorded when it ends, if it was active.
pub struct Span {
    pub stage: Stage,
    pub frame_id: u64,
    pub start_ns: u64,
    pub extra: u64,
    pub active: bool,
}

/// What ending span `s` at `now_ns` does: an active span is recorded when
/// profiling is on; otherwise nothing changes.
pub open spec fn span_end_effect(
    s: Span,
    old_state: Option<State>,
    new_state: Option<State>,
    line: Option<JsonSpan>,
    level_raw: u8,
    now_ns: u64,
    tid: u32,
) -> bool {
    &&& (!s.active || level_raw == 0) ==> new_state == old_state && line is None
    &&& (s.active && level_raw != 0) ==> spec_record_inner(
        old_state,
        new_state,
        line,
        level_raw,
        stage_id(s.stage),
        s.frame_id,
        s.start_ns,
        now_ns,
        s.extra,
        tid,
    )
}

/// The span that starts at `now_ns` when the level cell holds `level_raw`.
pub open spec fn span_started(level_raw: u8, stage: Stage, frame_id: u64, extra: u64, now_ns: u64) -> Span {
    Span {
        stage,
        frame_id,
        start_ns: if level_raw != 0 { now_ns } else { 0 },
        extra,
        active: level_raw != 0,
    }
}

/// Span `s` after `set_extra` with each of `es` in turn.
pub open spec fn extras_set(s: Span, es: Seq<u64>) -> Span
    decreases es.len(),
{
    if es.len() == 0 {
        s
    } else {
        Span { extra: es.last(), ..extras_set(s, es.drop_last()) }
    }
}

/// A span started while profiling is on, given extra values any number of
/// times and then ended while profiling is on, records exactly one span: its
/// stage and frame, the start and end times, and the last extra value set (the
/// first one when none was set). A span started while profiling was off
/// records nothing when it ends, even if profiling was turned on meanwhile.
pub proof fn lemma_span_records_last_extra(
    level_at_start: u8,
    stage: Stage,
    frame_id: u64,
    extra: u64,
    t0: u64,
    es: Seq<u64>,
    st0: Option<State>,
    st1: Option<State>,
    line: Option<JsonSpan>,
    level_at_end: u8,
    t1: u64,
    tid: u32,
)
    requires
        span_end_effect(
            extras_set(span_started(level_at_start, stage, frame_id, extra, t0), es),
            st0,
            st1,
            line,
            level_at_end,
            t1,
            tid,
        ),
    ensures
        (level_at_start != 0 && level_at_end != 0) ==> spec_record_inner(
            st0,
            st1,
            line,
            level_at_end,
            stage_id(stage),
            frame_id,
            t0,
            t1,
            if es.len() == 0 { extra } else { es.last() },
            tid,
        ),
        (level_at_start == 0 || level_at_end == 0) ==> st1 == st0 && line is None,
{
    lemma_extras_set(span_started(level_at_start, stage, frame_id, extra, t0), es);
}

/// Setting extra values changes only the extra value, to the last one set.
pub proof fn lemma_extras_set(s: Span, es: Seq<u64>)
    ensures
        extras_set(s, es) == (Span { extra: if es.len() == 0 { s.extra } else { es.last() }, ..s }),
    decreases es.len(),
{
    if es.len() > 0 {
        lemma_extras_set(s, es.drop_last());
    }
}

impl Span {
    /// Starts a span with no extra value (see `with_extra`).
    pub fn new(level_raw: u8, stage: Stage, frame_id: u64, now_ns: u64) -> (s: Span)
        ensures
            s == span_started(level_raw, stage, frame_id, 0, now_ns),
    {
        Self::with_extra(level_raw, stage, frame_id, 0, now_ns)
    }

    /// Starts a span at `now_ns` when profiling is on (the level cell holds
    /// `level_raw`); off, the span is inactive and starts at 0.
    pub fn with_extra(level_raw: u8, stage: Stage, frame_id: u64, extra: u64, now_ns: u64) -> (s:
        Span)
        ensures
            s == span_started(level_raw, stage, frame_id, extra, now_ns),
    {
        if !enabled(level_raw) {
            return Span { stage, frame_id, start_ns: 0, extra, active: false };
        }
        Span { stage, frame_id, start_ns: now_ns, extra, active: true }
    }

    /// Sets the extra value recorded when the span ends.
    pub fn set_extra(&mut self, extra: u64)
        ensures
            *final(self) == (Span { extra, ..*old(self) }),
            *final(self) == extras_set(*old(self), seq![extra]),
    {
        proof {
            reveal_with_fuel(extras_set, 2);
            assert(seq![extra].drop_last() =~= Seq::<u64>::empty());
        }
        self.extra = extra;
    }

    /// Ends the span at `now_ns`: an active span is recorded.
    pub fn end(self, state: &mut Option<State>, level_raw: u8, now_ns: u64, tid: u32) -> (line:
        Option<JsonSpan>)
        requires
            state_ok(*old(state)),
        ensures
            state_ok(*final(state)),
            span_end_effect(self, *old(state), *final(state), line, level_raw, now_ns, tid),
    {
        if self.active {
            record(state, level_raw, self.stage, self.frame_id, self.start_ns, now_ns, self.extra, tid)
        } else {
            None
        }
    }
}

/// Number of begin/end slots of the C interface (one per stage id modulo this).
pub const C_SPAN_SLOTS: usize = 32;

/// The effect of opening the span of `stage` at `now_ns`.
pub open spec fn begin_effect(
    old: Seq<Option<(u64, u64, u64)>>,
    new: Seq<Option<(u64, u64, u64)>>,
    level_raw: u8,
    stage: u8,
    frame_id: u64,
    now_ns: u64,
    extra: u64,
) -> bool {
    &&& level_raw == 0 ==> new == old
    &&& level_raw != 0 ==> new == old.update((stage % 32) as int, Some((frame_id, now_ns, extra)))
}

/// The effect of closing the span of `stage` at `now_ns`.
pub open spec fn end_effect(
    old: Seq<Option<(u64, u64, u64)>>,
    new: Seq<Option<(u64, u64, u64)>>,
    old_state: Option<State>,
    new_state: Option<State>,
    line: Option<JsonSpan>,
    level_raw: u8,
    stage: u8,
    now_ns: u64,
    tid: u32,
) -> bool {
    &&& level_raw == 0 ==> {
        &&& new == old
        &&& new_state == old_state
        &&& line is None
    }
    &&& level_raw != 0 ==> {
        &&& new == old.update((stage % 32) as int, None)
        &&& match old[(stage % 32) as int] {
            None => new_state == old_state && line is None,
            Some((f, s, e)) => spec_record_inner(
                old_state,
                new_state,
                line,
                level_raw,
                stage,
                f,
                s,
                now_ns,
                e,
                tid,
            ),
        }
    }
}

/// A span opened and then closed for the same stage, with profiling on, is
/// recorded with the frame, start time and extra value it was opened with and
/// the end time it was closed at; its slot is empty afterwards.
pub proof fn lemma_begin_end_pairing(
    t0: Seq<Option<(u64, u64, u64)>>,
    t1: Seq<Option<(u64, u64, u64)>>,
    t2: Seq<Option<(u64, u64, u64)>>,
    st0: Option<State>,
    st1: Option<State>,
    line: Option<JsonSpan>,
    level_raw: u8,
    stage: u8,
    frame_id: u64,
    start_ns: u64,
    extra: u64,
    end_ns: u64,
    tid: u32,
)
    requires
        t0.len() == C_SPAN_SLOTS,
        level_raw != 0,
        begin_effect(t0, t1, level_raw, stage, frame_id, start_ns, extra),
        end_effect(t1, t2, st0, st1, line, level_raw, stage, end_ns, tid),
    ensures
        spec_record_inner(st0, st1, line, level_raw, stage, frame_id, start_ns, end_ns, extra, tid),
        t2[(stage % 32) as int] is None,
        forall|i: int| 0 <= i < C_SPAN_SLOTS && i != stage % 32 ==> #[trigger] t2[i] == t0[i],
{
}

/// Open spans of the C interface: `(frame_id, start_ns, extra)` per slot.
pub struct CSpanTable {
    slots: Vec<Option<(u64, u64, u64)>>,
}

impl CSpanTable {
    pub closed spec fn spec_slots(&self) -> Seq<Option<(u64, u64, u64)>> {
        self.slots@
    }

    pub open spec fn wf(&self) -> bool {
        self.spec_slots().len() == C_SPAN_SLOTS
    }

    pub fn new() -> (t: CSpanTable)
        ensures
            t.wf(),
            forall|i: int| 0 <= i < C_SPAN_SLOTS ==> #[trigger] t.spec_slots()[i] is None,
    {
        let mut slots: Vec<Option<(u64, u64, u64)>> = Vec::new();
        let mut i: usize = 0;
        while i < C_SPAN_SLOTS
            invariant
                i <= C_SPAN_SLOTS,
                slots@.len() == i,
                forall|j: int| 0 <= j < i ==> #[trigger] slots@[j] is None,
            decreases C_SPAN_SLOTS - i,
        {
            slots.push(None);
            i = i + 1;
        }
        CSpanTable { slots }
    }

    /// Opens the span of `stage` at `now_ns` with extra value 0, when profiling is on.
    pub fn span_begin(&mut self, level_raw: u8, stage: u8, frame_id: u64, now_ns: u64)
        requires
            old(self).wf(),
        ensures
            final(self).wf(),
            begin_effect(
                old(self).spec_slots(),
                final(self).spec_slots(),
                level_raw,
                stage,
                frame_id,
                now_ns,
                0,
            ),
    {
        self.span_begin_extra(level_raw, stage, frame_id, 0, now_ns)
    }

    /// Opens the span of `stage` at `now_ns`, when profiling is on; a span of a
    /// stage in the same slot that is still open is replaced.
    pub fn span_begin_extra(&mut self, level_raw: u8, stage: u8, frame_id: u64, extra: u64, now_ns: u64)
        requires
            old(self).wf(),
        ensures
            final(self).wf(),
            begin_effect(
                old(self).spec_slots(),
                final(self).spec_slots(),
                level_raw,
                stage,
                frame_id,
                now_ns,
                extra,
            ),
    {
        if !enabled(level_raw) {
            return;
        }
        let idx = (stage as usize) % C_SPAN_SLOTS;
        self.slots.set(idx, Some((frame_id, now_ns, extra)));
    }

    /// Closes the span of `stage` at `now_ns`, when profiling is on: an open span
    /// in its slot is recorded and the slot emptied.
    pub fn span_end(
        &mut self,
        state: &mut Option<State>,
        level_raw: u8,
        stage: u8,
        now_ns: u64,
        tid: u32,
    ) -> (line: Option<JsonSpan>)
        requires
            old(self).wf(),
            state_ok(*old(state)),
        ensures
            final(self).wf(),
            state_ok(*final(state)),
            end_effect(
                old(self).spec_slots(),
                final(self).spec_slots(),
                *old(state),
                *final(state),
                line,
                level_raw,
                stage,
                now_ns,
                tid,
            ),
    {
        if !enabled(level_raw) {
            return None;
        }
        let idx = (stage as usize) % C_SPAN_SLOTS;
        let data = self.slots[idx];
        self.slots.set(idx, None);
        match data {
            Some((frame_id, start, extra)) => record_inner(
                state,
                level_raw,
                stage,
                frame_id,
                start,
                now_ns,
                extra,
                tid,
            ),
            None => None,
        }
    }
}

/// A `CLOCK_MONOTONIC` reading.
#[derive(Clone, Copy, Debug, PartialEq, Eq, Structural)]
pub struct Timespec {
    pub tv_sec: i64,
    pub tv_nsec: i64,
}

/// The zero reading that the clock call fills in.
pub fn libc_timespec() -> (t: Timespec)
    ensures
        t == (Timespec { tv_sec: 0, tv_nsec: 0 }),
{
    Timespec { tv_sec: 0, tv_nsec: 0 }
}

/// A clock reading in nanoseconds: `tv_sec * 10^9 + tv_nsec`, each field taken as
/// `u64` (`as` cast), each step saturating at `u64::MAX`.
pub open spec fn timespec_ns(t: Timespec) -> u64 {
    let s = t.tv_sec as u64;
    let n = t.tv_nsec as u64;
    let m: u64 = if s * 1_000_000_000 > u64::MAX { u64::MAX } else { (s * 1_000_000_000) as u64 };
    if m + n > u64::MAX { u64::MAX } else { (m + n) as u64 }
}

pub fn timespec_to_ns(t: &Timespec) -> (ns: u64)
    ensures
        ns == timespec_ns(*t),
{
    let s = t.tv_sec as u64;
    let n = t.tv_nsec as u64;
    let m = match s.checked_mul(1_000_000_000) {
        Some(v) => v,
        None => u64::MAX,
    };
    m.saturating_add(n)
}

/// The profiler's settings.
pub struct ProfileSettings {
    pub level: Level,
    pub path: String,
    pub log_ms: u64,
    pub ring: usize,
}

/// The default output path.
pub open spec fn default_profile_path() -> Seq<char> {
    "/tmp/alvr-profile.jsonl"@
}

/// Settings from the texts of the profiling variables (level, output path,
/// summary interval in ms, ring size); a missing or unparsable number takes its
/// default, a missing path the default path.
pub fn resolve_profile_settings(
    profile: &str,
    path: Option<String>,
    log_ms: Option<&str>,
    ring: Option<&str>,
) -> (s: ProfileSettings)
    ensures
        s.level == level_of_text(profile@),
        s.path@ == match path {
            Some(p) => p@,
            None => default_profile_path(),
        },
        s.log_ms == match log_ms {
            Some(t) => match parse_u64_spec(t@) {
                Some(v) => v,
                None => DEFAULT_LOG_MS,
            },
            None => DEFAULT_LOG_MS,
        },
        s.ring == match ring {
            Some(t) => match parse_usize_spec(t@) {
                Some(v) => v,
                None => DEFAULT_RING,
            },
            None => DEFAULT_RING,
        },
{
    let level = parse_level(profile);
    let path = match path {
        Some(p) => p,
        None => "/tmp/alvr-profile.jsonl".to_owned(),
    };
    let log_ms = match log_ms {
        Some(t) => match parse_u64_chars(&chars_of(t)) {
            Some(v) => v,
            None => DEFAULT_LOG_MS,
        },
        None => DEFAULT_LOG_MS,
    };
    let ring = match ring {
        Some(t) => match parse_usize_chars(&chars_of(t)) {
            Some(v) => v,
            None => DEFAULT_RING,
        },
        None => DEFAULT_RING,
    };
    ProfileSettings { level, path, log_ms, ring }
}

} // verus!
