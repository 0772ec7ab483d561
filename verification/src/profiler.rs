//! Profiler state: the span ring, per-stage aggregates, recording and summaries.

use vstd::prelude::*;
use crate::agg::{Agg, last_window, all_at_most, all_at_least, sample_sum, sorted_samples, rank_of};
use crate::stage::{Stage, stage_id, stage_name, stage_of_id, enabled, is_frame, level_id, Level};

verus! {

/// Default ring capacity when none is configured.
pub const DEFAULT_RING: usize = 65536;

/// Number of stages that have an aggregate (ids `0..STAGE_COUNT`).
pub const STAGE_COUNT: usize = 17;

/// Smallest ring capacity.
pub const MIN_RING: usize = 1024;

/// Default summary interval in milliseconds.
pub const DEFAULT_LOG_MS: u64 = 2000;

pub open spec fn is_power_of_two(x: nat) -> bool
    decreases x,
{
    if x == 1 {
        true
    } else if x >= 2 && x % 2 == 0 {
        is_power_of_two(x / 2)
    } else {
        false
    }
}

/// `usize::next_power_of_two`: the smallest power of two that is at least `n`.
pub fn next_power_of_two(n: usize) -> (r: usize)
    requires
        n <= usize::MAX / 2 + 1,
    ensures
        is_power_of_two(r as nat),
        r >= n,
        r == 1 || r / 2 < n,
{
    let mut r: usize = 1;
    while r < n
        invariant
            is_power_of_two(r as nat),
            r >= 1,
            r == 1 || r / 2 < n,
            n <= usize::MAX / 2 + 1,
        decreases usize::MAX - r,
    {
        assert(is_power_of_two((r * 2) as nat)) by {
            assert((r * 2) as nat / 2 == r as nat);
        }
        r = r * 2;
    }
    r
}

/// One recorded span.
#[derive(Clone, Copy, Debug, PartialEq, Eq, Structural)]
pub struct Record {
    pub stage: u8,
    pub thread_hint: u32,
    pub frame_id: u64,
    pub start_ns: u64,
    pub end_ns: u64,
    pub extra: u64,
}

impl Record {
    /// The all-zero record that fills a fresh ring.
    pub fn empty() -> (r: Record)
        ensures
            r == (Record { stage: 0, thread_hint: 0, frame_id: 0, start_ns: 0, end_ns: 0, extra: 0 }),
    {
        Record { stage: 0, thread_hint: 0, frame_id: 0, start_ns: 0, end_ns: 0, extra: 0 }
    }
}

/// One span line of the per-frame output.
#[derive(Clone, Copy, Debug)]
pub struct JsonSpan {
    pub type_: &'static str,
    pub stage: &'static str,
    pub stage_id: u8,
    pub frame_id: u64,
    pub start_ns: u64,
    pub end_ns: u64,
    pub dur_us: u64,
    pub extra: u64,
    pub tid: u32,
}

/// One stage of a summary.
#[derive(Clone, Copy, Debug)]
pub struct JsonSummaryStage {
    pub stage: &'static str,
    pub n: usize,
    pub mean_us: u32,
    pub p50_us: u32,
    pub p95_us: u32,
    pub p99_us: u32,
}

/// A summary: what the periodic summary line reports.
pub struct Summary {
    pub frames_seen: u64,
    pub dropped: u64,
    pub stages: Vec<JsonSummaryStage>,
}

/// The profiler's state once it is enabled.
pub struct State {
    ring: Vec<Record>,
    mask: usize,
    write_idx: usize,
    dropped: u64,
    aggs: Vec<Agg>,
    path: String,
    log_interval_ms: u64,
    last_summary_ns: u64,
    frames_seen: u64,
}

/// The duration of a span in whole microseconds, capped to `u32`.
pub open spec fn duration_sample(start_ns: u64, end_ns: u64) -> u32 {
    let d = if end_ns >= start_ns { (end_ns - start_ns) as int } else { 0 };
    if d / 1000 <= u32::MAX { (d / 1000) as u32 } else { u32::MAX }
}

/// Whether a stage id counts as the end of a frame.
pub open spec fn counts_frame(stage: u8) -> bool {
    stage == stage_id(Stage::ClientStatsMatch) || stage == stage_id(Stage::EncodeGet)
}

/// The span line that a record produces.
pub open spec fn span_line_matches(
    j: JsonSpan,
    stage: u8,
    frame_id: u64,
    start_ns: u64,
    end_ns: u64,
    extra: u64,
    tid: u32,
) -> bool {
    &&& j.type_@ == "span"@
    &&& j.stage@ == stage_name(stage_of_id(stage))
    &&& j.stage_id == stage
    &&& j.frame_id == frame_id
    &&& j.start_ns == start_ns
    &&& j.end_ns == end_ns
    &&& j.dur_us == (if end_ns >= start_ns { (end_ns - start_ns) / 1000 } else { 0 })
    &&& j.extra == extra
    &&& j.tid == tid
}

impl State {
    /// The state's internal invariant.
    pub closed spec fn wf(&self) -> bool {
        &&& self.ring@.len() == self.mask + 1
        &&& is_power_of_two(self.ring@.len())
        &&& self.ring@.len() >= MIN_RING
        &&& self.aggs@.len() == STAGE_COUNT
        &&& forall|i: int| 0 <= i < STAGE_COUNT ==> (#[trigger] self.aggs@[i]).wf()
    }

    pub closed spec fn spec_ring(&self) -> Seq<Record> {
        self.ring@
    }

    pub closed spec fn spec_mask(&self) -> usize {
        self.mask
    }

    pub closed spec fn spec_write_idx(&self) -> usize {
        self.write_idx
    }

    pub closed spec fn spec_dropped(&self) -> u64 {
        self.dropped
    }

    pub closed spec fn spec_aggs(&self) -> Seq<Agg> {
        self.aggs@
    }

    pub closed spec fn spec_path(&self) -> Seq<char> {
        self.path@
    }

    pub closed spec fn spec_log_interval_ms(&self) -> u64 {
        self.log_interval_ms
    }

    pub closed spec fn spec_last_summary_ns(&self) -> u64 {
        self.last_summary_ns
    }

    pub closed spec fn spec_frames_seen(&self) -> u64 {
        self.frames_seen
    }

    /// A fresh state: a ring of at least `ring_pow2` (rounded up to a power of
    /// two, at least `MIN_RING`) empty records, empty aggregates, and the summary
    /// clock started at `now_ns`.
    pub fn new(ring_pow2: usize, path: String, log_interval_ms: u64, now_ns: u64) -> (st: State)
        requires
            ring_pow2 <= usize::MAX / 2 + 1,
        ensures
            st.wf(),
            ({
                let cap = st.spec_ring().len();
                &&& is_power_of_two(cap)
                &&& cap >= ring_pow2
                &&& cap >= MIN_RING
                &&& (cap == MIN_RING || cap / 2 < ring_pow2)
            }),
            forall|i: int| 0 <= i < st.spec_ring().len() ==> #[trigger] st.spec_ring()[i] == (
            Record { stage: 0, thread_hint: 0, frame_id: 0, start_ns: 0, end_ns: 0, extra: 0 }),
            st.spec_mask() == st.spec_ring().len() - 1,
            st.spec_write_idx() == 0,
            st.spec_dropped() == 0,
            forall|i: int| 0 <= i < STAGE_COUNT ==> (#[trigger] st.spec_aggs()[i]).spec_count() == 0,
            forall|i: int| 0 <= i < STAGE_COUNT ==> (#[trigger] st.spec_aggs()[i]).spec_write() == 0,
            forall|i: int| 0 <= i < STAGE_COUNT ==> (#[trigger] st.spec_aggs()[i]).history()
                == Seq::<u32>::empty(),
            st.spec_path() == path@,
            st.spec_log_interval_ms() == log_interval_ms,
            st.spec_last_summary_ns() == now_ns,
            st.spec_frames_seen() == 0,
    {
        let p = next_power_of_two(ring_pow2);
        let cap = if p > MIN_RING { p } else { MIN_RING };
        proof {
            if p <= MIN_RING {
                reveal_with_fuel(is_power_of_two, 11);
                assert(is_power_of_two(MIN_RING as nat));
            }
        }
        let mut ring: Vec<Record> = Vec::new();
        let mut i: usize = 0;
        while i < cap
            invariant
                i <= cap,
                ring@.len() == i,
                forall|j: int| 0 <= j < i ==> #[trigger] ring@[j] == (Record {
                    stage: 0,
                    thread_hint: 0,
                    frame_id: 0,
                    start_ns: 0,
                    end_ns: 0,
                    extra: 0,
                }),
            decreases cap - i,
        {
            ring.push(Record::empty());
            i = i + 1;
        }
        let mut aggs: Vec<Agg> = Vec::new();
        let mut k: usize = 0;
        while k < STAGE_COUNT
            invariant
                k <= STAGE_COUNT,
                aggs@.len() == k,
                forall|j: int| 0 <= j < k ==> (#[trigger] aggs@[j]).wf(),
                forall|j: int| 0 <= j < k ==> (#[trigger] aggs@[j]).spec_count() == 0,
                forall|j: int| 0 <= j < k ==> (#[trigger] aggs@[j]).spec_write() == 0,
                forall|j: int| 0 <= j < k ==> (#[trigger] aggs@[j]).history() == Seq::<u32>::empty(),
            decreases STAGE_COUNT - k,
        {
            aggs.push(Agg::new());
            k = k + 1;
        }
        State {
            ring,
            mask: cap - 1,
            write_idx: 0,
            dropped: 0,
            aggs,
            path,
            log_interval_ms,
            last_summary_ns: now_ns,
            frames_seen: 0,
        }
    }

    /// Stores one span: it goes into the ring slot `write_idx & mask`, its
    /// duration into the stage's aggregate (for ids below `STAGE_COUNT`), and it
    /// counts a frame for the frame-ending stages.
    pub open spec fn spec_recorded(
        old: State,
        new: State,
        stage: u8,
        frame_id: u64,
        start_ns: u64,
        end_ns: u64,
        extra: u64,
        tid: u32,
    ) -> bool {
        &&& new.wf()
        &&& new.spec_write_idx() == vstd::wrapping::usize_specs::wrapping_add(
            old.spec_write_idx(),
            1,
        )
        &&& new.spec_ring() == old.spec_ring().update(
            (old.spec_write_idx() & old.spec_mask()) as int,
            Record { stage, thread_hint: tid, frame_id, start_ns, end_ns, extra },
        )
        &&& new.spec_mask() == old.spec_mask()
        &&& new.spec_dropped() == old.spec_dropped()
        &&& new.spec_path() == old.spec_path()
        &&& new.spec_log_interval_ms() == old.spec_log_interval_ms()
        &&& new.spec_last_summary_ns() == old.spec_last_summary_ns()
        &&& new.spec_aggs().len() == STAGE_COUNT
        &&& forall|i: int|
            0 <= i < STAGE_COUNT && i != stage ==> #[trigger] new.spec_aggs()[i]
                == old.spec_aggs()[i]
        &&& stage < STAGE_COUNT ==> Agg::spec_pushed(
            old.spec_aggs()[stage as int],
            new.spec_aggs()[stage as int],
            duration_sample(start_ns, end_ns),
        )
        &&& new.spec_frames_seen() == if counts_frame(stage) {
            vstd::wrapping::u64_specs::wrapping_add(old.spec_frames_seen(), 1)
        } else {
            old.spec_frames_seen()
        }
    }

    /// The summary output path.
    pub fn path(&self) -> (p: &String)
        ensures
            p@ == self.spec_path(),
    {
        &self.path
    }

    /// Number of records the ring holds.
    pub fn ring_capacity(&self) -> (c: usize)
        requires
            self.wf(),
        ensures
            c == self.spec_ring().len(),
    {
        self.ring.len()
    }

    /// In a well-formed state the mask is the ring's capacity minus one, a
    /// power of two at least `MIN_RING`, so a record lands in slot
    /// `write_idx & (capacity - 1)`.
    pub proof fn lemma_wf_mask(&self)
        requires
            self.wf(),
        ensures
            self.spec_mask() == self.spec_ring().len() - 1,
            is_power_of_two(self.spec_ring().len()),
            self.spec_ring().len() >= MIN_RING,
            self.spec_aggs().len() == STAGE_COUNT,
    {
    }
}


/// The effect of `record_inner` on an optional state, and the line it returns.
pub open spec fn spec_record_inner(
    old: Option<State>,
    new: Option<State>,
    line: Option<JsonSpan>,
    level_raw: u8,
    stage: u8,
    frame_id: u64,
    start_ns: u64,
    end_ns: u64,
    extra: u64,
    tid: u32,
) -> bool {
    &&& old is None ==> new is None && line is None
    &&& old is Some ==> {
        &&& new is Some
        &&& State::spec_recorded(old->0, new->0, stage, frame_id, start_ns, end_ns, extra, tid)
        &&& (line is Some <==> level_raw >= level_id(Level::Frame))
        &&& (line matches Some(j) ==> span_line_matches(
            j,
            stage,
            frame_id,
            start_ns,
            end_ns,
            extra,
            tid,
        ))
    }
}

/// Whether an optional state is well formed.
pub open spec fn state_ok(st: Option<State>) -> bool {
    st matches Some(s) ==> s.wf()
}

/// Stores one span in the state, if there is one; returns the span line to
/// write when the level (the level cell's value `level_raw`) asks for per-frame
/// output.
pub fn record_inner(
    state: &mut Option<State>,
    level_raw: u8,
    stage: u8,
    frame_id: u64,
    start_ns: u64,
    end_ns: u64,
    extra: u64,
    tid: u32,
) -> (line: Option<JsonSpan>)
    requires
        state_ok(*old(state)),
    ensures
        spec_record_inner(
            *old(state),
            *final(state),
            line,
            level_raw,
            stage,
            frame_id,
            start_ns,
            end_ns,
            extra,
            tid,
        ),
{
    let dur = end_ns.saturating_sub(start_ns);
    match state {
        None => None,
        Some(st) => {
            let ghost old_st = *st;
            let idx = st.write_idx;
            st.write_idx = st.write_idx.wrapping_add(1);
            let mask = st.mask;
            let slot = idx & mask;
            assert(slot <= mask) by (bit_vector)
                requires
                    slot == idx & mask,
            ;
            st.ring.set(
                slot,
                Record { stage, thread_hint: tid, frame_id, start_ns, end_ns, extra },
            );
            if (stage as usize) < STAGE_COUNT {
                let si = stage as usize;
                let q = dur / 1000;
                let us: u32 = if q <= u32::MAX as u64 { q as u32 } else { u32::MAX };
                assert(us == duration_sample(start_ns, end_ns));
                let mut a = st.aggs.remove(si);
                a.push_us(us);
                st.aggs.insert(si, a);
                assert(st.aggs@ =~= old_st.aggs@.update(si as int, a));
            }
            if stage == Stage::ClientStatsMatch.to_u8() || stage == Stage::EncodeGet.to_u8() {
                st.frames_seen = st.frames_seen.wrapping_add(1);
            }
            if is_frame(level_raw) {
                Some(
                    JsonSpan {
                        type_: "span",
                        stage: Stage::from_u8(stage).name(),
                        stage_id: stage,
                        frame_id,
                        start_ns,
                        end_ns,
                        dur_us: dur / 1000,
                        extra,
                        tid,
                    },
                )
            } else {
                None
            }
        },
    }
}


/// Records a span of `stage` when profiling is on (the level cell holds
/// `level_raw`); off, nothing changes.
pub fn record(
    state: &mut Option<State>,
    level_raw: u8,
    stage: Stage,
    frame_id: u64,
    start_ns: u64,
    end_ns: u64,
    extra: u64,
    tid: u32,
) -> (line: Option<JsonSpan>)
    requires
        state_ok(*old(state)),
    ensures
        state_ok(*final(state)),
        level_raw == 0 ==> *final(state) == *old(state) && line is None,
        level_raw != 0 ==> spec_record_inner(
            *old(state),
            *final(state),
            line,
            level_raw,
            stage_id(stage),
            frame_id,
            start_ns,
            end_ns,
            extra,
            tid,
        ),
{
    if !enabled(level_raw) {
        return None;
    }
    record_inner(state, level_raw, stage.to_u8(), frame_id, start_ns, end_ns, extra, tid)
}

/// Records a span given by its raw stage id (the C interface) when profiling is on.
pub fn record_raw(
    state: &mut Option<State>,
    level_raw: u8,
    stage: u8,
    frame_id: u64,
    start_ns: u64,
    end_ns: u64,
    extra: u64,
    tid: u32,
) -> (line: Option<JsonSpan>)
    requires
        state_ok(*old(state)),
    ensures
        state_ok(*final(state)),
        level_raw == 0 ==> *final(state) == *old(state) && line is None,
        level_raw != 0 ==> spec_record_inner(
            *old(state),
            *final(state),
            line,
            level_raw,
            stage,
            frame_id,
            start_ns,
            end_ns,
            extra,
            tid,
        ),
{
    if !enabled(level_raw) {
        return None;
    }
    record_inner(state, level_raw, stage, frame_id, start_ns, end_ns, extra, tid)
}

/// An instantaneous mark at time `now_ns` (a zero-length span) when profiling is on.
pub fn mark(
    state: &mut Option<State>,
    level_raw: u8,
    stage: Stage,
    frame_id: u64,
    extra: u64,
    now_ns: u64,
    tid: u32,
) -> (line: Option<JsonSpan>)
    requires
        state_ok(*old(state)),
    ensures
        state_ok(*final(state)),
        level_raw == 0 ==> *final(state) == *old(state) && line is None,
        level_raw != 0 ==> spec_record_inner(
            *old(state),
            *final(state),
            line,
            level_raw,
            stage_id(stage),
            frame_id,
            now_ns,
            now_ns,
            extra,
            tid,
        ),
{
    if !enabled(level_raw) {
        return None;
    }
    record(state, level_raw, stage, frame_id, now_ns, now_ns, extra, tid)
}

/// An instantaneous mark given by its raw stage id (the C interface).
pub fn mark_raw(
    state: &mut Option<State>,
    level_raw: u8,
    stage: u8,
    frame_id: u64,
    extra: u64,
    now_ns: u64,
    tid: u32,
) -> (line: Option<JsonSpan>)
    requires
        state_ok(*old(state)),
    ensures
        state_ok(*final(state)),
        level_raw == 0 ==> *final(state) == *old(state) && line is None,
        level_raw != 0 ==> spec_record_inner(
            *old(state),
            *final(state),
            line,
            level_raw,
            stage,
            frame_id,
            now_ns,
            now_ns,
            extra,
            tid,
        ),
{
    if !enabled(level_raw) {
        return None;
    }
    record_inner(state, level_raw, stage, frame_id, now_ns, now_ns, extra, tid)
}


/// A summary entry reports aggregate `a` of stage id `i`.
pub open spec fn stage_summary_matches(j: JsonSummaryStage, a: Agg, i: int) -> bool {
    &&& j.stage@ == stage_name(stage_of_id(i as u8))
    &&& j.n == a.spec_count()
    &&& (j.mean_us, j.p50_us, j.p95_us, j.p99_us) == a.spec_stats()
}

/// `out` lists, in stage order, one entry for each aggregate that holds samples.
pub open spec fn summary_stages_match(aggs: Seq<Agg>, out: Seq<JsonSummaryStage>) -> bool
    decreases aggs.len(),
{
    if aggs.len() == 0 {
        out.len() == 0
    } else if aggs.last().spec_count() == 0 {
        summary_stages_match(aggs.drop_last(), out)
    } else {
        &&& out.len() > 0
        &&& stage_summary_matches(out.last(), aggs.last(), aggs.len() - 1)
        &&& summary_stages_match(aggs.drop_last(), out.drop_last())
    }
}

/// Whether a summary is due at `now_ns`: at least the interval has passed since the last one.
pub open spec fn summary_due(st: State, now_ns: u64) -> bool {
    let elapsed = if now_ns >= st.spec_last_summary_ns() {
        now_ns - st.spec_last_summary_ns()
    } else {
        0
    };
    elapsed >= st.spec_log_interval_ms() * 1_000_000
}

/// `n` is `o` after taking a summary at `now_ns`, and `r` is that summary: the
/// summary clock restarts, nothing else changes, and the summary lists every
/// stage with samples (`None` when no stage has any).
pub open spec fn summary_taken(o: State, n: State, now_ns: u64, r: Option<Summary>) -> bool {
    &&& n.wf()
    &&& n.spec_last_summary_ns() == now_ns
    &&& n.spec_ring() == o.spec_ring()
    &&& n.spec_mask() == o.spec_mask()
    &&& n.spec_write_idx() == o.spec_write_idx()
    &&& n.spec_dropped() == o.spec_dropped()
    &&& n.spec_aggs() == o.spec_aggs()
    &&& n.spec_path() == o.spec_path()
    &&& n.spec_log_interval_ms() == o.spec_log_interval_ms()
    &&& n.spec_frames_seen() == o.spec_frames_seen()
    &&& match r {
        None => forall|i: int|
            0 <= i < STAGE_COUNT ==> (#[trigger] o.spec_aggs()[i]).spec_count() == 0,
        Some(sm) => {
            &&& sm.frames_seen == o.spec_frames_seen()
            &&& sm.dropped == o.spec_dropped()
            &&& sm.stages@.len() > 0
            &&& summary_stages_match(o.spec_aggs(), sm.stages@)
        },
    }
}

/// Entry `e` reports one of the aggregates that hold samples.
spec fn reports_some_stage(aggs: Seq<Agg>, e: JsonSummaryStage) -> bool {
    exists|i: int|
        0 <= i < aggs.len() && aggs[i].spec_count() > 0 && #[trigger] stage_summary_matches(e, aggs[i], i)
}

proof fn lemma_stages_from_aggs(aggs: Seq<Agg>, out: Seq<JsonSummaryStage>)
    requires
        summary_stages_match(aggs, out),
    ensures
        forall|k: int| 0 <= k < out.len() ==> #[trigger] reports_some_stage(aggs, out[k]),
    decreases aggs.len(),
{
    if aggs.len() == 0 {
        assert(out.len() == 0);
    } else {
        let a = aggs.drop_last();
        if aggs.last().spec_count() == 0 {
            lemma_stages_from_aggs(a, out);
            assert forall|k: int| 0 <= k < out.len() implies #[trigger] reports_some_stage(aggs, out[k]) by {
                assert(reports_some_stage(a, out[k]));
                let i = choose|i: int|
                    0 <= i < a.len() && a[i].spec_count() > 0 && #[trigger] stage_summary_matches(
                        out[k],
                        a[i],
                        i,
                    );
                assert(a[i] == aggs[i]);
                assert(stage_summary_matches(out[k], aggs[i], i));
            }
        } else {
            let o = out.drop_last();
            lemma_stages_from_aggs(a, o);
            assert forall|k: int| 0 <= k < out.len() implies #[trigger] reports_some_stage(aggs, out[k]) by {
                if k == out.len() - 1 {
                    assert(out.last() == out[k]);
                    assert(aggs.last() == aggs[aggs.len() - 1]);
                    assert(stage_summary_matches(out[k], aggs[aggs.len() - 1], aggs.len() - 1));
                } else {
                    assert(o[k] == out[k]);
                    assert(reports_some_stage(a, o[k]));
                    let i = choose|i: int|
                        0 <= i < a.len() && a[i].spec_count() > 0 && #[trigger] stage_summary_matches(
                            o[k],
                            a[i],
                            i,
                        );
                    assert(a[i] == aggs[i]);
                    assert(stage_summary_matches(out[k], aggs[i], i));
                }
            }
        }
    }
}

/// A summary entry's figures describe the samples of aggregate `a`: the count
/// is positive and is the aggregate's, the 50th, 95th and 99th percentiles are
/// the sorted samples of those ranks, held samples in non-decreasing order, and the mean is the held samples'
/// sum divided by their number (so it lies between the smallest and the
/// largest of them).
pub open spec fn entry_describes(e: JsonSummaryStage, a: Agg) -> bool {
    let h = a.history();
    &&& e.n > 0
    &&& e.n == a.spec_count()
    &&& e.mean_us as nat == sample_sum(a.window()) / a.spec_count()
    &&& e.p50_us == sorted_samples(a.window())[rank_of(a.spec_count(), 50)]
    &&& e.p95_us == sorted_samples(a.window())[rank_of(a.spec_count(), 95)]
    &&& e.p99_us == sorted_samples(a.window())[rank_of(a.spec_count(), 99)]
    &&& e.p50_us <= e.p95_us
    &&& e.p95_us <= e.p99_us
    &&& h.contains(e.p50_us)
    &&& h.contains(e.p95_us)
    &&& h.contains(e.p99_us)
    &&& (forall|m: u32| #[trigger] all_at_most(h, m) ==> e.mean_us <= m)
    &&& (forall|m: u32| #[trigger] all_at_least(h, m) ==> e.mean_us >= m)
}

/// Every entry of a summary describes the samples of one of the stages, and
/// is named after that stage.
pub proof fn lemma_summary_entries(o: State, n: State, now_ns: u64, r: Option<Summary>)
    requires
        o.wf(),
        summary_taken(o, n, now_ns, r),
    ensures
        r matches Some(sm) ==> forall|k: int|
            #![trigger sm.stages@[k]]
            0 <= k < sm.stages@.len() ==> exists|i: int|
                #![trigger o.spec_aggs()[i]]
                0 <= i < STAGE_COUNT && entry_describes(sm.stages@[k], o.spec_aggs()[i])
                    && sm.stages@[k].stage@ == stage_name(stage_of_id(i as u8)),
{
    if let Some(sm) = r {
        lemma_stages_from_aggs(o.spec_aggs(), sm.stages@);
        assert forall|k: int| #![trigger sm.stages@[k]] 0 <= k < sm.stages@.len() implies exists|i: int|
            #![trigger o.spec_aggs()[i]]
            0 <= i < STAGE_COUNT && entry_describes(sm.stages@[k], o.spec_aggs()[i])
                && sm.stages@[k].stage@ == stage_name(stage_of_id(i as u8)) by {
            let e = sm.stages@[k];
            assert(reports_some_stage(o.spec_aggs(), e));
            let i = choose|i: int|
                0 <= i < o.spec_aggs().len() && o.spec_aggs()[i].spec_count() > 0
                    && #[trigger] stage_summary_matches(e, o.spec_aggs()[i], i);
            let a = o.spec_aggs()[i];
            assert(a.wf());
            a.lemma_stats_law();
            assert(entry_describes(e, a));
        }
    }
}

/// Takes a summary now: restarts the summary clock and lists every stage
/// with samples.
fn take_summary(st: &mut State, now_ns: u64) -> (r: Option<Summary>)
    requires
        old(st).wf(),
    ensures
        summary_taken(*old(st), *final(st), now_ns, r),
{
    st.last_summary_ns = now_ns;
    let mut stages: Vec<JsonSummaryStage> = Vec::new();
    let mut i: usize = 0;
    while i < STAGE_COUNT
        invariant
            st.wf(),
            i <= STAGE_COUNT,
            summary_stages_match(st.aggs@.take(i as int), stages@),
            stages@.len() == 0 ==> forall|j: int|
                0 <= j < i ==> (#[trigger] st.aggs@[j]).spec_count() == 0,
        decreases STAGE_COUNT - i,
    {
        let ghost pre = st.aggs@.take(i as int);
        let ghost nxt = st.aggs@.take(i + 1);
        proof {
            assert(nxt.drop_last() =~= pre);
            assert(nxt.last() == st.aggs@[i as int]);
        }
        let ghost old_stages = stages@;
        let (mean, p50, p95, p99) = st.aggs[i].percentiles_us();
        let n = st.aggs[i].count();
        if n != 0 {
            stages.push(
                JsonSummaryStage {
                    stage: Stage::from_u8(i as u8).name(),
                    n,
                    mean_us: mean,
                    p50_us: p50,
                    p95_us: p95,
                    p99_us: p99,
                },
            );
            proof {
                assert(stages@.drop_last() =~= old_stages);
                assert(stage_summary_matches(stages@.last(), nxt.last(), i as int));
                assert(summary_stages_match(nxt, stages@));
            }
        }
        i = i + 1;
    }
    assert(st.aggs@.take(STAGE_COUNT as int) =~= st.aggs@);
    if stages.len() == 0 {
        return None;
    }
    Some(Summary { frames_seen: st.frames_seen, dropped: st.dropped, stages })
}

/// Takes a summary at `now_ns` when profiling is on and the interval has passed
/// (see `summary_taken`); otherwise nothing changes and there is none.
pub fn maybe_emit_summary(state: &mut Option<State>, level_raw: u8, now_ns: u64) -> (r: Option<
    Summary,
>)
    requires
        state_ok(*old(state)),
    ensures
        state_ok(*final(state)),
        (level_raw == 0 || (*old(state)) is None || !summary_due((*old(state))->0, now_ns)) ==> {
            &&& *final(state) == *old(state)
            &&& r is None
        },
        (level_raw != 0 && (*old(state)) is Some && summary_due((*old(state))->0, now_ns)) ==> {
            &&& (*final(state)) is Some
            &&& summary_taken((*old(state))->0, (*final(state))->0, now_ns, r)
        },
{
    if !enabled(level_raw) {
        return None;
    }
    match state {
        None => None,
        Some(st) => {
            let elapsed = now_ns.saturating_sub(st.last_summary_ns);
            if (elapsed as u128) < (st.log_interval_ms as u128) * 1_000_000 {
                return None;
            }
            take_summary(st, now_ns)
        },
    }
}

/// Forces a summary at `now_ns` (for example when the stream stops): when
/// profiling is on and there is a state, a summary is taken whether or not the
/// interval has passed (see `summary_taken`); otherwise nothing changes.
pub fn flush_summary_now(state: &mut Option<State>, level_raw: u8, now_ns: u64) -> (r: Option<
    Summary,
>)
    requires
        state_ok(*old(state)),
    ensures
        state_ok(*final(state)),
        (level_raw == 0 || (*old(state)) is None) ==> {
            &&& *final(state) == *old(state)
            &&& r is None
        },
        (level_raw != 0 && (*old(state)) is Some) ==> {
            &&& (*final(state)) is Some
            &&& summary_taken((*old(state))->0, (*final(state))->0, now_ns, r)
        },
{
    if !enabled(level_raw) {
        return None;
    }
    match state {
        None => None,
        Some(st) => take_summary(st, now_ns),
    }
}

} // verus!
