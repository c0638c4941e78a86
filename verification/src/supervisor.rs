//! Supervisory-loop decisions.
//!
//! While the child runs, one loop polls its liveness, samples its resource
//! use, and races the wall-clock deadline. The decisions of that loop — when
//! to keep sleeping, when to kill, what the running maxima become — are pure
//! functions of the loop state and the observed event, and are verified
//! here; the outside work (spawning, polling, sampling, sleeping, killing)
//! is performed by the caller between steps.

use vstd::prelude::*;

verus! {

use crate::profile::push_char;

/// One point-in-time resource reading for the running child.
///
/// CPU usage is held in hundredths of a percent so that peak tracking is
/// exact integer arithmetic; memory is whole megabytes.
#[derive(Debug, Clone, Copy, PartialEq, Eq, Structural)]
pub struct ExecutionMetrics {
    pub cpu_usage: u64,
    pub memory_mb: u64,
}

/// What one iteration of the supervisory loop observed about the child.
#[derive(Debug, Clone, Copy)]
pub enum PollEvent {
    /// The child has exited.
    Exited,
    /// The child was still running `now_ms` milliseconds after spawn, with a
    /// resource sample when one could be taken (a child that slipped away
    /// between poll and sample yields none, which is not an error).
    Running { now_ms: u64, sample: Option<ExecutionMetrics> },
    /// Polling the child failed; the loop gives up and reaps the child.
    PollFailed,
}

/// What the loop must do after handling one event.
#[derive(Debug, Clone, Copy, PartialEq, Eq, Structural)]
pub enum StepAction {
    /// End the loop and reap the child; no kill is needed.
    Finish,
    /// The deadline has passed: emit the timeout warning, kill the child,
    /// then end the loop and reap it.
    KillAndFinish,
    /// Keep going: sleep for the sampling interval and poll again.
    Sleep,
}

/// The evolving outcome state of one supervisory loop.
#[derive(Debug, Clone, Copy, PartialEq, Eq, Structural)]
pub struct SupervisorState {
    /// The deadline, in milliseconds after spawn: spawn time plus timeout.
    pub deadline_ms: u64,
    /// Whether the deadline elapsed before the child exited.
    pub timed_out: bool,
    /// How many kill requests the loop has issued.
    pub kills: u64,
    /// Running maximum of the sampled CPU usage, hundredths of a percent.
    pub max_cpu: u64,
    /// Running maximum of the sampled resident memory, whole megabytes.
    pub max_memory_mb: u64,
}

/// The timeout to enforce: the configured one, or 300 seconds.
pub open spec fn timeout_or_default(timeout_seconds: Option<u64>) -> u64 {
    match timeout_seconds {
        Some(s) => s,
        None => 300,
    }
}

/// The configured timeout in seconds, with the 300-second default.
pub fn resolve_timeout(timeout_seconds: Option<u64>) -> (r: u64)
    ensures
        r == timeout_or_default(timeout_seconds),
{
    match timeout_seconds {
        Some(s) => s,
        None => 300,
    }
}

/// The character for one decimal digit.
pub open spec fn digit_char(d: u64) -> char {
    if d == 0 {
        '0'
    } else if d == 1 {
        '1'
    } else if d == 2 {
        '2'
    } else if d == 3 {
        '3'
    } else if d == 4 {
        '4'
    } else if d == 5 {
        '5'
    } else if d == 6 {
        '6'
    } else if d == 7 {
        '7'
    } else if d == 8 {
        '8'
    } else {
        '9'
    }
}

/// The decimal text of a number, most significant digit first, with no
/// leading zeroes (zero itself is a single digit).
pub open spec fn decimal_of(n: u64) -> Seq<char>
    decreases n,
{
    if n < 10 {
        seq![digit_char(n)]
    } else {
        decimal_of(n / 10) + seq![digit_char(n % 10)]
    }
}

fn push_digit(out: &mut String, d: u64)
    requires
        d < 10,
    ensures
        final(out)@ == old(out)@ + seq![digit_char(d)],
{
    let c: char = if d == 0 {
        '0'
    } else if d == 1 {
        '1'
    } else if d == 2 {
        '2'
    } else if d == 3 {
        '3'
    } else if d == 4 {
        '4'
    } else if d == 5 {
        '5'
    } else if d == 6 {
        '6'
    } else if d == 7 {
        '7'
    } else if d == 8 {
        '8'
    } else {
        '9'
    };
    push_char(out, c);
    proof {
        assert(c == digit_char(d));
        assert(old(out)@.push(c) =~= old(out)@ + seq![digit_char(d)]);
    }
}

/// The decimal text of a number.
pub fn format_decimal(n: u64) -> (r: String)
    ensures
        r@ == decimal_of(n),
    decreases n,
{
    if n < 10 {
        let mut out = String::new();
        push_digit(&mut out, n);
        proof {
            assert(Seq::<char>::empty() + seq![digit_char(n)] =~= decimal_of(n));
        }
        out
    } else {
        let mut out = format_decimal(n / 10);
        push_digit(&mut out, n % 10);
        out
    }
}

/// The human-readable warning the loop emits just before it kills a run
/// that hit its deadline, so that output already streamed stays visible.
pub open spec fn spec_timeout_message(timeout_seconds: u64) -> Seq<char> {
    "\u{23f1} Command timed out after "@ + decimal_of(timeout_seconds) + "s"@
}

/// The warning text for a run that hit its deadline.
pub fn timeout_message(timeout_seconds: u64) -> (r: String)
    ensures
        r@ == spec_timeout_message(timeout_seconds),
{
    let mut out = String::from_str("\u{23f1} Command timed out after ");
    let num = format_decimal(timeout_seconds);
    out.append(num.as_str());
    out.append("s");
    proof {
        assert(out@ =~= spec_timeout_message(timeout_seconds));
    }
    out
}

/// The deadline a timeout gives, in milliseconds after spawn: the timeout
/// scaled to milliseconds, saturating at the largest representable value.
pub open spec fn spec_deadline_ms(timeout_seconds: u64) -> u64 {
    if timeout_seconds * 1000 <= u64::MAX {
        (timeout_seconds * 1000) as u64
    } else {
        u64::MAX
    }
}

/// The deadline for a run with this timeout, in milliseconds after spawn.
pub fn deadline_ms(timeout_seconds: u64) -> (r: u64)
    ensures
        r == spec_deadline_ms(timeout_seconds),
{
    if timeout_seconds <= u64::MAX / 1000 {
        timeout_seconds * 1000
    } else {
        u64::MAX
    }
}

/// The loop state before the first event: nothing timed out, no kill
/// issued, both maxima at zero.
pub open spec fn initial_state(deadline_ms: u64) -> SupervisorState {
    SupervisorState {
        deadline_ms,
        timed_out: false,
        kills: 0,
        max_cpu: 0,
        max_memory_mb: 0,
    }
}

/// The starting state of a supervisory loop with the given deadline.
pub fn start_supervision(deadline_ms: u64) -> (r: SupervisorState)
    ensures
        r == initial_state(deadline_ms),
{
    SupervisorState { deadline_ms, timed_out: false, kills: 0, max_cpu: 0, max_memory_mb: 0 }
}

/// How one event changes the loop state, and what the loop does next:
/// an exited child ends the loop at once, with the timeout flag as it was;
/// a child still running past the deadline is marked timed out and gets one
/// kill request, and the loop ends; a child running within the deadline has
/// its sample (if any) folded into the running maxima, and the loop sleeps
/// and polls again; a failed poll ends the loop.
pub open spec fn spec_step(st: SupervisorState, ev: PollEvent) -> (SupervisorState, StepAction) {
    match ev {
        PollEvent::Exited => (st, StepAction::Finish),
        PollEvent::PollFailed => (st, StepAction::Finish),
        PollEvent::Running { now_ms, sample } => {
            if now_ms > st.deadline_ms {
                (
                    SupervisorState { timed_out: true, kills: (st.kills + 1) as u64, ..st },
                    StepAction::KillAndFinish,
                )
            } else {
                match sample {
                    Some(m) => (
                        SupervisorState {
                            max_cpu: if m.cpu_usage > st.max_cpu {
                                m.cpu_usage
                            } else {
                                st.max_cpu
                            },
                            max_memory_mb: if m.memory_mb > st.max_memory_mb {
                                m.memory_mb
                            } else {
                                st.max_memory_mb
                            },
                            ..st
                        },
                        StepAction::Sleep,
                    ),
                    None => (st, StepAction::Sleep),
                }
            }
        },
    }
}

/// One decision of the supervisory loop: folds the event into the state and
/// says what to do next, exactly as `spec_step` describes.
pub fn supervise_step(st: &mut SupervisorState, ev: &PollEvent) -> (action: StepAction)
    requires
        old(st).kills < u64::MAX,
    ensures
        (*final(st), action) == spec_step(*old(st), *ev),
{
    match ev {
        PollEvent::Exited => StepAction::Finish,
        PollEvent::PollFailed => StepAction::Finish,
        PollEvent::Running { now_ms, sample } => {
            if *now_ms > st.deadline_ms {
                st.timed_out = true;
                st.kills = st.kills + 1;
                StepAction::KillAndFinish
            } else {
                match sample {
                    Some(m) => {
                        if m.cpu_usage > st.max_cpu {
                            st.max_cpu = m.cpu_usage;
                        }
                        if m.memory_mb > st.max_memory_mb {
                            st.max_memory_mb = m.memory_mb;
                        }
                    },
                    None => {},
                }
                StepAction::Sleep
            }
        },
    }
}

/// The state after replaying a trace of events: each is handled in order,
/// and the first one whose action is not `Sleep` ends the loop.
pub open spec fn spec_supervise(st: SupervisorState, events: Seq<PollEvent>) -> SupervisorState
    decreases events.len(),
{
    if events.len() == 0 {
        st
    } else {
        let stepped = spec_step(st, events[0]);
        if stepped.1 is Sleep {
            spec_supervise(stepped.0, events.drop_first())
        } else {
            stepped.0
        }
    }
}

/// Replays the supervisory loop over a trace of poll events, starting from a
/// fresh state with the given deadline.
pub fn run_supervision(deadline_ms: u64, events: &Vec<PollEvent>) -> (r: SupervisorState)
    ensures
        r == spec_supervise(initial_state(deadline_ms), events@),
{
    let mut st = start_supervision(deadline_ms);
    let n = events.len();
    let mut i: usize = 0;
    let mut stopped = false;
    proof {
        assert(events@.skip(0) =~= events@);
    }
    while i < n && !stopped
        invariant
            i <= n,
            n == events@.len(),
            !stopped ==> st.kills == 0,
            !stopped ==> spec_supervise(initial_state(deadline_ms), events@) == spec_supervise(
                st,
                events@.skip(i as int),
            ),
            stopped ==> st == spec_supervise(initial_state(deadline_ms), events@),
        decreases n - i,
    {
        let ev = events[i];
        proof {
            assert(events@.skip(i as int)[0] == events@[i as int]);
            assert(events@.skip(i as int).drop_first() =~= events@.skip(i + 1 as int));
        }
        let action = supervise_step(&mut st, &ev);
        match action {
            StepAction::Sleep => {},
            _ => {
                stopped = true;
            },
        }
        i = i + 1;
    }
    proof {
        if !stopped {
            assert(events@.skip(n as int) =~= Seq::<PollEvent>::empty());
        }
    }
    st
}

proof fn lemma_kill_iff_timeout_from(st: SupervisorState, events: Seq<PollEvent>)
    requires
        !st.timed_out,
        st.kills == 0,
    ensures
        spec_supervise(st, events).kills == (if spec_supervise(st, events).timed_out {
            1u64
        } else {
            0u64
        }),
    decreases events.len(),
{
    if events.len() == 0 {
    } else {
        let stepped = spec_step(st, events[0]);
        if stepped.1 is Sleep {
            lemma_kill_iff_timeout_from(stepped.0, events.drop_first());
        }
    }
}

/// A supervisory loop attempts a kill exactly when its run times out, and
/// then exactly once: over any trace of poll events, the replayed loop ends
/// with one kill request if it marked the run timed out, and none otherwise.
pub proof fn lemma_kill_iff_timeout(deadline_ms: u64, events: Seq<PollEvent>)
    ensures
        spec_supervise(initial_state(deadline_ms), events).kills == (if spec_supervise(
            initial_state(deadline_ms),
            events,
        ).timed_out {
            1u64
        } else {
            0u64
        }),
{
    lemma_kill_iff_timeout_from(initial_state(deadline_ms), events);
}

/// Whether a trace of poll events sees the child still running past the
/// deadline before it sees an exit or a poll failure.
pub open spec fn trace_times_out(deadline_ms: u64, events: Seq<PollEvent>) -> bool
    decreases events.len(),
{
    if events.len() == 0 {
        false
    } else {
        match events[0] {
            PollEvent::Exited => false,
            PollEvent::PollFailed => false,
            PollEvent::Running { now_ms, .. } => now_ms > deadline_ms || trace_times_out(
                deadline_ms,
                events.drop_first(),
            ),
        }
    }
}

proof fn lemma_timeout_iff_deadline_passed_from(st: SupervisorState, events: Seq<PollEvent>)
    requires
        !st.timed_out,
    ensures
        spec_supervise(st, events).timed_out == trace_times_out(st.deadline_ms, events),
    decreases events.len(),
{
    if events.len() == 0 {
    } else {
        let stepped = spec_step(st, events[0]);
        if stepped.1 is Sleep {
            lemma_timeout_iff_deadline_passed_from(stepped.0, events.drop_first());
        }
    }
}

/// A replayed loop marks its run timed out exactly when the trace sees the
/// child still running past the deadline before any exit or poll failure:
/// a natural exit observed first always leaves the run not timed out.
pub proof fn lemma_timeout_iff_deadline_passed(deadline_ms: u64, events: Seq<PollEvent>)
    ensures
        spec_supervise(initial_state(deadline_ms), events).timed_out == trace_times_out(
            deadline_ms,
            events,
        ),
{
    lemma_timeout_iff_deadline_passed_from(initial_state(deadline_ms), events);
}

/// The resource samples that a loop with this deadline folds into its
/// maxima: one per within-deadline running poll, in order, up to the event
/// that ends the loop.
pub open spec fn sampled_metrics(deadline_ms: u64, events: Seq<PollEvent>) -> Seq<ExecutionMetrics>
    decreases events.len(),
{
    if events.len() == 0 {
        Seq::empty()
    } else {
        match events[0] {
            PollEvent::Running { now_ms, sample } => {
                if now_ms > deadline_ms {
                    Seq::empty()
                } else {
                    (match sample {
                        Some(m) => seq![m],
                        None => Seq::<ExecutionMetrics>::empty(),
                    }) + sampled_metrics(deadline_ms, events.drop_first())
                }
            },
            _ => Seq::empty(),
        }
    }
}

/// The largest element of a series of readings, starting from zero.
pub open spec fn seq_max(s: Seq<u64>) -> u64
    decreases s.len(),
{
    if s.len() == 0 {
        0
    } else if s[0] > seq_max(s.drop_first()) {
        s[0]
    } else {
        seq_max(s.drop_first())
    }
}

/// `seq_max` is the maximum of the series: no element exceeds it, and when
/// it is not the zero starting point it is one of the elements. Two series
/// that hold the same readings in any order therefore have the same
/// `seq_max`.
pub proof fn lemma_seq_max_characterization(s: Seq<u64>)
    ensures
        forall|i: int| 0 <= i < s.len() ==> s[i] <= seq_max(s),
        seq_max(s) == 0 || s.contains(seq_max(s)),
    decreases s.len(),
{
    if s.len() == 0 {
    } else {
        lemma_seq_max_characterization(s.drop_first());
        assert forall|i: int| 0 <= i < s.len() implies s[i] <= seq_max(s) by {
            if i > 0 {
                assert(s.drop_first()[i - 1] == s[i]);
            }
        }
        if seq_max(s) != 0 {
            if s[0] == seq_max(s) {
                assert(s.contains(seq_max(s)));
            } else {
                assert(s.drop_first().contains(seq_max(s)));
                let j = choose|j: int|
                    0 <= j < s.drop_first().len() && s.drop_first()[j] == seq_max(s);
                assert(s[j + 1] == seq_max(s));
            }
        }
    }
}

proof fn lemma_peak_metrics_from(st: SupervisorState, events: Seq<PollEvent>)
    ensures
        ({
            let r = spec_supervise(st, events);
            let samples = sampled_metrics(st.deadline_ms, events);
            &&& r.max_cpu == (if st.max_cpu > seq_max(
                samples.map_values(|m: ExecutionMetrics| m.cpu_usage),
            ) {
                st.max_cpu
            } else {
                seq_max(samples.map_values(|m: ExecutionMetrics| m.cpu_usage))
            })
            &&& r.max_memory_mb == (if st.max_memory_mb > seq_max(
                samples.map_values(|m: ExecutionMetrics| m.memory_mb),
            ) {
                st.max_memory_mb
            } else {
                seq_max(samples.map_values(|m: ExecutionMetrics| m.memory_mb))
            })
        }),
    decreases events.len(),
{
    let r = spec_supervise(st, events);
    let samples = sampled_metrics(st.deadline_ms, events);
    let cpus = samples.map_values(|m: ExecutionMetrics| m.cpu_usage);
    let mems = samples.map_values(|m: ExecutionMetrics| m.memory_mb);
    if events.len() == 0 {
        assert(cpus =~= Seq::<u64>::empty());
        assert(mems =~= Seq::<u64>::empty());
    } else {
        let stepped = spec_step(st, events[0]);
        let st2 = stepped.0;
        match events[0] {
            PollEvent::Running { now_ms, sample } => {
                if now_ms > st.deadline_ms {
                    assert(cpus =~= Seq::<u64>::empty());
                    assert(mems =~= Seq::<u64>::empty());
                } else {
                    lemma_peak_metrics_from(st2, events.drop_first());
                    let tail = sampled_metrics(st.deadline_ms, events.drop_first());
                    let tail_cpus = tail.map_values(|m: ExecutionMetrics| m.cpu_usage);
                    let tail_mems = tail.map_values(|m: ExecutionMetrics| m.memory_mb);
                    match sample {
                        Some(m) => {
                            assert(samples =~= seq![m] + tail);
                            assert(cpus =~= seq![m.cpu_usage] + tail_cpus);
                            assert(mems =~= seq![m.memory_mb] + tail_mems);
                            assert(cpus.drop_first() =~= tail_cpus);
                            assert(mems.drop_first() =~= tail_mems);
                        },
                        None => {
                            assert(samples =~= tail);
                            assert(cpus =~= tail_cpus);
                            assert(mems =~= tail_mems);
                        },
                    }
                }
            },
            _ => {
                assert(cpus =~= Seq::<u64>::empty());
                assert(mems =~= Seq::<u64>::empty());
            },
        }
    }
}

/// The final maxima of a replayed loop are exactly the maxima of the series
/// of samples it considered: `max_cpu` is the largest sampled CPU reading
/// and `max_memory_mb` the largest sampled memory reading, each element-wise
/// over the whole series, whatever order the readings arrived in.
pub proof fn lemma_peak_metrics(deadline_ms: u64, events: Seq<PollEvent>)
    ensures
        spec_supervise(initial_state(deadline_ms), events).max_cpu == seq_max(
            sampled_metrics(deadline_ms, events).map_values(|m: ExecutionMetrics| m.cpu_usage),
        ),
        spec_supervise(initial_state(deadline_ms), events).max_memory_mb == seq_max(
            sampled_metrics(deadline_ms, events).map_values(|m: ExecutionMetrics| m.memory_mb),
        ),
{
    lemma_peak_metrics_from(initial_state(deadline_ms), events);
}

} // verus!
