use devflow_exec::ExecutionMetrics;
use devflow_exec::PollEvent;
use devflow_exec::StepAction;
use devflow_exec::aggregate_result;
use devflow_exec::run_supervision;
use devflow_exec::supervise_step;
use devflow_exec::supervisor::deadline_ms;
use devflow_exec::supervisor::format_decimal;
use devflow_exec::supervisor::timeout_message;
use devflow_exec::supervisor::resolve_timeout;
use devflow_exec::supervisor::start_supervision;

#[test]
fn test_timeout_sets_flag_and_kills_once() {
    // Deadline 300 000 ms; the second poll comes after it.
    let events = vec![
        PollEvent::Running { now_ms: 100, sample: None },
        PollEvent::Running { now_ms: 600_000, sample: None },
        // Never reached: the loop ends at the late poll.
        PollEvent::Exited,
    ];
    let st = run_supervision(300_000, &events);
    assert!(st.timed_out);
    assert_eq!(st.kills, 1);

    let result = aggregate_result(&vec![], &vec![], None, st.timed_out, st.max_cpu, st.max_memory_mb, 600_000);
    assert!(result.timed_out);
    assert_eq!(result.exit_code, -1);
}

#[test]
fn test_natural_exit_before_deadline() {
    let events = vec![
        PollEvent::Running { now_ms: 100, sample: None },
        PollEvent::Exited,
    ];
    let st = run_supervision(300_000, &events);
    assert!(!st.timed_out);
    assert_eq!(st.kills, 0);
}

#[test]
fn test_exit_at_deadline_is_not_timeout() {
    // The deadline check is strict: a poll exactly at the deadline keeps going.
    let events = vec![
        PollEvent::Running { now_ms: 300_000, sample: None },
        PollEvent::Exited,
    ];
    let st = run_supervision(300_000, &events);
    assert!(!st.timed_out);
    assert_eq!(st.kills, 0);
}

#[test]
fn test_poll_failure_ends_loop_without_kill() {
    let events = vec![
        PollEvent::Running { now_ms: 100, sample: None },
        PollEvent::PollFailed,
    ];
    let st = run_supervision(300_000, &events);
    assert!(!st.timed_out);
    assert_eq!(st.kills, 0);
}

#[test]
fn test_peak_metrics_are_series_maxima() {
    // Peaks land in different samples; the maxima are element-wise.
    let events = vec![
        PollEvent::Running {
            now_ms: 0,
            sample: Some(ExecutionMetrics { cpu_usage: 5_000, memory_mb: 100 }),
        },
        PollEvent::Running {
            now_ms: 500,
            sample: Some(ExecutionMetrics { cpu_usage: 35_000, memory_mb: 80 }),
        },
        PollEvent::Running { now_ms: 1_000, sample: None },
        PollEvent::Running {
            now_ms: 1_500,
            sample: Some(ExecutionMetrics { cpu_usage: 12_000, memory_mb: 450 }),
        },
        PollEvent::Exited,
    ];
    let st = run_supervision(300_000, &events);
    assert_eq!(st.max_cpu, 35_000);
    assert_eq!(st.max_memory_mb, 450);
    assert!(!st.timed_out);
}

#[test]
fn test_peak_metrics_order_independent() {
    let samples = [(5_000u64, 100u64), (35_000, 80), (12_000, 450)];
    let reversed: Vec<(u64, u64)> = samples.iter().rev().cloned().collect();
    let as_events = |s: &[(u64, u64)]| {
        let mut events: Vec<PollEvent> = s
            .iter()
            .enumerate()
            .map(|(i, &(cpu_usage, memory_mb))| PollEvent::Running {
                now_ms: (i as u64) * 500,
                sample: Some(ExecutionMetrics { cpu_usage, memory_mb }),
            })
            .collect();
        events.push(PollEvent::Exited);
        events
    };
    let forward = run_supervision(300_000, &as_events(&samples));
    let backward = run_supervision(300_000, &as_events(&reversed));
    assert_eq!(forward.max_cpu, backward.max_cpu);
    assert_eq!(forward.max_memory_mb, backward.max_memory_mb);
}

#[test]
fn test_timeout_default_and_deadline() {
    assert_eq!(resolve_timeout(None), 300);
    assert_eq!(resolve_timeout(Some(5)), 5);
    assert_eq!(deadline_ms(300), 300_000);
    assert_eq!(deadline_ms(u64::MAX), u64::MAX);
}

#[test]
fn test_decimal_formatting() {
    assert_eq!(format_decimal(0), "0");
    assert_eq!(format_decimal(7), "7");
    assert_eq!(format_decimal(300), "300");
    assert_eq!(format_decimal(u64::MAX), "18446744073709551615");
}

#[test]
fn test_timeout_message_text() {
    assert_eq!(timeout_message(300), "\u{23f1} Command timed out after 300s");
}

#[test]
fn test_supervise_step_actions() {
    let mut st = start_supervision(1_000);

    let action = supervise_step(
        &mut st,
        &PollEvent::Running {
            now_ms: 500,
            sample: Some(ExecutionMetrics { cpu_usage: 700, memory_mb: 32 }),
        },
    );
    assert_eq!(action, StepAction::Sleep);
    assert_eq!(st.max_cpu, 700);
    assert_eq!(st.max_memory_mb, 32);

    let action = supervise_step(&mut st, &PollEvent::Running { now_ms: 1_001, sample: None });
    assert_eq!(action, StepAction::KillAndFinish);
    assert!(st.timed_out);
    assert_eq!(st.kills, 1);

    let mut fresh = start_supervision(1_000);
    let action = supervise_step(&mut fresh, &PollEvent::Exited);
    assert_eq!(action, StepAction::Finish);
    assert!(!fresh.timed_out);
}
