//! Launches, scheduling and merging of parallel runs.
use llm_browser_testkit::costs::{EndpointUsage, UsageSnapshot};
use llm_browser_testkit::events::TestEvent;
use llm_browser_testkit::parallel::{
    available_memory_now, give_up_error, is_retryable_oom, make_gate, merge_globals, merge_runs,
    mode_from_cli, probe_memory, retry_warning, run_finished, run_started,
    synthesized_failed_report, Claim, Decision, MemoryInfo, ParallelMode, ScenarioFile,
    SchedulerState, FOOTPRINT_UNIT, MAX_LAUNCH_RETRIES,
};
use llm_browser_testkit::scenario::{ScenarioConfig, TestGroup};

fn file(label: &str, group: Option<&str>) -> ScenarioFile {
    ScenarioFile {
        label: label.to_owned(),
        config: ScenarioConfig {
            concurrency_group: group.map(std::borrow::ToOwned::to_owned),
            ..ScenarioConfig::default()
        },
        definitions: Vec::new(),
        tests: Vec::new(),
    }
}

/// A learned footprint in bytes.
fn bytes(footprint: u64) -> f64 {
    footprint as f64 / FOOTPRINT_UNIT as f64
}

fn group(name: &str) -> TestGroup {
    TestGroup {
        name: name.to_owned(),
        start_url: None,
        auto_navigate: None,
        base_url: None,
        timeout_secs: None,
        browser_headless: None,
        viewport_width: None,
        viewport_height: None,
        budget: None,
        endpoint: None,
        steps: Vec::new(),
    }
}

#[test]
fn test_distinct_groups_claim_in_parallel() {
    let mut s = SchedulerState::new(vec![file("a", None), file("b", Some("x")), file("c", None)]);
    assert!(matches!(s.claim(), Claim::Take(0)));
    assert!(matches!(s.claim(), Claim::Take(1)));
    assert!(matches!(s.claim(), Claim::Take(2)));
    s.complete(1);
    assert!(matches!(s.claim(), Claim::Done));
}

#[test]
fn test_same_group_blocks_until_completed() {
    let mut s = SchedulerState::new(vec![
        file("a", Some("g")),
        file("b", Some("g")),
        file("c", None),
    ]);
    assert!(matches!(s.claim(), Claim::Take(0)));
    assert!(
        matches!(s.claim(), Claim::Take(2)),
        "a different group still runs while 'g' is active"
    );
    assert!(
        matches!(s.claim(), Claim::Wait),
        "b is blocked by a's group"
    );
    s.complete(0);
    assert!(
        matches!(s.claim(), Claim::Take(1)),
        "b runs after a finishes"
    );
    s.complete(1);
    assert!(matches!(s.claim(), Claim::Done));
}

#[test]
fn test_no_group_means_own_group() {
    let mut s = SchedulerState::new(vec![file("a", None), file("b", None)]);
    assert!(matches!(s.claim(), Claim::Take(0)));
    assert!(
        matches!(s.claim(), Claim::Take(1)),
        "no-group files run in parallel"
    );
}

#[test]
fn keys_of_files() {
    assert_eq!(file("a", Some("g")).concurrency_key(3), "g");
    assert_eq!(file("a", None).concurrency_key(3), "<file 3>");
}

#[test]
fn test_mode_from_cli_manual_wins() {
    assert_eq!(mode_from_cli(Some(5), 1, 0), ParallelMode::Manual(5));
}

#[test]
fn test_mode_from_cli_auto_with_defaults() {
    assert_eq!(
        mode_from_cli(None, 1, 0),
        ParallelMode::Auto { min: 1, max: 0 }
    );
}

#[test]
fn modes_run_at_least_one() {
    assert_eq!(mode_from_cli(Some(0), 1, 0), ParallelMode::Manual(1));
    assert_eq!(
        mode_from_cli(None, 0, 4),
        ParallelMode::Auto { min: 1, max: 4 }
    );
}

#[test]
fn test_gate_manual_is_fixed() {
    let gate = make_gate(&ParallelMode::Manual(3), None, 10);
    assert_eq!(gate.limit, 3);
    assert_eq!(gate.threads, 3);
    assert_eq!(gate.lower, 3);
}

#[test]
fn test_gate_auto_ramps_from_min_toward_ceiling() {
    let gate = make_gate(&ParallelMode::Auto { min: 1, max: 0 }, None, 100);
    assert_eq!(gate.lower, 1);
    assert_eq!(gate.limit, 1);
    // Unknown memory: ceiling falls back to DEFAULT_AUTO_CEILING (8).
    assert_eq!(gate.ramp_ceiling, 8);
    assert_eq!(gate.threads, 64);
}

#[test]
fn test_gate_auto_respects_user_max() {
    let gate = make_gate(&ParallelMode::Auto { min: 1, max: 8 }, None, 100);
    assert_eq!(gate.threads, 8);
    assert_eq!(gate.ramp_ceiling, 8);
}

#[test]
fn test_gate_memory_guard_blocks_low_headroom() {
    let gate = make_gate(
        &ParallelMode::Auto { min: 1, max: 4 },
        Some(MemoryInfo {
            total: 1_000_000_000,
            available: 50_000_000, // below MIN_HEADROOM_BYTES
        }),
        4,
    );
    assert!(gate.memory_blocked());
    assert!(!gate.can_launch());
}

#[test]
fn test_gate_memory_guard_allows_headroom() {
    let gate = make_gate(
        &ParallelMode::Auto { min: 1, max: 4 },
        Some(MemoryInfo {
            total: 1_000_000_000,
            available: 900_000_000,
        }),
        4,
    );
    assert!(!gate.memory_blocked());
    assert!(gate.can_launch());
}

#[test]
fn test_gate_memory_guard_ignores_huge_host_total() {
    // VM/container: total reports the host's huge RAM, but available is
    // small. The guard must block based on absolute available bytes, not
    // a fraction of total.
    let gate = make_gate(
        &ParallelMode::Auto { min: 1, max: 4 },
        Some(MemoryInfo {
            total: 500_000_000_000, // 500 GB host
            available: 100_000_000, // 100 MB left in the cgroup
        }),
        4,
    );
    assert!(gate.memory_blocked(), "must block despite a 500 GB 'total'");
}

#[test]
fn test_gate_memory_guard_blocks_when_no_room_for_one_footprint() {
    let mut gate = make_gate(
        &ParallelMode::Auto { min: 1, max: 4 },
        Some(MemoryInfo {
            total: 8_000_000_000,
            available: 300_000_000, // above the absolute floor...
        }),
        4,
    );
    // ...but one learned browser needs ~500 MB, so it must still block.
    gate.footprint = 500 * 1024 * 1024 * FOOTPRINT_UNIT;
    gate.footprint_count = 3;
    assert!(gate.memory_blocked());
}

#[test]
fn test_oom_failure_halves_limit_and_sets_backoff() {
    let mut gate = make_gate(&ParallelMode::Auto { min: 1, max: 16 }, None, 100);
    gate.limit = 16;
    gate.on_launch_failure();
    assert_eq!(gate.limit, 8);
    assert!(gate.retry_backoff > 0);
}

#[test]
fn test_is_retryable_oom_matches_memory_errors() {
    assert!(is_retryable_oom("failed to launch browser: out of memory"));
    assert!(is_retryable_oom("cannot allocate memory for page"));
    assert!(!is_retryable_oom("Chrome binary not found"));
    assert!(!is_retryable_oom("invalid URL"));
}

#[test]
fn memory_errors_are_found_in_any_case() {
    assert!(is_retryable_oom("OOM killer struck"));
    assert!(is_retryable_oom("process was KILLED"));
}

#[test]
fn test_launch_finished_learns_footprint_from_delta() {
    let mut gate = make_gate(
        &ParallelMode::Auto { min: 1, max: 4 },
        Some(MemoryInfo {
            total: 8_000_000_000,
            available: 8_000_000_000,
        }),
        4,
    );
    // Before = 1 GiB free, after = 600 MiB free → one browser ≈ 400 MiB.
    gate.launch_finished(Some(1_000_000_000), Some(600_000_000));
    assert!((bytes(gate.footprint) - 400_000_000.0).abs() < 1.0);
    assert_eq!(gate.footprint_count, 1);
    assert_eq!(gate.available, Some(600_000_000));
}

#[test]
fn footprints_are_averaged_as_doubles() {
    let mut gate = make_gate(&ParallelMode::Auto { min: 1, max: 4 }, None, 4);
    let mut expected = 0.0_f64;
    let samples = [
        134_217_731_u64,
        1,
        987_654_321,
        400_000_001,
        333_333_333,
        u64::MAX,
        150_000_007,
        1_073_741_825,
        200_000_003,
        18_014_398_509_481_983,
        2,
        777_777_777,
    ];
    for (i, delta) in samples.into_iter().enumerate() {
        gate.launch_finished(Some(delta), Some(0));
        let d = delta as f64;
        expected = if i == 0 { d } else { expected * 0.7 + d * 0.3 };
        expected = expected.clamp(134_217_728.0, 2_147_483_648.0);
        assert_eq!(bytes(gate.footprint), expected, "after {delta}");
        for available in [268_435_457_u64, 4_000_000_001, 9_007_199_254_740_993] {
            gate.memory_total = Some(available);
            gate.available = Some(available);
            gate.threads = usize::MAX;
            gate.on_success();
            let capacity = (available as f64 / expected) as usize;
            assert_eq!(gate.limit, capacity.max(1), "{available} / {expected}");
            assert_eq!(
                gate.memory_blocked(),
                available < 256 * 1024 * 1024 || available < expected as u64
            );
        }
    }
}

#[test]
fn parts_of_a_byte_count_for_the_capacity() {
    let available = 268_435_457;
    let mut gate = make_gate(
        &ParallelMode::Auto { min: 1, max: 4 },
        Some(MemoryInfo {
            total: available,
            available,
        }),
        4,
    );
    gate.footprint = (134_217_728.9 * FOOTPRINT_UNIT as f64) as u64;
    gate.footprint_count = 1;
    gate.on_success();
    assert_eq!(gate.limit, 1);
}

#[test]
fn test_on_success_raises_to_memory_capacity() {
    let mut gate = make_gate(
        &ParallelMode::Auto { min: 1, max: 0 },
        Some(MemoryInfo {
            total: 8_000_000_000,
            available: 4_000_000_000,
        }),
        100,
    );
    assert_eq!(gate.limit, 1);
    // Learn a 1 GiB footprint, then capacity = 4 GiB / 1 GiB = 4.
    gate.footprint = 1_000_000_000 * FOOTPRINT_UNIT;
    gate.footprint_count = 3;
    gate.on_success();
    assert_eq!(gate.limit, 4);
}

#[test]
fn test_on_success_ramps_when_memory_unknown() {
    let mut gate = make_gate(&ParallelMode::Auto { min: 1, max: 0 }, None, 100);
    assert_eq!(gate.limit, 1);
    gate.on_success();
    assert_eq!(gate.limit, 2, "ramps up one at a time");
}

#[test]
fn test_can_launch_respects_active_limit() {
    let mut gate = make_gate(&ParallelMode::Manual(2), None, 10);
    assert!(gate.can_launch());
    gate.launch_started(Some(1_000_000_000));
    assert!(gate.can_launch(), "one of two slots free");
    gate.launch_started(Some(1_000_000_000));
    assert!(!gate.can_launch(), "both manual slots in use");
    gate.release(Some(1_000_000_000));
    assert!(gate.can_launch(), "slot freed after release");
}

#[test]
fn failed_launches_are_retried_a_bounded_number_of_times() {
    let mut gate = make_gate(&ParallelMode::Manual(2), None, 10);
    let mut retries = 0;
    for attempt in 1.. {
        gate.launch_started(None);
        match gate.settle(attempt, None, None, Some(true)) {
            Decision::Retry(ms) => assert!(ms > 0),
            Decision::GiveUp => break,
            Decision::Done => panic!("a failure is not done"),
        }
        retries += 1;
        assert!(retries < 100);
    }
    assert_eq!(retries, MAX_LAUNCH_RETRIES);
    assert_eq!(MAX_LAUNCH_RETRIES, 3);
    assert_eq!(gate.active, 0);
    assert_eq!(gate.limit, 2, "a manual limit never moves");
    gate.launch_started(None);
    assert!(matches!(
        gate.settle(1, None, None, Some(false)),
        Decision::GiveUp
    ));
    gate.launch_started(None);
    assert!(matches!(gate.settle(1, None, None, None), Decision::Done));
}

fn usage(calls: u64, input_tokens: u64, output_tokens: u64, cost: u128) -> EndpointUsage {
    EndpointUsage {
        calls,
        input_tokens,
        output_tokens,
        cost,
    }
}

#[test]
fn test_merge_globals_sums_endpoint_counters() {
    let snap1 = UsageSnapshot::from_endpoints(&vec![(
        "a".to_owned(),
        usage(1, 100, 50, 10_000_000_000),
    )]);
    let snap2 = UsageSnapshot::from_endpoints(&vec![
        ("a".to_owned(), usage(2, 200, 100, 20_000_000_000)),
        ("b".to_owned(), usage(1, 10, 5, 1_000_000_000)),
    ]);
    let merged = merge_globals(&vec![snap1, snap2]);
    assert_eq!(merged.endpoints.len(), 2);
    let find = |name: &str| {
        merged
            .endpoints
            .iter()
            .find(|(n, _)| n == name)
            .map(|(_, u)| *u)
            .expect("an entry")
    };
    let a = find("a");
    assert_eq!(a.calls, 3);
    assert_eq!(a.input_tokens, 300);
    assert!((a.cost as f64 / 1e12 - 0.03).abs() < 0.0001);
    let b = find("b");
    assert_eq!(b.calls, 1);
    assert_eq!(merged.total_calls, 4);
}

#[test]
fn a_file_that_cannot_run_fails_all_its_tests() {
    let mut lost = file("lost", None);
    lost.tests = vec![group("x"), group("y")];
    let files = vec![lost];
    assert!(matches!(
        run_started(&files),
        TestEvent::RunStarted { total_tests: 2 }
    ));
    let run = synthesized_failed_report(&files[0]);
    assert_eq!(run.report.tests_failed, 2);
    let merged = merge_runs(vec![None, Some(run), Some(synthesized_failed_report(&file("e", None)))]);
    assert_eq!(merged.report.tests_passed, 0);
    assert_eq!(merged.report.tests_failed, 2);
    match run_finished(&merged.report, &merged.global) {
        TestEvent::RunFinished {
            tests_failed,
            total_calls,
            ..
        } => assert_eq!((tests_failed, total_calls), (2, 0)),
        other => panic!("expected run_finished, got {other:?}"),
    }
}

#[test]
fn messages_of_launches() {
    assert!(retry_warning("a.toml", 1, 500).starts_with(
        "a.toml: browser launch failed (likely out of memory); retrying (1/"
    ));
    assert!(retry_warning("a.toml", 1, 500).ends_with(") in 500ms"));
    assert_eq!(give_up_error("a.toml", "boom"), "a.toml: boom");
}

#[test]
fn memory_answers_are_read() {
    assert_eq!(available_memory_now(Some(" 123\n")), Some(123));
    assert_eq!(available_memory_now(Some("lots")), None);
    assert_eq!(available_memory_now(None), None);
    assert_eq!(
        probe_memory(Some("1000"), Some("400"), None, None, None),
        Some(MemoryInfo {
            total: 1000,
            available: 400
        })
    );
    assert_eq!(
        probe_memory(None, None, Some("8000"), Some("16"), Some("100")),
        Some(MemoryInfo {
            total: 8000,
            available: 1600
        })
    );
    assert_eq!(probe_memory(None, None, None, None, None), None);
}
