//! Costs, usage and budgets.
use llm_browser_testkit::budgets::{BudgetStatus, BudgetTracker, ResolvedBudget};
use llm_browser_testkit::costs::{
    calculate_llm_cost, price, EndpointUsage, UsageSnapshot, UsageTracker,
};
use llm_browser_testkit::endpoints::ResolvedEndpoint;
use llm_browser_testkit::scenario::{
    AuthConfig, AwsConfig, BudgetDef, BudgetEnforcement, BudgetsConfig, EndpointType, Provider,
};

const DOLLAR: u128 = 1_000_000_000_000;

fn dollars(cost: u128) -> f64 {
    cost as f64 / DOLLAR as f64
}

/// Prices in dollars: per 1M input tokens, per 1M output tokens and per call.
fn make_endpoint(name: &str, input_price: f64, output_price: f64, per_call: f64) -> ResolvedEndpoint {
    ResolvedEndpoint {
        name: name.to_owned(),
        endpoint_type: EndpointType::Llm,
        url: String::new(),
        model: None,
        api_key: None,
        headers: Vec::new(),
        command: None,
        args: vec![],
        vision: false,
        input_price_per_1m: (input_price * 1e6).round() as u64,
        output_price_per_1m: (output_price * 1e6).round() as u64,
        per_call_price: (per_call * 1e12).round() as u128,
        max_attempts: 3,
        fallbacks: vec![],
        provider: Provider::Openai,
        deployment: None,
        api_version: None,
        auth: AuthConfig::default(),
        header_commands: Vec::new(),
        aws: AwsConfig::default(),
    }
}

fn usage_of<'s>(snap: &'s UsageSnapshot, name: &str) -> Option<&'s EndpointUsage> {
    snap.endpoints
        .iter()
        .find(|(n, _)| n == name)
        .map(|(_, u)| u)
}

#[test]
fn test_calculate_llm_cost() {
    let ep = make_endpoint("test", 0.15, 0.60, 0.0);
    // 1M input tokens = $0.15, 500K output = $0.30
    let cost = calculate_llm_cost(&ep, 1_000_000, 500_000);
    assert!((dollars(cost) - 0.45).abs() < 0.001);
    assert_eq!(cost, 450_000_000_000);
}

#[test]
fn test_calculate_zero_cost() {
    let ep = make_endpoint("free", 0.0, 0.0, 0.0);
    let cost = calculate_llm_cost(&ep, 1_000_000, 1_000_000);
    assert!((dollars(cost) - 0.0).abs() < f64::EPSILON);
}

#[test]
fn test_usage_tracker_record_llm() {
    let mut tracker = UsageTracker::new();
    let ep = make_endpoint("gpt4", 2.50, 10.0, 0.0);
    tracker.record_llm_call("gpt4", &ep, 1000, 500);

    let snap = tracker.current_test_snapshot();
    assert_eq!(snap.total_calls, 1);
    assert_eq!(snap.total_tokens, 1500);
    assert!(
        snap.total_cost > 0,
        "expected cost > 0, got {}",
        snap.total_cost
    );

    let ep_usage = usage_of(&snap, "gpt4").expect("an entry");
    assert_eq!(ep_usage.calls, 1);
    assert_eq!(ep_usage.input_tokens, 1000);
    assert_eq!(ep_usage.output_tokens, 500);
    assert_eq!(ep_usage.cost, 7_500_000_000);
}

#[test]
fn test_usage_tracker_record_flat() {
    let mut tracker = UsageTracker::new();
    let ep = make_endpoint("agent", 0.0, 0.0, 0.01);
    tracker.record_flat_call("agent", &ep);
    tracker.record_flat_call("agent", &ep);

    let snap = tracker.current_test_snapshot();
    assert_eq!(snap.total_calls, 2);
    assert!((dollars(snap.total_cost) - 0.02).abs() < f64::EPSILON);
}

#[test]
fn test_usage_tracker_multiple_endpoints() {
    let mut tracker = UsageTracker::new();
    let fast = make_endpoint("fast", 0.15, 0.60, 0.0);
    let slow = make_endpoint("slow", 2.50, 10.0, 0.0);

    tracker.record_llm_call("fast", &fast, 100, 50);
    tracker.record_llm_call("slow", &slow, 200, 100);

    let snap = tracker.current_test_snapshot();
    assert_eq!(snap.total_calls, 2);
    assert_eq!(snap.endpoints.len(), 2);
}

#[test]
fn test_usage_tracker_reset_and_commit() {
    let mut tracker = UsageTracker::new();
    let ep = make_endpoint("test", 0.15, 0.60, 0.0);

    tracker.record_llm_call("test", &ep, 100, 50);
    tracker.commit_test("test1");
    tracker.reset_per_test();

    tracker.record_llm_call("test", &ep, 200, 100);
    tracker.commit_test("test2");

    let global = tracker.global_snapshot();
    assert_eq!(global.total_calls, 2);
    assert_eq!(global.total_tokens, 450);

    let per_test = tracker.per_test_snapshots();
    assert_eq!(per_test.len(), 2);
    assert_eq!(per_test[0].0, "test1");
    assert_eq!(per_test[1].0, "test2");
}

#[test]
fn the_global_summary_is_the_sum_of_the_tests() {
    let mut tracker = UsageTracker::default();
    let a = make_endpoint("a", 1.0, 2.0, 0.0);
    let b = make_endpoint("b", 0.0, 0.0, 0.5);
    tracker.record_llm_call("a", &a, 10, 20);
    tracker.record_flat_call("b", &b);
    tracker.commit_test("one");
    tracker.reset_per_test();
    tracker.record_llm_call("a", &a, 1, 2);
    tracker.commit_test("two");
    let global = tracker.global_snapshot();
    let tests = tracker.per_test_snapshots();
    assert_eq!(
        global.total_cost,
        tests[0].1.total_cost + tests[1].1.total_cost
    );
    assert_eq!(global.total_calls, 3);
    let of_a = usage_of(&global, "a").expect("an entry");
    assert_eq!((of_a.calls, of_a.input_tokens, of_a.output_tokens), (2, 11, 22));
    assert_eq!(of_a.cost, 11 * 1_000_000 + 22 * 2_000_000);
    assert_eq!(usage_of(&global, "b").expect("an entry").cost, DOLLAR / 2);
}

#[test]
fn prices_saturate() {
    assert_eq!(price(3, 5, 7, 11), 92);
    assert_eq!(price(u64::MAX, u64::MAX, u64::MAX, u64::MAX), u128::MAX);
}

// ── Budgets ───────────────────────────────────────────────────────────

fn spent(cost: u128, tokens: u64, calls: u64) -> UsageSnapshot {
    UsageSnapshot {
        endpoints: Vec::new(),
        total_cost: cost,
        total_calls: calls,
        total_tokens: tokens,
    }
}

fn limit(
    max_cost: Option<u128>,
    max_tokens: Option<u64>,
    max_calls: Option<u64>,
    enforcement: Option<BudgetEnforcement>,
) -> BudgetDef {
    BudgetDef {
        max_cost,
        max_tokens,
        max_calls,
        enforcement,
    }
}

#[test]
fn budgets_are_hard_by_default() {
    let budget = ResolvedBudget::from_def(&limit(Some(1), None, None, None));
    assert_eq!(budget.enforcement, BudgetEnforcement::Hard);
}

#[test]
fn no_budget_is_never_exceeded() {
    let tracker = BudgetTracker::from_config(&BudgetsConfig::default());
    assert_eq!(
        tracker.check_all("t", &spent(u128::MAX, 1, 1), &spent(u128::MAX, 1, 1), None),
        BudgetStatus::Within
    );
}

#[test]
fn limits_are_inclusive_and_named() {
    let tracker = BudgetTracker::from_config(&BudgetsConfig {
        global: Some(limit(
            Some(5 * DOLLAR),
            Some(100),
            Some(3),
            Some(BudgetEnforcement::Soft),
        )),
        per_test_default: None,
    });
    assert_eq!(
        tracker.check_global(&spent(5 * DOLLAR, 100, 3)),
        BudgetStatus::Within
    );
    assert_eq!(
        tracker.check_global(&spent(5 * DOLLAR + DOLLAR / 4, 101, 4)),
        BudgetStatus::SoftExceeded {
            budget: "global".to_owned(),
            message: "Cost budget exceeded for 'global': 5.250000 > 5.000000".to_owned(),
        }
    );
    assert_eq!(
        tracker.check_global(&spent(0, 101, 4)),
        BudgetStatus::SoftExceeded {
            budget: "global".to_owned(),
            message: "Token budget exceeded for 'global': 101.000000 > 100.000000".to_owned(),
        }
    );
    assert_eq!(
        tracker.check_global(&spent(0, 100, 4)),
        BudgetStatus::SoftExceeded {
            budget: "global".to_owned(),
            message: "Call budget exceeded for 'global': 4.000000 > 3.000000".to_owned(),
        }
    );
}

#[test]
fn a_test_can_override_its_budget() {
    let tracker = BudgetTracker::from_config(&BudgetsConfig {
        global: None,
        per_test_default: Some(limit(None, None, Some(1), None)),
    });
    assert!(matches!(
        tracker.check_per_test("t", &spent(0, 0, 2), None),
        BudgetStatus::HardExceeded { .. }
    ));
    let own = limit(None, None, Some(2), None);
    assert_eq!(
        tracker.check_per_test("t", &spent(0, 0, 2), Some(&own)),
        BudgetStatus::Within
    );
}

#[test]
fn the_most_severe_violation_is_reported() {
    let tracker = BudgetTracker::from_config(&BudgetsConfig {
        global: Some(limit(None, None, Some(1), Some(BudgetEnforcement::Hard))),
        per_test_default: Some(limit(None, None, Some(1), Some(BudgetEnforcement::Soft))),
    });
    match tracker.check_all("t", &spent(0, 0, 2), &spent(0, 0, 2), None) {
        BudgetStatus::HardExceeded { budget, .. } => assert_eq!(budget, "global"),
        other => panic!("expected a hard violation, got {other:?}"),
    }
    match tracker.check_all("t", &spent(0, 0, 2), &spent(0, 0, 1), None) {
        BudgetStatus::SoftExceeded { budget, .. } => assert_eq!(budget, "t"),
        other => panic!("expected a soft violation, got {other:?}"),
    }
}

#[test]
fn pending_calls_are_checked_with_their_estimate() {
    let budget = ResolvedBudget::from_def(&limit(Some(DOLLAR), Some(1000), None, None));
    let usage = spent(DOLLAR / 2, 500, 0);
    assert_eq!(
        BudgetTracker::check_pre_flight_llm(&budget, &usage, 100, 400, 0, 0),
        BudgetStatus::Within
    );
    assert!(matches!(
        BudgetTracker::check_pre_flight_llm(&budget, &usage, 101, 400, 0, 0),
        BudgetStatus::HardExceeded { .. }
    ));
    assert!(matches!(
        BudgetTracker::check_pre_flight_llm(&budget, &usage, 1, 0, 500_000_000_001, 0),
        BudgetStatus::HardExceeded { .. }
    ));
    assert_eq!(
        BudgetTracker::check_pre_flight_flat(&budget, &usage, DOLLAR / 2),
        BudgetStatus::Within
    );
    assert!(matches!(
        BudgetTracker::check_pre_flight_flat(&budget, &usage, DOLLAR / 2 + 1),
        BudgetStatus::HardExceeded { .. }
    ));
}
