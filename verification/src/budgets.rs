//! Budget tracking and enforcement.
use vstd::prelude::*;
use vstd::string::StringExecFns;
use crate::costs;
use crate::costs::UsageSnapshot;
use crate::numbers;
use crate::scenario::{BudgetDef, BudgetEnforcement, BudgetsConfig, Picodollars};
use crate::text;

verus! {

/// Result of a budget check before or after a call.
#[derive(Debug, Clone, PartialEq, Eq)]
pub enum BudgetStatus {
    /// Budget is within limits.
    Within,
    /// Budget exceeded, enforcement is soft — log but continue.
    SoftExceeded {
        /// Which budget was exceeded.
        budget: String,
        /// Human-readable message.
        message: String,
    },
    /// Budget exceeded, enforcement is hard — abort execution.
    HardExceeded {
        /// Which budget was exceeded.
        budget: String,
        /// Human-readable message.
        message: String,
    },
}

impl BudgetStatus {
    /// The status of the budget `name` with that violation.
    pub open spec fn shows(
        self,
        name: Seq<char>,
        violation: Option<(BudgetEnforcement, Seq<char>)>,
    ) -> bool {
        match violation {
            None => self is Within,
            Some((enforcement, message)) => self.reports(name, enforcement, Some(message)),
        }
    }

    /// How severe the status is.
    pub open spec fn severity(self) -> int {
        match self {
            BudgetStatus::Within => 0,
            BudgetStatus::SoftExceeded { .. } => 1,
            BudgetStatus::HardExceeded { .. } => 2,
        }
    }

    /// The status of the budget `name`: no violation, or the one with that
    /// message under that enforcement.
    pub open spec fn reports(
        self,
        name: Seq<char>,
        enforcement: BudgetEnforcement,
        violation: Option<Seq<char>>,
    ) -> bool {
        match (violation, enforcement) {
            (None, _) => self is Within,
            (Some(m), BudgetEnforcement::Hard) => self matches BudgetStatus::HardExceeded {
                budget,
                message,
            } && budget@ == name && message@ == m,
            (Some(m), BudgetEnforcement::Soft) => self matches BudgetStatus::SoftExceeded {
                budget,
                message,
            } && budget@ == name && message@ == m,
        }
    }
}

/// Limits with their enforcement.
#[derive(Debug, Clone, Copy)]
pub struct ResolvedBudget {
    /// Maximum cost.
    pub max_cost: Option<Picodollars>,
    /// Maximum total tokens.
    pub max_tokens: Option<u64>,
    /// Maximum number of calls.
    pub max_calls: Option<u64>,
    /// Enforcement mode.
    pub enforcement: BudgetEnforcement,
}

/// A definition with its enforcement filled in: hard unless it says otherwise.
pub open spec fn resolved(def: BudgetDef) -> ResolvedBudget {
    ResolvedBudget {
        max_cost: def.max_cost,
        max_tokens: def.max_tokens,
        max_calls: def.max_calls,
        enforcement: match def.enforcement {
            Some(e) => e,
            None => BudgetEnforcement::Hard,
        },
    }
}

impl ResolvedBudget {
    /// Fills in the enforcement of a definition: hard unless it says
    /// otherwise.
    pub fn from_def(def: &BudgetDef) -> (r: Self)
        ensures
            r == resolved(*def),
    {
        ResolvedBudget {
            max_cost: def.max_cost,
            max_tokens: def.max_tokens,
            max_calls: def.max_calls,
            enforcement: match def.enforcement {
                Some(e) => e,
                None => BudgetEnforcement::Hard,
            },
        }
    }
}

/// The message of an exceeded limit.
pub open spec fn exceeded_text(
    limit: Seq<char>,
    name: Seq<char>,
    current: Seq<char>,
    most: Seq<char>,
) -> Seq<char> {
    limit + " budget exceeded for '"@ + name + "': "@ + current + " > "@ + most
}

/// A count is over its limit. Counts are compared as doubles.
pub open spec fn count_over(current: nat, limit: Option<u64>) -> bool {
    limit matches Some(m) && numbers::double_units(current, 1, 0) > numbers::double_units(
        m as nat,
        1,
        0,
    )
}

/// The message of the first limit that the projected usage exceeds: cost,
/// then tokens, then calls.
pub open spec fn violation(
    budget: ResolvedBudget,
    name: Seq<char>,
    cost: Picodollars,
    tokens: nat,
    calls: nat,
) -> Option<Seq<char>> {
    if budget.max_cost matches Some(m) && cost > m {
        Some(
            exceeded_text(
                "Cost"@,
                name,
                numbers::fixed(cost as nat, 1_000_000_000_000, 6),
                numbers::fixed(budget.max_cost->0 as nat, 1_000_000_000_000, 6),
            ),
        )
    } else if count_over(tokens, budget.max_tokens) {
        Some(
            exceeded_text(
                "Token"@,
                name,
                numbers::fixed(tokens, 1, 6),
                numbers::fixed(budget.max_tokens->0 as nat, 1, 6),
            ),
        )
    } else if count_over(calls, budget.max_calls) {
        Some(
            exceeded_text(
                "Call"@,
                name,
                numbers::fixed(calls, 1, 6),
                numbers::fixed(budget.max_calls->0 as nat, 1, 6),
            ),
        )
    } else {
        None
    }
}

/// What a budget says of a usage with a call that is planned on top.
pub open spec fn planned(
    r: BudgetStatus,
    budget: ResolvedBudget,
    name: Seq<char>,
    usage: UsageSnapshot,
    cost: Picodollars,
    tokens: u64,
    calls: u64,
) -> bool {
    r.reports(
        name,
        budget.enforcement,
        violation(
            budget,
            name,
            costs::cap(usage.total_cost as nat + cost as nat),
            (usage.total_tokens + tokens) as nat,
            (usage.total_calls + calls) as nat,
        ),
    )
}

/// The violation of a budget by a usage as it stands.
pub open spec fn usage_violation(budget: ResolvedBudget, name: Seq<char>, usage: UsageSnapshot) -> Option<
    Seq<char>,
> {
    violation(
        budget,
        name,
        usage.total_cost,
        usage.total_tokens as nat,
        usage.total_calls as nat,
    )
}

/// Tracks overall and per-test budgets across a scenario run.
#[derive(Debug, Clone, Copy)]
pub struct BudgetTracker {
    /// The budget of the whole run.
    pub global: Option<ResolvedBudget>,
    /// The budget of a test that sets none.
    pub per_test_default: Option<ResolvedBudget>,
}

/// The budget of a test: its own, or the default one.
pub open spec fn test_budget(tracker: BudgetTracker, own: Option<BudgetDef>) -> Option<
    ResolvedBudget,
> {
    match own {
        Some(def) => Some(resolved(def)),
        None => tracker.per_test_default,
    }
}

/// The violation of a budget that may not be there, with its enforcement.
pub open spec fn found(budget: Option<ResolvedBudget>, name: Seq<char>, usage: UsageSnapshot) -> Option<
    (BudgetEnforcement, Seq<char>),
> {
    match budget {
        Some(b) => match usage_violation(b, name, usage) {
            Some(m) => Some((b.enforcement, m)),
            None => None,
        },
        None => None,
    }
}

/// How severe a violation is.
pub open spec fn severity_of(violation: Option<(BudgetEnforcement, Seq<char>)>) -> int {
    match violation {
        None => 0,
        Some((BudgetEnforcement::Soft, _)) => 1,
        Some((BudgetEnforcement::Hard, _)) => 2,
    }
}

/// The status of both the budget of a test and the global one: the most severe
/// violation, that of the test where both are as severe.
pub open spec fn checked_all(
    r: BudgetStatus,
    tracker: BudgetTracker,
    test_name: Seq<char>,
    test_usage: UsageSnapshot,
    global_usage: UsageSnapshot,
    own: Option<BudgetDef>,
) -> bool {
    let test = found(test_budget(tracker, own), test_name, test_usage);
    let global = found(tracker.global, "global"@, global_usage);
    &&& if severity_of(test) >= severity_of(global) {
        r.shows(test_name, test)
    } else {
        r.shows("global"@, global)
    }
    &&& r.severity() == vstd::math::max(severity_of(test), severity_of(global))
}

/// The status for an exceeded limit.
fn exceeded(
    enforcement: BudgetEnforcement,
    limit: &str,
    name: &str,
    current: String,
    most: String,
) -> (r: BudgetStatus)
    ensures
        r.reports(name@, enforcement, Some(exceeded_text(limit@, name@, current@, most@))),
{
    let mut message = limit.to_owned();
    message.append(" budget exceeded for '");
    message.append(name);
    message.append("': ");
    message.append(current.as_str());
    message.append(" > ");
    message.append(most.as_str());
    match enforcement {
        BudgetEnforcement::Hard => BudgetStatus::HardExceeded { budget: name.to_owned(), message },
        BudgetEnforcement::Soft => BudgetStatus::SoftExceeded { budget: name.to_owned(), message },
    }
}

impl BudgetTracker {
    /// Creates a new budget tracker from the scenario's budget config.
    pub fn from_config(budgets: &BudgetsConfig) -> (r: Self)
        ensures
            r.global == match budgets.global {
                Some(def) => Some(resolved(def)),
                None => None,
            },
            r.per_test_default == match budgets.per_test_default {
                Some(def) => Some(resolved(def)),
                None => None,
            },
    {
        BudgetTracker {
            global: match &budgets.global {
                Some(def) => Some(ResolvedBudget::from_def(def)),
                None => None,
            },
            per_test_default: match &budgets.per_test_default {
                Some(def) => Some(ResolvedBudget::from_def(def)),
                None => None,
            },
        }
    }

    /// Checks the global budget against the global usage.
    pub fn check_global(&self, usage: &UsageSnapshot) -> (r: BudgetStatus)
        ensures
            r.shows("global"@, found(self.global, "global"@, *usage)),
    {
        match &self.global {
            Some(global) => Self::check_budget("global", global, usage),
            None => BudgetStatus::Within,
        }
    }

    /// Checks the budget of a test against its usage. `override_budget`
    /// allows the test to set tighter (or looser) limits.
    pub fn check_per_test(
        &self,
        test_name: &str,
        usage: &UsageSnapshot,
        override_budget: Option<&BudgetDef>,
    ) -> (r: BudgetStatus)
        ensures
            r.shows(
                test_name@,
                found(
                    test_budget(
                        *self,
                        match override_budget {
                            Some(def) => Some(*def),
                            None => None,
                        },
                    ),
                    test_name@,
                    *usage,
                ),
            ),
    {
        match override_budget {
            Some(def) => {
                let budget = ResolvedBudget::from_def(def);
                Self::check_budget(test_name, &budget, usage)
            },
            None => match &self.per_test_default {
                Some(budget) => Self::check_budget(test_name, budget, usage),
                None => BudgetStatus::Within,
            },
        }
    }

    /// Checks whether a pending LLM call would exceed the budget. Takes
    /// `max_tokens` of the request as a worst-case estimate for output
    /// tokens, plus estimated input tokens.
    pub fn check_pre_flight_llm(
        budget: &ResolvedBudget,
        usage: &UsageSnapshot,
        estimated_input_tokens: u64,
        max_tokens: u64,
        input_price_per_1m: u64,
        output_price_per_1m: u64,
    ) -> (r: BudgetStatus)
        requires
            usage.total_tokens + estimated_input_tokens + max_tokens <= u64::MAX,
            usage.total_calls < u64::MAX,
        ensures
            planned(
                r,
                *budget,
                "pre-flight"@,
                *usage,
                costs::cap(
                    (estimated_input_tokens * input_price_per_1m + max_tokens
                        * output_price_per_1m) as nat,
                ),
                (estimated_input_tokens + max_tokens) as u64,
                1,
            ),
    {
        let estimated: u128 = costs::price(
            estimated_input_tokens,
            input_price_per_1m,
            max_tokens,
            output_price_per_1m,
        );
        Self::check_limits(
            budget,
            "pre-flight",
            usage,
            estimated,
            estimated_input_tokens + max_tokens,
            1,
        )
    }

    /// Checks whether a pending flat-cost call (MCP, agent) would exceed the
    /// budget.
    pub fn check_pre_flight_flat(
        budget: &ResolvedBudget,
        usage: &UsageSnapshot,
        per_call_price: Picodollars,
    ) -> (r: BudgetStatus)
        requires
            usage.total_calls < u64::MAX,
        ensures
            planned(r, *budget, "pre-flight"@, *usage, per_call_price, 0, 1),
    {
        Self::check_limits(budget, "pre-flight", usage, per_call_price, 0, 1)
    }

    /// Checks a usage as it stands.
    fn check_budget(name: &str, budget: &ResolvedBudget, usage: &UsageSnapshot) -> (r: BudgetStatus)
        ensures
            r.reports(name@, budget.enforcement, usage_violation(*budget, name@, *usage)),
    {
        Self::check_limits(budget, name, usage, 0, 0, 0)
    }

    /// Checks a usage with something added to it.
    fn check_limits(
        budget: &ResolvedBudget,
        name: &str,
        usage: &UsageSnapshot,
        additional_cost: Picodollars,
        additional_tokens: u64,
        additional_calls: u64,
    ) -> (r: BudgetStatus)
        requires
            usage.total_tokens + additional_tokens <= u64::MAX,
            usage.total_calls + additional_calls <= u64::MAX,
        ensures
            planned(
                r,
                *budget,
                name@,
                *usage,
                additional_cost,
                additional_tokens,
                additional_calls,
            ),
    {
        let cost: u128 = usage.total_cost.saturating_add(additional_cost);
        let tokens: u64 = usage.total_tokens + additional_tokens;
        let calls: u64 = usage.total_calls + additional_calls;
        if let Some(max) = budget.max_cost {
            if cost > max {
                return exceeded(
                    budget.enforcement,
                    "Cost",
                    name,
                    numbers::dollars(cost, 6),
                    numbers::dollars(max, 6),
                );
            }
        }
        if let Some(max) = budget.max_tokens {
            if numbers::nearest_double(tokens) > numbers::nearest_double(max) {
                return exceeded(
                    budget.enforcement,
                    "Token",
                    name,
                    numbers::count(tokens, 6),
                    numbers::count(max, 6),
                );
            }
        }
        if let Some(max) = budget.max_calls {
            if numbers::nearest_double(calls) > numbers::nearest_double(max) {
                return exceeded(
                    budget.enforcement,
                    "Call",
                    name,
                    numbers::count(calls, 6),
                    numbers::count(max, 6),
                );
            }
        }
        BudgetStatus::Within
    }

    /// Checks both the budget of a test and the global one. Returns the most
    /// severe violation, that of the test where both are as severe.
    pub fn check_all(
        &self,
        test_name: &str,
        test_usage: &UsageSnapshot,
        global_usage: &UsageSnapshot,
        test_budget_override: Option<&BudgetDef>,
    ) -> (r: BudgetStatus)
        ensures
            checked_all(
                r,
                *self,
                test_name@,
                *test_usage,
                *global_usage,
                match test_budget_override {
                    Some(def) => Some(*def),
                    None => None,
                },
            ),
    {
        let per_test = self.check_per_test(test_name, test_usage, test_budget_override);
        if matches!(per_test, BudgetStatus::HardExceeded { .. }) {
            return per_test;
        }
        let global = self.check_global(global_usage);
        if matches!(global, BudgetStatus::HardExceeded { .. }) {
            return global;
        }
        if !matches!(per_test, BudgetStatus::Within) {
            return per_test;
        }
        global
    }
}

/// Checking both budgets aborts if and only if a hard one is exceeded, warns
/// if and only if only soft ones are, and is content if and only if none is.
pub proof fn law_enforcement_is_kept(
    r: BudgetStatus,
    tracker: BudgetTracker,
    test_name: Seq<char>,
    test_usage: UsageSnapshot,
    global_usage: UsageSnapshot,
    own: Option<BudgetDef>,
)
    requires
        checked_all(r, tracker, test_name, test_usage, global_usage, own),
    ensures
        ({
            let test = found(test_budget(tracker, own), test_name, test_usage);
            let global = found(tracker.global, "global"@, global_usage);
            &&& r is Within <==> test is None && global is None
            &&& r is HardExceeded <==> (test matches Some((BudgetEnforcement::Hard, _)) || global
                matches Some((BudgetEnforcement::Hard, _)))
        }),
{
}

/// A budget is exceeded if and only if the cost, the tokens or the calls are
/// above its limit; reaching a limit is within the budget, and what has no
/// limit is never exceeded.
pub proof fn law_budgets_end_above_their_limits(
    budget: ResolvedBudget,
    name: Seq<char>,
    cost: Picodollars,
    tokens: nat,
    calls: nat,
)
    requires
        tokens < 9007199254740992,
        calls < 9007199254740992,
        budget.max_tokens matches Some(m) ==> m < 9007199254740992,
        budget.max_calls matches Some(m) ==> m < 9007199254740992,
    ensures
        violation(budget, name, cost, tokens, calls) is Some <==> {
            ||| budget.max_cost is Some && cost > budget.max_cost->0
            ||| budget.max_tokens is Some && tokens > budget.max_tokens->0
            ||| budget.max_calls is Some && calls > budget.max_calls->0
        },
        violation(budget, name, cost, tokens, calls) matches Some(m) ==> text::has_text(m, name),
{
    numbers::law_small_counts_are_exact(tokens);
    numbers::law_small_counts_are_exact(calls);
    if let Some(m) = budget.max_tokens {
        numbers::law_small_counts_are_exact(m as nat);
    }
    if let Some(m) = budget.max_calls {
        numbers::law_small_counts_are_exact(m as nat);
    }
    if budget.max_cost is Some && cost > budget.max_cost->0 {
        lemma_names_budget(
            "Cost"@,
            name,
            numbers::fixed(cost as nat, 1_000_000_000_000, 6),
            numbers::fixed(budget.max_cost->0 as nat, 1_000_000_000_000, 6),
        );
    }
    lemma_names_budget(
        "Token"@,
        name,
        numbers::fixed(tokens, 1, 6),
        numbers::fixed(budget.max_tokens->0 as nat, 1, 6),
    );
    lemma_names_budget(
        "Call"@,
        name,
        numbers::fixed(calls, 1, 6),
        numbers::fixed(budget.max_calls->0 as nat, 1, 6),
    );
}

/// The message of a violation names the budget.
proof fn lemma_names_budget(
    limit: Seq<char>,
    name: Seq<char>,
    current: Seq<char>,
    most: Seq<char>,
)
    ensures
        text::has_text(exceeded_text(limit, name, current, most), name),
{
    let head = limit + " budget exceeded for '"@;
    let rest = "': "@ + current + " > "@ + most;
    text::lemma_middle(head, name, rest);
    assert(head + name + rest =~= exceeded_text(limit, name, current, most));
}

/// A budget is hard unless it says that it is soft, and keeps the limits that
/// it is defined with. The budget of a test wins over the default.
pub proof fn law_budgets_are_hard_by_default(def: BudgetDef, tracker: BudgetTracker)
    ensures
        def.enforcement is None ==> resolved(def).enforcement == BudgetEnforcement::Hard,
        def.enforcement matches Some(e) ==> resolved(def).enforcement == e,
        resolved(def).max_cost == def.max_cost,
        resolved(def).max_tokens == def.max_tokens,
        resolved(def).max_calls == def.max_calls,
        test_budget(tracker, None) == tracker.per_test_default,
        test_budget(tracker, Some(def)) matches Some(b) && b.max_cost == def.max_cost
            && b.max_tokens == def.max_tokens && b.max_calls == def.max_calls,
{
}

/// A status says which budget it is about: that of the test, unless the global
/// one is exceeded more severely.
pub proof fn law_statuses_name_their_budget(
    r: BudgetStatus,
    tracker: BudgetTracker,
    test_name: Seq<char>,
    test_usage: UsageSnapshot,
    global_usage: UsageSnapshot,
    own: Option<BudgetDef>,
)
    requires
        checked_all(r, tracker, test_name, test_usage, global_usage, own),
    ensures
        tracker.global is None ==> match r {
            BudgetStatus::Within => true,
            BudgetStatus::SoftExceeded { budget, .. } => budget@ == test_name,
            BudgetStatus::HardExceeded { budget, .. } => budget@ == test_name,
        },
        own is None && tracker.per_test_default is None ==> match r {
            BudgetStatus::Within => true,
            BudgetStatus::SoftExceeded { budget, .. } => budget@ == "global"@,
            BudgetStatus::HardExceeded { budget, .. } => budget@ == "global"@,
        },
        own is None && tracker.per_test_default is None && tracker.global is None ==> r is Within,
{
}

/// A call that is planned is within the budget if and only if what was used and
/// what it may use stay within every limit together; else the budget says so as
/// hard as it is.
pub proof fn law_planned_calls_must_fit(
    r: BudgetStatus,
    budget: ResolvedBudget,
    name: Seq<char>,
    usage: UsageSnapshot,
    cost: Picodollars,
    tokens: u64,
    calls: u64,
)
    requires
        planned(r, budget, name, usage, cost, tokens, calls),
        usage.total_cost + cost <= u128::MAX,
        usage.total_tokens + tokens < 9007199254740992,
        usage.total_calls + calls < 9007199254740992,
        budget.max_tokens matches Some(m) ==> m < 9007199254740992,
        budget.max_calls matches Some(m) ==> m < 9007199254740992,
    ensures
        r is Within <==> {
            &&& budget.max_cost is Some ==> usage.total_cost + cost <= budget.max_cost->0
            &&& budget.max_tokens is Some ==> usage.total_tokens + tokens <= budget.max_tokens->0
            &&& budget.max_calls is Some ==> usage.total_calls + calls <= budget.max_calls->0
        },
        r is HardExceeded ==> budget.enforcement == BudgetEnforcement::Hard,
        r is SoftExceeded ==> budget.enforcement == BudgetEnforcement::Soft,
        r matches BudgetStatus::HardExceeded { budget: b, .. } ==> b@ == name,
        r matches BudgetStatus::SoftExceeded { budget: b, .. } ==> b@ == name,
{
    law_budgets_end_above_their_limits(
        budget,
        name,
        costs::cap(usage.total_cost as nat + cost as nat),
        (usage.total_tokens + tokens) as nat,
        (usage.total_calls + calls) as nat,
    );
}

/// A hard budget that is exceeded is worse than a soft one, and that is worse
/// than none.
pub proof fn law_severities_are_ordered(r: BudgetStatus, s: BudgetStatus)
    ensures
        r is Within && s is SoftExceeded ==> r.severity() < s.severity(),
        r is SoftExceeded && s is HardExceeded ==> r.severity() < s.severity(),
        r is Within && s is HardExceeded ==> r.severity() < s.severity(),
        (r is Within && s is Within) || (r is SoftExceeded && s is SoftExceeded) || (r
            is HardExceeded && s is HardExceeded) ==> r.severity() == s.severity(),
{
}

} // verus!
