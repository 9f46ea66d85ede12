//! Cost calculation, usage tracking, and pricing logic.
//!
//! Amounts are picodollars and stop at `u128::MAX` instead of overflowing.
use vstd::prelude::*;
use crate::endpoints::ResolvedEndpoint;
use crate::json;
use crate::named;
use crate::scenario::{Named, Picodollars};

verus! {

/// An amount, or the largest there is.
pub open spec fn cap(amount: nat) -> Picodollars {
    if amount <= u128::MAX {
        amount as u128
    } else {
        u128::MAX
    }
}

/// Accumulated usage for a single endpoint.
#[derive(Debug, Clone, Copy, PartialEq, Eq, Structural)]
pub struct EndpointUsage {
    /// Number of calls made.
    pub calls: u64,
    /// Total input tokens consumed.
    pub input_tokens: u64,
    /// Total output tokens consumed.
    pub output_tokens: u64,
    /// Accumulated cost.
    pub cost: Picodollars,
}

/// Named usage counters, as a list.
pub type UsageSeq = Seq<(String, EndpointUsage)>;

/// The calls of all endpoints.
pub open spec fn sum_calls(s: UsageSeq) -> nat
    decreases s.len(),
{
    if s.len() == 0 {
        0
    } else {
        sum_calls(s.drop_last()) + s.last().1.calls as nat
    }
}

/// The tokens of all endpoints.
pub open spec fn sum_tokens(s: UsageSeq) -> nat
    decreases s.len(),
{
    if s.len() == 0 {
        0
    } else {
        sum_tokens(s.drop_last()) + s.last().1.input_tokens as nat + s.last().1.output_tokens as nat
    }
}

/// The cost of all endpoints.
pub open spec fn sum_cost(s: UsageSeq) -> nat
    decreases s.len(),
{
    if s.len() == 0 {
        0
    } else {
        sum_cost(s.drop_last()) + s.last().1.cost as nat
    }
}

/// The counts of a list fit their counters.
pub open spec fn fits(s: UsageSeq) -> bool {
    &&& sum_calls(s) <= u64::MAX
    &&& sum_tokens(s) <= u64::MAX
}

/// Usage that counts nothing.
pub open spec fn no_usage() -> EndpointUsage {
    EndpointUsage { calls: 0, input_tokens: 0, output_tokens: 0, cost: 0 }
}

/// Two usages together.
pub open spec fn plus(a: EndpointUsage, b: EndpointUsage) -> EndpointUsage {
    EndpointUsage {
        calls: (a.calls + b.calls) as u64,
        input_tokens: (a.input_tokens + b.input_tokens) as u64,
        output_tokens: (a.output_tokens + b.output_tokens) as u64,
        cost: cap(a.cost as nat + b.cost as nat),
    }
}

/// `after` is `before` with `usage` counted under `name`, behind the others
/// where the name is new.
pub open spec fn counted(before: UsageSeq, name: Seq<char>, usage: EndpointUsage, after: UsageSeq) -> bool {
    match named::position(before, name) {
        Some(i) => {
            &&& after.len() == before.len()
            &&& after[i].0@ == name
            &&& after[i].1 == plus(before[i].1, usage)
            &&& forall|j: int| 0 <= j < before.len() && j != i ==> #[trigger] after[j] == before[j]
        },
        None => {
            &&& after.len() == before.len() + 1
            &&& after.last().0@ == name
            &&& after.last().1 == plus(no_usage(), usage)
            &&& after.drop_last() == before
        },
    }
}

/// Changing one entry changes each sum by the difference.
proof fn lemma_sums_update(s: UsageSeq, i: int, e: (String, EndpointUsage))
    requires
        0 <= i < s.len(),
    ensures
        sum_calls(s.update(i, e)) == sum_calls(s) - s[i].1.calls + e.1.calls,
        sum_tokens(s.update(i, e)) == sum_tokens(s) - s[i].1.input_tokens - s[i].1.output_tokens
            + e.1.input_tokens + e.1.output_tokens,
        sum_cost(s.update(i, e)) == sum_cost(s) - s[i].1.cost + e.1.cost,
        s[i].1.calls <= sum_calls(s),
        s[i].1.input_tokens + s[i].1.output_tokens <= sum_tokens(s),
        s[i].1.cost <= sum_cost(s),
    decreases s.len(),
{
    let t = s.update(i, e);
    if i == s.len() - 1 {
        assert(t.drop_last() =~= s.drop_last());
    } else {
        lemma_sums_update(s.drop_last(), i, e);
        assert(t.drop_last() =~= s.drop_last().update(i, e));
    }
}

/// Counting a usage adds it to each sum.
proof fn lemma_counted(before: UsageSeq, name: Seq<char>, usage: EndpointUsage, after: UsageSeq)
    requires
        counted(before, name, usage, after),
        named::distinct(before),
        sum_calls(before) + usage.calls <= u64::MAX,
        sum_tokens(before) + usage.input_tokens + usage.output_tokens <= u64::MAX,
    ensures
        named::distinct(after),
        sum_calls(after) == sum_calls(before) + usage.calls,
        sum_tokens(after) == sum_tokens(before) + usage.input_tokens + usage.output_tokens,
        cap(sum_cost(after)) == cap(sum_cost(before) + usage.cost as nat),
{
    named::lemma_position(before, name);
    match named::position(before, name) {
        Some(i) => {
            assert(after =~= before.update(i, after[i]));
            lemma_sums_update(before, i, after[i]);
            assert forall|a: int, b: int| 0 <= a < b < after.len() implies (
            #[trigger] after[a]).0@ != (#[trigger] after[b]).0@ by {
                assert(before[a].0@ != before[b].0@);
            }
        },
        None => {
            assert forall|a: int, b: int| 0 <= a < b < after.len() implies (
            #[trigger] after[a]).0@ != (#[trigger] after[b]).0@ by {
                assert(after.drop_last()[a] == before[a]);
                if b < before.len() {
                    assert(after.drop_last()[b] == before[b]);
                }
            }
        },
    }
}

/// Counts a usage under a name.
fn count_usage(list: &mut Named<EndpointUsage>, name: &str, usage: EndpointUsage)
    requires
        named::distinct(old(list)@),
        sum_calls(old(list)@) + usage.calls <= u64::MAX,
        sum_tokens(old(list)@) + usage.input_tokens + usage.output_tokens <= u64::MAX,
    ensures
        counted(old(list)@, name@, usage, final(list)@),
        named::distinct(final(list)@),
        sum_calls(final(list)@) == sum_calls(old(list)@) + usage.calls,
        sum_tokens(final(list)@) == sum_tokens(old(list)@) + usage.input_tokens
            + usage.output_tokens,
        cap(sum_cost(final(list)@)) == cap(sum_cost(old(list)@) + usage.cost as nat),
{
    match named::find_name(list, name) {
        Some(i) => {
            let e = list[i].1;
            proof {
                lemma_sums_update(list@, i as int, list@[i as int]);
            }
            let added = EndpointUsage {
                calls: e.calls + usage.calls,
                input_tokens: e.input_tokens + usage.input_tokens,
                output_tokens: e.output_tokens + usage.output_tokens,
                cost: e.cost.saturating_add(usage.cost),
            };
            list.set(i, (name.to_owned(), added));
        },
        None => {
            list.push((name.to_owned(), usage));
            assert(list@.drop_last() =~= old(list)@);
        },
    }
    proof {
        lemma_counted(old(list)@, name@, usage, list@);
    }
}

/// The usage counted under a name.
pub open spec fn usage_of(s: UsageSeq, name: Seq<char>) -> EndpointUsage {
    match named::value_of(s, name) {
        Some(u) => u,
        None => no_usage(),
    }
}

/// Counting a usage changes the usage of its name and no other.
proof fn lemma_counted_value(
    before: UsageSeq,
    name: Seq<char>,
    usage: EndpointUsage,
    after: UsageSeq,
    n: Seq<char>,
)
    requires
        counted(before, name, usage, after),
        named::distinct(before),
    ensures
        usage_of(after, n) == if n == name {
            plus(usage_of(before, n), usage)
        } else {
            usage_of(before, n)
        },
        named::has_name(after, n) == (named::has_name(before, n) || n == name),
{
    named::lemma_position(before, name);
    named::lemma_position(before, n);
    named::lemma_position(after, n);
    match named::position(before, name) {
        Some(i) => {
            assert forall|j: int| 0 <= j < after.len() implies (#[trigger] after[j]).0@
                == before[j].0@ by {}
            if named::has_name(before, n) {
                let k = named::position(before, n)->0;
                assert(after[k].0@ == n);
                assert(named::first_named(after, n, k));
                named::lemma_position_is(after, n, k);
                if n == name {
                    named::lemma_position_is(before, n, i);
                }
            } else if named::has_name(after, n) {
                let k = named::position(after, n)->0;
                assert(before[k].0@ == n);
            }
        },
        None => {
            let last = before.len() as int;
            assert forall|j: int| 0 <= j < last implies #[trigger] after[j] == before[j] by {
                assert(after.drop_last()[j] == before[j]);
            }
            if named::has_name(before, n) {
                let k = named::position(before, n)->0;
                assert(after[k].0@ == n);
                assert(named::first_named(after, n, k));
                named::lemma_position_is(after, n, k);
            } else if n == name {
                assert(after[last].0@ == n);
                assert(named::first_named(after, n, last));
                named::lemma_position_is(after, n, last);
            } else if named::has_name(after, n) {
                let k = named::position(after, n)->0;
                assert(k < last ==> before[k].0@ == n);
            }
        },
    }
}

/// The entry behind a list gives its name its value.
proof fn lemma_usage_next(s: UsageSeq, i: int, n: Seq<char>)
    requires
        0 <= i < s.len(),
        named::distinct(s),
    ensures
        usage_of(s.take(i + 1), n) == if n == s[i].0@ {
            s[i].1
        } else {
            usage_of(s.take(i), n)
        },
        n == s[i].0@ ==> usage_of(s.take(i), n) == no_usage(),
        named::has_name(s.take(i + 1), n) == (named::has_name(s.take(i), n) || n == s[i].0@),
{
    let a = s.take(i);
    let b = s.take(i + 1);
    named::lemma_position(a, n);
    named::lemma_position(b, n);
    if named::has_name(a, n) {
        let k = named::position(a, n)->0;
        assert(a[k].0@ == n);
        assert(b[k] == s[k]);
        assert(s[k].0@ != s[i].0@);
        assert forall|j: int| 0 <= j < k implies (#[trigger] b[j]).0@ != n by {
            assert(a[j].0@ != n);
        }
        named::lemma_position_is(b, n, k);
    } else if n == s[i].0@ {
        assert forall|j: int| 0 <= j < i implies (#[trigger] b[j]).0@ != n by {
            assert(a[j].0@ != n);
        }
        assert(b[i].0@ == n);
        named::lemma_position_is(b, n, i);
    } else if named::has_name(b, n) {
        let k = named::position(b, n)->0;
        assert(b[k].0@ == n);
        assert(a[k].0@ == n);
    }
}

/// Aggregated usage across all endpoints for a test or scenario run.
#[derive(Debug, Clone)]
pub struct UsageSnapshot {
    /// Per-endpoint usage.
    pub endpoints: Named<EndpointUsage>,
    /// Total cost across all endpoints.
    pub total_cost: Picodollars,
    /// Total calls across all endpoints.
    pub total_calls: u64,
    /// Total tokens across all endpoints.
    pub total_tokens: u64,
}

/// A copy of a list of usage counters.
fn copy_usage(list: &Named<EndpointUsage>) -> (r: Named<EndpointUsage>)
    ensures
        r@ == list@,
{
    let mut r: Named<EndpointUsage> = Vec::new();
    let mut i: usize = 0;
    while i < list.len()
        invariant
            i <= list@.len(),
            r@ == list@.take(i as int),
        decreases list@.len() - i,
    {
        r.push((list[i].0.clone(), list[i].1));
        assert(r@ =~= list@.take(i + 1));
        i += 1;
    }
    assert(list@.take(i as int) =~= list@);
    r
}

/// The beginning of a list sums up to no more than the list.
proof fn lemma_sums_take(s: UsageSeq, i: int)
    requires
        0 <= i <= s.len(),
    ensures
        sum_calls(s.take(i)) <= sum_calls(s),
        sum_tokens(s.take(i)) <= sum_tokens(s),
    decreases s.len() - i,
{
    if i < s.len() {
        lemma_sums_take(s, i + 1);
        assert(s.take(i + 1).drop_last() =~= s.take(i));
    } else {
        assert(s.take(i) =~= s);
    }
}

/// Adds up usages name by name.
pub(crate) fn add_all(into: &mut Named<EndpointUsage>, from: &Named<EndpointUsage>)
    requires
        named::distinct(old(into)@),
        named::distinct(from@),
        sum_calls(old(into)@) + sum_calls(from@) <= u64::MAX,
        sum_tokens(old(into)@) + sum_tokens(from@) <= u64::MAX,
    ensures
        named::distinct(final(into)@),
        sum_calls(final(into)@) == sum_calls(old(into)@) + sum_calls(from@),
        sum_tokens(final(into)@) == sum_tokens(old(into)@) + sum_tokens(from@),
        cap(sum_cost(final(into)@)) == cap(sum_cost(old(into)@) + sum_cost(from@)),
        forall|n: Seq<char>|
            #![trigger usage_of(final(into)@, n)]
            usage_of(final(into)@, n) == plus(usage_of(old(into)@, n), usage_of(from@, n)),
        forall|n: Seq<char>|
            #![trigger named::has_name(final(into)@, n)]
            named::has_name(final(into)@, n) == (named::has_name(old(into)@, n)
                || named::has_name(from@, n)),
{
    let ghost cur = from@;
    let ghost before = into@;
    let mut i: usize = 0;
    assert(cur.take(0) =~= Seq::empty());
    assert forall|n: Seq<char>| #[trigger] usage_of(before, n) == plus(
        usage_of(before, n),
        usage_of(cur.take(0), n),
    ) by {
        named::lemma_position(cur.take(0), n);
    }
    while i < from.len()
        invariant
            i <= cur.len(),
            from@ == cur,
            before == old(into)@,
            named::distinct(cur),
            sum_calls(before) + sum_calls(cur) <= u64::MAX,
            sum_tokens(before) + sum_tokens(cur) <= u64::MAX,
            named::distinct(into@),
            sum_calls(into@) == sum_calls(before) + sum_calls(cur.take(i as int)),
            sum_tokens(into@) == sum_tokens(before) + sum_tokens(cur.take(i as int)),
            cap(sum_cost(into@)) == cap(sum_cost(before) + sum_cost(cur.take(i as int))),
            forall|n: Seq<char>|
                #![trigger usage_of(into@, n)]
                usage_of(into@, n) == plus(usage_of(before, n), usage_of(cur.take(i as int), n)),
            forall|n: Seq<char>|
                #![trigger named::has_name(into@, n)]
                named::has_name(into@, n) == (named::has_name(before, n) || named::has_name(
                    cur.take(i as int),
                    n,
                )),
        decreases cur.len() - i,
    {
        proof {
            lemma_sums_take(cur, i + 1);
            assert(cur.take(i + 1).drop_last() =~= cur.take(i as int));
        }
        let ghost mid = into@;
        let usage = from[i].1;
        count_usage(into, from[i].0.as_str(), usage);
        proof {
            let after = into@;
            let name = cur[i as int].0@;
            assert forall|n: Seq<char>|
                #![trigger usage_of(after, n)]
                usage_of(after, n) == plus(usage_of(before, n), usage_of(cur.take(i + 1), n)) by {
                lemma_counted_value(mid, name, usage, after, n);
                lemma_usage_next(cur, i as int, n);
                assert(usage_of(mid, n) == plus(
                    usage_of(before, n),
                    usage_of(cur.take(i as int), n),
                ));
            }
            assert forall|n: Seq<char>|
                #![trigger named::has_name(after, n)]
                named::has_name(after, n) == (named::has_name(before, n) || named::has_name(
                    cur.take(i + 1),
                    n,
                )) by {
                lemma_counted_value(mid, name, usage, after, n);
                lemma_usage_next(cur, i as int, n);
                assert(named::has_name(mid, n) == (named::has_name(before, n) || named::has_name(
                    cur.take(i as int),
                    n,
                )));
            }
        }
        i += 1;
    }
    assert(cur.take(i as int) =~= cur);
}

impl UsageSnapshot {
    /// The totals are the sums over the endpoints, and no endpoint is listed
    /// twice.
    pub open spec fn wf(&self) -> bool {
        &&& named::distinct(self.endpoints@)
        &&& self.total_calls == sum_calls(self.endpoints@)
        &&& self.total_tokens == sum_tokens(self.endpoints@)
        &&& self.total_cost == cap(sum_cost(self.endpoints@))
    }

    /// The two hold the same.
    pub open spec fn same(&self, other: &UsageSnapshot) -> bool {
        &&& self.endpoints@ == other.endpoints@
        &&& self.total_cost == other.total_cost
        &&& self.total_calls == other.total_calls
        &&& self.total_tokens == other.total_tokens
    }

    /// Creates a snapshot from per-endpoint usage data.
    pub fn from_endpoints(endpoints: &Named<EndpointUsage>) -> (r: Self)
        requires
            fits(endpoints@),
        ensures
            r.endpoints@ == endpoints@,
            r.total_calls == sum_calls(endpoints@),
            r.total_tokens == sum_tokens(endpoints@),
            r.total_cost == cap(sum_cost(endpoints@)),
    {
        let mut total_cost: u128 = 0;
        let mut total_calls: u64 = 0;
        let mut total_tokens: u64 = 0;
        let mut i: usize = 0;
        while i < endpoints.len()
            invariant
                i <= endpoints@.len(),
                fits(endpoints@),
                total_calls == sum_calls(endpoints@.take(i as int)),
                total_tokens == sum_tokens(endpoints@.take(i as int)),
                total_cost == cap(sum_cost(endpoints@.take(i as int))),
            decreases endpoints@.len() - i,
        {
            proof {
                lemma_sums_take(endpoints@, i + 1);
                assert(endpoints@.take(i + 1).drop_last() =~= endpoints@.take(i as int));
            }
            let u = endpoints[i].1;
            total_calls += u.calls;
            total_tokens += u.input_tokens + u.output_tokens;
            total_cost = total_cost.saturating_add(u.cost);
            i += 1;
        }
        assert(endpoints@.take(i as int) =~= endpoints@);
        UsageSnapshot { endpoints: copy_usage(endpoints), total_cost, total_calls, total_tokens }
    }

    /// A copy of the snapshot.
    pub fn copy(&self) -> (r: Self)
        ensures
            r.same(self),
    {
        UsageSnapshot {
            endpoints: copy_usage(&self.endpoints),
            total_cost: self.total_cost,
            total_calls: self.total_calls,
            total_tokens: self.total_tokens,
        }
    }
}

impl Default for UsageSnapshot {
    fn default() -> (r: Self)
        ensures
            r.wf(),
            r.endpoints@.len() == 0,
            r.total_cost == 0,
            r.total_calls == 0,
            r.total_tokens == 0,
    {
        UsageSnapshot { endpoints: Vec::new(), total_cost: 0, total_calls: 0, total_tokens: 0 }
    }
}

/// The calls of all committed tests.
pub open spec fn tests_calls(s: Seq<(String, UsageSnapshot)>) -> nat
    decreases s.len(),
{
    if s.len() == 0 {
        0
    } else {
        tests_calls(s.drop_last()) + s.last().1.total_calls as nat
    }
}

/// The tokens of all committed tests.
pub open spec fn tests_tokens(s: Seq<(String, UsageSnapshot)>) -> nat
    decreases s.len(),
{
    if s.len() == 0 {
        0
    } else {
        tests_tokens(s.drop_last()) + s.last().1.total_tokens as nat
    }
}

/// The cost of all committed tests.
pub open spec fn tests_cost(s: Seq<(String, UsageSnapshot)>) -> nat
    decreases s.len(),
{
    if s.len() == 0 {
        0
    } else {
        tests_cost(s.drop_last()) + s.last().1.total_cost as nat
    }
}

/// Usage tracker for the test runner.
pub struct UsageTracker {
    per_endpoint: Named<EndpointUsage>,
    global: UsageSnapshot,
    per_test: Vec<(String, UsageSnapshot)>,
}

impl UsageTracker {
    /// Per-endpoint usage of the current test.
    pub closed spec fn current(&self) -> UsageSeq {
        self.per_endpoint@
    }

    /// Aggregated usage across all committed tests.
    pub closed spec fn total(&self) -> UsageSnapshot {
        self.global
    }

    /// The committed tests in order, each with its usage.
    pub closed spec fn tests(&self) -> Seq<(String, UsageSnapshot)> {
        self.per_test@
    }

    /// The counts of the current test fit their counters, and the global
    /// usage is the sum of the committed tests, by endpoint and in total.
    pub open spec fn wf(&self) -> bool {
        &&& named::distinct(self.current())
        &&& fits(self.current())
        &&& self.total().wf()
        &&& self.total().total_calls == tests_calls(self.tests())
        &&& self.total().total_tokens == tests_tokens(self.tests())
        &&& self.total().total_cost == cap(tests_cost(self.tests()))
    }

    /// The counts of the committed tests and the current one together fit
    /// their counters.
    pub open spec fn fits_together(&self) -> bool {
        &&& self.total().total_calls + sum_calls(self.current()) <= u64::MAX
        &&& self.total().total_tokens + sum_tokens(self.current()) <= u64::MAX
    }

    /// A snapshot shows the usage of the committed tests and the current one
    /// together, by endpoint and in total.
    pub open spec fn amounts_to(&self, all: UsageSnapshot) -> bool {
        &&& all.wf()
        &&& all.total_calls == self.total().total_calls + sum_calls(self.current())
        &&& all.total_tokens == self.total().total_tokens + sum_tokens(self.current())
        &&& all.total_cost == cap(
            self.total().total_cost as nat + cap(sum_cost(self.current())) as nat,
        )
        &&& forall|n: Seq<char>|
            #![trigger usage_of(all.endpoints@, n)]
            usage_of(all.endpoints@, n) == plus(
                usage_of(self.total().endpoints@, n),
                usage_of(self.current(), n),
            )
        &&& forall|n: Seq<char>|
            #![trigger named::has_name(all.endpoints@, n)]
            named::has_name(all.endpoints@, n) == (named::has_name(self.total().endpoints@, n)
                || named::has_name(self.current(), n))
    }

    /// Creates a new empty usage tracker.
    pub fn new() -> (r: Self)
        ensures
            r.wf(),
            r.current().len() == 0,
            r.tests().len() == 0,
            r.total().endpoints@.len() == 0,
    {
        UsageTracker {
            per_endpoint: Vec::new(),
            global: UsageSnapshot::default(),
            per_test: Vec::new(),
        }
    }

    /// Records a completed call, adding usage and cost.
    pub fn record_llm_call(
        &mut self,
        endpoint_name: &str,
        endpoint: &ResolvedEndpoint,
        input_tokens: u64,
        output_tokens: u64,
    )
        requires
            old(self).wf(),
            sum_calls(old(self).current()) < u64::MAX,
            sum_tokens(old(self).current()) + input_tokens + output_tokens <= u64::MAX,
        ensures
            final(self).wf(),
            counted(
                old(self).current(),
                endpoint_name@,
                (EndpointUsage {
                    calls: 1,
                    input_tokens,
                    output_tokens,
                    cost: llm_cost(*endpoint, input_tokens, output_tokens),
                }),
                final(self).current(),
            ),
            final(self).total() == old(self).total(),
            final(self).tests() == old(self).tests(),
            sum_calls(final(self).current()) == sum_calls(old(self).current()) + 1,
            sum_tokens(final(self).current()) == sum_tokens(old(self).current()) + input_tokens
                + output_tokens,
            cap(sum_cost(final(self).current())) == cap(
                sum_cost(old(self).current()) + llm_cost(
                    *endpoint,
                    input_tokens,
                    output_tokens,
                ) as nat,
            ),
    {
        let cost: u128 = calculate_llm_cost(endpoint, input_tokens, output_tokens);
        count_usage(
            &mut self.per_endpoint,
            endpoint_name,
            EndpointUsage { calls: 1, input_tokens, output_tokens, cost },
        );
    }

    /// Records a flat-cost call (MCP tool, agent task).
    pub fn record_flat_call(&mut self, endpoint_name: &str, endpoint: &ResolvedEndpoint)
        requires
            old(self).wf(),
            sum_calls(old(self).current()) < u64::MAX,
        ensures
            final(self).wf(),
            counted(
                old(self).current(),
                endpoint_name@,
                (EndpointUsage {
                    calls: 1,
                    input_tokens: 0,
                    output_tokens: 0,
                    cost: endpoint.per_call_price,
                }),
                final(self).current(),
            ),
            final(self).total() == old(self).total(),
            final(self).tests() == old(self).tests(),
            sum_calls(final(self).current()) == sum_calls(old(self).current()) + 1,
            sum_tokens(final(self).current()) == sum_tokens(old(self).current()),
            cap(sum_cost(final(self).current())) == cap(
                sum_cost(old(self).current()) + endpoint.per_call_price as nat,
            ),
    {
        count_usage(
            &mut self.per_endpoint,
            endpoint_name,
            EndpointUsage {
                calls: 1,
                input_tokens: 0,
                output_tokens: 0,
                cost: endpoint.per_call_price,
            },
        );
    }

    /// The usage of the current test.
    pub fn current_test_snapshot(&self) -> (r: UsageSnapshot)
        requires
            self.wf(),
        ensures
            r.wf(),
            r.endpoints@ == self.current(),
    {
        UsageSnapshot::from_endpoints(&self.per_endpoint)
    }

    /// The usage of all committed tests.
    pub fn global_snapshot(&self) -> (r: UsageSnapshot)
        ensures
            r.same(&self.total()),
    {
        self.global.copy()
    }

    /// The usage of all committed tests and of the current one.
    pub fn run_snapshot(&self) -> (r: UsageSnapshot)
        requires
            self.wf(),
            self.fits_together(),
        ensures
            self.amounts_to(r),
    {
        let mut all = self.global.copy();
        let own = UsageSnapshot::from_endpoints(&self.per_endpoint);
        add_all(&mut all.endpoints, &self.per_endpoint);
        all.total_cost = all.total_cost.saturating_add(own.total_cost);
        all.total_calls += own.total_calls;
        all.total_tokens += own.total_tokens;
        all
    }

    /// The committed tests in order, each with its usage.
    pub fn per_test_snapshots(&self) -> (r: &Vec<(String, UsageSnapshot)>)
        ensures
            r@ == self.tests(),
    {
        &self.per_test
    }

    /// Resets the per-test accumulator. Call at the start of each test.
    pub fn reset_per_test(&mut self)
        requires
            old(self).wf(),
        ensures
            final(self).wf(),
            final(self).current().len() == 0,
            final(self).total() == old(self).total(),
            final(self).tests() == old(self).tests(),
    {
        self.per_endpoint.clear();
    }

    /// Commits the current test's usage to the global accumulator and stores
    /// it as a per-test snapshot.
    pub fn commit_test(&mut self, test_name: &str)
        requires
            old(self).wf(),
            old(self).fits_together(),
        ensures
            final(self).wf(),
            final(self).current() == old(self).current(),
            final(self).tests().drop_last() == old(self).tests(),
            final(self).tests().len() == old(self).tests().len() + 1,
            final(self).tests().last().0@ == test_name@,
            final(self).tests().last().1.wf(),
            final(self).tests().last().1.endpoints@ == old(self).current(),
            old(self).amounts_to(final(self).total()),
    {
        let all = self.run_snapshot();
        let snapshot = UsageSnapshot::from_endpoints(&self.per_endpoint);
        self.global = all;
        self.per_test.push((test_name.to_owned(), snapshot));
        assert(self.per_test@.drop_last() =~= old(self).per_test@);
    }
}

impl Default for UsageTracker {
    fn default() -> (r: Self)
        ensures
            r.wf(),
            r.current().len() == 0,
            r.tests().len() == 0,
            r.total().endpoints@.len() == 0,
    {
        Self::new()
    }
}

/// The cost of an LLM call: a price per 1M tokens in microdollars is as many
/// picodollars per token.
pub open spec fn llm_cost(endpoint: ResolvedEndpoint, input_tokens: u64, output_tokens: u64) -> Picodollars {
    cap(
        (input_tokens * endpoint.input_price_per_1m + output_tokens
            * endpoint.output_price_per_1m) as nat,
    )
}

/// The cost of two numbers of tokens, each at its price.
pub fn price(input_tokens: u64, input_price: u64, output_tokens: u64, output_price: u64) -> (r:
    Picodollars)
    ensures
        r == cap((input_tokens * input_price + output_tokens * output_price) as nat),
{
    assert(input_tokens * input_price <= u128::MAX && output_tokens * output_price <= u128::MAX
        && input_tokens * input_price >= 0 && output_tokens * output_price >= 0)
        by (nonlinear_arith)
        requires
            input_tokens <= u64::MAX,
            output_tokens <= u64::MAX,
            input_price <= u64::MAX,
            output_price <= u64::MAX,
    ;
    let input: u128 = input_tokens as u128 * input_price as u128;
    let output: u128 = output_tokens as u128 * output_price as u128;
    input.saturating_add(output)
}

/// Calculates the cost of an LLM call based on token pricing.
pub fn calculate_llm_cost(
    endpoint: &ResolvedEndpoint,
    input_tokens: u64,
    output_tokens: u64,
) -> (r: Picodollars)
    ensures
        r == llm_cost(*endpoint, input_tokens, output_tokens),
{
    price(
        input_tokens,
        endpoint.input_price_per_1m,
        output_tokens,
        endpoint.output_price_per_1m,
    )
}

/// Usage info extracted from an LLM API response.
#[derive(Debug, Clone, Copy, PartialEq, Eq, Structural)]
pub struct LlmUsage {
    /// Number of prompt / input tokens.
    pub prompt_tokens: u64,
    /// Number of completion / output tokens.
    pub completion_tokens: u64,
    /// Total tokens used.
    pub total_tokens: u64,
}

impl Default for LlmUsage {
    fn default() -> (r: Self)
        ensures
            r == (LlmUsage { prompt_tokens: 0, completion_tokens: 0, total_tokens: 0 }),
    {
        LlmUsage { prompt_tokens: 0, completion_tokens: 0, total_tokens: 0 }
    }
}

/// Result of an LLM chat call with its usage data.
#[derive(Debug, Clone)]
pub struct LlmResponse {
    /// The message content from the LLM.
    pub content: String,
    /// Token usage from the API response.
    pub usage: LlmUsage,
}

/// A counter of a response; 0 where it is missing or not a whole number.
pub open spec fn counter(usage: json::Json, key: Seq<char>) -> u64 {
    match usage.member(key).uint() {
        Some(n) => n,
        None => 0,
    }
}

/// The token usage of an OpenAI-compatible API response.
pub open spec fn usage_in(response: json::Json) -> LlmUsage {
    let usage = response.member("usage"@);
    LlmUsage {
        prompt_tokens: counter(usage, "prompt_tokens"@),
        completion_tokens: counter(usage, "completion_tokens"@),
        total_tokens: counter(usage, "total_tokens"@),
    }
}

/// Reads a counter of a response.
fn read_counter(usage: &serde_json::Value, key: &str) -> (r: u64)
    ensures
        r == counter(json::json_of(*usage), key@),
{
    json::uint_of(json::member_of(usage, key)).unwrap_or(0)
}

/// Extracts token usage from an OpenAI-compatible API response.
pub fn extract_usage(value: &serde_json::Value) -> (r: LlmUsage)
    ensures
        r == usage_in(json::json_of(*value)),
{
    let usage = json::member_of(value, "usage");
    LlmUsage {
        prompt_tokens: read_counter(usage, "prompt_tokens"),
        completion_tokens: read_counter(usage, "completion_tokens"),
        total_tokens: read_counter(usage, "total_tokens"),
    }
}

/// The global summary is what the tests of a run add up to.
pub proof fn law_report_adds_up(tracker: &UsageTracker)
    requires
        tracker.wf(),
    ensures
        tracker.total().total_calls == tests_calls(tracker.tests()),
        tracker.total().total_tokens == tests_tokens(tracker.tests()),
        tracker.total().total_cost == cap(tests_cost(tracker.tests())),
        tracker.total().total_calls == sum_calls(tracker.total().endpoints@),
        tracker.total().total_tokens == sum_tokens(tracker.total().endpoints@),
        tracker.total().total_cost == cap(sum_cost(tracker.total().endpoints@)),
{
}

/// A call costs what its tokens cost: each input token the input price, each
/// output token the output price, in millionths of a dollar for a million
/// tokens, up to what a counter holds.
pub proof fn law_costs_are_per_token(
    endpoint: ResolvedEndpoint,
    input: u64,
    output: u64,
    more: u64,
)
    requires
        input + more <= u64::MAX,
    ensures
        llm_cost(endpoint, 0, 0) == 0,
        llm_cost(endpoint, 1, 0) == endpoint.input_price_per_1m,
        llm_cost(endpoint, 0, 1) == endpoint.output_price_per_1m,
        llm_cost(endpoint, (input + more) as u64, output) <= llm_cost(endpoint, input, output)
            + llm_cost(endpoint, more, 0),
        llm_cost(endpoint, input, output) + llm_cost(endpoint, more, 0) <= u128::MAX ==> llm_cost(
            endpoint,
            (input + more) as u64,
            output,
        ) == llm_cost(endpoint, input, output) + llm_cost(endpoint, more, 0),
        llm_cost(endpoint, input, 0) + llm_cost(endpoint, 0, output) <= u128::MAX ==> llm_cost(
            endpoint,
            input,
            output,
        ) == llm_cost(endpoint, input, 0) + llm_cost(endpoint, 0, output),
{
    let p = endpoint.input_price_per_1m as int;
    let q = endpoint.output_price_per_1m as int;
    assert(0 * p == 0 && 0 * q == 0 && 1 * p == p && 1 * q == q) by (nonlinear_arith);
    assert((input + more) * p == input * p + more * p) by (nonlinear_arith);
    assert(input * p >= 0 && more * p >= 0 && output * q >= 0) by (nonlinear_arith)
        requires
            p >= 0,
            q >= 0,
            input >= 0,
            more >= 0,
            output >= 0,
    ;
}

/// What is counted under a name is added to what stood there, each of its
/// figures to its own; other names keep theirs.
pub proof fn law_usage_is_counted_by_name(
    before: UsageSeq,
    name: Seq<char>,
    usage: EndpointUsage,
    after: UsageSeq,
    other: Seq<char>,
)
    requires
        counted(before, name, usage, after),
        named::distinct(before),
        sum_calls(before) + usage.calls <= u64::MAX,
        sum_tokens(before) + usage.input_tokens + usage.output_tokens <= u64::MAX,
        other != name,
    ensures
        usage_of(after, name).calls == usage_of(before, name).calls + usage.calls,
        usage_of(after, name).input_tokens == usage_of(before, name).input_tokens
            + usage.input_tokens,
        usage_of(after, name).output_tokens == usage_of(before, name).output_tokens
            + usage.output_tokens,
        usage_of(before, name).cost + usage.cost <= u128::MAX ==> usage_of(after, name).cost
            == usage_of(before, name).cost + usage.cost,
        usage_of(before, name).cost + usage.cost > u128::MAX ==> usage_of(after, name).cost
            == u128::MAX,
        usage_of(after, other) == usage_of(before, other),
        sum_calls(after) == sum_calls(before) + usage.calls,
        sum_tokens(after) == sum_tokens(before) + usage.input_tokens + usage.output_tokens,
{
    lemma_counted(before, name, usage, after);
    lemma_counted_value(before, name, usage, after, name);
    lemma_counted_value(before, name, usage, after, other);
    named::lemma_position(before, name);
    if let Some(i) = named::position(before, name) {
        lemma_sums_update(before, i, before[i]);
    }
}

/// One more endpoint adds its figures to the sums.
pub proof fn law_sums_count_every_endpoint(s: UsageSeq, e: (String, EndpointUsage))
    ensures
        sum_calls(Seq::empty()) == 0,
        sum_tokens(Seq::empty()) == 0,
        sum_cost(Seq::empty()) == 0,
        sum_calls(s.push(e)) == sum_calls(s) + e.1.calls,
        sum_tokens(s.push(e)) == sum_tokens(s) + e.1.input_tokens + e.1.output_tokens,
        sum_cost(s.push(e)) == sum_cost(s) + e.1.cost,
{
    assert(s.push(e).drop_last() =~= s);
}

/// The counters of a reply are those of its `usage` object; one that is not
/// there, or no whole number, counts as zero.
pub proof fn law_usage_is_read_from_the_reply(
    reply: Map<Seq<char>, json::Json>,
    usage: Map<Seq<char>, json::Json>,
    n: u64,
)
    requires
        reply.contains_key("usage"@),
        reply["usage"@] == json::Json::Obj(usage),
    ensures
        usage.contains_key("prompt_tokens"@) && usage["prompt_tokens"@] == json::Json::UInt(n)
            ==> usage_in(json::Json::Obj(reply)).prompt_tokens == n,
        usage.contains_key("completion_tokens"@) && usage["completion_tokens"@] == json::Json::UInt(
            n,
        ) ==> usage_in(json::Json::Obj(reply)).completion_tokens == n,
        usage.contains_key("total_tokens"@) && usage["total_tokens"@] == json::Json::UInt(n)
            ==> usage_in(json::Json::Obj(reply)).total_tokens == n,
        !usage.contains_key("prompt_tokens"@) ==> usage_in(json::Json::Obj(reply)).prompt_tokens
            == 0,
        !usage.contains_key("completion_tokens"@) ==> usage_in(
            json::Json::Obj(reply),
        ).completion_tokens == 0,
{
}

/// The usage of a run is that of the tests that are done and of the one that
/// runs: in total, and for each endpoint.
pub proof fn law_runs_count_the_running_test(
    tracker: &UsageTracker,
    all: UsageSnapshot,
    name: Seq<char>,
)
    requires
        tracker.wf(),
        tracker.fits_together(),
        tracker.amounts_to(all),
    ensures
        all.total_calls == tests_calls(tracker.tests()) + sum_calls(tracker.current()),
        all.total_tokens == tests_tokens(tracker.tests()) + sum_tokens(tracker.current()),
        tests_cost(tracker.tests()) + sum_cost(tracker.current()) <= u128::MAX ==> all.total_cost
            == tests_cost(tracker.tests()) + sum_cost(tracker.current()),
        usage_of(all.endpoints@, name).calls == usage_of(tracker.total().endpoints@, name).calls
            + usage_of(tracker.current(), name).calls,
        usage_of(all.endpoints@, name).input_tokens == usage_of(
            tracker.total().endpoints@,
            name,
        ).input_tokens + usage_of(tracker.current(), name).input_tokens,
        named::has_name(tracker.current(), name) || named::has_name(
            tracker.total().endpoints@,
            name,
        ) <==> named::has_name(all.endpoints@, name),
        sum_calls(all.endpoints@) == all.total_calls,
{
    lemma_usage_within(tracker.total().endpoints@, name);
    lemma_usage_within(tracker.current(), name);
    assert(usage_of(all.endpoints@, name) == plus(
        usage_of(tracker.total().endpoints@, name),
        usage_of(tracker.current(), name),
    ));
}

/// What one endpoint used is not more than all did.
proof fn lemma_usage_within(s: UsageSeq, name: Seq<char>)
    ensures
        usage_of(s, name).calls <= sum_calls(s),
        usage_of(s, name).input_tokens + usage_of(s, name).output_tokens <= sum_tokens(s),
{
    named::lemma_position(s, name);
    if let Some(i) = named::position(s, name) {
        lemma_sums_update(s, i, s[i]);
    }
}

} // verus!
