//! Concurrent execution of multiple scenario files.
//!
//! A single `llm-browser-testkit run a.toml b.toml c.toml` invocation runs
//! each file on its own **isolated browser** (separate Chrome process, so
//! cookies, localStorage, and other session state can never leak between
//! files). Each file's own tests always run sequentially on that file's
//! browser.
//!
//! # Concurrency control
//!
//! - `[config] concurrency_group = "name"` makes every file that declares
//!   the same group mutually exclusive: they never execute at the same
//!   time. A file without a group gets its own implicit group, so distinct
//!   files run in parallel by default.
//! - Concurrency is bounded by a [`ParallelMode`]: an exact manual count
//!   (`--parallel N`) or an **auto** mode that adapts to the machine.
//!
//! # Auto scaling
//!
//! In auto mode the orchestrator never assumes a fixed per-browser memory
//! footprint. It instead **learns** it by trial and error:
//!
//! - it probes available system memory once and keeps a running estimate of
//!   how many bytes one browser actually holds (`available_before` −
//!   `available_after` around each run), clamped to sane bounds;
//! - after each successful file it raises the concurrency limit toward
//!   `capacity = available / learned_footprint`, and otherwise ramps up one
//!   at a time;
//! - it **guards** launches: a worker will not start a new browser while
//!   less than an absolute [`MIN_HEADROOM_BYTES`] is free, or there is no
//!   room for one more browser of the learned footprint. It never uses a
//!   fraction of `total` memory, so it stays correct in VMs/containers
//!   where `total` reports the host's much larger RAM;
//! - when a launch fails with an out-of-memory-style error it **halves the
//!   limit** and **retries the file** with backoff, up to
//!   [`MAX_LAUNCH_RETRIES`].
//!
//! Bounds come from `--parallel-min` / `--parallel-max` (default `1` /
//! unlimited). When system memory cannot be measured the auto ceiling falls
//! back to a conservative [`DEFAULT_AUTO_CEILING`].
//!
//! The threads, the browsers and the clock belong to the caller; what a
//! worker may do next is decided here.
use vstd::prelude::*;
use vstd::string::StringExecFns;
use crate::costs;
use crate::costs::{EndpointUsage, UsageSnapshot};
use crate::events::TestEvent;
use crate::llm;
use crate::named;
use crate::numbers;
use crate::runner::{RunReport, StepResult};
use crate::scenario::{AssertDefinition, Named, ScenarioConfig, TestGroup};
use crate::text;

verus! {

/// Worker-thread cap used when `--parallel-max` is unlimited, so we never
/// spawn an unbounded number of threads. The adaptive limit still throttles
/// the number of *running browsers* below this, and the memory guard /
/// learned footprint stop it before the machine is saturated.
pub const DEFAULT_THREAD_CAP: usize = 64;

/// Fallback auto ceiling when system memory cannot be measured (roughly "a
/// handful of browsers", so the default is genuinely parallel), overridable
/// with `--parallel-max`.
pub const DEFAULT_AUTO_CEILING: usize = 8;

/// Absolute memory floor (bytes) kept free before new browsers are gated:
/// 256 MiB. Deliberately NOT a fraction of `total` memory: on VMs/containers
/// `total` often reports the host's RAM (hundreds of GB), so a percentage
/// guard would never fire — or a small cgroup limit would be blocked forever
/// against the huge host figure. An absolute floor + "room for one learned
/// browser" is what actually prevents Chrome from `OOM`-ing the process.
pub const MIN_HEADROOM_BYTES: u64 = 268435456;

/// How many times a memory-style browser-launch failure is retried before
/// the file is reported as failed.
pub const MAX_LAUNCH_RETRIES: u32 = 3;

/// Shortest backoff before a retried launch.
pub const BACKOFF_BASE_MS: u64 = 600;

/// What each failed launch adds to the backoff.
pub const BACKOFF_STEP_MS: u64 = 600;

/// Longest backoff before a retried launch.
pub const MAX_BACKOFF_MS: u64 = 4000;

/// Lower bound for the learned per-browser footprint estimate: 128 MiB.
pub const MIN_FOOTPRINT: u64 = 134217728;

/// Upper bound for the learned per-browser footprint estimate: 2 GiB.
pub const MAX_FOOTPRINT: u64 = 2147483648;

/// How many parts of a byte the footprint is counted in: every double between
/// its bounds is a whole number of them.
pub const FOOTPRINT_UNIT: u64 = 33554432;

/// The share that the average keeps with a sample, 0.7 as a double: 2^53 of
/// these are one.
pub const KEPT_SHARE: u128 = 6305039478318694;

/// The share of a sample in the average, 0.3 as a double: 2^54 of these are
/// one.
pub const SAMPLE_SHARE: u128 = 5404319552844595;

/// How many samples of the footprint are counted.
pub const MAX_SAMPLES: u32 = 20;

/// How concurrency is chosen for a batch of files.
#[derive(Debug, Clone, Copy, PartialEq, Eq, Structural)]
pub enum ParallelMode {
    /// Run at exactly this many files concurrently (`--parallel N`).
    Manual(usize),
    /// Adapt to available memory and learned browser footprint, never
    /// exceeding `max` (0 = unlimited) or dropping below `min`.
    Auto {
        /// Hard floor for concurrency (from `--parallel-min`).
        min: u32,
        /// Hard ceiling for concurrency; `0` = unlimited (from
        /// `--parallel-max`).
        max: u32,
    },
}

/// The mode that the flags ask for.
pub open spec fn mode_of(parallel: Option<u32>, min: u32, max: u32) -> ParallelMode {
    match parallel {
        Some(k) => ParallelMode::Manual(
            if k == 0 {
                1
            } else {
                k as usize
            },
        ),
        None => ParallelMode::Auto {
            min: if min == 0 {
                1
            } else {
                min
            },
            max,
        },
    }
}

/// Builds the [`ParallelMode`] from CLI flags. `--parallel N` selects manual
/// mode; otherwise auto mode with the given min/max bounds.
pub fn mode_from_cli(parallel: Option<u32>, min: u32, max: u32) -> (r: ParallelMode)
    ensures
        r == mode_of(parallel, min, max),
{
    match parallel {
        Some(k) => ParallelMode::Manual(
            if k == 0 {
                1
            } else {
                k as usize
            },
        ),
        None => ParallelMode::Auto {
            min: if min == 0 {
                1
            } else {
                min
            },
            max,
        },
    }
}

/// Best-effort snapshot of total / available physical memory.
#[derive(Debug, Clone, Copy, PartialEq, Eq, Structural)]
pub struct MemoryInfo {
    /// Total physical memory, bytes.
    pub total: u64,
    /// Currently available (free) memory, bytes.
    pub available: u64,
}

/// One scenario file, ready for the scheduler. CLI overrides applied and
/// viewport matrix expanded by the caller.
pub struct ScenarioFile {
    /// Human-readable label (typically the file path) used in logs.
    pub label: String,
    /// Effective scenario configuration for this file.
    pub config: ScenarioConfig,
    /// Reusable assertion definitions from this file.
    pub definitions: Vec<AssertDefinition>,
    /// The (viewport-expanded) tests to run.
    pub tests: Vec<TestGroup>,
}

/// The concurrency key of the file at a position: its declared group, or a
/// unique key of its own.
pub open spec fn group_key(group: Option<String>, index: int) -> Seq<char> {
    match group {
        Some(g) => g@,
        None => "<file "@ + text::dec(index as nat) + ">"@,
    }
}

impl ScenarioFile {
    /// The concurrency key for this file: its declared `concurrency_group`,
    /// or a unique per-file key so distinct files run in parallel by
    /// default.
    pub fn concurrency_key(&self, index: usize) -> (r: String)
        ensures
            r@ == group_key(self.config.concurrency_group, index as int),
    {
        match &self.config.concurrency_group {
            Some(g) => g.clone(),
            None => {
                let mut s = "<file ".to_owned();
                s.append(text::decimal(index as u128).as_str());
                s.append(">");
                s
            },
        }
    }
}

/// Result of a parallel batch run: the merged report plus combined usage.
pub struct ParallelRun {
    /// Merged test/step results across all files.
    pub report: RunReport,
    /// Per-test usage snapshots across all files.
    pub per_test: Vec<(String, UsageSnapshot)>,
    /// Combined global usage across all files.
    pub global: UsageSnapshot,
}

// ── Adaptive gate ─────────────────────────────────────────────────────

/// The adaptive controller shared by every worker.
#[derive(Debug, Clone, Copy)]
pub struct Gate {
    /// Number of browsers currently running.
    pub active: usize,
    /// Current concurrency limit; moves in `[lower, threads]` as the
    /// controller learns the machine's memory behaviour.
    pub limit: usize,
    /// Hard floor for the limit (from `--parallel-min`).
    pub lower: usize,
    /// Number of worker threads; also the ceiling the limit may reach.
    pub threads: usize,
    /// Ceiling for the limit when memory is unknown (ramp target).
    pub ramp_ceiling: usize,
    /// Total physical memory, if probed.
    pub memory_total: Option<u64>,
    /// Last known available memory, if probed.
    pub available: Option<u64>,
    /// Learned average per-browser footprint, in parts of a byte (0 =
    /// unknown): [`FOOTPRINT_UNIT`] of them are one byte.
    pub footprint: u64,
    /// Number of footprint samples folded into the average.
    pub footprint_count: u32,
    /// Current backoff (ms) applied before retrying a failed launch.
    pub retry_backoff: u64,
}

/// The lower of two numbers.
pub open spec fn lower_of(a: int, b: int) -> int {
    if a < b {
        a
    } else {
        b
    }
}

/// The higher of two numbers.
pub open spec fn higher_of(a: int, b: int) -> int {
    if a < b {
        b
    } else {
        a
    }
}

/// The lower of two numbers.
fn least(a: usize, b: usize) -> (r: usize)
    ensures
        r == lower_of(a as int, b as int),
{
    if a < b {
        a
    } else {
        b
    }
}

/// The higher of two numbers.
fn most(a: usize, b: usize) -> (r: usize)
    ensures
        r == higher_of(a as int, b as int),
{
    if a < b {
        b
    } else {
        a
    }
}

/// The number of worker threads of a mode.
pub open spec fn threads_of(mode: ParallelMode, files: int) -> int {
    match mode {
        ParallelMode::Manual(k) => higher_of(lower_of(higher_of(k as int, 1), files), 1),
        ParallelMode::Auto { min, max } => higher_of(
            lower_of(
                if max == 0 {
                    DEFAULT_THREAD_CAP as int
                } else {
                    max as int
                },
                files,
            ),
            1,
        ),
    }
}

/// The limit that a mode starts with, which is also its floor.
pub open spec fn floor_of(mode: ParallelMode, files: int) -> int {
    match mode {
        ParallelMode::Manual(k) => lower_of(higher_of(k as int, 1), threads_of(mode, files)),
        ParallelMode::Auto { min, max } => lower_of(
            higher_of(min as int, 1),
            threads_of(mode, files),
        ),
    }
}

/// How far a mode ramps up when memory is unknown.
pub open spec fn ramp_of(mode: ParallelMode, files: int) -> int {
    match mode {
        ParallelMode::Manual(k) => floor_of(mode, files),
        ParallelMode::Auto { min, max } => lower_of(
            if max == 0 {
                DEFAULT_AUTO_CEILING as int
            } else {
                max as int
            },
            threads_of(mode, files),
        ),
    }
}

/// Computes the initial gate state from the mode and (optional) memory.
pub fn make_gate(mode: &ParallelMode, memory: Option<MemoryInfo>, files_len: usize) -> (r: Gate)
    ensures
        r.wf(),
        r.active == 0,
        r.threads == threads_of(*mode, files_len as int),
        r.lower == floor_of(*mode, files_len as int),
        r.limit == r.lower,
        r.ramp_ceiling == ramp_of(*mode, files_len as int),
        r.memory_total == match memory {
            Some(m) => Some(m.total),
            None => None,
        },
        r.available == match memory {
            Some(m) => Some(m.available),
            None => None,
        },
        r.footprint == 0,
        r.footprint_count == 0,
        r.retry_backoff == 0,
{
    let (threads, lower, ramp_ceiling): (usize, usize, usize) = match mode {
        ParallelMode::Manual(k) => {
            let wanted: usize = most(*k, 1);
            let threads: usize = most(least(wanted, files_len), 1);
            let limit: usize = least(wanted, threads);
            (threads, limit, limit)
        },
        ParallelMode::Auto { min, max } => {
            let wanted: usize = most(*min as usize, 1);
            let cap: usize = if *max == 0 {
                DEFAULT_THREAD_CAP
            } else {
                *max as usize
            };
            let threads: usize = most(least(cap, files_len), 1);
            let ramp: usize = if *max == 0 {
                DEFAULT_AUTO_CEILING
            } else {
                *max as usize
            };
            (threads, least(wanted, threads), least(ramp, threads))
        },
    };
    let (memory_total, available): (Option<u64>, Option<u64>) = match memory {
        Some(m) => (Some(m.total), Some(m.available)),
        None => (None, None),
    };
    Gate {
        active: 0,
        limit: lower,
        lower,
        threads,
        ramp_ceiling,
        memory_total,
        available,
        footprint: 0,
        footprint_count: 0,
        retry_backoff: 0,
    }
}

/// What is known of the available memory after another measurement.
pub open spec fn newer(known: Option<u64>, measured: Option<u64>) -> Option<u64> {
    if measured is Some {
        measured
    } else {
        known
    }
}

/// A footprint within its bounds.
pub open spec fn clamped(parts: nat) -> u64 {
    if parts < MIN_FOOTPRINT * FOOTPRINT_UNIT {
        (MIN_FOOTPRINT * FOOTPRINT_UNIT) as u64
    } else if parts > MAX_FOOTPRINT * FOOTPRINT_UNIT {
        (MAX_FOOTPRINT * FOOTPRINT_UNIT) as u64
    } else {
        parts as u64
    }
}

/// The average of a footprint and a sample in bytes, computed in doubles:
/// seven tenths of the one and three tenths of the other.
pub open spec fn averaged(footprint: nat, sample: nat) -> nat {
    let kept = numbers::rounded_whole(footprint * KEPT_SHARE as nat);
    let added = numbers::rounded_whole(numbers::rounded_whole(sample) * SAMPLE_SHARE as nat);
    // 2^78 of these are a byte
    numbers::rounded_whole(kept + added * 16777216) / numbers::SIGNIFICAND_END as nat
}

/// How many browsers of a footprint there is room for, computed in doubles.
pub open spec fn room_for(available: nat, footprint: nat) -> nat {
    let (significand, unit) = numbers::ratio_of(
        numbers::rounded_whole(available) * FOOTPRINT_UNIT as nat,
        footprint,
    );
    significand / unit
}

/// The average of a footprint and a sample in bytes.
fn average(footprint: u64, sample: u64) -> (r: u64)
    requires
        footprint <= MAX_FOOTPRINT * FOOTPRINT_UNIT,
    ensures
        r == clamped(averaged(footprint as nat, sample as nat)),
{
    let product: u128 = footprint as u128 * KEPT_SHARE;
    let kept: u128 = numbers::round_whole(product);
    let whole: u128 = numbers::round_whole(sample as u128);
    let share: u128 = whole * SAMPLE_SHARE;
    let added: u128 = numbers::round_whole(share);
    let most: u64 = MAX_FOOTPRINT * FOOTPRINT_UNIT;
    if added > 0x400_0000_0000_0000_0000_0000 {
        proof {
            let sum = (kept + added * 16777216) as nat;
            numbers::lemma_rounded_whole(sum);
        }
        return most;
    }
    let sum: u128 = kept + added * 16777216;
    clamp_parts(numbers::round_whole(sum) / numbers::SIGNIFICAND_END)
}

/// A footprint within its bounds.
fn clamp_parts(parts: u128) -> (r: u64)
    ensures
        r == clamped(parts as nat),
{
    let least: u64 = MIN_FOOTPRINT * FOOTPRINT_UNIT;
    let most: u64 = MAX_FOOTPRINT * FOOTPRINT_UNIT;
    if parts < least as u128 {
        least
    } else if parts > most as u128 {
        most
    } else {
        parts as u64
    }
}

/// How many browsers of a footprint there is room for.
fn count_room(available: u64, footprint: u64) -> (r: u128)
    requires
        0 < available,
        MIN_FOOTPRINT * FOOTPRINT_UNIT <= footprint <= MAX_FOOTPRINT * FOOTPRINT_UNIT,
    ensures
        r == room_for(available as nat, footprint as nat),
{
    let whole: u128 = numbers::round_whole(available as u128);
    assert(0 < whole * FOOTPRINT_UNIT <= 0x1ffff_ffff_ffff_ffff * 33554432) by (nonlinear_arith)
        requires
            0 < whole <= 2 * 0xffff_ffff_ffff_ffff,
            FOOTPRINT_UNIT == 33554432,
    ;
    let parts: u128 = whole * (FOOTPRINT_UNIT as u128);
    let (significand, unit): (u128, u128) = numbers::nearest_ratio(parts, footprint as u128);
    significand / unit
}

impl Gate {
    /// The limit lies between its bounds, and what was learned is sane.
    pub open spec fn wf(&self) -> bool {
        &&& 1 <= self.lower <= self.limit <= self.threads
        &&& 1 <= self.ramp_ceiling <= self.threads
        &&& self.footprint_count <= MAX_SAMPLES
        &&& self.footprint_count > 0 ==> MIN_FOOTPRINT * FOOTPRINT_UNIT <= self.footprint
            <= MAX_FOOTPRINT * FOOTPRINT_UNIT
        &&& self.retry_backoff <= MAX_BACKOFF_MS
    }

    /// A new browser should not be launched yet.
    pub open spec fn blocked(&self) -> bool {
        match self.available {
            None => false,
            Some(bytes) => {
                ||| bytes < MIN_HEADROOM_BYTES
                ||| self.footprint_count > 0 && bytes < self.footprint / FOOTPRINT_UNIT
            },
        }
    }

    /// Another browser may be launched.
    pub open spec fn may_launch(&self) -> bool {
        self.active < self.limit && !self.blocked()
    }

    /// The controller after a browser was started.
    pub open spec fn started(&self, before: Option<u64>) -> Gate {
        Gate {
            available: newer(self.available, before),
            active: (self.active + 1) as usize,
            ..*self
        }
    }

    /// The controller after the memory around a run was measured.
    pub open spec fn measured(&self, before: Option<u64>, after: Option<u64>) -> Gate {
        let known = Gate { available: newer(newer(self.available, before), after), ..*self };
        if before is Some && after is Some && before->0 > after->0 {
            let delta = before->0 - after->0;
            Gate {
                footprint: clamped(
                    if self.footprint_count == 0 {
                        numbers::rounded_whole(delta as nat) * FOOTPRINT_UNIT as nat
                    } else {
                        averaged(self.footprint as nat, delta as nat)
                    },
                ),
                footprint_count: if self.footprint_count < MAX_SAMPLES {
                    (self.footprint_count + 1) as u32
                } else {
                    MAX_SAMPLES
                },
                ..known
            }
        } else {
            known
        }
    }

    /// The limit that a successful run leads to.
    pub open spec fn raised(&self) -> int {
        let available = if self.available is Some {
            self.available->0
        } else {
            self.memory_total->0
        };
        if self.footprint_count > 0 && self.memory_total is Some && available > 0 {
            lower_of(
                higher_of(
                    room_for(available as nat, self.footprint as nat) as int,
                    self.lower as int,
                ),
                self.threads as int,
            )
        } else {
            higher_of(
                lower_of(self.limit + 1, self.ramp_ceiling as int),
                self.lower as int,
            )
        }
    }

    /// The controller after a successful run.
    pub open spec fn succeeded(&self) -> Gate {
        Gate { limit: self.raised() as usize, ..*self }
    }

    /// The controller after a failed launch.
    pub open spec fn failed(&self) -> Gate {
        Gate {
            limit: higher_of(self.limit as int / 2, self.lower as int) as usize,
            retry_backoff: lower_of(
                self.retry_backoff + BACKOFF_STEP_MS,
                MAX_BACKOFF_MS as int,
            ) as u64,
            ..*self
        }
    }

    /// The controller after a browser has gone.
    pub open spec fn released(&self, after: Option<u64>) -> Gate {
        Gate {
            available: newer(self.available, after),
            active: if self.active == 0 {
                0
            } else {
                (self.active - 1) as usize
            },
            ..*self
        }
    }

    /// Whether a new browser may be launched right now: below the concurrency
    /// limit and with enough memory headroom.
    pub fn can_launch(&self) -> (r: bool)
        ensures
            r == self.may_launch(),
    {
        self.active < self.limit && !self.memory_blocked()
    }

    /// True when a new browser should not be launched yet: either less than an
    /// absolute [`MIN_HEADROOM_BYTES`] is free, or there is not room for one
    /// more browser of the learned footprint. Uses absolute free bytes (never a
    /// fraction of `total`), so it stays correct inside VMs/containers where
    /// `total` may report the host's much larger RAM.
    pub fn memory_blocked(&self) -> (r: bool)
        ensures
            r == self.blocked(),
    {
        match self.available {
            None => false,
            Some(available) => available < MIN_HEADROOM_BYTES || (self.footprint_count > 0
                && available < self.footprint / FOOTPRINT_UNIT),
        }
    }

    /// Reserves a launch slot.
    pub fn launch_started(&mut self, before: Option<u64>)
        requires
            old(self).active < usize::MAX,
        ensures
            *final(self) == old(self).started(before),
    {
        if before.is_some() {
            self.available = before;
        }
        self.active += 1;
    }

    /// Folds the memory delta around one run into the learned footprint and
    /// refreshes the last-known available memory.
    pub fn launch_finished(&mut self, before: Option<u64>, after: Option<u64>)
        requires
            old(self).wf(),
        ensures
            *final(self) == old(self).measured(before, after),
            final(self).wf(),
    {
        if before.is_some() {
            self.available = before;
        }
        if after.is_some() {
            self.available = after;
        }
        if let (Some(b), Some(a)) = (before, after) {
            if b > a {
                let delta: u64 = b - a;
                self.footprint = if self.footprint_count == 0 {
                    let whole: u128 = numbers::round_whole(delta as u128);
                    clamp_parts(whole * (FOOTPRINT_UNIT as u128))
                } else {
                    average(self.footprint, delta)
                };
                self.footprint_count = if self.footprint_count < MAX_SAMPLES {
                    self.footprint_count + 1
                } else {
                    MAX_SAMPLES
                };
            }
        }
    }

    /// After a successful run, try to raise the limit toward the
    /// memory-derived capacity, or ramp up one at a time when memory is
    /// unknown.
    pub fn on_success(&mut self)
        requires
            old(self).wf(),
        ensures
            *final(self) == old(self).succeeded(),
            final(self).wf(),
    {
        if self.footprint_count > 0 {
            if let Some(total) = self.memory_total {
                let available: u64 = match self.available {
                    Some(a) => a,
                    None => total,
                };
                if available > 0 {
                    let capacity: u128 = count_room(available, self.footprint);
                    self.limit = if capacity > self.threads as u128 {
                        self.threads
                    } else {
                        least(most(capacity as usize, self.lower), self.threads)
                    };
                    return;
                }
            }
        }
        if self.limit < self.ramp_ceiling {
            self.limit = most(self.limit + 1, self.lower);
        } else {
            self.limit = most(self.ramp_ceiling, self.lower);
        }
    }

    /// After an out-of-memory-style launch failure, back off: halve the limit
    /// (never below the floor) and increase the retry backoff.
    pub fn on_launch_failure(&mut self)
        requires
            old(self).wf(),
        ensures
            *final(self) == old(self).failed(),
            final(self).wf(),
    {
        self.limit = most(self.limit / 2, self.lower);
        let next: u64 = self.retry_backoff + BACKOFF_STEP_MS;
        self.retry_backoff = if next < MAX_BACKOFF_MS {
            next
        } else {
            MAX_BACKOFF_MS
        };
    }

    /// Frees a launch slot and refreshes known available memory.
    pub fn release(&mut self, after: Option<u64>)
        ensures
            *final(self) == old(self).released(after),
    {
        if after.is_some() {
            self.available = after;
        }
        if self.active > 0 {
            self.active -= 1;
        }
    }

    /// The controller after a run, and how its file goes on.
    pub open spec fn settled(
        &self,
        attempt: u32,
        before: Option<u64>,
        after: Option<u64>,
        failure: Option<bool>,
    ) -> (Gate, Decision) {
        let known = self.measured(before, after);
        match failure {
            None => (known.succeeded().released(after), Decision::Done),
            Some(oom) => (
                known.failed().released(after),
                if oom && attempt <= MAX_LAUNCH_RETRIES {
                    Decision::Retry(
                        higher_of(known.retry_backoff as int, BACKOFF_BASE_MS as int) as u64,
                    )
                } else {
                    Decision::GiveUp
                },
            ),
        }
    }

    /// Takes the end of a run: `failure` is `None` for a run that finished,
    /// and else says whether its launch failed for want of memory. A launch
    /// that did is retried after a backoff, [`MAX_LAUNCH_RETRIES`] times at
    /// most. `attempt` counts the launches of the file from 1.
    pub fn settle(
        &mut self,
        attempt: u32,
        before: Option<u64>,
        after: Option<u64>,
        failure: Option<bool>,
    ) -> (r: Decision)
        requires
            old(self).wf(),
        ensures
            (*final(self), r) == old(self).settled(attempt, before, after, failure),
            final(self).wf(),
    {
        self.launch_finished(before, after);
        match failure {
            None => {
                self.on_success();
                self.release(after);
                Decision::Done
            },
            Some(oom) => {
                let backoff: u64 = if self.retry_backoff < BACKOFF_BASE_MS {
                    BACKOFF_BASE_MS
                } else {
                    self.retry_backoff
                };
                self.on_launch_failure();
                self.release(after);
                if oom && attempt <= MAX_LAUNCH_RETRIES {
                    Decision::Retry(backoff)
                } else {
                    Decision::GiveUp
                }
            },
        }
    }
}

/// How a file goes on after a run.
#[derive(Debug, Clone, Copy, PartialEq, Eq, Structural)]
pub enum Decision {
    /// The run counts.
    Done,
    /// Memory-style failure to retry after this many milliseconds.
    Retry(u64),
    /// Non-retryable failure; record as failed.
    GiveUp,
}

/// However the machine behaves, the limit stays between its floor and the
/// number of threads.
pub proof fn law_limit_stays_bounded(
    gate: Gate,
    attempt: u32,
    before: Option<u64>,
    after: Option<u64>,
    failure: Option<bool>,
)
    requires
        gate.wf(),
    ensures
        ({
            let next = gate.settled(attempt, before, after, failure).0;
            &&& next.lower == gate.lower
            &&& next.threads == gate.threads
            &&& next.lower <= next.limit <= next.threads
        }),
{
}

/// A manual count stays what it is.
pub proof fn law_manual_mode_is_fixed(
    gate: Gate,
    attempt: u32,
    before: Option<u64>,
    after: Option<u64>,
    failure: Option<bool>,
)
    requires
        gate.wf(),
        gate.lower == gate.threads,
    ensures
        gate.settled(attempt, before, after, failure).0.limit == gate.limit,
{
}

/// A manual gate has its floor at the number of threads.
pub proof fn law_manual_gate(k: usize, files: int)
    requires
        0 <= files,
    ensures
        floor_of(ParallelMode::Manual(k), files) == threads_of(ParallelMode::Manual(k), files),
{
}

/// A launch that failed for want of memory is retried as often as allowed and
/// no more, any other failure never, and no retry waits longer than the
/// longest backoff.
pub proof fn law_retries_are_bounded(
    gate: Gate,
    attempt: u32,
    before: Option<u64>,
    after: Option<u64>,
    failure: Option<bool>,
)
    requires
        gate.wf(),
    ensures
        match gate.settled(attempt, before, after, failure).1 {
            Decision::Retry(ms) => failure == Some(true) && attempt <= MAX_LAUNCH_RETRIES
                && BACKOFF_BASE_MS <= ms <= MAX_BACKOFF_MS,
            Decision::Done => failure is None,
            Decision::GiveUp => failure == Some(false) || failure == Some(true) && attempt
                > MAX_LAUNCH_RETRIES,
        },
{
}

/// A launch that is let through keeps the number of browsers within the
/// limit, and never starts below the memory floor.
pub proof fn law_launches_stay_within_limit(gate: Gate, before: Option<u64>)
    requires
        gate.wf(),
        gate.active < gate.limit,
        !gate.blocked(),
    ensures
        gate.started(before).active <= gate.limit,
        gate.available matches Some(bytes) ==> bytes >= MIN_HEADROOM_BYTES,
{
}

// ── Scheduler ─────────────────────────────────────────────────────────

/// Outcome of [`SchedulerState::claim`].
#[derive(Debug, Clone, Copy, PartialEq, Eq, Structural)]
pub enum Claim {
    /// This file is assigned to the worker.
    Take(usize),
    /// Work remains but every unstarted file is blocked by a concurrency
    /// group — retry shortly.
    Wait,
    /// Every file has been started; no more work.
    Done,
}

/// Shared scheduler state.
pub struct SchedulerState {
    /// The files.
    pub files: Vec<ScenarioFile>,
    /// Which of them were started.
    pub started: Vec<bool>,
    /// Those that run now.
    pub active: Vec<usize>,
}

impl SchedulerState {
    /// The concurrency key of a file.
    pub open spec fn key(&self, i: int) -> Seq<char> {
        group_key(self.files@[i].config.concurrency_group, i)
    }

    /// A file runs now.
    pub open spec fn runs(&self, i: int) -> bool {
        exists|a: int| 0 <= a < self.active@.len() && #[trigger] self.active@[a] == i
    }

    /// What a worker is given, and how the state changes with it.
    pub open spec fn hands_out(&self, r: Claim, after: SchedulerState) -> bool {
        match r {
            Claim::Take(i) => {
                &&& i < self.files@.len()
                &&& !self.started@[i as int]
                &&& !self.waits(i as int)
                &&& forall|k: int| 0 <= k < i ==> #[trigger] self.started@[k] || self.waits(k)
                &&& after.started@ == self.started@.update(i as int, true)
                &&& after.active@ == self.active@.push(i)
            },
            Claim::Wait => {
                &&& after == *self
                &&& exists|k: int| 0 <= k < self.files@.len() && !self.started@[k]
                &&& forall|k: int|
                    0 <= k < self.files@.len() ==> #[trigger] self.started@[k] || self.waits(k)
            },
            Claim::Done => {
                &&& after == *self
                &&& forall|k: int| 0 <= k < self.files@.len() ==> #[trigger] self.started@[k]
            },
        }
    }

    /// How the state changes when a file is done.
    pub open spec fn gives_back(&self, i: int, after: SchedulerState) -> bool {
        &&& after.active@.len() == self.active@.len() - 1
        &&& forall|k: int| #[trigger] after.runs(k) == (self.runs(k) && k != i)
    }

    /// A file has to wait for another one of its group.
    pub open spec fn waits(&self, i: int) -> bool {
        exists|a: int|
            0 <= a < self.active@.len() && self.key(#[trigger] self.active@[a] as int) == self.key(i)
    }

    /// What runs was started, and no two files of a group run at once.
    pub open spec fn wf(&self) -> bool {
        &&& self.started@.len() == self.files@.len()
        &&& forall|a: int|
            0 <= a < self.active@.len() ==> (#[trigger] self.active@[a]) < self.files@.len()
                && self.started@[self.active@[a] as int]
        &&& forall|a: int, b: int|
            0 <= a < b < self.active@.len() ==> self.key(#[trigger] self.active@[a] as int)
                != self.key(#[trigger] self.active@[b] as int)
    }

    /// Nothing was started yet.
    pub fn new(files: Vec<ScenarioFile>) -> (r: Self)
        ensures
            r.wf(),
            r.files == files,
            r.active@.len() == 0,
            forall|i: int| 0 <= i < files@.len() ==> !(#[trigger] r.started@[i]),
    {
        let mut started: Vec<bool> = Vec::new();
        while started.len() < files.len()
            invariant
                started@.len() <= files@.len(),
                forall|i: int| 0 <= i < started@.len() ==> !(#[trigger] started@[i]),
            decreases files@.len() - started@.len(),
        {
            started.push(false);
        }
        SchedulerState { files, started, active: Vec::new() }
    }

    /// Whether a file has to wait for another one of its group.
    fn is_waiting(&self, i: usize) -> (r: bool)
        requires
            self.wf(),
            i < self.files@.len(),
        ensures
            r == self.waits(i as int),
    {
        let key = self.files[i].concurrency_key(i);
        let mut a: usize = 0;
        while a < self.active.len()
            invariant
                self.wf(),
                key@ == self.key(i as int),
                a <= self.active@.len(),
                forall|k: int|
                    0 <= k < a ==> self.key(#[trigger] self.active@[k] as int) != key@,
            decreases self.active@.len() - a,
        {
            let other: usize = self.active[a];
            let other_key = self.files[other].concurrency_key(other);
            if text::same_text(other_key.as_str(), key.as_str()) {
                assert(self.key(self.active@[a as int] as int) == self.key(i as int));
                return true;
            }
            a += 1;
        }
        false
    }

    /// Reserves the first unstarted file whose concurrency group is not
    /// currently running, or reports that the worker should wait / that all
    /// work is done.
    pub fn claim(&mut self) -> (r: Claim)
        requires
            old(self).wf(),
        ensures
            final(self).wf(),
            final(self).files == old(self).files,
            old(self).hands_out(r, *final(self)),
    {
        let mut i: usize = 0;
        let mut all_started: bool = true;
        while i < self.files.len()
            invariant
                *self == *old(self),
                self.wf(),
                i <= self.files@.len(),
                forall|k: int| 0 <= k < i ==> #[trigger] self.started@[k] || self.waits(k),
                all_started ==> forall|k: int| 0 <= k < i ==> #[trigger] self.started@[k],
                !all_started ==> exists|k: int| 0 <= k < i && !self.started@[k],
            decreases self.files@.len() - i,
        {
            if !self.started[i] {
                if !self.is_waiting(i) {
                    let ghost before = *self;
                    self.started.set(i, true);
                    self.active.push(i);
                    proof {
                        assert forall|a: int| 0 <= a < self.active@.len() implies (
                        #[trigger] self.active@[a]) < self.files@.len()
                            && self.started@[self.active@[a] as int] by {
                            if a < before.active@.len() {
                                assert(self.active@[a] == before.active@[a]);
                            }
                        }
                        assert forall|a: int, b: int|
                            0 <= a < b < self.active@.len() implies self.key(
                            #[trigger] self.active@[a] as int,
                        ) != self.key(#[trigger] self.active@[b] as int) by {
                            assert(self.active@[a] == before.active@[a]);
                            if b < before.active@.len() {
                                assert(self.active@[b] == before.active@[b]);
                            }
                        }
                    }
                    return Claim::Take(i);
                }
                all_started = false;
            }
            i += 1;
        }
        if all_started {
            Claim::Done
        } else {
            Claim::Wait
        }
    }

    /// Releases file `i`'s concurrency group so blocked files can start.
    pub fn complete(&mut self, i: usize)
        requires
            old(self).wf(),
            old(self).runs(i as int),
        ensures
            final(self).wf(),
            final(self).files == old(self).files,
            final(self).started == old(self).started,
            old(self).gives_back(i as int, *final(self)),
    {
        let ghost before = *self;
        let mut a: usize = 0;
        while a < self.active.len() && self.active[a] != i
            invariant
                *self == before,
                before.runs(i as int),
                a <= self.active@.len(),
                forall|k: int| 0 <= k < a ==> #[trigger] self.active@[k] != i,
            decreases self.active@.len() - a,
        {
            a += 1;
        }
        self.active.remove(a);
        proof {
            assert(self.active@ == before.active@.remove(a as int));
            assert forall|x: int| 0 <= x < self.active@.len() implies (#[trigger] self.active@[x])
                < self.files@.len() && self.started@[self.active@[x] as int] by {
                let y = if x < a {
                    x
                } else {
                    x + 1
                };
                assert(self.active@[x] == before.active@[y]);
            }
            assert forall|x: int, y: int| 0 <= x < y < self.active@.len() implies self.key(
                #[trigger] self.active@[x] as int,
            ) != self.key(#[trigger] self.active@[y] as int) by {
                let p = if x < a {
                    x
                } else {
                    x + 1
                };
                let q = if y < a {
                    y
                } else {
                    y + 1
                };
                assert(self.active@[x] == before.active@[p]);
                assert(self.active@[y] == before.active@[q]);
            }
            assert forall|k: int| #[trigger] self.runs(k) == (before.runs(k) && k != i) by {
                if self.runs(k) {
                    let x = choose|x: int| 0 <= x < self.active@.len() && self.active@[x] == k;
                    let p = if x < a {
                        x
                    } else {
                        x + 1
                    };
                    assert(before.active@[p] == k);
                    if p < a {
                        assert(before.active@[p] != i);
                    } else {
                        assert(before.key(before.active@[a as int] as int) != before.key(
                            before.active@[p] as int,
                        ));
                    }
                }
                if before.runs(k) && k != i {
                    let p = choose|p: int| 0 <= p < before.active@.len() && before.active@[p] == k;
                    let x = if p < a {
                        p
                    } else {
                        p - 1
                    };
                    assert(self.active@[x] == k);
                }
            }
        }
    }
}

/// Two files of one concurrency group never run at the same time.
pub proof fn law_groups_are_exclusive(state: SchedulerState, i: int, j: int)
    requires
        state.wf(),
        state.runs(i),
        state.runs(j),
        state.key(i) == state.key(j),
    ensures
        i == j,
{
    let a = choose|a: int| 0 <= a < state.active@.len() && state.active@[a] == i;
    let b = choose|b: int| 0 <= b < state.active@.len() && state.active@[b] == j;
    if a < b {
        assert(state.key(state.active@[a] as int) != state.key(state.active@[b] as int));
    } else if b < a {
        assert(state.key(state.active@[b] as int) != state.key(state.active@[a] as int));
    }
}

/// While nothing runs, no file has to wait: the batch cannot come to a
/// standstill.
pub proof fn law_no_standstill(state: SchedulerState, i: int)
    requires
        state.active@.len() == 0,
    ensures
        !state.waits(i),
{
}

/// Files without a declared group never wait for one another.
pub proof fn law_files_without_group_run_together(state: SchedulerState, i: int)
    requires
        state.wf(),
        0 <= i < state.files@.len(),
        !state.started@[i],
        forall|k: int|
            0 <= k < state.files@.len() ==> (
            #[trigger] state.files@[k]).config.concurrency_group is None,
    ensures
        !state.waits(i),
{
    if state.waits(i) {
        let a = choose|a: int|
            0 <= a < state.active@.len() && state.key(#[trigger] state.active@[a] as int)
                == state.key(i);
        let j = state.active@[a] as int;
        assert(state.files@[i].config.concurrency_group is None);
        assert(state.files@[j].config.concurrency_group is None);
        let lead = "<file "@;
        let tail = ">"@;
        let left = lead + text::dec(i as nat) + tail;
        let right = lead + text::dec(j as nat) + tail;
        assert(left == right);
        assert(left.subrange(lead.len() as int, left.len() - tail.len()) =~= text::dec(i as nat));
        assert(right.subrange(lead.len() as int, right.len() - tail.len()) =~= text::dec(j as nat));
        text::lemma_dec_injective(i as nat, j as nat);
    }
}

/// A lower-case message speaks of memory exhaustion.
pub open spec fn mentions_memory(lower: Seq<char>) -> bool {
    ||| text::has_text(lower, "memory"@)
    ||| text::has_text(lower, "cannot allocate"@)
    ||| text::has_text(lower, "out of memory"@)
    ||| text::has_text(lower, "killed"@)
    ||| text::has_text(lower, "oom"@)
    ||| text::has_text(lower, "resource temporarily unavailable"@)
    ||| text::has_text(lower, "failed to allocate"@)
    ||| text::has_text(lower, "no memory"@)
}

/// Whether a lower-case message speaks of memory exhaustion.
pub fn speaks_of_memory(lower: &str) -> (r: bool)
    ensures
        r == mentions_memory(lower@),
{
    text::contains_text(lower, "memory") || text::contains_text(lower, "cannot allocate")
        || text::contains_text(lower, "out of memory") || text::contains_text(lower, "killed")
        || text::contains_text(lower, "oom") || text::contains_text(
        lower,
        "resource temporarily unavailable",
    ) || text::contains_text(lower, "failed to allocate") || text::contains_text(
        lower,
        "no memory",
    )
}

/// Whether a browser-launch error looks like memory exhaustion and is worth
/// retrying after backing off.
pub fn is_retryable_oom(err: &str) -> (r: bool)
    ensures
        r == mentions_memory(text::lowered(err@)),
{
    speaks_of_memory(text::lowercase(err).as_str())
}

/// What is said of a launch that is retried.
pub fn retry_warning(label: &str, attempt: u32, ms: u64) -> (r: String)
    ensures
        r@ == label@ + ": browser launch failed (likely out of memory); retrying ("@ + text::dec(
            attempt as nat,
        ) + "/"@ + text::dec(MAX_LAUNCH_RETRIES as nat) + ") in "@ + text::dec(ms as nat) + "ms"@,
{
    let mut s = label.to_owned();
    s.append(": browser launch failed (likely out of memory); retrying (");
    s.append(text::decimal(attempt as u128).as_str());
    s.append("/");
    s.append(text::decimal(MAX_LAUNCH_RETRIES as u128).as_str());
    s.append(") in ");
    s.append(text::decimal(ms as u128).as_str());
    s.append("ms");
    s
}

/// What is said of a file that is given up.
pub fn give_up_error(label: &str, err: &str) -> (r: String)
    ensures
        r@ == label@ + ": "@ + err@,
{
    let mut s = label.to_owned();
    s.append(": ");
    s.append(err);
    s
}

/// A report that fails every test in `file` (used when the browser cannot be
/// launched after retries).
pub fn synthesized_failed_report(file: &ScenarioFile) -> (r: ParallelRun)
    requires
        file.tests@.len() <= u32::MAX,
    ensures
        r.report.tests_passed == 0,
        r.report.tests_failed == file.tests@.len(),
        r.report.passed == 0,
        r.report.failed == file.tests@.len(),
        r.report.skipped == 0,
        r.report.details@.len() == 0,
        r.per_test@.len() == 0,
        r.global.wf(),
        r.global.endpoints@.len() == 0,
{
    let n: u32 = file.tests.len() as u32;
    ParallelRun {
        report: RunReport {
            tests_passed: 0,
            tests_failed: n,
            passed: 0,
            failed: n,
            skipped: 0,
            details: Vec::new(),
        },
        per_test: Vec::new(),
        global: UsageSnapshot::default(),
    }
}

/// The sum of the calls of snapshots.
pub open spec fn merged_calls(s: Seq<UsageSnapshot>) -> nat
    decreases s.len(),
{
    if s.len() == 0 {
        0
    } else {
        merged_calls(s.drop_last()) + costs::sum_calls(s.last().endpoints@)
    }
}

/// The sum of the tokens of snapshots.
pub open spec fn merged_tokens(s: Seq<UsageSnapshot>) -> nat
    decreases s.len(),
{
    if s.len() == 0 {
        0
    } else {
        merged_tokens(s.drop_last()) + costs::sum_tokens(s.last().endpoints@)
    }
}

/// The sum of the cost of snapshots.
pub open spec fn merged_cost(s: Seq<UsageSnapshot>) -> nat
    decreases s.len(),
{
    if s.len() == 0 {
        0
    } else {
        merged_cost(s.drop_last()) + costs::sum_cost(s.last().endpoints@)
    }
}

/// The usage of an endpoint over snapshots.
pub open spec fn merged_usage(s: Seq<UsageSnapshot>, name: Seq<char>) -> EndpointUsage
    decreases s.len(),
{
    if s.len() == 0 {
        costs::no_usage()
    } else {
        costs::plus(
            merged_usage(s.drop_last(), name),
            costs::usage_of(s.last().endpoints@, name),
        )
    }
}

/// The snapshots list no endpoint twice, and their counts fit their counters
/// together.
pub open spec fn mergeable(s: Seq<UsageSnapshot>) -> bool {
    &&& forall|i: int| 0 <= i < s.len() ==> named::distinct((#[trigger] s[i]).endpoints@)
    &&& merged_calls(s) <= u64::MAX
    &&& merged_tokens(s) <= u64::MAX
}

/// Fewer snapshots count no more.
proof fn lemma_merged_take(s: Seq<UsageSnapshot>, i: int)
    requires
        0 <= i <= s.len(),
    ensures
        merged_calls(s.take(i)) <= merged_calls(s),
        merged_tokens(s.take(i)) <= merged_tokens(s),
    decreases s.len() - i,
{
    if i < s.len() {
        lemma_merged_take(s, i + 1);
        assert(s.take(i + 1).drop_last() =~= s.take(i));
    } else {
        assert(s.take(i) =~= s);
    }
}

/// A snapshot lists the endpoint.
pub open spec fn listed(s: Seq<UsageSnapshot>, name: Seq<char>) -> bool {
    exists|i: int| 0 <= i < s.len() && named::has_name((#[trigger] s[i]).endpoints@, name)
}

/// One more snapshot lists its endpoints too.
proof fn lemma_listed(s: Seq<UsageSnapshot>, i: int, name: Seq<char>)
    requires
        0 <= i < s.len(),
    ensures
        listed(s.take(i + 1), name) == (listed(s.take(i), name) || named::has_name(
            s[i].endpoints@,
            name,
        )),
{
    let more = s.take(i + 1);
    let less = s.take(i);
    assert(more[i] == s[i]);
    if listed(less, name) {
        let k = choose|k: int|
            0 <= k < less.len() && named::has_name((#[trigger] less[k]).endpoints@, name);
        assert(more[k] == less[k]);
    }
    if listed(more, name) {
        let k = choose|k: int|
            0 <= k < more.len() && named::has_name((#[trigger] more[k]).endpoints@, name);
        if k < i {
            assert(less[k] == more[k]);
        }
    }
}

/// `r` is the snapshots added up, name by name.
pub open spec fn is_merged(r: UsageSnapshot, s: Seq<UsageSnapshot>) -> bool {
    &&& r.wf()
    &&& r.total_calls == merged_calls(s)
    &&& r.total_tokens == merged_tokens(s)
    &&& r.total_cost == costs::cap(merged_cost(s))
    &&& forall|n: Seq<char>| #[trigger] costs::usage_of(r.endpoints@, n) == merged_usage(s, n)
    &&& forall|n: Seq<char>| #[trigger] named::has_name(r.endpoints@, n) == listed(s, n)
}

/// Merges a batch of per-file global usage snapshots into one, summing
/// per-endpoint counters so the cost report is accurate across files.
pub fn merge_globals(snapshots: &Vec<UsageSnapshot>) -> (r: UsageSnapshot)
    requires
        mergeable(snapshots@),
    ensures
        is_merged(r, snapshots@),
{
    let ghost all = snapshots@;
    let mut endpoints: Named<EndpointUsage> = Vec::new();
    let mut i: usize = 0;
    assert(all.take(0) =~= Seq::<UsageSnapshot>::empty());
    assert forall|n: Seq<char>| #[trigger] costs::usage_of(endpoints@, n) == merged_usage(
        all.take(0),
        n,
    ) by {
        named::lemma_position(endpoints@, n);
    }
    while i < snapshots.len()
        invariant
            all == snapshots@,
            mergeable(all),
            i <= all.len(),
            named::distinct(endpoints@),
            costs::sum_calls(endpoints@) == merged_calls(all.take(i as int)),
            costs::sum_tokens(endpoints@) == merged_tokens(all.take(i as int)),
            costs::cap(costs::sum_cost(endpoints@)) == costs::cap(merged_cost(all.take(i as int))),
            forall|n: Seq<char>| #[trigger]
                costs::usage_of(endpoints@, n) == merged_usage(all.take(i as int), n),
            forall|n: Seq<char>| #[trigger]
                named::has_name(endpoints@, n) == listed(all.take(i as int), n),
        decreases all.len() - i,
    {
        proof {
            lemma_merged_take(all, i + 1);
            assert(all.take(i + 1).drop_last() =~= all.take(i as int));
            assert(all.take(i + 1).last() == all[i as int]);
        }
        let ghost before = endpoints@;
        costs::add_all(&mut endpoints, &snapshots[i].endpoints);
        assert forall|n: Seq<char>| #[trigger] costs::usage_of(endpoints@, n) == merged_usage(
            all.take(i + 1),
            n,
        ) by {
            assert(costs::usage_of(before, n) == merged_usage(all.take(i as int), n));
        }
        assert forall|n: Seq<char>| #[trigger] named::has_name(endpoints@, n) == listed(
            all.take(i + 1),
            n,
        ) by {
            lemma_listed(all, i as int, n);
            assert(named::has_name(before, n) == listed(all.take(i as int), n));
        }
        i += 1;
    }
    assert(all.take(i as int) =~= all);
    UsageSnapshot::from_endpoints(&endpoints)
}

/// The runs that were recorded.
pub open spec fn recorded(results: Seq<Option<ParallelRun>>) -> Seq<ParallelRun>
    decreases results.len(),
{
    if results.len() == 0 {
        Seq::empty()
    } else {
        match results.last() {
            Some(run) => recorded(results.drop_last()).push(run),
            None => recorded(results.drop_last()),
        }
    }
}

/// A count summed over runs.
pub open spec fn sum_of(runs: Seq<ParallelRun>, count: spec_fn(ParallelRun) -> int) -> int
    decreases runs.len(),
{
    if runs.len() == 0 {
        0
    } else {
        sum_of(runs.drop_last(), count) + count(runs.last())
    }
}

/// The details of runs, one behind the other.
pub open spec fn all_details(runs: Seq<ParallelRun>) -> Seq<StepResult>
    decreases runs.len(),
{
    if runs.len() == 0 {
        Seq::empty()
    } else {
        all_details(runs.drop_last()) + runs.last().report.details@
    }
}

/// The tests of runs with their usage, one behind the other.
pub open spec fn all_tests(runs: Seq<ParallelRun>) -> Seq<(String, UsageSnapshot)>
    decreases runs.len(),
{
    if runs.len() == 0 {
        Seq::empty()
    } else {
        all_tests(runs.drop_last()) + runs.last().per_test@
    }
}

/// The global usages of runs.
pub open spec fn all_globals(runs: Seq<ParallelRun>) -> Seq<UsageSnapshot> {
    runs.map_values(|r: ParallelRun| r.global)
}

/// Tests that passed.
pub open spec fn tests_passed() -> spec_fn(ParallelRun) -> int {
    |r: ParallelRun| r.report.tests_passed as int
}

/// Tests that failed.
pub open spec fn tests_failed() -> spec_fn(ParallelRun) -> int {
    |r: ParallelRun| r.report.tests_failed as int
}

/// Steps that passed.
pub open spec fn steps_passed() -> spec_fn(ParallelRun) -> int {
    |r: ParallelRun| r.report.passed as int
}

/// Steps that failed.
pub open spec fn steps_failed() -> spec_fn(ParallelRun) -> int {
    |r: ParallelRun| r.report.failed as int
}

/// Steps that were skipped.
pub open spec fn steps_skipped() -> spec_fn(ParallelRun) -> int {
    |r: ParallelRun| r.report.skipped as int
}

/// The counts of runs fit their counters together.
pub open spec fn runs_fit(runs: Seq<ParallelRun>) -> bool {
    &&& sum_of(runs, tests_passed()) <= u32::MAX
    &&& sum_of(runs, tests_failed()) <= u32::MAX
    &&& sum_of(runs, steps_passed()) <= u32::MAX
    &&& sum_of(runs, steps_failed()) <= u32::MAX
    &&& sum_of(runs, steps_skipped()) <= u32::MAX
    &&& mergeable(all_globals(runs))
}

/// The runs among the first results are the first of all runs.
proof fn lemma_recorded_take(results: Seq<Option<ParallelRun>>, i: int)
    requires
        0 <= i <= results.len(),
    ensures
        recorded(results.take(i)).len() <= recorded(results).len(),
        recorded(results).take(recorded(results.take(i)).len() as int) == recorded(results.take(i)),
    decreases results.len() - i,
{
    if i < results.len() {
        lemma_recorded_take(results, i + 1);
        assert(results.take(i + 1).drop_last() =~= results.take(i));
        let small = recorded(results.take(i));
        let more = recorded(results.take(i + 1));
        assert(more.take(small.len() as int) =~= small);
        assert(recorded(results).take(small.len() as int) =~= more.take(small.len() as int));
    } else {
        assert(results.take(i) =~= results);
        assert(recorded(results).take(recorded(results).len() as int) =~= recorded(results));
    }
}

/// The sum over the first runs is no more than that over all.
proof fn lemma_sum_take(runs: Seq<ParallelRun>, count: spec_fn(ParallelRun) -> int, i: int)
    requires
        0 <= i <= runs.len(),
        forall|r: ParallelRun| #[trigger] count(r) >= 0,
    ensures
        sum_of(runs.take(i), count) <= sum_of(runs, count),
    decreases runs.len() - i,
{
    if i < runs.len() {
        lemma_sum_take(runs, count, i + 1);
        assert(runs.take(i + 1).drop_last() =~= runs.take(i));
        assert(count(runs[i]) >= 0);
    } else {
        assert(runs.take(i) =~= runs);
    }
}

/// The counts of the first runs fit.
proof fn lemma_runs_fit_take(runs: Seq<ParallelRun>, i: int)
    requires
        0 <= i <= runs.len(),
        runs_fit(runs),
    ensures
        sum_of(runs.take(i), tests_passed()) <= u32::MAX,
        sum_of(runs.take(i), tests_failed()) <= u32::MAX,
        sum_of(runs.take(i), steps_passed()) <= u32::MAX,
        sum_of(runs.take(i), steps_failed()) <= u32::MAX,
        sum_of(runs.take(i), steps_skipped()) <= u32::MAX,
{
    lemma_sum_take(runs, tests_passed(), i);
    lemma_sum_take(runs, tests_failed(), i);
    lemma_sum_take(runs, steps_passed(), i);
    lemma_sum_take(runs, steps_failed(), i);
    lemma_sum_take(runs, steps_skipped(), i);
}

/// Merges the per-file reports and usage of a batch, in the order of the
/// files. A file without a result adds nothing.
pub fn merge_runs(results: Vec<Option<ParallelRun>>) -> (r: ParallelRun)
    requires
        runs_fit(recorded(results@)),
    ensures
        ({
            let runs = recorded(results@);
            &&& r.report.tests_passed == sum_of(runs, tests_passed())
            &&& r.report.tests_failed == sum_of(runs, tests_failed())
            &&& r.report.passed == sum_of(runs, steps_passed())
            &&& r.report.failed == sum_of(runs, steps_failed())
            &&& r.report.skipped == sum_of(runs, steps_skipped())
            &&& r.report.details@ == all_details(runs)
            &&& r.per_test@ == all_tests(runs)
            &&& is_merged(r.global, all_globals(runs))
        }),
{
    let ghost all = results@;
    let ghost runs = recorded(all);
    let mut rest = results;
    let mut report = RunReport::default();
    let mut per_test: Vec<(String, UsageSnapshot)> = Vec::new();
    let mut globals: Vec<UsageSnapshot> = Vec::new();
    let ghost mut i: int = 0;
    assert(all.take(0) =~= Seq::<Option<ParallelRun>>::empty());
    assert(all.skip(0) =~= all);
    assert(globals@ =~= all_globals(recorded(all.take(0))));
    while rest.len() > 0
        invariant
            0 <= i <= all.len(),
            runs == recorded(all),
            runs_fit(runs),
            rest@ == all.skip(i),
            report.tests_passed == sum_of(recorded(all.take(i)), tests_passed()),
            report.tests_failed == sum_of(recorded(all.take(i)), tests_failed()),
            report.passed == sum_of(recorded(all.take(i)), steps_passed()),
            report.failed == sum_of(recorded(all.take(i)), steps_failed()),
            report.skipped == sum_of(recorded(all.take(i)), steps_skipped()),
            report.details@ == all_details(recorded(all.take(i))),
            per_test@ == all_tests(recorded(all.take(i))),
            globals@ == all_globals(recorded(all.take(i))),
        decreases rest@.len(),
    {
        let ghost done = recorded(all.take(i));
        let ghost more = recorded(all.take(i + 1));
        proof {
            assert(all.take(i + 1).drop_last() =~= all.take(i));
            assert(all.take(i + 1).last() == all[i]);
            lemma_recorded_take(all, i + 1);
            lemma_runs_fit_take(runs, more.len() as int);
        }
        let next = rest.remove(0);
        assert(rest@ =~= all.skip(i + 1));
        if let Some(run) = next {
            assert(more == done.push(run));
            assert(more.drop_last() =~= done);
            report.tests_passed += run.report.tests_passed;
            report.tests_failed += run.report.tests_failed;
            report.passed += run.report.passed;
            report.failed += run.report.failed;
            report.skipped += run.report.skipped;
            let mut details = run.report.details;
            report.details.append(&mut details);
            let mut tests = run.per_test;
            per_test.append(&mut tests);
            globals.push(run.global);
            assert(globals@ =~= all_globals(more));
        }
        proof {
            i = i + 1;
        }
    }
    assert(all.take(i) =~= all);
    ParallelRun { report, per_test, global: merge_globals(&globals) }
}

/// The number of tests in files.
pub open spec fn tests_in(files: Seq<ScenarioFile>) -> nat
    decreases files.len(),
{
    if files.len() == 0 {
        0
    } else {
        tests_in(files.drop_last()) + files.last().tests@.len()
    }
}

/// Fewer files hold no more tests.
proof fn lemma_tests_take(files: Seq<ScenarioFile>, i: int)
    requires
        0 <= i <= files.len(),
    ensures
        tests_in(files.take(i)) <= tests_in(files),
    decreases files.len() - i,
{
    if i < files.len() {
        lemma_tests_take(files, i + 1);
        assert(files.take(i + 1).drop_last() =~= files.take(i));
    } else {
        assert(files.take(i) =~= files);
    }
}

/// The event that opens a batch.
pub fn run_started(files: &Vec<ScenarioFile>) -> (r: TestEvent)
    requires
        tests_in(files@) <= u32::MAX,
    ensures
        r matches TestEvent::RunStarted { total_tests } && total_tests == tests_in(files@),
{
    let mut total: u32 = 0;
    let mut i: usize = 0;
    assert(files@.take(0) =~= Seq::<ScenarioFile>::empty());
    while i < files.len()
        invariant
            i <= files@.len(),
            tests_in(files@) <= u32::MAX,
            total == tests_in(files@.take(i as int)),
        decreases files@.len() - i,
    {
        proof {
            lemma_tests_take(files@, i + 1);
            assert(files@.take(i + 1).drop_last() =~= files@.take(i as int));
        }
        total += files[i].tests.len() as u32;
        i += 1;
    }
    assert(files@.take(i as int) =~= files@);
    TestEvent::RunStarted { total_tests: total }
}

/// The event that closes a run.
pub fn run_finished(report: &RunReport, global: &UsageSnapshot) -> (r: TestEvent)
    ensures
        r == (TestEvent::RunFinished {
            tests_passed: report.tests_passed,
            tests_failed: report.tests_failed,
            steps_passed: report.passed,
            steps_failed: report.failed,
            steps_skipped: report.skipped,
            total_cost: global.total_cost,
            total_tokens: global.total_tokens,
            total_calls: global.total_calls,
        }),
{
    TestEvent::RunFinished {
        tests_passed: report.tests_passed,
        tests_failed: report.tests_failed,
        steps_passed: report.passed,
        steps_failed: report.failed,
        steps_skipped: report.skipped,
        total_cost: global.total_cost,
        total_tokens: global.total_tokens,
        total_calls: global.total_calls,
    }
}

// ── Memory probing ────────────────────────────────────────────────────

/// The number of bytes that a command printed, if it is one.
pub open spec fn bytes_in(answer: Option<Seq<char>>) -> Option<nat> {
    match answer {
        Some(a) => text::parsed_uint(text::trimmed(a), u64::MAX as nat),
        None => None,
    }
}

/// The number of bytes that a command printed, if it is one.
pub fn available_memory_now(answer: Option<&str>) -> (r: Option<u64>)
    ensures
        match r {
            Some(n) => bytes_in(llm::option_view(answer)) == Some(n as nat),
            None => bytes_in(llm::option_view(answer)) is None,
        },
{
    match answer {
        Some(a) => text::parse_uint(text::trim_text(a).as_str(), u64::MAX),
        None => None,
    }
}

/// What the memory commands of Linux say, or else those of macOS. Memory that
/// cannot be counted in 64 bits counts as not measured.
pub open spec fn memory_in(
    total: Option<Seq<char>>,
    available: Option<Seq<char>>,
    mac_total: Option<Seq<char>>,
    mac_page_size: Option<Seq<char>>,
    mac_pages: Option<Seq<char>>,
) -> Option<(nat, nat)> {
    if bytes_in(total) is Some && bytes_in(available) is Some {
        Some((bytes_in(total)->0, bytes_in(available)->0))
    } else if bytes_in(mac_total) is Some && bytes_in(mac_pages) is Some && bytes_in(
        mac_page_size,
    ) is Some && bytes_in(mac_pages)->0 * bytes_in(mac_page_size)->0 <= u64::MAX {
        Some((bytes_in(mac_total)->0, bytes_in(mac_pages)->0 * bytes_in(mac_page_size)->0))
    } else {
        None
    }
}

/// Total and available physical memory from what the commands printed: on
/// Linux the total and the available bytes, on macOS the total bytes, the page
/// size and the number of free pages.
pub fn probe_memory(
    total: Option<&str>,
    available: Option<&str>,
    mac_total: Option<&str>,
    mac_page_size: Option<&str>,
    mac_pages: Option<&str>,
) -> (r: Option<MemoryInfo>)
    ensures
        match r {
            Some(m) => memory_in(
                llm::option_view(total),
                llm::option_view(available),
                llm::option_view(mac_total),
                llm::option_view(mac_page_size),
                llm::option_view(mac_pages),
            ) == Some((m.total as nat, m.available as nat)),
            None => memory_in(
                llm::option_view(total),
                llm::option_view(available),
                llm::option_view(mac_total),
                llm::option_view(mac_page_size),
                llm::option_view(mac_pages),
            ) is None,
        },
{
    if let (Some(t), Some(a)) = (available_memory_now(total), available_memory_now(available)) {
        return Some(MemoryInfo { total: t, available: a });
    }
    let t = available_memory_now(mac_total);
    let p = available_memory_now(mac_pages);
    let s = available_memory_now(mac_page_size);
    if let (Some(t), Some(p), Some(s)) = (t, p, s) {
        if let Some(free) = p.checked_mul(s) {
            return Some(MemoryInfo { total: t, available: free });
        }
    }
    None
}

/// How many browsers there is room for is how often the footprint goes into
/// the memory that is free, but for the rounding of doubles.
pub proof fn law_room_is_a_quotient(available: u64, footprint: u64)
    requires
        0 < available < 9007199254740992,
        MIN_FOOTPRINT * FOOTPRINT_UNIT <= footprint <= MAX_FOOTPRINT * FOOTPRINT_UNIT,
    ensures
        ({
            let k = room_for(available as nat, footprint as nat);
            &&& 9007199254740992 * (k * footprint) <= 9007199254740993 * (available * 33554432)
            &&& 9007199254740991 * (available * 33554432) < 9007199254740992 * ((k + 1) * footprint)
        }),
{
    numbers::lemma_small_whole(available as nat);
    let n = (available * FOOTPRINT_UNIT) as nat;
    assert(n < numbers::SIGNIFICAND_END * footprint) by (nonlinear_arith)
        requires
            n == available * 33554432,
            available < 9007199254740992,
            footprint >= 134217728 * 33554432,
            numbers::SIGNIFICAND_END == 9007199254740992,
    ;
    numbers::lemma_ratio_floor(n, footprint as nat);
}

/// A file that finished raises the limit wherever there is room. While the
/// footprint of a browser or the memory of the machine is unknown it goes up by
/// one, as far as the ramp goes; once both are known it is how often the
/// footprint goes into the memory that is free, held between the floor and the
/// number of threads. The slot of the browser is free again.
pub proof fn law_success_raises_the_limit(
    gate: Gate,
    attempt: u32,
    before: Option<u64>,
    after: Option<u64>,
)
    requires
        gate.wf(),
    ensures
        ({
            let (next, decision) = gate.settled(attempt, before, after, None);
            let measured = before is Some && after is Some && before->0 > after->0;
            let known = gate.footprint_count > 0 || measured;
            let seen = if after is Some {
                after
            } else if before is Some {
                before
            } else {
                gate.available
            };
            let free = if seen is Some {
                seen
            } else {
                gate.memory_total
            };
            &&& decision == Decision::Done
            &&& next.available == seen
            &&& gate.active > 0 ==> next.active == gate.active - 1
            &&& next.retry_backoff == gate.retry_backoff
            &&& !known || gate.memory_total is None || free == Some(0u64) ==> {
                &&& gate.limit < gate.ramp_ceiling ==> next.limit == gate.limit + 1
                &&& gate.limit >= gate.ramp_ceiling ==> next.limit == if gate.ramp_ceiling
                    < gate.lower {
                    gate.lower
                } else {
                    gate.ramp_ceiling
                }
            }
            &&& known && gate.memory_total is Some && 0 < free->0 < 9007199254740992 ==> {
                let bytes = free->0 * 33554432;
                &&& gate.lower <= next.limit <= gate.threads
                &&& next.limit > gate.lower ==> 9007199254740992 * (next.limit * next.footprint)
                    <= 9007199254740993 * bytes
                &&& next.limit < gate.threads ==> 9007199254740991 * bytes < 9007199254740992 * ((
                next.limit + 1) * next.footprint)
            }
        }),
{
    let (next, decision) = gate.settled(attempt, before, after, None);
    let known = gate.measured(before, after);
    lemma_measured_wf(gate, before, after);
    let free = if known.available is Some {
        known.available->0
    } else {
        known.memory_total->0
    };
    if known.footprint_count > 0 && gate.memory_total is Some && 0 < free < 9007199254740992 {
        law_room_is_a_quotient(free, known.footprint);
        let k = room_for(free as nat, known.footprint as nat);
        let f = known.footprint as int;
        let bytes = free * 33554432;
        let limit = next.limit as int;
        if limit > gate.lower {
            assert(limit <= k);
            assert(limit * f <= k * f) by (nonlinear_arith)
                requires
                    limit <= k,
                    0 <= f,
            ;
        }
        if limit < gate.threads {
            assert(k <= limit);
            assert((k + 1) * f <= (limit + 1) * f) by (nonlinear_arith)
                requires
                    k <= limit,
                    0 <= f,
            ;
        }
    }
}

/// What a launch measures keeps the invariant.
proof fn lemma_measured_wf(gate: Gate, before: Option<u64>, after: Option<u64>)
    requires
        gate.wf(),
    ensures
        gate.measured(before, after).wf(),
{
}

/// A failed launch halves the limit, as far as the floor, and makes the next
/// backoff longer, up to the longest; a retry waits for the backoff so far.
/// The slot of the browser is free again.
pub proof fn law_failure_backs_off(
    gate: Gate,
    attempt: u32,
    before: Option<u64>,
    after: Option<u64>,
    oom: bool,
)
    requires
        gate.wf(),
    ensures
        ({
            let (next, decision) = gate.settled(attempt, before, after, Some(oom));
            &&& next.limit == gate.lower || next.limit == gate.limit / 2
            &&& gate.lower <= next.limit
            &&& gate.limit / 2 <= next.limit
            &&& next.limit <= gate.limit
            &&& gate.retry_backoff + 600 <= 4000 ==> next.retry_backoff == gate.retry_backoff + 600
            &&& gate.retry_backoff + 600 > 4000 ==> next.retry_backoff == 4000
            &&& oom && attempt <= 3 ==> decision == Decision::Retry(
                if gate.retry_backoff < 600 {
                    600
                } else {
                    gate.retry_backoff
                },
            )
            &&& !oom || attempt > 3 ==> decision == Decision::GiveUp
            &&& gate.active > 0 ==> next.active == gate.active - 1
            &&& after is Some ==> next.available == after
        }),
{
}

/// The first sample of the footprint is taken as it is, between 128 MiB and
/// 2 GiB; without a drop in free memory nothing is learned.
pub proof fn law_first_sample_is_the_footprint(gate: Gate, before: Option<u64>, after: Option<u64>)
    requires
        gate.wf(),
    ensures
        ({
            let next = gate.measured(before, after);
            &&& before is Some && after is Some && before->0 > after->0 && gate.footprint_count == 0
                ==> {
                let delta = before->0 - after->0;
                &&& 134217728 <= delta <= 2147483648 ==> next.footprint == delta * 33554432
                &&& delta < 134217728 ==> next.footprint == 134217728 * 33554432
                &&& next.footprint_count == 1
            }
            &&& before is None || after is None || before->0 <= after->0 ==> next.footprint
                == gate.footprint && next.footprint_count == gate.footprint_count
        }),
{
    if before is Some && after is Some && before->0 > after->0 {
        let delta = (before->0 - after->0) as nat;
        if delta <= 2147483648 {
            numbers::lemma_small_whole(delta);
        }
    }
}

/// A later sample moves the footprint three tenths of the way towards it, to
/// within a byte.
pub proof fn law_footprint_follows_its_samples(footprint: u64, sample: u64)
    requires
        MIN_FOOTPRINT * FOOTPRINT_UNIT <= footprint <= MAX_FOOTPRINT * FOOTPRINT_UNIT,
        sample <= 0x100_0000_0000,
    ensures
        ({
            let next = averaged(footprint as nat, sample as nat);
            let exact = 7 * footprint + 3 * (sample * 33554432);
            exact - 10 * 33554432 <= 10 * next <= exact + 10 * 33554432
        }),
{
    let f = footprint as nat;
    let d = sample as nat;
    let end = 9007199254740992nat;
    numbers::lemma_small_whole(d);
    let p = f * KEPT_SHARE as nat;
    let q = d * SAMPLE_SHARE as nat;
    numbers::lemma_rounded_whole(p);
    numbers::lemma_rounded_whole(q);
    let kept = numbers::rounded_whole(p);
    let added = numbers::rounded_whole(q);
    let sum = kept + added * 16777216;
    numbers::lemma_rounded_whole(sum);
    let total = numbers::rounded_whole(sum);
    let next = total / end;
    assert(next == averaged(f, d));
    assert(p == f * 6305039478318694);
    assert(q == d * 5404319552844595);
    assert(next * end <= total < next * end + end) by (nonlinear_arith)
        requires
            next == total / end,
            end == 9007199254740992,
    ;
}

/// A manual count starts that many browsers, as far as there are files; auto
/// mode starts at its minimum and may go up to its maximum, 64 where there is
/// none, while memory is unknown to 8.
pub proof fn law_modes_bound_the_gate(k: usize, min: u32, max: u32, files: int)
    requires
        0 < files,
    ensures
        ({
            let manual = ParallelMode::Manual(k);
            &&& 1 <= k <= files ==> threads_of(manual, files) == k && floor_of(manual, files) == k
            &&& k > files ==> threads_of(manual, files) == files
            &&& k == 0 ==> threads_of(manual, files) == 1
        }),
        ({
            let auto = ParallelMode::Auto { min, max };
            let threads = threads_of(auto, files);
            &&& max == 0 && files <= 64 ==> threads == files
            &&& max == 0 && files > 64 ==> threads == 64
            &&& 0 < max <= files ==> threads == max
            &&& max > files ==> threads == files
            &&& 1 <= min <= threads ==> floor_of(auto, files) == min
            &&& min > threads ==> floor_of(auto, files) == threads
            &&& min == 0 ==> floor_of(auto, files) == 1
            &&& max == 0 && threads >= 8 ==> ramp_of(auto, files) == 8
            &&& max == 0 && threads < 8 || max > 0 ==> ramp_of(auto, files) == threads
        }),
{
}

/// A file waits exactly while one with the same declared group runs; files of
/// different declared groups never wait for one another.
pub proof fn law_only_groups_wait(state: SchedulerState, i: int, j: int)
    requires
        state.wf(),
        0 <= i < state.files@.len(),
        0 <= j < state.files@.len(),
        state.files@[i].config.concurrency_group is Some,
        state.files@[j].config.concurrency_group is Some,
    ensures
        ({
            let a = state.files@[i].config.concurrency_group->0@;
            let b = state.files@[j].config.concurrency_group->0@;
            &&& state.key(i) == state.key(j) <==> a == b
            &&& a == b && state.runs(j) ==> state.waits(i)
        }),
{
    if state.files@[i].config.concurrency_group->0@ == state.files@[j].config.concurrency_group->0@
        && state.runs(j) {
        let a = choose|a: int| 0 <= a < state.active@.len() && state.active@[a] == j;
        assert(state.key(state.active@[a] as int) == state.key(i));
    }
}

/// A file that waits does so for one that runs under the same key.
pub proof fn law_waiting_has_a_reason(state: SchedulerState, i: int)
    requires
        state.waits(i),
    ensures
        exists|j: int| #[trigger] state.runs(j) && state.key(j) == state.key(i),
{
    let a = choose|a: int|
        0 <= a < state.active@.len() && state.key(#[trigger] state.active@[a] as int) == state.key(
            i,
        );
    assert(state.runs(state.active@[a] as int));
}

/// A launch error is worth a retry if and only if its message holds one of the
/// words for exhausted memory.
pub proof fn law_memory_errors_are_told_by_their_words(lower: Seq<char>)
    ensures
        mentions_memory(lower) <==> (text::has_text(lower, "memory"@) || text::has_text(
            lower,
            "oom"@,
        ) || text::has_text(lower, "killed"@) || text::has_text(lower, "allocate"@) && (
        text::has_text(lower, "cannot allocate"@) || text::has_text(lower, "failed to allocate"@))
            || text::has_text(lower, "resource temporarily unavailable"@)),
{
    reveal_strlit("memory");
    reveal_strlit("out of memory");
    reveal_strlit("no memory");
    reveal_strlit("allocate");
    reveal_strlit("cannot allocate");
    reveal_strlit("failed to allocate");
    text::lemma_part_occurs(lower, "out of memory"@, "memory"@, 7);
    text::lemma_part_occurs(lower, "no memory"@, "memory"@, 3);
    text::lemma_part_occurs(lower, "cannot allocate"@, "allocate"@, 7);
    text::lemma_part_occurs(lower, "failed to allocate"@, "allocate"@, 10);
}

/// Every run of a batch counts once, in order, and files without a run count
/// for nothing: one more run adds its tests, steps and details.
pub proof fn law_merged_runs_add_up(results: Seq<Option<ParallelRun>>, run: ParallelRun)
    ensures
        recorded(results.push(None)) == recorded(results),
        ({
            let runs = recorded(results);
            let more = recorded(results.push(Some(run)));
            &&& sum_of(more, tests_passed()) == sum_of(runs, tests_passed())
                + run.report.tests_passed
            &&& sum_of(more, tests_failed()) == sum_of(runs, tests_failed())
                + run.report.tests_failed
            &&& sum_of(more, steps_passed()) == sum_of(runs, steps_passed()) + run.report.passed
            &&& sum_of(more, steps_failed()) == sum_of(runs, steps_failed()) + run.report.failed
            &&& sum_of(more, steps_skipped()) == sum_of(runs, steps_skipped()) + run.report.skipped
            &&& all_details(more) == all_details(runs) + run.report.details@
            &&& all_tests(more) == all_tests(runs) + run.per_test@
            &&& all_globals(more) == all_globals(runs).push(run.global)
        }),
        recorded(Seq::empty()) == Seq::<ParallelRun>::empty(),
        sum_of(Seq::empty(), tests_passed()) == 0,
        sum_of(Seq::empty(), tests_failed()) == 0,
        sum_of(Seq::empty(), steps_passed()) == 0,
        sum_of(Seq::empty(), steps_failed()) == 0,
        sum_of(Seq::empty(), steps_skipped()) == 0,
        all_details(Seq::empty()).len() == 0,
        all_tests(Seq::empty()).len() == 0,
{
    assert(results.push(None).drop_last() =~= results);
    assert(results.push(Some(run)).drop_last() =~= results);
    let runs = recorded(results);
    assert(runs.push(run).drop_last() =~= runs);
    assert(all_globals(runs.push(run)) =~= all_globals(runs).push(run.global));
}

/// Merging usage adds the counts of one more snapshot to those so far, in
/// total and for each endpoint.
pub proof fn law_merged_usage_adds_up(s: Seq<UsageSnapshot>, more: UsageSnapshot, name: Seq<char>)
    requires
        more.wf(),
    ensures
        merged_calls(s.push(more)) == merged_calls(s) + more.total_calls,
        merged_tokens(s.push(more)) == merged_tokens(s) + more.total_tokens,
        merged_cost(s.push(more)) == merged_cost(s) + costs::sum_cost(
            more.endpoints@,
        ),
        merged_usage(s.push(more), name) == costs::plus(
            merged_usage(s, name),
            costs::usage_of(more.endpoints@, name),
        ),
        merged_calls(Seq::empty()) == 0,
        merged_tokens(Seq::empty()) == 0,
        merged_cost(Seq::empty()) == 0,
        merged_usage(Seq::empty(), name) == costs::no_usage(),
{
    assert(s.push(more).drop_last() =~= s);
}

/// Memory is known where both figures can be read, or else where those of the
/// other system can; space around a figure does not count.
pub proof fn law_memory_is_read_from_figures(total: u64, available: u64, pages: u64, size: u64)
    ensures
        memory_in(
            Some(text::dec(total as nat)),
            Some(text::dec(available as nat)),
            None,
            None,
            None,
        ) == Some((total as nat, available as nat)),
        pages * size <= u64::MAX ==> memory_in(
            None,
            None,
            Some(text::dec(total as nat)),
            Some(text::dec(size as nat)),
            Some(text::dec(pages as nat)),
        ) == Some((total as nat, (pages * size) as nat)),
        memory_in(Some(text::dec(total as nat)), None, None, None, None) is None,
        memory_in(None, None, None, None, None) is None,
{
    lemma_figure(total);
    lemma_figure(available);
    lemma_figure(pages);
    lemma_figure(size);
}

/// A figure that was written is read back.
proof fn lemma_figure(n: u64)
    ensures
        bytes_in(Some(text::dec(n as nat))) == Some(n as nat),
{
    let s = text::dec(n as nat);
    text::lemma_dec_value(n as nat);
    assert('0' <= s[0] <= '9');
    assert('0' <= s[s.len() - 1] <= '9');
    text::law_trimmed_text_stays(s);
    text::law_written_numbers_read_back(n as nat, u64::MAX as nat);
}

/// The runs that were recorded are those that there are, in the order of
/// their files.
pub proof fn law_recorded_runs_keep_their_order(
    results: Seq<Option<ParallelRun>>,
    run: ParallelRun,
)
    ensures
        recorded(Seq::empty()).len() == 0,
        recorded(results.push(Some(run))) == recorded(results).push(run),
        recorded(results.push(None)) == recorded(results),
{
    assert(results.push(Some(run)).drop_last() =~= results);
    assert(results.push(None).drop_last() =~= results);
}

/// The tests of all files are counted.
pub proof fn law_tests_of_every_file_count(files: Seq<ScenarioFile>, file: ScenarioFile)
    ensures
        tests_in(Seq::empty()) == 0,
        tests_in(files.push(file)) == tests_in(files) + file.tests@.len(),
{
    assert(files.push(file).drop_last() =~= files);
}

/// A count that is given is kept, and is one at least; without one the limits
/// are, with one browser at least.
pub proof fn law_given_counts_are_kept(parallel: Option<u32>, min: u32, max: u32)
    ensures
        parallel matches Some(k) ==> (mode_of(parallel, min, max) matches ParallelMode::Manual(n)
            && n >= 1 && (k >= 1 ==> n == k) && (k == 0 ==> n == 1)),
        parallel is None ==> (mode_of(parallel, min, max) matches ParallelMode::Auto {
            min: a,
            max: b,
        } && a >= 1 && b == max && (min >= 1 ==> a == min) && (min == 0 ==> a == 1)),
{
}

/// A browser may be launched if and only if a slot is free and there is memory
/// for it: a quarter of a gibibyte, and what a browser was seen to need. Where
/// the memory is not known it holds nothing back.
pub proof fn law_memory_holds_launches_back(gate: Gate)
    ensures
        gate.may_launch() <==> gate.active < gate.limit && (gate.available is None || {
            &&& gate.available->0 >= 268435456
            &&& gate.footprint_count > 0 ==> gate.available->0 >= gate.footprint / 33554432
        }),
{
}

/// A worker is given the first file that is not started and whose group does
/// not run; it waits only while all that are left must wait, and is done only
/// when every file was started. What it is given runs from then on, and no file
/// is given out twice.
pub proof fn law_first_free_file_is_given(
    before: SchedulerState,
    r: Claim,
    after: SchedulerState,
    k: int,
)
    requires
        before.wf(),
        before.hands_out(r, after),
        0 <= k < before.files@.len(),
    ensures
        r matches Claim::Take(i) ==> {
            &&& !before.started@[i as int] && after.started@[i as int]
            &&& !before.waits(i as int)
            &&& after.runs(i as int)
            &&& k != i ==> after.started@[k] == before.started@[k]
            &&& k < i && !before.started@[k] ==> before.waits(k)
            &&& before.runs(k) ==> after.runs(k)
        },
        r is Wait ==> before.started@[k] || before.waits(k),
        r is Done ==> before.started@[k],
        !before.started@[k] && !before.waits(k) ==> r is Take,
        !before.started@[k] ==> !(r is Done),
{
    if let Claim::Take(i) = r {
        assert(after.active@[before.active@.len() as int] == i);
        if before.runs(k) {
            let a = choose|a: int|
                0 <= a < before.active@.len() && #[trigger] before.active@[a] == k;
            assert(after.active@[a] == k);
        }
    }
}

/// A file that is done no longer runs, and its group is free again; the others
/// run on.
pub proof fn law_finished_files_free_their_group(
    before: SchedulerState,
    i: int,
    after: SchedulerState,
    k: int,
)
    requires
        before.wf(),
        before.runs(i),
        after.files == before.files,
        after.wf(),
        before.gives_back(i, after),
    ensures
        !after.runs(i),
        before.runs(k) && k != i ==> after.runs(k),
        before.key(k) == before.key(i) ==> !after.waits(k),
{
    if before.key(k) == before.key(i) && after.waits(k) {
        let a = choose|a: int|
            0 <= a < after.active@.len() && after.key(#[trigger] after.active@[a] as int)
                == after.key(k);
        let j = after.active@[a] as int;
        assert(after.runs(j));
        assert(before.runs(j) && j != i);
        law_groups_are_exclusive(before, i, j);
    }
}

/// When a file is done one fewer runs.
pub proof fn law_finishing_makes_room(before: SchedulerState, i: int, after: SchedulerState)
    requires
        before.gives_back(i, after),
    ensures
        after.active@.len() + 1 == before.active@.len(),
{
}

/// Memory is not guessed: where one of the figures is missing it is not known.
pub proof fn law_memory_is_not_guessed(a: Seq<char>, b: Seq<char>)
    ensures
        memory_in(None, Some(a), None, None, None) is None,
        memory_in(None, None, Some(a), None, None) is None,
        memory_in(None, None, Some(a), Some(b), None) is None,
        memory_in(None, None, Some(a), None, Some(b)) is None,
        memory_in(None, None, None, Some(a), Some(b)) is None,
{
}

} // verus!
