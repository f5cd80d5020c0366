//! The scheduler: grouping channels by refresh interval, planning a spawn,
//! and the per-group repeating task as a state machine.
//!
//! The surrounding application owns the timers, the threads and the stop
//! signal; it drives one `IntervalRunner` per group and performs the actions
//! the machine hands back. Reconfiguration is stop-and-respawn: there is no
//! incremental update.

use vstd::prelude::*;

use crate::settings::{Channel, Settings};

verus! {

/// One group of channels sharing a refresh period.
pub struct IntervalInfo {
    pub ms: u64,
    pub channels: Vec<ChannelInfo>,
}

/// What the ingestion of one channel needs to know.
pub struct ChannelInfo {
    pub name: String,
    pub uploads_playlist_id: String,
    pub from_time: i64,
}

/// The part of a channel configuration that its group carries.
pub open spec fn info_of(c: Channel) -> ChannelInfo {
    ChannelInfo { name: c.name, uploads_playlist_id: c.uploads_playlist_id, from_time: c.from_time }
}

/// The distinct refresh rates of the configuration, in first-appearance order.
pub open spec fn rates_of(channels: Seq<Channel>) -> Seq<u64>
    decreases channels.len(),
{
    if channels.len() == 0 {
        Seq::empty()
    } else {
        let rest = rates_of(channels.drop_last());
        if rest.contains(channels.last().refresh_rate_ms) {
            rest
        } else {
            rest.push(channels.last().refresh_rate_ms)
        }
    }
}

/// The members of one group: the channels with exactly this refresh rate, in
/// configuration order.
pub open spec fn group_of(channels: Seq<Channel>, ms: u64) -> Seq<ChannelInfo>
    decreases channels.len(),
{
    if channels.len() == 0 {
        Seq::empty()
    } else {
        let rest = group_of(channels.drop_last(), ms);
        if channels.last().refresh_rate_ms == ms {
            rest.push(info_of(channels.last()))
        } else {
            rest
        }
    }
}

/// The number of channels over a list of groups.
pub open spec fn total_grouped(channels: Seq<Channel>, rates: Seq<u64>) -> nat
    decreases rates.len(),
{
    if rates.len() == 0 {
        0
    } else {
        total_grouped(channels, rates.drop_last()) + group_of(channels, rates.last()).len()
    }
}

fn contains_u64(v: &Vec<u64>, x: u64) -> (r: bool)
    ensures
        r == v@.contains(x),
{
    let n = v.len();
    let mut i: usize = 0;
    while i < n
        invariant
            0 <= i <= n,
            n == v@.len(),
            forall|k: int| 0 <= k < i ==> v@[k] != x,
        decreases n - i,
    {
        if v[i] == x {
            return true;
        }
        i = i + 1;
    }
    false
}

/// Group the configuration by exact equality of the refresh rate, one group
/// per distinct rate, rates in first-appearance order, each group holding its
/// channels in configuration order.
pub fn new_intervals_map(channels: &Vec<Channel>) -> (r: Vec<IntervalInfo>)
    ensures
        r@.len() == rates_of(channels@).len(),
        forall|i: int|
            0 <= i < r@.len() ==> (#[trigger] r@[i]).ms == rates_of(channels@)[i] && r@[i].channels@
                == group_of(channels@, rates_of(channels@)[i]),
{
    let n = channels.len();
    let mut rates: Vec<u64> = Vec::new();
    let mut i: usize = 0;
    while i < n
        invariant
            0 <= i <= n,
            n == channels@.len(),
            rates@ == rates_of(channels@.take(i as int)),
        decreases n - i,
    {
        let rate = channels[i].refresh_rate_ms;
        proof {
            assert(channels@.take(i as int + 1).drop_last() =~= channels@.take(i as int));
            assert(channels@.take(i as int + 1).last() == channels@[i as int]);
        }
        if !contains_u64(&rates, rate) {
            rates.push(rate);
        }
        i = i + 1;
    }
    proof {
        assert(channels@.take(n as int) =~= channels@);
    }
    let m = rates.len();
    let mut result: Vec<IntervalInfo> = Vec::new();
    let mut g: usize = 0;
    while g < m
        invariant
            0 <= g <= m,
            m == rates@.len(),
            n == channels@.len(),
            rates@ == rates_of(channels@),
            result@.len() == g,
            forall|t: int|
                0 <= t < g ==> (#[trigger] result@[t]).ms == rates@[t] && result@[t].channels@
                    == group_of(channels@, rates@[t]),
        decreases m - g,
    {
        let rate = rates[g];
        let mut infos: Vec<ChannelInfo> = Vec::new();
        let mut j: usize = 0;
        while j < n
            invariant
                0 <= j <= n,
                n == channels@.len(),
                infos@ == group_of(channels@.take(j as int), rate),
            decreases n - j,
        {
            proof {
                assert(channels@.take(j as int + 1).drop_last() =~= channels@.take(j as int));
                assert(channels@.take(j as int + 1).last() == channels@[j as int]);
            }
            let c = &channels[j];
            if c.refresh_rate_ms == rate {
                infos.push(
                    ChannelInfo {
                        name: c.name.clone(),
                        uploads_playlist_id: c.uploads_playlist_id.clone(),
                        from_time: c.from_time,
                    },
                );
                proof {
                    assert(infos@.last() == info_of(channels@[j as int]));
                    assert(infos@ =~= group_of(channels@.take(j as int + 1), rate));
                }
            }
            j = j + 1;
        }
        proof {
            assert(channels@.take(n as int) =~= channels@);
        }
        result.push(IntervalInfo { ms: rate, channels: infos });
        g = g + 1;
    }
    result
}

proof fn lemma_group_push(channels: Seq<Channel>, c: Channel, ms: u64)
    ensures
        group_of(channels.push(c), ms) == if c.refresh_rate_ms == ms {
            group_of(channels, ms).push(info_of(c))
        } else {
            group_of(channels, ms)
        },
{
    assert(channels.push(c).drop_last() =~= channels);
    assert(channels.push(c).last() == c);
}

proof fn lemma_total_push(channels: Seq<Channel>, c: Channel, rates: Seq<u64>)
    requires
        forall|i: int, j: int| 0 <= i < j < rates.len() ==> rates[i] != rates[j],
    ensures
        total_grouped(channels.push(c), rates) == total_grouped(channels, rates) + (
        if rates.contains(c.refresh_rate_ms) {
            1nat
        } else {
            0nat
        }),
    decreases rates.len(),
{
    if rates.len() == 0 {
    } else {
        let init = rates.drop_last();
        let last = rates.last();
        lemma_total_push(channels, c, init);
        lemma_group_push(channels, c, last);
        if rates.contains(c.refresh_rate_ms) {
            let k = choose|k: int| 0 <= k < rates.len() && rates[k] == c.refresh_rate_ms;
            if k == rates.len() - 1 {
                assert(!init.contains(c.refresh_rate_ms)) by {
                    if init.contains(c.refresh_rate_ms) {
                        let k2 = choose|k2: int|
                            0 <= k2 < init.len() && init[k2] == c.refresh_rate_ms;
                        assert(rates[k2] == rates[k]);
                    }
                }
            } else {
                assert(init[k] == c.refresh_rate_ms);
                assert(init.contains(c.refresh_rate_ms));
                assert(last != c.refresh_rate_ms);
            }
        } else {
            assert(!init.contains(c.refresh_rate_ms)) by {
                if init.contains(c.refresh_rate_ms) {
                    let k2 = choose|k2: int| 0 <= k2 < init.len() && init[k2] == c.refresh_rate_ms;
                    assert(rates[k2] == c.refresh_rate_ms);
                }
            }
            assert(last != c.refresh_rate_ms);
        }
    }
}

/// Grouping partitions the configuration exactly: the rates are distinct,
/// every channel's rate has a group, a rate that never occurs has an empty
/// group, and the group sizes add up to the whole configuration, so every
/// channel stands in exactly one group.
pub proof fn lemma_grouping_partitions(channels: Seq<Channel>)
    ensures
        forall|i: int, j: int|
            0 <= i < j < rates_of(channels).len() ==> rates_of(channels)[i] != rates_of(
                channels,
            )[j],
        forall|k: int|
            0 <= k < channels.len() ==> rates_of(channels).contains(
                #[trigger] channels[k].refresh_rate_ms,
            ),
        forall|ms: u64|
            !rates_of(channels).contains(ms) ==> (#[trigger] group_of(channels, ms)).len() == 0,
        total_grouped(channels, rates_of(channels)) == channels.len(),
    decreases channels.len(),
{
    if channels.len() == 0 {
    } else {
        let cs = channels.drop_last();
        let c = channels.last();
        lemma_grouping_partitions(cs);
        assert(cs.push(c) =~= channels);
        let old_rates = rates_of(cs);
        let new_rates = rates_of(channels);
        assert(new_rates == if old_rates.contains(c.refresh_rate_ms) {
            old_rates
        } else {
            old_rates.push(c.refresh_rate_ms)
        });
        // every old rate is still present, under its old index
        assert forall|x: u64| old_rates.contains(x) implies new_rates.contains(x) by {
            let k = choose|k: int| 0 <= k < old_rates.len() && old_rates[k] == x;
            assert(new_rates[k] == x);
        }
        // channel coverage
        assert forall|k: int| 0 <= k < channels.len() implies new_rates.contains(
            #[trigger] channels[k].refresh_rate_ms,
        ) by {
            if k < cs.len() {
                assert(cs[k] == channels[k]);
                assert(old_rates.contains(channels[k].refresh_rate_ms));
            } else {
                if old_rates.contains(c.refresh_rate_ms) {
                } else {
                    assert(new_rates.last() == c.refresh_rate_ms);
                }
            }
        }
        // absent rates have empty groups
        assert forall|ms: u64| !new_rates.contains(ms) implies (#[trigger] group_of(
            channels,
            ms,
        )).len() == 0 by {
            assert(!old_rates.contains(ms));
            assert(ms != c.refresh_rate_ms) by {
                if ms == c.refresh_rate_ms {
                    if old_rates.contains(c.refresh_rate_ms) {
                        assert(new_rates.contains(ms));
                    } else {
                        assert(new_rates.last() == ms);
                    }
                }
            }
            lemma_group_push(cs, c, ms);
        }
        // the group sizes add up
        if old_rates.contains(c.refresh_rate_ms) {
            lemma_total_push(cs, c, old_rates);
            assert(total_grouped(channels, new_rates) == cs.len() + 1);
        } else {
            lemma_total_push(cs, c, old_rates);
            assert(total_grouped(channels, old_rates) == cs.len());
            assert(new_rates.drop_last() =~= old_rates);
            assert(new_rates.last() == c.refresh_rate_ms);
            assert(total_grouped(channels, new_rates) == total_grouped(channels, old_rates)
                + group_of(channels, c.refresh_rate_ms).len());
            lemma_group_push(cs, c, c.refresh_rate_ms);
            assert(group_of(cs, c.refresh_rate_ms).len() == 0);
        }
    }
}

/// The key the scheduler will poll with.
pub open spec fn spec_effective_key(settings: Settings) -> Seq<char> {
    if settings.api_key@.len() == 0 {
        "SECRET-REDACTED"@
    } else {
        settings.api_key@
    }
}

/// Everything the application needs to start the group tasks.
pub struct SpawnPlan {
    pub key: String,
    pub run_once: bool,
    pub intervals: Vec<IntervalInfo>,
}

/// The plan is exactly the grouping of the given settings.
pub open spec fn plan_matches(p: SpawnPlan, settings: Settings, run_once: bool) -> bool {
    &&& p.run_once == run_once
    &&& p.key@ == spec_effective_key(settings)
    &&& p.intervals@.len() == rates_of(settings.channels@).len()
    &&& forall|i: int|
        0 <= i < p.intervals@.len() ==> (#[trigger] p.intervals@[i]).ms == rates_of(
            settings.channels@,
        )[i] && p.intervals@[i].channels@ == group_of(
            settings.channels@,
            rates_of(settings.channels@)[i],
        )
}

fn spawn_plan(settings: &Settings, run_once: bool) -> (r: Option<SpawnPlan>)
    ensures
        r is None <==> settings.channels@.len() == 0,
        r matches Some(p) ==> plan_matches(p, *settings, run_once),
{
    if settings.channels.is_empty() {
        return None;
    }
    let intervals = new_intervals_map(&settings.channels);
    Some(SpawnPlan { key: settings.api_key_or_default(), run_once, intervals })
}

/// The plan for the normal cadence: nothing when background checking is off
/// or no channel is configured; otherwise one repeating task per group.
pub fn spawn_bg(settings: &Settings) -> (r: Option<SpawnPlan>)
    ensures
        r is Some <==> (settings.check_in_background && settings.channels@.len() != 0),
        r matches Some(p) ==> plan_matches(p, *settings, false),
{
    if settings.check_in_background {
        spawn_plan(settings, false)
    } else {
        None
    }
}

/// The plan for an on-demand check: with background checking on, the normal
/// cadence; with it off, a single pass over every group.
pub fn spawn_bg_or_check_now(settings: &Settings) -> (r: Option<SpawnPlan>)
    ensures
        r is Some <==> settings.channels@.len() != 0,
        r matches Some(p) ==> plan_matches(p, *settings, !settings.check_in_background),
{
    if settings.check_in_background {
        spawn_plan(settings, false)
    } else {
        spawn_plan(settings, true)
    }
}

/// Where a group task stands.
#[derive(Clone, Copy, Debug, PartialEq, Eq, Structural)]
pub enum RunnerState {
    /// Waiting for the next tick or a stop signal.
    Waiting,
    /// Ingesting the group's channels, one at a time; `next` is the channel
    /// being ingested.
    Running { next: usize },
    /// Stopped for good: after a stop signal, or after the single pass of a
    /// run-once task.
    Stopped,
}

/// What the application reports to the machine.
#[derive(Clone, Copy, Debug, PartialEq, Eq, Structural)]
pub enum RunnerEvent {
    /// The period elapsed.
    Tick,
    /// The stop signal was observed.
    StopObserved,
    /// The ingestion of the current channel ran to completion: it is never
    /// interrupted mid-flight, whether it succeeded or failed. A failure is
    /// reported to the notify sink and does not stop the loop or the other
    /// channels.
    ChannelDone,
}

/// What the application must do next.
#[derive(Clone, Copy, Debug, PartialEq, Eq, Structural)]
pub enum RunnerAction {
    /// Race the next tick against the stop signal.
    WaitTick,
    /// Ingest the channel with this index, to completion.
    IngestChannel(usize),
    /// The task is done; exit.
    Exit,
}

/// The repeating task for one interval group.
pub struct IntervalRunner {
    pub run_once: bool,
    pub channel_count: usize,
    pub state: RunnerState,
}

impl IntervalRunner {
    pub open spec fn wf(&self) -> bool {
        self.state matches RunnerState::Running { next } ==> next < self.channel_count
    }

    /// Start a task: a run-once task ingests immediately and ends after one
    /// pass; a repeating task first waits for a tick.
    pub fn new(run_once: bool, channel_count: usize) -> (r: (Self, RunnerAction))
        ensures
            r.0.wf(),
            r.0.run_once == run_once,
            r.0.channel_count == channel_count,
            run_once && channel_count > 0 ==> r.0.state == (RunnerState::Running { next: 0 })
                && r.1 == RunnerAction::IngestChannel(0),
            run_once && channel_count == 0 ==> r.0.state == RunnerState::Stopped && r.1
                == RunnerAction::Exit,
            !run_once ==> r.0.state == RunnerState::Waiting && r.1 == RunnerAction::WaitTick,
    {
        if run_once {
            if channel_count > 0 {
                (
                    IntervalRunner { run_once, channel_count, state: RunnerState::Running { next: 0 } },
                    RunnerAction::IngestChannel(0),
                )
            } else {
                (
                    IntervalRunner { run_once, channel_count, state: RunnerState::Stopped },
                    RunnerAction::Exit,
                )
            }
        } else {
            (
                IntervalRunner { run_once, channel_count, state: RunnerState::Waiting },
                RunnerAction::WaitTick,
            )
        }
    }

    /// One transition. Cancellation is coarse: a stop is observed between
    /// ticks or between channels, never inside the ingestion of one channel,
    /// and wins as soon as it is observed. A missed tick is the
    /// application's concern (it delays to the next full period); the machine
    /// sees one `Tick` per pass.
    pub fn step(&mut self, event: RunnerEvent) -> (a: RunnerAction)
        requires
            old(self).wf(),
            event is Tick ==> old(self).state is Waiting,
            event is ChannelDone ==> old(self).state is Running,
            event is StopObserved ==> !(old(self).state is Stopped),
        ensures
            final(self).wf(),
            final(self).run_once == old(self).run_once,
            final(self).channel_count == old(self).channel_count,
            event is StopObserved ==> final(self).state == RunnerState::Stopped && a
                == RunnerAction::Exit,
            event is Tick && old(self).channel_count > 0 ==> final(self).state == (
            RunnerState::Running { next: 0 }) && a == RunnerAction::IngestChannel(0),
            event is Tick && old(self).channel_count == 0 && old(self).run_once
                ==> final(self).state == RunnerState::Stopped && a == RunnerAction::Exit,
            event is Tick && old(self).channel_count == 0 && !old(self).run_once
                ==> final(self).state == RunnerState::Waiting && a == RunnerAction::WaitTick,
            event is ChannelDone ==> (old(self).state matches RunnerState::Running { next }
                && if next + 1 < old(self).channel_count {
                final(self).state == (RunnerState::Running { next: (next + 1) as usize }) && a
                    == RunnerAction::IngestChannel((next + 1) as usize)
            } else if old(self).run_once {
                final(self).state == RunnerState::Stopped && a == RunnerAction::Exit
            } else {
                final(self).state == RunnerState::Waiting && a == RunnerAction::WaitTick
            }),
    {
        match event {
            RunnerEvent::StopObserved => {
                self.state = RunnerState::Stopped;
                RunnerAction::Exit
            },
            RunnerEvent::Tick => {
                if self.channel_count > 0 {
                    self.state = RunnerState::Running { next: 0 };
                    RunnerAction::IngestChannel(0)
                } else if self.run_once {
                    self.state = RunnerState::Stopped;
                    RunnerAction::Exit
                } else {
                    self.state = RunnerState::Waiting;
                    RunnerAction::WaitTick
                }
            },
            RunnerEvent::ChannelDone => {
                let next = match self.state {
                    RunnerState::Running { next } => next,
                    _ => 0,
                };
                if next + 1 < self.channel_count {
                    self.state = RunnerState::Running { next: next + 1 };
                    RunnerAction::IngestChannel(next + 1)
                } else if self.run_once {
                    self.state = RunnerState::Stopped;
                    RunnerAction::Exit
                } else {
                    self.state = RunnerState::Waiting;
                    RunnerAction::WaitTick
                }
            },
        }
    }
}

} // verus!
