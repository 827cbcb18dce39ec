//! The periodic background tasks: what each one does on a tick and how often
//! it ticks. The ticking itself (timers, spawning) is the caller's.
use vstd::prelude::*;

verus! {

/// Seconds between two cleanups of the load balancer's state.
pub const CLEANUP_PERIOD_SECS: u64 = 60;

/// Seconds between two checks for the daily statistics aggregation.
pub const AGGREGATION_CHECK_SECS: u64 = 3600;

/// Hour of the day (UTC) at which the daily statistics are aggregated.
pub const AGGREGATION_HOUR: u32 = 2;

/// A cleanup of the load balancer's state.
#[derive(Debug, Clone, Copy, PartialEq, Eq, Structural)]
pub enum CleanupTask {
    /// Drop sticky sessions whose time is up.
    ExpiredSessions,
    /// Lift blacklistings whose time is up.
    ExpiredBlacklists,
}

/// Runs the periodic cleanups of a load balancer state.
pub struct Scheduler<L> {
    lb_state: L,
}

impl<L> Scheduler<L> {
    /// The state this scheduler cleans up.
    pub closed spec fn state(&self) -> L {
        self.lb_state
    }

    /// A scheduler for `lb_state`.
    pub fn new(lb_state: L) -> (r: Self)
        ensures
            r.state() == lb_state,
    {
        Scheduler { lb_state }
    }

    /// The state this scheduler cleans up.
    pub fn lb_state(&self) -> (r: &L)
        ensures
            *r == self.state(),
    {
        &self.lb_state
    }

    /// Seconds between two cleanups.
    pub fn period_secs(&self) -> (r: u64)
        ensures
            r == CLEANUP_PERIOD_SECS,
    {
        CLEANUP_PERIOD_SECS
    }

    /// The cleanups of one tick, in order: sessions, then blacklists.
    pub fn tick_tasks(&self) -> (r: Vec<CleanupTask>)
        ensures
            r@ == seq![CleanupTask::ExpiredSessions, CleanupTask::ExpiredBlacklists],
    {
        vec![CleanupTask::ExpiredSessions, CleanupTask::ExpiredBlacklists]
    }
}

/// Refreshes the model registry's prices from its providers at a fixed
/// interval of hours.
pub struct PricingRefresher<R> {
    registry: R,
    cache_path: String,
    providers: Vec<String>,
    refresh_interval_hours: u64,
}

impl<R> PricingRefresher<R> {
    /// The registry refreshed.
    pub closed spec fn registry_spec(&self) -> R {
        self.registry
    }

    /// Where fetched prices are cached.
    pub closed spec fn cache_path_spec(&self) -> Seq<char> {
        self.cache_path@
    }

    /// The providers whose prices are fetched.
    pub closed spec fn providers_spec(&self) -> Seq<String> {
        self.providers@
    }

    /// Hours between two refreshes.
    pub closed spec fn interval_hours(&self) -> u64 {
        self.refresh_interval_hours
    }

    /// A refresher of `registry` from `providers`, caching in `cache_path`,
    /// every `refresh_interval_hours` hours.
    pub fn new(registry: R, cache_path: String, providers: Vec<String>, refresh_interval_hours: u64) -> (r: Self)
        ensures
            r.registry_spec() == registry,
            r.cache_path_spec() == cache_path@,
            r.providers_spec() == providers@,
            r.interval_hours() == refresh_interval_hours,
    {
        PricingRefresher { registry, cache_path, providers, refresh_interval_hours }
    }

    /// The registry refreshed.
    pub fn registry(&self) -> (r: &R)
        ensures
            *r == self.registry_spec(),
    {
        &self.registry
    }

    /// Where fetched prices are cached.
    pub fn cache_path(&self) -> (r: &str)
        ensures
            r@ == self.cache_path_spec(),
    {
        self.cache_path.as_str()
    }

    /// The providers whose prices are fetched.
    pub fn providers(&self) -> (r: &Vec<String>)
        ensures
            r@ == self.providers_spec(),
    {
        &self.providers
    }

    /// Seconds between two refreshes. A period of zero cannot be timed, and
    /// one past `u64` seconds cannot be counted.
    pub fn period_secs(&self) -> (r: u64)
        requires
            1 <= self.interval_hours(),
            self.interval_hours() * 3600 <= u64::MAX,
        ensures
            r == self.interval_hours() * 3600,
    {
        self.refresh_interval_hours * 3600
    }
}

/// Whether the daily statistics are aggregated at this hour and minute (UTC):
/// at any minute of the aggregation hour.
pub fn aggregation_due(hour: u32, minute: u32) -> (r: bool)
    ensures
        r == (hour == AGGREGATION_HOUR && minute < 60),
{
    hour == AGGREGATION_HOUR && minute < 60
}

} // verus!
