//! When to pull a fresh snapshot and when to ask for a repaint.
//!
//! Times are milliseconds on a monotonic clock.
use vstd::prelude::*;

verus! {

/// Least time between two snapshot pulls, in milliseconds.
pub const REFRESH_INTERVAL_MS: u64 = 1000;

/// The refresh clock: no refresh yet, or the time of the last one.
#[derive(PartialEq, Eq, Structural, Clone, Copy, Debug)]
pub enum RefreshState {
    Idle,
    Tracking(u64),
}

/// A second or more has passed since the refresh at `last`; a clock reading
/// before `last` counts as no time passed.
pub open spec fn interval_elapsed(last: u64, now: u64) -> bool {
    now as int - last as int >= REFRESH_INTERVAL_MS as int
}

/// Whether a redraw at `now` pulls a snapshot.
pub open spec fn refresh_due(s: RefreshState, now: u64) -> bool {
    match s {
        RefreshState::Idle => true,
        RefreshState::Tracking(last) => interval_elapsed(last, now),
    }
}

/// The clock after a redraw at `now`.
pub open spec fn after_redraw(s: RefreshState, now: u64) -> RefreshState {
    if refresh_due(s, now) {
        RefreshState::Tracking(now)
    } else {
        s
    }
}

/// Whether the idle tick asks for a repaint at `now`.
pub open spec fn repaint_due(s: RefreshState, now: u64) -> bool {
    match s {
        RefreshState::Idle => false,
        RefreshState::Tracking(last) => interval_elapsed(last, now),
    }
}

/// The times at which snapshots are pulled when redraws arrive at `times`,
/// starting from clock `s`.
pub open spec fn pull_times(s: RefreshState, times: Seq<u64>) -> Seq<u64>
    decreases times.len(),
{
    if times.len() == 0 {
        Seq::empty()
    } else {
        let rest = pull_times(after_redraw(s, times[0]), times.drop_first());
        if refresh_due(s, times[0]) {
            seq![times[0]] + rest
        } else {
            rest
        }
    }
}

/// Decides, for each redraw and each idle tick, whether data is refreshed
/// and whether a repaint is requested.
pub struct FrameScheduler {
    pub state: RefreshState,
}

impl FrameScheduler {
    /// A scheduler that has not refreshed yet.
    pub fn new() -> (r: Self)
        ensures
            r.state == RefreshState::Idle,
    {
        FrameScheduler { state: RefreshState::Idle }
    }

    /// A redraw is processed at `now`: returns whether a snapshot must be
    /// pulled, and records `now` as the last refresh when it must.
    pub fn on_redraw(&mut self, now: u64) -> (pull: bool)
        ensures
            pull == refresh_due(old(self).state, now),
            final(self).state == after_redraw(old(self).state, now),
    {
        let pull = match self.state {
            RefreshState::Idle => true,
            RefreshState::Tracking(last) => now >= last && now - last >= REFRESH_INTERVAL_MS,
        };
        if pull {
            self.state = RefreshState::Tracking(now);
        }
        pull
    }

    /// Whether the idle tick at `now` must request a repaint, so that the
    /// table keeps refreshing without input.
    pub fn wants_redraw(&self, now: u64) -> (r: bool)
        ensures
            r == repaint_due(self.state, now),
    {
        match self.state {
            RefreshState::Idle => false,
            RefreshState::Tracking(last) => now >= last && now - last >= REFRESH_INTERVAL_MS,
        }
    }
}

/// Every pull that follows a refresh at `last` comes a second or more after
/// it, and consecutive pulls are a second or more apart.
pub proof fn lemma_pulls_spaced(s: RefreshState, times: Seq<u64>)
    ensures
        forall|k: int|
            0 <= k < pull_times(s, times).len() - 1 ==> interval_elapsed(
                #[trigger] pull_times(s, times)[k],
                pull_times(s, times)[k + 1],
            ),
        s is Tracking && pull_times(s, times).len() > 0 ==> interval_elapsed(
            s->Tracking_0,
            pull_times(s, times)[0],
        ),
    decreases times.len(),
{
    if times.len() > 0 {
        let next = after_redraw(s, times[0]);
        let rest = pull_times(next, times.drop_first());
        lemma_pulls_spaced(next, times.drop_first());
        if refresh_due(s, times[0]) {
            let all = seq![times[0]] + rest;
            assert(pull_times(s, times) == all);
            assert forall|k: int| 0 <= k < all.len() - 1 implies interval_elapsed(
                #[trigger] all[k],
                all[k + 1],
            ) by {
                if k > 0 {
                    assert(all[k] == rest[k - 1]);
                    assert(all[k + 1] == rest[k]);
                }
            }
        }
    }
}

/// Snapshot pulls from a fresh scheduler: the first redraw always pulls, and
/// no two consecutive pulls are less than a second apart.
pub proof fn lemma_refresh_cadence(times: Seq<u64>)
    ensures
        times.len() > 0 ==> pull_times(RefreshState::Idle, times).len() > 0
            && pull_times(RefreshState::Idle, times)[0] == times[0],
        forall|k: int|
            0 <= k < pull_times(RefreshState::Idle, times).len() - 1 ==> interval_elapsed(
                #[trigger] pull_times(RefreshState::Idle, times)[k],
                pull_times(RefreshState::Idle, times)[k + 1],
            ),
{
    lemma_pulls_spaced(RefreshState::Idle, times);
}

} // verus!
