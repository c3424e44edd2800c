//! A rate-limited periodic trigger.
//!
//! A ticker fires once per period at the latest, and on demand in between,
//! though never sooner than one cooldown after it last fired. Time is what the
//! caller says it is: every operation takes the current instant, in
//! milliseconds on a clock that does not run backwards.

use vstd::prelude::*;

verus! {

/// What `wait_and_tick` found.
#[derive(Clone, Copy, Debug, PartialEq, Eq, Structural)]
pub enum Tick {
    /// The timeout has run out: the ticker fired and began a new period.
    Fired,
    /// The timeout has not run out; it will after this many milliseconds.
    Wait(u64),
}

/// The state of a ticker, as contracts speak of it.
pub struct TickerView {
    /// The instant at which the ticker last fired.
    pub last_reset: u64,
    /// How long after `last_reset` the next periodic firing is due.
    pub current_timeout: u64,
    /// The period.
    pub max_timeout: u64,
    /// The cooldown.
    pub min_timeout: u64,
}

impl TickerView {
    /// The time that has passed since the ticker last fired; none where the
    /// clock reads earlier than that.
    pub open spec fn elapsed(self, now: u64) -> int {
        if now >= self.last_reset {
            now - self.last_reset
        } else {
            0
        }
    }

    /// Whether a tick on demand is granted at `now`.
    pub open spec fn cooled_down(self, now: u64) -> bool {
        self.elapsed(now) >= self.min_timeout
    }

    /// Whether the periodic tick is due at `now`.
    pub open spec fn due(self, now: u64) -> bool {
        self.elapsed(now) >= self.current_timeout
    }

    /// The ticker after it fired at `now`.
    pub open spec fn fired(self, now: u64) -> TickerView {
        TickerView { last_reset: now, current_timeout: self.max_timeout, ..self }
    }

    /// The ticker after a tick on demand was refused: the next periodic
    /// firing comes when the cooldown ends.
    pub open spec fn refused(self) -> TickerView {
        TickerView { current_timeout: self.min_timeout, ..self }
    }

    /// The ticker after `try_tick` at `now`.
    pub open spec fn after_try_tick(self, now: u64) -> TickerView {
        if self.cooled_down(now) {
            self.fired(now)
        } else {
            self.refused()
        }
    }

    /// The ticker after `wait_and_tick` at `now`.
    pub open spec fn after_wait_and_tick(self, now: u64) -> TickerView {
        if self.due(now) {
            self.fired(now)
        } else {
            self
        }
    }

    /// The cooldown is no longer than the period, and the timeout in force is
    /// one of the two.
    pub open spec fn wf(self) -> bool {
        &&& self.min_timeout <= self.max_timeout
        &&& (self.current_timeout == self.max_timeout || self.current_timeout
            == self.min_timeout)
    }
}

/// A periodic trigger with a cooldown.
#[derive(Clone, Copy, Debug)]
pub struct Ticker {
    last_reset: u64,
    current_timeout: u64,
    max_timeout: u64,
    min_timeout: u64,
}

impl View for Ticker {
    type V = TickerView;

    closed spec fn view(&self) -> TickerView {
        TickerView {
            last_reset: self.last_reset,
            current_timeout: self.current_timeout,
            max_timeout: self.max_timeout,
            min_timeout: self.min_timeout,
        }
    }
}

impl Ticker {
    /// A ticker that counts from `now`. A period shorter than the cooldown is
    /// raised to the cooldown.
    pub fn new(now: u64, max_timeout: u64, min_timeout: u64) -> (ticker: Self)
        ensures
            ticker@.wf(),
            ticker@.last_reset == now,
            ticker@.min_timeout == min_timeout,
            ticker@.max_timeout == if max_timeout < min_timeout {
                min_timeout
            } else {
                max_timeout
            },
            ticker@.current_timeout == ticker@.max_timeout,
    {
        let max_timeout = if max_timeout < min_timeout {
            min_timeout
        } else {
            max_timeout
        };
        Ticker { last_reset: now, current_timeout: max_timeout, max_timeout, min_timeout }
    }

    fn elapsed(&self, now: u64) -> (elapsed: u64)
        ensures
            elapsed == self@.elapsed(now),
    {
        if now >= self.last_reset {
            now - self.last_reset
        } else {
            0
        }
    }

    /// Fires if at least one cooldown has passed since the ticker last fired,
    /// and says whether it did. If it did not, the next periodic firing is due
    /// as soon as the cooldown ends.
    pub fn try_tick(&mut self, now: u64) -> (ticked: bool)
        ensures
            ticked == old(self)@.cooled_down(now),
            final(self)@ == old(self)@.after_try_tick(now),
            old(self)@.wf() ==> final(self)@.wf(),
    {
        if self.elapsed(now) >= self.min_timeout {
            self.last_reset = now;
            self.current_timeout = self.max_timeout;
            true
        } else {
            self.current_timeout = self.min_timeout;
            false
        }
    }

    /// Fires if the timeout in force has run out; otherwise says how long the
    /// caller has to wait before it asks again.
    pub fn wait_and_tick(&mut self, now: u64) -> (tick: Tick)
        ensures
            final(self)@ == old(self)@.after_wait_and_tick(now),
            old(self)@.due(now) ==> tick == Tick::Fired,
            !old(self)@.due(now) ==> tick == Tick::Wait(
                (old(self)@.current_timeout - old(self)@.elapsed(now)) as u64,
            ),
            old(self)@.wf() ==> final(self)@.wf(),
    {
        let elapsed = self.elapsed(now);
        if elapsed >= self.current_timeout {
            self.last_reset = now;
            self.current_timeout = self.max_timeout;
            Tick::Fired
        } else {
            Tick::Wait(self.current_timeout - elapsed)
        }
    }

    /// The instant at which the ticker last fired.
    pub fn last_reset(&self) -> (instant: u64)
        ensures
            instant == self@.last_reset,
    {
        self.last_reset
    }
}

/// Two ticks on demand that are both granted lie at least one cooldown apart.
pub proof fn lemma_granted_ticks_are_a_cooldown_apart(ticker: TickerView, first: u64, second: u64)
    requires
        first <= second,
        ticker.cooled_down(first),
        ticker.after_try_tick(first).cooled_down(second),
    ensures
        second - first >= ticker.min_timeout,
{
}

/// However often a tick on demand is refused, the wait for the periodic tick
/// never grows beyond one period.
pub proof fn lemma_wait_is_at_most_a_period(ticker: TickerView, now: u64)
    requires
        ticker.wf(),
    ensures
        !ticker.due(now) ==> ticker.current_timeout - ticker.elapsed(now) <= ticker.max_timeout,
        !ticker.after_try_tick(now).due(now) ==> ticker.after_try_tick(now).current_timeout
            - ticker.after_try_tick(now).elapsed(now) <= ticker.max_timeout,
{
}

/// A refused tick on demand leaves the periodic tick due at the end of the
/// cooldown: the ticker then fires although the period has not run out.
pub proof fn lemma_refused_tick_fires_after_cooldown(ticker: TickerView, now: u64, later: u64)
    requires
        !ticker.cooled_down(now),
        later >= ticker.last_reset,
        later - ticker.last_reset >= ticker.min_timeout,
    ensures
        ticker.after_try_tick(now).due(later),
{
}

} // verus!
