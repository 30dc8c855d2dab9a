//! When samples are taken.

use crate::interface::SamplerCommand;
use crate::units::{delta, delta_spec, product, product_spec, total, total_spec};
use vstd::prelude::*;

verus! {

/// The longest time without a look at the commands, in nanoseconds.
pub const LONGEST_WAIT: u64 = 100_000_000;

/// When the next sample is due. The interval is in seconds, the moment in
/// nanoseconds of a clock that does not go back.
#[derive(Clone, Copy, Debug, PartialEq, Eq, Structural)]
pub struct Schedule {
    pub interval: u64,
    pub paused: bool,
    pub next_sample: u64,
}

/// What a command asks for besides a change of the schedule.
#[derive(Clone, Copy, Debug, PartialEq, Eq, Structural)]
pub enum Request {
    Nothing,
    Reset,
    Stop,
}

/// A moment some seconds later.
pub open spec fn after_interval(now: u64, interval: u64) -> u64 {
    total_spec(now, product_spec(interval, 1_000_000_000))
}

/// The schedule after a command, and what it asks for besides.
pub open spec fn command_spec(s: Schedule, command: SamplerCommand, now: u64) -> (
    Schedule,
    Request,
) {
    match command {
        SamplerCommand::SetPaused(paused) => (
            Schedule {
                paused,
                next_sample: if paused {
                    s.next_sample
                } else {
                    now
                },
                ..s
            },
            Request::Nothing,
        ),
        SamplerCommand::SetInterval(interval) => (
            Schedule { interval, next_sample: after_interval(now, interval), ..s },
            Request::Nothing,
        ),
        SamplerCommand::Reset => (Schedule { next_sample: now, ..s }, Request::Reset),
        SamplerCommand::Stop => (s, Request::Stop),
    }
}

impl Schedule {
    /// A schedule whose first sample is due at once.
    pub fn new(interval: u64, now: u64) -> (result: Schedule)
        ensures
            result == (Schedule { interval, paused: false, next_sample: now }),
    {
        Schedule { interval, paused: false, next_sample: now }
    }

    pub open spec fn due_spec(self, now: u64) -> bool {
        !self.paused && now >= self.next_sample
    }

    /// Whether a sample is due.
    pub fn is_due(&self, now: u64) -> (result: bool)
        ensures
            result == self.due_spec(now),
    {
        !self.paused && now >= self.next_sample
    }

    /// The schedule after a sample.
    pub open spec fn sampled_spec(self, now: u64) -> Schedule {
        Schedule { next_sample: after_interval(now, self.interval), ..self }
    }

    /// A sample was taken: the next one is due an interval later.
    pub fn sampled(&mut self, now: u64)
        ensures
            *final(self) == old(self).sampled_spec(now),
    {
        self.next_sample = total(now, product(self.interval, 1_000_000_000));
    }

    /// How long to wait for a command, in nanoseconds.
    pub open spec fn wait_spec(self, now: u64) -> u64 {
        if self.paused || delta_spec(self.next_sample, now) > LONGEST_WAIT {
            LONGEST_WAIT
        } else {
            delta_spec(self.next_sample, now)
        }
    }

    /// How long to wait for a command, in nanoseconds: until the next sample is
    /// due, and never longer than the longest wait.
    pub fn wait(&self, now: u64) -> (result: u64)
        ensures
            result == self.wait_spec(now),
    {
        let left: u64 = delta(self.next_sample, now);
        if self.paused || left > LONGEST_WAIT {
            LONGEST_WAIT
        } else {
            left
        }
    }

    /// Takes a command in, and says what it asks for besides.
    pub fn obey(&mut self, command: SamplerCommand, now: u64) -> (request: Request)
        ensures
            (*final(self), request) == command_spec(*old(self), command, now),
    {
        match command {
            SamplerCommand::SetPaused(paused) => {
                self.paused = paused;
                if !paused {
                    self.next_sample = now;
                }
                Request::Nothing
            },
            SamplerCommand::SetInterval(interval) => {
                self.interval = interval;
                self.next_sample = total(now, product(interval, 1_000_000_000));
                Request::Nothing
            },
            SamplerCommand::Reset => {
                self.next_sample = now;
                Request::Reset
            },
            SamplerCommand::Stop => Request::Stop,
        }
    }
}

/// Nothing is sampled while sampling is paused, and it goes on at once when it
/// is resumed, or when it is reset.
pub proof fn pausing_holds_samples_back(s: Schedule, now: u64, later: u64)
    requires
        now <= later,
    ensures
        !command_spec(s, SamplerCommand::SetPaused(true), now).0.due_spec(later),
        command_spec(s, SamplerCommand::SetPaused(false), now).0.due_spec(later),
        !s.paused ==> command_spec(s, SamplerCommand::Reset, now).0.due_spec(later),
{
}


/// Samples are an interval apart: after one, the next is due as many seconds
/// later as the interval says and not before, and so it is after the interval
/// was set. Neither pauses or resumes anything, and setting an interval asks for
/// nothing besides.
pub proof fn samples_are_an_interval_apart(s: Schedule, interval: u64, now: u64, later: u64)
    requires
        now + 1_000_000_000 * s.interval <= u64::MAX,
        now + 1_000_000_000 * interval <= u64::MAX,
    ensures
        s.sampled_spec(now).interval == s.interval,
        s.sampled_spec(now).paused == s.paused,
        s.sampled_spec(now).due_spec(later) <==> !s.paused && later - now >= 1_000_000_000
            * s.interval,
        ({
            let (set, request) = command_spec(s, SamplerCommand::SetInterval(interval), now);
            &&& request == Request::Nothing
            &&& set.interval == interval
            &&& set.paused == s.paused
            &&& set.due_spec(later) <==> !s.paused && later - now >= 1_000_000_000 * interval
            &&& set.sampled_spec(now) == set
        }),
{
}

/// A wait ends no later than the next sample is due, and no later than a tenth of
/// a second on: one that ends earlier than that ends when the sample is due.
pub proof fn waits_end_when_a_sample_is_due(s: Schedule, now: u64)
    ensures
        s.wait_spec(now) <= 100_000_000,
        !s.paused && now <= s.next_sample ==> now + s.wait_spec(now) <= s.next_sample,
        s.wait_spec(now) < 100_000_000 ==> s.due_spec((now + s.wait_spec(now)) as u64),
        s.due_spec(now) ==> s.wait_spec(now) == 0,
        s.paused ==> s.wait_spec(now) == 100_000_000,
{
}

/// A command does what it is named for: pausing changes nothing but that, a
/// reset asks for one and keeps interval and pause, and a stop changes nothing.
pub proof fn commands_do_what_they_are_named_for(s: Schedule, paused: bool, now: u64)
    ensures
        ({
            let (set, request) = command_spec(s, SamplerCommand::SetPaused(paused), now);
            &&& request == Request::Nothing
            &&& set.paused == paused
            &&& set.interval == s.interval
            &&& paused ==> set.next_sample == s.next_sample
            &&& !paused ==> set.due_spec(now)
        }),
        ({
            let (set, request) = command_spec(s, SamplerCommand::Reset, now);
            &&& request == Request::Reset
            &&& set.paused == s.paused
            &&& set.interval == s.interval
            &&& set.next_sample == now
        }),
        command_spec(s, SamplerCommand::Stop, now) == (s, Request::Stop),
{
}
} // verus!
