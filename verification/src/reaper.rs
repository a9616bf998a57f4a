//! Teardown of closed PTYs. A closed Pane leaves its process here until it was
//! asked to end, forced to end, and reported gone.
use crate::pane_io::ReadOutcome;
use vstd::prelude::*;

verus! {

/// How long a process may take to end after it was asked to, in milliseconds.
pub const TERM_GRACE_MS: u64 = 15;

/// When to try once more where the kernel cannot report the exit, in
/// milliseconds.
pub const EXIT_FALLBACK_BOUND_MS: u64 = 2_000;

/// The most bytes discarded from a closed PTY in one turn.
pub const DRAIN_BYTES: usize = 65_536;

/// A closed PTY whose process may still run.
#[derive(Clone, Copy, Debug, PartialEq, Eq, Structural)]
pub struct RetiringPty {
    /// The kernel reports the exit.
    pub watched: bool,
    pub master_registered: bool,
    pub read_pending: bool,
    pub child_exited: bool,
    /// When the process is forced to end.
    pub kill_at: Option<u64>,
    /// When to try once more without a kernel report.
    pub fallback_at: Option<u64>,
}

/// How one turn of discarding output goes on.
#[derive(Clone, Copy, Debug, PartialEq, Eq, Structural)]
pub enum DrainStep {
    Again,
    Done,
}

impl RetiringPty {
    /// The PTY of a Pane that just closed.
    pub open spec fn closed_now(now: u64, watched: bool, master_registered: bool) -> RetiringPty {
        RetiringPty {
            watched,
            master_registered,
            read_pending: true,
            child_exited: false,
            kill_at: Some((now + TERM_GRACE_MS) as u64),
            fallback_at: None,
        }
    }

    /// Something is still going to end the teardown: a deadline, a kernel
    /// report, or the exit that was seen.
    pub open spec fn will_end(self) -> bool {
        self.kill_at is Some || self.child_exited || self.watched || self.fallback_at is Some
    }

    /// Start the teardown of a closed PTY.
    pub fn retire(now: u64, watched: bool, master_registered: bool) -> (pty: RetiringPty)
        requires
            now <= u64::MAX - TERM_GRACE_MS,
        ensures
            pty == RetiringPty::closed_now(now, watched, master_registered),
            pty.will_end(),
    {
        RetiringPty {
            watched,
            master_registered,
            read_pending: true,
            child_exited: false,
            kill_at: Some(now + TERM_GRACE_MS),
            fallback_at: None,
        }
    }

    /// When this PTY next needs attention: now, where output waits, else at its
    /// earlier deadline.
    pub open spec fn deadline(self, now: u64) -> Option<u64> {
        let timer = match (self.kill_at, self.fallback_at) {
            (Some(a), Some(b)) => Some(
                if a <= b {
                    a
                } else {
                    b
                },
            ),
            (Some(a), None) => Some(a),
            (None, b) => b,
        };
        if self.read_pending {
            match timer {
                Some(at) if at <= now => Some(at),
                _ => Some(now),
            }
        } else {
            timer
        }
    }

    /// When this PTY next needs attention.
    pub fn next_reap_deadline(&self, now: u64) -> (deadline: Option<u64>)
        ensures
            deadline == self.deadline(now),
    {
        let timer: Option<u64> = match (self.kill_at, self.fallback_at) {
            (Some(a), Some(b)) => Some(
                if a <= b {
                    a
                } else {
                    b
                },
            ),
            (Some(a), None) => Some(a),
            (None, b) => b,
        };
        if self.read_pending {
            match timer {
                Some(at) if at <= now => Some(at),
                _ => Some(now),
            }
        } else {
            timer
        }
    }

    /// Take note of the kernel's exit report. The process is collected only
    /// once it was forced to end, so that its id cannot be reused meanwhile;
    /// `reaped` says whether it then could be.
    pub fn on_exit_report(&mut self, reaped: bool)
        ensures
            *final(self) == (RetiringPty {
                watched: false,
                child_exited: if old(self).kill_at is None {
                    reaped
                } else {
                    old(self).child_exited
                },
                read_pending: true,
                ..*old(self)
            }),
            (old(self).will_end() && (old(self).kill_at is None ==> reaped))
                ==> final(self).will_end(),
    {
        self.watched = false;
        if self.kill_at.is_none() {
            self.child_exited = reaped;
        }
        self.read_pending = true;
    }

    /// Take note that the PTY is readable.
    pub fn on_readable(&mut self)
        ensures
            *final(self) == (RetiringPty { read_pending: true, ..*old(self) }),
    {
        self.read_pending = true;
    }

    /// Whether the process is to be forced to end now.
    pub fn kill_due(&self, now: u64) -> (due: bool)
        ensures
            due == (self.kill_at matches Some(at) && now >= at),
    {
        match self.kill_at {
            Some(at) => now >= at,
            None => false,
        }
    }

    /// Take note that the process was forced to end; `reaped` says whether it
    /// could be collected at once. Without a kernel report one bounded attempt
    /// is left, so that no idle polling is needed.
    pub fn on_killed(&mut self, now: u64, reaped: bool)
        requires
            now <= u64::MAX - EXIT_FALLBACK_BOUND_MS,
        ensures
            ({
                let exited = old(self).child_exited || reaped;
                *final(self) == (RetiringPty {
                    kill_at: None,
                    child_exited: exited,
                    read_pending: true,
                    fallback_at: if !exited && !old(self).watched {
                        Some((now + EXIT_FALLBACK_BOUND_MS) as u64)
                    } else {
                        old(self).fallback_at
                    },
                    ..*old(self)
                })
            }),
            final(self).will_end(),
    {
        self.kill_at = None;
        self.child_exited = self.child_exited || reaped;
        self.read_pending = true;
        if !self.child_exited && !self.watched {
            self.fallback_at = Some(now + EXIT_FALLBACK_BOUND_MS);
        }
    }

    /// Begin a turn of discarding output.
    pub fn begin_drain(&mut self)
        ensures
            *final(self) == (RetiringPty { read_pending: false, ..*old(self) }),
    {
        self.read_pending = false;
    }

    /// Take note of one read of a turn in which `total` bytes were discarded
    /// before. At the bound the rest is left for a later turn; a finished or
    /// failed master is no longer watched.
    pub fn drain(&mut self, total: usize, outcome: ReadOutcome) -> (next: (DrainStep, usize))
        requires
            total < DRAIN_BYTES,
            outcome matches ReadOutcome::Data(n) ==> n <= usize::MAX - DRAIN_BYTES,
        ensures
            match outcome {
                ReadOutcome::Data(n) => {
                    &&& next.1 == total + n
                    &&& next.0 == if total + n < DRAIN_BYTES {
                        DrainStep::Again
                    } else {
                        DrainStep::Done
                    }
                    &&& *final(self) == (RetiringPty {
                        read_pending: old(self).read_pending || total + n >= DRAIN_BYTES,
                        ..*old(self)
                    })
                },
                ReadOutcome::Interrupted => next == (DrainStep::Again, total) && *final(self)
                    == *old(self),
                ReadOutcome::WouldBlock => next == (DrainStep::Done, total) && *final(self)
                    == *old(self),
                ReadOutcome::Eof | ReadOutcome::Failed => next == (DrainStep::Done, total)
                    && *final(self) == (RetiringPty { master_registered: false, ..*old(self) }),
            },
    {
        match outcome {
            ReadOutcome::Data(n) => {
                let sum: usize = total + n;
                if sum < DRAIN_BYTES {
                    (DrainStep::Again, sum)
                } else {
                    self.read_pending = true;
                    (DrainStep::Done, sum)
                }
            },
            ReadOutcome::Interrupted => (DrainStep::Again, total),
            ReadOutcome::WouldBlock => (DrainStep::Done, total),
            ReadOutcome::Eof | ReadOutcome::Failed => {
                self.master_registered = false;
                (DrainStep::Done, total)
            },
        }
    }

    /// Whether the attempt without a kernel report is due.
    pub fn fallback_due(&self, now: u64) -> (due: bool)
        ensures
            due == (self.fallback_at matches Some(at) && now >= at),
    {
        match self.fallback_at {
            Some(at) => now >= at,
            None => false,
        }
    }

    /// Whether the teardown is over: the process was forced to end, and is
    /// collected or given up. `reaped` is the outcome of the last attempt,
    /// where it was due.
    pub fn finish(&mut self, now: u64, reaped: bool) -> (complete: bool)
        ensures
            ({
                let expired = old(self).fallback_at matches Some(at) && now >= at;
                let exited = old(self).child_exited || (expired && reaped);
                &&& *final(self) == (RetiringPty { child_exited: exited, ..*old(self) })
                &&& complete == (old(self).kill_at is None && (exited || expired))
            }),
    {
        let expired = self.fallback_due(now);
        if expired {
            self.child_exited = self.child_exited || reaped;
        }
        self.kill_at.is_none() && (self.child_exited || expired)
    }
}

} // verus!
