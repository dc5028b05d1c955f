//! The waiter: one wait for a condition on one file descriptor.

use crate::interest::Interest;
use crate::reactor::{registered, unregistered, Handle, RawFd, Registration};
use crate::task::share_flag;
use std::sync::atomic::{AtomicBool, Ordering};
use std::sync::Arc;
use std::task::Waker;
use vstd::prelude::*;

verus! {

/// What a poll of a waiter reports.
#[derive(Clone, Copy, Debug, PartialEq, Eq, Structural)]
pub enum Progress {
    /// The condition was observed: the wait is over.
    Ready,
    /// Not yet: the waker handed in will be called once it is.
    Pending,
}

/// What a poll of a waiter has to do.
#[derive(Clone, Copy, Debug, PartialEq, Eq, Structural)]
pub enum Step {
    /// The condition was observed: unregister the wait and report it over.
    Finish,
    /// The wait is registered with the right waker: leave everything as it is.
    Wait,
    /// Register the wait, in place of what was registered for the descriptor.
    Rearm,
}

/// The step of a poll: to finish once the completion flag is set; else to
/// wait, if a waker is kept and the one handed in would wake the same task;
/// else to register anew.
pub open spec fn next_step(armed: bool, completed: bool, same_waker: bool) -> Step {
    if completed {
        Step::Finish
    } else if armed && same_waker {
        Step::Wait
    } else {
        Step::Rearm
    }
}

/// What a poll reports after the step: only a finished wait is over.
pub open spec fn progress_of(step: Step) -> Progress {
    if step == Step::Finish {
        Progress::Ready
    } else {
        Progress::Pending
    }
}

/// The interrupts that a step owes: one for each change of the table.
pub open spec fn interrupts_of(step: Step) -> nat {
    match step {
        Step::Finish => 1,
        Step::Wait => 0,
        Step::Rearm => 2,
    }
}

impl Step {
    /// Whether the step changes the table, so that it cannot be carried out
    /// without the table in hand.
    pub fn changes_table(&self) -> (changes: bool)
        ensures
            changes == (interrupts_of(*self) > 0),
            changes == (*self != Step::Wait),
    {
        match self {
            Step::Finish => true,
            Step::Wait => false,
            Step::Rearm => true,
        }
    }

    /// What a poll reports after the step.
    pub fn progress(&self) -> (progress: Progress)
        ensures
            progress == progress_of(*self),
    {
        match self {
            Step::Finish => Progress::Ready,
            Step::Wait => Progress::Pending,
            Step::Rearm => Progress::Pending,
        }
    }
}

/// What a waiter holds.
pub struct Waiter {
    /// The descriptor waited on.
    pub fd: RawFd,
    /// The conditions waited for.
    pub interest: Interest,
    /// The waker of the latest poll that registered the wait, if there was one.
    pub last_waker: Option<Waker>,
    /// The flag that the reactor sets once the condition was observed.
    pub completed: Arc<AtomicBool>,
}

/// The table after the wait of `waiter` was registered anew with `waker`: what
/// was registered for its descriptor is gone, and in its place stands the
/// waiter's interest and completion flag with that waker.
pub open spec fn rearmed(table: Map<RawFd, Registration>, waiter: Waiter, waker: Waker) -> Map<
    RawFd,
    Registration,
> {
    registered(
        unregistered(table, waiter.fd),
        waiter.fd,
        Registration { interest: waiter.interest, completed: waiter.completed, waker },
    )
}

/// Future that waits for certain condition on file descriptor.
pub struct FdFuture {
    fd: RawFd,
    interest: Interest,
    last_waker: Option<Waker>,
    completed: Arc<AtomicBool>,
}

impl View for FdFuture {
    type V = Waiter;

    closed spec fn view(&self) -> Waiter {
        Waiter {
            fd: self.fd,
            interest: self.interest,
            last_waker: self.last_waker,
            completed: self.completed,
        }
    }
}

impl FdFuture {
    /// Creates new future, which has not registered anything yet.
    pub fn new(fd: RawFd, interest: Interest) -> (future: FdFuture)
        ensures
            future@.fd == fd,
            future@.interest == interest,
            future@.last_waker is None,
    {
        FdFuture { fd, interest, last_waker: None, completed: Arc::new(AtomicBool::new(false)) }
    }

    /// The descriptor waited on.
    pub fn fd(&self) -> (fd: RawFd)
        ensures
            fd == self@.fd,
    {
        self.fd
    }

    /// The conditions waited for.
    pub fn interest(&self) -> (interest: Interest)
        ensures
            interest == self@.interest,
    {
        self.interest
    }

    /// What a poll has to do, given how its two questions to the outside were
    /// answered: whether the completion flag is set (`completed`), and whether
    /// the waker kept from the latest registration would wake the same task as
    /// the one handed in now (`same_waker`).
    pub fn decide(&self, completed: bool, same_waker: bool) -> (step: Step)
        ensures
            step == next_step(self@.last_waker is Some, completed, same_waker),
    {
        if completed {
            Step::Finish
        } else if self.last_waker.is_some() && same_waker {
            Step::Wait
        } else {
            Step::Rearm
        }
    }

    /// What a poll with `waker` has to do: ask the completion flag and, where
    /// a waker is kept and the flag is not set, whether `waker` would wake the
    /// same task; then decide as [`FdFuture::decide`] does.
    ///
    /// The table is not needed for this, so where the table is shared, a poll
    /// that only has to wait need not lock it. Both answers come from
    /// outside: a waiter that has not registered yet is never told to wait,
    /// and no more is known here.
    pub fn plan(&self, waker: &Waker) -> (step: Step)
        ensures
            self@.last_waker is None ==> step != Step::Wait,
    {
        let completed = self.completed.load(Ordering::Acquire);
        let same_waker = !completed && match &self.last_waker {
            Some(last_waker) => last_waker.will_wake(waker),
            None => false,
        };
        self.decide(completed, same_waker)
    }

    /// Carry out a step of a poll on the table of `reactor`. The waker is the
    /// one to wake when the wait is over; only a new registration uses it.
    ///
    /// - `Finish`: the wait is unregistered and over.
    /// - `Wait`: nothing changes.
    /// - `Rearm`: the wait is unregistered, then registered anew with `waker`,
    ///   and a copy of `waker` is kept for the next poll.
    pub fn carry_out(&mut self, reactor: &mut Handle, step: Step, waker: Waker) -> (progress:
        Progress)
        requires
            old(reactor).pending_interrupts() + interrupts_of(step) <= u64::MAX,
        ensures
            final(self)@.fd == old(self)@.fd,
            final(self)@.interest == old(self)@.interest,
            final(self)@.completed == old(self)@.completed,
            progress == progress_of(step),
            final(reactor).pending_interrupts() == old(reactor).pending_interrupts()
                + interrupts_of(step),
            final(reactor)@ == match step {
                Step::Finish => unregistered(old(reactor)@, old(self)@.fd),
                Step::Wait => old(reactor)@,
                Step::Rearm => rearmed(old(reactor)@, old(self)@, waker),
            },
            step != Step::Rearm ==> final(self)@ == old(self)@,
            step == Step::Rearm ==> final(self)@.last_waker is Some,
    {
        match step {
            Step::Finish => {
                reactor.unregister(self.fd);
                Progress::Ready
            },
            Step::Wait => Progress::Pending,
            Step::Rearm => {
                let kept = waker.clone();
                reactor.unregister(self.fd);
                reactor.register(self.fd, self.interest, share_flag(&self.completed), waker);
                self.last_waker = Some(kept);
                Progress::Pending
            },
        }
    }

    /// One poll of the waiter with `waker`: plan the step, then carry it out.
    ///
    /// Which step it is depends on answers from outside, so this says what
    /// holds for each report: a wait reported over was unregistered; a wait
    /// reported pending either changed nothing, which takes a waker kept from
    /// before, or was registered anew with `waker`.
    pub fn poll(&mut self, reactor: &mut Handle, waker: Waker) -> (progress: Progress)
        requires
            old(reactor).pending_interrupts() + 2 <= u64::MAX,
        ensures
            final(self)@.fd == old(self)@.fd,
            final(self)@.interest == old(self)@.interest,
            final(self)@.completed == old(self)@.completed,
            progress == Progress::Ready ==> {
                &&& final(self)@ == old(self)@
                &&& final(reactor)@ == unregistered(old(reactor)@, old(self)@.fd)
                &&& final(reactor).pending_interrupts() == old(reactor).pending_interrupts() + 1
            },
            progress == Progress::Pending ==> {
                ||| {
                    &&& old(self)@.last_waker is Some
                    &&& final(self)@ == old(self)@
                    &&& final(reactor)@ == old(reactor)@
                    &&& final(reactor).pending_interrupts() == old(reactor).pending_interrupts()
                }
                ||| {
                    &&& final(self)@.last_waker is Some
                    &&& final(reactor)@ == rearmed(old(reactor)@, old(self)@, waker)
                    &&& final(reactor).pending_interrupts() == old(reactor).pending_interrupts()
                        + 2
                }
            },
    {
        let step = self.plan(&waker);
        self.carry_out(reactor, step, waker)
    }
}

} // verus!
