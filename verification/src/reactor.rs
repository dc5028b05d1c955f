//! The registration table of the reactor and the handle that changes it.

use crate::interest::{bits_of, conditions_in, Conditions, Interest, POLLIN};
use std::collections::HashMap;
use std::sync::atomic::{AtomicBool, Ordering};
use std::sync::Arc;
use std::task::Waker;
use vstd::prelude::*;
use vstd::std_specs::hash::spec_hash_map_iter;
use vstd::std_specs::iter::IteratorSpec;

verus! {

broadcast use vstd::std_specs::hash::group_hash_axioms;

/// A file descriptor, as the operating system numbers it.
pub type RawFd = i32;

/// One descriptor's active wait: what is waited for, the flag to set once it
/// has happened, and whom to wake then.
pub struct Registration {
    pub interest: Interest,
    pub completed: Arc<AtomicBool>,
    pub waker: Waker,
}

/// The table after `fd` was registered with `registration`: an earlier entry
/// for `fd` is gone, every other entry stays.
pub open spec fn registered(
    table: Map<RawFd, Registration>,
    fd: RawFd,
    registration: Registration,
) -> Map<RawFd, Registration> {
    table.insert(fd, registration)
}

/// The table after `fd` was unregistered: the same table where `fd` had no
/// entry.
pub open spec fn unregistered(table: Map<RawFd, Registration>, fd: RawFd) -> Map<
    RawFd,
    Registration,
> {
    table.remove(fd)
}

/// One entry of a wait set: a descriptor, the events asked for on it, and the
/// events that the wait reported for it.
#[derive(Clone, Copy, Debug, PartialEq, Eq, Structural)]
pub struct PollFd {
    pub fd: RawFd,
    pub events: i16,
    pub revents: i16,
}

/// The entry that asks for `events` on `fd`, with nothing reported yet.
pub open spec fn request(fd: RawFd, events: int) -> PollFd {
    PollFd { fd, events: events as i16, revents: 0 }
}

/// `set` is a wait set of `table`: the interrupt descriptor first, asked for
/// readability, then each registered descriptor once, in any order, asked for
/// the events of its interest.
pub open spec fn is_wait_set(
    table: Map<RawFd, Registration>,
    interrupt: RawFd,
    set: Seq<PollFd>,
) -> bool {
    &&& set.len() == table.len() + 1
    &&& set[0] == request(interrupt, POLLIN as int)
    &&& forall|i: int|
        1 <= i < set.len() ==> table.contains_key(#[trigger] set[i].fd) && set[i] == request(
            set[i].fd,
            bits_of(table[set[i].fd].interest@),
        )
    &&& forall|i: int, j: int|
        1 <= i < j < set.len() ==> #[trigger] set[i].fd != #[trigger] set[j].fd
    &&& forall|fd: RawFd| #[trigger]
        table.contains_key(fd) ==> exists|i: int| 1 <= i < set.len() && #[trigger] set[i].fd == fd
}

/// How a wait ended, by the number it returned.
#[derive(Clone, Copy, Debug, PartialEq, Eq, Structural)]
pub enum WaitOutcome {
    /// The wait itself failed. The reactor cannot go on: whoever runs it must
    /// treat this as fatal.
    Fault,
    /// Nothing is ready: wait again on the same set, without a look at the
    /// table.
    Idle,
    /// Some entry of the set has events reported.
    Ready,
}

/// How a wait that returned `returned` ended: `-1` is the failure of the wait,
/// any other number below one says that nothing is ready.
pub open spec fn wait_outcome(returned: i32) -> WaitOutcome {
    if returned == -1 {
        WaitOutcome::Fault
    } else if returned < 1 {
        WaitOutcome::Idle
    } else {
        WaitOutcome::Ready
    }
}

/// How a wait that returned `returned` ended.
pub fn classify_wait(returned: i32) -> (outcome: WaitOutcome)
    ensures
        outcome == wait_outcome(returned),
{
    if returned == -1 {
        WaitOutcome::Fault
    } else if returned < 1 {
        WaitOutcome::Idle
    } else {
        WaitOutcome::Ready
    }
}

/// The wait was interrupted: its first entry, the interrupt descriptor, has
/// readability reported and nothing else.
pub open spec fn interrupted(polled: Seq<PollFd>) -> bool {
    polled.len() > 0 && polled[0].revents == POLLIN
}

/// The reported entry completes a wait of `table`: its descriptor is
/// registered, and the events reported for it hold a condition that the
/// registration listens for.
pub open spec fn completes(table: Map<RawFd, Registration>, entry: PollFd) -> bool {
    table.contains_key(entry.fd) && table[entry.fd].interest.satisfied_by(entry.revents)
}

/// [`completes`] as a predicate on entries.
pub open spec fn completing(table: Map<RawFd, Registration>) -> spec_fn(PollFd) -> bool {
    |entry: PollFd| completes(table, entry)
}

/// The descriptor of an entry.
pub open spec fn fd_of() -> spec_fn(PollFd) -> RawFd {
    |entry: PollFd| entry.fd
}

/// The entries of a reported wait set that stand for registrations: all but
/// the first, which is the interrupt descriptor.
pub open spec fn waited(polled: Seq<PollFd>) -> Seq<PollFd> {
    if polled.len() == 0 {
        polled
    } else {
        polled.drop_first()
    }
}

/// The descriptors whose waits the reported set completes, in the order of
/// the set, each as often as it is reported.
pub open spec fn notified(table: Map<RawFd, Registration>, polled: Seq<PollFd>) -> Seq<RawFd> {
    waited(polled).filter(completing(table)).map_values(fd_of())
}

/// The descriptors whose waiters a turn notifies: nobody if the wait was
/// interrupted, since an interrupt only says that the table changed; else
/// those whose waits the reported set completes.
pub open spec fn delivered(table: Map<RawFd, Registration>, polled: Seq<PollFd>) -> Seq<RawFd> {
    if interrupted(polled) {
        Seq::empty()
    } else {
        notified(table, polled)
    }
}

impl Registration {
    /// Tell the waiter that its wait is over: set its completion flag, then
    /// wake it.
    fn notify(&self) {
        self.completed.store(true, Ordering::SeqCst);
        self.waker.wake_by_ref();
    }
}

/// What the reactor does after a wait that found something ready.
pub struct Turn {
    /// The wait was interrupted: one byte is to be read from the interrupt
    /// channel and thrown away.
    pub drain: bool,
    /// The descriptors whose waiters were notified, in the order of the set.
    pub notified: Vec<RawFd>,
    /// The set to wait on next.
    pub next: Vec<PollFd>,
}

/// A handle to the reactor, for registering and unregistering file descriptors.
///
/// It owns the registration table and counts the interrupts that its changes
/// have made due: each change of the table owes the interrupt channel one byte,
/// which whoever holds the channel sends after taking the count.
pub struct Handle {
    /// The file descriptors which are currently registered on the reactor.
    fds: HashMap<RawFd, Registration>,
    /// The bytes owed to the interrupt channel.
    interrupts: u64,
}

impl View for Handle {
    type V = Map<RawFd, Registration>;

    closed spec fn view(&self) -> Map<RawFd, Registration> {
        self.fds@
    }
}

impl Handle {
    /// The number of bytes owed to the interrupt channel.
    pub closed spec fn pending_interrupts(&self) -> nat {
        self.interrupts as nat
    }

    /// The table holds finitely many registrations.
    pub proof fn lemma_table_is_finite(&self)
        ensures
            self@.dom().finite(),
    {
    }

    /// A handle on an empty table that owes no interrupt.
    pub fn new() -> (handle: Handle)
        ensures
            handle@ == Map::<RawFd, Registration>::empty(),
            handle.pending_interrupts() == 0,
    {
        Handle { fds: HashMap::new(), interrupts: 0 }
    }

    /// Register a new file descriptor onto the reactor, in place of what was
    /// registered for it before, and owe the interrupt channel one byte.
    ///
    /// The descriptor is taken as a number: that it is open, and stays open
    /// while it is registered, is for the caller to see to.
    pub fn register(
        &mut self,
        fd: RawFd,
        interest: Interest,
        completed: Arc<AtomicBool>,
        waker: Waker,
    )
        requires
            old(self).pending_interrupts() < u64::MAX,
        ensures
            final(self)@ == registered(old(self)@, fd, Registration { interest, completed, waker }),
            final(self).pending_interrupts() == old(self).pending_interrupts() + 1,
    {
        self.fds.insert(fd, Registration { interest, completed, waker });
        self.interrupts = self.interrupts + 1;
    }

    /// Unregister the given file descriptor from the reactor, if it is
    /// registered, and owe the interrupt channel one byte either way.
    pub fn unregister(&mut self, fd: RawFd)
        requires
            old(self).pending_interrupts() < u64::MAX,
        ensures
            final(self)@ == unregistered(old(self)@, fd),
            final(self).pending_interrupts() == old(self).pending_interrupts() + 1,
    {
        self.fds.remove(&fd);
        self.interrupts = self.interrupts + 1;
    }

    /// Hand over the count of interrupts owed, which then starts again at
    /// zero. The table stays as it is.
    pub fn take_interrupts(&mut self) -> (owed: u64)
        ensures
            owed == old(self).pending_interrupts(),
            final(self).pending_interrupts() == 0,
            final(self)@ == old(self)@,
    {
        let owed = self.interrupts;
        self.interrupts = 0;
        owed
    }

    /// The set to wait on next: the interrupt descriptor and every descriptor
    /// registered now.
    pub fn wait_set(&self, interrupt: RawFd) -> (set: Vec<PollFd>)
        ensures
            is_wait_set(self@, interrupt, set@),
    {
        let mut set: Vec<PollFd> = Vec::new();
        set.push(PollFd { fd: interrupt, events: POLLIN, revents: 0 });
        let ghost seq = spec_hash_map_iter(&self.fds).remaining();
        for entry in it: self.fds.iter()
            invariant
                it.seq() == seq,
                seq == spec_hash_map_iter(&self.fds).remaining(),
                set@.len() == it.index() + 1,
                set@[0] == request(interrupt, POLLIN as int),
                forall|j: int|
                    0 <= j < set@.len() - 1 ==> #[trigger] set@[j + 1] == request(
                        *seq[j].0,
                        bits_of(seq[j].1.interest@),
                    ),
        {
            let (fd, registration) = entry;
            set.push(PollFd { fd: *fd, events: registration.interest.bits(), revents: 0 });
        }
        proof {
            assert forall|i: int| 1 <= i < set@.len() implies self@.contains_key(
                #[trigger] set@[i].fd,
            ) && set@[i] == request(set@[i].fd, bits_of(self@[set@[i].fd].interest@)) by {
                assert(set@[(i - 1) + 1] == request(
                    *seq[i - 1].0,
                    bits_of(seq[i - 1].1.interest@),
                ));
            }
            assert forall|i: int, j: int| 1 <= i < j < set@.len() implies #[trigger] set@[i].fd
                != #[trigger] set@[j].fd by {
                assert(set@[(i - 1) + 1].fd == *seq[i - 1].0);
                assert(set@[(j - 1) + 1].fd == *seq[j - 1].0);
                if set@[i].fd == set@[j].fd {
                    assert(seq[i - 1] == seq[j - 1]);
                }
            }
            assert forall|fd: RawFd| #[trigger] self@.contains_key(fd) implies exists|i: int|
                1 <= i < set@.len() && #[trigger] set@[i].fd == fd by {
                let j = choose|j: int| 0 <= j < seq.len() && seq[j] == (&fd, &self.fds@[fd]);
                assert(set@[j + 1].fd == fd);
            }
        }
        set
    }

    /// Notify the waiter of every entry of the reported set, but the first,
    /// that completes a wait, and say for which descriptors that was done.
    ///
    /// An entry whose descriptor is not registered any more is passed over.
    pub fn dispatch(&self, polled: &Vec<PollFd>) -> (fds: Vec<RawFd>)
        ensures
            fds@ == notified(self@, polled@),
    {
        let mut fds: Vec<RawFd> = Vec::new();
        if polled.len() == 0 {
            assert(waited(polled@).filter(completing(self@)) =~= Seq::<PollFd>::empty()) by {
                reveal(Seq::filter);
            }
            return fds;
        }
        let mut i: usize = 1;
        assert(polled@.subrange(1, 1).filter(completing(self@)) =~= Seq::<PollFd>::empty()) by {
            reveal(Seq::filter);
        }
        while i < polled.len()
            invariant
                1 <= i <= polled.len(),
                fds@ == polled@.subrange(1, i as int).filter(completing(self@)).map_values(
                    fd_of(),
                ),
            decreases polled.len() - i,
        {
            let entry = polled[i];
            let mut complete = false;
            if entry.revents != 0 {
                if let Some(registration) = self.fds.get(&entry.fd) {
                    if registration.interest.is_satisfied_by(entry.revents) {
                        registration.notify();
                        complete = true;
                    }
                }
            }
            proof {
                let seen = polled@.subrange(1, i as int);
                assert(conditions_in(0i16) == Conditions::none()) by (bit_vector);
                assert(complete == completes(self@, entry));
                assert(polled@.subrange(1, i + 1) =~= seen.push(entry));
                seen.lemma_filter_push(entry, completing(self@));
                if complete {
                    seen.filter(completing(self@)).lemma_push_map_commute(fd_of(), entry);
                }
            }
            if complete {
                fds.push(entry.fd);
            }
            i = i + 1;
        }
        assert(polled@.subrange(1, polled@.len() as int) =~= waited(polled@));
        fds
    }

    /// The part of one turn of the reactor that needs the table, after a wait
    /// that found something ready.
    ///
    /// If the wait was interrupted, nobody is notified: the interrupt only
    /// says that the table changed. Otherwise the waiters of the completed
    /// waits are notified. Either way the next wait set is built from the
    /// table as it is now.
    pub fn turn(&self, polled: &Vec<PollFd>, interrupt: RawFd) -> (turn: Turn)
        ensures
            turn.drain == interrupted(polled@),
            turn.notified@ == delivered(self@, polled@),
            is_wait_set(self@, interrupt, turn.next@),
    {
        let drain = polled.len() > 0 && polled[0].revents == POLLIN;
        let notified = if drain {
            Vec::new()
        } else {
            self.dispatch(polled)
        };
        Turn { drain, notified, next: self.wait_set(interrupt) }
    }

    /// The number of descriptors registered.
    pub fn len(&self) -> (count: usize)
        ensures
            count == self@.len(),
    {
        self.fds.len()
    }

    /// Whether `fd` is registered.
    pub fn is_registered(&self, fd: RawFd) -> (present: bool)
        ensures
            present == self@.contains_key(fd),
    {
        self.fds.contains_key(&fd)
    }

    /// What `fd` is registered for, if it is registered.
    pub fn interest_of(&self, fd: RawFd) -> (interest: Option<Interest>)
        ensures
            interest == if self@.contains_key(fd) {
                Some(self@[fd].interest)
            } else {
                None
            },
    {
        match self.fds.get(&fd) {
            Some(registration) => Some(registration.interest),
            None => None,
        }
    }
}

} // verus!
