use fd_reactor::future::{FdFuture, Progress, Step};
use fd_reactor::interest::{Interest, POLLIN, POLLOUT};
use fd_reactor::reactor::{Handle, PollFd, RawFd};
use std::sync::atomic::{AtomicUsize, Ordering};
use std::sync::Arc;
use std::task::{Wake, Waker};

const INTERRUPT: RawFd = 100;

struct Counter {
    woken: AtomicUsize,
}

impl Wake for Counter {
    fn wake(self: Arc<Self>) {
        self.woken.fetch_add(1, Ordering::SeqCst);
    }
}

fn counting_waker() -> (Arc<Counter>, Waker) {
    let counter = Arc::new(Counter { woken: AtomicUsize::new(0) });
    (counter.clone(), Waker::from(counter))
}

fn woken(counter: &Arc<Counter>) -> usize {
    counter.woken.load(Ordering::SeqCst)
}

fn entry(fd: RawFd, events: i16, revents: i16) -> PollFd {
    PollFd { fd, events, revents }
}

#[test]
fn a_new_future_keeps_what_it_waits_for() {
    let future = FdFuture::new(3, Interest::read());
    assert_eq!(future.fd(), 3);
    assert_eq!(future.interest(), Interest::read());
    let other = FdFuture::new(-1, Interest::both());
    assert_eq!(other.fd(), -1);
    assert_eq!(other.interest(), Interest::both());
}

#[test]
fn a_future_that_has_not_registered_finishes_or_registers() {
    let future = FdFuture::new(3, Interest::read());
    assert_eq!(future.decide(false, false), Step::Rearm);
    assert_eq!(future.decide(false, true), Step::Rearm);
    assert_eq!(future.decide(true, false), Step::Finish);
    assert_eq!(future.decide(true, true), Step::Finish);
}

#[test]
fn a_registered_future_waits_while_the_waker_is_the_same() {
    let mut reactor = Handle::new();
    let mut future = FdFuture::new(3, Interest::read());
    let (_, waker) = counting_waker();
    assert_eq!(future.carry_out(&mut reactor, Step::Rearm, waker.clone()), Progress::Pending);
    assert_eq!(future.decide(false, true), Step::Wait);
    assert_eq!(future.decide(false, false), Step::Rearm);
    assert_eq!(future.decide(true, true), Step::Finish);
    assert_eq!(future.decide(true, false), Step::Finish);
}

#[test]
fn the_first_plan_is_to_register() {
    let future = FdFuture::new(3, Interest::read());
    let (_, waker) = counting_waker();
    assert_eq!(future.plan(&waker), Step::Rearm);
}

#[test]
fn the_plan_follows_the_waker_and_the_flag() {
    let mut reactor = Handle::new();
    let mut future = FdFuture::new(3, Interest::read());
    let (_, waker) = counting_waker();
    let (_, other) = counting_waker();
    future.carry_out(&mut reactor, Step::Rearm, waker.clone());
    assert_eq!(future.plan(&waker), Step::Wait);
    assert_eq!(future.plan(&waker.clone()), Step::Wait);
    assert_eq!(future.plan(&other), Step::Rearm);
    reactor.dispatch(&vec![entry(INTERRUPT, POLLIN, 0), entry(3, POLLIN, POLLIN)]);
    assert_eq!(future.plan(&waker), Step::Finish);
    assert_eq!(future.plan(&other), Step::Finish);
}

#[test]
fn to_rearm_registers_the_wait_and_owes_two_interrupts() {
    let mut reactor = Handle::new();
    let mut future = FdFuture::new(3, Interest::write());
    let (counter, waker) = counting_waker();
    assert_eq!(future.carry_out(&mut reactor, Step::Rearm, waker.clone()), Progress::Pending);
    assert_eq!(reactor.len(), 1);
    assert_eq!(reactor.interest_of(3), Some(Interest::write()));
    assert_eq!(reactor.take_interrupts(), 2);
    assert_eq!(future.fd(), 3);
    assert_eq!(future.interest(), Interest::write());
    assert_eq!(reactor.dispatch(&vec![entry(INTERRUPT, POLLIN, 0), entry(3, POLLOUT, POLLOUT)]), vec![3]);
    assert_eq!(woken(&counter), 1);
}

#[test]
fn to_rearm_leaves_other_descriptors_alone() {
    let mut reactor = Handle::new();
    let mut first = FdFuture::new(3, Interest::read());
    let mut second = FdFuture::new(4, Interest::write());
    let (_, waker) = counting_waker();
    first.carry_out(&mut reactor, Step::Rearm, waker.clone());
    second.carry_out(&mut reactor, Step::Rearm, waker.clone());
    first.carry_out(&mut reactor, Step::Rearm, waker.clone());
    assert_eq!(reactor.len(), 2);
    assert_eq!(reactor.interest_of(3), Some(Interest::read()));
    assert_eq!(reactor.interest_of(4), Some(Interest::write()));
    assert_eq!(reactor.take_interrupts(), 6);
}

#[test]
fn to_wait_changes_nothing() {
    let mut reactor = Handle::new();
    let mut future = FdFuture::new(3, Interest::read());
    let (counter, waker) = counting_waker();
    assert_eq!(future.carry_out(&mut reactor, Step::Wait, waker.clone()), Progress::Pending);
    assert_eq!(reactor.len(), 0);
    assert_eq!(reactor.take_interrupts(), 0);
    future.carry_out(&mut reactor, Step::Rearm, waker.clone());
    reactor.take_interrupts();
    assert_eq!(future.carry_out(&mut reactor, Step::Wait, waker.clone()), Progress::Pending);
    assert_eq!(reactor.len(), 1);
    assert_eq!(reactor.interest_of(3), Some(Interest::read()));
    assert_eq!(reactor.take_interrupts(), 0);
    assert_eq!(woken(&counter), 0);
}

#[test]
fn to_finish_unregisters_and_owes_one_interrupt() {
    let mut reactor = Handle::new();
    let mut future = FdFuture::new(3, Interest::read());
    let mut other = FdFuture::new(4, Interest::read());
    let (_, waker) = counting_waker();
    future.carry_out(&mut reactor, Step::Rearm, waker.clone());
    other.carry_out(&mut reactor, Step::Rearm, waker.clone());
    reactor.take_interrupts();
    assert_eq!(future.carry_out(&mut reactor, Step::Finish, waker.clone()), Progress::Ready);
    assert!(!reactor.is_registered(3));
    assert!(reactor.is_registered(4));
    assert_eq!(reactor.take_interrupts(), 1);
    assert_eq!(future.carry_out(&mut reactor, Step::Finish, waker.clone()), Progress::Ready);
    assert_eq!(reactor.len(), 1);
    assert_eq!(reactor.take_interrupts(), 1);
}

#[test]
fn the_first_poll_registers_and_is_pending() {
    let mut reactor = Handle::new();
    let mut future = FdFuture::new(3, Interest::both());
    let (counter, waker) = counting_waker();
    assert_eq!(future.poll(&mut reactor, waker.clone()), Progress::Pending);
    assert_eq!(reactor.len(), 1);
    assert_eq!(reactor.interest_of(3), Some(Interest::both()));
    assert_eq!(reactor.take_interrupts(), 2);
    assert_eq!(woken(&counter), 0);
}

#[test]
fn polling_again_with_the_same_waker_registers_nothing() {
    let mut reactor = Handle::new();
    let mut future = FdFuture::new(3, Interest::read());
    let (_, waker) = counting_waker();
    assert_eq!(future.poll(&mut reactor, waker.clone()), Progress::Pending);
    assert_eq!(reactor.take_interrupts(), 2);
    for _ in 0..5 {
        assert_eq!(future.poll(&mut reactor, waker.clone()), Progress::Pending);
        assert_eq!(reactor.len(), 1);
        assert_eq!(reactor.take_interrupts(), 0);
    }
    assert_eq!(reactor.wait_set(INTERRUPT), vec![entry(INTERRUPT, POLLIN, 0), entry(3, POLLIN, 0)]);
}

#[test]
fn polling_with_another_waker_replaces_the_registered_one() {
    let mut reactor = Handle::new();
    let mut future = FdFuture::new(3, Interest::read());
    let (stale, stale_waker) = counting_waker();
    let (fresh, fresh_waker) = counting_waker();
    assert_eq!(future.poll(&mut reactor, stale_waker.clone()), Progress::Pending);
    assert_eq!(future.poll(&mut reactor, fresh_waker.clone()), Progress::Pending);
    assert_eq!(reactor.len(), 1);
    assert_eq!(reactor.take_interrupts(), 4);
    assert_eq!(reactor.dispatch(&vec![entry(INTERRUPT, POLLIN, 0), entry(3, POLLIN, POLLIN)]), vec![3]);
    assert_eq!(woken(&stale), 0);
    assert_eq!(woken(&fresh), 1);
    assert_eq!(future.poll(&mut reactor, fresh_waker.clone()), Progress::Ready);
}

#[test]
fn the_new_waker_is_the_one_kept_for_the_next_poll() {
    let mut reactor = Handle::new();
    let mut future = FdFuture::new(3, Interest::read());
    let (_, first) = counting_waker();
    let (_, second) = counting_waker();
    future.poll(&mut reactor, first.clone());
    future.poll(&mut reactor, second.clone());
    reactor.take_interrupts();
    assert_eq!(future.plan(&second), Step::Wait);
    assert_eq!(future.plan(&first), Step::Rearm);
    assert_eq!(future.poll(&mut reactor, second.clone()), Progress::Pending);
    assert_eq!(reactor.take_interrupts(), 0);
}

#[test]
fn the_flag_of_the_registration_is_the_flag_of_the_future() {
    let mut reactor = Handle::new();
    let mut future = FdFuture::new(3, Interest::read());
    let mut other = FdFuture::new(4, Interest::read());
    let (_, waker) = counting_waker();
    future.poll(&mut reactor, waker.clone());
    other.poll(&mut reactor, waker.clone());
    reactor.dispatch(&vec![entry(INTERRUPT, POLLIN, 0), entry(3, POLLIN, POLLIN)]);
    assert_eq!(other.poll(&mut reactor, waker.clone()), Progress::Pending);
    assert_eq!(future.poll(&mut reactor, waker.clone()), Progress::Ready);
    assert!(!reactor.is_registered(3));
    assert!(reactor.is_registered(4));
}

#[test]
fn a_finished_future_stays_finished() {
    let mut reactor = Handle::new();
    let mut future = FdFuture::new(3, Interest::write());
    let (_, waker) = counting_waker();
    let (_, other) = counting_waker();
    future.poll(&mut reactor, waker.clone());
    reactor.dispatch(&vec![entry(INTERRUPT, POLLIN, 0), entry(3, POLLOUT, POLLOUT)]);
    reactor.take_interrupts();
    assert_eq!(future.poll(&mut reactor, waker.clone()), Progress::Ready);
    assert_eq!(future.poll(&mut reactor, other.clone()), Progress::Ready);
    assert_eq!(reactor.len(), 0);
    assert_eq!(reactor.take_interrupts(), 2);
}
