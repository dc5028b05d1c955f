//! What holds of the reactor as a whole, over the models that the contracts of
//! the table, the turn and the waiter are stated in.

use crate::future::{interrupts_of, next_step, progress_of, rearmed, Progress, Step, Waiter};
use crate::interest::bits_of;
use crate::reactor::{
    completes, completing, delivered, fd_of, interrupted, is_wait_set, notified, registered,
    request, unregistered, waited, PollFd, RawFd, Registration,
};
use std::task::Waker;
use vstd::prelude::*;

verus! {

/// What a wait may report on a set: the entries of the set, in their order,
/// each with whatever events reported for it.
pub open spec fn reports_on(set: Seq<PollFd>, polled: Seq<PollFd>) -> bool {
    &&& polled.len() == set.len()
    &&& forall|i: int|
        0 <= i < set.len() ==> (#[trigger] polled[i]).fd == set[i].fd && polled[i].events
            == set[i].events
}

/// The table after each of `entries` was registered, in their order.
pub open spec fn registered_all(
    table: Map<RawFd, Registration>,
    entries: Seq<(RawFd, Registration)>,
) -> Map<RawFd, Registration>
    decreases entries.len(),
{
    if entries.len() == 0 {
        table
    } else {
        registered(registered_all(table, entries.drop_last()), entries.last().0, entries.last().1)
    }
}

/// No descriptor occurs twice among `entries`.
pub open spec fn distinct_fds(entries: Seq<(RawFd, Registration)>) -> bool {
    forall|i: int, j: int|
        0 <= i < j < entries.len() ==> (#[trigger] entries[i]).0 != (#[trigger] entries[j]).0
}

/// A descriptor that was registered is waited on from the next wait set on,
/// for the events of its interest.
pub proof fn law_registered_is_waited_on(
    table: Map<RawFd, Registration>,
    fd: RawFd,
    registration: Registration,
    interrupt: RawFd,
    set: Seq<PollFd>,
)
    requires
        is_wait_set(registered(table, fd, registration), interrupt, set),
    ensures
        exists|i: int|
            1 <= i < set.len() && #[trigger] set[i] == request(
                fd,
                bits_of(registration.interest@),
            ),
{
    let after = registered(table, fd, registration);
    assert(after.contains_key(fd));
    let i = choose|i: int| 1 <= i < set.len() && #[trigger] set[i].fd == fd;
}

/// A descriptor that is not registered is not waited on: unregistering takes
/// it out of every later wait set.
pub proof fn law_unregistered_is_not_waited_on(
    table: Map<RawFd, Registration>,
    fd: RawFd,
    interrupt: RawFd,
    set: Seq<PollFd>,
)
    requires
        is_wait_set(unregistered(table, fd), interrupt, set),
    ensures
        forall|i: int| 1 <= i < set.len() ==> (#[trigger] set[i]).fd != fd,
{
    assert forall|i: int| 1 <= i < set.len() implies (#[trigger] set[i]).fd != fd by {
    }
}

/// The waiters notified are those, and only those, whose registered
/// descriptor has an entry, after the first, that completes its wait.
pub proof fn law_notified_iff_completed(
    table: Map<RawFd, Registration>,
    polled: Seq<PollFd>,
    fd: RawFd,
)
    ensures
        notified(table, polled).contains(fd) <==> exists|i: int|
            1 <= i < polled.len() && (#[trigger] polled[i]).fd == fd && completes(
                table,
                polled[i],
            ),
{
    let entries = waited(polled);
    let kept = entries.filter(completing(table));
    if notified(table, polled).contains(fd) {
        let k = choose|k: int| 0 <= k < kept.len() && kept.map_values(fd_of())[k] == fd;
        entries.lemma_filter_pred(completing(table), k);
        entries.lemma_filter_contains_rev(completing(table), kept[k]);
        let j = choose|j: int| 0 <= j < entries.len() && entries[j] == kept[k];
        assert(polled[j + 1] == kept[k]);
    }
    if exists|i: int|
        1 <= i < polled.len() && (#[trigger] polled[i]).fd == fd && completes(table, polled[i]) {
        let i = choose|i: int|
            1 <= i < polled.len() && (#[trigger] polled[i]).fd == fd && completes(table, polled[i]);
        entries.lemma_filter_contains(completing(table), i - 1);
        let k = choose|k: int| 0 <= k < kept.len() && kept[k] == entries[i - 1];
        assert(kept.map_values(fd_of())[k] == fd);
    }
}

/// Filtering keeps the descriptors of the entries apart.
proof fn lemma_filter_keeps_fds_apart(entries: Seq<PollFd>, keep: spec_fn(PollFd) -> bool)
    requires
        forall|i: int, j: int|
            0 <= i < j < entries.len() ==> (#[trigger] entries[i]).fd != (#[trigger] entries[j]).fd,
    ensures
        forall|a: int, b: int|
            0 <= a < b < entries.filter(keep).len() ==> (#[trigger] entries.filter(keep)[a]).fd != (
            #[trigger] entries.filter(keep)[b]).fd,
    decreases entries.len(),
{
    reveal(Seq::filter);
    if entries.len() > 0 {
        let front = entries.drop_last();
        lemma_filter_keeps_fds_apart(front, keep);
        let kept = entries.filter(keep);
        assert forall|a: int, b: int| 0 <= a < b < kept.len() implies (#[trigger] kept[a]).fd != (
        #[trigger] kept[b]).fd by {
            if b == front.filter(keep).len() {
                front.lemma_filter_contains_rev(keep, kept[a]);
                let i = choose|i: int| 0 <= i < front.len() && front[i] == kept[a];
                assert(entries[i] == kept[a] && entries.last() == kept[b]);
            }
        }
    }
}

/// One turn notifies no waiter twice: a report on a wait set names each
/// descriptor once, so each is notified once at most. This holds whatever has
/// become of the table since the set was built from it.
pub proof fn law_notified_once_a_turn(
    table: Map<RawFd, Registration>,
    earlier: Map<RawFd, Registration>,
    interrupt: RawFd,
    set: Seq<PollFd>,
    polled: Seq<PollFd>,
)
    requires
        is_wait_set(earlier, interrupt, set),
        reports_on(set, polled),
    ensures
        notified(table, polled).no_duplicates(),
{
    let entries = waited(polled);
    assert forall|i: int, j: int| 0 <= i < j < entries.len() implies (#[trigger] entries[i]).fd
        != (#[trigger] entries[j]).fd by {
        assert(set[i + 1].fd != set[j + 1].fd);
    }
    lemma_filter_keeps_fds_apart(entries, completing(table));
    let kept = entries.filter(completing(table));
    assert forall|a: int, b: int|
        0 <= a < kept.len() && 0 <= b < kept.len() && a != b implies kept.map_values(fd_of())[a]
        != kept.map_values(fd_of())[b] by {
        if a < b {
            assert(kept[a].fd != kept[b].fd);
        } else {
            assert(kept[b].fd != kept[a].fd);
        }
    }
}

/// A descriptor registered for an interest, and then reported with events
/// that hold a condition of that interest, has its waiter notified in the
/// turn that sees the report, and once only.
///
/// The report is one on a wait set built after the registration, and it does
/// not report an interrupt: so the turn is the first one, after the turns that
/// only answer interrupts, to wait on the descriptor and find it ready.
pub proof fn law_ready_registration_is_notified(
    table: Map<RawFd, Registration>,
    fd: RawFd,
    registration: Registration,
    interrupt: RawFd,
    set: Seq<PollFd>,
    polled: Seq<PollFd>,
)
    requires
        is_wait_set(registered(table, fd, registration), interrupt, set),
        reports_on(set, polled),
        !interrupted(polled),
        forall|i: int|
            1 <= i < polled.len() && (#[trigger] polled[i]).fd == fd
                ==> registration.interest.satisfied_by(polled[i].revents),
    ensures
        delivered(registered(table, fd, registration), polled).contains(fd),
        delivered(registered(table, fd, registration), polled).no_duplicates(),
{
    let after = registered(table, fd, registration);
    law_registered_is_waited_on(table, fd, registration, interrupt, set);
    let i = choose|i: int|
        1 <= i < set.len() && #[trigger] set[i] == request(fd, bits_of(registration.interest@));
    assert(completes(after, polled[i]));
    law_notified_iff_completed(after, polled, fd);
    law_notified_once_a_turn(after, after, interrupt, set, polled);
}

/// A descriptor that is not registered has nobody notified, whatever is
/// reported for it: once a finished wait is unregistered, it is not notified
/// again.
pub proof fn law_unregistered_is_not_notified(
    table: Map<RawFd, Registration>,
    fd: RawFd,
    polled: Seq<PollFd>,
)
    ensures
        !notified(unregistered(table, fd), polled).contains(fd),
        !delivered(unregistered(table, fd), polled).contains(fd),
{
    law_notified_iff_completed(unregistered(table, fd), polled, fd);
}

/// Unregistering a descriptor that is not registered changes nothing, and
/// unregistering twice is unregistering once.
pub proof fn law_unregister_is_idempotent(table: Map<RawFd, Registration>, fd: RawFd)
    ensures
        !table.contains_key(fd) ==> unregistered(table, fd) == table,
        unregistered(unregistered(table, fd), fd) == unregistered(table, fd),
        !unregistered(table, fd).contains_key(fd),
        forall|other: RawFd|
            other != fd ==> (#[trigger] unregistered(table, fd).contains_key(other)
                <==> table.contains_key(other)),
{
}

/// Of several registrations of one descriptor the last one stands, alone: with
/// or without an unregistration in between, the table is as if only the last
/// had been made, and no trace of the earlier one is left in it.
pub proof fn law_last_registration_stands(
    table: Map<RawFd, Registration>,
    fd: RawFd,
    first: Registration,
    last: Registration,
)
    ensures
        registered(registered(table, fd, first), fd, last) == registered(table, fd, last),
        registered(unregistered(registered(table, fd, first), fd), fd, last) == registered(
            table,
            fd,
            last,
        ),
        registered(table, fd, last)[fd] == last,
        table.dom().finite() ==> registered(table, fd, last).len() == registered(
            table,
            fd,
            first,
        ).len(),
{
    assert(registered(unregistered(registered(table, fd, first), fd), fd, last) =~= registered(
        table,
        fd,
        last,
    ));
}

/// A poll reports the wait over if and only if the completion flag is set,
/// whatever the waker; and once the flag is set, no poll registers the wait
/// again.
pub proof fn law_poll_resolves_iff_completed(armed: bool, completed: bool, same_waker: bool)
    ensures
        progress_of(next_step(armed, completed, same_waker)) == Progress::Ready <==> completed,
        completed ==> next_step(armed, completed, same_waker) == Step::Finish,
        completed ==> interrupts_of(next_step(armed, completed, same_waker)) == 1,
{
}

/// A poll of a registered waiter with the waker of its registration, before
/// the flag is set, leaves the table alone and owes no interrupt; any other
/// poll changes the table.
pub proof fn law_same_waker_poll_waits(armed: bool, completed: bool, same_waker: bool)
    ensures
        next_step(armed, completed, same_waker) == Step::Wait <==> !completed && armed
            && same_waker,
        interrupts_of(next_step(armed, completed, same_waker)) == 0 <==> !completed && armed
            && same_waker,
        !armed ==> next_step(armed, completed, same_waker) != Step::Wait,
{
}

/// A poll that registers the wait anew leaves one entry for its descriptor,
/// the new one with the new waker, and every other entry as it was: the table
/// grows by that entry if the descriptor had none, and not at all if it had
/// one. What was registered for the descriptor before, and so the waker that
/// stood there, is in the table no more.
pub proof fn law_rearmed_keeps_one_entry(
    before: Map<RawFd, Registration>,
    waiter: Waiter,
    waker: Waker,
)
    requires
        before.dom().finite(),
    ensures
        rearmed(before, waiter, waker).contains_key(waiter.fd),
        rearmed(before, waiter, waker)[waiter.fd] == (Registration {
            interest: waiter.interest,
            completed: waiter.completed,
            waker,
        }),
        forall|other: RawFd|
            other != waiter.fd ==> (#[trigger] rearmed(before, waiter, waker).contains_key(other)
                <==> before.contains_key(other)),
        forall|other: RawFd|
            other != waiter.fd && before.contains_key(other) ==> #[trigger] rearmed(
                before,
                waiter,
                waker,
            )[other] == before[other],
        rearmed(before, waiter, waker).len() == if before.contains_key(waiter.fd) {
            before.len()
        } else {
            before.len() + 1
        },
        rearmed(rearmed(before, waiter, waker), waiter, waker) == rearmed(before, waiter, waker),
{
    assert(rearmed(before, waiter, waker).dom() =~= before.dom().insert(waiter.fd));
}

/// Registrations of different descriptors do not disturb each other: in
/// either order they leave the same table.
pub proof fn law_registrations_commute(
    table: Map<RawFd, Registration>,
    a: RawFd,
    for_a: Registration,
    b: RawFd,
    for_b: Registration,
)
    requires
        a != b,
    ensures
        registered(registered(table, a, for_a), b, for_b) == registered(
            registered(table, b, for_b),
            a,
            for_a,
        ),
{
    assert(registered(registered(table, a, for_a), b, for_b) =~= registered(
        registered(table, b, for_b),
        a,
        for_a,
    ));
}

/// What stands in the table after a run of registrations of descriptors that
/// are all different: each of them with its own registration, and what stood
/// there before for any other descriptor.
proof fn lemma_registered_all(
    table: Map<RawFd, Registration>,
    entries: Seq<(RawFd, Registration)>,
)
    requires
        distinct_fds(entries),
    ensures
        forall|i: int|
            0 <= i < entries.len() ==> registered_all(table, entries).contains_key(
                (#[trigger] entries[i]).0,
            ) && registered_all(table, entries)[entries[i].0] == entries[i].1,
        forall|fd: RawFd|
            (forall|i: int| 0 <= i < entries.len() ==> (#[trigger] entries[i]).0 != fd) ==> (
            #[trigger] registered_all(table, entries).contains_key(fd) <==> table.contains_key(fd))
                && (table.contains_key(fd) ==> registered_all(table, entries)[fd] == table[fd]),
    decreases entries.len(),
{
    if entries.len() > 0 {
        let front = entries.drop_last();
        lemma_registered_all(table, front);
        let all = registered_all(table, entries);
        assert forall|i: int| 0 <= i < entries.len() implies all.contains_key(
            (#[trigger] entries[i]).0,
        ) && all[entries[i].0] == entries[i].1 by {
            if i < front.len() {
                assert(front[i] == entries[i]);
            }
        }
        assert forall|fd: RawFd|
            (forall|i: int| 0 <= i < entries.len() ==> (#[trigger] entries[i]).0 != fd) implies (
        #[trigger] all.contains_key(fd) <==> table.contains_key(fd)) && (table.contains_key(fd)
            ==> all[fd] == table[fd]) by {
            assert forall|i: int| 0 <= i < front.len() implies (#[trigger] front[i]).0 != fd by {
                assert(front[i] == entries[i]);
            }
            assert(registered_all(table, front).contains_key(fd) <==> table.contains_key(fd));
        }
    }
}

/// Registering N different descriptors, none of them registered before, adds
/// exactly N entries, whatever the order: each descriptor stands with its own
/// registration, and two orders of the same registrations leave the same
/// table.
pub proof fn law_distinct_registrations_all_stand(
    table: Map<RawFd, Registration>,
    entries: Seq<(RawFd, Registration)>,
    reordered: Seq<(RawFd, Registration)>,
)
    requires
        table.dom().finite(),
        distinct_fds(entries),
        forall|i: int| 0 <= i < entries.len() ==> !table.contains_key((#[trigger] entries[i]).0),
        distinct_fds(reordered),
        reordered.to_set() == entries.to_set(),
    ensures
        registered_all(table, entries).dom().finite(),
        registered_all(table, entries).len() == table.len() + entries.len(),
        forall|i: int|
            0 <= i < entries.len() ==> registered_all(table, entries).contains_key(
                (#[trigger] entries[i]).0,
            ) && registered_all(table, entries)[entries[i].0] == entries[i].1,
        registered_all(table, reordered) == registered_all(table, entries),
{
    lemma_registered_all(table, entries);
    lemma_registered_all(table, reordered);
    lemma_registered_all_len(table, entries);
    let one = registered_all(table, entries);
    let other = registered_all(table, reordered);
    assert forall|fd: RawFd|
        one.contains_key(fd) == other.contains_key(fd) && (one.contains_key(fd) ==> one[fd]
            == other[fd]) by {
        if exists|i: int| 0 <= i < entries.len() && (#[trigger] entries[i]).0 == fd {
            let i = choose|i: int| 0 <= i < entries.len() && (#[trigger] entries[i]).0 == fd;
            assert(entries.to_set().contains(entries[i]));
            let j = choose|j: int| 0 <= j < reordered.len() && reordered[j] == entries[i];
            assert(one[fd] == entries[i].1 && other[fd] == reordered[j].1);
        } else {
            assert forall|j: int| 0 <= j < reordered.len() implies (#[trigger] reordered[j]).0
                != fd by {
                assert(reordered.to_set().contains(reordered[j]));
            }
        }
    }
}

/// The size of the table after a run of registrations of different
/// descriptors that were not registered before.
proof fn lemma_registered_all_len(
    table: Map<RawFd, Registration>,
    entries: Seq<(RawFd, Registration)>,
)
    requires
        table.dom().finite(),
        distinct_fds(entries),
        forall|i: int| 0 <= i < entries.len() ==> !table.contains_key((#[trigger] entries[i]).0),
    ensures
        registered_all(table, entries).dom().finite(),
        registered_all(table, entries).len() == table.len() + entries.len(),
    decreases entries.len(),
{
    if entries.len() > 0 {
        let front = entries.drop_last();
        assert forall|i: int| 0 <= i < front.len() implies !table.contains_key(
            (#[trigger] front[i]).0,
        ) by {
            assert(front[i] == entries[i]);
        }
        lemma_registered_all_len(table, front);
        lemma_registered_all(table, front);
        let last = entries.last();
        assert forall|i: int| 0 <= i < front.len() implies (#[trigger] front[i]).0 != last.0 by {
            assert(front[i] == entries[i]);
        }
        assert(!registered_all(table, front).contains_key(last.0));
    }
}

} // verus!
