//! What the library takes on trust from `std`'s task and sharing types.
//!
//! A [`Waker`] and a shared completion flag pass through the registration table
//! as values that the library stores, hands on and acts through, and never looks
//! into. Nothing is claimed here of what waking does or of what a flag holds:
//! both are shared with other threads, out of reach of any proof made here.

use std::sync::atomic::AtomicBool;
use std::sync::Arc;
use std::task::Waker;
use vstd::prelude::*;

verus! {

/// `std::task::Waker`, through which a scheduler asks to have a task polled
/// again. Its contents are not visible to proofs.
#[verifier::external_type_specification]
#[verifier::external_body]
pub struct ExWaker(Waker);

/// `Waker::will_wake`. The answer is best-effort, `false` being possible even
/// for two wakers of one task, so nothing is claimed of it.
pub assume_specification[ Waker::will_wake ](waker: &Waker, other: &Waker) -> (same: bool)
;

/// `Waker::wake_by_ref`. It runs code that the scheduler supplied; nothing is
/// claimed of its effect.
pub assume_specification[ Waker::wake_by_ref ](waker: &Waker)
;

/// `Waker::clone`. The new waker wakes the task of the old one, which no
/// contract can say; nothing is claimed of the result.
pub assume_specification[ <Waker as Clone>::clone ](waker: &Waker) -> (copy: Waker)
;

/// `Arc::clone` on a completion flag: another handle to the same flag, so the
/// two are one value.
#[verifier::external_body]
pub(crate) fn share_flag(flag: &Arc<AtomicBool>) -> (shared: Arc<AtomicBool>)
    ensures
        shared == *flag,
{
    Arc::clone(flag)
}

} // verus!
