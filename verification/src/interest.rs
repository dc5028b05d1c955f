//! The readiness conditions a waiter can ask for.
//!
//! An [`Interest`] is a mask over two event bits, `POLLIN` and `POLLOUT`. Its
//! view is the pair of conditions the mask names, and every operation is
//! specified over that pair; the bit patterns appear only where a mask is built
//! from raw event bits or turned back into them.

use vstd::prelude::*;

verus! {

/// The bit that stands for "readable" in requested and reported events.
pub const POLLIN: i16 = 0x001;

/// The bit that stands for "writable" in requested and reported events.
pub const POLLOUT: i16 = 0x004;

/// The readiness conditions that a set of event bits names.
pub struct Conditions {
    pub read: bool,
    pub write: bool,
}

impl Conditions {
    /// Neither condition.
    pub open spec fn none() -> Conditions {
        Conditions { read: false, write: false }
    }

    /// Every condition of `other` is one of `self`.
    pub open spec fn includes(self, other: Conditions) -> bool {
        (other.read ==> self.read) && (other.write ==> self.write)
    }

    /// Some condition belongs to both.
    pub open spec fn overlaps(self, other: Conditions) -> bool {
        (self.read && other.read) || (self.write && other.write)
    }

    /// The conditions of either.
    pub open spec fn join(self, other: Conditions) -> Conditions {
        Conditions { read: self.read || other.read, write: self.write || other.write }
    }
}

/// The conditions named by the bits of `bits`; bits other than `POLLIN` and
/// `POLLOUT` name nothing.
pub open spec fn conditions_in(bits: i16) -> Conditions {
    Conditions { read: bits & POLLIN != 0, write: bits & POLLOUT != 0 }
}

/// The event bits that name exactly the conditions `c`.
pub open spec fn bits_of(c: Conditions) -> int {
    (if c.read {
        POLLIN as int
    } else {
        0
    }) + (if c.write {
        POLLOUT as int
    } else {
        0
    })
}

/// `bits` holds no bit but `POLLIN` and `POLLOUT`.
pub open spec fn is_mask(bits: i16) -> bool {
    bits == bits_of(conditions_in(bits))
}

/// Events that should be listened for on a given file descriptor.
#[derive(Clone, Copy, Debug, PartialEq, Eq, Hash, Structural)]
pub struct Interest {
    bits: i16,
}

impl View for Interest {
    type V = Conditions;

    closed spec fn view(&self) -> Conditions {
        conditions_in(self.bits)
    }
}

/// There are four masks, one for each choice of conditions: the values with
/// no bit set but `POLLIN` and `POLLOUT`.
pub proof fn lemma_masks(bits: i16)
    ensures
        conditions_in(0) == Conditions::none(),
        conditions_in(1) == (Conditions { read: true, write: false }),
        conditions_in(4) == (Conditions { read: false, write: true }),
        conditions_in(5) == (Conditions { read: true, write: true }),
        is_mask(bits) <==> bits == 0 || bits == 1 || bits == 4 || bits == 5,
        is_mask(bits) <==> bits & !5i16 == 0,
{
    assert(0i16 & 1i16 == 0 && 0i16 & 4i16 == 0) by (bit_vector);
    assert(1i16 & 1i16 != 0 && 1i16 & 4i16 == 0) by (bit_vector);
    assert(4i16 & 1i16 == 0 && 4i16 & 4i16 != 0) by (bit_vector);
    assert(5i16 & 1i16 != 0 && 5i16 & 4i16 != 0) by (bit_vector);
    assert(bits & !5i16 == 0 <==> bits == 0 || bits == 1 || bits == 4 || bits == 5)
        by (bit_vector);
}

/// Masking raw event bits keeps the conditions they name and drops the rest.
proof fn lemma_truncate(bits: i16)
    ensures
        is_mask(bits & 5i16),
        conditions_in(bits & 5i16) == conditions_in(bits),
{
    let kept = bits & 5i16;
    assert(kept == 0 || kept == 1 || kept == 4 || kept == 5) by (bit_vector)
        requires
            kept == bits & 5i16,
    ;
    assert((kept & 1i16 != 0) == (bits & 1i16 != 0) && (kept & 4i16 != 0) == (bits & 4i16 != 0))
        by (bit_vector)
        requires
            kept == bits & 5i16,
    ;
    lemma_masks(kept);
}

impl Interest {
    /// No bit is set but `POLLIN` and `POLLOUT`.
    #[verifier::type_invariant]
    pub closed spec fn wf(self) -> bool {
        is_mask(self.bits)
    }

    /// Listen for nothing.
    pub fn empty() -> (interest: Interest)
        ensures
            interest@ == Conditions::none(),
            interest.wf(),
    {
        proof {
            lemma_masks(0);
        }
        Interest { bits: 0 }
    }

    /// Listen for read events.
    pub fn read() -> (interest: Interest)
        ensures
            interest@ == (Conditions { read: true, write: false }),
            interest.wf(),
    {
        proof {
            lemma_masks(0x001);
        }
        Interest { bits: 0x001 }
    }

    /// Listen for write events.
    pub fn write() -> (interest: Interest)
        ensures
            interest@ == (Conditions { read: false, write: true }),
            interest.wf(),
    {
        proof {
            lemma_masks(0x004);
        }
        Interest { bits: 0x004 }
    }

    /// Listen for both read and write events.
    pub fn both() -> (interest: Interest)
        ensures
            interest@ == (Conditions { read: true, write: true }),
            interest.wf(),
    {
        proof {
            lemma_masks(0x005);
        }
        Interest { bits: 0x005 }
    }

    /// The raw event bits: exactly those of the conditions listened for.
    pub fn bits(&self) -> (bits: i16)
        ensures
            bits == bits_of(self@),
    {
        proof {
            use_type_invariant(self);
        }
        self.bits
    }

    /// The mask with the given bits, unless one of them is neither `POLLIN`
    /// nor `POLLOUT`.
    pub fn from_bits(bits: i16) -> (interest: Option<Interest>)
        ensures
            interest is Some <==> is_mask(bits),
            interest matches Some(i) ==> i@ == conditions_in(bits) && i.wf(),
    {
        proof {
            lemma_masks(bits);
        }
        if bits & !0x005i16 == 0 {
            Some(Interest { bits })
        } else {
            None
        }
    }

    /// The mask of the conditions that `bits` names, whatever else is set in it.
    pub fn from_bits_truncate(bits: i16) -> (interest: Interest)
        ensures
            interest@ == conditions_in(bits),
            interest.wf(),
    {
        proof {
            lemma_truncate(bits);
        }
        Interest { bits: bits & 0x005i16 }
    }

    /// Whether nothing is listened for.
    pub fn is_empty(&self) -> (empty: bool)
        ensures
            empty == (self@ == Conditions::none()),
    {
        proof {
            use_type_invariant(self);
            lemma_masks(self.bits);
        }
        self.bits == 0
    }

    /// Whether every condition of `other` is listened for.
    pub fn contains(&self, other: Interest) -> (all: bool)
        ensures
            all == self@.includes(other@),
    {
        proof {
            use_type_invariant(self);
            use_type_invariant(other);
            lemma_masks(self.bits);
            lemma_masks(other.bits);
            let a = self.bits;
            let b = other.bits;
            assert(((a & b) == b) == (((b & 1i16 != 0) ==> (a & 1i16 != 0)) && ((b & 4i16 != 0)
                ==> (a & 4i16 != 0)))) by (bit_vector)
                requires
                    a & !5i16 == 0,
                    b & !5i16 == 0,
            ;
        }
        (self.bits & other.bits) == other.bits
    }

    /// Whether some condition of `other` is listened for.
    pub fn intersects(&self, other: Interest) -> (some: bool)
        ensures
            some == self@.overlaps(other@),
    {
        proof {
            use_type_invariant(self);
            use_type_invariant(other);
            lemma_masks(self.bits);
            lemma_masks(other.bits);
            let a = self.bits;
            let b = other.bits;
            assert(((a & b) != 0) == (((a & 1i16 != 0) && (b & 1i16 != 0)) || ((a & 4i16 != 0) && (
            b & 4i16 != 0)))) by (bit_vector)
                requires
                    a & !5i16 == 0,
                    b & !5i16 == 0,
            ;
        }
        (self.bits & other.bits) != 0
    }

    /// The mask that listens for the conditions of either.
    pub fn union(&self, other: Interest) -> (both: Interest)
        ensures
            both@ == self@.join(other@),
            both.wf(),
    {
        proof {
            use_type_invariant(self);
            use_type_invariant(other);
            lemma_masks(self.bits);
            lemma_masks(other.bits);
            let a = self.bits;
            let b = other.bits;
            assert(((a | b) & !5i16 == 0) && (((a | b) & 1i16 != 0) == ((a & 1i16 != 0) || (b
                & 1i16 != 0))) && (((a | b) & 4i16 != 0) == ((a & 4i16 != 0) || (b & 4i16 != 0))))
                by (bit_vector)
                requires
                    a & !5i16 == 0,
                    b & !5i16 == 0,
            ;
            lemma_masks(a | b);
        }
        Interest { bits: self.bits | other.bits }
    }

    /// Whether the reported events `revents` hold a condition listened for.
    /// Reported bits that name neither condition count for nothing.
    pub open spec fn satisfied_by(self, revents: i16) -> bool {
        self@.overlaps(conditions_in(revents))
    }

    /// Whether the reported events `revents` hold a condition listened for.
    pub fn is_satisfied_by(&self, revents: i16) -> (satisfied: bool)
        ensures
            satisfied == self.satisfied_by(revents),
    {
        self.intersects(Interest::from_bits_truncate(revents))
    }
}

/// A mask is determined by the conditions it names.
pub proof fn lemma_interest_is_its_conditions(a: Interest, b: Interest)
    requires
        a.wf(),
        b.wf(),
    ensures
        a@ == b@ <==> a == b,
{
    lemma_masks(a.bits);
    lemma_masks(b.bits);
}

} // verus!
