//! Byte accumulators: a pair of monotonically increasing counters for
//! incoming and outgoing traffic, with merge, reset and interval-normalised
//! rate computation.

use vstd::prelude::*;

verus! {

/// A pair of byte counters. The counters only grow, except through an
/// explicit [`Transfer::reset`] or [`Transfer::drain_and_reset`].
#[derive(Debug, Clone, Copy, PartialEq, Eq, Structural)]
pub struct Transfer {
    pub incoming: u64,
    pub outgoing: u64,
}

/// Field-wise sum of two accumulators: the mathematical model of `merge`.
pub open spec fn merged(a: Transfer, b: Transfer) -> Transfer {
    Transfer {
        incoming: (a.incoming + b.incoming) as u64,
        outgoing: (a.outgoing + b.outgoing) as u64,
    }
}

/// Both field-wise sums stay within the counters' range.
pub open spec fn merge_fits(a: Transfer, b: Transfer) -> bool {
    &&& a.incoming + b.incoming <= u64::MAX
    &&& a.outgoing + b.outgoing <= u64::MAX
}

/// Both counters are zero.
pub open spec fn is_zero(t: Transfer) -> bool {
    t.incoming == 0 && t.outgoing == 0
}

impl Transfer {
    pub fn new() -> (t: Transfer)
        ensures
            is_zero(t),
    {
        Transfer { incoming: 0, outgoing: 0 }
    }

    pub fn incr_incoming(&mut self, incr: u64)
        requires
            old(self).incoming + incr <= u64::MAX,
        ensures
            final(self).incoming == old(self).incoming + incr,
            final(self).outgoing == old(self).outgoing,
    {
        self.incoming = self.incoming + incr;
    }

    pub fn incr_outgoing(&mut self, incr: u64)
        requires
            old(self).outgoing + incr <= u64::MAX,
        ensures
            final(self).outgoing == old(self).outgoing + incr,
            final(self).incoming == old(self).incoming,
    {
        self.outgoing = self.outgoing + incr;
    }

    pub fn reset(&mut self)
        ensures
            is_zero(*final(self)),
    {
        self.incoming = 0;
        self.outgoing = 0;
    }

    /// Atomically take the current counters and zero the live value: the
    /// taken snapshot holds exactly the bytes accumulated since the last
    /// reset, and the live accumulator starts over from zero.
    pub fn drain_and_reset(&mut self) -> (snapshot: Transfer)
        ensures
            snapshot == *old(self),
            is_zero(*final(self)),
    {
        let snapshot = *self;
        self.reset();
        snapshot
    }

    /// Merge another accumulator into this one, field-wise.
    pub fn merge(&mut self, other: &Transfer)
        requires
            merge_fits(*old(self), *other),
        ensures
            *final(self) == merged(*old(self), *other),
    {
        self.incoming = self.incoming + other.incoming;
        self.outgoing = self.outgoing + other.outgoing;
    }

    /// Interval-normalised rates, in bytes per second: each counter scaled
    /// by `1000 / millis`. An interval of zero is a caller error.
    pub fn stats(&self, millis: u64) -> (r: (u64, u64))
        requires
            millis > 0,
            self.incoming * 1000 / (millis as int) <= u64::MAX,
            self.outgoing * 1000 / (millis as int) <= u64::MAX,
        ensures
            r.0 == self.incoming * 1000 / (millis as int),
            r.1 == self.outgoing * 1000 / (millis as int),
    {
        let incoming: u64 = ((self.incoming as u128) * 1000 / (millis as u128)) as u64;
        let outgoing: u64 = ((self.outgoing as u128) * 1000 / (millis as u128)) as u64;
        (incoming, outgoing)
    }

    /// The interval-normalised rates, rendered human-readably, incoming
    /// first.
    pub fn stats_human(&self, millis: u64) -> (r: (String, String))
        requires
            millis > 0,
            self.incoming * 1000 / (millis as int) <= u64::MAX,
            self.outgoing * 1000 / (millis as int) <= u64::MAX,
        ensures
            r.0@ == byte_display_of((self.incoming * 1000 / (millis as int)) as u64),
            r.1@ == byte_display_of((self.outgoing * 1000 / (millis as int)) as u64),
    {
        let (incoming, outgoing) = self.stats(millis);
        (human_bytes(incoming), human_bytes(outgoing))
    }
}


/// The human-readable rendering of a byte count. What the rendering looks
/// like is the formatting crate's affair; it depends on the count alone.
pub uninterp spec fn byte_display_of(n: u64) -> Seq<char>;

/// Relies on the Display of bytesize::ByteSize: a human-readable rendering
/// of a byte count ("350 B", "1.5 MiB"), determined by the count alone.
#[verifier::external_body]
fn human_bytes(n: u64) -> (r: String)
    ensures
        r@ == byte_display_of(n),
{
    bytesize::ByteSize(n).to_string()
}

/// How one drain relates the accumulator before it, the snapshot it hands
/// out, and the accumulator it leaves behind.
pub open spec fn drained(before: Transfer, snapshot: Transfer, after: Transfer) -> bool {
    snapshot == before && is_zero(after)
}

/// Two immediate drains: whatever the accumulator held, the second drain's
/// snapshot is all-zero.
pub proof fn lemma_second_transfer_drain_is_zero(
    t0: Transfer,
    s1: Transfer,
    t1: Transfer,
    s2: Transfer,
    t2: Transfer,
)
    requires
        drained(t0, s1, t1),
        drained(t1, s2, t2),
    ensures
        is_zero(s2),
{
}

/// The counters never decrease except through an explicit reset: merging
/// another accumulator in leaves each counter at least as large as it was.
pub proof fn lemma_merge_monotone(a: Transfer, b: Transfer)
    requires
        merge_fits(a, b),
    ensures
        merged(a, b).incoming >= a.incoming,
        merged(a, b).outgoing >= a.outgoing,
{
}

/// `merge` is commutative: merging B into A yields the same accumulator,
/// field for field, as merging A into B.
pub proof fn lemma_merge_commutative(a: Transfer, b: Transfer)
    ensures
        merged(a, b) == merged(b, a),
{
}

/// `merge` is associative: merging in either grouping yields the same
/// accumulator, field for field, whenever the total fits the counters.
pub proof fn lemma_merge_associative(a: Transfer, b: Transfer, c: Transfer)
    requires
        a.incoming + b.incoming + c.incoming <= u64::MAX,
        a.outgoing + b.outgoing + c.outgoing <= u64::MAX,
    ensures
        merged(merged(a, b), c) == merged(a, merged(b, c)),
{
}

} // verus!
