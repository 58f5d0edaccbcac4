use vstd::prelude::*;

verus! {

/// Nanoseconds in a second.
pub const NANOS_PER_SEC: u32 = 1_000_000_000;

/// The longest span a `Duration` can hold, in nanoseconds.
pub open spec fn max_duration_nanos() -> nat {
    0xffff_ffff_ffff_ffffnat * 1_000_000_000 + 999_999_999
}

/// A span of time, held as whole seconds and the nanoseconds beyond them, like the
/// standard library's duration. Its view is the span in nanoseconds.
#[derive(Clone, Copy, Debug, PartialEq, Eq, Structural)]
pub struct Duration {
    secs: u64,
    nanos: u32,
}

impl View for Duration {
    type V = nat;

    closed spec fn view(&self) -> nat {
        self.secs as nat * 1_000_000_000 + self.nanos as nat
    }
}

impl Duration {
    #[verifier::type_invariant]
    spec fn nanos_below_a_second(self) -> bool {
        self.nanos < 1_000_000_000
    }

    /// The duration of `secs` seconds and `nanos` nanoseconds; nanoseconds beyond a
    /// second carry into the seconds.
    pub fn new(secs: u64, nanos: u32) -> (d: Duration)
        requires
            secs as nat * 1_000_000_000 + nanos as nat <= max_duration_nanos(),
        ensures
            d@ == secs as nat * 1_000_000_000 + nanos as nat,
    {
        let extra: u64 = (nanos / NANOS_PER_SEC) as u64;
        let rest: u32 = nanos % NANOS_PER_SEC;
        Duration { secs: secs + extra, nanos: rest }
    }

    /// The duration of `secs` whole seconds.
    pub fn from_secs(secs: u64) -> (d: Duration)
        ensures
            d@ == secs as nat * 1_000_000_000,
    {
        Duration { secs, nanos: 0 }
    }

    /// The duration of `millis` milliseconds.
    pub fn from_millis(millis: u64) -> (d: Duration)
        ensures
            d@ == millis as nat * 1_000_000,
    {
        let secs: u64 = millis / 1000;
        let rest: u64 = millis % 1000;
        let nanos: u32 = (rest * 1_000_000) as u32;
        Duration { secs, nanos }
    }

    /// The duration of `nanos` nanoseconds.
    pub fn from_nanos(nanos: u64) -> (d: Duration)
        ensures
            d@ == nanos as nat,
    {
        let secs: u64 = nanos / 1_000_000_000;
        let rest: u32 = (nanos % 1_000_000_000) as u32;
        Duration { secs, nanos: rest }
    }

    /// The number of whole seconds.
    pub fn as_secs(&self) -> (secs: u64)
        ensures
            secs as nat == self@ / 1_000_000_000,
    {
        proof {
            use_type_invariant(self);
            vstd::arithmetic::div_mod::lemma_fundamental_div_mod_converse(
                self@ as int,
                1_000_000_000,
                self.secs as int,
                self.nanos as int,
            );
        }
        self.secs
    }

    /// The nanoseconds beyond the whole seconds.
    pub fn subsec_nanos(&self) -> (nanos: u32)
        ensures
            nanos as nat == self@ % 1_000_000_000,
            nanos < NANOS_PER_SEC,
    {
        proof {
            use_type_invariant(self);
            vstd::arithmetic::div_mod::lemma_fundamental_div_mod_converse(
                self@ as int,
                1_000_000_000,
                self.secs as int,
                self.nanos as int,
            );
        }
        self.nanos
    }

    /// The whole span in nanoseconds.
    pub fn as_nanos(&self) -> (nanos: u128)
        ensures
            nanos as nat == self@,
            self@ <= max_duration_nanos(),
    {
        proof {
            use_type_invariant(self);
        }
        self.secs as u128 * 1_000_000_000 + self.nanos as u128
    }

    /// The longest span a `Duration` can hold, in nanoseconds.
    pub fn max_as_nanos() -> (nanos: u128)
        ensures
            nanos as nat == max_duration_nanos(),
    {
        0xffff_ffff_ffff_ffffu128 * 1_000_000_000 + 999_999_999
    }

    /// Whether the span is empty.
    pub fn is_zero(&self) -> (zero: bool)
        ensures
            zero == (self@ == 0),
    {
        self.secs == 0 && self.nanos == 0
    }

    /// The shorter of two durations.
    pub fn min(self, other: Duration) -> (d: Duration)
        ensures
            d@ == if self@ <= other@ {
                self@
            } else {
                other@
            },
    {
        if self.secs < other.secs || (self.secs == other.secs && self.nanos <= other.nanos) {
            proof {
                use_type_invariant(&self);
                use_type_invariant(&other);
            }
            self
        } else {
            proof {
                use_type_invariant(&self);
                use_type_invariant(&other);
            }
            other
        }
    }
}

} // verus!
