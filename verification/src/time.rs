//! # Time
//!
//! - [`Megahertz`]: for specifying clock rates in MHz

use vstd::prelude::*;

verus! {

/// A frequency in megahertz (MHz), used for the clock rate of clocked
/// drivers.
#[derive(Debug, Clone, Copy, PartialEq, Eq, Structural)]
pub struct Megahertz {
    mhz: u32,
}

impl Megahertz {
    /// The frequency in megahertz.
    pub closed spec fn value(self) -> nat {
        self.mhz as nat
    }

    /// A frequency of `val` megahertz.
    pub fn MHz(val: u32) -> (rate: Self)
        ensures
            rate.value() == val,
    {
        Megahertz { mhz: val }
    }

    /// The frequency in megahertz.
    pub fn raw(&self) -> (val: u32)
        ensures
            val == self.value(),
    {
        self.mhz
    }
}

/// `fugit::MegahertzU32::into_duration` to `fugit::NanosDurationU32`: the
/// period, in whole nanoseconds, of a clock of `mhz` megahertz.
///
/// The fugit source computes the duration's ticks as the conversion
/// numerator divided by the rate, and that numerator is 1000 for megahertz
/// to nanoseconds; a zero rate panics ("divide-by-zero"), which `requires`
/// leaves out.
#[verifier::external_body]
fn megahertz_period_nanos(mhz: u32) -> (nanos: u32)
    requires
        mhz > 0,
    ensures
        nanos == 1000nat / (mhz as nat),
{
    let period: fugit::NanosDurationU32 = fugit::MegahertzU32::MHz(mhz).into_duration();
    period.ticks()
}

/// The half-cycle duration, in nanoseconds, of a clock of `data_rate`:
/// half of its period in whole nanoseconds, rounded down.
pub fn half_cycle_nanos(data_rate: Megahertz) -> (nanos: u32)
    requires
        data_rate.value() > 0,
    ensures
        nanos == (1000nat / data_rate.value()) / 2,
{
    let t_cycle = megahertz_period_nanos(data_rate.raw());
    t_cycle / 2
}

} // verus!
