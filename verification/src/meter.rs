//! The measure of a transfer: how many bytes came, and the unit in which their speed is told.
use vstd::prelude::*;
use vstd::string::*;

verus! {

/// The units of speed.
#[derive(Debug, Clone, Copy, PartialEq, Eq, Structural)]
pub enum Unit {
    KiB,
    MiB,
    GiB,
}

/// The number of bytes in a unit.
pub open spec fn unit_bytes(unit: Unit) -> nat {
    match unit {
        Unit::KiB => 1024,
        Unit::MiB => 1024 * 1024,
        Unit::GiB => 1024 * 1024 * 1024,
    }
}

/// The unit after one in which the speed was too high or too low to read: the next larger or
/// smaller, where there is one.
pub open spec fn next_unit(unit: Unit, too_high: bool, too_low: bool) -> Unit {
    if too_high {
        match unit {
            Unit::KiB => Unit::MiB,
            Unit::MiB => Unit::GiB,
            Unit::GiB => Unit::GiB,
        }
    } else if too_low {
        match unit {
            Unit::KiB => Unit::KiB,
            Unit::MiB => Unit::KiB,
            Unit::GiB => Unit::MiB,
        }
    } else {
        unit
    }
}

impl Unit {
    /// The number of bytes in the unit.
    pub fn bytes(self) -> (n: u64)
        ensures
            n == unit_bytes(self),
    {
        match self {
            Unit::KiB => 1024,
            Unit::MiB => 1048576,
            Unit::GiB => 1073741824,
        }
    }

    /// The name of the unit.
    pub fn name(self) -> (name: &'static str)
        ensures
            name@ == match self {
                Unit::KiB => "KiB"@,
                Unit::MiB => "MiB"@,
                Unit::GiB => "GiB"@,
            },
    {
        match self {
            Unit::KiB => "KiB",
            Unit::MiB => "MiB",
            Unit::GiB => "GiB",
        }
    }

    /// The unit to go on with.
    pub fn adapt(self, too_high: bool, too_low: bool) -> (unit: Unit)
        ensures
            unit == next_unit(self, too_high, too_low),
    {
        if too_high {
            match self {
                Unit::KiB => Unit::MiB,
                Unit::MiB => Unit::GiB,
                Unit::GiB => Unit::GiB,
            }
        } else if too_low {
            match self {
                Unit::KiB => Unit::KiB,
                Unit::MiB => Unit::KiB,
                Unit::GiB => Unit::MiB,
            }
        } else {
            self
        }
    }
}

/// How many bytes came, in all and since the last report.
#[derive(Debug, Clone, Copy)]
pub struct Meter {
    pub total: u128,
    pub recent: u128,
    pub unit: Unit,
}

impl Meter {
    /// A meter before the first byte.
    pub fn new() -> (meter: Meter)
        ensures
            meter.total == 0,
            meter.recent == 0,
            meter.unit == Unit::KiB,
    {
        Meter { total: 0, recent: 0, unit: Unit::KiB }
    }

    /// Counts bytes that came.
    pub fn count(&mut self, size: usize)
        requires
            old(self).total + size <= u128::MAX,
            old(self).recent <= old(self).total,
        ensures
            final(self).total == old(self).total + size,
            final(self).recent == old(self).recent + size,
            final(self).unit == old(self).unit,
    {
        self.total = self.total + size as u128;
        self.recent = self.recent + size as u128;
    }

    /// Starts over after a report, with the unit that suits the speed that was reported.
    pub fn restart(&mut self, too_high: bool, too_low: bool)
        ensures
            final(self).total == old(self).total,
            final(self).recent == 0,
            final(self).unit == next_unit(old(self).unit, too_high, too_low),
    {
        self.unit = self.unit.adapt(too_high, too_low);
        self.recent = 0;
    }
}

/// Each unit is 1024 of the one before it, and the smallest is 1024 bytes. A speed that is too high
/// is told in the next larger unit from then on, and one that is too low in the next smaller, except
/// that the largest and the smallest unit stay; a speed that is neither keeps its unit.
pub proof fn units_go_up_and_down(unit: Unit, too_low: bool)
    ensures
        unit_bytes(Unit::KiB) == 1024,
        unit_bytes(Unit::GiB) == 1024 * 1024 * 1024,
        unit != Unit::GiB ==> unit_bytes(next_unit(unit, true, too_low)) == 1024 * unit_bytes(unit),
        unit == Unit::GiB ==> next_unit(unit, true, too_low) == unit,
        unit != Unit::KiB ==> 1024 * unit_bytes(next_unit(unit, false, true)) == unit_bytes(unit),
        unit == Unit::KiB ==> next_unit(unit, false, true) == unit,
        next_unit(unit, false, false) == unit,
{
}

} // verus!
