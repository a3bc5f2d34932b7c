//! Byte counts in a human-readable form.

use vstd::prelude::*;

verus! {

/// A size in bytes, shown with a binary unit.
#[derive(Debug, Clone, Copy, PartialEq, Eq, Structural)]
pub struct HumanBytes(pub u64);

/// How a size is shown: an integer part, hundredths (shown only when not
/// zero), and a unit index into [`UNITS`].
#[derive(Debug, Clone, Copy, PartialEq, Eq, Structural)]
pub struct HumanParts {
    pub integer: u64,
    pub hundredths: u64,
    pub unit: usize,
}

/// The unit names, by index.
pub open spec fn unit_names() -> Seq<&'static str> {
    seq!["B", "KiB", "MiB", "GiB", "TiB", "PiB"]
}

/// The parts of `v` (already divided `unit - 1` times by 1024) shown in
/// `unit` (1 for KiB up to 5 for PiB): one more division by 1024, keeping
/// the remainder as truncated hundredths; a value of 1 MiB or more in a unit
/// below PiB moves up one unit first.
pub open spec fn scaled(v: int, unit: int) -> HumanParts
    decreases 5 - unit,
{
    if unit >= 5 || v < 1024 * 1024 {
        HumanParts { integer: (v / 1024) as u64, hundredths: ((v % 1024) * 100 / 1024) as u64, unit: unit as usize }
    } else {
        scaled(v / 1024, unit + 1)
    }
}

/// The parts in which `v` bytes are shown: plain bytes below 1 KiB.
pub open spec fn human_parts(v: int) -> HumanParts {
    if v < 1024 {
        HumanParts { integer: v as u64, hundredths: 0, unit: 0 }
    } else {
        scaled(v, 1)
    }
}

impl HumanBytes {
    /// The integer part, hundredths and unit in which the size is shown.
    pub fn parts(&self) -> (r: HumanParts)
        ensures
            r == human_parts(self.0 as int),
    {
        let mut val = self.0;
        if val < 1024 {
            return HumanParts { integer: val, hundredths: 0, unit: 0 };
        }
        let mut unit: usize = 1;
        while unit < 5 && val >= 1024 * 1024
            invariant
                1 <= unit <= 5,
                human_parts(self.0 as int) == scaled(val as int, unit as int),
            decreases 5 - unit,
        {
            val = val / 1024;
            unit = unit + 1;
        }
        HumanParts { integer: val / 1024, hundredths: ((val % 1024) * 100) / 1024, unit }
    }

    /// The name of the unit with index `unit`.
    pub fn unit_name(unit: usize) -> (r: &'static str)
        requires
            unit < 6,
        ensures
            r == unit_names()[unit as int],
    {
        if unit == 0 {
            "B"
        } else if unit == 1 {
            "KiB"
        } else if unit == 2 {
            "MiB"
        } else if unit == 3 {
            "GiB"
        } else if unit == 4 {
            "TiB"
        } else {
            "PiB"
        }
    }
}

} // verus!
