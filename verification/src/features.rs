use vstd::prelude::*;

verus! {

/// The fixed divisor by which a physical quantity is standardized.
///
/// `Position` is the divisor for positions and linear velocities, `POS_STD`
/// length units; `Angular` is the divisor for angular velocities, half a
/// turn in radians.
#[derive(Clone, Copy, Debug, PartialEq, Eq, Structural)]
pub enum Scale {
    Position,
    Angular,
}

/// One cell of an observation.
///
/// Measurements travel through the library as the 64-bit patterns of their
/// binary floating-point representation and are never interpreted here. A
/// cell records which measurements it is made of and how, so that the numeric
/// value is fixed by the cell alone:
///
/// * `Int(n)` is the integer `n`;
/// * `Raw(a)` is the measurement `a` itself;
/// * `Scaled(a, s)` is `a` divided by the divisor `s`;
/// * `ScaledDiff(a, b, s)` is the difference `a - b` divided by the divisor `s`.
#[derive(Clone, Copy, Debug, PartialEq, Eq, Structural)]
pub enum Feature {
    Int(i8),
    Raw(u64),
    Scaled(u64, Scale),
    ScaledDiff(u64, u64, Scale),
}

impl Feature {
    /// The cell that holds the number zero.
    pub open spec fn zero() -> Feature {
        Feature::Int(0)
    }

    /// The cell that holds a flag: one when set, zero when not.
    pub open spec fn flag(set: bool) -> Feature {
        Feature::Int(if set { 1i8 } else { 0i8 })
    }
}

/// `n` cells that all hold zero.
pub open spec fn zeros(n: nat) -> Seq<Feature> {
    Seq::new(n, |i: int| Feature::zero())
}

} // verus!
