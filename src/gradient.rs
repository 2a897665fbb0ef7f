use vstd::prelude::*;

verus! {

/// How a control position stands to the one before it.
#[derive(Clone, Copy, Debug, PartialEq, Eq, Structural)]
pub enum Gap {
    /// Strictly greater.
    Rising,
    /// Equal, which leaves a zero-width segment.
    Flat,
    /// Smaller, or not comparable.
    Falling,
}

/// Why a gradient cannot be built.
#[derive(Clone, Copy, Debug, PartialEq, Eq, Structural)]
pub enum GradientError {
    /// Fewer than two control points, or two adjacent positions that are equal.
    DegenerateGradient,
    /// A position smaller than the one before it.
    UnsortedControlPoints,
    /// A table of no entries was asked for.
    EmptyColorTable,
}

/// The outcome of checking `n_points` control points, whose consecutive positions
/// relate as `gaps` says, for a table of `table_size` entries.
pub open spec fn gradient_verdict(n_points: nat, gaps: Seq<Gap>, table_size: nat) -> Result<
    (),
    GradientError,
> {
    if n_points < 2 {
        Err(GradientError::DegenerateGradient)
    } else if exists|i: int| 0 <= i < gaps.len() && gaps[i] == Gap::Flat {
        Err(GradientError::DegenerateGradient)
    } else if exists|i: int| 0 <= i < gaps.len() && gaps[i] == Gap::Falling {
        Err(GradientError::UnsortedControlPoints)
    } else if table_size == 0 {
        Err(GradientError::EmptyColorTable)
    } else {
        Ok(())
    }
}

/// Checks a control set before any table is built.
pub fn check_gradient(n_points: usize, gaps: &Vec<Gap>, table_size: usize) -> (r: Result<
    (),
    GradientError,
>)
    requires
        gaps@.len() == if n_points == 0 { 0 } else { n_points - 1 },
    ensures
        r == gradient_verdict(n_points as nat, gaps@, table_size as nat),
{
    if n_points < 2 {
        return Err(GradientError::DegenerateGradient);
    }
    let mut i: usize = 0;
    let mut falling = false;
    while i < gaps.len()
        invariant
            i <= gaps@.len(),
            forall|k: int| 0 <= k < i ==> gaps@[k] != Gap::Flat,
            falling <==> exists|k: int| 0 <= k < i && gaps@[k] == Gap::Falling,
        decreases gaps@.len() - i,
    {
        match gaps[i] {
            Gap::Flat => {
                return Err(GradientError::DegenerateGradient);
            },
            Gap::Falling => {
                falling = true;
            },
            Gap::Rising => {},
        }
        i = i + 1;
    }
    if falling {
        Err(GradientError::UnsortedControlPoints)
    } else if table_size == 0 {
        Err(GradientError::EmptyColorTable)
    } else {
        Ok(())
    }
}

/// The gradient used when no colours are given: white alone.
pub fn default_gradient() -> (r: Vec<(u8, u8, u8)>)
    ensures
        r@ == seq![(255u8, 255u8, 255u8)],
{
    let mut r: Vec<(u8, u8, u8)> = Vec::new();
    r.push((255, 255, 255));
    r
}

} // verus!
