//! Curve tools and interpolation modes offered by the automation editor.
use vstd::prelude::*;

verus! {

/// The pointer tool of the curve editor.
#[derive(Clone, Copy, PartialEq, Eq, Debug)]
pub enum CurveTool {
    Points,
    Draw,
    Line,
}

impl CurveTool {
    /// Drawing is the tool a fresh editor starts with.
    pub fn default_tool() -> (tool: CurveTool)
        ensures
            tool == CurveTool::Draw,
    {
        CurveTool::Draw
    }
}

/// How a newly placed point joins the next one.
#[derive(Clone, Copy, PartialEq, Eq, Debug)]
pub enum Interpolation {
    Linear,
    Smooth,
    Step,
}

/// The label shown on the interpolation button.
pub open spec fn interpolation_label(mode: Interpolation) -> Seq<char> {
    match mode {
        Interpolation::Linear => "Linear"@,
        Interpolation::Smooth => "Smooth"@,
        Interpolation::Step => "Step"@,
    }
}

/// The mode the interpolation button switches to: Linear, Smooth, Step, and back.
pub open spec fn interpolation_next(mode: Interpolation) -> Interpolation {
    match mode {
        Interpolation::Linear => Interpolation::Smooth,
        Interpolation::Smooth => Interpolation::Step,
        Interpolation::Step => Interpolation::Linear,
    }
}

impl Interpolation {
    /// Linear interpolation is the default mode.
    pub fn default_mode() -> (mode: Interpolation)
        ensures
            mode == Interpolation::Linear,
    {
        Interpolation::Linear
    }

    pub fn label(self) -> (label: &'static str)
        ensures
            label@ == interpolation_label(self),
    {
        match self {
            Interpolation::Linear => {
                proof { reveal_strlit("Linear"); }
                "Linear"
            },
            Interpolation::Smooth => {
                proof { reveal_strlit("Smooth"); }
                "Smooth"
            },
            Interpolation::Step => {
                proof { reveal_strlit("Step"); }
                "Step"
            },
        }
    }

    pub fn next(self) -> (next: Interpolation)
        ensures
            next == interpolation_next(self),
    {
        match self {
            Interpolation::Linear => Interpolation::Smooth,
            Interpolation::Smooth => Interpolation::Step,
            Interpolation::Step => Interpolation::Linear,
        }
    }
}

/// Pressing the interpolation button three times returns to the starting mode,
/// and each of the three modes is reached on the way.
pub proof fn lemma_interpolation_cycle(mode: Interpolation)
    ensures
        interpolation_next(interpolation_next(interpolation_next(mode))) == mode,
        interpolation_next(mode) != mode,
        interpolation_next(interpolation_next(mode)) != mode,
{
}

/// Distinct modes carry distinct labels.
pub proof fn lemma_interpolation_labels_distinct(a: Interpolation, b: Interpolation)
    requires
        a != b,
    ensures
        interpolation_label(a) != interpolation_label(b),
{
    reveal_strlit("Linear");
    reveal_strlit("Smooth");
    reveal_strlit("Step");
    if interpolation_label(a) == interpolation_label(b) {
        let la = interpolation_label(a);
        let lb = interpolation_label(b);
        assert(la.len() == lb.len());
        match (a, b) {
            (Interpolation::Linear, Interpolation::Smooth) => { assert(la[0] != lb[0]); },
            (Interpolation::Smooth, Interpolation::Linear) => { assert(la[0] != lb[0]); },
            _ => {},
        }
    }
}

} // verus!
