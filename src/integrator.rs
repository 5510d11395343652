use vstd::prelude::*;

verus! {

/// What happened to the current ray of a path when the scene was queried.
#[derive(Clone, Copy, Debug, PartialEq, Eq, Structural)]
pub enum Bounce {
    /// The ray struck nothing.
    Missed,
    /// The ray struck a surface whose material absorbed it.
    Absorbed,
    /// The ray struck a surface and its material scattered it.
    Scattered,
}

/// What the radiance estimator does next with a path.
#[derive(Clone, Copy, Debug, PartialEq, Eq, Structural)]
pub enum PathStep {
    /// The path ends in black: the bounce budget is spent or the ray was
    /// absorbed.
    Black,
    /// The path ends on the sky gradient.
    Sky,
    /// The path goes on with the scattered ray, with this many bounces left;
    /// its radiance is weighted by the material's attenuation.
    Trace(u32),
}

/// The rule of the recursive estimator for a ray traced with `depth`
/// bounces left, as a spec function.
pub open spec fn step_spec(depth: int, bounce: Bounce) -> PathStep {
    if depth <= 0 {
        PathStep::Black
    } else {
        match bounce {
            Bounce::Missed => PathStep::Sky,
            Bounce::Absorbed => PathStep::Black,
            Bounce::Scattered => PathStep::Trace((depth - 1) as u32),
        }
    }
}

/// Whether a ray with `depth` bounces left is traced at all; when it is
/// not, it contributes black and the scene is not queried.
pub fn budget_left(depth: u32) -> (r: bool)
    ensures
        r == (depth > 0),
{
    depth > 0
}

/// The next step of a path whose ray, traced with `depth` bounces left,
/// had the outcome `bounce`.
pub fn next_step(depth: u32, bounce: Bounce) -> (r: PathStep)
    ensures
        r == step_spec(depth as int, bounce),
{
    if depth == 0 {
        return PathStep::Black;
    }
    match bounce {
        Bounce::Missed => PathStep::Sky,
        Bounce::Absorbed => PathStep::Black,
        Bounce::Scattered => PathStep::Trace(depth - 1),
    }
}

/// Number of scene queries a path makes when the scattered rays of its
/// first bounces have the outcomes `bounces`, starting with `depth`
/// bounces left.
pub open spec fn queries(depth: int, bounces: Seq<Bounce>) -> nat
    decreases bounces.len(),
{
    if depth <= 0 || bounces.len() == 0 {
        0
    } else {
        match step_spec(depth, bounces[0]) {
            PathStep::Trace(d) => 1 + queries(d as int, bounces.drop_first()),
            _ => 1,
        }
    }
}

/// Whatever the scene does, a path started with `depth` bounces left
/// queries the scene at most `depth` times: recursion is bounded by the
/// budget.
pub proof fn lemma_path_bounded(depth: int, bounces: Seq<Bounce>)
    requires
        0 <= depth <= u32::MAX,
    ensures
        queries(depth, bounces) <= depth,
    decreases bounces.len(),
{
    if depth > 0 && bounces.len() > 0 {
        lemma_path_bounded(depth - 1, bounces.drop_first());
    }
}

} // verus!
