use vstd::prelude::*;

verus! {

/// Counts the rays evaluated while rendering. Each worker keeps its own
/// counter and the counters are merged when the frame is done. The count
/// stops at `u64::MAX` rather than wrap, since it only observes the render.
#[derive(Clone, Copy, Debug, PartialEq, Eq, Structural)]
pub struct RayCounter {
    count: u64,
}

pub open spec fn saturating_sum(a: int, b: int) -> int {
    if a + b > u64::MAX {
        u64::MAX as int
    } else {
        a + b
    }
}

impl RayCounter {
    pub closed spec fn count_spec(self) -> int {
        self.count as int
    }

    /// A counter at zero.
    pub fn new() -> (r: RayCounter)
        ensures
            r.count_spec() == 0,
    {
        RayCounter { count: 0 }
    }

    pub fn get_count(&self) -> (r: u64)
        ensures
            r == self.count_spec(),
    {
        self.count
    }

    /// Starts a new frame's count.
    pub fn reset_count(&mut self)
        ensures
            final(self).count_spec() == 0,
    {
        self.count = 0;
    }

    /// Counts one more ray.
    pub fn count_ray(&mut self)
        ensures
            final(self).count_spec() == saturating_sum(old(self).count_spec(), 1),
    {
        self.count = self.count.saturating_add(1);
    }

    /// Adds the rays that another worker counted.
    pub fn merge(&mut self, other: &RayCounter)
        ensures
            final(self).count_spec() == saturating_sum(old(self).count_spec(), other.count_spec()),
    {
        self.count = self.count.saturating_add(other.count);
    }
}

/// Number of the `width` cells of a progress bar to fill when `done` of
/// `total` pixels are finished: `width * done / total`, rounded down.
pub fn progress_cells(width: u32, done: u32, total: u32) -> (r: u32)
    requires
        total > 0,
        done <= total,
    ensures
        r == (width as int * done as int) / total as int,
        r <= width,
{
    assert((width as int) * (done as int) <= (width as int) * (total as int)) by (nonlinear_arith)
        requires
            done <= total,
    ;
    assert((width as int) * (total as int) / (total as int) == width as int) by (nonlinear_arith)
        requires
            total > 0,
    ;
    assert((width as int) * (done as int) / (total as int) <= (width as int) * (total as int) / (
    total as int)) by (nonlinear_arith)
        requires
            total > 0,
            (width as int) * (done as int) <= (width as int) * (total as int),
    ;
    assert((width as int) * (done as int) <= u32::MAX * u32::MAX) by (nonlinear_arith)
        requires
            width <= u32::MAX,
            done <= u32::MAX,
    ;
    ((width as u64) * (done as u64) / (total as u64)) as u32
}

/// Whether the progress display is refreshed after `done` finished pixels:
/// once every `period` pixels.
pub fn report_due(done: u32, period: u32) -> (r: bool)
    requires
        period > 0,
    ensures
        r == (done % period == 0),
{
    done % period == 0
}

} // verus!
