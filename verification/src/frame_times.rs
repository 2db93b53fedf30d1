//! Timings of one frame as the GPU profiler reports them, in nanoseconds.
use std::time::Duration;
use vstd::prelude::*;

verus! {

/// The duration `std::time::Duration::from_nanos` builds from `nanos`.
pub uninterp spec fn duration_from_nanos(nanos: u64) -> Duration;

/// Calls `std::time::Duration::from_nanos`. It accepts every `u64` and depends on its
/// argument alone; the contract names its result and says nothing more of it.
#[verifier::external_body]
fn nanos_to_duration(nanos: u64) -> (d: Duration)
    ensures
        d == duration_from_nanos(nanos),
{
    Duration::from_nanos(nanos)
}

/// Nanoseconds spent in each part of one frame.
#[derive(Clone, Copy, Debug)]
pub struct FrameTimes {
    pub cpu_total: u64,
    pub gpu_total: u64,
    pub compute_visible_meshlets: u64,
    pub prep_draw_mesh_tasks_command: u64,
    pub draw_mesh_tasks: u64,
    pub msaa_resolve: u64,
}

impl Default for FrameTimes {
    fn default() -> (t: Self)
        ensures
            t.cpu_total == 0,
            t.gpu_total == 0,
            t.compute_visible_meshlets == 0,
            t.prep_draw_mesh_tasks_command == 0,
            t.draw_mesh_tasks == 0,
            t.msaa_resolve == 0,
    {
        FrameTimes {
            cpu_total: 0,
            gpu_total: 0,
            compute_visible_meshlets: 0,
            prep_draw_mesh_tasks_command: 0,
            draw_mesh_tasks: 0,
            msaa_resolve: 0,
        }
    }
}

impl FrameTimes {
    /// The whole frame's CPU time as a duration.
    pub fn cpu_total(&self) -> (d: Duration)
        ensures
            d == duration_from_nanos(self.cpu_total),
    {
        nanos_to_duration(self.cpu_total)
    }

    /// The whole frame's GPU time as a duration.
    pub fn gpu_total(&self) -> (d: Duration)
        ensures
            d == duration_from_nanos(self.gpu_total),
    {
        nanos_to_duration(self.gpu_total)
    }
}

} // verus!
