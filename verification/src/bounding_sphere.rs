//! The bounding-sphere overlay: which spheres it draws, and the task dispatch that draws
//! them.
use crate::geometry::GeometryBuffers;
use crate::gpu::{dispatch_grid, dispatchable, task_dispatch_2d};
use vstd::prelude::*;

verus! {

/// What the overlay draws: nothing, one sphere per mesh instance, or one per meshlet
/// instance.
#[derive(Clone, Copy, Debug, PartialEq, Eq, Structural)]
pub enum DrawMode {
    Off,
    Mesh,
    Meshlet,
}

/// The mode after `m` in the cycle nothing, meshes, meshlets, nothing.
pub open spec fn next_mode(m: DrawMode) -> DrawMode {
    match m {
        DrawMode::Off => DrawMode::Mesh,
        DrawMode::Mesh => DrawMode::Meshlet,
        DrawMode::Meshlet => DrawMode::Off,
    }
}

/// The overlay's mode and the device limits its dispatch respects.
#[derive(Clone, Copy, Debug)]
pub struct BoundingSphereState {
    pub draw_mode: DrawMode,
    pub subgroup_size: u32,
    pub max_task_workgroup_count: [u32; 3],
}

/// One overlay draw: which pipeline, and the task grid.
#[derive(Clone, Copy, Debug, PartialEq, Eq, Structural)]
pub struct SphereDraw {
    pub per_mesh: bool,
    pub group_count_x: u32,
    pub group_count_y: u32,
}

impl BoundingSphereState {
    /// An overlay that draws nothing yet.
    pub fn new(subgroup_size: u32, max_task_workgroup_count: [u32; 3]) -> (s: Self)
        ensures
            s.draw_mode == DrawMode::Off,
            s.subgroup_size == subgroup_size,
            s.max_task_workgroup_count == max_task_workgroup_count,
    {
        BoundingSphereState { draw_mode: DrawMode::Off, subgroup_size, max_task_workgroup_count }
    }

    /// Moves to the next mode: nothing, then meshes, then meshlets, then nothing again.
    pub fn toggle_mode(&mut self)
        ensures
            final(self).draw_mode == next_mode(old(self).draw_mode),
            final(self).subgroup_size == old(self).subgroup_size,
            final(self).max_task_workgroup_count == old(self).max_task_workgroup_count,
    {
        self.draw_mode = match self.draw_mode {
            DrawMode::Off => DrawMode::Mesh,
            DrawMode::Mesh => DrawMode::Meshlet,
            DrawMode::Meshlet => DrawMode::Off,
        };
    }

    /// The draw the overlay records this frame: none when it draws nothing, otherwise the
    /// per-mesh or per-meshlet pipeline over a grid that covers every instance.
    pub fn draw_plan(&self, geometry: &GeometryBuffers) -> (d: Option<SphereDraw>)
        requires
            self.draw_mode == DrawMode::Mesh ==> dispatchable(
                geometry.mesh_instances_count,
                self.subgroup_size,
                self.max_task_workgroup_count[0],
            ),
            self.draw_mode == DrawMode::Meshlet ==> dispatchable(
                geometry.meshlet_instances_count,
                self.subgroup_size,
                self.max_task_workgroup_count[0],
            ),
        ensures
            d == match self.draw_mode {
                DrawMode::Off => None,
                DrawMode::Mesh => {
                    let g = dispatch_grid(
                        geometry.mesh_instances_count as int,
                        self.subgroup_size as int,
                        self.max_task_workgroup_count[0] as int,
                    );
                    Some(
                        SphereDraw {
                            per_mesh: true,
                            group_count_x: g.0 as u32,
                            group_count_y: g.1 as u32,
                        },
                    )
                },
                DrawMode::Meshlet => {
                    let g = dispatch_grid(
                        geometry.meshlet_instances_count as int,
                        self.subgroup_size as int,
                        self.max_task_workgroup_count[0] as int,
                    );
                    Some(
                        SphereDraw {
                            per_mesh: false,
                            group_count_x: g.0 as u32,
                            group_count_y: g.1 as u32,
                        },
                    )
                },
            },
    {
        match self.draw_mode {
            DrawMode::Off => None,
            DrawMode::Mesh => {
                let (x, y) = task_dispatch_2d(
                    geometry.mesh_instances_count,
                    self.subgroup_size,
                    self.max_task_workgroup_count[0],
                );
                Some(SphereDraw { per_mesh: true, group_count_x: x, group_count_y: y })
            },
            DrawMode::Meshlet => {
                let (x, y) = task_dispatch_2d(
                    geometry.meshlet_instances_count,
                    self.subgroup_size,
                    self.max_task_workgroup_count[0],
                );
                Some(SphereDraw { per_mesh: false, group_count_x: x, group_count_y: y })
            },
        }
    }
}

/// Toggling the overlay three times brings it back to the mode it started in.
pub proof fn law_toggle_cycle(m: DrawMode)
    ensures
        next_mode(next_mode(next_mode(m))) == m,
{
}

} // verus!
