use vstd::prelude::*;

verus! {

/// A level of detail of a mesh: a run of meshlets in the global meshlet buffer.
#[derive(Clone, Copy, Debug, PartialEq, Eq, Structural)]
pub struct MeshLod {
    pub meshlets_offset: u32,
    pub meshlets_count: u32,
}

/// Most levels of detail a mesh can have.
pub const MAX_LODS: usize = 8;

/// One meshlet of one mesh instance, as the task shader consumes it.
#[derive(Clone, Copy, Debug, PartialEq, Eq, Structural)]
pub struct MeshletInstance {
    pub mesh_instance_index: u32,
    pub meshlet_index: u32,
    pub lod_index: u32,
}

/// A meshlet in the fixed layout of the first mesh-shader path: up to 64 vertices and
/// 126 triangles, stored inline.
#[derive(Clone, Copy)]
pub struct GPUMeshlet {
    pub vertices: [u32; 64],
    pub indices: [u32; 378],
    pub triangle_count: u32,
    pub vertex_count: u32,
}

/// Number of `size`-wide groups needed to cover `count` items.
pub open spec fn ceil_div(count: int, size: int) -> int {
    (count + size - 1) / size
}

/// The grid that covers `count` items processed `subgroup_size` at a time: as many groups
/// as needed in the first dimension, up to `max_dim`, and as many rows of those as needed.
pub open spec fn dispatch_grid(count: int, subgroup_size: int, max_dim: int) -> (int, int) {
    let total = ceil_div(count, subgroup_size);
    (if total < max_dim { total } else { max_dim }, ceil_div(total, max_dim))
}

/// The dispatch for `count` items can be computed in `u32`.
pub open spec fn dispatchable(count: u32, subgroup_size: u32, max_dim: u32) -> bool {
    &&& subgroup_size > 0
    &&& max_dim > 0
    &&& count + subgroup_size - 1 <= u32::MAX
    &&& ceil_div(count as int, subgroup_size as int) + max_dim - 1 <= u32::MAX
}

/// Splits a one-dimensional dispatch of `instance_count` items, processed `subgroup_size`
/// at a time, into a two-dimensional grid whose first dimension does not exceed `max_dim`.
pub fn task_dispatch_2d(instance_count: u32, subgroup_size: u32, max_dim: u32) -> (groups: (u32, u32))
    requires
        dispatchable(instance_count, subgroup_size, max_dim),
    ensures
        groups.0 == dispatch_grid(instance_count as int, subgroup_size as int, max_dim as int).0,
        groups.1 == dispatch_grid(instance_count as int, subgroup_size as int, max_dim as int).1,
{
    let total_groups = (instance_count + (subgroup_size - 1)) / subgroup_size;
    assert(total_groups == ceil_div(instance_count as int, subgroup_size as int));
    let group_x = if total_groups < max_dim { total_groups } else { max_dim };
    let group_y = (total_groups + (max_dim - 1)) / max_dim;
    (group_x, group_y)
}

/// The two-dimensional grid launches a group for every item and at most one partial row:
/// its first dimension stays within `max_dim`, its groups cover all `count` items, and
/// dropping its last row would leave some item uncovered.
pub proof fn law_dispatch_covers(count: nat, subgroup_size: nat, max_dim: nat)
    requires
        subgroup_size > 0,
        max_dim > 0,
    ensures
        ({
            let g = dispatch_grid(count as int, subgroup_size as int, max_dim as int);
            let total = ceil_div(count as int, subgroup_size as int);
            &&& 0 <= g.0 <= max_dim
            &&& total * subgroup_size >= count
            &&& g.0 * g.1 >= total
            &&& g.1 > 0 ==> (g.1 - 1) * max_dim < total
        }),
{
    let total = ceil_div(count as int, subgroup_size as int);
    let g = dispatch_grid(count as int, subgroup_size as int, max_dim as int);
    assert(total * subgroup_size >= count) by (nonlinear_arith)
        requires
            subgroup_size > 0,
            total == (count + subgroup_size - 1) / (subgroup_size as int),
    ;
    assert(total >= 0) by (nonlinear_arith)
        requires
            subgroup_size > 0,
            count >= 0,
            total == (count + subgroup_size - 1) / (subgroup_size as int),
    ;
    assert(g.1 * max_dim >= total && (g.1 > 0 ==> (g.1 - 1) * max_dim < total) && g.1 >= 0)
        by (nonlinear_arith)
        requires
            max_dim > 0,
            total >= 0,
            g.1 == (total + max_dim - 1) / (max_dim as int),
    ;
    if total < max_dim {
        assert(g.0 * g.1 >= total) by (nonlinear_arith)
            requires
                g.0 == total,
                total >= 0,
                total < max_dim,
                g.1 == (total + max_dim - 1) / (max_dim as int),
                max_dim > 0,
        ;
    } else {
        assert(g.0 * g.1 >= total) by (nonlinear_arith)
            requires
                g.0 == max_dim,
                g.1 * max_dim >= total,
        ;
    }
}

} // verus!
