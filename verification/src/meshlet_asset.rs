//! Meshlet-drawn assets: building each primitive's meshlets, and the per-draw data and
//! indirect dispatches for every node that shows a meshlet mesh.
use vstd::prelude::*;
use std::collections::HashMap;
use crate::asset::{Node, VERTEX_STRIDE};
use crate::assets::{self, BufferRef, DrawMeshTasksIndirectCommand, Primitives};
use crate::clusterize::{
    Meshlet, MeshletBuild, meshopt_meshlets, meshlets_valid, meshlet_fits, build_meshlets_ok,
    meshopt_build_meshlets,
};

verus! {

broadcast use vstd::std_specs::hash::group_hash_axioms;

/// Meshlets are dispatched in task groups of this many.
pub const TASK_GROUP_SIZE: u32 = 64;

/// The cone weight the asset meshlets are built with, as decimal text.
pub open spec fn asset_cone_weight() -> Seq<char> {
    seq!['0']
}

/// The meshlets `meshopt` builds for an asset primitive.
pub open spec fn asset_meshlets(vertices: Seq<u8>, indices: Seq<u32>) -> (Seq<Meshlet>, Seq<u32>, Seq<u8>) {
    meshopt_meshlets(indices, vertices, VERTEX_STRIDE, 64, 124, asset_cone_weight())
}

/// An empty meshlet, used to pad a meshlet buffer.
pub open spec fn empty_meshlet() -> Meshlet {
    Meshlet { vertex_offset: 0, triangle_offset: 0, vertex_count: 0, triangle_count: 0 }
}

/// How many empty meshlets bring `n` meshlets up to a multiple of the task group size.
pub open spec fn padding(n: int) -> int {
    if n % 64 == 0 {
        0
    } else {
        64 - n % 64
    }
}

/// Builds the meshlets of one primitive and pads the meshlet list with empty meshlets up to
/// a multiple of the task group size, since draws dispatch whole groups. Returns the padded
/// set and the number of real meshlets.
pub fn build_meshlets2(vertices: &Vec<u8>, indices: &Vec<u32>) -> (out: (MeshletBuild, usize))
    requires
        build_meshlets_ok(indices@, vertices@, VERTEX_STRIDE, 64, 124, asset_cone_weight()),
    ensures
        ({
            let b = asset_meshlets(vertices@, indices@);
            &&& out.1 == b.0.len()
            &&& out.0.vertices@ == b.1
            &&& out.0.triangles@ == b.2
            &&& out.0.meshlets@ == b.0 + Seq::new(padding(b.0.len() as int) as nat, |i: int| empty_meshlet())
            &&& out.0.meshlets@.len() % 64 == 0
        }),
        forall|k: int|
            0 <= k < out.1 ==> meshlet_fits(
                #[trigger] out.0.meshlets@[k],
                out.0.vertices@,
                out.0.triangles@,
                64,
                124,
            ),
        forall|j: int| 0 <= j < out.0.vertices@.len() ==> #[trigger] out.0.vertices@[j] < vertices@.len() / 32,
        out.1 <= indices@.len(),
{
    proof {
        reveal_strlit("0");
        assert("0"@ =~= asset_cone_weight());
    }
    let mut meshopt_meshlets = meshopt_build_meshlets(indices, vertices, VERTEX_STRIDE, 64, 124, "0");
    let ghost b = asset_meshlets(vertices@, indices@);
    let real_count = meshopt_meshlets.meshlets.len();
    assert(real_count <= indices@.len());
    // draws dispatch whole groups, so the last meshlets would be cut off without padding
    while meshopt_meshlets.meshlets.len() % 64 != 0
        invariant
            b.0.len() == real_count,
            real_count <= u32::MAX,
            real_count <= meshopt_meshlets.meshlets@.len() <= real_count + padding(real_count as int),
            meshopt_meshlets.meshlets@ == b.0 + Seq::new((meshopt_meshlets.meshlets@.len() - real_count) as nat, |i: int| empty_meshlet()),
            meshopt_meshlets.meshlets@.len() % 64 == 0 ==> meshopt_meshlets.meshlets@.len() == real_count + padding(real_count as int),
            meshopt_meshlets.vertices@ == b.1,
            meshopt_meshlets.triangles@ == b.2,
        decreases real_count + padding(real_count as int) - meshopt_meshlets.meshlets@.len(),
    {
        let ghost before = meshopt_meshlets.meshlets@;
        meshopt_meshlets.meshlets.push(
            Meshlet { vertex_offset: 0, triangle_offset: 0, vertex_count: 0, triangle_count: 0 },
        );
        assert(meshopt_meshlets.meshlets@ =~= b.0 + Seq::new((meshopt_meshlets.meshlets@.len() - real_count) as nat, |i: int| empty_meshlet()));
    }
    (meshopt_meshlets, real_count)
}

/// The per-draw data of one meshlet primitive shown by one node.
#[derive(Clone, Copy, Debug, PartialEq, Eq, Structural)]
pub struct MeshletDraw {
    pub transform: u64,
    pub meshlets: u64,
    pub vertices: u64,
    pub vertex_indices: u64,
    pub tri_indices: u64,
    pub bounds: u64,
    pub meshlets_count: u32,
}

pub open spec fn address(b: BufferRef) -> u64 {
    b.device_address->Some_0
}

pub open spec fn draw_of(transform: u64, m: assets::Meshlet) -> MeshletDraw {
    MeshletDraw {
        transform,
        meshlets: address(m.meshlet_buffer),
        vertices: address(m.vertex_buffer),
        vertex_indices: address(m.meshlet_vertices),
        tri_indices: address(m.triangle_buffer),
        bounds: address(m.meshlet_bounds_buffer),
        meshlets_count: m.bounds_count,
    }
}

/// The meshlet primitives node `i` shows, if its mesh is a meshlet mesh.
pub open spec fn node_meshlets(meshes: Seq<assets::Mesh>, node: Node) -> Seq<assets::Meshlet> {
    match node.mesh_index {
        Some(m) => match meshes[m as int].primitives {
            Primitives::Meshlets(ms) => ms@,
            Primitives::FixedVertexFunctionCombined(_) => seq![],
        },
        None => seq![],
    }
}

/// The draw data of the first `k` nodes, node after node, primitive after primitive.
pub open spec fn meshlet_draws(
    addresses: Map<usize, u64>,
    meshes: Seq<assets::Mesh>,
    nodes: Seq<Node>,
    k: int,
) -> Seq<MeshletDraw>
    decreases k,
{
    if k <= 0 {
        seq![]
    } else {
        meshlet_draws(addresses, meshes, nodes, k - 1) + node_meshlets(meshes, nodes[k - 1]).map_values(
            |m: assets::Meshlet| draw_of(addresses[(k - 1) as usize], m),
        )
    }
}

/// The indirect dispatches of the first `k` nodes: one per meshlet primitive, covering its
/// meshlets in whole task groups.
pub open spec fn meshlet_dispatches(meshes: Seq<assets::Mesh>, nodes: Seq<Node>, k: int) -> Seq<
    DrawMeshTasksIndirectCommand,
>
    decreases k,
{
    if k <= 0 {
        seq![]
    } else {
        meshlet_dispatches(meshes, nodes, k - 1) + node_meshlets(meshes, nodes[k - 1]).map_values(
            |m: assets::Meshlet|
                DrawMeshTasksIndirectCommand {
                    group_count_x: m.meshlets_count / TASK_GROUP_SIZE,
                    group_count_y: 1,
                    group_count_z: 1,
                },
        )
    }
}

/// Every node refers to an existing mesh built from meshlets, if to any.
pub open spec fn mesh_refs_ok(meshes: Seq<assets::Mesh>, nodes: Seq<Node>) -> bool {
    forall|i: int|
        0 <= i < nodes.len() ==> match #[trigger] nodes[i].mesh_index {
            Some(m) => m < meshes.len() && meshes[m as int].primitives is Meshlets,
            None => true,
        }
}

/// Every node that shows meshlets has a transform address, and all its meshlet buffers have
/// device addresses.
pub open spec fn draw_inputs_ok(addresses: Map<usize, u64>, meshes: Seq<assets::Mesh>, nodes: Seq<Node>) -> bool {
    &&& mesh_refs_ok(meshes, nodes)
    &&& forall|i: int|
        0 <= i < nodes.len() && node_meshlets(meshes, #[trigger] nodes[i]).len() > 0
            ==> addresses.contains_key(i as usize)
    &&& forall|i: int, j: int|
        0 <= i < nodes.len() && 0 <= j < node_meshlets(meshes, nodes[i]).len() ==> {
            let m = #[trigger] node_meshlets(meshes, nodes[i])[j];
            &&& m.meshlet_buffer.device_address is Some
            &&& m.vertex_buffer.device_address is Some
            &&& m.meshlet_vertices.device_address is Some
            &&& m.triangle_buffer.device_address is Some
            &&& m.meshlet_bounds_buffer.device_address is Some
        }
}

/// For every node in order that shows a meshlet mesh, one draw record per primitive: the
/// node's transform address, the primitive's buffer addresses and its real meshlet count.
pub fn build_instance_data(
    node_transform_buffer_address: &HashMap<usize, u64>,
    meshes: &Vec<assets::Mesh>,
    nodes: &Vec<Node>,
) -> (draws: Vec<MeshletDraw>)
    requires
        draw_inputs_ok(node_transform_buffer_address@, meshes@, nodes@),
    ensures
        draws@ == meshlet_draws(node_transform_buffer_address@, meshes@, nodes@, nodes@.len() as int),
{
    let ghost addresses = node_transform_buffer_address@;
    let mut meshlet_draws_out: Vec<MeshletDraw> = Vec::new();
    let mut node_index: usize = 0;
    while node_index < nodes.len()
        invariant
            node_index <= nodes@.len(),
            addresses == node_transform_buffer_address@,
            draw_inputs_ok(addresses, meshes@, nodes@),
            meshlet_draws_out@ == meshlet_draws(addresses, meshes@, nodes@, node_index as int),
        decreases nodes@.len() - node_index,
    {
        let node = &nodes[node_index];
        let ghost before = meshlet_draws_out@;
        let ghost mine = node_meshlets(meshes@, *node);
        if let Some(mesh_index) = node.mesh_index {
            assert(mesh_index < meshes@.len());
            let mesh = &meshes[mesh_index];
            if let Primitives::Meshlets(meshlets) = &mesh.primitives {
                assert(mine == meshlets@);
                let mut j: usize = 0;
                while j < meshlets.len()
                    invariant
                        j <= meshlets@.len(),
                        node_index < nodes@.len(),
                        mine == meshlets@,
                        mine == node_meshlets(meshes@, nodes@[node_index as int]),
                        addresses == node_transform_buffer_address@,
                        draw_inputs_ok(addresses, meshes@, nodes@),
                        meshlet_draws_out@ == before + mine.take(j as int).map_values(
                            |m: assets::Meshlet| draw_of(addresses[node_index], m),
                        ),
                    decreases meshlets@.len() - j,
                {
                    let meshlet = &meshlets[j];
                    assert(mine[j as int] == *meshlet);
                    assert(addresses.contains_key(node_index));
                    let transform = *node_transform_buffer_address.get(&node_index).unwrap();
                    let draw = MeshletDraw {
                        transform,
                        meshlets: meshlet.meshlet_buffer.device_address.unwrap(),
                        vertices: meshlet.vertex_buffer.device_address.unwrap(),
                        vertex_indices: meshlet.meshlet_vertices.device_address.unwrap(),
                        tri_indices: meshlet.triangle_buffer.device_address.unwrap(),
                        bounds: meshlet.meshlet_bounds_buffer.device_address.unwrap(),
                        meshlets_count: meshlet.bounds_count,
                    };
                    meshlet_draws_out.push(draw);
                    j = j + 1;
                    assert(mine.take(j as int).map_values(|m: assets::Meshlet| draw_of(addresses[node_index], m))
                        =~= mine.take(j - 1).map_values(|m: assets::Meshlet| draw_of(addresses[node_index], m)).push(draw));
                }
                assert(mine.take(j as int) =~= mine);
            } else {
                assert(mine =~= seq![]);
                assert(meshlet_draws_out@ =~= before + mine.map_values(|m: assets::Meshlet| draw_of(addresses[node_index], m)));
            }
        } else {
            assert(mine =~= seq![]);
            assert(meshlet_draws_out@ =~= before + mine.map_values(|m: assets::Meshlet| draw_of(addresses[node_index], m)));
        }
        node_index = node_index + 1;
    }
    meshlet_draws_out
}

/// For every node in order that shows a meshlet mesh, one indirect dispatch per primitive,
/// of its meshlet count in whole task groups.
pub fn build_buffer_for_indirect_draw(meshes: &Vec<assets::Mesh>, nodes: &Vec<Node>) -> (draws: Vec<
    DrawMeshTasksIndirectCommand,
>)
    requires
        mesh_refs_ok(meshes@, nodes@),
    ensures
        draws@ == meshlet_dispatches(meshes@, nodes@, nodes@.len() as int),
{
    let mut draws: Vec<DrawMeshTasksIndirectCommand> = Vec::new();
    let mut node_index: usize = 0;
    while node_index < nodes.len()
        invariant
            node_index <= nodes@.len(),
            mesh_refs_ok(meshes@, nodes@),
            draws@ == meshlet_dispatches(meshes@, nodes@, node_index as int),
        decreases nodes@.len() - node_index,
    {
        let node = &nodes[node_index];
        let ghost before = draws@;
        let ghost mine = node_meshlets(meshes@, *node);
        if let Some(mesh_index) = node.mesh_index {
            let mesh = &meshes[mesh_index];
            if let Primitives::Meshlets(meshlets) = &mesh.primitives {
                let mut j: usize = 0;
                while j < meshlets.len()
                    invariant
                        j <= meshlets@.len(),
                        mine == meshlets@,
                        draws@ == before + mine.take(j as int).map_values(
                            |m: assets::Meshlet|
                                DrawMeshTasksIndirectCommand {
                                    group_count_x: m.meshlets_count / TASK_GROUP_SIZE,
                                    group_count_y: 1,
                                    group_count_z: 1,
                                },
                        ),
                    decreases meshlets@.len() - j,
                {
                    let draw = DrawMeshTasksIndirectCommand {
                        group_count_x: meshlets[j].meshlets_count / TASK_GROUP_SIZE,
                        group_count_y: 1,
                        group_count_z: 1,
                    };
                    draws.push(draw);
                    j = j + 1;
                    assert(mine.take(j as int).map_values(
                        |m: assets::Meshlet|
                            DrawMeshTasksIndirectCommand {
                                group_count_x: m.meshlets_count / TASK_GROUP_SIZE,
                                group_count_y: 1,
                                group_count_z: 1,
                            },
                    ) =~= mine.take(j - 1).map_values(
                        |m: assets::Meshlet|
                            DrawMeshTasksIndirectCommand {
                                group_count_x: m.meshlets_count / TASK_GROUP_SIZE,
                                group_count_y: 1,
                                group_count_z: 1,
                            },
                    ).push(draw));
                }
                assert(mine.take(j as int) =~= mine);
            } else {
                assert(draws@ =~= meshlet_dispatches(meshes@, nodes@, node_index + 1));
            }
        } else {
            assert(draws@ =~= meshlet_dispatches(meshes@, nodes@, node_index + 1));
        }
        node_index = node_index + 1;
    }
    draws
}

} // verus!
