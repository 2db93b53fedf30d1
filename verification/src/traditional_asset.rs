//! Packing all primitives of an asset into one vertex and one index buffer, and the
//! indirect draws and per-instance data that draw them.
use vstd::prelude::*;
use std::collections::HashMap;
use crate::asset::{
    GltfAssetData, IndexBufferType, Mesh, Node, Primitive, VERTEX_STRIDE, widened, index_count, vertex_count,
    widen_indices,
};
use crate::assets::{self, FVFCombinedPrimitives, Primitives, DrawIndexedIndirectCommand, TraditionalInstance};

verus! {

broadcast use vstd::std_specs::hash::group_hash_axioms;

/// The primitives of all meshes in order, each with the index of its mesh.
pub open spec fn flat_prims(meshes: Seq<Mesh>) -> Seq<(int, Primitive)>
    decreases meshes.len(),
{
    if meshes.len() == 0 {
        seq![]
    } else {
        flat_prims(meshes.drop_last()) + meshes.last().primitives@.map_values(
            |p: Primitive| ((meshes.len() - 1) as int, p),
        )
    }
}

/// Total vertex count of the primitives.
pub open spec fn vertex_sum(f: Seq<(int, Primitive)>) -> nat
    decreases f.len(),
{
    if f.len() == 0 {
        0
    } else {
        vertex_sum(f.drop_last()) + vertex_count(f.last().1)
    }
}

/// Total index count of the primitives.
pub open spec fn index_sum(f: Seq<(int, Primitive)>) -> nat
    decreases f.len(),
{
    if f.len() == 0 {
        0
    } else {
        index_sum(f.drop_last()) + index_count(f.last().1.index_buffer)
    }
}

/// The vertex bytes of the primitives, one after the other.
pub open spec fn all_vertex_data(f: Seq<(int, Primitive)>) -> Seq<u8>
    decreases f.len(),
{
    if f.len() == 0 {
        seq![]
    } else {
        all_vertex_data(f.drop_last()) + f.last().1.vertex_data@
    }
}

/// The indices of the primitives widened to 32 bits, one after the other.
pub open spec fn all_indices(f: Seq<(int, Primitive)>) -> Seq<u32>
    decreases f.len(),
{
    if f.len() == 0 {
        seq![]
    } else {
        all_indices(f.drop_last()) + widened(f.last().1.index_buffer)
    }
}

/// Indices, in increasing order, of the first `k` nodes that show mesh `m`.
pub open spec fn nodes_with_mesh(nodes: Seq<Node>, m: int, k: int) -> Seq<usize>
    decreases k,
{
    if k <= 0 {
        seq![]
    } else if nodes[k - 1].mesh_index == Some(m as usize) {
        nodes_with_mesh(nodes, m, k - 1).push((k - 1) as usize)
    } else {
        nodes_with_mesh(nodes, m, k - 1)
    }
}

/// What packing the primitives `f` of an asset with nodes `nodes` gives, primitive by
/// primitive.
pub open spec fn packs(c: FVFCombinedPrimitives, f: Seq<(int, Primitive)>, nodes: Seq<Node>) -> bool {
    &&& c.vertex_data@ == all_vertex_data(f)
    &&& c.index_data@ == all_indices(f)
    &&& c.primitive_vertex_count@.len() == f.len()
    &&& c.primitive_vertex_offset_in_combined_vertex_buffer@.len() == f.len()
    &&& c.primitive_index_count@.len() == f.len()
    &&& c.primitive_index_offset_in_combined_index_buffer@.len() == f.len()
    &&& c.primitive_parent_node_indices@.len() == f.len()
    &&& forall|k: int|
        0 <= k < f.len() ==> {
            &&& #[trigger] c.primitive_vertex_count@[k] == vertex_count(f[k].1)
            &&& c.primitive_vertex_offset_in_combined_vertex_buffer@[k] == vertex_sum(f.take(k))
            &&& c.primitive_index_count@[k] == index_count(f[k].1.index_buffer)
            &&& c.primitive_index_offset_in_combined_index_buffer@[k] == index_sum(f.take(k))
            &&& c.primitive_parent_node_indices@[k]@ == nodes_with_mesh(
                nodes,
                f[k].0,
                nodes.len() as int,
            )
        }
}

proof fn lemma_flat_prims_step(meshes: Seq<Mesh>, i: int)
    requires
        0 <= i < meshes.len(),
    ensures
        flat_prims(meshes.take(i + 1)) == flat_prims(meshes.take(i)) + meshes[i].primitives@.map_values(
            |p: Primitive| (i, p),
        ),
{
    let t = meshes.take(i + 1);
    assert(t.drop_last() =~= meshes.take(i));
    assert(t.last() == meshes[i]);
}

proof fn lemma_flat_prefix(meshes: Seq<Mesh>, i: int)
    requires
        0 <= i <= meshes.len(),
    ensures
        flat_prims(meshes.take(i)).len() <= flat_prims(meshes).len(),
        flat_prims(meshes).take(flat_prims(meshes.take(i)).len() as int) == flat_prims(meshes.take(i)),
    decreases meshes.len() - i,
{
    if i < meshes.len() {
        lemma_flat_prefix(meshes, i + 1);
        lemma_flat_prims_step(meshes, i);
        let a = flat_prims(meshes.take(i));
        let b = flat_prims(meshes.take(i + 1));
        assert(b.take(a.len() as int) =~= a);
        assert(flat_prims(meshes).take(a.len() as int) =~= b.take(a.len() as int));
    } else {
        assert(meshes.take(i) =~= meshes);
        assert(flat_prims(meshes).take(flat_prims(meshes).len() as int) =~= flat_prims(meshes));
    }
}

/// Indices of the nodes that show mesh `mesh_index`, in increasing order.
fn parent_nodes(nodes: &Vec<Node>, mesh_index: usize) -> (out: Vec<usize>)
    ensures
        out@ == nodes_with_mesh(nodes@, mesh_index as int, nodes@.len() as int),
{
    let mut out: Vec<usize> = Vec::new();
    let mut i: usize = 0;
    while i < nodes.len()
        invariant
            i <= nodes@.len(),
            out@ == nodes_with_mesh(nodes@, mesh_index as int, i as int),
        decreases nodes@.len() - i,
    {
        if let Some(node_mesh_index) = nodes[i].mesh_index {
            if node_mesh_index == mesh_index {
                out.push(i);
            }
        }
        i = i + 1;
    }
    out
}

/// Packs every primitive of every mesh, in order, into one vertex and one index buffer
/// (indices widened to 32 bits), recording for each primitive its vertex and index count,
/// where its vertices and indices start, and the nodes that show its mesh.
pub fn combine_primitives(asset_data: &GltfAssetData) -> (c: FVFCombinedPrimitives)
    requires
        vertex_sum(flat_prims(asset_data.meshes@)) <= u32::MAX,
        index_sum(flat_prims(asset_data.meshes@)) <= u32::MAX,
    ensures
        packs(c, flat_prims(asset_data.meshes@), asset_data.nodes@),
{
    let ghost all = flat_prims(asset_data.meshes@);
    let mut vertices: Vec<u8> = Vec::new();
    let mut indices: Vec<u32> = Vec::new();
    let mut primitive_vertex_count: Vec<u32> = Vec::new();
    let mut primitive_vertex_offset_in_combined_vertex_buffer: Vec<u32> = Vec::new();
    let mut primitive_index_count: Vec<u32> = Vec::new();
    let mut primitive_index_offset_in_combined_index_buffer: Vec<u32> = Vec::new();
    let mut primitive_parent_node_indices: Vec<Vec<usize>> = Vec::new();

    let mut vertex_offset_in_combined_vb: u32 = 0;
    let mut index_offset_in_combined_ib: u32 = 0;
    let ghost mut done: Seq<(int, Primitive)> = seq![];

    let mut mesh_index: usize = 0;
    while mesh_index < asset_data.meshes.len()
        invariant
            mesh_index <= asset_data.meshes@.len(),
            all == flat_prims(asset_data.meshes@),
            done == flat_prims(asset_data.meshes@.take(mesh_index as int)),
            vertex_sum(all) <= u32::MAX,
            index_sum(all) <= u32::MAX,
            done.len() <= all.len(),
            all.take(done.len() as int) == done,
            vertex_offset_in_combined_vb == vertex_sum(done),
            index_offset_in_combined_ib == index_sum(done),
            packs(
                FVFCombinedPrimitives {
                    vertex_data: vertices,
                    index_data: indices,
                    primitive_vertex_count,
                    primitive_vertex_offset_in_combined_vertex_buffer,
                    primitive_index_count,
                    primitive_index_offset_in_combined_index_buffer,
                    primitive_parent_node_indices,
                },
                done,
                asset_data.nodes@,
            ),
        decreases asset_data.meshes@.len() - mesh_index,
    {
        let mesh = &asset_data.meshes[mesh_index];
        proof {
            lemma_flat_prims_step(asset_data.meshes@, mesh_index as int);
            lemma_flat_prefix(asset_data.meshes@, mesh_index + 1);
        }
        let ghost before_mesh = done;
        let mut k: usize = 0;
        while k < mesh.primitives.len()
            invariant
                k <= mesh.primitives@.len(),
                mesh == asset_data.meshes@[mesh_index as int],
                mesh_index < asset_data.meshes@.len(),
                all == flat_prims(asset_data.meshes@),
                flat_prims(asset_data.meshes@.take(mesh_index + 1)) == before_mesh
                    + mesh.primitives@.map_values(|p: Primitive| (mesh_index as int, p)),
                done == before_mesh + mesh.primitives@.take(k as int).map_values(
                    |p: Primitive| (mesh_index as int, p),
                ),
                vertex_sum(all) <= u32::MAX,
                index_sum(all) <= u32::MAX,
                all.take(flat_prims(asset_data.meshes@.take(mesh_index + 1)).len() as int) == flat_prims(asset_data.meshes@.take(mesh_index + 1)),
                flat_prims(asset_data.meshes@.take(mesh_index + 1)).len() <= all.len(),
                vertex_offset_in_combined_vb == vertex_sum(done),
                index_offset_in_combined_ib == index_sum(done),
                packs(
                    FVFCombinedPrimitives {
                        vertex_data: vertices,
                        index_data: indices,
                        primitive_vertex_count,
                        primitive_vertex_offset_in_combined_vertex_buffer,
                        primitive_index_count,
                        primitive_index_offset_in_combined_index_buffer,
                        primitive_parent_node_indices,
                    },
                    done,
                    asset_data.nodes@,
                ),
            decreases mesh.primitives@.len() - k,
        {
            let primitive = &mesh.primitives[k];
            let ghost next = done.push((mesh_index as int, *primitive));
            proof {
                assert(next =~= before_mesh + mesh.primitives@.take(k + 1).map_values(
                    |p: Primitive| (mesh_index as int, p),
                ));
                let full = flat_prims(asset_data.meshes@.take(mesh_index + 1));
                assert(full.take(next.len() as int) =~= next);
                assert(all.take(next.len() as int) =~= next);
                lemma_sums_prefix(all, next.len() as int);
                assert(next.drop_last() =~= done);
                assert(next.last() == (mesh_index as int, *primitive));
                assert(vertex_sum(next) == vertex_sum(done) + crate::asset::vertex_count(*primitive));
                assert(index_sum(next) == index_sum(done) + index_count(primitive.index_buffer));
            }
            let ghost old_vc = primitive_vertex_count@;
            let ghost old_vo = primitive_vertex_offset_in_combined_vertex_buffer@;
            let ghost old_ic = primitive_index_count@;
            let ghost old_io = primitive_index_offset_in_combined_index_buffer@;
            let ghost old_pn = primitive_parent_node_indices@;
            let parent_node_indices = parent_nodes(&asset_data.nodes, mesh_index);
            primitive_parent_node_indices.push(parent_node_indices);

            let mut vb = primitive.vertex_data.clone();
            assert(vb@ =~= primitive.vertex_data@);
            vertices.append(&mut vb);
            let vertex_count = (primitive.vertex_data.len() / VERTEX_STRIDE) as u32;
            primitive_vertex_count.push(vertex_count);
            primitive_vertex_offset_in_combined_vertex_buffer.push(vertex_offset_in_combined_vb);
            vertex_offset_in_combined_vb = vertex_offset_in_combined_vb + vertex_count;

            let mut ib = widen_indices(&primitive.index_buffer);
            primitive_index_count.push(ib.len() as u32);
            primitive_index_offset_in_combined_index_buffer.push(index_offset_in_combined_ib);
            index_offset_in_combined_ib = index_offset_in_combined_ib + ib.len() as u32;
            indices.append(&mut ib);

            proof {
                let c = FVFCombinedPrimitives {
                    vertex_data: vertices,
                    index_data: indices,
                    primitive_vertex_count,
                    primitive_vertex_offset_in_combined_vertex_buffer,
                    primitive_index_count,
                    primitive_index_offset_in_combined_index_buffer,
                    primitive_parent_node_indices,
                };
                assert forall|q: int| 0 <= q < next.len() implies {
                    &&& #[trigger] c.primitive_vertex_count@[q] == crate::asset::vertex_count(next[q].1)
                    &&& c.primitive_vertex_offset_in_combined_vertex_buffer@[q] == vertex_sum(next.take(q))
                    &&& c.primitive_index_count@[q] == index_count(next[q].1.index_buffer)
                    &&& c.primitive_index_offset_in_combined_index_buffer@[q] == index_sum(next.take(q))
                    &&& c.primitive_parent_node_indices@[q]@ == crate::traditional_asset::nodes_with_mesh(
                        asset_data.nodes@,
                        next[q].0,
                        asset_data.nodes@.len() as int,
                    )
                } by {
                    if q < done.len() {
                        assert(next.take(q) =~= done.take(q));
                        assert(next[q] == done[q]);
                        assert(c.primitive_vertex_count@[q] == old_vc[q]);
                        assert(c.primitive_vertex_offset_in_combined_vertex_buffer@[q] == old_vo[q]);
                        assert(c.primitive_index_count@[q] == old_ic[q]);
                        assert(c.primitive_index_offset_in_combined_index_buffer@[q] == old_io[q]);
                        assert(c.primitive_parent_node_indices@[q] == old_pn[q]);
                    } else {
                        assert(q == done.len());
                        assert(next.take(q) =~= done);
                        assert(next[q] == (mesh_index as int, *primitive));
                    }
                }
            }
            proof {
                done = next;
            }
            k = k + 1;
        }
        assert(mesh.primitives@.take(k as int) =~= mesh.primitives@);
        mesh_index = mesh_index + 1;
    }
    assert(asset_data.meshes@.take(mesh_index as int) =~= asset_data.meshes@);
    FVFCombinedPrimitives {
        vertex_data: vertices,
        index_data: indices,
        primitive_vertex_count,
        primitive_vertex_offset_in_combined_vertex_buffer,
        primitive_index_count,
        primitive_index_offset_in_combined_index_buffer,
        primitive_parent_node_indices,
    }
}

/// Sums over a prefix are at most the sums over the whole.
proof fn lemma_sums_prefix(f: Seq<(int, Primitive)>, k: int)
    requires
        0 <= k <= f.len(),
    ensures
        vertex_sum(f.take(k)) <= vertex_sum(f),
        index_sum(f.take(k)) <= index_sum(f),
    decreases f.len() - k,
{
    if k < f.len() {
        lemma_sums_prefix(f, k + 1);
        assert(f.take(k + 1).drop_last() =~= f.take(k));
    } else {
        assert(f.take(k) =~= f);
    }
}


/// The per-primitive vectors of `p` are long enough to be read at every index of
/// `primitive_index_count`.
pub open spec fn fvf_indexable(p: FVFCombinedPrimitives) -> bool {
    &&& p.primitive_index_count@.len() <= p.primitive_parent_node_indices@.len()
    &&& p.primitive_index_count@.len() <= p.primitive_index_offset_in_combined_index_buffer@.len()
    &&& p.primitive_index_count@.len() <= p.primitive_vertex_offset_in_combined_vertex_buffer@.len()
}

/// The draw of the `i`-th primitive of `p`: all its indices, once per node that shows it.
pub open spec fn fvf_draw(p: FVFCombinedPrimitives, i: int) -> DrawIndexedIndirectCommand {
    DrawIndexedIndirectCommand {
        index_count: p.primitive_index_count@[i],
        instance_count: p.primitive_parent_node_indices@[i]@.len() as u32,
        first_index: p.primitive_index_offset_in_combined_index_buffer@[i],
        vertex_offset: p.primitive_vertex_offset_in_combined_vertex_buffer@[i] as i32,
        first_instance: 0,
    }
}

pub open spec fn fvf_draws_of(p: FVFCombinedPrimitives) -> Seq<DrawIndexedIndirectCommand> {
    Seq::new(p.primitive_index_count@.len(), |i: int| fvf_draw(p, i))
}

/// The draws of all combined meshes, in mesh order.
pub open spec fn fvf_draws(meshes: Seq<assets::Mesh>) -> Seq<DrawIndexedIndirectCommand>
    decreases meshes.len(),
{
    if meshes.len() == 0 {
        seq![]
    } else {
        fvf_draws(meshes.drop_last()) + match meshes.last().primitives {
            Primitives::FixedVertexFunctionCombined(p) => fvf_draws_of(p),
            Primitives::Meshlets(_) => seq![],
        }
    }
}

pub open spec fn all_fvf_indexable(meshes: Seq<assets::Mesh>) -> bool {
    forall|i: int|
        0 <= i < meshes.len() ==> match #[trigger] meshes[i].primitives {
            Primitives::FixedVertexFunctionCombined(p) => fvf_indexable(p),
            Primitives::Meshlets(_) => true,
        }
}

/// One indexed indirect draw per primitive of every combined mesh.
pub fn fvf_build_indirect_buffer(meshes: &Vec<assets::Mesh>) -> (draws: Vec<DrawIndexedIndirectCommand>)
    requires
        all_fvf_indexable(meshes@),
    ensures
        draws@ == fvf_draws(meshes@),
{
    let mut draws: Vec<DrawIndexedIndirectCommand> = Vec::new();
    let mut m: usize = 0;
    while m < meshes.len()
        invariant
            m <= meshes@.len(),
            all_fvf_indexable(meshes@),
            draws@ == fvf_draws(meshes@.take(m as int)),
        decreases meshes@.len() - m,
    {
        let ghost before = draws@;
        assert(meshes@.take(m + 1).drop_last() =~= meshes@.take(m as int));
        assert(meshes@.take(m + 1).last() == meshes@[m as int]);
        if let Primitives::FixedVertexFunctionCombined(primitives) = &meshes[m].primitives {
            assert(fvf_indexable(*primitives));
            let mut i: usize = 0;
            while i < primitives.primitive_index_count.len()
                invariant
                    i <= primitives.primitive_index_count@.len(),
                    fvf_indexable(*primitives),
                    draws@ == before + fvf_draws_of(*primitives).take(i as int),
                decreases primitives.primitive_index_count@.len() - i,
            {
                draws.push(
                    DrawIndexedIndirectCommand {
                        index_count: primitives.primitive_index_count[i],
                        instance_count: primitives.primitive_parent_node_indices[i].len() as u32,
                        first_index: primitives.primitive_index_offset_in_combined_index_buffer[i],
                        vertex_offset: primitives.primitive_vertex_offset_in_combined_vertex_buffer[i] as i32,
                        first_instance: 0,
                    },
                );
                i = i + 1;
                assert(fvf_draws_of(*primitives).take(i as int) =~= fvf_draws_of(*primitives).take(i - 1).push(fvf_draw(*primitives, i - 1)));
            }
            assert(fvf_draws_of(*primitives).take(i as int) =~= fvf_draws_of(*primitives));
        } else {
            assert(draws@ =~= fvf_draws(meshes@.take(m + 1)));
        }
        m = m + 1;
    }
    assert(meshes@.take(m as int) =~= meshes@);
    draws
}

/// Total number of parent nodes over the lists.
pub open spec fn parent_sum(ps: Seq<Vec<usize>>) -> nat
    decreases ps.len(),
{
    if ps.len() == 0 {
        0
    } else {
        parent_sum(ps.drop_last()) + ps.last()@.len()
    }
}

/// Where each primitive's instances start in the instance buffer of its mesh.
pub open spec fn fvf_offsets_of(p: FVFCombinedPrimitives) -> Seq<u32> {
    Seq::new(
        p.primitive_parent_node_indices@.len(),
        |i: int| parent_sum(p.primitive_parent_node_indices@.take(i)) as u32,
    )
}

/// The transform addresses of the nodes in the lists, list after list.
pub open spec fn instances_of(addresses: Map<usize, u64>, ps: Seq<Vec<usize>>) -> Seq<TraditionalInstance>
    decreases ps.len(),
{
    if ps.len() == 0 {
        seq![]
    } else {
        instances_of(addresses, ps.drop_last()) + ps.last()@.map_values(
            |n: usize| TraditionalInstance { transform: addresses[n] },
        )
    }
}

pub open spec fn fvf_offsets(meshes: Seq<assets::Mesh>) -> Seq<u32>
    decreases meshes.len(),
{
    if meshes.len() == 0 {
        seq![]
    } else {
        fvf_offsets(meshes.drop_last()) + match meshes.last().primitives {
            Primitives::FixedVertexFunctionCombined(p) => fvf_offsets_of(p),
            Primitives::Meshlets(_) => seq![],
        }
    }
}

pub open spec fn fvf_instances(addresses: Map<usize, u64>, meshes: Seq<assets::Mesh>) -> Seq<TraditionalInstance>
    decreases meshes.len(),
{
    if meshes.len() == 0 {
        seq![]
    } else {
        fvf_instances(addresses, meshes.drop_last()) + match meshes.last().primitives {
            Primitives::FixedVertexFunctionCombined(p) => instances_of(addresses, p.primitive_parent_node_indices@),
            Primitives::Meshlets(_) => seq![],
        }
    }
}

/// Every parent node of every combined mesh has a transform address, and no mesh has more
/// than `u32::MAX` instances.
pub open spec fn fvf_instances_ok(addresses: Map<usize, u64>, meshes: Seq<assets::Mesh>) -> bool {
    forall|i: int|
        0 <= i < meshes.len() ==> match #[trigger] meshes[i].primitives {
            Primitives::FixedVertexFunctionCombined(p) => {
                &&& parent_sum(p.primitive_parent_node_indices@) <= u32::MAX
                &&& forall|k: int, j: int|
                    0 <= k < p.primitive_parent_node_indices@.len() && 0 <= j
                        < p.primitive_parent_node_indices@[k]@.len() ==> addresses.contains_key(
                        #[trigger] p.primitive_parent_node_indices@[k]@[j],
                    )
            },
            Primitives::Meshlets(_) => true,
        }
}

proof fn lemma_parent_sum_prefix(ps: Seq<Vec<usize>>, k: int)
    requires
        0 <= k <= ps.len(),
    ensures
        parent_sum(ps.take(k)) <= parent_sum(ps),
    decreases ps.len() - k,
{
    if k < ps.len() {
        lemma_parent_sum_prefix(ps, k + 1);
        assert(ps.take(k + 1).drop_last() =~= ps.take(k));
    } else {
        assert(ps.take(k) =~= ps);
    }
}

/// For every combined mesh: the transform address of each node that shows each primitive,
/// primitive after primitive, and where each primitive's run of instances starts (counted
/// from the mesh's first instance).
pub fn fvf_build_instance_data(
    node_transform_buffer_address: &HashMap<usize, u64>,
    meshes: &Vec<assets::Mesh>,
) -> (out: (Vec<u32>, Vec<TraditionalInstance>))
    requires
        fvf_instances_ok(node_transform_buffer_address@, meshes@),
    ensures
        out.0@ == fvf_offsets(meshes@),
        out.1@ == fvf_instances(node_transform_buffer_address@, meshes@),
{
    let ghost addresses = node_transform_buffer_address@;
    let mut instance_data: Vec<TraditionalInstance> = Vec::new();
    let mut instance_offset: Vec<u32> = Vec::new();
    let mut m: usize = 0;
    while m < meshes.len()
        invariant
            m <= meshes@.len(),
            fvf_instances_ok(addresses, meshes@),
            addresses == node_transform_buffer_address@,
            instance_offset@ == fvf_offsets(meshes@.take(m as int)),
            instance_data@ == fvf_instances(addresses, meshes@.take(m as int)),
        decreases meshes@.len() - m,
    {
        let ghost offsets_before = instance_offset@;
        let ghost data_before = instance_data@;
        assert(meshes@.take(m + 1).drop_last() =~= meshes@.take(m as int));
        assert(meshes@.take(m + 1).last() == meshes@[m as int]);
        if let Primitives::FixedVertexFunctionCombined(primitives) = &meshes[m].primitives {
            let ghost ps = primitives.primitive_parent_node_indices@;
            let mut offset: u32 = 0;
            let mut k: usize = 0;
            while k < primitives.primitive_parent_node_indices.len()
                invariant
                    k <= ps.len(),
                    ps == primitives.primitive_parent_node_indices@,
                    parent_sum(ps) <= u32::MAX,
                    forall|a: int, b: int|
                        0 <= a < ps.len() && 0 <= b < ps[a]@.len() ==> addresses.contains_key(
                            #[trigger] ps[a]@[b],
                        ),
                    addresses == node_transform_buffer_address@,
                    offset == parent_sum(ps.take(k as int)),
                    instance_offset@ == offsets_before + fvf_offsets_of(*primitives).take(k as int),
                    instance_data@ == data_before + instances_of(addresses, ps.take(k as int)),
                decreases ps.len() - k,
            {
                let node_indices = &primitives.primitive_parent_node_indices[k];
                let ghost data_k = instance_data@;
                let mut j: usize = 0;
                while j < node_indices.len()
                    invariant
                        j <= node_indices@.len(),
                        node_indices == ps[k as int],
                        k < ps.len(),
                        forall|a: int, b: int|
                            0 <= a < ps.len() && 0 <= b < ps[a]@.len() ==> addresses.contains_key(
                                #[trigger] ps[a]@[b],
                            ),
                        addresses == node_transform_buffer_address@,
                        instance_data@ == data_k + node_indices@.take(j as int).map_values(
                            |n: usize| TraditionalInstance { transform: addresses[n] },
                        ),
                    decreases node_indices@.len() - j,
                {
                    let node_index = node_indices[j];
                    assert(addresses.contains_key(ps[k as int]@[j as int]));
                    let address = node_transform_buffer_address.get(&node_index).unwrap();
                    instance_data.push(TraditionalInstance { transform: *address });
                    j = j + 1;
                    assert(node_indices@.take(j as int).map_values(
                        |n: usize| TraditionalInstance { transform: addresses[n] },
                    ) =~= node_indices@.take(j - 1).map_values(
                        |n: usize| TraditionalInstance { transform: addresses[n] },
                    ).push(TraditionalInstance { transform: addresses[node_index] }));
                }
                assert(node_indices@.take(j as int) =~= node_indices@);
                proof {
                    assert(ps.take(k + 1).drop_last() =~= ps.take(k as int));
                    assert(ps.take(k + 1).last() == ps[k as int]);
                    lemma_parent_sum_prefix(ps, k + 1);
                }
                instance_offset.push(offset);
                offset = offset + node_indices.len() as u32;
                k = k + 1;
                assert(fvf_offsets_of(*primitives).take(k as int) =~= fvf_offsets_of(*primitives).take(k - 1).push(
                    parent_sum(ps.take(k - 1)) as u32,
                ));
            }
            assert(ps.take(k as int) =~= ps);
            assert(fvf_offsets_of(*primitives).take(k as int) =~= fvf_offsets_of(*primitives));
        } else {
            assert(instance_offset@ =~= fvf_offsets(meshes@.take(m + 1)));
            assert(instance_data@ =~= fvf_instances(addresses, meshes@.take(m + 1)));
        }
        m = m + 1;
    }
    assert(meshes@.take(m as int) =~= meshes@);
    (instance_offset, instance_data)
}

proof fn lemma_all_vertex_data_prefix(f: Seq<(int, Primitive)>, k: int)
    requires
        0 <= k <= f.len(),
    ensures
        all_vertex_data(f.take(k)).len() <= all_vertex_data(f).len(),
        all_vertex_data(f).subrange(0, all_vertex_data(f.take(k)).len() as int) == all_vertex_data(f.take(k)),
        all_indices(f.take(k)).len() <= all_indices(f).len(),
        all_indices(f).subrange(0, all_indices(f.take(k)).len() as int) == all_indices(f.take(k)),
    decreases f.len(),
{
    if k == f.len() {
        assert(f.take(k) =~= f);
        assert(all_vertex_data(f).subrange(0, all_vertex_data(f).len() as int) =~= all_vertex_data(f));
        assert(all_indices(f).subrange(0, all_indices(f).len() as int) =~= all_indices(f));
    } else {
        let g = f.drop_last();
        assert(g.take(k) =~= f.take(k));
        lemma_all_vertex_data_prefix(g, k);
        let a = all_vertex_data(g);
        let l = all_vertex_data(f.take(k)).len() as int;
        assert(all_vertex_data(f) == a + f.last().1.vertex_data@);
        assert((a + f.last().1.vertex_data@).subrange(0, l) =~= a.subrange(0, l));
        let ai = all_indices(g);
        let li = all_indices(f.take(k)).len() as int;
        assert(all_indices(f) == ai + widened(f.last().1.index_buffer));
        assert((ai + widened(f.last().1.index_buffer)).subrange(0, li) =~= ai.subrange(0, li));
    }
}

proof fn lemma_widened_len(ib: IndexBufferType)
    ensures
        widened(ib).len() == index_count(ib),
{
    match ib {
        IndexBufferType::U16(items) => {},
        IndexBufferType::U32(items) => {},
    }
}

proof fn lemma_packed_lengths(f: Seq<(int, Primitive)>)
    requires
        forall|k: int| 0 <= k < f.len() ==> (#[trigger] f[k]).1.vertex_data@.len() % 32 == 0,
    ensures
        all_vertex_data(f).len() == 32 * vertex_sum(f),
        all_indices(f).len() == index_sum(f),
    decreases f.len(),
{
    if f.len() > 0 {
        let g = f.drop_last();
        assert forall|k: int| 0 <= k < g.len() implies (#[trigger] g[k]).1.vertex_data@.len() % 32 == 0 by {
            assert(g[k] == f[k]);
        }
        lemma_packed_lengths(g);
        assert(f.last() == f[f.len() - 1]);
        lemma_widened_len(f.last().1.index_buffer);
    }
}

/// Every primitive's vertices and indices sit in the combined buffers exactly where its
/// offsets say: the vertex bytes from `32 * vertex offset`, `32 * vertex count` long, are
/// the primitive's vertex data (for primitives made of whole 32-byte vertices), and the
/// indices from the index offset, index count long, are its indices widened to 32 bits.
pub proof fn law_primitives_in_place(c: FVFCombinedPrimitives, asset: GltfAssetData)
    requires
        packs(c, flat_prims(asset.meshes@), asset.nodes@),
        forall|k: int|
            0 <= k < flat_prims(asset.meshes@).len() ==> (#[trigger] flat_prims(asset.meshes@)[k]).1.vertex_data@.len()
                % 32 == 0,
    ensures
        forall|k: int|
            0 <= k < flat_prims(asset.meshes@).len() ==> {
                let p = #[trigger] flat_prims(asset.meshes@)[k].1;
                let vo = c.primitive_vertex_offset_in_combined_vertex_buffer@[k] as int;
                let vc = c.primitive_vertex_count@[k] as int;
                let io = c.primitive_index_offset_in_combined_index_buffer@[k] as int;
                let ic = c.primitive_index_count@[k] as int;
                &&& 32 * (vo + vc) <= c.vertex_data@.len()
                &&& c.vertex_data@.subrange(32 * vo, 32 * (vo + vc)) == p.vertex_data@
                &&& io + ic <= c.index_data@.len()
                &&& c.index_data@.subrange(io, io + ic) == widened(p.index_buffer)
            },
{
    let f = flat_prims(asset.meshes@);
    assert forall|k: int| 0 <= k < f.len() implies {
        let p = #[trigger] f[k].1;
        let vo = c.primitive_vertex_offset_in_combined_vertex_buffer@[k] as int;
        let vc = c.primitive_vertex_count@[k] as int;
        let io = c.primitive_index_offset_in_combined_index_buffer@[k] as int;
        let ic = c.primitive_index_count@[k] as int;
        &&& 32 * (vo + vc) <= c.vertex_data@.len()
        &&& c.vertex_data@.subrange(32 * vo, 32 * (vo + vc)) == p.vertex_data@
        &&& io + ic <= c.index_data@.len()
        &&& c.index_data@.subrange(io, io + ic) == widened(p.index_buffer)
    } by {
        let p = f[k].1;
        let a = f.take(k);
        let b = f.take(k + 1);
        assert forall|j: int| 0 <= j < a.len() implies (#[trigger] a[j]).1.vertex_data@.len() % 32 == 0 by {
            assert(a[j] == f[j]);
        }
        assert forall|j: int| 0 <= j < b.len() implies (#[trigger] b[j]).1.vertex_data@.len() % 32 == 0 by {
            assert(b[j] == f[j]);
        }
        lemma_packed_lengths(a);
        lemma_packed_lengths(b);
        assert(b.drop_last() =~= a);
        assert(b.last() == f[k]);
        assert(all_vertex_data(b) == all_vertex_data(a) + p.vertex_data@);
        assert(all_indices(b) == all_indices(a) + widened(p.index_buffer));
        lemma_widened_len(p.index_buffer);
        lemma_all_vertex_data_prefix(f, k + 1);
        let la = all_vertex_data(a).len() as int;
        let lb = all_vertex_data(b).len() as int;
        assert(c.vertex_data@.subrange(la, lb) =~= all_vertex_data(b).subrange(la, lb));
        assert(all_vertex_data(b).subrange(la, lb) =~= p.vertex_data@);
        let lia = all_indices(a).len() as int;
        let lib = all_indices(b).len() as int;
        assert(c.index_data@.subrange(lia, lib) =~= all_indices(b).subrange(lia, lib));
        assert(all_indices(b).subrange(lia, lib) =~= widened(p.index_buffer));
    }
}

} // verus!
