//! Gathers the meshlet geometry of glTF asset instances into global buffers.
//!
//! Each pushed instance walks its scene graph; every node with a mesh becomes one mesh
//! instance per primitive, and every meshlet of that primitive one meshlet instance. The
//! meshlets of a mesh are built once per asset path and reused by later instances.
use vstd::prelude::*;
use std::collections::HashMap;
use crate::asset::{
    GltfAssetData, IndexBufferType, Primitive, VERTEX_STRIDE, widened, index_count, vertex_count,
    widen_indices, well_founded, subtree_visits, children_visits, stack_visits, all_in_range,
    meshes_in_range, chosen_scene, walkable, scene_visits, lemma_subtree_unfold,
    lemma_push_children, lemma_visits_in_range,
};
use crate::clusterize::{
    Meshlet, MeshletBuild, meshopt_meshlets, meshlet_fits, meshlets_valid, build_meshlets_ok,
    unit_decimal, meshopt_build_meshlets,
};
use crate::gpu::MeshletInstance;

verus! {

broadcast use vstd::std_specs::hash::group_hash_axioms;

/// Most vertices a meshlet may reference.
pub const MAX_VERTICES: usize = 64;

/// Most triangles a meshlet may hold.
pub const MAX_TRIANGLES: usize = 124;

/// The cone weight meshlets are built with, as decimal text.
pub open spec fn cone_weight_text() -> Seq<char> {
    seq!['0', '.', '5']
}

/// Where the meshlets built for one primitive lie in the global meshlet buffer.
#[derive(Clone, Copy, Debug, PartialEq, Eq, Structural)]
pub struct MeshletInfo {
    pub meshlets_offset: u32,
    pub meshlets_count: u32,
}

/// The meshlet runs of all primitives of one mesh.
pub struct MeshCacheEntry {
    pub meshlets_info: Vec<MeshletInfo>,
}

/// One primitive of one placed mesh: the node it comes from and its meshlet run.
#[derive(Clone, Copy, Debug, PartialEq, Eq, Structural)]
pub struct MeshInstance {
    pub node_index: usize,
    pub meshlets_offset: u32,
    pub meshlets_count: u32,
}

/// The global buffers all pushed instances share.
pub struct GlobalGeometryData {
    pub vertex_data: Vec<u8>,
    pub meshlet_vertices: Vec<u32>,
    pub meshlet_triangles: Vec<u8>,
    pub meshlets: Vec<Meshlet>,
    pub mesh_instances: Vec<MeshInstance>,
    pub meshlet_instances: Vec<MeshletInstance>,
}

struct AssetMeshCache {
    path: String,
    meshes: HashMap<usize, MeshCacheEntry>,
}

pub struct Parser {
    pub geometry_data: GlobalGeometryData,
    asset_mesh_cache: Vec<AssetMeshCache>,
}

/// The state of a walk: the global buffers, the mesh cache of the asset, and the instances
/// gathered so far (mesh instance indices counted from the first one of this walk).
#[verifier::ext_equal]
pub struct BuildState {
    pub vertex_data: Seq<u8>,
    pub meshlet_vertices: Seq<u32>,
    pub meshlet_triangles: Seq<u8>,
    pub meshlets: Seq<Meshlet>,
    pub cache: Map<usize, Seq<MeshletInfo>>,
    pub mesh_instances: Seq<MeshInstance>,
    pub meshlet_instances: Seq<MeshletInstance>,
}

pub open spec fn cache_view(h: Map<usize, MeshCacheEntry>) -> Map<usize, Seq<MeshletInfo>> {
    Map::new(|k: usize| h.contains_key(k), |k: usize| h[k].meshlets_info@)
}

/// The meshlet instances of the mesh instance at `mesh_instance` with meshlet run `info`.
pub open spec fn instances_for(mesh_instance: int, info: MeshletInfo) -> Seq<MeshletInstance> {
    Seq::new(
        info.meshlets_count as nat,
        |i: int|
            MeshletInstance {
                mesh_instance_index: mesh_instance as u32,
                meshlet_index: (info.meshlets_offset + i) as u32,
                lod_index: 0,
            },
    )
}

/// Adds a mesh instance of `node` with the meshlet run `info`, and its meshlet instances.
pub open spec fn add_instance(s: BuildState, node: int, info: MeshletInfo) -> BuildState {
    BuildState {
        vertex_data: s.vertex_data,
        meshlet_vertices: s.meshlet_vertices,
        meshlet_triangles: s.meshlet_triangles,
        meshlets: s.meshlets,
        cache: s.cache,
        mesh_instances: s.mesh_instances.push(
            MeshInstance {
                node_index: node as usize,
                meshlets_offset: info.meshlets_offset,
                meshlets_count: info.meshlets_count,
            },
        ),
        meshlet_instances: s.meshlet_instances + instances_for(s.mesh_instances.len() as int, info),
    }
}

/// Adds one mesh instance per cached meshlet run, in order.
pub open spec fn add_cached(s: BuildState, node: int, infos: Seq<MeshletInfo>) -> BuildState
    decreases infos.len(),
{
    if infos.len() == 0 {
        s
    } else {
        add_instance(add_cached(s, node, infos.drop_last()), node, infos.last())
    }
}

/// The meshlets built for a primitive.
pub open spec fn primitive_meshlets(p: Primitive) -> (Seq<Meshlet>, Seq<u32>, Seq<u8>) {
    meshopt_meshlets(
        widened(p.index_buffer),
        p.vertex_data@,
        VERTEX_STRIDE,
        MAX_VERTICES,
        MAX_TRIANGLES,
        cone_weight_text(),
    )
}

/// Moves a meshlet's ranges by `gv` meshlet vertices and `gt` triangle bytes.
pub open spec fn rebase(m: Meshlet, gv: int, gt: int) -> Meshlet {
    Meshlet {
        vertex_offset: (m.vertex_offset + gv) as u32,
        triangle_offset: (m.triangle_offset + gt) as u32,
        vertex_count: m.vertex_count,
        triangle_count: m.triangle_count,
    }
}

pub open spec fn vertex_total(s: BuildState) -> int {
    s.vertex_data.len() as int / VERTEX_STRIDE as int
}

/// Appends the meshlets of `p` and its vertices to the global buffers; returns where its
/// meshlets went.
pub open spec fn append_primitive(s: BuildState, p: Primitive) -> (BuildState, MeshletInfo) {
    let built = primitive_meshlets(p);
    let vo = vertex_total(s);
    let gv = s.meshlet_vertices.len() as int;
    let gt = s.meshlet_triangles.len() as int;
    let info = MeshletInfo {
        meshlets_offset: s.meshlets.len() as u32,
        meshlets_count: built.0.len() as u32,
    };
    (
        BuildState {
            vertex_data: s.vertex_data + p.vertex_data@,
            meshlet_vertices: s.meshlet_vertices + built.1.map_values(|v: u32| (v + vo) as u32),
            meshlet_triangles: s.meshlet_triangles + built.2,
            meshlets: s.meshlets + built.0.map_values(|m: Meshlet| rebase(m, gv, gt)),
            cache: s.cache,
            mesh_instances: s.mesh_instances,
            meshlet_instances: s.meshlet_instances,
        },
        info,
    )
}

/// Builds the first `k` primitives of mesh `m` for `node`; returns their meshlet runs.
pub open spec fn build_mesh(s: BuildState, asset: GltfAssetData, node: int, m: int, k: int) -> (
    BuildState,
    Seq<MeshletInfo>,
)
    decreases k,
{
    if k <= 0 {
        (s, seq![])
    } else {
        let (s1, infos) = build_mesh(s, asset, node, m, k - 1);
        let (s2, info) = append_primitive(s1, asset.meshes@[m].primitives@[k - 1]);
        (add_instance(s2, node, info), infos.push(info))
    }
}

/// Visits node `n`: a node with a cached mesh reuses its meshlets, one with an uncached
/// mesh builds them and caches them.
pub open spec fn step(s: BuildState, asset: GltfAssetData, n: int) -> BuildState {
    match asset.nodes@[n].mesh_index {
        None => s,
        Some(m) => if s.cache.contains_key(m) {
            add_cached(s, n, s.cache[m])
        } else {
            let (s1, infos) = build_mesh(
                s,
                asset,
                n,
                m as int,
                asset.meshes@[m as int].primitives@.len() as int,
            );
            BuildState {
                vertex_data: s1.vertex_data,
                meshlet_vertices: s1.meshlet_vertices,
                meshlet_triangles: s1.meshlet_triangles,
                meshlets: s1.meshlets,
                cache: s1.cache.insert(m, infos),
                mesh_instances: s1.mesh_instances,
                meshlet_instances: s1.meshlet_instances,
            }
        },
    }
}

/// The state after visiting `visits` in order.
pub open spec fn run(s: BuildState, asset: GltfAssetData, visits: Seq<int>) -> BuildState
    decreases visits.len(),
{
    if visits.len() == 0 {
        s
    } else {
        step(run(s, asset, visits.drop_last()), asset, visits.last())
    }
}

// ---------------------------------------------------------------------------------------
// Size accounting: how much a walk can add to any buffer.
/// Sum over meshlet runs of their counts plus one.
pub open spec fn infos_sum(infos: Seq<MeshletInfo>) -> nat
    decreases infos.len(),
{
    if infos.len() == 0 {
        0
    } else {
        infos_sum(infos.drop_last()) + infos.last().meshlets_count as nat + 1
    }
}

/// Sum over primitives of their index count, vertex count and four.
pub open spec fn prims_sum(prims: Seq<Primitive>) -> nat
    decreases prims.len(),
{
    if prims.len() == 0 {
        0
    } else {
        prims_sum(prims.drop_last()) + index_count(prims.last().index_buffer) + vertex_count(
            prims.last(),
        ) + 4
    }
}

/// What visiting node `n` can add to any buffer, given the cache the walk started with.
pub open spec fn visit_bound(cache0: Map<usize, Seq<MeshletInfo>>, asset: GltfAssetData, n: int) -> nat {
    match asset.nodes@[n].mesh_index {
        None => 0,
        Some(m) => (if cache0.contains_key(m) {
            infos_sum(cache0[m])
        } else {
            0
        }) + prims_sum(asset.meshes@[m as int].primitives@),
    }
}

pub open spec fn visits_bound(
    cache0: Map<usize, Seq<MeshletInfo>>,
    asset: GltfAssetData,
    vs: Seq<int>,
) -> nat
    decreases vs.len(),
{
    if vs.len() == 0 {
        0
    } else {
        visit_bound(cache0, asset, vs[0]) + visits_bound(cache0, asset, vs.drop_first())
    }
}

/// Every buffer, counted in its elements (vertices for the vertex data), can still grow by
/// `extra` without passing `u32::MAX`; `mi0`, `mli0` instances already precede this walk's.
pub open spec fn fits(s: BuildState, mi0: int, mli0: int, extra: int) -> bool {
    &&& vertex_total(s) + extra <= u32::MAX
    &&& s.meshlet_vertices.len() + extra <= u32::MAX
    &&& s.meshlet_triangles.len() + extra <= u32::MAX
    &&& s.meshlets.len() + extra <= u32::MAX
    &&& mi0 + s.mesh_instances.len() + extra <= u32::MAX
    &&& mli0 + s.meshlet_instances.len() + extra <= u32::MAX
}

// ---------------------------------------------------------------------------------------
// Well-formedness.
/// Every meshlet lies within the meshlet vertex and triangle buffers and its micro-indices
/// address its own vertices; every meshlet vertex is a vertex of the vertex buffer.
pub open spec fn meshlets_wf(
    vertex_data: Seq<u8>,
    meshlet_vertices: Seq<u32>,
    meshlet_triangles: Seq<u8>,
    meshlets: Seq<Meshlet>,
) -> bool {
    &&& vertex_data.len() % (VERTEX_STRIDE as nat) == 0
    &&& forall|k: int|
        0 <= k < meshlets.len() ==> meshlet_fits(
            #[trigger] meshlets[k],
            meshlet_vertices,
            meshlet_triangles,
            MAX_VERTICES as int,
            MAX_TRIANGLES as int,
        )
    &&& forall|j: int|
        0 <= j < meshlet_vertices.len() ==> #[trigger] meshlet_vertices[j] < vertex_data.len() / (
        VERTEX_STRIDE as nat)
}

/// A meshlet run lies within `n` meshlets.
pub open spec fn info_in(info: MeshletInfo, n: int) -> bool {
    info.meshlets_offset + info.meshlets_count <= n
}

/// Mesh instances point at meshlet runs within `n` meshlets; meshlet instances point at an
/// existing mesh instance and at a meshlet within its run.
pub open spec fn instances_wf(
    mesh_instances: Seq<MeshInstance>,
    meshlet_instances: Seq<MeshletInstance>,
    n: int,
) -> bool {
    &&& forall|i: int|
        0 <= i < mesh_instances.len() ==> #[trigger] mesh_instances[i].meshlets_offset
            + mesh_instances[i].meshlets_count <= n
    &&& forall|j: int|
        0 <= j < meshlet_instances.len() ==> {
            let mi = #[trigger] meshlet_instances[j];
            &&& mi.mesh_instance_index < mesh_instances.len()
            &&& mesh_instances[mi.mesh_instance_index as int].meshlets_offset <= mi.meshlet_index
            &&& mi.meshlet_index < mesh_instances[mi.mesh_instance_index as int].meshlets_offset
                + mesh_instances[mi.mesh_instance_index as int].meshlets_count
            &&& mi.lod_index == 0
        }
}

pub open spec fn cache_wf(cache: Map<usize, Seq<MeshletInfo>>, n: int) -> bool {
    forall|m: usize, i: int|
        #![trigger cache[m][i]]
        cache.contains_key(m) && 0 <= i < cache[m].len() ==> info_in(cache[m][i], n)
}

pub open spec fn state_wf(s: BuildState) -> bool {
    &&& meshlets_wf(s.vertex_data, s.meshlet_vertices, s.meshlet_triangles, s.meshlets)
    &&& instances_wf(s.mesh_instances, s.meshlet_instances, s.meshlets.len() as int)
    &&& cache_wf(s.cache, s.meshlets.len() as int)
}

/// The cache only grows; entries it started with stay, entries added by the walk hold one
/// meshlet run per primitive of their mesh, each no longer than the primitive's indices.
pub open spec fn cache_tracks(
    cache: Map<usize, Seq<MeshletInfo>>,
    cache0: Map<usize, Seq<MeshletInfo>>,
    asset: GltfAssetData,
) -> bool {
    &&& forall|m: usize| #[trigger]
        cache0.contains_key(m) ==> cache.contains_key(m) && cache[m] == cache0[m]
    &&& forall|m: usize|
        #[trigger] cache.contains_key(m) && !cache0.contains_key(m) ==> {
            &&& m < asset.meshes@.len()
            &&& cache[m].len() == asset.meshes@[m as int].primitives@.len()
            &&& forall|i: int|
                0 <= i < cache[m].len() ==> #[trigger] cache[m][i].meshlets_count <= index_count(
                    asset.meshes@[m as int].primitives@[i].index_buffer,
                )
        }
}

/// The primitives of `m` can be turned into meshlets.
pub open spec fn mesh_buildable(asset: GltfAssetData, m: int) -> bool {
    forall|k: int|
        0 <= k < asset.meshes@[m].primitives@.len() ==> build_meshlets_ok(
            widened(#[trigger] asset.meshes@[m].primitives@[k].index_buffer),
            asset.meshes@[m].primitives@[k].vertex_data@,
            VERTEX_STRIDE,
            MAX_VERTICES,
            MAX_TRIANGLES,
            cone_weight_text(),
        )
}

/// Every visited node whose mesh the starting cache lacks has a buildable mesh.
pub open spec fn visits_buildable(
    cache0: Map<usize, Seq<MeshletInfo>>,
    asset: GltfAssetData,
    vs: Seq<int>,
) -> bool {
    forall|i: int|
        0 <= i < vs.len() ==> match asset.nodes@[#[trigger] vs[i]].mesh_index {
            Some(m) => !cache0.contains_key(m) ==> mesh_buildable(asset, m as int),
            None => true,
        }
}


/// Each buffer of `b` is at most `g` longer than in `a`.
pub open spec fn grown_within(a: BuildState, b: BuildState, g: int) -> bool {
    &&& vertex_total(b) <= vertex_total(a) + g
    &&& b.meshlet_vertices.len() <= a.meshlet_vertices.len() + g
    &&& b.meshlet_triangles.len() <= a.meshlet_triangles.len() + g
    &&& b.meshlets.len() <= a.meshlets.len() + g
    &&& b.mesh_instances.len() <= a.mesh_instances.len() + g
    &&& b.meshlet_instances.len() <= a.meshlet_instances.len() + g
}

/// `b` extends every buffer of `a` and keeps its cache entries.
pub open spec fn extends(a: BuildState, b: BuildState) -> bool {
    &&& a.vertex_data.len() <= b.vertex_data.len()
    &&& a.meshlet_vertices.len() <= b.meshlet_vertices.len()
    &&& a.meshlet_triangles.len() <= b.meshlet_triangles.len()
    &&& a.meshlets.len() <= b.meshlets.len()
    &&& a.mesh_instances.len() <= b.mesh_instances.len()
    &&& a.meshlet_instances.len() <= b.meshlet_instances.len()
}

proof fn lemma_fits_after_growth(a: BuildState, b: BuildState, mi0: int, mli0: int, e: int, g: int)
    requires
        fits(a, mi0, mli0, e),
        grown_within(a, b, g),
        0 <= g <= e,
    ensures
        fits(b, mi0, mli0, e - g),
{
}

proof fn lemma_infos_sum_take(infos: Seq<MeshletInfo>, i: int)
    requires
        0 <= i < infos.len(),
    ensures
        infos_sum(infos.take(i + 1)) == infos_sum(infos.take(i)) + infos[i].meshlets_count + 1,
        infos_sum(infos.take(i + 1)) <= infos_sum(infos),
    decreases infos.len() - i,
{
    assert(infos.take(i + 1).drop_last() =~= infos.take(i));
    if i + 1 < infos.len() {
        lemma_infos_sum_take(infos, i + 1);
    } else {
        assert(infos.take(i + 1) =~= infos);
    }
}

proof fn lemma_prims_sum_take(prims: Seq<Primitive>, i: int)
    requires
        0 <= i < prims.len(),
    ensures
        prims_sum(prims.take(i + 1)) == prims_sum(prims.take(i)) + index_count(prims[i].index_buffer)
            + vertex_count(prims[i]) + 4,
        prims_sum(prims.take(i + 1)) <= prims_sum(prims),
    decreases prims.len() - i,
{
    assert(prims.take(i + 1).drop_last() =~= prims.take(i));
    if i + 1 < prims.len() {
        lemma_prims_sum_take(prims, i + 1);
    } else {
        assert(prims.take(i + 1) =~= prims);
    }
}

/// Meshlet runs no longer than the primitives' indices weigh no more than the primitives.
proof fn lemma_infos_within_prims(infos: Seq<MeshletInfo>, prims: Seq<Primitive>)
    requires
        infos.len() == prims.len(),
        forall|i: int|
            0 <= i < infos.len() ==> #[trigger] infos[i].meshlets_count <= index_count(
                prims[i].index_buffer,
            ),
    ensures
        infos_sum(infos) <= prims_sum(prims),
    decreases infos.len(),
{
    if infos.len() > 0 {
        let k = infos.len() - 1;
        assert(infos[k].meshlets_count <= index_count(prims[k].index_buffer));
        lemma_infos_within_prims(infos.drop_last(), prims.drop_last());
    }
}

proof fn lemma_add_instance(s: BuildState, node: int, info: MeshletInfo)
    requires
        state_wf(s),
        info_in(info, s.meshlets.len() as int),
        s.mesh_instances.len() < u32::MAX,
        s.meshlets.len() <= u32::MAX,
    ensures
        state_wf(add_instance(s, node, info)),
        extends(s, add_instance(s, node, info)),
        add_instance(s, node, info).mesh_instances.len() == s.mesh_instances.len() + 1,
        add_instance(s, node, info).meshlet_instances.len() == s.meshlet_instances.len()
            + info.meshlets_count,
{
    let t = add_instance(s, node, info);
    let n = s.meshlets.len() as int;
    let idx = s.mesh_instances.len() as int;
    let new_mi = t.mesh_instances;
    let new_mli = t.meshlet_instances;
    let extra = instances_for(idx, info);
    assert forall|i: int| 0 <= i < new_mi.len() implies #[trigger] new_mi[i].meshlets_offset
        + new_mi[i].meshlets_count <= n by {
        if i < idx {
            assert(new_mi[i] == s.mesh_instances[i]);
        }
    }
    assert forall|j: int| 0 <= j < new_mli.len() implies {
        let mi = #[trigger] new_mli[j];
        &&& mi.mesh_instance_index < new_mi.len()
        &&& new_mi[mi.mesh_instance_index as int].meshlets_offset <= mi.meshlet_index
        &&& mi.meshlet_index < new_mi[mi.mesh_instance_index as int].meshlets_offset
            + new_mi[mi.mesh_instance_index as int].meshlets_count
        &&& mi.lod_index == 0
    } by {
        if j < s.meshlet_instances.len() {
            let mi = s.meshlet_instances[j];
            assert(new_mli[j] == mi);
            assert(new_mi[mi.mesh_instance_index as int] == s.mesh_instances[mi.mesh_instance_index as int]);
        } else {
            let k = j - s.meshlet_instances.len();
            assert(new_mli[j] == extra[k]);
            assert(extra[k].mesh_instance_index == idx as u32);
            assert(new_mi[idx] == MeshInstance {
                node_index: node as usize,
                meshlets_offset: info.meshlets_offset,
                meshlets_count: info.meshlets_count,
            });
        }
    }
}

proof fn lemma_add_cached_take(s: BuildState, node: int, infos: Seq<MeshletInfo>, i: int)
    requires
        0 <= i < infos.len(),
    ensures
        add_cached(s, node, infos.take(i + 1)) == add_instance(
            add_cached(s, node, infos.take(i)),
            node,
            infos[i],
        ),
{
    assert(infos.take(i + 1).drop_last() =~= infos.take(i));
}

/// Appending the meshlets of a valid primitive keeps the buffers well-formed.
proof fn lemma_append_primitive(s: BuildState, p: Primitive)
    requires
        state_wf(s),
        build_meshlets_ok(
            widened(p.index_buffer),
            p.vertex_data@,
            VERTEX_STRIDE,
            MAX_VERTICES,
            MAX_TRIANGLES,
            cone_weight_text(),
        ),
        meshlets_valid(
            primitive_meshlets(p),
            index_count(p.index_buffer) as int,
            vertex_count(p) as int,
            MAX_VERTICES as int,
            MAX_TRIANGLES as int,
        ),
        vertex_total(s) + vertex_count(p) <= u32::MAX,
        s.meshlet_vertices.len() + index_count(p.index_buffer) <= u32::MAX,
        s.meshlet_triangles.len() + index_count(p.index_buffer) + 3 <= u32::MAX,
        s.meshlets.len() + index_count(p.index_buffer) <= u32::MAX,
    ensures
        state_wf(append_primitive(s, p).0),
        extends(s, append_primitive(s, p).0),
        append_primitive(s, p).1.meshlets_offset == s.meshlets.len(),
        append_primitive(s, p).1.meshlets_count == primitive_meshlets(p).0.len(),
        info_in(append_primitive(s, p).1, append_primitive(s, p).0.meshlets.len() as int),
        vertex_total(append_primitive(s, p).0) == vertex_total(s) + vertex_count(p),
        append_primitive(s, p).0.meshlet_vertices.len() <= s.meshlet_vertices.len() + index_count(
            p.index_buffer,
        ),
        append_primitive(s, p).0.meshlet_triangles.len() <= s.meshlet_triangles.len()
            + index_count(p.index_buffer) + 3,
        append_primitive(s, p).0.meshlets.len() <= s.meshlets.len() + index_count(p.index_buffer),
        append_primitive(s, p).0.mesh_instances == s.mesh_instances,
        append_primitive(s, p).0.meshlet_instances == s.meshlet_instances,
        append_primitive(s, p).0.cache == s.cache,
{
    let built = primitive_meshlets(p);
    let t = append_primitive(s, p).0;
    let vo = vertex_total(s);
    let gv = s.meshlet_vertices.len() as int;
    let gt = s.meshlet_triangles.len() as int;
    let stride = VERTEX_STRIDE as int;
    assert(p.vertex_data@.len() % 32 == 0);
    assert(s.vertex_data.len() % 32 == 0);
    assert(t.vertex_data.len() == s.vertex_data.len() + p.vertex_data@.len());
    assert(vertex_total(t) == vo + vertex_count(p));
    assert(t.vertex_data.len() % 32 == 0);
    assert(index_count(p.index_buffer) == widened(p.index_buffer).len()) by {
        match p.index_buffer {
            IndexBufferType::U16(items) => {},
            IndexBufferType::U32(items) => {},
        }
    }
    assert forall|k: int| 0 <= k < t.meshlets.len() implies meshlet_fits(
        #[trigger] t.meshlets[k],
        t.meshlet_vertices,
        t.meshlet_triangles,
        MAX_VERTICES as int,
        MAX_TRIANGLES as int,
    ) by {
        if k < s.meshlets.len() {
            let m = s.meshlets[k];
            assert(t.meshlets[k] == m);
            assert(meshlet_fits(m, s.meshlet_vertices, s.meshlet_triangles, MAX_VERTICES as int, MAX_TRIANGLES as int));
            assert forall|q: int|
                m.triangle_offset <= q < m.triangle_offset + 3 * m.triangle_count implies #[trigger] t.meshlet_triangles[q]
                    < m.vertex_count by {
                assert(s.meshlet_triangles[q] < m.vertex_count);
                assert(t.meshlet_triangles[q] == s.meshlet_triangles[q]);
            }
        } else {
            let kk = k - s.meshlets.len();
            let m = built.0[kk];
            assert(meshlet_fits(m, built.1, built.2, MAX_VERTICES as int, MAX_TRIANGLES as int));
            let r = rebase(m, gv, gt);
            assert(t.meshlets[k] == r);
            assert(r.vertex_offset == m.vertex_offset + gv);
            assert(r.triangle_offset == m.triangle_offset + gt);
            assert forall|q: int|
                r.triangle_offset <= q < r.triangle_offset + 3 * r.triangle_count implies #[trigger] t.meshlet_triangles[q]
                    < r.vertex_count by {
                assert(t.meshlet_triangles[q] == built.2[q - gt]);
                assert(built.2[q - gt] < m.vertex_count);
            }
        }
    }
    assert forall|j: int| 0 <= j < t.meshlet_vertices.len() implies #[trigger] t.meshlet_vertices[j]
        < t.vertex_data.len() / (VERTEX_STRIDE as nat) by {
        if j < gv {
            assert(t.meshlet_vertices[j] == s.meshlet_vertices[j]);
        } else {
            assert(built.1[j - gv] < vertex_count(p));
            assert(t.meshlet_vertices[j] == (built.1[j - gv] + vo) as u32);
        }
    }
    assert forall|m: usize, i: int| #![trigger t.cache[m][i]]
        t.cache.contains_key(m) && 0 <= i < t.cache[m].len() implies info_in(t.cache[m][i], t.meshlets.len() as int) by {
        assert(info_in(s.cache[m][i], s.meshlets.len() as int));
    }
    assert(instances_wf(t.mesh_instances, t.meshlet_instances, t.meshlets.len() as int));
}


/// The walk state formed by the global buffers, a mesh cache and this walk's instances.
pub open spec fn state_of(
    g: GlobalGeometryData,
    cache: Map<usize, MeshCacheEntry>,
    mi: Seq<MeshInstance>,
    mli: Seq<MeshletInstance>,
) -> BuildState {
    BuildState {
        vertex_data: g.vertex_data@,
        meshlet_vertices: g.meshlet_vertices@,
        meshlet_triangles: g.meshlet_triangles@,
        meshlets: g.meshlets@,
        cache: cache_view(cache),
        mesh_instances: mi,
        meshlet_instances: mli,
    }
}

/// Records a mesh instance of `node` with meshlet run `info`, followed by its meshlet
/// instances.
fn push_mesh_instance(
    mesh_instances: &mut Vec<MeshInstance>,
    meshlet_instances: &mut Vec<MeshletInstance>,
    node: usize,
    info: MeshletInfo,
)
    requires
        old(mesh_instances)@.len() < u32::MAX,
        info.meshlets_offset + info.meshlets_count <= u32::MAX,
    ensures
        final(mesh_instances)@ == old(mesh_instances)@.push(
            MeshInstance {
                node_index: node,
                meshlets_offset: info.meshlets_offset,
                meshlets_count: info.meshlets_count,
            },
        ),
        final(meshlet_instances)@ == old(meshlet_instances)@ + instances_for(
            old(mesh_instances)@.len() as int,
            info,
        ),
{
    mesh_instances.push(
        MeshInstance {
            node_index: node,
            meshlets_offset: info.meshlets_offset,
            meshlets_count: info.meshlets_count,
        },
    );
    let mesh_instance_index = mesh_instances.len() - 1;
    let ghost all = instances_for(mesh_instance_index as int, info);
    let mut i: u32 = 0;
    while i < info.meshlets_count
        invariant
            i <= info.meshlets_count,
            info.meshlets_offset + info.meshlets_count <= u32::MAX,
            mesh_instance_index < u32::MAX,
            all == instances_for(mesh_instance_index as int, info),
            meshlet_instances@ == old(meshlet_instances)@ + all.take(i as int),
        decreases info.meshlets_count - i,
    {
        meshlet_instances.push(
            MeshletInstance {
                mesh_instance_index: mesh_instance_index as u32,
                meshlet_index: info.meshlets_offset + i,
                lod_index: 0,
            },
        );
        i = i + 1;
        assert(all.take(i as int) =~= all.take(i - 1).push(all[i - 1]));
    }
    assert(all.take(i as int) =~= all);
}

/// Builds the meshlets of `p` and appends them, rebased, together with the vertices of `p`,
/// to the global buffers.
fn append_primitive_meshlets(geom: &mut GlobalGeometryData, p: &Primitive) -> (info: MeshletInfo)
    requires
        build_meshlets_ok(
            widened(p.index_buffer),
            p.vertex_data@,
            VERTEX_STRIDE,
            MAX_VERTICES,
            MAX_TRIANGLES,
            cone_weight_text(),
        ),
        old(geom).vertex_data@.len() % (VERTEX_STRIDE as nat) == 0,
        (old(geom).vertex_data@.len() / (VERTEX_STRIDE as nat)) + vertex_count(*p) <= u32::MAX,
        old(geom).meshlet_vertices@.len() + index_count(p.index_buffer) <= u32::MAX,
        old(geom).meshlet_triangles@.len() + index_count(p.index_buffer) + 3 <= u32::MAX,
        old(geom).meshlets@.len() + index_count(p.index_buffer) <= u32::MAX,
    ensures
        ({
            let (t, i) = append_primitive(state_of(*old(geom), Map::empty(), seq![], seq![]), *p);
            &&& final(geom).vertex_data@ == t.vertex_data
            &&& final(geom).meshlet_vertices@ == t.meshlet_vertices
            &&& final(geom).meshlet_triangles@ == t.meshlet_triangles
            &&& final(geom).meshlets@ == t.meshlets
            &&& info == i
        }),
        final(geom).mesh_instances == old(geom).mesh_instances,
        final(geom).meshlet_instances == old(geom).meshlet_instances,
        meshlets_valid(
            primitive_meshlets(*p),
            index_count(p.index_buffer) as int,
            vertex_count(*p) as int,
            MAX_VERTICES as int,
            MAX_TRIANGLES as int,
        ),
{
    let ghost s = state_of(*old(geom), Map::empty(), seq![], seq![]);
    let ib = widen_indices(&p.index_buffer);
    proof {
        reveal_strlit("0.5");
        assert("0.5"@ =~= cone_weight_text());
    }
    let meshlets = meshopt_build_meshlets(
        &ib,
        &p.vertex_data,
        VERTEX_STRIDE,
        MAX_VERTICES,
        MAX_TRIANGLES,
        "0.5",
    );
    let ghost built = primitive_meshlets(*p);
    assert(built == (meshlets.meshlets@, meshlets.vertices@, meshlets.triangles@));
    assert(index_count(p.index_buffer) == widened(p.index_buffer).len()) by {
        match p.index_buffer {
            IndexBufferType::U16(items) => {},
            IndexBufferType::U32(items) => {},
        }
    }
    let meshlets_offset = geom.meshlets.len() as u32;
    let vertices_offset = (geom.vertex_data.len() / VERTEX_STRIDE) as u32;
    let global_meshlet_vertices_offset = geom.meshlet_vertices.len() as u32;
    let global_meshlet_triangles_offset = geom.meshlet_triangles.len() as u32;
    let ghost gv = s.meshlet_vertices.len() as int;
    let ghost gt = s.meshlet_triangles.len() as int;

    // rebase offsets to the global buffers
    let mut k: usize = 0;
    while k < meshlets.meshlets.len()
        invariant
            k <= meshlets.meshlets@.len(),
            built == (meshlets.meshlets@, meshlets.vertices@, meshlets.triangles@),
            meshlets_valid(built, index_count(p.index_buffer) as int, vertex_count(*p) as int, MAX_VERTICES as int, MAX_TRIANGLES as int),
            gv == global_meshlet_vertices_offset,
            gt == global_meshlet_triangles_offset,
            gv + index_count(p.index_buffer) <= u32::MAX,
            gt + index_count(p.index_buffer) + 3 <= u32::MAX,
            geom.meshlets@ == s.meshlets + built.0.take(k as int).map_values(|m: Meshlet| rebase(m, gv, gt)),
            geom.vertex_data == old(geom).vertex_data,
            geom.meshlet_vertices == old(geom).meshlet_vertices,
            geom.meshlet_triangles == old(geom).meshlet_triangles,
            geom.mesh_instances == old(geom).mesh_instances,
            geom.meshlet_instances == old(geom).meshlet_instances,
        decreases meshlets.meshlets@.len() - k,
    {
        let m = meshlets.meshlets[k];
        assert(meshlet_fits(built.0[k as int], built.1, built.2, MAX_VERTICES as int, MAX_TRIANGLES as int));
        geom.meshlets.push(
            Meshlet {
                vertex_offset: m.vertex_offset + global_meshlet_vertices_offset,
                triangle_offset: m.triangle_offset + global_meshlet_triangles_offset,
                vertex_count: m.vertex_count,
                triangle_count: m.triangle_count,
            },
        );
        k = k + 1;
        assert(built.0.take(k as int).map_values(|m: Meshlet| rebase(m, gv, gt)) =~= built.0.take(
            k - 1,
        ).map_values(|m: Meshlet| rebase(m, gv, gt)).push(rebase(built.0[k - 1], gv, gt)));
    }
    assert(built.0.take(k as int) =~= built.0);

    // rebase meshlet vertices to global vertex indices
    let ghost vo = vertex_total(s);
    let mut j: usize = 0;
    while j < meshlets.vertices.len()
        invariant
            j <= meshlets.vertices@.len(),
            built == (meshlets.meshlets@, meshlets.vertices@, meshlets.triangles@),
            meshlets_valid(built, index_count(p.index_buffer) as int, vertex_count(*p) as int, MAX_VERTICES as int, MAX_TRIANGLES as int),
            vo == vertices_offset,
            vo + vertex_count(*p) <= u32::MAX,
            geom.meshlet_vertices@ == s.meshlet_vertices + built.1.take(j as int).map_values(|v: u32| (v + vo) as u32),
            geom.meshlets@ == s.meshlets + built.0.map_values(|m: Meshlet| rebase(m, gv, gt)),
            geom.vertex_data == old(geom).vertex_data,
            geom.meshlet_triangles == old(geom).meshlet_triangles,
            geom.mesh_instances == old(geom).mesh_instances,
            geom.meshlet_instances == old(geom).meshlet_instances,
        decreases meshlets.vertices@.len() - j,
    {
        let v = meshlets.vertices[j];
        assert(built.1[j as int] < vertex_count(*p));
        geom.meshlet_vertices.push(v + vertices_offset);
        j = j + 1;
        assert(built.1.take(j as int).map_values(|v: u32| (v + vo) as u32) =~= built.1.take(
            j - 1,
        ).map_values(|v: u32| (v + vo) as u32).push((built.1[j - 1] + vo) as u32));
    }
    assert(built.1.take(j as int) =~= built.1);

    let mut triangles = meshlets.triangles;
    geom.meshlet_triangles.append(&mut triangles);

    let info = MeshletInfo {
        meshlets_offset: meshlets_offset,
        meshlets_count: meshlets.meshlets.len() as u32,
    };

    let mut vertex_data = p.vertex_data.clone();
    assert(vertex_data@ =~= p.vertex_data@);
    geom.vertex_data.append(&mut vertex_data);
    info
}


/// Visits node `n` of the walk, as `step` describes.
fn visit_node(
    asset: &GltfAssetData,
    n: usize,
    geom: &mut GlobalGeometryData,
    cache: &mut HashMap<usize, MeshCacheEntry>,
    mesh_instances: &mut Vec<MeshInstance>,
    meshlet_instances: &mut Vec<MeshletInstance>,
    Ghost(cache0): Ghost<Map<usize, Seq<MeshletInfo>>>,
    Ghost(mi0): Ghost<int>,
    Ghost(mli0): Ghost<int>,
    Ghost(extra): Ghost<int>,
)
    requires
        n < asset.nodes@.len(),
        meshes_in_range(*asset),
        0 <= mi0,
        0 <= mli0,
        ({
            let s = state_of(*old(geom), old(cache)@, old(mesh_instances)@, old(meshlet_instances)@);
            &&& state_wf(s)
            &&& cache_tracks(s.cache, cache0, *asset)
            &&& fits(s, mi0, mli0, extra)
        }),
        visit_bound(cache0, *asset, n as int) <= extra,
        match asset.nodes@[n as int].mesh_index {
            Some(m) => !cache0.contains_key(m) ==> mesh_buildable(*asset, m as int),
            None => true,
        },
    ensures
        ({
            let s = state_of(*old(geom), old(cache)@, old(mesh_instances)@, old(meshlet_instances)@);
            let t = state_of(*final(geom), final(cache)@, final(mesh_instances)@, final(meshlet_instances)@);
            &&& t == step(s, *asset, n as int)
            &&& state_wf(t)
            &&& cache_tracks(t.cache, cache0, *asset)
            &&& grown_within(s, t, visit_bound(cache0, *asset, n as int) as int)
            &&& s.meshlets.len() <= t.meshlets.len()
        }),
        final(geom).mesh_instances == old(geom).mesh_instances,
        final(geom).meshlet_instances == old(geom).meshlet_instances,
{
    let ghost s = state_of(*geom, cache@, mesh_instances@, meshlet_instances@);
    let node = &asset.nodes[n];
    match node.mesh_index {
        None => {
            assert(state_of(*geom, cache@, mesh_instances@, meshlet_instances@) =~= step(s, *asset, n as int));
        },
        Some(m) => {
            assert(m < asset.meshes@.len());
            let ghost bound = visit_bound(cache0, *asset, n as int);
            match cache.get(&m) {
                Some(entry) => {
                    let ghost infos = entry.meshlets_info@;
                    assert(s.cache.contains_key(m));
                    assert(s.cache[m] == infos);
                    proof {
                        if cache0.contains_key(m) {
                            assert(infos == cache0[m]);
                        } else {
                            let prims = asset.meshes@[m as int].primitives@;
                            assert forall|i: int| 0 <= i < infos.len() implies #[trigger] infos[i].meshlets_count
                                <= index_count(prims[i].index_buffer) by {
                                assert(s.cache[m][i] == infos[i]);
                            }
                            lemma_infos_within_prims(infos, prims);
                        }
                    }
                    assert(infos_sum(infos) <= bound);
                    let mut i: usize = 0;
                    while i < entry.meshlets_info.len()
                        invariant
                            i <= infos.len(),
                            infos == entry.meshlets_info@,
                            s.cache.contains_key(m),
                            s.cache[m] == infos,
                            state_wf(s),
                            fits(s, mi0, mli0, extra),
                            infos_sum(infos) <= bound,
                            bound <= extra,
                            0 <= mi0,
                            ({
                                let c = state_of(*geom, cache@, mesh_instances@, meshlet_instances@);
                                &&& c == add_cached(s, n as int, infos.take(i as int))
                                &&& state_wf(c)
                                &&& grown_within(s, c, infos_sum(infos.take(i as int)) as int)
                                &&& c.meshlets == s.meshlets
                                &&& c.cache == s.cache
                            }),
                            geom.mesh_instances == old(geom).mesh_instances,
                            geom.meshlet_instances == old(geom).meshlet_instances,
                            state_of(*geom, cache@, seq![], seq![]) == state_of(*old(geom), old(cache)@, seq![], seq![]),
                        decreases infos.len() - i,
                    {
                        let info = entry.meshlets_info[i];
                        let ghost c = state_of(*geom, cache@, mesh_instances@, meshlet_instances@);
                        proof {
                            lemma_infos_sum_take(infos, i as int);
                            assert(info_in(s.cache[m][i as int], s.meshlets.len() as int));
                            lemma_add_instance(c, n as int, info);
                            lemma_add_cached_take(s, n as int, infos, i as int);
                        }
                        push_mesh_instance(mesh_instances, meshlet_instances, n, info);
                        i = i + 1;
                        assert(state_of(*geom, cache@, mesh_instances@, meshlet_instances@) =~= add_instance(c, n as int, info));
                    }
                    assert(infos.take(i as int) =~= infos);
                    assert(state_of(*geom, cache@, mesh_instances@, meshlet_instances@) =~= step(s, *asset, n as int));
                },
                None => {
                    assert(!s.cache.contains_key(m));
                    assert(!cache0.contains_key(m));
                    let mesh = &asset.meshes[m];
                    let ghost prims = mesh.primitives@;
                    let mut meshlets_info: Vec<MeshletInfo> = Vec::new();
                    let mut k: usize = 0;
                    while k < mesh.primitives.len()
                        invariant
                            k <= prims.len(),
                            prims == mesh.primitives@,
                            mesh == asset.meshes@[m as int],
                            mesh_buildable(*asset, m as int),
                            state_wf(s),
                            fits(s, mi0, mli0, extra),
                            prims_sum(prims) <= bound,
                            bound <= extra,
                            0 <= mi0,
                            0 <= mli0,
                            ({
                                let c = state_of(*geom, cache@, mesh_instances@, meshlet_instances@);
                                let b = build_mesh(s, *asset, n as int, m as int, k as int);
                                &&& c == b.0
                                &&& meshlets_info@ == b.1
                                &&& state_wf(c)
                                &&& grown_within(s, c, prims_sum(prims.take(k as int)) as int)
                                &&& c.cache == s.cache
                                &&& s.meshlets.len() <= c.meshlets.len()
                                &&& meshlets_info@.len() == k
                                &&& forall|q: int| 0 <= q < k ==> #[trigger] meshlets_info@[q].meshlets_count
                                    <= index_count(prims[q].index_buffer)
                                &&& forall|q: int| 0 <= q < k ==> info_in(#[trigger] meshlets_info@[q], c.meshlets.len() as int)
                            }),
                            m < asset.meshes@.len(),
                            cache@ == old(cache)@,
                            geom.mesh_instances == old(geom).mesh_instances,
                            geom.meshlet_instances == old(geom).meshlet_instances,
                        decreases prims.len() - k,
                    {
                        let ghost c = state_of(*geom, cache@, mesh_instances@, meshlet_instances@);
                        let ghost p = prims[k as int];
                        proof {
                            lemma_prims_sum_take(prims, k as int);
                            assert(build_meshlets_ok(
                                widened(prims[k as int].index_buffer),
                                prims[k as int].vertex_data@,
                                VERTEX_STRIDE,
                                MAX_VERTICES,
                                MAX_TRIANGLES,
                                cone_weight_text(),
                            ));
                        }
                        let info = append_primitive_meshlets(geom, &mesh.primitives[k]);
                        let ghost c2 = state_of(*geom, cache@, mesh_instances@, meshlet_instances@);
                        proof {
                            lemma_append_primitive(c, p);
                            assert(c2 =~= append_primitive(c, p).0);
                            assert(info == append_primitive(c, p).1);
                            lemma_add_instance(c2, n as int, info);
                        }
                        meshlets_info.push(info);
                        push_mesh_instance(mesh_instances, meshlet_instances, n, info);
                        k = k + 1;
                        assert(state_of(*geom, cache@, mesh_instances@, meshlet_instances@) =~= add_instance(c2, n as int, info));
                    }
                    let ghost c = state_of(*geom, cache@, mesh_instances@, meshlet_instances@);
                    assert(prims.take(k as int) =~= prims);
                    let ghost new_infos = meshlets_info@;
                    cache.insert(m, MeshCacheEntry { meshlets_info });
                    let ghost t = state_of(*geom, cache@, mesh_instances@, meshlet_instances@);
                    assert(t.cache =~= c.cache.insert(m, new_infos));
                    assert(t =~= step(s, *asset, n as int));
                    assert forall|mm: usize, i: int| #![trigger t.cache[mm][i]]
                        t.cache.contains_key(mm) && 0 <= i < t.cache[mm].len() implies info_in(t.cache[mm][i], t.meshlets.len() as int) by {
                        if mm == m {
                            assert(t.cache[mm][i] == new_infos[i]);
                        } else {
                            assert(t.cache[mm] == c.cache[mm]);
                        }
                    }
                    assert(cache_tracks(t.cache, cache0, *asset));
                },
            }
        },
    }
}


/// The meshlet instance with its mesh instance index moved by `base`.
pub open spec fn shifted(x: MeshletInstance, base: int) -> MeshletInstance {
    MeshletInstance {
        mesh_instance_index: (x.mesh_instance_index + base) as u32,
        meshlet_index: x.meshlet_index,
        lod_index: x.lod_index,
    }
}

pub open spec fn shift_all(xs: Seq<MeshletInstance>, base: int) -> Seq<MeshletInstance> {
    xs.map_values(|x: MeshletInstance| shifted(x, base))
}

/// The global buffers hold consistent meshlets and instances.
pub open spec fn geometry_wf(g: GlobalGeometryData) -> bool {
    &&& meshlets_wf(g.vertex_data@, g.meshlet_vertices@, g.meshlet_triangles@, g.meshlets@)
    &&& instances_wf(g.mesh_instances@, g.meshlet_instances@, g.meshlets@.len() as int)
}

/// Appending a walk's instances, its meshlet instances shifted past the existing mesh
/// instances, keeps the instances consistent.
proof fn lemma_combine_instances(
    mi: Seq<MeshInstance>,
    mli: Seq<MeshletInstance>,
    new_mi: Seq<MeshInstance>,
    new_mli: Seq<MeshletInstance>,
    n0: int,
    n: int,
)
    requires
        instances_wf(mi, mli, n0),
        instances_wf(new_mi, new_mli, n),
        n0 <= n,
        mi.len() + new_mi.len() <= u32::MAX,
    ensures
        instances_wf(mi + new_mi, mli + shift_all(new_mli, mi.len() as int), n),
{
    let a = mi + new_mi;
    let b = mli + shift_all(new_mli, mi.len() as int);
    assert forall|i: int| 0 <= i < a.len() implies #[trigger] a[i].meshlets_offset + a[i].meshlets_count <= n by {
        if i < mi.len() {
            assert(a[i] == mi[i]);
        } else {
            assert(a[i] == new_mi[i - mi.len()]);
        }
    }
    assert forall|j: int| 0 <= j < b.len() implies {
        let x = #[trigger] b[j];
        &&& x.mesh_instance_index < a.len()
        &&& a[x.mesh_instance_index as int].meshlets_offset <= x.meshlet_index
        &&& x.meshlet_index < a[x.mesh_instance_index as int].meshlets_offset
            + a[x.mesh_instance_index as int].meshlets_count
        &&& x.lod_index == 0
    } by {
        if j < mli.len() {
            let x = mli[j];
            assert(b[j] == x);
            assert(a[x.mesh_instance_index as int] == mi[x.mesh_instance_index as int]);
        } else {
            let y = new_mli[j - mli.len()];
            assert(b[j] == shifted(y, mi.len() as int));
            assert(a[(y.mesh_instance_index + mi.len()) as int] == new_mi[y.mesh_instance_index as int]);
        }
    }
}

/// The state a walk starts from: the buffers of `g`, the asset's mesh cache, and no
/// instances yet.
pub open spec fn start_state(g: GlobalGeometryData, cache: Map<usize, Seq<MeshletInfo>>) -> BuildState {
    BuildState {
        vertex_data: g.vertex_data@,
        meshlet_vertices: g.meshlet_vertices@,
        meshlet_triangles: g.meshlet_triangles@,
        meshlets: g.meshlets@,
        cache: cache,
        mesh_instances: seq![],
        meshlet_instances: seq![],
    }
}

impl Parser {
    /// The global buffers.
    pub closed spec fn geometry(&self) -> GlobalGeometryData {
        self.geometry_data
    }

    /// Every mesh cache points at meshlet runs inside the global meshlet buffer, and each
    /// asset path has at most one cache.
    pub closed spec fn caches_wf(&self) -> bool {
        &&& forall|i: int|
            0 <= i < self.asset_mesh_cache@.len() ==> cache_wf(
                cache_view(#[trigger] self.asset_mesh_cache@[i].meshes@),
                self.geometry_data.meshlets@.len() as int,
            )
        &&& forall|i: int, j: int|
            0 <= i < j < self.asset_mesh_cache@.len() ==> #[trigger] self.asset_mesh_cache@[i].path@
                != #[trigger] self.asset_mesh_cache@[j].path@
    }

    /// The parser's buffers and caches are consistent.
    pub closed spec fn wf(&self) -> bool {
        &&& geometry_wf(self.geometry_data)
        &&& self.caches_wf()
    }

    /// The meshlet runs cached for the asset at `path`, by mesh index.
    pub closed spec fn mesh_cache(&self, path: Seq<char>) -> Map<usize, Seq<MeshletInfo>> {
        if exists|i: int| 0 <= i < self.asset_mesh_cache@.len() && self.asset_mesh_cache@[i].path@ == path {
            let i = choose|i: int|
                0 <= i < self.asset_mesh_cache@.len() && self.asset_mesh_cache@[i].path@ == path;
            cache_view(self.asset_mesh_cache@[i].meshes@)
        } else {
            Map::empty()
        }
    }

    pub fn new() -> (p: Parser)
        ensures
            p.wf(),
            geometry_wf(p.geometry()),
            p.geometry().vertex_data@.len() == 0,
            p.geometry().meshlet_vertices@.len() == 0,
            p.geometry().meshlet_triangles@.len() == 0,
            p.geometry().meshlets@.len() == 0,
            p.geometry().mesh_instances@.len() == 0,
            p.geometry().meshlet_instances@.len() == 0,
            forall|path: Seq<char>| #[trigger] p.mesh_cache(path) == Map::<usize, Seq<MeshletInfo>>::empty(),
    {
        let p = Parser {
            geometry_data: GlobalGeometryData {
                vertex_data: Vec::new(),
                meshlet_vertices: Vec::new(),
                meshlet_triangles: Vec::new(),
                meshlets: Vec::new(),
                mesh_instances: Vec::new(),
                meshlet_instances: Vec::new(),
            },
            asset_mesh_cache: Vec::new(),
        };
        assert(p.geometry_data.vertex_data@.len() % (VERTEX_STRIDE as nat) == 0);
        p
    }

    proof fn lemma_mesh_cache_at(&self, ci: int)
        requires
            self.caches_wf(),
            0 <= ci < self.asset_mesh_cache@.len(),
        ensures
            self.mesh_cache(self.asset_mesh_cache@[ci].path@) == cache_view(
                self.asset_mesh_cache@[ci].meshes@,
            ),
    {
        let path = self.asset_mesh_cache@[ci].path@;
        assert(exists|i: int| 0 <= i < self.asset_mesh_cache@.len() && self.asset_mesh_cache@[i].path@ == path);
        let i = choose|i: int| 0 <= i < self.asset_mesh_cache@.len() && self.asset_mesh_cache@[i].path@ == path;
        if i < ci {
            assert(self.asset_mesh_cache@[i].path@ != self.asset_mesh_cache@[ci].path@);
        } else if i > ci {
            assert(self.asset_mesh_cache@[ci].path@ != self.asset_mesh_cache@[i].path@);
        }
    }

    /// Finds the cache for the asset at `path`, adding an empty one if there is none.
    fn cache_index(&mut self, path: &String) -> (ci: usize)
        requires
            old(self).caches_wf(),
        ensures
            final(self).caches_wf(),
            ci < final(self).asset_mesh_cache@.len(),
            final(self).asset_mesh_cache@[ci as int].path@ == path@,
            final(self).geometry_data == old(self).geometry_data,
            forall|q: Seq<char>| #[trigger] final(self).mesh_cache(q) == old(self).mesh_cache(q),
    {
        let mut i: usize = 0;
        while i < self.asset_mesh_cache.len()
            invariant
                i <= self.asset_mesh_cache@.len(),
                forall|j: int| 0 <= j < i ==> #[trigger] self.asset_mesh_cache@[j].path@ != path@,
                self.caches_wf(),
                *self == *old(self),
            decreases self.asset_mesh_cache@.len() - i,
        {
            if self.asset_mesh_cache[i].path == *path {
                return i;
            }
            i = i + 1;
        }
        let ghost before = *self;
        self.asset_mesh_cache.push(AssetMeshCache { path: path.clone(), meshes: HashMap::new() });
        assert(cache_wf(cache_view(self.asset_mesh_cache@[i as int].meshes@), self.geometry_data.meshlets@.len() as int)) by {
            assert(cache_view(self.asset_mesh_cache@[i as int].meshes@) =~= Map::empty());
        }
        assert forall|j: int| 0 <= j < self.asset_mesh_cache@.len() implies cache_wf(
            cache_view(#[trigger] self.asset_mesh_cache@[j].meshes@),
            self.geometry_data.meshlets@.len() as int,
        ) by {
            if j < i {
                assert(self.asset_mesh_cache@[j] == before.asset_mesh_cache@[j]);
                assert(cache_wf(cache_view(before.asset_mesh_cache@[j].meshes@), before.geometry_data.meshlets@.len() as int));
            } else {
                assert(cache_view(self.asset_mesh_cache@[j].meshes@) =~= Map::empty());
            }
        }
        assert forall|x: int, y: int|
            0 <= x < y < self.asset_mesh_cache@.len() implies #[trigger] self.asset_mesh_cache@[x].path@
                != #[trigger] self.asset_mesh_cache@[y].path@ by {
            if y < i {
                assert(self.asset_mesh_cache@[x] == before.asset_mesh_cache@[x]);
                assert(self.asset_mesh_cache@[y] == before.asset_mesh_cache@[y]);
            } else {
                assert(self.asset_mesh_cache@[x] == before.asset_mesh_cache@[x]);
            }
        }
        assert(self.caches_wf());
        assert forall|q: Seq<char>| #[trigger] self.mesh_cache(q) == before.mesh_cache(q) by {
            let c = self.asset_mesh_cache@;
            if exists|k: int| 0 <= k < c.len() && c[k].path@ == q {
                let k = choose|k: int| 0 <= k < c.len() && c[k].path@ == q;
                if k < i {
                    assert(c[k] == before.asset_mesh_cache@[k]);
                    assert(exists|k2: int| 0 <= k2 < before.asset_mesh_cache@.len() && before.asset_mesh_cache@[k2].path@ == q);
                    self.lemma_mesh_cache_at(k);
                    before.lemma_mesh_cache_at(k);
                } else {
                    assert(q == path@);
                    self.lemma_mesh_cache_at(k);
                    assert(cache_view(c[k].meshes@) =~= Map::empty());
                    assert(!exists|k2: int| 0 <= k2 < before.asset_mesh_cache@.len() && before.asset_mesh_cache@[k2].path@ == q);
                }
            } else {
                assert(!exists|k2: int| 0 <= k2 < before.asset_mesh_cache@.len() && before.asset_mesh_cache@[k2].path@ == q) by {
                    if exists|k2: int| 0 <= k2 < before.asset_mesh_cache@.len() && before.asset_mesh_cache@[k2].path@ == q {
                        let k2 = choose|k2: int| 0 <= k2 < before.asset_mesh_cache@.len() && before.asset_mesh_cache@[k2].path@ == q;
                        assert(c[k2] == before.asset_mesh_cache@[k2]);
                    }
                }
            }
        }
        i
    }
}


/// The walk of scene `s` of `asset` can be taken from buffers `g` and cache `cache0`:
/// every mesh it builds is buildable, and no buffer can outgrow `u32` indices.
pub open spec fn push_fits(
    g: GlobalGeometryData,
    cache0: Map<usize, Seq<MeshletInfo>>,
    asset: GltfAssetData,
    s: int,
) -> bool {
    let vs = scene_visits(asset, s);
    &&& visits_buildable(cache0, asset, vs)
    &&& fits(
        start_state(g, cache0),
        g.mesh_instances@.len() as int,
        g.meshlet_instances@.len() as int,
        visits_bound(cache0, asset, vs) as int,
    )
}

proof fn lemma_cache_wf_grow(c: Map<usize, Seq<MeshletInfo>>, n0: int, n: int)
    requires
        cache_wf(c, n0),
        n0 <= n,
    ensures
        cache_wf(c, n),
{
    assert forall|m: usize, i: int| #![trigger c[m][i]]
        c.contains_key(m) && 0 <= i < c[m].len() implies info_in(c[m][i], n) by {
        assert(info_in(c[m][i], n0));
    }
}

impl Parser {
    proof fn lemma_mesh_cache_update(a: Parser, b: Parser, ci: int)
        requires
            a.caches_wf(),
            b.caches_wf(),
            a.asset_mesh_cache@.len() == b.asset_mesh_cache@.len(),
            0 <= ci < a.asset_mesh_cache@.len(),
            forall|j: int|
                0 <= j < a.asset_mesh_cache@.len() && j != ci ==> b.asset_mesh_cache@[j]
                    == a.asset_mesh_cache@[j],
            b.asset_mesh_cache@[ci].path@ == a.asset_mesh_cache@[ci].path@,
        ensures
            forall|q: Seq<char>|
                q != a.asset_mesh_cache@[ci].path@ ==> #[trigger] b.mesh_cache(q) == a.mesh_cache(q),
            b.mesh_cache(a.asset_mesh_cache@[ci].path@) == cache_view(b.asset_mesh_cache@[ci].meshes@),
    {
        b.lemma_mesh_cache_at(ci);
        assert forall|q: Seq<char>| q != a.asset_mesh_cache@[ci].path@ implies #[trigger] b.mesh_cache(q)
            == a.mesh_cache(q) by {
            let ca = a.asset_mesh_cache@;
            let cb = b.asset_mesh_cache@;
            if exists|k: int| 0 <= k < cb.len() && cb[k].path@ == q {
                let k = choose|k: int| 0 <= k < cb.len() && cb[k].path@ == q;
                assert(k != ci);
                assert(cb[k] == ca[k]);
                b.lemma_mesh_cache_at(k);
                a.lemma_mesh_cache_at(k);
            } else {
                if exists|k: int| 0 <= k < ca.len() && ca[k].path@ == q {
                    let k = choose|k: int| 0 <= k < ca.len() && ca[k].path@ == q;
                    assert(k != ci);
                    assert(cb[k] == ca[k]);
                }
            }
        }
    }

    /// Adds an instance of `gltf_asset`, walking the chosen scene (the requested one, else
    /// the asset's default, else the first) depth first from its last root node, each node's
    /// children last first. Every node with a mesh gives one mesh instance per primitive of
    /// the mesh, followed by one meshlet instance per meshlet of that primitive. Meshlets of
    /// a mesh are built on its first visit for this asset path and reused afterwards.
    /// The walk reaches every node at most once, so a mesh instance's node determines its
    /// placement: the scene's transform composed with the node matrices from its root down.
    pub fn push_instance(&mut self, gltf_asset: &GltfAssetData, scene: Option<usize>)
        requires
            old(self).wf(),
            walkable(*gltf_asset, chosen_scene(*gltf_asset, scene)),
            scene_visits(*gltf_asset, chosen_scene(*gltf_asset, scene)).no_duplicates(),
            push_fits(
                old(self).geometry(),
                old(self).mesh_cache(gltf_asset.path@),
                *gltf_asset,
                chosen_scene(*gltf_asset, scene),
            ),
        ensures
            final(self).wf(),
            geometry_wf(final(self).geometry()),
            ({
                let g = old(self).geometry();
                let r = run(
                    start_state(g, old(self).mesh_cache(gltf_asset.path@)),
                    *gltf_asset,
                    scene_visits(*gltf_asset, chosen_scene(*gltf_asset, scene)),
                );
                &&& final(self).geometry().vertex_data@ == r.vertex_data
                &&& final(self).geometry().meshlet_vertices@ == r.meshlet_vertices
                &&& final(self).geometry().meshlet_triangles@ == r.meshlet_triangles
                &&& final(self).geometry().meshlets@ == r.meshlets
                &&& final(self).geometry().mesh_instances@ == g.mesh_instances@ + r.mesh_instances
                &&& final(self).geometry().meshlet_instances@ == g.meshlet_instances@ + shift_all(
                    r.meshlet_instances,
                    g.mesh_instances@.len() as int,
                )
                &&& final(self).mesh_cache(gltf_asset.path@) == r.cache
            }),
            forall|q: Seq<char>|
                q != gltf_asset.path@ ==> #[trigger] final(self).mesh_cache(q) == old(self).mesh_cache(q),
    {
        let ghost c0 = self.mesh_cache(gltf_asset.path@);
        let ghost sidx = chosen_scene(*gltf_asset, scene);
        let ghost nodes = gltf_asset.nodes@;
        let ghost total = scene_visits(*gltf_asset, sidx);
        let ghost s0 = start_state(self.geometry_data, c0);
        let ghost mi0 = self.geometry_data.mesh_instances@.len() as int;
        let ghost mli0 = self.geometry_data.meshlet_instances@.len() as int;

        let ci = self.cache_index(&gltf_asset.path);
        proof {
            self.lemma_mesh_cache_at(ci as int);
        }
        let ghost before_remove = *self;
        let AssetMeshCache { path, meshes } = self.asset_mesh_cache.remove(ci);
        let mut mesh_cache = meshes;
        assert(cache_view(mesh_cache@) == c0);
        assert(cache_wf(c0, s0.meshlets.len() as int));

        let scene_index = match scene {
            Some(s) => s,
            None => match gltf_asset.default_scene {
                Some(d) => d,
                None => 0,
            },
        };
        let roots = &gltf_asset.scenes[scene_index].nodes;
        let mut node_stack: Vec<usize> = Vec::new();
        let mut r: usize = 0;
        while r < roots.len()
            invariant
                r <= roots@.len(),
                node_stack@ == roots@.take(r as int),
            decreases roots@.len() - r,
        {
            node_stack.push(roots[r]);
            r = r + 1;
            assert(roots@.take(r as int) =~= roots@.take(r - 1).push(roots@[r - 1]));
        }
        assert(roots@.take(r as int) =~= roots@);

        let mut mesh_instances: Vec<MeshInstance> = Vec::new();
        let mut meshlet_instances: Vec<MeshletInstance> = Vec::new();
        let ghost mut done: Seq<int> = seq![];
        assert(state_of(self.geometry_data, mesh_cache@, mesh_instances@, meshlet_instances@) =~= s0);
        assert(done + stack_visits(nodes, node_stack@) =~= total);
        assert(instances_wf(seq![], seq![], s0.meshlets.len() as int));
        assert(cache_tracks(c0, c0, *gltf_asset));

        while node_stack.len() > 0
            invariant
                walkable(*gltf_asset, sidx),
                nodes == gltf_asset.nodes@,
                all_in_range(nodes, node_stack@),
                total == done + stack_visits(nodes, node_stack@),
                ({
                    let c = state_of(self.geometry_data, mesh_cache@, mesh_instances@, meshlet_instances@);
                    &&& c == run(s0, *gltf_asset, done)
                    &&& state_wf(c)
                    &&& cache_tracks(c.cache, c0, *gltf_asset)
                    &&& fits(c, mi0, mli0, visits_bound(c0, *gltf_asset, stack_visits(nodes, node_stack@)) as int)
                    &&& s0.meshlets.len() <= c.meshlets.len()
                }),
                visits_buildable(c0, *gltf_asset, stack_visits(nodes, node_stack@)),
                mi0 == self.geometry_data.mesh_instances@.len(),
                mli0 == self.geometry_data.meshlet_instances@.len(),
                self.geometry_data.mesh_instances == old(self).geometry_data.mesh_instances,
                self.geometry_data.meshlet_instances == old(self).geometry_data.meshlet_instances,
                self.asset_mesh_cache@ == before_remove.asset_mesh_cache@.remove(ci as int),
            decreases stack_visits(nodes, node_stack@).len(),
        {
            let ghost before = node_stack@;
            let ghost cur = state_of(self.geometry_data, mesh_cache@, mesh_instances@, meshlet_instances@);
            let n = node_stack.pop().unwrap();
            let ghost rest = node_stack@;
            let ghost k = nodes[n as int].children@.len() as int;
            let ghost tail = stack_visits(nodes, rest + nodes[n as int].children@);
            proof {
                assert(before.last() == n);
                assert(before.drop_last() =~= rest);
                assert(n < nodes.len());
                lemma_subtree_unfold(nodes, n as int);
                lemma_push_children(nodes, n as int, rest, k);
                assert(nodes[n as int].children@.subrange(0, k) =~= nodes[n as int].children@);
                assert(stack_visits(nodes, before) =~= seq![n as int] + tail);
                assert((seq![n as int] + tail)[0] == n as int);
                assert((seq![n as int] + tail).drop_first() =~= tail);
                assert(visits_buildable(c0, *gltf_asset, tail)) by {
                    assert forall|i: int| 0 <= i < tail.len() implies match gltf_asset.nodes@[#[trigger] tail[i]].mesh_index {
                        Some(m) => !c0.contains_key(m) ==> mesh_buildable(*gltf_asset, m as int),
                        None => true,
                    } by {
                        assert(tail[i] == (seq![n as int] + tail)[i + 1]);
                    }
                }
                assert((seq![n as int] + tail)[0] == n as int);
            }
            visit_node(
                gltf_asset,
                n,
                &mut self.geometry_data,
                &mut mesh_cache,
                &mut mesh_instances,
                &mut meshlet_instances,
                Ghost(c0),
                Ghost(mi0),
                Ghost(mli0),
                Ghost(visits_bound(c0, *gltf_asset, stack_visits(nodes, before)) as int),
            );
            proof {
                let nxt = state_of(self.geometry_data, mesh_cache@, mesh_instances@, meshlet_instances@);
                lemma_fits_after_growth(
                    cur,
                    nxt,
                    mi0,
                    mli0,
                    visits_bound(c0, *gltf_asset, stack_visits(nodes, before)) as int,
                    visit_bound(c0, *gltf_asset, n as int) as int,
                );
            }
            let children = &gltf_asset.nodes[n].children;
            let mut j: usize = 0;
            while j < children.len()
                invariant
                    j <= children@.len(),
                    children == gltf_asset.nodes@[n as int].children,
                    node_stack@ == rest + children@.take(j as int),
                decreases children@.len() - j,
            {
                node_stack.push(children[j]);
                j = j + 1;
                assert(rest + children@.take(j as int) =~= (rest + children@.take(j - 1)).push(children@[j - 1]));
            }
            proof {
                assert(children@.take(j as int) =~= children@);
                assert(node_stack@ == rest + nodes[n as int].children@);
                assert(done.push(n as int).drop_last() =~= done);
                assert(done + stack_visits(nodes, before) =~= done.push(n as int) + tail);
                done = done.push(n as int);
                assert(all_in_range(nodes, node_stack@)) by {
                    assert(crate::asset::ranked(nodes, crate::asset::node_rank(nodes)));
                    assert forall|i: int| 0 <= i < node_stack@.len() implies #[trigger] node_stack@[i] < nodes.len() by {
                        if i < rest.len() {
                            assert(node_stack@[i] == before[i]);
                        } else {
                            assert(node_stack@[i] == nodes[n as int].children@[i - rest.len()]);
                        }
                    }
                }
            }
        }
        assert(done =~= total);
        let ghost rs = run(s0, *gltf_asset, total);
        assert(mi0 + rs.mesh_instances.len() <= u32::MAX);

        let ghost local = meshlet_instances@;
        let base_count = self.geometry_data.mesh_instances.len();
        let mut i: usize = 0;
        while i < meshlet_instances.len()
            invariant
                i <= local.len(),
                meshlet_instances@.len() == local.len(),
                base_count == mi0,
                mi0 + rs.mesh_instances.len() <= u32::MAX,
                forall|q: int| 0 <= q < local.len() ==> #[trigger] local[q].mesh_instance_index < rs.mesh_instances.len(),
                forall|q: int| 0 <= q < i ==> #[trigger] meshlet_instances@[q] == shifted(local[q], mi0),
                forall|q: int| i <= q < local.len() ==> #[trigger] meshlet_instances@[q] == local[q],
            decreases local.len() - i,
        {
            let mut x = meshlet_instances[i];
            x.mesh_instance_index = x.mesh_instance_index + base_count as u32;
            meshlet_instances.set(i, x);
            i = i + 1;
        }
        assert(meshlet_instances@ =~= shift_all(local, mi0));
        let ghost new_mi = mesh_instances@;
        self.geometry_data.mesh_instances.append(&mut mesh_instances);
        self.geometry_data.meshlet_instances.append(&mut meshlet_instances);
        self.asset_mesh_cache.insert(ci, AssetMeshCache { path, meshes: mesh_cache });
        proof {
            let old_g = old(self).geometry_data;
            lemma_combine_instances(
                old_g.mesh_instances@,
                old_g.meshlet_instances@,
                new_mi,
                local,
                old_g.meshlets@.len() as int,
                rs.meshlets.len() as int,
            );
            assert(self.asset_mesh_cache@ =~= before_remove.asset_mesh_cache@.update(
                ci as int,
                self.asset_mesh_cache@[ci as int],
            ));
            assert forall|j: int| 0 <= j < self.asset_mesh_cache@.len() implies cache_wf(
                cache_view(#[trigger] self.asset_mesh_cache@[j].meshes@),
                self.geometry_data.meshlets@.len() as int,
            ) by {
                if j != ci {
                    assert(self.asset_mesh_cache@[j] == before_remove.asset_mesh_cache@[j]);
                    assert(cache_wf(cache_view(before_remove.asset_mesh_cache@[j].meshes@), s0.meshlets.len() as int));
                    lemma_cache_wf_grow(cache_view(before_remove.asset_mesh_cache@[j].meshes@), s0.meshlets.len() as int, rs.meshlets.len() as int);
                }
            }
            assert forall|x: int, y: int|
                0 <= x < y < self.asset_mesh_cache@.len() implies #[trigger] self.asset_mesh_cache@[x].path@
                    != #[trigger] self.asset_mesh_cache@[y].path@ by {
                assert(before_remove.asset_mesh_cache@[x].path@ != before_remove.asset_mesh_cache@[y].path@);
            }
            assert(self.caches_wf());
            Parser::lemma_mesh_cache_update(before_remove, *self, ci as int);
        }
    }
}


/// Two walk states agree on the global buffers and the cache.
pub open spec fn same_meshlets(a: BuildState, b: BuildState) -> bool {
    &&& a.vertex_data == b.vertex_data
    &&& a.meshlet_vertices == b.meshlet_vertices
    &&& a.meshlet_triangles == b.meshlet_triangles
    &&& a.meshlets == b.meshlets
    &&& a.cache == b.cache
}

proof fn lemma_add_cached_keeps(s: BuildState, node: int, infos: Seq<MeshletInfo>)
    ensures
        same_meshlets(add_cached(s, node, infos), s),
    decreases infos.len(),
{
    if infos.len() > 0 {
        lemma_add_cached_keeps(s, node, infos.drop_last());
    }
}

proof fn lemma_build_mesh_cache(s: BuildState, asset: GltfAssetData, node: int, m: int, k: int)
    ensures
        build_mesh(s, asset, node, m, k).0.cache == s.cache,
    decreases k,
{
    if k > 0 {
        lemma_build_mesh_cache(s, asset, node, m, k - 1);
    }
}

/// After a walk, the cache holds everything it held before and the mesh of every visited
/// node.
proof fn lemma_run_caches(s: BuildState, asset: GltfAssetData, vs: Seq<int>)
    ensures
        forall|m: usize| s.cache.contains_key(m) ==> #[trigger] run(s, asset, vs).cache.contains_key(m),
        forall|i: int|
            0 <= i < vs.len() ==> match asset.nodes@[#[trigger] vs[i]].mesh_index {
                Some(m) => run(s, asset, vs).cache.contains_key(m),
                None => true,
            },
    decreases vs.len(),
{
    if vs.len() > 0 {
        let pre = run(s, asset, vs.drop_last());
        lemma_run_caches(s, asset, vs.drop_last());
        let n = vs.last();
        match asset.nodes@[n].mesh_index {
            None => {},
            Some(m) => {
                if pre.cache.contains_key(m) {
                    lemma_add_cached_keeps(pre, n, pre.cache[m]);
                } else {
                    lemma_build_mesh_cache(pre, asset, n, m as int, asset.meshes@[m as int].primitives@.len() as int);
                }
            },
        }
        assert forall|i: int| 0 <= i < vs.len() implies match asset.nodes@[#[trigger] vs[i]].mesh_index {
            Some(m) => run(s, asset, vs).cache.contains_key(m),
            None => true,
        } by {
            if i < vs.len() - 1 {
                assert(vs[i] == vs.drop_last()[i]);
            }
        }
    }
}

/// A walk over nodes whose meshes are all cached adds instances only.
proof fn lemma_run_cached(s: BuildState, asset: GltfAssetData, vs: Seq<int>)
    requires
        forall|i: int|
            0 <= i < vs.len() ==> match asset.nodes@[#[trigger] vs[i]].mesh_index {
                Some(m) => s.cache.contains_key(m),
                None => true,
            },
    ensures
        same_meshlets(run(s, asset, vs), s),
    decreases vs.len(),
{
    if vs.len() > 0 {
        assert forall|i: int| 0 <= i < vs.drop_last().len() implies match asset.nodes@[#[trigger] vs.drop_last()[i]].mesh_index {
            Some(m) => s.cache.contains_key(m),
            None => true,
        } by {
            assert(vs.drop_last()[i] == vs[i]);
        }
        lemma_run_cached(s, asset, vs.drop_last());
        let pre = run(s, asset, vs.drop_last());
        let n = vs.last();
        assert(vs[vs.len() - 1] == n);
        match asset.nodes@[n].mesh_index {
            None => {},
            Some(m) => {
                lemma_add_cached_keeps(pre, n, pre.cache[m]);
            },
        }
    }
}

/// Walking the same nodes again reuses the meshlets built by the first walk: the second
/// walk leaves the vertex, meshlet vertex, triangle and meshlet buffers and the cache as
/// the first walk left them, and only adds instances.
pub proof fn law_repeat_walk_reuses_meshlets(s: BuildState, asset: GltfAssetData, vs: Seq<int>)
    ensures
        same_meshlets(run(run(s, asset, vs), asset, vs), run(s, asset, vs)),
{
    lemma_run_caches(s, asset, vs);
    lemma_run_cached(run(s, asset, vs), asset, vs);
}

/// The instances a walk over `vs` records when every visited mesh takes its meshlet runs
/// from `c`.
pub open spec fn replay(t: BuildState, asset: GltfAssetData, vs: Seq<int>, c: Map<usize, Seq<MeshletInfo>>) -> BuildState
    decreases vs.len(),
{
    if vs.len() == 0 {
        t
    } else {
        let pre = replay(t, asset, vs.drop_last(), c);
        match asset.nodes@[vs.last()].mesh_index {
            None => pre,
            Some(m) => add_cached(pre, vs.last(), c[m]),
        }
    }
}

/// Two walk states hold the same instances.
pub open spec fn same_instances(a: BuildState, b: BuildState) -> bool {
    &&& a.mesh_instances == b.mesh_instances
    &&& a.meshlet_instances == b.meshlet_instances
}

/// `c` holds every entry of `d` unchanged.
pub open spec fn cache_extends(c: Map<usize, Seq<MeshletInfo>>, d: Map<usize, Seq<MeshletInfo>>) -> bool {
    forall|m: usize| #[trigger] d.contains_key(m) ==> c.contains_key(m) && c[m] == d[m]
}

proof fn lemma_add_cached_congruent(a: BuildState, b: BuildState, node: int, infos: Seq<MeshletInfo>)
    requires
        same_instances(a, b),
    ensures
        same_instances(add_cached(a, node, infos), add_cached(b, node, infos)),
    decreases infos.len(),
{
    if infos.len() > 0 {
        lemma_add_cached_congruent(a, b, node, infos.drop_last());
    }
}

proof fn lemma_replay_congruent(a: BuildState, b: BuildState, asset: GltfAssetData, vs: Seq<int>, c: Map<usize, Seq<MeshletInfo>>)
    requires
        same_instances(a, b),
    ensures
        same_instances(replay(a, asset, vs, c), replay(b, asset, vs, c)),
    decreases vs.len(),
{
    if vs.len() > 0 {
        lemma_replay_congruent(a, b, asset, vs.drop_last(), c);
        match asset.nodes@[vs.last()].mesh_index {
            None => {},
            Some(m) => {
                lemma_add_cached_congruent(
                    replay(a, asset, vs.drop_last(), c),
                    replay(b, asset, vs.drop_last(), c),
                    vs.last(),
                    c[m],
                );
            },
        }
    }
}

/// Building a mesh records the same instances as adding its new meshlet runs from a cache.
proof fn lemma_build_mesh_instances(s: BuildState, asset: GltfAssetData, node: int, m: int, k: int)
    ensures
        same_instances(build_mesh(s, asset, node, m, k).0, add_cached(s, node, build_mesh(s, asset, node, m, k).1)),
    decreases k,
{
    if k > 0 {
        lemma_build_mesh_instances(s, asset, node, m, k - 1);
        let (s1, infos) = build_mesh(s, asset, node, m, k - 1);
        let (s2, info) = append_primitive(s1, asset.meshes@[m].primitives@[k - 1]);
        assert(infos.push(info).drop_last() =~= infos);
        lemma_add_cached_congruent(s2, add_cached(s, node, infos), node, seq![info]);
        assert(seq![info].drop_last() =~= Seq::<MeshletInfo>::empty());
    }
}

/// A walk's cache only gains entries.
proof fn lemma_run_cache_extends(s: BuildState, asset: GltfAssetData, vs: Seq<int>)
    ensures
        cache_extends(run(s, asset, vs).cache, s.cache),
    decreases vs.len(),
{
    if vs.len() > 0 {
        lemma_run_cache_extends(s, asset, vs.drop_last());
        let pre = run(s, asset, vs.drop_last());
        let n = vs.last();
        match asset.nodes@[n].mesh_index {
            None => {},
            Some(m) => {
                if pre.cache.contains_key(m) {
                    lemma_add_cached_keeps(pre, n, pre.cache[m]);
                } else {
                    lemma_build_mesh_cache(pre, asset, n, m as int, asset.meshes@[m as int].primitives@.len() as int);
                }
            },
        }
    }
}

/// The instances of a walk are those of replaying it from any cache that holds the walk's
/// final cache.
proof fn lemma_run_replays(s: BuildState, asset: GltfAssetData, vs: Seq<int>, c: Map<usize, Seq<MeshletInfo>>)
    requires
        cache_extends(c, run(s, asset, vs).cache),
    ensures
        same_instances(run(s, asset, vs), replay(s, asset, vs, c)),
    decreases vs.len(),
{
    if vs.len() > 0 {
        let pre = run(s, asset, vs.drop_last());
        let n = vs.last();
        let rp = replay(s, asset, vs.drop_last(), c);
        match asset.nodes@[n].mesh_index {
            None => {
                lemma_run_replays(s, asset, vs.drop_last(), c);
            },
            Some(m) => {
                if pre.cache.contains_key(m) {
                    lemma_add_cached_keeps(pre, n, pre.cache[m]);
                    lemma_run_replays(s, asset, vs.drop_last(), c);
                    lemma_add_cached_congruent(pre, rp, n, c[m]);
                } else {
                    let k = asset.meshes@[m as int].primitives@.len() as int;
                    lemma_build_mesh_cache(pre, asset, n, m as int, k);
                    let (s1, infos) = build_mesh(pre, asset, n, m as int, k);
                    assert(run(s, asset, vs).cache == s1.cache.insert(m, infos));
                    assert(cache_extends(c, pre.cache)) by {
                        assert forall|q: usize| #[trigger] pre.cache.contains_key(q) implies c.contains_key(q)
                            && c[q] == pre.cache[q] by {
                            assert(run(s, asset, vs).cache.contains_key(q));
                        }
                    }
                    lemma_run_replays(s, asset, vs.drop_last(), c);
                    assert(run(s, asset, vs).cache.contains_key(m));
                    assert(run(s, asset, vs).cache[m] == infos);
                    assert(c[m] == infos);
                    lemma_build_mesh_instances(pre, asset, n, m as int, k);
                    lemma_add_cached_congruent(pre, rp, n, infos);
                }
            },
        }
    }
}

/// Pushing an asset again with the same scene, right after a first push: if the buffers
/// `g1` hold what the first walk (from `g0`, with cache `c0`) left, the second walk builds
/// nothing, leaves the buffers and the cache as they are, and records exactly the instances
/// the first walk recorded.
pub proof fn law_repeat_push_adds_same_instances(
    g0: GlobalGeometryData,
    c0: Map<usize, Seq<MeshletInfo>>,
    g1: GlobalGeometryData,
    asset: GltfAssetData,
    vs: Seq<int>,
)
    requires
        ({
            let r1 = run(start_state(g0, c0), asset, vs);
            &&& g1.vertex_data@ == r1.vertex_data
            &&& g1.meshlet_vertices@ == r1.meshlet_vertices
            &&& g1.meshlet_triangles@ == r1.meshlet_triangles
            &&& g1.meshlets@ == r1.meshlets
        }),
    ensures
        ({
            let r1 = run(start_state(g0, c0), asset, vs);
            let r2 = run(start_state(g1, r1.cache), asset, vs);
            &&& same_meshlets(r2, r1)
            &&& r2.mesh_instances == r1.mesh_instances
            &&& r2.meshlet_instances == r1.meshlet_instances
        }),
{
    let s1 = start_state(g0, c0);
    let r1 = run(s1, asset, vs);
    let s2 = start_state(g1, r1.cache);
    assert(same_meshlets(s2, r1));
    lemma_run_caches(s1, asset, vs);
    assert forall|i: int| 0 <= i < vs.len() implies match asset.nodes@[#[trigger] vs[i]].mesh_index {
        Some(m) => s2.cache.contains_key(m),
        None => true,
    } by {
        match asset.nodes@[vs[i]].mesh_index {
            Some(m) => assert(r1.cache.contains_key(m)),
            None => {},
        }
    }
    lemma_run_cached(s2, asset, vs);
    let r2 = run(s2, asset, vs);
    lemma_run_replays(s1, asset, vs, r1.cache);
    lemma_run_replays(s2, asset, vs, r1.cache);
    lemma_replay_congruent(s1, s2, asset, vs, r1.cache);
}

/// Number of meshlet instances the first `i` mesh instances call for.
pub open spec fn runs_before(mis: Seq<MeshInstance>, i: int) -> int
    decreases i,
{
    if i <= 0 {
        0
    } else {
        runs_before(mis, i - 1) + mis[i - 1].meshlets_count
    }
}

/// The meshlet instances are, mesh instance after mesh instance, one per meshlet of its
/// run, in order: the `k`-th of mesh instance `i` points at `i` and at meshlet
/// `offset + k`, and there are no others.
pub open spec fn instances_exact(mis: Seq<MeshInstance>, mlis: Seq<MeshletInstance>) -> bool {
    &&& mlis.len() == runs_before(mis, mis.len() as int)
    &&& forall|i: int, k: int|
        0 <= i < mis.len() && 0 <= k < mis[i].meshlets_count ==> #[trigger] mlis[runs_before(mis, i) + k]
            == (MeshletInstance {
            mesh_instance_index: i as u32,
            meshlet_index: (mis[i].meshlets_offset + k) as u32,
            lod_index: 0,
        })
}

proof fn lemma_runs_before_push(mis: Seq<MeshInstance>, x: MeshInstance, i: int)
    requires
        0 <= i <= mis.len(),
    ensures
        runs_before(mis.push(x), i) == runs_before(mis, i),
    decreases i,
{
    if i > 0 {
        lemma_runs_before_push(mis, x, i - 1);
        assert(mis.push(x)[i - 1] == mis[i - 1]);
    }
}

proof fn lemma_runs_before_mono(mis: Seq<MeshInstance>, i: int, j: int)
    requires
        0 <= i <= j <= mis.len(),
    ensures
        runs_before(mis, i) <= runs_before(mis, j),
    decreases j - i,
{
    if i < j {
        lemma_runs_before_mono(mis, i, j - 1);
    }
}

proof fn lemma_add_instance_exact(s: BuildState, node: int, info: MeshletInfo)
    requires
        instances_exact(s.mesh_instances, s.meshlet_instances),
    ensures
        instances_exact(add_instance(s, node, info).mesh_instances, add_instance(s, node, info).meshlet_instances),
{
    let mis = s.mesh_instances;
    let mlis = s.meshlet_instances;
    let t = add_instance(s, node, info);
    let n = mis.len() as int;
    let x = MeshInstance {
        node_index: node as usize,
        meshlets_offset: info.meshlets_offset,
        meshlets_count: info.meshlets_count,
    };
    assert(t.mesh_instances == mis.push(x));
    let extra = instances_for(n, info);
    lemma_runs_before_push(mis, x, n);
    assert(t.mesh_instances[n] == x);
    assert(runs_before(t.mesh_instances, n + 1) == runs_before(mis, n) + info.meshlets_count);
    assert forall|i: int, k: int|
        0 <= i < t.mesh_instances.len() && 0 <= k < t.mesh_instances[i].meshlets_count implies #[trigger] t.meshlet_instances[runs_before(t.mesh_instances, i) + k]
            == (MeshletInstance {
            mesh_instance_index: i as u32,
            meshlet_index: (t.mesh_instances[i].meshlets_offset + k) as u32,
            lod_index: 0,
        }) by {
        lemma_runs_before_push(mis, x, i);
        if i < n {
            assert(t.mesh_instances[i] == mis[i]);
            lemma_runs_before_mono(mis, i + 1, n);
            assert(runs_before(mis, i + 1) == runs_before(mis, i) + mis[i].meshlets_count);
            assert(runs_before(mis, i) + k < mlis.len());
            assert(t.meshlet_instances == mlis + extra);
            let j = runs_before(mis, i) + k;
            lemma_runs_before_mono(mis, 0, i);
            assert((mlis + extra)[j] == mlis[j]);
            assert(mlis[runs_before(mis, i) + k] == (MeshletInstance {
                mesh_instance_index: i as u32,
                meshlet_index: (mis[i].meshlets_offset + k) as u32,
                lod_index: 0,
            }));
            assert(t.meshlet_instances[runs_before(mis, i) + k] == mlis[runs_before(mis, i) + k]);
        } else {
            assert(i == n);
            assert(t.meshlet_instances[runs_before(mis, n) + k] == extra[k]);
        }
    }
}

proof fn lemma_add_cached_exact(s: BuildState, node: int, infos: Seq<MeshletInfo>)
    requires
        instances_exact(s.mesh_instances, s.meshlet_instances),
    ensures
        instances_exact(add_cached(s, node, infos).mesh_instances, add_cached(s, node, infos).meshlet_instances),
    decreases infos.len(),
{
    if infos.len() > 0 {
        lemma_add_cached_exact(s, node, infos.drop_last());
        lemma_add_instance_exact(add_cached(s, node, infos.drop_last()), node, infos.last());
    }
}

proof fn lemma_build_mesh_exact(s: BuildState, asset: GltfAssetData, node: int, m: int, k: int)
    requires
        instances_exact(s.mesh_instances, s.meshlet_instances),
    ensures
        instances_exact(build_mesh(s, asset, node, m, k).0.mesh_instances, build_mesh(s, asset, node, m, k).0.meshlet_instances),
    decreases k,
{
    if k > 0 {
        lemma_build_mesh_exact(s, asset, node, m, k - 1);
        let (s1, infos) = build_mesh(s, asset, node, m, k - 1);
        let (s2, info) = append_primitive(s1, asset.meshes@[m].primitives@[k - 1]);
        lemma_add_instance_exact(s2, node, info);
    }
}

proof fn lemma_run_exact(s: BuildState, asset: GltfAssetData, vs: Seq<int>)
    requires
        instances_exact(s.mesh_instances, s.meshlet_instances),
    ensures
        instances_exact(run(s, asset, vs).mesh_instances, run(s, asset, vs).meshlet_instances),
    decreases vs.len(),
{
    if vs.len() > 0 {
        lemma_run_exact(s, asset, vs.drop_last());
        let pre = run(s, asset, vs.drop_last());
        let n = vs.last();
        match asset.nodes@[n].mesh_index {
            None => {},
            Some(m) => {
                if pre.cache.contains_key(m) {
                    lemma_add_cached_exact(pre, n, pre.cache[m]);
                } else {
                    lemma_build_mesh_exact(pre, asset, n, m as int, asset.meshes@[m as int].primitives@.len() as int);
                }
            },
        }
    }
}

/// Every meshlet of every mesh instance's run is drawn exactly once: the meshlet instances
/// a walk records (the ones `push_instance` appends, before their mesh instance indices are
/// moved past the existing mesh instances) are, mesh instance after mesh instance, the
/// meshlets `offset`, `offset + 1`, ..., `offset + count - 1` of its run, in order, and
/// nothing else.
pub proof fn law_meshlet_instances_cover_runs(
    g: GlobalGeometryData,
    cache: Map<usize, Seq<MeshletInfo>>,
    asset: GltfAssetData,
    vs: Seq<int>,
)
    ensures
        instances_exact(
            run(start_state(g, cache), asset, vs).mesh_instances,
            run(start_state(g, cache), asset, vs).meshlet_instances,
        ),
{
    let s = start_state(g, cache);
    assert(instances_exact(s.mesh_instances, s.meshlet_instances));
    lemma_run_exact(s, asset, vs);
}

} // verus!
