//! The in-memory model of a loaded glTF asset that the geometry builders work on.
//!
//! Vertex data stays as raw bytes: every vertex is eight little-endian `f32` values
//! (position, normal, texture coordinates), so one vertex takes `VERTEX_STRIDE` bytes.
use vstd::prelude::*;

verus! {

/// Bytes per interleaved vertex: 3 position + 3 normal + 2 texture floats.
pub const VERTEX_STRIDE: usize = 32;

/// Index data of a primitive, in the width it was stored with.
pub enum IndexBufferType {
    U16(Vec<u16>),
    U32(Vec<u32>),
}

/// One drawable piece of a mesh.
pub struct Primitive {
    pub vertex_data: Vec<u8>,
    pub index_buffer: IndexBufferType,
}

pub struct Mesh {
    pub name: Option<String>,
    pub primitives: Vec<Primitive>,
}

/// A node of the scene graph; its transform is kept by the caller, indexed like the nodes.
pub struct Node {
    pub name: Option<String>,
    pub children: Vec<usize>,
    pub mesh_index: Option<usize>,
}

pub struct Scene {
    pub name: Option<String>,
    pub nodes: Vec<usize>,
}

pub struct GltfAssetData {
    pub path: String,
    pub default_scene: Option<usize>,
    pub scenes: Vec<Scene>,
    pub nodes: Vec<Node>,
    pub meshes: Vec<Mesh>,
}

/// The indices of a primitive widened to 32 bits.
pub open spec fn widened(ib: IndexBufferType) -> Seq<u32> {
    match ib {
        IndexBufferType::U16(items) => items@.map_values(|x: u16| x as u32),
        IndexBufferType::U32(items) => items@,
    }
}

pub open spec fn index_count(ib: IndexBufferType) -> nat {
    match ib {
        IndexBufferType::U16(items) => items@.len(),
        IndexBufferType::U32(items) => items@.len(),
    }
}

/// Number of whole vertices held by `vertex_data`.
pub open spec fn vertex_count(p: Primitive) -> nat {
    (p.vertex_data@.len() / (VERTEX_STRIDE as nat)) as nat
}

/// Returns the indices of `ib` as `u32` values, in order.
pub fn widen_indices(ib: &IndexBufferType) -> (out: Vec<u32>)
    ensures
        out@ == widened(*ib),
        out@.len() == index_count(*ib),
{
    match ib {
        IndexBufferType::U16(items) => {
            let mut out: Vec<u32> = Vec::new();
            let mut i: usize = 0;
            while i < items.len()
                invariant
                    i <= items@.len(),
                    out@ == items@.subrange(0, i as int).map_values(|x: u16| x as u32),
                decreases items@.len() - i,
            {
                out.push(items[i] as u32);
                i = i + 1;
                assert(out@ =~= items@.subrange(0, i as int).map_values(|x: u16| x as u32));
            }
            assert(items@.subrange(0, items@.len() as int) =~= items@);
            out
        },
        IndexBufferType::U32(items) => items.clone(),
    }
}

/// Every child reference is a valid node index and lies strictly lower under `rank`.
pub open spec fn ranked(nodes: Seq<Node>, rank: spec_fn(int) -> nat) -> bool {
    forall|i: int, j: int|
        #![trigger nodes[i].children@[j]]
        0 <= i < nodes.len() && 0 <= j < nodes[i].children@.len() ==> {
            &&& 0 <= nodes[i].children@[j] < nodes.len()
            &&& rank(nodes[i].children@[j] as int) < rank(i)
        }
}

/// The node graph is acyclic and every child index is in range.
pub open spec fn well_founded(nodes: Seq<Node>) -> bool {
    exists|rank: spec_fn(int) -> nat| ranked(nodes, rank)
}

pub open spec fn node_rank(nodes: Seq<Node>) -> spec_fn(int) -> nat {
    choose|rank: spec_fn(int) -> nat| ranked(nodes, rank)
}

/// Node visits of a depth-first walk of the subtree under `n`: the node itself, then the
/// subtrees of its children, last child first.
pub open spec fn subtree_visits(nodes: Seq<Node>, n: int) -> Seq<int>
    decreases node_rank(nodes)(n), nodes[n].children@.len() + 1,
    when well_founded(nodes) && 0 <= n < nodes.len()
{
    seq![n] + children_visits(nodes, n, nodes[n].children@.len() as int)
}

/// Visits of the subtrees of the first `k` children of `n`, child `k - 1` first.
pub open spec fn children_visits(nodes: Seq<Node>, n: int, k: int) -> Seq<int>
    decreases node_rank(nodes)(n), k,
    when well_founded(nodes) && 0 <= n < nodes.len() && k <= nodes[n].children@.len()
{
    if k <= 0 {
        seq![]
    } else {
        proof {
            let c = nodes[n].children@[k - 1];
            assert(ranked(nodes, node_rank(nodes)));
        }
        subtree_visits(nodes, nodes[n].children@[k - 1] as int) + children_visits(nodes, n, k - 1)
    }
}

/// Visits of a walk that starts from `stack` and always continues with the topmost entry.
pub open spec fn stack_visits(nodes: Seq<Node>, stack: Seq<usize>) -> Seq<int>
    decreases stack.len(),
{
    if stack.len() == 0 {
        seq![]
    } else {
        subtree_visits(nodes, stack.last() as int) + stack_visits(nodes, stack.drop_last())
    }
}

/// Every node of `stack` is a valid node index.
pub open spec fn all_in_range(nodes: Seq<Node>, stack: Seq<usize>) -> bool {
    forall|i: int| 0 <= i < stack.len() ==> #[trigger] stack[i] < nodes.len()
}

/// Every node refers to an existing mesh, if to any.
pub open spec fn meshes_in_range(asset: GltfAssetData) -> bool {
    forall|i: int|
        0 <= i < asset.nodes@.len() ==> match #[trigger] asset.nodes@[i].mesh_index {
            Some(m) => m < asset.meshes@.len(),
            None => true,
        }
}

/// The scene a walk starts from: the requested one, else the asset's default, else the first.
pub open spec fn chosen_scene(asset: GltfAssetData, scene: Option<usize>) -> int {
    match scene {
        Some(s) => s as int,
        None => match asset.default_scene {
            Some(d) => d as int,
            None => 0,
        },
    }
}

/// The asset can be walked from scene `s`: the graph is acyclic, all indices are valid.
pub open spec fn walkable(asset: GltfAssetData, s: int) -> bool {
    &&& 0 <= s < asset.scenes@.len()
    &&& well_founded(asset.nodes@)
    &&& all_in_range(asset.nodes@, asset.scenes@[s].nodes@)
    &&& meshes_in_range(asset)
}

/// All node visits of a walk of scene `s`.
pub open spec fn scene_visits(asset: GltfAssetData, s: int) -> Seq<int> {
    stack_visits(asset.nodes@, asset.scenes@[s].nodes@)
}

pub(crate) proof fn lemma_subtree_unfold(nodes: Seq<Node>, n: int)
    requires
        well_founded(nodes),
        0 <= n < nodes.len(),
    ensures
        subtree_visits(nodes, n) == seq![n] + children_visits(
            nodes,
            n,
            nodes[n].children@.len() as int,
        ),
{
}

/// Pushing the children of `n` in order onto a stack yields the children's visits,
/// last child first, followed by what the stack held before.
pub(crate) proof fn lemma_push_children(nodes: Seq<Node>, n: int, rest: Seq<usize>, k: int)
    requires
        well_founded(nodes),
        0 <= n < nodes.len(),
        0 <= k <= nodes[n].children@.len(),
    ensures
        stack_visits(nodes, rest + nodes[n].children@.subrange(0, k)) == children_visits(
            nodes,
            n,
            k,
        ) + stack_visits(nodes, rest),
    decreases k,
{
    let ch = nodes[n].children@;
    if k == 0 {
        assert(rest + ch.subrange(0, 0) =~= rest);
        assert(children_visits(nodes, n, 0) =~= seq![]);
        assert(seq![] + stack_visits(nodes, rest) =~= stack_visits(nodes, rest));
    } else {
        lemma_push_children(nodes, n, rest, k - 1);
        let s = rest + ch.subrange(0, k);
        assert(s.drop_last() =~= rest + ch.subrange(0, k - 1));
        assert(s.last() == ch[k - 1]);
        assert(stack_visits(nodes, s) == subtree_visits(nodes, ch[k - 1] as int) + stack_visits(
            nodes,
            s.drop_last(),
        ));
        assert(children_visits(nodes, n, k) == subtree_visits(nodes, ch[k - 1] as int)
            + children_visits(nodes, n, k - 1));
        assert(stack_visits(nodes, s) =~= children_visits(nodes, n, k) + stack_visits(
            nodes,
            rest,
        ));
    }
}

/// Every visited node is a valid node index.
pub(crate) proof fn lemma_visits_in_range(nodes: Seq<Node>, stack: Seq<usize>)
    requires
        well_founded(nodes),
        all_in_range(nodes, stack),
    ensures
        forall|i: int|
            0 <= i < stack_visits(nodes, stack).len() ==> 0 <= #[trigger] stack_visits(
                nodes,
                stack,
            )[i] < nodes.len(),
    decreases stack_visits(nodes, stack).len(),
{
    if stack.len() > 0 {
        let n = stack.last();
        let rest = stack.drop_last();
        let k = nodes[n as int].children@.len() as int;
        let ch = nodes[n as int].children@;
        assert(ranked(nodes, node_rank(nodes)));
        lemma_subtree_unfold(nodes, n as int);
        lemma_push_children(nodes, n as int, rest, k);
        assert(ch.subrange(0, k) =~= ch);
        let s2 = rest + ch;
        assert(all_in_range(nodes, s2)) by {
            assert forall|i: int| 0 <= i < s2.len() implies #[trigger] s2[i] < nodes.len() by {
                if i < rest.len() {
                    assert(s2[i] == stack[i]);
                } else {
                    assert(s2[i] == ch[i - rest.len()]);
                }
            }
        }
        assert(stack_visits(nodes, stack) == seq![n as int] + stack_visits(nodes, s2));
        lemma_visits_in_range(nodes, s2);
    }
}

/// A requested scene is walked as asked; with no request the asset's default scene is
/// walked, just as if it had been requested, and an asset without a default is walked from
/// its first scene.
pub proof fn law_default_scene(asset: GltfAssetData, requested: usize)
    ensures
        chosen_scene(asset, Some(requested)) == requested,
        asset.default_scene matches Some(d) ==> chosen_scene(asset, None) == chosen_scene(asset, Some(d))
            && scene_visits(asset, chosen_scene(asset, None)) == scene_visits(asset, d as int),
        asset.default_scene is None ==> chosen_scene(asset, None) == 0,
{
}

} // verus!
