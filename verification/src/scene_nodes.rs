//! Per-node transform buffers of a scene: how many there are, where each lies in the shared
//! memory, and which node's transform each holds.
use vstd::prelude::*;
use std::collections::HashMap;
use crate::asset::{Node, Scene, well_founded, ranked, node_rank, all_in_range};

verus! {

broadcast use vstd::std_specs::hash::group_hash_axioms;

/// The nodes with a mesh in the subtree under `n`, in depth-first order: the node itself,
/// then its children's subtrees, first child first.
pub open spec fn mesh_nodes(nodes: Seq<Node>, n: int) -> Seq<usize>
    decreases node_rank(nodes)(n), nodes[n].children@.len() + 1,
    when well_founded(nodes) && 0 <= n < nodes.len()
{
    (if nodes[n].mesh_index is Some {
        seq![n as usize]
    } else {
        seq![]
    }) + children_mesh_nodes(nodes, n, nodes[n].children@.len() as int)
}

/// The mesh nodes under the first `k` children of `n`, in order.
pub open spec fn children_mesh_nodes(nodes: Seq<Node>, n: int, k: int) -> Seq<usize>
    decreases node_rank(nodes)(n), k,
    when well_founded(nodes) && 0 <= n < nodes.len() && k <= nodes[n].children@.len()
{
    if k <= 0 {
        seq![]
    } else {
        proof {
            assert(ranked(nodes, node_rank(nodes)));
            let c = nodes[n].children@[k - 1];
        }
        children_mesh_nodes(nodes, n, k - 1) + mesh_nodes(nodes, nodes[n].children@[k - 1] as int)
    }
}

/// The mesh nodes under the first `k` roots, in order.
pub open spec fn roots_mesh_nodes(nodes: Seq<Node>, roots: Seq<usize>, k: int) -> Seq<usize>
    decreases k,
{
    if k <= 0 {
        seq![]
    } else {
        roots_mesh_nodes(nodes, roots, k - 1) + mesh_nodes(nodes, roots[k - 1] as int)
    }
}

/// The mesh nodes of a scene, in the order their transforms are laid out.
pub open spec fn scene_mesh_nodes(nodes: Seq<Node>, scene: Scene) -> Seq<usize> {
    roots_mesh_nodes(nodes, scene.nodes@, scene.nodes@.len() as int)
}

proof fn lemma_mesh_nodes_unfold(nodes: Seq<Node>, n: int)
    requires
        well_founded(nodes),
        0 <= n < nodes.len(),
    ensures
        mesh_nodes(nodes, n) == (if nodes[n].mesh_index is Some {
            seq![n as usize]
        } else {
            seq![]
        }) + children_mesh_nodes(nodes, n, nodes[n].children@.len() as int),
{
}

proof fn lemma_children_prefix(nodes: Seq<Node>, n: int, i: int)
    requires
        well_founded(nodes),
        0 <= n < nodes.len(),
        0 <= i <= nodes[n].children@.len(),
    ensures
        children_mesh_nodes(nodes, n, i).len() <= children_mesh_nodes(
            nodes,
            n,
            nodes[n].children@.len() as int,
        ).len(),
    decreases nodes[n].children@.len() - i,
{
    if i < nodes[n].children@.len() {
        lemma_children_prefix(nodes, n, i + 1);
    }
}

proof fn lemma_roots_prefix(nodes: Seq<Node>, roots: Seq<usize>, i: int)
    requires
        0 <= i <= roots.len(),
    ensures
        roots_mesh_nodes(nodes, roots, i).len() <= roots_mesh_nodes(nodes, roots, roots.len() as int).len(),
    decreases roots.len() - i,
{
    if i < roots.len() {
        lemma_roots_prefix(nodes, roots, i + 1);
    }
}

/// Number of nodes with a mesh in the subtree under `node_index`.
pub fn count_instances(node_index: usize, nodes: &Vec<Node>) -> (count: usize)
    requires
        well_founded(nodes@),
        node_index < nodes@.len(),
        mesh_nodes(nodes@, node_index as int).len() <= usize::MAX,
    ensures
        count == mesh_nodes(nodes@, node_index as int).len(),
    decreases node_rank(nodes@)(node_index as int),
{
    let node = &nodes[node_index];
    proof {
        lemma_mesh_nodes_unfold(nodes@, node_index as int);
        assert(ranked(nodes@, node_rank(nodes@)));
    }
    let mut this_node_count: usize = 0;
    if let Some(_mesh_index) = node.mesh_index {
        this_node_count = this_node_count + 1;
    }
    let mut i: usize = 0;
    while i < node.children.len()
        invariant
            well_founded(nodes@),
            node_index < nodes@.len(),
            node == nodes@[node_index as int],
            i <= node.children@.len(),
            mesh_nodes(nodes@, node_index as int).len() <= usize::MAX,
            mesh_nodes(nodes@, node_index as int) == (if node.mesh_index is Some {
                seq![node_index]
            } else {
                seq![]
            }) + children_mesh_nodes(nodes@, node_index as int, node.children@.len() as int),
            ranked(nodes@, node_rank(nodes@)),
            this_node_count == (if node.mesh_index is Some { 1int } else { 0int })
                + children_mesh_nodes(nodes@, node_index as int, i as int).len(),
        decreases node.children@.len() - i,
    {
        let child = node.children[i];
        proof {
            assert(nodes@[node_index as int].children@[i as int] == child);
            lemma_children_prefix(nodes@, node_index as int, i + 1);
        }
        let c = count_instances(child, nodes);
        this_node_count = this_node_count + c;
        i = i + 1;
    }
    this_node_count
}

/// Number of nodes with a mesh in the scene's trees.
pub fn count_scene_instances(scene: &Scene, nodes: &Vec<Node>) -> (count: usize)
    requires
        well_founded(nodes@),
        all_in_range(nodes@, scene.nodes@),
        scene_mesh_nodes(nodes@, *scene).len() <= usize::MAX,
    ensures
        count == scene_mesh_nodes(nodes@, *scene).len(),
{
    let mut instances_count: usize = 0;
    let mut i: usize = 0;
    while i < scene.nodes.len()
        invariant
            well_founded(nodes@),
            all_in_range(nodes@, scene.nodes@),
            i <= scene.nodes@.len(),
            scene_mesh_nodes(nodes@, *scene).len() <= usize::MAX,
            instances_count == roots_mesh_nodes(nodes@, scene.nodes@, i as int).len(),
        decreases scene.nodes@.len() - i,
    {
        proof {
            lemma_roots_prefix(nodes@, scene.nodes@, i + 1);
        }
        let c = count_instances(scene.nodes[i], nodes);
        instances_count = instances_count + c;
        i = i + 1;
    }
    instances_count
}

/// Lays out `instances_count` transforms of `single_instance_size` bytes one after another:
/// the total size and each one's offset.
pub fn instance_buffer_layout(instances_count: usize, single_instance_size: usize) -> (out: (
    usize,
    Vec<u64>,
))
    requires
        single_instance_size * instances_count <= usize::MAX,
        single_instance_size * instances_count <= u64::MAX,
    ensures
        out.0 == single_instance_size * instances_count,
        out.1@.len() == instances_count,
        forall|i: int| 0 <= i < instances_count ==> #[trigger] out.1@[i] == i * single_instance_size,
{
    let total_size = single_instance_size * instances_count;
    let mut offsets: Vec<u64> = Vec::new();
    let mut offset: u64 = 0;
    let mut i: usize = 0;
    while i < instances_count
        invariant
            i <= instances_count,
            single_instance_size * instances_count <= u64::MAX,
            offset == i * single_instance_size,
            offsets@.len() == i,
            forall|q: int| 0 <= q < i ==> #[trigger] offsets@[q] == q * single_instance_size,
        decreases instances_count - i,
    {
        offsets.push(offset);
        assert((i + 1) * single_instance_size <= instances_count * single_instance_size) by (nonlinear_arith)
            requires
                i < instances_count,
        ;
        assert((i + 1) * single_instance_size == i * single_instance_size + single_instance_size) by (nonlinear_arith);
        offset = offset + single_instance_size as u64;
        i = i + 1;
    }
    (total_size, offsets)
}

/// The mesh nodes of the list are distinct and have no address yet.
pub open spec fn fresh_nodes(order: Seq<usize>, map: Map<usize, u64>) -> bool {
    &&& order.no_duplicates()
    &&& forall|i: int| 0 <= i < order.len() ==> !map.contains_key(#[trigger] order[i])
}

/// Gives each mesh node under `node_index`, in depth-first order, the next unused buffer
/// from `buffers` (an address per buffer), records the node in `order` and its buffer's
/// address in `node_transform_buffer_address`.
pub fn upload_model_data(
    node_index: usize,
    nodes: &Vec<Node>,
    buffers: &Vec<u64>,
    node_transform_buffer_address: &mut HashMap<usize, u64>,
    current_buffer_index: &mut usize,
    order: &mut Vec<usize>,
)
    requires
        well_founded(nodes@),
        node_index < nodes@.len(),
        *old(current_buffer_index) + mesh_nodes(nodes@, node_index as int).len() <= buffers@.len(),
        fresh_nodes(mesh_nodes(nodes@, node_index as int), old(node_transform_buffer_address)@),
    ensures
        *final(current_buffer_index) == *old(current_buffer_index) + mesh_nodes(
            nodes@,
            node_index as int,
        ).len(),
        final(order)@ == old(order)@ + mesh_nodes(nodes@, node_index as int),
        final(node_transform_buffer_address)@.dom() == old(node_transform_buffer_address)@.dom()
            + mesh_nodes(nodes@, node_index as int).to_set(),
        forall|k: usize|
            old(node_transform_buffer_address)@.contains_key(k)
                ==> #[trigger] final(node_transform_buffer_address)@[k]
                == old(node_transform_buffer_address)@[k],
        forall|i: int|
            0 <= i < mesh_nodes(nodes@, node_index as int).len()
                ==> #[trigger] final(node_transform_buffer_address)@[mesh_nodes(nodes@, node_index as int)[i]]
                == buffers@[*old(current_buffer_index) + i],
    decreases node_rank(nodes@)(node_index as int),
{
    let ghost all = mesh_nodes(nodes@, node_index as int);
    let ghost start = *current_buffer_index;
    let ghost map0 = node_transform_buffer_address@;
    let ghost order0 = order@;
    let node = &nodes[node_index];
    proof {
        lemma_mesh_nodes_unfold(nodes@, node_index as int);
        assert(ranked(nodes@, node_rank(nodes@)));
    }
    if let Some(_mesh_index) = node.mesh_index {
        assert(all.len() >= 1);
        let blen = buffers.len();
        let address = buffers[*current_buffer_index];
        *current_buffer_index = *current_buffer_index + 1;
        assert(all[0] == node_index);
        node_transform_buffer_address.insert(node_index, address);
        order.push(node_index);
    }
    let ghost own = if node.mesh_index is Some { seq![node_index] } else { Seq::<usize>::empty() };
    assert(order@ == order0 + own);
    let mut i: usize = 0;
    while i < node.children.len()
        invariant
            well_founded(nodes@),
            ranked(nodes@, node_rank(nodes@)),
            node_index < nodes@.len(),
            node == nodes@[node_index as int],
            i <= node.children@.len(),
            all == own + children_mesh_nodes(nodes@, node_index as int, node.children@.len() as int),
            own.len() <= 1,
            own.len() == 1 ==> own[0] == node_index,
            start + all.len() <= buffers@.len(),
            fresh_nodes(all, map0),
            *current_buffer_index == start + own.len() + children_mesh_nodes(nodes@, node_index as int, i as int).len(),
            order@ == order0 + own + children_mesh_nodes(nodes@, node_index as int, i as int),
            node_transform_buffer_address@.dom() == map0.dom() + (own + children_mesh_nodes(nodes@, node_index as int, i as int)).to_set(),
            forall|k: usize| map0.contains_key(k) ==> #[trigger] node_transform_buffer_address@[k] == map0[k],
            forall|q: int|
                0 <= q < own.len() + children_mesh_nodes(nodes@, node_index as int, i as int).len() ==> #[trigger] node_transform_buffer_address@[all[q]] == buffers@[start + q],
        decreases node.children@.len() - i,
    {
        let child = node.children[i];
        let ghost done = own + children_mesh_nodes(nodes@, node_index as int, i as int);
        let ghost sub = mesh_nodes(nodes@, child as int);
        proof {
            assert(nodes@[node_index as int].children@[i as int] == child);
            lemma_children_prefix(nodes@, node_index as int, i + 1);
            assert(children_mesh_nodes(nodes@, node_index as int, i + 1) == children_mesh_nodes(nodes@, node_index as int, i as int) + sub);
            let done2 = own + children_mesh_nodes(nodes@, node_index as int, i + 1);
            assert(done2 =~= done + sub);
            let rest = children_mesh_nodes(nodes@, node_index as int, node.children@.len() as int);
            lemma_children_take(nodes@, node_index as int, i + 1);
            let ci1 = children_mesh_nodes(nodes@, node_index as int, i + 1);
            assert(rest.take(ci1.len() as int) == ci1);
            assert(all.take(done2.len() as int) =~= own + rest.take(ci1.len() as int));
            assert(all.take(done2.len() as int) =~= done2);
            assert forall|q: int| 0 <= q < done2.len() implies #[trigger] all[q] == done2[q] by {
                assert(all.take(done2.len() as int)[q] == all[q]);
            }
            assert forall|q: int| 0 <= q < sub.len() implies !node_transform_buffer_address@.contains_key(#[trigger] sub[q]) by {
                assert(all[done.len() + q] == done2[done.len() + q]);
                assert(sub[q] == all[done.len() + q]);
                assert(!map0.contains_key(all[done.len() + q]));
                assert forall|r: int| 0 <= r < done.len() implies #[trigger] done[r] != sub[q] by {
                    assert(all[r] == done2[r]);
                    assert(done[r] == all[r]);
                }
            }
            assert(sub.no_duplicates()) by {
                assert forall|a: int, b: int| 0 <= a < b < sub.len() implies sub[a] != sub[b] by {
                    assert(all[done.len() + a] == done2[done.len() + a]);
                    assert(all[done.len() + b] == done2[done.len() + b]);
                    assert(sub[a] == all[done.len() + a]);
                    assert(sub[b] == all[done.len() + b]);
                }
            }
        }
        let ghost map_before = node_transform_buffer_address@;
        let ghost cur_before = *current_buffer_index;
        upload_model_data(child, nodes, buffers, node_transform_buffer_address, current_buffer_index, order);
        proof {
            let done2 = own + children_mesh_nodes(nodes@, node_index as int, i + 1);
            assert(done2 =~= done + sub);
            vstd::seq_lib::seq_to_set_distributes_over_add(done, sub);
            assert forall|q: int| 0 <= q < done2.len() implies #[trigger] node_transform_buffer_address@[all[q]] == buffers@[start + q] by {
                assert(all[q] == done2[q]);
                if q < done.len() {
                    assert(map_before.contains_key(all[q]));
                } else {
                    assert(done2[q] == sub[q - done.len()]);
                }
            }
        }
        i = i + 1;
    }
    assert(own + children_mesh_nodes(nodes@, node_index as int, i as int) =~= all);
}

proof fn lemma_children_take(nodes: Seq<Node>, n: int, i: int)
    requires
        well_founded(nodes),
        0 <= n < nodes.len(),
        0 <= i <= nodes[n].children@.len(),
    ensures
        children_mesh_nodes(nodes, n, nodes[n].children@.len() as int).take(
            children_mesh_nodes(nodes, n, i).len() as int,
        ) == children_mesh_nodes(nodes, n, i),
    decreases nodes[n].children@.len() - i,
{
    let k = nodes[n].children@.len() as int;
    if i < k {
        lemma_children_take(nodes, n, i + 1);
        let a = children_mesh_nodes(nodes, n, i);
        let b = children_mesh_nodes(nodes, n, i + 1);
        assert(b.take(a.len() as int) =~= a);
        lemma_children_prefix(nodes, n, i + 1);
        assert(children_mesh_nodes(nodes, n, k).take(a.len() as int) =~= b.take(a.len() as int));
    } else {
        assert(children_mesh_nodes(nodes, n, k).take(children_mesh_nodes(nodes, n, k).len() as int) =~= children_mesh_nodes(nodes, n, k));
    }
}

proof fn lemma_roots_take(nodes: Seq<Node>, roots: Seq<usize>, i: int)
    requires
        0 <= i <= roots.len(),
    ensures
        roots_mesh_nodes(nodes, roots, roots.len() as int).take(
            roots_mesh_nodes(nodes, roots, i).len() as int,
        ) == roots_mesh_nodes(nodes, roots, i),
    decreases roots.len() - i,
{
    let k = roots.len() as int;
    if i < k {
        lemma_roots_take(nodes, roots, i + 1);
        let a = roots_mesh_nodes(nodes, roots, i);
        let b = roots_mesh_nodes(nodes, roots, i + 1);
        assert(b.take(a.len() as int) =~= a);
        lemma_roots_prefix(nodes, roots, i + 1);
        assert(roots_mesh_nodes(nodes, roots, k).take(a.len() as int) =~= b.take(a.len() as int));
    } else {
        assert(roots_mesh_nodes(nodes, roots, k).take(roots_mesh_nodes(nodes, roots, k).len() as int)
            =~= roots_mesh_nodes(nodes, roots, k));
    }
}

/// Gives the mesh nodes of the scene, root after root in depth-first order, one transform
/// buffer each from `buffers` (an address per buffer, laid out as `instance_buffer_layout`
/// gives them). Returns each mesh node's buffer address and the nodes in the order they got
/// their buffers.
pub fn build_node_transformation_data(scene: &Scene, nodes: &Vec<Node>, buffers: &Vec<u64>) -> (out: (
    HashMap<usize, u64>,
    Vec<usize>,
))
    requires
        well_founded(nodes@),
        all_in_range(nodes@, scene.nodes@),
        scene_mesh_nodes(nodes@, *scene).no_duplicates(),
        scene_mesh_nodes(nodes@, *scene).len() <= buffers@.len(),
    ensures
        out.1@ == scene_mesh_nodes(nodes@, *scene),
        out.0@.dom() == scene_mesh_nodes(nodes@, *scene).to_set(),
        forall|i: int|
            0 <= i < scene_mesh_nodes(nodes@, *scene).len()
                ==> #[trigger] out.0@[scene_mesh_nodes(nodes@, *scene)[i]] == buffers@[i],
{
    let ghost roots = scene.nodes@;
    let ghost all = scene_mesh_nodes(nodes@, *scene);
    let mut node_transform_buffer_address: HashMap<usize, u64> = HashMap::new();
    let mut order: Vec<usize> = Vec::new();
    let mut current_buffer_index: usize = 0;
    let mut r: usize = 0;
    assert(node_transform_buffer_address@.dom() =~= roots_mesh_nodes(nodes@, roots, 0).to_set());
    while r < scene.nodes.len()
        invariant
            roots == scene.nodes@,
            all == roots_mesh_nodes(nodes@, roots, roots.len() as int),
            well_founded(nodes@),
            all_in_range(nodes@, roots),
            all.no_duplicates(),
            all.len() <= buffers@.len(),
            r <= roots.len(),
            current_buffer_index == roots_mesh_nodes(nodes@, roots, r as int).len(),
            order@ == roots_mesh_nodes(nodes@, roots, r as int),
            node_transform_buffer_address@.dom() == roots_mesh_nodes(nodes@, roots, r as int).to_set(),
            forall|q: int|
                0 <= q < roots_mesh_nodes(nodes@, roots, r as int).len()
                    ==> #[trigger] node_transform_buffer_address@[all[q]] == buffers@[q],
        decreases roots.len() - r,
    {
        let root = scene.nodes[r];
        let ghost done = roots_mesh_nodes(nodes@, roots, r as int);
        let ghost sub = mesh_nodes(nodes@, root as int);
        let ghost done2 = roots_mesh_nodes(nodes@, roots, r + 1);
        proof {
            assert(roots[r as int] == root);
            assert(done2 == done + sub);
            lemma_roots_take(nodes@, roots, r + 1);
            lemma_roots_prefix(nodes@, roots, r + 1);
            assert(all.take(done2.len() as int) == done2);
            assert forall|q: int| 0 <= q < done2.len() implies #[trigger] all[q] == done2[q] by {
                assert(all.take(done2.len() as int)[q] == all[q]);
            }
            assert forall|q: int| 0 <= q < sub.len() implies !node_transform_buffer_address@.contains_key(
                #[trigger] sub[q],
            ) by {
                assert(sub[q] == done2[done.len() + q]);
                assert(all[done.len() + q] == done2[done.len() + q]);
                assert forall|p: int| 0 <= p < done.len() implies #[trigger] done[p] != sub[q] by {
                    assert(done[p] == done2[p]);
                    assert(all[p] == done2[p]);
                }
            }
            assert(sub.no_duplicates()) by {
                assert forall|a: int, b: int| 0 <= a < b < sub.len() implies sub[a] != sub[b] by {
                    assert(sub[a] == done2[done.len() + a]);
                    assert(sub[b] == done2[done.len() + b]);
                    assert(all[done.len() + a] == done2[done.len() + a]);
                    assert(all[done.len() + b] == done2[done.len() + b]);
                }
            }
        }
        let ghost map_before = node_transform_buffer_address@;
        upload_model_data(
            root,
            nodes,
            buffers,
            &mut node_transform_buffer_address,
            &mut current_buffer_index,
            &mut order,
        );
        proof {
            vstd::seq_lib::seq_to_set_distributes_over_add(done, sub);
            assert forall|q: int| 0 <= q < done2.len() implies #[trigger] node_transform_buffer_address@[all[q]]
                == buffers@[q] by {
                assert(all[q] == done2[q]);
                if q < done.len() {
                    assert(done2[q] == done[q]);
                    assert(map_before.contains_key(done[q]));
                } else {
                    assert(done2[q] == sub[q - done.len()]);
                }
            }
        }
        r = r + 1;
    }
    (node_transform_buffer_address, order)
}

} // verus!
