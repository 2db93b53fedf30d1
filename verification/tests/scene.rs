use grass_rs::asset::{Node, Scene};
use grass_rs::scene_nodes::{build_node_transformation_data, count_instances, count_scene_instances, instance_buffer_layout, upload_model_data};
use std::collections::HashMap;

fn node(children: Vec<usize>, mesh_index: Option<usize>) -> Node {
    Node { name: None, children, mesh_index }
}

/// 0 -> (1, 2), 2 -> 3; nodes 0, 1 and 3 show a mesh, node 4 is a separate root with one.
fn nodes() -> Vec<Node> {
    vec![
        node(vec![1, 2], Some(0)),
        node(vec![], Some(1)),
        node(vec![3], None),
        node(vec![], Some(0)),
        node(vec![], Some(2)),
    ]
}

#[test]
fn count_instances_in_subtree() {
    let n = nodes();
    assert_eq!(count_instances(0, &n), 3);
    assert_eq!(count_instances(2, &n), 1);
    assert_eq!(count_instances(1, &n), 1);
}

#[test]
fn count_instances_of_scene_roots() {
    let n = nodes();
    assert_eq!(count_scene_instances(&Scene { name: None, nodes: vec![0, 4] }, &n), 4);
    assert_eq!(count_scene_instances(&Scene { name: None, nodes: vec![] }, &n), 0);
}

#[test]
fn buffer_layout_is_back_to_back() {
    let (total, offsets) = instance_buffer_layout(3, 64);
    assert_eq!(total, 192);
    assert_eq!(offsets, vec![0, 64, 128]);
    let (total, offsets) = instance_buffer_layout(0, 64);
    assert_eq!(total, 0);
    assert!(offsets.is_empty());
}

#[test]
fn upload_assigns_buffers_in_walk_order() {
    let n = nodes();
    let buffers = vec![100u64, 200, 300, 400];
    let mut addresses = HashMap::new();
    let mut current = 0usize;
    let mut order = Vec::new();
    upload_model_data(0, &n, &buffers, &mut addresses, &mut current, &mut order);
    assert_eq!(current, 3);
    assert_eq!(order, vec![0, 1, 3]);
    assert_eq!(addresses.len(), 3);
    assert_eq!(addresses[&0], 100);
    assert_eq!(addresses[&1], 200);
    assert_eq!(addresses[&3], 300);
    upload_model_data(4, &n, &buffers, &mut addresses, &mut current, &mut order);
    assert_eq!(current, 4);
    assert_eq!(addresses[&4], 400);
    assert_eq!(addresses[&0], 100);
}

#[test]
fn scene_transforms_use_counted_buffers_in_order() {
    let n = nodes();
    let scene = Scene { name: None, nodes: vec![4, 0] };
    let count = count_scene_instances(&scene, &n);
    let (_, offsets) = instance_buffer_layout(count, 64);
    let (addresses, order) = build_node_transformation_data(&scene, &n, &offsets);
    assert_eq!(order, vec![4, 0, 1, 3]);
    assert_eq!(addresses.len(), count);
    assert_eq!(addresses[&4], 0);
    assert_eq!(addresses[&0], 64);
    assert_eq!(addresses[&1], 128);
    assert_eq!(addresses[&3], 192);
}
