use grass_rs::asset::Node;
use grass_rs::assets::{self, BufferRef, DrawMeshTasksIndirectCommand, Primitives};
use grass_rs::meshlet_asset::{build_buffer_for_indirect_draw, build_instance_data, MeshletDraw, TASK_GROUP_SIZE};
use std::collections::HashMap;

fn buf(a: u64) -> BufferRef {
    BufferRef { handle: a, device_address: Some(a * 16) }
}

fn meshlet_primitive(base: u64, meshlets_count: u32, bounds_count: u32) -> assets::Meshlet {
    assets::Meshlet {
        meshlet_buffer: buf(base),
        vertex_buffer: buf(base + 1),
        meshlet_vertices: buf(base + 2),
        triangle_buffer: buf(base + 3),
        meshlet_bounds_buffer: buf(base + 4),
        meshlets_count,
        bounds_count,
    }
}

fn meshes() -> Vec<assets::Mesh> {
    vec![
        assets::Mesh {
            name: None,
            primitives: Primitives::Meshlets(vec![meshlet_primitive(10, 128, 70), meshlet_primitive(20, 64, 3)]),
        },
        assets::Mesh { name: None, primitives: Primitives::Meshlets(vec![meshlet_primitive(30, 192, 130)]) },
    ]
}

fn nodes() -> Vec<Node> {
    vec![
        Node { name: None, children: vec![1], mesh_index: Some(1) },
        Node { name: None, children: vec![], mesh_index: None },
        Node { name: None, children: vec![], mesh_index: Some(0) },
    ]
}

#[test]
fn one_dispatch_per_meshlet_primitive() {
    assert_eq!(TASK_GROUP_SIZE, 64);
    let d = build_buffer_for_indirect_draw(&meshes(), &nodes());
    let xs: Vec<u32> = d.iter().map(|c: &DrawMeshTasksIndirectCommand| c.group_count_x).collect();
    assert_eq!(xs, vec![3, 2, 1]);
    assert!(d.iter().all(|c| c.group_count_y == 1 && c.group_count_z == 1));
}

#[test]
fn draw_records_follow_nodes() {
    let mut addresses = HashMap::new();
    addresses.insert(0usize, 0x1000u64);
    addresses.insert(2usize, 0x2000u64);
    let draws = build_instance_data(&addresses, &meshes(), &nodes());
    assert_eq!(draws.len(), 3);
    assert_eq!(
        draws[0],
        MeshletDraw {
            transform: 0x1000,
            meshlets: 30 * 16,
            vertices: 31 * 16,
            vertex_indices: 32 * 16,
            tri_indices: 33 * 16,
            bounds: 34 * 16,
            meshlets_count: 130,
        }
    );
    assert_eq!(draws[1].transform, 0x2000);
    assert_eq!(draws[1].meshlets, 10 * 16);
    assert_eq!(draws[1].meshlets_count, 70);
    assert_eq!(draws[2].meshlets_count, 3);
}

#[test]
fn nodes_without_meshes_draw_nothing() {
    let only_empty = vec![Node { name: None, children: vec![], mesh_index: None }];
    assert!(build_buffer_for_indirect_draw(&meshes(), &only_empty).is_empty());
    assert!(build_instance_data(&HashMap::new(), &meshes(), &only_empty).is_empty());
}
