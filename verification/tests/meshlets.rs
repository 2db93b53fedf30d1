use grass_rs::asset::{GltfAssetData, IndexBufferType, Mesh, Node, Primitive, Scene, VERTEX_STRIDE};
use grass_rs::gpu::MeshletInstance;
use grass_rs::meshlet_asset::build_meshlets2;
use grass_rs::parser::{MeshInstance, Parser};

fn vertex(x: f32, y: f32) -> Vec<u8> {
    let mut v = Vec::new();
    for f in [x, y, 0.0, 0.0, 0.0, 1.0, x, y] {
        v.extend_from_slice(&f32::to_le_bytes(f));
    }
    v
}

fn quad_vertices() -> Vec<u8> {
    let mut v = Vec::new();
    for (x, y) in [(0.0, 0.0), (1.0, 0.0), (0.0, 1.0), (1.0, 1.0)] {
        v.extend(vertex(x, y));
    }
    v
}

fn quad() -> Primitive {
    Primitive { vertex_data: quad_vertices(), index_buffer: IndexBufferType::U16(vec![0, 1, 2, 2, 1, 3]) }
}

fn node(children: Vec<usize>, mesh_index: Option<usize>) -> Node {
    Node { name: None, children, mesh_index }
}

/// A root node and its child both showing the quad mesh.
fn two_quads(path: &str) -> GltfAssetData {
    GltfAssetData {
        path: path.to_string(),
        default_scene: None,
        scenes: vec![Scene { name: None, nodes: vec![0] }],
        nodes: vec![node(vec![1], Some(0)), node(vec![], Some(0))],
        meshes: vec![Mesh { name: None, primitives: vec![quad()] }],
    }
}

#[test]
fn quad_is_one_meshlet_padded_to_a_task_group() {
    let vertices = quad_vertices();
    assert_eq!(vertices.len(), 4 * VERTEX_STRIDE);
    let (built, real) = build_meshlets2(&vertices, &vec![0, 1, 2, 2, 1, 3]);
    assert_eq!(real, 1);
    assert_eq!(built.meshlets.len(), 64);
    let m = built.meshlets[0];
    assert_eq!(m.vertex_count, 4);
    assert_eq!(m.triangle_count, 2);
    let mut vs = built.vertices.clone();
    vs.sort();
    assert_eq!(vs, vec![0, 1, 2, 3]);
    for t in &built.triangles[0..6] {
        assert!((*t as u32) < m.vertex_count);
    }
    for pad in &built.meshlets[1..] {
        assert_eq!((pad.vertex_count, pad.triangle_count, pad.vertex_offset, pad.triangle_offset), (0, 0, 0, 0));
    }
}

#[test]
fn empty_index_list_gives_no_meshlets() {
    let (built, real) = build_meshlets2(&quad_vertices(), &vec![]);
    assert_eq!(real, 0);
    assert_eq!(built.meshlets.len(), 0);
}

#[test]
fn parser_starts_empty() {
    let p = Parser::new();
    let g = &p.geometry_data;
    assert!(g.vertex_data.is_empty());
    assert!(g.meshlets.is_empty());
    assert!(g.mesh_instances.is_empty());
    assert!(g.meshlet_instances.is_empty());
}

#[test]
fn push_instance_builds_shared_mesh_once() {
    let mut p = Parser::new();
    p.push_instance(&two_quads("scene.gltf"), None);
    let g = &p.geometry_data;
    assert_eq!(g.vertex_data.len(), 4 * VERTEX_STRIDE);
    assert_eq!(g.meshlets.len(), 1);
    assert_eq!(
        g.mesh_instances,
        vec![
            MeshInstance { node_index: 0, meshlets_offset: 0, meshlets_count: 1 },
            MeshInstance { node_index: 1, meshlets_offset: 0, meshlets_count: 1 },
        ]
    );
    assert_eq!(
        g.meshlet_instances,
        vec![
            MeshletInstance { mesh_instance_index: 0, meshlet_index: 0, lod_index: 0 },
            MeshletInstance { mesh_instance_index: 1, meshlet_index: 0, lod_index: 0 },
        ]
    );
}

#[test]
fn pushing_same_asset_again_reuses_meshlets() {
    let asset = two_quads("scene.gltf");
    let mut p = Parser::new();
    p.push_instance(&asset, None);
    let meshlets_after_first = p.geometry_data.meshlets.clone();
    let vertices_after_first = p.geometry_data.vertex_data.clone();
    let triangles_after_first = p.geometry_data.meshlet_triangles.clone();
    p.push_instance(&asset, Some(0));
    let g = &p.geometry_data;
    assert_eq!(g.meshlets, meshlets_after_first);
    assert_eq!(g.vertex_data, vertices_after_first);
    assert_eq!(g.meshlet_triangles, triangles_after_first);
    assert_eq!(g.mesh_instances.len(), 4);
    assert_eq!(g.mesh_instances[2..], g.mesh_instances[..2]);
    assert_eq!(g.meshlet_instances.len(), 4);
    for k in 0..2 {
        let first = g.meshlet_instances[k];
        let again = g.meshlet_instances[k + 2];
        assert_eq!(again.mesh_instance_index, first.mesh_instance_index + 2);
        assert_eq!((again.meshlet_index, again.lod_index), (first.meshlet_index, first.lod_index));
    }
}

#[test]
fn other_asset_path_builds_its_own_meshlets() {
    let mut p = Parser::new();
    p.push_instance(&two_quads("a.gltf"), None);
    p.push_instance(&two_quads("b.gltf"), None);
    let g = &p.geometry_data;
    assert_eq!(g.meshlets.len(), 2);
    assert_eq!(g.vertex_data.len(), 8 * VERTEX_STRIDE);
    assert_eq!(g.mesh_instances[2], MeshInstance { node_index: 0, meshlets_offset: 1, meshlets_count: 1 });
    // The second asset's meshlet vertices point into its own copy of the vertices.
    let m = g.meshlets[1];
    for k in 0..m.vertex_count {
        let v = g.meshlet_vertices[(m.vertex_offset + k) as usize];
        assert!((4..8).contains(&v));
    }
}
