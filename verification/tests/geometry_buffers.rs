use grass_rs::assets::BufferRef;
use grass_rs::geometry::{visible_instances_placeholder, GeometryBuffers, PushConstants};
use grass_rs::gpu::MeshletInstance;

fn buffer(handle: u64, address: u64) -> BufferRef {
    BufferRef { handle, device_address: Some(address) }
}

#[test]
fn push_constants_carry_buffer_addresses() {
    let g = GeometryBuffers {
        vertices: buffer(1, 100),
        meshlet_vertices: buffer(2, 200),
        meshlet_triangles: buffer(3, 300),
        meshes: buffer(4, 400),
        meshlets: buffer(5, 500),
        mesh_instances: buffer(6, 600),
        mesh_instances_count: 12,
        meshlet_instances: buffer(7, 700),
        meshlet_instances_count: 99,
        visible_meshlets_instances: buffer(8, 800),
        visible_meshlets_instances_count: BufferRef { handle: 9, device_address: None },
    };
    let pc = g.push_constants(42, 800, 900);
    assert_eq!(
        pc,
        PushConstants {
            view_camera: 42,
            vertices: 100,
            meshlet_vertices: 200,
            meshlet_triangles: 300,
            meshes: 400,
            meshlets: 500,
            mesh_instances: 600,
            meshlet_instances: 700,
            visible_meshlet_instances: 800,
            visible_meshlet_instances_count: 900,
            mesh_instances_count: 12,
        }
    );
}

#[test]
fn placeholder_has_one_zeroed_entry_per_instance() {
    let v = visible_instances_placeholder(5);
    assert_eq!(v.len(), 5);
    for m in &v {
        assert_eq!(*m, MeshletInstance { mesh_instance_index: 0, meshlet_index: 0, lod_index: 0 });
    }
    assert!(visible_instances_placeholder(0).is_empty());
}
