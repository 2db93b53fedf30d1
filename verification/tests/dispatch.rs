use grass_rs::assets::BufferRef;
use grass_rs::bounding_sphere::{BoundingSphereState, DrawMode, SphereDraw};
use grass_rs::geometry::GeometryBuffers;
use grass_rs::gpu::task_dispatch_2d;

fn buffer(handle: u64) -> BufferRef {
    BufferRef { handle, device_address: Some(0x1000 * handle) }
}

fn geometry(mesh_instances_count: u32, meshlet_instances_count: u32) -> GeometryBuffers {
    GeometryBuffers {
        vertices: buffer(1),
        meshlet_vertices: buffer(2),
        meshlet_triangles: buffer(3),
        meshes: buffer(4),
        meshlets: buffer(5),
        mesh_instances: buffer(6),
        mesh_instances_count,
        meshlet_instances: buffer(7),
        meshlet_instances_count,
        visible_meshlets_instances: buffer(8),
        visible_meshlets_instances_count: buffer(9),
    }
}

#[test]
fn dispatch_fits_in_one_row() {
    assert_eq!(task_dispatch_2d(100, 32, 8), (4, 1));
}

#[test]
fn dispatch_wraps_into_rows() {
    // 1000 items in groups of 32 need 32 groups; 8 per row make 4 rows.
    assert_eq!(task_dispatch_2d(1000, 32, 8), (8, 4));
}

#[test]
fn dispatch_partial_last_row() {
    // 33 groups, 8 per row: 5 rows, the last one holding a single group.
    assert_eq!(task_dispatch_2d(33 * 32, 32, 8), (8, 5));
}

#[test]
fn dispatch_of_nothing_is_empty() {
    assert_eq!(task_dispatch_2d(0, 32, 8), (0, 0));
}

#[test]
fn dispatch_grid_covers_every_item() {
    for &(count, subgroup, max_dim) in &[(1u32, 32u32, 4u32), (1000, 64, 3), (77, 1, 10), (4096, 32, 128)] {
        let (x, y) = task_dispatch_2d(count, subgroup, max_dim);
        assert!(x <= max_dim);
        assert!((x as u64) * (y as u64) * (subgroup as u64) >= count as u64);
        if y > 0 {
            let total = (count + subgroup - 1) / subgroup;
            assert!((y - 1) * max_dim < total);
        }
    }
}

#[test]
fn sphere_overlay_starts_hidden() {
    let s = BoundingSphereState::new(32, [16, 1, 1]);
    assert_eq!(s.draw_mode, DrawMode::Off);
    assert_eq!(s.draw_plan(&geometry(10, 100)), None);
}

#[test]
fn sphere_overlay_cycles_through_modes() {
    let mut s = BoundingSphereState::new(32, [16, 1, 1]);
    s.toggle_mode();
    assert_eq!(s.draw_mode, DrawMode::Mesh);
    s.toggle_mode();
    assert_eq!(s.draw_mode, DrawMode::Meshlet);
    s.toggle_mode();
    assert_eq!(s.draw_mode, DrawMode::Off);
}

#[test]
fn sphere_overlay_three_toggles_restore_mode() {
    let mut s = BoundingSphereState::new(32, [16, 1, 1]);
    s.toggle_mode();
    let start = s.draw_mode;
    s.toggle_mode();
    s.toggle_mode();
    s.toggle_mode();
    assert_eq!(s.draw_mode, start);
    assert_eq!(s.subgroup_size, 32);
    assert_eq!(s.max_task_workgroup_count, [16, 1, 1]);
}

#[test]
fn sphere_overlay_dispatches_per_mesh_and_per_meshlet() {
    let g = geometry(70, 1000);
    let mut s = BoundingSphereState::new(32, [4, 1, 1]);
    s.toggle_mode();
    assert_eq!(
        s.draw_plan(&g),
        Some(SphereDraw { per_mesh: true, group_count_x: 3, group_count_y: 1 })
    );
    s.toggle_mode();
    assert_eq!(
        s.draw_plan(&g),
        Some(SphereDraw { per_mesh: false, group_count_x: 4, group_count_y: 8 })
    );
}

#[test]
fn dispatch_with_largest_row_width() {
    assert_eq!(task_dispatch_2d(1, 1, u32::MAX), (1, 1));
    assert_eq!(task_dispatch_2d(0, 1, u32::MAX), (0, 0));
}
