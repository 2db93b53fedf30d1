use grass_rs::asset::{GltfAssetData, IndexBufferType, Mesh, Node, Primitive, Scene, VERTEX_STRIDE};
use grass_rs::assets::{self, DrawIndexedIndirectCommand, FVFCombinedPrimitives, Primitives, TraditionalInstance};
use grass_rs::traditional_asset::{combine_primitives, fvf_build_indirect_buffer, fvf_build_instance_data};
use std::collections::HashMap;

fn primitive(vertices: usize, index_buffer: IndexBufferType) -> Primitive {
    Primitive { vertex_data: vec![7u8; vertices * VERTEX_STRIDE], index_buffer }
}

fn node(mesh_index: Option<usize>) -> Node {
    Node { name: None, children: vec![], mesh_index }
}

fn two_mesh_asset() -> GltfAssetData {
    GltfAssetData {
        path: "two.gltf".to_string(),
        default_scene: Some(0),
        scenes: vec![Scene { name: None, nodes: vec![0, 1, 2] }],
        nodes: vec![node(Some(1)), node(Some(0)), node(Some(1)), node(None)],
        meshes: vec![
            Mesh {
                name: Some("quad".to_string()),
                primitives: vec![primitive(4, IndexBufferType::U16(vec![0, 1, 2, 2, 1, 3]))],
            },
            Mesh {
                name: None,
                primitives: vec![
                    primitive(3, IndexBufferType::U32(vec![0, 1, 2])),
                    primitive(5, IndexBufferType::U16(vec![4, 3, 2, 1, 0, 1])),
                ],
            },
        ],
    }
}

#[test]
fn combine_concatenates_in_mesh_order() {
    let c = combine_primitives(&two_mesh_asset());
    assert_eq!(c.vertex_data.len(), 12 * VERTEX_STRIDE);
    assert_eq!(c.index_data, vec![0, 1, 2, 2, 1, 3, 0, 1, 2, 4, 3, 2, 1, 0, 1]);
    assert_eq!(c.primitive_vertex_count, vec![4, 3, 5]);
    assert_eq!(c.primitive_vertex_offset_in_combined_vertex_buffer, vec![0, 4, 7]);
    assert_eq!(c.primitive_index_count, vec![6, 3, 6]);
    assert_eq!(c.primitive_index_offset_in_combined_index_buffer, vec![0, 6, 9]);
    assert_eq!(c.primitive_parent_node_indices, vec![vec![1], vec![0, 2], vec![0, 2]]);
}

#[test]
fn combine_empty_asset() {
    let asset = GltfAssetData {
        path: String::new(),
        default_scene: None,
        scenes: vec![],
        nodes: vec![],
        meshes: vec![],
    };
    let c = combine_primitives(&asset);
    assert!(c.vertex_data.is_empty() && c.index_data.is_empty());
    assert!(c.primitive_vertex_count.is_empty());
}

fn combined_mesh() -> assets::Mesh {
    assets::Mesh {
        name: None,
        primitives: Primitives::FixedVertexFunctionCombined(combine_primitives(&two_mesh_asset())),
    }
}

#[test]
fn indirect_draw_per_primitive() {
    let draws = fvf_build_indirect_buffer(&vec![combined_mesh()]);
    assert_eq!(
        draws,
        vec![
            DrawIndexedIndirectCommand { index_count: 6, instance_count: 1, first_index: 0, vertex_offset: 0, first_instance: 0 },
            DrawIndexedIndirectCommand { index_count: 3, instance_count: 2, first_index: 6, vertex_offset: 4, first_instance: 0 },
            DrawIndexedIndirectCommand { index_count: 6, instance_count: 2, first_index: 9, vertex_offset: 7, first_instance: 0 },
        ]
    );
}

#[test]
fn meshlet_meshes_give_no_indexed_draws() {
    let meshes = vec![assets::Mesh { name: None, primitives: Primitives::Meshlets(vec![]) }];
    assert!(fvf_build_indirect_buffer(&meshes).is_empty());
}

#[test]
fn instance_data_follows_parent_nodes() {
    let mut addresses = HashMap::new();
    addresses.insert(0usize, 0xA0u64);
    addresses.insert(1usize, 0xB0u64);
    addresses.insert(2usize, 0xC0u64);
    let (offsets, instances) = fvf_build_instance_data(&addresses, &vec![combined_mesh()]);
    assert_eq!(offsets, vec![0, 1, 3]);
    let transforms: Vec<u64> = instances.iter().map(|i: &TraditionalInstance| i.transform).collect();
    assert_eq!(transforms, vec![0xB0, 0xA0, 0xC0, 0xA0, 0xC0]);
}

#[test]
fn combined_struct_is_plain_data() {
    let c = FVFCombinedPrimitives {
        vertex_data: vec![],
        index_data: vec![],
        primitive_vertex_count: vec![],
        primitive_vertex_offset_in_combined_vertex_buffer: vec![],
        primitive_index_count: vec![],
        primitive_index_offset_in_combined_index_buffer: vec![],
        primitive_parent_node_indices: vec![],
    };
    assert!(fvf_build_indirect_buffer(&vec![assets::Mesh { name: None, primitives: Primitives::FixedVertexFunctionCombined(c) }]).is_empty());
}
