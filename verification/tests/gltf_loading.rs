use grass_rs::gltf_loader::{
    extract_u16_buffer, extract_word_buffer, get_data_type, interleave, load_document,
    select_accessors, AccessorInfo, BufferViewInfo, DataType, Document, MeshInfo, PrimitiveInfo,
    SelectedAccessors, Semantic,
};

fn accessor(index: usize, data_type: DataType, buffer_index: usize, offset: usize, length: usize) -> AccessorInfo {
    AccessorInfo { index, data_type, view: Some(BufferViewInfo { buffer_index, offset, length }) }
}

fn floats(values: &[f32]) -> Vec<u8> {
    values.iter().flat_map(|v| v.to_le_bytes()).collect()
}

/// One triangle: positions, normals and texture coordinates in buffer 0, indices in
/// buffer 1.
fn triangle_document() -> (Document, Vec<Vec<u8>>) {
    let positions = floats(&[0.0, 0.0, 0.0, 1.0, 0.0, 0.0, 0.0, 1.0, 0.0]);
    let normals = floats(&[0.0, 0.0, 1.0, 0.0, 0.0, 1.0, 0.0, 0.0, 1.0]);
    let tex = floats(&[0.0, 0.0, 1.0, 0.0, 0.0, 1.0]);
    let mut buffer0 = Vec::new();
    buffer0.extend_from_slice(&positions);
    buffer0.extend_from_slice(&normals);
    buffer0.extend_from_slice(&tex);
    let buffer1: Vec<u8> = vec![0, 0, 1, 0, 2, 0];
    let document = Document {
        accessors: vec![
            accessor(0, DataType::F32, 0, 0, 36),
            accessor(1, DataType::F32, 0, 36, 36),
            accessor(2, DataType::F32, 0, 72, 24),
            accessor(3, DataType::U16, 1, 0, 6),
        ],
        meshes: vec![MeshInfo {
            primitives: vec![PrimitiveInfo {
                attributes: vec![
                    (Semantic::Positions, 0),
                    (Semantic::Normals, 1),
                    (Semantic::TexCoords(0), 2),
                ],
                indices: Some(3),
            }],
        }],
    };
    (document, vec![buffer0, buffer1])
}

#[test]
fn u16_buffer_is_little_endian() {
    let document = Document {
        accessors: vec![accessor(7, DataType::U16, 0, 2, 4)],
        meshes: vec![],
    };
    let data = vec![vec![9u8, 9, 1, 0, 2, 1, 9]];
    assert_eq!(extract_u16_buffer(&document, &data, 7), vec![1u16, 258]);
}

#[test]
fn u16_buffer_drops_odd_trailing_byte() {
    let document = Document { accessors: vec![accessor(0, DataType::U16, 0, 0, 3)], meshes: vec![] };
    let data = vec![vec![1u8, 0, 5]];
    assert_eq!(extract_u16_buffer(&document, &data, 0), vec![1u16]);
}

#[test]
fn word_buffer_holds_float_bits() {
    let document = Document { accessors: vec![accessor(0, DataType::F32, 0, 0, 8)], meshes: vec![] };
    let data = vec![floats(&[1.0, -2.5])];
    let words = extract_word_buffer(&document, &data, 0);
    assert_eq!(words, vec![1.0f32.to_bits(), (-2.5f32).to_bits()]);
    assert_eq!(f32::from_bits(words[1]), -2.5);
}

#[test]
fn data_type_of_first_matching_accessor() {
    let document = Document {
        accessors: vec![
            AccessorInfo { index: 4, data_type: DataType::U32, view: None },
            AccessorInfo { index: 4, data_type: DataType::F32, view: None },
            AccessorInfo { index: 5, data_type: DataType::I8, view: None },
        ],
        meshes: vec![],
    };
    assert_eq!(get_data_type(&document, 4), DataType::U32);
    assert_eq!(get_data_type(&document, 5), DataType::I8);
}

#[test]
fn last_accessor_of_each_kind_is_selected() {
    let prim = |p: usize, n: usize, t: usize, i: usize| PrimitiveInfo {
        attributes: vec![(Semantic::Positions, p), (Semantic::Normals, n), (Semantic::TexCoords(0), t)],
        indices: Some(i),
    };
    let document = Document {
        accessors: vec![],
        meshes: vec![
            MeshInfo { primitives: vec![prim(0, 1, 2, 3), prim(4, 5, 6, 7)] },
            MeshInfo { primitives: vec![PrimitiveInfo { attributes: vec![(Semantic::Normals, 9)], indices: Some(10) }] },
        ],
    };
    assert_eq!(
        select_accessors(&document),
        SelectedAccessors { positions: Some(4), normals: Some(9), texture_coords: Some(6), indices: Some(10) }
    );
}

#[test]
fn interleave_puts_vertices_side_by_side() {
    let pos = vec![1, 2, 3, 4, 5, 6];
    let norm = vec![7, 8, 9, 10, 11, 12];
    let tx = vec![13, 14, 15, 16];
    assert_eq!(
        interleave(&pos, &norm, &tx),
        vec![1, 2, 3, 7, 8, 9, 13, 14, 4, 5, 6, 10, 11, 12, 15, 16]
    );
}

#[test]
fn load_triangle_document() {
    let (document, data) = triangle_document();
    let (vertices, indices) = load_document(&document, &data);
    assert_eq!(indices, vec![0u16, 1, 2]);
    assert_eq!(vertices.len(), 24);
    let as_floats: Vec<f32> = vertices.iter().map(|w| f32::from_bits(*w)).collect();
    assert_eq!(
        as_floats,
        vec![
            0.0, 0.0, 0.0, 0.0, 0.0, 1.0, 0.0, 0.0, //
            1.0, 0.0, 0.0, 0.0, 0.0, 1.0, 1.0, 0.0, //
            0.0, 1.0, 0.0, 0.0, 0.0, 1.0, 0.0, 1.0,
        ]
    );
}
