//! The drawable form of a loaded asset: meshes whose primitives are either meshlet sets or
//! one combined vertex and index buffer.
use vstd::prelude::*;

verus! {

/// How an asset's meshes are drawn.
#[derive(Clone, Copy, Debug, PartialEq, Eq, Structural)]
pub enum DrawMode {
    Meshlet,
    Traditional,
}

/// A GPU buffer as the draw code sees it: its handle and, when it was created with one,
/// its device address.
#[derive(Clone, Copy, Debug, PartialEq, Eq, Structural)]
pub struct BufferRef {
    pub handle: u64,
    pub device_address: Option<u64>,
}

/// The buffers of one meshlet-built primitive.
pub struct Meshlet {
    pub meshlet_buffer: BufferRef,
    pub vertex_buffer: BufferRef,
    pub meshlet_vertices: BufferRef,
    pub triangle_buffer: BufferRef,
    pub meshlet_bounds_buffer: BufferRef,
    pub meshlets_count: u32,
    pub bounds_count: u32,
}

/// All primitives of an asset packed into one vertex and one index buffer, with where each
/// primitive lies in them and which nodes draw it.
pub struct FVFCombinedPrimitives {
    pub vertex_data: Vec<u8>,
    pub index_data: Vec<u32>,
    pub primitive_vertex_count: Vec<u32>,
    pub primitive_vertex_offset_in_combined_vertex_buffer: Vec<u32>,
    pub primitive_index_count: Vec<u32>,
    pub primitive_index_offset_in_combined_index_buffer: Vec<u32>,
    pub primitive_parent_node_indices: Vec<Vec<usize>>,
}

/// One indexed indirect draw, laid out as the GPU reads it.
#[derive(Clone, Copy, Debug, PartialEq, Eq, Structural)]
pub struct DrawIndexedIndirectCommand {
    pub index_count: u32,
    pub instance_count: u32,
    pub first_index: u32,
    pub vertex_offset: i32,
    pub first_instance: u32,
}

/// One indirect mesh-task dispatch, laid out as the GPU reads it.
#[derive(Clone, Copy, Debug, PartialEq, Eq, Structural)]
pub struct DrawMeshTasksIndirectCommand {
    pub group_count_x: u32,
    pub group_count_y: u32,
    pub group_count_z: u32,
}

/// Per-instance data of the combined draw: the address of the instance's transform.
#[derive(Clone, Copy, Debug, PartialEq, Eq, Structural)]
pub struct TraditionalInstance {
    pub transform: u64,
}

pub enum Primitives {
    Meshlets(Vec<Meshlet>),
    FixedVertexFunctionCombined(FVFCombinedPrimitives),
}

pub struct Mesh {
    pub name: Option<String>,
    pub primitives: Primitives,
}

} // verus!
