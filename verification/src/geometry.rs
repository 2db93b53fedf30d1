//! The GPU buffers of the global geometry and the push constants the meshlet passes read.
use crate::assets::BufferRef;
use crate::gpu::MeshletInstance;
use vstd::prelude::*;

verus! {

/// Every buffer of the global geometry, with the instance counts the passes dispatch over.
#[derive(Clone, Copy, Debug)]
pub struct GeometryBuffers {
    pub vertices: BufferRef,
    pub meshlet_vertices: BufferRef,
    pub meshlet_triangles: BufferRef,
    pub meshes: BufferRef,
    pub meshlets: BufferRef,
    pub mesh_instances: BufferRef,
    pub mesh_instances_count: u32,
    pub meshlet_instances: BufferRef,
    pub meshlet_instances_count: u32,
    pub visible_meshlets_instances: BufferRef,
    pub visible_meshlets_instances_count: BufferRef,
}

/// The device addresses and count the meshlet passes receive as push constants.
#[derive(Clone, Copy, Debug, PartialEq, Eq, Structural)]
pub struct PushConstants {
    pub view_camera: u64,
    pub vertices: u64,
    pub meshlet_vertices: u64,
    pub meshlet_triangles: u64,
    pub meshes: u64,
    pub meshlets: u64,
    pub mesh_instances: u64,
    pub meshlet_instances: u64,
    pub visible_meshlet_instances: u64,
    pub visible_meshlet_instances_count: u64,
    pub mesh_instances_count: u32,
}

/// The buffers the push constants point at were all created with a device address.
pub open spec fn addressable(g: GeometryBuffers) -> bool {
    &&& g.vertices.device_address is Some
    &&& g.meshlet_vertices.device_address is Some
    &&& g.meshlet_triangles.device_address is Some
    &&& g.meshes.device_address is Some
    &&& g.meshlets.device_address is Some
    &&& g.mesh_instances.device_address is Some
    &&& g.meshlet_instances.device_address is Some
}

impl GeometryBuffers {
    /// The push constants for a pass that reads the camera at `view_camera` and writes the
    /// visible meshlet instances and their count at the two given addresses.
    pub fn push_constants(
        &self,
        view_camera: u64,
        meshlet_instances_draws: u64,
        draws_count_buffer: u64,
    ) -> (pc: PushConstants)
        requires
            addressable(*self),
        ensures
            pc == (PushConstants {
                view_camera,
                vertices: self.vertices.device_address->Some_0,
                meshlet_vertices: self.meshlet_vertices.device_address->Some_0,
                meshlet_triangles: self.meshlet_triangles.device_address->Some_0,
                meshes: self.meshes.device_address->Some_0,
                meshlets: self.meshlets.device_address->Some_0,
                mesh_instances: self.mesh_instances.device_address->Some_0,
                meshlet_instances: self.meshlet_instances.device_address->Some_0,
                visible_meshlet_instances: meshlet_instances_draws,
                visible_meshlet_instances_count: draws_count_buffer,
                mesh_instances_count: self.mesh_instances_count,
            }),
    {
        PushConstants {
            view_camera,
            vertices: self.vertices.device_address.unwrap(),
            meshlet_vertices: self.meshlet_vertices.device_address.unwrap(),
            meshlet_triangles: self.meshlet_triangles.device_address.unwrap(),
            meshes: self.meshes.device_address.unwrap(),
            meshlets: self.meshlets.device_address.unwrap(),
            mesh_instances: self.mesh_instances.device_address.unwrap(),
            meshlet_instances: self.meshlet_instances.device_address.unwrap(),
            visible_meshlet_instances: meshlet_instances_draws,
            visible_meshlet_instances_count: draws_count_buffer,
            mesh_instances_count: self.mesh_instances_count,
        }
    }
}

/// The placeholder contents of the visible-instances buffer, one zeroed entry per meshlet
/// instance; the culling pass overwrites it every frame.
pub fn visible_instances_placeholder(meshlet_instances_len: usize) -> (v: Vec<MeshletInstance>)
    ensures
        v@.len() == meshlet_instances_len,
        forall|i: int|
            0 <= i < v@.len() ==> #[trigger] v@[i] == (MeshletInstance {
                mesh_instance_index: 0,
                meshlet_index: 0,
                lod_index: 0,
            }),
{
    let mut v: Vec<MeshletInstance> = Vec::new();
    let mut i: usize = 0;
    while i < meshlet_instances_len
        invariant
            i <= meshlet_instances_len,
            v@.len() == i,
            forall|k: int|
                0 <= k < v@.len() ==> #[trigger] v@[k] == (MeshletInstance {
                    mesh_instance_index: 0,
                    meshlet_index: 0,
                    lod_index: 0,
                }),
        decreases meshlet_instances_len - i,
    {
        v.push(MeshletInstance { mesh_instance_index: 0, meshlet_index: 0, lod_index: 0 });
        i = i + 1;
    }
    v
}

} // verus!
