use vstd::prelude::*;

pub mod asset;
pub mod assets;
pub mod bounding_sphere;
pub mod clusterize;
pub mod fps_window;
pub mod frame_times;
pub mod geometry;
pub mod gltf_loader;
pub mod gpu;
pub mod input;
pub mod meshlet_asset;
pub mod movement;
pub mod parser;
pub mod scene_nodes;
pub mod traditional_asset;

verus! {

} // verus!
