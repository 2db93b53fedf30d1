# grass_rs

The CPU side of a mesh-shader renderer for glTF scenes, written in Verus.

`src/` is the verified library:

- `asset`, `gltf_loader`: the in-memory model of a glTF asset, and reading a single-mesh
  document from its accessors and buffer bytes;
- `clusterize`, `meshlet_asset`, `parser`: splitting primitives into meshlets with `meshopt`,
  padding them to whole task groups, and gathering the meshlets of scene instances into
  global buffers with a per-asset mesh cache;
- `traditional_asset`, `scene_nodes`, `assets`: the combined vertex/index buffer path, its
  indirect draws and per-instance data, and the per-node transform buffers of a scene;
- `gpu`, `geometry`, `bounding_sphere`: task dispatch sizes, push constants, and the
  bounding-sphere overlay;
- `movement`, `input`, `fps_window`, `frame_times`: camera movement flags, what key events
  do, the frame-time window and frame timings.

`app/` is the program around it: reading files with `gltf`, the floating-point camera, and
meshlet bounds computed by `meshopt`. `tests/` exercises the library on concrete inputs.
