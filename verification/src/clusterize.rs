//! Splitting an indexed triangle list into meshlets, done by the `meshopt` crate.
use vstd::prelude::*;

verus! {

/// The integer part of a meshlet: where its vertices and micro-triangles lie in the
/// meshlet vertex and triangle arrays.
#[derive(Clone, Copy, Debug, PartialEq, Eq, Structural)]
pub struct Meshlet {
    pub vertex_offset: u32,
    pub triangle_offset: u32,
    pub vertex_count: u32,
    pub triangle_count: u32,
}

/// The meshlets of one primitive together with the arrays they index.
pub struct MeshletBuild {
    pub meshlets: Vec<Meshlet>,
    pub vertices: Vec<u32>,
    pub triangles: Vec<u8>,
}

/// What `meshopt::build_meshlets` returns for the given indices, vertex bytes, vertex stride,
/// limits and cone weight (given as decimal text).
pub uninterp spec fn meshopt_meshlets(
    indices: Seq<u32>,
    vertex_data: Seq<u8>,
    vertex_stride: usize,
    max_vertices: usize,
    max_triangles: usize,
    cone_weight: Seq<char>,
) -> (Seq<Meshlet>, Seq<u32>, Seq<u8>);

/// Decimal text of a number between 0 and 1: `0`, `1`, or `0.` followed by digits.
pub open spec fn unit_decimal(s: Seq<char>) -> bool {
    ||| s == seq!['0']
    ||| s == seq!['1']
    ||| (s.len() >= 3 && s[0] == '0' && s[1] == '.' && forall|i: int|
        2 <= i < s.len() ==> '0' <= #[trigger] s[i] <= '9')
}

/// Each meshlet's ranges lie inside `vertices` and `triangles`, its micro-indices address
/// its own vertices, and it respects the size limits.
pub open spec fn meshlet_fits(
    m: Meshlet,
    vertices: Seq<u32>,
    triangles: Seq<u8>,
    max_vertices: int,
    max_triangles: int,
) -> bool {
    &&& m.vertex_offset + m.vertex_count <= vertices.len()
    &&& m.triangle_offset + 3 * m.triangle_count <= triangles.len()
    &&& 1 <= m.triangle_count <= max_triangles
    &&& m.vertex_count <= max_vertices
    &&& forall|t: int|
        m.triangle_offset <= t < m.triangle_offset + 3 * m.triangle_count ==> #[trigger] triangles[t]
            < m.vertex_count
}

/// The shape of a valid meshlet split of `index_len` indices over `vertex_count` vertices.
pub open spec fn meshlets_valid(
    built: (Seq<Meshlet>, Seq<u32>, Seq<u8>),
    index_len: int,
    vertex_count: int,
    max_vertices: int,
    max_triangles: int,
) -> bool {
    &&& forall|k: int|
        0 <= k < built.0.len() ==> meshlet_fits(
            #[trigger] built.0[k],
            built.1,
            built.2,
            max_vertices,
            max_triangles,
        )
    &&& forall|j: int| 0 <= j < built.1.len() ==> #[trigger] built.1[j] < vertex_count
    &&& built.0.len() <= index_len
    &&& built.1.len() <= index_len
    &&& built.2.len() <= index_len + 3
}

/// The conditions under which `meshopt::build_meshlets` runs without failing an assertion.
pub open spec fn build_meshlets_ok(
    indices: Seq<u32>,
    vertex_data: Seq<u8>,
    vertex_stride: usize,
    max_vertices: usize,
    max_triangles: usize,
    cone_weight: Seq<char>,
) -> bool {
    &&& 12 <= vertex_stride <= 256
    &&& vertex_stride % 4 == 0
    &&& vertex_data.len() % (vertex_stride as nat) == 0
    &&& indices.len() % 3 == 0
    &&& indices.len() <= u32::MAX
    &&& forall|i: int|
        0 <= i < indices.len() ==> #[trigger] indices[i] < vertex_data.len() / (
        vertex_stride as nat)
    &&& 3 <= max_vertices <= 256
    &&& 1 <= max_triangles <= 512
    &&& max_triangles % 4 == 0
    &&& unit_decimal(cone_weight)
}

/// Calls `meshopt::build_meshlets` on `vertex_data` read as vertices of `vertex_stride` bytes
/// with the position in the first twelve. Claims that the result is the named
/// `meshopt_meshlets` of the arguments and that, as the crate's source shows, every meshlet
/// lies within the returned arrays, has at least one and at most `max_triangles` triangles,
/// at most `max_vertices` vertices, micro-indices below its vertex count, every meshlet vertex
/// is an index of the input (so below the vertex count), and the output is no longer than
/// the input index count (plus the padding of the triangle array to four bytes).
/// The cone weight is passed as decimal text and parsed to the crate's float type.
#[verifier::external_body]
pub(crate) fn meshopt_build_meshlets(
    indices: &Vec<u32>,
    vertex_data: &Vec<u8>,
    vertex_stride: usize,
    max_vertices: usize,
    max_triangles: usize,
    cone_weight: &str,
) -> (out: MeshletBuild)
    requires
        build_meshlets_ok(
            indices@,
            vertex_data@,
            vertex_stride,
            max_vertices,
            max_triangles,
            cone_weight@,
        ),
    ensures
        (out.meshlets@, out.vertices@, out.triangles@) == meshopt_meshlets(
            indices@,
            vertex_data@,
            vertex_stride,
            max_vertices,
            max_triangles,
            cone_weight@,
        ),
        meshlets_valid(
            (out.meshlets@, out.vertices@, out.triangles@),
            indices@.len() as int,
            (vertex_data@.len() / (vertex_stride as nat)) as int,
            max_vertices as int,
            max_triangles as int,
        ),
{
    let adapter = meshopt::VertexDataAdapter::new(vertex_data, vertex_stride, 0).expect(
        "vertex data length is a multiple of the stride",
    );
    let built = meshopt::build_meshlets(indices, &adapter, max_vertices, max_triangles, cone_weight.parse().expect("decimal cone weight"));
    let meshlets = built.meshlets.iter().map(|m| Meshlet {
        vertex_offset: m.vertex_offset,
        triangle_offset: m.triangle_offset,
        vertex_count: m.vertex_count,
        triangle_count: m.triangle_count,
    }).collect();
    MeshletBuild { meshlets, vertices: built.vertices, triangles: built.triangles }
}

} // verus!
