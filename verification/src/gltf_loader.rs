//! Reading a single-mesh glTF document into an interleaved vertex buffer and an index
//! buffer.
//!
//! The document is described by plain values: its accessors, the buffer views they read,
//! and the attributes of every primitive. Vertex components are 32-bit floats kept as their
//! little-endian bit patterns.
use vstd::prelude::*;

verus! {

/// Component type of an accessor.
#[derive(Clone, Copy, Debug, PartialEq, Eq, Structural)]
pub enum DataType {
    I8,
    U8,
    I16,
    U16,
    U32,
    F32,
}

/// The stretch of a buffer an accessor reads.
#[derive(Clone, Copy, Debug, PartialEq, Eq, Structural)]
pub struct BufferViewInfo {
    pub buffer_index: usize,
    pub offset: usize,
    pub length: usize,
}

#[derive(Clone, Copy, Debug, PartialEq, Eq, Structural)]
pub struct AccessorInfo {
    pub index: usize,
    pub data_type: DataType,
    pub view: Option<BufferViewInfo>,
}

/// What a primitive attribute holds.
#[derive(Clone, Copy, Debug, PartialEq, Eq, Structural)]
pub enum Semantic {
    Positions,
    Normals,
    Tangents,
    Colors(u32),
    TexCoords(u32),
    Joints(u32),
    Weights(u32),
}

pub struct PrimitiveInfo {
    pub attributes: Vec<(Semantic, usize)>,
    pub indices: Option<usize>,
}

pub struct MeshInfo {
    pub primitives: Vec<PrimitiveInfo>,
}

pub struct Document {
    pub accessors: Vec<AccessorInfo>,
    pub meshes: Vec<MeshInfo>,
}

/// Position of the first accessor with index `i`, if any.
pub open spec fn first_accessor(accessors: Seq<AccessorInfo>, i: usize, k: int) -> Option<int>
    decreases accessors.len() - k,
{
    if k < 0 || k >= accessors.len() {
        None
    } else if accessors[k].index == i {
        Some(k)
    } else {
        first_accessor(accessors, i, k + 1)
    }
}

/// The first accessor with index `i`; meaningful only when there is one.
pub open spec fn accessor(doc: Document, i: usize) -> AccessorInfo {
    doc.accessors@[first_accessor(doc.accessors@, i, 0)->Some_0]
}

pub open spec fn has_accessor(doc: Document, i: usize) -> bool {
    first_accessor(doc.accessors@, i, 0) is Some
}

proof fn lemma_first_accessor(accessors: Seq<AccessorInfo>, i: usize, k: int)
    requires
        0 <= k <= accessors.len(),
    ensures
        first_accessor(accessors, i, k) matches Some(p) ==> k <= p < accessors.len()
            && accessors[p].index == i,
    decreases accessors.len() - k,
{
    if k < accessors.len() && accessors[k].index != i {
        lemma_first_accessor(accessors, i, k + 1);
    }
}

/// Finds the first accessor with index `accessor_index`.
fn find_accessor(document: &Document, accessor_index: usize) -> (a: &AccessorInfo)
    requires
        has_accessor(*document, accessor_index),
    ensures
        *a == accessor(*document, accessor_index),
{
    proof {
        lemma_first_accessor(document.accessors@, accessor_index, 0);
    }
    let mut k: usize = 0;
    while k < document.accessors.len()
        invariant
            k <= document.accessors@.len(),
            first_accessor(document.accessors@, accessor_index, k as int) == first_accessor(
                document.accessors@,
                accessor_index,
                0,
            ),
            first_accessor(document.accessors@, accessor_index, 0) is Some,
        decreases document.accessors@.len() - k,
    {
        if document.accessors[k].index == accessor_index {
            return &document.accessors[k];
        }
        k = k + 1;
    }
    &document.accessors[k]
}

/// The component type of the first accessor with index `accessor_index`.
pub fn get_data_type(document: &Document, accessor_index: usize) -> (t: DataType)
    requires
        has_accessor(*document, accessor_index),
    ensures
        t == accessor(*document, accessor_index).data_type,
{
    find_accessor(document, accessor_index).data_type
}

/// The accessor can be read: it exists, has a view, and the view lies within its buffer.
pub open spec fn readable(doc: Document, buffer_data: Seq<Vec<u8>>, i: usize) -> bool {
    &&& has_accessor(doc, i)
    &&& accessor(doc, i).view matches Some(v) && {
        &&& v.buffer_index < buffer_data.len()
        &&& v.offset + v.length <= buffer_data[v.buffer_index as int]@.len()
    }
}

/// The bytes the accessor's view covers.
pub open spec fn view_bytes(doc: Document, buffer_data: Seq<Vec<u8>>, i: usize) -> Seq<u8> {
    let v = accessor(doc, i).view->Some_0;
    buffer_data[v.buffer_index as int]@.subrange(v.offset as int, v.offset + v.length)
}

/// The little-endian 16-bit values of `bytes`; a trailing odd byte is ignored.
pub open spec fn le_u16s(bytes: Seq<u8>) -> Seq<u16> {
    Seq::new(bytes.len() / 2, |i: int| (bytes[2 * i] + 256 * bytes[2 * i + 1]) as u16)
}

/// The little-endian 32-bit values of `bytes`; up to three trailing bytes are ignored.
pub open spec fn le_u32s(bytes: Seq<u8>) -> Seq<u32> {
    Seq::new(
        bytes.len() / 4,
        |i: int|
            (bytes[4 * i] + 256 * bytes[4 * i + 1] + 65536 * bytes[4 * i + 2] + 16777216 * bytes[4
                * i + 3]) as u32,
    )
}

/// Copies out the bytes the view of the first accessor with index `accessor_index` covers.
pub fn accessor_bytes(document: &Document, buffer_data: &Vec<Vec<u8>>, accessor_index: usize) -> (out:
    Vec<u8>)
    requires
        readable(*document, buffer_data@, accessor_index),
    ensures
        out@ == view_bytes(*document, buffer_data@, accessor_index),
{
    let accessor = find_accessor(document, accessor_index);
    let buffer_view = match &accessor.view {
        Some(v) => v,
        None => {
            assert(false);
            return Vec::new();
        },
    };
    let buffer_index = buffer_view.buffer_index;
    let buffer_offset = buffer_view.offset;
    let buffer_size = buffer_view.length;
    let data = &buffer_data[buffer_index];
    assert(accessor.view == Some(*buffer_view));
    assert(buffer_offset + buffer_size <= data.len());
    let end = buffer_offset + buffer_size;
    let mut out: Vec<u8> = Vec::new();
    let mut i: usize = buffer_offset;
    while i < end
        invariant
            end == buffer_offset + buffer_size,
            buffer_offset <= i <= end,
            end <= data@.len(),
            out@ == data@.subrange(buffer_offset as int, i as int),
        decreases end - i,
    {
        out.push(data[i]);
        i = i + 1;
        assert(data@.subrange(buffer_offset as int, i as int) =~= data@.subrange(
            buffer_offset as int,
            i - 1,
        ).push(data@[i - 1]));
    }
    out
}

/// The 16-bit values the view of the first accessor with index `accessor_index` holds.
pub fn extract_u16_buffer(document: &Document, buffer_data: &Vec<Vec<u8>>, accessor_index: usize) -> (out:
    Vec<u16>)
    requires
        readable(*document, buffer_data@, accessor_index),
    ensures
        out@ == le_u16s(view_bytes(*document, buffer_data@, accessor_index)),
{
    let bytes = accessor_bytes(document, buffer_data, accessor_index);
    let ghost b = bytes@;
    let mut out: Vec<u16> = Vec::new();
    let mut i: usize = 0;
    while i < bytes.len() / 2
        invariant
            b == bytes@,
            i <= b.len() / 2,
            out@ == le_u16s(b).take(i as int),
        decreases b.len() / 2 - i,
    {
        let lo = bytes[2 * i] as u16;
        let hi = bytes[2 * i + 1] as u16;
        out.push(lo + 256 * hi);
        i = i + 1;
        assert(le_u16s(b).take(i as int) =~= le_u16s(b).take(i - 1).push(
            (b[2 * (i - 1)] + 256 * b[2 * (i - 1) + 1]) as u16,
        ));
    }
    assert(le_u16s(b).take(i as int) =~= le_u16s(b));
    out
}

/// The 32-bit words the view of the first accessor with index `accessor_index` holds.
pub fn extract_word_buffer(document: &Document, buffer_data: &Vec<Vec<u8>>, accessor_index: usize) -> (out:
    Vec<u32>)
    requires
        readable(*document, buffer_data@, accessor_index),
    ensures
        out@ == le_u32s(view_bytes(*document, buffer_data@, accessor_index)),
{
    let bytes = accessor_bytes(document, buffer_data, accessor_index);
    let ghost b = bytes@;
    let mut out: Vec<u32> = Vec::new();
    let mut i: usize = 0;
    while i < bytes.len() / 4
        invariant
            b == bytes@,
            i <= b.len() / 4,
            out@ == le_u32s(b).take(i as int),
        decreases b.len() / 4 - i,
    {
        let b0 = bytes[4 * i] as u32;
        let b1 = bytes[4 * i + 1] as u32;
        let b2 = bytes[4 * i + 2] as u32;
        let b3 = bytes[4 * i + 3] as u32;
        out.push(b0 + 256 * b1 + 65536 * b2 + 16777216 * b3);
        i = i + 1;
        assert(le_u32s(b).take(i as int) =~= le_u32s(b).take(i - 1).push(
            (b[4 * (i - 1)] + 256 * b[4 * (i - 1) + 1] + 65536 * b[4 * (i - 1) + 2] + 16777216 * b[4
                * (i - 1) + 3]) as u32,
        ));
    }
    assert(le_u32s(b).take(i as int) =~= le_u32s(b));
    out
}

/// Accessors of the vertex attributes and indices to load.
#[derive(Clone, Copy, Debug, PartialEq, Eq, Structural)]
pub struct SelectedAccessors {
    pub positions: Option<usize>,
    pub normals: Option<usize>,
    pub texture_coords: Option<usize>,
    pub indices: Option<usize>,
}

/// The attribute is one the loader handles.
pub open spec fn supported(s: Semantic) -> bool {
    s is Positions || s is Normals || s is TexCoords
}

/// Applies one attribute: a later attribute of the same kind replaces an earlier one.
pub open spec fn with_attribute(sel: SelectedAccessors, a: (Semantic, usize)) -> SelectedAccessors {
    match a.0 {
        Semantic::Positions => SelectedAccessors { positions: Some(a.1), ..sel },
        Semantic::Normals => SelectedAccessors { normals: Some(a.1), ..sel },
        Semantic::TexCoords(_) => SelectedAccessors { texture_coords: Some(a.1), ..sel },
        _ => sel,
    }
}

pub open spec fn with_attributes(sel: SelectedAccessors, attrs: Seq<(Semantic, usize)>) -> SelectedAccessors
    decreases attrs.len(),
{
    if attrs.len() == 0 {
        sel
    } else {
        with_attribute(with_attributes(sel, attrs.drop_last()), attrs.last())
    }
}

pub open spec fn with_primitive(sel: SelectedAccessors, p: PrimitiveInfo) -> SelectedAccessors {
    SelectedAccessors { indices: p.indices, ..with_attributes(sel, p.attributes@) }
}

pub open spec fn with_primitives(sel: SelectedAccessors, ps: Seq<PrimitiveInfo>) -> SelectedAccessors
    decreases ps.len(),
{
    if ps.len() == 0 {
        sel
    } else {
        with_primitive(with_primitives(sel, ps.drop_last()), ps.last())
    }
}

pub open spec fn with_meshes(sel: SelectedAccessors, ms: Seq<MeshInfo>) -> SelectedAccessors
    decreases ms.len(),
{
    if ms.len() == 0 {
        sel
    } else {
        with_primitives(with_meshes(sel, ms.drop_last()), ms.last().primitives@)
    }
}

pub open spec fn no_selection() -> SelectedAccessors {
    SelectedAccessors { positions: None, normals: None, texture_coords: None, indices: None }
}

/// Every primitive has indices and only attributes the loader handles.
pub open spec fn loadable_primitives(doc: Document) -> bool {
    forall|m: int, p: int|
        0 <= m < doc.meshes@.len() && 0 <= p < doc.meshes@[m].primitives@.len() ==> {
            let prim = #[trigger] doc.meshes@[m].primitives@[p];
            &&& prim.indices is Some
            &&& forall|a: int| 0 <= a < prim.attributes@.len() ==> supported(#[trigger] prim.attributes@[a].0)
        }
}

/// Walks all primitives of all meshes in order; for each kind of attribute and for the
/// indices, the last accessor seen is the one selected.
pub fn select_accessors(document: &Document) -> (sel: SelectedAccessors)
    requires
        loadable_primitives(*document),
    ensures
        sel == with_meshes(no_selection(), document.meshes@),
{
    let mut sel = SelectedAccessors { positions: None, normals: None, texture_coords: None, indices: None };
    let mut m: usize = 0;
    while m < document.meshes.len()
        invariant
            m <= document.meshes@.len(),
            loadable_primitives(*document),
            sel == with_meshes(no_selection(), document.meshes@.take(m as int)),
        decreases document.meshes@.len() - m,
    {
        let mesh = &document.meshes[m];
        let ghost start = sel;
        let mut p: usize = 0;
        while p < mesh.primitives.len()
            invariant
                p <= mesh.primitives@.len(),
                m < document.meshes@.len(),
                mesh == document.meshes@[m as int],
                loadable_primitives(*document),
                sel == with_primitives(start, mesh.primitives@.take(p as int)),
            decreases mesh.primitives@.len() - p,
        {
            let primitive = &mesh.primitives[p];
            let ghost before = sel;
            let mut a: usize = 0;
            while a < primitive.attributes.len()
                invariant
                    a <= primitive.attributes@.len(),
                    sel == with_attributes(before, primitive.attributes@.take(a as int)),
                decreases primitive.attributes@.len() - a,
            {
                let (semantic, accessor) = primitive.attributes[a];
                match semantic {
                    Semantic::Positions => {
                        sel.positions = Some(accessor);
                    },
                    Semantic::Normals => {
                        sel.normals = Some(accessor);
                    },
                    Semantic::TexCoords(_) => {
                        sel.texture_coords = Some(accessor);
                    },
                    _ => {},
                }
                a = a + 1;
                assert(primitive.attributes@.take(a as int).drop_last() =~= primitive.attributes@.take(a - 1));
            }
            assert(primitive.attributes@.take(a as int) =~= primitive.attributes@);
            assert(document.meshes@[m as int].primitives@[p as int] == *primitive);
            sel.indices = primitive.indices;
            p = p + 1;
            assert(mesh.primitives@.take(p as int).drop_last() =~= mesh.primitives@.take(p - 1));
        }
        assert(mesh.primitives@.take(p as int) =~= mesh.primitives@);
        m = m + 1;
        assert(document.meshes@.take(m as int).drop_last() =~= document.meshes@.take(m - 1));
    }
    assert(document.meshes@.take(m as int) =~= document.meshes@);
    sel
}

/// Interleaves `count` vertices: three position, three normal and two texture components
/// each.
pub open spec fn interleaved<T>(pos: Seq<T>, norm: Seq<T>, tx: Seq<T>, count: nat) -> Seq<T> {
    Seq::new(
        8 * count,
        |i: int|
            {
                let v = i / 8;
                let c = i % 8;
                if c < 3 {
                    pos[3 * v + c]
                } else if c < 6 {
                    norm[3 * v + c - 3]
                } else {
                    tx[2 * v + c - 6]
                }
            },
    )
}

/// Builds the interleaved vertex buffer from whole position, normal and texture triples
/// and pairs.
pub fn interleave<T: Copy>(pos: &Vec<T>, norm: &Vec<T>, tx: &Vec<T>) -> (out: Vec<T>)
    requires
        tx@.len() / 2 == pos@.len() / 3,
        pos@.len() / 3 == norm@.len() / 3,
    ensures
        out@ == interleaved(pos@, norm@, tx@, pos@.len() / 3),
{
    let count = pos.len() / 3;
    let ghost target = interleaved(pos@, norm@, tx@, count as nat);
    let mut out: Vec<T> = Vec::new();
    let mut v: usize = 0;
    while v < count
        invariant
            count == pos@.len() / 3,
            count == norm@.len() / 3,
            count == tx@.len() / 2,
            pos@.len() <= usize::MAX,
            v <= count,
            target == interleaved(pos@, norm@, tx@, count as nat),
            out@ == target.take(8 * v),
        decreases count - v,
    {
        assert(3 * v + 3 <= pos@.len() && 3 * v + 3 <= norm@.len() && 2 * v + 2 <= tx@.len())
            by (nonlinear_arith)
            requires
                v < count,
                count == pos@.len() / 3,
                count == norm@.len() / 3,
                count == tx@.len() / 2,
        ;
        out.push(pos[3 * v]);
        out.push(pos[3 * v + 1]);
        out.push(pos[3 * v + 2]);
        out.push(norm[3 * v]);
        out.push(norm[3 * v + 1]);
        out.push(norm[3 * v + 2]);
        out.push(tx[2 * v]);
        out.push(tx[2 * v + 1]);
        assert forall|i: int| 8 * v <= i < 8 * v + 8 implies #[trigger] target[i] == out@[i] by {
            assert(i / 8 == v);
        }
        v = v + 1;
        assert(out@ =~= target.take(8 * v));
    }
    assert(target.take(8 * count) =~= target);
    out
}

/// The selected accessors exist, are readable, have the component types the loader expects,
/// and give as many normals and texture coordinates as positions.
pub open spec fn loadable(doc: Document, buffer_data: Seq<Vec<u8>>) -> bool {
    let sel = with_meshes(no_selection(), doc.meshes@);
    &&& loadable_primitives(doc)
    &&& sel.positions is Some
    &&& sel.normals is Some
    &&& sel.texture_coords is Some
    &&& sel.indices is Some
    &&& has_accessor(doc, sel.positions->Some_0)
    &&& has_accessor(doc, sel.normals->Some_0)
    &&& has_accessor(doc, sel.texture_coords->Some_0)
    &&& has_accessor(doc, sel.indices->Some_0)
    &&& accessor(doc, sel.positions->Some_0).data_type == DataType::F32
    &&& accessor(doc, sel.indices->Some_0).data_type == DataType::U16
    &&& accessor(doc, sel.normals->Some_0).data_type == DataType::F32
    &&& accessor(doc, sel.texture_coords->Some_0).data_type == DataType::F32
    &&& readable(doc, buffer_data, sel.positions->Some_0)
    &&& readable(doc, buffer_data, sel.normals->Some_0)
    &&& readable(doc, buffer_data, sel.texture_coords->Some_0)
    &&& readable(doc, buffer_data, sel.indices->Some_0)
    &&& le_u32s(view_bytes(doc, buffer_data, sel.texture_coords->Some_0)).len() / 2
        == le_u32s(view_bytes(doc, buffer_data, sel.positions->Some_0)).len() / 3
    &&& le_u32s(view_bytes(doc, buffer_data, sel.positions->Some_0)).len() / 3
        == le_u32s(view_bytes(doc, buffer_data, sel.normals->Some_0)).len() / 3
}

/// The vertex buffer (as float bit patterns) and index buffer read from the document.
pub open spec fn loaded(doc: Document, buffer_data: Seq<Vec<u8>>) -> (Seq<u32>, Seq<u16>) {
    let sel = with_meshes(no_selection(), doc.meshes@);
    let pos = le_u32s(view_bytes(doc, buffer_data, sel.positions->Some_0));
    let norm = le_u32s(view_bytes(doc, buffer_data, sel.normals->Some_0));
    let tx = le_u32s(view_bytes(doc, buffer_data, sel.texture_coords->Some_0));
    (
        interleaved(pos, norm, tx, pos.len() / 3),
        le_u16s(view_bytes(doc, buffer_data, sel.indices->Some_0)),
    )
}

/// Reads the document's mesh: the last position, normal and texture accessors and the last
/// index accessor of all primitives; interleaves whole vertices into one buffer of float bit
/// patterns and returns it with the 16-bit indices.
pub fn load_document(document: &Document, buffer_data: &Vec<Vec<u8>>) -> (out: (Vec<u32>, Vec<u16>))
    requires
        loadable(*document, buffer_data@),
    ensures
        (out.0@, out.1@) == loaded(*document, buffer_data@),
{
    let sel = select_accessors(document);
    let position_accessor = sel.positions.unwrap();
    let normals_accessor = sel.normals.unwrap();
    let texture_coords_accessor = sel.texture_coords.unwrap();
    let indices_accessor = sel.indices.unwrap();

    let position_buffer = extract_word_buffer(document, buffer_data, position_accessor);
    let index_buffer = extract_u16_buffer(document, buffer_data, indices_accessor);
    let normals_buffer = extract_word_buffer(document, buffer_data, normals_accessor);
    let texture_coords_buffer = extract_word_buffer(document, buffer_data, texture_coords_accessor);

    let combined_buffer = interleave(&position_buffer, &normals_buffer, &texture_coords_buffer);
    (combined_buffer, index_buffer)
}

} // verus!
