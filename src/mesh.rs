//! Geometry store: GPU mesh records, the growth policy of the vertex and index
//! buffers, mesh uploads through a staging buffer, and the handle registry.

use crate::device::BufferInfo;
use crate::pool::RangePool;
use std::ops::Range;
use vstd::prelude::*;
use vstd::math::min;

verus! {

/// Bytes per index: indices are `u32`.
pub const INDEX_SIZE: u64 = 4;

/// Alignment mask of the vertex buffer.
pub const VERTEX_ALIGN_MASK: u64 = 0b1111;

/// Alignment mask of the index buffer.
pub const INDEX_ALIGN_MASK: u64 = 0b11;

/// Bytes of vertex storage a new manager starts with.
pub const INITIAL_VERTICES_CAPACITY: u64 = 65536;

/// Indices a new manager starts with room for.
pub const INITIAL_INDEX_COUNT: u64 = 65536;

/// The kind of one vertex attribute stream.
#[derive(Clone, Copy, Debug, PartialEq, Eq, Structural)]
pub enum VertexAttributeKind {
    Position,
    Normal,
    Tangent,
    UV0,
}

/// The raw bytes of one vertex attribute stream.
pub struct AttributeData {
    pub kind: VertexAttributeKind,
    pub data: Vec<u8>,
}

impl AttributeData {
    pub fn kind(&self) -> (r: VertexAttributeKind)
        ensures
            r == self.kind,
    {
        self.kind
    }

    pub fn byte_len(&self) -> (r: usize)
        ensures
            r == self.data@.len(),
    {
        self.data.len()
    }
}

/// A mesh on the host: its vertex count, attribute streams and `u32` indices.
pub struct Mesh {
    pub vertex_count: u32,
    pub attribute_data: Vec<AttributeData>,
    pub indices: Vec<u32>,
}

/// An opaque handle naming a registry slot.
#[derive(Clone, Copy, Debug, PartialEq, Eq, Structural)]
pub struct MeshHandle {
    index: usize,
}

impl MeshHandle {
    /// The registry slot the handle names.
    pub closed spec fn slot(&self) -> usize {
        self.index
    }

    pub fn new(index: usize) -> (r: MeshHandle)
        ensures
            r.slot() == index,
    {
        MeshHandle { index }
    }

    pub fn index(&self) -> (r: usize)
        ensures
            r == self.slot(),
    {
        self.index
    }
}

/// Where an uploaded mesh lives: a range of the vertex buffer (in bytes) for
/// each attribute stream, and a range of the index buffer (in indices).
pub struct GpuMesh {
    pub vertex_count: u32,
    pub vertex_attribute_ranges: Vec<(VertexAttributeKind, Range<u64>)>,
    pub indices_range: Range<u64>,
}

/// Position of the first attribute of `kind` in `ranges`, if any.
pub open spec fn first_of_kind(ranges: Seq<(VertexAttributeKind, Range<u64>)>, kind: VertexAttributeKind, i: int) -> bool {
    &&& 0 <= i < ranges.len()
    &&& ranges[i].0 == kind
    &&& forall|j: int| 0 <= j < i ==> (#[trigger] ranges[j]).0 != kind
}

impl GpuMesh {
    /// The record of a mesh with nothing to draw.
    pub fn new_empty() -> (r: GpuMesh)
        ensures
            r.vertex_count == 0,
            r.vertex_attribute_ranges@.len() == 0,
            r.indices_range == (Range { start: 0u64, end: 0u64 }),
    {
        GpuMesh { vertex_count: 0, vertex_attribute_ranges: Vec::new(), indices_range: 0..0 }
    }

    /// The attribute kinds, in stream order.
    pub fn attributes(&self) -> (r: Vec<VertexAttributeKind>)
        ensures
            r@.len() == self.vertex_attribute_ranges@.len(),
            forall|i: int| 0 <= i < r@.len() ==> r@[i] == (#[trigger] self.vertex_attribute_ranges@[i]).0,
    {
        let mut r: Vec<VertexAttributeKind> = Vec::new();
        let mut i: usize = 0;
        while i < self.vertex_attribute_ranges.len()
            invariant
                i <= self.vertex_attribute_ranges@.len(),
                r@.len() == i,
                forall|j: int| 0 <= j < i ==> r@[j] == (#[trigger] self.vertex_attribute_ranges@[j]).0,
            decreases self.vertex_attribute_ranges@.len() - i,
        {
            r.push(self.vertex_attribute_ranges[i].0);
            i += 1;
        }
        r
    }

    /// The range of the first stream of `component`, if the mesh has one.
    pub fn get_attribute_range(&self, component: VertexAttributeKind) -> (r: Option<Range<u64>>)
        ensures
            match r {
                Some(range) => exists|i: int|
                    first_of_kind(self.vertex_attribute_ranges@, component, i)
                        && range == self.vertex_attribute_ranges@[i].1,
                None => forall|i: int|
                    0 <= i < self.vertex_attribute_ranges@.len()
                        ==> (#[trigger] self.vertex_attribute_ranges@[i]).0 != component,
            },
    {
        let mut i: usize = 0;
        while i < self.vertex_attribute_ranges.len()
            invariant
                i <= self.vertex_attribute_ranges@.len(),
                forall|j: int| 0 <= j < i ==> (#[trigger] self.vertex_attribute_ranges@[j]).0 != component,
            decreases self.vertex_attribute_ranges@.len() - i,
        {
            let entry = &self.vertex_attribute_ranges[i];
            if entry.0 == component {
                proof {
                    assert(first_of_kind(self.vertex_attribute_ranges@, component, i as int));
                }
                return Some(entry.1.start..entry.1.end);
            }
            i += 1;
        }
        None
    }

    /// The range of the index buffer holding the mesh's indices.
    pub fn indices(&self) -> (r: Range<u64>)
        ensures
            r == self.indices_range,
    {
        self.indices_range.start..self.indices_range.end
    }
}

/// What can go wrong while placing geometry.
#[derive(Clone, Copy, Debug, PartialEq, Eq, Structural)]
pub enum MeshError {
    /// The grown vertex buffer size does not fit in 64 bits.
    TooManyVertices,
    /// The grown index buffer size does not fit in 64 bits.
    TooManyIndices,
    /// The vertex buffer cannot grow past the device's largest storage buffer.
    VertexBufferLimit { max: u64 },
    /// The index buffer cannot grow past the device's largest storage buffer.
    IndexBufferLimit { max: u64 },
    /// The grown index buffer would not hold a whole number of indices.
    UnalignedIndexBuffer { size: u64 },
    /// An attribute stream of the mesh holds no bytes.
    EmptyAttribute,
    /// The mesh's data does not fit in one staging buffer.
    MeshTooLarge,
    /// The handle names no registered mesh.
    NotRegistered,
    /// A range of the removed mesh was not lent by this manager.
    RangeNotLent,
}

/// `p` doubled until it reaches `n`.
pub open spec fn double_until(n: nat, p: nat) -> nat
    decreases (if p < n { n - p } else { 0 }),
{
    if p == 0 || p >= n {
        p
    } else {
        double_until(n, 2 * p)
    }
}

/// The smallest power of two that is at least `n`.
pub open spec fn next_power_of_two(n: nat) -> nat {
    double_until(n, 1)
}

proof fn lemma_double_until_reaches(n: nat, p: nat)
    requires
        p >= 1,
    ensures
        double_until(n, p) >= n,
    decreases (if p < n { n - p } else { 0 }),
{
    if p < n {
        lemma_double_until_reaches(n, 2 * p);
    }
}

/// A planned growth makes room for the whole request: the grown vertex buffer
/// holds the current bytes plus the additional ones, and the grown index
/// buffer the current indices plus the additional ones.
pub proof fn lemma_growth_makes_room(vertex_bytes: nat, index_count: nat, more_vertex_bytes: nat, more_indices: nat, max: u64)
    requires
        growth_plan(vertex_bytes, index_count, more_vertex_bytes, more_indices, max) is Ok,
    ensures
        ({
            let g = growth_plan(vertex_bytes, index_count, more_vertex_bytes, more_indices, max)->Ok_0;
            &&& more_vertex_bytes > 0 ==> g.vertices is Some && g.vertices->Some_0.new_size >= vertex_bytes + more_vertex_bytes
            &&& more_indices > 0 ==> g.indices is Some && g.indices->Some_0.new_size / INDEX_SIZE >= index_count + more_indices
        }),
{
    let vneeded = vertex_bytes + more_vertex_bytes;
    lemma_double_until_reaches(vneeded, 1);
    let ineeded = index_bytes(index_count) + index_bytes(more_indices);
    lemma_double_until_reaches(ineeded, 1);
    if more_indices > 0 {
        let size = target_size(ineeded, max as nat);
        assert(size >= ineeded);
        assert(index_bytes(index_count) == index_count * 4);
        assert(index_bytes(more_indices) == more_indices * 4);
        assert(size % 4 == 0);
        assert(size / 4 >= index_count + more_indices) by (nonlinear_arith)
            requires
                size >= index_count * 4 + more_indices * 4,
                size % 4 == 0,
        ;
    }
}

proof fn lemma_double_until_ge(n: nat, p: nat)
    ensures
        double_until(n, p) >= p,
    decreases (if p < n { n - p } else { 0 }),
{
    if p != 0 && p < n {
        lemma_double_until_ge(n, 2 * p);
    }
}

/// `next_power_of_two(n)`, or `None` where it does not fit in a `u64`.
fn checked_next_power_of_two(n: u64) -> (r: Option<u64>)
    ensures
        r == (if next_power_of_two(n as nat) <= u64::MAX {
            Some(next_power_of_two(n as nat) as u64)
        } else {
            None
        }),
{
    let mut p: u64 = 1;
    while p < n
        invariant
            1 <= p,
            double_until(n as nat, p as nat) == next_power_of_two(n as nat),
        decreases (if p < n { n - p } else { 0 }),
    {
        if p > u64::MAX / 2 {
            proof {
                lemma_double_until_ge(n as nat, 2 * p as nat);
            }
            return None;
        }
        p = p * 2;
    }
    Some(p)
}

/// The size a buffer grows to so that `needed` bytes fit: the next power of
/// two, capped at `max`.
pub open spec fn target_size(needed: nat, max: nat) -> nat {
    min(next_power_of_two(needed) as int, max as int) as nat
}

/// `4 * n`, saturating at `u64::MAX`.
pub open spec fn index_bytes(n: nat) -> nat {
    if n * INDEX_SIZE > u64::MAX {
        u64::MAX as nat
    } else {
        (n * INDEX_SIZE) as nat
    }
}

/// A buffer that is replaced by a larger one: the first `old_size` bytes are
/// copied over.
#[derive(Clone, Copy, Debug, PartialEq, Eq, Structural)]
pub struct BufferGrowth {
    pub old_size: u64,
    pub new_size: u64,
}

/// The buffers that must grow before an allocation can be retried.
#[derive(Clone, Copy, Debug, PartialEq, Eq, Structural)]
pub struct Growth {
    pub vertices: Option<BufferGrowth>,
    pub indices: Option<BufferGrowth>,
}

/// How the vertex buffer of `current` bytes grows for `additional` more
/// bytes; it fails where even a buffer of `max` bytes could not hold them.
pub open spec fn vertex_growth(current: nat, additional: nat, max: u64) -> Result<Option<BufferGrowth>, MeshError> {
    if additional == 0 {
        Ok(None)
    } else if current + additional > u64::MAX {
        Err(MeshError::TooManyVertices)
    } else if current + additional > max {
        Err(MeshError::VertexBufferLimit { max })
    } else {
        Ok(Some(BufferGrowth { old_size: current as u64, new_size: target_size(current + additional, max as nat) as u64 }))
    }
}

/// How the index buffer holding `count` indices grows for `additional` more;
/// it fails where even a buffer of `max` bytes could not hold them, or where
/// the grown size is not a whole number of indices.
pub open spec fn index_growth(count: nat, additional: nat, max: u64) -> Result<Option<BufferGrowth>, MeshError> {
    let current = index_bytes(count);
    let needed = current + index_bytes(additional);
    if additional == 0 {
        Ok(None)
    } else if needed > u64::MAX {
        Err(MeshError::TooManyIndices)
    } else if needed > max {
        Err(MeshError::IndexBufferLimit { max })
    } else if target_size(needed, max as nat) % INDEX_SIZE as nat != 0 {
        Err(MeshError::UnalignedIndexBuffer { size: target_size(needed, max as nat) as u64 })
    } else {
        Ok(Some(BufferGrowth { old_size: current as u64, new_size: target_size(needed, max as nat) as u64 }))
    }
}

/// The growth of both buffers, the vertex buffer decided first.
pub open spec fn growth_plan(vertex_bytes: nat, index_count: nat, more_vertex_bytes: nat, more_indices: nat, max: u64) -> Result<Growth, MeshError> {
    match vertex_growth(vertex_bytes, more_vertex_bytes, max) {
        Err(e) => Err(e),
        Ok(v) => match index_growth(index_count, more_indices, max) {
            Err(e) => Err(e),
            Ok(i) => Ok(Growth { vertices: v, indices: i }),
        },
    }
}

fn saturating_index_bytes(n: u64) -> (r: u64)
    ensures
        r == index_bytes(n as nat),
{
    if n > u64::MAX / INDEX_SIZE {
        u64::MAX
    } else {
        n * INDEX_SIZE
    }
}

fn grow_target(needed: u64, max: u64) -> (r: u64)
    requires
        needed <= max,
    ensures
        r == target_size(needed as nat, max as nat),
{
    match checked_next_power_of_two(needed) {
        None => max,
        Some(p) => if p < max { p } else { max },
    }
}

fn plan_vertex_growth(current: u64, additional: u64, max: u64) -> (r: Result<Option<BufferGrowth>, MeshError>)
    ensures
        r == vertex_growth(current as nat, additional as nat, max),
{
    if additional == 0 {
        return Ok(None);
    }
    if current > u64::MAX - additional {
        return Err(MeshError::TooManyVertices);
    }
    let needed = current + additional;
    if needed > max {
        return Err(MeshError::VertexBufferLimit { max });
    }
    Ok(Some(BufferGrowth { old_size: current, new_size: grow_target(needed, max) }))
}

fn plan_index_growth(count: u64, additional: u64, max: u64) -> (r: Result<Option<BufferGrowth>, MeshError>)
    ensures
        r == index_growth(count as nat, additional as nat, max),
{
    let current = saturating_index_bytes(count);
    if additional == 0 {
        return Ok(None);
    }
    let extra = saturating_index_bytes(additional);
    if current > u64::MAX - extra {
        return Err(MeshError::TooManyIndices);
    }
    let needed = current + extra;
    if needed > max {
        return Err(MeshError::IndexBufferLimit { max });
    }
    let size = grow_target(needed, max);
    if size % INDEX_SIZE != 0 {
        Err(MeshError::UnalignedIndexBuffer { size })
    } else {
        Ok(Some(BufferGrowth { old_size: current, new_size: size }))
    }
}

/// Largest staging buffer an upload may ask for, in bytes.
pub const MAX_UPLOAD_BYTES: u64 = u64::MAX / 2;

/// A copy between two buffers.
#[derive(Clone, Copy, Debug, PartialEq, Eq, Structural)]
pub struct BufferCopy {
    pub src_offset: u64,
    pub dst_offset: u64,
    pub size: u64,
}

/// The streams of a mesh as `(kind, byte length)`.
pub open spec fn mesh_streams(mesh: &Mesh) -> Seq<(VertexAttributeKind, u64)> {
    mesh.attribute_data@.map_values(|a: AttributeData| (a.kind, a.data@.len() as u64))
}

/// Where stream `k` starts in the staging buffer: the bytes of the streams before it.
pub open spec fn stream_offset(streams: Seq<(VertexAttributeKind, u64)>, k: int) -> nat
    decreases k,
{
    if k <= 0 {
        0
    } else {
        (stream_offset(streams, k - 1) + streams[k - 1].1) as nat
    }
}

/// Bytes of staging memory a mesh needs: all its streams, then its indices.
pub open spec fn staging_bytes(mesh: &Mesh) -> nat {
    (stream_offset(mesh_streams(mesh), mesh.attribute_data@.len() as int) + mesh.indices@.len() * INDEX_SIZE) as nat
}

pub open spec fn as_pair(r: Range<u64>) -> (u64, u64) {
    (r.start, r.end)
}

proof fn lemma_stream_offset_mono(streams: Seq<(VertexAttributeKind, u64)>, j: int, k: int)
    requires
        0 <= j <= k,
    ensures
        stream_offset(streams, j) <= stream_offset(streams, k),
    decreases k - j,
{
    if j < k {
        lemma_stream_offset_mono(streams, j, k - 1);
    }
}

/// A mesh upload in progress: the streams still to place, and what was placed.
pub struct Upload {
    streams: Vec<(VertexAttributeKind, u64)>,
    index_count: u64,
    vertex_count: u32,
    staging_size: u64,
    placed: Vec<(VertexAttributeKind, Range<u64>)>,
    copies: Vec<BufferCopy>,
    staging_offset: u64,
}

impl Upload {
    pub closed spec fn streams(&self) -> Seq<(VertexAttributeKind, u64)> {
        self.streams@
    }

    pub closed spec fn index_count(&self) -> u64 {
        self.index_count
    }

    pub closed spec fn vertex_count(&self) -> u32 {
        self.vertex_count
    }

    pub closed spec fn staging(&self) -> u64 {
        self.staging_size
    }

    /// The streams placed so far, with their ranges in the vertex buffer.
    pub closed spec fn placed(&self) -> Seq<(VertexAttributeKind, Range<u64>)> {
        self.placed@
    }

    /// The staging-to-vertex-buffer copies of the placed streams.
    pub closed spec fn copies(&self) -> Seq<BufferCopy> {
        self.copies@
    }

    pub closed spec fn wf(&self) -> bool {
        &&& self.index_count > 0
        &&& forall|k: int| 0 <= k < self.streams@.len() ==> (#[trigger] self.streams@[k]).1 > 0
        &&& self.staging_size == stream_offset(self.streams@, self.streams@.len() as int)
            + self.index_count * INDEX_SIZE
        &&& self.staging_size <= MAX_UPLOAD_BYTES
        &&& self.placed@.len() == self.copies@.len() <= self.streams@.len()
        &&& self.staging_offset == stream_offset(self.streams@, self.placed@.len() as int)
        &&& forall|k: int| 0 <= k < self.placed@.len() ==> placed_as(self.streams@, self.placed@, self.copies@, k)
    }

    /// Bytes of staging memory the upload needs.
    pub fn staging_size(&self) -> (r: u64)
        ensures
            r == self.staging(),
    {
        self.staging_size
    }
}

/// Stream `k` sits at `placed[k]`, and `copies[k]` moves it there from the staging buffer.
pub open spec fn placed_as(
    streams: Seq<(VertexAttributeKind, u64)>,
    placed: Seq<(VertexAttributeKind, Range<u64>)>,
    copies: Seq<BufferCopy>,
    k: int,
) -> bool {
    &&& placed[k].0 == streams[k].0
    &&& placed[k].1.end - placed[k].1.start == streams[k].1
    &&& copies[k] == BufferCopy {
        src_offset: stream_offset(streams, k) as u64,
        dst_offset: placed[k].1.start,
        size: streams[k].1,
    }
}

/// What an upload leaves for the caller to do: fill the staging buffer (the
/// streams back to back, then the indices), then record the copies.
pub struct UploadedMesh {
    pub mesh: GpuMesh,
    pub staging_size: u64,
    pub vertex_copies: Vec<BufferCopy>,
    pub index_copy: BufferCopy,
}

/// The outcome of one step of an upload.
pub enum UploadStep {
    /// One more stream was placed; step again.
    Placed(Upload),
    /// Nothing fits until the buffers grow as described; grow them, apply the
    /// growth, and step again.
    Grow(Upload, Growth),
    /// Everything is placed.
    Done(UploadedMesh),
}

/// The two growable buffers' allocators and the registry of uploaded meshes.
pub struct MeshManager {
    vertices: RangePool,
    indices: RangePool,
    registry: Vec<Option<GpuMesh>>,
}

impl MeshManager {
    /// The allocator of the vertex buffer, in bytes.
    pub closed spec fn vertex_pool(&self) -> RangePool {
        self.vertices
    }

    /// The allocator of the index buffer, in indices.
    pub closed spec fn index_pool(&self) -> RangePool {
        self.indices
    }

    /// The registry's slots.
    pub closed spec fn slots(&self) -> Seq<Option<GpuMesh>> {
        self.registry@
    }

    pub open spec fn wf(&self) -> bool {
        &&& self.vertex_pool().wf()
        &&& self.index_pool().wf()
        &&& self.vertex_pool().span().0 == 0
        &&& self.index_pool().span().0 == 0
        &&& self.index_pool().span().1 <= u64::MAX / INDEX_SIZE
    }

    /// Bytes the vertex buffer holds now.
    pub open spec fn vertex_capacity(&self) -> u64 {
        self.vertex_pool().span().1
    }

    /// Indices the index buffer holds now.
    pub open spec fn index_capacity(&self) -> u64 {
        self.index_pool().span().1
    }

    /// A manager with the initial capacities and nothing registered.
    pub fn new() -> (r: MeshManager)
        ensures
            r.wf(),
            r.vertex_capacity() == INITIAL_VERTICES_CAPACITY,
            r.index_capacity() == INITIAL_INDEX_COUNT,
            r.vertex_pool().lent().len() == 0,
            r.index_pool().lent().len() == 0,
            r.slots().len() == 0,
    {
        MeshManager {
            vertices: RangePool::new(0, INITIAL_VERTICES_CAPACITY),
            indices: RangePool::new(0, INITIAL_INDEX_COUNT),
            registry: Vec::new(),
        }
    }

    /// Bytes the vertex buffer must hold now.
    pub fn vertices_size(&self) -> (r: u64)
        ensures
            r == self.vertex_capacity(),
    {
        self.vertices.span_range().1
    }

    /// Bytes the index buffer must hold now.
    pub fn indices_size(&self) -> (r: u64)
        requires
            self.wf(),
        ensures
            r == index_bytes(self.index_capacity() as nat),
    {
        saturating_index_bytes(self.indices.span_range().1)
    }

    /// How the buffers must grow so that `additional_vertices_capacity` more
    /// bytes of vertices and `additional_index_count` more indices fit, with
    /// no buffer larger than `max_buffer_size` bytes.
    pub fn realloc(&self, additional_vertices_capacity: u64, additional_index_count: u64, max_buffer_size: u64) -> (r: Result<Growth, MeshError>)
        ensures
            r == growth_plan(
                self.vertex_capacity() as nat,
                self.index_capacity() as nat,
                additional_vertices_capacity as nat,
                additional_index_count as nat,
                max_buffer_size,
            ),
    {
        let v = plan_vertex_growth(self.vertices.span_range().1, additional_vertices_capacity, max_buffer_size);
        match v {
            Err(e) => Err(e),
            Ok(vertices) => {
                match plan_index_growth(self.indices.span_range().1, additional_index_count, max_buffer_size) {
                    Err(e) => Err(e),
                    Ok(indices) => Ok(Growth { vertices, indices }),
                }
            },
        }
    }

    /// Extends the allocators to buffers grown as `growth` says; a size that
    /// would not enlarge a buffer is ignored. Lent ranges keep their offsets.
    pub fn apply_growth(&mut self, growth: &Growth)
        requires
            old(self).wf(),
        ensures
            final(self).wf(),
            final(self).vertex_capacity() == (match growth.vertices {
                Some(g) => if g.new_size > old(self).vertex_capacity() { g.new_size } else { old(self).vertex_capacity() },
                None => old(self).vertex_capacity(),
            }),
            final(self).index_capacity() == (match growth.indices {
                Some(g) => if g.new_size / INDEX_SIZE > old(self).index_capacity() { g.new_size / INDEX_SIZE } else { old(self).index_capacity() },
                None => old(self).index_capacity(),
            }),
            final(self).vertex_pool().lent() == old(self).vertex_pool().lent(),
            final(self).index_pool().lent() == old(self).index_pool().lent(),
            final(self).slots() == old(self).slots(),
    {
        if let Some(g) = growth.vertices {
            if g.new_size > self.vertices.span_range().1 {
                self.vertices.grow_to(g.new_size);
            }
        }
        if let Some(g) = growth.indices {
            let count = g.new_size / INDEX_SIZE;
            if count > self.indices.span_range().1 {
                self.indices.grow_to(count);
            }
        }
    }
}

/// Every stream of the upload, and its index list, holds something.
pub open spec fn nonempty_streams(u: &Upload) -> bool {
    &&& u.index_count() > 0
    &&& forall|k: int| 0 <= k < u.streams().len() ==> (#[trigger] u.streams()[k]).1 > 0
}

/// `a` and `b` upload the same mesh.
pub open spec fn same_request(a: &Upload, b: &Upload) -> bool {
    &&& a.streams() == b.streams()
    &&& a.index_count() == b.index_count()
    &&& a.vertex_count() == b.vertex_count()
    &&& a.staging() == b.staging()
}

/// No free range of `pool` holds `len` units.
pub open spec fn no_fit(pool: RangePool, len: u64) -> bool {
    forall|i: int| 0 <= i < pool.free().len() ==> #[trigger] pool.free()[i].1 - pool.free()[i].0 < len
}

impl MeshManager {
    /// Starts uploading `mesh`. A mesh without vertices or without indices
    /// needs no upload (`Ok(None)`): its record is `GpuMesh::new_empty()`.
    pub fn upload_mesh(&self, mesh: &Mesh) -> (r: Result<Option<Upload>, MeshError>)
        ensures
            mesh.vertex_count == 0 || mesh.indices@.len() == 0 ==> r == Ok::<Option<Upload>, MeshError>(None),
            mesh.vertex_count != 0 && mesh.indices@.len() != 0 ==> {
                let empty = exists|k: int| 0 <= k < mesh.attribute_data@.len() && (#[trigger] mesh.attribute_data@[k]).data@.len() == 0;
                match r {
                    Err(e) => (e == MeshError::EmptyAttribute && empty)
                        || (e == MeshError::MeshTooLarge && !empty && staging_bytes(mesh) > MAX_UPLOAD_BYTES),
                    Ok(None) => false,
                    Ok(Some(u)) => {
                        &&& !empty
                        &&& staging_bytes(mesh) <= MAX_UPLOAD_BYTES
                        &&& u.wf()
                        &&& nonempty_streams(&u)
                        &&& u.streams() == mesh_streams(mesh)
                        &&& u.index_count() == mesh.indices@.len()
                        &&& u.vertex_count() == mesh.vertex_count
                        &&& u.staging() == staging_bytes(mesh)
                        &&& u.placed().len() == 0
                    },
                }
            },
    {
        if mesh.vertex_count == 0 || mesh.indices.len() == 0 {
            return Ok(None);
        }
        let n = mesh.attribute_data.len();
        let mut streams: Vec<(VertexAttributeKind, u64)> = Vec::new();
        let mut i: usize = 0;
        while i < n
            invariant
                mesh.vertex_count != 0,
                mesh.indices@.len() != 0,
                n == mesh.attribute_data@.len(),
                i <= n,
                streams@ == mesh_streams(mesh).subrange(0, i as int),
                forall|k: int| 0 <= k < i ==> (#[trigger] mesh.attribute_data@[k]).data@.len() > 0,
                forall|k: int| 0 <= k < i ==> (#[trigger] streams@[k]).1 > 0,
            decreases n - i,
        {
            let a = &mesh.attribute_data[i];
            if a.data.len() == 0 {
                return Err(MeshError::EmptyAttribute);
            }
            streams.push((a.kind, a.data.len() as u64));
            i += 1;
        }
        proof {
            assert(streams@ == mesh_streams(mesh));
        }
        let mut total: u64 = 0;
        let mut j: usize = 0;
        while j < n
            invariant
                mesh.vertex_count != 0,
                mesh.indices@.len() != 0,
                n == streams@.len(),
                streams@ == mesh_streams(mesh),
                forall|k: int| 0 <= k < n ==> (#[trigger] mesh.attribute_data@[k]).data@.len() > 0,
                forall|k: int| 0 <= k < n ==> (#[trigger] streams@[k]).1 > 0,
                j <= n,
                total == stream_offset(streams@, j as int),
                total <= MAX_UPLOAD_BYTES,
            decreases n - j,
        {
            let len = streams[j].1;
            if len > MAX_UPLOAD_BYTES - total {
                proof {
                    lemma_stream_offset_mono(streams@, j + 1, n as int);
                }
                return Err(MeshError::MeshTooLarge);
            }
            total = total + len;
            j += 1;
        }
        let count = mesh.indices.len() as u64;
        if count > (MAX_UPLOAD_BYTES - total) / INDEX_SIZE {
            return Err(MeshError::MeshTooLarge);
        }
        let staging_size = total + count * INDEX_SIZE;
        let u = Upload {
            streams,
            index_count: count,
            vertex_count: mesh.vertex_count,
            staging_size,
            placed: Vec::new(),
            copies: Vec::new(),
            staging_offset: 0,
        };
        proof {
            assert(forall|k: int| 0 <= k < u.streams@.len() ==> (#[trigger] u.streams@[k]).1 > 0);
        }
        Ok(Some(u))
    }

    /// Places the next stream of `upload` (or, once all streams are placed,
    /// its indices). Where nothing fits, says how the buffers must grow, or
    /// fails where they cannot.
    pub fn upload_step(&mut self, upload: Upload, max_buffer_size: u64) -> (r: Result<UploadStep, MeshError>)
        requires
            old(self).wf(),
            upload.wf(),
        ensures
            final(self).wf(),
            nonempty_streams(&upload),
            final(self).vertex_capacity() == old(self).vertex_capacity(),
            final(self).index_capacity() == old(self).index_capacity(),
            final(self).slots() == old(self).slots(),
            ({
                let k = upload.placed().len() as int;
                let n = upload.streams().len() as int;
                if k < n {
                    let len = upload.streams()[k].1;
                    &&& final(self).index_pool().lent() == old(self).index_pool().lent()
                    &&& match r {
                        Ok(UploadStep::Placed(u)) => {
                            &&& u.wf()
                            &&& same_request(&u, &upload)
                            &&& u.placed() == upload.placed().push(u.placed()[k])
                            &&& u.copies() == upload.copies().push(u.copies()[k])
                            &&& placed_as(u.streams(), u.placed(), u.copies(), k)
                            &&& final(self).vertex_pool().lent() == old(self).vertex_pool().lent().push(as_pair(u.placed()[k].1))
                        },
                        Ok(UploadStep::Grow(u, g)) => {
                            &&& u.wf()
                            &&& same_request(&u, &upload)
                            &&& u.placed() == upload.placed()
                            &&& u.copies() == upload.copies()
                            &&& no_fit(old(self).vertex_pool(), len)
                            &&& Ok::<Growth, MeshError>(g) == growth_plan(old(self).vertex_capacity() as nat, old(self).index_capacity() as nat, len as nat, 0, max_buffer_size)
                            &&& final(self).vertex_pool().lent() == old(self).vertex_pool().lent()
                        },
                        Ok(UploadStep::Done(_)) => false,
                        Err(e) => {
                            &&& no_fit(old(self).vertex_pool(), len)
                            &&& Err::<Growth, MeshError>(e) == growth_plan(old(self).vertex_capacity() as nat, old(self).index_capacity() as nat, len as nat, 0, max_buffer_size)
                            &&& final(self).vertex_pool().lent() == old(self).vertex_pool().lent()
                        },
                    }
                } else {
                    let count = upload.index_count();
                    &&& final(self).vertex_pool().lent() == old(self).vertex_pool().lent()
                    &&& match r {
                        Ok(UploadStep::Done(m)) => {
                            let range = m.mesh.indices_range;
                            &&& m.mesh.vertex_count == upload.vertex_count()
                            &&& m.mesh.vertex_attribute_ranges@ == upload.placed()
                            &&& m.vertex_copies@ == upload.copies()
                            &&& m.mesh.vertex_attribute_ranges@.len() == n
                            &&& forall|j: int| 0 <= j < n ==> placed_as(upload.streams(), m.mesh.vertex_attribute_ranges@, m.vertex_copies@, j)
                            &&& m.staging_size == upload.staging()
                            &&& range.end - range.start == count
                            &&& m.index_copy == BufferCopy {
                                src_offset: stream_offset(upload.streams(), n) as u64,
                                dst_offset: (range.start * INDEX_SIZE) as u64,
                                size: (count * INDEX_SIZE) as u64,
                            }
                            &&& final(self).index_pool().lent() == old(self).index_pool().lent().push(as_pair(range))
                        },
                        Ok(UploadStep::Grow(u, g)) => {
                            &&& u.wf()
                            &&& same_request(&u, &upload)
                            &&& u.placed() == upload.placed()
                            &&& u.copies() == upload.copies()
                            &&& no_fit(old(self).index_pool(), count)
                            &&& Ok::<Growth, MeshError>(g) == growth_plan(old(self).vertex_capacity() as nat, old(self).index_capacity() as nat, 0, count as nat, max_buffer_size)
                            &&& final(self).index_pool().lent() == old(self).index_pool().lent()
                        },
                        Ok(UploadStep::Placed(_)) => false,
                        Err(e) => {
                            &&& no_fit(old(self).index_pool(), count)
                            &&& Err::<Growth, MeshError>(e) == growth_plan(old(self).vertex_capacity() as nat, old(self).index_capacity() as nat, 0, count as nat, max_buffer_size)
                            &&& final(self).index_pool().lent() == old(self).index_pool().lent()
                        },
                    }
                }
            }),
    {
        let mut upload = upload;
        proof {
            assert(nonempty_streams(&upload));
        }
        let k = upload.placed.len();
        let n = upload.streams.len();
        proof {
            lemma_stream_offset_mono(upload.streams@, k as int, n as int);
            if k < n {
                lemma_stream_offset_mono(upload.streams@, k + 1, n as int);
            }
        }
        if k < n {
            let (kind, len) = upload.streams[k];
            match self.vertices.allocate(len) {
                Some(range) => {
                    let ghost old_placed = upload.placed@;
                    let ghost old_copies = upload.copies@;
                    let copy = BufferCopy { src_offset: upload.staging_offset, dst_offset: range.start, size: len };
                    upload.copies.push(copy);
                    upload.placed.push((kind, range));
                    upload.staging_offset = upload.staging_offset + len;
                    proof {
                        assert forall|j: int| 0 <= j < upload.placed@.len() implies placed_as(upload.streams@, upload.placed@, upload.copies@, j) by {
                            if j < k {
                                assert(upload.placed@[j] == old_placed[j]);
                                assert(upload.copies@[j] == old_copies[j]);
                                assert(placed_as(upload.streams@, old_placed, old_copies, j));
                            } else {
                                assert(upload.placed@[j] == (kind, range));
                                assert(upload.copies@[j] == copy);
                            }
                        }
                    }
                    Ok(UploadStep::Placed(upload))
                },
                None => match self.realloc(len, 0, max_buffer_size) {
                    Ok(g) => Ok(UploadStep::Grow(upload, g)),
                    Err(e) => Err(e),
                },
            }
        } else {
            let count = upload.index_count;
            match self.indices.allocate(count) {
                Some(range) => {
                    let index_copy = BufferCopy {
                        src_offset: upload.staging_offset,
                        dst_offset: range.start * INDEX_SIZE,
                        size: count * INDEX_SIZE,
                    };
                    let mesh = GpuMesh {
                        vertex_count: upload.vertex_count,
                        vertex_attribute_ranges: upload.placed,
                        indices_range: range,
                    };
                    Ok(UploadStep::Done(UploadedMesh {
                        mesh,
                        staging_size: upload.staging_size,
                        vertex_copies: upload.copies,
                        index_copy,
                    }))
                },
                None => match self.realloc(0, count, max_buffer_size) {
                    Ok(g) => Ok(UploadStep::Grow(upload, g)),
                    Err(e) => Err(e),
                },
            }
        }
    }
}

/// `p` is a non-empty range of one of `m`'s attribute streams.
pub open spec fn holds_vertex_range(m: GpuMesh, p: (u64, u64)) -> bool {
    p.0 < p.1 && exists|j: int| 0 <= j < m.vertex_attribute_ranges@.len() && as_pair(#[trigger] m.vertex_attribute_ranges@[j].1) == p
}

/// The non-empty ranges of `m`'s streams are pairwise distinct.
pub open spec fn distinct_vertex_ranges(m: GpuMesh) -> bool {
    forall|a: int, b: int|
        0 <= a < b < m.vertex_attribute_ranges@.len() && m.vertex_attribute_ranges@[a].1.start < m.vertex_attribute_ranges@[a].1.end
            ==> as_pair(#[trigger] m.vertex_attribute_ranges@[a].1) != as_pair(#[trigger] m.vertex_attribute_ranges@[b].1)
}

/// Slot `index` holds a mesh.
pub open spec fn is_registered(slots: Seq<Option<GpuMesh>>, index: int) -> bool {
    0 <= index < slots.len() && slots[index] is Some
}

/// `p` is a non-empty range of one of the first `i` streams of `m`.
pub open spec fn released_before(m: GpuMesh, i: int, p: (u64, u64)) -> bool {
    p.0 < p.1 && exists|j: int| 0 <= j < i && as_pair(#[trigger] m.vertex_attribute_ranges@[j].1) == p
}

proof fn lemma_released_step(m: GpuMesh, i: int)
    requires
        0 <= i < m.vertex_attribute_ranges@.len(),
    ensures
        forall|p: (u64, u64)| released_before(m, i + 1, p) <==> (released_before(m, i, p) || (p.0 < p.1 && p == as_pair(m.vertex_attribute_ranges@[i].1))),
{
    assert forall|p: (u64, u64)| released_before(m, i + 1, p) <==> (released_before(m, i, p) || (p.0 < p.1 && p == as_pair(m.vertex_attribute_ranges@[i].1))) by {
        if released_before(m, i + 1, p) {
            let j = choose|j: int| 0 <= j < i + 1 && as_pair(#[trigger] m.vertex_attribute_ranges@[j].1) == p;
            if j < i {
                assert(released_before(m, i, p));
            }
        }
        if p.0 < p.1 && p == as_pair(m.vertex_attribute_ranges@[i].1) {
            assert(0 <= i < i + 1 && as_pair(m.vertex_attribute_ranges@[i].1) == p);
        }
    }
}

proof fn lemma_lent_step(
    before: Seq<(u64, u64)>,
    after: Seq<(u64, u64)>,
    old_lent: Seq<(u64, u64)>,
    m: GpuMesh,
    i: int,
    released: bool,
)
    requires
        0 <= i < m.vertex_attribute_ranges@.len(),
        forall|p: (u64, u64)| #[trigger] before.contains(p) <==> (old_lent.contains(p) && !released_before(m, i, p)),
        released == (m.vertex_attribute_ranges@[i].1.start < m.vertex_attribute_ranges@[i].1.end),
        released ==> forall|q: (u64, u64)| #[trigger] after.contains(q) <==> (before.contains(q) && q != as_pair(m.vertex_attribute_ranges@[i].1)),
        !released ==> after == before,
    ensures
        forall|p: (u64, u64)| #[trigger] after.contains(p) <==> (old_lent.contains(p) && !released_before(m, i + 1, p)),
{
    lemma_released_step(m, i);
    assert forall|p: (u64, u64)| after.contains(p) <==> (old_lent.contains(p) && !released_before(m, i + 1, p)) by {
        assert(before.contains(p) <==> (old_lent.contains(p) && !released_before(m, i, p)));
        if released {
            assert(after.contains(p) <==> (before.contains(p) && p != as_pair(m.vertex_attribute_ranges@[i].1)));
        }
    }
}

impl MeshManager {
    /// Registers `mesh` under `handle`, growing the registry as needed.
    pub fn insert(&mut self, handle: &MeshHandle, mesh: GpuMesh)
        requires
            old(self).wf(),
        ensures
            final(self).wf(),
            final(self).vertex_pool() == old(self).vertex_pool(),
            final(self).index_pool() == old(self).index_pool(),
            final(self).slots().len() == if handle.slot() < old(self).slots().len() {
                old(self).slots().len() as int
            } else {
                handle.slot() + 1
            },
            final(self).slots()[handle.slot() as int] == Some(mesh),
            forall|j: int|
                0 <= j < final(self).slots().len() && j != handle.slot() ==> #[trigger] final(self).slots()[j] == if j < old(self).slots().len() {
                    old(self).slots()[j]
                } else {
                    None
                },
    {
        let index = handle.index();
        while self.registry.len() <= index
            invariant
                self.vertices == old(self).vertices,
                self.indices == old(self).indices,
                old(self).registry@.len() <= self.registry@.len() <= if index < old(self).registry@.len() {
                    old(self).registry@.len() as int
                } else {
                    index + 1
                },
                forall|j: int| 0 <= j < self.registry@.len() ==> #[trigger] self.registry@[j] == if j < old(self).registry@.len() {
                    old(self).registry@[j]
                } else {
                    None
                },
            decreases index + 1 - self.registry@.len(),
        {
            self.registry.push(None);
        }
        self.registry.set(index, Some(mesh));
    }

    /// Unregisters the mesh under `handle` and returns its ranges to the
    /// allocators. Fails with `NotRegistered`, changing nothing, where the
    /// handle names no mesh; with `RangeNotLent` where one of the mesh's
    /// ranges was not lent by this manager (that range is left alone).
    pub fn remove(&mut self, handle: &MeshHandle) -> (r: Result<(), MeshError>)
        requires
            old(self).wf(),
        ensures
            final(self).wf(),
            final(self).vertex_capacity() == old(self).vertex_capacity(),
            final(self).index_capacity() == old(self).index_capacity(),
            !is_registered(old(self).slots(), handle.slot() as int) <==> r == Err::<(), MeshError>(MeshError::NotRegistered),
            !is_registered(old(self).slots(), handle.slot() as int) ==> *final(self) == *old(self),
            is_registered(old(self).slots(), handle.slot() as int) ==> {
                let m = old(self).slots()[handle.slot() as int]->Some_0;
                let ir = as_pair(m.indices_range);
                &&& final(self).slots() == old(self).slots().update(handle.slot() as int, None)
                &&& !is_registered(final(self).slots(), handle.slot() as int)
                &&& (r is Ok || r == Err::<(), MeshError>(MeshError::RangeNotLent))
                &&& forall|p: (u64, u64)| #[trigger] final(self).vertex_pool().lent().contains(p)
                    <==> (old(self).vertex_pool().lent().contains(p) && !holds_vertex_range(m, p))
                &&& forall|p: (u64, u64)| #[trigger] final(self).index_pool().lent().contains(p)
                    <==> (old(self).index_pool().lent().contains(p) && !(ir.0 < ir.1 && p == ir))
                &&& r is Ok ==> (forall|p: (u64, u64)| holds_vertex_range(m, p) ==> old(self).vertex_pool().lent().contains(p))
                    && (ir.0 < ir.1 ==> old(self).index_pool().lent().contains(ir))
                &&& ((forall|p: (u64, u64)| holds_vertex_range(m, p) ==> old(self).vertex_pool().lent().contains(p))
                    && (ir.0 < ir.1 ==> old(self).index_pool().lent().contains(ir))
                    && distinct_vertex_ranges(m)) ==> r is Ok
            },
    {
        let index = handle.index();
        if index >= self.registry.len() {
            return Err(MeshError::NotRegistered);
        }
        if self.registry[index].is_none() {
            return Err(MeshError::NotRegistered);
        }
        let mut taken: Option<GpuMesh> = None;
        std::mem::swap(&mut taken, &mut self.registry[index]);
        let mesh = match taken {
            Some(m) => m,
            None => {
                return Err(MeshError::NotRegistered);
            },
        };
        let ghost old_vlent = self.vertices.lent();
        let mut ok = true;
        let mut i: usize = 0;
        let n = mesh.vertex_attribute_ranges.len();
        while i < n
            invariant
                n == mesh.vertex_attribute_ranges@.len(),
                i <= n,
                index < old(self).registry@.len(),
                self.vertices.wf(),
                self.vertices.span() == old(self).vertices.span(),
                self.indices == old(self).indices,
                self.registry@ == old(self).registry@.update(index as int, None),
                forall|p: (u64, u64)| #[trigger] self.vertices.lent().contains(p) <==> (old_vlent.contains(p) && !released_before(mesh, i as int, p)),
                ok ==> forall|j: int| 0 <= j < i && mesh.vertex_attribute_ranges@[j].1.start < mesh.vertex_attribute_ranges@[j].1.end
                    ==> old_vlent.contains(as_pair(#[trigger] mesh.vertex_attribute_ranges@[j].1)),
                ((forall|j: int| 0 <= j < n && mesh.vertex_attribute_ranges@[j].1.start < mesh.vertex_attribute_ranges@[j].1.end
                    ==> old_vlent.contains(as_pair(#[trigger] mesh.vertex_attribute_ranges@[j].1))) && distinct_vertex_ranges(mesh)) ==> ok,
            decreases n - i,
        {
            let start = mesh.vertex_attribute_ranges[i].1.start;
            let end = mesh.vertex_attribute_ranges[i].1.end;
            let ghost before = self.vertices.lent();
            proof {
                lemma_released_step(mesh, i as int);
                assert((start, end) == as_pair(mesh.vertex_attribute_ranges@[i as int].1));
            }
            if start < end {
                let released = self.vertices.release(start, end);
                if !released {
                    ok = false;
                }
            }
            proof {
                lemma_lent_step(before, self.vertices.lent(), old_vlent, mesh, i as int, start < end);
            }
            i = i + 1;
        }
        let ghost after_loop = self.vertices.lent();
        proof {
            assert forall|p: (u64, u64)| after_loop.contains(p) <==> (old_vlent.contains(p) && !holds_vertex_range(mesh, p)) by {
                assert(released_before(mesh, n as int, p) == holds_vertex_range(mesh, p));
                assert(after_loop.contains(p) <==> (old_vlent.contains(p) && !released_before(mesh, i as int, p)));
            }
        }
        let start = mesh.indices_range.start;
        let end = mesh.indices_range.end;
        if start < end {
            let released = self.indices.release(start, end);
            if !released {
                ok = false;
            }
        }
        proof {
            let m = old(self).registry@[index as int]->Some_0;
            assert(m == mesh);
            if ok {
                assert forall|p: (u64, u64)| holds_vertex_range(mesh, p) implies old_vlent.contains(p) by {
                    let j = choose|j: int| 0 <= j < mesh.vertex_attribute_ranges@.len() && as_pair(#[trigger] mesh.vertex_attribute_ranges@[j].1) == p;
                    assert(mesh.vertex_attribute_ranges@[j].1.start < mesh.vertex_attribute_ranges@[j].1.end);
                }
            }
            assert(self.registry@ =~= old(self).registry@.update(index as int, None));
            assert(self.vertices.lent() == after_loop);
            if (forall|p: (u64, u64)| holds_vertex_range(mesh, p) ==> old_vlent.contains(p)) {
                assert forall|j: int| 0 <= j < n && mesh.vertex_attribute_ranges@[j].1.start < mesh.vertex_attribute_ranges@[j].1.end
                    implies old_vlent.contains(as_pair(#[trigger] mesh.vertex_attribute_ranges@[j].1)) by {
                    assert(holds_vertex_range(mesh, as_pair(mesh.vertex_attribute_ranges@[j].1)));
                }
            }
        }
        if ok {
            Ok(())
        } else {
            Err(MeshError::RangeNotLent)
        }
    }
}

/// Removing the same handle twice fails the second time: whatever the first
/// removal returned, it left the slot empty (or found it empty), and a
/// removal from an empty slot fails with `NotRegistered`, changing nothing.
pub proof fn lemma_remove_twice(before: &MeshManager, after: &MeshManager, handle: &MeshHandle)
    requires
        !is_registered(before.slots(), handle.slot() as int) ==> *after == *before,
        is_registered(before.slots(), handle.slot() as int) ==> after.slots() == before.slots().update(handle.slot() as int, None),
    ensures
        !is_registered(after.slots(), handle.slot() as int),
{
}

/// `VK_BUFFER_USAGE_TRANSFER_SRC_BIT`
pub const USAGE_TRANSFER_SRC: u32 = 0x1;

/// `VK_BUFFER_USAGE_TRANSFER_DST_BIT`
pub const USAGE_TRANSFER_DST: u32 = 0x2;

/// `VK_BUFFER_USAGE_STORAGE_BUFFER_BIT`
pub const USAGE_STORAGE: u32 = 0x20;

/// `VK_BUFFER_USAGE_INDEX_BUFFER_BIT`
pub const USAGE_INDEX: u32 = 0x40;

/// Sub-allocator usage of the staging buffer: written by the host, short-lived.
pub const STAGING_MEMORY_USAGE: u8 = 0x08 | 0x10;

/// The vertex buffer of `size` bytes: a storage buffer that can be copied to and from.
pub fn vertex_buffer_info(size: u64) -> (r: BufferInfo)
    ensures
        r == (BufferInfo { size, usage: USAGE_TRANSFER_DST | USAGE_TRANSFER_SRC | USAGE_STORAGE, align: VERTEX_ALIGN_MASK }),
{
    BufferInfo { size, usage: USAGE_TRANSFER_DST | USAGE_TRANSFER_SRC | USAGE_STORAGE, align: VERTEX_ALIGN_MASK }
}

/// The index buffer of `size` bytes: like the vertex buffer, and bindable as indices.
pub fn index_buffer_info(size: u64) -> (r: BufferInfo)
    ensures
        r == (BufferInfo {
            size,
            usage: USAGE_TRANSFER_DST | USAGE_TRANSFER_SRC | USAGE_STORAGE | USAGE_INDEX,
            align: INDEX_ALIGN_MASK,
        }),
{
    BufferInfo { size, usage: USAGE_TRANSFER_DST | USAGE_TRANSFER_SRC | USAGE_STORAGE | USAGE_INDEX, align: INDEX_ALIGN_MASK }
}

/// The staging buffer of an upload: a copy source of `size` bytes, aligned
/// for both buffers it feeds.
pub fn staging_buffer_info(size: u64) -> (r: BufferInfo)
    ensures
        r == (BufferInfo { size, usage: USAGE_TRANSFER_SRC, align: VERTEX_ALIGN_MASK }),
{
    BufferInfo { size, usage: USAGE_TRANSFER_SRC, align: if VERTEX_ALIGN_MASK >= INDEX_ALIGN_MASK { VERTEX_ALIGN_MASK } else { INDEX_ALIGN_MASK } }
}

} // verus!
