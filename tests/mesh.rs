use renderer::device::BufferInfo;
use renderer::mesh::{
    index_buffer_info, staging_buffer_info, vertex_buffer_info, AttributeData, BufferCopy, BufferGrowth, GpuMesh, Growth, Mesh, MeshError, MeshHandle,
    MeshManager, UploadStep, UploadedMesh, VertexAttributeKind,
};

const MAX: u64 = u32::MAX as u64;

fn mesh(streams: &[(VertexAttributeKind, usize)], indices: usize) -> Mesh {
    Mesh {
        vertex_count: 3,
        attribute_data: streams
            .iter()
            .map(|&(kind, len)| AttributeData { kind, data: vec![7u8; len] })
            .collect(),
        indices: (0..indices as u32).collect(),
    }
}

/// Runs an upload to the end, applying every growth it asks for.
fn upload(manager: &mut MeshManager, m: &Mesh, max: u64) -> Result<(UploadedMesh, Vec<Growth>), MeshError> {
    let mut growths = Vec::new();
    let mut upload = match manager.upload_mesh(m)? {
        Some(u) => u,
        None => panic!("nothing to upload"),
    };
    loop {
        match manager.upload_step(upload, max)? {
            UploadStep::Placed(u) => upload = u,
            UploadStep::Grow(u, g) => {
                manager.apply_growth(&g);
                growths.push(g);
                upload = u;
            }
            UploadStep::Done(done) => return Ok((done, growths)),
        }
    }
}

#[test]
fn empty_record() {
    let m = GpuMesh::new_empty();
    assert_eq!(m.vertex_count, 0);
    assert!(m.attributes().is_empty());
    assert_eq!(m.indices(), 0..0);
    assert_eq!(m.get_attribute_range(VertexAttributeKind::Position), None);
}

#[test]
fn zero_vertex_mesh_needs_no_upload() {
    let manager = MeshManager::new();
    let mut m = mesh(&[(VertexAttributeKind::Position, 36)], 3);
    m.vertex_count = 0;
    assert!(matches!(manager.upload_mesh(&m), Ok(None)));
    let m = mesh(&[(VertexAttributeKind::Position, 36)], 0);
    assert!(matches!(manager.upload_mesh(&m), Ok(None)));
}

#[test]
fn empty_attribute_is_refused() {
    let manager = MeshManager::new();
    let m = mesh(&[(VertexAttributeKind::Position, 36), (VertexAttributeKind::Normal, 0)], 3);
    assert_eq!(manager.upload_mesh(&m).err(), Some(MeshError::EmptyAttribute));
}

#[test]
fn upload_places_streams_and_indices() {
    let mut manager = MeshManager::new();
    let m = mesh(&[(VertexAttributeKind::Position, 36), (VertexAttributeKind::Normal, 36)], 3);
    let staging = manager.upload_mesh(&m).unwrap().unwrap().staging_size();
    assert_eq!(staging, 36 + 36 + 12);
    let (done, growths) = upload(&mut manager, &m, MAX).unwrap();
    assert!(growths.is_empty());
    assert_eq!(done.staging_size, 84);
    assert_eq!(done.mesh.vertex_count, 3);
    assert_eq!(done.mesh.attributes(), vec![VertexAttributeKind::Position, VertexAttributeKind::Normal]);
    assert_eq!(done.mesh.get_attribute_range(VertexAttributeKind::Position), Some(0..36));
    assert_eq!(done.mesh.get_attribute_range(VertexAttributeKind::Normal), Some(36..72));
    assert_eq!(done.mesh.get_attribute_range(VertexAttributeKind::Tangent), None);
    assert_eq!(done.mesh.indices(), 0..3);
    assert_eq!(
        done.vertex_copies,
        vec![
            BufferCopy { src_offset: 0, dst_offset: 0, size: 36 },
            BufferCopy { src_offset: 36, dst_offset: 36, size: 36 },
        ]
    );
    assert_eq!(done.index_copy, BufferCopy { src_offset: 72, dst_offset: 0, size: 12 });

    let (second, _) = upload(&mut manager, &m, MAX).unwrap();
    assert_eq!(second.mesh.get_attribute_range(VertexAttributeKind::Position), Some(72..108));
    assert_eq!(second.mesh.indices(), 3..6);
    assert_eq!(second.index_copy, BufferCopy { src_offset: 72, dst_offset: 12, size: 12 });
}

#[test]
fn growth_to_next_power_of_two() {
    let mut manager = MeshManager::new();
    assert_eq!(manager.vertices_size(), 65536);
    let growth = manager.realloc(70000, 0, MAX).unwrap();
    assert_eq!(
        growth,
        Growth { vertices: Some(BufferGrowth { old_size: 65536, new_size: 262144 }), indices: None }
    );
    manager.apply_growth(&growth);
    assert_eq!(manager.vertices_size(), 262144);
}

#[test]
fn large_stream_grows_vertex_buffer_once() {
    let mut manager = MeshManager::new();
    let m = mesh(&[(VertexAttributeKind::Position, 70000)], 3);
    let (done, growths) = upload(&mut manager, &m, MAX).unwrap();
    assert_eq!(
        growths,
        vec![Growth { vertices: Some(BufferGrowth { old_size: 65536, new_size: 262144 }), indices: None }]
    );
    assert_eq!(done.mesh.get_attribute_range(VertexAttributeKind::Position), Some(0..70000));
    assert_eq!(manager.vertices_size(), 262144);
    let again = mesh(&[(VertexAttributeKind::Position, 70000)], 3);
    let (second, growths) = upload(&mut manager, &again, MAX).unwrap();
    assert!(growths.is_empty());
    assert_eq!(second.mesh.get_attribute_range(VertexAttributeKind::Position), Some(70000..140000));
}

#[test]
fn growth_capped_at_device_limit() {
    let manager = MeshManager::new();
    let growth = manager.realloc(70000, 0, 200000).unwrap();
    assert_eq!(growth.vertices, Some(BufferGrowth { old_size: 65536, new_size: 200000 }));
    assert_eq!(manager.realloc(1, 0, 65536), Err(MeshError::VertexBufferLimit { max: 65536 }));
}

#[test]
fn growth_overflow_is_refused() {
    let manager = MeshManager::new();
    assert_eq!(manager.realloc(u64::MAX, 0, MAX), Err(MeshError::TooManyVertices));
    assert_eq!(manager.realloc(u64::MAX - 65535, 0, u64::MAX), Err(MeshError::TooManyVertices));
    assert_eq!(manager.realloc(u64::MAX - 65536, 0, u64::MAX).map(|g| g.vertices.map(|v| v.new_size)), Ok(Some(u64::MAX)));
    assert_eq!(manager.realloc(0, u64::MAX, MAX), Err(MeshError::TooManyIndices));
}

#[test]
fn index_growth_in_bytes() {
    let manager = MeshManager::new();
    assert_eq!(manager.indices_size(), 262144);
    let growth = manager.realloc(0, 10, MAX).unwrap();
    assert_eq!(
        growth,
        Growth { vertices: None, indices: Some(BufferGrowth { old_size: 262144, new_size: 524288 }) }
    );
    assert_eq!(manager.realloc(0, 10, 262144), Err(MeshError::IndexBufferLimit { max: 262144 }));
    assert_eq!(manager.realloc(0, 10, 262146), Err(MeshError::IndexBufferLimit { max: 262146 }));
    assert_eq!(
        manager.realloc(0, 10, 262186),
        Err(MeshError::UnalignedIndexBuffer { size: 262186 })
    );
    assert_eq!(manager.realloc(0, 0, MAX), Ok(Growth { vertices: None, indices: None }));
}

#[test]
fn index_buffer_grows_for_many_indices() {
    let mut manager = MeshManager::new();
    let m = mesh(&[(VertexAttributeKind::Position, 12)], 70000);
    let (done, growths) = upload(&mut manager, &m, MAX).unwrap();
    assert_eq!(
        growths,
        vec![Growth { vertices: None, indices: Some(BufferGrowth { old_size: 262144, new_size: 1048576 }) }]
    );
    assert_eq!(manager.indices_size(), 1048576);
    assert_eq!(done.mesh.indices(), 0..70000);
    assert_eq!(done.index_copy, BufferCopy { src_offset: 12, dst_offset: 0, size: 280000 });
}

#[test]
fn upload_fails_when_buffer_cannot_grow() {
    let mut manager = MeshManager::new();
    let m = mesh(&[(VertexAttributeKind::Position, 70000)], 3);
    assert_eq!(upload(&mut manager, &m, 65536).err(), Some(MeshError::VertexBufferLimit { max: 65536 }));
}

#[test]
fn insert_then_remove_returns_ranges() {
    let mut manager = MeshManager::new();
    let m = mesh(&[(VertexAttributeKind::Position, 65536)], 3);
    let (done, _) = upload(&mut manager, &m, MAX).unwrap();
    let handle = MeshHandle::new(4);
    assert_eq!(handle.index(), 4);
    manager.insert(&handle, done.mesh);
    assert_eq!(manager.remove(&handle), Ok(()));
    let (again, growths) = upload(&mut manager, &m, MAX).unwrap();
    assert!(growths.is_empty());
    assert_eq!(again.mesh.get_attribute_range(VertexAttributeKind::Position), Some(0..65536));
}

#[test]
fn remove_twice_fails() {
    let mut manager = MeshManager::new();
    let m = mesh(&[(VertexAttributeKind::Position, 36)], 3);
    let (done, _) = upload(&mut manager, &m, MAX).unwrap();
    let handle = MeshHandle::new(0);
    manager.insert(&handle, done.mesh);
    assert_eq!(manager.remove(&handle), Ok(()));
    assert_eq!(manager.remove(&handle), Err(MeshError::NotRegistered));
    assert_eq!(manager.remove(&MeshHandle::new(99)), Err(MeshError::NotRegistered));
}

#[test]
fn remove_of_foreign_record_reports_it() {
    let mut manager = MeshManager::new();
    let handle = MeshHandle::new(1);
    manager.insert(
        &handle,
        GpuMesh {
            vertex_count: 3,
            vertex_attribute_ranges: vec![(VertexAttributeKind::Position, 0..36)],
            indices_range: 0..0,
        },
    );
    assert_eq!(manager.remove(&handle), Err(MeshError::RangeNotLent));
    assert_eq!(manager.remove(&handle), Err(MeshError::NotRegistered));
}

#[test]
fn removing_empty_record_succeeds() {
    let mut manager = MeshManager::new();
    let handle = MeshHandle::new(2);
    manager.insert(&handle, GpuMesh::new_empty());
    assert_eq!(manager.remove(&handle), Ok(()));
}

#[test]
fn buffer_descriptions() {
    assert_eq!(vertex_buffer_info(65536), BufferInfo { size: 65536, usage: 0x23, align: 0b1111 });
    assert_eq!(index_buffer_info(262144), BufferInfo { size: 262144, usage: 0x63, align: 0b11 });
    assert_eq!(staging_buffer_info(84), BufferInfo { size: 84, usage: 0x1, align: 0b1111 });
}

#[test]
fn growth_that_cannot_hold_the_request_fails() {
    let manager = MeshManager::new();
    assert_eq!(manager.realloc(200000, 0, 100000), Err(MeshError::VertexBufferLimit { max: 100000 }));
    assert_eq!(manager.realloc(70000, 0, 131072), Err(MeshError::VertexBufferLimit { max: 131072 }));
    assert_eq!(manager.realloc(0, 70000, 500000), Err(MeshError::IndexBufferLimit { max: 500000 }));
    assert_eq!(manager.realloc(200000, 0, 300000).map(|g| g.vertices), Ok(Some(BufferGrowth { old_size: 65536, new_size: 300000 })));
}
