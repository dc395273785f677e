use renderer::device::{
    allocation_request, buffer_memory_usage, map_memory_device_properties, AllocationRequest,
    AllocatorMemoryType, BufferInfo, Dedicated, DeviceError, MemoryRequirements, SHADER_DEVICE_ADDRESS,
    USAGE_DEVICE_ADDRESS,
};
use renderer::physical_device::{Features, Features12, Limits, MemoryProperties, MemoryType, Properties, Properties11};

fn features(bda: u32) -> Features {
    Features { v1_2: Features12 { buffer_device_address: bda, ..Default::default() } }
}

#[test]
fn device_address_needs_feature() {
    let info = BufferInfo { size: 256, usage: SHADER_DEVICE_ADDRESS | 0x1, align: 0 };
    assert_eq!(buffer_memory_usage(&info, None, &features(0)), Err(DeviceError::DeviceAddressUnsupported));
    assert_eq!(buffer_memory_usage(&info, Some(0x08), &features(1)), Ok((0x08 | USAGE_DEVICE_ADDRESS, true)));
    let plain = BufferInfo { size: 256, usage: 0x1, align: 0 };
    assert_eq!(buffer_memory_usage(&plain, Some(0x18), &features(0)), Ok((0x18, false)));
    assert_eq!(buffer_memory_usage(&plain, None, &features(0)), Ok((0, false)));
}

#[test]
fn allocation_request_combines_alignment_and_dedication() {
    let info = BufferInfo { size: 100, usage: 0, align: 0b1111 };
    let reqs = MemoryRequirements {
        size: 128,
        alignment: 64,
        memory_type_bits: 0b101,
        requires_dedicated: false,
        prefers_dedicated: true,
    };
    assert_eq!(
        allocation_request(&info, 0x01, &reqs),
        Ok(AllocationRequest { size: 128, align_mask: 63, usage: 0x01, memory_types: 0b101, dedicated: Some(Dedicated::Preferred) })
    );
    let required = MemoryRequirements { requires_dedicated: true, alignment: 4, ..reqs };
    assert_eq!(
        allocation_request(&info, 0, &required).map(|r| (r.align_mask, r.dedicated)),
        Ok((0b1111, Some(Dedicated::Required)))
    );
    let none = MemoryRequirements { prefers_dedicated: false, ..reqs };
    assert_eq!(allocation_request(&info, 0, &none).map(|r| r.dedicated), Ok(None));
    let bad = MemoryRequirements { alignment: 48, ..reqs };
    assert_eq!(allocation_request(&info, 0, &bad), Err(DeviceError::BadAlignment { alignment: 48 }));
}

#[test]
fn allocator_properties_from_capabilities() {
    let properties = Properties {
        memory: MemoryProperties {
            memory_types: vec![
                MemoryType { heap_index: 0, property_flags: 0x01 },
                MemoryType { heap_index: 1, property_flags: 0x26 },
                MemoryType { heap_index: 1, property_flags: 0x0e },
            ],
            memory_type_count: 2,
            memory_heaps: vec![1 << 30, 1 << 28, 5],
            memory_heap_count: 2,
        },
        limits: Limits { max_memory_allocation_count: 4096, non_coherent_atom_size: 64, max_storage_buffer_range: 1 << 27 },
        v1_1: Properties11 { max_per_set_descriptors: 1024, max_memory_allocation_size: 0 },
        ..Default::default()
    };
    let r = map_memory_device_properties(&properties, &features(1));
    assert_eq!(
        r.memory_types,
        vec![AllocatorMemoryType { heap: 0, props: 0x01 }, AllocatorMemoryType { heap: 1, props: 0x06 }]
    );
    assert_eq!(r.memory_heaps, vec![1 << 30, 1 << 28]);
    assert_eq!(r.max_memory_allocation_count, 4096);
    assert_eq!(r.max_memory_allocation_size, u64::MAX);
    assert_eq!(r.non_coherent_atom_size, 64);
    assert!(r.buffer_device_address);

    let limited = Properties { v1_1: Properties11 { max_per_set_descriptors: 0, max_memory_allocation_size: 1 << 32 }, ..Default::default() };
    let r = map_memory_device_properties(&limited, &features(0));
    assert_eq!(r.max_memory_allocation_size, 1 << 32);
    assert!(!r.buffer_device_address);
    assert!(r.memory_types.is_empty());
}
