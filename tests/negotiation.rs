use renderer::physical_device::{
    collect_info, query_plan, ApiTiers, BufferDeviceAddressFeatures, DescriptorIndexingFeatures,
    DeviceExtension, Feature, FeatureBlock, Features, Features12, MemoryProperties, NegotiationError,
    PhysicalDevice, Properties, Properties11, QueriedInfo, QueueFamily, QueueRequest,
};

fn adapter(extensions: Vec<DeviceExtension>, sbl: u32, bda: u32) -> PhysicalDevice {
    let properties = Properties {
        extensions,
        queue_families: vec![
            QueueFamily { queue_count: 2, queue_flags: 0x7 },
            QueueFamily { queue_count: 1, queue_flags: 0x4 },
        ],
        ..Default::default()
    };
    let features = Features {
        v1_2: Features12 { scalar_block_layout: sbl, buffer_device_address: bda, ..Default::default() },
    };
    PhysicalDevice::new(0xabc, properties, features)
}

#[test]
fn missing_device_address_bit_fails() {
    let device = adapter(vec![DeviceExtension::Swapchain], 1, 0);
    let r = device.create_device(&vec![Feature::BufferDeviceAddress], &vec![(0, 1)], true);
    assert_eq!(r.err(), Some(NegotiationError::FeatureUnsupported { feature: Feature::BufferDeviceAddress }));
}

#[test]
fn native_tier_two_block_is_chained_once() {
    let device = adapter(vec![], 1, 1);
    let req = device
        .create_device(&vec![Feature::ScalarBlockLayout, Feature::BufferDeviceAddress], &vec![(0, 1)], true)
        .unwrap();
    assert_eq!(
        req.blocks,
        vec![FeatureBlock::Vulkan12 { scalar_block_layout: true, buffer_device_address: true }]
    );
    assert!(req.extensions.is_empty());
}

#[test]
fn extension_blocks_without_native_tier_two() {
    let device = adapter(vec![DeviceExtension::ScalarBlockLayout, DeviceExtension::BufferDeviceAddress], 1, 1);
    let req = device
        .create_device(&vec![Feature::BufferDeviceAddress, Feature::ScalarBlockLayout], &vec![(0, 1)], false)
        .unwrap();
    assert_eq!(req.blocks, vec![FeatureBlock::ScalarBlockLayoutExt, FeatureBlock::BufferDeviceAddressExt]);
    assert_eq!(req.extensions, vec![DeviceExtension::ScalarBlockLayout, DeviceExtension::BufferDeviceAddress]);

    let bare = adapter(vec![], 1, 1);
    assert_eq!(
        bare.create_device(&vec![Feature::ScalarBlockLayout], &vec![], false).err(),
        Some(NegotiationError::ExtensionMissing { extension: DeviceExtension::ScalarBlockLayout, feature: None })
    );
}

#[test]
fn presentation_and_timing_need_extensions() {
    let device = adapter(vec![DeviceExtension::Swapchain], 0, 0);
    let req = device.create_device(&vec![Feature::SurfacePresentation], &vec![], false).unwrap();
    assert_eq!(req.extensions, vec![DeviceExtension::Swapchain]);
    assert!(req.blocks.is_empty());
    assert_eq!(
        device.create_device(&vec![Feature::DisplayTiming, Feature::SurfacePresentation], &vec![], false).err(),
        Some(NegotiationError::ExtensionMissing {
            extension: DeviceExtension::DisplayTiming,
            feature: Some(Feature::DisplayTiming)
        })
    );
    let none = adapter(vec![], 1, 1);
    assert_eq!(
        none.create_device(&vec![Feature::ScalarBlockLayout, Feature::SurfacePresentation], &vec![], true).err(),
        Some(NegotiationError::ExtensionMissing {
            extension: DeviceExtension::Swapchain,
            feature: Some(Feature::SurfacePresentation)
        })
    );
}

#[test]
fn queues_are_merged_per_family() {
    let device = adapter(vec![], 0, 0);
    let req = device.create_device(&vec![], &vec![(0, 1), (1, 1), (0, 1)], true).unwrap();
    assert_eq!(req.queues, vec![QueueRequest { family: 0, count: 2 }, QueueRequest { family: 1, count: 1 }]);
}

#[test]
fn queue_requests_are_checked_first() {
    let device = adapter(vec![], 0, 0);
    assert_eq!(
        device.create_device(&vec![Feature::BufferDeviceAddress], &vec![(2, 1)], true).err(),
        Some(NegotiationError::QueueFamilyNotFound { family: 2 })
    );
    assert_eq!(
        device.create_device(&vec![], &vec![(0, 1), (0, 2)], true).err(),
        Some(NegotiationError::TooManyQueues { family: 0, available: 2 })
    );
    assert_eq!(
        device.create_device(&vec![], &vec![(1, usize::MAX)], true).err(),
        Some(NegotiationError::TooManyQueues { family: 1, available: 1 })
    );
}

#[test]
fn query_plan_by_tier() {
    let exts = vec![DeviceExtension::Maintenance3, DeviceExtension::DescriptorIndexing, DeviceExtension::BufferDeviceAddress];
    let base = query_plan(ApiTiers { vk1_1: false, vk1_2: false, vk1_3: false }, false, &exts);
    assert!(!base.extended && !base.maintenance3 && !base.descriptor_indexing);
    let old = query_plan(ApiTiers { vk1_1: false, vk1_2: false, vk1_3: false }, true, &exts);
    assert!(old.extended && old.maintenance3 && old.descriptor_indexing && old.buffer_device_address);
    assert!(!old.scalar_block_layout && !old.v1_1);
    let modern = query_plan(ApiTiers { vk1_1: true, vk1_2: true, vk1_3: false }, false, &exts);
    assert!(modern.extended && modern.v1_1 && modern.v1_2 && !modern.v1_3);
    assert!(!modern.maintenance3 && !modern.descriptor_indexing && !modern.buffer_device_address);
}

#[test]
fn extension_info_fills_core_tiers() {
    let queried = QueriedInfo {
        v1_1: Properties11 { max_per_set_descriptors: 1, max_memory_allocation_size: 2 },
        maintenance3: Properties11 { max_per_set_descriptors: 100, max_memory_allocation_size: 200 },
        descriptor_indexing_features: DescriptorIndexingFeatures { runtime_descriptor_array: 1, ..Default::default() },
        scalar_block_layout: 1,
        buffer_device_address: BufferDeviceAddressFeatures {
            buffer_device_address: 1,
            buffer_device_address_capture_replay: 0,
            buffer_device_address_multi_device: 1,
        },
        ..Default::default()
    };
    let exts = vec![DeviceExtension::Maintenance3, DeviceExtension::DescriptorIndexing, DeviceExtension::BufferDeviceAddress];
    let (props, feats) = collect_info(
        ApiTiers { vk1_1: false, vk1_2: false, vk1_3: false },
        exts.clone(),
        vec![],
        MemoryProperties::default(),
        queried,
    );
    assert_eq!(props.v1_1.max_per_set_descriptors, 100);
    assert_eq!(feats.v1_2.descriptor_indexing.runtime_descriptor_array, 1);
    assert_eq!(feats.v1_2.scalar_block_layout, 0);
    assert_eq!(feats.v1_2.buffer_device_address, 1);
    assert_eq!(feats.v1_2.buffer_device_address_multi_device, 1);
    assert_eq!(props.extensions, exts);

    let (props, feats) = collect_info(
        ApiTiers { vk1_1: true, vk1_2: true, vk1_3: true },
        exts,
        vec![],
        MemoryProperties::default(),
        queried,
    );
    assert_eq!(props.v1_1.max_per_set_descriptors, 1);
    assert_eq!(feats.v1_2.descriptor_indexing.runtime_descriptor_array, 0);
    assert_eq!(feats.v1_2.buffer_device_address, 0);
}

#[test]
fn adapter_parts() {
    let device = adapter(vec![DeviceExtension::Swapchain], 1, 0);
    assert_eq!(device.handle(), 0xabc);
    assert_eq!(device.features().v1_2.scalar_block_layout, 1);
    let (handle, properties, features) = device.into_parts();
    assert_eq!(handle, 0xabc);
    assert_eq!(properties.extensions, vec![DeviceExtension::Swapchain]);
    assert_eq!(properties.queue_families.len(), 2);
    assert_eq!(features.v1_2.buffer_device_address, 0);
}
