//! Capability negotiation: what an adapter exposes, and the logical-device
//! request assembled from a caller's feature and queue requirements.

use vstd::prelude::*;

verus! {

/// A capability a caller can ask of the logical device.
#[derive(Clone, Copy, Debug, PartialEq, Eq, Structural, Hash)]
pub enum Feature {
    BufferDeviceAddress,
    DisplayTiming,
    ScalarBlockLayout,
    SurfacePresentation,
}

/// The device extensions negotiation and capability queries look for.
#[derive(Clone, Copy, Debug, PartialEq, Eq, Structural, Hash)]
pub enum DeviceExtension {
    /// `VK_KHR_swapchain`
    Swapchain,
    /// `VK_GOOGLE_display_timing`
    DisplayTiming,
    /// `VK_EXT_scalar_block_layout`
    ScalarBlockLayout,
    /// `VK_KHR_buffer_device_address`
    BufferDeviceAddress,
    /// `VK_KHR_maintenance3`
    Maintenance3,
    /// `VK_EXT_descriptor_indexing`
    DescriptorIndexing,
}

/// One queue family of an adapter.
#[derive(Clone, Copy, Debug, Default, PartialEq, Eq, Structural)]
pub struct QueueFamily {
    pub queue_count: u32,
    pub queue_flags: u32,
}

/// Why no logical device can be made.
#[derive(Clone, Copy, Debug, PartialEq, Eq, Structural)]
pub enum NegotiationError {
    /// A queue was requested from a family the adapter does not have.
    QueueFamilyNotFound { family: usize },
    /// More queues were requested from a family than it holds.
    TooManyQueues { family: usize, available: u32 },
    /// A needed extension is not supported; `feature` names the request
    /// that needed it, where one did directly.
    ExtensionMissing { extension: DeviceExtension, feature: Option<Feature> },
    /// The adapter lacks the feature bit behind a requested feature.
    FeatureUnsupported { feature: Feature },
}

/// A feature block chained into the logical-device request.
#[derive(Clone, Copy, Debug, PartialEq, Eq, Structural)]
pub enum FeatureBlock {
    /// The core tier-2 feature block, with the bits that are asked for.
    Vulkan12 { scalar_block_layout: bool, buffer_device_address: bool },
    /// The scalar-block-layout extension's feature block.
    ScalarBlockLayoutExt,
    /// The buffer-device-address extension's feature block.
    BufferDeviceAddressExt,
}

/// Queues asked of one family.
#[derive(Clone, Copy, Debug, PartialEq, Eq, Structural)]
pub struct QueueRequest {
    pub family: usize,
    pub count: usize,
}

/// Everything a logical device is created with, apart from the uniform queue
/// priority and the (empty) base feature block.
pub struct DeviceRequest {
    pub queues: Vec<QueueRequest>,
    pub extensions: Vec<DeviceExtension>,
    pub blocks: Vec<FeatureBlock>,
}

/// Some entry of `queues` is for `family`.
pub open spec fn lists_family(queues: Seq<QueueRequest>, family: usize) -> bool {
    exists|i: int| 0 <= i < queues.len() && #[trigger] queues[i].family == family
}

/// One of the first `k` queue requests is for `family`.
pub open spec fn asks_family(queues: Seq<(usize, usize)>, k: int, family: usize) -> bool {
    exists|j: int| 0 <= j < k && #[trigger] queues[j].0 == family
}

/// Queues asked of `family` by the first `k` queue requests.
pub open spec fn family_total(queues: Seq<(usize, usize)>, k: int, family: usize) -> nat
    decreases k,
{
    if k <= 0 {
        0
    } else {
        family_total(queues, k - 1, family) + if queues[k - 1].0 == family {
            queues[k - 1].1 as nat
        } else {
            0
        }
    }
}

/// The error the `k`-th queue request causes, given the ones before it.
pub open spec fn queue_error_at(queues: Seq<(usize, usize)>, families: Seq<QueueFamily>, k: int) -> Option<NegotiationError> {
    let family = queues[k].0;
    if family >= families.len() {
        Some(NegotiationError::QueueFamilyNotFound { family })
    } else if family_total(queues, k + 1, family) > families[family as int].queue_count {
        Some(NegotiationError::TooManyQueues { family, available: families[family as int].queue_count })
    } else {
        None
    }
}

/// The error of the first bad queue request from the `k`-th on, if any.
pub open spec fn queue_error_from(queues: Seq<(usize, usize)>, families: Seq<QueueFamily>, k: int) -> Option<NegotiationError>
    decreases queues.len() - k,
{
    if k < 0 || k >= queues.len() {
        None
    } else {
        match queue_error_at(queues, families, k) {
            Some(e) => Some(e),
            None => queue_error_from(queues, families, k + 1),
        }
    }
}

/// The error the feature requests cause, checked in a fixed order: the
/// presentation extension, the two feature bits, the display-timing
/// extension, then (without native tier-2 support) the extensions behind the
/// extension feature blocks.
pub open spec fn feature_error(
    requested: Seq<Feature>,
    supported: Seq<DeviceExtension>,
    scalar_block_layout_bit: u32,
    buffer_device_address_bit: u32,
    vk1_2: bool,
) -> Option<NegotiationError> {
    if requested.contains(Feature::SurfacePresentation) && !supported.contains(DeviceExtension::Swapchain) {
        Some(NegotiationError::ExtensionMissing { extension: DeviceExtension::Swapchain, feature: Some(Feature::SurfacePresentation) })
    } else if requested.contains(Feature::ScalarBlockLayout) && scalar_block_layout_bit == 0 {
        Some(NegotiationError::FeatureUnsupported { feature: Feature::ScalarBlockLayout })
    } else if requested.contains(Feature::BufferDeviceAddress) && buffer_device_address_bit == 0 {
        Some(NegotiationError::FeatureUnsupported { feature: Feature::BufferDeviceAddress })
    } else if requested.contains(Feature::DisplayTiming) && !supported.contains(DeviceExtension::DisplayTiming) {
        Some(NegotiationError::ExtensionMissing { extension: DeviceExtension::DisplayTiming, feature: Some(Feature::DisplayTiming) })
    } else if !vk1_2 && requested.contains(Feature::ScalarBlockLayout) && !supported.contains(DeviceExtension::ScalarBlockLayout) {
        Some(NegotiationError::ExtensionMissing { extension: DeviceExtension::ScalarBlockLayout, feature: None })
    } else if !vk1_2 && requested.contains(Feature::BufferDeviceAddress) && !supported.contains(DeviceExtension::BufferDeviceAddress) {
        Some(NegotiationError::ExtensionMissing { extension: DeviceExtension::BufferDeviceAddress, feature: None })
    } else {
        None
    }
}

/// The extensions a successful request enables, in this order: presentation,
/// display timing, then (without native tier-2 support) the extensions behind
/// the extension feature blocks.
pub open spec fn enabled_extensions(requested: Seq<Feature>, vk1_2: bool) -> Seq<DeviceExtension> {
    (if requested.contains(Feature::SurfacePresentation) { seq![DeviceExtension::Swapchain] } else { Seq::empty() })
        + (if requested.contains(Feature::DisplayTiming) { seq![DeviceExtension::DisplayTiming] } else { Seq::empty() })
        + (if !vk1_2 && requested.contains(Feature::ScalarBlockLayout) { seq![DeviceExtension::ScalarBlockLayout] } else { Seq::empty() })
        + (if !vk1_2 && requested.contains(Feature::BufferDeviceAddress) { seq![DeviceExtension::BufferDeviceAddress] } else { Seq::empty() })
}

/// The feature blocks a successful request chains: the native tier-2 block
/// where the API has it, else the extension blocks; never both.
pub open spec fn feature_blocks(requested: Seq<Feature>, vk1_2: bool) -> Seq<FeatureBlock> {
    let sbl = requested.contains(Feature::ScalarBlockLayout);
    let bda = requested.contains(Feature::BufferDeviceAddress);
    if vk1_2 {
        if sbl || bda {
            seq![FeatureBlock::Vulkan12 { scalar_block_layout: sbl, buffer_device_address: bda }]
        } else {
            Seq::empty()
        }
    } else {
        (if sbl { seq![FeatureBlock::ScalarBlockLayoutExt] } else { Seq::empty() })
            + (if bda { seq![FeatureBlock::BufferDeviceAddressExt] } else { Seq::empty() })
    }
}

/// Descriptor-indexing feature bits (`VkBool32`), as the tier-2 block and the
/// descriptor-indexing extension both carry them.
#[derive(Clone, Copy, Debug, Default, PartialEq, Eq, Structural)]
pub struct DescriptorIndexingFeatures {
    pub shader_input_attachment_array_dynamic_indexing: u32,
    pub shader_uniform_texel_buffer_array_dynamic_indexing: u32,
    pub shader_storage_texel_buffer_array_dynamic_indexing: u32,
    pub shader_uniform_buffer_array_non_uniform_indexing: u32,
    pub shader_sampled_image_array_non_uniform_indexing: u32,
    pub shader_storage_buffer_array_non_uniform_indexing: u32,
    pub shader_storage_image_array_non_uniform_indexing: u32,
    pub shader_input_attachment_array_non_uniform_indexing: u32,
    pub shader_uniform_texel_buffer_array_non_uniform_indexing: u32,
    pub shader_storage_texel_buffer_array_non_uniform_indexing: u32,
    pub descriptor_binding_uniform_buffer_update_after_bind: u32,
    pub descriptor_binding_sampled_image_update_after_bind: u32,
    pub descriptor_binding_storage_image_update_after_bind: u32,
    pub descriptor_binding_storage_buffer_update_after_bind: u32,
    pub descriptor_binding_uniform_texel_buffer_update_after_bind: u32,
    pub descriptor_binding_storage_texel_buffer_update_after_bind: u32,
    pub descriptor_binding_update_unused_while_pending: u32,
    pub descriptor_binding_partially_bound: u32,
    pub descriptor_binding_variable_descriptor_count: u32,
    pub runtime_descriptor_array: u32,
}

/// Descriptor-indexing limits, as the tier-2 block and the descriptor-indexing
/// extension both carry them.
#[derive(Clone, Copy, Debug, Default, PartialEq, Eq, Structural)]
pub struct DescriptorIndexingProperties {
    pub max_update_after_bind_descriptors_in_all_pools: u32,
    pub shader_uniform_buffer_array_non_uniform_indexing_native: u32,
    pub shader_sampled_image_array_non_uniform_indexing_native: u32,
    pub shader_storage_buffer_array_non_uniform_indexing_native: u32,
    pub shader_storage_image_array_non_uniform_indexing_native: u32,
    pub shader_input_attachment_array_non_uniform_indexing_native: u32,
    pub robust_buffer_access_update_after_bind: u32,
    pub quad_divergent_implicit_lod: u32,
    pub max_per_stage_descriptor_update_after_bind_samplers: u32,
    pub max_per_stage_descriptor_update_after_bind_uniform_buffers: u32,
    pub max_per_stage_descriptor_update_after_bind_storage_buffers: u32,
    pub max_per_stage_descriptor_update_after_bind_sampled_images: u32,
    pub max_per_stage_descriptor_update_after_bind_storage_images: u32,
    pub max_per_stage_descriptor_update_after_bind_input_attachments: u32,
    pub max_per_stage_update_after_bind_resources: u32,
    pub max_descriptor_set_update_after_bind_samplers: u32,
    pub max_descriptor_set_update_after_bind_uniform_buffers: u32,
    pub max_descriptor_set_update_after_bind_uniform_buffers_dynamic: u32,
    pub max_descriptor_set_update_after_bind_storage_buffers: u32,
    pub max_descriptor_set_update_after_bind_storage_buffers_dynamic: u32,
    pub max_descriptor_set_update_after_bind_sampled_images: u32,
    pub max_descriptor_set_update_after_bind_storage_images: u32,
    pub max_descriptor_set_update_after_bind_input_attachments: u32,
}

/// The tier-2 features the negotiator and the queries read.
#[derive(Clone, Copy, Debug, Default, PartialEq, Eq, Structural)]
pub struct Features12 {
    pub descriptor_indexing: DescriptorIndexingFeatures,
    pub scalar_block_layout: u32,
    pub buffer_device_address: u32,
    pub buffer_device_address_capture_replay: u32,
    pub buffer_device_address_multi_device: u32,
}

/// The buffer-device-address extension's feature bits.
#[derive(Clone, Copy, Debug, Default, PartialEq, Eq, Structural)]
pub struct BufferDeviceAddressFeatures {
    pub buffer_device_address: u32,
    pub buffer_device_address_capture_replay: u32,
    pub buffer_device_address_multi_device: u32,
}

/// An adapter's features, in one shape whatever they were queried through.
#[derive(Clone, Copy, Debug, Default, PartialEq, Eq, Structural)]
pub struct Features {
    pub v1_2: Features12,
}

/// The base limits the library reads.
#[derive(Clone, Copy, Debug, Default, PartialEq, Eq, Structural)]
pub struct Limits {
    pub max_memory_allocation_count: u32,
    pub non_coherent_atom_size: u64,
    pub max_storage_buffer_range: u32,
}

/// The tier-1.1 properties the library reads (also carried by the
/// maintenance3 extension).
#[derive(Clone, Copy, Debug, Default, PartialEq, Eq, Structural)]
pub struct Properties11 {
    pub max_per_set_descriptors: u32,
    pub max_memory_allocation_size: u64,
}

/// The tier-2 properties the library reads.
#[derive(Clone, Copy, Debug, Default, PartialEq, Eq, Structural)]
pub struct Properties12 {
    pub descriptor_indexing: DescriptorIndexingProperties,
}

/// One memory type: its heap and its `VkMemoryPropertyFlags` bits.
#[derive(Clone, Copy, Debug, Default, PartialEq, Eq, Structural)]
pub struct MemoryType {
    pub heap_index: u32,
    pub property_flags: u32,
}

/// The memory type and heap tables; only the first `*_count` entries are valid.
#[derive(Default)]
pub struct MemoryProperties {
    pub memory_types: Vec<MemoryType>,
    pub memory_type_count: u32,
    pub memory_heaps: Vec<u64>,
    pub memory_heap_count: u32,
}

/// An adapter's properties, in one shape whatever they were queried through.
#[derive(Default)]
pub struct Properties {
    pub extensions: Vec<DeviceExtension>,
    pub queue_families: Vec<QueueFamily>,
    pub memory: MemoryProperties,
    pub limits: Limits,
    pub v1_1: Properties11,
    pub v1_2: Properties12,
}

/// The capability snapshot of one adapter.
pub struct PhysicalDevice {
    handle: u64,
    properties: Properties,
    features: Features,
}

fn contains_feature(v: &Vec<Feature>, f: Feature) -> (r: bool)
    ensures
        r == v@.contains(f),
{
    let mut i: usize = 0;
    while i < v.len()
        invariant
            i <= v@.len(),
            forall|j: int| 0 <= j < i ==> v@[j] != f,
        decreases v@.len() - i,
    {
        if v[i] == f {
            return true;
        }
        i += 1;
    }
    false
}

/// Whether `e` is among the supported extensions.
pub fn supports(extensions: &Vec<DeviceExtension>, e: DeviceExtension) -> (r: bool)
    ensures
        r == extensions@.contains(e),
{
    let mut i: usize = 0;
    while i < extensions.len()
        invariant
            i <= extensions@.len(),
            forall|j: int| 0 <= j < i ==> extensions@[j] != e,
        decreases extensions@.len() - i,
    {
        if extensions[i] == e {
            return true;
        }
        i += 1;
    }
    false
}

proof fn lemma_family_total_absent(queues: Seq<(usize, usize)>, k: int, family: usize)
    requires
        forall|j: int| 0 <= j < k ==> (#[trigger] queues[j]).0 != family,
    ensures
        family_total(queues, k, family) == 0,
    decreases k,
{
    if k > 0 {
        lemma_family_total_absent(queues, k - 1, family);
    }
}

proof fn lemma_queue_error_prefix(queues: Seq<(usize, usize)>, families: Seq<QueueFamily>, k: int)
    requires
        0 <= k < queues.len(),
        queue_error_at(queues, families, k) is None,
    ensures
        queue_error_from(queues, families, k) == queue_error_from(queues, families, k + 1),
{
}

impl PhysicalDevice {
    pub fn new(handle: u64, properties: Properties, features: Features) -> (r: PhysicalDevice)
        ensures
            r.raw_handle() == handle,
            r.props() == properties,
            r.feats() == features,
    {
        PhysicalDevice { handle, properties, features }
    }

    pub closed spec fn raw_handle(&self) -> u64 {
        self.handle
    }

    pub closed spec fn props(&self) -> Properties {
        self.properties
    }

    pub closed spec fn feats(&self) -> Features {
        self.features
    }

    /// The adapter's native handle.
    pub fn handle(&self) -> (r: u64)
        ensures
            r == self.raw_handle(),
    {
        self.handle
    }

    /// The handle, properties and features, taken apart.
    pub fn into_parts(self) -> (r: (u64, Properties, Features))
        ensures
            r == (self.raw_handle(), self.props(), self.feats()),
    {
        (self.handle, self.properties, self.features)
    }

    pub fn properties(&self) -> (r: &Properties)
        ensures
            *r == self.props(),
    {
        &self.properties
    }

    pub fn features(&self) -> (r: &Features)
        ensures
            *r == self.feats(),
    {
        &self.features
    }

    /// Assembles the logical-device request for the `features` asked for and
    /// the `(family, count)` queue requests; `vk1_2` says whether the API has
    /// the tier-2 feature block natively. Queue requests are checked first, in
    /// order, then the features; the first failure is returned.
    pub fn create_device(&self, features: &Vec<Feature>, queues: &Vec<(usize, usize)>, vk1_2: bool) -> (r: Result<DeviceRequest, NegotiationError>)
        ensures
            match queue_error_from(queues@, self.props().queue_families@, 0) {
                Some(e) => r == Err::<DeviceRequest, NegotiationError>(e),
                None => match feature_error(
                    features@,
                    self.props().extensions@,
                    self.feats().v1_2.scalar_block_layout,
                    self.feats().v1_2.buffer_device_address,
                    vk1_2,
                ) {
                    Some(e) => r == Err::<DeviceRequest, NegotiationError>(e),
                    None => match r {
                        Ok(req) => {
                            &&& req.extensions@ == enabled_extensions(features@, vk1_2)
                            &&& req.blocks@ == feature_blocks(features@, vk1_2)
                            &&& forall|f: usize| #[trigger] lists_family(req.queues@, f) <==> asks_family(queues@, queues@.len() as int, f)
                            &&& forall|i: int| 0 <= i < req.queues@.len() ==> #[trigger] req.queues@[i].count == family_total(queues@, queues@.len() as int, req.queues@[i].family)
                            &&& forall|i: int, j: int| 0 <= i < j < req.queues@.len() ==> #[trigger] req.queues@[i].family != #[trigger] req.queues@[j].family
                        },
                        Err(_) => false,
                    },
                },
            },
    {
        let families = &self.properties.queue_families;
        let mut entries: Vec<QueueRequest> = Vec::new();
        let mut k: usize = 0;
        while k < queues.len()
            invariant
                k <= queues@.len(),
                *families == self.props().queue_families,
                queue_error_from(queues@, families@, 0) == queue_error_from(queues@, families@, k as int),
                forall|f: usize| #[trigger] lists_family(entries@, f) <==> asks_family(queues@, k as int, f),
                forall|i: int| 0 <= i < entries@.len() ==> #[trigger] entries@[i].count == family_total(queues@, k as int, entries@[i].family),
                forall|i: int| 0 <= i < entries@.len() ==> (#[trigger] entries@[i]).family < families@.len()
                    && entries@[i].count <= families@[entries@[i].family as int].queue_count,
                forall|i: int, j: int| 0 <= i < j < entries@.len() ==> #[trigger] entries@[i].family != #[trigger] entries@[j].family,
            decreases queues@.len() - k,
        {
            let (family, count) = queues[k];
            if family >= families.len() {
                return Err(NegotiationError::QueueFamilyNotFound { family });
            }
            let available = families[family].queue_count;
            let cap = available as usize;
            let mut e: usize = 0;
            while e < entries.len() && entries[e].family != family
                invariant
                    e <= entries@.len(),
                    forall|i: int| 0 <= i < e ==> (#[trigger] entries@[i]).family != family,
                decreases entries@.len() - e,
            {
                e += 1;
            }
            let current = if e < entries.len() {
                entries[e].count
            } else {
                proof {
                    assert forall|j: int| 0 <= j < k implies (#[trigger] queues@[j]).0 != family by {
                        if queues@[j].0 == family {
                            assert(asks_family(queues@, k as int, family));
                            assert(lists_family(entries@, family));
                            let i = choose|i: int| 0 <= i < entries@.len() && #[trigger] entries@[i].family == family;
                        }
                    }
                    lemma_family_total_absent(queues@, k as int, family);
                }
                0
            };
            assert(current == family_total(queues@, k as int, family));
            if count > cap - current {
                return Err(NegotiationError::TooManyQueues { family, available });
            }
            proof {
                lemma_queue_error_prefix(queues@, families@, k as int);
            }
            let ghost old_entries = entries@;
            if e < entries.len() {
                entries.set(e, QueueRequest { family, count: current + count });
            } else {
                entries.push(QueueRequest { family, count });
            }
            proof {
                assert forall|f: usize| #[trigger] lists_family(entries@, f) <==> asks_family(queues@, k + 1, f) by {
                    if exists|j: int| 0 <= j < k + 1 && #[trigger] queues@[j].0 == f {
                        let j = choose|j: int| 0 <= j < k + 1 && #[trigger] queues@[j].0 == f;
                        if j < k {
                            assert(asks_family(queues@, k as int, f));
                            assert(lists_family(old_entries, f));
                            let i = choose|i: int| 0 <= i < old_entries.len() && #[trigger] old_entries[i].family == f;
                            assert(entries@[i].family == f);
                        } else {
                            assert(entries@[e as int].family == f);
                        }
                    }
                    if exists|i: int| 0 <= i < entries@.len() && #[trigger] entries@[i].family == f {
                        let i = choose|i: int| 0 <= i < entries@.len() && #[trigger] entries@[i].family == f;
                        if i < old_entries.len() && i != e {
                            assert(old_entries[i].family == f);
                            assert(lists_family(old_entries, f));
                        } else {
                            assert(queues@[k as int].0 == f);
                        }
                    }
                }
                assert forall|i: int| 0 <= i < entries@.len() implies #[trigger] entries@[i].count == family_total(queues@, k + 1, entries@[i].family) by {
                    if i != e {
                        assert(old_entries[i] == entries@[i]);
                        assert(old_entries[i].family != family);
                    }
                }
            }
            k += 1;
        }
        let surface = contains_feature(features, Feature::SurfacePresentation);
        let scalar = contains_feature(features, Feature::ScalarBlockLayout);
        let address = contains_feature(features, Feature::BufferDeviceAddress);
        let timing = contains_feature(features, Feature::DisplayTiming);
        let exts = &self.properties.extensions;
        let mut extensions: Vec<DeviceExtension> = Vec::new();
        if surface {
            if !supports(exts, DeviceExtension::Swapchain) {
                return Err(NegotiationError::ExtensionMissing { extension: DeviceExtension::Swapchain, feature: Some(Feature::SurfacePresentation) });
            }
            extensions.push(DeviceExtension::Swapchain);
        }
        if scalar && self.features.v1_2.scalar_block_layout == 0 {
            return Err(NegotiationError::FeatureUnsupported { feature: Feature::ScalarBlockLayout });
        }
        if address && self.features.v1_2.buffer_device_address == 0 {
            return Err(NegotiationError::FeatureUnsupported { feature: Feature::BufferDeviceAddress });
        }
        if timing {
            if !supports(exts, DeviceExtension::DisplayTiming) {
                return Err(NegotiationError::ExtensionMissing { extension: DeviceExtension::DisplayTiming, feature: Some(Feature::DisplayTiming) });
            }
            extensions.push(DeviceExtension::DisplayTiming);
        }
        let mut blocks: Vec<FeatureBlock> = Vec::new();
        if vk1_2 {
            if scalar || address {
                blocks.push(FeatureBlock::Vulkan12 { scalar_block_layout: scalar, buffer_device_address: address });
            }
        } else {
            if scalar {
                if !supports(exts, DeviceExtension::ScalarBlockLayout) {
                    return Err(NegotiationError::ExtensionMissing { extension: DeviceExtension::ScalarBlockLayout, feature: None });
                }
                extensions.push(DeviceExtension::ScalarBlockLayout);
                blocks.push(FeatureBlock::ScalarBlockLayoutExt);
            }
            if address {
                if !supports(exts, DeviceExtension::BufferDeviceAddress) {
                    return Err(NegotiationError::ExtensionMissing { extension: DeviceExtension::BufferDeviceAddress, feature: None });
                }
                extensions.push(DeviceExtension::BufferDeviceAddress);
                blocks.push(FeatureBlock::BufferDeviceAddressExt);
            }
        }
        proof {
            assert(blocks@ =~= feature_blocks(features@, vk1_2));
            assert(queue_error_from(queues@, families@, k as int) is None);
            assert(extensions@ =~= enabled_extensions(features@, vk1_2));
        }
        Ok(DeviceRequest { queues: entries, extensions, blocks })
    }
}

/// The API versions the instance supports beyond the base one.
#[derive(Clone, Copy, Debug, PartialEq, Eq, Structural)]
pub struct ApiTiers {
    pub vk1_1: bool,
    pub vk1_2: bool,
    pub vk1_3: bool,
}

/// Which blocks to chain into the extended property and feature queries.
/// Without `extended` only the base queries are made.
#[derive(Clone, Copy, Debug, PartialEq, Eq, Structural)]
pub struct QueryPlan {
    pub extended: bool,
    pub v1_1: bool,
    pub v1_2: bool,
    pub v1_3: bool,
    pub maintenance3: bool,
    pub descriptor_indexing: bool,
    pub scalar_block_layout: bool,
    pub buffer_device_address: bool,
}

/// What the capability queries returned; a block that was not queried holds
/// its default (zero) value.
#[derive(Clone, Copy, Debug, Default, PartialEq, Eq, Structural)]
pub struct QueriedInfo {
    pub limits: Limits,
    pub v1_1: Properties11,
    pub v1_2_properties: Properties12,
    pub v1_2_features: Features12,
    pub maintenance3: Properties11,
    pub descriptor_indexing_properties: DescriptorIndexingProperties,
    pub descriptor_indexing_features: DescriptorIndexingFeatures,
    pub scalar_block_layout: u32,
    pub buffer_device_address: BufferDeviceAddressFeatures,
}

/// Plans the capability queries: extended queries where the API or the
/// instance allows them; each core tier's blocks where the API has the tier;
/// an extension's block only where the tier that absorbed it is missing and
/// the adapter supports the extension.
pub fn query_plan(tiers: ApiTiers, instance_properties2: bool, extensions: &Vec<DeviceExtension>) -> (r: QueryPlan)
    ensures
        r.extended == (tiers.vk1_1 || instance_properties2),
        r.v1_1 == (r.extended && tiers.vk1_1),
        r.v1_2 == (r.extended && tiers.vk1_2),
        r.v1_3 == (r.extended && tiers.vk1_3),
        r.maintenance3 == (r.extended && !tiers.vk1_1 && extensions@.contains(DeviceExtension::Maintenance3)),
        r.descriptor_indexing == (r.extended && !tiers.vk1_2 && extensions@.contains(DeviceExtension::DescriptorIndexing)),
        r.scalar_block_layout == (r.extended && !tiers.vk1_2 && extensions@.contains(DeviceExtension::ScalarBlockLayout)),
        r.buffer_device_address == (r.extended && !tiers.vk1_2 && extensions@.contains(DeviceExtension::BufferDeviceAddress)),
{
    let extended = tiers.vk1_1 || instance_properties2;
    QueryPlan {
        extended,
        v1_1: extended && tiers.vk1_1,
        v1_2: extended && tiers.vk1_2,
        v1_3: extended && tiers.vk1_3,
        maintenance3: extended && !tiers.vk1_1 && supports(extensions, DeviceExtension::Maintenance3),
        descriptor_indexing: extended && !tiers.vk1_2 && supports(extensions, DeviceExtension::DescriptorIndexing),
        scalar_block_layout: extended && !tiers.vk1_2 && supports(extensions, DeviceExtension::ScalarBlockLayout),
        buffer_device_address: extended && !tiers.vk1_2 && supports(extensions, DeviceExtension::BufferDeviceAddress),
    }
}

/// Puts the queried blocks into one shape: where a tier is missing and the
/// adapter has the extension that carries its fields, those fields come from
/// the extension's block.
pub fn collect_info(
    tiers: ApiTiers,
    extensions: Vec<DeviceExtension>,
    queue_families: Vec<QueueFamily>,
    memory: MemoryProperties,
    queried: QueriedInfo,
) -> (r: (Properties, Features))
    ensures
        r.0.extensions@ == extensions@,
        r.0.queue_families@ == queue_families@,
        r.0.memory == memory,
        r.0.limits == queried.limits,
        r.0.v1_1 == if !tiers.vk1_1 && extensions@.contains(DeviceExtension::Maintenance3) {
            queried.maintenance3
        } else {
            queried.v1_1
        },
        r.0.v1_2.descriptor_indexing == if !tiers.vk1_2 && extensions@.contains(DeviceExtension::DescriptorIndexing) {
            queried.descriptor_indexing_properties
        } else {
            queried.v1_2_properties.descriptor_indexing
        },
        r.1.v1_2.descriptor_indexing == if !tiers.vk1_2 && extensions@.contains(DeviceExtension::DescriptorIndexing) {
            queried.descriptor_indexing_features
        } else {
            queried.v1_2_features.descriptor_indexing
        },
        r.1.v1_2.scalar_block_layout == if !tiers.vk1_2 && extensions@.contains(DeviceExtension::ScalarBlockLayout) {
            queried.scalar_block_layout
        } else {
            queried.v1_2_features.scalar_block_layout
        },
        !tiers.vk1_2 && extensions@.contains(DeviceExtension::BufferDeviceAddress) ==> {
            &&& r.1.v1_2.buffer_device_address == queried.buffer_device_address.buffer_device_address
            &&& r.1.v1_2.buffer_device_address_capture_replay == queried.buffer_device_address.buffer_device_address_capture_replay
            &&& r.1.v1_2.buffer_device_address_multi_device == queried.buffer_device_address.buffer_device_address_multi_device
        },
        !(!tiers.vk1_2 && extensions@.contains(DeviceExtension::BufferDeviceAddress)) ==> {
            &&& r.1.v1_2.buffer_device_address == queried.v1_2_features.buffer_device_address
            &&& r.1.v1_2.buffer_device_address_capture_replay == queried.v1_2_features.buffer_device_address_capture_replay
            &&& r.1.v1_2.buffer_device_address_multi_device == queried.v1_2_features.buffer_device_address_multi_device
        },
{
    let mut v1_1 = queried.v1_1;
    let mut v1_2_properties = queried.v1_2_properties;
    let mut v1_2_features = queried.v1_2_features;
    if !tiers.vk1_1 && supports(&extensions, DeviceExtension::Maintenance3) {
        v1_1 = queried.maintenance3;
    }
    if !tiers.vk1_2 && supports(&extensions, DeviceExtension::DescriptorIndexing) {
        v1_2_properties.descriptor_indexing = queried.descriptor_indexing_properties;
        v1_2_features.descriptor_indexing = queried.descriptor_indexing_features;
    }
    if !tiers.vk1_2 && supports(&extensions, DeviceExtension::ScalarBlockLayout) {
        v1_2_features.scalar_block_layout = queried.scalar_block_layout;
    }
    if !tiers.vk1_2 && supports(&extensions, DeviceExtension::BufferDeviceAddress) {
        v1_2_features.buffer_device_address = queried.buffer_device_address.buffer_device_address;
        v1_2_features.buffer_device_address_capture_replay = queried.buffer_device_address.buffer_device_address_capture_replay;
        v1_2_features.buffer_device_address_multi_device = queried.buffer_device_address.buffer_device_address_multi_device;
    }
    let properties = Properties {
        extensions,
        queue_families,
        memory,
        limits: queried.limits,
        v1_1,
        v1_2: v1_2_properties,
    };
    (properties, Features { v1_2: v1_2_features })
}

/// On an API with the native tier-2 block, requests that map to that block
/// chain it once, however many of them there are; without it, each feature
/// chains its own extension block.
pub proof fn lemma_one_native_block(requested: Seq<Feature>)
    ensures
        feature_blocks(requested, true).len() == if requested.contains(Feature::ScalarBlockLayout)
            || requested.contains(Feature::BufferDeviceAddress) {
            1int
        } else {
            0int
        },
        feature_blocks(requested, false).len() == (if requested.contains(Feature::ScalarBlockLayout) { 1int } else { 0int })
            + (if requested.contains(Feature::BufferDeviceAddress) { 1int } else { 0int }),
{
}

} // verus!
