//! The decisions of the device's buffer factory and of its memory
//! sub-allocator's configuration. The native objects and the sub-allocator
//! itself are driven by the caller with the values computed here.

use crate::physical_device::{Features, Properties};
use vstd::prelude::*;

verus! {

/// `VK_BUFFER_USAGE_SHADER_DEVICE_ADDRESS_BIT`: the buffer needs a GPU-visible address.
pub const SHADER_DEVICE_ADDRESS: u32 = 0x20000;

/// The sub-allocator's usage bit for memory that can back device addresses.
pub const USAGE_DEVICE_ADDRESS: u8 = 0x20;

/// The memory-property bits the sub-allocator knows, at their Vulkan positions.
pub const KNOWN_MEMORY_PROPERTIES: u32 = 0x1f;

/// A buffer creation request: size, Vulkan usage bits, and an alignment mask.
#[derive(Clone, Copy, Debug, PartialEq, Eq, Structural)]
pub struct BufferInfo {
    pub size: u64,
    pub usage: u32,
    pub align: u64,
}

/// What the driver requires of a buffer's memory.
#[derive(Clone, Copy, Debug, PartialEq, Eq, Structural)]
pub struct MemoryRequirements {
    pub size: u64,
    pub alignment: u64,
    pub memory_type_bits: u32,
    pub requires_dedicated: bool,
    pub prefers_dedicated: bool,
}

/// How a dedicated memory object is asked for.
#[derive(Clone, Copy, Debug, PartialEq, Eq, Structural)]
pub enum Dedicated {
    Required,
    Preferred,
}

/// A request to the memory sub-allocator.
#[derive(Clone, Copy, Debug, PartialEq, Eq, Structural)]
pub struct AllocationRequest {
    pub size: u64,
    pub align_mask: u64,
    pub usage: u8,
    pub memory_types: u32,
    pub dedicated: Option<Dedicated>,
}

/// Why a buffer cannot be made.
#[derive(Clone, Copy, Debug, PartialEq, Eq, Structural)]
pub enum DeviceError {
    /// The buffer asks for a device address, and the device lacks the feature.
    DeviceAddressUnsupported,
    /// The driver reported an alignment that is not a power of two.
    BadAlignment { alignment: u64 },
}

/// The buffer's usage asks for a device address.
pub open spec fn wants_device_address(info: BufferInfo) -> bool {
    info.usage & SHADER_DEVICE_ADDRESS != 0
}

/// Decides the sub-allocator usage of a new buffer's memory, before any
/// native object exists: the caller's usage (none for a frozen buffer), plus
/// device-address capability where the buffer asks for it, which needs the
/// feature. Returns the usage and whether the buffer gets an address.
pub fn buffer_memory_usage(info: &BufferInfo, memory_usage: Option<u8>, features: &Features) -> (r: Result<(u8, bool), DeviceError>)
    ensures
        wants_device_address(*info) && features.v1_2.buffer_device_address == 0
            <==> r == Err::<(u8, bool), DeviceError>(DeviceError::DeviceAddressUnsupported),
        match r {
            Ok((usage, address)) => {
                let base: u8 = match memory_usage {
                    Some(u) => u,
                    None => 0,
                };
                &&& address == wants_device_address(*info)
                &&& usage == if address { base | USAGE_DEVICE_ADDRESS } else { base }
            },
            Err(e) => e == DeviceError::DeviceAddressUnsupported,
        },
{
    let base: u8 = match memory_usage {
        Some(u) => u,
        None => 0,
    };
    let address = info.usage & SHADER_DEVICE_ADDRESS != 0;
    if address {
        if features.v1_2.buffer_device_address == 0 {
            return Err(DeviceError::DeviceAddressUnsupported);
        }
        Ok((base | USAGE_DEVICE_ADDRESS, true))
    } else {
        Ok((base, false))
    }
}

pub open spec fn is_power_of_two(a: u64) -> bool {
    a != 0 && a & ((a - 1) as u64) == 0
}

/// The sub-allocation request for a buffer with memory requirements `reqs`:
/// their size and memory types, an alignment mask combining theirs with the
/// buffer's own, and a dedicated allocation where the driver requires or
/// prefers one.
pub fn allocation_request(info: &BufferInfo, usage: u8, reqs: &MemoryRequirements) -> (r: Result<AllocationRequest, DeviceError>)
    ensures
        !is_power_of_two(reqs.alignment) ==> r == Err::<AllocationRequest, DeviceError>(DeviceError::BadAlignment { alignment: reqs.alignment }),
        is_power_of_two(reqs.alignment) ==> r == Ok::<AllocationRequest, DeviceError>(AllocationRequest {
            size: reqs.size,
            align_mask: ((reqs.alignment - 1) as u64) | info.align,
            usage,
            memory_types: reqs.memory_type_bits,
            dedicated: if reqs.requires_dedicated {
                Some(Dedicated::Required)
            } else if reqs.prefers_dedicated {
                Some(Dedicated::Preferred)
            } else {
                None
            },
        }),
{
    if reqs.alignment == 0 || reqs.alignment & (reqs.alignment - 1) != 0 {
        return Err(DeviceError::BadAlignment { alignment: reqs.alignment });
    }
    let dedicated = if reqs.requires_dedicated {
        Some(Dedicated::Required)
    } else if reqs.prefers_dedicated {
        Some(Dedicated::Preferred)
    } else {
        None
    };
    Ok(AllocationRequest {
        size: reqs.size,
        align_mask: (reqs.alignment - 1) | info.align,
        usage,
        memory_types: reqs.memory_type_bits,
        dedicated,
    })
}

/// One memory type as the sub-allocator sees it.
#[derive(Clone, Copy, Debug, PartialEq, Eq, Structural)]
pub struct AllocatorMemoryType {
    pub heap: u32,
    pub props: u8,
}

/// The device description the memory sub-allocator is configured with.
pub struct AllocatorProperties {
    pub memory_types: Vec<AllocatorMemoryType>,
    pub memory_heaps: Vec<u64>,
    pub max_memory_allocation_count: u32,
    pub max_memory_allocation_size: u64,
    pub non_coherent_atom_size: u64,
    pub buffer_device_address: bool,
}

/// Relies on `gpu_alloc_vulkanalia::memory_properties_from`: it keeps the
/// device-local, host-visible, host-coherent, host-cached and
/// lazily-allocated bits, which sit at the same positions in both flag sets,
/// and drops the others.
#[verifier::external_body]
fn memory_properties_from(bits: u32) -> (r: u8)
    ensures
        r == (bits & KNOWN_MEMORY_PROPERTIES) as u8,
{
    gpu_alloc_vulkanalia::memory_properties_from(
        vulkanalia::vk::MemoryPropertyFlags::from_bits_truncate(bits),
    ).bits()
}

/// The sub-allocator's view of a memory type.
pub open spec fn allocator_type(t: crate::physical_device::MemoryType) -> AllocatorMemoryType {
    AllocatorMemoryType { heap: t.heap_index, props: (t.property_flags & KNOWN_MEMORY_PROPERTIES) as u8 }
}

/// `count` capped at `len`.
pub open spec fn valid_count(count: u32, len: nat) -> int {
    if count as nat <= len { count as int } else { len as int }
}

/// Describes the device to the memory sub-allocator: the valid memory types
/// and heaps, the allocation limits (an unreported largest allocation size
/// means no limit), and whether buffers may have device addresses.
pub fn map_memory_device_properties(properties: &Properties, features: &Features) -> (r: AllocatorProperties)
    ensures
        r.memory_types@ == properties.memory.memory_types@.subrange(
            0,
            valid_count(properties.memory.memory_type_count, properties.memory.memory_types@.len()),
        ).map_values(|t| allocator_type(t)),
        r.memory_heaps@ == properties.memory.memory_heaps@.subrange(
            0,
            valid_count(properties.memory.memory_heap_count, properties.memory.memory_heaps@.len()),
        ),
        r.max_memory_allocation_count == properties.limits.max_memory_allocation_count,
        r.max_memory_allocation_size == if properties.v1_1.max_memory_allocation_size == 0 {
            u64::MAX
        } else {
            properties.v1_1.max_memory_allocation_size
        },
        r.non_coherent_atom_size == properties.limits.non_coherent_atom_size,
        r.buffer_device_address == (features.v1_2.buffer_device_address != 0),
{
    let memory = &properties.memory;
    let type_count: usize = if (memory.memory_type_count as usize) <= memory.memory_types.len() {
        memory.memory_type_count as usize
    } else {
        memory.memory_types.len()
    };
    let mut memory_types: Vec<AllocatorMemoryType> = Vec::new();
    let mut i: usize = 0;
    while i < type_count
        invariant
            type_count == valid_count(memory.memory_type_count, memory.memory_types@.len()),
            i <= type_count,
            memory_types@ == memory.memory_types@.subrange(0, i as int).map_values(|t| allocator_type(t)),
        decreases type_count - i,
    {
        let t = memory.memory_types[i];
        memory_types.push(AllocatorMemoryType { heap: t.heap_index, props: memory_properties_from(t.property_flags) });
        proof {
            assert(memory.memory_types@.subrange(0, i + 1).map_values(|t| allocator_type(t)) =~= memory.memory_types@.subrange(0, i as int).map_values(|t| allocator_type(t)).push(allocator_type(t)));
        }
        i += 1;
    }
    let heap_count: usize = if (memory.memory_heap_count as usize) <= memory.memory_heaps.len() {
        memory.memory_heap_count as usize
    } else {
        memory.memory_heaps.len()
    };
    let mut memory_heaps: Vec<u64> = Vec::new();
    let mut j: usize = 0;
    while j < heap_count
        invariant
            heap_count == valid_count(memory.memory_heap_count, memory.memory_heaps@.len()),
            j <= heap_count,
            memory_heaps@ == memory.memory_heaps@.subrange(0, j as int),
        decreases heap_count - j,
    {
        memory_heaps.push(memory.memory_heaps[j]);
        proof {
            assert(memory.memory_heaps@.subrange(0, j + 1) =~= memory.memory_heaps@.subrange(0, j as int).push(memory.memory_heaps@[j as int]));
        }
        j += 1;
    }
    let reported = properties.v1_1.max_memory_allocation_size;
    AllocatorProperties {
        memory_types,
        memory_heaps,
        max_memory_allocation_count: properties.limits.max_memory_allocation_count,
        max_memory_allocation_size: if reported == 0 { u64::MAX } else { reported },
        non_coherent_atom_size: properties.limits.non_coherent_atom_size,
        buffer_device_address: features.v1_2.buffer_device_address != 0,
    }
}

} // verus!
