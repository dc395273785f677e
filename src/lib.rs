//! Device- and resource-management core of a Vulkan-class renderer: capability
//! negotiation, fence bookkeeping, buffer memory requests and a growable,
//! range-allocated geometry store.

pub mod pool;
pub mod mesh;
pub mod physical_device;
pub mod fence;
pub mod device;
