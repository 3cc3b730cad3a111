//! System capability probes, as far as the core reports them.

use vstd::prelude::*;

verus! {

/// What is known about a GPU.
#[derive(Debug, Clone, PartialEq)]
pub struct GpuInfo {
    /// The device's name.
    pub name: String,
    /// Total device memory in megabytes.
    pub vram_total_mb: u64,
    /// Used device memory in megabytes.
    pub vram_used_mb: u64,
    /// Whether a usable device was found.
    pub is_available: bool,
}

/// Detect the GPU. Device enumeration belongs to the tensor runtime, which
/// the core treats as opaque, so this reports no usable device.
pub fn detect_gpu() -> (r: GpuInfo)
    ensures
        r.name@ == "Unknown GPU"@,
        r.vram_total_mb == 0,
        r.vram_used_mb == 0,
        !r.is_available,
{
    GpuInfo {
        name: "Unknown GPU".to_owned(),
        vram_total_mb: 0,
        vram_used_mb: 0,
        is_available: false,
    }
}

/// A snapshot of system memory use.
#[derive(Debug, Clone, Copy, PartialEq, Eq, Structural)]
pub struct ResourceUsage {
    /// Megabytes of memory in use.
    pub ram_used_mb: u64,
    /// Megabytes of memory in total.
    pub ram_total_mb: u64,
}

/// Report process memory use. Measurement is platform work the core does
/// not do, so both figures are zero.
pub fn get_resource_usage() -> (r: ResourceUsage)
    ensures
        r.ram_used_mb == 0,
        r.ram_total_mb == 0,
{
    ResourceUsage { ram_used_mb: 0, ram_total_mb: 0 }
}

} // verus!
