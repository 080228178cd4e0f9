//! GPU acceleration for SilverBitcoin mining and computation: device
//! description and configuration, device memory accounting and SHA-512
//! proof-of-work search.
//!
//! Backends: OpenCL (cross-platform), CUDA (NVIDIA) and a CPU fallback.
//! This build carries no GPU driver bindings, so the CPU fallback is the
//! device that does the work.

use vstd::prelude::*;

pub mod errors;
pub mod gpu_context;
pub mod gpu_miner;
pub mod text;

pub use errors::GpuError;
pub use gpu_context::GpuContext;
pub use gpu_miner::GpuMiner;



verus! {

use crate::text::{decimal, push_decimal};

/// Errors of GPU initialisation.
#[derive(Debug, Clone)]
pub enum GpuInitError {
    NoDevicesFound,
    InitializationFailed(String),
    UnsupportedBackend(String),
    GpuError(String),
}

impl GpuInitError {
    /// The human-readable message of the error.
    pub open spec fn message(&self) -> Seq<char> {
        match self {
            GpuInitError::NoDevicesFound => "No GPU devices found"@,
            GpuInitError::InitializationFailed(s) => "GPU initialization failed: "@ + s@,
            GpuInitError::UnsupportedBackend(s) => "Unsupported GPU backend: "@ + s@,
            GpuInitError::GpuError(s) => "GPU error: "@ + s@,
        }
    }

    /// Renders the error as its human-readable message.
    pub fn to_string(&self) -> (s: String)
        ensures
            s@ == self.message(),
    {
        match self {
            GpuInitError::NoDevicesFound => String::from_str("No GPU devices found"),
            GpuInitError::InitializationFailed(d) => {
                let mut s = String::from_str("GPU initialization failed: ");
                s.append(d.as_str());
                s
            },
            GpuInitError::UnsupportedBackend(d) => {
                let mut s = String::from_str("Unsupported GPU backend: ");
                s.append(d.as_str());
                s
            },
            GpuInitError::GpuError(d) => {
                let mut s = String::from_str("GPU error: ");
                s.append(d.as_str());
                s
            },
        }
    }
}

/// GPU backend type.
#[derive(Debug, Clone, Copy, PartialEq, Eq, Structural)]
pub enum GpuBackend {
    /// OpenCL backend (cross-platform)
    OpenCL,
    /// CUDA backend (NVIDIA only)
    Cuda,
    /// CPU fallback
    Cpu,
}

impl GpuBackend {
    /// The display name of the backend.
    pub open spec fn name(self) -> Seq<char> {
        match self {
            GpuBackend::OpenCL => "OpenCL"@,
            GpuBackend::Cuda => "CUDA"@,
            GpuBackend::Cpu => "CPU"@,
        }
    }

    /// Renders the backend as its display name.
    pub fn to_string(&self) -> (s: String)
        ensures
            s@ == self.name(),
    {
        match self {
            GpuBackend::OpenCL => String::from_str("OpenCL"),
            GpuBackend::Cuda => String::from_str("CUDA"),
            GpuBackend::Cpu => String::from_str("CPU"),
        }
    }
}

/// GPU device information.
#[derive(Debug, Clone)]
pub struct GpuDeviceInfo {
    pub id: usize,
    pub name: String,
    pub backend: GpuBackend,
    pub compute_capability: String,
    pub memory_mb: u64,
    pub max_threads: u32,
}

impl GpuDeviceInfo {
    /// The one-line description of the device:
    /// `GPU <id> (<backend>): <name> - <memory> MB, <threads> threads`.
    pub open spec fn description(&self) -> Seq<char> {
        "GPU "@ + decimal(self.id as nat) + " ("@ + self.backend.name() + "): "@ + self.name@
            + " - "@ + decimal(self.memory_mb as nat) + " MB, "@ + decimal(
            self.max_threads as nat,
        ) + " threads"@
    }

    /// Renders the one-line description of the device.
    pub fn to_string(&self) -> (s: String)
        ensures
            s@ == self.description(),
    {
        let mut s = String::from_str("GPU ");
        push_decimal(&mut s, self.id as u64);
        s.append(" (");
        let backend = self.backend.to_string();
        s.append(backend.as_str());
        s.append("): ");
        s.append(self.name.as_str());
        s.append(" - ");
        push_decimal(&mut s, self.memory_mb);
        s.append(" MB, ");
        push_decimal(&mut s, self.max_threads as u64);
        s.append(" threads");
        s
    }
}

/// GPU configuration.
#[derive(Debug, Clone, Copy)]
pub struct GpuConfig {
    /// Preferred GPU backend
    pub backend: GpuBackend,
    /// Number of GPU threads per block
    pub threads_per_block: u32,
    /// Number of blocks
    pub num_blocks: u32,
    /// Enable GPU memory optimization
    pub optimize_memory: bool,
    /// Enable GPU computation caching
    pub enable_caching: bool,
}

impl Default for GpuConfig {
    /// OpenCL, 256 threads per block, 1024 blocks, memory optimisation and
    /// caching on.
    fn default() -> (c: Self)
        ensures
            c == (GpuConfig {
                backend: GpuBackend::OpenCL,
                threads_per_block: 256,
                num_blocks: 1024,
                optimize_memory: true,
                enable_caching: true,
            }),
    {
        GpuConfig {
            backend: GpuBackend::OpenCL,
            threads_per_block: 256,
            num_blocks: 1024,
            optimize_memory: true,
            enable_caching: true,
        }
    }
}

impl GpuConfig {
    /// The same configuration with another backend.
    pub fn with_backend(self, backend: GpuBackend) -> (c: Self)
        ensures
            c == (GpuConfig { backend, ..self }),
    {
        let mut c = self;
        c.backend = backend;
        c
    }

    /// The same configuration with another number of threads per block.
    pub fn with_threads(self, threads: u32) -> (c: Self)
        ensures
            c == (GpuConfig { threads_per_block: threads, ..self }),
    {
        let mut c = self;
        c.threads_per_block = threads;
        c
    }

    /// The same configuration with another number of blocks.
    pub fn with_blocks(self, blocks: u32) -> (c: Self)
        ensures
            c == (GpuConfig { num_blocks: blocks, ..self }),
    {
        let mut c = self;
        c.num_blocks = blocks;
        c
    }
}

} // verus!
