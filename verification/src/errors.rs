//! GPU error types.

use vstd::prelude::*;

verus! {

/// Errors of GPU operations.
#[derive(Debug, Clone)]
pub enum GpuError {
    GpuNotAvailable,
    NoDevicesFound,
    InitializationFailed(String),
    MemoryAllocationFailed(String),
    KernelExecutionFailed(String),
    MemoryTransferFailed(String),
    ComputationError(String),
    BackendNotSupported(String),
    DeviceNotFound,
    Timeout,
    InvalidConfiguration(String),
    ResourceExhausted(String),
    Internal(String),
}

impl GpuError {
    /// The human-readable message of the error.
    pub open spec fn message(&self) -> Seq<char> {
        match self {
            GpuError::GpuNotAvailable => "GPU not available"@,
            GpuError::NoDevicesFound => "No GPU devices found"@,
            GpuError::InitializationFailed(s) => "GPU initialization failed: "@ + s@,
            GpuError::MemoryAllocationFailed(s) => "GPU memory allocation failed: "@ + s@,
            GpuError::KernelExecutionFailed(s) => "GPU kernel execution failed: "@ + s@,
            GpuError::MemoryTransferFailed(s) => "GPU memory transfer failed: "@ + s@,
            GpuError::ComputationError(s) => "GPU computation error: "@ + s@,
            GpuError::BackendNotSupported(s) => "GPU backend not supported: "@ + s@,
            GpuError::DeviceNotFound => "GPU device not found"@,
            GpuError::Timeout => "GPU timeout"@,
            GpuError::InvalidConfiguration(s) => "Invalid GPU configuration: "@ + s@,
            GpuError::ResourceExhausted(s) => "GPU resource exhausted: "@ + s@,
            GpuError::Internal(s) => "Internal GPU error: "@ + s@,
        }
    }

    /// Renders the error as its human-readable message.
    pub fn to_string(&self) -> (s: String)
        ensures
            s@ == self.message(),
    {
        let (head, detail): (&str, Option<&String>) = match self {
            GpuError::GpuNotAvailable => ("GPU not available", None),
            GpuError::NoDevicesFound => ("No GPU devices found", None),
            GpuError::InitializationFailed(d) => ("GPU initialization failed: ", Some(d)),
            GpuError::MemoryAllocationFailed(d) => ("GPU memory allocation failed: ", Some(d)),
            GpuError::KernelExecutionFailed(d) => ("GPU kernel execution failed: ", Some(d)),
            GpuError::MemoryTransferFailed(d) => ("GPU memory transfer failed: ", Some(d)),
            GpuError::ComputationError(d) => ("GPU computation error: ", Some(d)),
            GpuError::BackendNotSupported(d) => ("GPU backend not supported: ", Some(d)),
            GpuError::DeviceNotFound => ("GPU device not found", None),
            GpuError::Timeout => ("GPU timeout", None),
            GpuError::InvalidConfiguration(d) => ("Invalid GPU configuration: ", Some(d)),
            GpuError::ResourceExhausted(d) => ("GPU resource exhausted: ", Some(d)),
            GpuError::Internal(d) => ("Internal GPU error: ", Some(d)),
        };
        let mut s = String::from_str(head);
        match detail {
            Some(d) => s.append(d.as_str()),
            None => {},
        }
        proof {
            assert(s@ =~= self.message());
        }
        s
    }
}

/// Declares `std::io::Error` so that it can be converted into a `GpuError`;
/// its contents are opaque here.
#[verifier::external_type_specification]
#[verifier::external_body]
pub struct ExIoError(std::io::Error);

impl From<std::io::Error> for GpuError {
    /// An I/O error becomes an internal error that carries the I/O error's
    /// message, its `Display` text.
    fn from(err: std::io::Error) -> (e: Self)
        ensures
            e matches GpuError::Internal(msg)
                && vstd::string::to_string_from_display_ensures::<std::io::Error>(&err, msg),
    {
        GpuError::Internal(err.to_string())
    }
}

impl vstd::std_specs::convert::FromSpecImpl<std::io::Error> for GpuError {
    /// The message of an I/O error comes from the operating system, so the
    /// converted value is not given as a function of the I/O error.
    open spec fn obeys_from_spec() -> bool {
        false
    }

    open spec fn from_spec(v: std::io::Error) -> Self {
        GpuError::Internal(arbitrary())
    }
}

} // verus!
