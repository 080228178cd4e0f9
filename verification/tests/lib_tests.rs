use silver_gpu::gpu_context::GpuContext;
use silver_gpu::{GpuBackend, GpuConfig, GpuDeviceInfo, GpuError, GpuInitError};

#[test]
fn test_gpu_backend_display() {
    assert_eq!(GpuBackend::OpenCL.to_string(), "OpenCL");
    assert_eq!(GpuBackend::Cuda.to_string(), "CUDA");
    assert_eq!(GpuBackend::Cpu.to_string(), "CPU");
}

#[test]
fn test_gpu_config_default() {
    let config = GpuConfig::default();
    assert_eq!(config.threads_per_block, 256);
    assert_eq!(config.num_blocks, 1024);
    assert!(config.optimize_memory);
    assert!(config.enable_caching);
}

#[test]
fn test_gpu_config_builder() {
    let config = GpuConfig::default()
        .with_backend(GpuBackend::Cuda)
        .with_threads(512)
        .with_blocks(2048);

    assert_eq!(config.backend, GpuBackend::Cuda);
    assert_eq!(config.threads_per_block, 512);
    assert_eq!(config.num_blocks, 2048);
}

#[test]
fn default_config_uses_opencl() {
    assert_eq!(GpuConfig::default().backend, GpuBackend::OpenCL);
}

#[test]
fn builders_change_only_their_field() {
    let base = GpuConfig::default();
    let c = base.with_threads(7);
    assert_eq!(c.backend, base.backend);
    assert_eq!(c.num_blocks, base.num_blocks);
    assert_eq!(c.optimize_memory, base.optimize_memory);
    assert_eq!(c.enable_caching, base.enable_caching);
    let c = base.with_blocks(9);
    assert_eq!(c.threads_per_block, 256);
    assert_eq!(c.num_blocks, 9);
    let c = base.with_backend(GpuBackend::Cpu);
    assert_eq!(c.backend, GpuBackend::Cpu);
    assert_eq!(c.threads_per_block, 256);
    assert_eq!(c.num_blocks, 1024);
}

#[test]
fn device_info_description() {
    let info = GpuDeviceInfo {
        id: 3,
        name: "Test Card".to_string(),
        backend: GpuBackend::Cuda,
        compute_capability: "8.6".to_string(),
        memory_mb: 24576,
        max_threads: 1024,
    };
    assert_eq!(info.to_string(), "GPU 3 (CUDA): Test Card - 24576 MB, 1024 threads");
}

#[test]
fn device_info_description_of_zeros() {
    let info = GpuDeviceInfo {
        id: 0,
        name: String::new(),
        backend: GpuBackend::OpenCL,
        compute_capability: String::new(),
        memory_mb: 0,
        max_threads: 0,
    };
    assert_eq!(info.to_string(), "GPU 0 (OpenCL):  - 0 MB, 0 threads");
}

#[test]
fn cpu_device_description() {
    let info = GpuContext::cpu_device_info(16, 8, false);
    assert_eq!(info.id, 0);
    assert_eq!(info.name, "CPU (16 logical, 8 physical cores)");
    assert_eq!(info.backend, GpuBackend::Cpu);
    assert_eq!(info.compute_capability, "1.0");
    assert_eq!(info.memory_mb, 8192);
    assert_eq!(info.max_threads, 16);
    let windows = GpuContext::cpu_device_info(4, 2, true);
    assert_eq!(windows.memory_mb, 4096);
    assert_eq!(windows.name, "CPU (4 logical, 2 physical cores)");
}

#[test]
fn error_messages() {
    assert_eq!(GpuError::GpuNotAvailable.to_string(), "GPU not available");
    assert_eq!(GpuError::NoDevicesFound.to_string(), "No GPU devices found");
    assert_eq!(
        GpuError::InitializationFailed("x".to_string()).to_string(),
        "GPU initialization failed: x"
    );
    assert_eq!(
        GpuError::MemoryAllocationFailed("m".to_string()).to_string(),
        "GPU memory allocation failed: m"
    );
    assert_eq!(
        GpuError::KernelExecutionFailed("k".to_string()).to_string(),
        "GPU kernel execution failed: k"
    );
    assert_eq!(
        GpuError::MemoryTransferFailed("t".to_string()).to_string(),
        "GPU memory transfer failed: t"
    );
    assert_eq!(GpuError::ComputationError("c".to_string()).to_string(), "GPU computation error: c");
    assert_eq!(
        GpuError::BackendNotSupported("b".to_string()).to_string(),
        "GPU backend not supported: b"
    );
    assert_eq!(GpuError::DeviceNotFound.to_string(), "GPU device not found");
    assert_eq!(GpuError::Timeout.to_string(), "GPU timeout");
    assert_eq!(
        GpuError::InvalidConfiguration("i".to_string()).to_string(),
        "Invalid GPU configuration: i"
    );
    assert_eq!(GpuError::ResourceExhausted("r".to_string()).to_string(), "GPU resource exhausted: r");
    assert_eq!(GpuError::Internal("z".to_string()).to_string(), "Internal GPU error: z");
}

#[test]
fn init_error_messages() {
    assert_eq!(GpuInitError::NoDevicesFound.to_string(), "No GPU devices found");
    assert_eq!(
        GpuInitError::InitializationFailed("a".to_string()).to_string(),
        "GPU initialization failed: a"
    );
    assert_eq!(
        GpuInitError::UnsupportedBackend("b".to_string()).to_string(),
        "Unsupported GPU backend: b"
    );
    assert_eq!(GpuInitError::GpuError("c".to_string()).to_string(), "GPU error: c");
}

#[test]
fn io_error_becomes_internal() {
    let io = std::io::Error::new(std::io::ErrorKind::Other, "disk gone");
    let e: GpuError = GpuError::from(io);
    match e {
        GpuError::Internal(msg) => assert_eq!(msg, "disk gone"),
        other => panic!("unexpected {:?}", other),
    }
}
