use silver_gpu::gpu_context::{DeviceMemory, GpuContext, BYTES_PER_MB};
use silver_gpu::{GpuBackend, GpuConfig, GpuError};

#[test]
fn test_gpu_context_creation() {
    let config = GpuConfig::default().with_backend(GpuBackend::Cpu);
    let context = GpuContext::new(config);
    assert!(context.is_ok());
}

#[test]
fn test_gpu_context_device_info() {
    let config = GpuConfig::default().with_backend(GpuBackend::Cpu);
    let context = GpuContext::new(config).unwrap();
    assert!(context.is_initialized());
    assert!(context.available_memory() > 0);
}

#[test]
fn test_gpu_context_config() {
    let config = GpuConfig::default()
        .with_backend(GpuBackend::Cpu)
        .with_threads(512);
    let context = GpuContext::new(config).unwrap();
    assert_eq!(context.config().threads_per_block, 512);
}

#[test]
fn cuda_context_falls_back_to_cpu() {
    let config = GpuConfig::default().with_backend(GpuBackend::Cuda);
    let context = GpuContext::new(config).unwrap();
    assert_eq!(context.device_info().backend, GpuBackend::Cpu);
    assert_eq!(context.config().backend, GpuBackend::Cuda);
    assert_eq!(context.available_memory(), context.device_info().memory_mb);
}

#[test]
fn allocated_and_free_memory_make_up_the_device() {
    let mut context = GpuContext::new(GpuConfig::default()).unwrap();
    let device_mb = context.device_info().memory_mb;
    assert!(context.allocate_memory(7).is_ok());
    assert!(context.allocate_memory(5).is_ok());
    assert_eq!(context.allocated_memory() + context.available_memory(), device_mb);
    assert!(context.deallocate_memory(5).is_ok());
    assert_eq!(context.allocated_memory(), 7);
    assert_eq!(context.allocated_memory() + context.available_memory(), device_mb);
}

#[test]
fn opencl_context_falls_back_to_cpu() {
    let context = GpuContext::new(GpuConfig::default()).unwrap();
    let info = context.device_info();
    assert_eq!(info.backend, GpuBackend::Cpu);
    assert_eq!(info.id, 0);
    assert_eq!(info.compute_capability, "1.0");
    assert!(info.memory_mb == 8192 || info.memory_mb == 4096);
    assert!(info.max_threads >= 1);
    assert_eq!(context.max_threads(), info.max_threads);
    assert!(info.name.starts_with("CPU ("));
    assert!(info.name.ends_with(" physical cores)"));
    assert_eq!(context.config().backend, GpuBackend::OpenCL);
}

#[test]
fn fresh_context_has_all_memory_free() {
    let context = GpuContext::new(GpuConfig::default().with_backend(GpuBackend::Cpu)).unwrap();
    assert_eq!(context.allocated_memory(), 0);
    assert_eq!(context.available_memory(), context.device_info().memory_mb);
}

#[test]
fn allocate_and_deallocate_in_mb() {
    let mut context =
        GpuContext::new(GpuConfig::default().with_backend(GpuBackend::Cpu)).unwrap();
    let total = context.available_memory();
    assert!(context.allocate_memory(100).is_ok());
    assert_eq!(context.allocated_memory(), 100);
    assert_eq!(context.available_memory(), total - 100);
    assert!(context.deallocate_memory(100).is_ok());
    assert_eq!(context.allocated_memory(), 0);
    assert_eq!(context.available_memory(), total);
}

#[test]
fn allocation_beyond_capacity_is_refused() {
    let mut context =
        GpuContext::new(GpuConfig::default().with_backend(GpuBackend::Cpu)).unwrap();
    let total = context.available_memory();
    assert!(context.allocate_memory(total).is_ok());
    match context.allocate_memory(1) {
        Err(GpuError::MemoryAllocationFailed(msg)) => {
            assert_eq!(msg, "Insufficient GPU memory: requested 1048576, available 0")
        }
        other => panic!("unexpected {:?}", other),
    }
    assert_eq!(context.allocated_memory(), total);
}

#[test]
fn deallocation_beyond_allocated_is_refused() {
    let mut context =
        GpuContext::new(GpuConfig::default().with_backend(GpuBackend::Cpu)).unwrap();
    assert!(context.allocate_memory(2).is_ok());
    match context.deallocate_memory(3) {
        Err(GpuError::Internal(msg)) => {
            assert_eq!(msg, "Attempted to deallocate more memory than allocated")
        }
        other => panic!("unexpected {:?}", other),
    }
    assert_eq!(context.allocated_memory(), 2);
}

#[test]
fn reset_releases_everything() {
    let mut context =
        GpuContext::new(GpuConfig::default().with_backend(GpuBackend::Cpu)).unwrap();
    let total = context.available_memory();
    assert!(context.allocate_memory(10).is_ok());
    assert!(context.allocate_memory(20).is_ok());
    assert!(context.reset().is_ok());
    assert_eq!(context.allocated_memory(), 0);
    assert_eq!(context.available_memory(), total);
    assert!(context.is_initialized());
    assert!(context.synchronize().is_ok());
}

#[test]
fn device_memory_accounting() {
    let mut memory = DeviceMemory::new(100);
    assert_eq!(memory.available_memory(), 100);
    assert!(memory.allocate(60).is_ok());
    assert_eq!(memory.available_memory(), 40);
    assert_eq!(memory.allocated_memory(), 60);
    match memory.allocate(50) {
        Err(GpuError::MemoryAllocationFailed(msg)) => {
            assert_eq!(msg, "Insufficient GPU memory: requested 50, available 40")
        }
        other => panic!("unexpected {:?}", other),
    }
    assert_eq!(memory.allocated_memory(), 60);
    assert!(memory.allocate(40).is_ok());
    assert_eq!(memory.available_memory(), 0);
    assert!(memory.deallocate(60).is_ok());
    assert_eq!(memory.allocated_memory(), 40);
    assert!(memory.deallocate(41).is_err());
    // a size that no live allocation has is still given back
    assert!(memory.deallocate(15).is_ok());
    assert_eq!(memory.allocated_memory(), 25);
    memory.release_all();
    assert_eq!(memory.allocated_memory(), 0);
    assert_eq!(memory.available_memory(), 100);
}

#[test]
fn allocation_round_trip_restores_free_memory() {
    let mut memory = DeviceMemory::new(1000);
    assert!(memory.allocate(300).is_ok());
    let before = memory.available_memory();
    assert!(memory.allocate(200).is_ok());
    assert!(memory.deallocate(200).is_ok());
    assert_eq!(memory.available_memory(), before);
}

#[test]
fn bytes_per_mb() {
    assert_eq!(BYTES_PER_MB, 1024 * 1024);
}
