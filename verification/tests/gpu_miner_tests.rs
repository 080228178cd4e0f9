use sha2::{Digest, Sha512};
use silver_gpu::gpu_miner::{hash_meets_target, nonce_input};
use silver_gpu::{GpuBackend, GpuConfig, GpuError, GpuMiner};

fn cpu_miner(threads: u32, blocks: u32) -> GpuMiner {
    let config = GpuConfig::default()
        .with_backend(GpuBackend::Cpu)
        .with_threads(threads)
        .with_blocks(blocks);
    GpuMiner::new(config).unwrap()
}

fn reference_hash(data: &[u8], nonce: u64) -> Vec<u8> {
    let mut input = data.to_vec();
    input.extend_from_slice(&nonce.to_le_bytes());
    Sha512::digest(&input).to_vec()
}

#[test]
fn test_gpu_miner_creation() {
    let config = GpuConfig::default().with_backend(GpuBackend::Cpu);
    let miner = GpuMiner::new(config);
    assert!(miner.is_ok());
}

#[test]
fn test_gpu_miner_start_stop() {
    let config = GpuConfig::default().with_backend(GpuBackend::Cpu);
    let mut miner = GpuMiner::new(config).unwrap();

    assert!(!miner.is_running());
    assert!(miner.start().is_ok());
    assert!(miner.is_running());
    assert!(miner.stop().is_ok());
    assert!(!miner.is_running());
}

#[test]
fn test_gpu_miner_stats() {
    let config = GpuConfig::default().with_backend(GpuBackend::Cpu);
    let miner = GpuMiner::new(config).unwrap();

    let stats = miner.get_stats();
    assert_eq!(stats.total_hashes, 0);
    assert_eq!(stats.valid_proofs, 0);
}

#[test]
fn test_gpu_miner_reset_stats() {
    // 10 threads per block times 100 blocks: one batch computes 1000 hashes.
    let mut miner = cpu_miner(10, 100);
    assert!(miner.start().is_ok());
    let unreachable_target = [0u8; 64];
    assert!(matches!(miner.mine_batch(b"work", &unreachable_target), Ok(None)));
    let stats = miner.get_stats();
    assert_eq!(stats.total_hashes, 1000);

    assert!(miner.reset_stats().is_ok());
    let stats = miner.get_stats();
    assert_eq!(stats.total_hashes, 0);
}

#[test]
fn cuda_miner_falls_back_to_cpu() {
    let config = GpuConfig::default().with_backend(GpuBackend::Cuda);
    let miner = GpuMiner::new(config).unwrap();
    assert_eq!(miner.context().device_info().backend, GpuBackend::Cpu);
    assert_eq!(miner.config().backend, GpuBackend::Cuda);
}

#[test]
fn stopped_miner_finds_nothing() {
    let mut miner = cpu_miner(4, 4);
    let target = [0xffu8; 64];
    assert!(matches!(miner.mine_batch(b"data", &target), Ok(None)));
    assert_eq!(miner.get_stats().total_hashes, 0);
}

#[test]
fn target_must_have_64_bytes() {
    let mut miner = cpu_miner(4, 4);
    miner.start().unwrap();
    match miner.mine_batch(b"data", &[0xffu8; 32]) {
        Err(GpuError::InvalidConfiguration(msg)) => {
            assert_eq!(msg, "Target must be 64 bytes for SHA-512")
        }
        other => panic!("unexpected {:?}", other),
    }
    assert_eq!(miner.get_stats().total_hashes, 0);
}

#[test]
fn opencl_and_cuda_mining_run_on_the_cpu() {
    let data = [3u8; 16];
    for backend in [GpuBackend::OpenCL, GpuBackend::Cuda] {
        let config = GpuConfig::default().with_backend(backend).with_threads(4).with_blocks(4);
        let mut miner = GpuMiner::new(config).unwrap();
        miner.start().unwrap();
        let found = miner.mine_batch(&data, &[0xffu8; 64]).unwrap().unwrap();
        assert_eq!(found, reference_hash(&data, 0));
        assert_eq!(miner.get_stats().total_hashes, 1);
        assert!(matches!(miner.mine_batch(&data, &[0u8; 64]), Ok(None)));
        assert_eq!(miner.get_stats().total_hashes, 17);
    }
}

#[test]
fn empty_data_against_the_easiest_target() {
    let mut miner = GpuMiner::new(GpuConfig::default().with_backend(GpuBackend::Cpu)).unwrap();
    miner.start().unwrap();
    let found = miner.mine_batch(&[], &[0xffu8; 64]).unwrap().unwrap();
    assert_eq!(found, Sha512::digest(0u64.to_le_bytes()).to_vec());
    assert_eq!(miner.get_stats().total_hashes, 1);
}

#[test]
fn reset_stats_keeps_the_uptime_origin() {
    let mut miner = cpu_miner(2, 2);
    miner.start().unwrap();
    let _ = miner.mine_batch(b"x", &[0u8; 64]);
    let before = miner.get_stats().uptime_seconds;
    miner.reset_stats().unwrap();
    let after = miner.get_stats();
    assert!(after.uptime_seconds >= before);
    assert_eq!(after.total_hashes, 0);
    assert!(after.running);
}

#[test]
fn easiest_target_accepts_the_first_nonce() {
    let mut miner = cpu_miner(8, 8);
    miner.start().unwrap();
    let data = [0u8; 80];
    let found = miner.mine_batch(&data, &[0xffu8; 64]).unwrap().unwrap();
    assert_eq!(found.len(), 64);
    assert_eq!(found, reference_hash(&data, 0));
    assert_eq!(miner.get_stats().total_hashes, 1);
}

#[test]
fn first_nonce_under_target_is_returned() {
    let data = b"silver block header".to_vec();
    let target = [0x10u8; 64];
    let expected_nonce = (0u64..)
        .find(|n| reference_hash(&data, *n).as_slice() <= &target[..])
        .unwrap();
    let mut miner = cpu_miner(1024, 1);
    miner.start().unwrap();
    let found = miner.mine_batch(&data, &target).unwrap().unwrap();
    assert_eq!(found, reference_hash(&data, expected_nonce));
    assert!(found.as_slice() <= &target[..]);
    assert_eq!(miner.get_stats().total_hashes, expected_nonce + 1);
}

#[test]
fn hashes_accumulate_over_batches() {
    let mut miner = cpu_miner(5, 3);
    miner.start().unwrap();
    let target = [0u8; 64];
    assert!(matches!(miner.mine_batch(b"a", &target), Ok(None)));
    assert!(matches!(miner.mine_batch(b"b", &target), Ok(None)));
    let stats = miner.get_stats();
    assert_eq!(stats.total_hashes, 30);
    assert!(stats.running);
}

#[test]
fn stats_report_half_the_free_memory() {
    let miner = cpu_miner(1, 1);
    let stats = miner.counters_at(42);
    assert_eq!(stats.uptime_seconds, 42);
    assert_eq!(stats.gpu_memory_used, miner.context().available_memory() / 2);
    assert!(!stats.running);
    assert!(miner.synchronize().is_ok());
    assert_eq!(miner.config().threads_per_block, 1);
}

#[test]
fn nonce_input_appends_little_endian_nonce() {
    assert_eq!(nonce_input(&[7], 258), vec![7, 2, 1, 0, 0, 0, 0, 0, 0]);
    assert_eq!(nonce_input(&[], u64::MAX), vec![0xff; 8]);
    assert_eq!(nonce_input(&[1, 2, 3], 0), vec![1, 2, 3, 0, 0, 0, 0, 0, 0, 0, 0]);
}

#[test]
fn lexicographic_target_comparison() {
    assert!(hash_meets_target(&[1, 2], &[1, 3]));
    assert!(!hash_meets_target(&[1, 3], &[1, 2]));
    assert!(hash_meets_target(&[5, 5], &[5, 5]));
    assert!(hash_meets_target(&[5], &[5, 0]));
    assert!(!hash_meets_target(&[5, 0], &[5]));
    assert!(hash_meets_target(&[], &[]));
    assert!(hash_meets_target(&[0, 255], &[1, 0]));
}

#[test]
fn allocation_on_the_miner_context_shows_in_stats() {
    let mut miner = cpu_miner(1, 1);
    let free = miner.context().available_memory();
    assert!(miner.context_mut().allocate_memory(100).is_ok());
    assert_eq!(miner.context().allocated_memory(), 100);
    assert_eq!(miner.get_stats().gpu_memory_used, (free - 100) / 2);
    assert_eq!(miner.config().threads_per_block, 1);
    assert!(!miner.is_running());
}
