//! GPU context: device detection and device memory accounting.

use vstd::prelude::*;

verus! {

use crate::errors::GpuError;
use crate::text::{decimal, push_decimal};
use crate::{GpuBackend, GpuConfig, GpuDeviceInfo};

/// Bytes in a mebibyte; the context counts memory in these units.
pub const BYTES_PER_MB: u64 = 1048576;

/// Declares `std::time::SystemTime`, which stamps each allocation.
#[verifier::external_type_specification]
#[verifier::external_body]
pub struct ExSystemTime(std::time::SystemTime);

/// Calls `std::time::SystemTime::now`. Nothing is stated of the clock
/// reading it returns.
#[verifier::external_body]
fn system_time_now() -> std::time::SystemTime {
    std::time::SystemTime::now()
}

/// Calls `num_cpus::get`: the number of logical CPUs available to this
/// process, which its documentation promises to be at least 1. The count
/// depends on the machine, so nothing else is stated.
#[verifier::external_body]
fn logical_cpu_count() -> (n: usize)
    ensures
        n >= 1,
{
    num_cpus::get()
}

/// Calls `num_cpus::get_physical`: the number of physical cores, which its
/// documentation promises to be at least 1. The count depends on the
/// machine, so nothing else is stated.
#[verifier::external_body]
fn physical_cpu_count() -> (n: usize)
    ensures
        n >= 1,
{
    num_cpus::get_physical()
}

/// Reads `std::path::MAIN_SEPARATOR`, the path separator of the platform the
/// crate was built for (`\` on Windows, `/` on Unix); the CPU fallback
/// tells Windows apart by it. Nothing is stated of it, as it depends on the
/// build target.
#[verifier::external_body]
fn platform_path_separator() -> char {
    std::path::MAIN_SEPARATOR
}

/// `s` with its first occurrence of `x` removed (`s` itself when `x` does
/// not occur in it).
pub open spec fn remove_first(s: Seq<u64>, x: u64) -> Seq<u64>
    decreases s.len(),
{
    if s.len() == 0 {
        s
    } else if s[0] == x {
        s.drop_first()
    } else {
        seq![s[0]] + remove_first(s.drop_first(), x)
    }
}

/// Removing the first occurrence of `x` removes the element at the first
/// index that holds `x`.
pub proof fn lemma_remove_first_at(s: Seq<u64>, x: u64, p: int)
    requires
        0 <= p < s.len(),
        s[p] == x,
        forall|j: int| 0 <= j < p ==> s[j] != x,
    ensures
        remove_first(s, x) == s.remove(p),
    decreases p,
{
    if p == 0 {
        assert(s.drop_first() =~= s.remove(0));
    } else {
        lemma_remove_first_at(s.drop_first(), x, p - 1);
        assert(seq![s[0]] + s.drop_first().remove(p - 1) =~= s.remove(p));
    }
}

/// Removing an element that does not occur changes nothing.
pub proof fn lemma_remove_first_absent(s: Seq<u64>, x: u64)
    requires
        forall|j: int| 0 <= j < s.len() ==> s[j] != x,
    ensures
        remove_first(s, x) == s,
    decreases s.len(),
{
    if s.len() > 0 {
        lemma_remove_first_absent(s.drop_first(), x);
        assert(seq![s[0]] + s.drop_first() =~= s);
    }
}

/// The first index of `s` that holds `x`.
proof fn first_index_of(s: Seq<u64>, x: u64) -> (p: int)
    requires
        exists|j: int| 0 <= j < s.len() && s[j] == x,
    ensures
        0 <= p < s.len(),
        s[p] == x,
        forall|j: int| 0 <= j < p ==> s[j] != x,
    decreases s.len(),
{
    if s[0] == x {
        0
    } else {
        let j = choose|j: int| 0 <= j < s.len() && s[j] == x;
        assert(s.drop_first()[j - 1] == x);
        let q = first_index_of(s.drop_first(), x);
        assert forall|k: int| 0 <= k < q + 1 implies s[k] != x by {
            if k > 0 {
                assert(s[k] == s.drop_first()[k - 1]);
            }
        }
        q + 1
    }
}

/// As a multiset, removing the first occurrence of `x` removes one `x`.
pub proof fn lemma_remove_first_multiset(s: Seq<u64>, x: u64)
    ensures
        remove_first(s, x).to_multiset() == s.to_multiset().remove(x),
{
    broadcast use vstd::seq_lib::group_to_multiset_ensures;

    if exists|j: int| 0 <= j < s.len() && s[j] == x {
        let p = first_index_of(s, x);
        lemma_remove_first_at(s, x, p);
        vstd::seq_lib::to_multiset_remove(s, p);
    } else {
        lemma_remove_first_absent(s, x);
        assert(!s.contains(x));
        assert(s.to_multiset().count(x) == 0);
        assert(s.to_multiset().remove(x) =~= s.to_multiset());
    }
}

/// Allocating `size` bytes and then giving `size` bytes back succeeds (at
/// least `size` bytes are handed out) and leaves the same live allocations, counted as a multiset (the oldest allocation of
/// that size is the one forgotten, so the order may differ), and exactly the
/// same sequence when no other live allocation has that size; the handed-out
/// byte count is restored.
pub proof fn lemma_allocation_round_trip(live: Seq<u64>, allocated: u64, size: u64)
    requires
        allocated + size <= u64::MAX,
    ensures
        allocated + size >= size,
        (allocated + size) - size == allocated,
        remove_first(live.push(size), size).to_multiset() == live.to_multiset(),
        !live.contains(size) ==> remove_first(live.push(size), size) == live,
{
    broadcast use vstd::seq_lib::group_to_multiset_ensures;

    lemma_remove_first_multiset(live.push(size), size);
    assert(live.push(size).to_multiset() == live.to_multiset().insert(size));
    assert(live.to_multiset().insert(size).remove(size) =~= live.to_multiset());
    if !live.contains(size) {
        lemma_remove_first_at(live.push(size), size, live.len() as int);
        assert(live.push(size).remove(live.len() as int) =~= live);
    }
}

/// A whole number of MB is a multiple of `BYTES_PER_MB`.
proof fn lemma_mb_multiple(size_mb: u64)
    ensures
        (size_mb * BYTES_PER_MB) % (BYTES_PER_MB as int) == 0,
{
    vstd::arithmetic::div_mod::lemma_mod_multiples_basic(size_mb as int, BYTES_PER_MB as int);
}

/// Whole MB handed out of a device of `total_mb` MB: the allocated MB and
/// the free MB add up to the device's MB.
proof fn lemma_whole_mb(total_mb: u64, allocated: u64)
    requires
        allocated % BYTES_PER_MB == 0,
        allocated <= total_mb * BYTES_PER_MB,
    ensures
        allocated / BYTES_PER_MB <= total_mb,
        (total_mb * BYTES_PER_MB - allocated) / BYTES_PER_MB as int + allocated / BYTES_PER_MB
            == total_mb,
{
    let b = BYTES_PER_MB as int;
    let k = allocated as int / b;
    vstd::arithmetic::div_mod::lemma_fundamental_div_mod(allocated as int, b);
    assert(allocated == k * b);
    assert(total_mb * b - allocated == (total_mb - k) * b) by (nonlinear_arith)
        requires
            allocated == k * b,
    ;
    assert(k <= total_mb) by (nonlinear_arith)
        requires
            k * b <= total_mb * b,
            b > 0,
    ;
    vstd::arithmetic::div_mod::lemma_div_multiples_vanish(total_mb - k, b);
}

/// One allocation made on the device.
struct MemoryAllocation {
    size: u64,
    allocated_at: std::time::SystemTime,
}

/// Device memory accounting: the device's capacity, the bytes handed out,
/// and the live allocations in the order they were made.
pub struct DeviceMemory {
    total_memory: u64,
    allocated_memory: u64,
    allocations: Vec<MemoryAllocation>,
}

impl DeviceMemory {
    /// The capacity of the device, in bytes.
    pub closed spec fn total_bytes(&self) -> u64 {
        self.total_memory
    }

    /// The bytes handed out, in bytes.
    pub closed spec fn allocated_bytes(&self) -> u64 {
        self.allocated_memory
    }

    /// The sizes of the live allocations, oldest first.
    pub closed spec fn live_allocations(&self) -> Seq<u64> {
        self.allocations@.map_values(|a: MemoryAllocation| a.size)
    }

    /// Never more is handed out than the device holds.
    #[verifier::type_invariant]
    closed spec fn within_capacity(&self) -> bool {
        self.allocated_memory <= self.total_memory
    }

    /// An empty device of `total_memory` bytes.
    pub fn new(total_memory: u64) -> (m: Self)
        ensures
            m.total_bytes() == total_memory,
            m.allocated_bytes() == 0,
            m.live_allocations() == Seq::<u64>::empty(),
    {
        let m = DeviceMemory { total_memory, allocated_memory: 0, allocations: Vec::new() };
        assert(m.live_allocations() =~= Seq::<u64>::empty());
        m
    }

    /// Hands out `size` bytes, or refuses when fewer than `size` bytes are
    /// free; a refusal changes nothing.
    pub fn allocate(&mut self, size: u64) -> (r: Result<(), GpuError>)
        requires
            old(self).allocated_bytes() + size <= u64::MAX,
        ensures
            final(self).total_bytes() == old(self).total_bytes(),
            final(self).allocated_bytes() <= final(self).total_bytes(),
            old(self).allocated_bytes() + size > old(self).total_bytes() ==> {
                &&& r matches Err(GpuError::MemoryAllocationFailed(msg))
                &&& msg@ == "Insufficient GPU memory: requested "@ + decimal(size as nat)
                    + ", available "@ + decimal(
                    (old(self).total_bytes() - old(self).allocated_bytes()) as nat,
                )
                &&& *final(self) == *old(self)
            },
            old(self).allocated_bytes() + size <= old(self).total_bytes() ==> {
                &&& r is Ok
                &&& final(self).total_bytes() == old(self).total_bytes()
                &&& final(self).allocated_bytes() == old(self).allocated_bytes() + size
                &&& final(self).live_allocations() == old(self).live_allocations().push(size)
            },
    {
        proof {
            use_type_invariant(&*self);
        }
        if self.allocated_memory + size > self.total_memory {
            let mut msg = String::from_str("Insufficient GPU memory: requested ");
            push_decimal(&mut msg, size);
            msg.append(", available ");
            push_decimal(&mut msg, self.total_memory - self.allocated_memory);
            return Err(GpuError::MemoryAllocationFailed(msg));
        }
        self.allocated_memory = self.allocated_memory + size;
        let mut allocations = Vec::new();
        std::mem::swap(&mut allocations, &mut self.allocations);
        allocations.push(MemoryAllocation { size, allocated_at: system_time_now() });
        self.allocations = allocations;
        assert(self.live_allocations() =~= old(self).live_allocations().push(size));
        Ok(())
    }

    /// Gives back `size` bytes and forgets the oldest live allocation of that
    /// size, if there is one; refuses, changing nothing, when fewer than
    /// `size` bytes are handed out.
    pub fn deallocate(&mut self, size: u64) -> (r: Result<(), GpuError>)
        ensures
            final(self).total_bytes() == old(self).total_bytes(),
            final(self).allocated_bytes() <= final(self).total_bytes(),
            old(self).allocated_bytes() < size ==> {
                &&& r matches Err(GpuError::Internal(msg))
                &&& msg@ == "Attempted to deallocate more memory than allocated"@
                &&& *final(self) == *old(self)
            },
            old(self).allocated_bytes() >= size ==> {
                &&& r is Ok
                &&& final(self).total_bytes() == old(self).total_bytes()
                &&& final(self).allocated_bytes() == old(self).allocated_bytes() - size
                &&& final(self).live_allocations() == remove_first(
                    old(self).live_allocations(),
                    size,
                )
            },
    {
        proof {
            use_type_invariant(&*self);
        }
        if self.allocated_memory < size {
            return Err(
                GpuError::Internal(
                    String::from_str("Attempted to deallocate more memory than allocated"),
                ),
            );
        }
        self.allocated_memory = self.allocated_memory - size;
        let ghost live = old(self).live_allocations();
        let n = self.allocations.len();
        let mut i: usize = 0;
        let mut found: Option<usize> = None;
        while i < n
            invariant
                n == self.allocations.len(),
                live == self.live_allocations(),
                i <= n,
                forall|j: int| 0 <= j < i ==> live[j] != size,
                found matches Some(p) ==> p < n && live[p as int] == size,
            ensures
                found matches Some(p) ==> p < n && live[p as int] == size && forall|j: int|
                    0 <= j < p ==> live[j] != size,
                found is None ==> forall|j: int| 0 <= j < n ==> live[j] != size,
            decreases n - i,
        {
            if self.allocations[i].size == size {
                found = Some(i);
                break;
            }
            i = i + 1;
        }
        match found {
            Some(p) => {
                let mut allocations = Vec::new();
                std::mem::swap(&mut allocations, &mut self.allocations);
                allocations.remove(p);
                self.allocations = allocations;
                proof {
                    lemma_remove_first_at(live, size, p as int);
                    assert(self.live_allocations() =~= live.remove(p as int));
                }
            },
            None => {
                proof {
                    lemma_remove_first_absent(live, size);
                }
            },
        }
        Ok(())
    }

    /// The free bytes.
    pub fn available_memory(&self) -> (r: u64)
        ensures
            r == self.total_bytes() - self.allocated_bytes(),
    {
        proof {
            use_type_invariant(self);
        }
        self.total_memory - self.allocated_memory
    }

    /// The handed-out bytes, which never exceed the capacity.
    pub fn allocated_memory(&self) -> (r: u64)
        ensures
            r == self.allocated_bytes(),
            r <= self.total_bytes(),
    {
        proof {
            use_type_invariant(self);
        }
        self.allocated_memory
    }

    /// Forgets every allocation.
    pub fn release_all(&mut self)
        ensures
            final(self).total_bytes() == old(self).total_bytes(),
            final(self).allocated_bytes() == 0,
            final(self).live_allocations() == Seq::<u64>::empty(),
    {
        self.allocated_memory = 0;
        let mut allocations = Vec::new();
        std::mem::swap(&mut allocations, &mut self.allocations);
        allocations.clear();
        self.allocations = allocations;
        assert(self.live_allocations() =~= Seq::<u64>::empty());
    }
}


/// The name of the CPU fallback device:
/// `CPU (<logical> logical, <physical> physical cores)`.
pub open spec fn cpu_device_name(logical: u32, physical: u32) -> Seq<char> {
    "CPU ("@ + decimal(logical as nat) + " logical, "@ + decimal(physical as nat)
        + " physical cores)"@
}

/// The memory assumed for the CPU fallback device: 4096 MB on Windows,
/// 8192 MB elsewhere. `detect_cpu_device` tells Windows apart by the
/// platform's path separator, a backslash; the few other targets whose
/// separator is a backslash (UEFI, for one) are counted as Windows too.
pub open spec fn cpu_memory_estimate_mb(on_windows: bool) -> u64 {
    if on_windows {
        4096
    } else {
        8192
    }
}

/// `info` describes the CPU fallback device on a machine with `logical`
/// logical CPUs and `physical` physical cores.
pub open spec fn describes_cpu(
    info: GpuDeviceInfo,
    logical: u32,
    physical: u32,
    on_windows: bool,
) -> bool {
    &&& info.id == 0
    &&& info.name@ == cpu_device_name(logical, physical)
    &&& info.backend == GpuBackend::Cpu
    &&& info.compute_capability@ == "1.0"@
    &&& info.memory_mb == cpu_memory_estimate_mb(on_windows)
    &&& info.max_threads == logical
}

/// `info` describes the CPU fallback device of some machine, with at least
/// one logical CPU and one physical core (each count taken modulo 2^32, as
/// it is stored in a `u32`).
pub open spec fn is_cpu_device(info: GpuDeviceInfo) -> bool {
    exists|logical: usize, physical: usize, on_windows: bool|
        describes_cpu_counts(info, logical, physical, on_windows)
}

/// `info` describes the CPU fallback device of a machine with `logical >= 1`
/// logical CPUs and `physical >= 1` physical cores, each count stored in a
/// `u32` (modulo 2^32).
pub open spec fn describes_cpu_counts(
    info: GpuDeviceInfo,
    logical: usize,
    physical: usize,
    on_windows: bool,
) -> bool {
    &&& logical >= 1
    &&& physical >= 1
    &&& describes_cpu(info, logical as u32, physical as u32, on_windows)
}

/// GPU context: the configuration, the device in use, and the accounting of
/// the device's memory.
pub struct GpuContext {
    config: GpuConfig,
    device_info: GpuDeviceInfo,
    is_initialized: bool,
    device_memory: DeviceMemory,
}

impl GpuContext {
    /// The configuration the context was made with.
    pub closed spec fn spec_config(&self) -> GpuConfig {
        self.config
    }

    /// The device in use.
    pub closed spec fn spec_device_info(&self) -> GpuDeviceInfo {
        self.device_info
    }

    /// Whether the context is initialised.
    pub closed spec fn spec_initialized(&self) -> bool {
        self.is_initialized
    }

    /// The accounting of the device's memory.
    pub closed spec fn spec_memory(&self) -> DeviceMemory {
        self.device_memory
    }

    /// The memory account is the device's: its capacity is the device's
    /// memory, and whole MB are handed out.
    #[verifier::type_invariant]
    closed spec fn accounts_device_memory(&self) -> bool {
        &&& self.device_memory.total_bytes() == self.device_info.memory_mb * BYTES_PER_MB
        &&& self.device_memory.allocated_bytes() % BYTES_PER_MB == 0
    }

    /// A context just made for `config`: it holds `config`, describes the
    /// CPU fallback device, is initialised, and has nothing allocated out of
    /// the device's memory.
    pub open spec fn is_fresh(&self, config: GpuConfig) -> bool {
        &&& self.spec_config() == config
        &&& is_cpu_device(self.spec_device_info())
        &&& self.spec_initialized()
        &&& self.spec_memory().total_bytes() == self.spec_device_info().memory_mb * BYTES_PER_MB
        &&& self.spec_memory().allocated_bytes() == 0
        &&& self.spec_memory().live_allocations() == Seq::<u64>::empty()
    }

    /// Creates a context for the configured backend. Neither CUDA nor OpenCL
    /// support is compiled in, so every backend falls back to the CPU device.
    /// The context starts with nothing allocated.
    pub fn new(config: GpuConfig) -> (r: Result<GpuContext, GpuError>)
        ensures
            r matches Ok(c) && c.is_fresh(config),
    {
        let device_info = match Self::detect_gpu_device(config.backend) {
            Ok(info) => info,
            Err(e) => return Err(e),
        };
        proof {
            let (l, p, w) = choose|l: usize, p: usize, w: bool|
                describes_cpu_counts(device_info, l, p, w);
            assert(device_info.memory_mb <= 8192);
        }
        let device_memory = DeviceMemory::new(device_info.memory_mb * BYTES_PER_MB);
        Ok(GpuContext { config, device_info, is_initialized: true, device_memory })
    }

    /// Detects the device of a backend.
    fn detect_gpu_device(backend: GpuBackend) -> (r: Result<GpuDeviceInfo, GpuError>)
        ensures
            r matches Ok(info) && is_cpu_device(info),
    {
        match backend {
            GpuBackend::OpenCL => Self::detect_opencl_device(),
            GpuBackend::Cuda => Self::detect_cuda_device(),
            GpuBackend::Cpu => Self::detect_cpu_device(),
        }
    }

    /// OpenCL detection: OpenCL support is not compiled in, so the CPU
    /// device is used instead.
    fn detect_opencl_device() -> (r: Result<GpuDeviceInfo, GpuError>)
        ensures
            r matches Ok(info) && is_cpu_device(info),
    {
        Self::detect_cpu_device()
    }

    /// CUDA detection: CUDA support is not compiled in, so the CPU device is
    /// used instead.
    fn detect_cuda_device() -> (r: Result<GpuDeviceInfo, GpuError>)
        ensures
            r matches Ok(info) && is_cpu_device(info),
    {
        Self::detect_cpu_device()
    }

    /// Describes the CPU of this machine as the fallback device. Windows is
    /// told apart by the platform's path separator being a backslash, which
    /// also holds on a few non-Windows targets (UEFI, for one); there the
    /// memory estimate is the Windows one.
    fn detect_cpu_device() -> (r: Result<GpuDeviceInfo, GpuError>)
        ensures
            r matches Ok(info) && is_cpu_device(info),
    {
        let logical = logical_cpu_count();
        let physical = physical_cpu_count();
        let num_cpus = logical as u32;
        let num_physical_cpus = physical as u32;
        let on_windows = platform_path_separator() == '\\';
        let info = Self::cpu_device_info(num_cpus, num_physical_cpus, on_windows);
        assert(describes_cpu_counts(info, logical, physical, on_windows));
        Ok(info)
    }

    /// The description of the CPU fallback device for a machine with
    /// `logical` logical CPUs and `physical` physical cores.
    pub fn cpu_device_info(logical: u32, physical: u32, on_windows: bool) -> (info:
        GpuDeviceInfo)
        ensures
            describes_cpu(info, logical, physical, on_windows),
    {
        let mut name = String::from_str("CPU (");
        push_decimal(&mut name, logical as u64);
        name.append(" logical, ");
        push_decimal(&mut name, physical as u64);
        name.append(" physical cores)");
        let system_memory_mb: u64 = if on_windows {
            4096
        } else {
            8192
        };
        GpuDeviceInfo {
            id: 0,
            name,
            backend: GpuBackend::Cpu,
            compute_capability: String::from_str("1.0"),
            memory_mb: system_memory_mb,
            max_threads: logical,
        }
    }

    /// The device in use.
    pub fn device_info(&self) -> (r: &GpuDeviceInfo)
        ensures
            *r == self.spec_device_info(),
    {
        &self.device_info
    }

    /// The configuration.
    pub fn config(&self) -> (r: &GpuConfig)
        ensures
            *r == self.spec_config(),
    {
        &self.config
    }

    /// Whether the context is initialised.
    pub fn is_initialized(&self) -> (r: bool)
        ensures
            r == self.spec_initialized(),
    {
        self.is_initialized
    }

    /// The free device memory, in MB; with the allocated MB it makes up the
    /// device's memory.
    pub fn available_memory(&self) -> (r: u64)
        ensures
            r == (self.spec_memory().total_bytes() - self.spec_memory().allocated_bytes())
                / BYTES_PER_MB as int,
            r + self.spec_memory().allocated_bytes() / BYTES_PER_MB
                == self.spec_device_info().memory_mb,
    {
        proof {
            use_type_invariant(self);
        }
        let allocated = self.device_memory.allocated_memory();
        proof {
            lemma_whole_mb(self.device_info.memory_mb, allocated);
        }
        self.device_memory.available_memory() / BYTES_PER_MB
    }

    /// The allocated device memory, in MB; with the free MB it makes up the
    /// device's memory.
    pub fn allocated_memory(&self) -> (r: u64)
        ensures
            r == self.spec_memory().allocated_bytes() / BYTES_PER_MB,
            r <= self.spec_device_info().memory_mb,
            r + (self.spec_memory().total_bytes() - self.spec_memory().allocated_bytes())
                / BYTES_PER_MB as int == self.spec_device_info().memory_mb,
    {
        proof {
            use_type_invariant(self);
        }
        let allocated = self.device_memory.allocated_memory();
        proof {
            lemma_whole_mb(self.device_info.memory_mb, allocated);
        }
        allocated / BYTES_PER_MB
    }

    /// Allocates `size_mb` MB of device memory, or refuses when less is
    /// free; a refusal changes nothing.
    pub fn allocate_memory(&mut self, size_mb: u64) -> (r: Result<(), GpuError>)
        requires
            size_mb * BYTES_PER_MB + old(self).spec_memory().allocated_bytes() <= u64::MAX,
        ensures
            final(self).spec_config() == old(self).spec_config(),
            final(self).spec_device_info() == old(self).spec_device_info(),
            final(self).spec_initialized() == old(self).spec_initialized(),
            ({
                let before = old(self).spec_memory();
                let after = final(self).spec_memory();
                let size = (size_mb * BYTES_PER_MB) as u64;
                &&& before.allocated_bytes() + size > before.total_bytes() ==> {
                    &&& r matches Err(GpuError::MemoryAllocationFailed(msg))
                    &&& msg@ == "Insufficient GPU memory: requested "@ + decimal(size as nat)
                        + ", available "@ + decimal(
                        (before.total_bytes() - before.allocated_bytes()) as nat,
                    )
                    &&& after == before
                }
                &&& before.allocated_bytes() + size <= before.total_bytes() ==> {
                    &&& r is Ok
                    &&& after.total_bytes() == before.total_bytes()
                    &&& after.allocated_bytes() == before.allocated_bytes() + size
                    &&& after.live_allocations() == before.live_allocations().push(size)
                }
            }),
    {
        proof {
            use_type_invariant(&*self);
            lemma_mb_multiple(size_mb);
        }
        // The account is taken out while it changes; an empty account of the
        // same capacity stands in for it meanwhile.
        let mut memory = DeviceMemory::new(self.device_info.memory_mb * BYTES_PER_MB);
        std::mem::swap(&mut memory, &mut self.device_memory);
        let r = memory.allocate(size_mb * BYTES_PER_MB);
        self.device_memory = memory;
        r
    }

    /// Releases `size_mb` MB of device memory, or refuses, changing nothing,
    /// when less is allocated.
    pub fn deallocate_memory(&mut self, size_mb: u64) -> (r: Result<(), GpuError>)
        requires
            size_mb * BYTES_PER_MB <= u64::MAX,
        ensures
            final(self).spec_config() == old(self).spec_config(),
            final(self).spec_device_info() == old(self).spec_device_info(),
            final(self).spec_initialized() == old(self).spec_initialized(),
            ({
                let before = old(self).spec_memory();
                let after = final(self).spec_memory();
                let size = (size_mb * BYTES_PER_MB) as u64;
                &&& before.allocated_bytes() < size ==> {
                    &&& r matches Err(GpuError::Internal(msg))
                    &&& msg@ == "Attempted to deallocate more memory than allocated"@
                    &&& after == before
                }
                &&& before.allocated_bytes() >= size ==> {
                    &&& r is Ok
                    &&& after.total_bytes() == before.total_bytes()
                    &&& after.allocated_bytes() == before.allocated_bytes() - size
                    &&& after.live_allocations() == remove_first(before.live_allocations(), size)
                }
            }),
    {
        proof {
            use_type_invariant(&*self);
            lemma_mb_multiple(size_mb);
        }
        // The account is taken out while it changes; an empty account of the
        // same capacity stands in for it meanwhile.
        let mut memory = DeviceMemory::new(self.device_info.memory_mb * BYTES_PER_MB);
        std::mem::swap(&mut memory, &mut self.device_memory);
        let r = memory.deallocate(size_mb * BYTES_PER_MB);
        self.device_memory = memory;
        r
    }

    /// The maximum number of threads of the device.
    pub fn max_threads(&self) -> (r: u32)
        ensures
            r == self.spec_device_info().max_threads,
    {
        self.device_info.max_threads
    }

    /// Waits for the device's pending work; with no GPU driver compiled in
    /// there is none, and it always succeeds.
    pub fn synchronize(&self) -> (r: Result<(), GpuError>)
        ensures
            r is Ok,
    {
        Ok(())
    }

    /// Releases every allocation and marks the context initialised.
    pub fn reset(&mut self) -> (r: Result<(), GpuError>)
        ensures
            r is Ok,
            final(self).spec_config() == old(self).spec_config(),
            final(self).spec_device_info() == old(self).spec_device_info(),
            final(self).spec_initialized(),
            final(self).spec_memory().total_bytes() == old(self).spec_memory().total_bytes(),
            final(self).spec_memory().total_bytes() == final(self).spec_device_info().memory_mb
                * BYTES_PER_MB,
            final(self).spec_memory().allocated_bytes() == 0,
            final(self).spec_memory().live_allocations() == Seq::<u64>::empty(),
    {
        proof {
            use_type_invariant(&*self);
        }
        let mut memory = DeviceMemory::new(self.device_info.memory_mb * BYTES_PER_MB);
        std::mem::swap(&mut memory, &mut self.device_memory);
        memory.release_all();
        self.device_memory = memory;
        self.is_initialized = true;
        Ok(())
    }
}

} // verus!
