//! SHA-512 proof-of-work mining: a batch of nonces is tried in order and the
//! first hash that does not exceed the target is returned.

use sha2::Digest;
use vstd::prelude::*;

verus! {

use crate::errors::GpuError;
use crate::gpu_context::{GpuContext, BYTES_PER_MB};
use crate::{GpuBackend, GpuConfig};

/// The SHA-512 digest of `data`.
pub uninterp spec fn sha512(data: Seq<u8>) -> Seq<u8>;

/// Calls `sha2::Sha512::digest` (a fresh hasher, one `update` with `data`,
/// `finalize`). The digest is stated to be `sha512` of the bytes, and to
/// be 64 bytes long, the output size of `Sha512`; the algorithm itself is
/// not restated.
#[verifier::external_body]
fn sha512_digest(data: &[u8]) -> (h: Vec<u8>)
    ensures
        h@ == sha512(data@),
        h@.len() == 64,
{
    sha2::Sha512::digest(data).to_vec()
}

/// Declares `std::time::Instant`, the moment a miner was created.
#[verifier::external_type_specification]
#[verifier::external_body]
pub struct ExInstant(std::time::Instant);

/// Calls `std::time::Instant::now`. Nothing is stated of the reading.
#[verifier::external_body]
fn instant_now() -> std::time::Instant {
    std::time::Instant::now()
}

/// Calls `std::time::Instant::elapsed`. Nothing is stated of the time that
/// has passed.
#[verifier::external_body]
fn elapsed_since(start: &std::time::Instant) -> core::time::Duration {
    start.elapsed()
}

/// Calls `std::time::Duration::as_secs`, the whole seconds of a duration.
/// A duration is opaque here, so nothing is stated of the result.
#[verifier::external_body]
fn whole_seconds(d: &core::time::Duration) -> u64 {
    d.as_secs()
}

/// The `count` lowest base-256 digits of `n`, least significant first.
pub open spec fn le_digits(n: nat, count: nat) -> Seq<u8>
    decreases count,
{
    if count == 0 {
        seq![]
    } else {
        seq![(n % 256) as u8] + le_digits(n / 256, (count - 1) as nat)
    }
}

/// The 8 little-endian bytes of `n`.
pub open spec fn le_bytes(n: u64) -> Seq<u8> {
    le_digits(n as nat, 8)
}

/// The number a little-endian byte string denotes.
pub open spec fn le_value(s: Seq<u8>) -> int
    decreases s.len(),
{
    if s.len() == 0 {
        0
    } else {
        s[0] as int + 256 * le_value(s.drop_first())
    }
}

/// 256 to the power `k`.
pub open spec fn pow256(k: nat) -> int
    decreases k,
{
    if k == 0 {
        1
    } else {
        256 * pow256((k - 1) as nat)
    }
}

proof fn lemma_le_digits_value(n: nat, k: nat)
    requires
        n < pow256(k),
    ensures
        le_digits(n, k).len() == k,
        le_value(le_digits(n, k)) == n,
    decreases k,
{
    if k > 0 {
        assert(n / 256 < pow256((k - 1) as nat));
        lemma_le_digits_value(n / 256, (k - 1) as nat);
        let s = le_digits(n, k);
        assert(s.drop_first() =~= le_digits(n / 256, (k - 1) as nat));
        assert(s[0] as int == n % 256);
    }
}

/// The nonce's bytes are 8 bytes that, read little-endian, give the nonce
/// back.
pub proof fn lemma_le_bytes_denote(n: u64)
    ensures
        le_bytes(n).len() == 8,
        le_value(le_bytes(n)) == n,
{
    reveal_with_fuel(pow256, 9);
    assert(pow256(8) == 0x1_0000_0000_0000_0000);
    lemma_le_digits_value(n as nat, 8);
}

/// The message for a nonce is the work data followed by 8 bytes that, read
/// little-endian, give the nonce back.
pub proof fn lemma_nonce_message_layout(data: Seq<u8>, nonce: u64)
    ensures
        nonce_message(data, nonce).len() == data.len() + 8,
        nonce_message(data, nonce).subrange(0, data.len() as int) == data,
        le_value(nonce_message(data, nonce).subrange(data.len() as int, data.len() + 8int)) == nonce,
{
    lemma_le_bytes_denote(nonce);
    let m = nonce_message(data, nonce);
    assert(m.subrange(0, data.len() as int) =~= data);
    assert(m.subrange(data.len() as int, data.len() + 8int) =~= le_bytes(nonce));
}

/// The message hashed for a nonce: the work data followed by the nonce's
/// little-endian bytes.
pub open spec fn nonce_message(data: Seq<u8>, nonce: u64) -> Seq<u8> {
    data + le_bytes(nonce)
}

/// Lexicographic order on byte strings (the order of `<=` on byte slices):
/// the first differing byte decides, and a proper prefix comes first.
pub open spec fn lex_le(a: Seq<u8>, b: Seq<u8>) -> bool
    decreases a.len(),
{
    if a.len() == 0 {
        true
    } else if b.len() == 0 {
        false
    } else if a[0] < b[0] {
        true
    } else if a[0] > b[0] {
        false
    } else {
        lex_le(a.drop_first(), b.drop_first())
    }
}

/// `a` is a prefix of `b`.
pub open spec fn is_prefix(a: Seq<u8>, b: Seq<u8>) -> bool {
    a.len() <= b.len() && forall|j: int| 0 <= j < a.len() ==> a[j] == b[j]
}

/// `a` comes before `b` at index `i`: they agree before `i`, and at `i` the
/// byte of `a` is the smaller.
pub open spec fn first_difference_below(a: Seq<u8>, b: Seq<u8>, i: int) -> bool {
    &&& 0 <= i < a.len()
    &&& i < b.len()
    &&& forall|j: int| 0 <= j < i ==> a[j] == b[j]
    &&& a[i] < b[i]
}

/// The order of `<=` on byte strings: `a` does not exceed `b` exactly when
/// `a` is a prefix of `b`, or at the first index where they differ the byte
/// of `a` is the smaller.
pub proof fn lemma_lex_le_first_difference(a: Seq<u8>, b: Seq<u8>)
    ensures
        lex_le(a, b) <==> (is_prefix(a, b) || exists|i: int| first_difference_below(a, b, i)),
    decreases a.len(),
{
    if a.len() == 0 {
    } else if b.len() == 0 {
        assert(!is_prefix(a, b));
        assert(forall|i: int| !first_difference_below(a, b, i));
    } else if a[0] < b[0] {
        assert(first_difference_below(a, b, 0));
    } else if a[0] > b[0] {
        assert(!is_prefix(a, b)) by {
            assert(!(a[0] == b[0]));
        }
        assert forall|i: int| !first_difference_below(a, b, i) by {
            if 0 < i && first_difference_below(a, b, i) {
                assert(a[0] == b[0]);
            }
        }
    } else {
        let a1 = a.drop_first();
        let b1 = b.drop_first();
        lemma_lex_le_first_difference(a1, b1);
        if is_prefix(a1, b1) {
            assert forall|j: int| 0 <= j < a.len() implies a[j] == b[j] by {
                if j > 0 {
                    assert(a[j] == a1[j - 1]);
                }
            }
            assert(is_prefix(a, b));
        }
        if is_prefix(a, b) {
            assert forall|j: int| 0 <= j < a1.len() implies a1[j] == b1[j] by {
                assert(a[j + 1] == b[j + 1]);
            }
            assert(is_prefix(a1, b1));
        }
        if exists|i: int| first_difference_below(a1, b1, i) {
            let i = choose|i: int| first_difference_below(a1, b1, i);
            assert forall|j: int| 0 <= j < i + 1 implies a[j] == b[j] by {
                if j > 0 {
                    assert(a[j] == a1[j - 1] && b[j] == b1[j - 1]);
                }
            }
            assert(first_difference_below(a, b, i + 1));
        }
        if exists|i: int| first_difference_below(a, b, i) {
            let i = choose|i: int| first_difference_below(a, b, i);
            assert(i != 0);
            assert forall|j: int| 0 <= j < i - 1 implies a1[j] == b1[j] by {
                assert(a[j + 1] == b[j + 1]);
            }
            assert(first_difference_below(a1, b1, i - 1));
        }
    }
}

/// A byte string does not exceed itself, so a hash equal to the target
/// meets it.
pub proof fn lemma_lex_le_reflexive(a: Seq<u8>)
    ensures
        lex_le(a, a),
    decreases a.len(),
{
    if a.len() > 0 {
        lemma_lex_le_reflexive(a.drop_first());
    }
}

/// A byte string no longer than a target of all-`0xff` bytes does not
/// exceed it: against such a target every 64-byte hash is accepted.
pub proof fn lemma_lex_le_all_ones(a: Seq<u8>, b: Seq<u8>)
    requires
        a.len() <= b.len(),
        forall|i: int| 0 <= i < b.len() ==> b[i] == 0xff,
    ensures
        lex_le(a, b),
    decreases a.len(),
{
    if a.len() > 0 {
        assert(b[0] == 0xff);
        lemma_lex_le_all_ones(a.drop_first(), b.drop_first());
    }
}

/// The hash of the message for `nonce` does not exceed `target`.
pub open spec fn meets_target(data: Seq<u8>, target: Seq<u8>, nonce: u64) -> bool {
    lex_le(sha512(nonce_message(data, nonce)), target)
}

/// `nonce` meets the target and no smaller nonce does.
pub open spec fn first_valid_nonce(data: Seq<u8>, target: Seq<u8>, nonce: u64) -> bool {
    &&& meets_target(data, target, nonce)
    &&& forall|m: u64| m < nonce ==> !meets_target(data, target, m)
}

/// The hashes of the messages for the nonces below `count` are 64 bytes
/// long.
pub open spec fn hashes_are_64_bytes(data: Seq<u8>, count: nat) -> bool {
    forall|m: u64| m < count ==> (#[trigger] sha512(nonce_message(data, m))).len() == 64
}

/// No nonce below `batch` meets the target.
pub open spec fn no_valid_nonce(data: Seq<u8>, target: Seq<u8>, batch: nat) -> bool {
    forall|m: u64| m < batch ==> !meets_target(data, target, m)
}

/// The nonces tried by one batch: threads per block times blocks.
pub open spec fn batch_size(config: GpuConfig) -> nat {
    config.threads_per_block as nat * config.num_blocks as nat
}

/// The hash counter `count` hashes after `start`; the counter wraps around
/// past `u64::MAX`.
pub open spec fn counter_after(start: u64, count: nat) -> u64 {
    ((start + count) % 0x1_0000_0000_0000_0000) as u64
}

proof fn lemma_counter_step(start: u64, count: nat)
    ensures
        vstd::wrapping::u64_specs::wrapping_add(counter_after(start, count), 1) == counter_after(
            start,
            count + 1,
        ),
{
    let m: int = 0x1_0000_0000_0000_0000;
    let x: int = start + count;
    vstd::arithmetic::div_mod::lemma_add_mod_noop(x, 1, m);
    vstd::arithmetic::div_mod::lemma_small_mod(1, m as nat);
    vstd::arithmetic::div_mod::lemma_mod_bound(x, m);
    if x % m + 1 < m {
        vstd::arithmetic::div_mod::lemma_small_mod((x % m + 1) as nat, m as nat);
    } else {
        vstd::arithmetic::div_mod::lemma_mod_self_0(m);
    }
}

/// Appends the 8 little-endian bytes of `n` to `v`.
fn push_le_bytes(v: &mut Vec<u8>, n: u64)
    ensures
        final(v)@ == old(v)@ + le_bytes(n),
{
    let mut x: u64 = n;
    let mut i: usize = 0;
    while i < 8
        invariant
            i <= 8,
            v@ + le_digits(x as nat, (8 - i) as nat) == old(v)@ + le_bytes(n),
        decreases 8 - i,
    {
        let ghost before = v@;
        let ghost rest = le_digits(x as nat, (8 - i) as nat);
        v.push((x % 256) as u8);
        x = x / 256;
        i = i + 1;
        assert(rest == seq![(v@.last())] + le_digits(x as nat, (8 - i) as nat));
        assert(v@ + le_digits(x as nat, (8 - i) as nat) =~= before + rest);
    }
    assert(le_digits(x as nat, 0) =~= Seq::<u8>::empty());
    assert(v@ =~= old(v)@ + le_bytes(n));
}

/// The message hashed for `nonce`: `data` followed by the nonce's 8
/// little-endian bytes.
pub fn nonce_input(data: &[u8], nonce: u64) -> (m: Vec<u8>)
    ensures
        m@ == nonce_message(data@, nonce),
{
    let mut m: Vec<u8> = Vec::new();
    let n = data.len();
    let mut i: usize = 0;
    while i < n
        invariant
            n == data@.len(),
            i <= n,
            m@ == data@.subrange(0, i as int),
        decreases n - i,
    {
        m.push(data[i]);
        i = i + 1;
        assert(m@ =~= data@.subrange(0, i as int));
    }
    assert(m@ =~= data@);
    push_le_bytes(&mut m, nonce);
    m
}

/// Whether `hash` does not exceed `target` in lexicographic byte order.
pub fn hash_meets_target(hash: &[u8], target: &[u8]) -> (b: bool)
    ensures
        b == lex_le(hash@, target@),
{
    let n = hash.len();
    let t = target.len();
    let mut i: usize = 0;
    assert(hash@.skip(0) =~= hash@);
    assert(target@.skip(0) =~= target@);
    while i < n && i < t
        invariant
            n == hash@.len(),
            t == target@.len(),
            i <= n,
            i <= t,
            lex_le(hash@, target@) == lex_le(hash@.skip(i as int), target@.skip(i as int)),
        decreases n - i,
    {
        let a = hash[i];
        let c = target[i];
        assert(hash@.skip(i as int)[0] == a);
        assert(target@.skip(i as int)[0] == c);
        if a < c {
            return true;
        }
        if a > c {
            return false;
        }
        assert(hash@.skip(i as int).drop_first() =~= hash@.skip(i + 1));
        assert(target@.skip(i as int).drop_first() =~= target@.skip(i + 1));
        i = i + 1;
    }
    assert(hash@.skip(i as int).len() == n - i);
    assert(target@.skip(i as int).len() == t - i);
    i == n
}

/// The counters of a miner's statistics.
#[derive(Debug, Clone, Copy)]
pub struct MinerCounters {
    /// Hashes computed since the miner was created or its statistics reset
    pub total_hashes: u64,
    /// Valid proofs recorded
    pub valid_proofs: u64,
    /// Seconds since the miner was created
    pub uptime_seconds: u64,
    /// Estimated device memory in use, in MB: half the free memory
    pub gpu_memory_used: u64,
    /// Whether the miner is running
    pub running: bool,
}

/// GPU-accelerated miner.
pub struct GpuMiner {
    config: GpuConfig,
    context: GpuContext,
    total_hashes: u64,
    valid_proofs: u64,
    start_time: std::time::Instant,
    is_running: bool,
}

impl GpuMiner {
    /// The configuration the miner was made with.
    pub closed spec fn spec_config(&self) -> GpuConfig {
        self.config
    }

    /// The miner's GPU context.
    pub closed spec fn spec_context(&self) -> GpuContext {
        self.context
    }

    /// Hashes computed since the miner was created or its statistics reset
    /// (wrapping past `u64::MAX`).
    pub closed spec fn spec_total_hashes(&self) -> u64 {
        self.total_hashes
    }

    /// Valid proofs recorded in the statistics.
    pub closed spec fn spec_valid_proofs(&self) -> u64 {
        self.valid_proofs
    }

    /// Whether the miner is running.
    pub closed spec fn spec_running(&self) -> bool {
        self.is_running
    }

    /// The moment the miner was created, from which its uptime counts.
    pub closed spec fn spec_start_time(&self) -> std::time::Instant {
        self.start_time
    }

    /// Everything but the running flag is as in `other`.
    pub open spec fn same_but_running(&self, other: &GpuMiner) -> bool {
        &&& self.spec_config() == other.spec_config()
        &&& self.spec_context() == other.spec_context()
        &&& self.spec_total_hashes() == other.spec_total_hashes()
        &&& self.spec_valid_proofs() == other.spec_valid_proofs()
        &&& self.spec_start_time() == other.spec_start_time()
    }

    /// The statistics counters of the miner after `uptime_seconds` seconds.
    pub open spec fn counters(&self, uptime_seconds: u64) -> MinerCounters {
        MinerCounters {
            total_hashes: self.spec_total_hashes(),
            valid_proofs: self.spec_valid_proofs(),
            uptime_seconds,
            gpu_memory_used: (((self.spec_context().spec_memory().total_bytes()
                - self.spec_context().spec_memory().allocated_bytes()) / BYTES_PER_MB as int)
                / 2) as u64,
            running: self.spec_running(),
        }
    }

    /// Creates a miner for `config`, on the CPU device when the configured
    /// backend is not compiled in; it starts stopped, with no hashes counted.
    pub fn new(config: GpuConfig) -> (r: Result<GpuMiner, GpuError>)
        ensures
            (r matches Ok(m) && {
                &&& m.spec_config() == config
                &&& m.spec_context().is_fresh(config)
                &&& m.spec_total_hashes() == 0
                &&& m.spec_valid_proofs() == 0
                &&& !m.spec_running()
            }),
    {
        let context = match GpuContext::new(config) {
            Ok(c) => c,
            Err(e) => return Err(e),
        };
        Ok(
            GpuMiner {
                config,
                context,
                total_hashes: 0,
                valid_proofs: 0,
                start_time: instant_now(),
                is_running: false,
            },
        )
    }

    /// Starts mining.
    pub fn start(&mut self) -> (r: Result<(), GpuError>)
        ensures
            r is Ok,
            final(self).spec_running(),
            final(self).same_but_running(&*old(self)),
    {
        self.is_running = true;
        Ok(())
    }

    /// Stops mining.
    pub fn stop(&mut self) -> (r: Result<(), GpuError>)
        ensures
            r is Ok,
            !final(self).spec_running(),
            final(self).same_but_running(&*old(self)),
    {
        self.is_running = false;
        Ok(())
    }

    /// Whether the miner is running.
    pub fn is_running(&self) -> (r: bool)
        ensures
            r == self.spec_running(),
    {
        self.is_running
    }

    /// Mines one batch over `data` against a 64-byte `target`: tries the
    /// nonces `0, 1, ...` below the batch size in order and returns the
    /// first hash that does not exceed `target`, counting every hash
    /// computed. A stopped miner does nothing and finds nothing. Neither CUDA
    /// nor OpenCL support is compiled in, so every backend mines on the CPU.
    pub fn mine_batch(&mut self, data: &[u8], target: &[u8]) -> (r: Result<
        Option<Vec<u8>>,
        GpuError,
    >)
        ensures
            !old(self).spec_running() ==> (r matches Ok(None) && *final(self) == *old(self)),
            old(self).spec_running() && target@.len() != 64 ==> (r matches Err(
                GpuError::InvalidConfiguration(msg),
            ) && msg@ == "Target must be 64 bytes for SHA-512"@ && *final(self) == *old(self)),
            old(self).spec_running() && target@.len() == 64 ==> Self::cpu_batch_outcome(
                *old(self),
                *final(self),
                data@,
                target@,
                r,
            ),
    {
        if !self.is_running() {
            return Ok(None);
        }
        if target.len() != 64 {
            return Err(
                GpuError::InvalidConfiguration(
                    String::from_str("Target must be 64 bytes for SHA-512"),
                ),
            );
        }
        match self.config.backend {
            GpuBackend::Cuda => self.mine_batch_cuda(data, target),
            GpuBackend::OpenCL => self.mine_batch_opencl(data, target),
            GpuBackend::Cpu => self.mine_batch_cpu(data, target),
        }
    }

    /// The outcome of a CPU batch taking the miner from `before` to `after`:
    /// either the hash of the first nonce in the batch that meets the target,
    /// with the hashes up to it counted, or nothing, with the whole batch
    /// counted; every hash computed is 64 bytes long, and nothing else
    /// changes.
    pub open spec fn cpu_batch_outcome(
        before: GpuMiner,
        after: GpuMiner,
        data: Seq<u8>,
        target: Seq<u8>,
        r: Result<Option<Vec<u8>>, GpuError>,
    ) -> bool {
        let batch = batch_size(before.spec_config());
        &&& after.spec_config() == before.spec_config()
        &&& after.spec_context() == before.spec_context()
        &&& after.spec_valid_proofs() == before.spec_valid_proofs()
        &&& after.spec_running() == before.spec_running()
        &&& after.spec_start_time() == before.spec_start_time()
        &&& match r {
            Ok(Some(h)) => exists|n: u64|
                #![trigger meets_target(data, target, n)]
                {
                    &&& n < batch
                    &&& first_valid_nonce(data, target, n)
                    &&& h@ == sha512(nonce_message(data, n))
                    &&& h@.len() == 64
                    &&& hashes_are_64_bytes(data, (n + 1) as nat)
                    &&& after.spec_total_hashes() == counter_after(
                        before.spec_total_hashes(),
                        (n + 1) as nat,
                    )
                },
            Ok(None) => {
                &&& no_valid_nonce(data, target, batch)
                &&& hashes_are_64_bytes(data, batch)
                &&& after.spec_total_hashes() == counter_after(
                    before.spec_total_hashes(),
                    batch,
                )
            },
            Err(_) => false,
        }
    }

    /// CUDA mining: CUDA support is not compiled in, so the batch is mined
    /// on the CPU.
    fn mine_batch_cuda(&mut self, data: &[u8], target: &[u8]) -> (r: Result<
        Option<Vec<u8>>,
        GpuError,
    >)
        ensures
            Self::cpu_batch_outcome(*old(self), *final(self), data@, target@, r),
    {
        self.mine_batch_cpu(data, target)
    }

    /// OpenCL mining: OpenCL support is not compiled in, so the batch is
    /// mined on the CPU.
    fn mine_batch_opencl(&mut self, data: &[u8], target: &[u8]) -> (r: Result<
        Option<Vec<u8>>,
        GpuError,
    >)
        ensures
            Self::cpu_batch_outcome(*old(self), *final(self), data@, target@, r),
    {
        self.mine_batch_cpu(data, target)
    }

    /// Mines a batch on the CPU: SHA-512 of `data` followed by each nonce,
    /// in order, until a hash does not exceed `target`.
    fn mine_batch_cpu(&mut self, data: &[u8], target: &[u8]) -> (r: Result<
        Option<Vec<u8>>,
        GpuError,
    >)
        ensures
            Self::cpu_batch_outcome(*old(self), *final(self), data@, target@, r),
    {
        let threads: u64 = self.config.threads_per_block as u64;
        let blocks: u64 = self.config.num_blocks as u64;
        assert(threads * blocks <= 0xffff_ffff * 0xffff_ffff) by (nonlinear_arith)
            requires
                threads <= 0xffff_ffff,
                blocks <= 0xffff_ffff,
        ;
        let hashes_per_batch: u64 = threads * blocks;
        let ghost start = self.total_hashes;
        let mut nonce: u64 = 0;
        while nonce < hashes_per_batch
            invariant
                hashes_per_batch == batch_size(old(self).spec_config()),
                nonce <= hashes_per_batch,
                forall|m: u64| m < nonce ==> !meets_target(data@, target@, m),
                hashes_are_64_bytes(data@, nonce as nat),
                start == old(self).spec_total_hashes(),
                self.total_hashes == counter_after(start, nonce as nat),
                self.config == old(self).config,
                self.context == old(self).context,
                self.valid_proofs == old(self).valid_proofs,
                self.is_running == old(self).is_running,
                self.start_time == old(self).start_time,
            decreases hashes_per_batch - nonce,
        {
            let input = nonce_input(data, nonce);
            let hash = sha512_digest(input.as_slice());
            proof {
                lemma_counter_step(start, nonce as nat);
            }
            self.total_hashes = self.total_hashes.wrapping_add(1);
            assert(hashes_are_64_bytes(data@, (nonce + 1) as nat));
            if hash_meets_target(hash.as_slice(), target) {
                assert(meets_target(data@, target@, nonce));
                return Ok(Some(hash));
            }
            nonce = nonce + 1;
        }
        Ok(None)
    }

    /// The statistics counters after `uptime_seconds` seconds.
    pub fn counters_at(&self, uptime_seconds: u64) -> (c: MinerCounters)
        ensures
            c == self.counters(uptime_seconds),
    {
        MinerCounters {
            total_hashes: self.total_hashes,
            valid_proofs: self.valid_proofs,
            uptime_seconds,
            gpu_memory_used: self.context.available_memory() / 2,
            running: self.is_running,
        }
    }

    /// The statistics counters now; the uptime is read from the clock.
    pub fn get_stats(&self) -> (c: MinerCounters)
        ensures
            c == self.counters(c.uptime_seconds),
    {
        let elapsed = elapsed_since(&self.start_time);
        let uptime = whole_seconds(&elapsed);
        self.counters_at(uptime)
    }

    /// The miner's GPU context.
    pub fn context(&self) -> (c: &GpuContext)
        ensures
            *c == self.spec_context(),
    {
        &self.context
    }

    /// The miner's GPU context, to change it (to allocate device memory,
    /// for one); nothing else of the miner changes.
    pub fn context_mut(&mut self) -> (c: &mut GpuContext)
        ensures
            *c == old(self).spec_context(),
            final(self).spec_context() == *final(c),
            final(self).spec_config() == old(self).spec_config(),
            final(self).spec_total_hashes() == old(self).spec_total_hashes(),
            final(self).spec_valid_proofs() == old(self).spec_valid_proofs(),
            final(self).spec_running() == old(self).spec_running(),
            final(self).spec_start_time() == old(self).spec_start_time(),
    {
        &mut self.context
    }

    /// The miner's configuration.
    pub fn config(&self) -> (c: &GpuConfig)
        ensures
            *c == self.spec_config(),
    {
        &self.config
    }

    /// Waits for the device's pending work; see `GpuContext::synchronize`.
    pub fn synchronize(&self) -> (r: Result<(), GpuError>)
        ensures
            r is Ok,
    {
        self.context.synchronize()
    }

    /// Sets the hash count and the recorded proofs back to zero.
    pub fn reset_stats(&mut self) -> (r: Result<(), GpuError>)
        ensures
            r is Ok,
            final(self).spec_total_hashes() == 0,
            final(self).spec_valid_proofs() == 0,
            final(self).spec_config() == old(self).spec_config(),
            final(self).spec_context() == old(self).spec_context(),
            final(self).spec_running() == old(self).spec_running(),
            final(self).spec_start_time() == old(self).spec_start_time(),
    {
        self.valid_proofs = 0;
        self.total_hashes = 0;
        Ok(())
    }
}


/// A batch's outcome is determined by the miner, the data and the target:
/// two batches from the same miner over the same data and target (mined by
/// any backend, as each meets `cpu_batch_outcome`) find the same hash, or
/// both find none, and leave the same hash count.
pub proof fn lemma_batch_outcome_determined(
    before: GpuMiner,
    after1: GpuMiner,
    after2: GpuMiner,
    data: Seq<u8>,
    target: Seq<u8>,
    r1: Result<Option<Vec<u8>>, GpuError>,
    r2: Result<Option<Vec<u8>>, GpuError>,
)
    requires
        GpuMiner::cpu_batch_outcome(before, after1, data, target, r1),
        GpuMiner::cpu_batch_outcome(before, after2, data, target, r2),
    ensures
        after1.spec_total_hashes() == after2.spec_total_hashes(),
        match (r1, r2) {
            (Ok(Some(h1)), Ok(Some(h2))) => h1@ == h2@,
            (Ok(None), Ok(None)) => true,
            _ => false,
        },
{
    let batch = batch_size(before.spec_config());
    match (r1, r2) {
        (Ok(Some(h1)), Ok(Some(h2))) => {
            let n1 = choose|n: u64|
                #![trigger meets_target(data, target, n)]
                {
                    &&& n < batch
                    &&& first_valid_nonce(data, target, n)
                    &&& h1@ == sha512(nonce_message(data, n))
                    &&& h1@.len() == 64
                    &&& hashes_are_64_bytes(data, (n + 1) as nat)
                    &&& after1.spec_total_hashes() == counter_after(
                        before.spec_total_hashes(),
                        (n + 1) as nat,
                    )
                };
            let n2 = choose|n: u64|
                #![trigger meets_target(data, target, n)]
                {
                    &&& n < batch
                    &&& first_valid_nonce(data, target, n)
                    &&& h2@ == sha512(nonce_message(data, n))
                    &&& h2@.len() == 64
                    &&& hashes_are_64_bytes(data, (n + 1) as nat)
                    &&& after2.spec_total_hashes() == counter_after(
                        before.spec_total_hashes(),
                        (n + 1) as nat,
                    )
                };
            if n1 < n2 {
                assert(meets_target(data, target, n1));
            } else if n2 < n1 {
                assert(meets_target(data, target, n2));
            }
        },
        (Ok(Some(h1)), Ok(None)) => {
            let n1 = choose|n: u64|
                #![trigger meets_target(data, target, n)]
                {
                    &&& n < batch
                    &&& first_valid_nonce(data, target, n)
                    &&& h1@ == sha512(nonce_message(data, n))
                    &&& h1@.len() == 64
                    &&& hashes_are_64_bytes(data, (n + 1) as nat)
                    &&& after1.spec_total_hashes() == counter_after(
                        before.spec_total_hashes(),
                        (n + 1) as nat,
                    )
                };
            assert(meets_target(data, target, n1));
        },
        (Ok(None), Ok(Some(h2))) => {
            let n2 = choose|n: u64|
                #![trigger meets_target(data, target, n)]
                {
                    &&& n < batch
                    &&& first_valid_nonce(data, target, n)
                    &&& h2@ == sha512(nonce_message(data, n))
                    &&& h2@.len() == 64
                    &&& hashes_are_64_bytes(data, (n + 1) as nat)
                    &&& after2.spec_total_hashes() == counter_after(
                        before.spec_total_hashes(),
                        (n + 1) as nat,
                    )
                };
            assert(meets_target(data, target, n2));
        },
        _ => {},
    }
}


/// A batch tries the nonces `0, 1, ...` below threads per block times
/// blocks. It returns the hash of the first of them whose hash does not
/// exceed the target, having counted one hash per nonce tried up to it;
/// when there is none it returns nothing, having counted one hash for each
/// of them. The count wraps past `u64::MAX`.
pub proof fn lemma_batch_tries_threads_times_blocks(
    before: GpuMiner,
    after: GpuMiner,
    data: Seq<u8>,
    target: Seq<u8>,
    r: Result<Option<Vec<u8>>, GpuError>,
)
    requires
        GpuMiner::cpu_batch_outcome(before, after, data, target, r),
    ensures
        ({
            let tries = before.spec_config().threads_per_block * before.spec_config().num_blocks;
            let wrap = 0x1_0000_0000_0000_0000int;
            &&& r is Ok
            &&& r matches Ok(None) ==> {
                &&& after.spec_total_hashes() == (before.spec_total_hashes() + tries) % wrap
                &&& forall|k: u64|
                    k < tries ==> !lex_le(#[trigger] sha512(data + le_bytes(k)), target)
            }
            &&& r matches Ok(Some(h)) ==> exists|k: u64|
                #![trigger sha512(data + le_bytes(k))]
                {
                    &&& k < tries
                    &&& h@ == sha512(data + le_bytes(k))
                    &&& lex_le(h@, target)
                    &&& after.spec_total_hashes() == (before.spec_total_hashes() + k + 1) % wrap
                    &&& forall|j: u64|
                        j < k ==> !lex_le(#[trigger] sha512(data + le_bytes(j)), target)
                }
        }),
{
    let tries = before.spec_config().threads_per_block * before.spec_config().num_blocks;
    assert(batch_size(before.spec_config()) == tries);
    match r {
        Ok(Some(h)) => {
            let n = choose|n: u64|
                #![trigger meets_target(data, target, n)]
                {
                    &&& n < batch_size(before.spec_config())
                    &&& first_valid_nonce(data, target, n)
                    &&& h@ == sha512(nonce_message(data, n))
                    &&& h@.len() == 64
                    &&& hashes_are_64_bytes(data, (n + 1) as nat)
                    &&& after.spec_total_hashes() == counter_after(
                        before.spec_total_hashes(),
                        (n + 1) as nat,
                    )
                };
            assert(meets_target(data, target, n));
            assert forall|j: u64| j < n implies !lex_le(
                #[trigger] sha512(data + le_bytes(j)),
                target,
            ) by {
                assert(!meets_target(data, target, j));
            }
            assert(sha512(data + le_bytes(n)) == h@);
        },
        Ok(None) => {
            assert forall|k: u64| k < tries implies !lex_le(
                #[trigger] sha512(data + le_bytes(k)),
                target,
            ) by {
                assert(!meets_target(data, target, k));
            }
        },
        Err(_) => {},
    }
}
} // verus!
