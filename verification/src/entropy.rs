//! The entropy pool: a bounded byte pool behind one lock, refilled by
//! callers, stretched into output through an extendable-output hash, with
//! integer cores for the statistical self-tests.

use vstd::prelude::*;
use vstd::rwlock::{RwLock, RwLockPredicate};
use std::sync::Arc;

verus! {

/// The capacity of the entropy pool in bytes.
pub const ENTROPY_BUFFER_SIZE: usize = 1024;

/// The pool after absorbing `e`: the concatenation, trimmed from the front
/// to the pool capacity.
pub open spec fn spec_absorb(p: Seq<u8>, e: Seq<u8>) -> Seq<u8> {
    let total = p.len() + e.len();
    if total <= ENTROPY_BUFFER_SIZE {
        p + e
    } else {
        (p + e).skip(total - ENTROPY_BUFFER_SIZE)
    }
}

/// The bytes an extendable-output hash derives from the pool and the
/// requested length: a function of those two values alone.
pub uninterp spec fn xof_of(pool: Seq<u8>, len: usize) -> Seq<u8>;

/// Relies on blake3's extendable output (`Hasher::update`, `finalize_xof`,
/// `OutputReader::fill`): the bytes filled depend only on the hashed input
/// (the pool and the requested length) and have exactly the requested length.
#[verifier::external_body]
fn blake3_xof_bytes(pool: &Vec<u8>, len: usize) -> (r: Vec<u8>)
    ensures
        r@ == xof_of(pool@, len),
        r@.len() == len,
{
    let mut hasher = blake3::Hasher::new();
    hasher.update(pool.as_slice());
    hasher.update(&len.to_le_bytes());
    let mut out = vec![0u8; len];
    hasher.finalize_xof().fill(&mut out);
    out
}

/// Relies on `getrandom::getrandom` to fill the buffer with operating-system
/// randomness; a failure is ignored and leaves zeroes, so nothing is assumed
/// of the bytes beyond their number.
#[verifier::external_body]
fn os_random_bytes(len: usize) -> (r: Vec<u8>)
    ensures
        r@.len() == len,
{
    let mut buf = vec![0u8; len];
    let _ = getrandom::getrandom(&mut buf);
    buf
}

/// The lock predicate: the pool never exceeds its capacity.
pub struct PoolWf {}

impl RwLockPredicate<Vec<u8>> for PoolWf {
    open spec fn inv(self, v: Vec<u8>) -> bool {
        v@.len() <= ENTROPY_BUFFER_SIZE
    }
}

/// Appends `entropy` to `pool` and trims the front so the result stays
/// within the pool capacity.
fn absorb_pool(pool: &Vec<u8>, entropy: &Vec<u8>) -> (r: Vec<u8>)
    requires
        pool@.len() <= ENTROPY_BUFFER_SIZE,
    ensures
        r@ == spec_absorb(pool@, entropy@),
        r@.len() <= ENTROPY_BUFFER_SIZE,
{
    let mut out: Vec<u8> = Vec::new();
    if entropy.len() >= ENTROPY_BUFFER_SIZE {
        let start = entropy.len() - ENTROPY_BUFFER_SIZE;
        let mut k: usize = start;
        while k < entropy.len()
            invariant
                start <= k <= entropy.len(),
                out@ == entropy@.subrange(start as int, k as int),
            decreases entropy.len() - k,
        {
            out.push(entropy[k]);
            k = k + 1;
        }
        proof {
            assert(out@ =~= spec_absorb(pool@, entropy@));
        }
    } else if pool.len() + entropy.len() <= ENTROPY_BUFFER_SIZE {
        let mut k: usize = 0;
        while k < pool.len()
            invariant
                k <= pool.len(),
                out@ == pool@.subrange(0, k as int),
            decreases pool.len() - k,
        {
            out.push(pool[k]);
            k = k + 1;
        }
        let mut j: usize = 0;
        while j < entropy.len()
            invariant
                j <= entropy.len(),
                out@ == pool@ + entropy@.subrange(0, j as int),
            decreases entropy.len() - j,
        {
            out.push(entropy[j]);
            j = j + 1;
        }
        proof {
            assert(out@ =~= spec_absorb(pool@, entropy@));
        }
    } else {
        let keep = ENTROPY_BUFFER_SIZE - entropy.len();
        let start = pool.len() - keep;
        let mut k: usize = start;
        while k < pool.len()
            invariant
                start <= k <= pool.len(),
                out@ == pool@.subrange(start as int, k as int),
            decreases pool.len() - k,
        {
            out.push(pool[k]);
            k = k + 1;
        }
        let mut j: usize = 0;
        while j < entropy.len()
            invariant
                j <= entropy.len(),
                out@ == pool@.subrange(start as int, pool@.len() as int) + entropy@.subrange(
                    0,
                    j as int,
                ),
            decreases entropy.len() - j,
        {
            out.push(entropy[j]);
            j = j + 1;
        }
        proof {
            assert(out@ =~= spec_absorb(pool@, entropy@));
        }
    }
    out
}

/// An entropy pool shared behind one lock. It holds no timer of its own:
/// callers feed it collected bytes through [`Trng::absorb`].
#[derive(Clone)]
pub struct Trng {
    entropy_pool: Arc<RwLock<Vec<u8>, PoolWf>>,
}

impl Trng {
    /// Creates a handle over an empty pool.
    pub fn new() -> Trng {
        Trng { entropy_pool: Arc::new(RwLock::new(Vec::new(), Ghost(PoolWf {}))) }
    }

    /// Mixes collected bytes into the pool, trimming the oldest bytes once
    /// the capacity is exceeded.
    pub fn absorb(&self, entropy: &Vec<u8>) {
        let (pool, handle) = self.entropy_pool.acquire_write();
        let new_pool = absorb_pool(&pool, entropy);
        handle.release_write(new_pool);
    }

    /// Derives `len` bytes from the pool through the extendable-output hash;
    /// an empty pool falls back to operating-system randomness.
    pub fn rand_bytes(&self, len: usize) -> (r: Vec<u8>)
        ensures
            r@.len() == len,
    {
        let read_handle = self.entropy_pool.acquire_read();
        let pool = read_handle.borrow();
        let r = if pool.is_empty() {
            os_random_bytes(len)
        } else {
            blake3_xof_bytes(pool, len)
        };
        read_handle.release_read();
        r
    }

    /// Discards the whole pool.
    pub fn reseed(&self) {
        let (_pool, handle) = self.entropy_pool.acquire_write();
        handle.release_write(Vec::new());
    }

    /// Samples timing jitter: one thousand monotonic-clock readings,
    /// serialized little-endian, sixteen bytes each.
    pub fn collect_timing_jitter(&self) -> (r: Vec<u8>)
        ensures
            r@.len() == 16000,
    {
        let mut jitter_data: Vec<u8> = Vec::new();
        let start = instant_now();
        let mut k: usize = 0;
        while k < 1000
            invariant
                k <= 1000,
                jitter_data@.len() == 16 * k,
            decreases 1000 - k,
        {
            let n = nanos_since(&start);
            let mut bytes = vstd::bytes::u128_to_le_bytes(n);
            jitter_data.append(&mut bytes);
            k = k + 1;
        }
        jitter_data
    }
}

#[verifier::external_type_specification]
#[verifier::external_body]
pub struct ExInstant(std::time::Instant);

/// Relies on `std::time::Instant::now` for a monotonic clock reading;
/// nothing is assumed of the value.
#[verifier::external_body]
fn instant_now() -> std::time::Instant {
    std::time::Instant::now()
}

/// Relies on `Instant::elapsed` and `Duration::as_nanos`; the reading
/// depends on the clock, so nothing is assumed of it.
#[verifier::external_body]
fn nanos_since(start: &std::time::Instant) -> u128 {
    start.elapsed().as_nanos()
}

/// The number of set bits in one byte.
pub open spec fn spec_byte_ones(b: u8) -> int {
    (b & 1) as int + ((b >> 1) & 1) as int + ((b >> 2) & 1) as int + ((b >> 3) & 1) as int + ((b
        >> 4) & 1) as int + ((b >> 5) & 1) as int + ((b >> 6) & 1) as int + ((b >> 7) & 1) as int
}

/// The number of set bits in a byte sequence.
pub open spec fn spec_ones(data: Seq<u8>) -> int
    decreases data.len(),
{
    if data.len() == 0 {
        0
    } else {
        spec_ones(data.drop_last()) + spec_byte_ones(data.last())
    }
}

proof fn lemma_byte_ones_bound(b: u8)
    ensures
        0 <= spec_byte_ones(b) <= 8,
{
    assert((b & 1) <= 1 && ((b >> 1) & 1) <= 1 && ((b >> 2) & 1) <= 1 && ((b >> 3) & 1) <= 1 && ((b
        >> 4) & 1) <= 1 && ((b >> 5) & 1) <= 1 && ((b >> 6) & 1) <= 1 && ((b >> 7) & 1) <= 1)
        by (bit_vector);
}

/// Computes the number of set bits in one byte.
fn byte_ones(b: u8) -> (r: usize)
    ensures
        r == spec_byte_ones(b),
{
    ((b & 1) as usize) + (((b >> 1) & 1) as usize) + (((b >> 2) & 1) as usize) + (((b >> 3)
        & 1) as usize) + (((b >> 4) & 1) as usize) + (((b >> 5) & 1) as usize) + (((b >> 6)
        & 1) as usize) + (((b >> 7) & 1) as usize)
}

/// Counts the set bits over the whole sample: the integer core of the
/// monobit self-test.
pub fn ones_count(data: &Vec<u8>) -> (r: usize)
    requires
        data@.len() * 8 <= usize::MAX,
    ensures
        r == spec_ones(data@),
{
    let mut count: usize = 0;
    let mut k: usize = 0;
    while k < data.len()
        invariant
            k <= data.len(),
            data@.len() * 8 <= usize::MAX,
            count == spec_ones(data@.subrange(0, k as int)),
            count <= k * 8,
        decreases data.len() - k,
    {
        let b = data[k];
        proof {
            lemma_byte_ones_bound(b);
            assert(data@.subrange(0, k as int + 1).drop_last() =~= data@.subrange(0, k as int));
            assert(data@.subrange(0, k as int + 1).last() == data@[k as int]);
        }
        count = count + byte_ones(b);
        k = k + 1;
    }
    proof {
        assert(data@.subrange(0, data@.len() as int) =~= data@);
    }
    count
}

/// The bit at flat position `k`, reading each byte from its least
/// significant bit upward.
pub open spec fn spec_bit_at(data: Seq<u8>, k: int) -> u8 {
    (data[k / 8] >> ((k % 8) as u8)) & 1
}

/// The number of maximal runs of equal bits among the first `upto` bits.
pub open spec fn spec_runs(data: Seq<u8>, upto: int) -> int
    decreases upto,
{
    if upto <= 0 {
        0
    } else if upto == 1 {
        1
    } else {
        spec_runs(data, upto - 1) + if spec_bit_at(data, upto - 1) != spec_bit_at(
            data,
            upto - 2,
        ) {
            1int
        } else {
            0int
        }
    }
}

/// Counts the maximal runs of equal bits over the whole sample: the integer
/// core of the runs self-test.
pub fn runs_count(data: &Vec<u8>) -> (r: usize)
    requires
        data@.len() * 8 <= usize::MAX,
    ensures
        r == spec_runs(data@, data@.len() * 8int),
{
    let total = data.len() * 8;
    let mut runs: usize = 0;
    let mut prev: u8 = 0;
    let mut k: usize = 0;
    while k < total
        invariant
            k <= total,
            total == data@.len() * 8,
            runs == spec_runs(data@, k as int),
            runs <= k,
            k > 0 ==> prev == spec_bit_at(data@, k as int - 1),
        decreases total - k,
    {
        proof {
            assert(k as int / 8 < data@.len() as int) by (nonlinear_arith)
                requires
                    (k as int) < data@.len() * 8,
                    0 <= k as int,
            ;
        }
        let bit = (data[k / 8] >> ((k % 8) as u8)) & 1;
        if k == 0 {
            runs = 1;
        } else if bit != prev {
            runs = runs + 1;
        }
        prev = bit;
        k = k + 1;
    }
    runs
}

/// How often `b` occurs in `data`.
pub open spec fn spec_count(data: Seq<u8>, b: u8) -> int
    decreases data.len(),
{
    if data.len() == 0 {
        0
    } else {
        spec_count(data.drop_last(), b) + if data.last() == b {
            1int
        } else {
            0int
        }
    }
}

/// Tallies how often each byte value occurs: the integer core of the
/// entropy self-test. The result has one counter per byte value.
pub fn byte_counts(data: &Vec<u8>) -> (r: Vec<usize>)
    ensures
        r@.len() == 256,
        forall|b: int| 0 <= b < 256 ==> r@[b] == spec_count(data@, b as u8),
{
    let mut counts: Vec<usize> = vec![0usize; 256];
    let mut k: usize = 0;
    while k < data.len()
        invariant
            k <= data.len(),
            counts@.len() == 256,
            forall|b: int| 0 <= b < 256 ==> counts@[b] == spec_count(
                data@.subrange(0, k as int),
                b as u8,
            ) && counts@[b] <= k,
        decreases data.len() - k,
    {
        let ghost pre = data@.subrange(0, k as int);
        let ghost post = data@.subrange(0, k as int + 1);
        let idx = data[k] as usize;
        let c = counts[idx];
        counts[idx] = c + 1;
        proof {
            assert(post.drop_last() =~= pre);
            assert(post.last() == data@[k as int]);
            assert forall|b: int| 0 <= b < 256 implies counts@[b] == spec_count(post, b as u8)
                && counts@[b] <= k + 1 by {
                assert(spec_count(post, b as u8) == spec_count(pre, b as u8) + if data@[k as int]
                    == (b as u8) {
                    1int
                } else {
                    0int
                });
            }
        }
        k = k + 1;
    }
    proof {
        assert(data@.subrange(0, data@.len() as int) =~= data@);
    }
    counts
}

} // verus!
