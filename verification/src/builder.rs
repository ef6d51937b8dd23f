//! Decisions of the multithreaded pipeline builder.
//!
//! Compiling pipelines is trivially parallel per request, but the GPU API's
//! cache object must not be written from several threads at once.  The
//! builder therefore splits the request list into one contiguous chunk per
//! worker, gives every worker a cache object of its own, and merges the
//! per-worker caches into one once every worker has joined.  The functions
//! here make those decisions on plain values; the application spawns the
//! threads and performs the GPU calls.

use vstd::prelude::*;
use vstd::arithmetic::div_mod::lemma_fundamental_div_mod;

verus! {

/// The worker count: bounded by the parallelism available and by the number
/// of requests, and at least one.
pub open spec fn spec_worker_count(available_parallelism: int, request_count: int) -> int {
    let bounded = if available_parallelism < request_count {
        available_parallelism
    } else {
        request_count
    };
    if bounded < 1 {
        1
    } else {
        bounded
    }
}

/// How many workers to spawn for a batch of requests.
pub fn worker_count(available_parallelism: usize, request_count: usize) -> (r: usize)
    ensures
        r == spec_worker_count(available_parallelism as int, request_count as int),
        1 <= r,
{
    let bounded = if available_parallelism < request_count {
        available_parallelism
    } else {
        request_count
    };
    if bounded < 1 {
        1
    } else {
        bounded
    }
}

/// The size of chunk `i` when `n` requests are split over `t` workers: the
/// first `n % t` chunks take one extra request.
pub open spec fn spec_chunk_size(n: int, t: int, i: int) -> int
    recommends
        t >= 1,
{
    n / t + if i < n % t {
        1int
    } else {
        0int
    }
}

/// The sum of a sequence of sizes.
pub open spec fn seq_sum(s: Seq<usize>) -> int
    decreases s.len(),
{
    if s.len() == 0 {
        0
    } else {
        seq_sum(s.drop_last()) + s.last() as int
    }
}

/// A sum of sizes is never negative.
pub proof fn lemma_seq_sum_nonneg(s: Seq<usize>)
    ensures
        seq_sum(s) >= 0,
    decreases s.len(),
{
    if s.len() > 0 {
        lemma_seq_sum_nonneg(s.drop_last());
    }
}

/// Summing one more element extends the partial sum.
pub proof fn lemma_seq_sum_take_step(s: Seq<usize>, k: int)
    requires
        0 <= k < s.len(),
    ensures
        seq_sum(s.take(k + 1)) == seq_sum(s.take(k)) + s[k],
{
    assert(s.take(k + 1).drop_last() =~= s.take(k));
    assert(s.take(k + 1).last() == s[k]);
}

/// A partial sum never exceeds the whole.
pub proof fn lemma_seq_sum_take_le(s: Seq<usize>, k: int)
    requires
        0 <= k <= s.len(),
    ensures
        seq_sum(s.take(k)) <= seq_sum(s),
    decreases s.len() - k,
{
    if k == s.len() {
        assert(s.take(k) =~= s);
    } else {
        lemma_seq_sum_take_step(s, k);
        lemma_seq_sum_take_le(s, k + 1);
    }
}

/// Chunk sizes for `request_count` requests over `workers` workers: one size
/// per worker, the first `request_count % workers` chunks one larger, the
/// sizes summing to exactly `request_count`.
pub fn chunk_sizes(request_count: usize, workers: usize) -> (r: Vec<usize>)
    requires
        workers >= 1,
    ensures
        r@.len() == workers,
        forall|i: int| 0 <= i < workers ==> #[trigger] r@[i] == spec_chunk_size(
            request_count as int,
            workers as int,
            i,
        ),
        seq_sum(r@) == request_count,
{
    let base = request_count / workers;
    let rem = request_count % workers;
    let mut sizes: Vec<usize> = Vec::new();
    let mut i: usize = 0;
    while i < workers
        invariant
            workers >= 1,
            i <= workers,
            base == request_count as int / workers as int,
            rem == request_count as int % workers as int,
            sizes@.len() == i,
            forall|t: int| 0 <= t < i ==> #[trigger] sizes@[t] == spec_chunk_size(
                request_count as int,
                workers as int,
                t,
            ),
            seq_sum(sizes@) == i * base + if i <= rem {
                i as int
            } else {
                rem as int
            },
        decreases workers - i,
    {
        let extra: usize = if i < rem {
            1
        } else {
            0
        };
        proof {
            lemma_fundamental_div_mod(request_count as int, workers as int);
            assert(workers as int * base as int >= base as int) by (nonlinear_arith)
                requires
                    workers as int >= 1 && base as int >= 0,
            ;
            assert((i + 1) * base == i * base + base) by (nonlinear_arith);
            assert(sizes@.push((base + extra) as usize).drop_last() =~= sizes@);
        }
        sizes.push(base + extra);
        i = i + 1;
    }
    proof {
        lemma_fundamental_div_mod(request_count as int, workers as int);
        assert(workers as int * base == base * workers as int) by (nonlinear_arith);
    }
    sizes
}

/// Split the request list into one contiguous chunk per worker, order
/// preserved: the chunks concatenate back to exactly the input, and chunk
/// `i` has the size `chunk_sizes` assigns it.
pub fn split_requests<T>(requests: Vec<T>, workers: usize) -> (r: Vec<Vec<T>>)
    requires
        workers >= 1,
    ensures
        r@.len() == workers,
        r@.map_values(|c: Vec<T>| c@).flatten() == requests@,
        forall|i: int| 0 <= i < workers ==> (#[trigger] r@[i])@.len() == spec_chunk_size(
            requests@.len() as int,
            workers as int,
            i,
        ),
{
    let ghost orig = requests@;
    let n = requests.len();
    let sizes = chunk_sizes(n, workers);
    let mut remaining = requests;
    let mut chunks: Vec<Vec<T>> = Vec::new();
    let mut ci: usize = 0;
    let mut idx: usize = 0;
    while ci < workers
        invariant
            workers >= 1,
            ci <= workers,
            n == orig.len(),
            sizes@.len() == workers,
            forall|t: int| 0 <= t < workers ==> #[trigger] sizes@[t] == spec_chunk_size(
                n as int,
                workers as int,
                t,
            ),
            seq_sum(sizes@) == n,
            idx == seq_sum(sizes@.take(ci as int)),
            idx <= n,
            remaining@ == orig.skip(idx as int),
            chunks@.len() == ci,
            forall|t: int| 0 <= t < ci ==> (#[trigger] chunks@[t])@.len() == sizes@[t],
            chunks@.map_values(|c: Vec<T>| c@).flatten() == orig.take(idx as int),
        decreases workers - ci,
    {
        let size = sizes[ci];
        proof {
            lemma_seq_sum_take_step(sizes@, ci as int);
            lemma_seq_sum_take_le(sizes@, ci as int + 1);
            lemma_seq_sum_nonneg(sizes@.take(ci as int));
        }
        let mut chunk: Vec<T> = Vec::new();
        let mut j: usize = 0;
        while j < size
            invariant
                j <= size,
                idx + size <= n,
                n == orig.len(),
                chunk@.len() == j,
                chunk@ == orig.subrange(idx as int, idx as int + j as int),
                remaining@ == orig.skip(idx as int + j as int),
            decreases size - j,
        {
            let item = remaining.remove(0);
            proof {
                assert(orig.skip(idx as int + j as int).remove(0) =~= orig.skip(
                    idx as int + j as int + 1,
                ));
                assert(chunk@.push(item) =~= orig.subrange(
                    idx as int,
                    idx as int + j as int + 1,
                ));
            }
            chunk.push(item);
            j = j + 1;
        }
        proof {
            let views = chunks@.map_values(|c: Vec<T>| c@);
            views.lemma_flatten_push(chunk@);
            assert(chunks@.push(chunk).map_values(|c: Vec<T>| c@) =~= views.push(chunk@));
            assert(orig.take(idx as int) + orig.subrange(idx as int, idx as int + size as int)
                =~= orig.take(idx as int + size as int));
        }
        chunks.push(chunk);
        idx = idx + size;
        ci = ci + 1;
    }
    proof {
        assert(sizes@.take(workers as int) =~= sizes@);
        assert(orig.take(idx as int) =~= orig);
    }
    chunks
}

/// Concatenate per-chunk results back into one list, chunk-major: the result
/// is exactly the chunks flattened in order.
pub fn concat_results<T>(chunks: Vec<Vec<T>>) -> (r: Vec<T>)
    ensures
        r@ == chunks@.map_values(|c: Vec<T>| c@).flatten(),
{
    let ghost orig = chunks@;
    let count = chunks.len();
    let mut remaining = chunks;
    let mut out: Vec<T> = Vec::new();
    let mut ci: usize = 0;
    while ci < count
        invariant
            ci <= count,
            count == orig.len(),
            remaining@ == orig.skip(ci as int),
            out@ == orig.take(ci as int).map_values(|c: Vec<T>| c@).flatten(),
        decreases count - ci,
    {
        let mut chunk = remaining.remove(0);
        proof {
            assert(orig.skip(ci as int).remove(0) =~= orig.skip(ci as int + 1));
            let views = orig.take(ci as int).map_values(|c: Vec<T>| c@);
            views.lemma_flatten_push(chunk@);
            assert(orig.take(ci as int + 1).map_values(|c: Vec<T>| c@) =~= views.push(chunk@));
        }
        out.append(&mut chunk);
        ci = ci + 1;
    }
    proof {
        assert(orig.take(count as int) =~= orig);
    }
    out
}

/// How the per-worker cache objects are merged once every worker has joined:
/// the last one becomes the destination and every other one is merged into
/// it.  Merge idempotence: with a single cache object there is nothing to
/// merge — no merge call is made and the blob is extracted straight from
/// that object.
pub struct MergePlan {
    pub destination: usize,
    pub sources: Vec<usize>,
}

/// Decide the merge for `cache_count` per-worker cache objects.
pub fn plan_cache_merge(cache_count: usize) -> (r: MergePlan)
    requires
        cache_count >= 1,
    ensures
        r.destination == cache_count - 1,
        r.sources@.len() == cache_count - 1,
        forall|i: int| 0 <= i < r.sources@.len() ==> #[trigger] r.sources@[i] == i,
        (cache_count == 1) <==> (r.sources@.len() == 0),
{
    let mut sources: Vec<usize> = Vec::new();
    let mut i: usize = 0;
    while i < cache_count - 1
        invariant
            cache_count >= 1,
            i <= cache_count - 1,
            sources@.len() == i,
            forall|t: int| 0 <= t < i ==> #[trigger] sources@[t] == t,
        decreases cache_count - 1 - i,
    {
        sources.push(i);
        i = i + 1;
    }
    MergePlan { destination: cache_count - 1, sources }
}

} // verus!
