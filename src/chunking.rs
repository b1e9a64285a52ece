//! Fixed-length chunking of a sample stream with a carried remainder.
//!
//! The same splitter serves two stages of the pipeline: it cuts drained input
//! into the whole windows that the rate converter consumes, and it cuts
//! converted samples into the exact-length chunks that the speech engine takes.
use vstd::arithmetic::div_mod::{
    lemma_fundamental_div_mod, lemma_fundamental_div_mod_converse,
};
use vstd::prelude::*;

verus! {

/// All samples of a sequence of chunks, in order.
pub open spec fn flatten<T>(chunks: Seq<Seq<T>>) -> Seq<T>
    decreases chunks.len(),
{
    if chunks.len() == 0 {
        Seq::empty()
    } else {
        flatten(chunks.drop_last()) + chunks.last()
    }
}

/// The consecutive, non-overlapping chunks of length `n` at the front of `s`.
pub open spec fn chunks_of<T>(s: Seq<T>, n: nat) -> Seq<Seq<T>> {
    Seq::new(s.len() / n, |i: int| s.subrange(i * n, i * n + n))
}

/// What is left of `s` once its whole chunks of length `n` are taken off.
pub open spec fn rest_of<T>(s: Seq<T>, n: nat) -> Seq<T> {
    s.subrange(((s.len() / n) * n) as int, s.len() as int)
}

/// The contents of a vector of vectors, as sequences.
pub open spec fn chunks_view<T>(v: Seq<Vec<T>>) -> Seq<Seq<T>> {
    v.map_values(|c: Vec<T>| c@)
}

/// Whole chunks fit in the sequence they are cut from.
pub proof fn lemma_chunk_bounds(len: int, n: int, i: int)
    requires
        n > 0,
        len >= 0,
        0 <= i < len / n,
    ensures
        0 <= i * n,
        i * n + n <= (len / n) * n,
        (len / n) * n <= len,
        len - (len / n) * n < n,
{
    lemma_fundamental_div_mod(len, n);
    assert(i * n + n <= (len / n) * n) by (nonlinear_arith)
        requires
            i + 1 <= len / n,
            n > 0,
    ;
    assert(0 <= i * n) by (nonlinear_arith)
        requires
            i >= 0,
            n > 0,
    ;
    assert((len / n) * n == n * (len / n)) by (nonlinear_arith);
}

/// The first `k` chunks of `s`, laid end to end, are the first `k * n` samples.
proof fn lemma_flatten_prefix<T>(s: Seq<T>, n: nat, k: int)
    requires
        n > 0,
        0 <= k <= s.len() / n,
    ensures
        0 <= k * n <= s.len(),
        flatten(chunks_of(s, n).take(k)) == s.subrange(0, k * n),
    decreases k,
{
    let c = chunks_of(s, n);
    lemma_fundamental_div_mod(s.len() as int, n as int);
    assert(0 <= k * n <= (s.len() / n) * n) by (nonlinear_arith)
        requires
            0 <= k <= s.len() / n,
            n > 0,
    ;
    assert((s.len() / n) * n == n * (s.len() / n)) by (nonlinear_arith);
    if k == 0 {
        assert(c.take(0) =~= Seq::<Seq<T>>::empty());
        assert(flatten(c.take(0)) == Seq::<T>::empty());
        assert(s.subrange(0, 0) =~= Seq::<T>::empty());
        assert(k * n == 0) by (nonlinear_arith)
            requires
                k == 0,
        ;
    } else {
        lemma_flatten_prefix(s, n, k - 1);
        assert(c.take(k).drop_last() =~= c.take(k - 1));
        assert((k - 1) * n + n == k * n) by (nonlinear_arith);
        assert(c.take(k).last() == s.subrange((k - 1) * n, k * n));
        assert(flatten(c.take(k)) == flatten(c.take(k - 1)) + s.subrange((k - 1) * n, k * n));
        assert(s.subrange(0, (k - 1) * n) + s.subrange((k - 1) * n, k * n) =~= s.subrange(
            0,
            k * n,
        ));
    }
}

/// Cutting `s` into chunks of length `n` loses, repeats and reorders nothing:
/// the chunks laid end to end, followed by the remainder, give back `s`.
/// Every chunk holds exactly `n` samples and the remainder fewer than `n`.
pub proof fn lemma_chunks_reconstruct<T>(s: Seq<T>, n: nat)
    requires
        n > 0,
    ensures
        flatten(chunks_of(s, n)) + rest_of(s, n) == s,
        forall|i: int| 0 <= i < chunks_of(s, n).len() ==> (#[trigger] chunks_of(s, n)[i]).len() == n,
        rest_of(s, n).len() < n,
{
    let k = (s.len() / n) as int;
    lemma_flatten_prefix(s, n, k);
    assert(chunks_of(s, n).take(k) =~= chunks_of(s, n));
    assert(s.subrange(0, k * n) + s.subrange(k * n, s.len() as int) =~= s);
    assert forall|i: int| 0 <= i < chunks_of(s, n).len() implies (#[trigger] chunks_of(
        s,
        n,
    )[i]).len() == n by {
        lemma_chunk_bounds(s.len() as int, n as int, i);
    }
    lemma_fundamental_div_mod(s.len() as int, n as int);
    assert((s.len() / n) * n == n * (s.len() / n)) by (nonlinear_arith);
}

/// Cutting `x + y` into chunks is cutting `x`, then cutting what `x` left
/// over followed by `y`.
pub proof fn lemma_chunks_concat<T>(x: Seq<T>, y: Seq<T>, n: nat)
    requires
        n > 0,
    ensures
        chunks_of(x + y, n) == chunks_of(x, n) + chunks_of(rest_of(x, n) + y, n),
        rest_of(x + y, n) == rest_of(rest_of(x, n) + y, n),
{
    let nn = n as int;
    let k = x.len() as int / nn;
    let q = k * nn;
    let z = x + y;
    let t = rest_of(x, n) + y;
    lemma_fundamental_div_mod(x.len() as int, nn);
    assert(q == nn * k) by (nonlinear_arith)
        requires
            q == k * nn,
    ;
    assert(t =~= z.subrange(q, z.len() as int));
    let m = t.len() as int / nn;
    let r = t.len() as int % nn;
    lemma_fundamental_div_mod(t.len() as int, nn);
    assert(z.len() == (k + m) * nn + r) by (nonlinear_arith)
        requires
            z.len() == q + t.len(),
            q == nn * k,
            t.len() == nn * m + r,
    ;
    lemma_fundamental_div_mod_converse(z.len() as int, nn, k + m, r);
    let lhs = chunks_of(z, n);
    let rhs = chunks_of(x, n) + chunks_of(t, n);
    assert(lhs.len() == rhs.len());
    assert forall|i: int| 0 <= i < lhs.len() implies lhs[i] == rhs[i] by {
        if i < k {
            lemma_chunk_bounds(x.len() as int, nn, i);
            assert(lhs[i] =~= rhs[i]);
        } else {
            assert((i - k) * nn + q == i * nn) by (nonlinear_arith)
                requires
                    q == nn * k,
            ;
            assert((i - k) * nn + nn <= m * nn) by (nonlinear_arith)
                requires
                    i - k < m,
                    nn > 0,
            ;
            assert(0 <= (i - k) * nn) by (nonlinear_arith)
                requires
                    i - k >= 0,
                    nn > 0,
            ;
            assert(m * nn <= t.len()) by (nonlinear_arith)
                requires
                    t.len() == nn * m + r,
                    r >= 0,
            ;
            assert(lhs[i] =~= rhs[i]);
        }
    }
    assert(lhs =~= rhs);
    assert(q + m * nn == (k + m) * nn) by (nonlinear_arith)
        requires
            q == nn * k,
    ;
    assert(m * nn <= t.len()) by (nonlinear_arith)
        requires
            t.len() == nn * m + r,
            r >= 0,
    ;
    assert(rest_of(z, n) =~= rest_of(t, n));
}

/// The chunks handed out, and what is held back, when an accumulator for
/// chunks of `n` samples that holds `pending` is handed each of `batches` in
/// turn.
pub open spec fn feed<T>(pending: Seq<T>, batches: Seq<Seq<T>>, n: nat) -> (Seq<Seq<T>>, Seq<T>)
    decreases batches.len(),
{
    if batches.len() == 0 {
        (Seq::empty(), pending)
    } else {
        let prev = feed(pending, batches.drop_last(), n);
        let s = prev.1 + batches.last();
        (prev.0 + chunks_of(s, n), rest_of(s, n))
    }
}

/// However a stream is split into batches, the accumulator hands out the
/// same chunks and holds back the same remainder as for the whole stream in
/// one batch: nothing held back between batches is dropped or counted twice.
pub proof fn lemma_feed_as_one_batch<T>(pending: Seq<T>, batches: Seq<Seq<T>>, n: nat)
    requires
        n > 0,
        pending.len() < n,
    ensures
        feed(pending, batches, n).0 == chunks_of(pending + flatten(batches), n),
        feed(pending, batches, n).1 == rest_of(pending + flatten(batches), n),
    decreases batches.len(),
{
    if batches.len() == 0 {
        assert(pending + flatten(batches) =~= pending);
        lemma_fundamental_div_mod_converse(pending.len() as int, n as int, 0, pending.len() as int);
        assert(chunks_of(pending, n) =~= Seq::<Seq<T>>::empty());
        assert(rest_of(pending, n) =~= pending);
    } else {
        let front = batches.drop_last();
        lemma_feed_as_one_batch(pending, front, n);
        let x = pending + flatten(front);
        lemma_chunks_concat(x, batches.last(), n);
        assert(x + batches.last() =~= pending + flatten(batches));
    }
}

/// Whatever is streamed through an accumulator for chunks of `n` samples,
/// the chunks it hands out, laid end to end and followed by what it holds
/// back, are exactly what it held at first followed by every batch, in
/// order. Every chunk holds exactly `n` samples; fewer than `n` stay behind.
pub proof fn lemma_feed_reconstructs<T>(pending: Seq<T>, batches: Seq<Seq<T>>, n: nat)
    requires
        n > 0,
        pending.len() < n,
    ensures
        flatten(feed(pending, batches, n).0) + feed(pending, batches, n).1 == pending + flatten(
            batches,
        ),
        forall|i: int|
            0 <= i < feed(pending, batches, n).0.len() ==> (#[trigger] feed(
                pending,
                batches,
                n,
            ).0[i]).len() == n,
        feed(pending, batches, n).1.len() < n,
{
    lemma_feed_as_one_batch(pending, batches, n);
    lemma_chunks_reconstruct(pending + flatten(batches), n);
}

/// A splitter that holds back the samples that do not yet fill a whole chunk.
pub struct ChunkAccumulator<T> {
    chunk_len: usize,
    pending: Vec<T>,
}

impl<T: Copy> ChunkAccumulator<T> {
    /// The samples held back, waiting for a chunk to fill.
    pub closed spec fn view(&self) -> Seq<T> {
        self.pending@
    }

    /// The length of every chunk handed out.
    pub closed spec fn spec_chunk_len(&self) -> nat {
        self.chunk_len as nat
    }

    /// The chunk length is positive and less than one chunk is held back.
    pub closed spec fn wf(&self) -> bool {
        self.chunk_len > 0 && self.pending.len() < self.chunk_len
    }

    /// An empty accumulator for chunks of `chunk_len` samples.
    pub fn new(chunk_len: usize) -> (r: Self)
        requires
            chunk_len > 0,
        ensures
            r.wf(),
            r.spec_chunk_len() == chunk_len,
            r@ == Seq::<T>::empty(),
    {
        ChunkAccumulator { chunk_len, pending: Vec::new() }
    }

    /// The length of every chunk handed out.
    pub fn chunk_len(&self) -> (r: usize)
        ensures
            r == self.spec_chunk_len(),
    {
        self.chunk_len
    }

    /// How many samples are held back.
    pub fn pending_len(&self) -> (r: usize)
        ensures
            r == self@.len(),
    {
        self.pending.len()
    }

    /// The samples held back, oldest first.
    pub fn pending(&self) -> (r: &Vec<T>)
        ensures
            r@ == self@,
    {
        &self.pending
    }

    /// Appends `samples` behind the held-back ones and takes off every whole
    /// chunk from the front, in order. What does not fill a chunk stays.
    pub fn append(&mut self, samples: &Vec<T>) -> (r: Vec<Vec<T>>)
        requires
            old(self).wf(),
        ensures
            final(self).wf(),
            final(self).spec_chunk_len() == old(self).spec_chunk_len(),
            chunks_view(r@) == chunks_of(old(self)@ + samples@, old(self).spec_chunk_len()),
            final(self)@ == rest_of(old(self)@ + samples@, old(self).spec_chunk_len()),
    {
        let n = self.chunk_len;
        let mut all: Vec<T> = Vec::new();
        std::mem::swap(&mut all, &mut self.pending);
        let ghost s0 = all@;
        let mut i: usize = 0;
        while i < samples.len()
            invariant
                i <= samples.len(),
                all@ == s0 + samples@.take(i as int),
            decreases samples.len() - i,
        {
            all.push(samples[i]);
            i = i + 1;
            assert(all@ =~= s0 + samples@.take(i as int));
        }
        assert(samples@.take(i as int) =~= samples@);
        let ghost s = all@;
        let count = all.len() / n;
        proof {
            lemma_fundamental_div_mod(s.len() as int, n as int);
            assert((s.len() / n as nat) * n == n * (s.len() / n as nat)) by (nonlinear_arith);
        }
        let mut out: Vec<Vec<T>> = Vec::new();
        let mut k: usize = 0;
        while k < count
            invariant
                n > 0,
                all@ == s,
                s.len() <= usize::MAX,
                count == s.len() / (n as nat),
                k <= count,
                out@.len() == k,
                forall|j: int|
                    0 <= j < k ==> (#[trigger] out@[j])@ == s.subrange(j * n, j * n + n),
            decreases count - k,
        {
            proof {
                lemma_chunk_bounds(s.len() as int, n as int, k as int);
            }
            let base = k * n;
            let mut c: Vec<T> = Vec::new();
            let mut j: usize = 0;
            while j < n
                invariant
                    all@ == s,
                    s.len() <= usize::MAX,
                    base + n <= s.len(),
                    j <= n,
                    c@ == s.subrange(base as int, base + j),
                decreases n - j,
            {
                c.push(all[base + j]);
                j = j + 1;
                assert(c@ =~= s.subrange(base as int, base + j));
            }
            out.push(c);
            k = k + 1;
        }
        assert(chunks_view(out@) =~= chunks_of(s, n as nat));
        let mut rest: Vec<T> = Vec::new();
        let mut p: usize = count * n;
        while p < all.len()
            invariant
                all@ == s,
                count * n <= p <= s.len(),
                rest@ == s.subrange(count * n, p as int),
            decreases s.len() - p,
        {
            rest.push(all[p]);
            p = p + 1;
            assert(rest@ =~= s.subrange(count * n, p as int));
        }
        proof {
            lemma_fundamental_div_mod(s.len() as int, n as int);
        }
        self.pending = rest;
        out
    }
}

} // verus!
