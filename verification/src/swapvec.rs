use vstd::prelude::*;

use std::collections::VecDeque;

use crate::checkedfile::BatchWriter;
use crate::compression::{Compress, Compression, NoopCompression};
use crate::element::{
    SwapElement, decode_batch_spec, encode_batch, encode_batch_spec, lemma_batch_round_trip,
    lemma_encode_batch_len,
};
use crate::error::{SwapVecError, is_io_failure};
use crate::swapveciter::SwapVecIter;

verus! {

broadcast use vstd::std_specs::vecdeque::group_vec_dequeue_axioms;

/// Configure when and how the vector should swap.
///
/// The file creation will happen after max(swap_after, batch_size)
/// elements.
///
/// Keep in mind, that if the temporary file exists,
/// after every batch_size elements, at least one write (syscall)
/// will happen.
#[derive(Debug)]
pub struct SwapVecConfig<C: Compress = NoopCompression> {
    /// The vector will create a temporary file and start to
    /// swap after so many elements.
    ///
    /// If you want to start swapping with the first batch,
    /// set to batch_size or smaller.
    ///
    /// Default: 32 * 1024 * 1024
    pub swap_after: usize,
    /// How many elements at once should be written to disk.
    /// Keep in mind, that for every batch one checksum (`u64`)
    /// and one bytecount (`usize`) will be kept in memory.
    ///
    /// One batch write will result in at least one syscall.
    ///
    /// Default: 32 * 1024
    pub batch_size: usize,
    /// If and how you want to compress your temporary file.
    /// This might be only useful for data which is compressable,
    /// like timeseries often are.
    ///
    /// Default: No compression
    pub compression: Option<Compression<C>>,
}

impl<C: Compress> Default for SwapVecConfig<C> {
    /// The default configuration: spill after 32 * 1024 * 1024 elements, in
    /// batches of 32 * 1024, without compression.
    fn default() -> (r: Self)
        ensures
            r.swap_after == 0x2000000usize,
            r.batch_size == 0x8000usize,
            r.compression is None,
    {
        SwapVecConfig { swap_after: 32 * 1024 * 1024, batch_size: 32 * 1024, compression: None }
    }
}

/// The element count above which the first spill happens: whichever of
/// `swap_after` and `batch_size` is larger.
pub open spec fn spill_threshold(swap_after: usize, batch_size: usize) -> nat {
    if swap_after > batch_size {
        swap_after as nat
    } else {
        batch_size as nat
    }
}

/// One persisted byte block decodes, through the configured compression and
/// the element codec, to the given run of elements.
pub open spec fn batch_decodes_to<T: SwapElement, C: Compress>(
    compression: Option<Compression<C>>,
    block: Seq<u8>,
    chunk: Seq<T>,
) -> bool {
    &&& compression.decompress_spec(block) is Some
    &&& decode_batch_spec::<T>(compression.decompress_spec(block).unwrap()) == Some(chunk)
}

/// One spill check on the container's model: when the buffer holds more
/// than batch_size elements and the pushed count has passed the threshold,
/// the batch_size oldest elements leave the buffer's front as one chunk;
/// otherwise nothing moves.
pub open spec fn spec_spill_check<T>(
    chunks: Seq<Seq<T>>,
    buffer: Seq<T>,
    batch_size: nat,
    threshold: nat,
    total: nat,
) -> (Seq<Seq<T>>, Seq<T>) {
    if buffer.len() > batch_size && total > threshold {
        (chunks.push(buffer.take(batch_size as int)), buffer.skip(batch_size as int))
    } else {
        (chunks, buffer)
    }
}

/// What consuming one element does to the model: append it, then run the
/// spill check twice, as `consume` does for every element.
pub open spec fn spec_consume_step<T>(
    chunks: Seq<Seq<T>>,
    buffer: Seq<T>,
    element: T,
    batch_size: nat,
    threshold: nat,
    total: nat,
) -> (Seq<Seq<T>>, Seq<T>) {
    let pushed = spec_spill_check(chunks, buffer.push(element), batch_size, threshold, total + 1);
    spec_spill_check(pushed.0, pushed.1, batch_size, threshold, total + 1)
}

/// What consuming a whole sequence does to the model, element by element in
/// order.
pub open spec fn spec_consume_fold<T>(
    chunks: Seq<Seq<T>>,
    buffer: Seq<T>,
    it: Seq<T>,
    batch_size: nat,
    threshold: nat,
    total: nat,
) -> (Seq<Seq<T>>, Seq<T>)
    decreases it.len(),
{
    if it.len() == 0 {
        (chunks, buffer)
    } else {
        let step = spec_consume_step(chunks, buffer, it.first(), batch_size, threshold, total);
        spec_consume_fold(step.0, step.1, it.drop_first(), batch_size, threshold, total + 1)
    }
}

/// Consuming one more element extends the fold by one step.
proof fn lemma_consume_fold_push<T>(
    chunks: Seq<Seq<T>>,
    buffer: Seq<T>,
    it: Seq<T>,
    element: T,
    batch_size: nat,
    threshold: nat,
    total: nat,
)
    ensures
        ({
            let whole = spec_consume_fold(chunks, buffer, it.push(element), batch_size, threshold, total);
            let pre = spec_consume_fold(chunks, buffer, it, batch_size, threshold, total);
            whole == spec_consume_step(
                pre.0,
                pre.1,
                element,
                batch_size,
                threshold,
                total + it.len(),
            )
        }),
    decreases it.len(),
{
    if it.len() == 0 {
        let inner = spec_consume_step(chunks, buffer, element, batch_size, threshold, total);
        assert(it.push(element).first() == element);
        assert(it.push(element).drop_first() =~= Seq::<T>::empty());
        assert(spec_consume_fold(chunks, buffer, it.push(element), batch_size, threshold, total)
            == spec_consume_fold(
            inner.0,
            inner.1,
            it.push(element).drop_first(),
            batch_size,
            threshold,
            total + 1,
        ));
        assert(spec_consume_fold(
            inner.0,
            inner.1,
            Seq::<T>::empty(),
            batch_size,
            threshold,
            total + 1,
        ) == inner);
        assert(spec_consume_fold(chunks, buffer, it, batch_size, threshold, total) == (
        chunks,
        buffer,
        ));
    } else {
        let step0 = spec_consume_step(chunks, buffer, it.first(), batch_size, threshold, total);
        assert(it.push(element).first() == it.first());
        assert(it.push(element).drop_first() =~= it.drop_first().push(element));
        assert(spec_consume_fold(chunks, buffer, it.push(element), batch_size, threshold, total)
            == spec_consume_fold(
            step0.0,
            step0.1,
            it.drop_first().push(element),
            batch_size,
            threshold,
            total + 1,
        ));
        assert(spec_consume_fold(chunks, buffer, it, batch_size, threshold, total)
            == spec_consume_fold(
            step0.0,
            step0.1,
            it.drop_first(),
            batch_size,
            threshold,
            total + 1,
        ));
        lemma_consume_fold_push(
            step0.0,
            step0.1,
            it.drop_first(),
            element,
            batch_size,
            threshold,
            total + 1,
        );
    }
}

/// Concatenating blocks of one common length multiplies that length by
/// their count.
proof fn lemma_flatten_uniform_len<A>(s: Seq<Seq<A>>, w: nat)
    requires
        forall|i: int| 0 <= i < s.len() ==> (#[trigger] s[i]).len() == w,
    ensures
        s.flatten().len() == s.len() * w,
    decreases s.len(),
{
    if s.len() > 0 {
        assert(s.flatten() == s.first() + s.drop_first().flatten());
        assert forall|i: int| 0 <= i < s.drop_first().len() implies (#[trigger] s.drop_first()[i]).len()
            == w by {
            assert(s.drop_first()[i] == s[i + 1]);
        }
        lemma_flatten_uniform_len(s.drop_first(), w);
        assert((s.len() - 1) * w + w == s.len() * w) by (nonlinear_arith);
    }
}

/// An only growing array type
/// which swaps to disk, based on its initial configuration.
///
/// Create a mutable instance, and then
/// pass iterators or elements to grow it.
pub struct SwapVec<T: SwapElement, C: Compress = NoopCompression> {
    tempfile: Option<BatchWriter>,
    vector: VecDeque<T>,
    config: SwapVecConfig<C>,
    chunks: Ghost<Seq<Seq<T>>>,
    total: Ghost<nat>,
    ok: Ghost<bool>,
}

impl<T: SwapElement, C: Compress> Default for SwapVec<T, C> {
    /// An empty container with the default configuration.
    fn default() -> (r: Self)
        ensures
            r.wf(),
            r.spec_clean(),
            r.content() == Seq::<T>::empty(),
            r.spec_total() == 0,
            r.spec_config().compression is None,
    {
        Self::with_config(SwapVecConfig::default())
    }
}

impl<T: SwapElement, C: Compress> SwapVec<T, C> {
    /// The configuration the container was built with.
    pub closed spec fn spec_config(self) -> SwapVecConfig<C> {
        self.config
    }

    /// The runs of elements persisted so far, in write order.
    pub closed spec fn spec_chunks(self) -> Seq<Seq<T>> {
        self.chunks@
    }

    /// The in-memory buffer, in insertion order.
    pub closed spec fn spec_buffer(self) -> Seq<T> {
        self.vector@
    }

    /// How many elements the in-memory buffer holds.
    pub open spec fn spec_buffered(self) -> nat {
        self.spec_buffer().len()
    }

    /// The full logical sequence: every element of every persisted batch, in
    /// write order, followed by the in-memory buffer in insertion order.
    pub open spec fn content(self) -> Seq<T> {
        self.spec_chunks().flatten() + self.spec_buffer()
    }

    /// The bytes each persisted batch holds: the configured compression
    /// applied to the serialized run of elements.
    pub open spec fn spec_batch_bytes(self) -> Seq<Seq<u8>> {
        Seq::new(
            self.spec_chunks().len(),
            |i: int|
                self.spec_config().compression.compress_spec(
                    encode_batch_spec(self.spec_chunks()[i]),
                ),
        )
    }

    /// How many bytes the persisted batches hold together.
    pub open spec fn spec_spilled_bytes(self) -> nat {
        self.spec_batch_bytes().flatten().len()
    }

    /// How many elements have been pushed in total.
    pub closed spec fn spec_total(self) -> nat {
        self.total@
    }

    /// True while no operation has failed, so that `content()` describes the
    /// container faithfully.
    pub closed spec fn spec_clean(self) -> bool {
        self.ok@
    }

    /// Whether the backing store has been created.
    pub closed spec fn spec_written(self) -> bool {
        self.tempfile is Some
    }

    /// The element count above which this container first spills.
    pub open spec fn threshold(self) -> nat {
        spill_threshold(self.spec_config().swap_after, self.spec_config().batch_size)
    }

    /// The model facts that hold while the container is clean.
    closed spec fn clean_model(self) -> bool {
        &&& match self.tempfile {
            Some(w) => {
                &&& w.clean()
                &&& w.batch_seqs().len() == self.chunks@.len()
                &&& forall|i: int|
                    0 <= i < self.chunks@.len() ==> batch_decodes_to(
                        self.config.compression,
                        #[trigger] w.batch_seqs()[i],
                        self.chunks@[i],
                    )
                &&& forall|i: int|
                    0 <= i < self.chunks@.len() ==> #[trigger] w.batch_seqs()[i]
                        == self.config.compression.compress_spec(
                        encode_batch_spec(self.chunks@[i]),
                    )
            },
            None => self.chunks@.len() == 0,
        }
        &&& forall|i: int|
            0 <= i < self.chunks@.len() ==> (#[trigger] self.chunks@[i]).len()
                == self.config.batch_size
        &&& self.tempfile is Some ==> self.chunks@.len() > 0
        &&& self.total@ == self.content().len()
        &&& self.config.compression.compressible(
            self.config.batch_size as nat * T::width(),
        )
    }

    /// Well-formedness apart from the spill decision being up to date.
    closed spec fn wf_core(self) -> bool {
        &&& match self.tempfile {
            Some(w) => w.wf(),
            None => true,
        }
        &&& self.tempfile is Some ==> self.total@ > self.threshold()
        &&& self.tempfile is None ==> self.vector@.len() == self.total@
        &&& self.vector@.len() <= self.total@
        &&& self.spec_clean() ==> self.clean_model()
    }

    /// Well-formedness: between public operations, the store exists exactly
    /// when more elements than the threshold have been pushed.
    pub closed spec fn wf(self) -> bool {
        &&& self.wf_core()
        &&& self.tempfile is None ==> self.total@ <= self.threshold()
    }

    /// Initialize with non-default configuration. The container starts
    /// clean whenever the configured compression promises the round trip
    /// for this container's batch byte size; with built-in lz4 that is any
    /// batch of fewer than 2^32 bytes, and the other choices accept all.
    pub fn with_config(config: SwapVecConfig<C>) -> (r: Self)
        ensures
            r.wf(),
            r.spec_clean() == config.compression.compressible(
                config.batch_size as nat * T::width(),
            ),
            r.content() == Seq::<T>::empty(),
            r.spec_chunks() == Seq::<Seq<T>>::empty(),
            r.spec_total() == 0,
            !r.spec_written(),
            r.spec_batches_written() == 0,
            r.spec_config() == config,
    {
        let ghost starts_clean: bool = config.compression.compressible(
            config.batch_size as nat * T::width(),
        );
        let v = SwapVec {
            tempfile: None,
            vector: VecDeque::new(),
            config,
            chunks: Ghost(Seq::empty()),
            total: Ghost(0),
            ok: Ghost(starts_clean),
        };
        proof {
            assert(v.chunks@.flatten() =~= Seq::<T>::empty());
            assert(v.content() =~= Seq::<T>::empty());
        }
        v
    }

    /// Give away an entire batch of elements for consumption.
    /// Might return an error, due to possibly triggered batch flushes (IO).
    /// The spill check runs after every single element, so even one huge
    /// call bounds memory growth at each step.
    pub fn consume(&mut self, it: Vec<T>) -> (r: Result<(), SwapVecError>)
        requires
            old(self).wf(),
        ensures
            final(self).wf(),
            final(self).spec_config() == old(self).spec_config(),
            old(self).spec_total() <= final(self).spec_total() <= old(self).spec_total()
                + it@.len(),
            old(self).spec_clean() && r is Ok ==> final(self).spec_clean()
                && final(self).content() == old(self).content() + it@
                && final(self).spec_total() == old(self).spec_total() + it@.len(),
            old(self).spec_clean() && r is Ok ==> ({
                let s = spec_consume_fold(
                    old(self).spec_chunks(),
                    old(self).spec_buffer(),
                    it@,
                    old(self).spec_config().batch_size as nat,
                    old(self).threshold(),
                    old(self).spec_total(),
                );
                final(self).spec_chunks() == s.0 && final(self).spec_buffer() == s.1
            }),
            old(self).spec_clean() && !old(self).spec_written() && old(self).spec_total()
                + it@.len() <= old(self).threshold() ==> r is Ok && final(self).spec_clean()
                && !final(self).spec_written(),
            old(self).spec_clean() && old(self).spec_buffered() + it@.len() <= old(self).spec_config().batch_size ==> r is Ok && final(self).spec_clean(),
            r is Err ==> !final(self).spec_clean(),
            r is Err ==> is_io_failure(r->Err_0),
            !old(self).spec_clean() ==> !final(self).spec_clean(),
    {
        let mut i: usize = 0;
        while i < it.len()
            invariant
                0 <= i <= it@.len(),
                self.wf(),
                self.spec_config() == old(self).spec_config(),
                self.spec_total() == old(self).spec_total() + i,
                old(self).spec_clean() && self.spec_clean() ==> self.content() == old(self).content() + it@.take(i as int),
                old(self).spec_clean() && self.spec_clean() ==> ({
                    let s = spec_consume_fold(
                        old(self).spec_chunks(),
                        old(self).spec_buffer(),
                        it@.take(i as int),
                        old(self).spec_config().batch_size as nat,
                        old(self).threshold(),
                        old(self).spec_total(),
                    );
                    self.spec_chunks() == s.0 && self.spec_buffer() == s.1
                }),
                old(self).spec_clean() ==> self.spec_clean(),
                !old(self).spec_clean() ==> !self.spec_clean(),
                old(self).spec_clean() && !old(self).spec_written() && old(self).spec_total()
                    + it@.len() <= old(self).threshold() ==> !self.spec_written(),
                old(self).spec_clean() && old(self).spec_buffered() + it@.len() <= old(self).spec_config().batch_size ==> self.spec_buffered() == old(self).spec_buffered()
                    + i,
            decreases it@.len() - i,
        {
            let element = it[i];
            match self.push(element) {
                Ok(()) => {},
                Err(e) => {
                    return Err(e);
                },
            }
            match self.after_push_work() {
                Ok(()) => {},
                Err(e) => {
                    return Err(e);
                },
            }
            proof {
                if old(self).spec_clean() {
                    assert(it@.take(i + 1) =~= it@.take(i as int).push(it@[i as int]));
                    assert(old(self).content() + it@.take(i + 1) =~= (old(self).content()
                        + it@.take(i as int)).push(it@[i as int]));
                    lemma_consume_fold_push(
                        old(self).spec_chunks(),
                        old(self).spec_buffer(),
                        it@.take(i as int),
                        it@[i as int],
                        old(self).spec_config().batch_size as nat,
                        old(self).threshold(),
                        old(self).spec_total(),
                    );
                }
            }
            i = i + 1;
        }
        proof {
            assert(it@.take(it@.len() as int) =~= it@);
        }
        Ok(())
    }

    /// Push a single element.
    /// Might return an error, due to a possibly triggered batch flush (IO).
    /// Will write at most one batch per insert.
    pub fn push(&mut self, element: T) -> (r: Result<(), SwapVecError>)
        requires
            old(self).wf(),
        ensures
            final(self).wf(),
            final(self).spec_config() == old(self).spec_config(),
            final(self).spec_total() == old(self).spec_total() + 1,
            old(self).spec_clean() && r is Ok ==> final(self).spec_clean()
                && final(self).content() == old(self).content().push(element),
            old(self).spec_clean() && r is Ok ==> ({
                let s = spec_spill_check(
                    old(self).spec_chunks(),
                    old(self).spec_buffer().push(element),
                    old(self).spec_config().batch_size as nat,
                    old(self).threshold(),
                    old(self).spec_total() + 1,
                );
                final(self).spec_chunks() == s.0 && final(self).spec_buffer() == s.1
            }),
            old(self).spec_clean() && (old(self).spec_buffered() + 1 <= old(self).spec_config().batch_size || (!old(self).spec_written() && old(self).spec_total() + 1
                <= old(self).threshold())) ==> r is Ok && final(self).spec_clean(),
            r is Err ==> !final(self).spec_clean(),
            r is Err ==> is_io_failure(r->Err_0),
            !old(self).spec_clean() ==> !final(self).spec_clean(),
    {
        self.vector.push_back(element);
        self.total = Ghost(self.total@ + 1);
        proof {
            assert(self.chunks@.flatten() + self.vector@ =~= (old(self).chunks@.flatten() + old(self).vector@).push(element));
        }
        self.after_push_work()
    }

    /// Check if enough items have been pushed so that
    /// the temporary file has been created.
    /// Will be false while the element count is at most the larger of
    /// swap_after and batch_size.
    pub fn written_to_file(&self) -> (r: bool)
        requires
            self.wf(),
        ensures
            r == self.spec_written(),
            r <==> self.spec_total() > self.threshold(),
    {
        self.tempfile.is_some()
    }

    /// Get the amount of bytes written to the backing store so far.
    pub fn file_size(&self) -> (r: Option<usize>)
        requires
            self.wf(),
        ensures
            r is Some <==> self.spec_written(),
            self.spec_clean() && r is Some ==> r.unwrap() as nat == self.spec_spilled_bytes(),
    {
        match &self.tempfile {
            Some(w) => {
                let n = w.bytes_written();
                proof {
                    if self.spec_clean() {
                        assert(w.batch_seqs() =~= self.spec_batch_bytes());
                    }
                }
                Some(n)
            },
            None => None,
        }
    }

    /// Basically int(elements pushed / batch size).
    pub fn batches_written(&self) -> (r: usize)
        requires
            self.wf(),
        ensures
            r as nat == self.spec_batches_written(),
            self.spec_clean() ==> r as nat == self.spec_chunks().len(),
            self.spec_clean() ==> r as int * (self.spec_config().batch_size as int)
                + self.spec_buffered() as int == self.spec_total() as int,
            !self.spec_written() ==> r == 0,
            self.spec_clean() ==> ((r == 0) <==> !self.spec_written()),
    {
        let r = match &self.tempfile {
            Some(w) => w.batch_count(),
            None => 0,
        };
        proof {
            if self.spec_clean() {
                lemma_flatten_uniform_len(
                    self.spec_chunks(),
                    self.spec_config().batch_size as nat,
                );
            }
        }
        r
    }

    /// The number of batches persisted so far.
    pub closed spec fn spec_batches_written(self) -> nat {
        match self.tempfile {
            Some(w) => w.batch_seqs().len(),
            None => 0,
        }
    }

    /// The spill check, run after every insertion: while the buffer holds
    /// no more than batch_size elements nothing happens; before the store
    /// exists, a buffer of at most swap_after elements is left alone too.
    /// Otherwise the store is created if absent and the oldest batch_size
    /// elements leave memory as one compressed, checksummed batch.
    fn after_push_work(&mut self) -> (r: Result<(), SwapVecError>)
        requires
            old(self).wf_core(),
        ensures
            final(self).wf(),
            final(self).spec_config() == old(self).spec_config(),
            final(self).spec_total() == old(self).spec_total(),
            old(self).spec_clean() && r is Ok ==> final(self).spec_clean()
                && final(self).content() == old(self).content(),
            old(self).spec_clean() && r is Ok ==> ({
                let s = spec_spill_check(
                    old(self).spec_chunks(),
                    old(self).spec_buffer(),
                    old(self).spec_config().batch_size as nat,
                    old(self).threshold(),
                    old(self).spec_total(),
                );
                final(self).spec_chunks() == s.0 && final(self).spec_buffer() == s.1
            }),
            old(self).spec_clean() && (old(self).spec_buffered() <= old(self).spec_config().batch_size || (!old(self).spec_written() && old(self).spec_total()
                <= old(self).threshold())) ==> r is Ok && final(self).spec_clean(),
            r is Err ==> !final(self).spec_clean(),
            r is Err ==> is_io_failure(r->Err_0),
            !old(self).spec_clean() ==> !final(self).spec_clean(),
    {
        let batch_size = self.config.batch_size;
        if self.vector.len() <= batch_size {
            return Ok(());
        }
        if self.tempfile.is_none() && self.vector.len() <= self.config.swap_after {
            return Ok(());
        }
        if self.tempfile.is_none() {
            self.tempfile = Some(BatchWriter::new());
        }

        let mut rest: VecDeque<T> = VecDeque::new();
        std::mem::swap(&mut self.vector, &mut rest);
        let ghost drained = rest@;
        let mut batch: Vec<T> = Vec::new();
        let mut k: usize = 0;
        while k < batch_size
            invariant
                0 <= k <= batch_size,
                batch_size < drained.len(),
                batch@ == drained.take(k as int),
                rest@ == drained.skip(k as int),
            decreases batch_size - k,
        {
            let x = rest.pop_front().unwrap();
            batch.push(x);
            proof {
                assert(drained.take(k + 1) =~= drained.take(k as int).push(drained[k as int]));
                assert(drained.skip(k as int).subrange(1, drained.skip(k as int).len() as int)
                    =~= drained.skip(k + 1));
            }
            k = k + 1;
        }
        std::mem::swap(&mut self.vector, &mut rest);

        let buffer = encode_batch(&batch);
        let compressed = self.config.compression.compress(buffer);
        let result = self.tempfile.as_mut().unwrap().write_batch(compressed.as_slice());
        match result {
            Ok(()) => {
                proof {
                    if self.spec_clean() {
                        lemma_batch_round_trip::<T>(batch@);
                        lemma_encode_batch_len::<T>(batch@);
                        self.chunks@.lemma_flatten_push(batch@);
                        assert(drained =~= drained.take(batch_size as int) + drained.skip(
                            batch_size as int,
                        ));
                        assert((self.chunks@.flatten() + batch@) + drained.skip(batch_size as int)
                            =~= self.chunks@.flatten() + drained);
                    }
                }
                self.chunks = Ghost(self.chunks@.push(batch@));
                Ok(())
            },
            Err(e) => {
                self.ok = Ghost(false);
                Err(e)
            },
        }
    }

    /// Finalize the container into its replay iterator, consuming it: the
    /// write handle converts, one way, into a read handle rewound to the
    /// start. A conversion failure is deferred and surfaced by the first
    /// read.
    pub fn into_iter(self) -> (r: SwapVecIter<T, C>)
        requires
            self.wf(),
        ensures
            r.wf(),
            r.spec_full() == self.content(),
            r.spec_config() == self.spec_config(),
            self.spec_clean() && r.spec_clean() ==> r.remaining() == r.spec_full(),
            self.spec_clean() && !self.spec_written() ==> r.spec_clean(),
            self.spec_clean() ==> r.spec_clean() || r.spec_deferred(),
            r.spec_clean() ==> !r.spec_deferred(),
            !self.spec_written() ==> !r.spec_persisted(),
            !self.spec_clean() ==> !r.spec_clean(),
    {
        let SwapVec { tempfile, vector, config, chunks, total: _, ok } = self;
        SwapVecIter::new(tempfile, vector, config, chunks, ok)
    }
}

} // verus!
