use vstd::prelude::*;

use std::collections::VecDeque;

use crate::checkedfile::{BatchReader, BatchWriter};
use crate::compression::{Compress, NoopCompression};
use crate::element::{SwapElement, decode_batch};
use crate::error::{SwapVecError, is_io_failure};
use crate::swapvec::{SwapVecConfig, batch_decodes_to};

verus! {

broadcast use vstd::std_specs::vecdeque::group_vec_dequeue_axioms;

/// Concatenating the tail of a block sequence starts with its first block.
proof fn lemma_flatten_skip_succ<A>(s: Seq<Seq<A>>, k: int)
    requires
        0 <= k < s.len(),
    ensures
        s.skip(k).flatten() == s[k] + s.skip(k + 1).flatten(),
{
    let t = s.skip(k);
    assert(t.first() == s[k]);
    assert(t.drop_first() =~= s.skip(k + 1));
}

/// A sequence of empty blocks concatenates to nothing.
proof fn lemma_flatten_all_empty<A>(s: Seq<Seq<A>>)
    requires
        forall|i: int| 0 <= i < s.len() ==> (#[trigger] s[i]).len() == 0,
    ensures
        s.flatten().len() == 0,
    decreases s.len(),
{
    if s.len() > 0 {
        assert(s.first().len() == 0);
        lemma_flatten_all_empty(s.drop_first());
    }
}

/// Iterator for SwapVec.
///
/// Items might be read from disk,
/// so every item is wrapped in a `Result`.
/// The iterator aborts after the first error.
///
/// Dropping the iterator removes the temporary file, if existing.
/// Also quitting the program should remove the temporary file.
pub struct SwapVecIter<T: SwapElement, C: Compress = NoopCompression> {
    // Do not error on finalization, because turning the container
    // into its iterator is not allowed to fail. Fail at first read then.
    new_error: Option<SwapVecError>,
    current_batch_rev: Vec<T>,
    tempfile: Option<BatchReader>,
    // last_elements are elements,
    // which have not been written to disk.
    // Therefore, for iterating from zero,
    // first read elements from disk and
    // then from last_elements.
    last_elements: VecDeque<T>,
    last_elements_index: usize,
    config: SwapVecConfig<C>,
    chunks: Ghost<Seq<Seq<T>>>,
    full: Ghost<Seq<T>>,
    ok: Ghost<bool>,
}

impl<T: SwapElement, C: Compress> SwapVecIter<T, C> {
    /// The full logical sequence this iterator replays: every persisted
    /// batch's elements in write order, then the elements left in memory.
    pub closed spec fn spec_full(self) -> Seq<T> {
        self.full@
    }

    /// True while no operation has failed, so that `remaining()` describes
    /// the iterator faithfully.
    pub closed spec fn spec_clean(self) -> bool {
        self.ok@
    }

    /// Whether a backing store exists to read batches from.
    pub closed spec fn spec_persisted(self) -> bool {
        self.tempfile is Some
    }

    /// The configuration the iterator was built with, shared unchanged with
    /// the container that produced it.
    pub closed spec fn spec_config(self) -> SwapVecConfig<C> {
        self.config
    }

    /// Whether a failure from finalization or from a reset is still waiting
    /// to be surfaced: the next read is then obliged to report it.
    pub closed spec fn spec_deferred(self) -> bool {
        self.new_error is Some
    }

    /// How many elements of the batch currently being drained are staged in
    /// memory; while any are, a step does no I/O.
    pub closed spec fn spec_staged(self) -> nat {
        self.current_batch_rev@.len()
    }

    /// How many persisted batches the read cursor has passed.
    closed spec fn read_index(self) -> int {
        match self.tempfile {
            Some(rd) => rd.index(),
            None => self.chunks@.len() as int,
        }
    }

    /// The elements still to be yielded: the staged rest of the batch being
    /// drained, then the batches not yet read, then the rest of the tail.
    pub closed spec fn remaining(self) -> Seq<T> {
        self.current_batch_rev@.reverse() + self.chunks@.skip(self.read_index()).flatten()
            + self.last_elements@.skip(self.last_elements_index as int)
    }

    /// The elements still to be yielded from disk or staging alone.
    closed spec fn disk_remaining(self) -> Seq<T> {
        self.current_batch_rev@.reverse() + self.chunks@.skip(self.read_index()).flatten()
    }

    /// The model facts that hold while the iterator is clean.
    closed spec fn clean_model(self) -> bool {
        &&& self.new_error is None
        &&& match self.tempfile {
            Some(rd) => {
                &&& rd.clean()
                &&& rd.batch_seqs().len() == self.chunks@.len()
                &&& forall|i: int|
                    0 <= i < self.chunks@.len() ==> batch_decodes_to(
                        self.config.compression,
                        #[trigger] rd.batch_seqs()[i],
                        self.chunks@[i],
                    )
            },
            None => self.chunks@.len() == 0,
        }
        &&& forall|i: int|
            0 <= i < self.chunks@.len() ==> (#[trigger] self.chunks@[i]).len()
                == self.config.batch_size
        &&& 0 <= self.read_index() <= self.chunks@.len()
        &&& self.full@ == self.chunks@.flatten() + self.last_elements@
    }

    /// Well-formedness of the iterator's state.
    pub closed spec fn wf(self) -> bool {
        &&& match self.tempfile {
            Some(rd) => rd.wf(),
            None => true,
        }
        &&& self.last_elements_index as int <= self.last_elements@.len()
        &&& match self.new_error {
            Some(e) => self.current_batch_rev@.len() == 0 && is_io_failure(e),
            None => true,
        }
        &&& self.spec_clean() ==> self.clean_model()
    }

    /// Builds the iterator out of a finalized container's parts: the write
    /// handle, if any, converts one way into a read handle; a conversion
    /// failure is kept and surfaced by the first read.
    pub(crate) fn new(
        tempfile_written: Option<BatchWriter>,
        last_elements: VecDeque<T>,
        config: SwapVecConfig<C>,
        chunks: Ghost<Seq<Seq<T>>>,
        clean_in: Ghost<bool>,
    ) -> (r: Self)
        requires
            match tempfile_written {
                Some(w) => w.wf(),
                None => true,
            },
            clean_in@ ==> match tempfile_written {
                Some(w) => {
                    &&& w.clean()
                    &&& w.batch_seqs().len() == chunks@.len()
                    &&& forall|i: int|
                        0 <= i < chunks@.len() ==> batch_decodes_to(
                            config.compression,
                            #[trigger] w.batch_seqs()[i],
                            chunks@[i],
                        )
                },
                None => chunks@.len() == 0,
            },
            clean_in@ ==> forall|i: int|
                0 <= i < chunks@.len() ==> (#[trigger] chunks@[i]).len() == config.batch_size,
        ensures
            r.wf(),
            r.spec_full() == chunks@.flatten() + last_elements@,
            r.spec_config() == config,
            clean_in@ && r.spec_clean() ==> r.remaining() == r.spec_full(),
            clean_in@ && tempfile_written is None ==> r.spec_clean(),
            clean_in@ ==> r.spec_clean() || r.spec_deferred(),
            r.spec_clean() ==> !r.spec_deferred(),
            tempfile_written is None ==> !r.spec_persisted(),
            !clean_in@ ==> !r.spec_clean(),
    {
        let ghost mut still_clean: bool = clean_in@;
        let (tempfile, new_error): (Option<BatchReader>, Option<SwapVecError>) =
            match tempfile_written {
            None => (None, None),
            Some(v) => match v.into_reader() {
                Ok(rd) => (Some(rd), None),
                Err(e) => {
                    proof {
                        still_clean = false;
                    }
                    (None, Some(e))
                },
            },
        };
        let r = SwapVecIter {
            new_error,
            current_batch_rev: Vec::new(),
            tempfile,
            last_elements,
            last_elements_index: 0,
            config,
            chunks,
            full: Ghost(chunks@.flatten() + last_elements@),
            ok: Ghost(still_clean),
        };
        proof {
            if clean_in@ && r.spec_clean() {
                assert(r.chunks@.skip(0) =~= r.chunks@);
                assert(r.last_elements@.skip(0) =~= r.last_elements@);
                assert(r.current_batch_rev@.reverse() =~= Seq::<T>::empty());
                assert(r.remaining() =~= r.spec_full());
            }
        }
        r
    }

    /// Reads and decodes the next persisted batch: surfaces a deferred
    /// construction error first; checks, decompresses and decodes the next
    /// block; or reports that no batches remain.
    fn read_batch(&mut self) -> (r: Result<Option<Vec<T>>, SwapVecError>)
        requires
            old(self).wf(),
        ensures
            final(self).wf(),
            final(self).full@ == old(self).full@,
            final(self).chunks@ == old(self).chunks@,
            final(self).config == old(self).config,
            final(self).current_batch_rev@ == old(self).current_batch_rev@,
            final(self).last_elements@ == old(self).last_elements@,
            final(self).last_elements_index == old(self).last_elements_index,
            final(self).spec_persisted() == old(self).spec_persisted(),
            old(self).spec_clean() ==> match r {
                Ok(Some(v)) => final(self).spec_clean() && old(self).read_index() < old(self).chunks@.len() && v@ == old(self).chunks@[old(self).read_index()] && final(self).read_index() == old(self).read_index() + 1,
                Ok(None) => final(self).spec_clean() && old(self).read_index() == old(self).chunks@.len() && final(self).read_index() == old(self).read_index(),
                Err(e) => !final(self).spec_clean() && is_io_failure(e),
            },
            old(self).spec_clean() && (!old(self).spec_persisted() || old(self).read_index()
                == old(self).chunks@.len()) ==> r is Ok,
            old(self).spec_deferred() ==> r is Err && !final(self).spec_deferred(),
            r is Ok ==> !final(self).spec_deferred(),
            r is Err ==> is_io_failure(r->Err_0) || r->Err_0 == SwapVecError::WrongChecksum
                || r->Err_0 == SwapVecError::Decompression
                || r->Err_0 == SwapVecError::SerializationFailed,
            !old(self).spec_clean() ==> !final(self).spec_clean(),
    {
        match self.new_error {
            Some(e) => {
                self.new_error = None;
                self.ok = Ghost(false);
                return Err(e);
            },
            None => {},
        }
        let reader = match &mut self.tempfile {
            None => {
                return Ok(None);
            },
            Some(reader) => reader,
        };
        let buffer = match reader.read_batch() {
            Ok(Some(b)) => b,
            Ok(None) => {
                return Ok(None);
            },
            Err(e) => {
                self.ok = Ghost(false);
                return Err(e);
            },
        };
        let decompressed = match self.config.compression.decompress(buffer) {
            Ok(d) => d,
            Err(()) => {
                self.ok = Ghost(false);
                return Err(SwapVecError::Decompression);
            },
        };
        match decode_batch::<T>(&decompressed) {
            Some(batch) => Ok(Some(batch)),
            None => {
                self.ok = Ghost(false);
                Err(SwapVecError::SerializationFailed)
            },
        }
    }

    /// Yields the next element that lives on disk or in staging, reading and
    /// staging the next batch when the staging runs dry.
    fn next_in_batch(&mut self) -> (r: Result<Option<T>, SwapVecError>)
        requires
            old(self).wf(),
        ensures
            final(self).wf(),
            final(self).full@ == old(self).full@,
            final(self).last_elements@ == old(self).last_elements@,
            final(self).last_elements_index == old(self).last_elements_index,
            final(self).spec_persisted() == old(self).spec_persisted(),
            final(self).spec_config() == old(self).spec_config(),
            old(self).spec_clean() ==> match r {
                Ok(Some(x)) => final(self).spec_clean() && old(self).disk_remaining().len() > 0
                    && x == old(self).disk_remaining()[0] && final(self).disk_remaining() == old(self).disk_remaining().drop_first(),
                Ok(None) => final(self).spec_clean() && old(self).disk_remaining().len() == 0
                    && final(self).disk_remaining().len() == 0,
                Err(e) => !final(self).spec_clean() && is_io_failure(e),
            },
            old(self).spec_clean() && !old(self).spec_persisted() ==> r is Ok,
            old(self).spec_staged() > 0 ==> r is Ok,
            old(self).spec_deferred() ==> r is Err && !final(self).spec_deferred(),
            r is Err ==> is_io_failure(r->Err_0) || r->Err_0 == SwapVecError::WrongChecksum
                || r->Err_0 == SwapVecError::Decompression
                || r->Err_0 == SwapVecError::SerializationFailed,
            !old(self).spec_clean() ==> !final(self).spec_clean(),
    {
        match self.current_batch_rev.pop() {
            Some(v) => {
                proof {
                    if old(self).spec_clean() {
                        let s = old(self).current_batch_rev@;
                        assert(s.reverse()[0] == s[s.len() - 1]);
                        assert(self.current_batch_rev@.reverse() =~= s.reverse().drop_first());
                        assert(final(self).disk_remaining() =~= old(self).disk_remaining().drop_first());
                    }
                }
                return Ok(Some(v));
            },
            None => {},
        }
        let new_batch = match self.read_batch() {
            Ok(Some(b)) => b,
            Ok(None) => {
                proof {
                    if old(self).spec_clean() {
                        assert(self.current_batch_rev@.reverse() =~= Seq::<T>::empty());
                    }
                }
                return Ok(None);
            },
            Err(e) => {
                return Err(e);
            },
        };
        let ghost k = old(self).read_index();
        let ghost staged = new_batch@;
        // stage the batch reversed, so that popping yields original order
        let mut rev: Vec<T> = Vec::new();
        let mut src = new_batch;
        proof {
            assert(staged.take(staged.len() as int) =~= staged);
            assert(staged.skip(staged.len() as int).reverse() =~= Seq::<T>::empty());
        }
        while src.len() > 0
            invariant
                src@.len() <= staged.len(),
                src@ == staged.take(src@.len() as int),
                rev@ == staged.skip(src@.len() as int).reverse(),
            decreases src@.len(),
        {
            let ghost n = src@.len() as int;
            let x = src.pop().unwrap();
            rev.push(x);
            proof {
                assert(staged.take(n).drop_last() =~= staged.take(n - 1));
                assert(staged.take(n).last() == staged[n - 1]);
                assert(staged.skip(n - 1) =~= seq![staged[n - 1]] + staged.skip(n));
                assert(staged.skip(n - 1).reverse() =~= staged.skip(n).reverse().push(
                    staged[n - 1],
                ));
            }
        }
        proof {
            assert(staged.skip(0) =~= staged);
            assert(rev@ == staged.reverse());
        }
        self.current_batch_rev = rev;
        let popped = self.current_batch_rev.pop();
        proof {
            if old(self).spec_clean() {
                lemma_flatten_skip_succ(self.chunks@, k);
                assert(old(self).current_batch_rev@.reverse() =~= Seq::<T>::empty());
                assert(old(self).disk_remaining() =~= staged + self.chunks@.skip(k + 1).flatten());
                if staged.len() > 0 {
                    assert(staged.reverse()[staged.len() - 1] == staged[0]);
                    let after = self.current_batch_rev@;
                    assert(after =~= staged.reverse().drop_last());
                    assert(after.reverse() =~= staged.drop_first());
                    assert(final(self).disk_remaining() =~= old(self).disk_remaining().drop_first());
                } else {
                    // an empty batch means the configured batch size is zero,
                    // so every remaining chunk is empty as well
                    assert(staged.len() == 0);
                    assert(self.config.batch_size == 0);
                    lemma_flatten_all_empty(self.chunks@.skip(k));
                    assert(self.current_batch_rev@.reverse() =~= Seq::<T>::empty());
                    assert(final(self).disk_remaining().len() == 0);
                }
            }
        }
        Ok(popped)
    }

    /// Yields the next element of the original sequence, or `None` once the
    /// whole sequence has been replayed. Read failures come out as one
    /// `Err` item; after the first error no further item is guaranteed
    /// to be valid.
    pub fn next(&mut self) -> (r: Option<Result<T, SwapVecError>>)
        requires
            old(self).wf(),
        ensures
            final(self).wf(),
            final(self).spec_full() == old(self).spec_full(),
            final(self).spec_config() == old(self).spec_config(),
            final(self).spec_persisted() == old(self).spec_persisted(),
            old(self).spec_clean() ==> match r {
                Some(Ok(x)) => final(self).spec_clean() && old(self).remaining().len() > 0 && x
                    == old(self).remaining()[0] && final(self).remaining() == old(self).remaining().drop_first(),
                Some(Err(e)) => !final(self).spec_clean() && is_io_failure(e),
                None => old(self).remaining().len() == 0 && final(self).spec_clean() && final(self).remaining() == old(self).remaining(),
            },
            old(self).spec_clean() && !old(self).spec_persisted() ==> !(r matches Some(Err(_))),
            old(self).spec_staged() > 0 ==> !(r matches Some(Err(_))),
            old(self).spec_deferred() ==> (r matches Some(Err(_))) && !final(self).spec_deferred(),
            r matches Some(Err(e)) ==> is_io_failure(e) || e == SwapVecError::WrongChecksum
                || e == SwapVecError::Decompression || e == SwapVecError::SerializationFailed,
            final(self).spec_clean() ==> !final(self).spec_deferred(),
            !old(self).spec_clean() ==> !final(self).spec_clean(),
    {
        let from_batch = match self.next_in_batch() {
            Err(err) => {
                return Some(Err(err));
            },
            Ok(v) => v,
        };
        match from_batch {
            Some(item) => {
                proof {
                    if old(self).spec_clean() {
                        let tail = old(self).last_elements@.skip(
                            old(self).last_elements_index as int,
                        );
                        assert(old(self).remaining() =~= old(self).disk_remaining() + tail);
                        assert(final(self).remaining() =~= final(self).disk_remaining() + tail);
                        assert(final(self).remaining() =~= old(self).remaining().drop_first());
                    }
                }
                Some(Ok(item))
            },
            None => {
                proof {
                    if old(self).spec_clean() {
                        let tail = old(self).last_elements@.skip(
                            old(self).last_elements_index as int,
                        );
                        assert(old(self).remaining() =~= tail);
                    }
                }
                if self.last_elements_index < self.last_elements.len() {
                    let index = self.last_elements_index;
                    let item = self.last_elements[index];
                    self.last_elements_index = index + 1;
                    proof {
                        if old(self).spec_clean() {
                            assert(final(self).remaining() =~= old(self).remaining().drop_first());
                        }
                    }
                    Some(Ok(item))
                } else {
                    None
                }
            },
        }
    }

    /// Resets the iteration, starting from the first element.
    /// If a file exists, it will be read from the beginning.
    /// Afterwards the iterator yields the full original sequence again; a
    /// failure to rewind the store is deferred and surfaced by the next
    /// read.
    pub fn reset(&mut self)
        requires
            old(self).wf(),
        ensures
            final(self).wf(),
            final(self).spec_full() == old(self).spec_full(),
            final(self).spec_config() == old(self).spec_config(),
            final(self).spec_persisted() == old(self).spec_persisted(),
            old(self).spec_clean() && final(self).spec_clean() ==> final(self).remaining()
                == final(self).spec_full(),
            old(self).spec_clean() && !old(self).spec_persisted() ==> final(self).spec_clean(),
            old(self).spec_clean() ==> final(self).spec_clean() || final(self).spec_deferred(),
            final(self).spec_clean() ==> !final(self).spec_deferred(),
            !old(self).spec_clean() ==> !final(self).spec_clean(),
    {
        self.current_batch_rev.clear();
        self.last_elements_index = 0;
        match &mut self.tempfile {
            Some(tempfile) => {
                match tempfile.reset() {
                    Ok(()) => {},
                    Err(e) => {
                        self.new_error = Some(e);
                        self.ok = Ghost(false);
                    },
                }
            },
            None => {},
        }
        proof {
            if old(self).spec_clean() && self.spec_clean() {
                assert(self.current_batch_rev@.reverse() =~= Seq::<T>::empty());
                assert(self.chunks@.skip(0) =~= self.chunks@);
                assert(self.last_elements@.skip(0) =~= self.last_elements@);
                assert(self.remaining() =~= self.spec_full());
            }
        }
    }
}

} // verus!
