use vstd::prelude::*;

use crate::error::{SwapVecError, is_io_failure};
use crate::hash::{fnv1a, hash_bytes};
use crate::store::FileStore;

verus! {

/// One persisted batch's metadata: a checksum of the exact bytes handed to
/// the codec, and their count. The store itself carries no delimiters; these
/// records are the only way to find batch boundaries again.
#[derive(Debug, Clone, Copy, PartialEq, Eq, Structural)]
pub struct BatchInfo {
    /// Checksum of the batch's bytes.
    pub hash: u64,
    /// Number of bytes in the batch.
    pub bytes: usize,
}

/// The metadata records describe the byte blocks: lengths and checksums agree.
pub open spec fn infos_match(infos: Seq<BatchInfo>, batches: Seq<Seq<u8>>) -> bool {
    &&& infos.len() == batches.len()
    &&& forall|i: int|
        0 <= i < batches.len() ==> (#[trigger] infos[i]).bytes == batches[i].len()
            && infos[i].hash == fnv1a(batches[i])
}

/// Splitting a sequence of blocks anywhere splits its concatenation there.
proof fn lemma_flatten_split<A>(s: Seq<Seq<A>>, k: int)
    requires
        0 <= k <= s.len(),
    ensures
        s.flatten() == s.take(k).flatten() + s.skip(k).flatten(),
{
    assert(s =~= s.take(k) + s.skip(k));
    vstd::seq_lib::lemma_flatten_concat(s.take(k), s.skip(k));
}

/// Concatenating one more block extends the concatenation by that block.
proof fn lemma_flatten_take_succ<A>(s: Seq<Seq<A>>, k: int)
    requires
        0 <= k < s.len(),
    ensures
        s.take(k + 1).flatten() == s.take(k).flatten() + s[k],
{
    assert(s.take(k + 1) =~= s.take(k).push(s[k]));
    s.take(k).lemma_flatten_push(s[k]);
}

/// The mandatory corruption gate: accepts exactly the byte blocks whose
/// checksum agrees with the recorded batch metadata. A persisted batch in
/// which any byte changed after its record was taken is rejected here.
pub fn verify_batch(buffer: &[u8], info: &BatchInfo) -> (r: Result<(), SwapVecError>)
    ensures
        r is Ok <==> fnv1a(buffer@) == info.hash,
        r is Err ==> r->Err_0 == SwapVecError::WrongChecksum,
{
    if hash_bytes(buffer) != info.hash {
        Err(SwapVecError::WrongChecksum)
    } else {
        Ok(())
    }
}

/// Write half of the checksummed batch codec: appends opaque byte blocks to
/// the backing store and records a checksum and length for each.
pub struct BatchWriter {
    store: FileStore,
    batch_infos: Vec<BatchInfo>,
    total_bytes: usize,
    batches: Ghost<Seq<Seq<u8>>>,
}

impl BatchWriter {
    /// The byte blocks persisted so far, in write order.
    pub closed spec fn batch_seqs(self) -> Seq<Seq<u8>> {
        self.batches@
    }

    /// True while every store operation so far has succeeded.
    pub closed spec fn clean(self) -> bool {
        self.store.clean()
    }

    /// Well-formedness: the records describe the persisted blocks, and while
    /// the store is clean it holds exactly their concatenation, cursor at the
    /// end.
    pub closed spec fn wf(self) -> bool {
        &&& infos_match(self.batch_infos@, self.batches@)
        &&& self.total_bytes as nat == self.batches@.flatten().len()
        &&& self.clean() ==> self.store.contents() == self.batches@.flatten()
            && self.store.offset() == self.store.contents().len()
    }

    /// Opens a fresh writer over a fresh backing store.
    pub fn new() -> (r: BatchWriter)
        ensures
            r.wf(),
            r.clean(),
            r.batch_seqs() == Seq::<Seq<u8>>::empty(),
    {
        let w = BatchWriter {
            store: FileStore::new(),
            batch_infos: Vec::new(),
            total_bytes: 0,
            batches: Ghost(Seq::empty()),
        };
        proof {
            assert(w.batches@.flatten() =~= Seq::<u8>::empty());
        }
        w
    }

    /// Appends one batch: writes its bytes, flushes them for durability, and
    /// records their checksum and length. On failure nothing is recorded; a
    /// store failure leaves the writer unclean for good.
    pub fn write_batch(&mut self, buffer: &[u8]) -> (r: Result<(), SwapVecError>)
        requires
            old(self).wf(),
        ensures
            final(self).wf(),
            old(self).clean() && r is Ok ==> final(self).clean()
                && final(self).batch_seqs() == old(self).batch_seqs().push(buffer@),
            r is Err ==> final(self).batch_seqs() == old(self).batch_seqs(),
            r is Err ==> is_io_failure(r->Err_0),
            !old(self).clean() ==> !final(self).clean(),
    {
        let new_total = match self.total_bytes.checked_add(buffer.len()) {
            Some(t) => t,
            None => {
                return Err(SwapVecError::Other);
            },
        };
        match self.store.append(buffer) {
            Ok(()) => {},
            Err(e) => {
                return Err(e);
            },
        }
        match self.store.flush() {
            Ok(()) => {},
            Err(e) => {
                return Err(e);
            },
        }
        self.batch_infos.push(
            BatchInfo { hash: hash_bytes(buffer), bytes: buffer.len() },
        );
        self.total_bytes = new_total;
        proof {
            self.batches@.lemma_flatten_push(buffer@);
        }
        self.batches = Ghost(self.batches@.push(buffer@));
        Ok(())
    }

    /// Total number of bytes persisted so far.
    pub fn bytes_written(&self) -> (r: usize)
        requires
            self.wf(),
        ensures
            r as nat == self.batch_seqs().flatten().len(),
    {
        self.total_bytes
    }

    /// Number of batches persisted so far.
    pub fn batch_count(&self) -> (r: usize)
        requires
            self.wf(),
        ensures
            r as nat == self.batch_seqs().len(),
    {
        self.batch_infos.len()
    }

    /// The one-way transition from write-mode to read-mode: rewinds the
    /// backing store to its start and hands the accumulated records over
    /// unchanged. Fails if the store cannot be rewound; the store is dropped
    /// then, which closes and removes the temporary file.
    pub fn into_reader(self) -> (r: Result<BatchReader, SwapVecError>)
        requires
            self.wf(),
        ensures
            r is Ok ==> r.unwrap().wf(),
            r is Ok && self.clean() ==> r.unwrap().clean()
                && r.unwrap().batch_seqs() == self.batch_seqs()
                && r.unwrap().index() == 0,
            r is Err ==> is_io_failure(r->Err_0),
    {
        let BatchWriter { mut store, batch_infos, total_bytes: _, batches } = self;
        match store.rewind() {
            Ok(()) => {},
            Err(e) => {
                return Err(e);
            },
        }
        let reader = BatchReader { store, batch_infos, batch_index: 0, batches };
        proof {
            assert(reader.batches@.take(0) =~= Seq::<Seq<u8>>::empty());
            assert(reader.batches@.take(0).flatten() =~= Seq::<u8>::empty());
        }
        Ok(reader)
    }
}

/// Read half of the checksummed batch codec: walks the recorded batches in
/// write order with a cursor, checking every block against its record before
/// handing it out.
pub struct BatchReader {
    store: FileStore,
    batch_infos: Vec<BatchInfo>,
    batch_index: usize,
    batches: Ghost<Seq<Seq<u8>>>,
}

impl BatchReader {
    /// The byte blocks the store was left holding, in write order.
    pub closed spec fn batch_seqs(self) -> Seq<Seq<u8>> {
        self.batches@
    }

    /// True while every store operation so far has succeeded.
    pub closed spec fn clean(self) -> bool {
        self.store.clean()
    }

    /// How many batches the cursor has passed.
    pub closed spec fn index(self) -> int {
        self.batch_index as int
    }

    /// Well-formedness: the records describe the blocks, the cursor is in
    /// range, and while the store is clean it holds the blocks back to back
    /// with the byte position at the start of the current block.
    pub closed spec fn wf(self) -> bool {
        &&& infos_match(self.batch_infos@, self.batches@)
        &&& 0 <= self.batch_index <= self.batches@.len()
        &&& self.clean() ==> self.store.contents() == self.batches@.flatten()
            && self.store.offset() == self.batches@.take(self.index()).flatten().len()
    }

    /// Returns the next batch's bytes in write order, or `None` once all
    /// recorded batches have been read. Every block is checked against its
    /// recorded checksum before it is handed out; a mismatch is reported as
    /// `WrongChecksum`.
    pub fn read_batch(&mut self) -> (r: Result<Option<Vec<u8>>, SwapVecError>)
        requires
            old(self).wf(),
        ensures
            final(self).wf(),
            final(self).batch_seqs() == old(self).batch_seqs(),
            old(self).clean() ==> match r {
                Ok(Some(v)) => final(self).clean()
                    && old(self).index() < old(self).batch_seqs().len()
                    && v@ == old(self).batch_seqs()[old(self).index()]
                    && final(self).index() == old(self).index() + 1,
                Ok(None) => final(self).clean()
                    && old(self).index() == old(self).batch_seqs().len()
                    && final(self).index() == old(self).index(),
                Err(e) => !final(self).clean() && is_io_failure(e),
            },
            old(self).clean() && old(self).index() == old(self).batch_seqs().len() ==> r is Ok,
            r is Err ==> is_io_failure(r->Err_0) || r->Err_0 == SwapVecError::WrongChecksum,
    {
        if self.batch_index >= self.batch_infos.len() {
            return Ok(None);
        }
        let info = self.batch_infos[self.batch_index];
        let ghost k = self.index();
        proof {
            lemma_flatten_split(self.batches@, k + 1);
            lemma_flatten_take_succ(self.batches@, k);
        }
        let buffer = match self.store.read_exact(info.bytes) {
            Ok(b) => b,
            Err(e) => {
                return Err(e);
            },
        };
        proof {
            if old(self).clean() {
                let a = self.batches@.take(k).flatten();
                let b = self.batches@[k];
                let c = self.batches@.skip(k + 1).flatten();
                assert(self.batches@.flatten() =~= a + b + c);
                assert(buffer@ =~= b);
            }
        }
        match verify_batch(buffer.as_slice(), &info) {
            Ok(()) => {},
            Err(e) => {
                return Err(e);
            },
        }
        self.batch_index = self.batch_index + 1;
        Ok(Some(buffer))
    }

    /// Rewinds the cursor to the first record and the backing store to its
    /// start; afterwards the batches replay from the beginning.
    pub fn reset(&mut self) -> (r: Result<(), SwapVecError>)
        requires
            old(self).wf(),
        ensures
            final(self).wf(),
            final(self).batch_seqs() == old(self).batch_seqs(),
            r is Ok ==> final(self).clean() == old(self).clean()
                && final(self).index() == 0,
            r is Err ==> !final(self).clean(),
            r is Err ==> is_io_failure(r->Err_0),
    {
        match self.store.rewind() {
            Ok(()) => {},
            Err(e) => {
                return Err(e);
            },
        }
        self.batch_index = 0;
        proof {
            assert(self.batches@.take(0) =~= Seq::<Seq<u8>>::empty());
            assert(self.batches@.take(0).flatten() =~= Seq::<u8>::empty());
        }
        Ok(())
    }
}

} // verus!
