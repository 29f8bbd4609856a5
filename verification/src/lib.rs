use vstd::prelude::*;

mod checkedfile;
mod compression;
mod element;
mod error;
mod hash;
mod store;
mod swapvec;
mod swapveciter;

pub use checkedfile::{BatchInfo, BatchReader, BatchWriter, infos_match, verify_batch};
pub use compression::{
    Compress, Compression, CompressionLevel, NoopCompression, deflate_compressed,
    deflate_decompressed, deflate_level, lemma_custom_noop_matches_none, lz4_compressed,
    lz4_decompressed,
};
pub use element::{
    SwapElement, decode_batch, decode_batch_spec, encode_batch, encode_batch_spec,
    lemma_batch_round_trip, lemma_encode_batch_len,
};
pub use error::SwapVecError;
pub use hash::{
    FNV_OFFSET_BASIS, FNV_PRIME, fnv1a, fnv1a_step, hash_bytes, lemma_corrupt_byte_changes_hash,
};
pub use swapvec::{
    SwapVec, SwapVecConfig, batch_decodes_to, spec_consume_fold, spec_consume_step,
    spec_spill_check, spill_threshold,
};
pub use swapveciter::SwapVecIter;

verus! {

} // verus!
