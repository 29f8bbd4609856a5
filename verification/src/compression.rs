use vstd::prelude::*;

verus! {

/// What lz4 block compression (with the uncompressed size prepended) makes
/// of a byte block.
pub uninterp spec fn lz4_compressed(block: Seq<u8>) -> Seq<u8>;

/// What lz4 block decompression makes of a byte block: the decompressed
/// bytes, or nothing for malformed input.
pub uninterp spec fn lz4_decompressed(block: Seq<u8>) -> Option<Seq<u8>>;

/// What deflate compression at a given level makes of a byte block.
pub uninterp spec fn deflate_compressed(block: Seq<u8>, level: u8) -> Seq<u8>;

/// What deflate decompression makes of a byte block: the decompressed
/// bytes, or nothing for malformed input.
pub uninterp spec fn deflate_decompressed(block: Seq<u8>) -> Option<Seq<u8>>;

/// Relies on lz4_flex::compress_prepend_size: deterministic block
/// compression, inverted by decompress_size_prepended ("Can be used in
/// conjunction with compress_prepend_size"). The uncompressed size is
/// prepended as a u32, so the round trip is only promised for blocks
/// shorter than 2^32 bytes; for longer blocks the stored size is truncated
/// and decompression reports an error instead of returning wrong bytes.
#[verifier::external_body]
fn lz4_compress(block: &Vec<u8>) -> (r: Vec<u8>)
    ensures
        r@ == lz4_compressed(block@),
        block@.len() < 0x100000000 ==> lz4_decompressed(r@) == Some(block@),
{
    lz4_flex::compress_prepend_size(block.as_slice())
}

/// Relies on lz4_flex::decompress_size_prepended: deterministic block
/// decompression; malformed input is reported as an error.
#[verifier::external_body]
fn lz4_decompress(block: &Vec<u8>) -> (r: Result<Vec<u8>, ()>)
    ensures
        match lz4_decompressed(block@) {
            Some(s) => r is Ok && r.unwrap()@ == s,
            None => r is Err,
        },
{
    lz4_flex::decompress_size_prepended(block.as_slice()).map_err(|_| ())
}

/// Relies on miniz_oxide::deflate::compress_to_vec: deterministic deflate
/// compression at the given level, inverted by
/// miniz_oxide::inflate::decompress_to_vec.
#[verifier::external_body]
fn deflate_compress(block: &Vec<u8>, level: u8) -> (r: Vec<u8>)
    ensures
        r@ == deflate_compressed(block@, level),
        deflate_decompressed(r@) == Some(block@),
{
    miniz_oxide::deflate::compress_to_vec(block.as_slice(), level)
}

/// Relies on miniz_oxide::inflate::decompress_to_vec: deterministic deflate
/// decompression; malformed input is reported as an error.
#[verifier::external_body]
fn deflate_decompress(block: &Vec<u8>) -> (r: Result<Vec<u8>, ()>)
    ensures
        match deflate_decompressed(block@) {
            Some(s) => r is Ok && r.unwrap()@ == s,
            None => r is Err,
        },
{
    miniz_oxide::inflate::decompress_to_vec(block.as_slice()).map_err(|_| ())
}

/// Provide your own compression algorithm by implementing `compress` and
/// `decompress`, together with the two spec functions that pin down what
/// they return.
///
/// Your compression algorithm is allowed to fail, but `compress` must always
/// produce a block that `decompress` turns back into the same bytes; that
/// promise is part of the contract of `compress`.
pub trait Compress: Sized {
    /// What `compress` makes of a block.
    spec fn compress_spec(&self, block: Seq<u8>) -> Seq<u8>;

    /// What `decompress` makes of a block: the original bytes for any block
    /// that `compress` produced, or possibly nothing for other input.
    spec fn decompress_spec(&self, block: Seq<u8>) -> Option<Seq<u8>>;

    /// The block lengths for which the algorithm promises the round trip.
    /// Built-in lz4 stores the uncompressed size as a u32, so it only
    /// promises blocks shorter than 2^32 bytes; the other built-ins accept
    /// every length.
    spec fn compressible(&self, len: nat) -> bool;

    /// Compress bytes blockwise. The compressed block
    /// will be put into `self.decompress()` later.
    fn compress(&self, block: Vec<u8>) -> (r: Vec<u8>)
        ensures
            r@ == self.compress_spec(block@),
            self.compressible(block@.len()) ==> self.decompress_spec(r@) == Some(block@),
    ;

    /// Receive a block which was earlier `compress()`ed.
    /// If the result is `Ok`, the same bytes which were
    /// `compress()`ed earlier come back out.
    fn decompress(&self, block: Vec<u8>) -> (r: Result<Vec<u8>, ()>)
        ensures
            match self.decompress_spec(block@) {
                Some(s) => r is Ok && r.unwrap()@ == s,
                None => r is Err,
            },
    ;
}

/// The built-in pass-through algorithm: both directions return the block
/// unchanged. A caller-supplied no-op transform behaves exactly like the
/// `None` compression choice, and this type shows it.
#[derive(Debug, Clone, Copy, PartialEq, Eq, Structural)]
pub struct NoopCompression;

impl Compress for NoopCompression {
    open spec fn compress_spec(&self, block: Seq<u8>) -> Seq<u8> {
        block
    }

    open spec fn decompress_spec(&self, block: Seq<u8>) -> Option<Seq<u8>> {
        Some(block)
    }

    open spec fn compressible(&self, len: nat) -> bool {
        true
    }

    fn compress(&self, block: Vec<u8>) -> (r: Vec<u8>) {
        block
    }

    fn decompress(&self, block: Vec<u8>) -> (r: Result<Vec<u8>, ()>) {
        Ok(block)
    }
}

/// Set compression level of the compression
/// algorithm. This maps to different values
/// depending on the chosen algorithm.
#[derive(Clone, Debug, Copy)]
pub enum CompressionLevel {
    /// Slower than default, higher compression.
    /// Might be useful for big amount of data
    /// which requires heavier compression.
    Slow,
    /// A good ratio of compression ratio to cpu time.
    Default,
    /// Accept worse compression for speed.
    /// Useful for easily compressable data with
    /// many repetitions.
    Fast,
}

/// The deflate level a `CompressionLevel` selects.
pub open spec fn deflate_level(level: CompressionLevel) -> u8 {
    match level {
        CompressionLevel::Fast => 2,
        CompressionLevel::Default => 6,
        CompressionLevel::Slow => 9,
    }
}

/// Configure compression for the temporary
/// file into which your data might be swapped out.
#[derive(Debug, Clone)]
#[non_exhaustive]
pub enum Compression<C: Compress = NoopCompression> {
    /// LZ4 block compression.
    Lz4,
    /// Deflate, mostly known from gzip.
    Deflate(CompressionLevel),
    /// Provide your own compression algorithm by implementing
    /// `Compress`.
    Custom(C),
}

impl<C: Compress> Compress for Option<Compression<C>> {
    open spec fn compress_spec(&self, block: Seq<u8>) -> Seq<u8> {
        match self {
            Some(Compression::Lz4) => lz4_compressed(block),
            Some(Compression::Deflate(level)) => deflate_compressed(block, deflate_level(*level)),
            Some(Compression::Custom(algo)) => algo.compress_spec(block),
            None => block,
        }
    }

    open spec fn decompress_spec(&self, block: Seq<u8>) -> Option<Seq<u8>> {
        match self {
            Some(Compression::Lz4) => lz4_decompressed(block),
            Some(Compression::Deflate(_)) => deflate_decompressed(block),
            Some(Compression::Custom(algo)) => algo.decompress_spec(block),
            None => Some(block),
        }
    }

    open spec fn compressible(&self, len: nat) -> bool {
        match self {
            Some(Compression::Lz4) => len < 0x100000000,
            Some(Compression::Deflate(_)) => true,
            Some(Compression::Custom(algo)) => algo.compressible(len),
            None => true,
        }
    }

    fn compress(&self, block: Vec<u8>) -> (r: Vec<u8>) {
        match self {
            Some(Compression::Lz4) => lz4_compress(&block),
            Some(Compression::Deflate(level)) => {
                let compression_level: u8 = match level {
                    CompressionLevel::Fast => 2,
                    CompressionLevel::Default => 6,
                    CompressionLevel::Slow => 9,
                };
                deflate_compress(&block, compression_level)
            },
            Some(Compression::Custom(algo)) => algo.compress(block),
            None => block,
        }
    }

    fn decompress(&self, block: Vec<u8>) -> (r: Result<Vec<u8>, ()>) {
        match self {
            Some(Compression::Lz4) => lz4_decompress(&block),
            Some(Compression::Deflate(_)) => deflate_decompress(&block),
            Some(Compression::Custom(algo)) => algo.decompress(block),
            None => Ok(block),
        }
    }
}

/// A caller-supplied transform that changes nothing in either direction
/// behaves identically to the built-in no-op choice: the same bytes go to
/// the store and the same bytes come back.
pub proof fn lemma_custom_noop_matches_none<C: Compress>(c: C, block: Seq<u8>)
    requires
        forall|b: Seq<u8>| c.compress_spec(b) == b,
        forall|b: Seq<u8>| c.decompress_spec(b) == Some(b),
        forall|l: nat| c.compressible(l),
    ensures
        Some(Compression::Custom(c)).compress_spec(block)
            == None::<Compression<C>>.compress_spec(block),
        Some(Compression::Custom(c)).decompress_spec(block)
            == None::<Compression<C>>.decompress_spec(block),
        forall|l: nat|
            Some(Compression::Custom(c)).compressible(l) == None::<Compression<C>>.compressible(
                l,
            ),
{
}

} // verus!
