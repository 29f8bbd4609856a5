use swapvec::{
    BatchInfo, Compress, Compression, CompressionLevel, NoopCompression, SwapVec, SwapVecConfig,
    SwapVecError, decode_batch, hash_bytes, verify_batch,
};

// Threshold gating with swap_after above batch_size: the file appears only
// once strictly more than swap_after elements have been pushed.
#[test]
fn gating_swap_after_dominates() {
    let config: SwapVecConfig = SwapVecConfig {
        compression: None,
        swap_after: 10,
        batch_size: 3,
    };
    let mut v: SwapVec<u64> = SwapVec::with_config(config);
    for i in 0..10 {
        v.push(i).unwrap();
        assert!(!v.written_to_file());
    }
    v.push(10).unwrap();
    assert!(v.written_to_file());
    v.push(11).unwrap();
    assert!(v.written_to_file());
}

// Threshold gating with swap_after at or below batch_size: spilling begins
// once more than batch_size elements have been pushed.
#[test]
fn gating_batch_size_dominates() {
    let config: SwapVecConfig = SwapVecConfig {
        compression: None,
        swap_after: 2,
        batch_size: 5,
    };
    let mut v: SwapVec<u64> = SwapVec::with_config(config);
    for i in 0..5 {
        v.push(i).unwrap();
        assert!(!v.written_to_file());
    }
    v.push(5).unwrap();
    assert!(v.written_to_file());
}

// Known checksum values of the batch codec's hash.
#[test]
fn hash_known_values() {
    assert_eq!(hash_bytes(&[]), 0xcbf29ce484222325);
    assert_eq!(hash_bytes(&[0x61]), 0xaf63dc4c8601ec8c);
    assert_eq!(hash_bytes(&[1, 2, 3]), 0xd0aa6218672cf5ab);
}

// One flipped byte in a persisted batch must surface as WrongChecksum,
// never as data.
#[test]
fn checksum_detects_corruption() {
    let data: Vec<u8> = (0..200).collect();
    let info = BatchInfo {
        hash: hash_bytes(&data),
        bytes: data.len(),
    };
    assert!(verify_batch(&data, &info).is_ok());
    for position in [0usize, 77, 199] {
        let mut corrupted = data.clone();
        corrupted[position] ^= 0x20;
        let r = verify_batch(&corrupted, &info);
        assert!(matches!(r, Err(SwapVecError::WrongChecksum)));
    }
}

// A byte block that is not a whole number of element encodings is rejected.
#[test]
fn decode_rejects_ragged_input() {
    let bytes: Vec<u8> = vec![0; 13];
    let decoded: Option<Vec<u64>> = decode_batch(&bytes);
    assert!(decoded.is_none());
    let bytes8: Vec<u8> = vec![0; 16];
    let decoded8: Option<Vec<u64>> = decode_batch(&bytes8);
    assert_eq!(decoded8.unwrap().len(), 2);
}

// Garbage can not be decompressed by the built-in algorithms.
#[test]
fn decompress_rejects_garbage() {
    let lz4: Option<Compression<NoopCompression>> = Some(Compression::Lz4);
    assert!(lz4.decompress(vec![0xfe, 0xfe]).is_err());
    let deflate: Option<Compression<NoopCompression>> =
        Some(Compression::Deflate(CompressionLevel::Default));
    assert!(deflate.decompress(vec![0xfe; 33]).is_err());
}

// The built-in algorithms do not hand their input back unchanged, and each
// one round-trips.
#[test]
fn builtin_compression_transforms() {
    let data: Vec<u8> = vec![7; 4096];
    let lz4: Option<Compression<NoopCompression>> = Some(Compression::Lz4);
    let lz4_compressed = lz4.compress(data.clone());
    assert_ne!(lz4_compressed, data);
    assert_eq!(lz4.decompress(lz4_compressed).unwrap(), data);
    for level in [
        CompressionLevel::Fast,
        CompressionLevel::Default,
        CompressionLevel::Slow,
    ] {
        let deflate: Option<Compression<NoopCompression>> = Some(Compression::Deflate(level));
        let deflate_compressed = deflate.compress(data.clone());
        assert_ne!(deflate_compressed, data);
        assert_eq!(deflate.decompress(deflate_compressed).unwrap(), data);
    }
}

// A caller-supplied no-op transform behaves identically to the built-in
// no-op choice: same replay, same persisted byte count.
#[test]
fn custom_noop_matches_builtin_none() {
    let data: Vec<u64> = (0..100).collect();
    let mut with_none: SwapVec<u64> = SwapVec::with_config(SwapVecConfig {
        compression: None,
        swap_after: 8,
        batch_size: 4,
    });
    let mut with_custom: SwapVec<u64> = SwapVec::with_config(SwapVecConfig {
        compression: Some(Compression::Custom(NoopCompression)),
        swap_after: 8,
        batch_size: 4,
    });
    with_none.consume(data.clone()).unwrap();
    with_custom.consume(data.clone()).unwrap();
    assert_eq!(with_none.file_size(), with_custom.file_size());
    assert_eq!(with_none.batches_written(), with_custom.batches_written());
    let mut it_none = with_none.into_iter();
    let mut it_custom = with_custom.into_iter();
    loop {
        match (it_none.next(), it_custom.next()) {
            (None, None) => break,
            (a, b) => assert_eq!(a.unwrap().unwrap(), b.unwrap().unwrap()),
        }
    }
}

// Exact bookkeeping on the write path: with batch_size 1 and swap_after 2,
// the n-th push beyond the threshold spills one 8-byte batch.
#[test]
fn exact_file_accounting() {
    let mut v: SwapVec<u64> = SwapVec::with_config(SwapVecConfig {
        compression: None,
        swap_after: 2,
        batch_size: 1,
    });
    v.push(1).unwrap();
    v.push(2).unwrap();
    assert_eq!(v.file_size(), None);
    assert_eq!(v.batches_written(), 0);
    v.push(3).unwrap();
    v.push(4).unwrap();
    v.push(5).unwrap();
    assert_eq!(v.batches_written(), 3);
    assert_eq!(v.file_size(), Some(24));
}

// An empty container replays as the empty sequence, before and after reset.
#[test]
fn empty_container_replays_empty() {
    let v: SwapVec<u64> = SwapVec::with_config(SwapVecConfig {
        compression: None,
        swap_after: 4,
        batch_size: 2,
    });
    assert!(!v.written_to_file());
    let mut it = v.into_iter();
    assert!(it.next().is_none());
    it.reset();
    assert!(it.next().is_none());
}

// Reset after consuming only part of the in-memory tail restarts the whole
// sequence from position zero.
#[test]
fn reset_after_partial_tail() {
    let mut v: SwapVec<u64> = SwapVec::with_config(SwapVecConfig {
        compression: None,
        swap_after: 100,
        batch_size: 10,
    });
    v.consume((0..5).collect()).unwrap();
    assert!(!v.written_to_file());
    let mut it = v.into_iter();
    assert_eq!(it.next().unwrap().unwrap(), 0);
    assert_eq!(it.next().unwrap().unwrap(), 1);
    it.reset();
    let mut all: Vec<u64> = Vec::new();
    while let Some(x) = it.next() {
        all.push(x.unwrap());
    }
    assert_eq!(all, vec![0, 1, 2, 3, 4]);
}

// Reset with exactly one persisted batch replays identically.
#[test]
fn reset_single_batch() {
    let mut v: SwapVec<u64> = SwapVec::with_config(SwapVecConfig {
        compression: Some(Compression::Lz4),
        swap_after: 3,
        batch_size: 3,
    });
    for i in 0..4 {
        v.push(i).unwrap();
    }
    assert!(v.written_to_file());
    assert_eq!(v.batches_written(), 1);
    let mut it = v.into_iter();
    let mut first: Vec<u64> = Vec::new();
    while let Some(x) = it.next() {
        first.push(x.unwrap());
    }
    it.reset();
    let mut second: Vec<u64> = Vec::new();
    while let Some(x) = it.next() {
        second.push(x.unwrap());
    }
    assert_eq!(first, vec![0, 1, 2, 3]);
    assert_eq!(first, second);
}

// Order is preserved around every boundary: below, at, and above both
// thresholds.
#[test]
fn order_preserved_at_boundaries() {
    for count in [0usize, 1, 4, 5, 6, 15, 16, 17, 999] {
        let data: Vec<u64> = (0..count as u64).collect();
        let mut v: SwapVec<u64> = SwapVec::with_config(SwapVecConfig {
            compression: None,
            swap_after: 16,
            batch_size: 5,
        });
        v.consume(data.clone()).unwrap();
        let mut it = v.into_iter();
        let mut read_back: Vec<u64> = Vec::new();
        while let Some(x) = it.next() {
            read_back.push(x.unwrap());
        }
        assert_eq!(read_back, data);
    }
}

// The default configuration matches its documented values.
#[test]
fn default_config_values() {
    let config: SwapVecConfig = SwapVecConfig::default();
    assert_eq!(config.swap_after, 32 * 1024 * 1024);
    assert_eq!(config.batch_size, 32 * 1024);
    assert!(config.compression.is_none());
}
