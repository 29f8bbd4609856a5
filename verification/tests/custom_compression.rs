use swapvec::{Compression, NoopCompression, SwapVec, SwapVecConfig};

// A caller-supplied compression algorithm is a value implementing the
// library's `Compress` trait, with its two spec functions and the proof
// obligations they carry; `NoopCompression` is the crate's pass-through
// implementation of that trait and stands in for one here.
#[test]
fn custom_compression() {
    let config = SwapVecConfig {
        compression: Some(Compression::Custom(NoopCompression)),
        swap_after: 16,
        batch_size: 5,
    };

    let vector: Vec<u64> = (0..999).collect();
    let mut v = SwapVec::with_config(config);
    v.consume(vector.clone()).unwrap();
    assert!(v.written_to_file());
    let mut iterator = v.into_iter();
    let mut vector_read_back: Vec<u64> = Vec::new();
    while let Some(x) = iterator.next() {
        vector_read_back.push(x.unwrap());
    }
    assert_eq!(vector, vector_read_back);
}
