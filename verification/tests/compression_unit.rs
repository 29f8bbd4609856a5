use swapvec::{Compress, Compression, NoopCompression};

#[test]
fn test_lz4() {
    let compression: Option<Compression<NoopCompression>> = Some(Compression::Lz4);
    let data: Vec<u8> = (0..u8::MAX).collect();
    let compressed = compression.compress(data.clone());
    let decompressed = compression.decompress(compressed).unwrap();
    assert_eq!(decompressed, data);
}
