use swapvec::{Compression, CompressionLevel, NoopCompression, SwapVec, SwapVecConfig};

#[test]
fn write_and_read_back_with_compression() {
    let data: Vec<i32> = (0..999).collect();

    let compression_configs: Vec<Option<Compression<NoopCompression>>> = vec![
        None,
        Some(Compression::Lz4),
        Some(Compression::Deflate(CompressionLevel::Fast)),
        Some(Compression::Deflate(CompressionLevel::Default)),
        Some(Compression::Deflate(CompressionLevel::Slow)),
    ];

    for compression in compression_configs {
        let compression_shown = format!("{:?}", compression);
        let config = SwapVecConfig {
            compression,
            swap_after: 16,
            batch_size: 8,
        };
        let mut v = SwapVec::with_config(config);
        v.consume(data.clone()).unwrap();
        let mut iterator = v.into_iter();
        let mut read_back: Vec<i32> = Vec::new();
        while let Some(x) = iterator.next() {
            read_back.push(x.unwrap_or_else(|e| {
                panic!("Failed for compression {:?} {:?}", compression_shown, e)
            }));
        }
        assert_eq!(read_back, data,);
    }
}
