use swapvec::{BatchReader, BatchWriter};

#[test]
fn read_write_checked_io() {
    let mut batch_writer = BatchWriter::new();
    batch_writer
        .write_batch(&[1, 2, 3])
        .expect("Could not write to IO buffer");
    batch_writer
        .write_batch(&[44, 55])
        .expect("Could not write to IO buffer");

    let mut reader: BatchReader = batch_writer
        .into_reader()
        .expect("Could not flush into IO buffer");
    assert_eq!(
        reader
            .read_batch()
            .expect("Could not read batch")
            .expect("Batch was unexpectedly empty"),
        &[1, 2, 3]
    );
    reader.reset().expect("Could not reset");
    assert_eq!(
        reader
            .read_batch()
            .expect("Could not read batch")
            .expect("Batch was unexpectedly empty"),
        &[1, 2, 3]
    );
    assert_eq!(
        reader
            .read_batch()
            .expect("Could not read batch")
            .expect("Batch was unexpectedly empty"),
        &[44, 55]
    );
}
