use reserved_put::writer::{UninitWriter, WriterError};

#[test]
fn new_writer_is_empty() {
    let w = UninitWriter::new(5);
    assert_eq!(w.size(), 5);
    assert_eq!(w.written_len(), 0);
    assert_eq!(w.remaining(), 5);
    assert!(w.written().is_empty());
}

#[test]
fn write_copies_and_reports_whole_chunk() {
    let mut w = UninitWriter::new(6);
    assert_eq!(w.write(&[1, 2, 3]), Ok(3));
    assert_eq!(w.write(&[4, 5]), Ok(2));
    assert_eq!(w.written(), &[1, 2, 3, 4, 5]);
    assert_eq!(w.remaining(), 1);
    assert_eq!(w.write(&[6]), Ok(1));
    assert_eq!(w.remaining(), 0);
    assert_eq!(w.into_written(), vec![1, 2, 3, 4, 5, 6]);
}

#[test]
fn overflowing_chunk_is_rejected_whole() {
    let mut w = UninitWriter::new(4);
    assert_eq!(w.write_all(&[9, 8, 7]), Ok(()));
    assert_eq!(w.write_all(&[1, 2]), Err(WriterError::WriteZero));
    assert_eq!(w.written(), &[9, 8, 7]);
    assert_eq!(w.write(&[1, 2]), Err(WriterError::WriteZero));
    assert_eq!(w.written(), &[9, 8, 7]);
    assert_eq!(w.write_all(&[6]), Ok(()));
    assert_eq!(w.written(), &[9, 8, 7, 6]);
}

#[test]
fn chunk_sequence_longer_than_region_fails_and_keeps_prefix() {
    let chunks: Vec<Vec<u8>> = vec![vec![1, 2], vec![3, 4], vec![5, 6]];
    let mut w = UninitWriter::new(5);
    let mut failed = false;
    for chunk in &chunks {
        if w.write_all(chunk).is_err() {
            failed = true;
            break;
        }
    }
    assert!(failed);
    assert_eq!(w.written(), &[1, 2, 3, 4]);
}

#[test]
fn empty_chunk_on_full_region_is_accepted() {
    let mut w = UninitWriter::new(0);
    assert_eq!(w.write(&[]), Ok(0));
    assert_eq!(w.write(&[0]), Err(WriterError::WriteZero));
    assert!(w.written().is_empty());
}

#[test]
fn flush_changes_nothing() {
    let mut w = UninitWriter::new(3);
    w.write_all(&[7]).unwrap();
    assert_eq!(w.flush(), Ok(()));
    assert_eq!(w.written(), &[7]);
}

#[test]
fn fill_zeroes_fills_the_rest() {
    let mut w = UninitWriter::new(5);
    w.write_all(&[3, 4]).unwrap();
    w.fill_zeroes();
    assert_eq!(w.written(), &[3, 4, 0, 0, 0]);
    assert_eq!(w.remaining(), 0);
    assert_eq!(w.write(&[1]), Err(WriterError::WriteZero));
}

#[test]
fn assume_written_commits_exactly_the_declared_prefix() {
    let mut w = UninitWriter::new(8);
    w.write_all(&[10, 11, 12, 13, 14]).unwrap();
    let value = w.assume_written(3);
    assert_eq!(value, vec![10, 11, 12]);
}

#[test]
fn assume_written_of_everything() {
    let mut w = UninitWriter::new(2);
    w.write_all(&[1, 2]).unwrap();
    assert_eq!(w.assume_written(2), vec![1, 2]);
}
