use db_loader::{FillBuffer, LoadError, Loader, ReadPolicy};

fn load(policy: ReadPolicy, size: u64, reads: &[&[u8]]) -> (Result<Vec<u8>, LoadError>, usize) {
    let mut loader = Loader::new(policy, size).unwrap();
    let mut calls: usize = 0;
    while let Some(max) = loader.next_read() {
        let chunk = reads[calls];
        assert!(chunk.len() <= max);
        loader.on_read(chunk);
        calls += 1;
    }
    (loader.finish(), calls)
}

#[test]
fn full_single_read_returns_content() {
    let content: Vec<u8> = (0u8..=255).collect();
    let (out, calls) = load(ReadPolicy::ReadOnce, 256, &[&content]);
    assert_eq!(calls, 1);
    assert_eq!(out, Ok(content));
}

#[test]
fn full_read_under_read_exact_returns_content() {
    let content = b"SQLite format 3\0".to_vec();
    let (out, calls) = load(ReadPolicy::ReadExact, 16, &[&content]);
    assert_eq!(calls, 1);
    assert_eq!(out, Ok(content));
}

#[test]
fn empty_file_gives_empty_buffer() {
    let (out, calls) = load(ReadPolicy::ReadOnce, 0, &[&[]]);
    assert_eq!(calls, 1);
    assert_eq!(out, Ok(Vec::new()));
}

#[test]
fn empty_file_under_read_exact() {
    let (out, calls) = load(ReadPolicy::ReadExact, 0, &[&[]]);
    assert_eq!(calls, 1);
    assert_eq!(out, Ok(Vec::new()));
}

#[test]
fn short_read_leaves_zero_tail() {
    let (out, calls) = load(ReadPolicy::ReadOnce, 6, &[&[7, 8, 9]]);
    assert_eq!(calls, 1);
    assert_eq!(out, Ok(vec![7, 8, 9, 0, 0, 0]));
}

#[test]
fn read_once_issues_no_second_read() {
    let mut loader = Loader::new(ReadPolicy::ReadOnce, 4).unwrap();
    assert_eq!(loader.next_read(), Some(4));
    loader.on_read(&[1]);
    assert_eq!(loader.next_read(), None);
    assert_eq!(loader.finish(), Ok(vec![1, 0, 0, 0]));
}

#[test]
fn read_exact_keeps_reading_until_full() {
    let (out, calls) = load(ReadPolicy::ReadExact, 5, &[&[1, 2], &[3], &[4, 5]]);
    assert_eq!(calls, 3);
    assert_eq!(out, Ok(vec![1, 2, 3, 4, 5]));
}

#[test]
fn read_exact_asks_for_the_rest() {
    let mut loader = Loader::new(ReadPolicy::ReadExact, 5).unwrap();
    assert_eq!(loader.next_read(), Some(5));
    loader.on_read(&[1, 2]);
    assert_eq!(loader.next_read(), Some(3));
}

#[test]
fn read_exact_fails_when_reads_end_short() {
    let (out, calls) = load(ReadPolicy::ReadExact, 5, &[&[1, 2], &[]]);
    assert_eq!(calls, 2);
    assert_eq!(out, Err(LoadError::ShortRead { expected: 5, got: 2 }));
}

#[test]
fn fill_buffer_places_chunks_in_order() {
    let mut buf = FillBuffer::new(6);
    assert_eq!(buf.len(), 6);
    assert_eq!(buf.remaining(), 6);
    buf.accept(&[1, 2]);
    buf.accept(&[3]);
    assert_eq!(buf.filled(), 3);
    assert_eq!(buf.remaining(), 3);
    assert_eq!(buf.into_bytes(), vec![1, 2, 3, 0, 0, 0]);
}

#[test]
fn new_loader_accepts_ordinary_sizes() {
    assert!(Loader::new(ReadPolicy::ReadOnce, 1 << 20).is_ok());
}
