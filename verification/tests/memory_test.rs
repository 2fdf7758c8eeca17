use cycle_orc::memory::{DataStream, MemoryRouter, StreamTable, STREAM_BUFFER_CAPACITY};
use std::sync::Arc;

#[test]
fn test_data_stream_creation_and_update() {
    let stream = DataStream::new("test_stream".to_string());
    assert_eq!(stream.name, "test_stream");
    assert_eq!(stream.last_updated.load(std::sync::atomic::Ordering::Relaxed), 0);

    {
        let mut guard = stream.data.write().unwrap();
        guard.extend_from_slice(b"hello world");
    }

    let guard = stream.data.read().unwrap();
    assert_eq!(guard.as_slice(), b"hello world");
}

#[test]
fn test_memory_router_get_or_create() {
    let router = MemoryRouter::new();

    // Non-existent stream should return None from get_stream
    assert!(router.get_stream("stream_a").is_none());

    // Creating stream
    let s1 = router.get_or_create_stream("stream_a");
    assert_eq!(s1.name, "stream_a");

    // Existing stream should return the same Arc instance
    let s2 = router.get_stream("stream_a");
    assert!(s2.is_some());
    assert!(Arc::ptr_eq(&s1, &s2.unwrap()));
}

#[test]
fn new_stream_buffer_starts_empty_with_reserved_capacity() {
    let stream = DataStream::new("reserved".to_string());
    let guard = stream.data.read().unwrap();
    assert!(guard.is_empty());
    assert!(guard.capacity() >= STREAM_BUFFER_CAPACITY);
}

#[test]
fn get_or_create_twice_returns_the_same_stream() {
    let router = MemoryRouter::new();
    let a = router.get_or_create_stream("stream_b");
    {
        let mut guard = a.data.write().unwrap();
        guard.extend_from_slice(b"payload");
    }
    let b = router.get_or_create_stream("stream_b");
    assert!(Arc::ptr_eq(&a, &b));
    assert_eq!(b.data.read().unwrap().as_slice(), b"payload");
    assert!(router.get_stream("stream_c").is_none());
}

#[test]
fn stream_table_files_streams_by_name() {
    let mut table = StreamTable::new();
    assert!(table.get("x").is_none());
    let x = table.get_or_create("x");
    assert_eq!(x.name, "x");
    let again = table.get("x").unwrap();
    assert!(Arc::ptr_eq(&x, &again));
    let y = table.get_or_create("y");
    assert_eq!(y.name, "y");
    assert!(!Arc::ptr_eq(&x, &y));
    let x2 = table.get_or_create("x");
    assert!(Arc::ptr_eq(&x, &x2));
}
