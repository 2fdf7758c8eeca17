use cycle_orc::queue::LockFreeBuffer;

#[test]
fn buffer_is_first_in_first_out() {
    let b = LockFreeBuffer::new(2);
    assert!(b.is_empty());
    assert_eq!(b.push(vec![1]), Ok(()));
    assert_eq!(b.push(vec![2]), Ok(()));
    assert_eq!(b.push(vec![3]), Err(vec![3]));
    assert_eq!(b.queue.capacity(), 2);
    assert_eq!(b.pop(), Some(vec![1]));
    assert_eq!(b.pop(), Some(vec![2]));
    assert_eq!(b.pop(), None);
    assert!(b.is_empty());
}

#[test]
fn clones_share_the_queue() {
    let a = LockFreeBuffer::new(4);
    let b = a.clone();
    a.push(b"x".to_vec()).unwrap();
    assert!(!b.is_empty());
    assert_eq!(b.pop(), Some(b"x".to_vec()));
}
