use umthombo::Backlog;

#[test]
fn backlog_store_and_take() {
    let mut b = Backlog::new();
    assert!(!b.has_backlog());
    b.store(Some(4u8));
    assert!(b.has_backlog());
    assert_eq!(b.take_backlog(), 4);
    assert!(!b.has_backlog());
}

#[test]
fn backlog_try_take() {
    let mut b: Backlog<u8> = Backlog::new();
    assert_eq!(b.try_take_backlog(), None);
    b.store(Some(1));
    assert_eq!(b.try_take_backlog(), Some(1));
    assert_eq!(b.try_take_backlog(), None);
    b.store(Some(2));
    b.store(None);
    assert!(!b.has_backlog());
}
