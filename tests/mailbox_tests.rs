use actor_vm::mailbox::Mailbox;
use actor_vm::value::Value;

#[test]
fn take_on_empty_mailbox() {
    let mut m = Mailbox::new();
    assert!(m.take().is_none());
    assert_eq!(m.len(), 0);
}

#[test]
fn mailbox_is_fifo() {
    let mut m = Mailbox::new();
    // two posters, interleaved: a1 b1 a2 b2 a3
    for v in [1, 101, 2, 102, 3] {
        m.post(Value::Int(v));
    }
    assert_eq!(m.len(), 5);
    let mut got = Vec::new();
    while let Some(v) = m.take() {
        got.push(v);
    }
    assert_eq!(got.len(), 5);
    for (g, e) in got.iter().zip([1, 101, 2, 102, 3]) {
        assert!(*g == Value::Int(e));
    }
    assert!(m.take().is_none());
}

#[test]
fn duplicates_are_kept() {
    let mut m = Mailbox::new();
    m.post(Value::Int(7));
    m.post(Value::Int(7));
    assert!(m.take().unwrap() == Value::Int(7));
    assert!(m.take().unwrap() == Value::Int(7));
    assert!(m.take().is_none());
}
