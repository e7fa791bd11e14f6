use handrolled::channels::channel;
use handrolled::channels::delivered;
use handrolled::channels::Inner;
use handrolled::channels::Polled;

#[test]
fn lib_it_works() {
    let (mut tx, mut rx) = channel();
    tx.send(42);
    assert_eq!(rx.recv(), Some(42));
}

#[test]
fn closed() {
    // Indicate to the receiver that the channel is closed
    let (tx, mut rx) = channel::<()>();
    drop(tx);
    assert_eq!(rx.recv(), None);
}

#[test]
fn closed_rx() {
    // Design decision
    let (mut tx, rx) = channel();
    drop(rx);
    tx.send(42);
}

#[test]
fn items_arrive_in_the_order_sent() {
    let (mut tx, mut rx) = channel();
    tx.send("a");
    tx.send("b");
    tx.send("c");
    assert_eq!(rx.recv(), Some("a"));
    assert_eq!(rx.recv(), Some("b"));
    assert_eq!(rx.recv(), Some("c"));
}

#[test]
fn pending_items_outlive_the_senders() {
    let (mut tx, mut rx) = channel();
    tx.send(1);
    tx.send(2);
    drop(tx);
    assert_eq!(rx.recv(), Some(1));
    assert_eq!(rx.recv(), Some(2));
    assert_eq!(rx.recv(), None);
    assert_eq!(rx.recv(), None);
}

#[test]
fn a_clone_keeps_the_channel_open() {
    let (tx, mut rx) = channel();
    let mut tx2 = tx.clone();
    drop(tx);
    tx2.send(7);
    assert_eq!(rx.recv(), Some(7));
    tx2.send(8);
    assert_eq!(rx.recv(), Some(8));
    drop(tx2);
    assert_eq!(rx.recv(), None);
}

#[test]
fn closed_only_after_every_clone_is_gone() {
    let (tx, mut rx) = channel::<u8>();
    let a = tx.clone();
    let b = a.clone();
    drop(a);
    drop(tx);
    let mut b = b;
    b.send(3);
    drop(b);
    assert_eq!(rx.recv(), Some(3));
    assert_eq!(rx.recv(), None);
}

fn item<T>(p: Polled<T>) -> Option<T> {
    match p {
        Polled::Item(t) => Some(t),
        _ => None,
    }
}

#[test]
fn state_starts_with_one_sender_and_nothing_pending() {
    let mut s = Inner::<u32>::new();
    assert_eq!(s.senders(), 1);
    assert_eq!(s.pending(), 0);
    assert!(matches!(s.poll(), Polled::Wait));
}

#[test]
fn state_polls_from_the_front() {
    let mut s = Inner::new();
    s.push(10);
    s.push(20);
    s.push(30);
    assert_eq!(s.pending(), 3);
    assert_eq!(item(s.poll()), Some(10));
    assert_eq!(item(s.poll()), Some(20));
    assert_eq!(s.pending(), 1);
    assert_eq!(item(s.poll()), Some(30));
    assert!(matches!(s.poll(), Polled::Wait));
    assert_eq!(s.senders(), 1);
}

#[test]
fn state_counts_senders() {
    let mut s = Inner::<u8>::new();
    s.attach();
    s.attach();
    assert_eq!(s.senders(), 3);
    assert!(!s.detach());
    assert!(!s.detach());
    assert!(matches!(s.poll(), Polled::Wait));
    assert!(s.detach());
    assert_eq!(s.senders(), 0);
    assert!(matches!(s.poll(), Polled::Closed));
    // a count of zero stays at zero
    assert!(s.detach());
    assert_eq!(s.senders(), 0);
}

#[test]
fn state_closes_only_when_drained() {
    let mut s = Inner::new();
    s.push('x');
    assert!(s.detach());
    assert_eq!(item(s.poll()), Some('x'));
    assert!(matches!(s.poll(), Polled::Closed));
    assert!(matches!(s.poll(), Polled::Closed));
}

#[test]
fn poll_into_tells_when_to_wait() {
    let mut s = Inner::new();
    let mut out = Polled::Closed;
    assert!(s.poll_into(&mut out));
    assert!(matches!(out, Polled::Wait));
    s.push(5);
    assert!(!s.poll_into(&mut out));
    assert!(matches!(out, Polled::Item(5)));
    s.detach();
    assert!(!s.poll_into(&mut out));
    assert!(matches!(out, Polled::Closed));
}

#[test]
fn delivered_maps_what_was_found() {
    assert_eq!(delivered(Polled::Item(9)), Some(9));
    assert_eq!(delivered(Polled::<u8>::Closed), None);
}
