use kerla::epoll::{
    EPollData, EPollEvent, EPollInstance, PollStatus, POLLERR, POLLIN, POLLOUT, POLL_ALL,
};
use kerla::opened_file::Fd;

fn st(bits: i16) -> PollStatus {
    PollStatus::from_bits_truncate(bits)
}

#[test]
fn poll_status_flags() {
    assert_eq!(st(0x7fff).bits(), POLL_ALL);
    assert!(PollStatus::empty().is_empty());
    assert!(st(POLLIN | POLLOUT).contains(st(POLLIN)));
    assert!(!st(POLLIN).contains(st(POLLIN | POLLOUT)));
    assert_eq!(st(POLLIN | POLLOUT).bitand(st(POLLOUT | POLLERR)).bits(), POLLOUT);
}

#[test]
fn level_and_edge_triggered_events() {
    let mut ep = EPollInstance::new();
    ep.add(1, Fd::new(3), st(POLLIN), false).unwrap();
    ep.add(2, Fd::new(4), st(POLLOUT), true).unwrap();
    assert_eq!(ep.items().len(), 2);

    // Item 0 listens to POLLIN only.
    assert!(!ep.notify_if_satisfied(0, st(POLLOUT)));
    assert!(ep.notify_if_satisfied(0, st(POLLIN | POLLOUT)));
    assert!(ep.notify_if_satisfied(1, st(POLLOUT)));
    assert_eq!(ep.pending_events().len(), 2);

    let ready = ep.take_ready_events(&[st(POLLIN | POLLOUT), st(POLLOUT)]);
    assert_eq!(ready.len(), 2);
    assert_eq!(ready[0].0, Fd::new(3));
    assert_eq!(ready[0].1.bits(), POLLIN);
    assert_eq!(ready[1].0, Fd::new(4));
    assert_eq!(ready[1].1.bits(), POLLOUT);
    // The level-triggered event stays pending, the edge-triggered one goes.
    assert_eq!(ep.pending_events().len(), 1);
    assert_eq!(ep.pending_events()[0].fd, Fd::new(3));

    // Once the file is no longer readable, nothing is delivered and the
    // event goes away.
    let ready = ep.take_ready_events(&[st(POLLOUT)]);
    assert!(ready.is_empty());
    assert!(ep.pending_events().is_empty());
}

#[test]
fn delete_items_by_key() {
    let mut ep = EPollInstance::new();
    ep.add(1, Fd::new(3), st(POLLIN), false).unwrap();
    ep.add(2, Fd::new(3), st(POLLIN), false).unwrap();
    ep.add(1, Fd::new(3), st(POLLOUT), false).unwrap();
    ep.del(1, Fd::new(3)).unwrap();
    assert_eq!(ep.items().len(), 1);
    assert_eq!(ep.items()[0].key.file, 2);
    ep.del(9, Fd::new(9)).unwrap();
    assert_eq!(ep.items().len(), 1);
}

#[test]
fn epoll_event_data() {
    let ev = EPollEvent { events: 1, data: EPollData { u64: 0xffff_ffff_0000_0005 } };
    assert_eq!(ev.data.fd(), 5);
    assert_eq!(ev.data.as_u32(), 5);
    assert_eq!(EPollData { u64: 0xffff_ffff }.fd(), -1);
}
