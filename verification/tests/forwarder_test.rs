use instructions::chain::{build_chain, run_chain};
use instructions::forwarder::{Forwarder, ForwarderMutable, TestMessage};

#[test]
fn fresh_forwarder_accepts_a_restart_then_the_next_number() {
    let mut f = Forwarder::new(1);
    assert!(f.try_recv(TestMessage::TestData(0)).is_ok());
    assert!(f.try_recv(TestMessage::TestData(1)).is_ok());
}

#[test]
fn fresh_forwarder_refuses_a_jump_in_the_sequence() {
    let mut f = Forwarder::new(1);
    assert!(f.try_recv(TestMessage::TestData(0)).is_ok());
    assert!(!f.accepts_msg(&TestMessage::TestData(5)));
    let r = f.try_recv(TestMessage::TestData(5));
    assert!(r.is_err());
    assert_eq!(r.unwrap_err().message, "sequence error");
    assert_eq!(f.mutable.next_seq, 1);
}

#[test]
fn no_reset_happens_before_a_notify_target_is_installed() {
    let mut f = Forwarder::new(1);
    assert!(f.try_recv(TestMessage::Notify(9, 2)).is_ok());
    f.disconnected();
    assert_eq!(f.mutable.notify_sender, None);
    assert_eq!(f.mutable.notify_count, 2);
    let first = f.try_recv(TestMessage::TestData(0)).unwrap();
    assert_eq!(first, vec![]);
    let second = f.try_recv(TestMessage::TestData(1)).unwrap();
    assert_eq!(second, vec![]);
    assert_eq!(f.mutable.received_count, 2);
    assert_eq!(f.mutable.notify_count, 2);
}

#[test]
fn multiplier_repeats_each_destination_with_increasing_numbers() {
    let mut f = Forwarder::new(1);
    assert!(f.try_recv(TestMessage::AddSender(7)).is_ok());
    assert!(f.try_recv(TestMessage::AddSender(8)).is_ok());
    f.mutable.forwarding_multiplier = 3;
    let out = f.try_recv(TestMessage::TestData(0)).unwrap();
    assert_eq!(
        out,
        vec![
            (7, TestMessage::TestData(0)),
            (7, TestMessage::TestData(1)),
            (7, TestMessage::TestData(2)),
            (8, TestMessage::TestData(3)),
            (8, TestMessage::TestData(4)),
            (8, TestMessage::TestData(5)),
        ]
    );
    assert_eq!(f.mutable.send_count, 6);
    assert_eq!(f.mutable.received_count, 1);
}

#[test]
fn reaching_the_threshold_notifies_once_and_resets_both_counters() {
    let mut f = Forwarder::new(1);
    assert!(f.try_recv(TestMessage::Notify(9, 2)).is_ok());
    let first = f.try_recv(TestMessage::TestData(0)).unwrap();
    assert_eq!(first, vec![]);
    assert_eq!(f.mutable.received_count, 1);
    let second = f.try_recv(TestMessage::TestData(1)).unwrap();
    assert_eq!(second, vec![(9, TestMessage::TestData(2))]);
    assert_eq!(f.mutable.received_count, 0);
    assert_eq!(f.mutable.send_count, 0);
}

#[test]
fn disconnect_is_idempotent_even_on_an_empty_outbound_list() {
    let mut f = Forwarder::new(1);
    assert!(f.try_recv(TestMessage::AddSender(3)).is_ok());
    f.disconnected();
    assert_eq!(f.mutable.senders, vec![]);
    assert_eq!(f.mutable.notify_sender, None);
    f.disconnected();
    assert_eq!(f.mutable.senders, vec![]);
    assert_eq!(f.mutable.notify_sender, None);
}

#[test]
fn control_messages_are_consumed_and_never_forwarded() {
    let mut f = Forwarder::new(1);
    let out = f.try_recv(TestMessage::AddSender(2)).unwrap();
    assert_eq!(out, vec![]);
    assert_eq!(f.mutable.senders, vec![2]);
    assert_eq!(f.mutable.received_count, 0);
    let out = f.try_recv(TestMessage::Notify(5, 4)).unwrap();
    assert_eq!(out, vec![]);
    assert_eq!(f.mutable.notify_sender, Some(5));
    assert_eq!(f.mutable.notify_count, 4);
    assert_eq!(f.mutable.received_count, 0);
}

#[test]
fn a_chain_of_five_delivers_exactly_one_notification() {
    let (forwarders, notifications) = run_chain(5);
    assert_eq!(notifications, vec![TestMessage::TestData(1)]);
    assert_eq!(forwarders.len(), 5);
    for (i, f) in forwarders.iter().enumerate() {
        assert_eq!(f.id, i + 1);
        assert_eq!(f.mutable.next_seq, 1);
    }
    assert_eq!(forwarders[4].mutable.received_count, 0);
    for f in forwarders.iter().take(4) {
        assert_eq!(f.mutable.received_count, 1);
    }
}

#[test]
fn chains_of_any_length_notify_once() {
    for n in 1..=12 {
        let (forwarders, notifications) = run_chain(n);
        assert_eq!(notifications, vec![TestMessage::TestData(1)]);
        assert_eq!(forwarders.len(), n);
    }
}

#[test]
fn build_chain_wires_each_forwarder_to_its_successor() {
    let chain = build_chain(3);
    assert_eq!(chain[0].mutable.senders, vec![1]);
    assert_eq!(chain[1].mutable.senders, vec![2]);
    assert_eq!(chain[2].mutable.senders, vec![]);
    assert_eq!(chain[2].mutable.notify_sender, Some(3));
    assert_eq!(chain[2].mutable.notify_count, 1);
}

#[test]
fn a_default_state_block_starts_clean() {
    let m = ForwarderMutable::default();
    assert_eq!(m.received_count, 0);
    assert_eq!(m.send_count, 0);
    assert_eq!(m.notify_count, 0);
    assert_eq!(m.notify_sender, None);
    assert_eq!(m.forwarding_multiplier, 1);
    assert_eq!(m.next_seq, 0);
}
