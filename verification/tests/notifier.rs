use jormungandr::header::HeaderId;
use jormungandr::notifier::registry::{
    MAX_CONNECTIONS_DEFAULT, MAX_CONNECTIONS_ERROR_CLOSE_CODE, MAX_CONNECTIONS_ERROR_REASON,
};
use jormungandr::notifier::{Admission, Broadcast, Message, Notifier};

fn header(n: u8) -> HeaderId {
    HeaderId::from_bytes([n; 32])
}

/// Runs a pass: a send succeeds unless the subscriber is listed as failing,
/// and what arrives is put into the subscriber's inbox.
fn run_pass(hub: &mut Notifier<Vec<String>>, pass: &mut Broadcast, failing: &[usize]) {
    while let Some(id) = pass.next_target() {
        let delivered = !failing.contains(&id);
        if delivered {
            let text = pass.text().clone();
            hub.connection_mut(id).unwrap().push(text);
        }
        pass.record(delivered);
    }
}

fn connect(hub: &mut Notifier<Vec<String>>) -> usize {
    match hub.new_connection(Vec::new()) {
        Admission::Admitted { id } => id,
        Admission::Rejected { .. } => panic!("the hub is full"),
    }
}

#[test]
fn header_id_in_base_16() {
    let mut bytes = [0u8; 32];
    bytes[0] = 0x01;
    bytes[1] = 0xab;
    bytes[31] = 0xf0;
    let text = HeaderId::from_bytes(bytes).to_hex();
    assert_eq!(text.len(), 64);
    assert_eq!(&text[..4], "01ab");
    assert_eq!(&text[62..], "f0");
    assert_eq!(&text[4..62], "0".repeat(58));
}

#[test]
fn message_text_on_the_wire() {
    let id = header(0x5c);
    assert_eq!(Message::NewBlock(id).text(), format!("new block: {}", "5c".repeat(32)));
    assert_eq!(Message::NewTip(id).text(), format!("new tip: {}", "5c".repeat(32)));
}

#[test]
fn close_code_and_reason_of_rejection() {
    assert_eq!(MAX_CONNECTIONS_ERROR_CLOSE_CODE, 4000);
    assert_eq!(MAX_CONNECTIONS_ERROR_REASON, "MAX CONNECTIONS reached");
    assert_eq!(MAX_CONNECTIONS_DEFAULT, 255);
}

#[test]
fn default_limit_is_255() {
    let mut hub: Notifier<u8> = Notifier::new(None);
    for n in 0..255usize {
        assert_eq!(hub.new_connection(0), Admission::Admitted { id: n + 1 });
    }
    assert_eq!(hub.connections(), 255);
    assert!(matches!(hub.new_connection(0), Admission::Rejected { .. }));
    assert_eq!(hub.connections(), 255);
}

#[test]
fn second_connection_is_rejected_when_limit_is_one() {
    let mut hub: Notifier<&str> = Notifier::new(Some(1));
    assert_eq!(hub.connections(), 0);
    assert_eq!(hub.new_connection("first"), Admission::Admitted { id: 1 });
    assert_eq!(hub.connections(), 1);
    assert_eq!(
        hub.new_connection("second"),
        Admission::Rejected {
            connection: "second",
            close_code: 4000,
            reason: "MAX CONNECTIONS reached",
        }
    );
    assert_eq!(hub.connections(), 1);
    assert!(hub.is_connected(1));
    assert!(!hub.is_connected(2));
    assert_eq!(hub.subscribers(), vec![1]);
}

#[test]
fn rejected_connection_uses_up_its_id() {
    let mut hub: Notifier<u8> = Notifier::new(Some(1));
    assert_eq!(hub.new_connection(1), Admission::Admitted { id: 1 });
    assert!(matches!(hub.new_connection(2), Admission::Rejected { .. }));
    assert_eq!(hub.handle_disconnected(1), Some(1));
    assert_eq!(hub.new_connection(3), Admission::Admitted { id: 3 });
}

#[test]
fn hub_without_room_rejects_everyone() {
    let mut hub: Notifier<u8> = Notifier::new(Some(0));
    assert!(matches!(hub.new_connection(1), Admission::Rejected { .. }));
    assert_eq!(hub.connections(), 0);
}

#[test]
fn failed_send_is_reported_and_cleaned_up() {
    let mut hub: Notifier<Vec<String>> = Notifier::new(None);
    let s1 = connect(&mut hub);
    let s2 = connect(&mut hub);
    let event = Message::NewBlock(header(0xaa));
    let expected = format!("new block: {}", "aa".repeat(32));

    let mut pass = hub.process_message(&event);
    assert_eq!(*pass.text(), expected);
    run_pass(&mut hub, &mut pass, &[s2]);
    assert_eq!(pass.next_target(), None);
    assert_eq!(pass.disconnected(), vec![s2]);
    assert_eq!(*hub.connection_mut(s1).unwrap(), vec![expected.clone()]);
    // the pass itself strikes nobody off
    assert_eq!(hub.connections(), 2);

    for id in pass.disconnected() {
        assert!(hub.handle_disconnected(id).is_some());
    }
    assert_eq!(hub.connections(), 1);
    assert!(hub.is_connected(s1));
    assert!(!hub.is_connected(s2));

    let mut next = hub.process_message(&Message::NewTip(header(0xaa)));
    assert_eq!(next.next_target(), Some(s1));
    run_pass(&mut hub, &mut next, &[]);
    assert!(next.disconnected().is_empty());
    assert_eq!(
        *hub.connection_mut(s1).unwrap(),
        vec![expected, format!("new tip: {}", "aa".repeat(32))]
    );
}

#[test]
fn removing_twice_is_removing_once() {
    let mut hub: Notifier<u8> = Notifier::new(Some(4));
    assert_eq!(hub.new_connection(10), Admission::Admitted { id: 1 });
    assert_eq!(hub.new_connection(20), Admission::Admitted { id: 2 });
    assert_eq!(hub.handle_disconnected(1), Some(10));
    assert_eq!(hub.connections(), 1);
    assert_eq!(hub.handle_disconnected(1), None);
    assert_eq!(hub.connections(), 1);
    assert!(hub.is_connected(2));
    assert_eq!(hub.handle_disconnected(77), None);
    assert_eq!(hub.connections(), 1);
}

#[test]
fn events_arrive_in_the_order_of_the_passes() {
    let mut hub: Notifier<Vec<String>> = Notifier::new(Some(8));
    let ids: Vec<usize> = (0..3).map(|_| connect(&mut hub)).collect();
    let first = Message::NewBlock(header(1));
    let second = Message::NewTip(header(2));
    let mut pass = hub.process_message(&first);
    run_pass(&mut hub, &mut pass, &[ids[1]]);
    let mut pass = hub.process_message(&second);
    run_pass(&mut hub, &mut pass, &[]);
    assert_eq!(*hub.connection_mut(ids[0]).unwrap(), vec![first.text(), second.text()]);
    assert_eq!(*hub.connection_mut(ids[1]).unwrap(), vec![second.text()]);
    assert_eq!(*hub.connection_mut(ids[2]).unwrap(), vec![first.text(), second.text()]);
}

#[test]
fn pass_visits_each_subscriber_once() {
    let mut hub: Notifier<Vec<String>> = Notifier::new(Some(8));
    let mut ids: Vec<usize> = (0..5).map(|_| connect(&mut hub)).collect();
    let mut pass = hub.process_message(&Message::NewBlock(header(3)));
    let mut visited = Vec::new();
    while let Some(id) = pass.next_target() {
        visited.push(id);
        pass.record(id % 2 == 0);
    }
    let mut failed = pass.disconnected();
    visited.sort();
    ids.sort();
    assert_eq!(visited, ids);
    failed.sort();
    assert_eq!(failed, vec![1, 3, 5]);
    // a complete pass takes no further outcome
    pass.record(false);
    assert_eq!(pass.next_target(), None);
    assert_eq!(pass.disconnected().len(), 3);
}

#[test]
fn pass_over_empty_hub_is_complete() {
    let hub: Notifier<u8> = Notifier::new(None);
    let mut pass = hub.process_message(&Message::NewTip(header(0)));
    assert_eq!(pass.next_target(), None);
    pass.record(false);
    assert!(pass.disconnected().is_empty());
}

#[test]
fn subscriber_admitted_after_a_pass_began_is_not_in_it() {
    let mut hub: Notifier<Vec<String>> = Notifier::new(None);
    let s1 = connect(&mut hub);
    let mut pass = hub.process_message(&Message::NewBlock(header(9)));
    let s2 = connect(&mut hub);
    run_pass(&mut hub, &mut pass, &[]);
    assert_eq!(hub.connection_mut(s1).unwrap().len(), 1);
    assert!(hub.connection_mut(s2).unwrap().is_empty());
}

#[test]
fn connection_mut_of_unknown_id_is_none() {
    let mut hub: Notifier<u8> = Notifier::new(None);
    assert!(hub.connection_mut(1).is_none());
    assert_eq!(hub.new_connection(5), Admission::Admitted { id: 1 });
    *hub.connection_mut(1).unwrap() = 6;
    assert_eq!(hub.handle_disconnected(1), Some(6));
}
