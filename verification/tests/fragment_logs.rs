use jormungandr::fragment::{FragmentId, FragmentLog, FragmentOrigin, FragmentStatus, Logs};
use jormungandr::header::HeaderId;

fn id(n: u8) -> FragmentId {
    let mut bytes = [0u8; 32];
    bytes[0] = n;
    bytes[31] = 0xff;
    FragmentId::from_bytes(bytes)
}

fn submitted(n: u8) -> FragmentLog {
    FragmentLog::new(id(n), FragmentOrigin::Rest)
}

fn in_block(n: u8) -> FragmentStatus {
    FragmentStatus::InABlock { block: HeaderId::from_bytes([n; 32]) }
}

fn rejected(reason: &str) -> FragmentStatus {
    FragmentStatus::Rejected { reason: String::from(reason) }
}

fn ids_of(logs: &Logs) -> Vec<FragmentId> {
    logs.logs().iter().map(|log| *log.fragment_id()).collect()
}

#[test]
fn new_log_is_pending() {
    let log = FragmentLog::new(id(9), FragmentOrigin::Rest);
    assert_eq!(*log.fragment_id(), id(9));
    assert_eq!(*log.received_from(), FragmentOrigin::Rest);
    assert_eq!(*log.status(), FragmentStatus::Pending);
}

#[test]
fn log_modify_overwrites_status_only() {
    let mut log = FragmentLog::new(id(9), FragmentOrigin::Rest);
    log.modify(rejected("no funds"));
    assert_eq!(*log.fragment_id(), id(9));
    assert_eq!(*log.received_from(), FragmentOrigin::Rest);
    assert_eq!(*log.status(), rejected("no funds"));
    log.modify(in_block(4));
    assert_eq!(*log.status(), in_block(4));
}

#[test]
fn fragment_ids_compare_by_bytes() {
    let mut other = [0u8; 32];
    other[0] = 1;
    other[31] = 0xff;
    assert_eq!(id(1), FragmentId::from_bytes(other));
    assert_ne!(id(1), id(2));
    other[17] = 1;
    assert_ne!(id(1), FragmentId::from_bytes(other));
    assert!(id(1) < id(2));
    assert_eq!(id(3).as_bytes()[0], 3);
}

#[test]
fn new_store_is_empty() {
    let mut logs = Logs::new(3);
    assert!(logs.logs().is_empty());
    assert!(!logs.exist(id(1)));
    assert!(logs.logs_by_ids(vec![id(1), id(2)]).is_empty());
}

#[test]
fn inserts_within_capacity_all_stay() {
    let mut logs = Logs::new(4);
    for n in 1..=4 {
        assert!(logs.insert(submitted(n)));
    }
    let mut held = ids_of(&logs);
    held.sort();
    assert_eq!(held, vec![id(1), id(2), id(3), id(4)]);
    for n in 1..=4 {
        assert!(logs.exist(id(n)));
    }
    assert_eq!(logs.logs().len(), 4);
}

#[test]
fn overflow_evicts_the_oldest_untouched() {
    let mut logs = Logs::new(3);
    for n in 1..=5 {
        assert!(logs.insert(submitted(n)));
    }
    assert_eq!(logs.exist_all(vec![id(1)]), vec![false]);
    assert_eq!(ids_of(&logs), vec![id(5), id(4), id(3)]);
    assert_eq!(
        logs.exist_all(vec![id(1), id(2), id(3), id(4), id(5)]),
        vec![false, false, true, true, true]
    );
}

#[test]
fn third_insert_evicts_least_recently_used() {
    let (a, b, c) = (id(1), id(2), id(3));
    let mut logs = Logs::new(2);
    assert!(logs.insert(FragmentLog::new(a, FragmentOrigin::Rest)));
    assert!(logs.insert(FragmentLog::new(b, FragmentOrigin::Rest)));
    assert!(logs.insert(FragmentLog::new(c, FragmentOrigin::Rest)));
    assert!(!logs.exist(a));
    assert!(logs.exist(b));
    assert!(logs.exist(c));
    assert_eq!(logs.logs().len(), 2);
}

#[test]
fn exist_counts_as_a_use() {
    let mut logs = Logs::new(2);
    assert!(logs.insert(submitted(1)));
    assert!(logs.insert(submitted(2)));
    assert!(logs.exist(id(1)));
    assert_eq!(ids_of(&logs), vec![id(1), id(2)]);
    assert!(logs.insert(submitted(3)));
    assert!(logs.exist(id(1)));
    assert!(!logs.exist(id(2)));
    assert!(logs.exist(id(3)));
}

#[test]
fn exist_of_unknown_fragment_changes_nothing() {
    let mut logs = Logs::new(2);
    assert!(logs.insert(submitted(1)));
    assert!(logs.insert(submitted(2)));
    assert!(!logs.exist(id(7)));
    assert_eq!(ids_of(&logs), vec![id(2), id(1)]);
}

#[test]
fn exist_all_keeps_order_and_repeats() {
    let mut logs = Logs::new(3);
    assert!(logs.insert(submitted(1)));
    assert!(logs.insert(submitted(2)));
    assert_eq!(
        logs.exist_all(vec![id(2), id(9), id(1), id(2), id(9)]),
        vec![true, false, true, true, false]
    );
    assert_eq!(ids_of(&logs), vec![id(2), id(1)]);
    assert_eq!(logs.exist_all(vec![]), Vec::<bool>::new());
}

#[test]
fn insert_of_known_fragment_is_refused() {
    let mut logs = Logs::new(2);
    assert!(logs.insert(submitted(1)));
    logs.modify(id(1), rejected("double spend"));
    assert!(logs.insert(submitted(2)));
    assert!(!logs.insert(FragmentLog::new(id(1), FragmentOrigin::Network)));
    let all = logs.logs();
    assert_eq!(all.len(), 2);
    assert_eq!(*all[1].fragment_id(), id(1));
    assert_eq!(*all[1].received_from(), FragmentOrigin::Rest);
    assert_eq!(*all[1].status(), rejected("double spend"));
}

#[test]
fn insert_again_does_not_count_as_a_use() {
    let mut logs = Logs::new(2);
    assert!(logs.insert(submitted(1)));
    assert!(logs.insert(submitted(2)));
    assert!(!logs.insert(submitted(1)));
    assert_eq!(ids_of(&logs), vec![id(2), id(1)]);
    assert!(logs.insert(submitted(3)));
    assert!(!logs.exist(id(1)));
}

#[test]
fn insert_all_counts_new_fragments() {
    let mut logs = Logs::new(5);
    assert!(logs.insert(submitted(1)));
    let count = logs.insert_all(vec![submitted(1), submitted(2), submitted(3), submitted(2)]);
    assert_eq!(count, 2);
    assert_eq!(ids_of(&logs), vec![id(3), id(2), id(1)]);
    assert_eq!(logs.insert_all(vec![]), 0);
}

#[test]
fn insert_all_counts_a_fragment_again_after_its_eviction() {
    let mut logs = Logs::new(1);
    let count = logs.insert_all(vec![submitted(1), submitted(2), submitted(1)]);
    assert_eq!(count, 3);
    assert_eq!(ids_of(&logs), vec![id(1)]);
}

#[test]
fn modify_of_unknown_fragment_registers_it_from_network() {
    let a = id(7);
    let mut logs = Logs::new(4);
    let status = rejected("bad signature");
    logs.modify(a, status.clone());
    let all = logs.logs();
    assert_eq!(all.len(), 1);
    assert_eq!(*all[0].fragment_id(), a);
    assert_eq!(*all[0].received_from(), FragmentOrigin::Network);
    assert_eq!(*all[0].status(), status);
}

#[test]
fn modify_of_known_fragment_keeps_origin() {
    let mut logs = Logs::new(4);
    assert!(logs.insert(submitted(1)));
    assert!(logs.insert(submitted(2)));
    logs.modify(id(1), in_block(8));
    let all = logs.logs();
    assert_eq!(all.len(), 2);
    assert_eq!(*all[0].fragment_id(), id(1));
    assert_eq!(*all[0].received_from(), FragmentOrigin::Rest);
    assert_eq!(*all[0].status(), in_block(8));
    assert_eq!(*all[1].fragment_id(), id(2));
    assert_eq!(*all[1].status(), FragmentStatus::Pending);
}

#[test]
fn modify_of_unknown_fragment_evicts_when_full() {
    let mut logs = Logs::new(2);
    assert!(logs.insert(submitted(1)));
    assert!(logs.insert(submitted(2)));
    logs.modify(id(3), in_block(1));
    assert_eq!(ids_of(&logs), vec![id(3), id(2)]);
    assert!(!logs.exist(id(1)));
}

#[test]
fn modify_all_gives_each_the_status() {
    let mut logs = Logs::new(4);
    assert!(logs.insert(submitted(1)));
    assert!(logs.insert(submitted(2)));
    logs.modify_all(vec![id(2), id(3), id(2)], in_block(5));
    let all = logs.logs();
    assert_eq!(all.len(), 3);
    assert_eq!(*all[0].fragment_id(), id(2));
    assert_eq!(*all[0].received_from(), FragmentOrigin::Rest);
    assert_eq!(*all[0].status(), in_block(5));
    assert_eq!(*all[1].fragment_id(), id(3));
    assert_eq!(*all[1].received_from(), FragmentOrigin::Network);
    assert_eq!(*all[1].status(), in_block(5));
    assert_eq!(*all[2].fragment_id(), id(1));
    assert_eq!(*all[2].status(), FragmentStatus::Pending);
}

#[test]
fn logs_by_ids_leaves_unknown_out() {
    let mut logs = Logs::new(3);
    assert!(logs.insert(submitted(1)));
    assert!(logs.insert(submitted(2)));
    logs.modify(id(2), rejected("late"));
    let found = logs.logs_by_ids(vec![id(2), id(9), id(1), id(2)]);
    assert_eq!(found.len(), 2);
    assert_eq!(found[0].0, id(2));
    assert_eq!(*found[0].1.status(), rejected("late"));
    assert_eq!(found[1].0, id(1));
    assert_eq!(*found[1].1.fragment_id(), id(1));
    assert_eq!(*found[1].1.status(), FragmentStatus::Pending);
}

#[test]
fn logs_by_ids_does_not_count_as_a_use() {
    let mut logs = Logs::new(2);
    assert!(logs.insert(submitted(1)));
    assert!(logs.insert(submitted(2)));
    assert_eq!(logs.logs_by_ids(vec![id(1)]).len(), 1);
    assert_eq!(ids_of(&logs), vec![id(2), id(1)]);
    assert!(logs.insert(submitted(3)));
    assert!(logs.logs_by_ids(vec![id(1)]).is_empty());
}

#[test]
fn logs_lists_most_recently_used_first() {
    let mut logs = Logs::new(3);
    assert!(logs.insert(submitted(1)));
    assert!(logs.insert(submitted(2)));
    assert!(logs.insert(submitted(3)));
    logs.modify(id(1), in_block(2));
    assert_eq!(ids_of(&logs), vec![id(1), id(3), id(2)]);
}

#[test]
fn status_clone_is_equal() {
    let status = rejected("why");
    assert_eq!(status.clone(), status);
    let log = submitted(1);
    assert_eq!(log.clone(), log);
}
