use queue_quota::quota::message::{DeliveryStatus, Domain, Message, QuotaKey, Recipient};
use queue_quota::quota::release::{contains_id, CounterDecrement, CounterKind};

fn message_with(
    size: u64,
    domains: &[DeliveryStatus],
    recipients: &[DeliveryStatus],
    quota_keys: Vec<QuotaKey>,
) -> Message {
    Message {
        sender: "alice".to_string(),
        size,
        domains: domains
            .iter()
            .enumerate()
            .map(|(i, s)| Domain { name: format!("d{}.example", i), status: *s })
            .collect(),
        recipients: recipients
            .iter()
            .enumerate()
            .map(|(i, s)| Recipient { address: format!("r{}@d0.example", i), domain_idx: 0, status: *s })
            .collect(),
        quota_keys,
    }
}

fn count(key: &[u8], id: u64) -> QuotaKey {
    QuotaKey::Count { key: key.to_vec(), id }
}

fn size(key: &[u8], id: u64) -> QuotaKey {
    QuotaKey::Size { key: key.to_vec(), id }
}

#[test]
fn only_completed_and_permanent_failure_are_terminal() {
    assert!(!DeliveryStatus::Pending.is_terminal());
    assert!(!DeliveryStatus::Scheduled.is_terminal());
    assert!(DeliveryStatus::Completed.is_terminal());
    assert!(DeliveryStatus::PermanentFailure.is_terminal());
}

#[test]
fn terminal_ids_lists_domains_then_recipients() {
    let msg = message_with(
        10,
        &[DeliveryStatus::Completed, DeliveryStatus::Scheduled, DeliveryStatus::PermanentFailure],
        &[DeliveryStatus::Pending, DeliveryStatus::Completed, DeliveryStatus::PermanentFailure],
        Vec::new(),
    );
    assert_eq!(msg.terminal_ids(), vec![1u64 << 32, 3u64 << 32, 2, 3]);
}

#[test]
fn terminal_ids_empty_while_nothing_settled() {
    let msg = message_with(
        10,
        &[DeliveryStatus::Pending],
        &[DeliveryStatus::Scheduled, DeliveryStatus::Pending],
        Vec::new(),
    );
    assert!(msg.terminal_ids().is_empty());
}

#[test]
fn contains_id_finds_only_what_is_there() {
    let ids = vec![1u64 << 32, 2, 3];
    assert!(contains_id(&ids, 2));
    assert!(contains_id(&ids, 1u64 << 32));
    assert!(!contains_id(&ids, 0));
    assert!(!contains_id(&ids, 1));
    assert!(!contains_id(&Vec::new(), 0));
}

#[test]
fn release_on_empty_ledger_is_a_no_op() {
    let mut msg = message_with(
        500,
        &[DeliveryStatus::Completed],
        &[DeliveryStatus::Completed],
        Vec::new(),
    );
    let mut batch = Vec::new();
    msg.release_quota(&mut batch);
    assert!(batch.is_empty());
    assert!(msg.quota_keys.is_empty());
}

#[test]
fn release_without_terminal_status_keeps_everything() {
    let ledger = vec![count(b"a", 1), size(b"b", 1u64 << 32), size(b"c", 0)];
    let mut msg = message_with(
        500,
        &[DeliveryStatus::Scheduled],
        &[DeliveryStatus::Pending],
        ledger.clone(),
    );
    let mut batch = Vec::new();
    msg.release_quota(&mut batch);
    assert!(batch.is_empty());
    assert_eq!(msg.quota_keys, ledger);
}

#[test]
fn release_emits_one_for_count_and_size_for_size() {
    let mut msg = message_with(
        300,
        &[DeliveryStatus::Completed],
        &[DeliveryStatus::Pending],
        vec![count(b"c-key", 1u64 << 32), size(b"s-key", 1u64 << 32)],
    );
    let mut batch = Vec::new();
    msg.release_quota(&mut batch);
    assert_eq!(
        batch,
        vec![
            CounterDecrement { counter: CounterKind::Count, key: b"c-key".to_vec(), amount: 1 },
            CounterDecrement { counter: CounterKind::Size, key: b"s-key".to_vec(), amount: 300 },
        ]
    );
    assert!(msg.quota_keys.is_empty());
}

#[test]
fn release_partitions_the_ledger_in_order() {
    let mut msg = message_with(
        70,
        &[DeliveryStatus::Scheduled, DeliveryStatus::PermanentFailure],
        &[DeliveryStatus::Completed, DeliveryStatus::Pending, DeliveryStatus::Scheduled],
        vec![
            size(b"sender", 0),
            count(b"d0", 1u64 << 32),
            count(b"d1", 2u64 << 32),
            size(b"r0", 1),
            count(b"r0", 1),
            size(b"r1", 2),
            size(b"d1", 2u64 << 32),
        ],
    );
    let mut batch = vec![CounterDecrement { counter: CounterKind::Count, key: b"earlier".to_vec(), amount: 9 }];
    msg.release_quota(&mut batch);
    assert_eq!(
        batch,
        vec![
            CounterDecrement { counter: CounterKind::Count, key: b"earlier".to_vec(), amount: 9 },
            CounterDecrement { counter: CounterKind::Count, key: b"d1".to_vec(), amount: 1 },
            CounterDecrement { counter: CounterKind::Size, key: b"r0".to_vec(), amount: 70 },
            CounterDecrement { counter: CounterKind::Count, key: b"r0".to_vec(), amount: 1 },
            CounterDecrement { counter: CounterKind::Size, key: b"d1".to_vec(), amount: 70 },
        ]
    );
    assert_eq!(msg.quota_keys, vec![size(b"sender", 0), count(b"d0", 1u64 << 32), size(b"r1", 2)]);
    assert_eq!(msg.size, 70);
    assert_eq!(msg.sender, "alice");
    assert_eq!(msg.domains.len(), 2);
    assert_eq!(msg.recipients.len(), 3);
}

#[test]
fn second_release_without_new_terminal_status_emits_nothing() {
    let mut msg = message_with(
        120,
        &[DeliveryStatus::Completed, DeliveryStatus::Scheduled],
        &[DeliveryStatus::PermanentFailure, DeliveryStatus::Pending],
        vec![count(b"d0", 1u64 << 32), count(b"d1", 2u64 << 32), size(b"r0", 1), size(b"r1", 2)],
    );
    let mut first = Vec::new();
    msg.release_quota(&mut first);
    assert_eq!(first.len(), 2);
    let left = msg.quota_keys.clone();
    let mut second = Vec::new();
    msg.release_quota(&mut second);
    assert!(second.is_empty());
    assert_eq!(msg.quota_keys, left);
    assert_eq!(left, vec![count(b"d1", 2u64 << 32), size(b"r1", 2)]);
}

#[test]
fn release_follows_later_transitions() {
    let mut msg = message_with(
        50,
        &[DeliveryStatus::Scheduled],
        &[DeliveryStatus::Completed, DeliveryStatus::Scheduled],
        vec![size(b"r0", 1), size(b"r1", 2), count(b"d0", 1u64 << 32)],
    );
    let mut batch = Vec::new();
    msg.release_quota(&mut batch);
    assert_eq!(batch, vec![CounterDecrement { counter: CounterKind::Size, key: b"r0".to_vec(), amount: 50 }]);
    msg.recipients[1].status = DeliveryStatus::PermanentFailure;
    msg.domains[0].status = DeliveryStatus::Completed;
    let mut batch = Vec::new();
    msg.release_quota(&mut batch);
    assert_eq!(
        batch,
        vec![
            CounterDecrement { counter: CounterKind::Size, key: b"r1".to_vec(), amount: 50 },
            CounterDecrement { counter: CounterKind::Count, key: b"d0".to_vec(), amount: 1 },
        ]
    );
    assert!(msg.quota_keys.is_empty());
}

#[test]
fn recipient_at_index_two_releases_only_id_three() {
    let mut msg = message_with(
        40,
        &[DeliveryStatus::Scheduled],
        &[DeliveryStatus::Scheduled, DeliveryStatus::Scheduled, DeliveryStatus::PermanentFailure],
        vec![
            size(b"sender", 0),
            count(b"sender", 0),
            count(b"r0", 1),
            count(b"r1", 2),
            count(b"r2", 3),
            size(b"r2", 3),
            count(b"d0", 1u64 << 32),
            count(b"d2", 3u64 << 32),
        ],
    );
    let mut batch = Vec::new();
    msg.release_quota(&mut batch);
    assert_eq!(
        batch,
        vec![
            CounterDecrement { counter: CounterKind::Count, key: b"r2".to_vec(), amount: 1 },
            CounterDecrement { counter: CounterKind::Size, key: b"r2".to_vec(), amount: 40 },
        ]
    );
    assert_eq!(
        msg.quota_keys,
        vec![
            size(b"sender", 0),
            count(b"sender", 0),
            count(b"r0", 1),
            count(b"r1", 2),
            count(b"d0", 1u64 << 32),
            count(b"d2", 3u64 << 32),
        ]
    );
}

#[test]
fn sender_reservations_stay_when_everything_completed() {
    let mut msg = message_with(
        300,
        &[DeliveryStatus::Completed],
        &[DeliveryStatus::Completed, DeliveryStatus::Completed],
        vec![size(b"sender", 0), size(b"r0", 1)],
    );
    let mut batch = Vec::new();
    msg.release_quota(&mut batch);
    assert_eq!(batch, vec![CounterDecrement { counter: CounterKind::Size, key: b"r0".to_vec(), amount: 300 }]);
    assert_eq!(msg.quota_keys, vec![size(b"sender", 0)]);
}

#[test]
fn quota_key_helpers() {
    let k = size(b"k", 7);
    assert_eq!(k.id(), 7);
    assert_eq!(k.duplicate(), k);
    assert_eq!(k.settle(12), CounterDecrement { counter: CounterKind::Size, key: b"k".to_vec(), amount: 12 });
    let c = count(b"k", 9);
    assert_eq!(c.id(), 9);
    assert_eq!(c.settle(12), CounterDecrement { counter: CounterKind::Count, key: b"k".to_vec(), amount: 1 });
}

#[test]
fn delta_is_the_negated_amount() {
    let d = |amount: u64| CounterDecrement { counter: CounterKind::Size, key: Vec::new(), amount };
    assert_eq!(d(0).delta(), Some(0));
    assert_eq!(d(1).delta(), Some(-1));
    assert_eq!(d(300).delta(), Some(-300));
    assert_eq!(d(i64::MAX as u64).delta(), Some(-i64::MAX));
    assert_eq!(d(1u64 << 63).delta(), Some(i64::MIN));
    assert_eq!(d((1u64 << 63) + 1).delta(), None);
    assert_eq!(d(u64::MAX).delta(), None);
}

#[test]
fn size_decrement_of_largest_message() {
    let mut msg = message_with(u64::MAX, &[DeliveryStatus::Completed], &[], vec![size(b"d0", 1u64 << 32)]);
    let mut batch = Vec::new();
    msg.release_quota(&mut batch);
    assert_eq!(batch[0].amount, u64::MAX);
}
