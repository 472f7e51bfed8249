use queue_quota::quota::definition::{QuotaDefinition, QuotaScope};
use queue_quota::quota::message::{DeliveryStatus, Domain, Message, Recipient};
use queue_quota::quota::scope::{
    domain_correlation_id, recipient_correlation_id, scope_key, ScopeInstance, DOMAIN_ID_STRIDE,
};

fn rule(id: &str, scope: QuotaScope) -> QuotaDefinition {
    QuotaDefinition {
        id: id.to_string(),
        scope,
        predicate: "true".to_string(),
        max_size: None,
        max_messages: Some(10),
    }
}

fn message(sender: &str, domains: &[&str], recipients: &[(&str, usize)]) -> Message {
    Message {
        sender: sender.to_string(),
        size: 100,
        domains: domains
            .iter()
            .map(|d| Domain { name: d.to_string(), status: DeliveryStatus::Pending })
            .collect(),
        recipients: recipients
            .iter()
            .map(|(a, d)| Recipient {
                address: a.to_string(),
                domain_idx: *d,
                status: DeliveryStatus::Pending,
            })
            .collect(),
        quota_keys: Vec::new(),
    }
}

#[test]
fn sender_correlation_id_is_zero() {
    assert_eq!(ScopeInstance::Sender.correlation_id(), 0);
}

#[test]
fn domain_correlation_id_is_index_plus_one_shifted() {
    assert_eq!(domain_correlation_id(0), 1u64 << 32);
    assert_eq!(domain_correlation_id(1), 2u64 << 32);
    assert_eq!(domain_correlation_id(41), 42u64 << 32);
    assert_eq!(ScopeInstance::RecipientDomain { domain_idx: 2 }.correlation_id(), 3u64 << 32);
    assert_eq!(DOMAIN_ID_STRIDE, 1u64 << 32);
}

#[test]
fn domain_correlation_id_wraps_within_64_bits() {
    assert_eq!(domain_correlation_id(0xffff_fffe), 0xffff_ffffu64 << 32);
    assert_eq!(domain_correlation_id(0xffff_ffff), 0);
}

#[test]
fn recipient_correlation_id_is_index_plus_one() {
    assert_eq!(recipient_correlation_id(0), 1);
    assert_eq!(recipient_correlation_id(2), 3);
    assert_eq!(ScopeInstance::Recipient { rcpt_idx: 2, domain_idx: 0 }.correlation_id(), 3);
    assert_eq!(recipient_correlation_id(0xffff_fffe), 0xffff_ffff);
}

#[test]
fn recipient_ids_never_meet_domain_ids() {
    let domains: Vec<u64> = (0..64usize).map(domain_correlation_id).collect();
    for r in (0..2000usize).chain(0xffff_ff00..0xffff_ffff) {
        let id = recipient_correlation_id(r);
        assert!(id != 0);
        assert!(id < (1u64 << 32));
        assert!(!domains.contains(&id));
    }
    for d in [0usize, 1, 2, 1000, 0xffff_fffe] {
        assert_eq!(domain_correlation_id(d) & 0xffff_ffff, 0);
    }
}

#[test]
fn scope_instance_reports_its_tier() {
    assert_eq!(ScopeInstance::Sender.scope(), QuotaScope::Sender);
    assert_eq!(ScopeInstance::RecipientDomain { domain_idx: 0 }.scope(), QuotaScope::RecipientDomain);
    assert_eq!(ScopeInstance::Recipient { rcpt_idx: 0, domain_idx: 0 }.scope(), QuotaScope::Recipient);
}

#[test]
fn scope_key_layout() {
    let msg = message("alice", &["example.com"], &[("bob@example.com", 0)]);
    let def = rule("q1", QuotaScope::Sender);
    let key = scope_key(&def, &msg, &ScopeInstance::Sender);
    let mut expected = vec![2u8, 0, 0, 0, 0, 0, 0, 0];
    expected.extend_from_slice(b"q1");
    expected.push(0);
    expected.extend_from_slice(b"alice");
    assert_eq!(key, expected);

    let key = scope_key(&def, &msg, &ScopeInstance::RecipientDomain { domain_idx: 0 });
    let mut expected = vec![2u8, 0, 0, 0, 0, 0, 0, 0];
    expected.extend_from_slice(b"q1");
    expected.push(1);
    expected.extend_from_slice(b"example.com");
    assert_eq!(key, expected);

    let key = scope_key(&def, &msg, &ScopeInstance::Recipient { rcpt_idx: 0, domain_idx: 0 });
    let mut expected = vec![2u8, 0, 0, 0, 0, 0, 0, 0];
    expected.extend_from_slice(b"q1");
    expected.push(2);
    expected.extend_from_slice(b"bob@example.com");
    assert_eq!(key, expected);
}

#[test]
fn scope_key_is_the_same_for_the_same_rule_and_subject() {
    let def = rule("per-domain", QuotaScope::RecipientDomain);
    let first = message("alice", &["example.com", "example.org"], &[("a@example.com", 0)]);
    let second = message("carol", &["example.org", "example.com"], &[("z@example.org", 0)]);
    let a = scope_key(&def, &first, &ScopeInstance::RecipientDomain { domain_idx: 0 });
    let b = scope_key(&def, &second, &ScopeInstance::RecipientDomain { domain_idx: 1 });
    assert_eq!(a, b);
    let again = scope_key(&def, &first, &ScopeInstance::RecipientDomain { domain_idx: 0 });
    assert_eq!(a, again);
}

#[test]
fn scope_key_tells_rules_tiers_and_subjects_apart() {
    let msg = message("example.com", &["example.com", "example.org"], &[("example.com", 0)]);
    let def = rule("q", QuotaScope::RecipientDomain);
    let other = rule("q2", QuotaScope::RecipientDomain);
    let domain0 = scope_key(&def, &msg, &ScopeInstance::RecipientDomain { domain_idx: 0 });
    let domain1 = scope_key(&def, &msg, &ScopeInstance::RecipientDomain { domain_idx: 1 });
    let sender = scope_key(&def, &msg, &ScopeInstance::Sender);
    let rcpt = scope_key(&def, &msg, &ScopeInstance::Recipient { rcpt_idx: 0, domain_idx: 0 });
    let other0 = scope_key(&other, &msg, &ScopeInstance::RecipientDomain { domain_idx: 0 });
    assert_ne!(domain0, domain1);
    assert_ne!(domain0, sender);
    assert_ne!(domain0, rcpt);
    assert_ne!(sender, rcpt);
    assert_ne!(domain0, other0);
}

#[test]
fn scope_key_with_non_ascii_text() {
    let msg = message("zoë", &[], &[]);
    let def = rule("é", QuotaScope::Sender);
    let key = scope_key(&def, &msg, &ScopeInstance::Sender);
    let mut expected = vec![2u8, 0, 0, 0, 0, 0, 0, 0];
    expected.extend_from_slice("é".as_bytes());
    expected.push(0);
    expected.extend_from_slice("zoë".as_bytes());
    assert_eq!(key, expected);
}
