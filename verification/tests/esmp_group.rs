use queue_quota::esmp::api::{announcement, GroupChange, GroupUpdateRequest};
use queue_quota::esmp::group::{meta_file_name, thread_file_name, GroupMetadata};
use queue_quota::esmp::handler::{EsmpMessage, MessageBody};
use queue_quota::esmp::system::SystemMessageType;
use queue_quota::text::{contains_text, remove_text, str_eq};

fn system(subtype: &str, actor: Option<&str>, target: Option<&str>) -> EsmpMessage {
    EsmpMessage {
        to: Vec::new(),
        cc: None,
        group_id: Some("g1".to_string()),
        kind: "system".to_string(),
        subtype: Some(subtype.to_string()),
        actor: actor.map(|s| s.to_string()),
        target: target.map(|s| s.to_string()),
        timestamp: None,
        body: MessageBody { group_name: None, group_description: None, group_display_picture: None },
        signature: String::new(),
        sender_pubkey: String::new(),
        new_name: None,
        new_description: None,
        new_dp_url: None,
    }
}

fn names(list: &[&str]) -> Vec<String> {
    list.iter().map(|s| s.to_string()).collect()
}

#[test]
fn str_eq_compares_text() {
    assert!(str_eq("", ""));
    assert!(str_eq("abc", "abc"));
    assert!(!str_eq("abc", "abd"));
    assert!(!str_eq("abc", "ab"));
    assert!(!str_eq("ab", "abc"));
    assert!(str_eq("zoë", "zoë"));
    assert!(!str_eq("zoë", "zoe"));
}

#[test]
fn contains_and_remove_text() {
    let mut list = names(&["a", "b", "a", "c"]);
    assert!(contains_text(&list, "a"));
    assert!(contains_text(&list, "c"));
    assert!(!contains_text(&list, "d"));
    remove_text(&mut list, "a");
    assert_eq!(list, names(&["b", "c"]));
    remove_text(&mut list, "zzz");
    assert_eq!(list, names(&["b", "c"]));
    assert!(!contains_text(&list, "a"));
}

#[test]
fn unknown_group_is_empty() {
    let g = GroupMetadata::unknown("g1");
    assert_eq!(g.group_id, "g1");
    assert_eq!(g.group_name, None);
    assert_eq!(g.group_description, None);
    assert_eq!(g.group_display_picture, None);
    assert_eq!(g.created_at, None);
    assert_eq!(g.updated_at, None);
    assert!(g.admins.is_empty());
    assert!(g.members.is_empty());
}

#[test]
fn default_group_has_no_id() {
    let g = GroupMetadata::default();
    assert_eq!(g.group_id, "");
    assert_eq!(g.group_name, None);
    assert_eq!(g.created_at, None);
    assert!(g.admins.is_empty());
    assert!(g.members.is_empty());
}

#[test]
fn creation_sets_properties_and_first_admin() {
    let mut g = GroupMetadata::unknown("g1");
    let mut msg = system("group_created", Some("alice"), None);
    msg.body.group_name = Some("Friends".to_string());
    msg.body.group_description = Some("All of us".to_string());
    msg.body.group_display_picture = Some("https://example.com/p.png".to_string());
    g.record(&msg, 100);
    assert_eq!(g.created_at, Some(100));
    assert_eq!(g.updated_at, Some(100));
    assert_eq!(g.group_name.as_deref(), Some("Friends"));
    assert_eq!(g.group_description.as_deref(), Some("All of us"));
    assert_eq!(g.group_display_picture.as_deref(), Some("https://example.com/p.png"));
    assert_eq!(g.admins, names(&["alice"]));
    assert_eq!(g.members, names(&["alice"]));
    assert!(g.is_admin("alice"));
    assert!(!g.is_admin("bob"));
}

#[test]
fn rename_description_and_picture() {
    let mut g = GroupMetadata::unknown("g1");
    let mut msg = system("group_renamed", Some("alice"), None);
    g.record(&msg, 5);
    assert_eq!(g.group_name, None);
    assert_eq!(g.updated_at, None);
    msg.new_name = Some("New".to_string());
    g.record(&msg, 6);
    assert_eq!(g.group_name.as_deref(), Some("New"));
    assert_eq!(g.updated_at, Some(6));

    let mut msg = system("description_updated", Some("alice"), None);
    msg.new_description = Some("About".to_string());
    g.record(&msg, 7);
    assert_eq!(g.group_description.as_deref(), Some("About"));
    assert_eq!(g.updated_at, Some(7));

    let mut msg = system("dp_updated", Some("alice"), None);
    msg.new_dp_url = Some("https://example.com/x".to_string());
    g.record(&msg, 8);
    assert_eq!(g.group_display_picture.as_deref(), Some("https://example.com/x"));
    assert_eq!(g.updated_at, Some(8));
    assert_eq!(g.group_name.as_deref(), Some("New"));
}

#[test]
fn joining_twice_adds_once() {
    let mut g = GroupMetadata::unknown("g1");
    g.record(&system("joined", Some("bob"), None), 1);
    assert_eq!(g.members, names(&["bob"]));
    assert_eq!(g.updated_at, Some(1));
    g.record(&system("joined", Some("bob"), None), 2);
    assert_eq!(g.members, names(&["bob"]));
    assert_eq!(g.updated_at, Some(1));
    g.record(&system("joined", None, None), 3);
    assert_eq!(g.members, names(&["bob"]));
    assert_eq!(g.updated_at, Some(1));
}

#[test]
fn leaving_and_removal_take_out_member_and_admin() {
    let mut g = GroupMetadata::unknown("g1");
    g.members = names(&["alice", "bob", "carol"]);
    g.admins = names(&["alice", "bob"]);
    g.record(&system("left", Some("bob"), None), 10);
    assert_eq!(g.members, names(&["alice", "carol"]));
    assert_eq!(g.admins, names(&["alice"]));
    assert_eq!(g.updated_at, Some(10));
    g.record(&system("removed", Some("alice"), Some("carol")), 11);
    assert_eq!(g.members, names(&["alice"]));
    assert_eq!(g.admins, names(&["alice"]));
    assert_eq!(g.updated_at, Some(11));
    g.record(&system("left", None, None), 12);
    assert_eq!(g.members, names(&["alice"]));
    assert_eq!(g.updated_at, Some(11));
}

#[test]
fn admin_assignment_and_revocation() {
    let mut g = GroupMetadata::unknown("g1");
    g.members = names(&["alice", "bob"]);
    g.admins = names(&["alice"]);
    g.record(&system("admin_assigned", Some("alice"), Some("bob")), 20);
    assert_eq!(g.admins, names(&["alice", "bob"]));
    assert_eq!(g.updated_at, Some(20));
    g.record(&system("admin_assigned", Some("alice"), Some("bob")), 21);
    assert_eq!(g.admins, names(&["alice", "bob"]));
    assert_eq!(g.updated_at, Some(20));
    g.record(&system("admin_revoked", Some("alice"), Some("bob")), 22);
    assert_eq!(g.admins, names(&["alice"]));
    assert_eq!(g.updated_at, Some(22));
    assert_eq!(g.members, names(&["alice", "bob"]));
    g.record(&system("admin_revoked", Some("alice"), None), 23);
    assert_eq!(g.updated_at, Some(22));
}

#[test]
fn other_messages_change_nothing() {
    let mut g = GroupMetadata::unknown("g1");
    g.members = names(&["alice"]);
    let mut chat = system("joined", Some("bob"), None);
    chat.kind = "text".to_string();
    g.record(&chat, 1);
    g.record(&system("profile_updated", Some("bob"), None), 2);
    g.record(&system("no_such_kind", Some("bob"), None), 3);
    let mut bare = system("joined", Some("bob"), None);
    bare.subtype = None;
    g.record(&bare, 4);
    assert_eq!(g.members, names(&["alice"]));
    assert_eq!(g.updated_at, None);
}

#[test]
fn apply_acts_by_the_kind_given() {
    let mut g = GroupMetadata::unknown("g1");
    let msg = system("whatever", Some("bob"), None);
    g.apply(&msg, SystemMessageType::Joined, 9);
    assert_eq!(g.members, names(&["bob"]));
    assert_eq!(g.updated_at, Some(9));
}

#[test]
fn file_names() {
    assert_eq!(thread_file_name("g1"), "group_g1.jsonl");
    assert_eq!(meta_file_name("g1"), "group_g1_meta.json");
    assert_eq!(thread_file_name(""), "group_.jsonl");
}

#[test]
fn group_update_lists_changes_in_order() {
    let req = GroupUpdateRequest {
        name: Some("N".to_string()),
        description: None,
        display_picture_url: Some("https://example.com/p".to_string()),
    };
    let changes = req.changes();
    assert_eq!(changes.len(), 2);
    assert_eq!(changes[0].kind, SystemMessageType::GroupRenamed);
    assert_eq!(changes[0].value, "N");
    assert_eq!(changes[1].kind, SystemMessageType::DpUpdated);
    assert_eq!(changes[1].value, "https://example.com/p");
    let none = GroupUpdateRequest { name: None, description: None, display_picture_url: None };
    assert!(none.changes().is_empty());
    let all = GroupUpdateRequest {
        name: Some("a".to_string()),
        description: Some("b".to_string()),
        display_picture_url: Some("c".to_string()),
    };
    let kinds: Vec<SystemMessageType> = all.changes().iter().map(|c| c.kind).collect();
    assert_eq!(
        kinds,
        vec![SystemMessageType::GroupRenamed, SystemMessageType::DescriptionUpdated, SystemMessageType::DpUpdated]
    );
}

#[test]
fn announcement_carries_the_change() {
    let members = names(&["alice", "bob"]);
    let change = GroupChange { kind: SystemMessageType::DescriptionUpdated, value: "About".to_string() };
    let msg = announcement(change, "g1", &members, "alice", "sig", 42);
    assert_eq!(msg.to, members);
    assert_eq!(msg.cc, None);
    assert_eq!(msg.group_id.as_deref(), Some("g1"));
    assert_eq!(msg.kind, "system");
    assert_eq!(msg.subtype.as_deref(), Some("description_updated"));
    assert_eq!(msg.actor.as_deref(), Some("alice"));
    assert_eq!(msg.target, None);
    assert_eq!(msg.timestamp, Some(42));
    assert_eq!(msg.signature, "sig");
    assert_eq!(msg.sender_pubkey, "alice");
    assert_eq!(msg.new_name, None);
    assert_eq!(msg.new_description.as_deref(), Some("About"));
    assert_eq!(msg.new_dp_url, None);
    assert_eq!(msg.validate_system_message(), Ok(()));

    let renamed = announcement(
        GroupChange { kind: SystemMessageType::GroupRenamed, value: "N".to_string() },
        "g1",
        &members,
        "alice",
        "sig",
        43,
    );
    assert_eq!(renamed.new_name.as_deref(), Some("N"));
    assert_eq!(renamed.new_description, None);
    let mut g = GroupMetadata::unknown("g1");
    g.record(&renamed, 43);
    assert_eq!(g.group_name.as_deref(), Some("N"));
}
