//! The group ledger on its own: indices, admission rules, mailboxes.

use skychat::server::{ConvoGroup, ConvoServer, Mailbox};
use skychat::types::ConvoError;

fn server_with_group(creator: &str) -> (ConvoServer, Vec<u8>) {
    let mut server = ConvoServer::new();
    let gid = vec![1u8, 2, 3, 4];
    server
        .client_create_group(gid.clone(), "g".to_string(), creator.to_string())
        .unwrap();
    (server, gid)
}

#[test]
fn create_group_registers_once() {
    let (mut server, gid) = server_with_group("alice");
    assert_eq!(server.groups.len(), 1);
    assert_eq!(server.groups[0].global_index, 0);
    assert_eq!(server.groups[0].user_ids, vec!["alice".to_string()]);
    let again = server.client_create_group(gid, "g2".to_string(), "bob".to_string());
    assert_eq!(again.unwrap_err(), ConvoError::GroupExists);
    assert_eq!(server.groups.len(), 1);
}

#[test]
fn ledger_indices_count_from_one() {
    let (mut server, gid) = server_with_group("alice");
    for expected in 1..=5u64 {
        server
            .client_send_message(gid.clone(), "alice".to_string(), vec![7], expected, 100)
            .unwrap();
    }
    let group = &server.groups[0];
    assert_eq!(group.global_index, 5);
    for (pos, entry) in group.messages.iter().enumerate() {
        assert_eq!(entry.global_index, pos as u64 + 1);
    }
    // strictly increasing across every pair
    for i in 0..group.messages.len() {
        for j in i + 1..group.messages.len() {
            assert!(group.messages[i].global_index < group.messages[j].global_index);
        }
    }
}

#[test]
fn stale_and_ahead_sends_are_refused() {
    let (mut server, gid) = server_with_group("alice");
    server
        .client_send_message(gid.clone(), "alice".to_string(), vec![1], 1, 100)
        .unwrap();
    let stale = server.client_send_message(gid.clone(), "bob".to_string(), vec![2], 1, 100);
    assert_eq!(stale.unwrap_err(), ConvoError::IndexStale);
    let ahead = server.client_send_message(gid.clone(), "bob".to_string(), vec![2], 3, 100);
    assert_eq!(ahead.unwrap_err(), ConvoError::IndexAhead);
    // a refused send leaves the ledger untouched
    assert_eq!(server.groups[0].messages.len(), 1);
    assert_eq!(server.groups[0].global_index, 1);
    let unknown = server.client_send_message(vec![9, 9], "bob".to_string(), vec![2], 1, 100);
    assert_eq!(unknown.unwrap_err(), ConvoError::GroupUnknown);
}

#[test]
fn invite_appends_fanned_and_files_welcome() {
    let (mut server, gid) = server_with_group("alice");
    server
        .client_invite_user(
            gid.clone(),
            "alice".to_string(),
            "bob".to_string(),
            vec![0xAA],
            vec![0xBB],
            Some(vec![0xCC]),
            50,
        )
        .unwrap();
    let group = &server.groups[0];
    assert_eq!(group.global_index, 1);
    assert_eq!(group.messages.len(), 1);
    assert_eq!(group.messages[0].global_index, 1);
    assert_eq!(group.messages[0].message.as_deref(), Some(&[0xCC][..]));
    let mailbox = &server.user_specific_messages;
    assert_eq!(mailbox.len(), 1);
    assert_eq!(mailbox[0].user_id, "bob");
    assert_eq!(mailbox[0].messages.len(), 1);
    let env = &mailbox[0].messages[0];
    assert_eq!(env.global_index, 1);
    let inv = env.invite.as_ref().unwrap();
    assert_eq!(inv.welcome_message, vec![0xAA]);
    assert_eq!(inv.ratchet_tree.as_deref(), Some(&[0xBB][..]));
    assert_eq!(inv.group_name, "g");
}

#[test]
fn invite_without_fanned_keeps_index() {
    let (mut server, gid) = server_with_group("alice");
    server
        .client_invite_user(
            gid.clone(),
            "alice".to_string(),
            "bob".to_string(),
            vec![0xAA],
            vec![0xBB],
            None,
            50,
        )
        .unwrap();
    assert_eq!(server.groups[0].global_index, 0);
    assert_eq!(server.groups[0].messages.len(), 0);
    assert_eq!(server.user_specific_messages[0].messages.len(), 1);
}

#[test]
fn full_ledger_refuses_invite() {
    let mut server = ConvoServer::new();
    server.groups.push(ConvoGroup {
        group_id: vec![1],
        group_name: "g".to_string(),
        global_index: u64::MAX,
        user_ids: vec!["alice".to_string()],
        messages: Vec::new(),
    });
    let refused = server.client_invite_user(
        vec![1],
        "alice".to_string(),
        "bob".to_string(),
        vec![0xAA],
        vec![0xBB],
        Some(vec![0xCC]),
        50,
    );
    assert_eq!(refused.unwrap_err(), ConvoError::LedgerFull);
}

#[test]
fn poll_returns_suffix_then_mailbox_and_drains() {
    let (mut server, gid) = server_with_group("alice");
    for expected in 1..=3u64 {
        server
            .client_send_message(gid.clone(), "alice".to_string(), vec![expected as u8], expected, 100)
            .unwrap();
    }
    server
        .client_invite_user(
            gid.clone(),
            "alice".to_string(),
            "bob".to_string(),
            vec![0xAA],
            vec![0xBB],
            None,
            50,
        )
        .unwrap();
    let batch = server
        .client_get_new_messages(Some(gid.clone()), "bob".to_string(), 1, 200)
        .unwrap();
    // entries 2 and 3, then the mailbox envelope
    assert_eq!(batch.len(), 3);
    assert_eq!(batch[0].global_index, 2);
    assert_eq!(batch[1].global_index, 3);
    assert!(batch[2].invite.is_some());
    // mailbox drain: a second poll returns only the ledger part
    let again = server
        .client_get_new_messages(Some(gid.clone()), "bob".to_string(), 1, 201)
        .unwrap();
    assert_eq!(again.len(), 2);
    assert!(again.iter().all(|m| m.invite.is_none()));
    // and without a group, nothing at all
    let none = server
        .client_get_new_messages(None, "bob".to_string(), 0, 202)
        .unwrap();
    assert!(none.is_empty());
}

#[test]
fn accept_invite_drops_mailbox_and_adds_member() {
    let (mut server, gid) = server_with_group("alice");
    server
        .client_invite_user(
            gid.clone(),
            "alice".to_string(),
            "bob".to_string(),
            vec![0xAA],
            vec![0xBB],
            None,
            50,
        )
        .unwrap();
    server
        .client_accept_invite(gid.clone(), "bob".to_string())
        .unwrap();
    assert!(server.user_specific_messages.is_empty());
    assert_eq!(
        server.groups[0].user_ids,
        vec!["alice".to_string(), "bob".to_string()]
    );
    let unknown = server.client_accept_invite(vec![9], "bob".to_string());
    assert_eq!(unknown.unwrap_err(), ConvoError::GroupUnknown);
}

#[test]
fn connect_upserts_and_list_snapshots() {
    let mut server = ConvoServer::new();
    server
        .client_connect("u1".to_string(), "alice".to_string(), vec![1], 10)
        .unwrap();
    server
        .client_connect("u2".to_string(), "bob".to_string(), vec![2], 11)
        .unwrap();
    server
        .client_connect("u1".to_string(), "alice2".to_string(), vec![3], 12)
        .unwrap();
    let users = server.client_list_users();
    assert_eq!(users.len(), 2);
    assert_eq!(users[0].user_id, "u1");
    assert_eq!(users[0].name, "alice2");
    assert_eq!(users[0].serialized_key_package, vec![3]);
    assert_eq!(users[0].last_active, 12);
}

#[test]
fn key_package_lookup_is_exact_or_refused() {
    let mut server = ConvoServer::new();
    server
        .client_connect("u1".to_string(), "alice".to_string(), vec![1], 10)
        .unwrap();
    let ok = server
        .client_get_user_keys(&vec!["u1".to_string()])
        .unwrap();
    assert_eq!(ok.len(), 1);
    assert_eq!(ok[0].0, "u1");
    assert_eq!(ok[0].1, vec![1]);
    let missing = server.client_get_user_keys(&vec!["u1".to_string(), "ghost".to_string()]);
    assert_eq!(missing.unwrap_err(), ConvoError::UserUnknown);
}

#[test]
fn reaper_keeps_recent_users_only() {
    let mut server = ConvoServer::new();
    server
        .client_connect("old".to_string(), "o".to_string(), vec![1], 100)
        .unwrap();
    server
        .client_connect("fresh".to_string(), "f".to_string(), vec![2], 140)
        .unwrap();
    server.cleanup_inactive_users(150).unwrap();
    let users = server.client_list_users();
    assert_eq!(users.len(), 1);
    assert_eq!(users[0].user_id, "fresh");
}

#[test]
fn poll_touches_liveness() {
    let mut server = ConvoServer::new();
    server
        .client_connect("u1".to_string(), "alice".to_string(), vec![1], 10)
        .unwrap();
    server
        .client_get_new_messages(None, "u1".to_string(), 0, 99)
        .unwrap();
    assert_eq!(server.users[0].last_active, 99);
}

#[test]
fn mailbox_struct_is_plain() {
    let mb = Mailbox {
        user_id: "x".to_string(),
        messages: Vec::new(),
    };
    assert!(mb.messages.is_empty());
}
