//! The request shapes and their handlers, as a transport layer would drive
//! them.

use skychat::api::{accept_invite, connect, create_group, get_new_messages, group_index,
    invite_user, list_users, send_message, AcceptInvite, CreateGroup, GetGroupInfo, GetMessages,
    InviteUser, SendMessage, User};
use skychat::server::ConvoServer;
use skychat::types::ConvoError;

#[test]
fn request_cycle_through_handlers() {
    let mut server = ConvoServer::new();
    connect(
        &mut server,
        User {
            name: "alice".to_string(),
            user_id: "alice".to_string(),
            serialized_key_package: vec![1],
        },
        10,
    )
    .unwrap();
    assert_eq!(list_users(&server).len(), 1);

    create_group(
        &mut server,
        CreateGroup {
            group_id: vec![7],
            group_name: "g".to_string(),
            sender_id: "alice".to_string(),
        },
    )
    .unwrap();
    let taken = create_group(
        &mut server,
        CreateGroup {
            group_id: vec![7],
            group_name: "g2".to_string(),
            sender_id: "bob".to_string(),
        },
    );
    assert_eq!(taken.unwrap_err(), ConvoError::GroupExists);

    invite_user(
        &mut server,
        InviteUser {
            group_id: vec![7],
            sender_id: "alice".to_string(),
            receiver_id: "bob".to_string(),
            welcome_message: vec![0xAA],
            ratchet_tree: vec![0xBB],
            fanned: Some(vec![0xCC]),
        },
        11,
    )
    .unwrap();
    assert_eq!(
        group_index(
            &server,
            GetGroupInfo { group_id: vec![7], sender_id: "alice".to_string() },
        )
        .unwrap(),
        1
    );

    send_message(
        &mut server,
        SendMessage {
            group_id: vec![7],
            message: vec![0xDD],
            sender_id: "alice".to_string(),
            global_index: 2,
        },
        12,
    )
    .unwrap();
    let stale = send_message(
        &mut server,
        SendMessage {
            group_id: vec![7],
            message: vec![0xEE],
            sender_id: "alice".to_string(),
            global_index: 2,
        },
        13,
    );
    assert_eq!(stale.unwrap_err(), ConvoError::IndexStale);

    let batch = get_new_messages(
        &mut server,
        GetMessages { group_id: Some(vec![7]), sender_id: "bob".to_string(), index: 0 },
        14,
    )
    .unwrap();
    // two ledger entries, then bob's invite envelope
    assert_eq!(batch.len(), 3);
    assert!(batch[2].invite.is_some());

    accept_invite(
        &mut server,
        AcceptInvite { group_id: vec![7], sender_id: "bob".to_string() },
    )
    .unwrap();
    assert_eq!(server.groups[0].user_ids.len(), 2);
}
