//! The cryptographic engine against the real MLS implementation: group
//! creation, invites, message exchange, removal, external joins, and the
//! persisted-state round trip.

use skychat::manager::ConvoManager;
use skychat::types::{ConvoError, ConvoInvite, ConvoMessage};

#[test]
fn two_engines_exchange_messages() {
    let mut alice = ConvoManager::init("alice".to_string()).unwrap();
    let mut bob = ConvoManager::init("bob".to_string()).unwrap();

    let gid = alice.create_group("g".to_string()).unwrap();
    let bob_kp = bob.get_key_package().unwrap();
    let invite = alice.create_invite(&gid, bob_kp).unwrap();
    assert_eq!(invite.sender_id, "alice");
    assert!(invite.fanned.is_some());
    assert!(invite.ratchet_tree.is_some());
    // the invite carries the group's current source index
    assert_eq!(invite.global_index, 0);
    alice.confirm_invite(&gid).unwrap();
    bob.process_invite(invite).unwrap();

    let cipher = bob.create_message(&gid, "Hello, alice!".to_string()).unwrap();
    // the ciphertext is not the plaintext
    assert_ne!(cipher, "Hello, alice!".as_bytes().to_vec());
    let results = alice.process_message(cipher, Some("bob".to_string()), 7).unwrap();
    assert_eq!(results.message.as_deref(), Some("Hello, alice!"));
    let transcript = &alice.groups.iter().find(|g| g.id == gid).unwrap().decrypted;
    assert_eq!(transcript.len(), 1);
    assert_eq!(transcript[0].text, "Hello, alice!");
    assert_eq!(transcript[0].sender_id, "bob");
    assert_eq!(transcript[0].timestamp, 7);

    let reply = alice.create_message(&gid, "Hello, bob!".to_string()).unwrap();
    let results = bob.process_message(reply, Some("alice".to_string()), 8).unwrap();
    assert_eq!(results.message.as_deref(), Some("Hello, bob!"));
}

#[test]
fn third_member_sees_history_from_join_onward() {
    let mut alice = ConvoManager::init("alice".to_string()).unwrap();
    let mut bob = ConvoManager::init("bob".to_string()).unwrap();
    let mut charlie = ConvoManager::init("charlie".to_string()).unwrap();

    let gid = alice.create_group("g".to_string()).unwrap();
    let invite = alice.create_invite(&gid, bob.get_key_package().unwrap()).unwrap();
    alice.confirm_invite(&gid).unwrap();
    bob.process_invite(invite).unwrap();

    // bob invites charlie; alice processes the fanned commit like a message
    let invite = bob.create_invite(&gid, charlie.get_key_package().unwrap()).unwrap();
    bob.confirm_invite(&gid).unwrap();
    let fanned = invite.fanned.clone().unwrap();
    charlie.process_invite(invite).unwrap();
    let r = alice.process_message(fanned, Some("bob".to_string()), 1).unwrap();
    assert!(r.message.is_none());

    // all three converge on the same epoch
    let ea = alice.group_get_epoch(&gid).unwrap();
    let eb = bob.group_get_epoch(&gid).unwrap();
    let ec = charlie.group_get_epoch(&gid).unwrap();
    assert_eq!(ea, eb);
    assert_eq!(eb, ec);

    // charlie speaks and both others decrypt the same text
    let cipher = charlie.create_message(&gid, "Hello, everyone!".to_string()).unwrap();
    let ra = alice.process_message(cipher.clone(), Some("charlie".to_string()), 2).unwrap();
    let rb = bob.process_message(cipher, Some("charlie".to_string()), 2).unwrap();
    assert_eq!(ra.message.as_deref(), Some("Hello, everyone!"));
    assert_eq!(rb.message.as_deref(), Some("Hello, everyone!"));
}

#[test]
fn removal_excludes_the_removed_member() {
    let mut alice = ConvoManager::init("alice".to_string()).unwrap();
    let mut bob = ConvoManager::init("bob".to_string()).unwrap();
    let gid = alice.create_group("g".to_string()).unwrap();
    let invite = alice.create_invite(&gid, bob.get_key_package().unwrap()).unwrap();
    alice.confirm_invite(&gid).unwrap();
    bob.process_invite(invite).unwrap();

    let members = bob.group_get_member_ids(&gid).unwrap();
    assert_eq!(members.len(), 2);
    assert!(members.contains(&"alice".to_string()));
    assert!(members.contains(&"bob".to_string()));

    // bob removes alice, resolving her leaf by credential
    let idx = bob.find_member_index(&gid, &"alice".to_string()).unwrap();
    let (fanned, _welcome) = bob.kick_member(&gid, idx).unwrap();

    // alice processes her own removal; her group goes inactive
    alice.process_message(fanned, Some("bob".to_string()), 3).unwrap();
    let refused = alice.create_message(&gid, "still there?".to_string());
    assert_eq!(refused.unwrap_err(), ConvoError::EngineFailure);

    // bob alone remains
    let members = bob.group_get_member_ids(&gid).unwrap();
    assert_eq!(members, vec!["bob".to_string()]);
}

#[test]
fn external_join_round_trip() {
    let mut alice = ConvoManager::init("alice".to_string()).unwrap();
    let mut bob = ConvoManager::init("bob".to_string()).unwrap();
    let mut david = ConvoManager::init("david".to_string()).unwrap();
    let gid = alice.create_group("g".to_string()).unwrap();
    let invite = alice.create_invite(&gid, bob.get_key_package().unwrap()).unwrap();
    alice.confirm_invite(&gid).unwrap();
    bob.process_invite(invite).unwrap();

    let epoch = bob.group_get_epoch(&gid).unwrap();
    let proposal = david.request_join(&gid, epoch).unwrap();

    // bob classifies the proposal, merges, and emits an invite for david
    let results = bob.process_message(proposal, Some("david".to_string()), 4).unwrap();
    assert!(results.message.is_none());
    let invite = results.invite.unwrap();
    assert_eq!(invite.sender_id, "bob");
    assert!(invite.fanned.is_none());

    david
        .process_raw_invite(
            invite.sender_id,
            invite.group_name,
            invite.welcome_message,
            invite.ratchet_tree,
            None,
        )
        .unwrap();

    // bob and david converge on the new epoch
    let eb = bob.group_get_epoch(&gid).unwrap();
    let ed = david.group_get_epoch(&gid).unwrap();
    assert_eq!(eb, ed);
    assert!(eb > epoch);

    // david speaks, bob decrypts
    let cipher = david.create_message(&gid, "hello".to_string()).unwrap();
    let r = bob.process_message(cipher, Some("david".to_string()), 5).unwrap();
    assert_eq!(r.message.as_deref(), Some("hello"));
}

#[test]
fn save_and_load_preserve_the_ratchet() {
    let mut alice = ConvoManager::init("alice".to_string()).unwrap();
    let mut bob = ConvoManager::init("bob".to_string()).unwrap();
    let gid = alice.create_group("g".to_string()).unwrap();
    let invite = alice.create_invite(&gid, bob.get_key_package().unwrap()).unwrap();
    alice.confirm_invite(&gid).unwrap();
    bob.process_invite(invite).unwrap();

    let cipher = bob.create_message(&gid, "before".to_string()).unwrap();
    alice.process_message(cipher, Some("bob".to_string()), 1).unwrap();

    // alice persists and a fresh engine takes over from the blob
    let blob = alice.save_state().unwrap();
    assert_eq!(blob.group_names, vec!["g".to_string()]);
    assert_eq!(blob.group_name_to_id[0].1, gid);
    let mut alice2 = ConvoManager::init("alice".to_string()).unwrap();
    alice2.load_state(blob).unwrap();

    // the reloaded engine decrypts what the original would have, and its
    // next encryption is readable by bob
    let cipher = bob.create_message(&gid, "during downtime".to_string()).unwrap();
    let r = alice2.process_message(cipher, Some("bob".to_string()), 2).unwrap();
    assert_eq!(r.message.as_deref(), Some("during downtime"));
    let cipher = alice2.create_message(&gid, "after reload".to_string()).unwrap();
    let r = bob.process_message(cipher, Some("alice".to_string()), 3).unwrap();
    assert_eq!(r.message.as_deref(), Some("after reload"));
}

#[test]
fn engine_error_paths() {
    let mut alice = ConvoManager::init("alice".to_string()).unwrap();
    let gid = alice.create_group("g".to_string()).unwrap();

    // a garbage key package is refused
    let bad_kp = alice.create_invite(&gid, vec![0, 1, 2, 3]);
    assert_eq!(bad_kp.unwrap_err(), ConvoError::KeyPackageInvalid);

    // a garbage frame cannot even be parsed
    let bad_frame = alice.process_message(vec![0, 1, 2, 3], None, 0);
    assert_eq!(bad_frame.unwrap_err(), ConvoError::DecryptFailed);

    // an unknown group is named
    let unknown = alice.create_message(&vec![9, 9, 9], "x".to_string());
    assert_eq!(unknown.unwrap_err(), ConvoError::GroupUnknown);

    // a garbage welcome is refused
    let mut bob = ConvoManager::init("bob".to_string()).unwrap();
    let bad_welcome = bob.process_raw_invite(
        "alice".to_string(),
        "g".to_string(),
        vec![0, 1, 2, 3],
        None,
        None,
    );
    assert_eq!(bad_welcome.unwrap_err(), ConvoError::WelcomeInvalid);

    // a valid welcome with a garbage ratchet tree is refused for the tree
    let bob_kp = bob.get_key_package().unwrap();
    let invite = alice.create_invite(&gid, bob_kp).unwrap();
    let bad_tree = bob.process_raw_invite(
        "alice".to_string(),
        "g".to_string(),
        invite.welcome_message,
        Some(vec![0xFF]),
        None,
    );
    assert_eq!(bad_tree.unwrap_err(), ConvoError::RatchetTreeInvalid);
}

#[test]
fn pending_invites_accept_and_reject() {
    let mut alice = ConvoManager::init("alice".to_string()).unwrap();
    let mut bob = ConvoManager::init("bob".to_string()).unwrap();
    let gid = alice.create_group("g".to_string()).unwrap();
    let invite = alice.create_invite(&gid, bob.get_key_package().unwrap()).unwrap();
    alice.confirm_invite(&gid).unwrap();
    let welcome = invite.welcome_message.clone();
    bob.pending_invites.push(invite);

    let missing = bob.accept_pending_invite(vec![0xFF]);
    assert_eq!(missing.unwrap_err(), ConvoError::InviteNotFound);
    assert_eq!(bob.pending_invites.len(), 1);

    let joined = bob.accept_pending_invite(welcome).unwrap();
    assert_eq!(joined, gid);
    assert!(bob.pending_invites.is_empty());

    // rejecting drops the matching invite and nothing else; this one is
    // addressed to a third engine and bob never accepts it
    let carol = ConvoManager::init("carol".to_string()).unwrap();
    let invite2 = alice.create_invite(&gid, carol.get_key_package().unwrap()).unwrap();
    alice.confirm_invite(&gid).unwrap();
    let welcome2 = invite2.welcome_message.clone();
    bob.pending_invites.push(invite2);
    bob.reject_pending_invite(vec![0xEE]);
    assert_eq!(bob.pending_invites.len(), 1);
    bob.reject_pending_invite(welcome2);
    assert!(bob.pending_invites.is_empty());
}

#[test]
fn group_lookup_by_member_set() {
    let mut alice = ConvoManager::init("alice".to_string()).unwrap();
    let mut bob = ConvoManager::init("bob".to_string()).unwrap();
    let gid = alice.create_group("g".to_string()).unwrap();
    let invite = alice.create_invite(&gid, bob.get_key_package().unwrap()).unwrap();
    alice.confirm_invite(&gid).unwrap();
    bob.process_invite(invite).unwrap();

    let found = alice
        .get_group_id_with_users(&vec!["alice".to_string(), "bob".to_string()])
        .unwrap();
    assert_eq!(found, gid);
    let none = alice.get_group_id_with_users(&vec!["alice".to_string(), "ghost".to_string()]);
    assert_eq!(none.unwrap_err(), ConvoError::GroupUnknown);
}

/// An admission is confirmed or cancelled as a unit: a cancelled invite
/// leaves the inviter's epoch untouched, and a confirmed one advances it.
#[test]
fn invite_confirm_and_cancel() {
    let mut alice = ConvoManager::init("alice".to_string()).unwrap();
    let mut bob = ConvoManager::init("bob".to_string()).unwrap();
    let gid = alice.create_group("g".to_string()).unwrap();
    let e0 = alice.group_get_epoch(&gid).unwrap();

    // the delivery is refused: the pending commit is discarded
    let _dead = alice.create_invite(&gid, bob.get_key_package().unwrap()).unwrap();
    alice.cancel_invite(&gid).unwrap();
    assert_eq!(alice.group_get_epoch(&gid).unwrap(), e0);

    // the delivery is acknowledged: the commit is merged and the join works
    let invite = alice.create_invite(&gid, bob.get_key_package().unwrap()).unwrap();
    alice.confirm_invite(&gid).unwrap();
    assert_eq!(alice.group_get_epoch(&gid).unwrap(), e0 + 1);
    bob.process_invite(invite).unwrap();
    let cipher = bob.create_message(&gid, "made it".to_string()).unwrap();
    let r = alice.process_message(cipher, Some("bob".to_string()), 1).unwrap();
    assert_eq!(r.message.as_deref(), Some("made it"));
}

/// A frame that parses but cannot be processed against the ratchet state
/// surfaces as a decrypt failure and leaves the transcript untouched.
#[test]
fn replayed_frame_is_a_decrypt_failure() {
    let mut alice = ConvoManager::init("alice".to_string()).unwrap();
    let mut bob = ConvoManager::init("bob".to_string()).unwrap();
    let gid = alice.create_group("g".to_string()).unwrap();
    let invite = alice.create_invite(&gid, bob.get_key_package().unwrap()).unwrap();
    alice.confirm_invite(&gid).unwrap();
    bob.process_invite(invite).unwrap();

    let cipher = bob.create_message(&gid, "once".to_string()).unwrap();
    alice.process_message(cipher.clone(), Some("bob".to_string()), 1).unwrap();
    let replay = alice.process_message(cipher, Some("bob".to_string()), 2);
    assert_eq!(replay.unwrap_err(), ConvoError::DecryptFailed);
    let transcript = &alice.groups.iter().find(|g| g.id == gid).unwrap().decrypted;
    assert_eq!(transcript.len(), 1);
}

/// One undecryptable payload in a polled batch is dropped; the rest of the
/// batch, invites included, still lands.
#[test]
fn batch_drops_undecryptable_frames() {
    let mut alice = ConvoManager::init("alice".to_string()).unwrap();
    let mut bob = ConvoManager::init("bob".to_string()).unwrap();
    let gid = alice.create_group("g".to_string()).unwrap();
    let invite = alice.create_invite(&gid, bob.get_key_package().unwrap()).unwrap();
    alice.confirm_invite(&gid).unwrap();

    let batch = vec![
        ConvoMessage {
            global_index: 1,
            sender_id: "mallory".to_string(),
            unix_timestamp: 0,
            message: Some(vec![0, 1, 2, 3]),
            invite: None,
        },
        ConvoMessage {
            global_index: 2,
            sender_id: "alice".to_string(),
            unix_timestamp: 0,
            message: None,
            invite: Some(ConvoInvite {
                sender_id: "alice".to_string(),
                group_name: invite.group_name.clone(),
                welcome_message: invite.welcome_message.clone(),
                ratchet_tree: invite.ratchet_tree.clone(),
                global_index: invite.global_index,
                fanned: None,
            }),
        },
    ];
    bob.process_convo_messages(batch, None, 5).unwrap();
    assert_eq!(bob.pending_invites.len(), 1);
    bob.accept_current_invites().unwrap();
    assert!(bob.groups.iter().any(|g| g.id == gid));
}
