//! The codecs at the edges: base64 for persisted keys, UTF-8 for decrypted
//! payloads, and the transfer shapes.

use skychat::manager::{encode_storage, decode_storage, storage_codec_round_trip,
    SerializedCredentials};
use skychat::settings::{SerializedSettings, Settings};
use skychat::types::{ConvoError, ConvoInvite};
use skychat::utils::{current_timestamp, utf8_to_string, BufferConverter};
use skychat::wire::{ConvoInviteWrapper, SerializedCredentialsWrapper};

#[test]
fn base64_is_url_safe_with_padding() {
    // exact expected values pin the alphabet and the padding
    assert_eq!(BufferConverter::to_base64(&b"hi".to_vec()), "aGk=");
    assert_eq!(BufferConverter::to_base64(&b"hello".to_vec()), "aGVsbG8=");
    assert_eq!(BufferConverter::to_base64(&vec![0xFB, 0xFF]), "-_8=");
    assert_eq!(BufferConverter::to_base64(&Vec::new()), "");
}

#[test]
fn base64_round_trips_and_rejects_junk() {
    let bytes = vec![0u8, 1, 2, 250, 251, 252, 253, 254, 255];
    let text = BufferConverter::to_base64(&bytes);
    assert_ne!(text.as_bytes(), &bytes[..]);
    assert_eq!(BufferConverter::from_base64(&text).unwrap(), bytes);
    assert!(BufferConverter::from_base64(&"!!!not base64!!!".to_string()).is_none());
    // the standard alphabet's '+' is not part of the URL-safe one
    assert!(BufferConverter::from_base64(&"a+b=".to_string()).is_none());
}

#[test]
fn utf8_decoding_is_exact() {
    assert_eq!(
        utf8_to_string("grüße".as_bytes().to_vec()).unwrap(),
        "grüße"
    );
    assert!(utf8_to_string(vec![0xFF, 0xFE]).is_none());
}

#[test]
fn storage_codec_round_trips() {
    let entries = vec![
        (vec![1u8, 2, 3], vec![4u8, 5]),
        (Vec::new(), vec![9u8]),
        (vec![0xFF, 0x00], Vec::new()),
    ];
    let encoded = encode_storage(&entries);
    assert_eq!(encoded.len(), 3);
    // keys are text, not the raw bytes
    assert_eq!(encoded[0].0, "AQID");
    let decoded = decode_storage(&encoded).unwrap();
    assert_eq!(decoded, entries);
    let round = storage_codec_round_trip(&entries);
    assert_eq!(round, entries);
}

#[test]
fn storage_decode_refuses_bad_keys() {
    let pairs = vec![("???".to_string(), vec![1u8])];
    assert_eq!(decode_storage(&pairs).unwrap_err(), ConvoError::StateMalformed);
}

#[test]
fn load_state_refuses_malformed_blobs() {
    let mut engine = skychat::manager::ConvoManager::init("x".to_string()).unwrap();
    let blob = SerializedCredentials {
        signer: vec![1, 2, 3],
        serialized_credential_with_key: vec![4, 5, 6],
        storage: vec![("???".to_string(), vec![7u8])],
        group_names: Vec::new(),
        group_name_to_id: Vec::new(),
    };
    assert_eq!(engine.load_state(blob).unwrap_err(), ConvoError::StateMalformed);
}

#[test]
fn invite_wrapper_round_trips() {
    let invite = ConvoInvite {
        sender_id: "alice".to_string(),
        group_name: "g".to_string(),
        welcome_message: vec![1, 2, 3],
        ratchet_tree: Some(vec![4, 5]),
        global_index: 7,
        fanned: None,
    };
    let wrapper = ConvoInviteWrapper::from(invite);
    // the welcome travels as text; it is no longer the raw bytes
    assert_eq!(wrapper.welcome_message, "AQID");
    assert_eq!(wrapper.group_name, "g");
    assert_eq!(wrapper.global_index, 7);
    let back = wrapper.into_invite("alice".to_string()).unwrap();
    assert_eq!(back.welcome_message, vec![1, 2, 3]);
    assert_eq!(back.ratchet_tree, Some(vec![4, 5]));
    assert_eq!(back.fanned, None);

    let bad = ConvoInviteWrapper {
        group_name: "g".to_string(),
        welcome_message: "***".to_string(),
        ratchet_tree: None,
        global_index: 0,
        fanned: None,
    };
    assert_eq!(
        bad.into_invite("x".to_string()).unwrap_err(),
        ConvoError::StateMalformed
    );
}

#[test]
fn credentials_wrapper_is_lossless() {
    let state = SerializedCredentials {
        signer: vec![1],
        serialized_credential_with_key: vec![2],
        storage: vec![("aGk=".to_string(), vec![3])],
        group_names: vec!["g".to_string()],
        group_name_to_id: vec![("g".to_string(), vec![4])],
    };
    let wrapper = SerializedCredentialsWrapper::from(state);
    let back = wrapper.into_credentials();
    assert_eq!(back.signer, vec![1]);
    assert_eq!(back.serialized_credential_with_key, vec![2]);
    assert_eq!(back.storage, vec![("aGk=".to_string(), vec![3])]);
    assert_eq!(back.group_names, vec!["g".to_string()]);
    assert_eq!(back.group_name_to_id, vec![("g".to_string(), vec![4])]);
}

#[test]
fn settings_round_trip() {
    let s = Settings {
        name: "alice".to_string(),
        server_ip: "https://example.test:8888".to_string(),
    };
    let stored = s.to_serialized();
    assert_eq!(stored.name, "alice");
    assert_eq!(stored.server_address, "https://example.test:8888");
    let live = stored.to_settings();
    assert_eq!(live.name, "alice");
    assert_eq!(live.server_ip, "https://example.test:8888");
    let direct = SerializedSettings {
        name: "n".to_string(),
        server_address: "a".to_string(),
    };
    assert_eq!(direct.to_settings().server_ip, "a");
}

#[test]
fn clock_reads_something_recent() {
    let t = current_timestamp();
    // after 2020, before 2100
    assert!(t > 1_577_836_800);
    assert!(t < 4_102_444_800);
}
