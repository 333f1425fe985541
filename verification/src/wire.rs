//! Transfer shapes for foreign-function and storage boundaries: flat copies
//! of the core types in which binary Welcome payloads travel as URL-safe
//! base64 text, so that a host language or a JSON body can carry them.

use vstd::prelude::*;

use crate::manager::{LocalGroup, ProcessedResults, SerializedCredentials};
use crate::types::{clone_bytes, ConvoError, ConvoInvite, ConvoMessage, MessageItem};
use crate::utils::{b64_decoded, b64_of, BufferConverter};

verus! {

/// A [`ConvoInvite`] with the Welcome encoded as base64 text.
#[derive(Debug, Clone)]
pub struct ConvoInviteWrapper {
    pub group_name: String,
    pub welcome_message: String,
    pub ratchet_tree: Option<Vec<u8>>,
    pub global_index: u64,
    pub fanned: Option<Vec<u8>>,
}

impl ConvoInviteWrapper {
    /// Encode an invite for transfer; only the Welcome changes shape.
    pub fn from(invite: ConvoInvite) -> (r: ConvoInviteWrapper)
        ensures
            r.group_name@ == invite.group_name@,
            r.welcome_message@ == b64_of(invite.welcome_message@),
            b64_decoded(r.welcome_message@) == Some(invite.welcome_message@),
            r.ratchet_tree.deep_view() == invite.ratchet_tree.deep_view(),
            r.global_index == invite.global_index,
            r.fanned.deep_view() == invite.fanned.deep_view(),
    {
        ConvoInviteWrapper {
            group_name: invite.group_name,
            welcome_message: BufferConverter::to_base64(&invite.welcome_message),
            ratchet_tree: invite.ratchet_tree,
            global_index: invite.global_index,
            fanned: invite.fanned,
        }
    }

    /// Decode a transferred invite back to its binary form; refused when
    /// the Welcome text is not valid base64. The sender is not carried by
    /// the transfer shape and is supplied by the caller.
    pub fn into_invite(self, sender_id: String) -> (r: Result<ConvoInvite, ConvoError>)
        ensures
            r is Ok <==> b64_decoded(self.welcome_message@) is Some,
            r matches Err(e) ==> e == ConvoError::StateMalformed,
            r matches Ok(inv) ==> {
                &&& inv.sender_id@ == sender_id@
                &&& inv.group_name@ == self.group_name@
                &&& Some(inv.welcome_message@) == b64_decoded(self.welcome_message@)
                &&& inv.ratchet_tree.deep_view() == self.ratchet_tree.deep_view()
                &&& inv.global_index == self.global_index
                &&& inv.fanned.deep_view() == self.fanned.deep_view()
            },
    {
        let welcome_message = match BufferConverter::from_base64(&self.welcome_message) {
            Some(b) => b,
            None => {
                return Err(ConvoError::StateMalformed);
            },
        };
        Ok(
            ConvoInvite {
                sender_id,
                group_name: self.group_name,
                welcome_message,
                ratchet_tree: self.ratchet_tree,
                global_index: self.global_index,
                fanned: self.fanned,
            },
        )
    }
}

/// A [`ProcessedResults`] whose invite is in transfer shape.
pub struct ProcessedResultsWrapper {
    pub message: Option<String>,
    pub invite: Option<ConvoInviteWrapper>,
}

impl ProcessedResultsWrapper {
    /// Encode a processing outcome for transfer.
    pub fn from(results: ProcessedResults) -> (r: ProcessedResultsWrapper)
        ensures
            r.message.deep_view() == results.message.deep_view(),
            r.invite is Some <==> results.invite is Some,
    {
        ProcessedResultsWrapper {
            message: results.message,
            invite: match results.invite {
                Some(inv) => Some(ConvoInviteWrapper::from(inv)),
                None => None,
            },
        }
    }
}

/// A transcript line in transfer shape; the fields match [`MessageItem`].
#[derive(Debug, Clone)]
pub struct MessageItemWrapper {
    pub text: String,
    pub sender_id: String,
    pub timestamp: u64,
}

impl MessageItemWrapper {
    /// Copy a transcript line into transfer shape.
    pub fn from(item: &MessageItem) -> (r: MessageItemWrapper)
        ensures
            r.text@ == item.text@,
            r.sender_id@ == item.sender_id@,
            r.timestamp == item.timestamp,
    {
        MessageItemWrapper {
            text: item.text.clone(),
            sender_id: item.sender_id.clone(),
            timestamp: item.timestamp,
        }
    }
}

/// A local group's visible side in transfer shape: the name, the mirrored
/// index and the transcript, without the cryptographic state.
pub struct LocalGroupWrapper {
    pub name: String,
    pub global_index: u64,
    pub decrypted: Vec<MessageItemWrapper>,
}

impl LocalGroupWrapper {
    /// Copy the visible side of a group into transfer shape.
    pub fn from(group: &LocalGroup) -> (r: LocalGroupWrapper)
        ensures
            r.name@ == group.name@,
            r.global_index == group.global_index,
            r.decrypted@.len() == group.decrypted@.len(),
            forall|k: int|
                0 <= k < group.decrypted@.len() ==> (#[trigger] r.decrypted@[k]).text@
                    == group.decrypted@[k].text@ && r.decrypted@[k].sender_id@
                    == group.decrypted@[k].sender_id@ && r.decrypted@[k].timestamp
                    == group.decrypted@[k].timestamp,
    {
        let mut decrypted: Vec<MessageItemWrapper> = Vec::new();
        let n = group.decrypted.len();
        for i in 0..n
            invariant
                n == group.decrypted@.len(),
                decrypted@.len() == i,
                forall|k: int|
                    0 <= k < i ==> (#[trigger] decrypted@[k]).text@ == group.decrypted@[k].text@
                        && decrypted@[k].sender_id@ == group.decrypted@[k].sender_id@
                        && decrypted@[k].timestamp == group.decrypted@[k].timestamp,
        {
            decrypted.push(MessageItemWrapper::from(&group.decrypted[i]));
        }
        LocalGroupWrapper { name: group.name.clone(), global_index: group.global_index, decrypted }
    }
}

/// Persisted engine state in transfer shape; the fields match
/// [`SerializedCredentials`].
#[derive(Debug, Clone)]
pub struct SerializedCredentialsWrapper {
    pub signer: Vec<u8>,
    pub storage: Vec<(String, Vec<u8>)>,
    pub group_names: Vec<String>,
    pub group_name_to_id: Vec<(String, Vec<u8>)>,
    pub serialized_credential_with_key: Vec<u8>,
}

impl SerializedCredentialsWrapper {
    /// Move persisted state into transfer shape; nothing changes value.
    pub fn from(state: SerializedCredentials) -> (r: SerializedCredentialsWrapper)
        ensures
            r.signer == state.signer,
            r.storage == state.storage,
            r.group_names == state.group_names,
            r.group_name_to_id == state.group_name_to_id,
            r.serialized_credential_with_key == state.serialized_credential_with_key,
    {
        SerializedCredentialsWrapper {
            signer: state.signer,
            storage: state.storage,
            group_names: state.group_names,
            group_name_to_id: state.group_name_to_id,
            serialized_credential_with_key: state.serialized_credential_with_key,
        }
    }

    /// Move transferred state back; nothing changes value.
    pub fn into_credentials(self) -> (r: SerializedCredentials)
        ensures
            r.signer == self.signer,
            r.storage == self.storage,
            r.group_names == self.group_names,
            r.group_name_to_id == self.group_name_to_id,
            r.serialized_credential_with_key == self.serialized_credential_with_key,
    {
        SerializedCredentials {
            signer: self.signer,
            storage: self.storage,
            group_names: self.group_names,
            group_name_to_id: self.group_name_to_id,
            serialized_credential_with_key: self.serialized_credential_with_key,
        }
    }
}

/// A delivery unit in transfer shape: the opaque payload travels as-is, the
/// invite in transfer shape; the server-attributed sender is not carried.
pub struct ConvoMessageWrapper {
    pub global_index: u64,
    pub unix_timestamp: u64,
    pub encrypted: Option<Vec<u8>>,
    pub invite: Option<ConvoInviteWrapper>,
}

impl ConvoMessageWrapper {
    /// Encode a delivery unit for transfer.
    pub fn from(message: ConvoMessage) -> (r: ConvoMessageWrapper)
        ensures
            r.global_index == message.global_index,
            r.unix_timestamp == message.unix_timestamp,
            r.encrypted.deep_view() == message.message.deep_view(),
            r.invite is Some <==> message.invite is Some,
    {
        ConvoMessageWrapper {
            global_index: message.global_index,
            unix_timestamp: message.unix_timestamp,
            encrypted: message.message,
            invite: match message.invite {
                Some(inv) => Some(ConvoInviteWrapper::from(inv)),
                None => None,
            },
        }
    }
}

/// One chat as a host UI lists it: identity, name, unread count, index,
/// members, and the transcript in transfer shape.
pub struct ConvoChatWrapper {
    pub id: Vec<u8>,
    pub name: String,
    pub last_message: Option<String>,
    pub unread_messages: u64,
    pub global_index: u64,
    pub members: Vec<String>,
    pub decrypted: Vec<MessageItemWrapper>,
}

impl ConvoChatWrapper {
    /// Summarize a local group for a host UI, with the member list the
    /// engine reported and a caller-tracked unread count.
    pub fn from(group: &LocalGroup, members: Vec<String>, unread_messages: u64) -> (r:
        ConvoChatWrapper)
        ensures
            r.id@ == group.id@,
            r.name@ == group.name@,
            r.global_index == group.global_index,
            r.unread_messages == unread_messages,
            r.members == members,
            r.decrypted@.len() == group.decrypted@.len(),
            r.last_message is Some <==> group.decrypted@.len() > 0,
            r.last_message matches Some(t) ==> t@ == group.decrypted@.last().text@,
    {
        let summary = LocalGroupWrapper::from(group);
        let last_message = if group.decrypted.len() > 0 {
            Some(group.decrypted[group.decrypted.len() - 1].text.clone())
        } else {
            None
        };
        ConvoChatWrapper {
            id: clone_bytes(&group.id),
            name: summary.name,
            last_message,
            unread_messages,
            global_index: group.global_index,
            members,
            decrypted: summary.decrypted,
        }
    }
}

} // verus!
