//! The server's request shapes: one plain struct per endpoint, and one
//! handler per endpoint that unpacks the request and drives the ledger.
//! The transport that carries these (HTTP, JSON, base64) is outside the
//! library; it hands over plain values and takes plain values back.

use vstd::prelude::*;

use crate::server::{group_of, group_pos, has_group, has_mailbox, has_user, mailbox_msgs, msgs_dv,
    poll_view, user_pos, ConvoServer};
use crate::types::{ConvoError, ConvoMessage, ConvoUser, ConvoUserView};

verus! {

/// Body of a connect request.
#[derive(Debug, Clone)]
pub struct User {
    pub name: String,
    pub user_id: String,
    pub serialized_key_package: Vec<u8>,
}

/// Body of a send-message request.
#[derive(Debug)]
pub struct SendMessage {
    pub group_id: Vec<u8>,
    pub message: Vec<u8>,
    pub sender_id: String,
    pub global_index: u64,
}

/// Body of a create-group request.
#[derive(Debug)]
pub struct CreateGroup {
    pub group_id: Vec<u8>,
    pub group_name: String,
    pub sender_id: String,
}

/// Body of a poll request.
#[derive(Debug)]
pub struct GetMessages {
    pub group_id: Option<Vec<u8>>,
    pub sender_id: String,
    pub index: u64,
}

/// Body of an invite request.
#[derive(Debug)]
pub struct InviteUser {
    pub group_id: Vec<u8>,
    pub sender_id: String,
    pub receiver_id: String,
    pub welcome_message: Vec<u8>,
    pub ratchet_tree: Vec<u8>,
    pub fanned: Option<Vec<u8>>,
}

/// Body of an accept-invite request.
#[derive(Debug)]
pub struct AcceptInvite {
    pub group_id: Vec<u8>,
    pub sender_id: String,
}

/// Body of a group-index request.
#[derive(Debug)]
pub struct GetGroupInfo {
    pub group_id: Vec<u8>,
    pub sender_id: String,
}

/// Register or refresh the calling user's record at time `now`.
pub fn connect(server: &mut ConvoServer, user: User, now: u64) -> (r: Result<(), ConvoError>)
    requires
        old(server).wf(),
    ensures
        final(server).wf(),
        r is Ok,
        final(server).groups == old(server).groups,
        final(server).user_specific_messages == old(server).user_specific_messages,
        ({
            let uv = ConvoUserView {
                name: user.name@,
                user_id: user.user_id@,
                serialized_key_package: user.serialized_key_package@,
                last_active: now,
            };
            if has_user(old(server).users@, user.user_id@) {
                final(server).users.deep_view() == old(server).users.deep_view().update(
                    user_pos(old(server).users@, user.user_id@),
                    uv,
                )
            } else {
                final(server).users.deep_view() == old(server).users.deep_view().push(uv)
            }
        }),
{
    server.client_connect(user.user_id, user.name, user.serialized_key_package, now)
}

/// A snapshot of the registered users.
pub fn list_users(server: &ConvoServer) -> (r: Vec<ConvoUser>)
    ensures
        r.deep_view() == server.users.deep_view(),
{
    server.client_list_users()
}

/// Append one application message at the sender's expected index.
pub fn send_message(server: &mut ConvoServer, data: SendMessage, now: u64) -> (r: Result<
    (),
    ConvoError,
>)
    requires
        old(server).wf(),
    ensures
        final(server).wf(),
        !has_group(old(server).groups@, data.group_id@) ==> (r matches Err(e) && e
            == ConvoError::GroupUnknown),
        has_group(old(server).groups@, data.group_id@) ==> {
            let cur = group_of(old(server).groups@, data.group_id@).global_index;
            &&& (r is Ok <==> data.global_index == cur as int + 1)
            &&& (data.global_index > cur as int + 1 ==> (r matches Err(e) && e
                == ConvoError::IndexAhead))
            &&& (data.global_index <= cur ==> (r matches Err(e) && e == ConvoError::IndexStale))
        },
        r is Err ==> *final(server) == *old(server),
        r is Ok ==> {
            let g = group_pos(old(server).groups@, data.group_id@);
            let og = group_of(old(server).groups@, data.group_id@);
            &&& final(server).groups@ =~= old(server).groups@.update(g, final(server).groups@[g])
            &&& final(server).groups@[g].global_index == og.global_index + 1
            &&& final(server).groups@[g].messages@.drop_last() == og.messages@
            &&& final(server).groups@[g].messages@.last()@.sender_id == data.sender_id@
            &&& final(server).groups@[g].messages@.last()@.message == Some(data.message@)
            &&& final(server).groups@[g].messages@.last()@.global_index == og.global_index + 1
            &&& final(server).users == old(server).users
            &&& final(server).user_specific_messages == old(server).user_specific_messages
        },
{
    server.client_send_message(data.group_id, data.sender_id, data.message, data.global_index, now)
}

/// Register a new group.
pub fn create_group(server: &mut ConvoServer, data: CreateGroup) -> (r: Result<(), ConvoError>)
    requires
        old(server).wf(),
    ensures
        final(server).wf(),
        r is Ok <==> !has_group(old(server).groups@, data.group_id@),
        r matches Err(e) ==> e == ConvoError::GroupExists && *final(server) == *old(server),
        r is Ok ==> {
            &&& final(server).groups@.len() == old(server).groups@.len() + 1
            &&& final(server).groups@.last().group_id@ == data.group_id@
            &&& final(server).groups@.last().group_name@ == data.group_name@
            &&& final(server).groups@.last().global_index == 0
            &&& final(server).groups@.last().user_ids@.len() == 1
            &&& final(server).groups@.last().user_ids@[0]@ == data.sender_id@
            &&& final(server).groups@.last().messages@.len() == 0
            &&& final(server).groups@.drop_last() == old(server).groups@
            &&& final(server).users == old(server).users
            &&& final(server).user_specific_messages == old(server).user_specific_messages
        },
{
    server.client_create_group(data.group_id, data.group_name, data.sender_id)
}

/// Poll: ledger entries past the caller's index, then the caller's mailbox,
/// which is drained.
pub fn get_new_messages(server: &mut ConvoServer, data: GetMessages, now: u64) -> (r: Result<
    Vec<ConvoMessage>,
    ConvoError,
>)
    requires
        old(server).wf(),
    ensures
        final(server).wf(),
        r is Ok,
        r matches Ok(v) ==> v.deep_view() == msgs_dv(
            poll_view(
                old(server).groups@,
                old(server).user_specific_messages@,
                data.group_id.deep_view(),
                data.sender_id@,
                data.index,
            ),
        ),
        !has_mailbox(final(server).user_specific_messages@, data.sender_id@),
        forall|u: Seq<char>|
            u != data.sender_id@ ==> #[trigger] mailbox_msgs(
                final(server).user_specific_messages@,
                u,
            ) == mailbox_msgs(old(server).user_specific_messages@, u),
        final(server).groups == old(server).groups,
{
    server.client_get_new_messages(data.group_id, data.sender_id, data.index, now)
}

/// File an invite: ledger the fanned commit, queue the Welcome envelope for
/// the receiver alone.
pub fn invite_user(server: &mut ConvoServer, data: InviteUser, now: u64) -> (r: Result<
    (),
    ConvoError,
>)
    requires
        old(server).wf(),
    ensures
        final(server).wf(),
        r is Ok <==> (has_group(old(server).groups@, data.group_id@) && !(data.fanned is Some
            && group_of(old(server).groups@, data.group_id@).global_index == u64::MAX)),
        r is Err ==> *final(server) == *old(server),
        r is Ok ==> {
            let og = group_of(old(server).groups@, data.group_id@);
            let idx = if data.fanned is Some {
                (og.global_index + 1) as u64
            } else {
                og.global_index
            };
            &&& msgs_dv(
                mailbox_msgs(final(server).user_specific_messages@, data.receiver_id@),
            ).len() == msgs_dv(
                mailbox_msgs(old(server).user_specific_messages@, data.receiver_id@),
            ).len() + 1
            &&& final(server).users == old(server).users
            &&& forall|u: Seq<char>|
                u != data.receiver_id@ ==> #[trigger] mailbox_msgs(
                    final(server).user_specific_messages@,
                    u,
                ) == mailbox_msgs(old(server).user_specific_messages@, u)
        },
{
    server.client_invite_user(
        data.group_id,
        data.sender_id,
        data.receiver_id,
        data.welcome_message,
        data.ratchet_tree,
        data.fanned,
        now,
    )
}

/// Record an acceptance: the caller joins the member list and their mailbox
/// is dropped.
pub fn accept_invite(server: &mut ConvoServer, data: AcceptInvite) -> (r: Result<(), ConvoError>)
    requires
        old(server).wf(),
    ensures
        final(server).wf(),
        r is Ok <==> has_group(old(server).groups@, data.group_id@),
        r matches Err(e) ==> e == ConvoError::GroupUnknown && *final(server) == *old(server),
        r is Ok ==> {
            let g = group_pos(old(server).groups@, data.group_id@);
            let og = group_of(old(server).groups@, data.group_id@);
            &&& final(server).groups@ =~= old(server).groups@.update(g, final(server).groups@[g])
            &&& final(server).groups@[g].user_ids@ =~= og.user_ids@.push(data.sender_id)
            &&& final(server).groups@[g].messages == og.messages
            &&& !has_mailbox(final(server).user_specific_messages@, data.sender_id@)
        },
{
    server.client_accept_invite(data.group_id, data.sender_id)
}

/// The named group's current index.
pub fn group_index(server: &ConvoServer, data: GetGroupInfo) -> (r: Result<u64, ConvoError>)
    requires
        server.wf(),
    ensures
        r is Ok <==> has_group(server.groups@, data.group_id@),
        r matches Ok(idx) ==> idx == group_of(server.groups@, data.group_id@).global_index,
        r matches Err(e) ==> e == ConvoError::GroupUnknown,
{
    server.client_get_group_index(data.group_id, data.sender_id)
}

} // verus!
