//! The server-side group ledger: an authoritative, append-only, per-group
//! message log with a strictly monotonic index, per-receiver mailboxes for
//! Welcomes, and the registry of connected users.

use vstd::prelude::*;

use crate::types::{ConvoError, ConvoInvite, ConvoInviteView, ConvoMessage, ConvoMessageView,
    ConvoUser, ConvoUserView};

verus! {

/// Seconds of inactivity after which a user record is evicted.
pub const USER_TIMEOUT_SECS: u64 = 30;

/// A group as the server sees it: the ledger and its members.
#[derive(Debug, Clone)]
pub struct ConvoGroup {
    pub group_id: Vec<u8>,
    pub group_name: String,
    pub global_index: u64,
    pub user_ids: Vec<String>,
    pub messages: Vec<ConvoMessage>,
}

impl ConvoGroup {
    /// The ledger invariant: the index mirrors the ledger length and every
    /// entry carries the index of its own position, counted from 1.
    pub open spec fn wf(self) -> bool {
        &&& self.global_index as nat == self.messages@.len()
        &&& forall|k: int|
            0 <= k < self.messages@.len() ==> (#[trigger] self.messages@[k]).global_index as nat
                == k + 1
    }
}

/// The queue of envelopes waiting for one receiver's next poll.
#[derive(Debug, Clone)]
pub struct Mailbox {
    pub user_id: String,
    pub messages: Vec<ConvoMessage>,
}

/// The whole server state: users, groups, and per-receiver mailboxes.
#[derive(Debug)]
pub struct ConvoServer {
    pub users: Vec<ConvoUser>,
    pub groups: Vec<ConvoGroup>,
    pub user_specific_messages: Vec<Mailbox>,
}

/// Whether `uid` names one of the registered users.
pub open spec fn has_user(users: Seq<ConvoUser>, uid: Seq<char>) -> bool {
    exists|i: int| 0 <= i < users.len() && (#[trigger] users[i]).user_id@ == uid
}

/// Whether `gid` names one of the registered groups.
pub open spec fn has_group(groups: Seq<ConvoGroup>, gid: Seq<u8>) -> bool {
    exists|i: int| 0 <= i < groups.len() && (#[trigger] groups[i]).group_id@ == gid
}

/// The position of the group named `gid`, unique under [`ConvoServer::wf`].
pub open spec fn group_pos(groups: Seq<ConvoGroup>, gid: Seq<u8>) -> int {
    choose|i: int| 0 <= i < groups.len() && (#[trigger] groups[i]).group_id@ == gid
}

/// The group named `gid`.
pub open spec fn group_of(groups: Seq<ConvoGroup>, gid: Seq<u8>) -> ConvoGroup {
    groups[group_pos(groups, gid)]
}

/// Whether a mailbox exists for `uid`.
pub open spec fn has_mailbox(boxes: Seq<Mailbox>, uid: Seq<char>) -> bool {
    exists|i: int| 0 <= i < boxes.len() && (#[trigger] boxes[i]).user_id@ == uid
}

/// The position of `uid`'s mailbox, unique under [`ConvoServer::wf`].
pub open spec fn mailbox_pos(boxes: Seq<Mailbox>, uid: Seq<char>) -> int {
    choose|i: int| 0 <= i < boxes.len() && (#[trigger] boxes[i]).user_id@ == uid
}

/// Everything queued for `uid`: the mailbox contents, or empty if none exists.
pub open spec fn mailbox_msgs(boxes: Seq<Mailbox>, uid: Seq<char>) -> Seq<ConvoMessage> {
    if has_mailbox(boxes, uid) {
        boxes[mailbox_pos(boxes, uid)].messages@
    } else {
        Seq::empty()
    }
}

/// The position of the user named `uid`, unique under [`ConvoServer::wf`].
pub open spec fn user_pos(users: Seq<ConvoUser>, uid: Seq<char>) -> int {
    choose|i: int| 0 <= i < users.len() && (#[trigger] users[i]).user_id@ == uid
}

/// The ledger suffix a poll returns: every entry whose index exceeds `since`.
/// Under [`ConvoGroup::wf`] the entry at position `k` carries index `k + 1`,
/// so those entries are exactly the suffix starting at position `since`.
pub open spec fn ledger_suffix(msgs: Seq<ConvoMessage>, since: u64) -> Seq<ConvoMessage> {
    if since as nat <= msgs.len() {
        msgs.skip(since as int)
    } else {
        Seq::empty()
    }
}

/// The sequence of mathematical images of a sequence of delivery units.
pub open spec fn msgs_dv(s: Seq<ConvoMessage>) -> Seq<ConvoMessageView> {
    s.map_values(|m: ConvoMessage| m@)
}

/// The ledger portion of a poll: the named group's entries past `since`.
pub open spec fn ledger_part(groups: Seq<ConvoGroup>, gid: Option<Seq<u8>>, since: u64) -> Seq<
    ConvoMessage,
> {
    match gid {
        Some(g) => if has_group(groups, g) {
            ledger_suffix(group_of(groups, g).messages@, since)
        } else {
            Seq::empty()
        },
        None => Seq::empty(),
    }
}

/// What a poll returns, as a function of the state it reads: the named
/// group's ledger entries past `since`, then everything in `uid`'s mailbox.
pub open spec fn poll_view(
    groups: Seq<ConvoGroup>,
    boxes: Seq<Mailbox>,
    gid: Option<Seq<u8>>,
    uid: Seq<char>,
    since: u64,
) -> Seq<ConvoMessage> {
    ledger_part(groups, gid, since) + mailbox_msgs(boxes, uid)
}

impl ConvoServer {
    /// The server invariant: every group ledger is well formed, and group
    /// ids, user ids and mailbox keys are each unique.
    pub open spec fn wf(self) -> bool {
        &&& forall|i: int| 0 <= i < self.groups@.len() ==> (#[trigger] self.groups@[i]).wf()
        &&& forall|i: int, j: int|
            0 <= i < j < self.groups@.len() ==> (#[trigger] self.groups@[i]).group_id@ != (
            #[trigger] self.groups@[j]).group_id@
        &&& forall|i: int, j: int|
            0 <= i < j < self.users@.len() ==> (#[trigger] self.users@[i]).user_id@ != (
            #[trigger] self.users@[j]).user_id@
        &&& forall|i: int, j: int|
            0 <= i < j < self.user_specific_messages@.len() ==> (
            #[trigger] self.user_specific_messages@[i]).user_id@ != (
            #[trigger] self.user_specific_messages@[j]).user_id@
    }

    /// A fresh server: no users, no groups, no mailboxes.
    pub fn new() -> (r: ConvoServer)
        ensures
            r.wf(),
            r.users@.len() == 0,
            r.groups@.len() == 0,
            r.user_specific_messages@.len() == 0,
    {
        ConvoServer { users: Vec::new(), groups: Vec::new(), user_specific_messages: Vec::new() }
    }

    /// Position of the group with the given id, if any.
    fn find_group(&self, group_id: &Vec<u8>) -> (r: Option<usize>)
        ensures
            match r {
                Some(i) => i < self.groups@.len() && self.groups@[i as int].group_id@ == group_id@,
                None => !has_group(self.groups@, group_id@),
            },
    {
        let n = self.groups.len();
        for i in 0..n
            invariant
                n == self.groups@.len(),
                forall|k: int| 0 <= k < i ==> (#[trigger] self.groups@[k]).group_id@ != group_id@,
        {
            if self.groups[i].group_id == *group_id {
                return Some(i);
            }
        }
        None
    }

    /// Position of the user with the given id, if any.
    fn find_user(&self, user_id: &String) -> (r: Option<usize>)
        ensures
            match r {
                Some(i) => i < self.users@.len() && self.users@[i as int].user_id@ == user_id@,
                None => !has_user(self.users@, user_id@),
            },
    {
        let n = self.users.len();
        for i in 0..n
            invariant
                n == self.users@.len(),
                forall|k: int| 0 <= k < i ==> (#[trigger] self.users@[k]).user_id@ != user_id@,
        {
            if self.users[i].user_id == *user_id {
                return Some(i);
            }
        }
        None
    }

    /// Position of the mailbox with the given key, if any.
    fn find_mailbox(&self, user_id: &String) -> (r: Option<usize>)
        ensures
            match r {
                Some(i) => i < self.user_specific_messages@.len()
                    && self.user_specific_messages@[i as int].user_id@ == user_id@,
                None => !has_mailbox(self.user_specific_messages@, user_id@),
            },
    {
        let n = self.user_specific_messages.len();
        for i in 0..n
            invariant
                n == self.user_specific_messages@.len(),
                forall|k: int|
                    0 <= k < i ==> (#[trigger] self.user_specific_messages@[k]).user_id@
                        != user_id@,
        {
            if self.user_specific_messages[i].user_id == *user_id {
                return Some(i);
            }
        }
        None
    }

    /// Register a group under a fresh id, with the creator as its only
    /// member and an empty ledger. Refused when the id is already taken.
    pub fn client_create_group(
        &mut self,
        group_id: Vec<u8>,
        group_name: String,
        sender_id: String,
    ) -> (r: Result<(), ConvoError>)
        requires
            old(self).wf(),
        ensures
            final(self).wf(),
            r is Ok <==> !has_group(old(self).groups@, group_id@),
            r matches Err(e) ==> e == ConvoError::GroupExists && *final(self) == *old(self),
            r is Ok ==> {
                &&& final(self).groups@.len() == old(self).groups@.len() + 1
                &&& final(self).groups@.last().group_id@ == group_id@
                &&& final(self).groups@.last().group_name@ == group_name@
                &&& final(self).groups@.last().global_index == 0
                &&& final(self).groups@.last().user_ids@.len() == 1
                &&& final(self).groups@.last().user_ids@[0]@ == sender_id@
                &&& final(self).groups@.last().messages@.len() == 0
                &&& final(self).groups@.drop_last() == old(self).groups@
                &&& final(self).users == old(self).users
                &&& final(self).user_specific_messages == old(self).user_specific_messages
            },
    {
        if let Some(_) = self.find_group(&group_id) {
            return Err(ConvoError::GroupExists);
        }
        let mut members: Vec<String> = Vec::new();
        members.push(sender_id);
        let group = ConvoGroup {
            group_id,
            group_name,
            global_index: 0,
            user_ids: members,
            messages: Vec::new(),
        };
        self.groups.push(group);
        Ok(())
    }

    /// Current index of the named group: the number of ledger entries, which
    /// is also the largest index a poll could return for it.
    pub fn client_get_group_index(&self, group_id: Vec<u8>, _sender_id: String) -> (r: Result<
        u64,
        ConvoError,
    >)
        requires
            self.wf(),
        ensures
            r is Ok <==> has_group(self.groups@, group_id@),
            r matches Ok(idx) ==> idx == group_of(self.groups@, group_id@).global_index,
            r matches Err(e) ==> e == ConvoError::GroupUnknown,
    {
        match self.find_group(&group_id) {
            Some(i) => {
                let idx = self.groups[i].global_index;
                proof {
                    assert(self.groups@[i as int].group_id@ == group_id@);
                    assert(group_pos(self.groups@, group_id@) == i as int);
                }
                Ok(idx)
            },
            None => Err(ConvoError::GroupUnknown),
        }
    }

    /// Append an application message iff the sender's expected new index is
    /// exactly one past the current index; otherwise refuse and say which
    /// side is off. The ledger is never rewritten.
    pub fn client_send_message(
        &mut self,
        group_id: Vec<u8>,
        sender_id: String,
        message: Vec<u8>,
        global_index: u64,
        now: u64,
    ) -> (r: Result<(), ConvoError>)
        requires
            old(self).wf(),
        ensures
            final(self).wf(),
            !has_group(old(self).groups@, group_id@) ==> (r matches Err(e) && e
                == ConvoError::GroupUnknown),
            has_group(old(self).groups@, group_id@) ==> {
                let cur = group_of(old(self).groups@, group_id@).global_index;
                &&& (r is Ok <==> global_index == cur as int + 1)
                &&& (global_index > cur as int + 1 ==> (r matches Err(e) && e
                    == ConvoError::IndexAhead))
                &&& (global_index <= cur ==> (r matches Err(e) && e == ConvoError::IndexStale))
            },
            r is Err ==> *final(self) == *old(self),
            r is Ok ==> {
                let g = group_pos(old(self).groups@, group_id@);
                let og = group_of(old(self).groups@, group_id@);
                &&& final(self).groups@ =~= old(self).groups@.update(g, final(self).groups@[g])
                &&& final(self).groups@[g].group_id == og.group_id
                &&& final(self).groups@[g].group_name == og.group_name
                &&& final(self).groups@[g].user_ids == og.user_ids
                &&& final(self).groups@[g].global_index == og.global_index + 1
                &&& final(self).groups@[g].messages@.len() == og.messages@.len() + 1
                &&& final(self).groups@[g].messages@.drop_last() == og.messages@
                &&& final(self).groups@[g].messages@.last()@ == (ConvoMessageView {
                    global_index: (og.global_index + 1) as u64,
                    sender_id: sender_id@,
                    unix_timestamp: now,
                    message: Some(message@),
                    invite: None,
                })
                &&& final(self).users == old(self).users
                &&& final(self).user_specific_messages == old(self).user_specific_messages
            },
    {
        let gi = match self.find_group(&group_id) {
            Some(i) => i,
            None => {
                return Err(ConvoError::GroupUnknown);
            },
        };
        proof {
            assert(group_pos(self.groups@, group_id@) == gi as int);
        }
        let cur = self.groups[gi].global_index;
        if global_index >= 1 && global_index - 1 == cur {
            // the proposed index is exactly the current index plus one
            let entry = ConvoMessage {
                global_index,
                sender_id,
                unix_timestamp: now,
                message: Some(message),
                invite: None,
            };
            let group = &mut self.groups[gi];
            group.messages.push(entry);
            group.global_index = global_index;
            Ok(())
        } else if global_index > cur {
            Err(ConvoError::IndexAhead)
        } else {
            Err(ConvoError::IndexStale)
        }
    }
}


impl ConvoServer {
    /// Register or refresh a user: the record is created on first contact
    /// and overwritten on later ones, with `last_active` set to `now`.
    pub fn client_connect(
        &mut self,
        user_id: String,
        name: String,
        serialized_key_package: Vec<u8>,
        now: u64,
    ) -> (r: Result<(), ConvoError>)
        requires
            old(self).wf(),
        ensures
            final(self).wf(),
            r is Ok,
            final(self).groups == old(self).groups,
            final(self).user_specific_messages == old(self).user_specific_messages,
            ({
                let uv = ConvoUserView {
                    name: name@,
                    user_id: user_id@,
                    serialized_key_package: serialized_key_package@,
                    last_active: now,
                };
                if has_user(old(self).users@, user_id@) {
                    final(self).users.deep_view() == old(self).users.deep_view().update(
                        user_pos(old(self).users@, user_id@),
                        uv,
                    )
                } else {
                    final(self).users.deep_view() == old(self).users.deep_view().push(uv)
                }
            }),
    {
        let user = ConvoUser { name, user_id, serialized_key_package, last_active: now };
        match self.find_user(&user.user_id) {
            Some(i) => {
                proof {
                    assert(user_pos(self.users@, user.user_id@) == i as int);
                }
                self.users[i] = user;
                assert(self.users.deep_view() =~= old(self).users.deep_view().update(
                    i as int,
                    self.users@[i as int]@,
                ));
            },
            None => {
                self.users.push(user);
                assert(self.users.deep_view() =~= old(self).users.deep_view().push(
                    self.users@.last()@,
                ));
            },
        }
        Ok(())
    }

    /// A snapshot of every registered user record.
    pub fn client_list_users(&self) -> (r: Vec<ConvoUser>)
        ensures
            r.deep_view() == self.users.deep_view(),
    {
        let mut r: Vec<ConvoUser> = Vec::new();
        let n = self.users.len();
        for i in 0..n
            invariant
                n == self.users@.len(),
                r@.len() == i,
                forall|k: int| 0 <= k < i ==> (#[trigger] r@[k])@ == self.users@[k]@,
        {
            r.push(self.users[i].clone());
        }
        assert(r.deep_view() =~= self.users.deep_view());
        r
    }

    /// One key package per requested user, in request order. Refused with
    /// `UserUnknown` when any requested identity is not registered.
    pub fn client_get_user_keys(&self, user_ids: &Vec<String>) -> (r: Result<
        Vec<(String, Vec<u8>)>,
        ConvoError,
    >)
        requires
            self.wf(),
        ensures
            r is Ok <==> (forall|k: int|
                0 <= k < user_ids@.len() ==> has_user(self.users@, (#[trigger] user_ids@[k])@)),
            r matches Err(e) ==> e == ConvoError::UserUnknown,
            r matches Ok(v) ==> {
                &&& v@.len() == user_ids@.len()
                &&& forall|k: int|
                    0 <= k < v@.len() ==> (#[trigger] v@[k]).0@ == user_ids@[k]@ && v@[k].1@
                        == self.users@[user_pos(self.users@, user_ids@[k]@)].serialized_key_package@
            },
    {
        let mut out: Vec<(String, Vec<u8>)> = Vec::new();
        let n = user_ids.len();
        for i in 0..n
            invariant
                self.wf(),
                n == user_ids@.len(),
                out@.len() == i,
                forall|k: int| 0 <= k < i ==> has_user(self.users@, (#[trigger] user_ids@[k])@),
                forall|k: int|
                    0 <= k < i ==> (#[trigger] out@[k]).0@ == user_ids@[k]@ && out@[k].1@
                        == self.users@[user_pos(self.users@, user_ids@[k]@)].serialized_key_package@,
        {
            match self.find_user(&user_ids[i]) {
                Some(u) => {
                    proof {
                        assert(user_pos(self.users@, user_ids@[i as int]@) == u as int);
                    }
                    let kp = crate::types::clone_bytes(&self.users[u].serialized_key_package);
                    out.push((user_ids[i].clone(), kp));
                },
                None => {
                    return Err(ConvoError::UserUnknown);
                },
            }
        }
        Ok(out)
    }

    /// Record that the invited user accepted: they join the group's member
    /// list and their whole mailbox is dropped.
    pub fn client_accept_invite(&mut self, group_id: Vec<u8>, sender_id: String) -> (r: Result<
        (),
        ConvoError,
    >)
        requires
            old(self).wf(),
        ensures
            final(self).wf(),
            r is Ok <==> has_group(old(self).groups@, group_id@),
            r matches Err(e) ==> e == ConvoError::GroupUnknown && *final(self) == *old(self),
            r is Ok ==> {
                let g = group_pos(old(self).groups@, group_id@);
                let og = group_of(old(self).groups@, group_id@);
                &&& final(self).groups@ =~= old(self).groups@.update(g, final(self).groups@[g])
                &&& final(self).groups@[g].group_id == og.group_id
                &&& final(self).groups@[g].group_name == og.group_name
                &&& final(self).groups@[g].global_index == og.global_index
                &&& final(self).groups@[g].messages == og.messages
                &&& final(self).groups@[g].user_ids@ =~= og.user_ids@.push(sender_id)
                &&& final(self).users == old(self).users
                &&& !has_mailbox(final(self).user_specific_messages@, sender_id@)
                &&& (if has_mailbox(old(self).user_specific_messages@, sender_id@) {
                    final(self).user_specific_messages@ == old(
                        self,
                    ).user_specific_messages@.remove(mailbox_pos(old(self).user_specific_messages@, sender_id@))
                } else {
                    final(self).user_specific_messages == old(self).user_specific_messages
                })
            },
    {
        let gi = match self.find_group(&group_id) {
            Some(i) => i,
            None => {
                return Err(ConvoError::GroupUnknown);
            },
        };
        proof {
            assert(group_pos(self.groups@, group_id@) == gi as int);
        }
        match self.find_mailbox(&sender_id) {
            Some(mi) => {
                proof {
                    assert(mailbox_pos(self.user_specific_messages@, sender_id@) == mi as int);
                }
                let _ = self.user_specific_messages.remove(mi);
                proof {
                    lemma_no_mailbox_after_remove(old(self).user_specific_messages@, self.user_specific_messages@, mi as int, sender_id@);
                }
            },
            None => {},
        }
        let group = &mut self.groups[gi];
        group.user_ids.push(sender_id);
        Ok(())
    }
}

/// After removing the one mailbox that `uid` had, no mailbox for `uid` is
/// left, and every other user's mailbox is untouched.
proof fn lemma_no_mailbox_after_remove(pres: Seq<Mailbox>, posts: Seq<Mailbox>, p: int, uid: Seq<char>)
    requires
        forall|i: int, j: int|
            0 <= i < j < pres.len() ==> (#[trigger] pres[i]).user_id@ != (
            #[trigger] pres[j]).user_id@,
        0 <= p < pres.len(),
        pres[p].user_id@ == uid,
        posts == pres.remove(p),
    ensures
        !has_mailbox(posts, uid),
        forall|u: Seq<char>|
            u != uid ==> #[trigger] mailbox_msgs(posts, u) == mailbox_msgs(pres, u),
{
    assert forall|i: int| 0 <= i < posts.len() implies (#[trigger] posts[i]).user_id@ != uid by {
        if i < p {
            assert(posts[i] == pres[i]);
        } else {
            assert(posts[i] == pres[i + 1]);
        }
    }
    assert forall|u: Seq<char>| u != uid implies #[trigger] mailbox_msgs(posts, u) == mailbox_msgs(
        pres,
        u,
    ) by {
        if has_mailbox(pres, u) {
            let q = mailbox_pos(pres, u);
            assert(pres[q].user_id@ == u);
            assert(q != p);
            if q < p {
                assert(posts[q] == pres[q]);
            } else {
                assert(posts[q - 1] == pres[q]);
            }
            assert(has_mailbox(posts, u));
            let q2 = mailbox_pos(posts, u);
            let orig = if q2 < p { q2 } else { q2 + 1 };
            assert(posts[q2] == pres[orig]);
            assert(orig == q);
        } else {
            assert forall|i: int|
                0 <= i < posts.len() implies (#[trigger] posts[i]).user_id@ != u by {
                if i < p {
                    assert(posts[i] == pres[i]);
                } else {
                    assert(posts[i] == pres[i + 1]);
                }
            }
            assert(!has_mailbox(posts, u));
        }
    }
}


/// Whether a user record is past the liveness threshold at time `now`.
pub open spec fn user_stays(u: ConvoUserView, now: u64) -> bool {
    !(u.last_active < now && now - u.last_active > USER_TIMEOUT_SECS)
}

/// The predicate a liveness sweep at time `now` filters with.
pub open spec fn stays_pred(now: u64) -> spec_fn(ConvoUserView) -> bool {
    |u: ConvoUserView| user_stays(u, now)
}

/// After replacing the mailbox at position `p` by one with the same key,
/// that key's queue is the new one and every other user's queue is untouched.
proof fn lemma_mailbox_after_update(pres: Seq<Mailbox>, posts: Seq<Mailbox>, p: int, uid: Seq<char>)
    requires
        forall|i: int, j: int|
            0 <= i < j < pres.len() ==> (#[trigger] pres[i]).user_id@ != (
            #[trigger] pres[j]).user_id@,
        0 <= p < pres.len(),
        pres[p].user_id@ == uid,
        posts == pres.update(p, posts[p]),
        posts.len() == pres.len(),
        posts[p].user_id@ == uid,
    ensures
        has_mailbox(posts, uid),
        mailbox_msgs(posts, uid) == posts[p].messages@,
        forall|u: Seq<char>|
            u != uid ==> #[trigger] mailbox_msgs(posts, u) == mailbox_msgs(pres, u),
        forall|i: int, j: int|
            0 <= i < j < posts.len() ==> (#[trigger] posts[i]).user_id@ != (
            #[trigger] posts[j]).user_id@,
{
    assert(has_mailbox(posts, uid));
    assert(mailbox_pos(posts, uid) == p);
    assert forall|u: Seq<char>| u != uid implies #[trigger] mailbox_msgs(posts, u) == mailbox_msgs(
        pres,
        u,
    ) by {
        if has_mailbox(pres, u) {
            let q = mailbox_pos(pres, u);
            assert(q != p);
            assert(posts[q] == pres[q]);
            assert(has_mailbox(posts, u));
            assert(mailbox_pos(posts, u) == q);
        } else {
            assert forall|i: int|
                0 <= i < posts.len() implies (#[trigger] posts[i]).user_id@ != u by {
                if i != p {
                    assert(posts[i] == pres[i]);
                }
            }
            assert(!has_mailbox(posts, u));
        }
    }
}

/// After appending a fresh mailbox for `uid`, that key's queue is the new
/// one and every other user's queue is untouched.
proof fn lemma_mailbox_after_push(pres: Seq<Mailbox>, posts: Seq<Mailbox>, uid: Seq<char>)
    requires
        forall|i: int, j: int|
            0 <= i < j < pres.len() ==> (#[trigger] pres[i]).user_id@ != (
            #[trigger] pres[j]).user_id@,
        !has_mailbox(pres, uid),
        posts.len() == pres.len() + 1,
        posts == pres.push(posts.last()),
        posts.last().user_id@ == uid,
    ensures
        has_mailbox(posts, uid),
        mailbox_msgs(posts, uid) == posts.last().messages@,
        forall|u: Seq<char>|
            u != uid ==> #[trigger] mailbox_msgs(posts, u) == mailbox_msgs(pres, u),
        forall|i: int, j: int|
            0 <= i < j < posts.len() ==> (#[trigger] posts[i]).user_id@ != (
            #[trigger] posts[j]).user_id@,
{
    let n = pres.len() as int;
    assert(posts[n].user_id@ == uid);
    assert(has_mailbox(posts, uid));
    assert(mailbox_pos(posts, uid) == n);
    assert forall|u: Seq<char>| u != uid implies #[trigger] mailbox_msgs(posts, u) == mailbox_msgs(
        pres,
        u,
    ) by {
        if has_mailbox(pres, u) {
            let q = mailbox_pos(pres, u);
            assert(posts[q] == pres[q]);
            assert(has_mailbox(posts, u));
            assert(mailbox_pos(posts, u) == q);
        } else {
            assert forall|i: int|
                0 <= i < posts.len() implies (#[trigger] posts[i]).user_id@ != u by {
                if i < n {
                    assert(posts[i] == pres[i]);
                }
            }
            assert(!has_mailbox(posts, u));
        }
    }
}

/// Filtering keeps a sequence of user records pairwise distinct by id, and
/// every kept record occurs in the original sequence.
proof fn lemma_filter_keeps_distinct_ids(s: Seq<ConvoUserView>, pred: spec_fn(ConvoUserView) -> bool)
    requires
        forall|i: int, j: int| 0 <= i < j < s.len() ==> s[i].user_id != s[j].user_id,
    ensures
        forall|i: int|
            0 <= i < s.filter(pred).len() ==> exists|k: int|
                0 <= k < s.len() && #[trigger] s.filter(pred)[i] == s[k],
        forall|i: int, j: int|
            0 <= i < j < s.filter(pred).len() ==> s.filter(pred)[i].user_id != s.filter(
                pred,
            )[j].user_id,
    decreases s.len(),
{
    reveal(Seq::filter);
    if s.len() > 0 {
        let butlast = s.drop_last();
        lemma_filter_keeps_distinct_ids(butlast, pred);
        let fb = butlast.filter(pred);
        assert forall|i: int|
            0 <= i < fb.len() implies exists|k: int| 0 <= k < s.len() && #[trigger] fb[i]
            == s[k] by {
            let k = choose|k: int| 0 <= k < butlast.len() && fb[i] == butlast[k];
            assert(s[k] == butlast[k]);
        }
        if pred(s.last()) {
            let f = s.filter(pred);
            assert(f == fb.push(s.last()));
            assert forall|i: int, j: int|
                0 <= i < j < f.len() implies f[i].user_id != f[j].user_id by {
                if j < f.len() - 1 {
                    assert(f[i] == fb[i] && f[j] == fb[j]);
                } else {
                    assert(f[i] == fb[i]);
                    assert(f[j] == s.last());
                    let k = choose|k: int| 0 <= k < butlast.len() && fb[i] == butlast[k];
                    assert(s[k].user_id != s[s.len() - 1].user_id);
                }
            }
        }
    }
}

impl ConvoServer {
    /// Evict every user record whose last activity lies more than
    /// [`USER_TIMEOUT_SECS`] before `now`. Groups and mailboxes are kept.
    pub fn cleanup_inactive_users(&mut self, now: u64) -> (r: Result<(), ConvoError>)
        requires
            old(self).wf(),
        ensures
            final(self).wf(),
            r is Ok,
            final(self).groups == old(self).groups,
            final(self).user_specific_messages == old(self).user_specific_messages,
            final(self).users.deep_view() == old(self).users.deep_view().filter(
                stays_pred(now),
            ),
    {
        let ghost dv = self.users.deep_view();
        let mut kept: Vec<ConvoUser> = Vec::new();
        let n = self.users.len();
        for i in 0..n
            invariant
                n == self.users@.len(),
                dv == self.users.deep_view(),
                dv.len() == n,
                kept.deep_view() == dv.take(i as int).filter(stays_pred(now)),
        {
            let ghost prev = kept.deep_view();
            let u = &self.users[i];
            let keep = !(u.last_active < now && now - u.last_active > USER_TIMEOUT_SECS);
            if keep {
                kept.push(u.clone());
            }
            proof {
                reveal(Seq::filter);
                assert(dv.take(i + 1).drop_last() =~= dv.take(i as int));
                assert(dv.take(i + 1).drop_last() == dv.take(i as int));
                assert(dv.take(i + 1).last() == dv[i as int]);
                assert(dv[i as int] == self.users@[i as int]@);
                assert(keep == user_stays(dv[i as int], now));
                assert(stays_pred(now)(dv[i as int]) == user_stays(dv[i as int], now));
                if keep {
                    assert(kept.deep_view() =~= prev.push(dv[i as int]));
                    assert(kept.deep_view() == dv.take(i + 1).filter(stays_pred(now)));
                } else {
                    assert(kept.deep_view() == dv.take(i + 1).filter(stays_pred(now)));
                }
            }
        }
        proof {
            assert(dv.take(n as int) =~= dv);
            lemma_filter_keeps_distinct_ids(dv, stays_pred(now));
            assert forall|i: int, j: int| 0 <= i < j < kept@.len() implies (
            #[trigger] kept@[i]).user_id@ != (#[trigger] kept@[j]).user_id@ by {
                assert(kept.deep_view()[i] == kept@[i]@);
                assert(kept.deep_view()[j] == kept@[j]@);
            }
        }
        self.users = kept;
        Ok(())
    }
}


impl ConvoServer {
    /// File an invite: when a fanned commit is supplied it is appended to the
    /// group's ledger at the next index, and the Welcome envelope is queued in
    /// the receiver's mailbox and nowhere else.
    pub fn client_invite_user(
        &mut self,
        group_id: Vec<u8>,
        sender_id: String,
        receiver_id: String,
        welcome_message: Vec<u8>,
        ratchet_tree: Vec<u8>,
        fanned: Option<Vec<u8>>,
        now: u64,
    ) -> (r: Result<(), ConvoError>)
        requires
            old(self).wf(),
        ensures
            final(self).wf(),
            r is Ok <==> (has_group(old(self).groups@, group_id@) && !(fanned is Some && group_of(
                old(self).groups@,
                group_id@,
            ).global_index == u64::MAX)),
            !has_group(old(self).groups@, group_id@) ==> (r matches Err(e) && e
                == ConvoError::GroupUnknown),
            (has_group(old(self).groups@, group_id@) && fanned is Some && group_of(
                old(self).groups@,
                group_id@,
            ).global_index == u64::MAX) ==> (r matches Err(e) && e == ConvoError::LedgerFull),
            r is Err ==> *final(self) == *old(self),
            r is Ok ==> ({
                let g = group_pos(old(self).groups@, group_id@);
                let og = group_of(old(self).groups@, group_id@);
                let idx = if fanned is Some {
                    (og.global_index + 1) as u64
                } else {
                    og.global_index
                };
                let env = ConvoMessageView {
                    global_index: idx,
                    sender_id: sender_id@,
                    unix_timestamp: now,
                    message: None,
                    invite: Some(
                        ConvoInviteView {
                            sender_id: sender_id@,
                            group_name: og.group_name@,
                            welcome_message: welcome_message@,
                            ratchet_tree: Some(ratchet_tree@),
                            global_index: idx,
                            fanned: None,
                        },
                    ),
                };
                &&& final(self).users == old(self).users
                &&& final(self).groups@ =~= old(self).groups@.update(g, final(self).groups@[g])
                &&& final(self).groups@[g].group_id == og.group_id
                &&& final(self).groups@[g].group_name == og.group_name
                &&& final(self).groups@[g].user_ids == og.user_ids
                &&& final(self).groups@[g].global_index == idx
                &&& (match fanned {
                    Some(f) => {
                        &&& final(self).groups@[g].messages@.len() == og.messages@.len() + 1
                        &&& final(self).groups@[g].messages@.drop_last() == og.messages@
                        &&& final(self).groups@[g].messages@.last()@ == (ConvoMessageView {
                            global_index: idx,
                            sender_id: sender_id@,
                            unix_timestamp: now,
                            message: Some(f@),
                            invite: None,
                        })
                    },
                    None => final(self).groups@[g].messages == og.messages,
                })
                &&& msgs_dv(mailbox_msgs(final(self).user_specific_messages@, receiver_id@))
                    == msgs_dv(
                    mailbox_msgs(old(self).user_specific_messages@, receiver_id@),
                ).push(env)
                &&& forall|u: Seq<char>|
                    u != receiver_id@ ==> #[trigger] mailbox_msgs(
                        final(self).user_specific_messages@,
                        u,
                    ) == mailbox_msgs(old(self).user_specific_messages@, u)
            }),
    {
        let ghost rid = receiver_id@;
        let gi = match self.find_group(&group_id) {
            Some(i) => i,
            None => {
                return Err(ConvoError::GroupUnknown);
            },
        };
        proof {
            assert(group_pos(self.groups@, group_id@) == gi as int);
        }
        let mut idx = self.groups[gi].global_index;
        match fanned {
            Some(f) => {
                if idx == u64::MAX {
                    return Err(ConvoError::LedgerFull);
                }
                idx = idx + 1;
                let entry = ConvoMessage {
                    global_index: idx,
                    sender_id: sender_id.clone(),
                    unix_timestamp: now,
                    message: Some(f),
                    invite: None,
                };
                let group = &mut self.groups[gi];
                group.messages.push(entry);
                group.global_index = idx;
            },
            None => {},
        }
        let group_name = {
            let g = &self.groups[gi];
            g.group_name.clone()
        };
        let invite = ConvoInvite {
            sender_id: sender_id.clone(),
            group_name,
            welcome_message,
            ratchet_tree: Some(ratchet_tree),
            global_index: idx,
            fanned: None,
        };
        let env = ConvoMessage {
            global_index: idx,
            sender_id,
            unix_timestamp: now,
            message: None,
            invite: Some(invite),
        };
        let ghost mid = self.user_specific_messages@;
        match self.find_mailbox(&receiver_id) {
            Some(mi) => {
                proof {
                    assert(mailbox_pos(mid, rid) == mi as int);
                }
                let mb = &mut self.user_specific_messages[mi];
                mb.messages.push(env);
                proof {
                    assert(self.user_specific_messages@ =~= mid.update(
                        mi as int,
                        self.user_specific_messages@[mi as int],
                    ));
                    lemma_mailbox_after_update(
                        mid,
                        self.user_specific_messages@,
                        mi as int,
                        rid,
                    );
                    assert(msgs_dv(self.user_specific_messages@[mi as int].messages@)
                        =~= msgs_dv(mid[mi as int].messages@).push(
                        self.user_specific_messages@[mi as int].messages@.last()@,
                    ));
                }
            },
            None => {
                let mut msgs: Vec<ConvoMessage> = Vec::new();
                msgs.push(env);
                self.user_specific_messages.push(Mailbox { user_id: receiver_id, messages: msgs });
                proof {
                    assert(self.user_specific_messages@ =~= mid.push(
                        self.user_specific_messages@.last(),
                    ));
                    lemma_mailbox_after_push(mid, self.user_specific_messages@, rid);
                    assert(msgs_dv(self.user_specific_messages@.last().messages@)
                        =~= msgs_dv(Seq::<ConvoMessage>::empty()).push(
                        self.user_specific_messages@.last().messages@.last()@,
                    ));
                    assert(msgs_dv(mailbox_msgs(mid, rid)) =~= msgs_dv(
                        Seq::<ConvoMessage>::empty(),
                    ));
                }
            },
        }
        proof {
            let g = group_pos(old(self).groups@, group_id@);
            let og = group_of(old(self).groups@, group_id@);
            let idxs = if fanned is Some {
                (og.global_index + 1) as u64
            } else {
                og.global_index
            };
            let envs = ConvoMessageView {
                global_index: idxs,
                sender_id: sender_id@,
                unix_timestamp: now,
                message: None,
                invite: Some(
                    ConvoInviteView {
                        sender_id: sender_id@,
                        group_name: og.group_name@,
                        welcome_message: welcome_message@,
                        ratchet_tree: Some(ratchet_tree@),
                        global_index: idxs,
                        fanned: None,
                    },
                ),
            };
            assert(g == gi as int);
            assert(idxs == idx);
            assert(env@ =~= envs);
            assert(msgs_dv(mailbox_msgs(self.user_specific_messages@, rid)) =~= msgs_dv(
                mailbox_msgs(mid, rid),
            ).push(envs));
        }
        Ok(())
    }

    /// A poll: return the named group's ledger entries past `since`, then
    /// everything queued in the requester's mailbox, which is drained; the
    /// requester's liveness stamp is refreshed.
    pub fn client_get_new_messages(
        &mut self,
        group_id: Option<Vec<u8>>,
        sender_id: String,
        index: u64,
        now: u64,
    ) -> (r: Result<Vec<ConvoMessage>, ConvoError>)
        requires
            old(self).wf(),
        ensures
            final(self).wf(),
            r is Ok,
            r matches Ok(v) ==> v.deep_view() == msgs_dv(
                poll_view(
                    old(self).groups@,
                    old(self).user_specific_messages@,
                    group_id.deep_view(),
                    sender_id@,
                    index,
                ),
            ),
            !has_mailbox(final(self).user_specific_messages@, sender_id@),
            forall|u: Seq<char>|
                u != sender_id@ ==> #[trigger] mailbox_msgs(final(self).user_specific_messages@, u)
                    == mailbox_msgs(old(self).user_specific_messages@, u),
            final(self).groups == old(self).groups,
            ({
                let users = old(self).users.deep_view();
                if has_user(old(self).users@, sender_id@) {
                    let p = user_pos(old(self).users@, sender_id@);
                    final(self).users.deep_view() == users.update(
                        p,
                        ConvoUserView {
                            name: users[p].name,
                            user_id: users[p].user_id,
                            serialized_key_package: users[p].serialized_key_package,
                            last_active: now,
                        },
                    )
                } else {
                    final(self).users == old(self).users
                }
            }),
    {
        let ghost uid = sender_id@;
        match self.find_user(&sender_id) {
            Some(ui) => {
                proof {
                    assert(user_pos(self.users@, uid) == ui as int);
                }
                let u = &mut self.users[ui];
                u.last_active = now;
                assert(self.users.deep_view() =~= old(self).users.deep_view().update(
                    ui as int,
                    self.users@[ui as int]@,
                ));
            },
            None => {},
        }
        let mut out: Vec<ConvoMessage> = Vec::new();
        let ghost ledger = match group_id.deep_view() {
            Some(g) => if has_group(self.groups@, g) {
                ledger_suffix(group_of(self.groups@, g).messages@, index)
            } else {
                Seq::empty()
            },
            None => Seq::<ConvoMessage>::empty(),
        };
        match &group_id {
            Some(gid) => {
                proof {
                    assert(group_id matches Some(v) && v@ == gid@);
                    assert(group_id.deep_view() == Some(gid@));
                }
                match self.find_group(gid) {
                    Some(gi) => {
                        proof {
                            assert(group_pos(self.groups@, gid@) == gi as int);
                            assert(has_group(self.groups@, gid@));
                            assert(group_of(self.groups@, gid@) == self.groups@[gi as int]);
                        }
                        let g = &self.groups[gi];
                        let n = g.messages.len();
                        let start: usize = if index < n as u64 {
                            index as usize
                        } else {
                            n
                        };
                        proof {
                            assert(ledger =~= g.messages@.skip(start as int));
                        }
                        for k in start..n
                            invariant
                                n == g.messages@.len(),
                                start <= k <= n,
                                ledger =~= g.messages@.skip(start as int),
                                out@.len() == k - start,
                                forall|j: int|
                                    0 <= j < out@.len() ==> (#[trigger] out@[j])@ == g.messages@[start
                                        + j]@,
                        {
                            out.push(g.messages[k].clone());
                        }
                    },
                    None => {},
                }
            },
            None => {},
        }
        assert(out.deep_view() =~= msgs_dv(ledger));
        let ghost mid = self.user_specific_messages@;
        let ghost ledger_out = out.deep_view();
        match self.find_mailbox(&sender_id) {
            Some(mi) => {
                proof {
                    assert(mailbox_pos(mid, uid) == mi as int);
                }
                let mut mb = self.user_specific_messages.remove(mi);
                proof {
                    lemma_no_mailbox_after_remove(
                        mid,
                        self.user_specific_messages@,
                        mi as int,
                        uid,
                    );
                }
                out.append(&mut mb.messages);
            },
            None => {},
        }
        proof {
            assert(out.deep_view() =~= msgs_dv(ledger + mailbox_msgs(mid, uid)));
        }
        Ok(out)
    }
}


/// Ledger monotonicity: in a well-formed group, an earlier entry carries a
/// strictly smaller index than a later one, and the entry at position `j`
/// carries index `j + 1`, counted from 1 for the first entry.
pub proof fn lemma_ledger_monotonic(g: ConvoGroup, i: int, j: int)
    requires
        g.wf(),
        0 <= i < j < g.messages@.len(),
    ensures
        g.messages@[i].global_index < g.messages@[j].global_index,
        g.messages@[j].global_index == j + 1,
{
}

/// A ledger entry is never rewritten: what a poll at `since` returns from the
/// ledger is exactly the entries with index above `since`, in ledger order,
/// and none of them carries an index above the group's current one.
pub proof fn lemma_ledger_suffix_exact(g: ConvoGroup, since: u64)
    requires
        g.wf(),
    ensures
        forall|k: int|
            0 <= k < ledger_suffix(g.messages@, since).len() ==> (#[trigger] ledger_suffix(
                g.messages@,
                since,
            )[k]).global_index == since + k + 1,
        forall|k: int|
            0 <= k < ledger_suffix(g.messages@, since).len() ==> (#[trigger] ledger_suffix(
                g.messages@,
                since,
            )[k]).global_index <= g.global_index,
        forall|j: int|
            0 <= j < g.messages@.len() && (#[trigger] g.messages@[j]).global_index > since
                ==> ledger_suffix(g.messages@, since)[j - since] == g.messages@[j],
{
    if since as nat <= g.messages@.len() {
        assert forall|j: int|
            0 <= j < g.messages@.len() && (#[trigger] g.messages@[j]).global_index
                > since implies ledger_suffix(g.messages@, since)[j - since]
            == g.messages@[j] by {
            assert(g.messages@[j].global_index == j + 1);
        }
    }
}

/// Mailbox drain: a user whose mailbox was drained has nothing queued, so a
/// second poll without an intervening invite returns only ledger entries —
/// and in particular returns no Welcome a first poll already delivered.
pub proof fn lemma_second_poll_returns_no_mailbox(
    groups: Seq<ConvoGroup>,
    boxes: Seq<Mailbox>,
    gid: Option<Seq<u8>>,
    uid: Seq<char>,
    since: u64,
)
    requires
        !has_mailbox(boxes, uid),
    ensures
        mailbox_msgs(boxes, uid) == Seq::<ConvoMessage>::empty(),
        poll_view(groups, boxes, gid, uid, since) == ledger_part(groups, gid, since),
{
    assert(poll_view(groups, boxes, gid, uid, since) =~= ledger_part(groups, gid, since));
}

/// At-most-once Welcome delivery: an envelope that sits only in the named
/// receiver's mailbox, and in no group ledger, is never part of any other
/// user's poll; and since a poll drains the receiver's mailbox, it can be
/// handed out at most once.
pub proof fn lemma_envelope_reaches_receiver_only(
    groups: Seq<ConvoGroup>,
    boxes: Seq<Mailbox>,
    gid: Option<Seq<u8>>,
    receiver: Seq<char>,
    u: Seq<char>,
    since: u64,
    env: ConvoMessage,
)
    requires
        forall|q: Seq<char>| q != receiver ==> !(#[trigger] mailbox_msgs(boxes, q)).contains(env),
        forall|k: int| 0 <= k < groups.len() ==> !(#[trigger] groups[k]).messages@.contains(env),
        u != receiver,
    ensures
        !poll_view(groups, boxes, gid, u, since).contains(env),
{
    let lp = ledger_part(groups, gid, since);
    let mb = mailbox_msgs(boxes, u);
    assert(!mb.contains(env));
    assert forall|i: int| 0 <= i < poll_view(groups, boxes, gid, u, since).len() implies poll_view(
        groups,
        boxes,
        gid,
        u,
        since,
    )[i] != env by {
        if i < lp.len() {
            match gid {
                Some(g) => {
                    if has_group(groups, g) {
                        let gp = group_pos(groups, g);
                        assert(0 <= gp < groups.len());
                        let msgs = groups[gp].messages@;
                        assert(lp[i] == msgs[since + i]);
                        assert(msgs.contains(msgs[since + i]));
                    }
                },
                None => {},
            }
        } else {
            let j = i - lp.len();
            assert(poll_view(groups, boxes, gid, u, since)[i] == mb[j]);
            assert(mb.contains(mb[j]));
        }
    }
    if poll_view(groups, boxes, gid, u, since).contains(env) {
        let w = choose|w: int|
            0 <= w < poll_view(groups, boxes, gid, u, since).len() && poll_view(
                groups,
                boxes,
                gid,
                u,
                since,
            )[w] == env;
        assert(false);
    }
}

/// Convergence of the delivery order: the ledger portion of a poll does not
/// depend on who asks, so all members observe the same total order; and a
/// member who polled at `a` and then at `b` saw every entry of the later
/// suffix exactly once, in the same order as any other member.
pub proof fn lemma_poll_order_agreement(
    groups: Seq<ConvoGroup>,
    boxes: Seq<Mailbox>,
    gid: Option<Seq<u8>>,
    uid1: Seq<char>,
    uid2: Seq<char>,
    a: u64,
    b: u64,
)
    requires
        !has_mailbox(boxes, uid1),
        !has_mailbox(boxes, uid2),
        a <= b,
    ensures
        poll_view(groups, boxes, gid, uid1, a) == poll_view(groups, boxes, gid, uid2, a),
        ledger_part(groups, gid, b) =~= ledger_part(groups, gid, a).skip(
            if ledger_part(groups, gid, a).len() < b - a {
                ledger_part(groups, gid, a).len() as int
            } else {
                (b - a) as int
            },
        ),
{
    assert(poll_view(groups, boxes, gid, uid1, a) =~= poll_view(groups, boxes, gid, uid2, a));
    let la = ledger_part(groups, gid, a);
    let lb = ledger_part(groups, gid, b);
    let cut: int = if la.len() < b - a {
        la.len() as int
    } else {
        (b - a) as int
    };
    assert(lb =~= la.skip(cut));
}

} // verus!
