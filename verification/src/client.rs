//! The client synchronizer: one user's driver around the engine. It
//! registers the user, creates groups, issues invites, polls new
//! deliveries, reconciles the local index with the ledger, and orders local
//! sends behind a pre-send sync. The ledger is handed in as a value; the
//! transport that would carry these calls over a network is outside the
//! library and moves only plain values.

use vstd::prelude::*;

use crate::manager::{has_lgroup, lgroup_of, lgroup_pos, queued_invites, ConvoManager};
use crate::server::{group_of, group_pos, has_group, has_mailbox, has_user, mailbox_msgs, msgs_dv,
    poll_view, ConvoServer};
use crate::types::{clone_bytes, clone_messages, ConvoError, ConvoInvite, ConvoMessage,
    ConvoMessageView, ConvoUser, MessageItem, MessageItemView};

verus! {

/// The predicate the self-echo filter keeps deliveries by: the entry was
/// not authored by `me`.
pub open spec fn not_from(me: Seq<char>) -> spec_fn(ConvoMessageView) -> bool {
    |m: ConvoMessageView| m.sender_id != me
}

/// Registering a fresh group and dropping it again on the ledger's refusal
/// leaves no group behind that was not already held: whatever remains after
/// the removal was an element of the list before the insertion.
proof fn lemma_rollback_leaves_no_new_group(
    pre: Seq<crate::manager::LocalGroup>,
    mid: Seq<crate::manager::LocalGroup>,
    post: Seq<crate::manager::LocalGroup>,
    gid: Seq<u8>,
)
    requires
        forall|i: int, j: int|
            0 <= i < j < pre.len() ==> (#[trigger] pre[i]).id@ != (#[trigger] pre[j]).id@,
        if has_lgroup(pre, gid) {
            mid =~= pre.update(lgroup_pos(pre, gid), mid[lgroup_pos(pre, gid)])
        } else {
            mid =~= pre.push(mid.last())
        },
        has_lgroup(mid, gid),
        post =~= mid.remove(lgroup_pos(mid, gid)),
        mid[lgroup_pos(mid, gid)].id@ == gid,
    ensures
        forall|k: int| 0 <= k < post.len() ==> pre.contains(#[trigger] post[k]),
{
    let p = lgroup_pos(mid, gid);
    assert(0 <= p < mid.len());
    assert forall|k: int| 0 <= k < post.len() implies pre.contains(#[trigger] post[k]) by {
        let src: int = if k < p {
            k
        } else {
            k + 1
        };
        assert(post[k] == mid[src]);
        if has_lgroup(pre, gid) {
            let q = lgroup_pos(pre, gid);
            assert(q == p || mid[q].id@ != gid) by {
                if q != p {
                    assert(mid[q] == pre[q]);
                }
            }
            assert(src != p);
            assert(mid[src] == pre[src]);
            assert(pre.contains(pre[src]));
        } else {
            assert(p == mid.len() - 1 || mid[p] == pre[p]);
            assert(src < mid.len());
            if src < mid.len() - 1 {
                assert(mid[src] == pre[src]);
                assert(pre.contains(pre[src]));
            }
        }
    }
}

/// One user's client: their identity, their engine, and a display-name
/// cache; no cryptographic material lives here.
pub struct ConvoClient {
    pub user_id: String,
    pub manager: ConvoManager,
    pub id_to_name: Vec<(String, String)>,
}

impl ConvoClient {
    /// The client invariant: the engine is well formed and belongs to this
    /// user.
    pub open spec fn wf(self) -> bool {
        &&& self.manager.wf()
        &&& self.manager.id@ == self.user_id@
    }

    /// A fresh client for `id`, with a fresh engine.
    pub fn new(id: String) -> (r: Result<ConvoClient, ConvoError>)
        ensures
            r matches Ok(c) ==> c.wf() && c.user_id@ == id@ && c.manager.groups@.len() == 0
                && c.manager.pending_invites@.len() == 0,
            r matches Err(e) ==> e == ConvoError::CredentialInvalid,
    {
        let user_id = id.clone();
        match ConvoManager::init(id) {
            Ok(manager) => Ok(ConvoClient { user_id, manager, id_to_name: Vec::new() }),
            Err(e) => Err(e),
        }
    }

    /// Register this user with the ledger under a fresh key package.
    pub fn connect_to_server(&mut self, server: &mut ConvoServer, now: u64) -> (r: Result<
        (),
        ConvoError,
    >)
        requires
            old(self).wf(),
            old(server).wf(),
        ensures
            final(self).wf(),
            final(server).wf(),
            final(self).user_id == old(self).user_id,
            r matches Err(e) ==> e == ConvoError::CredentialInvalid && *final(server) == *old(
                server,
            ),
            r is Ok ==> {
                &&& has_user(final(server).users@, old(self).user_id@)
                &&& final(server).groups == old(server).groups
                &&& final(server).user_specific_messages == old(server).user_specific_messages
            },
    {
        let key_package = self.manager.get_key_package()?;
        let name = self.user_id.clone();
        let uid = self.user_id.clone();
        server.client_connect(uid, name, key_package, now)?;
        proof {
            let me = self.user_id@;
            let dv = server.users.deep_view();
            assert(dv.len() == server.users@.len());
            let p: int = if has_user(old(server).users@, me) {
                crate::server::user_pos(old(server).users@, me)
            } else {
                old(server).users@.len() as int
            };
            assert(old(server).users.deep_view().len() == old(server).users@.len());
            assert(0 <= p < dv.len());
            assert(dv[p].user_id == me);
            assert(dv[p] == server.users@[p].deep_view());
            assert(server.users@[p].user_id@ == me);
            assert(has_user(server.users@, me));
        }
        Ok(())
    }

    /// Create a group locally, then register it with the ledger, and note
    /// the creation in the group's transcript. When the ledger refuses the
    /// id, the half-initialized local group is dropped again, so the engine
    /// never keeps a group the ledger does not show.
    pub fn create_group(&mut self, server: &mut ConvoServer, group_name: String, now: u64) -> (r:
        Result<Vec<u8>, ConvoError>)
        requires
            old(self).wf(),
            old(server).wf(),
        ensures
            final(self).wf(),
            final(server).wf(),
            final(self).user_id == old(self).user_id,
            r matches Ok(gid) ==> {
                &&& has_lgroup(final(self).manager.groups@, gid@)
                &&& lgroup_of(final(self).manager.groups@, gid@).name@ == group_name@
                &&& lgroup_of(final(self).manager.groups@, gid@).global_index == 0
                &&& lgroup_of(final(self).manager.groups@, gid@).decrypted@.len() == 1
                &&& lgroup_of(final(self).manager.groups@, gid@).decrypted@.last()@ == (
                MessageItemView {
                    text: "<group_created>"@,
                    sender_id: "system"@,
                    timestamp: now,
                })
                &&& has_group(final(server).groups@, gid@)
                &&& group_of(final(server).groups@, gid@).group_name@ == group_name@
                &&& group_of(final(server).groups@, gid@).global_index == 0
            },
            r is Err ==> *final(server) == *old(server),
            // the rollback: a refused registration leaves behind no group
            // that was not already there
            r is Err ==> forall|k: int|
                0 <= k < final(self).manager.groups@.len() ==> old(self).manager.groups@.contains(
                    #[trigger] final(self).manager.groups@[k],
                ),
            r matches Err(e) ==> (e == ConvoError::EngineFailure || e == ConvoError::GroupExists),
    {
        match self.manager.create_group(group_name.clone()) {
            Ok(group_id) => {
                let gid_for_server = clone_bytes(&group_id);
                let ghost mid = self.manager.groups@;
                match server.client_create_group(gid_for_server, group_name, self.user_id.clone()) {
                    Ok(()) => {},
                    Err(e) => {
                        self.manager.delete_group(&group_id);
                        proof {
                            lemma_rollback_leaves_no_new_group(
                                old(self).manager.groups@,
                                mid,
                                self.manager.groups@,
                                group_id@,
                            );
                        }
                        return Err(e);
                    },
                }
                proof {
                    assert(group_pos(server.groups@, group_id@) == server.groups@.len() - 1);
                }
                let note = "<group_created>".to_owned();
                let system = "system".to_owned();
                self.manager.group_push_message(&group_id, note, system, now)?;
                Ok(group_id)
            },
            Err(e) => {
                proof {
                    assert forall|k: int|
                        0 <= k < self.manager.groups@.len() implies old(
                        self,
                    ).manager.groups@.contains(#[trigger] self.manager.groups@[k]) by {
                        assert(old(self).manager.groups@[k] == self.manager.groups@[k]);
                    }
                }
                Err(e)
            },
        }
    }

    /// Fetch one key package per named user from the ledger's registry.
    pub fn get_user_key_packages(&self, server: &ConvoServer, user_ids: &Vec<String>) -> (r:
        Result<Vec<(String, Vec<u8>)>, ConvoError>)
        requires
            server.wf(),
        ensures
            r is Ok <==> (forall|k: int|
                0 <= k < user_ids@.len() ==> has_user(server.users@, (#[trigger] user_ids@[k])@)),
            r matches Err(e) ==> e == ConvoError::UserUnknown,
            r matches Ok(v) ==> v@.len() == user_ids@.len() && (forall|k: int|
                0 <= k < v@.len() ==> (#[trigger] v@[k]).0@ == user_ids@[k]@),
    {
        server.client_get_user_keys(user_ids)
    }

    /// The id of the first local group with the given display name.
    pub fn get_group_id(&self, group_name: &String) -> (r: Result<Vec<u8>, ConvoError>)
        ensures
            r is Ok <==> (exists|k: int|
                0 <= k < self.manager.groups@.len() && (#[trigger] self.manager.groups@[k]).name@
                    == group_name@),
            r matches Ok(gid) ==> exists|k: int|
                0 <= k < self.manager.groups@.len() && (#[trigger] self.manager.groups@[k]).name@
                    == group_name@ && self.manager.groups@[k].id@ == gid@,
            r matches Err(e) ==> e == ConvoError::GroupUnknown,
    {
        let n = self.manager.groups.len();
        for i in 0..n
            invariant
                n == self.manager.groups@.len(),
                forall|k: int| 0 <= k < i ==> (#[trigger] self.manager.groups@[k]).name@
                    != group_name@,
        {
            if self.manager.groups[i].name == *group_name {
                return Ok(clone_bytes(&self.manager.groups[i].id));
            }
        }
        Err(ConvoError::GroupUnknown)
    }

    /// A snapshot of the users the ledger knows; the display cache learns
    /// the fixed system identity.
    pub fn list_users(&mut self, server: &ConvoServer) -> (r: Result<Vec<ConvoUser>, ConvoError>)
        requires
            old(self).wf(),
        ensures
            final(self).wf(),
            final(self).user_id == old(self).user_id,
            final(self).manager == old(self).manager,
            r matches Ok(v) ==> v.deep_view() == server.users.deep_view(),
    {
        let users = server.client_list_users();
        self.upsert_name("system".to_owned(), "system".to_owned());
        Ok(users)
    }

    /// Record a display name for an identity, replacing an earlier entry.
    fn upsert_name(&mut self, id: String, name: String)
        ensures
            final(self).user_id == old(self).user_id,
            final(self).manager == old(self).manager,
    {
        let n = self.id_to_name.len();
        for i in 0..n
            invariant
                n == self.id_to_name@.len(),
                self.user_id == old(self).user_id,
                self.manager == old(self).manager,
        {
            if self.id_to_name[i].0 == id {
                self.id_to_name[i] = (id, name);
                return ;
            }
        }
        self.id_to_name.push((id, name));
    }

    /// Admit a peer into a group as one unit: the engine builds the Welcome,
    /// the ratchet tree and the fanned commit without merging, the ledger
    /// files them — the fanned commit into the group's ledger, the Welcome
    /// into the receiver's mailbox and nowhere else — and only then the
    /// engine merges its commit. When the ledger refuses, the pending
    /// commit is discarded, so no local-only epoch is left behind.
    pub fn invite_user_to_group(
        &mut self,
        server: &mut ConvoServer,
        receiver_id: String,
        group_id: Vec<u8>,
        serialized_key_package: Vec<u8>,
        now: u64,
    ) -> (r: Result<(), ConvoError>)
        requires
            old(self).wf(),
            old(server).wf(),
        ensures
            final(self).wf(),
            final(server).wf(),
            final(self).user_id == old(self).user_id,
            crate::manager::same_books(old(self).manager.groups@, final(self).manager.groups@),
            r is Ok ==> {
                &&& msgs_dv(
                    mailbox_msgs(final(server).user_specific_messages@, receiver_id@),
                ).len() == msgs_dv(
                    mailbox_msgs(old(server).user_specific_messages@, receiver_id@),
                ).len() + 1
                &&& forall|u: Seq<char>|
                    u != receiver_id@ ==> #[trigger] mailbox_msgs(
                        final(server).user_specific_messages@,
                        u,
                    ) == mailbox_msgs(old(server).user_specific_messages@, u)
                &&& final(server).users == old(server).users
            },
            !has_lgroup(old(self).manager.groups@, group_id@) ==> (r matches Err(e) && e
                == ConvoError::GroupUnknown && *final(server) == *old(server)),
            (r matches Err(e) && e == ConvoError::GroupUnknown) ==> (!has_lgroup(
                old(self).manager.groups@,
                group_id@,
            ) || !has_group(old(server).groups@, group_id@)),
            r matches Err(e) ==> (e == ConvoError::GroupUnknown || e
                == ConvoError::KeyPackageInvalid || e == ConvoError::EngineFailure || e
                == ConvoError::EpochAdvanceFailed || e == ConvoError::LedgerFull),
    {
        let invite = match self.manager.create_invite(&group_id, serialized_key_package) {
            Ok(inv) => inv,
            Err(e) => {
                return Err(e);
            },
        };
        let ratchet_tree = match invite.ratchet_tree {
            Some(t) => t,
            None => {
                proof {
                    assert(false);
                }
                Vec::new()
            },
        };
        let fanned = invite.fanned;
        match server.client_invite_user(
            crate::types::clone_bytes(&group_id),
            self.user_id.clone(),
            receiver_id,
            invite.welcome_message,
            ratchet_tree,
            fanned,
            now,
        ) {
            Ok(()) => {
                // the ledger accepted: merge the pending commit, so the
                // inviter's epoch advances first
                proof {
                    assert(crate::manager::same_rosters(
                        old(self).manager.groups@,
                        self.manager.groups@,
                    ));
                    crate::manager::lemma_roster_lookup(
                        old(self).manager.groups@,
                        self.manager.groups@,
                        group_id@,
                    );
                }
                self.manager.confirm_invite(&group_id)?;
                Ok(())
            },
            Err(e) => {
                // the ledger refused: discard the pending commit
                let _ = self.manager.cancel_invite(&group_id);
                Err(e)
            },
        }
    }

    /// Join a group from a delivered invite, and report the acceptance to
    /// the ledger, which drains this user's mailbox.
    pub fn process_invite(&mut self, server: &mut ConvoServer, invite: ConvoInvite) -> (r: Result<
        Vec<u8>,
        ConvoError,
    >)
        requires
            old(self).wf(),
            old(server).wf(),
        ensures
            final(self).wf(),
            final(server).wf(),
            final(self).user_id == old(self).user_id,
            final(self).manager.pending_invites == old(self).manager.pending_invites,
            r matches Ok(gid) ==> {
                &&& has_lgroup(final(self).manager.groups@, gid@)
                &&& lgroup_of(final(self).manager.groups@, gid@).name@ == invite.group_name@
                &&& !has_mailbox(final(server).user_specific_messages@, old(self).user_id@)
            },
    {
        let group_id = self.manager.process_invite(invite)?;
        let gid_for_server = clone_bytes(&group_id);
        server.client_accept_invite(gid_for_server, self.user_id.clone())?;
        Ok(group_id)
    }

    /// Accept every pending invite in arrival order, then clear the list.
    pub fn accept_current_invites(&mut self, server: &mut ConvoServer) -> (r: Result<
        (),
        ConvoError,
    >)
        requires
            old(self).wf(),
            old(server).wf(),
        ensures
            final(self).wf(),
            final(server).wf(),
            final(self).user_id == old(self).user_id,
            r is Ok ==> final(self).manager.pending_invites@.len() == 0,
    {
        let n = self.manager.pending_invites.len();
        for i in 0..n
            invariant
                self.wf(),
                server.wf(),
                self.user_id == old(self).user_id,
                n == self.manager.pending_invites@.len(),
        {
            let invite = self.manager.pending_invites[i].clone();
            self.process_invite(server, invite)?;
        }
        self.manager.pending_invites.clear();
        Ok(())
    }

    /// Poll the ledger from this group's local index (or from zero, when no
    /// group is named), drop every entry this user authored, and hand the
    /// remainder to the engine in ledger order. The result is the filtered
    /// batch: no delivered entry ever carries the requester as its sender.
    /// No local group appears or disappears here — joining is a separate,
    /// explicit acceptance — and the named group's local index advances to
    /// the largest index among the delivered entries.
    pub fn check_incoming_messages(
        &mut self,
        server: &mut ConvoServer,
        group_id: Option<&Vec<u8>>,
        now: u64,
    ) -> (r: Result<Vec<ConvoMessage>, ConvoError>)
        requires
            old(self).wf(),
            old(server).wf(),
        ensures
            final(self).wf(),
            final(server).wf(),
            final(self).user_id == old(self).user_id,
            crate::manager::same_rosters(
                old(self).manager.groups@,
                final(self).manager.groups@,
            ),
            final(server).groups == old(server).groups,
            !has_mailbox(final(server).user_specific_messages@, old(self).user_id@),
            forall|u: Seq<char>|
                u != old(self).user_id@ ==> #[trigger] mailbox_msgs(
                    final(server).user_specific_messages@,
                    u,
                ) == mailbox_msgs(old(server).user_specific_messages@, u),
            r matches Ok(v) ==> {
                &&& forall|k: int|
                    0 <= k < v@.len() ==> (#[trigger] v@[k])@.sender_id != old(self).user_id@
                &&& ({
                    let since = match group_id {
                        Some(g) => if has_lgroup(old(self).manager.groups@, g@) {
                            lgroup_of(old(self).manager.groups@, g@).global_index
                        } else {
                            0
                        },
                        None => 0,
                    };
                    let gidv = match group_id {
                        Some(g) => Some(g@),
                        None => None,
                    };
                    v.deep_view() == msgs_dv(
                        poll_view(
                            old(server).groups@,
                            old(server).user_specific_messages@,
                            gidv,
                            old(self).user_id@,
                            since,
                        ),
                    ).filter(not_from(old(self).user_id@))
                })
                &&& final(self).manager.pending_invites.deep_view() == old(
                    self,
                ).manager.pending_invites.deep_view() + queued_invites(
                    v.deep_view(),
                    old(self).user_id@,
                )
                &&& (match group_id {
                    Some(g) => has_lgroup(old(self).manager.groups@, g@) ==> ({
                        let p = crate::manager::lgroup_pos(old(self).manager.groups@, g@);
                        final(self).manager.groups@[p].global_index
                            == crate::manager::max_seen_index(
                            v.deep_view(),
                            old(self).user_id@,
                            old(self).manager.groups@[p].global_index,
                        )
                    }),
                    None => true,
                })
            },
            r matches Err(e) ==> (e == ConvoError::GroupUnknown || e
                == ConvoError::UnexpectedProposal || e == ConvoError::MessageMalformed || e
                == ConvoError::EpochAdvanceFailed || e == ConvoError::EngineFailure),
    {
        let mut index: u64 = 0;
        match group_id {
            Some(g) => {
                match self.manager.group_get_index(g) {
                    Ok(idx) => {
                        index = idx;
                    },
                    Err(_) => {},
                }
            },
            None => {},
        }
        let gid_arg: Option<Vec<u8>> = match group_id {
            Some(g) => Some(clone_bytes(g)),
            None => None,
        };
        proof {
            match group_id {
                Some(g) => {
                    assert(gid_arg.deep_view() == Some(g@));
                },
                None => {
                    assert(gid_arg.deep_view() == None::<Seq<u8>>);
                },
            }
        }
        let fetched = match server.client_get_new_messages(
            gid_arg,
            self.user_id.clone(),
            index,
            now,
        ) {
            Ok(v) => v,
            Err(e) => {
                return Err(e);
            },
        };
        let ghost fdv = fetched.deep_view();
        let mut filtered: Vec<ConvoMessage> = Vec::new();
        let n = fetched.len();
        for i in 0..n
            invariant
                n == fetched@.len(),
                fdv == fetched.deep_view(),
                fdv.len() == n,
                self.user_id == old(self).user_id,
                filtered.deep_view() == fdv.take(i as int).filter(not_from(self.user_id@)),
        {
            let ghost prev = filtered.deep_view();
            let keep = fetched[i].sender_id != self.user_id;
            if keep {
                filtered.push(fetched[i].clone());
            }
            proof {
                reveal(Seq::filter);
                assert(fdv.take(i + 1).drop_last() =~= fdv.take(i as int));
                assert(fdv.take(i + 1).drop_last() == fdv.take(i as int));
                assert(fdv.take(i + 1).last() == fdv[i as int]);
                assert(fdv[i as int] == fetched@[i as int]@);
                assert(not_from(self.user_id@)(fdv[i as int]) == keep);
                if keep {
                    assert(filtered.deep_view() =~= prev.push(fdv[i as int]));
                    assert(filtered.deep_view() == fdv.take(i + 1).filter(not_from(self.user_id@)));
                } else {
                    assert(filtered.deep_view() == fdv.take(i + 1).filter(not_from(self.user_id@)));
                }
            }
        }
        proof {
            assert(fdv.take(n as int) =~= fdv);
            let me = self.user_id@;
            let kept = fdv.filter(not_from(me));
            assert forall|k: int| 0 <= k < kept.len() implies kept[k].sender_id != me by {
                fdv.lemma_filter_pred(not_from(me), k);
                assert(not_from(me)(kept[k]));
            }
        }
        let result = clone_messages(&filtered);
        proof {
            assert(result.deep_view() =~= filtered.deep_view());
            assert forall|k: int| 0 <= k < result@.len() implies (#[trigger] result@[k])@.sender_id
                != self.user_id@ by {
                assert(result@[k]@ == result.deep_view()[k]);
            }
        }
        self.manager.process_convo_messages(filtered, group_id, now)?;
        Ok(result)
    }

    /// The named group's current ledger index.
    pub fn get_group_index(&mut self, server: &ConvoServer, group_id: &Vec<u8>) -> (r: Result<
        u64,
        ConvoError,
    >)
        requires
            server.wf(),
        ensures
            *final(self) == *old(self),
            r is Ok <==> has_group(server.groups@, group_id@),
            r matches Ok(idx) ==> idx == group_of(server.groups@, group_id@).global_index,
            r matches Err(e) ==> e == ConvoError::GroupUnknown,
    {
        server.client_get_group_index(clone_bytes(group_id), self.user_id.clone())
    }

    /// The pre-send reconciliation: poll and process everything new for the
    /// group, then overwrite the local index with the ledger's, so the next
    /// send proposes exactly the ledger's successor index.
    pub fn sync_group(&mut self, server: &mut ConvoServer, group_id: &Vec<u8>, now: u64) -> (r:
        Result<(), ConvoError>)
        requires
            old(self).wf(),
            old(server).wf(),
        ensures
            final(self).wf(),
            final(server).wf(),
            final(self).user_id == old(self).user_id,
            final(server).groups == old(server).groups,
            r is Ok ==> {
                &&& has_lgroup(final(self).manager.groups@, group_id@)
                &&& has_group(final(server).groups@, group_id@)
                &&& lgroup_of(final(self).manager.groups@, group_id@).global_index == group_of(
                    final(server).groups@,
                    group_id@,
                ).global_index
            },
            r matches Err(e) ==> (e == ConvoError::GroupUnknown || e
                == ConvoError::UnexpectedProposal || e == ConvoError::MessageMalformed || e
                == ConvoError::EpochAdvanceFailed || e == ConvoError::EngineFailure),
    {
        let _messages = self.check_incoming_messages(server, Some(group_id), now)?;
        let group_index = self.get_group_index(server, group_id)?;
        self.manager.group_set_index(group_id, group_index)?;
        proof {
            assert(lgroup_of(self.manager.groups@, group_id@).global_index == group_index);
        }
        Ok(())
    }

    /// Send one message: sync first, encrypt, and propose the ledger's
    /// successor index. On acceptance the local index advances and the text
    /// joins this user's own transcript; on refusal the transcript records
    /// a failed send instead.
    pub fn send_message(
        &mut self,
        server: &mut ConvoServer,
        group_id: &Vec<u8>,
        text: String,
        now: u64,
    ) -> (r: Result<(), ConvoError>)
        requires
            old(self).wf(),
            old(server).wf(),
        ensures
            final(self).wf(),
            final(server).wf(),
            final(self).user_id == old(self).user_id,
            r is Ok ==> {
                let g = group_pos(old(server).groups@, group_id@);
                &&& has_group(old(server).groups@, group_id@)
                &&& final(server).groups@[g].messages@.len() == old(
                    server,
                ).groups@[g].messages@.len() + 1
                &&& final(server).groups@[g].messages@.last()@.sender_id == old(self).user_id@
                &&& final(server).groups@[g].messages@.drop_last() == old(
                    server,
                ).groups@[g].messages@
                &&& has_lgroup(final(self).manager.groups@, group_id@)
                &&& lgroup_of(final(self).manager.groups@, group_id@).global_index == group_of(
                    final(server).groups@,
                    group_id@,
                ).global_index
                &&& lgroup_of(final(self).manager.groups@, group_id@).decrypted@.last()@ == (
                MessageItemView { text: text@, sender_id: old(self).user_id@, timestamp: now })
            },
            // the mandatory pre-send sync pins the proposed index, so the
            // ledger can only find it stale when it can no longer grow; a
            // refusal is recorded in the group's own transcript
            (r matches Err(e) && e == ConvoError::IndexStale) ==> ({
                let g = lgroup_of(final(self).manager.groups@, group_id@);
                &&& has_group(old(server).groups@, group_id@)
                &&& group_of(old(server).groups@, group_id@).global_index == u64::MAX
                &&& has_lgroup(final(self).manager.groups@, group_id@)
                &&& g.decrypted@.len() > 0
                &&& g.decrypted@.last()@ == (MessageItemView {
                    text: "<message_failed to send!>"@,
                    sender_id: old(self).user_id@,
                    timestamp: now,
                })
            }),
            r matches Err(e) ==> e != ConvoError::IndexAhead,
            r matches Err(e) ==> (e == ConvoError::GroupUnknown || e
                == ConvoError::UnexpectedProposal || e == ConvoError::MessageMalformed || e
                == ConvoError::EpochAdvanceFailed || e == ConvoError::EngineFailure || e
                == ConvoError::IndexStale),
    {
        self.sync_group(server, group_id, now)?;
        let msg = self.manager.create_message(group_id, text.clone())?;
        let local_index = match self.manager.group_get_index(group_id) {
            Ok(idx) => idx,
            Err(e) => {
                return Err(e);
            },
        };
        if local_index == u64::MAX {
            self.record_failed_send(group_id, now);
            return Err(ConvoError::IndexStale);
        }
        let expected: u64 = local_index + 1;
        match server.client_send_message(
            clone_bytes(group_id),
            self.user_id.clone(),
            msg,
            expected,
            now,
        ) {
            Ok(()) => {
                self.manager.group_set_index(group_id, expected)?;
                self.manager.group_push_message(group_id, text, self.user_id.clone(), now)?;
                Ok(())
            },
            Err(e) => {
                self.record_failed_send(group_id, now);
                Err(e)
            },
        }
    }

    /// Append the in-band marker for a send the ledger refused: when the
    /// group exists locally, its transcript gains one line saying so.
    fn record_failed_send(&mut self, group_id: &Vec<u8>, now: u64)
        requires
            old(self).wf(),
        ensures
            final(self).wf(),
            final(self).user_id == old(self).user_id,
            has_lgroup(old(self).manager.groups@, group_id@) ==> ({
                let g = lgroup_of(final(self).manager.groups@, group_id@);
                &&& has_lgroup(final(self).manager.groups@, group_id@)
                &&& g.decrypted@.len() > 0
                &&& g.decrypted@.last()@ == (MessageItemView {
                    text: "<message_failed to send!>"@,
                    sender_id: old(self).user_id@,
                    timestamp: now,
                })
            }),
    {
        let marker = "<message_failed to send!>".to_owned();
        let sender = self.user_id.clone();
        let pushed = self.manager.group_push_message(group_id, marker, sender, now);
        proof {
            if has_lgroup(old(self).manager.groups@, group_id@) {
                assert(pushed is Ok);
                let p = lgroup_pos(old(self).manager.groups@, group_id@);
                assert(self.manager.groups@[p].id == old(self).manager.groups@[p].id);
                assert(has_lgroup(self.manager.groups@, group_id@));
                assert(lgroup_pos(self.manager.groups@, group_id@) == p);
            }
        }
    }

    /// The named group's decrypted transcript.
    pub fn get_group_messages(&self, group_id: &Vec<u8>) -> (r: Result<&Vec<MessageItem>, ConvoError>)
        requires
            self.wf(),
        ensures
            r is Ok <==> has_lgroup(self.manager.groups@, group_id@),
            r matches Ok(v) ==> v@ == lgroup_of(self.manager.groups@, group_id@).decrypted@,
            r matches Err(e) ==> e == ConvoError::GroupUnknown,
    {
        let n = self.manager.groups.len();
        for i in 0..n
            invariant
                self.manager.wf(),
                n == self.manager.groups@.len(),
                forall|k: int| 0 <= k < i ==> (#[trigger] self.manager.groups@[k]).id@
                    != group_id@,
        {
            if self.manager.groups[i].id == *group_id {
                proof {
                    assert(self.manager.groups@[i as int].id@ =~= group_id@);
                    assert(has_lgroup(self.manager.groups@, group_id@));
                    assert(lgroup_pos(self.manager.groups@, group_id@) == i as int);
                }
                return Ok(&self.manager.groups[i].decrypted);
            }
        }
        Err(ConvoError::GroupUnknown)
    }

    /// The transcript rendered one line per entry, as "name: text", with
    /// the sender resolved through the display cache.
    pub fn get_renderable_messages(&self, group_id: &Vec<u8>) -> (r: Result<Vec<String>, ConvoError>)
        requires
            self.wf(),
        ensures
            !has_lgroup(self.manager.groups@, group_id@) ==> (r matches Err(e) && e
                == ConvoError::GroupUnknown),
            r matches Ok(v) ==> v@.len() == lgroup_of(
                self.manager.groups@,
                group_id@,
            ).decrypted@.len(),
            r matches Err(e) ==> (e == ConvoError::GroupUnknown || e == ConvoError::UserUnknown),
    {
        let messages = self.get_group_messages(group_id)?;
        let mut out: Vec<String> = Vec::new();
        let n = messages.len();
        for i in 0..n
            invariant
                n == messages@.len(),
                messages@ == lgroup_of(self.manager.groups@, group_id@).decrypted@,
                has_lgroup(self.manager.groups@, group_id@),
                out@.len() == i,
        {
            let sender_name = match self.lookup_name(&messages[i].sender_id) {
                Some(name) => name,
                None => {
                    return Err(ConvoError::UserUnknown);
                },
            };
            let line = sender_name.concat(": ").concat(messages[i].text.as_str());
            out.push(line);
        }
        Ok(out)
    }

    /// The cached display name for an identity.
    fn lookup_name(&self, id: &String) -> (r: Option<String>)
    {
        let n = self.id_to_name.len();
        for i in 0..n
            invariant
                n == self.id_to_name@.len(),
        {
            if self.id_to_name[i].0 == *id {
                return Some(self.id_to_name[i].1.clone());
            }
        }
        None
    }

    /// The identity behind a display name, from the cache.
    pub fn name_to_id(&self, user_name: &String) -> (r: Result<String, ConvoError>)
        ensures
            r matches Ok(id) ==> exists|k: int|
                0 <= k < self.id_to_name@.len() && (#[trigger] self.id_to_name@[k]).1@
                    == user_name@ && self.id_to_name@[k].0@ == id@,
            r matches Err(e) ==> e == ConvoError::UserUnknown,
    {
        let n = self.id_to_name.len();
        for i in 0..n
            invariant
                n == self.id_to_name@.len(),
        {
            if self.id_to_name[i].1 == *user_name {
                return Ok(self.id_to_name[i].0.clone());
            }
        }
        Err(ConvoError::UserUnknown)
    }
}


impl ConvoClient {
    /// Create a group and invite every named user into it in one stroke.
    /// Each failed invite is recorded in the group's transcript and does
    /// not abort the rest of the batch.
    pub fn create_group_with_users(
        &mut self,
        server: &mut ConvoServer,
        group_name: String,
        user_ids: Vec<String>,
        now: u64,
    ) -> (r: Result<Vec<u8>, ConvoError>)
        requires
            old(self).wf(),
            old(server).wf(),
        ensures
            final(self).wf(),
            final(server).wf(),
            final(self).user_id == old(self).user_id,
            // each member's invite outcome is recorded in the transcript and
            // never aborts the batch: on success the transcript holds the
            // creation notes, one line per listed member, and the closing
            // note last
            r matches Ok(gid) ==> ({
                let g = lgroup_of(final(self).manager.groups@, gid@);
                &&& has_lgroup(final(self).manager.groups@, gid@)
                &&& g.name@ == group_name@
                &&& g.decrypted@.len() == user_ids@.len() + 3
                &&& g.decrypted@.last()@ == (MessageItemView {
                    text: "<finished_creating_group>"@,
                    sender_id: old(self).user_id@,
                    timestamp: now,
                })
            }),
            r matches Err(e) ==> (e == ConvoError::EngineFailure || e == ConvoError::GroupExists
                || e == ConvoError::UserUnknown),
    {
        let group_id = self.create_group(server, group_name, now)?;
        let ghost gname = crate::manager::lgroup_of(self.manager.groups@, group_id@).name@;
        proof {
            assert(lgroup_of(self.manager.groups@, group_id@).decrypted@.len() == 1);
        }
        let key_packages = match self.get_user_key_packages(server, &user_ids) {
            Ok(kps) => kps,
            Err(e) => {
                let note = "<error_getting_key_packages>".to_owned();
                let _ = self.manager.group_push_message(
                    &group_id,
                    note,
                    self.user_id.clone(),
                    now,
                );
                return Err(e);
            },
        };
        let note = "<group_created>".to_owned();
        let _ = self.manager.group_push_message(&group_id, note, self.user_id.clone(), now);
        let n = key_packages.len();
        for i in 0..n
            invariant
                self.wf(),
                server.wf(),
                self.user_id == old(self).user_id,
                n == key_packages@.len(),
                has_lgroup(self.manager.groups@, group_id@),
                lgroup_of(self.manager.groups@, group_id@).name@ == gname,
                lgroup_of(self.manager.groups@, group_id@).decrypted@.len() == 2 + i,
        {
            let ghost groups_pre = self.manager.groups@;
            let (receiver_id, key_package) = (
                key_packages[i].0.clone(),
                clone_bytes(&key_packages[i].1),
            );
            let gid = clone_bytes(&group_id);
            let invited = self.invite_user_to_group(
                server,
                receiver_id.clone(),
                gid,
                key_package,
                now,
            );
            proof {
                assert(crate::manager::same_rosters(groups_pre, self.manager.groups@));
                crate::manager::lemma_roster_lookup(groups_pre, self.manager.groups@, group_id@);
            }
            let ghost groups_mid = self.manager.groups@;
            let line = match invited {
                Ok(()) => "<".to_owned().concat(receiver_id.as_str()).concat(
                    "> joined the group",
                ),
                Err(_) => "<failed_to_invite_user: ".to_owned().concat(receiver_id.as_str()).concat(
                    ">",
                ),
            };
            let pushed = self.manager.group_push_message(&group_id, line, self.user_id.clone(), now);
            proof {
                match pushed {
                    Ok(()) => {
                        assert(crate::manager::same_rosters(groups_mid, self.manager.groups@));
                    },
                    Err(_) => {},
                }
                crate::manager::lemma_roster_lookup(groups_mid, self.manager.groups@, group_id@);
            }
        }
        let note = "<finished_creating_group>".to_owned();
        let _ = self.manager.group_push_message(&group_id, note, self.user_id.clone(), now);
        Ok(group_id)
    }
}

} // verus!
