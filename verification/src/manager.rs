//! The per-user cryptographic engine: it owns the user's MLS credential and
//! signature key, every local group's ratcheting state, the decrypted
//! transcripts, and the list of invites delivered but not yet accepted.
//! The MLS operations themselves run behind the wrappers in [`crate::mls`];
//! everything this module states and proves is about the bookkeeping around
//! them: which groups exist, what the transcripts hold, how indices move,
//! and how pending invites are queued and drained.

use vstd::prelude::*;

use openmls::group::MlsGroup;
use openmls::prelude::CredentialWithKey;
use openmls_basic_credential::SignatureKeyPair;
use openmls_rust_crypto::OpenMlsRustCrypto;

use crate::mls;
use crate::mls::MlsContent;
use crate::types::{clone_bytes, ConvoError, ConvoInvite, ConvoInviteView, ConvoMessage,
    ConvoMessageView, MessageItem, MessageItemView};
use crate::utils::{b64_decoded, b64_of, utf8_decoded, BufferConverter};

verus! {

/// One group as this user holds it: the MLS state plus bookkeeping.
#[derive(Debug)]
pub struct LocalGroup {
    pub id: Vec<u8>,
    pub name: String,
    pub global_index: u64,
    pub mls_group: MlsGroup,
    pub decrypted: Vec<MessageItem>,
}

impl LocalGroup {
    /// Wrap a fresh MLS group under a display name, at index 0 with an
    /// empty transcript.
    pub fn new(name: String, mls_group: MlsGroup) -> (r: LocalGroup)
        ensures
            r.name@ == name@,
            r.global_index == 0,
            r.decrypted@.len() == 0,
    {
        let id = mls::mls_group_id(&mls_group);
        LocalGroup { id, name, global_index: 0, mls_group, decrypted: Vec::new() }
    }
}

/// What one processed incoming frame produced: a decrypted application
/// message, an invite to pass on (for an external join), or neither.
#[derive(Debug)]
pub struct ProcessedResults {
    pub message: Option<String>,
    pub invite: Option<ConvoInvite>,
}

/// The engine's persistent state in plain values: the TLS-serialized
/// signer, the bincode-serialized credential, the provider's key-value
/// storage with base64 keys, and the name-to-id map of the groups.
#[derive(Debug, Clone)]
pub struct SerializedCredentials {
    pub signer: Vec<u8>,
    pub serialized_credential_with_key: Vec<u8>,
    pub storage: Vec<(String, Vec<u8>)>,
    pub group_names: Vec<String>,
    pub group_name_to_id: Vec<(String, Vec<u8>)>,
}

/// Whether `gid` names one of the engine's groups.
pub open spec fn has_lgroup(groups: Seq<LocalGroup>, gid: Seq<u8>) -> bool {
    exists|i: int| 0 <= i < groups.len() && (#[trigger] groups[i]).id@ == gid
}

/// The position of the group named `gid`, unique under [`ConvoManager::wf`].
pub open spec fn lgroup_pos(groups: Seq<LocalGroup>, gid: Seq<u8>) -> int {
    choose|i: int| 0 <= i < groups.len() && (#[trigger] groups[i]).id@ == gid
}

/// The group named `gid`.
pub open spec fn lgroup_of(groups: Seq<LocalGroup>, gid: Seq<u8>) -> LocalGroup {
    groups[lgroup_pos(groups, gid)]
}

/// The bookkeeping of two group lists agrees except that one group's MLS
/// state may have moved: same length, ids, names, indices and transcripts.
pub open spec fn same_books(pre: Seq<LocalGroup>, post: Seq<LocalGroup>) -> bool {
    &&& post.len() == pre.len()
    &&& forall|k: int|
        0 <= k < pre.len() ==> (#[trigger] post[k]).id == pre[k].id && post[k].name == pre[k].name
            && post[k].global_index == pre[k].global_index && post[k].decrypted == pre[k].decrypted
}

/// Two group lists carry the same groups: same length, ids and names.
pub open spec fn same_rosters(pre: Seq<LocalGroup>, post: Seq<LocalGroup>) -> bool {
    &&& post.len() == pre.len()
    &&& forall|k: int|
        0 <= k < pre.len() ==> (#[trigger] post[k]).id == pre[k].id && post[k].name == pre[k].name
}

/// Roster preservation composes across two steps.
pub proof fn lemma_rosters_transitive(a: Seq<LocalGroup>, b: Seq<LocalGroup>, c: Seq<LocalGroup>)
    requires
        same_rosters(a, b),
        same_rosters(b, c),
    ensures
        same_rosters(a, c),
{
    assert forall|k: int|
        0 <= k < a.len() implies (#[trigger] c[k]).id == a[k].id && c[k].name == a[k].name by {
        assert(b[k].id == a[k].id && b[k].name == a[k].name);
        assert(c[k].id == b[k].id && c[k].name == b[k].name);
    }
}

/// Group lookup is stable under any change that keeps the roster: the
/// group keeps its position, id and name.
pub proof fn lemma_roster_lookup(pre: Seq<LocalGroup>, post: Seq<LocalGroup>, gid: Seq<u8>)
    requires
        same_rosters(pre, post),
        forall|i: int, j: int|
            0 <= i < j < pre.len() ==> (#[trigger] pre[i]).id@ != (#[trigger] pre[j]).id@,
        has_lgroup(pre, gid),
    ensures
        has_lgroup(post, gid),
        lgroup_pos(post, gid) == lgroup_pos(pre, gid),
        lgroup_of(post, gid).id == lgroup_of(pre, gid).id,
        lgroup_of(post, gid).name == lgroup_of(pre, gid).name,
{
    let p = lgroup_pos(pre, gid);
    assert(pre[p].id@ == gid);
    assert(post[p].id@ == gid);
    assert(has_lgroup(post, gid));
    let q = lgroup_pos(post, gid);
    assert(pre[q].id@ == gid);
    assert(q == p);
}

/// Every group except (at most) the one at position `k` is unchanged, in
/// full, cryptographic state included.
pub open spec fn only_group_changed(pre: Seq<LocalGroup>, post: Seq<LocalGroup>, k: int) -> bool {
    &&& post.len() == pre.len()
    &&& forall|j: int| 0 <= j < pre.len() && j != k ==> (#[trigger] post[j]) == pre[j]
}

/// Like [`same_books`], except that group `k`'s transcript gained `item`.
pub open spec fn same_books_but_transcript(
    pre: Seq<LocalGroup>,
    post: Seq<LocalGroup>,
    k: int,
    item: MessageItemView,
) -> bool {
    &&& post.len() == pre.len()
    &&& 0 <= k < pre.len()
    &&& forall|j: int|
        0 <= j < pre.len() ==> (#[trigger] post[j]).id == pre[j].id && post[j].name == pre[j].name
            && post[j].global_index == pre[j].global_index
    &&& forall|j: int|
        0 <= j < pre.len() && j != k ==> (#[trigger] post[j]).decrypted == pre[j].decrypted
    &&& post[k].decrypted.deep_view() == pre[k].decrypted.deep_view().push(item)
}

/// The invites that a batch of deliveries queues for this user: one per
/// delivery that carries an invite and was not authored by the user, in
/// delivery order.
pub open spec fn queued_invites(msgs: Seq<ConvoMessageView>, me: Seq<char>) -> Seq<ConvoInviteView>
    decreases msgs.len(),
{
    if msgs.len() == 0 {
        Seq::empty()
    } else {
        let rest = queued_invites(msgs.drop_last(), me);
        let m = msgs.last();
        if m.sender_id != me {
            match m.invite {
                Some(inv) => rest.push(inv),
                None => rest,
            }
        } else {
            rest
        }
    }
}

/// The largest index among the deliveries not authored by this user, or
/// `init` when none exceeds it.
pub open spec fn max_seen_index(msgs: Seq<ConvoMessageView>, me: Seq<char>, init: u64) -> u64
    decreases msgs.len(),
{
    if msgs.len() == 0 {
        init
    } else {
        let prev = max_seen_index(msgs.drop_last(), me, init);
        let m = msgs.last();
        if m.sender_id != me && m.global_index > prev {
            m.global_index
        } else {
            prev
        }
    }
}

/// Who a decrypted line is attributed to: the hinted sender, or a fixed
/// placeholder when the delivery carried no hint.
pub open spec fn sender_label(sender_id: Option<String>) -> Seq<char> {
    match sender_id {
        Some(s) => s@,
        None => "Unknown"@,
    }
}

/// Whether the persisted name-to-id map carries an id for the named group.
pub open spec fn has_name_pair(pairs: Seq<(String, Vec<u8>)>, name: Seq<char>) -> bool {
    exists|j: int| 0 <= j < pairs.len() && (#[trigger] pairs[j]).0@ == name
}

/// A group rehydrated from persisted state: its name and id come from one
/// pair of the persisted map, at index 0 with an empty transcript.
pub open spec fn rehydrated_from(pairs: Seq<(String, Vec<u8>)>, g: LocalGroup) -> bool {
    &&& exists|j: int|
        0 <= j < pairs.len() && g.name@ == (#[trigger] pairs[j]).0@ && g.id@ == pairs[j].1@
    &&& g.global_index == 0
    &&& g.decrypted@.len() == 0
}

/// The per-user MLS state manager.
pub struct ConvoManager {
    pub id: String,
    pub provider: OpenMlsRustCrypto,
    pub signer: SignatureKeyPair,
    pub credential_with_key: CredentialWithKey,
    pub groups: Vec<LocalGroup>,
    pub pending_invites: Vec<ConvoInvite>,
}

impl ConvoManager {
    /// The engine invariant: group ids are unique.
    pub open spec fn wf(self) -> bool {
        forall|i: int, j: int|
            0 <= i < j < self.groups@.len() ==> (#[trigger] self.groups@[i]).id@ != (
            #[trigger] self.groups@[j]).id@
    }

    /// A fresh engine for `id`: new credential and signature key under the
    /// fixed ciphersuite, no groups, no pending invites. Refused only when
    /// the crypto provider cannot produce key material.
    pub fn init(id: String) -> (r: Result<ConvoManager, ConvoError>)
        ensures
            r matches Ok(m) ==> {
                &&& m.wf()
                &&& m.id@ == id@
                &&& m.groups@.len() == 0
                &&& m.pending_invites@.len() == 0
            },
            r matches Err(e) ==> e == ConvoError::CredentialInvalid,
    {
        let provider = mls::new_provider();
        match mls::generate_credential_with_key(&id, &provider) {
            Some((credential_with_key, signer)) => Ok(
                ConvoManager {
                    id,
                    provider,
                    signer,
                    credential_with_key,
                    groups: Vec::new(),
                    pending_invites: Vec::new(),
                },
            ),
            None => Err(ConvoError::CredentialInvalid),
        }
    }

    /// Position of the group with the given id, if any.
    fn find_group(&self, group_id: &Vec<u8>) -> (r: Option<usize>)
        ensures
            match r {
                Some(i) => i < self.groups@.len() && self.groups@[i as int].id@ == group_id@,
                None => !has_lgroup(self.groups@, group_id@),
            },
    {
        let n = self.groups.len();
        for i in 0..n
            invariant
                n == self.groups@.len(),
                forall|k: int| 0 <= k < i ==> (#[trigger] self.groups@[k]).id@ != group_id@,
        {
            if self.groups[i].id == *group_id {
                return Some(i);
            }
        }
        None
    }

    /// Register a local group, replacing any previous group with the same
    /// id, as a fresh MLS group id never repeats in practice.
    fn insert_group(&mut self, group: LocalGroup)
        requires
            old(self).wf(),
        ensures
            final(self).wf(),
            final(self).id == old(self).id,
            final(self).pending_invites == old(self).pending_invites,
            has_lgroup(final(self).groups@, group.id@),
            lgroup_of(final(self).groups@, group.id@) == group,
            if has_lgroup(old(self).groups@, group.id@) {
                final(self).groups@ =~= old(self).groups@.update(
                    lgroup_pos(old(self).groups@, group.id@),
                    group,
                )
            } else {
                final(self).groups@ =~= old(self).groups@.push(group)
            },
    {
        let ghost gid = group.id@;
        match self.find_group(&group.id) {
            Some(i) => {
                proof {
                    assert(lgroup_pos(self.groups@, gid) == i as int);
                }
                self.groups[i] = group;
                proof {
                    assert(lgroup_pos(self.groups@, gid) == i as int);
                }
            },
            None => {
                self.groups.push(group);
                proof {
                    assert(self.groups@.last().id@ == gid);
                    assert(lgroup_pos(self.groups@, gid) == self.groups@.len() - 1);
                }
            },
        }
    }

    /// One fresh serialized key package under this engine's credential;
    /// every call produces new single-use key material.
    pub fn get_key_package(&self) -> (r: Result<Vec<u8>, ConvoError>)
        ensures
            r matches Err(e) ==> e == ConvoError::CredentialInvalid,
    {
        match mls::generate_key_package(&self.provider, &self.signer, &self.credential_with_key) {
            Some(bytes) => Ok(bytes),
            None => Err(ConvoError::CredentialInvalid),
        }
    }

    /// Create a fresh MLS group under `name`; the group id is chosen by the
    /// MLS layer and returned.
    pub fn create_group(&mut self, name: String) -> (r: Result<Vec<u8>, ConvoError>)
        requires
            old(self).wf(),
        ensures
            final(self).wf(),
            final(self).id == old(self).id,
            final(self).pending_invites == old(self).pending_invites,
            r matches Err(e) ==> e == ConvoError::EngineFailure && final(self).groups == old(
                self,
            ).groups,
            r matches Ok(gid) ==> {
                &&& has_lgroup(final(self).groups@, gid@)
                &&& lgroup_of(final(self).groups@, gid@).name@ == name@
                &&& lgroup_of(final(self).groups@, gid@).global_index == 0
                &&& lgroup_of(final(self).groups@, gid@).decrypted@.len() == 0
                &&& (if has_lgroup(old(self).groups@, gid@) {
                    final(self).groups@ =~= old(self).groups@.update(
                        lgroup_pos(old(self).groups@, gid@),
                        lgroup_of(final(self).groups@, gid@),
                    )
                } else {
                    final(self).groups@ =~= old(self).groups@.push(
                        lgroup_of(final(self).groups@, gid@),
                    )
                })
            },
    {
        let mls_group = match mls::mls_group_new(
            &self.provider,
            &self.signer,
            &self.credential_with_key,
        ) {
            Some(g) => g,
            None => {
                return Err(ConvoError::EngineFailure);
            },
        };
        let group = LocalGroup::new(name, mls_group);
        let group_id = clone_bytes(&group.id);
        self.insert_group(group);
        Ok(group_id)
    }

    /// Drop a local group; the id may name no group, and then nothing
    /// changes.
    pub fn delete_group(&mut self, group_id: &Vec<u8>)
        requires
            old(self).wf(),
        ensures
            final(self).wf(),
            final(self).id == old(self).id,
            final(self).pending_invites == old(self).pending_invites,
            !has_lgroup(final(self).groups@, group_id@),
            if has_lgroup(old(self).groups@, group_id@) {
                final(self).groups@ =~= old(self).groups@.remove(
                    lgroup_pos(old(self).groups@, group_id@),
                )
            } else {
                final(self).groups == old(self).groups
            },
    {
        match self.find_group(group_id) {
            Some(i) => {
                proof {
                    assert(lgroup_pos(self.groups@, group_id@) == i as int);
                }
                let _ = self.groups.remove(i);
                proof {
                    assert forall|k: int|
                        0 <= k < self.groups@.len() implies (#[trigger] self.groups@[k]).id@
                        != group_id@ by {
                        if k < i as int {
                            assert(self.groups@[k] == old(self).groups@[k]);
                        } else {
                            assert(self.groups@[k] == old(self).groups@[k + 1]);
                        }
                    }
                }
            },
            None => {},
        }
    }

    /// The group's current epoch number, from the MLS layer.
    pub fn group_get_epoch(&self, group_id: &Vec<u8>) -> (r: Result<u64, ConvoError>)
        ensures
            r is Ok <==> has_lgroup(self.groups@, group_id@),
            r matches Err(e) ==> e == ConvoError::GroupUnknown,
    {
        match self.find_group(group_id) {
            Some(i) => Ok(mls::group_epoch(&self.groups[i].mls_group)),
            None => Err(ConvoError::GroupUnknown),
        }
    }

    /// Overwrite the group's mirror of the server index.
    pub fn group_set_index(&mut self, group_id: &Vec<u8>, index: u64) -> (r: Result<
        (),
        ConvoError,
    >)
        requires
            old(self).wf(),
        ensures
            final(self).wf(),
            final(self).id == old(self).id,
            final(self).pending_invites == old(self).pending_invites,
            r is Ok <==> has_lgroup(old(self).groups@, group_id@),
            r matches Err(e) ==> e == ConvoError::GroupUnknown && *final(self) == *old(self),
            r is Ok ==> {
                let g = lgroup_pos(old(self).groups@, group_id@);
                &&& final(self).groups@ =~= old(self).groups@.update(g, final(self).groups@[g])
                &&& final(self).groups@[g].global_index == index
                &&& final(self).groups@[g].id == old(self).groups@[g].id
                &&& final(self).groups@[g].name == old(self).groups@[g].name
                &&& final(self).groups@[g].decrypted == old(self).groups@[g].decrypted
                &&& final(self).groups@[g].mls_group == old(self).groups@[g].mls_group
            },
    {
        match self.find_group(group_id) {
            Some(i) => {
                proof {
                    assert(lgroup_pos(self.groups@, group_id@) == i as int);
                }
                let g = &mut self.groups[i];
                g.global_index = index;
                Ok(())
            },
            None => Err(ConvoError::GroupUnknown),
        }
    }

    /// The group's mirror of the server index.
    pub fn group_get_index(&self, group_id: &Vec<u8>) -> (r: Result<u64, ConvoError>)
        requires
            self.wf(),
        ensures
            r is Ok <==> has_lgroup(self.groups@, group_id@),
            r matches Ok(idx) ==> idx == lgroup_of(self.groups@, group_id@).global_index,
            r matches Err(e) ==> e == ConvoError::GroupUnknown,
    {
        match self.find_group(group_id) {
            Some(i) => {
                proof {
                    assert(lgroup_pos(self.groups@, group_id@) == i as int);
                }
                Ok(self.groups[i].global_index)
            },
            None => Err(ConvoError::GroupUnknown),
        }
    }

    /// Append one line to the group's visible transcript; used for the
    /// sender's own messages and for in-band system notices.
    pub fn group_push_message(
        &mut self,
        group_id: &Vec<u8>,
        message: String,
        sender_id: String,
        now: u64,
    ) -> (r: Result<(), ConvoError>)
        requires
            old(self).wf(),
        ensures
            final(self).wf(),
            final(self).id == old(self).id,
            final(self).pending_invites == old(self).pending_invites,
            r is Ok <==> has_lgroup(old(self).groups@, group_id@),
            r matches Err(e) ==> e == ConvoError::GroupUnknown && *final(self) == *old(self),
            r is Ok ==> {
                let g = lgroup_pos(old(self).groups@, group_id@);
                &&& final(self).groups@ =~= old(self).groups@.update(g, final(self).groups@[g])
                &&& final(self).groups@[g].decrypted@.len() == old(self).groups@[g].decrypted@.len()
                    + 1
                &&& final(self).groups@[g].decrypted@.drop_last() == old(
                    self,
                ).groups@[g].decrypted@
                &&& final(self).groups@[g].decrypted@.last()@ == (MessageItemView {
                    text: message@,
                    sender_id: sender_id@,
                    timestamp: now,
                })
                &&& final(self).groups@[g].id == old(self).groups@[g].id
                &&& final(self).groups@[g].name == old(self).groups@[g].name
                &&& final(self).groups@[g].global_index == old(self).groups@[g].global_index
                &&& final(self).groups@[g].mls_group == old(self).groups@[g].mls_group
            },
    {
        match self.find_group(group_id) {
            Some(i) => {
                proof {
                    assert(lgroup_pos(self.groups@, group_id@) == i as int);
                }
                let g = &mut self.groups[i];
                g.decrypted.push(MessageItem { text: message, sender_id, timestamp: now });
                Ok(())
            },
            None => Err(ConvoError::GroupUnknown),
        }
    }
}


impl ConvoManager {
    /// Accept an invite handed over as its separate parts.
    pub fn process_raw_invite(
        &mut self,
        sender_id: String,
        group_name: String,
        welcome_message: Vec<u8>,
        ratchet_tree: Option<Vec<u8>>,
        fanned: Option<Vec<u8>>,
    ) -> (r: Result<Vec<u8>, ConvoError>)
        requires
            old(self).wf(),
        ensures
            final(self).wf(),
            final(self).id == old(self).id,
            final(self).pending_invites == old(self).pending_invites,
            !crate::mls::welcome_parses(welcome_message@) ==> (r matches Err(e) && e
                == ConvoError::WelcomeInvalid),
            (r matches Err(e) && e == ConvoError::RatchetTreeInvalid) <==> (crate::mls::welcome_parses(
                welcome_message@,
            ) && (match ratchet_tree {
                Some(t) => !crate::mls::ratchet_tree_parses(t@),
                None => false,
            })),
            r matches Ok(gid) ==> {
                &&& has_lgroup(final(self).groups@, gid@)
                &&& lgroup_of(final(self).groups@, gid@).name@ == group_name@
                &&& lgroup_of(final(self).groups@, gid@).global_index == 0
            },
            r matches Err(e) ==> (e == ConvoError::WelcomeInvalid || e
                == ConvoError::RatchetTreeInvalid) && final(self).groups == old(self).groups,
    {
        self.process_invite(
            ConvoInvite {
                sender_id,
                group_name,
                welcome_message,
                ratchet_tree,
                global_index: 0,
                fanned,
            },
        )
    }

    /// Run a staged join from the invite's Welcome (and ratchet tree, when
    /// one is shipped) and promote it to a local group at the invite's
    /// index. The engine's pending list is not touched: draining it is the
    /// caller's decision.
    pub fn process_invite(&mut self, invite: ConvoInvite) -> (r: Result<Vec<u8>, ConvoError>)
        requires
            old(self).wf(),
        ensures
            final(self).wf(),
            final(self).id == old(self).id,
            final(self).pending_invites == old(self).pending_invites,
            !crate::mls::welcome_parses(invite.welcome_message@) ==> (r matches Err(e) && e
                == ConvoError::WelcomeInvalid),
            (r matches Err(e) && e == ConvoError::RatchetTreeInvalid) <==> (crate::mls::welcome_parses(
                invite.welcome_message@,
            ) && (match invite.ratchet_tree {
                Some(t) => !crate::mls::ratchet_tree_parses(t@),
                None => false,
            })),
            r matches Ok(gid) ==> {
                &&& has_lgroup(final(self).groups@, gid@)
                &&& lgroup_of(final(self).groups@, gid@).name@ == invite.group_name@
                &&& lgroup_of(final(self).groups@, gid@).global_index == invite.global_index
                &&& lgroup_of(final(self).groups@, gid@).decrypted@.len() == 0
            },
            r matches Err(e) ==> (e == ConvoError::WelcomeInvalid || e
                == ConvoError::RatchetTreeInvalid) && final(self).groups == old(self).groups,
    {
        let welcome = match mls::parse_welcome(&invite.welcome_message) {
            Some(w) => w,
            None => {
                return Err(ConvoError::WelcomeInvalid);
            },
        };
        let ratchet_tree = match &invite.ratchet_tree {
            Some(bytes) => match mls::parse_ratchet_tree(bytes) {
                Some(t) => Some(t),
                None => {
                    return Err(ConvoError::RatchetTreeInvalid);
                },
            },
            None => None,
        };
        let staged = match mls::stage_welcome(&self.provider, welcome, ratchet_tree) {
            Some(s) => s,
            None => {
                return Err(ConvoError::WelcomeInvalid);
            },
        };
        let new_group = match mls::staged_welcome_into_group(&self.provider, staged) {
            Some(g) => g,
            None => {
                return Err(ConvoError::WelcomeInvalid);
            },
        };
        let id = mls::mls_group_id(&new_group);
        let group_id = clone_bytes(&id);
        let group = LocalGroup {
            id,
            name: invite.group_name,
            global_index: invite.global_index,
            mls_group: new_group,
            decrypted: Vec::new(),
        };
        self.insert_group(group);
        Ok(group_id)
    }

    /// Admit a peer: validate their key package and build the add commit,
    /// without merging it. The result carries the Welcome for the joiner,
    /// the ratchet tree of the epoch the commit creates, the fanned commit
    /// for the existing members, and the group's current source index. The
    /// commit stays pending so that the admission and its delivery can act
    /// as one unit: the caller merges it with [`Self::confirm_invite`] once
    /// the ledger acknowledged, or discards it with [`Self::cancel_invite`].
    pub fn create_invite(&mut self, group_id: &Vec<u8>, serialized_key_package: Vec<u8>) -> (r:
        Result<ConvoInvite, ConvoError>)
        requires
            old(self).wf(),
        ensures
            final(self).wf(),
            final(self).id == old(self).id,
            final(self).pending_invites == old(self).pending_invites,
            same_books(old(self).groups@, final(self).groups@),
            !has_lgroup(old(self).groups@, group_id@) <==> (r matches Err(e) && e
                == ConvoError::GroupUnknown),
            r matches Err(e) ==> (e == ConvoError::GroupUnknown || e
                == ConvoError::KeyPackageInvalid || e == ConvoError::EngineFailure),
            r matches Ok(inv) ==> {
                &&& inv.sender_id@ == old(self).id@
                &&& inv.group_name@ == lgroup_of(old(self).groups@, group_id@).name@
                &&& inv.ratchet_tree is Some
                &&& inv.fanned is Some
                &&& inv.global_index == lgroup_of(old(self).groups@, group_id@).global_index
            },
    {
        let gi = match self.find_group(group_id) {
            Some(i) => i,
            None => {
                return Err(ConvoError::GroupUnknown);
            },
        };
        proof {
            assert(has_lgroup(self.groups@, group_id@));
            assert(lgroup_pos(self.groups@, group_id@) == gi as int);
        }
        let key_package = match mls::validate_key_package(&self.provider, &serialized_key_package) {
            Some(kp) => kp,
            None => {
                return Err(ConvoError::KeyPackageInvalid);
            },
        };
        let group = &mut self.groups[gi];
        let (fanned, welcome) = match mls::add_member(
            &self.provider,
            &self.signer,
            &mut group.mls_group,
            key_package,
        ) {
            Some(pair) => pair,
            None => {
                return Err(ConvoError::EngineFailure);
            },
        };
        let ratchet_tree = match mls::pending_commit_ratchet_tree(&self.provider, &group.mls_group) {
            Some(t) => t,
            None => {
                // the commit cannot be shipped; discard it rather than
                // leave the group stuck behind a pending commit
                let _ = mls::clear_pending_commit(&self.provider, &mut group.mls_group);
                return Err(ConvoError::EngineFailure);
            },
        };
        let group_name = group.name.clone();
        let index = group.global_index;
        Ok(
            ConvoInvite {
                sender_id: self.id.clone(),
                group_name,
                welcome_message: welcome,
                ratchet_tree: Some(ratchet_tree),
                global_index: index,
                fanned: Some(fanned),
            },
        )
    }

    /// Merge the pending add commit of [`Self::create_invite`], advancing
    /// this engine's epoch; called once the ledger accepted the invite, so
    /// the inviter advances first and the admission acted as one unit.
    pub fn confirm_invite(&mut self, group_id: &Vec<u8>) -> (r: Result<(), ConvoError>)
        requires
            old(self).wf(),
        ensures
            final(self).wf(),
            final(self).id == old(self).id,
            final(self).pending_invites == old(self).pending_invites,
            same_books(old(self).groups@, final(self).groups@),
            !has_lgroup(old(self).groups@, group_id@) <==> (r matches Err(e) && e
                == ConvoError::GroupUnknown),
            r matches Err(e) ==> (e == ConvoError::GroupUnknown || e
                == ConvoError::EpochAdvanceFailed),
    {
        let gi = match self.find_group(group_id) {
            Some(i) => i,
            None => {
                return Err(ConvoError::GroupUnknown);
            },
        };
        proof {
            assert(has_lgroup(self.groups@, group_id@));
        }
        let group = &mut self.groups[gi];
        if !mls::merge_pending_commit(&self.provider, &mut group.mls_group) {
            return Err(ConvoError::EpochAdvanceFailed);
        }
        Ok(())
    }

    /// Discard the pending add commit of [`Self::create_invite`], leaving
    /// the group's epoch as it was; called when the ledger refused the
    /// invite, so no local-only epoch is left behind.
    pub fn cancel_invite(&mut self, group_id: &Vec<u8>) -> (r: Result<(), ConvoError>)
        requires
            old(self).wf(),
        ensures
            final(self).wf(),
            final(self).id == old(self).id,
            final(self).pending_invites == old(self).pending_invites,
            same_books(old(self).groups@, final(self).groups@),
            !has_lgroup(old(self).groups@, group_id@) <==> (r matches Err(e) && e
                == ConvoError::GroupUnknown),
            r matches Err(e) ==> (e == ConvoError::GroupUnknown || e == ConvoError::EngineFailure),
    {
        let gi = match self.find_group(group_id) {
            Some(i) => i,
            None => {
                return Err(ConvoError::GroupUnknown);
            },
        };
        proof {
            assert(has_lgroup(self.groups@, group_id@));
        }
        let group = &mut self.groups[gi];
        if !mls::clear_pending_commit(&self.provider, &mut group.mls_group) {
            return Err(ConvoError::EngineFailure);
        }
        Ok(())
    }

    /// Encrypt one application message under the group's current epoch.
    pub fn create_message(&mut self, group_id: &Vec<u8>, message: String) -> (r: Result<
        Vec<u8>,
        ConvoError,
    >)
        requires
            old(self).wf(),
        ensures
            final(self).wf(),
            final(self).id == old(self).id,
            final(self).pending_invites == old(self).pending_invites,
            same_books(old(self).groups@, final(self).groups@),
            !has_lgroup(old(self).groups@, group_id@) <==> (r matches Err(e) && e
                == ConvoError::GroupUnknown),
            r matches Err(e) ==> (e == ConvoError::GroupUnknown || e == ConvoError::EngineFailure),
    {
        let gi = match self.find_group(group_id) {
            Some(i) => i,
            None => {
                return Err(ConvoError::GroupUnknown);
            },
        };
        proof {
            assert(has_lgroup(self.groups@, group_id@));
        }
        let group = &mut self.groups[gi];
        match mls::create_application_message(
            &self.provider,
            &self.signer,
            &mut group.mls_group,
            &message,
        ) {
            Some(bytes) => Ok(bytes),
            None => Err(ConvoError::EngineFailure),
        }
    }

    /// Decrypt and classify one incoming frame, routed to the group the
    /// frame's own header addresses. An application message joins that
    /// group's transcript; a staged commit advances its epoch; an external
    /// join proposal is committed and answered with a fresh invite for the
    /// proposer; a frame that does not parse, or whose ciphertext cannot be
    /// processed against the group's ratchet state, is dropped and reported
    /// as a decrypt failure, with the transcript untouched.
    #[verifier::rlimit(60)]
    pub fn process_message(
        &mut self,
        serialized_message: Vec<u8>,
        sender_id: Option<String>,
        now: u64,
    ) -> (r: Result<ProcessedResults, ConvoError>)
        requires
            old(self).wf(),
        ensures
            final(self).wf(),
            final(self).id == old(self).id,
            final(self).pending_invites == old(self).pending_invites,
            final(self).signer == old(self).signer,
            final(self).credential_with_key == old(self).credential_with_key,
            final(self).groups@.len() == old(self).groups@.len(),
            exists|k: int|
                #[trigger] only_group_changed(old(self).groups@, final(self).groups@, k),
            !crate::mls::frame_parses(serialized_message@) ==> (r matches Err(e) && e
                == ConvoError::DecryptFailed),
            (crate::mls::frame_parses(serialized_message@) && !has_lgroup(
                old(self).groups@,
                crate::mls::frame_group_id(serialized_message@),
            )) <==> (r matches Err(e) && e == ConvoError::GroupUnknown),
            r matches Ok(res) ==> (match res.message {
                Some(t) => exists|k: int|
                    #[trigger] same_books_but_transcript(
                        old(self).groups@,
                        final(self).groups@,
                        k,
                        MessageItemView {
                            text: t@,
                            sender_id: sender_label(sender_id),
                            timestamp: now,
                        },
                    ),
                None => same_books(old(self).groups@, final(self).groups@),
            }),
            r matches Ok(res) ==> (match res.invite {
                Some(inv) => inv.sender_id@ == old(self).id@ && inv.fanned is None
                    && inv.ratchet_tree is Some,
                None => true,
            }),
            r matches Err(e) ==> same_books(old(self).groups@, final(self).groups@) && (e
                == ConvoError::DecryptFailed || e == ConvoError::GroupUnknown || e
                == ConvoError::UnexpectedProposal || e == ConvoError::MessageMalformed || e
                == ConvoError::EpochAdvanceFailed || e == ConvoError::EngineFailure),
    {
        let ghost who0: Seq<char> = sender_label(sender_id);
        let (protocol_message, group_id) = match mls::parse_protocol_message(&serialized_message) {
            Some(p) => p,
            None => {
                proof {
                    assert(only_group_changed(old(self).groups@, self.groups@, 0));
                }
                return Err(ConvoError::DecryptFailed);
            },
        };
        let gi = match self.find_group(&group_id) {
            Some(i) => i,
            None => {
                proof {
                    assert(only_group_changed(old(self).groups@, self.groups@, 0));
                }
                return Err(ConvoError::GroupUnknown);
            },
        };
        proof {
            assert(has_lgroup(self.groups@, group_id@));
        }
        let content = {
            let group = &mut self.groups[gi];
            match mls::process_protocol_message(
                &self.provider,
                &mut group.mls_group,
                protocol_message,
            ) {
                Some(c) => c,
                None => {
                    // the frame is dropped; the transcript is untouched
                    proof {
                        assert(only_group_changed(old(self).groups@, self.groups@, gi as int));
                    }
                    return Err(ConvoError::DecryptFailed);
                },
            }
        };
        let result = match content {
            MlsContent::Application(bytes) => {
                let text = match crate::utils::utf8_to_string(bytes) {
                    Some(t) => t,
                    None => {
                        proof {
                            assert(only_group_changed(old(self).groups@, self.groups@, gi as int));
                        }
                        return Err(ConvoError::MessageMalformed);
                    },
                };
                let sender = match sender_id {
                    Some(s) => s,
                    None => "Unknown".to_owned(),
                };
                let group = &mut self.groups[gi];
                group.decrypted.push(
                    MessageItem { text: text.clone(), sender_id: sender, timestamp: now },
                );
                proof {
                    let itemv = MessageItemView { text: text@, sender_id: who0, timestamp: now };
                    assert(self.groups@[gi as int].decrypted@.last()@ =~= itemv);
                    assert(self.groups@[gi as int].decrypted.deep_view() =~= old(
                        self,
                    ).groups@[gi as int].decrypted.deep_view().push(itemv));
                    assert(same_books_but_transcript(
                        old(self).groups@,
                        self.groups@,
                        gi as int,
                        itemv,
                    ));
                }
                Ok(ProcessedResults { message: Some(text), invite: None })
            },
            MlsContent::Proposal => Err(ConvoError::UnexpectedProposal),
            MlsContent::ExternalJoin(proposal) => {
                let group = &mut self.groups[gi];
                if !mls::store_pending_proposal(&self.provider, &mut group.mls_group, proposal) {
                    proof {
                        assert(only_group_changed(old(self).groups@, self.groups@, gi as int));
                    }
                    return Err(ConvoError::EngineFailure);
                }
                let welcome = match mls::commit_to_pending_proposals(
                    &self.provider,
                    &self.signer,
                    &mut group.mls_group,
                ) {
                    Some(Some(w)) => w,
                    Some(None) => {
                        proof {
                            assert(only_group_changed(old(self).groups@, self.groups@, gi as int));
                        }
                        return Err(ConvoError::EngineFailure);
                    },
                    None => {
                        proof {
                            assert(only_group_changed(old(self).groups@, self.groups@, gi as int));
                        }
                        return Err(ConvoError::EngineFailure);
                    },
                };
                if !mls::merge_pending_commit(&self.provider, &mut group.mls_group) {
                    proof {
                        assert(only_group_changed(old(self).groups@, self.groups@, gi as int));
                    }
                    return Err(ConvoError::EpochAdvanceFailed);
                }
                let ratchet_tree = match mls::export_ratchet_tree(&group.mls_group) {
                    Some(t) => t,
                    None => {
                        proof {
                            assert(only_group_changed(old(self).groups@, self.groups@, gi as int));
                        }
                        return Err(ConvoError::EngineFailure);
                    },
                };
                let group_name = group.name.clone();
                let index = group.global_index;
                Ok(
                    ProcessedResults {
                        message: None,
                        invite: Some(
                            ConvoInvite {
                                sender_id: self.id.clone(),
                                group_name,
                                welcome_message: welcome,
                                ratchet_tree: Some(ratchet_tree),
                                global_index: index,
                                fanned: None,
                            },
                        ),
                    },
                )
            },
            MlsContent::Staged(commit) => {
                let group = &mut self.groups[gi];
                if !mls::merge_staged_commit(&self.provider, &mut group.mls_group, commit) {
                    proof {
                        assert(only_group_changed(old(self).groups@, self.groups@, gi as int));
                    }
                    return Err(ConvoError::EpochAdvanceFailed);
                }
                Ok(ProcessedResults { message: None, invite: None })
            },
            MlsContent::OwnMessage => Ok(ProcessedResults { message: None, invite: None }),
        };
        proof {
            assert(only_group_changed(old(self).groups@, self.groups@, gi as int));
        }
        result
    }
}


impl ConvoManager {
    /// Every member's raw credential payload decoded as text, in leaf
    /// order; each payload is the member's identity string.
    pub fn group_get_member_ids(&self, group_id: &Vec<u8>) -> (r: Result<Vec<String>, ConvoError>)
        ensures
            !has_lgroup(self.groups@, group_id@) <==> (r matches Err(e) && e
                == ConvoError::GroupUnknown),
            r matches Err(e) ==> (e == ConvoError::GroupUnknown || e
                == ConvoError::MessageMalformed),
    {
        let gi = match self.find_group(group_id) {
            Some(i) => i,
            None => {
                return Err(ConvoError::GroupUnknown);
            },
        };
        proof {
            assert(has_lgroup(self.groups@, group_id@));
        }
        let entries = mls::member_entries(&self.groups[gi].mls_group);
        let mut ids: Vec<String> = Vec::new();
        let n = entries.len();
        for k in 0..n
            invariant
                n == entries@.len(),
                has_lgroup(self.groups@, group_id@),
        {
            let bytes = crate::types::clone_bytes(&entries[k].1);
            match crate::utils::utf8_to_string(bytes) {
                Some(id) => ids.push(id),
                None => {
                    return Err(ConvoError::MessageMalformed);
                },
            }
        }
        Ok(ids)
    }

    /// Resolve a member's leaf index by matching their identity against the
    /// credential payloads in the group's tree; the removal target must be
    /// named explicitly.
    pub fn find_member_index(&self, group_id: &Vec<u8>, member_id: &String) -> (r: Result<
        u32,
        ConvoError,
    >)
        ensures
            !has_lgroup(self.groups@, group_id@) <==> (r matches Err(e) && e
                == ConvoError::GroupUnknown),
            r matches Err(e) ==> (e == ConvoError::GroupUnknown || e == ConvoError::UserUnknown),
    {
        let gi = match self.find_group(group_id) {
            Some(i) => i,
            None => {
                return Err(ConvoError::GroupUnknown);
            },
        };
        proof {
            assert(has_lgroup(self.groups@, group_id@));
        }
        let entries = mls::member_entries(&self.groups[gi].mls_group);
        let n = entries.len();
        for k in 0..n
            invariant
                n == entries@.len(),
                has_lgroup(self.groups@, group_id@),
        {
            let bytes = crate::types::clone_bytes(&entries[k].1);
            if let Some(id) = crate::utils::utf8_to_string(bytes) {
                if id == *member_id {
                    return Ok(entries[k].0);
                }
            }
        }
        Err(ConvoError::UserUnknown)
    }

    /// Remove the member at the given leaf index and merge the resulting
    /// commit. The result carries the fanned commit for the remaining
    /// members and, when MLS produced one, a Welcome.
    pub fn kick_member(&mut self, group_id: &Vec<u8>, member_index: u32) -> (r: Result<
        (Vec<u8>, Option<Vec<u8>>),
        ConvoError,
    >)
        requires
            old(self).wf(),
        ensures
            final(self).wf(),
            final(self).id == old(self).id,
            final(self).pending_invites == old(self).pending_invites,
            same_books(old(self).groups@, final(self).groups@),
            !has_lgroup(old(self).groups@, group_id@) <==> (r matches Err(e) && e
                == ConvoError::GroupUnknown),
            r matches Err(e) ==> (e == ConvoError::GroupUnknown || e == ConvoError::EngineFailure
                || e == ConvoError::EpochAdvanceFailed),
    {
        let gi = match self.find_group(group_id) {
            Some(i) => i,
            None => {
                return Err(ConvoError::GroupUnknown);
            },
        };
        proof {
            assert(has_lgroup(self.groups@, group_id@));
        }
        let group = &mut self.groups[gi];
        let (fanned, welcome) = match mls::remove_member_at(
            &self.provider,
            &self.signer,
            &mut group.mls_group,
            member_index,
        ) {
            Some(pair) => pair,
            None => {
                return Err(ConvoError::EngineFailure);
            },
        };
        if !mls::merge_pending_commit(&self.provider, &mut group.mls_group) {
            return Err(ConvoError::EpochAdvanceFailed);
        }
        Ok((fanned, welcome))
    }

    /// A signed external Add proposal for a group this engine is not a
    /// member of, at the epoch its members reported.
    pub fn request_join(&mut self, group_id: &Vec<u8>, epoch: u64) -> (r: Result<
        Vec<u8>,
        ConvoError,
    >)
        requires
            old(self).wf(),
        ensures
            final(self).wf(),
            *final(self) == *old(self),
            r matches Err(e) ==> (e == ConvoError::CredentialInvalid || e
                == ConvoError::KeyPackageInvalid || e == ConvoError::EngineFailure),
    {
        let kp_bytes = match mls::generate_key_package(
            &self.provider,
            &self.signer,
            &self.credential_with_key,
        ) {
            Some(b) => b,
            None => {
                return Err(ConvoError::CredentialInvalid);
            },
        };
        let key_package = match mls::validate_key_package(&self.provider, &kp_bytes) {
            Some(kp) => kp,
            None => {
                return Err(ConvoError::KeyPackageInvalid);
            },
        };
        match mls::external_join_proposal(&self.signer, group_id, epoch, key_package) {
            Some(bytes) => Ok(bytes),
            None => Err(ConvoError::EngineFailure),
        }
    }

    /// Take one batch of deliveries from a poll: entries this user authored
    /// are ignored; every carried invite joins the pending list in delivery
    /// order; every carried payload is processed as an incoming frame, an
    /// undecryptable one being dropped without aborting the batch; and the
    /// named group's index advances to the largest index seen.
    pub fn process_convo_messages(
        &mut self,
        messages: Vec<ConvoMessage>,
        group_id: Option<&Vec<u8>>,
        now: u64,
    ) -> (r: Result<(), ConvoError>)
        requires
            old(self).wf(),
        ensures
            final(self).wf(),
            final(self).id == old(self).id,
            same_rosters(old(self).groups@, final(self).groups@),
            (forall|i: int|
                0 <= i < messages.deep_view().len() ==> (#[trigger] messages.deep_view()[i]).sender_id
                    == old(self).id@) ==> *final(self) == *old(self),
            r is Ok ==> final(self).pending_invites.deep_view() == old(
                self,
            ).pending_invites.deep_view() + queued_invites(messages.deep_view(), old(self).id@),
            r is Ok ==> final(self).groups@.len() == old(self).groups@.len(),
            r is Ok ==> forall|j: int|
                0 <= j < old(self).groups@.len() ==> (#[trigger] final(self).groups@[j]).id == old(
                    self,
                ).groups@[j].id && final(self).groups@[j].name == old(self).groups@[j].name,
            r is Ok ==> (match group_id {
                Some(g) => has_lgroup(old(self).groups@, g@) ==> ({
                    let p = lgroup_pos(old(self).groups@, g@);
                    final(self).groups@[p].global_index == max_seen_index(
                        messages.deep_view(),
                        old(self).id@,
                        old(self).groups@[p].global_index,
                    )
                }),
                None => true,
            }),
            r matches Err(e) ==> (e == ConvoError::GroupUnknown || e
                == ConvoError::UnexpectedProposal || e == ConvoError::MessageMalformed || e
                == ConvoError::EpochAdvanceFailed || e == ConvoError::EngineFailure),
    {
        let ghost me = self.id@;
        let ghost mdv = messages.deep_view();
        let ghost pending0 = self.pending_invites.deep_view();
        let ghost groups0 = self.groups@;
        let n = messages.len();
        for i in 0..n
            invariant
                self.wf(),
                self.id == old(self).id,
                self.id@ == me,
                groups0 == old(self).groups@,
                n == messages@.len(),
                mdv == messages.deep_view(),
                mdv.len() == n,
                self.pending_invites.deep_view() =~= pending0 + queued_invites(
                    mdv.take(i as int),
                    me,
                ),
                self.groups@.len() == groups0.len(),
                forall|j: int|
                    0 <= j < groups0.len() ==> (#[trigger] self.groups@[j]).id == groups0[j].id
                        && self.groups@[j].name == groups0[j].name,
                match group_id {
                    Some(g) => has_lgroup(groups0, g@) ==> ({
                        let p = lgroup_pos(groups0, g@);
                        &&& lgroup_pos(self.groups@, g@) == p
                        &&& has_lgroup(self.groups@, g@)
                        &&& self.groups@[p].global_index == max_seen_index(
                            mdv.take(i as int),
                            me,
                            groups0[p].global_index,
                        )
                    }),
                    None => true,
                },
                (forall|q: int| 0 <= q < mdv.len() ==> (#[trigger] mdv[q]).sender_id == me)
                    ==> *self == *old(self),
        {
            let ghost giter = self.groups@;
            proof {
                assert(mdv.take(i + 1).drop_last() =~= mdv.take(i as int));
                assert(mdv.take(i + 1).last() == mdv[i as int]);
                assert(mdv[i as int] == messages@[i as int]@);
                assert(same_rosters(groups0, giter));
            }
            let message = &messages[i];
            if message.sender_id == self.id {
                proof {
                    assert(queued_invites(mdv.take(i + 1), me) =~= queued_invites(
                        mdv.take(i as int),
                        me,
                    ));
                }
            } else {
                match &message.invite {
                    Some(inv) => {
                        let ghost pend_pre = self.pending_invites.deep_view();
                        self.pending_invites.push(inv.clone());
                        proof {
                            assert(self.pending_invites.deep_view() =~= pend_pre.push(inv@));
                        }
                    },
                    None => {},
                }
                match &message.message {
                    Some(payload) => {
                        let bytes = clone_bytes(payload);
                        let sender = message.sender_id.clone();
                        match self.process_message(bytes, Some(sender), now) {
                            Ok(_) => {},
                            Err(e) => {
                                if e != ConvoError::DecryptFailed {
                                    proof {
                                        lemma_rosters_transitive(
                                            groups0,
                                            giter,
                                            self.groups@,
                                        );
                                    }
                                    return Err(e);
                                }
                                // the undecryptable frame is dropped and the
                                // batch goes on
                            },
                        }
                    },
                    None => {},
                }
                match group_id {
                    Some(g) => {
                        match self.find_group(g) {
                            Some(p) => {
                                proof {
                                    assert(lgroup_pos(self.groups@, g@) == p as int);
                                }
                                let cur = self.groups[p].global_index;
                                if message.global_index > cur {
                                    let gr = &mut self.groups[p];
                                    gr.global_index = message.global_index;
                                }
                            },
                            None => {
                                proof {
                                    lemma_rosters_transitive(groups0, giter, self.groups@);
                                }
                                return Err(ConvoError::GroupUnknown);
                            },
                        }
                    },
                    None => {},
                }
                proof {
                    let m = mdv[i as int];
                    assert(m.sender_id != me);
                    match m.invite {
                        Some(inv) => {
                            assert(queued_invites(mdv.take(i + 1), me) =~= queued_invites(
                                mdv.take(i as int),
                                me,
                            ).push(inv));
                        },
                        None => {
                            assert(queued_invites(mdv.take(i + 1), me) =~= queued_invites(
                                mdv.take(i as int),
                                me,
                            ));
                        },
                    }
                }
            }
        }
        proof {
            assert(mdv.take(n as int) =~= mdv);
        }
        Ok(())
    }

    /// Accept every pending invite in arrival order, then clear the list.
    pub fn accept_current_invites(&mut self) -> (r: Result<(), ConvoError>)
        requires
            old(self).wf(),
        ensures
            final(self).wf(),
            final(self).id == old(self).id,
            r is Ok ==> final(self).pending_invites@.len() == 0,
            r matches Err(e) ==> (e == ConvoError::WelcomeInvalid || e
                == ConvoError::RatchetTreeInvalid),
    {
        let n = self.pending_invites.len();
        for i in 0..n
            invariant
                self.wf(),
                self.id@ == old(self).id@,
                self.id == old(self).id,
                n == self.pending_invites@.len(),
        {
            let invite = self.pending_invites[i].clone();
            self.process_invite(invite)?;
        }
        self.pending_invites.clear();
        Ok(())
    }

    /// Accept the one pending invite whose Welcome matches, removing it
    /// from the pending list whatever the outcome of the join.
    pub fn accept_pending_invite(&mut self, welcome_message: Vec<u8>) -> (r: Result<
        Vec<u8>,
        ConvoError,
    >)
        requires
            old(self).wf(),
        ensures
            final(self).wf(),
            final(self).id == old(self).id,
            r matches Err(e) && e == ConvoError::InviteNotFound ==> *final(self) == *old(self)
                && (forall|k: int|
                0 <= k < old(self).pending_invites@.len() ==> (
                #[trigger] old(self).pending_invites@[k]).welcome_message@ != welcome_message@),
            !(r matches Err(e) && e == ConvoError::InviteNotFound) ==> exists|p: int|
                0 <= p < old(self).pending_invites@.len() && (
                #[trigger] old(self).pending_invites@[p]).welcome_message@ == welcome_message@
                    && final(self).pending_invites@ =~= old(self).pending_invites@.remove(p),
            r matches Ok(gid) ==> has_lgroup(final(self).groups@, gid@),
    {
        let n = self.pending_invites.len();
        let mut found: Option<usize> = None;
        for i in 0..n
            invariant
                n == self.pending_invites@.len(),
                match found {
                    Some(p) => p < n && self.pending_invites@[p as int].welcome_message@
                        == welcome_message@,
                    None => forall|k: int|
                        0 <= k < i ==> (#[trigger] self.pending_invites@[k]).welcome_message@
                            != welcome_message@,
                },
            {
            if found.is_none() && self.pending_invites[i].welcome_message == welcome_message {
                found = Some(i);
            }
        }
        match found {
            Some(p) => {
                let invite = self.pending_invites.remove(p);
                let group_id = self.process_invite(invite)?;
                Ok(group_id)
            },
            None => Err(ConvoError::InviteNotFound),
        }
    }

    /// Drop the one pending invite whose Welcome matches; doing nothing
    /// when none matches.
    pub fn reject_pending_invite(&mut self, welcome_message: Vec<u8>)
        requires
            old(self).wf(),
        ensures
            final(self).wf(),
            final(self).id == old(self).id,
            final(self).groups == old(self).groups,
            (forall|k: int|
                0 <= k < old(self).pending_invites@.len() ==> (
                #[trigger] old(self).pending_invites@[k]).welcome_message@ != welcome_message@)
                ==> *final(self) == *old(self),
            (exists|k: int|
                0 <= k < old(self).pending_invites@.len() && (
                #[trigger] old(self).pending_invites@[k]).welcome_message@ == welcome_message@)
                ==> exists|p: int|
                0 <= p < old(self).pending_invites@.len() && (
                #[trigger] old(self).pending_invites@[p]).welcome_message@ == welcome_message@
                    && final(self).pending_invites@ =~= old(self).pending_invites@.remove(p),
    {
        let n = self.pending_invites.len();
        let mut found: Option<usize> = None;
        for i in 0..n
            invariant
                n == self.pending_invites@.len(),
                match found {
                    Some(p) => p < n && self.pending_invites@[p as int].welcome_message@
                        == welcome_message@,
                    None => forall|k: int|
                        0 <= k < i ==> (#[trigger] self.pending_invites@[k]).welcome_message@
                            != welcome_message@,
                },
            {
            if found.is_none() && self.pending_invites[i].welcome_message == welcome_message {
                found = Some(i);
            }
        }
        match found {
            Some(p) => {
                let _ = self.pending_invites.remove(p);
            },
            None => {},
        }
    }

    /// The id of the first group whose member identities are exactly the
    /// given ones, in any order.
    pub fn get_group_id_with_users(&self, userids: &Vec<String>) -> (r: Result<
        Vec<u8>,
        ConvoError,
    >)
        ensures
            r matches Ok(gid) ==> has_lgroup(self.groups@, gid@),
            r matches Err(e) ==> (e == ConvoError::GroupUnknown || e
                == ConvoError::MessageMalformed),
    {
        let ng = self.groups.len();
        for gi in 0..ng
            invariant
                ng == self.groups@.len(),
        {
            let member_ids = self.group_get_member_ids(&self.groups[gi].id)?;
            if member_ids.len() == userids.len() {
                let mut all_in = true;
                let nm = member_ids.len();
                for mi in 0..nm
                    invariant
                        nm == member_ids@.len(),
                {
                    let mut present = false;
                    let nu = userids.len();
                    for ui in 0..nu
                        invariant
                            nu == userids@.len(),
                            nm == member_ids@.len(),
                            mi < nm,
                    {
                        if userids[ui] == member_ids[mi] {
                            present = true;
                        }
                    }
                    if !present {
                        all_in = false;
                    }
                }
                if all_in {
                    proof {
                        assert(has_lgroup(self.groups@, self.groups@[gi as int].id@));
                    }
                    return Ok(crate::types::clone_bytes(&self.groups[gi].id));
                }
            }
        }
        Err(ConvoError::GroupUnknown)
    }
}


/// Encode raw storage entries for persistence: each key becomes its
/// URL-safe base64 text, values are kept as they are.
pub fn encode_storage(entries: &Vec<(Vec<u8>, Vec<u8>)>) -> (r: Vec<(String, Vec<u8>)>)
    ensures
        r@.len() == entries@.len(),
        forall|k: int|
            0 <= k < entries@.len() ==> (#[trigger] r@[k]).0@ == b64_of(entries@[k].0@) && b64_decoded(
                r@[k].0@,
            ) == Some(entries@[k].0@) && r@[k].1@ == entries@[k].1@,
{
    let mut out: Vec<(String, Vec<u8>)> = Vec::new();
    let n = entries.len();
    for i in 0..n
        invariant
            n == entries@.len(),
            out@.len() == i,
            forall|k: int|
                0 <= k < i ==> (#[trigger] out@[k]).0@ == b64_of(entries@[k].0@) && b64_decoded(
                    out@[k].0@,
                ) == Some(entries@[k].0@) && out@[k].1@ == entries@[k].1@,
    {
        let key = BufferConverter::to_base64(&entries[i].0);
        let value = clone_bytes(&entries[i].1);
        out.push((key, value));
    }
    out
}

/// Decode persisted storage entries: every key must be valid URL-safe
/// base64, and then the decoded pairs come back in order; one bad key
/// refuses the whole batch.
pub fn decode_storage(pairs: &Vec<(String, Vec<u8>)>) -> (r: Result<
    Vec<(Vec<u8>, Vec<u8>)>,
    ConvoError,
>)
    ensures
        r is Ok <==> (forall|k: int|
            0 <= k < pairs@.len() ==> b64_decoded((#[trigger] pairs@[k]).0@) is Some),
        r matches Err(e) ==> e == ConvoError::StateMalformed,
        r matches Ok(v) ==> {
            &&& v@.len() == pairs@.len()
            &&& forall|k: int|
                0 <= k < pairs@.len() ==> Some((#[trigger] v@[k]).0@) == b64_decoded(pairs@[k].0@)
                    && v@[k].1@ == pairs@[k].1@
        },
{
    let mut out: Vec<(Vec<u8>, Vec<u8>)> = Vec::new();
    let n = pairs.len();
    for i in 0..n
        invariant
            n == pairs@.len(),
            out@.len() == i,
            forall|k: int| 0 <= k < i ==> b64_decoded((#[trigger] pairs@[k]).0@) is Some,
            forall|k: int|
                0 <= k < i ==> Some((#[trigger] out@[k]).0@) == b64_decoded(pairs@[k].0@)
                    && out@[k].1@ == pairs@[k].1@,
    {
        let key = match BufferConverter::from_base64(&pairs[i].0) {
            Some(bytes) => bytes,
            None => {
                return Err(ConvoError::StateMalformed);
            },
        };
        let value = clone_bytes(&pairs[i].1);
        out.push((key, value));
    }
    Ok(out)
}

/// Persisting and reloading never loses a storage entry: decoding what was
/// encoded yields the original entries.
pub fn storage_codec_round_trip(entries: &Vec<(Vec<u8>, Vec<u8>)>) -> (r: Vec<(Vec<u8>, Vec<u8>)>)
    ensures
        r@.len() == entries@.len(),
        forall|k: int|
            0 <= k < entries@.len() ==> (#[trigger] r@[k]).0@ == entries@[k].0@ && r@[k].1@
                == entries@[k].1@,
{
    let encoded = encode_storage(entries);
    match decode_storage(&encoded) {
        Ok(decoded) => decoded,
        Err(_) => {
            proof {
                assert(false);
            }
            Vec::new()
        },
    }
}

impl ConvoManager {
    /// Capture the engine's persistent state: the serialized signer and
    /// credential, the provider storage with base64-encoded keys, and the
    /// group name-to-id map, so that `load_state` can rebuild the engine.
    pub fn save_state(&self) -> (r: Result<SerializedCredentials, ConvoError>)
        ensures
            r matches Err(e) ==> e == ConvoError::CredentialInvalid,
            r matches Ok(sc) ==> {
                &&& forall|k: int|
                    0 <= k < sc.storage@.len() ==> b64_decoded(
                        (#[trigger] sc.storage@[k]).0@,
                    ) is Some
                &&& sc.group_names@.len() == self.groups@.len()
                &&& forall|k: int|
                    0 <= k < self.groups@.len() ==> (#[trigger] sc.group_names@[k])@
                        == self.groups@[k].name@
                &&& sc.group_name_to_id@.len() == self.groups@.len()
                &&& forall|k: int|
                    0 <= k < self.groups@.len() ==> (#[trigger] sc.group_name_to_id@[k]).0@
                        == self.groups@[k].name@ && sc.group_name_to_id@[k].1@
                        == self.groups@[k].id@
            },
    {
        let signer = match mls::serialize_signer(&self.signer) {
            Some(b) => b,
            None => {
                return Err(ConvoError::CredentialInvalid);
            },
        };
        let serialized_credential_with_key = match mls::serialize_credential(
            &self.credential_with_key,
        ) {
            Some(b) => b,
            None => {
                return Err(ConvoError::CredentialInvalid);
            },
        };
        let entries = mls::storage_entries(&self.provider);
        let storage = encode_storage(&entries);
        let mut group_names: Vec<String> = Vec::new();
        let mut group_name_to_id: Vec<(String, Vec<u8>)> = Vec::new();
        let n = self.groups.len();
        for i in 0..n
            invariant
                n == self.groups@.len(),
                group_names@.len() == i,
                group_name_to_id@.len() == i,
                forall|k: int|
                    0 <= k < i ==> (#[trigger] group_names@[k])@ == self.groups@[k].name@,
                forall|k: int|
                    0 <= k < i ==> (#[trigger] group_name_to_id@[k]).0@ == self.groups@[k].name@
                        && group_name_to_id@[k].1@ == self.groups@[k].id@,
        {
            let g = &self.groups[i];
            group_names.push(g.name.clone());
            group_name_to_id.push((g.name.clone(), clone_bytes(&g.id)));
        }
        Ok(
            SerializedCredentials {
                signer,
                serialized_credential_with_key,
                storage,
                group_names,
                group_name_to_id,
            },
        )
    }

    /// Rebuild an engine from persisted state: restore the signer, the
    /// credential and the provider storage, then rehydrate each named group
    /// from that storage. A group the storage no longer holds is skipped.
    pub fn load_state(&mut self, serialized: SerializedCredentials) -> (r: Result<(), ConvoError>)
        requires
            old(self).wf(),
        ensures
            final(self).wf(),
            final(self).id == old(self).id,
            (exists|k: int|
                0 <= k < serialized.storage@.len() && b64_decoded(
                    (#[trigger] serialized.storage@[k]).0@,
                ) is None) ==> (r matches Err(e) && e == ConvoError::StateMalformed),
            !crate::mls::signer_parses(serialized.signer@) ==> (r matches Err(e) && e
                == ConvoError::StateMalformed),
            !crate::mls::credential_parses(serialized.serialized_credential_with_key@) ==> (
            r matches Err(e) && e == ConvoError::StateMalformed),
            r is Ok ==> {
                &&& forall|k: int|
                    0 <= k < serialized.storage@.len() ==> b64_decoded(
                        (#[trigger] serialized.storage@[k]).0@,
                    ) is Some
                &&& crate::mls::signer_parses(serialized.signer@)
                &&& crate::mls::credential_parses(serialized.serialized_credential_with_key@)
                &&& forall|q: int|
                    0 <= q < serialized.group_names@.len() ==> has_name_pair(
                        serialized.group_name_to_id@,
                        (#[trigger] serialized.group_names@[q])@,
                    )
            },
            r is Ok ==> forall|k: int|
                0 <= k < final(self).groups@.len() ==> old(self).groups@.contains(
                    #[trigger] final(self).groups@[k],
                ) || rehydrated_from(serialized.group_name_to_id@, final(self).groups@[k]),
            r matches Err(e) ==> (e == ConvoError::StateMalformed),
    {
        let entries = match decode_storage(&serialized.storage) {
            Ok(v) => v,
            Err(_) => {
                return Err(ConvoError::StateMalformed);
            },
        };
        let signer = match mls::deserialize_signer(&serialized.signer) {
            Some(s) => s,
            None => {
                return Err(ConvoError::StateMalformed);
            },
        };
        let credential_with_key = match mls::deserialize_credential(
            &serialized.serialized_credential_with_key,
        ) {
            Some(c) => c,
            None => {
                return Err(ConvoError::StateMalformed);
            },
        };
        self.signer = signer;
        self.credential_with_key = credential_with_key;
        if !mls::storage_replace(&self.provider, entries) {
            return Err(ConvoError::StateMalformed);
        }
        let ghost pairs = serialized.group_name_to_id@;
        proof {
            assert forall|k: int|
                0 <= k < self.groups@.len() implies old(self).groups@.contains(
                #[trigger] self.groups@[k],
            ) || rehydrated_from(pairs, self.groups@[k]) by {
                assert(old(self).groups@[k] == self.groups@[k]);
            }
        }
        let n = serialized.group_names.len();
        for i in 0..n
            invariant
                self.wf(),
                self.id == old(self).id,
                n == serialized.group_names@.len(),
                pairs == serialized.group_name_to_id@,
                forall|q: int|
                    0 <= q < i ==> has_name_pair(pairs, (#[trigger] serialized.group_names@[q])@),
                forall|k: int|
                    0 <= k < self.groups@.len() ==> old(self).groups@.contains(
                        #[trigger] self.groups@[k],
                    ) || rehydrated_from(pairs, self.groups@[k]),
        {
            let name = &serialized.group_names[i];
            let mut gid: Option<Vec<u8>> = None;
            let m = serialized.group_name_to_id.len();
            for j in 0..m
                invariant
                    m == serialized.group_name_to_id@.len(),
                    pairs == serialized.group_name_to_id@,
                    match gid {
                        Some(g) => exists|q: int|
                            0 <= q < m && (#[trigger] pairs[q]).0@ == name@ && g@ == pairs[q].1@,
                        None => forall|q: int| 0 <= q < j ==> (#[trigger] pairs[q]).0@ != name@,
                    },
            {
                if gid.is_none() && serialized.group_name_to_id[j].0 == *name {
                    gid = Some(clone_bytes(&serialized.group_name_to_id[j].1));
                }
            }
            let gid = match gid {
                Some(g) => g,
                None => {
                    return Err(ConvoError::StateMalformed);
                },
            };
            proof {
                assert(has_name_pair(pairs, name@));
            }
            let ghost before = self.groups@;
            match mls::load_group(&self.provider, &gid) {
                Some(mls_group) => {
                    let group = LocalGroup {
                        id: gid,
                        name: name.clone(),
                        global_index: 0,
                        mls_group,
                        decrypted: Vec::new(),
                    };
                    proof {
                        assert(rehydrated_from(pairs, group));
                    }
                    self.insert_group(group);
                    proof {
                        assert forall|k: int|
                            0 <= k < self.groups@.len() implies old(self).groups@.contains(
                            #[trigger] self.groups@[k],
                        ) || rehydrated_from(pairs, self.groups@[k]) by {
                            // the inserted group is rehydrated; every other
                            // position still holds what it held before
                            if k < before.len() {
                                assert(self.groups@[k] == before[k] || rehydrated_from(
                                    pairs,
                                    self.groups@[k],
                                ));
                            }
                        }
                    }
                },
                None => {},
            }
        }
        Ok(())
    }
}

} // verus!
