//! Plain data carried between the engine, the ledger and the synchronizer:
//! ledger entries, invite envelopes, decrypted transcript items, user records,
//! and the error taxonomy shared by all components.

use vstd::prelude::*;

verus! {

/// Why an operation was refused, by kind.
#[derive(Debug, Clone, Copy, PartialEq, Eq, Structural)]
pub enum ConvoError {
    /// A group with the same id is already registered on the server.
    GroupExists,
    /// The named group is not registered.
    GroupUnknown,
    /// A key-package lookup named an unregistered user.
    UserUnknown,
    /// The expected new index is at most the current index: the sender is
    /// behind and must sync first.
    IndexStale,
    /// The expected new index is more than one past the current index.
    IndexAhead,
    /// The group's ledger index has reached the machine bound and no
    /// further entry can be appended.
    LedgerFull,
    /// A received key package failed MLS validation.
    KeyPackageInvalid,
    /// A received Welcome failed to parse or to open.
    WelcomeInvalid,
    /// A received ratchet tree failed to parse.
    RatchetTreeInvalid,
    /// A ciphertext could not be decrypted; the frame is dropped.
    DecryptFailed,
    /// Merging a commit failed; the group is unrecoverable for this user.
    EpochAdvanceFailed,
    /// A plain proposal arrived, which this protocol profile never sends.
    UnexpectedProposal,
    /// A decrypted application payload was not valid UTF-8.
    MessageMalformed,
    /// No pending invite matches the given welcome message.
    InviteNotFound,
    /// The engine's own key material could not be produced or encoded.
    CredentialInvalid,
    /// The MLS layer refused an engine operation (building a commit,
    /// encrypting, or serializing); the group's bookkeeping is unchanged.
    EngineFailure,
    /// A persisted state blob could not be decoded.
    StateMalformed,
}

/// A decrypted transcript line as shown to the owning user.
#[derive(Debug)]
pub struct MessageItem {
    pub text: String,
    pub sender_id: String,
    pub timestamp: u64,
}

/// Mathematical image of a [`MessageItem`].
#[verifier::ext_equal]
pub struct MessageItemView {
    pub text: Seq<char>,
    pub sender_id: Seq<char>,
    pub timestamp: u64,
}

impl View for MessageItem {
    type V = MessageItemView;

    open spec fn view(&self) -> MessageItemView {
        MessageItemView { text: self.text@, sender_id: self.sender_id@, timestamp: self.timestamp }
    }
}

impl DeepView for MessageItem {
    type V = MessageItemView;

    open spec fn deep_view(&self) -> MessageItemView {
        self.view()
    }
}

/// The per-joiner envelope produced by an invite: the Welcome, the public
/// ratchet tree, and (for existing members) the fanned commit.
#[derive(Debug)]
pub struct ConvoInvite {
    pub sender_id: String,
    pub group_name: String,
    pub welcome_message: Vec<u8>,
    pub ratchet_tree: Option<Vec<u8>>,
    pub global_index: u64,
    pub fanned: Option<Vec<u8>>,
}

/// Mathematical image of a [`ConvoInvite`].
#[verifier::ext_equal]
pub struct ConvoInviteView {
    pub sender_id: Seq<char>,
    pub group_name: Seq<char>,
    pub welcome_message: Seq<u8>,
    pub ratchet_tree: Option<Seq<u8>>,
    pub global_index: u64,
    pub fanned: Option<Seq<u8>>,
}

impl View for ConvoInvite {
    type V = ConvoInviteView;

    open spec fn view(&self) -> ConvoInviteView {
        ConvoInviteView {
            sender_id: self.sender_id@,
            group_name: self.group_name@,
            welcome_message: self.welcome_message@,
            ratchet_tree: self.ratchet_tree.deep_view(),
            global_index: self.global_index,
            fanned: self.fanned.deep_view(),
        }
    }
}

impl DeepView for ConvoInvite {
    type V = ConvoInviteView;

    open spec fn deep_view(&self) -> ConvoInviteView {
        self.view()
    }
}

/// One delivery unit of the server: either a ledger entry carrying an opaque
/// payload, or a mailbox envelope carrying an invite. Exactly one of
/// `message` and `invite` is set.
#[derive(Debug)]
pub struct ConvoMessage {
    pub global_index: u64,
    pub sender_id: String,
    pub unix_timestamp: u64,
    pub message: Option<Vec<u8>>,
    pub invite: Option<ConvoInvite>,
}

/// Mathematical image of a [`ConvoMessage`].
#[verifier::ext_equal]
pub struct ConvoMessageView {
    pub global_index: u64,
    pub sender_id: Seq<char>,
    pub unix_timestamp: u64,
    pub message: Option<Seq<u8>>,
    pub invite: Option<ConvoInviteView>,
}

impl View for ConvoMessage {
    type V = ConvoMessageView;

    open spec fn view(&self) -> ConvoMessageView {
        ConvoMessageView {
            global_index: self.global_index,
            sender_id: self.sender_id@,
            unix_timestamp: self.unix_timestamp,
            message: self.message.deep_view(),
            invite: self.invite.deep_view(),
        }
    }
}

impl DeepView for ConvoMessage {
    type V = ConvoMessageView;

    open spec fn deep_view(&self) -> ConvoMessageView {
        self.view()
    }
}

/// A registered user as the server sees it.
#[derive(Debug)]
pub struct ConvoUser {
    pub name: String,
    pub user_id: String,
    pub serialized_key_package: Vec<u8>,
    pub last_active: u64,
}

/// Mathematical image of a [`ConvoUser`].
#[verifier::ext_equal]
pub struct ConvoUserView {
    pub name: Seq<char>,
    pub user_id: Seq<char>,
    pub serialized_key_package: Seq<u8>,
    pub last_active: u64,
}

impl View for ConvoUser {
    type V = ConvoUserView;

    open spec fn view(&self) -> ConvoUserView {
        ConvoUserView {
            name: self.name@,
            user_id: self.user_id@,
            serialized_key_package: self.serialized_key_package@,
            last_active: self.last_active,
        }
    }
}

impl DeepView for ConvoUser {
    type V = ConvoUserView;

    open spec fn deep_view(&self) -> ConvoUserView {
        self.view()
    }
}

/// Copy a byte vector; the copy has the same contents.
pub fn clone_bytes(v: &Vec<u8>) -> (r: Vec<u8>)
    ensures
        r@ == v@,
{
    let r = v.clone();
    assert(r@ =~= v@);
    r
}

/// Copy an optional byte vector; the copy has the same contents.
pub fn clone_opt_bytes(v: &Option<Vec<u8>>) -> (r: Option<Vec<u8>>)
    ensures
        r.deep_view() == v.deep_view(),
{
    match v {
        Some(b) => Some(clone_bytes(b)),
        None => None,
    }
}

impl Clone for MessageItem {
    /// The copy denotes the same transcript line.
    fn clone(&self) -> (r: Self)
        ensures
            r@ == self@,
    {
        MessageItem {
            text: self.text.clone(),
            sender_id: self.sender_id.clone(),
            timestamp: self.timestamp,
        }
    }
}

impl Clone for ConvoInvite {
    /// The copy denotes the same envelope.
    fn clone(&self) -> (r: Self)
        ensures
            r@ == self@,
    {
        ConvoInvite {
            sender_id: self.sender_id.clone(),
            group_name: self.group_name.clone(),
            welcome_message: clone_bytes(&self.welcome_message),
            ratchet_tree: clone_opt_bytes(&self.ratchet_tree),
            global_index: self.global_index,
            fanned: clone_opt_bytes(&self.fanned),
        }
    }
}

impl Clone for ConvoMessage {
    /// The copy denotes the same delivery unit.
    fn clone(&self) -> (r: Self)
        ensures
            r@ == self@,
    {
        ConvoMessage {
            global_index: self.global_index,
            sender_id: self.sender_id.clone(),
            unix_timestamp: self.unix_timestamp,
            message: clone_opt_bytes(&self.message),
            invite: match &self.invite {
                Some(i) => Some(i.clone()),
                None => None,
            },
        }
    }
}

impl Clone for ConvoUser {
    /// The copy denotes the same user record.
    fn clone(&self) -> (r: Self)
        ensures
            r@ == self@,
    {
        ConvoUser {
            name: self.name.clone(),
            user_id: self.user_id.clone(),
            serialized_key_package: clone_bytes(&self.serialized_key_package),
            last_active: self.last_active,
        }
    }
}

/// Copy a list of delivery units; the copy denotes the same sequence.
pub fn clone_messages(v: &Vec<ConvoMessage>) -> (r: Vec<ConvoMessage>)
    ensures
        r.deep_view() == v.deep_view(),
{
    let mut r: Vec<ConvoMessage> = Vec::new();
    let n = v.len();
    for i in 0..n
        invariant
            n == v@.len(),
            r@.len() == i,
            forall|k: int| 0 <= k < i ==> (#[trigger] r@[k])@ == v@[k]@,
    {
        r.push(v[i].clone());
    }
    assert(r.deep_view() =~= v.deep_view());
    r
}

} // verus!
