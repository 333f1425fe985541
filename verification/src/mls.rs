//! The boundary to the MLS implementation. Every item here either declares
//! an `openmls` type so that it can be carried through verified code, or
//! wraps one MLS operation behind a contract. The cryptography itself is
//! performed by `openmls` with the `openmls_rust_crypto` provider; nothing
//! about key schedules or ciphertexts is restated here, because their
//! results depend on the provider's randomness: the verified callers state
//! what holds of every outcome instead.

use vstd::prelude::*;

use openmls::group::{GroupId, MlsGroup, StagedCommit};
use openmls::prelude::tls_codec::{Deserialize as TlsDeserialize, DeserializeBytes as TlsDeserializeBytes, Serialize as TlsSerialize};
use openmls::prelude::{BasicCredential, Ciphersuite, Credential, CredentialWithKey, GroupEpoch,
    JoinProposal, KeyPackage, KeyPackageIn, LeafNodeIndex, MlsGroupCreateConfig,
    MlsGroupJoinConfig, MlsMessageBodyIn, MlsMessageIn, OpenMlsProvider, ProcessedMessageContent,
    ProtocolMessage, ProtocolVersion, QueuedProposal, RatchetTreeIn, StagedWelcome, Welcome};
use openmls_basic_credential::SignatureKeyPair;
use openmls_rust_crypto::OpenMlsRustCrypto;

verus! {

#[verifier::external_type_specification]
#[verifier::external_body]
pub struct ExOpenMlsRustCrypto(OpenMlsRustCrypto);

#[verifier::external_type_specification]
#[verifier::external_body]
pub struct ExSignatureKeyPair(SignatureKeyPair);

#[verifier::external_type_specification]
#[verifier::external_body]
pub struct ExCredentialWithKey(CredentialWithKey);

#[verifier::external_type_specification]
#[verifier::external_body]
pub struct ExMlsGroup(MlsGroup);

#[verifier::external_type_specification]
#[verifier::external_body]
pub struct ExKeyPackage(KeyPackage);

#[verifier::external_type_specification]
#[verifier::external_body]
pub struct ExQueuedProposal(QueuedProposal);

#[verifier::external_type_specification]
#[verifier::external_body]
pub struct ExStagedCommit(StagedCommit);

#[verifier::external_type_specification]
#[verifier::external_body]
pub struct ExWelcome(Welcome);

#[verifier::external_type_specification]
#[verifier::external_body]
pub struct ExRatchetTreeIn(RatchetTreeIn);

#[verifier::external_type_specification]
#[verifier::external_body]
pub struct ExStagedWelcome(StagedWelcome);

#[verifier::external_type_specification]
#[verifier::external_body]
pub struct ExProtocolMessage(ProtocolMessage);

#[verifier::external_type_specification]
#[verifier::external_body]
pub struct ExCredential(Credential);

/// Whether the bytes decode to an MLS protocol message (a public or private
/// frame); a deterministic function of the bytes alone.
pub uninterp spec fn frame_parses(bytes: Seq<u8>) -> bool;

/// The group id in a protocol frame's header; a deterministic function of
/// the bytes alone, meaningful when they parse.
pub uninterp spec fn frame_group_id(bytes: Seq<u8>) -> Seq<u8>;

/// Whether the bytes decode to a Welcome message; deterministic in the
/// bytes alone.
pub uninterp spec fn welcome_parses(bytes: Seq<u8>) -> bool;

/// Whether the bytes decode to a public ratchet tree; deterministic in the
/// bytes alone.
pub uninterp spec fn ratchet_tree_parses(bytes: Seq<u8>) -> bool;

/// Whether the bytes decode to a signature key pair in TLS presentation
/// format; deterministic in the bytes alone.
pub uninterp spec fn signer_parses(bytes: Seq<u8>) -> bool;

/// Whether the bytes decode to a credential-with-key under bincode;
/// deterministic in the bytes alone.
pub uninterp spec fn credential_parses(bytes: Seq<u8>) -> bool;

/// What one incoming protocol message turned out to be, after the MLS layer
/// decrypted and classified it.
pub enum MlsContent {
    /// An application message, decrypted to its payload bytes.
    Application(Vec<u8>),
    /// A standalone proposal, which this protocol profile never sends.
    Proposal,
    /// An external join proposal from a party outside the group.
    ExternalJoin(QueuedProposal),
    /// A commit that advances the group's epoch once merged.
    Staged(StagedCommit),
    /// This client's own fanned-back frame, already accounted for locally.
    OwnMessage,
}

/// A fresh crypto provider with empty key-value storage.
/// Relies on `OpenMlsRustCrypto::default`.
#[verifier::external_body]
pub fn new_provider() -> OpenMlsRustCrypto {
    OpenMlsRustCrypto::default()
}

/// A fresh Ed25519 signature key pair, stored in the provider's key store,
/// and a basic credential carrying `identity` as its payload.
/// Relies on `SignatureKeyPair::new`, `SignatureKeyPair::store` and
/// `BasicCredential::new`.
#[verifier::external_body]
pub fn generate_credential_with_key(identity: &String, provider: &OpenMlsRustCrypto) -> Option<
    (CredentialWithKey, SignatureKeyPair),
> {
    let signature_keys = SignatureKeyPair::new(
        Ciphersuite::MLS_128_DHKEMX25519_AES128GCM_SHA256_Ed25519.signature_algorithm(),
    ).ok()?;
    signature_keys.store(provider.storage()).ok()?;
    let credential = BasicCredential::new(identity.as_bytes().to_vec());
    let credential_with_key = CredentialWithKey {
        credential: credential.into(),
        signature_key: signature_keys.public().into(),
    };
    Some((credential_with_key, signature_keys))
}

/// One serialized single-use key package under the given credential.
/// Relies on `KeyPackage::builder` and `tls_serialize_detached`; the bytes
/// depend on fresh key material, so nothing is stated of them.
#[verifier::external_body]
pub fn generate_key_package(
    provider: &OpenMlsRustCrypto,
    signer: &SignatureKeyPair,
    credential_with_key: &CredentialWithKey,
) -> Option<Vec<u8>> {
    let bundle = KeyPackage::builder()
        .build(
            Ciphersuite::MLS_128_DHKEMX25519_AES128GCM_SHA256_Ed25519,
            provider,
            signer,
            credential_with_key.clone(),
        )
        .ok()?;
    bundle.key_package().tls_serialize_detached().ok()
}

/// A fresh MLS group whose id the implementation chooses.
/// Relies on `MlsGroup::new`.
#[verifier::external_body]
pub fn mls_group_new(
    provider: &OpenMlsRustCrypto,
    signer: &SignatureKeyPair,
    credential_with_key: &CredentialWithKey,
) -> Option<MlsGroup> {
    MlsGroup::new(
        provider,
        signer,
        &MlsGroupCreateConfig::default(),
        credential_with_key.clone(),
    ).ok()
}

/// The group's binary id. Relies on `MlsGroup::group_id`.
#[verifier::external_body]
pub fn mls_group_id(group: &MlsGroup) -> Vec<u8> {
    group.group_id().to_vec()
}

/// Parse and validate a serialized key package.
/// Relies on `KeyPackageIn::tls_deserialize_exact` and
/// `KeyPackageIn::validate`; `None` means the bytes were rejected.
#[verifier::external_body]
pub fn validate_key_package(provider: &OpenMlsRustCrypto, bytes: &Vec<u8>) -> Option<KeyPackage> {
    let key_package_in = KeyPackageIn::tls_deserialize_exact(bytes).ok()?;
    key_package_in.validate(provider.crypto(), ProtocolVersion::Mls10).ok()
}

/// Add one member; the result is the serialized fanned commit for existing
/// members and the serialized Welcome for the joiner, in that order. The
/// commit stays pending until merged. Relies on `MlsGroup::add_members` and
/// `tls_serialize_detached`.
#[verifier::external_body]
pub fn add_member(
    provider: &OpenMlsRustCrypto,
    signer: &SignatureKeyPair,
    group: &mut MlsGroup,
    key_package: KeyPackage,
) -> Option<(Vec<u8>, Vec<u8>)> {
    let (commit_out, welcome_out, _group_info) = group
        .add_members(provider, signer, &[key_package])
        .ok()?;
    let fanned = commit_out.tls_serialize_detached().ok()?;
    let welcome = welcome_out.tls_serialize_detached().ok()?;
    Some((fanned, welcome))
}

/// Merge the group's own pending commit, advancing its epoch.
/// Relies on `MlsGroup::merge_pending_commit`.
#[verifier::external_body]
pub fn merge_pending_commit(provider: &OpenMlsRustCrypto, group: &mut MlsGroup) -> bool {
    group.merge_pending_commit(provider).is_ok()
}

/// The group's public ratchet tree, serialized.
/// Relies on `MlsGroup::export_ratchet_tree` and `tls_serialize_detached`.
#[verifier::external_body]
pub fn export_ratchet_tree(group: &MlsGroup) -> Option<Vec<u8>> {
    group.export_ratchet_tree().tls_serialize_detached().ok()
}

/// Encrypt one application message for the group's current epoch.
/// Relies on `MlsGroup::create_message` and `MlsMessageOut::to_bytes`; the
/// ciphertext depends on the ratchet state and randomness.
#[verifier::external_body]
pub fn create_application_message(
    provider: &OpenMlsRustCrypto,
    signer: &SignatureKeyPair,
    group: &mut MlsGroup,
    text: &String,
) -> Option<Vec<u8>> {
    let out = group.create_message(provider, signer, text.as_bytes()).ok()?;
    out.to_bytes().ok()
}

/// Parse incoming bytes as an MLS protocol message (public or private),
/// paired with the group id its header names. Both are functions of the
/// bytes alone. Relies on `MlsMessageIn::tls_deserialize_exact`,
/// `MlsMessageIn::try_into_protocol_message` (the parse) and
/// `ProtocolMessage::group_id` (the header id).
#[verifier::external_body]
pub fn parse_protocol_message(bytes: &Vec<u8>) -> (r: Option<(ProtocolMessage, Vec<u8>)>)
    ensures
        r is Some <==> frame_parses(bytes@),
        r matches Some(p) ==> p.1@ == frame_group_id(bytes@),
{
    let message = MlsMessageIn::tls_deserialize_exact(bytes).ok()?;
    let message = message.try_into_protocol_message().ok()?;
    let group_id = message.group_id().as_slice().to_vec();
    Some((message, group_id))
}

/// Decrypt and classify one protocol message against the group's state.
/// `None` means the frame could not be processed (malformed, out of order,
/// or undecryptable); the group's state is then untouched.
/// Relies on `MlsGroup::process_message` and
/// `ProcessedMessage::into_content`; the match moves each variant's payload
/// into [`MlsContent`], one arm per variant.
#[verifier::external_body]
pub fn process_protocol_message(
    provider: &OpenMlsRustCrypto,
    group: &mut MlsGroup,
    message: ProtocolMessage,
) -> Option<MlsContent> {
    let processed = group.process_message(provider, message).ok()?;
    let content = match processed.into_content() {
        ProcessedMessageContent::ApplicationMessage(msg) => MlsContent::Application(
            msg.into_bytes(),
        ),
        ProcessedMessageContent::ProposalMessage(_) => MlsContent::Proposal,
        ProcessedMessageContent::ExternalJoinProposalMessage(proposal) => MlsContent::ExternalJoin(
            *proposal,
        ),
        ProcessedMessageContent::StagedCommitMessage(commit) => MlsContent::Staged(*commit),
        ProcessedMessageContent::OwnPrivateMessage => MlsContent::OwnMessage,
        ProcessedMessageContent::OwnPendingCommit => MlsContent::OwnMessage,
    };
    Some(content)
}

/// Queue an external join proposal in the group's proposal store.
/// Relies on `MlsGroup::store_pending_proposal`.
#[verifier::external_body]
pub fn store_pending_proposal(
    provider: &OpenMlsRustCrypto,
    group: &mut MlsGroup,
    proposal: QueuedProposal,
) -> bool {
    group.store_pending_proposal(provider.storage(), proposal).is_ok()
}

/// Commit to the queued proposals; the result is the serialized Welcome for
/// the joiner, when the commit produced one. The commit stays pending until
/// merged. Relies on `MlsGroup::commit_to_pending_proposals` and
/// `tls_serialize_detached`.
#[verifier::external_body]
pub fn commit_to_pending_proposals(
    provider: &OpenMlsRustCrypto,
    signer: &SignatureKeyPair,
    group: &mut MlsGroup,
) -> Option<Option<Vec<u8>>> {
    let (_commit, welcome, _group_info) = group
        .commit_to_pending_proposals(provider, signer)
        .ok()?;
    match welcome {
        Some(w) => {
            let bytes = w.tls_serialize_detached().ok()?;
            Some(Some(bytes))
        },
        None => Some(None),
    }
}

/// Merge a staged commit received from another member, advancing the epoch.
/// Relies on `MlsGroup::merge_staged_commit`.
#[verifier::external_body]
pub fn merge_staged_commit(
    provider: &OpenMlsRustCrypto,
    group: &mut MlsGroup,
    commit: StagedCommit,
) -> bool {
    group.merge_staged_commit(provider, commit).is_ok()
}

/// Remove the member at the given leaf index; the result is the serialized
/// fanned commit and, when MLS produced one, a serialized Welcome. The
/// commit stays pending until merged. Relies on `MlsGroup::remove_members`
/// and `tls_serialize_detached`.
#[verifier::external_body]
pub fn remove_member_at(
    provider: &OpenMlsRustCrypto,
    signer: &SignatureKeyPair,
    group: &mut MlsGroup,
    leaf_index: u32,
) -> Option<(Vec<u8>, Option<Vec<u8>>)> {
    let (commit_out, welcome_option, _group_info) = group
        .remove_members(provider, signer, &[LeafNodeIndex::new(leaf_index)])
        .ok()?;
    let fanned = commit_out.tls_serialize_detached().ok()?;
    let welcome = match welcome_option {
        Some(w) => Some(w.tls_serialize_detached().ok()?),
        None => None,
    };
    Some((fanned, welcome))
}

/// The public ratchet tree of the group's own pending commit, serialized:
/// the tree the group will have once that commit is merged, which is the
/// tree a joiner admitted by it must receive. Relies on
/// `MlsGroup::pending_commit` and `StagedCommit::export_ratchet_tree`.
#[verifier::external_body]
pub fn pending_commit_ratchet_tree(
    provider: &OpenMlsRustCrypto,
    group: &MlsGroup,
) -> Option<Vec<u8>> {
    let pending = group.pending_commit()?;
    let tree = pending.export_ratchet_tree(provider.crypto(), group.export_ratchet_tree()).ok()??;
    tree.tls_serialize_detached().ok()
}

/// Discard the group's own pending commit, leaving its epoch as it was.
/// Relies on `MlsGroup::clear_pending_commit`.
#[verifier::external_body]
pub fn clear_pending_commit(provider: &OpenMlsRustCrypto, group: &mut MlsGroup) -> bool {
    group.clear_pending_commit(provider.storage()).is_ok()
}

/// A credential's raw payload; for a basic credential this is the identity
/// the credential was built from. Relies on `Credential::serialized_content`.
#[verifier::external_body]
pub fn credential_payload(credential: &Credential) -> Vec<u8> {
    credential.serialized_content().to_vec()
}

/// The group's current epoch number.
/// Relies on `MlsGroup::epoch` and `GroupEpoch::as_u64`.
#[verifier::external_body]
pub fn group_epoch(group: &MlsGroup) -> u64 {
    group.epoch().as_u64()
}

/// Every current member as a pair of leaf index and raw credential content.
/// Relies on `MlsGroup::members`; the closure only picks the two fields.
#[verifier::external_body]
pub fn member_entries(group: &MlsGroup) -> Vec<(u32, Vec<u8>)> {
    group
        .members()
        .map(|m| (m.index.u32(), m.credential.serialized_content().to_vec()))
        .collect()
}

/// Parse serialized Welcome bytes; `None` when the bytes do not decode to a
/// Welcome message. Relies on `MlsMessageIn::tls_deserialize` and
/// `MlsMessageIn::extract`; the match tells the body variants apart.
#[verifier::external_body]
pub fn parse_welcome(bytes: &Vec<u8>) -> (r: Option<Welcome>)
    ensures
        r is Some <==> welcome_parses(bytes@),
{
    let message = MlsMessageIn::tls_deserialize(&mut bytes.as_slice()).ok()?;
    match message.extract() {
        MlsMessageBodyIn::Welcome(welcome) => Some(welcome),
        _ => None,
    }
}

/// Parse a serialized public ratchet tree.
/// Relies on `RatchetTreeIn::tls_deserialize`.
#[verifier::external_body]
pub fn parse_ratchet_tree(bytes: &Vec<u8>) -> (r: Option<RatchetTreeIn>)
    ensures
        r is Some <==> ratchet_tree_parses(bytes@),
{
    RatchetTreeIn::tls_deserialize(&mut bytes.as_slice()).ok()
}

/// Stage a join from a Welcome, consuming the matching stored key package;
/// `None` when no stored key package matches or the Welcome is rejected.
/// Relies on `StagedWelcome::new_from_welcome`.
#[verifier::external_body]
pub fn stage_welcome(
    provider: &OpenMlsRustCrypto,
    welcome: Welcome,
    ratchet_tree: Option<RatchetTreeIn>,
) -> Option<StagedWelcome> {
    StagedWelcome::new_from_welcome(
        provider,
        &MlsGroupJoinConfig::default(),
        welcome,
        ratchet_tree,
    ).ok()
}

/// Turn a staged join into the group at its current epoch.
/// Relies on `StagedWelcome::into_group`.
#[verifier::external_body]
pub fn staged_welcome_into_group(
    provider: &OpenMlsRustCrypto,
    staged: StagedWelcome,
) -> Option<MlsGroup> {
    staged.into_group(provider).ok()
}

/// A signed external Add proposal for the group at the given epoch,
/// serialized. Relies on `JoinProposal::new` and `tls_serialize_detached`.
#[verifier::external_body]
pub fn external_join_proposal(
    signer: &SignatureKeyPair,
    group_id: &Vec<u8>,
    epoch: u64,
    key_package: KeyPackage,
) -> Option<Vec<u8>> {
    let proposal = JoinProposal::new::<<OpenMlsRustCrypto as OpenMlsProvider>::StorageProvider>(
        key_package,
        GroupId::from_slice(group_id.as_slice()),
        GroupEpoch::from(epoch),
        signer,
    ).ok()?;
    proposal.tls_serialize_detached().ok()
}

/// Reload a group from the provider's storage by id; `None` when the
/// storage holds no such group. Relies on `MlsGroup::load`.
#[verifier::external_body]
pub fn load_group(provider: &OpenMlsRustCrypto, group_id: &Vec<u8>) -> Option<MlsGroup> {
    match MlsGroup::load(provider.storage(), &GroupId::from_slice(group_id.as_slice())) {
        Ok(Some(group)) => Some(group),
        _ => None,
    }
}

/// The signer serialized in TLS presentation format.
/// Relies on `SignatureKeyPair::tls_serialize_detached`.
#[verifier::external_body]
pub fn serialize_signer(signer: &SignatureKeyPair) -> Option<Vec<u8>> {
    signer.tls_serialize_detached().ok()
}

/// A signer read back from TLS presentation format.
/// Relies on `SignatureKeyPair::tls_deserialize_bytes`.
#[verifier::external_body]
pub fn deserialize_signer(bytes: &Vec<u8>) -> (r: Option<SignatureKeyPair>)
    ensures
        r is Some <==> signer_parses(bytes@),
{
    let (signer, _rest) = SignatureKeyPair::tls_deserialize_bytes(bytes.as_slice()).ok()?;
    Some(signer)
}

/// The credential-with-key serialized with bincode.
/// Relies on `bincode::serialize`.
#[verifier::external_body]
pub fn serialize_credential(credential_with_key: &CredentialWithKey) -> Option<Vec<u8>> {
    bincode::serialize(credential_with_key).ok()
}

/// A credential-with-key read back from bincode.
/// Relies on `bincode::deserialize`.
#[verifier::external_body]
pub fn deserialize_credential(bytes: &Vec<u8>) -> (r: Option<CredentialWithKey>)
    ensures
        r is Some <==> credential_parses(bytes@),
{
    bincode::deserialize(bytes.as_slice()).ok()
}

/// Every entry of the provider's key-value storage, as raw pairs.
/// Relies on the public `values` field of `openmls_memory_storage`'s
/// `MemoryStorage`; an unreadable lock yields no entries.
#[verifier::external_body]
pub fn storage_entries(provider: &OpenMlsRustCrypto) -> Vec<(Vec<u8>, Vec<u8>)> {
    match provider.storage().values.read() {
        Ok(values) => values.iter().map(|(k, v)| (k.clone(), v.clone())).collect(),
        Err(_) => Vec::new(),
    }
}

/// Replace the provider's key-value storage with the given pairs.
/// Relies on the public `values` field of `openmls_memory_storage`'s
/// `MemoryStorage`; the result says whether the lock could be written.
#[verifier::external_body]
pub fn storage_replace(provider: &OpenMlsRustCrypto, entries: Vec<(Vec<u8>, Vec<u8>)>) -> bool {
    match provider.storage().values.write() {
        Ok(mut values) => {
            *values = entries.into_iter().collect();
            true
        },
        Err(_) => false,
    }
}

} // verus!
