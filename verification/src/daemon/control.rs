//! Requests of clients and operators, and who may make them.

use vstd::prelude::*;
#[allow(unused_imports)]
use vstd::string::StringSliceAdditionalSpecFns;
use crate::constants::{
    MESSAGE_GET_PATH, OFFER_REQUEST_PATH, STATS_GET_PATH, SYNC_REQUEST_PATH, UNPEER_REQUEST_PATH,
};
use crate::daemon::accounts::ControlCommand;
use crate::ids::{contains_id, copy_bytes, id_from_bytes, leading_id, same_id, DestinationHash};
#[allow(unused_imports)]
use crate::ids::lemma_id_from_view;
use crate::msgpack::{encode_value, Outgoing};
#[allow(unused_imports)]
use crate::msgpack::{msgpack_encoded, WireView};
use crate::offer::{
    ERROR_INVALID_DATA, ERROR_NOT_FOUND, ERROR_NO_ACCESS, ERROR_NO_IDENTITY, ERROR_TIMEOUT,
};
use crate::stamper::full_hash;
#[allow(unused_imports)]
use crate::stamper::sha256_digest;
use crate::tables::PeerSet;

verus! {

/// What requests are answered by.
#[derive(Debug)]
pub struct ControlSnapshot {
    /// Identities that may give orders.
    pub allowed_control: Vec<DestinationHash>,
    /// Only some identities may download.
    pub auth_required: bool,
    /// Identities that may download then.
    pub allowed_clients: Vec<DestinationHash>,
    pub peer_hashes: PeerSet,
    /// Figures about the node, encoded.
    pub stats_response: Option<Vec<u8>>,
}

impl Default for ControlSnapshot {
    /// Everybody may download and nobody may give orders.
    fn default() -> (snapshot: Self)
        ensures
            snapshot.allowed_control@.len() == 0,
            !snapshot.auth_required,
            snapshot.allowed_clients@.len() == 0,
            snapshot.peer_hashes@ == Set::<DestinationHash>::empty(),
            snapshot.stats_response is None,
    {
        ControlSnapshot {
            allowed_control: Vec::new(),
            auth_required: false,
            allowed_clients: Vec::new(),
            peer_hashes: PeerSet::new(),
            stats_response: None,
        }
    }
}

impl ControlSnapshot {
    /// This identity may download.
    pub open spec fn may_download(&self, remote: Option<DestinationHash>) -> bool {
        !self.auth_required || (remote matches Some(hash) && self.allowed_clients@.contains(hash))
    }
}

/// Tells whether an identity may download.
pub fn propagation_client_allowed(
    snapshot: &ControlSnapshot,
    remote_identity_hash: Option<&DestinationHash>,
) -> (allowed: bool)
    ensures
        allowed == snapshot.may_download(
            match remote_identity_hash {
                Some(hash) => Some(*hash),
                None => None,
            },
        ),
{
    if !snapshot.auth_required {
        return true;
    }
    match remote_identity_hash {
        Some(hash) => contains_id(snapshot.allowed_clients.as_slice(), hash),
        None => false,
    }
}

/// A refusal on the wire.
pub open spec fn refusal_bytes(code: u64) -> Seq<u8> {
    msgpack_encoded(WireView::Unsigned(code))
}

/// Encodes a refusal.
pub fn encode_peer_error(code: u64) -> (data: Vec<u8>)
    ensures
        data@ == refusal_bytes(code),
{
    encode_value(&Outgoing::Code(code))
}

/// Encodes the news that an order was taken.
pub fn encode_control_success() -> (data: Vec<u8>)
    ensures
        data@ == msgpack_encoded(WireView::Boolean(true)),
{
    encode_value(&Outgoing::Boolean(true))
}

/// Encodes the news that there is nothing to tell.
pub fn encode_nil_response() -> (data: Vec<u8>)
    ensures
        data@ == msgpack_encoded(WireView::Nil),
{
    encode_value(&Outgoing::Nil)
}

/// What names a request: the first bytes of the digest over its path.
pub open spec fn path_hash(path: &str) -> Seq<u8> {
    sha256_digest(path.spec_bytes()).take(16)
}

/// Names a request by its path.
pub fn hash_path(path: &str) -> (hash: DestinationHash)
    ensures
        hash@ == path_hash(path),
{
    let digest = full_hash(path.as_bytes());
    leading_id::<16>(digest.as_slice())
}

/// Takes an order, unless nobody is there to carry it out, and encodes the
/// answer.
pub fn queue_control_command(
    commands: &mut Vec<ControlCommand>,
    open: bool,
    command: ControlCommand,
) -> (answer: Vec<u8>)
    ensures
        final(commands)@ == (if open {
            old(commands)@.push(command)
        } else {
            old(commands)@
        }),
        answer@ == (if open {
            msgpack_encoded(WireView::Boolean(true))
        } else {
            refusal_bytes(ERROR_TIMEOUT)
        }),
{
    if !open {
        return encode_peer_error(ERROR_TIMEOUT);
    }
    commands.push(command);
    encode_control_success()
}

/// What is to be done about a request of an operator.
#[derive(Debug)]
pub enum ControlAnswer {
    /// Nothing: the path is not known.
    Unanswered,
    /// This is the answer.
    Reply(Vec<u8>),
    /// This order is to be taken.
    Command(ControlCommand),
}

/// What a [`ControlAnswer`] says.
pub enum ControlAnswerView {
    Unanswered,
    Reply(Seq<u8>),
    Command(ControlCommand),
}

impl View for ControlAnswer {
    type V = ControlAnswerView;

    open spec fn view(&self) -> ControlAnswerView {
        match self {
            ControlAnswer::Unanswered => ControlAnswerView::Unanswered,
            ControlAnswer::Reply(data) => ControlAnswerView::Reply(data@),
            ControlAnswer::Command(command) => ControlAnswerView::Command(*command),
        }
    }
}

/// The peer that an order is about.
pub open spec fn named_peer(snapshot: ControlSnapshot, data: Seq<u8>) -> Result<
    DestinationHash,
    u64,
> {
    if data.len() != 16 {
        Err(ERROR_INVALID_DATA)
    } else {
        let peer = peer_from(data);
        if snapshot.peer_hashes@.contains(peer) {
            Ok(peer)
        } else {
            Err(ERROR_NOT_FOUND)
        }
    }
}

/// The destination hash with these bytes.
pub open spec fn peer_from(bytes: Seq<u8>) -> DestinationHash {
    choose|peer: DestinationHash| peer@ == bytes
}

/// What is to be done about a request of an operator. Nobody learns anything who
/// is not identified and allowed.
pub open spec fn control_answer(
    snapshot: ControlSnapshot,
    remote: Option<DestinationHash>,
    path: Seq<u8>,
    data: Seq<u8>,
) -> ControlAnswerView {
    match remote {
        None => ControlAnswerView::Reply(refusal_bytes(ERROR_NO_IDENTITY)),
        Some(remote) => if !snapshot.allowed_control@.contains(remote) {
            ControlAnswerView::Reply(refusal_bytes(ERROR_NO_ACCESS))
        } else if path == path_hash(STATS_GET_PATH) {
            ControlAnswerView::Reply(
                match snapshot.stats_response {
                    Some(stats) => stats@,
                    None => msgpack_encoded(WireView::Nil),
                },
            )
        } else if path == path_hash(SYNC_REQUEST_PATH) {
            match named_peer(snapshot, data) {
                Ok(peer) => ControlAnswerView::Command(ControlCommand::Sync(peer)),
                Err(code) => ControlAnswerView::Reply(refusal_bytes(code)),
            }
        } else if path == path_hash(UNPEER_REQUEST_PATH) {
            match named_peer(snapshot, data) {
                Ok(peer) => ControlAnswerView::Command(ControlCommand::Unpeer(peer)),
                Err(code) => ControlAnswerView::Reply(refusal_bytes(code)),
            }
        } else {
            ControlAnswerView::Unanswered
        },
    }
}

/// Reads the peer that an order is about.
fn read_named_peer(snapshot: &ControlSnapshot, data: &[u8]) -> (peer: Result<DestinationHash, u64>)
    ensures
        peer == named_peer(*snapshot, data@),
{
    match id_from_bytes::<16>(data) {
        Some(peer) => {
            proof {
                lemma_id_from_view(peer, peer_from(data@));
            }
            if snapshot.peer_hashes.contains(&peer) {
                Ok(peer)
            } else {
                Err(ERROR_NOT_FOUND)
            }
        },
        None => Err(ERROR_INVALID_DATA),
    }
}

/// Tells whether a request has this path.
fn has_path(hash: &DestinationHash, path: &str) -> (same: bool)
    ensures
        same == (hash@ == path_hash(path)),
{
    let named: DestinationHash = hash_path(path);
    proof {
        if hash@ == named@ {
            lemma_id_from_view(*hash, named);
        }
    }
    same_id(hash, &named)
}

/// Answers a request of an operator.
pub fn handle_control_request(
    snapshot: &ControlSnapshot,
    remote_identity_hash: Option<DestinationHash>,
    path: &DestinationHash,
    data: &[u8],
) -> (answer: ControlAnswer)
    ensures
        answer@ == control_answer(*snapshot, remote_identity_hash, path@, data@),
{
    let remote: DestinationHash = match remote_identity_hash {
        Some(remote) => remote,
        None => {
            return ControlAnswer::Reply(encode_peer_error(ERROR_NO_IDENTITY));
        },
    };
    if !contains_id(snapshot.allowed_control.as_slice(), &remote) {
        return ControlAnswer::Reply(encode_peer_error(ERROR_NO_ACCESS));
    }
    if has_path(path, STATS_GET_PATH) {
        return ControlAnswer::Reply(
            match &snapshot.stats_response {
                Some(stats) => copy_bytes(stats.as_slice()),
                None => encode_nil_response(),
            },
        );
    }
    if has_path(path, SYNC_REQUEST_PATH) {
        return match read_named_peer(snapshot, data) {
            Ok(peer) => ControlAnswer::Command(ControlCommand::Sync(peer)),
            Err(code) => ControlAnswer::Reply(encode_peer_error(code)),
        };
    }
    if has_path(path, UNPEER_REQUEST_PATH) {
        return match read_named_peer(snapshot, data) {
            Ok(peer) => ControlAnswer::Command(ControlCommand::Unpeer(peer)),
            Err(code) => ControlAnswer::Reply(encode_peer_error(code)),
        };
    }
    ControlAnswer::Unanswered
}

/// What a request to the node is.
#[derive(Debug)]
pub enum PropagationRequest {
    /// An offer of a peer.
    Offer,
    /// A request of a client for messages.
    Get,
    /// This is the answer.
    Reply(Vec<u8>),
    /// Nothing to answer.
    Unanswered,
}

/// Sorts a request to the node. Downloads are refused to those who may not make
/// them; a link that is shut off gets no answer to them.
pub fn sort_propagation_request(
    snapshot: &ControlSnapshot,
    remote_identity_hash: Option<&DestinationHash>,
    quarantined: bool,
    path: &DestinationHash,
) -> (request: PropagationRequest)
    ensures
        ({
            let allowed = snapshot.may_download(
                match remote_identity_hash {
                    Some(hash) => Some(*hash),
                    None => None,
                },
            );
            let is_offer = path@ == path_hash(OFFER_REQUEST_PATH);
            let is_get = !is_offer && path@ == path_hash(MESSAGE_GET_PATH);
            match request {
                PropagationRequest::Offer => is_offer,
                PropagationRequest::Get => is_get && !quarantined && allowed,
                PropagationRequest::Reply(data) => is_get && !quarantined && !allowed && data@
                    == refusal_bytes(ERROR_NO_ACCESS),
                PropagationRequest::Unanswered => !is_offer && (!is_get || quarantined),
            }
        }),
{
    if has_path(path, OFFER_REQUEST_PATH) {
        return PropagationRequest::Offer;
    }
    if !has_path(path, MESSAGE_GET_PATH) || quarantined {
        return PropagationRequest::Unanswered;
    }
    if !propagation_client_allowed(snapshot, remote_identity_hash) {
        return PropagationRequest::Reply(encode_peer_error(ERROR_NO_ACCESS));
    }
    PropagationRequest::Get
}

/// The identities that may give orders: the node's own first, then those that
/// were configured, each once.
pub open spec fn control_list(own: DestinationHash, configured: Seq<DestinationHash>) -> Seq<
    DestinationHash,
>
    decreases configured.len(),
{
    if configured.len() == 0 {
        seq![own]
    } else {
        let rest = control_list(own, configured.drop_last());
        if rest.contains(configured.last()) {
            rest
        } else {
            rest.push(configured.last())
        }
    }
}

/// Lists the identities that may give orders.
pub fn list_allowed_control(own: DestinationHash, configured: &[DestinationHash]) -> (allowed: Vec<
    DestinationHash,
>)
    ensures
        allowed@ == control_list(own, configured@),
{
    let mut allowed: Vec<DestinationHash> = Vec::new();
    allowed.push(own);
    let mut i: usize = 0;
    assert(allowed@ =~= control_list(own, configured@.take(0)));
    while i < configured.len()
        invariant
            i <= configured@.len(),
            allowed@ == control_list(own, configured@.take(i as int)),
        decreases configured@.len() - i,
    {
        proof {
            assert(configured@.take(i + 1).drop_last() =~= configured@.take(i as int));
            assert(configured@.take(i + 1).last() == configured@[i as int]);
        }
        if !contains_id(allowed.as_slice(), &configured[i]) {
            allowed.push(configured[i]);
        }
        i = i + 1;
    }
    assert(configured@.take(i as int) =~= configured@);
    allowed
}

/// Tells whether the control destination is announced: the node offers control
/// to others than itself.
pub fn should_announce_control(
    propagation_enabled: bool,
    own: DestinationHash,
    configured: &[DestinationHash],
) -> (announce: bool)
    ensures
        announce == (propagation_enabled && exists|i: int|
            0 <= i < configured@.len() && #[trigger] configured@[i] != own),
{
    if !propagation_enabled {
        return false;
    }
    let mut i: usize = 0;
    while i < configured.len()
        invariant
            i <= configured@.len(),
            propagation_enabled,
            forall|j: int| 0 <= j < i ==> #[trigger] configured@[j] == own,
        decreases configured@.len() - i,
    {
        if !same_id(&configured[i], &own) {
            return true;
        }
        i = i + 1;
    }
    false
}

/// The node itself may always give orders, and so may everyone configured.
pub proof fn law_configured_may_control(
    own: DestinationHash,
    configured: Seq<DestinationHash>,
    hash: DestinationHash,
)
    ensures
        control_list(own, configured).contains(hash) <==> hash == own || configured.contains(hash),
    decreases configured.len(),
{
    if configured.len() == 0 {
        assert(seq![own][0] == own);
    } else {
        let rest = control_list(own, configured.drop_last());
        let last = configured.last();
        law_configured_may_control(own, configured.drop_last(), hash);
        law_configured_may_control(own, configured.drop_last(), last);
        assert(configured =~= configured.drop_last().push(last));
        if configured.drop_last().contains(hash) {
            let i = choose|i: int|
                0 <= i < configured.drop_last().len() && configured.drop_last()[i] == hash;
            assert(configured[i] == hash);
        }
        if configured.contains(hash) && hash != last {
            let i = choose|i: int| 0 <= i < configured.len() && configured[i] == hash;
            assert(configured.drop_last()[i] == hash);
        }
        assert(configured[configured.len() - 1] == last);
        if !rest.contains(last) {
            let pushed = rest.push(last);
            assert(pushed[rest.len() as int] == last);
            if rest.contains(hash) {
                let i = choose|i: int| 0 <= i < rest.len() && rest[i] == hash;
                assert(pushed[i] == hash);
            }
        }
    }
}

/// Without an identity, or with one that may not give orders, a request is
/// refused whatever it asks for.
pub proof fn law_strangers_are_refused(
    snapshot: ControlSnapshot,
    remote: Option<DestinationHash>,
    path: Seq<u8>,
    data: Seq<u8>,
)
    requires
        remote matches Some(hash) ==> !snapshot.allowed_control@.contains(hash),
    ensures
        control_answer(snapshot, remote, path, data) == ControlAnswerView::Reply(
            refusal_bytes(
                if remote is None {
                    ERROR_NO_IDENTITY
                } else {
                    ERROR_NO_ACCESS
                },
            ),
        ),
{
}

} // verus!
