//! Offers of one node to another: the request, its evaluation and the answer.

use vstd::prelude::*;
use crate::ids::{append_bytes, copy_bytes, id_from_bytes, DestinationHash, PropagationTransientId};
use crate::msgpack::{decode_value, encode_value, Outgoing, WireValue};
#[allow(unused_imports)]
use crate::msgpack::{
    binaries, byte_views, fits_lengths, msgpack_decoded, msgpack_encoded, slice_of, wire_views,
    WireView,
};
use crate::stamper::validate_peering_key;
#[allow(unused_imports)]
use crate::stamper::peering_key_valid;
use crate::store::PropagationStore;
#[allow(unused_imports)]
use crate::store::{holds, PropagationEntry};

verus! {

/// Code of a refusal because the peer has not identified itself.
pub const ERROR_NO_IDENTITY: u64 = 0xf0;

/// Code of a refusal because the peer has no access.
pub const ERROR_NO_ACCESS: u64 = 0xf1;

/// Code of a refusal because the peering key shows too little work.
pub const ERROR_INVALID_KEY: u64 = 0xf3;

/// Code of a refusal because the request cannot be read.
pub const ERROR_INVALID_DATA: u64 = 0xf4;

/// Code of a refusal because a message stamp shows too little work.
pub const ERROR_INVALID_STAMP: u64 = 0xf5;

/// Code of a refusal because the peer asks too often.
pub const ERROR_THROTTLED: u64 = 0xf6;

/// Code of a refusal because the named peer is not known.
pub const ERROR_NOT_FOUND: u64 = 0xfd;

/// Code of a refusal because nobody took the request in time.
pub const ERROR_TIMEOUT: u64 = 0xfe;

/// Answer to an offer.
#[derive(Debug, Clone, PartialEq, Eq)]
pub enum OfferResponse {
    WantAll,
    HaveAll,
    WantSome(Vec<Vec<u8>>),
    ErrorNoIdentity,
    ErrorNoAccess,
    ErrorInvalidKey,
    ErrorThrottled,
    ErrorInvalidData,
    ErrorInvalidStamp,
    Unknown,
}

/// What an [`OfferResponse`] says.
pub enum OfferResponseView {
    WantAll,
    HaveAll,
    WantSome(Seq<Seq<u8>>),
    ErrorNoIdentity,
    ErrorNoAccess,
    ErrorInvalidKey,
    ErrorThrottled,
    ErrorInvalidData,
    ErrorInvalidStamp,
    Unknown,
}

impl View for OfferResponse {
    type V = OfferResponseView;

    open spec fn view(&self) -> OfferResponseView {
        match self {
            OfferResponse::WantAll => OfferResponseView::WantAll,
            OfferResponse::HaveAll => OfferResponseView::HaveAll,
            OfferResponse::WantSome(ids) => OfferResponseView::WantSome(byte_views(ids@)),
            OfferResponse::ErrorNoIdentity => OfferResponseView::ErrorNoIdentity,
            OfferResponse::ErrorNoAccess => OfferResponseView::ErrorNoAccess,
            OfferResponse::ErrorInvalidKey => OfferResponseView::ErrorInvalidKey,
            OfferResponse::ErrorThrottled => OfferResponseView::ErrorThrottled,
            OfferResponse::ErrorInvalidData => OfferResponseView::ErrorInvalidData,
            OfferResponse::ErrorInvalidStamp => OfferResponseView::ErrorInvalidStamp,
            OfferResponse::Unknown => OfferResponseView::Unknown,
        }
    }
}

/// How a response stands on the wire: booleans for all and nothing, a list of
/// identifiers for some, a code for a refusal.
pub open spec fn response_wire(response: OfferResponseView) -> WireView {
    match response {
        OfferResponseView::WantAll => WireView::Boolean(true),
        OfferResponseView::HaveAll => WireView::Boolean(false),
        OfferResponseView::WantSome(ids) => binaries(ids),
        OfferResponseView::ErrorNoIdentity => WireView::Unsigned(ERROR_NO_IDENTITY),
        OfferResponseView::ErrorNoAccess => WireView::Unsigned(ERROR_NO_ACCESS),
        OfferResponseView::ErrorInvalidKey => WireView::Unsigned(ERROR_INVALID_KEY),
        OfferResponseView::ErrorThrottled => WireView::Unsigned(ERROR_THROTTLED),
        OfferResponseView::ErrorInvalidData => WireView::Unsigned(ERROR_INVALID_DATA),
        OfferResponseView::ErrorInvalidStamp => WireView::Unsigned(ERROR_INVALID_STAMP),
        OfferResponseView::Unknown => WireView::Nil,
    }
}

/// The byte strings among `items`.
pub open spec fn slices_among(items: Seq<WireView>) -> Seq<Seq<u8>> {
    items.filter_map(|item: WireView| slice_of(item))
}

/// The response that stands on the wire.
pub open spec fn wire_response(wire: WireView) -> OfferResponseView {
    match wire {
        WireView::Boolean(true) => OfferResponseView::WantAll,
        WireView::Boolean(false) => OfferResponseView::HaveAll,
        WireView::Array(items) => OfferResponseView::WantSome(slices_among(items)),
        WireView::Unsigned(code) => if code == ERROR_NO_IDENTITY {
            OfferResponseView::ErrorNoIdentity
        } else if code == ERROR_NO_ACCESS {
            OfferResponseView::ErrorNoAccess
        } else if code == ERROR_INVALID_KEY {
            OfferResponseView::ErrorInvalidKey
        } else if code == ERROR_THROTTLED {
            OfferResponseView::ErrorThrottled
        } else if code == ERROR_INVALID_DATA {
            OfferResponseView::ErrorInvalidData
        } else if code == ERROR_INVALID_STAMP {
            OfferResponseView::ErrorInvalidStamp
        } else {
            OfferResponseView::Unknown
        },
        _ => OfferResponseView::Unknown,
    }
}

/// The response that `data` holds.
pub open spec fn response_from_msgpack(data: Seq<u8>) -> OfferResponseView {
    match msgpack_decoded(data) {
        Some(wire) => wire_response(wire),
        None => OfferResponseView::Unknown,
    }
}

/// Copies of byte strings that own their memory.
pub(crate) fn copy_list(items: &Vec<Vec<u8>>) -> (copies: Vec<Vec<u8>>)
    ensures
        byte_views(copies@) == byte_views(items@),
{
    let mut copies: Vec<Vec<u8>> = Vec::new();
    let mut i: usize = 0;
    while i < items.len()
        invariant
            i <= items@.len(),
            copies@.len() == i,
            forall|j: int| 0 <= j < i ==> copies@[j]@ == items@[j]@,
        decreases items@.len() - i,
    {
        copies.push(copy_bytes(items[i].as_slice()));
        i = i + 1;
    }
    assert(byte_views(copies@) =~= byte_views(items@));
    copies
}

/// Identifiers as byte strings.
pub(crate) fn ids_to_bytes(ids: &Vec<PropagationTransientId>) -> (items: Vec<Vec<u8>>)
    ensures
        byte_views(items@) == id_views(ids@),
{
    let mut items: Vec<Vec<u8>> = Vec::new();
    let mut i: usize = 0;
    while i < ids.len()
        invariant
            i <= ids@.len(),
            items@.len() == i,
            forall|j: int| 0 <= j < i ==> items@[j]@ == ids@[j]@,
        decreases ids@.len() - i,
    {
        items.push(copy_bytes(&ids[i]));
        i = i + 1;
    }
    assert(byte_views(items@) =~= id_views(ids@));
    items
}

/// The bytes of identifiers.
pub open spec fn id_views(ids: Seq<PropagationTransientId>) -> Seq<Seq<u8>> {
    Seq::new(ids.len(), |i: int| ids[i]@)
}

impl OfferResponse {
    /// Puts a response into its wire form.
    fn to_outgoing(&self) -> (wire: Outgoing)
        ensures
            wire@ == response_wire(self@),
            (self@ matches OfferResponseView::WantSome(ids) ==> fits_lengths(ids)) ==> wire.fits(),
    {
        match self {
            OfferResponse::WantAll => Outgoing::Boolean(true),
            OfferResponse::HaveAll => Outgoing::Boolean(false),
            OfferResponse::WantSome(ids) => Outgoing::List(copy_list(ids)),
            OfferResponse::ErrorNoIdentity => Outgoing::Code(ERROR_NO_IDENTITY),
            OfferResponse::ErrorNoAccess => Outgoing::Code(ERROR_NO_ACCESS),
            OfferResponse::ErrorInvalidKey => Outgoing::Code(ERROR_INVALID_KEY),
            OfferResponse::ErrorThrottled => Outgoing::Code(ERROR_THROTTLED),
            OfferResponse::ErrorInvalidData => Outgoing::Code(ERROR_INVALID_DATA),
            OfferResponse::ErrorInvalidStamp => Outgoing::Code(ERROR_INVALID_STAMP),
            OfferResponse::Unknown => Outgoing::Nil,
        }
    }

    /// Encodes a response. Where its lengths fit MessagePack's length fields,
    /// reading the bytes gives the response back.
    pub fn to_msgpack(&self) -> (data: Vec<u8>)
        ensures
            data@ == msgpack_encoded(response_wire(self@)),
            (self@ matches OfferResponseView::WantSome(ids) ==> fits_lengths(ids))
                ==> response_from_msgpack(data@) == self@,
    {
        let data = encode_value(&self.to_outgoing());
        proof {
            law_responses_read_back(self@);
        }
        data
    }

    /// The response that a decoded value stands for.
    pub fn from_wire_value(value: &WireValue) -> (response: Self)
        ensures
            response@ == wire_response(value@),
    {
        match value {
            WireValue::Boolean(all) => if *all {
                OfferResponse::WantAll
            } else {
                OfferResponse::HaveAll
            },
            WireValue::Array(_) => match value.as_array() {
                Some(items) => OfferResponse::WantSome(collect_slices(items)),
                None => OfferResponse::Unknown,
            },
            WireValue::Integer(Some(code), _) => if *code == ERROR_NO_IDENTITY {
                OfferResponse::ErrorNoIdentity
            } else if *code == ERROR_NO_ACCESS {
                OfferResponse::ErrorNoAccess
            } else if *code == ERROR_INVALID_KEY {
                OfferResponse::ErrorInvalidKey
            } else if *code == ERROR_THROTTLED {
                OfferResponse::ErrorThrottled
            } else if *code == ERROR_INVALID_DATA {
                OfferResponse::ErrorInvalidData
            } else if *code == ERROR_INVALID_STAMP {
                OfferResponse::ErrorInvalidStamp
            } else {
                OfferResponse::Unknown
            },
            _ => OfferResponse::Unknown,
        }
    }

    /// Reads a response; anything else is `Unknown`.
    pub fn from_msgpack(data: &[u8]) -> (response: Self)
        ensures
            response@ == response_from_msgpack(data@),
    {
        match decode_value(data) {
            Some(value) => OfferResponse::from_wire_value(&value),
            None => OfferResponse::Unknown,
        }
    }
}

/// Collects the byte strings among decoded values.
fn collect_slices(items: &Vec<WireValue>) -> (slices: Vec<Vec<u8>>)
    ensures
        byte_views(slices@) == slices_among(wire_views(items@)),
{
    let mut slices: Vec<Vec<u8>> = Vec::new();
    let ghost views = wire_views(items@);
    let mut i: usize = 0;
    assert(slices_among(views.take(0)) =~= Seq::empty());
    assert(byte_views(slices@) =~= Seq::empty());
    while i < items.len()
        invariant
            i <= items@.len(),
            views == wire_views(items@),
            byte_views(slices@) == slices_among(views.take(i as int)),
        decreases items@.len() - i,
    {
        let ghost before = slices@;
        assert(views.take(i + 1).drop_last() =~= views.take(i as int));
        assert(views.take(i + 1).last() == items@[i as int]@);
        if let Some(bytes) = items[i].as_slice() {
            slices.push(copy_bytes(bytes));
            assert(byte_views(slices@) =~= byte_views(before) + seq![bytes@]);
        }
        i = i + 1;
    }
    assert(views.take(i as int) =~= views);
    slices
}

/// An array of binaries holds the binaries it was made of.
pub proof fn lemma_slices_of_binaries(items: Seq<Seq<u8>>)
    ensures
        slices_among(Seq::new(items.len(), |i: int| WireView::Binary(items[i]))) == items,
    decreases items.len(),
{
    let wires = Seq::new(items.len(), |i: int| WireView::Binary(items[i]));
    if items.len() > 0 {
        let rest = items.drop_last();
        lemma_slices_of_binaries(rest);
        assert(wires.drop_last() =~= Seq::new(rest.len(), |i: int| WireView::Binary(rest[i])));
        assert(slices_among(wires) =~= rest + seq![items.last()]);
        assert(rest + seq![items.last()] =~= items);
    } else {
        assert(slices_among(wires) =~= items);
    }
}

/// A response is read back from its wire form as it was written.
pub proof fn law_responses_read_back(response: OfferResponseView)
    ensures
        wire_response(response_wire(response)) == response,
{
    if let OfferResponseView::WantSome(ids) = response {
        lemma_slices_of_binaries(ids);
    }
}

/// An offer: the peering key and the identifiers of the offered messages.
#[derive(Debug)]
pub struct DecodedOffer {
    pub peering_key: Vec<u8>,
    pub transient_ids: Vec<PropagationTransientId>,
}

/// Key and identifiers of an offer on the wire: at least a byte string and an
/// array of byte strings of identifier width.
pub open spec fn offer_parts(wire: WireView) -> Option<(Seq<u8>, Seq<Seq<u8>>)> {
    match wire {
        WireView::Array(items) => if items.len() >= 2 {
            match (slice_of(items[0]), items[1]) {
                (Some(key), WireView::Array(ids)) => if all_ids(ids) {
                    Some((key, Seq::new(ids.len(), |i: int| slice_of(ids[i])->0)))
                } else {
                    None
                },
                _ => None,
            }
        } else {
            None
        },
        _ => None,
    }
}

/// Every value is a byte string of identifier width.
pub open spec fn all_ids(items: Seq<WireView>) -> bool {
    forall|i: int| 0 <= i < items.len() ==> is_id(#[trigger] items[i])
}

/// The value is a byte string of identifier width.
pub open spec fn is_id(item: WireView) -> bool {
    slice_of(item) matches Some(bytes) && bytes.len() == 32
}

/// Key and identifiers of the offer in `data`, which may take `max_size` bytes.
pub open spec fn offer_request_parts(data: Seq<u8>, max_size: usize) -> Option<
    (Seq<u8>, Seq<Seq<u8>>),
> {
    if data.len() > max_size {
        None
    } else {
        match msgpack_decoded(data) {
            Some(wire) => offer_parts(wire),
            None => None,
        }
    }
}

/// Why an offer is refused.
#[derive(Debug, Clone, Copy, PartialEq, Eq, Structural)]
pub enum PnOfferEvaluationError {
    InvalidData,
    InvalidKey,
}

impl PnOfferEvaluationError {
    /// The response that reports this error.
    pub open spec fn wire_response_spec(self) -> OfferResponseView {
        match self {
            PnOfferEvaluationError::InvalidData => OfferResponseView::ErrorInvalidData,
            PnOfferEvaluationError::InvalidKey => OfferResponseView::ErrorInvalidKey,
        }
    }

    /// The response that reports this error.
    pub fn wire_response(self) -> (response: OfferResponse)
        ensures
            response@ == self.wire_response_spec(),
    {
        match self {
            PnOfferEvaluationError::InvalidData => OfferResponse::ErrorInvalidData,
            PnOfferEvaluationError::InvalidKey => OfferResponse::ErrorInvalidKey,
        }
    }
}

/// What a node wants of an offer.
#[derive(Debug, Clone, PartialEq, Eq)]
pub enum PnOfferEvaluation {
    WantAll,
    HaveAll,
    WantSome(Vec<PropagationTransientId>),
}

impl PnOfferEvaluation {
    /// The response that says the same.
    pub open spec fn response(&self) -> OfferResponseView {
        match self {
            PnOfferEvaluation::WantAll => OfferResponseView::WantAll,
            PnOfferEvaluation::HaveAll => OfferResponseView::HaveAll,
            PnOfferEvaluation::WantSome(ids) => OfferResponseView::WantSome(id_views(ids@)),
        }
    }

    /// The response that says the same.
    pub fn into_wire_response(self) -> (response: OfferResponse)
        ensures
            response@ == self.response(),
    {
        match self {
            PnOfferEvaluation::WantAll => OfferResponse::WantAll,
            PnOfferEvaluation::HaveAll => OfferResponse::HaveAll,
            PnOfferEvaluation::WantSome(ids) => OfferResponse::WantSome(ids_to_bytes(&ids)),
        }
    }
}

/// Reads the identifiers of an offer; `None` where one has another width.
fn collect_ids(items: &Vec<WireValue>) -> (ids: Option<Vec<PropagationTransientId>>)
    ensures
        match ids {
            Some(ids) => all_ids(wire_views(items@)) && id_views(ids@) == Seq::new(
                items@.len(),
                |i: int| slice_of(wire_views(items@)[i])->0,
            ),
            None => !all_ids(wire_views(items@)),
        },
{
    let ghost views = wire_views(items@);
    let mut ids: Vec<PropagationTransientId> = Vec::new();
    let mut i: usize = 0;
    while i < items.len()
        invariant
            i <= items@.len(),
            views == wire_views(items@),
            ids@.len() == i,
            forall|j: int|
                0 <= j < i ==> is_id(#[trigger] views[j]) && ids@[j]@ == slice_of(views[j])->0,
        decreases items@.len() - i,
    {
        assert(views[i as int] == items@[i as int]@);
        let id = match items[i].as_slice() {
            Some(bytes) => id_from_bytes::<32>(bytes),
            None => None,
        };
        match id {
            Some(id) => ids.push(id),
            None => {
                assert(!is_id(views[i as int]));
                return None;
            },
        }
        i = i + 1;
    }
    assert(id_views(ids@) =~= Seq::new(items@.len(), |i: int| slice_of(views[i])->0));
    Some(ids)
}

/// Takes a decoded value apart as an offer.
pub fn offer_from_value(value: &WireValue) -> (offer: Result<DecodedOffer, PnOfferEvaluationError>)
    ensures
        match offer {
            Ok(offer) => offer_parts(value@) == Some(
                (offer.peering_key@, id_views(offer.transient_ids@)),
            ),
            Err(error) => error is InvalidData && offer_parts(value@) is None,
        },
{
    let items = match value.as_array() {
        Some(items) => items,
        None => {
            return Err(PnOfferEvaluationError::InvalidData);
        },
    };
    if items.len() < 2 {
        return Err(PnOfferEvaluationError::InvalidData);
    }
    assert(wire_views(items@)[0] == items@[0]@);
    assert(wire_views(items@)[1] == items@[1]@);
    match (items[0].as_slice(), items[1].as_array()) {
        (Some(key), Some(id_values)) => match collect_ids(id_values) {
            Some(transient_ids) => Ok(
                DecodedOffer { peering_key: copy_bytes(key), transient_ids },
            ),
            None => Err(PnOfferEvaluationError::InvalidData),
        },
        _ => Err(PnOfferEvaluationError::InvalidData),
    }
}

/// Reads an offer of at most `max_size` bytes.
pub fn decode_offer(data: &[u8], max_size: usize) -> (offer: Result<
    DecodedOffer,
    PnOfferEvaluationError,
>)
    ensures
        match offer {
            Ok(offer) => offer_request_parts(data@, max_size) == Some(
                (offer.peering_key@, id_views(offer.transient_ids@)),
            ),
            Err(error) => error is InvalidData && offer_request_parts(data@, max_size) is None,
        },
{
    if data.len() > max_size {
        return Err(PnOfferEvaluationError::InvalidData);
    }
    match decode_value(data) {
        Some(value) => offer_from_value(&value),
        None => Err(PnOfferEvaluationError::InvalidData),
    }
}

/// The identifiers that a store does not hold, in the order of the offer.
pub open spec fn missing_from(
    ids: Seq<PropagationTransientId>,
    entries: Seq<PropagationEntry>,
) -> Seq<PropagationTransientId> {
    ids.filter(|id: PropagationTransientId| !holds(entries, id))
}

/// The key shows the work that peering costs; without a cost, any key does.
pub open spec fn offer_key_accepted(
    key: Seq<u8>,
    local_identity: DestinationHash,
    remote_identity: DestinationHash,
    peering_cost: u8,
) -> bool {
    peering_cost == 0 || peering_key_valid(local_identity@ + remote_identity@, key, peering_cost)
}

/// What a node that holds `entries` wants of the offered messages: all that it
/// does not hold.
pub open spec fn evaluation_of(
    ids: Seq<PropagationTransientId>,
    entries: Seq<PropagationEntry>,
    evaluation: PnOfferEvaluation,
) -> bool {
    let wanted = missing_from(ids, entries);
    match evaluation {
        PnOfferEvaluation::HaveAll => wanted.len() == 0,
        PnOfferEvaluation::WantAll => wanted.len() > 0 && wanted.len() == ids.len(),
        PnOfferEvaluation::WantSome(some) => 0 < wanted.len() < ids.len() && some@ == wanted,
    }
}

/// Checks the key of an offer and picks what is wanted of it.
pub fn evaluate_decoded(
    offer: DecodedOffer,
    local_identity: &DestinationHash,
    remote_identity: &DestinationHash,
    peering_cost: u8,
    store: &PropagationStore,
) -> (result: Result<PnOfferEvaluation, PnOfferEvaluationError>)
    ensures
        match result {
            Ok(evaluation) => offer_key_accepted(
                offer.peering_key@,
                *local_identity,
                *remote_identity,
                peering_cost,
            ) && evaluation_of(offer.transient_ids@, store@.entries, evaluation),
            Err(error) => error is InvalidKey && !offer_key_accepted(
                offer.peering_key@,
                *local_identity,
                *remote_identity,
                peering_cost,
            ),
        },
{
    if peering_cost > 0 {
        let mut peering_id: Vec<u8> = copy_bytes(local_identity);
        append_bytes(&mut peering_id, remote_identity);
        if !validate_peering_key(
            peering_id.as_slice(),
            offer.peering_key.as_slice(),
            peering_cost,
        ) {
            return Err(PnOfferEvaluationError::InvalidKey);
        }
    }
    let ghost ids = offer.transient_ids@;
    let mut wanted: Vec<PropagationTransientId> = Vec::new();
    let mut i: usize = 0;
    proof {
        reveal(Seq::filter);
        assert(missing_from(ids.take(0), store@.entries) =~= Seq::empty());
    }
    while i < offer.transient_ids.len()
        invariant
            i <= ids.len(),
            ids == offer.transient_ids@,
            wanted@ == missing_from(ids.take(i as int), store@.entries),
            wanted@.len() <= i,
        decreases ids.len() - i,
    {
        proof {
            reveal(Seq::filter);
            assert(ids.take(i + 1).drop_last() =~= ids.take(i as int));
        }
        if !store.contains(&offer.transient_ids[i]) {
            wanted.push(offer.transient_ids[i]);
        }
        i = i + 1;
    }
    assert(ids.take(i as int) =~= ids);
    if wanted.len() == 0 {
        Ok(PnOfferEvaluation::HaveAll)
    } else if wanted.len() == offer.transient_ids.len() {
        Ok(PnOfferEvaluation::WantAll)
    } else {
        Ok(PnOfferEvaluation::WantSome(wanted))
    }
}

/// What a filter lets through is in the list and passes.
pub(crate) proof fn lemma_missing(
    ids: Seq<PropagationTransientId>,
    entries: Seq<PropagationEntry>,
    id: PropagationTransientId,
)
    ensures
        missing_from(ids, entries).contains(id) <==> ids.contains(id) && !holds(entries, id),
        missing_from(ids, entries).len() <= ids.len(),
        missing_from(ids, entries).len() == ids.len() <==> forall|i: int|
            0 <= i < ids.len() ==> !holds(entries, #[trigger] ids[i]),
    decreases ids.len(),
{
    reveal(Seq::filter);
    if ids.len() > 0 {
        let rest = ids.drop_last();
        let before = missing_from(rest, entries);
        let after = missing_from(ids, entries);
        lemma_missing(rest, entries, id);
        assert(ids.last() == ids[ids.len() - 1]);
        assert forall|i: int| 0 <= i < rest.len() implies #[trigger] rest[i] == ids[i] by {}
        if rest.contains(id) {
            let i = choose|i: int| 0 <= i < rest.len() && rest[i] == id;
            assert(ids[i] == id);
        }
        if ids.contains(id) && id != ids.last() {
            let i = choose|i: int| 0 <= i < ids.len() && ids[i] == id;
            assert(rest[i] == id);
        }
        if before.contains(id) {
            let k = choose|k: int| 0 <= k < before.len() && before[k] == id;
            assert(after[k] == id);
        }
        if !holds(entries, ids.last()) {
            assert(after == before.push(ids.last()));
            assert(after[before.len() as int] == ids.last());
        }
        if forall|i: int| 0 <= i < rest.len() ==> !holds(entries, #[trigger] rest[i]) {
            assert forall|i: int| 0 <= i < rest.len() implies !holds(
                entries,
                #[trigger] ids[i],
            ) by {
                assert(rest[i] == ids[i]);
            }
        }
        if forall|i: int| 0 <= i < ids.len() ==> !holds(entries, #[trigger] ids[i]) {
            assert forall|i: int| 0 <= i < rest.len() implies !holds(
                entries,
                #[trigger] rest[i],
            ) by {
                assert(rest[i] == ids[i]);
            }
        }
    }
}

/// A node asks for what it lacks of an offer and for nothing it has: it has all where
/// it lacks nothing, wants all where it has nothing of it, and else names what it
/// lacks.
pub proof fn law_what_is_lacking_is_wanted(
    ids: Seq<PropagationTransientId>,
    entries: Seq<PropagationEntry>,
    evaluation: PnOfferEvaluation,
    id: PropagationTransientId,
)
    requires
        evaluation_of(ids, entries, evaluation),
    ensures
        match evaluation {
            PnOfferEvaluation::HaveAll => ids.contains(id) ==> holds(entries, id),
            PnOfferEvaluation::WantAll => ids.len() > 0 && (ids.contains(id) ==> !holds(
                entries,
                id,
            )),
            PnOfferEvaluation::WantSome(some) => (some@.contains(id) <==> ids.contains(id)
                && !holds(entries, id)) && 0 < some@.len() < ids.len(),
        },
{
    lemma_missing(ids, entries, id);
    if ids.contains(id) {
        let i = choose|i: int| 0 <= i < ids.len() && ids[i] == id;
        assert(ids[i] == id);
    }
    if missing_from(ids, entries).len() == 0 {
        assert(!missing_from(ids, entries).contains(id));
    }
}

/// An offer reads back from its message: the key, and the identifiers in order. One
/// with anything that is no identifier in it is refused as a whole.
pub proof fn law_offers_read_back(
    key: Seq<u8>,
    ids: Seq<PropagationTransientId>,
    other: Seq<u8>,
)
    requires
        other.len() != 32,
    ensures
        offer_parts(
            WireView::Array(seq![WireView::Binary(key), binaries(id_views(ids))]),
        ) == Some((key, id_views(ids))),
        offer_parts(
            WireView::Array(seq![WireView::Binary(key), binaries(id_views(ids).push(other))]),
        ) is None,
        offer_parts(WireView::Array(seq![WireView::Binary(key)])) is None,
{
    let items = Seq::new(id_views(ids).len(), |i: int| WireView::Binary(id_views(ids)[i]));
    let whole = WireView::Array(seq![WireView::Binary(key), binaries(id_views(ids))]);
    assert(all_ids(items)) by {
        assert forall|i: int| 0 <= i < items.len() implies is_id(#[trigger] items[i]) by {
            assert(id_views(ids)[i].len() == 32);
        }
    }
    assert((offer_parts(whole)->0).1 =~= id_views(ids));
    let longer = id_views(ids).push(other);
    let worse = Seq::new(longer.len(), |i: int| WireView::Binary(longer[i]));
    assert(!is_id(worse[ids.len() as int]));
    assert(!all_ids(worse));
}

/// An offer is read where it is no larger than agreed, and not where it is larger.
pub proof fn law_large_offers_are_not_read(data: Seq<u8>, max_size: usize)
    ensures
        data.len() > max_size ==> offer_request_parts(data, max_size) is None,
        data.len() <= max_size ==> offer_request_parts(data, max_size) == (match msgpack_decoded(
            data,
        ) {
            Some(wire) => offer_parts(wire),
            None => None,
        }),
{
}

/// Each refusal of an offer has its code on the wire.
pub proof fn law_refusals_have_codes()
    ensures
        response_wire(OfferResponseView::ErrorNoIdentity) == WireView::Unsigned(0xf0),
        response_wire(OfferResponseView::ErrorNoAccess) == WireView::Unsigned(0xf1),
        response_wire(OfferResponseView::ErrorInvalidKey) == WireView::Unsigned(0xf3),
        response_wire(OfferResponseView::ErrorInvalidData) == WireView::Unsigned(0xf4),
        response_wire(OfferResponseView::ErrorInvalidStamp) == WireView::Unsigned(0xf5),
        response_wire(OfferResponseView::ErrorThrottled) == WireView::Unsigned(0xf6),
        response_wire(OfferResponseView::WantAll) == WireView::Boolean(true),
        response_wire(OfferResponseView::HaveAll) == WireView::Boolean(false),
{
}

} // verus!
