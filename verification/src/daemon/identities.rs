//! Identities that announces made known.

use vstd::prelude::*;
use crate::ids::{leading_id, DestinationHash};
#[allow(unused_imports)]
use crate::ids::lemma_id_from_view;
use crate::stamper::full_hash;
#[allow(unused_imports)]
use crate::stamper::sha256_digest;
use crate::sync_task::events::KnownIdentities;
use crate::tables::{PeerMap, PeerSet};

verus! {

/// Hash of an identity: the first bytes of the digest over its public key.
pub open spec fn identity_hash_of(public_key: Seq<u8>) -> Seq<u8> {
    sha256_digest(public_key).take(16)
}

/// The hash of the identity behind a destination, where it is known.
pub open spec fn recalled(known: Map<DestinationHash, Seq<u8>>, dest_hash: DestinationHash) -> Option<
    Seq<u8>,
> {
    if known.contains_key(dest_hash) {
        Some(identity_hash_of(known[dest_hash]))
    } else {
        None
    }
}

/// Looks up the hash of the identity behind a destination.
pub fn recall_identity_hash(known: &KnownIdentities, dest_hash: &DestinationHash) -> (hash: Option<
    DestinationHash,
>)
    ensures
        match hash {
            Some(hash) => recalled(known@, *dest_hash) == Some(hash@),
            None => recalled(known@, *dest_hash) is None,
        },
{
    match known.get(dest_hash) {
        Some(public_key) => {
            let digest = full_hash(public_key.as_slice());
            Some(leading_id::<16>(digest.as_slice()))
        },
        None => None,
    }
}

/// Tells whether messages from a source are to be dropped: its identity is
/// known and shut out. An identity that is not known is never shut out.
pub fn source_blackholed(
    known: &KnownIdentities,
    blackholed: &PeerSet,
    source_hash: &DestinationHash,
) -> (dropped: bool)
    ensures
        dropped == exists|hash: DestinationHash| #[trigger]
            blackholed@.contains(hash) && recalled(known@, *source_hash) == Some(hash@),
{
    match recall_identity_hash(known, source_hash) {
        Some(hash) => {
            let dropped: bool = blackholed.contains(&hash);
            proof {
                if exists|other: DestinationHash| #[trigger]
                    blackholed@.contains(other) && recalled(known@, *source_hash) == Some(other@) {
                    let other = choose|other: DestinationHash| #[trigger]
                        blackholed@.contains(other) && recalled(known@, *source_hash) == Some(
                            other@,
                        );
                    lemma_id_from_view(hash, other);
                }
            }
            dropped
        },
        None => false,
    }
}

/// Most identities that are kept.
pub const KNOWN_IDENTITIES_SOFT_CAP: usize = 10_000;

/// `dropped` are the identities to give up for the rest to fit: as many as there
/// are too many, those without a ratchet first, then those whose ratchet is
/// oldest.
pub open spec fn is_pruning(
    known: Map<DestinationHash, Seq<u8>>,
    received_at: Map<DestinationHash, u64>,
    dropped: Seq<DestinationHash>,
) -> bool {
    &&& dropped.no_duplicates()
    &&& forall|k: int| 0 <= k < dropped.len() ==> known.contains_key(#[trigger] dropped[k])
    &&& dropped.len() == (if known.dom().len() <= KNOWN_IDENTITIES_SOFT_CAP {
        0
    } else {
        known.dom().len() - KNOWN_IDENTITIES_SOFT_CAP
    })
    &&& forall|k: int, kept: DestinationHash|
        #![trigger dropped[k], known.contains_key(kept)]
        0 <= k < dropped.len() && received_at.contains_key(dropped[k]) && known.contains_key(kept)
            && !dropped.contains(kept) ==> received_at.contains_key(kept)
            && received_at[dropped[k]] <= received_at[kept]
}

/// Splits identities into those to give up for want of a ratchet, `excess` at
/// most, and the rest.
fn split_unratcheted(
    keys: &Vec<DestinationHash>,
    received_at: &PeerMap<u64>,
    excess: usize,
) -> (split: (Vec<DestinationHash>, Vec<DestinationHash>))
    requires
        keys@.no_duplicates(),
    ensures
        (split.0@ + split.1@).no_duplicates(),
        split.0@.len() + split.1@.len() == keys@.len(),
        split.0@.len() <= excess,
        forall|key: DestinationHash| #[trigger]
            keys@.contains(key) <==> split.0@.contains(key) || split.1@.contains(key),
        forall|k: int|
            0 <= k < split.0@.len() ==> !received_at@.contains_key(#[trigger] split.0@[k]),
        split.0@.len() < excess ==> forall|k: int|
            0 <= k < split.1@.len() ==> received_at@.contains_key(#[trigger] split.1@[k]),
{
    let mut dropped: Vec<DestinationHash> = Vec::new();
    let mut rest: Vec<DestinationHash> = Vec::new();
    let mut i: usize = 0;
    while i < keys.len()
        invariant
            i <= keys@.len(),
            keys@.no_duplicates(),
            (dropped@ + rest@).no_duplicates(),
            dropped@.len() + rest@.len() == i,
            dropped@.len() <= excess,
            forall|key: DestinationHash| #[trigger]
                (dropped@ + rest@).contains(key) <==> keys@.take(i as int).contains(key),
            forall|k: int|
                0 <= k < dropped@.len() ==> !received_at@.contains_key(#[trigger] dropped@[k]),
            dropped@.len() < excess ==> forall|k: int|
                0 <= k < rest@.len() ==> received_at@.contains_key(#[trigger] rest@[k]),
        decreases keys@.len() - i,
    {
        let key: DestinationHash = keys[i];
        let ghost before = dropped@ + rest@;
        let ghost old_dropped = dropped@;
        let ghost old_rest = rest@;
        proof {
            assert(keys@.take(i + 1) =~= keys@.take(i as int).push(key));
            assert(!keys@.take(i as int).contains(key)) by {
                if keys@.take(i as int).contains(key) {
                    let j = choose|j: int| 0 <= j < i && keys@.take(i as int)[j] == key;
                    assert(keys@[j] == keys@[i as int]);
                }
            }
            assert(!before.contains(key));
        }
        if dropped.len() < excess && !received_at.contains_key(&key) {
            dropped.push(key);
        } else {
            rest.push(key);
        }
        proof {
            let after = dropped@ + rest@;
            lemma_grown(old_dropped, old_rest, dropped@, rest@, key);
            assert forall|other: DestinationHash| #[trigger] after.contains(other) <==> keys@.take(
                i + 1,
            ).contains(other) by {
                let taken = keys@.take(i as int);
                assert(before.contains(other) <==> taken.contains(other));
                if taken.contains(other) {
                    let j = choose|j: int| 0 <= j < taken.len() && taken[j] == other;
                    assert(keys@.take(i + 1)[j] == other);
                }
                if other == key {
                    assert(keys@.take(i + 1)[i as int] == other);
                }
                let grown = keys@.take(i + 1);
                if grown.contains(other) && other != key {
                    let j = choose|j: int| 0 <= j < grown.len() && grown[j] == other;
                    assert(taken[j] == other);
                }
            }
        }
        i = i + 1;
    }
    proof {
        assert(keys@.take(i as int) =~= keys@);
        assert forall|key: DestinationHash| #[trigger] keys@.contains(key) <==> dropped@.contains(
            key,
        ) || rest@.contains(key) by {
            assert((dropped@ + rest@).contains(key) <==> keys@.contains(key));
            lemma_joined(dropped@, rest@, key);
        }
    }
    (dropped, rest)
}

/// What is in two lists together is in one of them.
proof fn lemma_joined(left: Seq<DestinationHash>, right: Seq<DestinationHash>, key: DestinationHash)
    ensures
        (left + right).contains(key) <==> left.contains(key) || right.contains(key),
{
    let both = left + right;
    if left.contains(key) {
        let i = choose|i: int| 0 <= i < left.len() && left[i] == key;
        assert(both[i] == key);
    }
    if right.contains(key) {
        let i = choose|i: int| 0 <= i < right.len() && right[i] == key;
        assert(both[left.len() + i] == key);
    }
    if both.contains(key) {
        let i = choose|i: int| 0 <= i < both.len() && both[i] == key;
        if i < left.len() {
            assert(left[i] == key);
        } else {
            assert(right[i - left.len()] == key);
        }
    }
}

/// A new key in one of two lists keeps both free of repetition.
proof fn lemma_grown(
    left: Seq<DestinationHash>,
    right: Seq<DestinationHash>,
    new_left: Seq<DestinationHash>,
    new_right: Seq<DestinationHash>,
    key: DestinationHash,
)
    requires
        (left + right).no_duplicates(),
        !(left + right).contains(key),
        (new_left == left.push(key) && new_right == right) || (new_left == left && new_right
            == right.push(key)),
    ensures
        (new_left + new_right).no_duplicates(),
        forall|other: DestinationHash| #[trigger]
            (new_left + new_right).contains(other) <==> (left + right).contains(other) || other
                == key,
{
    let both = left + right;
    let grown = new_left + new_right;
    let at = if new_left == left.push(key) {
        left.len() as int
    } else {
        both.len() as int
    };
    assert(grown =~= both.insert(at, key));
    assert forall|i: int, j: int| 0 <= i < grown.len() && 0 <= j < grown.len() && i != j implies grown[i]
        != grown[j] by {
        let a = if i < at { i } else { i - 1 };
        let b = if j < at { j } else { j - 1 };
        if i != at && j != at {
            assert(grown[i] == both[a] && grown[j] == both[b]);
        } else if i == at {
            assert(grown[j] == both[b]);
        } else {
            assert(grown[i] == both[a]);
        }
    }
    assert forall|other: DestinationHash| #[trigger] grown.contains(other) <==> both.contains(other)
        || other == key by {
        if both.contains(other) {
            let i = choose|i: int| 0 <= i < both.len() && both[i] == other;
            let k = if i < at { i } else { i + 1 };
            assert(grown[k] == other);
        }
        if other == key {
            assert(grown[at] == other);
        }
        if grown.contains(other) && other != key {
            let k = choose|k: int| 0 <= k < grown.len() && grown[k] == other;
            let i = if k < at { k } else { k - 1 };
            assert(both[i] == other);
        }
    }
}

/// Finds the identity whose ratchet is oldest.
fn oldest(rest: &Vec<DestinationHash>, received_at: &PeerMap<u64>) -> (index: usize)
    requires
        rest@.len() > 0,
        forall|k: int| 0 <= k < rest@.len() ==> received_at@.contains_key(#[trigger] rest@[k]),
    ensures
        index < rest@.len(),
        forall|k: int|
            0 <= k < rest@.len() ==> received_at@[rest@[index as int]]
                <= received_at@[#[trigger] rest@[k]],
{
    let mut index: usize = 0;
    let mut i: usize = 1;
    while i < rest.len()
        invariant
            index < i <= rest@.len(),
            forall|k: int| 0 <= k < rest@.len() ==> received_at@.contains_key(#[trigger] rest@[k]),
            forall|k: int|
                0 <= k < i ==> received_at@[rest@[index as int]]
                    <= received_at@[#[trigger] rest@[k]],
        decreases rest@.len() - i,
    {
        let best: u64 = age_of(received_at, &rest[index]);
        let other: u64 = age_of(received_at, &rest[i]);
        if other < best {
            index = i;
        }
        i = i + 1;
    }
    index
}

/// When the ratchet of an identity was received.
fn age_of(received_at: &PeerMap<u64>, key: &DestinationHash) -> (age: u64)
    requires
        received_at@.contains_key(*key),
    ensures
        age == received_at@[*key],
{
    match received_at.get(key) {
        Some(age) => *age,
        None => 0,
    }
}

/// Gives up identities until no more than the cap are kept, and tells how many.
/// Those without a ratchet go first, then those whose ratchet is oldest.
pub fn prune_known_identities(known: &mut KnownIdentities, received_at: &PeerMap<u64>) -> (count:
    usize)
    ensures
        exists|dropped: Seq<DestinationHash>| #[trigger]
            is_pruning(old(known)@, received_at@, dropped) && count == dropped.len()
                && final(known)@ == old(known)@.remove_keys(dropped.to_set()),
{
    let keys = known.keys();
    proof {
        lemma_key_count(known@, keys@);
    }
    if keys.len() <= KNOWN_IDENTITIES_SOFT_CAP {
        proof {
            let none = Seq::<DestinationHash>::empty();
            assert(is_pruning(known@, received_at@, none));
            assert(known@ =~= known@.remove_keys(none.to_set()));
        }
        return 0;
    }
    let excess: usize = keys.len() - KNOWN_IDENTITIES_SOFT_CAP;
    let (mut dropped, mut rest) = split_unratcheted(&keys, received_at, excess);
    while dropped.len() < excess
        invariant
            keys@.no_duplicates(),
            excess <= keys@.len(),
            (dropped@ + rest@).no_duplicates(),
            dropped@.len() + rest@.len() == keys@.len(),
            dropped@.len() <= excess,
            forall|key: DestinationHash| #[trigger]
                keys@.contains(key) <==> dropped@.contains(key) || rest@.contains(key),
            dropped@.len() < excess ==> forall|k: int|
                0 <= k < rest@.len() ==> received_at@.contains_key(#[trigger] rest@[k]),
            forall|k: int, r: int|
                #![trigger dropped@[k], rest@[r]]
                0 <= k < dropped@.len() && 0 <= r < rest@.len() && received_at@.contains_key(
                    dropped@[k],
                ) ==> received_at@.contains_key(rest@[r]) && received_at@[dropped@[k]]
                    <= received_at@[rest@[r]],
        decreases excess - dropped@.len(),
    {
        let index: usize = oldest(&rest, received_at);
        let ghost old_dropped = dropped@;
        let ghost old_rest = rest@;
        let key: DestinationHash = rest.remove(index);
        dropped.push(key);
        proof {
            lemma_moved(old_dropped, old_rest, index as int, dropped@, rest@);
            assert forall|other: DestinationHash| #[trigger] keys@.contains(other)
                <==> dropped@.contains(other) || rest@.contains(other) by {
                assert((old_dropped + old_rest).contains(other) <==> (dropped@ + rest@).contains(
                    other,
                ));
                lemma_joined(old_dropped, old_rest, other);
                lemma_joined(dropped@, rest@, other);
            }
            assert forall|k: int, r: int|
                #![trigger dropped@[k], rest@[r]]
                0 <= k < dropped@.len() && 0 <= r < rest@.len() && received_at@.contains_key(
                    dropped@[k],
                ) implies received_at@.contains_key(rest@[r]) && received_at@[dropped@[k]]
                <= received_at@[rest@[r]] by {
                let s = if r < index { r } else { r + 1 };
                assert(rest@[r] == old_rest[s]);
                if k < old_dropped.len() {
                    assert(dropped@[k] == old_dropped[k]);
                } else {
                    assert(dropped@[k] == key);
                }
            }
            assert forall|k: int| 0 <= k < rest@.len() implies received_at@.contains_key(
                #[trigger] rest@[k],
            ) by {
                let s = if k < index { k } else { k + 1 };
                assert(rest@[k] == old_rest[s]);
            }
        }
    }
    let ghost before = known@;
    let mut i: usize = 0;
    assert(known@ =~= before.remove_keys(dropped@.take(0).to_set()));
    while i < dropped.len()
        invariant
            i <= dropped@.len(),
            known@ == before.remove_keys(dropped@.take(i as int).to_set()),
        decreases dropped@.len() - i,
    {
        known.remove(&dropped[i]);
        proof {
            assert(dropped@.take(i + 1) =~= dropped@.take(i as int).push(dropped@[i as int]));
            crate::tables::lemma_push_to_set(dropped@.take(i as int), dropped@[i as int]);
            assert(known@ =~= before.remove_keys(dropped@.take(i + 1).to_set()));
        }
        i = i + 1;
    }
    proof {
        assert(dropped@.take(i as int) =~= dropped@);
        assert forall|k: int| 0 <= k < dropped@.len() implies before.contains_key(
            #[trigger] dropped@[k],
        ) by {
            assert(dropped@.contains(dropped@[k]));
            assert(keys@.contains(dropped@[k]));
        }
        assert forall|k: int, kept: DestinationHash|
            #![trigger dropped@[k], before.contains_key(kept)]
            0 <= k < dropped@.len() && received_at@.contains_key(dropped@[k])
                && before.contains_key(kept) && !dropped@.contains(
                kept,
            ) implies received_at@.contains_key(kept) && received_at@[dropped@[k]]
            <= received_at@[kept] by {
            assert(keys@.contains(kept));
            let r = choose|r: int| 0 <= r < rest@.len() && rest@[r] == kept;
            assert(rest@[r] == kept);
        }
        assert(dropped@.no_duplicates()) by {
            let both = dropped@ + rest@;
            assert forall|a: int, b: int| 0 <= a < dropped@.len() && 0 <= b < dropped@.len() && a
                != b implies dropped@[a] != dropped@[b] by {
                assert(both[a] == dropped@[a] && both[b] == dropped@[b]);
            }
        }
        assert(is_pruning(before, received_at@, dropped@));
    }
    excess
}

/// A key moved from one list to another leaves the same keys.
proof fn lemma_moved(
    left: Seq<DestinationHash>,
    right: Seq<DestinationHash>,
    index: int,
    new_left: Seq<DestinationHash>,
    new_right: Seq<DestinationHash>,
)
    requires
        (left + right).no_duplicates(),
        0 <= index < right.len(),
        new_left == left.push(right[index]),
        new_right == right.remove(index),
    ensures
        (new_left + new_right).no_duplicates(),
        forall|other: DestinationHash| #[trigger]
            (new_left + new_right).contains(other) <==> (left + right).contains(other),
{
    let both = left + right;
    let moved = new_left + new_right;
    let n = left.len() as int;
    assert forall|i: int| 0 <= i < moved.len() implies moved[i] == both[#[trigger] origin(
        n,
        index,
        i,
    )] by {}
    assert forall|i: int, j: int| 0 <= i < moved.len() && 0 <= j < moved.len() && i != j implies moved[i]
        != moved[j] by {
        assert(moved[i] == both[origin(n, index, i)] && moved[j] == both[origin(n, index, j)]);
    }
    assert forall|other: DestinationHash| #[trigger] moved.contains(other) <==> both.contains(
        other,
    ) by {
        if moved.contains(other) {
            let i = choose|i: int| 0 <= i < moved.len() && moved[i] == other;
            assert(both[origin(n, index, i)] == other);
        }
        if both.contains(other) {
            let i = choose|i: int| 0 <= i < both.len() && both[i] == other;
            let k = if i < n {
                i
            } else if i < n + index {
                i + 1
            } else if i == n + index {
                n
            } else {
                i
            };
            assert(origin(n, index, k) == i);
            assert(moved[k] == other);
        }
    }
}

/// Where a key stood before another one was moved in front of it.
spec fn origin(n: int, index: int, i: int) -> int {
    if i < n {
        i
    } else if i == n {
        n + index
    } else if i <= n + index {
        i - 1
    } else {
        i
    }
}

/// A table has as many keys as a list of them is long.
proof fn lemma_key_count(known: Map<DestinationHash, Seq<u8>>, keys: Seq<DestinationHash>)
    requires
        keys.no_duplicates(),
        forall|key: DestinationHash| #[trigger] keys.contains(key) <==> known.contains_key(key),
    ensures
        known.dom().len() == keys.len(),
        known.dom().finite(),
{
    keys.unique_seq_to_set();
    assert forall|key: DestinationHash| #[trigger] keys.to_set().contains(key)
        <==> known.dom().contains(key) by {
        assert(keys.contains(key) <==> known.contains_key(key));
    }
    assert(keys.to_set() =~= known.dom());
}

} // verus!
