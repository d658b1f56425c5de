//! Proof-of-work stamps: workblocks, stamp values and stamp search.

use vstd::prelude::*;
use crate::ids::{append_bytes, copy_bytes, id_from_bytes};
use crate::msgpack::{encode_value, Outgoing};
#[allow(unused_imports)]
use crate::msgpack::{msgpack_encoded, WireView};

verus! {

/// Length of a stamp.
pub const STAMP_SIZE: usize = 32;

/// Bytes that one expansion round adds to a workblock.
pub const WORKBLOCK_ROUND_SIZE: usize = 256;

/// Expansion rounds of the workblock of a propagated message.
pub const STAMP_WORKBLOCK_EXPAND_ROUNDS_PN: u64 = 1000;

/// Expansion rounds of the workblock of a peering key.
pub const STAMP_WORKBLOCK_EXPAND_ROUNDS_PEERING: u64 = 25;

/// Smallest LXMF message: two destination hashes, a signature, a timestamp and
/// the payload's structure.
pub const LXMF_OVERHEAD: usize = 112;

/// Candidates that a stamp search tries before it gives up.
pub const STAMP_SEARCH_LIMIT: u64 = 16_777_216;

/// The SHA-256 digest of `data`, as `rns_crypto::sha256::sha256` computes it.
pub uninterp spec fn sha256_digest(data: Seq<u8>) -> Seq<u8>;

/// The key of `length` bytes that `rns_crypto::hkdf::hkdf` derives from
/// `material` and `salt`, without a context.
pub uninterp spec fn hkdf_key(length: int, material: Seq<u8>, salt: Seq<u8>) -> Seq<u8>;

/// `rns_crypto::sha256::sha256`: the full hash that names identities, messages
/// and packets.
#[verifier::external_body]
pub(crate) fn full_hash(data: &[u8]) -> (digest: [u8; 32])
    ensures
        digest@ == sha256_digest(data@),
{
    rns_crypto::sha256::sha256(data)
}

/// `rns_crypto::hkdf::hkdf` without a context. It reports an error exactly when
/// no bytes are asked for or the material is empty; otherwise the key has the
/// length asked for and depends on nothing but the arguments.
#[verifier::external_body]
fn derive_key(length: usize, material: &[u8], salt: &[u8]) -> (key: Option<Vec<u8>>)
    ensures
        match key {
            Some(key) => length >= 1 && material@.len() >= 1 && key@.len() == length && key@
                == hkdf_key(length as int, material@, salt@),
            None => length == 0 || material@.len() == 0,
        },
{
    rns_crypto::hkdf::hkdf(length, material, Some(salt), None).ok()
}

/// `material` followed by the MessagePack form of `n`, hashed.
pub open spec fn numbered_hash(material: Seq<u8>, n: u64) -> Seq<u8> {
    sha256_digest(material + msgpack_encoded(WireView::Unsigned(n)))
}

/// The workblock of `material` after `rounds` expansion rounds.
pub open spec fn workblock_spec(material: Seq<u8>, rounds: u64) -> Seq<u8>
    decreases rounds,
{
    if rounds == 0 {
        Seq::empty()
    } else {
        let n = (rounds - 1) as u64;
        workblock_spec(material, n) + hkdf_key(
            WORKBLOCK_ROUND_SIZE as int,
            material,
            numbered_hash(material, n),
        )
    }
}

/// Number of zero bits in front of the first one bit of `byte`.
pub open spec fn leading_zero_bits_of_byte(byte: u8) -> nat {
    if byte >= 128 {
        0
    } else if byte >= 64 {
        1
    } else if byte >= 32 {
        2
    } else if byte >= 16 {
        3
    } else if byte >= 8 {
        4
    } else if byte >= 4 {
        5
    } else if byte >= 2 {
        6
    } else if byte >= 1 {
        7
    } else {
        8
    }
}

/// Number of zero bits in front of the first one bit of `bytes`.
pub open spec fn leading_zero_bits(bytes: Seq<u8>) -> nat
    decreases bytes.len(),
{
    if bytes.len() == 0 {
        0
    } else if bytes[0] == 0 {
        8 + leading_zero_bits(bytes.skip(1))
    } else {
        leading_zero_bits_of_byte(bytes[0])
    }
}

/// What a stamp is worth against a workblock: the zero bits that lead the hash
/// of both.
pub open spec fn stamp_value_spec(workblock: Seq<u8>, stamp: Seq<u8>) -> nat {
    leading_zero_bits(sha256_digest(workblock + stamp))
}

/// A stamp's value as it is stored: the largest byte stands for all values from
/// there on.
pub open spec fn stored_value(value: nat) -> u8 {
    if value > u8::MAX {
        u8::MAX
    } else {
        value as u8
    }
}

/// The `n`th stamp that a search over `material` tries.
pub open spec fn candidate_stamp(material: Seq<u8>, n: u64) -> Seq<u8> {
    numbered_hash(material, n)
}

/// Hashes `material` followed by the MessagePack form of `n`.
fn hash_numbered(material: &[u8], n: u64) -> (digest: [u8; 32])
    ensures
        digest@ == numbered_hash(material@, n),
{
    let mut input: Vec<u8> = copy_bytes(material);
    let number = encode_value(&Outgoing::Code(n));
    append_bytes(&mut input, number.as_slice());
    full_hash(input.as_slice())
}

/// Expands `material` into a workblock.
pub fn stamp_workblock(material: &[u8], rounds: u64) -> (workblock: Vec<u8>)
    requires
        material@.len() > 0,
    ensures
        workblock@ == workblock_spec(material@, rounds),
{
    let mut workblock: Vec<u8> = Vec::new();
    let mut n: u64 = 0;
    while n < rounds
        invariant
            n <= rounds,
            material@.len() > 0,
            workblock@ == workblock_spec(material@, n),
        decreases rounds - n,
    {
        let salt = hash_numbered(material, n);
        if let Some(key) = derive_key(WORKBLOCK_ROUND_SIZE, material, &salt) {
            append_bytes(&mut workblock, key.as_slice());
        }
        n = n + 1;
    }
    workblock
}

/// Counts the zero bits in front of the first one bit of a digest.
fn count_leading_zero_bits(digest: &[u8; 32]) -> (bits: u32)
    ensures
        bits == leading_zero_bits(digest@),
        bits <= 256,
{
    let mut i: usize = 0;
    let mut bits: u32 = 0;
    assert(digest@.skip(0) =~= digest@);
    while i < 32
        invariant
            i <= 32,
            bits == 8 * i,
            leading_zero_bits(digest@) == bits + leading_zero_bits(digest@.skip(i as int)),
        decreases 32 - i,
    {
        let byte: u8 = digest[i];
        assert(digest@.skip(i as int)[0] == byte);
        assert(digest@.skip(i as int).skip(1) =~= digest@.skip(i + 1));
        if byte != 0 {
            return if byte >= 128 {
                bits
            } else if byte >= 64 {
                bits + 1
            } else if byte >= 32 {
                bits + 2
            } else if byte >= 16 {
                bits + 3
            } else if byte >= 8 {
                bits + 4
            } else if byte >= 4 {
                bits + 5
            } else if byte >= 2 {
                bits + 6
            } else {
                bits + 7
            };
        }
        bits = bits + 8;
        i = i + 1;
    }
    bits
}

/// What `stamp` is worth against `workblock`.
pub fn stamp_value(workblock: &[u8], stamp: &[u8; 32]) -> (value: u32)
    ensures
        value == stamp_value_spec(workblock@, stamp@),
        value <= 256,
{
    let mut input: Vec<u8> = copy_bytes(workblock);
    append_bytes(&mut input, stamp);
    let digest = full_hash(input.as_slice());
    count_leading_zero_bits(&digest)
}

/// A stamp's value as it is stored.
pub fn stored_stamp_value(value: u32) -> (stored: u8)
    ensures
        stored == stored_value(value as nat),
{
    if value > 255 {
        255
    } else {
        value as u8
    }
}

/// The `n`th stamp over `material` is worth at least `cost`.
pub open spec fn candidate_meets(material: Seq<u8>, rounds: u64, cost: u8, n: u64) -> bool {
    stamp_value_spec(workblock_spec(material, rounds), candidate_stamp(material, n)) >= cost
}

/// Searches a stamp over `material` that is worth at least `cost`, and gives the
/// first one found with its value. The search is bounded, so it can fail for an
/// excessive cost.
pub fn generate_stamp(material: &[u8], cost: u8, rounds: u64) -> (found: Option<([u8; 32], u32)>)
    requires
        material@.len() > 0,
    ensures
        match found {
            Some((stamp, value)) => value >= cost && value == stamp_value_spec(
                workblock_spec(material@, rounds),
                stamp@,
            ) && exists|n: u64|
                n < STAMP_SEARCH_LIMIT && stamp@ == #[trigger] candidate_stamp(material@, n)
                    && forall|m: u64| m < n ==> !candidate_meets(material@, rounds, cost, m),
            None => forall|n: u64|
                n < STAMP_SEARCH_LIMIT ==> !candidate_meets(material@, rounds, cost, n),
        },
{
    let workblock = stamp_workblock(material, rounds);
    let mut n: u64 = 0;
    while n < STAMP_SEARCH_LIMIT
        invariant
            n <= STAMP_SEARCH_LIMIT,
            workblock@ == workblock_spec(material@, rounds),
            forall|m: u64| m < n ==> !candidate_meets(material@, rounds, cost, m),
        decreases STAMP_SEARCH_LIMIT - n,
    {
        let stamp = hash_numbered(material, n);
        let value: u32 = stamp_value(workblock.as_slice(), &stamp);
        assert(stamp@ == candidate_stamp(material@, n));
        if value >= cost as u32 {
            return Some((stamp, value));
        }
        n = n + 1;
    }
    None
}

/// A peering key is good for `peering_id` when its stamp is worth `cost`.
pub open spec fn peering_key_valid(peering_id: Seq<u8>, key: Seq<u8>, cost: u8) -> bool {
    key.len() == STAMP_SIZE && stamp_value_spec(
        workblock_spec(peering_id, STAMP_WORKBLOCK_EXPAND_ROUNDS_PEERING),
        key,
    ) >= cost
}

/// Tells whether `key` is good for `peering_id` at `cost`.
pub fn validate_peering_key(peering_id: &[u8], key: &[u8], cost: u8) -> (valid: bool)
    requires
        peering_id@.len() > 0,
    ensures
        valid == peering_key_valid(peering_id@, key@, cost),
{
    match id_from_bytes::<32>(key) {
        Some(stamp) => {
            let workblock = stamp_workblock(peering_id, STAMP_WORKBLOCK_EXPAND_ROUNDS_PEERING);
            stamp_value(workblock.as_slice(), &stamp) >= cost as u32
        },
        None => false,
    }
}

/// A propagated message taken apart: its data, its stamp and what the stamp is
/// worth.
#[derive(Debug)]
pub struct ValidatedPnEntry {
    pub lxmf_data: Vec<u8>,
    pub stamp_value: u32,
    pub stamp_data: [u8; 32],
}

/// What the trailing stamp of `entry` is worth over the data in front of it.
pub open spec fn pn_stamp_value(entry: Seq<u8>) -> nat
    recommends
        entry.len() >= STAMP_SIZE,
{
    let split = entry.len() - STAMP_SIZE;
    stamp_value_spec(
        workblock_spec(sha256_digest(entry.take(split)), STAMP_WORKBLOCK_EXPAND_ROUNDS_PN),
        entry.skip(split),
    )
}

/// `entry` is long enough to hold a message and its trailing stamp is worth
/// `min_cost`.
pub open spec fn pn_stamp_valid(entry: Seq<u8>, min_cost: u8) -> bool {
    entry.len() > LXMF_OVERHEAD + STAMP_SIZE && pn_stamp_value(entry) >= min_cost
}

impl ValidatedPnEntry {
    /// This is `entry` taken apart.
    pub open spec fn is_split_of(&self, entry: Seq<u8>) -> bool {
        entry.len() >= STAMP_SIZE && self.lxmf_data@ == entry.take(entry.len() - STAMP_SIZE)
            && self.stamp_data@ == entry.skip(entry.len() - STAMP_SIZE) && self.stamp_value
            == pn_stamp_value(entry)
    }
}

/// Checks the trailing stamp of a propagated message and takes it apart.
pub fn validate_pn_stamp(entry: &[u8], min_cost: u8) -> (validated: Option<ValidatedPnEntry>)
    ensures
        match validated {
            Some(validated) => pn_stamp_valid(entry@, min_cost) && validated.is_split_of(entry@),
            None => !pn_stamp_valid(entry@, min_cost),
        },
{
    if entry.len() <= LXMF_OVERHEAD + STAMP_SIZE {
        return None;
    }
    let split: usize = entry.len() - STAMP_SIZE;
    let (data, stamp) = entry.split_at(split);
    assert(data@ =~= entry@.take(split as int));
    assert(stamp@ =~= entry@.skip(split as int));
    let transient_id = full_hash(data);
    let workblock = stamp_workblock(&transient_id, STAMP_WORKBLOCK_EXPAND_ROUNDS_PN);
    match id_from_bytes::<32>(stamp) {
        Some(stamp_data) => {
            let value: u32 = stamp_value(workblock.as_slice(), &stamp_data);
            if value < min_cost as u32 {
                return None;
            }
            Some(ValidatedPnEntry { lxmf_data: copy_bytes(data), stamp_value: value, stamp_data })
        },
        None => None,
    }
}

/// Storing a stamp's value never makes a sufficient stamp insufficient, nor an
/// insufficient one sufficient.
pub proof fn law_stored_value_keeps_sufficiency(value: nat, cost: u8)
    ensures
        stored_value(value) >= cost <==> value >= cost,
{
}

/// Each leading zero bit more halves what a byte may be: a byte from 128 on has
/// none, and doubling a smaller one takes one away.
pub proof fn law_zero_bits_halve(byte: u8)
    ensures
        leading_zero_bits_of_byte(byte) == 0 <==> byte >= 128,
        0 < byte < 128 ==> leading_zero_bits_of_byte(byte) == leading_zero_bits_of_byte(
            (2 * byte) as u8,
        ) + 1,
        leading_zero_bits_of_byte(0) == 8,
{
}

/// Leading zero bits count through zero bytes and end in the first other one.
pub proof fn law_zero_bits_count_through(bytes: Seq<u8>, k: int)
    requires
        0 <= k <= bytes.len(),
        forall|i: int| 0 <= i < k ==> #[trigger] bytes[i] == 0,
    ensures
        k < bytes.len() && bytes[k] != 0 ==> leading_zero_bits(bytes) == 8 * k
            + leading_zero_bits_of_byte(bytes[k]),
        k == bytes.len() ==> leading_zero_bits(bytes) == 8 * k,
    decreases bytes.len(),
{
    if k > 0 {
        let rest = bytes.skip(1);
        assert forall|i: int| 0 <= i < k - 1 implies #[trigger] rest[i] == 0 by {
            assert(rest[i] == bytes[i + 1]);
        }
        law_zero_bits_count_through(rest, k - 1);
        assert(bytes[0] == 0);
        if k < bytes.len() {
            assert(rest[k - 1] == bytes[k]);
        }
    }
}

/// What is stored of a message in a transfer is the message: its data and its stamp,
/// one behind the other, and the stamp's own value.
pub proof fn law_split_keeps_everything(validated: ValidatedPnEntry, entry: Seq<u8>)
    requires
        validated.is_split_of(entry),
    ensures
        validated.lxmf_data@ + validated.stamp_data@ == entry,
        validated.stamp_data@.len() == 32,
        validated.stamp_value == stamp_value_spec(
            workblock_spec(sha256_digest(validated.lxmf_data@), 1000),
            validated.stamp_data@,
        ),
{
    let split = entry.len() - STAMP_SIZE;
    assert(entry.take(split) + entry.skip(split) =~= entry);
}

/// A message in a transfer is refused where it is too short to be one with a stamp,
/// or its stamp is worth less than what is asked for, and taken otherwise.
pub proof fn law_stamps_are_worth_what_is_asked(entry: Seq<u8>, min_cost: u8, more: u8)
    ensures
        entry.len() <= 144 ==> !pn_stamp_valid(entry, min_cost),
        entry.len() > 144 ==> pn_stamp_valid(entry, 0),
        entry.len() > 144 ==> (pn_stamp_valid(entry, min_cost) <==> stamp_value_spec(
            workblock_spec(sha256_digest(entry.take(entry.len() - 32)), 1000),
            entry.skip(entry.len() - 32),
        ) >= min_cost),
        pn_stamp_valid(entry, more) && min_cost <= more ==> pn_stamp_valid(entry, min_cost),
{
}

/// A peering key is taken where it has the length of a stamp and is worth what
/// peering costs, weighed by twenty-five rounds over both identities.
pub proof fn law_keys_are_worth_what_is_asked(peering_id: Seq<u8>, key: Seq<u8>, cost: u8)
    ensures
        peering_key_valid(peering_id, key, cost) <==> key.len() == 32 && stamp_value_spec(
            workblock_spec(peering_id, 25),
            key,
        ) >= cost,
{
}

/// What a stamp is weighed over grows round by round: each adds 256 bytes derived from
/// the material, salted with the hash of the material and the number of the round.
pub proof fn law_rounds_add_up(material: Seq<u8>, rounds: u64)
    requires
        rounds < u64::MAX,
    ensures
        workblock_spec(material, (rounds + 1) as u64) == workblock_spec(material, rounds)
            + hkdf_key(
            256,
            material,
            sha256_digest(material + msgpack_encoded(WireView::Unsigned(rounds))),
        ),
        workblock_spec(material, 0).len() == 0,
{
}

/// A search for a stamp takes the first one that is worth what is asked for.
pub proof fn law_search_takes_what_suffices(material: Seq<u8>, rounds: u64, cost: u8, n: u64)
    ensures
        candidate_meets(material, rounds, cost, n) <==> stamp_value_spec(
            workblock_spec(material, rounds),
            sha256_digest(material + msgpack_encoded(WireView::Unsigned(n))),
        ) >= cost,
{
}

} // verus!
