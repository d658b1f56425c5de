//! Peers taking turns.

use vstd::prelude::*;
use crate::ids::DestinationHash;
use crate::sync::id_less;
#[allow(unused_imports)]
use crate::sync::{bytes_less, lemma_bytes_less_total, lemma_bytes_less_transitive};

verus! {

/// No peer stands behind a greater one.
pub open spec fn ascending(peers: Seq<DestinationHash>) -> bool {
    forall|i: int, j: int|
        0 <= i < j < peers.len() ==> !bytes_less(#[trigger] peers[j]@, #[trigger] peers[i]@)
}

/// `sorted` holds the same peers in ascending order.
pub open spec fn is_sorted(peers: Seq<DestinationHash>, sorted: Seq<DestinationHash>) -> bool {
    sorted.to_multiset() == peers.to_multiset() && ascending(sorted)
}

/// How many peers are not greater than `last`.
pub open spec fn up_to(peers: Seq<DestinationHash>, last: DestinationHash) -> nat {
    peers.filter(|peer: DestinationHash| !bytes_less(last@, peer@)).len()
}

/// The peers from the one at `start` on, and after the last one the first.
pub open spec fn from_start(peers: Seq<DestinationHash>, start: int) -> Seq<DestinationHash> {
    peers.skip(start) + peers.take(start)
}

/// The peers in the order of their turns: ascending, starting behind the one
/// that had the last turn.
pub open spec fn turn_order(sorted: Seq<DestinationHash>, last: Option<DestinationHash>) -> Seq<
    DestinationHash,
> {
    match last {
        Some(last) => if sorted.len() == 0 {
            sorted
        } else {
            from_start(sorted, up_to(sorted, last) as int % sorted.len() as int)
        },
        None => sorted,
    }
}

proof fn lemma_insert_ascending(peers: Seq<DestinationHash>, peer: DestinationHash, p: int)
    requires
        0 <= p <= peers.len(),
        ascending(peers),
        forall|k: int| 0 <= k < p ==> !bytes_less(peer@, #[trigger] peers[k]@),
        p < peers.len() ==> bytes_less(peer@, peers[p]@),
    ensures
        ascending(peers.insert(p, peer)),
{
    let grown = peers.insert(p, peer);
    assert forall|i: int, j: int| 0 <= i < j < grown.len() implies !bytes_less(
        #[trigger] grown[j]@,
        #[trigger] grown[i]@,
    ) by {
        let a = if i < p { i } else { i - 1 };
        let b = if j < p { j } else { j - 1 };
        if i != p && j != p {
            assert(grown[i] == peers[a] && grown[j] == peers[b]);
        } else if j == p {
            assert(grown[i] == peers[i]);
        } else {
            assert(grown[j] == peers[b]);
            if bytes_less(peers[b]@, peer@) {
                lemma_bytes_less_transitive(peers[b]@, peer@, peers[p]@);
            }
        }
    }
}

/// Puts peers into ascending order.
fn sort_peers(peers: &Vec<DestinationHash>) -> (sorted: Vec<DestinationHash>)
    ensures
        is_sorted(peers@, sorted@),
        sorted@.len() == peers@.len(),
{
    let ghost all = peers@;
    let mut sorted: Vec<DestinationHash> = Vec::new();
    let mut i: usize = 0;
    assert(all.take(0) =~= sorted@);
    while i < peers.len()
        invariant
            i <= all.len(),
            all == peers@,
            sorted@.len() == i,
            sorted@.to_multiset() == all.take(i as int).to_multiset(),
            ascending(sorted@),
        decreases all.len() - i,
    {
        let peer: DestinationHash = peers[i];
        let mut p: usize = 0;
        while p < sorted.len() && !id_less(&peer, &sorted[p])
            invariant
                p <= sorted@.len(),
                forall|k: int| 0 <= k < p ==> !bytes_less(peer@, #[trigger] sorted@[k]@),
            ensures
                p <= sorted@.len(),
                forall|k: int| 0 <= k < p ==> !bytes_less(peer@, #[trigger] sorted@[k]@),
                p < sorted@.len() ==> bytes_less(peer@, sorted@[p as int]@),
            decreases sorted@.len() - p,
        {
            p = p + 1;
        }
        let ghost before = sorted@;
        sorted.insert(p, peer);
        proof {
            lemma_insert_ascending(before, peer, p as int);
            assert(all.take(i + 1) =~= all.take(i as int).push(peer));
            vstd::seq_lib::to_multiset_insert(before, p as int, peer);
            vstd::seq_lib::to_multiset_insert(all.take(i as int), i as int, peer);
            assert(all.take(i as int).insert(i as int, peer) =~= all.take(i + 1));
        }
        i = i + 1;
    }
    assert(all.take(i as int) =~= all);
    sorted
}

/// Counts the peers that are not greater than `last`.
fn count_up_to(peers: &Vec<DestinationHash>, last: &DestinationHash) -> (count: usize)
    ensures
        count == up_to(peers@, *last),
        count <= peers@.len(),
{
    let ghost not_greater = |peer: DestinationHash| !bytes_less(last@, peer@);
    let mut count: usize = 0;
    let mut i: usize = 0;
    proof {
        reveal(Seq::filter);
        assert(peers@.take(0).filter(not_greater).len() == 0);
    }
    while i < peers.len()
        invariant
            i <= peers@.len(),
            count <= i,
            not_greater == |peer: DestinationHash| !bytes_less(last@, peer@),
            count == peers@.take(i as int).filter(not_greater).len(),
        decreases peers@.len() - i,
    {
        proof {
            reveal(Seq::filter);
            assert(peers@.take(i + 1).drop_last() =~= peers@.take(i as int));
            assert(peers@.take(i + 1).last() == peers@[i as int]);
        }
        if !id_less(last, &peers[i]) {
            count = count + 1;
        }
        i = i + 1;
    }
    assert(peers@.take(i as int) =~= peers@);
    count
}

/// The order in which peers take their turns: ascending, starting behind the
/// one that had the last turn.
pub fn round_robin_peer_order(
    peers: Vec<DestinationHash>,
    last_selected: Option<DestinationHash>,
) -> (order: Vec<DestinationHash>)
    ensures
        exists|sorted: Seq<DestinationHash>| #[trigger]
            is_sorted(peers@, sorted) && order@ == turn_order(sorted, last_selected),
{
    let sorted = sort_peers(&peers);
    assert(is_sorted(peers@, sorted@));
    let last: DestinationHash = match last_selected {
        Some(last) => last,
        None => {
            return sorted;
        },
    };
    if sorted.len() == 0 {
        return sorted;
    }
    let start: usize = count_up_to(&sorted, &last) % sorted.len();
    let mut order: Vec<DestinationHash> = Vec::new();
    let mut i: usize = start;
    while i < sorted.len()
        invariant
            start <= i <= sorted@.len(),
            order@ == sorted@.subrange(start as int, i as int),
        decreases sorted@.len() - i,
    {
        order.push(sorted[i]);
        i = i + 1;
        assert(order@ =~= sorted@.subrange(start as int, i as int));
    }
    let ghost tail = order@;
    let mut k: usize = 0;
    while k < start
        invariant
            k <= start < sorted@.len(),
            order@ == tail + sorted@.take(k as int),
        decreases start - k,
    {
        order.push(sorted[k]);
        k = k + 1;
        assert(order@ =~= tail + sorted@.take(k as int));
    }
    assert(order@ =~= from_start(sorted@, start as int));
    order
}

/// Each peer once, in ascending order.
pub open spec fn strictly_ascending(peers: Seq<DestinationHash>) -> bool {
    forall|i: int, j: int|
        0 <= i < j < peers.len() ==> bytes_less(#[trigger] peers[i]@, #[trigger] peers[j]@)
}

/// In ascending order without repetition, each peer is less than the next.
pub proof fn lemma_strictly_ascending(peers: Seq<DestinationHash>)
    requires
        ascending(peers),
        peers.no_duplicates(),
    ensures
        strictly_ascending(peers),
{
    assert forall|i: int, j: int| 0 <= i < j < peers.len() implies bytes_less(
        #[trigger] peers[i]@,
        #[trigger] peers[j]@,
    ) by {
        if !bytes_less(peers[i]@, peers[j]@) {
            lemma_bytes_less_total(peers[i]@, peers[j]@, 16);
            assert(peers[i]@ =~= peers[j]@);
            crate::ids::lemma_id_from_view(peers[i], peers[j]);
            assert(peers[i] == peers[j]);
        }
    }
}

/// The order in which the peers of a set take their turns.
pub open spec fn is_turn_order(
    peers: Set<DestinationHash>,
    last: Option<DestinationHash>,
    order: Seq<DestinationHash>,
) -> bool {
    exists|sorted: Seq<DestinationHash>| #[trigger]
        strictly_ascending(sorted) && sorted.to_set() == peers && order == turn_order(sorted, last)
}

/// What was sorted without repetition holds each peer once.
pub proof fn lemma_sorted_set(peers: Seq<DestinationHash>, sorted: Seq<DestinationHash>)
    requires
        is_sorted(peers, sorted),
        peers.no_duplicates(),
    ensures
        strictly_ascending(sorted),
        sorted.to_set() == peers.to_set(),
{
    peers.lemma_multiset_has_no_duplicates();
    sorted.lemma_multiset_has_no_duplicates_conv();
    lemma_strictly_ascending(sorted);
    assert forall|peer: DestinationHash| #[trigger] sorted.to_set().contains(peer)
        <==> peers.to_set().contains(peer) by {
        vstd::seq_lib::to_multiset_contains(sorted, peer);
        vstd::seq_lib::to_multiset_contains(peers, peer);
    }
    assert(sorted.to_set() =~= peers.to_set());
}

/// As many peers as stand up to a peer are not greater than it.
proof fn lemma_up_to(peers: Seq<DestinationHash>, i: int, n: int)
    requires
        strictly_ascending(peers),
        0 <= i < peers.len(),
        0 <= n <= peers.len(),
    ensures
        up_to(peers.take(n), peers[i]) == (if n <= i { n } else { i + 1 }),
    decreases n,
{
    reveal(Seq::filter);
    if n > 0 {
        lemma_up_to(peers, i, n - 1);
        assert(peers.take(n).drop_last() =~= peers.take(n - 1));
        assert(peers.take(n).last() == peers[n - 1]);
        if n - 1 < i {
            assert(bytes_less(peers[n - 1]@, peers[i]@));
            lemma_not_both(peers[n - 1]@, peers[i]@);
        } else if n - 1 == i {
            if bytes_less(peers[i]@, peers[i]@) {
                lemma_not_both(peers[i]@, peers[i]@);
            }
        } else {
            assert(bytes_less(peers[i]@, peers[n - 1]@));
        }
    }
}

proof fn lemma_not_both(left: Seq<u8>, right: Seq<u8>)
    requires
        bytes_less(left, right),
    ensures
        !bytes_less(right, left),
{
    if bytes_less(right, left) {
        lemma_bytes_less_transitive(left, right, left);
    }
}

/// The turn behind a peer's is that of the next greater one, and behind the
/// greatest one's that of the least.
pub proof fn law_next_turn(sorted: Seq<DestinationHash>, i: int)
    requires
        strictly_ascending(sorted),
        0 <= i < sorted.len(),
    ensures
        turn_order(sorted, Some(sorted[i]))[0] == sorted[(i + 1) % sorted.len() as int],
{
    lemma_up_to(sorted, i, sorted.len() as int);
    assert(sorted.take(sorted.len() as int) =~= sorted);
    assert(up_to(sorted, sorted[i]) == i + 1);
    let start = (i + 1) % sorted.len() as int;
    assert(0 <= start < sorted.len());
    assert(from_start(sorted, start)[0] == sorted[start]);
}

/// Who has the `turn`th turn.
pub open spec fn turn_of(sorted: Seq<DestinationHash>, turn: nat) -> DestinationHash
    decreases turn,
{
    if turn == 0 {
        turn_order(sorted, None)[0]
    } else {
        turn_order(sorted, Some(turn_of(sorted, (turn - 1) as nat)))[0]
    }
}

/// No peer is starved: among peers that all wait, every one has a turn before
/// any has a second one.
pub proof fn law_nobody_starves(sorted: Seq<DestinationHash>, turn: nat)
    requires
        strictly_ascending(sorted),
        sorted.len() > 0,
    ensures
        turn_of(sorted, turn) == sorted[turn as int % sorted.len() as int],
    decreases turn,
{
    let n = sorted.len() as int;
    if turn > 0 {
        law_nobody_starves(sorted, (turn - 1) as nat);
        let i = (turn - 1) as int % n;
        law_next_turn(sorted, i);
        assert((i + 1) % n == turn as int % n) by {
            vstd::arithmetic::div_mod::lemma_add_mod_noop((turn - 1) as int, 1, n);
            vstd::arithmetic::div_mod::lemma_add_mod_noop(i, 1, n);
            vstd::arithmetic::div_mod::lemma_mod_twice((turn - 1) as int, n);
        }
    } else {
        vstd::arithmetic::div_mod::lemma_small_mod(0, sorted.len());
    }
}

/// Up to a place all peers are not greater than `last`, and from there on all are:
/// the place is how many are not greater.
proof fn lemma_up_to_splits(peers: Seq<DestinationHash>, last: DestinationHash)
    requires
        strictly_ascending(peers),
    ensures
        up_to(peers, last) <= peers.len(),
        forall|i: int|
            0 <= i < up_to(peers, last) ==> !bytes_less(last@, #[trigger] peers[i]@),
        forall|i: int|
            up_to(peers, last) <= i < peers.len() ==> bytes_less(last@, #[trigger] peers[i]@),
    decreases peers.len(),
{
    reveal(Seq::filter);
    if peers.len() > 0 {
        let rest = peers.drop_last();
        let n = peers.len() - 1;
        assert forall|i: int, j: int| 0 <= i < j < rest.len() implies bytes_less(
            #[trigger] rest[i]@,
            #[trigger] rest[j]@,
        ) by {
            assert(rest[i] == peers[i] && rest[j] == peers[j]);
        }
        lemma_up_to_splits(rest, last);
        assert(peers.last() == peers[n]);
        assert forall|i: int| 0 <= i < n implies rest[i] == #[trigger] peers[i] by {}
        if !bytes_less(last@, peers[n]@) && up_to(rest, last) < n {
            let k = up_to(rest, last) as int;
            assert(bytes_less(last@, rest[k]@));
            assert(bytes_less(peers[k]@, peers[n]@));
            lemma_bytes_less_transitive(last@, peers[k]@, peers[n]@);
        }
    }
}

/// After any peer, waiting or not, the turn is that of the least greater peer that
/// waits; where none is greater, that of the least.
pub proof fn law_turn_moves_on(sorted: Seq<DestinationHash>, last: DestinationHash)
    requires
        strictly_ascending(sorted),
        sorted.len() > 0,
    ensures
        ({
            let next = turn_order(sorted, Some(last))[0];
            ||| bytes_less(last@, next@) && forall|i: int|
                0 <= i < sorted.len() && bytes_less(last@, #[trigger] sorted[i]@) ==> !bytes_less(
                    sorted[i]@,
                    next@,
                )
            ||| next == sorted[0] && forall|i: int|
                0 <= i < sorted.len() ==> !bytes_less(last@, #[trigger] sorted[i]@)
        }),
{
    lemma_up_to_splits(sorted, last);
    let n = sorted.len() as int;
    let k = up_to(sorted, last) as int;
    if k < n {
        vstd::arithmetic::div_mod::lemma_small_mod(k as nat, n as nat);
        let next = turn_order(sorted, Some(last))[0];
        assert(next == sorted[k]);
        assert forall|i: int|
            0 <= i < n && bytes_less(last@, #[trigger] sorted[i]@) implies !bytes_less(
            sorted[i]@,
            next@,
        ) by {
            if k < i {
                lemma_not_both(sorted[k]@, sorted[i]@);
            } else if bytes_less(sorted[k]@, sorted[k]@) {
                lemma_not_both(sorted[k]@, sorted[k]@);
            }
        }
    } else {
        vstd::arithmetic::div_mod::lemma_mod_self_0(n);
        assert(turn_order(sorted, Some(last))[0] == sorted[0]);
    }
}

/// Whoever had the last turn, every peer that waits has a place in the order, and
/// nobody else.
pub proof fn law_everyone_has_a_place(
    sorted: Seq<DestinationHash>,
    last: Option<DestinationHash>,
    peer: DestinationHash,
)
    ensures
        turn_order(sorted, last).len() == sorted.len(),
        turn_order(sorted, last).contains(peer) <==> sorted.contains(peer),
        last is None ==> turn_order(sorted, last) == sorted,
{
    let order = turn_order(sorted, last);
    if last is Some && sorted.len() > 0 {
        let n = sorted.len() as int;
        let start = up_to(sorted, last->0) as int % n;
        vstd::arithmetic::div_mod::lemma_mod_bound(up_to(sorted, last->0) as int, n);
        assert(order == from_start(sorted, start));
        if sorted.contains(peer) {
            let i = choose|i: int| 0 <= i < n && sorted[i] == peer;
            let at = if i >= start {
                i - start
            } else {
                n - start + i
            };
            assert(order[at] == peer);
        }
        if order.contains(peer) {
            let i = choose|i: int| 0 <= i < order.len() && order[i] == peer;
            let at = if i < n - start {
                i + start
            } else {
                i - (n - start)
            };
            assert(sorted[at] == peer);
        }
    }
}

} // verus!
