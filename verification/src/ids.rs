//! Fixed-width identifiers and the lists that hold them.

use vstd::prelude::*;

verus! {

/// Identifier of a propagated message: the full hash of its data.
pub type PropagationTransientId = [u8; 32];

/// Truncated hash that names a destination, an identity or a peer.
pub type DestinationHash = [u8; 16];

/// Tells whether two identifiers of one width are equal.
pub fn same_id<const N: usize>(left: &[u8; N], right: &[u8; N]) -> (same: bool)
    ensures
        same == (*left == *right),
{
    let mut i: usize = 0;
    while i < N
        invariant
            i <= N,
            forall|j: int| 0 <= j < i ==> left[j] == right[j],
        decreases N - i,
    {
        if left[i] != right[i] {
            return false;
        }
        i = i + 1;
    }
    assert(*left =~= *right);
    true
}

/// Tells whether `ids` holds `id`.
pub fn contains_id<const N: usize>(ids: &[[u8; N]], id: &[u8; N]) -> (found: bool)
    ensures
        found == ids@.contains(*id),
{
    let mut i: usize = 0;
    while i < ids.len()
        invariant
            i <= ids.len(),
            forall|j: int| 0 <= j < i ==> ids@[j] != *id,
        decreases ids.len() - i,
    {
        if same_id(&ids[i], id) {
            assert(ids@[i as int] == *id);
            return true;
        }
        i = i + 1;
    }
    false
}

/// Reads `bytes` as an identifier: `Some` exactly when they have its width.
pub fn id_from_bytes<const N: usize>(bytes: &[u8]) -> (id: Option<[u8; N]>)
    ensures
        match id {
            Some(id) => bytes@.len() == N && id@ == bytes@,
            None => bytes@.len() != N,
        },
{
    if bytes.len() != N {
        return None;
    }
    let mut id: [u8; N] = [0u8; N];
    let mut i: usize = 0;
    while i < N
        invariant
            i <= N,
            bytes@.len() == N,
            forall|j: int| 0 <= j < i ==> id@[j] == bytes@[j],
        decreases N - i,
    {
        id[i] = bytes[i];
        i = i + 1;
    }
    assert(id@ =~= bytes@);
    Some(id)
}

/// The first `N` bytes of `bytes`, as an identifier.
pub fn leading_id<const N: usize>(bytes: &[u8]) -> (id: [u8; N])
    requires
        N <= bytes@.len(),
    ensures
        id@ == bytes@.take(N as int),
{
    let mut id: [u8; N] = [0u8; N];
    let mut i: usize = 0;
    while i < N
        invariant
            i <= N,
            N <= bytes@.len(),
            forall|j: int| 0 <= j < i ==> id@[j] == bytes@[j],
        decreases N - i,
    {
        id[i] = bytes[i];
        i = i + 1;
    }
    assert(id@ =~= bytes@.take(N as int));
    id
}

/// Two identifiers with the same bytes are the same identifier.
pub proof fn lemma_id_from_view<const N: usize>(left: [u8; N], right: [u8; N])
    requires
        left@ == right@,
    ensures
        left == right,
{
    assert forall|j: int| 0 <= j < N implies left[j] == right[j] by {
        assert(left@[j] == right@[j]);
    }
    assert(left =~= right);
}

/// A copy of `bytes` that owns its memory.
pub fn copy_bytes(bytes: &[u8]) -> (copy: Vec<u8>)
    ensures
        copy@ == bytes@,
{
    let mut copy: Vec<u8> = Vec::new();
    let mut i: usize = 0;
    while i < bytes.len()
        invariant
            i <= bytes.len(),
            copy@ == bytes@.take(i as int),
        decreases bytes.len() - i,
    {
        copy.push(bytes[i]);
        assert(copy@ =~= bytes@.take(i + 1));
        i = i + 1;
    }
    assert(bytes@.take(i as int) =~= bytes@);
    copy
}

/// Appends `more` to `bytes`.
pub fn append_bytes(bytes: &mut Vec<u8>, more: &[u8])
    ensures
        final(bytes)@ == old(bytes)@ + more@,
{
    let mut i: usize = 0;
    while i < more.len()
        invariant
            i <= more.len(),
            bytes@ == old(bytes)@ + more@.take(i as int),
        decreases more.len() - i,
    {
        bytes.push(more[i]);
        assert(bytes@ =~= old(bytes)@ + more@.take(i + 1));
        i = i + 1;
    }
    assert(more@.take(i as int) =~= more@);
}

} // verus!
