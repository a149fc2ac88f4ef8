use vstd::prelude::*;

use crate::replica::{merged_tombstones, pulled, sync_changes, synced_books, synced_documents, Replica};
use crate::rows::stale;
use crate::types::Row;

verus! {

/// Rows that carry the same id and the same stamp in both maps are equal.
pub open spec fn stamps_identify<R: Row>(a: Map<Seq<char>, R>, b: Map<Seq<char>, R>) -> bool {
    forall|k: Seq<char>|
        #[trigger] a.contains_key(k) && #[trigger] b.contains_key(k) && a[k].stamp() == b[k].stamp()
            ==> a[k] == b[k]
}

/// On both replicas, a stamp names one version of a row.
pub open spec fn stamps_identify_rows(a: Replica, b: Replica) -> bool {
    &&& stamps_identify(a.books.map(), b.books.map())
    &&& stamps_identify(a.documents.map(), b.documents.map())
}

/// Both replicas hold the same tombstones and the same live rows.
pub open spec fn converged(a: Replica, b: Replica) -> bool {
    &&& a.tombstones() == b.tombstones()
    &&& a.books.map() == b.books.map()
    &&& a.documents.map() == b.documents.map()
}

/// `a2` and `b2` are what a synchronization of `a` (local) with `b` (remote)
/// leaves.
pub open spec fn sync_result(a: Replica, b: Replica, a2: Replica, b2: Replica) -> bool {
    &&& a2.tombstones() == merged_tombstones(a, b)
    &&& b2.tombstones() == merged_tombstones(a, b)
    &&& a2.books.map() == synced_books(a, b)
    &&& b2.books.map() == synced_books(b, a)
    &&& a2.documents.map() == synced_documents(a, b)
    &&& b2.documents.map() == synced_documents(b, a)
}

proof fn lemma_pulled_symmetric<R: Row>(x: Map<Seq<char>, R>, y: Map<Seq<char>, R>)
    requires
        stamps_identify(x, y),
    ensures
        pulled(x, y) == pulled(y, x),
{
    assert(pulled(x, y) =~= pulled(y, x));
}

proof fn lemma_stamps_identify_sub<R: Row>(x: Map<Seq<char>, R>, y: Map<Seq<char>, R>, dead: Set<Seq<char>>)
    requires
        stamps_identify(x, y),
    ensures
        stamps_identify(x.remove_keys(dead), y.remove_keys(dead)),
{
    assert forall|k: Seq<char>|
        #[trigger] x.remove_keys(dead).contains_key(k) && #[trigger] y.remove_keys(dead).contains_key(k)
            && x.remove_keys(dead)[k].stamp() == y.remove_keys(dead)[k].stamp() implies
            x.remove_keys(dead)[k] == y.remove_keys(dead)[k] by {
        assert(x.contains_key(k) && y.contains_key(k));
    }
}

/// After pulling both ways, neither side holds a row that the other lacks
/// or holds with an older stamp.
proof fn lemma_pulled_settled<R: Row>(x: Map<Seq<char>, R>, y: Map<Seq<char>, R>)
    ensures
        stale(pulled(x, y), pulled(y, x)).is_empty(),
        stale(pulled(y, x), pulled(x, y)).is_empty(),
{
    let p = pulled(x, y);
    let q = pulled(y, x);
    assert(stale(p, q) =~= Set::<Seq<char>>::empty());
    assert(stale(q, p) =~= Set::<Seq<char>>::empty());
}

/// Pulling from a settled peer changes nothing.
proof fn lemma_pulled_idle<R: Row>(x: Map<Seq<char>, R>, y: Map<Seq<char>, R>)
    requires
        stale(x, y).is_empty(),
    ensures
        pulled(x, y) == x,
{
    assert(y.restrict(stale(x, y)) =~= Map::<Seq<char>, R>::empty());
    assert(pulled(x, y) =~= x);
}

/// Convergence: where a stamp names one version of a row, one
/// synchronization of a local replica with a remote one leaves both with the
/// same tombstones and the same live rows, and the next synchronization of
/// the two finds nothing to delete or write, so a loop over a single remote
/// ends after its second pass.
pub proof fn lemma_sync_converges(a: Replica, b: Replica, a2: Replica, b2: Replica)
    requires
        a.wf(),
        b.wf(),
        stamps_identify_rows(a, b),
        sync_result(a, b, a2, b2),
    ensures
        converged(a2, b2),
        !sync_changes(a2, b2),
{
    let dead = merged_tombstones(a, b);
    assert(merged_tombstones(b, a) =~= dead);
    lemma_stamps_identify_sub(a.books.map(), b.books.map(), dead);
    lemma_stamps_identify_sub(a.documents.map(), b.documents.map(), dead);
    lemma_pulled_symmetric(a.books.map().remove_keys(dead), b.books.map().remove_keys(dead));
    lemma_pulled_symmetric(a.documents.map().remove_keys(dead), b.documents.map().remove_keys(dead));
    lemma_sync_idempotent(a, b, a2, b2);
}

/// Idempotence: synchronizing again right after a synchronization deletes
/// nothing, writes nothing and leaves both replicas as they are.
pub proof fn lemma_sync_idempotent(a: Replica, b: Replica, a2: Replica, b2: Replica)
    requires
        a.wf(),
        b.wf(),
        sync_result(a, b, a2, b2),
    ensures
        !sync_changes(a2, b2),
        merged_tombstones(a2, b2) == a2.tombstones(),
        merged_tombstones(a2, b2) == b2.tombstones(),
        synced_books(a2, b2) == a2.books.map(),
        synced_books(b2, a2) == b2.books.map(),
        synced_documents(a2, b2) == a2.documents.map(),
        synced_documents(b2, a2) == b2.documents.map(),
{
    let dead = merged_tombstones(a, b);
    let xb = a.books.map().remove_keys(dead);
    let yb = b.books.map().remove_keys(dead);
    let xd = a.documents.map().remove_keys(dead);
    let yd = b.documents.map().remove_keys(dead);
    assert(merged_tombstones(a2, b2) =~= dead);
    assert(b2.tombstones().difference(a2.tombstones()) =~= Set::<Seq<char>>::empty());
    assert(a2.tombstones().difference(b2.tombstones()) =~= Set::<Seq<char>>::empty());
    assert(a2.books.map().remove_keys(dead) =~= a2.books.map());
    assert(b2.books.map().remove_keys(dead) =~= b2.books.map());
    assert(a2.documents.map().remove_keys(dead) =~= a2.documents.map());
    assert(b2.documents.map().remove_keys(dead) =~= b2.documents.map());
    lemma_pulled_settled(xb, yb);
    lemma_pulled_settled(xd, yd);
    lemma_pulled_idle(pulled(xb, yb), pulled(yb, xb));
    lemma_pulled_idle(pulled(yb, xb), pulled(xb, yb));
    lemma_pulled_idle(pulled(xd, yd), pulled(yd, xd));
    lemma_pulled_idle(pulled(yd, xd), pulled(xd, yd));
}

/// Last writer wins: a book that both replicas hold, with a strictly later
/// stamp on the remote side, ends on the local side as the remote held it.
pub proof fn lemma_last_writer_wins(a: Replica, b: Replica, k: Seq<char>)
    requires
        a.wf(),
        b.wf(),
        a.books.map().contains_key(k),
        b.books.map().contains_key(k),
        b.books.map()[k].stamp() > a.books.map()[k].stamp(),
    ensures
        synced_books(a, b).contains_key(k),
        synced_books(a, b)[k] == b.books.map()[k],
        synced_books(b, a)[k] == b.books.map()[k],
{
    let dead = merged_tombstones(a, b);
    assert(!dead.contains(k));
    let x = a.books.map().remove_keys(dead);
    let y = b.books.map().remove_keys(dead);
    assert(stale(x, y).contains(k));
    assert(!stale(y, x).contains(k));
}

/// Tombstones win: an id that one replica has tombstoned ends tombstoned on
/// both sides and live on neither, however new the other side's row is; and
/// a replica never loses a tombstone, so the id stays dead in later passes.
pub proof fn lemma_tombstone_precedence(a: Replica, b: Replica, k: Seq<char>)
    requires
        a.wf(),
        b.wf(),
        a.tombstones().contains(k),
    ensures
        merged_tombstones(a, b).contains(k),
        merged_tombstones(b, a).contains(k),
        a.tombstones().subset_of(merged_tombstones(a, b)),
        b.tombstones().subset_of(merged_tombstones(a, b)),
        !synced_books(a, b).contains_key(k),
        !synced_books(b, a).contains_key(k),
        !synced_documents(a, b).contains_key(k),
        !synced_documents(b, a).contains_key(k),
{
    let dead = merged_tombstones(a, b);
    assert(merged_tombstones(b, a) =~= dead);
}

/// A synchronization that finds nothing to change leaves both replicas as
/// they are.
pub proof fn lemma_quiet_sync_changes_nothing(a: Replica, b: Replica)
    requires
        a.wf(),
        b.wf(),
        !sync_changes(a, b),
    ensures
        merged_tombstones(a, b) == a.tombstones(),
        merged_tombstones(a, b) == b.tombstones(),
        synced_books(a, b) == a.books.map(),
        synced_books(b, a) == b.books.map(),
        synced_documents(a, b) == a.documents.map(),
        synced_documents(b, a) == b.documents.map(),
{
    let dead = merged_tombstones(a, b);
    assert(merged_tombstones(b, a) =~= dead);
    assert forall|k: Seq<char>| a.tombstones().contains(k) <==> b.tombstones().contains(k) by {
        if a.tombstones().contains(k) && !b.tombstones().contains(k) {
            assert(a.tombstones().difference(b.tombstones()).contains(k));
        }
        if b.tombstones().contains(k) && !a.tombstones().contains(k) {
            assert(b.tombstones().difference(a.tombstones()).contains(k));
        }
    }
    assert(dead =~= a.tombstones());
    assert(dead =~= b.tombstones());
    assert(a.books.map().remove_keys(dead) =~= a.books.map());
    assert(b.books.map().remove_keys(dead) =~= b.books.map());
    assert(a.documents.map().remove_keys(dead) =~= a.documents.map());
    assert(b.documents.map().remove_keys(dead) =~= b.documents.map());
    lemma_pulled_idle(a.books.map(), b.books.map());
    lemma_pulled_idle(b.books.map(), a.books.map());
    lemma_pulled_idle(a.documents.map(), b.documents.map());
    lemma_pulled_idle(b.documents.map(), a.documents.map());
}

/// Idempotence of a whole run: where the local replica finds nothing to
/// change with any of the remotes, as after a run whose last pass changed
/// nothing, a new run deletes and writes nothing on any replica. Each visit
/// leaves the local replica as it was, so every later visit of the pass
/// meets the same local replica and is quiet too; a pass without a change
/// ends the run.
pub proof fn lemma_run_idempotent(local: Replica, remotes: Seq<Replica>)
    requires
        local.wf(),
        forall|i: int| 0 <= i < remotes.len() ==> (#[trigger] remotes[i]).wf(),
        forall|i: int| 0 <= i < remotes.len() ==> !sync_changes(local, #[trigger] remotes[i]),
    ensures
        forall|i: int|
            0 <= i < remotes.len() ==> {
                &&& !sync_changes(local, #[trigger] remotes[i])
                &&& merged_tombstones(local, remotes[i]) == local.tombstones()
                &&& merged_tombstones(local, remotes[i]) == remotes[i].tombstones()
                &&& synced_books(local, remotes[i]) == local.books.map()
                &&& synced_books(remotes[i], local) == remotes[i].books.map()
                &&& synced_documents(local, remotes[i]) == local.documents.map()
                &&& synced_documents(remotes[i], local) == remotes[i].documents.map()
            },
{
    assert forall|i: int| 0 <= i < remotes.len() implies {
        &&& !sync_changes(local, #[trigger] remotes[i])
        &&& merged_tombstones(local, remotes[i]) == local.tombstones()
        &&& merged_tombstones(local, remotes[i]) == remotes[i].tombstones()
        &&& synced_books(local, remotes[i]) == local.books.map()
        &&& synced_books(remotes[i], local) == remotes[i].books.map()
        &&& synced_documents(local, remotes[i]) == local.documents.map()
        &&& synced_documents(remotes[i], local) == remotes[i].documents.map()
    } by {
        lemma_quiet_sync_changes_nothing(local, remotes[i]);
    }
}

} // verus!
