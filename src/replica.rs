use vstd::prelude::*;

use crate::plan::plan_deletions;
use crate::rows::{contains_id, id_set, rows_map, stale, stale_ids, unique_keys};
use crate::table::Table;
use crate::types::{Book, Document, Row};

verus! {

/// The rows of `dst` after it received from `src` every row that it lacks or
/// holds with a strictly older stamp.
pub open spec fn pulled<R: Row>(dst: Map<Seq<char>, R>, src: Map<Seq<char>, R>) -> Map<Seq<char>, R> {
    dst.union_prefer_right(src.restrict(stale(dst, src)))
}

/// A store of books, documents and tombstones.
pub struct Replica {
    pub books: Table<Book>,
    pub documents: Table<Document>,
    /// Ids that were removed for good.
    pub deleted: Vec<String>,
}

impl Replica {
    /// The set of tombstoned ids.
    pub open spec fn tombstones(&self) -> Set<Seq<char>> {
        id_set(self.deleted@)
    }

    /// Tables keyed by id, and no live row carries a tombstoned id.
    pub open spec fn wf(&self) -> bool {
        &&& self.books.wf()
        &&& self.documents.wf()
        &&& forall|k: Seq<char>|
            #[trigger] self.tombstones().contains(k) ==> !self.books.map().contains_key(k)
                && !self.documents.map().contains_key(k)
    }

    /// An empty store.
    pub fn new() -> (r: Replica)
        ensures
            r.wf(),
            r.books.map() == Map::<Seq<char>, Book>::empty(),
            r.documents.map() == Map::<Seq<char>, Document>::empty(),
            r.tombstones() == Set::<Seq<char>>::empty(),
    {
        let r = Replica { books: Table::new(), documents: Table::new(), deleted: Vec::new() };
        assert(r.tombstones() =~= Set::<Seq<char>>::empty());
        r
    }

    /// Whether `id` is tombstoned.
    pub fn is_deleted(&self, id: &String) -> (r: bool)
        ensures
            r == self.tombstones().contains(id@),
    {
        contains_id(&self.deleted, id)
    }

    /// The book with the id `id`, if any.
    pub fn book(&self, id: &String) -> (r: Option<&Book>)
        requires
            self.wf(),
        ensures
            match r {
                Some(b) => self.books.map().contains_key(id@) && *b == self.books.map()[id@],
                None => !self.books.map().contains_key(id@),
            },
    {
        self.books.get(id)
    }

    /// The document with the id `id`, if any.
    pub fn document(&self, id: &String) -> (r: Option<&Document>)
        requires
            self.wf(),
        ensures
            match r {
                Some(d) => self.documents.map().contains_key(id@) && *d == self.documents.map()[id@],
                None => !self.documents.map().contains_key(id@),
            },
    {
        self.documents.get(id)
    }

    /// Writes a book, unless its id is tombstoned; says whether it was written.
    pub fn put_book(&mut self, book: Book) -> (r: bool)
        requires
            old(self).wf(),
        ensures
            final(self).wf(),
            r == !old(self).tombstones().contains(book.key()),
            final(self).books.map() == (if r {
                old(self).books.map().insert(book.key(), book)
            } else {
                old(self).books.map()
            }),
            final(self).documents.map() == old(self).documents.map(),
            final(self).tombstones() == old(self).tombstones(),
    {
        if self.is_deleted(&book.id) {
            false
        } else {
            self.books.upsert(book);
            true
        }
    }

    /// Writes a document, unless its id is tombstoned; says whether it was
    /// written.
    pub fn put_document(&mut self, document: Document) -> (r: bool)
        requires
            old(self).wf(),
        ensures
            final(self).wf(),
            r == !old(self).tombstones().contains(document.key()),
            final(self).documents.map() == (if r {
                old(self).documents.map().insert(document.key(), document)
            } else {
                old(self).documents.map()
            }),
            final(self).books.map() == old(self).books.map(),
            final(self).tombstones() == old(self).tombstones(),
    {
        if self.is_deleted(&document.id) {
            false
        } else {
            self.documents.upsert(document);
            true
        }
    }

    /// Tombstones each id of `ids` and deletes the documents, then the books,
    /// that carry one.
    pub fn apply_deletions(&mut self, ids: &Vec<String>)
        requires
            old(self).wf(),
        ensures
            final(self).wf(),
            final(self).tombstones() == old(self).tombstones().union(id_set(ids@)),
            final(self).books.map() == old(self).books.map().remove_keys(id_set(ids@)),
            final(self).documents.map() == old(self).documents.map().remove_keys(id_set(ids@)),
    {
        let ghost start = self.tombstones();
        let mut i: usize = 0;
        while i < ids.len()
            invariant
                0 <= i <= ids.len(),
                id_set(self.deleted@) == start.union(id_set(ids@.take(i as int))),
                self.books == old(self).books,
                self.documents == old(self).documents,
                start == old(self).tombstones(),
                old(self).wf(),
            decreases ids.len() - i,
        {
            let ghost before = self.deleted@;
            self.deleted.push(ids[i].clone());
            proof {
                let t = ids@.take(i as int + 1);
                assert(t == ids@.take(i as int).push(ids@[i as int]));
                assert forall|k: Seq<char>|
                    id_set(self.deleted@).contains(k) <==> start.union(id_set(t)).contains(k) by {
                    if id_set(self.deleted@).contains(k) {
                        let m = choose|m: int| 0 <= m < self.deleted@.len() && #[trigger] self.deleted@[m]@ == k;
                        if m < before.len() {
                            assert(before[m] == self.deleted@[m]);
                            assert(id_set(before).contains(k));
                        } else {
                            assert(t[i as int]@ == k);
                        }
                    }
                    if start.union(id_set(t)).contains(k) {
                        if id_set(before).contains(k) {
                            let m = choose|m: int| 0 <= m < before.len() && #[trigger] before[m]@ == k;
                            assert(self.deleted@[m] == before[m]);
                        } else {
                            let m = choose|m: int| 0 <= m < t.len() && #[trigger] t[m]@ == k;
                            if m < i {
                                assert(t[m] == ids@.take(i as int)[m]);
                                assert(id_set(ids@.take(i as int)).contains(k));
                            } else {
                                assert(self.deleted@[before.len() as int]@ == k);
                            }
                        }
                    }
                }
                assert(id_set(self.deleted@) =~= start.union(id_set(t)));
            }
            i += 1;
        }
        assert(ids@.take(ids.len() as int) =~= ids@);
        self.documents.remove_ids(ids);
        self.books.remove_ids(ids);
    }
}

/// The tombstones that both sides hold after a synchronization.
pub open spec fn merged_tombstones(a: Replica, b: Replica) -> Set<Seq<char>> {
    a.tombstones().union(b.tombstones())
}

/// The books that `a` holds after a synchronization with `b`.
pub open spec fn synced_books(a: Replica, b: Replica) -> Map<Seq<char>, Book> {
    let dead = merged_tombstones(a, b);
    pulled(a.books.map().remove_keys(dead), b.books.map().remove_keys(dead))
}

/// The documents that `a` holds after a synchronization with `b`.
pub open spec fn synced_documents(a: Replica, b: Replica) -> Map<Seq<char>, Document> {
    let dead = merged_tombstones(a, b);
    pulled(a.documents.map().remove_keys(dead), b.documents.map().remove_keys(dead))
}

/// Whether synchronizing `a` with `b` deletes or writes anything: a
/// tombstone that one side lacks, or a row that one side lacks or holds
/// with an older stamp once tombstones are applied.
pub open spec fn sync_changes(a: Replica, b: Replica) -> bool {
    let dead = merged_tombstones(a, b);
    let ab = a.books.map().remove_keys(dead);
    let bb = b.books.map().remove_keys(dead);
    let ad = a.documents.map().remove_keys(dead);
    let bd = b.documents.map().remove_keys(dead);
    ||| !b.tombstones().difference(a.tombstones()).is_empty()
    ||| !a.tombstones().difference(b.tombstones()).is_empty()
    ||| !stale(ab, bb).is_empty()
    ||| !stale(bb, ab).is_empty()
    ||| !stale(ad, bd).is_empty()
    ||| !stale(bd, ad).is_empty()
}

/// A list of ids is empty exactly when the set it holds is.
proof fn lemma_empty_ids(v: Seq<String>)
    ensures
        (v.len() > 0) == !id_set(v).is_empty(),
{
    if v.len() > 0 {
        assert(id_set(v).contains(v[0]@));
    } else {
        assert(id_set(v) =~= Set::<Seq<char>>::empty());
    }
}

/// Brings the rows of one table into agreement on both sides.
fn sync_table<R: Row>(local: &mut Table<R>, remote: &mut Table<R>) -> (changed: bool)
    requires
        old(local).wf(),
        old(remote).wf(),
    ensures
        final(local).wf(),
        final(remote).wf(),
        final(local).map() == pulled(old(local).map(), old(remote).map()),
        final(remote).map() == pulled(old(remote).map(), old(local).map()),
        changed == (!stale(old(local).map(), old(remote).map()).is_empty() || !stale(
            old(remote).map(),
            old(local).map(),
        ).is_empty()),
{
    let to_local = stale_ids(&local.rows, &remote.rows);
    let to_remote = stale_ids(&remote.rows, &local.rows);
    let incoming_local = remote.select(&to_local);
    let incoming_remote = local.select(&to_remote);
    proof {
        lemma_empty_ids(to_local@);
        lemma_empty_ids(to_remote@);
    }
    let changed = to_local.len() > 0 || to_remote.len() > 0;
    local.upsert_all(incoming_local);
    remote.upsert_all(incoming_remote);
    changed
}

/// Brings a local and a remote replica into agreement: first the tombstones
/// (local deletions before remote ones), then the books, then the
/// documents. Returns whether anything was deleted or written.
pub fn sync_replicas(local: &mut Replica, remote: &mut Replica) -> (changed: bool)
    requires
        old(local).wf(),
        old(remote).wf(),
    ensures
        final(local).wf(),
        final(remote).wf(),
        final(local).tombstones() == merged_tombstones(*old(local), *old(remote)),
        final(remote).tombstones() == merged_tombstones(*old(local), *old(remote)),
        final(local).books.map() == synced_books(*old(local), *old(remote)),
        final(remote).books.map() == synced_books(*old(remote), *old(local)),
        final(local).documents.map() == synced_documents(*old(local), *old(remote)),
        final(remote).documents.map() == synced_documents(*old(remote), *old(local)),
        changed == sync_changes(*old(local), *old(remote)),
{
    let ghost a = *local;
    let ghost b = *remote;
    let ghost dead = merged_tombstones(a, b);
    let plan = plan_deletions(&local.deleted, &remote.deleted);
    proof {
        lemma_empty_ids(plan.local_missing@);
        lemma_empty_ids(plan.remote_missing@);
    }
    let deleted_any = plan.changes_anything();
    local.apply_deletions(&plan.local_missing);
    remote.apply_deletions(&plan.remote_missing);
    proof {
        assert(local.tombstones() =~= dead);
        assert(remote.tombstones() =~= dead);
        assert(local.books.map() =~= a.books.map().remove_keys(dead));
        assert(remote.books.map() =~= b.books.map().remove_keys(dead));
        assert(local.documents.map() =~= a.documents.map().remove_keys(dead));
        assert(remote.documents.map() =~= b.documents.map().remove_keys(dead));
    }
    let books_changed = sync_table(&mut local.books, &mut remote.books);
    let documents_changed = sync_table(&mut local.documents, &mut remote.documents);
    proof {
        assert forall|k: Seq<char>| #[trigger] dead.contains(k) implies !local.books.map().contains_key(k)
            && !local.documents.map().contains_key(k) && !remote.books.map().contains_key(k)
            && !remote.documents.map().contains_key(k) by {
            assert(stale(a.books.map().remove_keys(dead), b.books.map().remove_keys(dead)).subset_of(
                b.books.map().remove_keys(dead).dom()));
        }
    }
    deleted_any || books_changed || documents_changed
}

} // verus!
