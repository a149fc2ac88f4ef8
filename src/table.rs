use vstd::prelude::*;

use crate::rows::{contains_id, distinct_ids, id_set, lemma_rows_map, lemma_unique_rows_map, rows_map, unique_keys};
use crate::types::Row;

verus! {

/// A list of rows with unique ids stands for the map that sends each id to
/// its row.
pub proof fn lemma_map_of_unique<R: Row>(s: Seq<R>, m: Map<Seq<char>, R>)
    requires
        unique_keys(s),
        forall|j: int| 0 <= j < s.len() ==> #[trigger] m.contains_key(s[j].key()) && m[s[j].key()] == s[j],
        forall|k: Seq<char>| #[trigger] m.contains_key(k) ==> exists|j: int| 0 <= j < s.len() && s[j].key() == k,
    ensures
        rows_map(s) == m,
{
    lemma_rows_map(s);
    lemma_unique_rows_map(s);
    assert forall|k: Seq<char>| #[trigger] rows_map(s).contains_key(k) <==> m.contains_key(k) by {
        if rows_map(s).contains_key(k) {
            let j = choose|j: int| 0 <= j < s.len() && #[trigger] s[j].key() == k;
            assert(m.contains_key(s[j].key()));
        }
        if m.contains_key(k) {
            let j = choose|j: int| 0 <= j < s.len() && s[j].key() == k;
            assert(rows_map(s).contains_key(s[j].key()));
        }
    }
    assert forall|k: Seq<char>| #[trigger] rows_map(s).contains_key(k) implies rows_map(s)[k] == m[k] by {
        let j = choose|j: int| 0 <= j < s.len() && #[trigger] s[j].key() == k;
        assert(rows_map(s)[s[j].key()] == s[j]);
    }
    assert(rows_map(s) =~= m);
}

/// The rows of `rows` whose id is (`keep`) or is not (`!keep`) in `ids`.
fn filter_rows<R: Row>(rows: &Vec<R>, ids: &Vec<String>, keep: bool) -> (r: Vec<R>)
    requires
        unique_keys(rows@),
    ensures
        unique_keys(r@),
        keep ==> rows_map(r@) == rows_map(rows@).restrict(id_set(ids@)),
        !keep ==> rows_map(r@) == rows_map(rows@).remove_keys(id_set(ids@)),
{
    let ghost chosen = if keep {
        rows_map(rows@).restrict(id_set(ids@))
    } else {
        rows_map(rows@).remove_keys(id_set(ids@))
    };
    proof {
        lemma_rows_map(rows@);
        lemma_unique_rows_map(rows@);
    }
    let mut out: Vec<R> = Vec::new();
    let mut i: usize = 0;
    while i < rows.len()
        invariant
            0 <= i <= rows.len(),
            unique_keys(rows@),
            unique_keys(out@),
            chosen == (if keep {
                rows_map(rows@).restrict(id_set(ids@))
            } else {
                rows_map(rows@).remove_keys(id_set(ids@))
            }),
            forall|j: int| 0 <= j < rows.len() ==> #[trigger] rows_map(rows@)[rows@[j].key()] == rows@[j],
            forall|j: int| 0 <= j < rows.len() ==> #[trigger] rows_map(rows@).contains_key(rows@[j].key()),
            forall|k: Seq<char>|
                #[trigger] rows_map(rows@).contains_key(k) ==> exists|j: int|
                    0 <= j < rows.len() && #[trigger] rows@[j].key() == k,
            forall|m: int| #![trigger out@[m]]
                0 <= m < out.len() ==> exists|j: int| 0 <= j < i && #[trigger] rows@[j] == out@[m],
            forall|m: int|
                0 <= m < out.len() ==> #[trigger] chosen.contains_key(out@[m].key()) && chosen[out@[m].key()]
                    == out@[m],
            forall|j: int|
                0 <= j < i && #[trigger] chosen.contains_key(rows@[j].key()) ==> exists|m: int|
                    0 <= m < out.len() && out@[m] == rows@[j],
        decreases rows.len() - i,
    {
        let inside = contains_id(ids, rows[i].row_id());
        if inside == keep {
            let ghost old_out = out@;
            let row = rows[i].copy_row();
            assert forall|m: int| 0 <= m < old_out.len() implies (#[trigger] old_out[m]).key() != row.key() by {
                let j = choose|j: int| 0 <= j < i && #[trigger] rows@[j] == old_out[m];
                assert(rows@[j].key() != rows@[i as int].key());
            }
            out.push(row);
            assert(out@[old_out.len() as int] == rows@[i as int]);
            assert forall|m: int| #![trigger out@[m]]
                0 <= m < out.len() implies exists|j: int| 0 <= j < i + 1 && #[trigger] rows@[j] == out@[m] by {
                if m < old_out.len() {
                    assert(out@[m] == old_out[m]);
                    let j = choose|j: int| 0 <= j < i && #[trigger] rows@[j] == old_out[m];
                    assert(rows@[j] == out@[m]);
                } else {
                    assert(rows@[i as int] == out@[m]);
                }
            }
            assert forall|j: int|
                0 <= j < i + 1 && #[trigger] chosen.contains_key(rows@[j].key()) implies exists|m: int|
                    0 <= m < out.len() && out@[m] == rows@[j] by {
                if j < i {
                    let m = choose|m: int| 0 <= m < old_out.len() && old_out[m] == rows@[j];
                    assert(out@[m] == old_out[m]);
                } else {
                    assert(out@[old_out.len() as int] == rows@[j]);
                }
            }
        } else {
            assert(!chosen.contains_key(rows@[i as int].key()));
        }
        i += 1;
    }
    proof {
        assert forall|k: Seq<char>| #[trigger] chosen.contains_key(k) implies exists|m: int|
            0 <= m < out.len() && out@[m].key() == k by {
            let j = choose|j: int| 0 <= j < rows.len() && #[trigger] rows@[j].key() == k;
            assert(chosen.contains_key(rows@[j].key()));
            let m = choose|m: int| 0 <= m < out.len() && out@[m] == rows@[j];
        }
        lemma_map_of_unique(out@, chosen);
    }
    out
}

/// One table of a replica: rows keyed by their id, one row per id.
pub struct Table<R> {
    pub rows: Vec<R>,
}

impl<R: Row> Table<R> {
    /// Ids are unique.
    pub open spec fn wf(&self) -> bool {
        unique_keys(self.rows@)
    }

    /// The table as a map from id to row.
    pub open spec fn map(&self) -> Map<Seq<char>, R> {
        rows_map(self.rows@)
    }

    pub fn new() -> (r: Table<R>)
        ensures
            r.wf(),
            r.map() == Map::<Seq<char>, R>::empty(),
    {
        let r = Table { rows: Vec::new() };
        assert(r.map() =~= Map::<Seq<char>, R>::empty());
        r
    }

    /// The number of rows.
    pub fn len(&self) -> (r: usize)
        requires
            self.wf(),
        ensures
            r == self.map().len(),
    {
        proof {
            lemma_unique_len(self.rows@);
        }
        self.rows.len()
    }

    /// The row with the id `id`, if any.
    pub fn get(&self, id: &String) -> (r: Option<&R>)
        requires
            self.wf(),
        ensures
            match r {
                Some(row) => self.map().contains_key(id@) && *row == self.map()[id@],
                None => !self.map().contains_key(id@),
            },
    {
        let mut i: usize = 0;
        while i < self.rows.len()
            invariant
                0 <= i <= self.rows.len(),
                self.wf(),
                forall|j: int| 0 <= j < i ==> #[trigger] self.rows@[j].key() != id@,
            decreases self.rows.len() - i,
        {
            if *self.rows[i].row_id() == *id {
                proof {
                    lemma_unique_rows_map(self.rows@);
                }
                assert(self.map()[self.rows@[i as int].key()] == self.rows@[i as int]);
                return Some(&self.rows[i]);
            }
            i += 1;
        }
        proof {
            lemma_rows_map(self.rows@);
        }
        None
    }

    /// Copies of the rows whose id is in `ids`.
    pub fn select(&self, ids: &Vec<String>) -> (r: Vec<R>)
        requires
            self.wf(),
        ensures
            unique_keys(r@),
            rows_map(r@) == self.map().restrict(id_set(ids@)),
    {
        filter_rows(&self.rows, ids, true)
    }

    /// Deletes the rows whose id is in `ids`.
    pub fn remove_ids(&mut self, ids: &Vec<String>)
        requires
            old(self).wf(),
        ensures
            final(self).wf(),
            final(self).map() == old(self).map().remove_keys(id_set(ids@)),
    {
        self.rows = filter_rows(&self.rows, ids, false);
    }

    /// Writes each of `incoming` over the row with its id, or adds it.
    pub fn upsert_all(&mut self, incoming: Vec<R>)
        requires
            old(self).wf(),
            unique_keys(incoming@),
        ensures
            final(self).wf(),
            final(self).map() == old(self).map().union_prefer_right(rows_map(incoming@)),
    {
        let ghost before = self.map();
        let ghost inc = incoming@;
        let ghost fresh = rows_map(incoming@);
        let mut ids: Vec<String> = Vec::new();
        let mut i: usize = 0;
        while i < incoming.len()
            invariant
                0 <= i <= incoming.len(),
                ids.len() == i,
                forall|j: int| 0 <= j < i ==> (#[trigger] ids@[j])@ == incoming@[j].key(),
            decreases incoming.len() - i,
        {
            ids.push(incoming[i].row_id().clone());
            i += 1;
        }
        let mut kept = filter_rows(&self.rows, &ids, false);
        assert(rows_map(kept@) == before.remove_keys(id_set(ids@)));
        let ghost kept0 = kept@;
        let mut added = incoming;
        let ghost added0 = added@;
        kept.append(&mut added);
        proof {
            assert(added0 == inc);
            lemma_rows_map(inc);
            lemma_unique_rows_map(inc);
            lemma_rows_map(kept0);
            lemma_unique_rows_map(kept0);
            let s = kept@;
            let target = before.union_prefer_right(fresh);
            assert forall|j: int| 0 <= j < kept0.len() implies !id_set(ids@).contains(
                #[trigger] kept0[j].key(),
            ) by {
                assert(rows_map(kept0).contains_key(kept0[j].key()));
            }
            assert forall|j: int| 0 <= j < added0.len() implies id_set(ids@).contains(
                #[trigger] added0[j].key(),
            ) by {
                assert(ids@[j]@ == added0[j].key());
            }
            assert forall|a: int, b: int|
                0 <= a < s.len() && 0 <= b < s.len() && a != b implies #[trigger] s[a].key()
                    != #[trigger] s[b].key() by {
                if a < kept0.len() && b >= kept0.len() {
                    assert(s[b] == added0[b - kept0.len()]);
                    assert(id_set(ids@).contains(added0[b - kept0.len()].key()));
                } else if b < kept0.len() && a >= kept0.len() {
                    assert(s[a] == added0[a - kept0.len()]);
                    assert(id_set(ids@).contains(added0[a - kept0.len()].key()));
                } else if a >= kept0.len() {
                    assert(s[a] == added0[a - kept0.len()]);
                    assert(s[b] == added0[b - kept0.len()]);
                } else {
                    assert(s[a] == kept0[a]);
                    assert(s[b] == kept0[b]);
                }
            }
            assert forall|k: Seq<char>| #[trigger] fresh.contains_key(k) <==> id_set(ids@).contains(k) by {
                if fresh.contains_key(k) {
                    let j = choose|j: int| 0 <= j < inc.len() && #[trigger] inc[j].key() == k;
                    assert(ids@[j]@ == k);
                }
                if id_set(ids@).contains(k) {
                    let j = choose|j: int| 0 <= j < ids@.len() && #[trigger] ids@[j]@ == k;
                    assert(inc[j].key() == k);
                }
            }
            assert forall|j: int| 0 <= j < s.len() implies #[trigger] target.contains_key(s[j].key())
                && target[s[j].key()] == s[j] by {
                if j < kept0.len() {
                    assert(s[j] == kept0[j]);
                    assert(rows_map(kept0)[kept0[j].key()] == kept0[j]);
                    assert(rows_map(kept0).contains_key(kept0[j].key()));
                    assert(!id_set(ids@).contains(kept0[j].key()));
                    assert(!fresh.contains_key(kept0[j].key()));
                    assert(before.contains_key(kept0[j].key()));
                } else {
                    assert(s[j] == added0[j - kept0.len()]);
                    assert(fresh.contains_key(added0[j - kept0.len()].key()));
                    assert(fresh[added0[j - kept0.len()].key()] == added0[j - kept0.len()]);
                }
            }
            assert forall|k: Seq<char>| #[trigger] target.contains_key(k) implies exists|j: int|
                0 <= j < s.len() && s[j].key() == k by {
                if fresh.contains_key(k) {
                    let j = choose|j: int| 0 <= j < added0.len() && #[trigger] added0[j].key() == k;
                    assert(s[j + kept0.len()] == added0[j]);
                } else {
                    assert(rows_map(kept0).contains_key(k));
                    let j = choose|j: int| 0 <= j < kept0.len() && #[trigger] kept0[j].key() == k;
                    assert(s[j] == kept0[j]);
                }
            }
            lemma_map_of_unique(s, target);
        }
        self.rows = kept;
    }

    /// Writes `row` over the row with its id, or adds it.
    pub fn upsert(&mut self, row: R)
        requires
            old(self).wf(),
        ensures
            final(self).wf(),
            final(self).map() == old(self).map().insert(row.key(), row),
    {
        let ghost r = row;
        let mut one: Vec<R> = Vec::new();
        one.push(row);
        proof {
            assert(one@.drop_last() =~= Seq::<R>::empty());
            assert(rows_map(Seq::<R>::empty()) == Map::<Seq<char>, R>::empty());
            assert(rows_map(one@) == Map::<Seq<char>, R>::empty().insert(r.key(), r));
        }
        self.upsert_all(one);
        assert(self.map() =~= old(self).map().insert(r.key(), r));
    }
}

/// With unique ids there are as many rows as ids.
pub proof fn lemma_unique_len<R: Row>(s: Seq<R>)
    requires
        unique_keys(s),
    ensures
        rows_map(s).len() == s.len(),
    decreases s.len(),
{
    if s.len() > 0 {
        let p = s.drop_last();
        assert(unique_keys(p)) by {
            assert forall|a: int, b: int|
                0 <= a < p.len() && 0 <= b < p.len() && a != b implies #[trigger] p[a].key()
                    != #[trigger] p[b].key() by {
                assert(p[a] == s[a] && p[b] == s[b]);
            }
        }
        lemma_unique_len(p);
        lemma_rows_map(p);
        if rows_map(p).contains_key(s.last().key()) {
            let j = choose|j: int| 0 <= j < p.len() && #[trigger] p[j].key() == s.last().key();
            assert(p[j] == s[j]);
            assert(s[j].key() != s[s.len() - 1].key());
        }
        assert(rows_map(p).dom().finite()) by {
            lemma_rows_map_finite(p);
        }
    }
}

/// The map of a list of rows is finite.
pub proof fn lemma_rows_map_finite<R: Row>(s: Seq<R>)
    ensures
        rows_map(s).dom().finite(),
    decreases s.len(),
{
    if s.len() > 0 {
        lemma_rows_map_finite(s.drop_last());
    }
}

} // verus!
