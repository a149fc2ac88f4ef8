use vstd::prelude::*;

use crate::types::Row;

verus! {

/// The table that a list of rows stands for: each id maps to the last row
/// that carries it.
pub open spec fn rows_map<R: Row>(s: Seq<R>) -> Map<Seq<char>, R>
    decreases s.len(),
{
    if s.len() == 0 {
        Map::empty()
    } else {
        rows_map(s.drop_last()).insert(s.last().key(), s.last())
    }
}

/// No two rows share an id.
pub open spec fn unique_keys<R: Row>(s: Seq<R>) -> bool {
    forall|i: int, j: int|
        0 <= i < s.len() && 0 <= j < s.len() && i != j ==> #[trigger] s[i].key() != #[trigger] s[j].key()
}

/// Row `i` is the last one that carries its id.
pub open spec fn is_last<R: Row>(s: Seq<R>, i: int) -> bool {
    forall|j: int| i < j < s.len() ==> #[trigger] s[j].key() != s[i].key()
}

/// The ids held by a list of strings.
pub open spec fn id_set(v: Seq<String>) -> Set<Seq<char>> {
    Set::new(|k: Seq<char>| exists|i: int| 0 <= i < v.len() && #[trigger] v[i]@ == k)
}

/// No id occurs twice in the list.
pub open spec fn distinct_ids(v: Seq<String>) -> bool {
    forall|i: int, j: int|
        0 <= i < v.len() && 0 <= j < v.len() && i != j ==> #[trigger] v[i]@ != #[trigger] v[j]@
}

/// The ids of `src` that `dst` lacks or holds with an older stamp.
pub open spec fn stale<R: Row>(dst: Map<Seq<char>, R>, src: Map<Seq<char>, R>) -> Set<Seq<char>> {
    Set::new(
        |k: Seq<char>|
            src.contains_key(k) && (!dst.contains_key(k) || src[k].stamp() > dst[k].stamp()),
    )
}

/// What `rows_map` holds: the ids of the rows, each with its last row.
pub proof fn lemma_rows_map<R: Row>(s: Seq<R>)
    ensures
        forall|k: Seq<char>|
            #[trigger] rows_map(s).contains_key(k) <==> exists|j: int|
                0 <= j < s.len() && #[trigger] s[j].key() == k,
        forall|k: Seq<char>|
            #[trigger] rows_map(s).contains_key(k) ==> exists|j: int|
                0 <= j < s.len() && s[j].key() == k && #[trigger] is_last(s, j),
        forall|j: int|
            0 <= j < s.len() && is_last(s, j) ==> #[trigger] rows_map(s)[s[j].key()] == s[j],
    decreases s.len(),
{
    if s.len() > 0 {
        let p = s.drop_last();
        lemma_rows_map(p);
        let n = s.len() - 1;
        assert(rows_map(s) == rows_map(p).insert(s.last().key(), s.last()));
        assert(p.len() == n);
        assert forall|k: Seq<char>|
            #[trigger] rows_map(s).contains_key(k) implies exists|j: int|
                0 <= j < s.len() && s[j].key() == k && #[trigger] is_last(s, j) by {
            if k == s.last().key() {
                assert(is_last(s, n));
            } else {
                assert(rows_map(p).contains_key(k));
                let j = choose|j: int| 0 <= j < p.len() && p[j].key() == k && #[trigger] is_last(p, j);
                assert(s[j] == p[j]);
                assert forall|l: int| j < l < s.len() implies #[trigger] s[l].key() != s[j].key() by {
                    if l < n {
                        assert(s[l] == p[l]);
                    }
                }
                assert(is_last(s, j));
            }
        }
        assert forall|k: Seq<char>|
            (exists|j: int| 0 <= j < s.len() && #[trigger] s[j].key() == k) implies
                #[trigger] rows_map(s).contains_key(k) by {
            let j = choose|j: int| 0 <= j < s.len() && #[trigger] s[j].key() == k;
            if j < n {
                assert(p[j] == s[j]);
            }
        }
        assert forall|k: Seq<char>|
            #[trigger] rows_map(s).contains_key(k) implies exists|j: int|
                0 <= j < s.len() && #[trigger] s[j].key() == k by {
            if k != s.last().key() {
                assert(rows_map(p).contains_key(k));
                let j = choose|j: int| 0 <= j < p.len() && #[trigger] p[j].key() == k;
                assert(s[j] == p[j]);
            }
        }
        assert forall|j: int|
            0 <= j < s.len() && is_last(s, j) implies #[trigger] rows_map(s)[s[j].key()] == s[j] by {
            if j < n {
                assert(s[n].key() != s[j].key());
                assert(p[j] == s[j]);
                assert forall|i: int| j < i < p.len() implies #[trigger] p[i].key() != p[j].key() by {
                    assert(p[i] == s[i]);
                }
                assert(is_last(p, j));
            }
        }
    }
}

/// With unique ids every row is the last of its id.
pub proof fn lemma_unique_rows_map<R: Row>(s: Seq<R>)
    requires
        unique_keys(s),
    ensures
        forall|j: int| 0 <= j < s.len() ==> #[trigger] rows_map(s)[s[j].key()] == s[j],
        forall|j: int| 0 <= j < s.len() ==> #[trigger] rows_map(s).contains_key(s[j].key()),
{
    lemma_rows_map(s);
    assert forall|j: int| 0 <= j < s.len() implies #[trigger] rows_map(s)[s[j].key()] == s[j] by {
        assert(is_last(s, j));
    }
    assert forall|j: int| 0 <= j < s.len() implies #[trigger] rows_map(s).contains_key(s[j].key()) by {
        assert(s[j].key() == s[j].key());
    }
}

/// Whether `v` holds the id `k`.
pub fn contains_id(v: &Vec<String>, k: &String) -> (r: bool)
    ensures
        r == id_set(v@).contains(k@),
{
    let mut i: usize = 0;
    while i < v.len()
        invariant
            0 <= i <= v.len(),
            forall|j: int| 0 <= j < i ==> v@[j]@ != k@,
        decreases v.len() - i,
    {
        if v[i] == *k {
            assert(v@[i as int]@ == k@);
            return true;
        }
        i += 1;
    }
    assert(!id_set(v@).contains(k@));
    false
}

/// The index of the last row that carries the id `k`, if any.
pub fn find_last<R: Row>(s: &Vec<R>, k: &String) -> (r: Option<usize>)
    ensures
        match r {
            Some(j) => j < s.len() && s@[j as int].key() == k@ && is_last(s@, j as int),
            None => forall|j: int| 0 <= j < s.len() ==> #[trigger] s@[j].key() != k@,
        },
{
    let mut i: usize = s.len();
    while i > 0
        invariant
            i <= s.len(),
            forall|j: int| i <= j < s.len() ==> #[trigger] s@[j].key() != k@,
        decreases i,
    {
        i -= 1;
        if *s[i].row_id() == *k {
            return Some(i);
        }
    }
    None
}

/// The ids of `src` that `dst` lacks or holds with an older stamp, each once.
pub fn stale_ids<R: Row>(dst: &Vec<R>, src: &Vec<R>) -> (r: Vec<String>)
    ensures
        id_set(r@) == stale(rows_map(dst@), rows_map(src@)),
        distinct_ids(r@),
{
    proof {
        lemma_rows_map(dst@);
        lemma_rows_map(src@);
    }
    let ghost target = stale(rows_map(dst@), rows_map(src@));
    let mut out: Vec<String> = Vec::new();
    let mut i: usize = 0;
    while i < src.len()
        invariant
            0 <= i <= src.len(),
            target == stale(rows_map(dst@), rows_map(src@)),
            distinct_ids(out@),
            forall|m: int|
                0 <= m < out.len() ==> exists|j: int|
                    0 <= j < i && src@[j].key() == (#[trigger] out@[m])@ && is_last(src@, j),
            forall|m: int| 0 <= m < out.len() ==> target.contains((#[trigger] out@[m])@),
            forall|j: int|
                0 <= j < i && is_last(src@, j) && #[trigger] target.contains(src@[j].key())
                    ==> id_set(out@).contains(src@[j].key()),
        decreases src.len() - i,
    {
        let id = src[i].row_id();
        let mut last = true;
        let mut j: usize = i + 1;
        while j < src.len()
            invariant
                i < j <= src.len(),
                id@ == src@[i as int].key(),
                last == (forall|l: int| i < l < j ==> #[trigger] src@[l].key() != id@),
            decreases src.len() - j,
        {
            if *src[j].row_id() == *id {
                last = false;
            }
            j += 1;
        }
        if last {
            assert(is_last(src@, i as int));
            let stamp = src[i].row_modified();
            let wanted = match find_last(dst, id) {
                None => true,
                Some(d) => stamp.is_after(&dst[d].row_modified()),
            };
            proof {
                lemma_rows_map(dst@);
                lemma_rows_map(src@);
            }
            assert(rows_map(src@)[src@[i as int].key()] == src@[i as int]);
            assert(rows_map(src@).contains_key(id@));
            match find_last(dst, id) {
                None => {
                    assert(!rows_map(dst@).contains_key(id@));
                },
                Some(d) => {
                    assert(rows_map(dst@)[dst@[d as int].key()] == dst@[d as int]);
                    assert(rows_map(dst@).contains_key(id@));
                },
            }
            assert(wanted == target.contains(id@));
            if wanted {
                let ghost old_out = out@;
                assert forall|m: int| 0 <= m < old_out.len() implies old_out[m]@ != id@ by {
                    let j = choose|j: int|
                        0 <= j < i && src@[j].key() == (#[trigger] old_out[m])@ && is_last(src@, j);
                    assert(src@[i as int].key() != src@[j].key());
                }
                out.push(id.clone());
                assert(out@[old_out.len() as int] == *id);
                assert(id_set(out@).contains(id@));
                assert forall|m: int| 0 <= m < out.len() implies exists|j: int|
                    0 <= j < i + 1 && src@[j].key() == (#[trigger] out@[m])@ && is_last(src@, j) by {
                    if m < old_out.len() {
                        assert(out@[m] == old_out[m]);
                    } else {
                        assert(src@[i as int].key() == out@[m]@);
                    }
                }
                assert forall|j2: int|
                    0 <= j2 < i && is_last(src@, j2) && #[trigger] target.contains(src@[j2].key())
                        implies id_set(out@).contains(src@[j2].key()) by {
                    assert(id_set(old_out).contains(src@[j2].key()));
                    let m = choose|m: int| 0 <= m < old_out.len() && #[trigger] old_out[m]@ == src@[j2].key();
                    assert(out@[m] == old_out[m]);
                }
            }
        }
        i += 1;
    }
    assert forall|k: Seq<char>| target.contains(k) implies id_set(out@).contains(k) by {
        assert(rows_map(src@).contains_key(k));
        let j = choose|j: int| 0 <= j < src@.len() && src@[j].key() == k && #[trigger] is_last(src@, j);
        assert(target.contains(src@[j].key()));
    }
    assert forall|k: Seq<char>| id_set(out@).contains(k) implies target.contains(k) by {
        let m = choose|m: int| 0 <= m < out@.len() && #[trigger] out@[m]@ == k;
        assert(target.contains(out@[m]@));
    }
    assert(id_set(out@) =~= target);
    out
}

} // verus!
