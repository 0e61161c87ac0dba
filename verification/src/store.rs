//! The table model: the contents of the `pasta` table and the exact
//! semantics of every persistence operation on it.
//!
//! A [`Store`] holds the rows of the table.  Each operation here states, over
//! the row models, precisely what the corresponding SQL statement does to the
//! table: an insert appends and fails on a primary-key collision, an update
//! or a delete of a missing id is a silent no-op, a bulk rewrite replaces the
//! whole table, and a read returns every row decoded and sorted ascending by
//! `created`.  The unverified adapter around this crate mirrors each
//! operation onto the database file with one statement or one bounded loop of
//! statements.

use vstd::prelude::*;

use crate::codec::{decode, decode_model, encode, encode_model, Row, RowModel};
use crate::record::{collapse, Pasta, PastaModel, StoreError};

verus! {

broadcast use vstd::seq_lib::group_to_multiset_ensures, vstd::multiset::group_multiset_axioms;

/// The row models of a sequence of rows.
pub open spec fn rows_model(s: Seq<Row>) -> Seq<RowModel> {
    s.map_values(|r: Row| r@)
}

/// The record models of a sequence of records.
pub open spec fn pastas_model(s: Seq<Pasta>) -> Seq<PastaModel> {
    s.map_values(|p: Pasta| p@)
}

/// The records that a sequence of rows decodes to.
pub open spec fn decoded(s: Seq<RowModel>) -> Seq<PastaModel> {
    s.map_values(|r: RowModel| decode_model(r))
}

/// No two rows share an id: the invariant the primary key enforces.
pub open spec fn ids_unique(s: Seq<RowModel>) -> bool {
    forall|i: int, j: int| 0 <= i < j < s.len() ==> s[i].id != s[j].id
}

/// Whether some row carries the given id.
pub open spec fn has_id(s: Seq<RowModel>, id: u64) -> bool {
    exists|i: int| 0 <= i < s.len() && s[i].id == id
}

/// Sorted ascending by the `created` timestamp.
pub open spec fn sorted_by_created(s: Seq<PastaModel>) -> bool {
    forall|i: int, j: int| 0 <= i <= j < s.len() ==> s[i].created <= s[j].created
}

/// What an insert does to the table: append the encoded record, unless its
/// id collides with an existing row, which leaves the table unchanged and
/// fails.  The second component is whether the insert succeeded.
pub open spec fn insert_model(s: Seq<RowModel>, p: PastaModel) -> (Seq<RowModel>, bool) {
    if has_id(s, p.id) {
        (s, false)
    } else {
        (s.push(encode_model(p)), true)
    }
}

/// What an update does to the table: replace every column of the row whose
/// id matches, and do nothing when none does.
pub open spec fn update_model(s: Seq<RowModel>, p: PastaModel) -> Seq<RowModel> {
    if has_id(s, p.id) {
        s.update(choose|i: int| 0 <= i < s.len() && s[i].id == p.id, encode_model(p))
    } else {
        s
    }
}

/// What a delete does to the table: remove the row whose id matches, and do
/// nothing when none does.
pub open spec fn delete_model(s: Seq<RowModel>, id: u64) -> Seq<RowModel> {
    if has_id(s, id) {
        s.remove(choose|i: int| 0 <= i < s.len() && s[i].id == id)
    } else {
        s
    }
}

/// What the insert loop of a bulk rewrite does, starting from the rows
/// `acc` already inserted: append the encoded records one by one, stopping
/// at the first id collision.  The second component is whether the loop ran
/// to completion.
pub open spec fn rewrite_model(acc: Seq<RowModel>, ps: Seq<PastaModel>) -> (Seq<RowModel>, bool)
    decreases ps.len(),
{
    if ps.len() == 0 {
        (acc, true)
    } else if has_id(acc, ps[0].id) {
        (acc, false)
    } else {
        rewrite_model(acc.push(encode_model(ps[0])), ps.drop_first())
    }
}

/// The contents of the storage table.
pub struct Store {
    rows: Vec<Row>,
}

impl View for Store {
    type V = Seq<RowModel>;

    closed spec fn view(&self) -> Seq<RowModel> {
        rows_model(self.rows@)
    }
}

impl Store {
    /// The invariant of the table: ids are unique.
    pub open spec fn wf(&self) -> bool {
        ids_unique(self@)
    }

    /// A fresh, empty table.
    pub fn new() -> (s: Store)
        ensures
            s@ == Seq::<RowModel>::empty(),
            s.wf(),
    {
        let s = Store { rows: Vec::new() };
        proof {
            assert(s@ =~= Seq::<RowModel>::empty());
        }
        s
    }

    /// The index of the row with the given id, if any.
    fn find_index(&self, id: u64) -> (r: Option<usize>)
        ensures
            match r {
                Some(i) => i < self@.len() && self@[i as int].id == id,
                None => !has_id(self@, id),
            },
    {
        let mut i: usize = 0;
        while i < self.rows.len()
            invariant
                i <= self.rows.len(),
                self@.len() == self.rows@.len(),
                forall|j: int| 0 <= j < i ==> self@[j].id != id,
            decreases self.rows.len() - i,
        {
            if self.rows[i].id == id {
                assert(self@[i as int].id == id);
                return Some(i);
            }
            i += 1;
        }
        None
    }
}

/// With unique ids, the index `update_model` and `delete_model` pick is the
/// one index carrying the id.
proof fn lemma_unique_index(s: Seq<RowModel>, i: int, id: u64)
    requires
        ids_unique(s),
        0 <= i < s.len(),
        s[i].id == id,
        has_id(s, id),
    ensures
        (choose|j: int| 0 <= j < s.len() && s[j].id == id) == i,
{
    let j = choose|j: int| 0 <= j < s.len() && s[j].id == id;
    if j < i {
        assert(s[j].id != s[i].id);
    } else if i < j {
        assert(s[i].id != s[j].id);
    }
}

/// Insert one record: append its encoded row, or fail with
/// [`StoreError::Constraint`], the table unchanged, when the id is already
/// taken.
pub fn insert(store: &mut Store, pasta: &Pasta) -> (r: Result<(), StoreError>)
    requires
        old(store).wf(),
    ensures
        final(store).wf(),
        final(store)@ == insert_model(old(store)@, pasta@).0,
        r is Ok <==> insert_model(old(store)@, pasta@).1,
        r is Err ==> r == Err::<(), StoreError>(StoreError::Constraint),
{
    match store.find_index(pasta.id) {
        Some(_) => Err(StoreError::Constraint),
        None => {
            let row = encode(pasta);
            store.rows.push(row);
            proof {
                assert(store@ =~= old(store)@.push(encode_model(pasta@)));
                assert forall|i: int, j: int| 0 <= i < j < store@.len() implies store@[i].id
                    != store@[j].id by {
                    if j < store@.len() - 1 {
                        assert(old(store)@[i].id != old(store)@[j].id);
                    } else {
                        assert(store@[j].id == pasta@.id);
                        assert(old(store)@[i].id != pasta@.id) by {
                            assert(!has_id(old(store)@, pasta@.id));
                        }
                    }
                }
            }
            Ok(())
        },
    }
}

/// Update one record: replace every column of the row whose id matches; a
/// missing id leaves the table unchanged and still succeeds.
pub fn update(store: &mut Store, pasta: &Pasta)
    requires
        old(store).wf(),
    ensures
        final(store).wf(),
        final(store)@ == update_model(old(store)@, pasta@),
{
    match store.find_index(pasta.id) {
        Some(i) => {
            let row = encode(pasta);
            let _ = store.rows.remove(i);
            store.rows.insert(i, row);
            proof {
                lemma_unique_index(old(store)@, i as int, pasta@.id);
                assert(store@ =~= old(store)@.update(i as int, encode_model(pasta@)));
                let s = store@;
                assert forall|a: int, b: int| 0 <= a < b < s.len() implies s[a].id != s[b].id by {
                    assert(old(store)@[a].id != old(store)@[b].id);
                    assert(old(store)@[i as int].id == pasta@.id);
                }
            }
        },
        None => {
            proof {
                assert(store@ == update_model(old(store)@, pasta@));
            }
        },
    }
}

/// Delete the row with the given id; at most one row goes, and a missing id
/// leaves the table unchanged.  Afterwards no row carries the id.
pub fn delete_by_id(store: &mut Store, id: u64)
    requires
        old(store).wf(),
    ensures
        final(store).wf(),
        final(store)@ == delete_model(old(store)@, id),
        !has_id(final(store)@, id),
{
    match store.find_index(id) {
        Some(i) => {
            let _ = store.rows.remove(i);
            proof {
                lemma_unique_index(old(store)@, i as int, id);
                assert(store@ =~= old(store)@.remove(i as int));
                let s = store@;
                assert forall|a: int, b: int| 0 <= a < b < s.len() implies s[a].id != s[b].id by {
                    let a0 = if a < i as int {
                        a
                    } else {
                        a + 1
                    };
                    let b0 = if b < i as int {
                        b
                    } else {
                        b + 1
                    };
                    assert(old(store)@[a0].id != old(store)@[b0].id);
                }
                assert forall|k: int| 0 <= k < s.len() implies s[k].id != id by {
                    let k0 = if k < i as int {
                        k
                    } else {
                        k + 1
                    };
                    assert(s[k] == old(store)@[k0]);
                    if k0 != i as int {
                        assert(old(store)@[k0].id != old(store)@[i as int].id) by {
                            if k0 < i as int {
                                assert(old(store)@[k0].id != old(store)@[i as int].id);
                            } else {
                                assert(old(store)@[i as int].id != old(store)@[k0].id);
                            }
                        }
                    }
                }
            }
        },
        None => {
            proof {
                assert(store@ == delete_model(old(store)@, id));
            }
        },
    }
}

/// Replace the whole table with the given records: drop everything, then
/// insert the records in order, each as an independent statement.  An id
/// collision within the input stops the loop there, so the table is left
/// holding exactly the records before the collision — previously stored data
/// is already gone.
pub fn rewrite_all_to_db(store: &mut Store, pasta_data: &Vec<Pasta>) -> (r: Result<
    (),
    StoreError,
>)
    ensures
        final(store).wf(),
        final(store)@ == rewrite_model(Seq::empty(), pastas_model(pasta_data@)).0,
        r is Ok <==> rewrite_model(Seq::empty(), pastas_model(pasta_data@)).1,
        r is Err ==> r == Err::<(), StoreError>(StoreError::Constraint),
{
    let ghost all = pastas_model(pasta_data@);
    store.rows.clear();
    proof {
        assert(store@ =~= Seq::<RowModel>::empty());
        assert(all.skip(0) =~= all);
    }
    let mut k: usize = 0;
    while k < pasta_data.len()
        invariant
            k <= pasta_data@.len(),
            all == pastas_model(pasta_data@),
            store.wf(),
            rewrite_model(Seq::empty(), all) == rewrite_model(store@, all.skip(k as int)),
        decreases pasta_data@.len() - k,
    {
        let ghost pre = store@;
        proof {
            assert(all.skip(k as int)[0] == all[k as int]);
            assert(all[k as int] == pasta_data@[k as int]@);
        }
        match insert(store, &pasta_data[k]) {
            Ok(_) => {
                proof {
                    assert(all.skip(k as int).drop_first() =~= all.skip(k as int + 1));
                    assert(rewrite_model(pre, all.skip(k as int)) == rewrite_model(
                        pre.push(encode_model(all[k as int])),
                        all.skip(k as int + 1),
                    ));
                }
            },
            Err(e) => {
                proof {
                    assert(has_id(pre, all[k as int].id));
                    assert(rewrite_model(pre, all.skip(k as int)) == (pre, false));
                }
                return Err(e);
            },
        }
        k += 1;
    }
    proof {
        assert(all.skip(pasta_data@.len() as int) =~= Seq::<PastaModel>::empty());
        assert(rewrite_model(store@, Seq::<PastaModel>::empty()) == (store@, true));
    }
    Ok(())
}

/// Save the full in-memory record set back to disk; see
/// [`rewrite_all_to_db`].
pub fn update_all(store: &mut Store, pastas: &Vec<Pasta>) -> (r: Result<(), StoreError>)
    ensures
        final(store).wf(),
        final(store)@ == rewrite_model(Seq::empty(), pastas_model(pastas@)).0,
        r is Ok <==> rewrite_model(Seq::empty(), pastas_model(pastas@)).1,
        r is Err ==> r == Err::<(), StoreError>(StoreError::Constraint),
{
    rewrite_all_to_db(store, pastas)
}

/// The index of a record with the smallest `created` timestamp.
fn find_min_index(v: &Vec<Pasta>) -> (m: usize)
    requires
        v@.len() > 0,
    ensures
        m < v@.len(),
        forall|k: int| 0 <= k < v@.len() ==> v@[m as int]@.created <= v@[k]@.created,
{
    let mut m: usize = 0;
    let mut i: usize = 1;
    while i < v.len()
        invariant
            m < i <= v@.len(),
            forall|k: int| 0 <= k < i ==> v@[m as int]@.created <= v@[k]@.created,
        decreases v@.len() - i,
    {
        if v[i].created < v[m].created {
            m = i;
        }
        i += 1;
    }
    m
}

/// Read the whole table: every row decoded, sorted ascending by `created`.
/// The result holds exactly the decoded rows — as a multiset, since rows
/// with equal timestamps come out in no particular order.
pub fn select_all_from_db(store: &Store) -> (r: Vec<Pasta>)
    ensures
        r@.len() == store@.len(),
        sorted_by_created(pastas_model(r@)),
        pastas_model(r@).to_multiset() == decoded(store@).to_multiset(),
{
    let mut work: Vec<Pasta> = Vec::new();
    let mut i: usize = 0;
    while i < store.rows.len()
        invariant
            i <= store.rows@.len(),
            store@.len() == store.rows@.len(),
            work@.len() == i,
            forall|j: int| 0 <= j < i ==> work@[j]@ == decode_model(store@[j]),
        decreases store.rows@.len() - i,
    {
        let p = decode(&store.rows[i]);
        work.push(p);
        i += 1;
    }
    proof {
        assert(pastas_model(work@) =~= decoded(store@));
    }
    let ghost target = decoded(store@).to_multiset();

    let mut out: Vec<Pasta> = Vec::new();
    proof {
        assert(pastas_model(out@) =~= Seq::<PastaModel>::empty());
        assert(pastas_model(out@).to_multiset().add(pastas_model(work@).to_multiset())
            =~= target);
    }
    while work.len() > 0
        invariant
            target == decoded(store@).to_multiset(),
            out@.len() + work@.len() == store@.len(),
            sorted_by_created(pastas_model(out@)),
            forall|a: int, b: int|
                0 <= a < out@.len() && 0 <= b < work@.len() ==> out@[a]@.created
                    <= work@[b]@.created,
            pastas_model(out@).to_multiset().add(pastas_model(work@).to_multiset()) == target,
        decreases work@.len(),
    {
        let ghost out0 = pastas_model(out@);
        let ghost work0 = pastas_model(work@);
        let m = find_min_index(&work);
        let p = work.remove(m);
        out.push(p);
        proof {
            assert(pastas_model(out@) =~= out0.push(p@));
            assert(pastas_model(work@) =~= work0.remove(m as int));
            assert(work0[m as int] == p@);
            assert(work0.contains(work0[m as int]));
            assert(work0.to_multiset().count(p@) > 0);
            assert(out0.push(p@).to_multiset() == out0.to_multiset().insert(p@));
            assert(work0.remove(m as int).to_multiset() == work0.to_multiset().remove(p@));
            assert(out0.to_multiset().insert(p@).add(work0.to_multiset().remove(p@))
                =~= out0.to_multiset().add(work0.to_multiset()));
            assert forall|a: int, b: int|
                0 <= a <= b < pastas_model(out@).len() implies pastas_model(out@)[a].created
                <= pastas_model(out@)[b].created by {
                if b < out0.len() {
                } else {
                    assert(pastas_model(out@)[b] == p@);
                }
            }
        }
    }
    proof {
        assert(pastas_model(work@) =~= Seq::<PastaModel>::empty());
        assert(pastas_model(out@).to_multiset().add(Seq::<PastaModel>::empty().to_multiset())
            =~= pastas_model(out@).to_multiset());
    }
    out
}

/// Read every stored record, sorted ascending by `created`; see
/// [`select_all_from_db`].
pub fn read_all(store: &Store) -> (r: Vec<Pasta>)
    ensures
        r@.len() == store@.len(),
        sorted_by_created(pastas_model(r@)),
        pastas_model(r@).to_multiset() == decoded(store@).to_multiset(),
{
    select_all_from_db(store)
}

/// The encoded rows of a sequence of records.
pub open spec fn encoded(ps: Seq<PastaModel>) -> Seq<RowModel> {
    ps.map_values(|p: PastaModel| encode_model(p))
}

/// The collapsed forms of a sequence of records; see
/// [`crate::record::collapse`].
pub open spec fn collapsed(ps: Seq<PastaModel>) -> Seq<PastaModel> {
    ps.map_values(|p: PastaModel| collapse(p))
}

/// Round trip: inserting a record with a fresh id and reading the table
/// back yields exactly one record equal to it in every field — up to the
/// collapse of a partial attachment — whatever `out` order the read chose.
pub proof fn lemma_insert_read_round_trip(s: Seq<RowModel>, p: PastaModel, out: Seq<PastaModel>)
    requires
        ids_unique(s),
        !has_id(s, p.id),
        out.to_multiset() == decoded(insert_model(s, p).0).to_multiset(),
    ensures
        out.to_multiset().count(collapse(p)) == 1,
{
    let t = insert_model(s, p).0;
    assert(t == s.push(encode_model(p)));
    crate::codec::lemma_decode_encode(p);
    assert(decoded(t) =~= decoded(s).push(collapse(p)));
    assert(decoded(t).to_multiset() == decoded(s).to_multiset().insert(collapse(p)));
    assert(decoded(s).to_multiset().count(collapse(p)) == 0) by {
        if decoded(s).to_multiset().count(collapse(p)) > 0 {
            assert(decoded(s).contains(collapse(p)));
            let i = choose|i: int| 0 <= i < decoded(s).len() && decoded(s)[i] == collapse(p);
            assert(decoded(s)[i].id == s[i].id);
            assert(collapse(p).id == p.id);
            assert(has_id(s, p.id));
        }
    }
}

/// Update semantics: an update of an existing id replaces every column of
/// exactly that row and no other; an update of a missing id changes
/// nothing.
pub proof fn lemma_update_semantics(s: Seq<RowModel>, p: PastaModel)
    requires
        ids_unique(s),
    ensures
        !has_id(s, p.id) ==> update_model(s, p) == s,
        has_id(s, p.id) ==> update_model(s, p).len() == s.len(),
        has_id(s, p.id) ==> exists|i: int|
            0 <= i < s.len() && s[i].id == p.id && update_model(s, p)[i] == encode_model(p)
                && (forall|j: int| 0 <= j < s.len() && j != i ==> update_model(s, p)[j] == s[j]),
{
    if has_id(s, p.id) {
        let i = choose|i: int| 0 <= i < s.len() && s[i].id == p.id;
        assert(update_model(s, p)[i] == encode_model(p));
        assert(forall|j: int| 0 <= j < s.len() && j != i ==> update_model(s, p)[j] == s[j]);
    }
}

/// Delete semantics: a delete removes at most one row, afterwards no row
/// carries the id, and a second delete of the same id is a no-op.
pub proof fn lemma_delete_semantics(s: Seq<RowModel>, id: u64)
    requires
        ids_unique(s),
    ensures
        s.len() - 1 <= delete_model(s, id).len() <= s.len(),
        !has_id(s, id) ==> delete_model(s, id) == s,
        !has_id(delete_model(s, id), id),
        delete_model(delete_model(s, id), id) == delete_model(s, id),
{
    if has_id(s, id) {
        let i = choose|i: int| 0 <= i < s.len() && s[i].id == id;
        let t = s.remove(i);
        assert(delete_model(s, id) == t);
        assert forall|k: int| 0 <= k < t.len() implies t[k].id != id by {
            let k0 = if k < i {
                k
            } else {
                k + 1
            };
            assert(t[k] == s[k0]);
            if k0 < i {
                assert(s[k0].id != s[i].id);
            } else {
                assert(s[i].id != s[k0].id);
            }
        }
    }
}

/// The insert loop of a rewrite, run on records whose ids collide neither
/// with each other nor with the rows already inserted, completes and appends
/// exactly their encoded rows.
proof fn lemma_rewrite_no_collision(acc: Seq<RowModel>, ps: Seq<PastaModel>)
    requires
        forall|i: int, j: int| 0 <= i < j < ps.len() ==> ps[i].id != ps[j].id,
        forall|i: int| 0 <= i < ps.len() ==> !has_id(acc, #[trigger] ps[i].id),
    ensures
        rewrite_model(acc, ps).1,
        rewrite_model(acc, ps).0 == acc + encoded(ps),
    decreases ps.len(),
{
    if ps.len() == 0 {
        assert(acc + encoded(ps) =~= acc);
    } else {
        let e0 = encode_model(ps[0]);
        assert(!has_id(acc, ps[0].id));
        let acc1 = acc.push(e0);
        let ps1 = ps.drop_first();
        assert forall|i: int| 0 <= i < ps1.len() implies !has_id(acc1, #[trigger] ps1[i].id) by {
            assert(ps1[i] == ps[i + 1]);
            assert(ps[0].id != ps[i + 1].id);
            if has_id(acc1, ps1[i].id) {
                let k = choose|k: int| 0 <= k < acc1.len() && acc1[k].id == ps1[i].id;
                if k < acc.len() {
                    assert(has_id(acc, ps1[i].id));
                } else {
                    assert(acc1[k] == e0);
                }
            }
        }
        lemma_rewrite_no_collision(acc1, ps1);
        assert(acc1 + encoded(ps1) =~= acc + encoded(ps));
    }
}

/// Rewrite replacement: a bulk rewrite with records of pairwise distinct
/// ids succeeds and leaves the table holding exactly their rows, in order;
/// read back, those rows are exactly the records, collapsed.
pub proof fn lemma_rewrite_replacement(ps: Seq<PastaModel>)
    requires
        forall|i: int, j: int| 0 <= i < j < ps.len() ==> ps[i].id != ps[j].id,
    ensures
        rewrite_model(Seq::empty(), ps).1,
        rewrite_model(Seq::empty(), ps).0 == encoded(ps),
        decoded(encoded(ps)) == collapsed(ps),
{
    assert(forall|i: int|
        0 <= i < ps.len() ==> !has_id(Seq::<RowModel>::empty(), #[trigger] ps[i].id));
    lemma_rewrite_no_collision(Seq::empty(), ps);
    assert(Seq::<RowModel>::empty() + encoded(ps) =~= encoded(ps));
    assert forall|i: int| 0 <= i < ps.len() implies decoded(encoded(ps))[i] == collapsed(ps)[i] by {
        crate::codec::lemma_decode_encode(ps[i]);
    }
    assert(decoded(encoded(ps)) =~= collapsed(ps));
}

} // verus!
