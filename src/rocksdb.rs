use vstd::prelude::*;

use crate::store::{visited, with_lock, Inode, InodeID, KindType, ROOT_ID};
use crate::util::identity_hash;

verus! {

/// Row `k` of `rows` is the inode `id`.
pub open spec fn id_at(rows: Seq<Inode>, k: int, id: InodeID) -> bool {
    0 <= k < rows.len() && rows[k].id == id
}

pub open spec fn has_id(rows: Seq<Inode>, id: InodeID) -> bool {
    exists|k: int| #[trigger] id_at(rows, k, id)
}

/// Row `k` of `rows` is the entry `name` under `parent`.
pub open spec fn entry_at(rows: Seq<Inode>, k: int, parent: InodeID, name: Seq<char>) -> bool {
    0 <= k < rows.len() && rows[k].parent_id == parent && rows[k].name@ == name
}

pub open spec fn has_entry(rows: Seq<Inode>, parent: InodeID, name: Seq<char>) -> bool {
    exists|k: int| #[trigger] entry_at(rows, k, parent, name)
}

/// Inode `id` has a row, and it is a directory.
pub open spec fn is_dir(rows: Seq<Inode>, id: InodeID) -> bool {
    exists|k: int| #[trigger] id_at(rows, k, id) && rows[k].kind_type == KindType::Directory
}

/// No two rows share an id, nor a (parent, name) pair.
pub open spec fn rows_unique(rows: Seq<Inode>) -> bool {
    forall|a: int, b: int|
        0 <= a < rows.len() && 0 <= b < rows.len() && a != b ==> {
            &&& #[trigger] rows[a].id != #[trigger] rows[b].id
            &&& (rows[a].parent_id != rows[b].parent_id || rows[a].name@ != rows[b].name@)
        }
}

/// Row `r` may stand in `rows`: the root is a directory that is its own
/// parent; any other row sits in the root or in a directory of the catalog.
pub open spec fn placed(rows: Seq<Inode>, r: Inode) -> bool {
    if r.id == ROOT_ID {
        r.parent_id == ROOT_ID && r.kind_type == KindType::Directory
    } else {
        r.parent_id == ROOT_ID || is_dir(rows, r.parent_id)
    }
}

/// Every row is placed.
pub open spec fn rows_rooted(rows: Seq<Inode>) -> bool {
    forall|a: int| 0 <= a < rows.len() ==> #[trigger] placed(rows, rows[a])
}

/// The catalog's invariant.
pub open spec fn rows_wf(rows: Seq<Inode>) -> bool {
    rows_unique(rows) && rows_rooted(rows)
}

/// Rewriting rows in place while keeping their ids, parents, names and kinds
/// keeps the invariant.
pub proof fn lemma_same_shape_wf(rows: Seq<Inode>, new: Seq<Inode>)
    requires
        rows_wf(rows),
        new.len() == rows.len(),
        forall|k: int|
            0 <= k < rows.len() ==> {
                &&& (#[trigger] new[k]).id == rows[k].id
                &&& new[k].parent_id == rows[k].parent_id
                &&& new[k].name == rows[k].name
                &&& new[k].kind_type == rows[k].kind_type
            },
    ensures
        rows_wf(new),
{
    assert forall|a: int, b: int|
        0 <= a < new.len() && 0 <= b < new.len() && a != b implies {
            &&& #[trigger] new[a].id != #[trigger] new[b].id
            &&& (new[a].parent_id != new[b].parent_id || new[a].name@ != new[b].name@)
        } by {
        assert(rows[a].id != rows[b].id);
    }
    assert forall|a: int| 0 <= a < new.len() implies #[trigger] placed(new, new[a]) by {
        assert(placed(rows, rows[a]));
        if rows[a].id != ROOT_ID && rows[a].parent_id != ROOT_ID {
            let k = choose|k: int|
                #[trigger] id_at(rows, k, rows[a].parent_id) && rows[k].kind_type
                    == KindType::Directory;
            assert(id_at(new, k, new[a].parent_id));
        }
    }
}

/// The rows of inode `id` are marked visited at `now`; the others stay.
pub open spec fn touched(rows: Seq<Inode>, id: InodeID, now: i64) -> Seq<Inode> {
    rows.map_values(|r: Inode| if r.id == id { visited(r, now) } else { r })
}

/// The rows of inode `id` get lock flag `b`; the others stay.
pub open spec fn locked(rows: Seq<Inode>, id: InodeID, b: bool) -> Seq<Inode> {
    rows.map_values(|r: Inode| if r.id == id { with_lock(r, b) } else { r })
}

/// The row of inode `id`.
pub open spec fn row_of(rows: Seq<Inode>, id: InodeID) -> Inode {
    rows[choose|k: int| id_at(rows, k, id)]
}

/// In a well-formed catalog the row of `id` is the one row with that id.
pub proof fn lemma_row_of(rows: Seq<Inode>, id: InodeID, k: int)
    requires
        rows_wf(rows),
        id_at(rows, k, id),
    ensures
        row_of(rows, id) == rows[k],
        is_locked(rows, id) == rows[k].lock,
        is_dir(rows, id) == (rows[k].kind_type == KindType::Directory),
{
    let j = choose|j: int| id_at(rows, j, id);
    assert(id_at(rows, j, id));
    if j != k {
        assert(rows[j].id != rows[k].id);
    }
    assert forall|x: int| #[trigger] id_at(rows, x, id) implies x == k by {
        if x != k {
            assert(rows[x].id != rows[k].id);
        }
    }
}

/// Inode `id` has a row whose lock flag is set.
pub open spec fn is_locked(rows: Seq<Inode>, id: InodeID) -> bool {
    exists|k: int| #[trigger] id_at(rows, k, id) && rows[k].lock
}

/// The catalog after inserting `inode`, and the outcome: a row with the same
/// id, or the same parent and name, refuses the insert, and so does a row that
/// is not placed: a root that is not a directory under itself, or a parent
/// that is neither the root nor a directory of the catalog.
pub open spec fn create_result(rows: Seq<Inode>, inode: Inode) -> (Seq<Inode>, Result<
    InodeID,
    CatalogError,
>) {
    if has_id(rows, inode.id) || has_entry(rows, inode.parent_id, inode.name@) {
        (rows, Err(CatalogError::AlreadyExists))
    } else if !placed(rows, inode) {
        (rows, Err(CatalogError::NoParent))
    } else {
        (rows.push(with_lock(inode, false)), Ok(inode.id))
    }
}

/// Creating the same remote object twice, from two calls that derive its id
/// from the same identity text, gives at most one row: the second call is
/// refused and changes nothing, and no two rows share the entry's (parent,
/// name) pair.
pub proof fn lemma_create_idempotent(rows: Seq<Inode>, raw: Seq<char>, a: Inode, b: Inode)
    requires
        rows_wf(rows),
        a.id == identity_hash(raw),
        b.id == identity_hash(raw),
        a.parent_id == b.parent_id,
        a.name@ == b.name@,
        a.kind_type == b.kind_type,
    ensures
        ({
            let (rows1, r1) = create_result(rows, a);
            let (rows2, r2) = create_result(rows1, b);
            &&& r1 is Ok ==> r1 == Ok::<InodeID, CatalogError>(b.id) && r2 == Err::<
                InodeID,
                CatalogError,
            >(CatalogError::AlreadyExists)
            &&& r2 is Err
            &&& rows2 == rows1
            &&& r1 is Ok ==> has_entry(rows2, b.parent_id, b.name@) && has_id(rows2, b.id)
            &&& rows_wf(rows2)
            &&& forall|j: int, k: int|
                entry_at(rows2, j, b.parent_id, b.name@) && entry_at(rows2, k, b.parent_id, b.name@)
                    ==> j == k
        }),
{
    let (rows1, r1) = create_result(rows, a);
    if has_id(rows, a.id) || has_entry(rows, a.parent_id, a.name@) {
        if has_id(rows, a.id) {
            assert(has_id(rows1, b.id));
        } else {
            let k = choose|k: int| entry_at(rows, k, a.parent_id, a.name@);
            assert(entry_at(rows1, k, b.parent_id, b.name@));
        }
    } else if !placed(rows, a) {
    } else {
        lemma_push_wf(rows, a);
        assert(id_at(rows1, rows.len() as int, b.id));
        assert(entry_at(rows1, rows.len() as int, b.parent_id, b.name@));
    }
    assert forall|j: int, k: int|
        entry_at(rows1, j, b.parent_id, b.name@) && entry_at(rows1, k, b.parent_id, b.name@)
            implies j == k by {
        if j != k {
            assert(rows1[j].id != rows1[k].id);
        }
    }
}

/// The catalog got by creating `rows` one after another into an empty one, or
/// the first refusal.
pub open spec fn load_spec(rows: Seq<Inode>) -> Result<Seq<Inode>, CatalogError>
    decreases rows.len(),
{
    if rows.len() == 0 {
        Ok(Seq::empty())
    } else {
        match load_spec(rows.drop_last()) {
            Ok(c) => {
                let (c2, r) = create_result(c, rows.last());
                match r {
                    Ok(_) => Ok(c2),
                    Err(e) => Err(e),
                }
            },
            Err(e) => Err(e),
        }
    }
}

/// Once a prefix of the rows is refused, so is the whole load, with the same
/// error.
proof fn lemma_load_err(rows: Seq<Inode>, n: int)
    requires
        0 <= n <= rows.len(),
        load_spec(rows.take(n)) is Err,
    ensures
        load_spec(rows) == load_spec(rows.take(n)),
    decreases rows.len(),
{
    if n == rows.len() {
        assert(rows.take(n) =~= rows);
    } else {
        assert(rows.drop_last().take(n) =~= rows.take(n));
        lemma_load_err(rows.drop_last(), n);
    }
}

/// A failed catalog write.
#[derive(Debug, Clone, Copy, PartialEq, Eq)]
pub enum CatalogError {
    AlreadyExists,
    /// The row's parent is neither the root nor a directory of the catalog,
    /// or a root row is not a directory that is its own parent.
    NoParent,
}

/// The outcome of an attempt to take an inode's fetch lock.
#[derive(Debug, Clone, Copy, PartialEq, Eq)]
pub enum LockOutcome {
    Acquired,
    AlreadyLocked,
    NotFound,
}

/// The key-value catalog engine: rows keyed by inode id, with at most one row
/// for each id and for each (parent, name) pair. The table is held in memory;
/// a mount that keeps its rows between runs stores them elsewhere and
/// rebuilds the table with `from_rows`.
pub struct Rocksdb {
    rows: Vec<Inode>,
}

impl View for Rocksdb {
    type V = Seq<Inode>;

    closed spec fn view(&self) -> Seq<Inode> {
        self.rows@
    }
}

impl Rocksdb {
    pub open spec fn wf(&self) -> bool {
        rows_wf(self@)
    }

    pub fn new() -> (r: Rocksdb)
        ensures
            r.wf(),
            r@ == Seq::<Inode>::empty(),
    {
        Rocksdb { rows: Vec::new() }
    }

    /// Rebuilds a catalog from stored rows, parents before children. Each row
    /// is created in turn, so a lock left set by an earlier process is
    /// cleared; the first row refused makes the whole load fail.
    pub fn from_rows(rows: &Vec<Inode>) -> (r: Result<Rocksdb, CatalogError>)
        ensures
            match r {
                Ok(db) => db.wf() && load_spec(rows@) == Ok::<Seq<Inode>, CatalogError>(db@)
                    && forall|k: int| 0 <= k < db@.len() ==> !(#[trigger] db@[k]).lock,
                Err(e) => load_spec(rows@) == Err::<Seq<Inode>, CatalogError>(e),
            },
    {
        let mut db = Rocksdb::new();
        let mut i: usize = 0;
        assert(rows@.take(0) =~= Seq::<Inode>::empty());
        while i < rows.len()
            invariant
                i <= rows@.len(),
                db.wf(),
                load_spec(rows@.take(i as int)) == Ok::<Seq<Inode>, CatalogError>(db@),
                forall|k: int| 0 <= k < db@.len() ==> !(#[trigger] db@[k]).lock,
            decreases rows@.len() - i,
        {
            let ghost before = db@;
            assert(rows@.take(i + 1).drop_last() =~= rows@.take(i as int));
            assert(rows@.take(i + 1).last() == rows@[i as int]);
            match db.create(rows[i].copied()) {
                Ok(_) => {
                    assert(db@ == before.push(with_lock(rows@[i as int], false)));
                    assert forall|k: int| 0 <= k < db@.len() implies !(#[trigger] db@[k]).lock by {
                        if k < before.len() {
                            assert(db@[k] == before[k]);
                        }
                    }
                },
                Err(e) => {
                    proof {
                        lemma_load_err(rows@, i + 1);
                    }
                    return Err(e);
                },
            }
            i = i + 1;
        }
        assert(rows@.take(rows@.len() as int) =~= rows@);
        Ok(db)
    }

    pub fn len(&self) -> (r: usize)
        ensures
            r == self@.len(),
    {
        self.rows.len()
    }

    /// Whether inode `id` has a row.
    pub fn contains(&self, id: InodeID) -> (r: bool)
        ensures
            r == has_id(self@, id),
    {
        self.find_id(id).is_some()
    }

    fn find_id(&self, id: InodeID) -> (r: Option<usize>)
        ensures
            match r {
                Some(k) => id_at(self@, k as int, id),
                None => !has_id(self@, id),
            },
    {
        let mut k: usize = 0;
        while k < self.rows.len()
            invariant
                k <= self.rows@.len(),
                forall|j: int| 0 <= j < k ==> !#[trigger] id_at(self.rows@, j, id),
            decreases self.rows@.len() - k,
        {
            if self.rows[k].id == id {
                return Some(k);
            }
            k = k + 1;
        }
        None
    }

    fn find_entry(&self, parent_id: InodeID, name: &str) -> (r: Option<usize>)
        ensures
            match r {
                Some(k) => entry_at(self@, k as int, parent_id, name@),
                None => !has_entry(self@, parent_id, name@),
            },
    {
        let key = String::from_str(name);
        let mut k: usize = 0;
        while k < self.rows.len()
            invariant
                key@ == name@,
                k <= self.rows@.len(),
                forall|j: int| 0 <= j < k ==> !#[trigger] entry_at(self.rows@, j, parent_id, name@),
            decreases self.rows@.len() - k,
        {
            if self.rows[k].parent_id == parent_id && self.rows[k].name == key {
                return Some(k);
            }
            k = k + 1;
        }
        None
    }

    /// The row of inode `id`, if there is one.
    pub fn get(&self, id: InodeID) -> (r: Option<Inode>)
        ensures
            r is None <==> !has_id(self@, id),
            r matches Some(x) ==> exists|k: int| #[trigger] id_at(self@, k, id) && self@[k] == x,
    {
        match self.find_id(id) {
            Some(k) => Some(self.rows[k].copied()),
            None => None,
        }
    }

    /// The row named `name` under directory `parent_id`, if there is one.
    pub fn lookup(&self, parent_id: InodeID, name: &str) -> (r: Option<Inode>)
        ensures
            r is None <==> !has_entry(self@, parent_id, name@),
            r matches Some(x) ==> exists|k: int|
                #[trigger] entry_at(self@, k, parent_id, name@) && self@[k] == x,
    {
        match self.find_entry(parent_id, name) {
            Some(k) => Some(self.rows[k].copied()),
            None => None,
        }
    }

    /// Inserts a new row, unlocked. A row with the same id, or with the same
    /// parent and name, makes it fail and leaves the catalog as it was.
    pub fn create(&mut self, inode: Inode) -> (r: Result<InodeID, CatalogError>)
        requires
            old(self).wf(),
        ensures
            final(self).wf(),
            (final(self)@, r) == create_result(old(self)@, inode),
    {
        let ghost ino = inode;
        let ghost rows0 = self.rows@;
        if self.find_id(inode.id).is_some() {
            return Err(CatalogError::AlreadyExists);
        }
        if self.find_entry(inode.parent_id, inode.name.as_str()).is_some() {
            return Err(CatalogError::AlreadyExists);
        }
        if inode.id == ROOT_ID {
            if inode.parent_id != ROOT_ID || !matches!(inode.kind_type, KindType::Directory) {
                return Err(CatalogError::NoParent);
            }
        } else if inode.parent_id != ROOT_ID {
            match self.find_id(inode.parent_id) {
                None => {
                    return Err(CatalogError::NoParent);
                },
                Some(k) => {
                    if !matches!(self.rows[k].kind_type, KindType::Directory) {
                        proof {
                            assert forall|j: int| #[trigger]
                                id_at(self@, j, ino.parent_id) implies self@[j].kind_type
                                != KindType::Directory by {
                                if j != k {
                                    assert(self@[j].id != self@[k as int].id);
                                }
                            }
                        }
                        return Err(CatalogError::NoParent);
                    }
                },
            }
        }
        let id = inode.id;
        let mut row = inode;
        row.lock = false;
        self.rows.push(row);
        proof {
            lemma_push_wf(rows0, ino);
        }
        Ok(id)
    }
}

/// Pushing a row whose id and (parent, name) are both new keeps the catalog's
/// invariant.
proof fn lemma_push_wf(rows0: Seq<Inode>, ino: Inode)
    requires
        rows_wf(rows0),
        !has_id(rows0, ino.id),
        !has_entry(rows0, ino.parent_id, ino.name@),
        placed(rows0, ino),
    ensures
        rows_wf(rows0.push(with_lock(ino, false))),
{
    let rows = rows0.push(with_lock(ino, false));
    let n = rows0.len() as int;
    assert forall|a: int, b: int|
        0 <= a < rows.len() && 0 <= b < rows.len() && a != b implies {
            &&& #[trigger] rows[a].id != #[trigger] rows[b].id
            &&& (rows[a].parent_id != rows[b].parent_id || rows[a].name@ != rows[b].name@)
        } by {
        if a == n {
            if rows[a].id == rows[b].id {
                assert(id_at(rows0, b, ino.id));
            }
            if rows[a].parent_id == rows[b].parent_id && rows[a].name@ == rows[b].name@ {
                assert(entry_at(rows0, b, ino.parent_id, ino.name@));
            }
        } else if b == n {
            if rows[a].id == rows[b].id {
                assert(id_at(rows0, a, ino.id));
            }
            if rows[a].parent_id == rows[b].parent_id && rows[a].name@ == rows[b].name@ {
                assert(entry_at(rows0, a, ino.parent_id, ino.name@));
            }
        } else {
            assert(rows[a] == rows0[a] && rows[b] == rows0[b]);
            assert(rows0[a].id != rows0[b].id);
        }
    }
    assert forall|x: int| 0 <= x < rows.len() implies #[trigger] placed(rows, rows[x]) by {
        if x < n {
            assert(placed(rows0, rows0[x]));
            if rows0[x].id != ROOT_ID && rows0[x].parent_id != ROOT_ID {
                let k = choose|k: int|
                    #[trigger] id_at(rows0, k, rows0[x].parent_id) && rows0[k].kind_type
                        == KindType::Directory;
                assert(id_at(rows, k, rows[x].parent_id));
            }
        } else if ino.id != ROOT_ID && ino.parent_id != ROOT_ID {
            let k = choose|k: int|
                #[trigger] id_at(rows0, k, ino.parent_id) && rows0[k].kind_type
                    == KindType::Directory;
            assert(id_at(rows, k, rows[x].parent_id));
        }
    }
}

impl Rocksdb {
    /// Marks inode `id` visited at `now`. An unknown id changes nothing.
    pub fn touch(&mut self, id: InodeID, now: i64)
        requires
            old(self).wf(),
        ensures
            final(self).wf(),
            final(self)@ == touched(old(self)@, id, now),
    {
        let ghost rows0 = self.rows@;
        let mut k: usize = 0;
        while k < self.rows.len()
            invariant
                self.rows@.len() == rows0.len(),
                k <= rows0.len(),
                forall|j: int|
                    0 <= j < k ==> self.rows@[j] == (if rows0[j].id == id {
                        visited(rows0[j], now)
                    } else {
                        rows0[j]
                    }),
                forall|j: int| k <= j < rows0.len() ==> self.rows@[j] == rows0[j],
            decreases rows0.len() - k,
        {
            if self.rows[k].id == id {
                let mut row = self.rows[k].copied();
                if now > row.last_visited_at {
                    row.last_visited_at = now;
                }
                self.rows.set(k, row);
            }
            k = k + 1;
        }
        assert(self.rows@ =~= touched(rows0, id, now));
        proof {
            lemma_same_shape_wf(rows0, self.rows@);
        }
    }

    fn set_lock(&mut self, id: InodeID, b: bool)
        requires
            old(self).wf(),
        ensures
            final(self).wf(),
            final(self)@ == locked(old(self)@, id, b),
    {
        let ghost rows0 = self.rows@;
        let mut k: usize = 0;
        while k < self.rows.len()
            invariant
                self.rows@.len() == rows0.len(),
                k <= rows0.len(),
                forall|j: int|
                    0 <= j < k ==> self.rows@[j] == (if rows0[j].id == id {
                        with_lock(rows0[j], b)
                    } else {
                        rows0[j]
                    }),
                forall|j: int| k <= j < rows0.len() ==> self.rows@[j] == rows0[j],
            decreases rows0.len() - k,
        {
            if self.rows[k].id == id {
                let mut row = self.rows[k].copied();
                row.lock = b;
                self.rows.set(k, row);
            }
            k = k + 1;
        }
        assert(self.rows@ =~= locked(rows0, id, b));
        proof {
            lemma_same_shape_wf(rows0, self.rows@);
        }
    }

    /// Takes the fetch lock of inode `id` in one conditional update: it is set
    /// only where it was clear.
    pub fn try_lock(&mut self, id: InodeID) -> (r: LockOutcome)
        requires
            old(self).wf(),
        ensures
            final(self).wf(),
            !has_id(old(self)@, id) ==> r == LockOutcome::NotFound && final(self)@ == old(self)@,
            is_locked(old(self)@, id) ==> r == LockOutcome::AlreadyLocked && final(self)@ == old(
                self,
            )@,
            has_id(old(self)@, id) && !is_locked(old(self)@, id) ==> r == LockOutcome::Acquired
                && final(self)@ == locked(old(self)@, id, true),
    {
        match self.find_id(id) {
            None => LockOutcome::NotFound,
            Some(k) => {
                if self.rows[k].lock {
                    LockOutcome::AlreadyLocked
                } else {
                    proof {
                        assert forall|j: int| #[trigger]
                            id_at(self@, j, id) implies !self@[j].lock by {
                            assert(j == k);
                        }
                    }
                    self.set_lock(id, true);
                    LockOutcome::Acquired
                }
            },
        }
    }

    /// Clears the fetch lock of inode `id`; clearing a clear lock changes
    /// nothing.
    pub fn unlock(&mut self, id: InodeID)
        requires
            old(self).wf(),
        ensures
            final(self).wf(),
            final(self)@ == locked(old(self)@, id, false),
    {
        self.set_lock(id, false);
    }
}

} // verus!
