use vstd::prelude::*;

use std::collections::HashMap;

use crate::error::Error;
use crate::rocksdb::{
    create_result, has_id, id_at, is_locked, lemma_row_of, lemma_same_shape_wf, locked, row_of,
    rows_wf, touched, CatalogError, LockOutcome, Rocksdb,
};
use crate::store::{visited, with_lock, Inode, InodeID, KindType, StoreType};
use crate::util::{parse_spec, ProtocolPath};

verus! {

broadcast use vstd::std_specs::hash::group_hash_axioms;

/// Why a resolution failed.
#[derive(Debug, Clone, Copy, PartialEq, Eq)]
pub enum ResolveError {
    /// The catalog has no such inode.
    NotFound,
    /// Neither a peer nor the origin delivered the object.
    OriginUnavailable,
    /// The inode is a directory, which has no content.
    IsDirectory,
    /// The row's protocol path does not parse, so the origin cannot be asked.
    InvalidSource,
    /// An answer came for an inode whose fetch lock is not held: it is
    /// dropped.
    NotLockHolder,
}

/// What the caller does next for one resolution.
#[derive(Debug)]
pub enum Action {
    /// The object's bytes: the resolution is done.
    Deliver(Vec<u8>),
    /// Another request is fetching the object: wait until it is released,
    /// then start again.
    Wait,
    /// This request holds the fetch lock: ask the peers for the object.
    QueryPeers,
    /// No peer had it: fetch it from the origin of the given scheme, at the
    /// given protocol path.
    FetchOrigin(StoreType, ProtocolPath),
    Fail(ResolveError),
}

pub enum ActionView {
    Deliver(Seq<u8>),
    Wait,
    QueryPeers,
    FetchOrigin(StoreType, Seq<char>, Seq<char>, Seq<char>),
    Fail(ResolveError),
}

impl View for Action {
    type V = ActionView;

    open spec fn view(&self) -> ActionView {
        match self {
            Action::Deliver(b) => ActionView::Deliver(b@),
            Action::Wait => ActionView::Wait,
            Action::QueryPeers => ActionView::QueryPeers,
            Action::FetchOrigin(st, pp) => ActionView::FetchOrigin(
                *st,
                pp.scheme@,
                pp.path@,
                pp.version@,
            ),
            Action::Fail(e) => ActionView::Fail(*e),
        }
    }
}

/// The resolver's state: the catalog rows and the bytes cached for each inode.
pub struct ResolverView {
    pub rows: Seq<Inode>,
    pub cache: Map<InodeID, Seq<u8>>,
}

/// Step 1 and 2 of a resolution: a cached object is delivered and its row
/// visited; otherwise the fetch lock is taken, or the caller waits for the
/// request that holds it. A directory has nothing to resolve.
pub open spec fn start_spec(v: ResolverView, id: InodeID, now: i64) -> (ResolverView, ActionView) {
    if !has_id(v.rows, id) {
        (v, ActionView::Fail(ResolveError::NotFound))
    } else if row_of(v.rows, id).kind_type == KindType::Directory {
        (v, ActionView::Fail(ResolveError::IsDirectory))
    } else if v.cache.contains_key(id) {
        (
            ResolverView { rows: touched(v.rows, id, now), cache: v.cache },
            ActionView::Deliver(v.cache[id]),
        )
    } else if row_of(v.rows, id).lock {
        (v, ActionView::Wait)
    } else {
        (ResolverView { rows: locked(v.rows, id, true), cache: v.cache }, ActionView::QueryPeers)
    }
}

/// A fetch that brought `bytes`: they are cached whole, the lock is released
/// and the row visited.
pub open spec fn settle_spec(v: ResolverView, id: InodeID, bytes: Seq<u8>, now: i64) -> (
    ResolverView,
    ActionView,
) {
    (
        ResolverView {
            rows: touched(locked(v.rows, id, false), id, now),
            cache: v.cache.insert(id, bytes),
        },
        ActionView::Deliver(bytes),
    )
}

/// A fetch of inode `id` is in flight: its row is locked, and it is not a
/// directory.
pub open spec fn holds_fetch(rows: Seq<Inode>, id: InodeID) -> bool {
    has_id(rows, id) && row_of(rows, id).lock && row_of(rows, id).kind_type != KindType::Directory
}

/// Step 3: a peer's answer. On a miss the origin is asked for the row's
/// protocol path; one that does not parse ends the fetch.
pub open spec fn peer_spec(v: ResolverView, id: InodeID, reply: Option<Seq<u8>>, now: i64) -> (
    ResolverView,
    ActionView,
) {
    if !holds_fetch(v.rows, id) {
        (v, ActionView::Fail(ResolveError::NotLockHolder))
    } else {
        match reply {
            Some(b) => settle_spec(v, id, b, now),
            None => match parse_spec(row_of(v.rows, id).source@) {
                Some((scheme, path, version)) => (
                    v,
                    ActionView::FetchOrigin(row_of(v.rows, id).store_type, scheme, path, version),
                ),
                None => (
                    ResolverView { rows: locked(v.rows, id, false), cache: v.cache },
                    ActionView::Fail(ResolveError::InvalidSource),
                ),
            },
        }
    }
}

/// Steps 4 and 5: the origin's answer. On failure the lock is released and
/// nothing is cached.
pub open spec fn origin_spec(v: ResolverView, id: InodeID, reply: Option<Seq<u8>>, now: i64) -> (
    ResolverView,
    ActionView,
) {
    if !holds_fetch(v.rows, id) {
        (v, ActionView::Fail(ResolveError::NotLockHolder))
    } else {
        match reply {
            Some(b) => settle_spec(v, id, b, now),
            None => (
                ResolverView { rows: locked(v.rows, id, false), cache: v.cache },
                ActionView::Fail(ResolveError::OriginUnavailable),
            ),
        }
    }
}

pub open spec fn reply_view(reply: Option<Vec<u8>>) -> Option<Seq<u8>> {
    match reply {
        Some(b) => Some(b@),
        None => None,
    }
}

pub open spec fn origin_view(reply: Result<Vec<u8>, Error>) -> Option<Seq<u8>> {
    match reply {
        Ok(b) => Some(b@),
        Err(_) => None,
    }
}

/// The bytes that a fetch brings: the peer's if one answered, else the
/// origin's.
pub open spec fn fetched_bytes(peer: Option<Seq<u8>>, origin: Seq<u8>) -> Seq<u8> {
    match peer {
        Some(p) => p,
        None => origin,
    }
}

/// What taking, releasing and visiting do to the row of `id`.
proof fn lemma_row_steps(rows: Seq<Inode>, id: InodeID, k: int, now: i64)
    requires
        rows_wf(rows),
        id_at(rows, k, id),
    ensures
        rows_wf(locked(rows, id, true)),
        has_id(locked(rows, id, true), id),
        row_of(locked(rows, id, true), id) == with_lock(rows[k], true),
        rows_wf(locked(rows, id, false)),
        has_id(locked(rows, id, false), id),
        row_of(locked(rows, id, false), id) == with_lock(rows[k], false),
        rows_wf(touched(locked(rows, id, false), id, now)),
        has_id(touched(locked(rows, id, false), id, now), id),
        row_of(touched(locked(rows, id, false), id, now), id) == visited(
            with_lock(rows[k], false),
            now,
        ),
{
    let l1 = locked(rows, id, true);
    let l0 = locked(rows, id, false);
    let t0 = touched(l0, id, now);
    lemma_same_shape_wf(rows, l1);
    lemma_same_shape_wf(rows, l0);
    lemma_same_shape_wf(l0, t0);
    assert(id_at(l1, k, id));
    assert(id_at(l0, k, id));
    assert(id_at(t0, k, id));
    lemma_row_of(l1, id, k);
    lemma_row_of(l0, id, k);
    lemma_row_of(t0, id, k);
}

/// Concurrent resolutions of one object that is not cached yet fetch it once:
/// the first takes the lock and fetches, every other one waits without
/// changing anything while the fetch runs, the lock ends clear, and each
/// resolution started again afterwards is delivered the same bytes with no
/// new fetch.
pub proof fn lemma_single_fetch(
    v: ResolverView,
    id: InodeID,
    t0: i64,
    others: Seq<i64>,
    peer: Option<Seq<u8>>,
    origin: Seq<u8>,
    t1: i64,
    t2: i64,
)
    requires
        rows_wf(v.rows),
        has_id(v.rows, id),
        !v.cache.contains_key(id),
        !row_of(v.rows, id).lock,
        row_of(v.rows, id).kind_type != KindType::Directory,
        parse_spec(row_of(v.rows, id).source@) is Some,
    ensures
        ({
            let (v1, a1) = start_spec(v, id, t0);
            let (v2, a2) = peer_spec(v1, id, peer, t1);
            let (v3, a3) = if peer is None {
                origin_spec(v2, id, Some(origin), t2)
            } else {
                (v2, a2)
            };
            let b = fetched_bytes(peer, origin);
            &&& a1 == ActionView::QueryPeers
            &&& forall|k: int|
                0 <= k < others.len() ==> #[trigger] start_spec(v1, id, others[k]) == (
                    v1,
                    ActionView::Wait,
                )
            &&& peer is None ==> a2 is FetchOrigin && v2 == v1
            &&& a3 == ActionView::Deliver(b)
            &&& !row_of(v3.rows, id).lock
            &&& v3.cache.contains_key(id) && v3.cache[id] == b
            &&& forall|k: int|
                0 <= k < others.len() ==> (#[trigger] start_spec(v3, id, others[k])).1
                    == ActionView::Deliver(b)
        }),
{
    let k = choose|k: int| id_at(v.rows, k, id);
    lemma_row_of(v.rows, id, k);
    let (v1, a1) = start_spec(v, id, t0);
    lemma_row_steps(v.rows, id, k, t1);
    assert(id_at(v1.rows, k, id));
    lemma_row_steps(v1.rows, id, k, t1);
    lemma_row_steps(v1.rows, id, k, t2);
    assert(locked(locked(v.rows, id, true), id, false) =~= locked(v.rows, id, false));
}

/// A resolution that delivers bytes never moves a visit time backwards, and
/// leaves the object's row visited no earlier than `now`.
pub proof fn lemma_deliver_visits(v: ResolverView, id: InodeID, bytes: Seq<u8>, now: i64)
    ensures
        ({
            let (v1, a1) = start_spec(v, id, now);
            a1 is Deliver ==> forall|k: int|
                0 <= k < v.rows.len() ==> {
                    &&& #[trigger] v1.rows[k].last_visited_at >= v.rows[k].last_visited_at
                    &&& v.rows[k].id == id ==> v1.rows[k].last_visited_at >= now
                }
        }),
        ({
            let (v2, a2) = settle_spec(v, id, bytes, now);
            forall|k: int|
                0 <= k < v.rows.len() ==> {
                    &&& #[trigger] v2.rows[k].last_visited_at >= v.rows[k].last_visited_at
                    &&& v.rows[k].id == id ==> v2.rows[k].last_visited_at >= now
                }
        }),
{
}

/// Resolves inodes to their bytes: from the local cache, else from a peer,
/// else from the origin, with at most one fetch in flight for each inode.
pub struct CacheResolver {
    catalog: Rocksdb,
    cache: HashMap<InodeID, Vec<u8>>,
}

impl View for CacheResolver {
    type V = ResolverView;

    closed spec fn view(&self) -> ResolverView {
        ResolverView { rows: self.catalog@, cache: self.cache@.map_values(|b: Vec<u8>| b@) }
    }
}

impl CacheResolver {
    pub open spec fn wf(&self) -> bool {
        rows_wf(self@.rows)
    }

    pub fn new(catalog: Rocksdb) -> (r: CacheResolver)
        requires
            catalog.wf(),
        ensures
            r.wf(),
            r@.rows == catalog@,
            r@.cache == Map::<InodeID, Seq<u8>>::empty(),
    {
        let r = CacheResolver { catalog, cache: HashMap::new() };
        assert(r@.cache =~= Map::<InodeID, Seq<u8>>::empty());
        r
    }

    pub fn catalog(&self) -> (r: &Rocksdb)
        ensures
            r@ == self@.rows,
            self.wf() ==> r.wf(),
    {
        &self.catalog
    }

    /// Marks inode `id` visited at `now`.
    pub fn touch(&mut self, id: InodeID, now: i64)
        requires
            old(self).wf(),
        ensures
            final(self).wf(),
            final(self)@.rows == touched(old(self)@.rows, id, now),
            final(self)@.cache == old(self)@.cache,
    {
        self.catalog.touch(id, now);
    }

    /// Adds a catalog row; see `Rocksdb::create`.
    pub fn create(&mut self, inode: Inode) -> (r: Result<InodeID, CatalogError>)
        requires
            old(self).wf(),
        ensures
            final(self).wf(),
            (final(self)@.rows, r) == create_result(old(self)@.rows, inode),
            final(self)@.cache == old(self)@.cache,
    {
        self.catalog.create(inode)
    }

    /// Resolves inode `id`: starts a resolution, or starts it again after a
    /// wait.
    pub fn resolve(&mut self, id: InodeID, now: i64) -> (r: Action)
        requires
            old(self).wf(),
        ensures
            final(self).wf(),
            (final(self)@, r@) == start_spec(old(self)@, id, now),
    {
        let ghost v0 = self@;
        let row = match self.catalog.get(id) {
            None => {
                return Action::Fail(ResolveError::NotFound);
            },
            Some(row) => row,
        };
        proof {
            let k = choose|k: int| #[trigger] id_at(v0.rows, k, id) && v0.rows[k] == row;
            lemma_row_of(v0.rows, id, k);
        }
        if matches!(row.kind_type, KindType::Directory) {
            return Action::Fail(ResolveError::IsDirectory);
        }
        let cached: Option<Vec<u8>> = match self.cache.get(&id) {
            Some(b) => Some(b.clone()),
            None => None,
        };
        match cached {
            Some(bytes) => {
                assert(bytes@ =~= v0.cache[id]);
                self.catalog.touch(id, now);
                Action::Deliver(bytes)
            },
            None => match self.catalog.try_lock(id) {
                LockOutcome::Acquired => Action::QueryPeers,
                LockOutcome::AlreadyLocked => Action::Wait,
                LockOutcome::NotFound => Action::Fail(ResolveError::NotFound),
            },
        }
    }

    /// The row of inode `id` if a fetch of it is in flight.
    fn fetching_row(&self, id: InodeID) -> (r: Option<Inode>)
        requires
            self.wf(),
        ensures
            r is Some <==> holds_fetch(self@.rows, id),
            r matches Some(x) ==> x == row_of(self@.rows, id),
    {
        match self.catalog.get(id) {
            None => None,
            Some(row) => {
                proof {
                    let k = choose|k: int| #[trigger] id_at(self@.rows, k, id) && self@.rows[k] == row;
                    lemma_row_of(self@.rows, id, k);
                }
                if row.lock && !matches!(row.kind_type, KindType::Directory) {
                    Some(row)
                } else {
                    None
                }
            },
        }
    }

    /// Puts bytes read back from the local cache storage into the cache, for
    /// a file that has none cached yet. Reports whether it did.
    pub fn restore(&mut self, id: InodeID, bytes: Vec<u8>) -> (r: bool)
        requires
            old(self).wf(),
        ensures
            final(self).wf(),
            r == (has_id(old(self)@.rows, id) && row_of(old(self)@.rows, id).kind_type
                != KindType::Directory && !old(self)@.cache.contains_key(id)),
            final(self)@.rows == old(self)@.rows,
            final(self)@.cache == if r {
                old(self)@.cache.insert(id, bytes@)
            } else {
                old(self)@.cache
            },
    {
        let ghost v0 = self@;
        let row = match self.catalog.get(id) {
            None => {
                return false;
            },
            Some(row) => row,
        };
        proof {
            let k = choose|k: int| #[trigger] id_at(v0.rows, k, id) && v0.rows[k] == row;
            lemma_row_of(v0.rows, id, k);
        }
        if matches!(row.kind_type, KindType::Directory) || self.cache.contains_key(&id) {
            return false;
        }
        let ghost b = bytes@;
        self.cache.insert(id, bytes);
        assert(self@.cache =~= v0.cache.insert(id, b));
        true
    }

    fn settle(&mut self, id: InodeID, bytes: Vec<u8>, now: i64) -> (r: Action)
        requires
            old(self).wf(),
        ensures
            final(self).wf(),
            (final(self)@, r@) == settle_spec(old(self)@, id, bytes@, now),
    {
        let ghost v0 = self@;
        self.catalog.unlock(id);
        self.catalog.touch(id, now);
        let out = bytes.clone();
        assert(out@ =~= bytes@);
        self.cache.insert(id, bytes);
        assert(self@.cache =~= v0.cache.insert(id, out@));
        Action::Deliver(out)
    }

    /// Hands in the peers' answer to a `QueryPeers` action.
    pub fn on_peer(&mut self, id: InodeID, reply: Option<Vec<u8>>, now: i64) -> (r: Action)
        requires
            old(self).wf(),
        ensures
            final(self).wf(),
            (final(self)@, r@) == peer_spec(old(self)@, id, reply_view(reply), now),
    {
        let row = match self.fetching_row(id) {
            None => {
                return Action::Fail(ResolveError::NotLockHolder);
            },
            Some(row) => row,
        };
        match reply {
            Some(bytes) => self.settle(id, bytes, now),
            None => match ProtocolPath::parse(row.source.as_str()) {
                Ok(pp) => Action::FetchOrigin(row.store_type, pp),
                Err(_) => {
                    self.catalog.unlock(id);
                    Action::Fail(ResolveError::InvalidSource)
                },
            },
        }
    }

    /// Hands in the origin's answer to a `FetchOrigin` action.
    pub fn on_origin(&mut self, id: InodeID, reply: Result<Vec<u8>, Error>, now: i64) -> (r: Action)
        requires
            old(self).wf(),
        ensures
            final(self).wf(),
            (final(self)@, r@) == origin_spec(old(self)@, id, origin_view(reply), now),
    {
        if self.fetching_row(id).is_none() {
            return Action::Fail(ResolveError::NotLockHolder);
        }
        match reply {
            Ok(bytes) => self.settle(id, bytes, now),
            Err(_) => {
                self.catalog.unlock(id);
                Action::Fail(ResolveError::OriginUnavailable)
            },
        }
    }
}

} // verus!
