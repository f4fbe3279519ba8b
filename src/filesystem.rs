use vstd::prelude::*;

use crate::error::Error;
use crate::resolver::{
    origin_spec, origin_view, peer_spec, reply_view, start_spec, Action, ActionView, CacheResolver,
    ResolveError, ResolverView,
};
use crate::rocksdb::{
    create_result, entry_at, has_entry, has_id, id_at, rows_wf, touched, CatalogError,
};
use crate::store::{attr_of, Attr, Inode, InodeID};

verus! {

/// How a filesystem request failed, as the kernel is told.
#[derive(Debug, Clone, Copy, PartialEq, Eq)]
pub enum FsError {
    /// No such entry.
    NoEntry,
    /// A transient failure of the catalog, a peer or the origin.
    Io,
    /// The operation is never supported.
    NotSupported,
    /// A directory was read as a file.
    IsDirectory,
}

/// The part of an object's bytes that a read of `size` bytes at `offset`
/// returns: clamped to the object's size, and empty from its end on.
pub open spec fn read_slice(b: Seq<u8>, offset: int, size: int, object_size: int) -> Seq<u8> {
    let end = if object_size < b.len() { object_size } else { b.len() as int };
    if offset >= end {
        Seq::empty()
    } else {
        b.subrange(offset, if offset + size < end { offset + size } else { end })
    }
}

/// A read that starts at or past the object's end returns no bytes.
pub proof fn lemma_read_past_end(b: Seq<u8>, offset: int, size: int, object_size: int)
    requires
        offset >= object_size,
    ensures
        read_slice(b, offset, size, object_size) == Seq::<u8>::empty(),
{
}

/// The size recorded in the catalog row of inode `id`.
pub open spec fn size_of(rows: Seq<Inode>, id: InodeID) -> int {
    rows[choose|k: int| id_at(rows, k, id)].size as int
}

/// The attributes of a catalog answer: a missing row is "no such entry", a
/// catalog failure an I/O error.
pub open spec fn entry_reply_spec(result: Result<Option<Inode>, Error>) -> Result<Attr, FsError> {
    match result {
        Ok(Some(i)) => Ok(attr_of(i)),
        Ok(None) => Err(FsError::NoEntry),
        Err(_) => Err(FsError::Io),
    }
}

pub open spec fn fs_error_spec(e: ResolveError) -> FsError {
    match e {
        ResolveError::NotFound => FsError::NoEntry,
        ResolveError::IsDirectory => FsError::IsDirectory,
        ResolveError::OriginUnavailable => FsError::Io,
        ResolveError::InvalidSource => FsError::Io,
        ResolveError::NotLockHolder => FsError::Io,
    }
}

/// The kernel's error for a failed resolution.
pub fn fs_error(e: ResolveError) -> (r: FsError)
    ensures
        r == fs_error_spec(e),
{
    match e {
        ResolveError::NotFound => FsError::NoEntry,
        ResolveError::IsDirectory => FsError::IsDirectory,
        ResolveError::OriginUnavailable => FsError::Io,
        ResolveError::InvalidSource => FsError::Io,
        ResolveError::NotLockHolder => FsError::Io,
    }
}

proof fn lemma_size_of(rows: Seq<Inode>, id: InodeID, k: int)
    requires
        rows_wf(rows),
        id_at(rows, k, id),
    ensures
        size_of(rows, id) == rows[k].size,
{
    let j = choose|j: int| id_at(rows, j, id);
    assert(id_at(rows, j, id));
    if j != k {
        assert(rows[j].id != rows[k].id);
    }
}

/// Maps a catalog backend's answer for one inode to the kernel's reply.
pub fn entry_reply(result: Result<Option<Inode>, Error>) -> (r: Result<Attr, FsError>)
    ensures
        r == entry_reply_spec(result),
{
    match result {
        Ok(Some(inode)) => Ok(inode.convert_to_fileAttr()),
        Ok(None) => Err(FsError::NoEntry),
        Err(_) => Err(FsError::Io),
    }
}

/// Copies the part of `bytes` that a read of `size` bytes at `offset` returns.
pub fn slice_range(bytes: &Vec<u8>, offset: u64, size: u32, object_size: u64) -> (r: Vec<u8>)
    ensures
        r@ == read_slice(bytes@, offset as int, size as int, object_size as int),
        offset >= object_size ==> r@.len() == 0,
{
    let n: usize = bytes.len();
    let end: usize = if object_size < n as u64 {
        object_size as usize
    } else {
        n
    };
    let mut out: Vec<u8> = Vec::new();
    if offset >= end as u64 {
        return out;
    }
    let off: usize = offset as usize;
    let stop: usize = if (end - off) as u64 > size as u64 {
        off + size as usize
    } else {
        end
    };
    let mut i: usize = off;
    while i < stop
        invariant
            off == offset,
            off <= i <= stop,
            stop <= end <= n,
            n == bytes@.len(),
            out@ == bytes@.subrange(off as int, i as int),
        decreases stop - i,
    {
        out.push(bytes[i]);
        assert(out@ =~= bytes@.subrange(off as int, i + 1));
        i = i + 1;
    }
    out
}

/// What a read request comes to.
#[derive(Debug)]
pub enum ReadOutcome {
    /// The bytes of the request.
    Data(Vec<u8>),
    /// The object is being resolved: the caller performs the action and
    /// hands the answer to the resolver.
    Pending(Action),
    Fail(FsError),
}

/// Serves filesystem requests from the catalog and the cache resolver.
pub struct Mantafs {
    resolver: CacheResolver,
}

impl View for Mantafs {
    type V = ResolverView;

    closed spec fn view(&self) -> ResolverView {
        self.resolver@
    }
}

impl Mantafs {
    pub open spec fn wf(&self) -> bool {
        rows_wf(self@.rows)
    }

    pub fn new(resolver: CacheResolver) -> (r: Mantafs)
        requires
            resolver.wf(),
        ensures
            r.wf(),
            r@ == resolver@,
    {
        Mantafs { resolver }
    }

    pub fn resolver(&self) -> (r: &CacheResolver)
        ensures
            r@ == self@,
            self.wf() ==> r.wf(),
    {
        &self.resolver
    }

    /// Hands in the peers' answer for a pending read of inode `id`.
    pub fn on_peer(&mut self, id: InodeID, reply: Option<Vec<u8>>, now: i64) -> (r: Action)
        requires
            old(self).wf(),
        ensures
            final(self).wf(),
            (final(self)@, r@) == peer_spec(old(self)@, id, reply_view(reply), now),
    {
        self.resolver.on_peer(id, reply, now)
    }

    /// Hands in the origin's answer for a pending read of inode `id`.
    pub fn on_origin(&mut self, id: InodeID, reply: Result<Vec<u8>, Error>, now: i64) -> (r: Action)
        requires
            old(self).wf(),
        ensures
            final(self).wf(),
            (final(self)@, r@) == origin_spec(old(self)@, id, origin_view(reply), now),
    {
        self.resolver.on_origin(id, reply, now)
    }

    /// Adds a catalog row; see `Rocksdb::create`.
    pub fn create(&mut self, inode: Inode) -> (r: Result<InodeID, CatalogError>)
        requires
            old(self).wf(),
        ensures
            final(self).wf(),
            (final(self)@.rows, r) == create_result(old(self)@.rows, inode),
            final(self)@.cache == old(self)@.cache,
    {
        self.resolver.create(inode)
    }

    /// The entry `name` in directory `parent`; a found entry is visited at
    /// `now`.
    pub fn lookup(&mut self, parent: InodeID, name: &str, now: i64) -> (r: Result<Attr, FsError>)
        requires
            old(self).wf(),
        ensures
            final(self).wf(),
            !has_entry(old(self)@.rows, parent, name@) ==> r == Err::<Attr, FsError>(
                FsError::NoEntry,
            ) && final(self)@ == old(self)@,
            has_entry(old(self)@.rows, parent, name@) ==> exists|k: int|
                #[trigger] entry_at(old(self)@.rows, k, parent, name@) && r == Ok::<Attr, FsError>(
                    attr_of(old(self)@.rows[k]),
                ) && final(self)@ == (ResolverView {
                    rows: touched(old(self)@.rows, old(self)@.rows[k].id, now),
                    cache: old(self)@.cache,
                }),
    {
        match self.resolver.catalog().lookup(parent, name) {
            None => Err(FsError::NoEntry),
            Some(inode) => {
                let attr = inode.convert_to_fileAttr();
                self.resolver.touch(inode.id, now);
                Ok(attr)
            },
        }
    }

    /// The attributes of inode `id`.
    pub fn getattr(&self, id: InodeID) -> (r: Result<Attr, FsError>)
        requires
            self.wf(),
        ensures
            !has_id(self@.rows, id) ==> r == Err::<Attr, FsError>(FsError::NoEntry),
            has_id(self@.rows, id) ==> exists|k: int|
                #[trigger] id_at(self@.rows, k, id) && r == Ok::<Attr, FsError>(
                    attr_of(self@.rows[k]),
                ),
    {
        entry_reply(Ok(self.resolver.catalog().get(id)))
    }

    /// Directories cannot be made: no origin scheme supports it.
    pub fn mkdir(&self, parent: InodeID, name: &str) -> (r: Result<Attr, FsError>)
        ensures
            r == Err::<Attr, FsError>(FsError::NotSupported),
    {
        Err(FsError::NotSupported)
    }

    /// Reads `size` bytes at `offset` of inode `id`: cached bytes are sliced at
    /// once; otherwise the resolution's next action is handed out.
    pub fn read(&mut self, id: InodeID, offset: u64, size: u32, now: i64) -> (r: ReadOutcome)
        requires
            old(self).wf(),
        ensures
            final(self).wf(),
            final(self)@ == start_spec(old(self)@, id, now).0,
            match start_spec(old(self)@, id, now).1 {
                ActionView::Deliver(b) => r matches ReadOutcome::Data(d) && d@ == read_slice(
                    b,
                    offset as int,
                    size as int,
                    size_of(old(self)@.rows, id),
                ),
                ActionView::Fail(e) => r matches ReadOutcome::Fail(fe) && fe == fs_error_spec(e),
                a => r matches ReadOutcome::Pending(p) && p@ == a,
            },
    {
        let object_size = match self.resolver.catalog().get(id) {
            Some(inode) => inode.size,
            None => return ReadOutcome::Fail(FsError::NoEntry),
        };
        proof {
            let k = choose|k: int|
                #[trigger] id_at(self@.rows, k, id) && self@.rows[k].size == object_size;
            lemma_size_of(self@.rows, id, k);
        }
        match self.resolver.resolve(id, now) {
            Action::Deliver(b) => ReadOutcome::Data(slice_range(&b, offset, size, object_size)),
            Action::Fail(e) => ReadOutcome::Fail(fs_error(e)),
            other => ReadOutcome::Pending(other),
        }
    }

    /// The part of delivered `bytes` that a read of `size` bytes at `offset` of
    /// inode `id` returns.
    pub fn read_delivered(&self, id: InodeID, bytes: &Vec<u8>, offset: u64, size: u32) -> (r:
        Result<Vec<u8>, FsError>)
        requires
            self.wf(),
        ensures
            !has_id(self@.rows, id) ==> r matches Err(FsError::NoEntry),
            has_id(self@.rows, id) ==> (r matches Ok(d) && d@ == read_slice(
                bytes@,
                offset as int,
                size as int,
                size_of(self@.rows, id),
            )),
    {
        match self.resolver.catalog().get(id) {
            Some(inode) => {
                proof {
                    let k = choose|k: int|
                        #[trigger] id_at(self@.rows, k, id) && self@.rows[k] == inode;
                    lemma_size_of(self@.rows, id, k);
                }
                Ok(slice_range(bytes, offset, size, inode.size))
            },
            None => Err(FsError::NoEntry),
        }
    }
}

} // verus!
