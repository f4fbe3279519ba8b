use vstd::prelude::*;

verus! {

pub type InodeID = u64;

/// The id of the mount's root directory; the root is its own parent.
pub const ROOT_ID: InodeID = 1;

/// The origin scheme an object is fetched from.
#[derive(Debug, Clone, Copy, PartialEq, Eq)]
pub enum StoreType {
    HF,
    MS,
    S3,
    OSS,
    GCS,
}

#[derive(Debug, Clone, Copy, PartialEq, Eq)]
pub enum KindType {
    Directory,
    File,
    Symlink,
}

/// One catalog row. `path` is the entry's path in the mounted tree; `source`
/// is the remote object's protocol path, `scheme://path[:version]`, which the
/// origin is asked for. Timestamps are seconds since the Unix epoch.
#[derive(Debug)]
pub struct Inode {
    pub id: InodeID,
    pub name: String,
    pub path: String,
    pub source: String,
    pub size: u64,
    pub parent_id: u64,
    pub store_type: StoreType,
    pub kind_type: KindType,
    pub created_at: i64,
    pub updated_at: i64,
    pub last_visited_at: i64,
    pub lock: bool,
}

/// File attributes handed to the kernel for one inode.
#[derive(Debug, Clone, Copy, PartialEq, Eq)]
pub struct Attr {
    pub ino: u64,
    pub size: u64,
    pub blocks: u64,
    pub atime: i64,
    pub mtime: i64,
    pub ctime: i64,
    pub crtime: i64,
    pub kind: KindType,
    pub perm: u16,
    pub nlink: u32,
    pub uid: u32,
    pub gid: u32,
    pub rdev: u32,
    pub blksize: u32,
    pub flags: u32,
}

/// The fixed mode of every entry: read, write and execute for all.
pub const FILE_PERM: u16 = 0o777;

pub const OWNER_ID: u32 = 1000;

pub const BLOCK_SIZE: u32 = 4096;

pub open spec fn attr_of(i: Inode) -> Attr {
    Attr {
        ino: i.id,
        size: i.size,
        blocks: 0,
        atime: i.last_visited_at,
        mtime: i.updated_at,
        ctime: i.updated_at,
        crtime: i.created_at,
        kind: i.kind_type,
        perm: FILE_PERM,
        nlink: 0,
        uid: OWNER_ID,
        gid: OWNER_ID,
        rdev: 0,
        blksize: BLOCK_SIZE,
        flags: 0,
    }
}

/// The row `r` with its lock flag set to `b`.
pub open spec fn with_lock(r: Inode, b: bool) -> Inode {
    Inode { lock: b, ..r }
}

/// The row `r` visited at `now`: the visit time never moves backwards.
pub open spec fn visited(r: Inode, now: i64) -> Inode {
    Inode { last_visited_at: if now > r.last_visited_at { now } else { r.last_visited_at }, ..r }
}

impl Inode {
    /// A copy of this row.
    pub fn copied(&self) -> (r: Inode)
        ensures
            r == *self,
    {
        Inode {
            id: self.id,
            name: self.name.clone(),
            path: self.path.clone(),
            source: self.source.clone(),
            size: self.size,
            parent_id: self.parent_id,
            store_type: self.store_type,
            kind_type: self.kind_type,
            created_at: self.created_at,
            updated_at: self.updated_at,
            last_visited_at: self.last_visited_at,
            lock: self.lock,
        }
    }

    pub fn convert_to_fileAttr(&self) -> (r: Attr)
        ensures
            r == attr_of(*self),
    {
        Attr {
            ino: self.id,
            size: self.size,
            blocks: 0,
            atime: self.last_visited_at,
            mtime: self.updated_at,
            ctime: self.updated_at,
            crtime: self.created_at,
            kind: self.kind_type,
            perm: FILE_PERM,
            nlink: 0,
            uid: OWNER_ID,
            gid: OWNER_ID,
            rdev: 0,
            blksize: BLOCK_SIZE,
            flags: 0,
        }
    }
}

} // verus!
