use mantafs::error::Error;
use mantafs::filesystem::{entry_reply, fs_error, slice_range, FsError, Mantafs, ReadOutcome};
use mantafs::resolver::{Action, CacheResolver, ResolveError};
use mantafs::rocksdb::Rocksdb;
use mantafs::store::{Inode, KindType, StoreType, ROOT_ID};
use mantafs::util::{gen_inode, ProtocolPath};

fn row(id: u64, name: &str, parent: u64, kind: KindType, size: u64) -> Inode {
    Inode {
        id,
        name: name.to_string(),
        path: format!("/{}", name),
        source: format!("hf://org/{}:main", name),
        size,
        parent_id: parent,
        store_type: StoreType::HF,
        kind_type: kind,
        created_at: 10,
        updated_at: 20,
        last_visited_at: 30,
        lock: false,
    }
}

fn mounted() -> Mantafs {
    let mut fs = Mantafs::new(CacheResolver::new(Rocksdb::new()));
    fs.create(row(ROOT_ID, "", ROOT_ID, KindType::Directory, 0)).unwrap();
    fs
}

fn data(o: ReadOutcome) -> Vec<u8> {
    match o {
        ReadOutcome::Data(d) => d,
        other => panic!("expected data, got {:?}", other),
    }
}

fn delivered(a: Action) -> Vec<u8> {
    match a {
        Action::Deliver(b) => b,
        other => panic!("expected bytes, got {:?}", other),
    }
}

/// An origin that serves one object and records every request.
struct FakeOrigin {
    bytes: Vec<u8>,
    calls: Vec<(StoreType, String, String, String)>,
}

impl FakeOrigin {
    fn fetch(&mut self, store_type: StoreType, pp: &ProtocolPath) -> Result<Vec<u8>, Error> {
        self.calls.push((store_type, pp.scheme.clone(), pp.path.clone(), pp.version.clone()));
        Ok(self.bytes.clone())
    }
}

/// Runs the holder's part of a fetch: no peer has the object, the origin is
/// asked.
fn fetch_as_holder(fs: &mut Mantafs, id: u64, origin: &mut FakeOrigin, now: i64) -> Vec<u8> {
    let reply = match fs.on_peer(id, None, now) {
        Action::FetchOrigin(st, pp) => origin.fetch(st, &pp),
        other => panic!("expected an origin fetch, got {:?}", other),
    };
    delivered(fs.on_origin(id, reply, now + 1))
}

#[test]
fn end_to_end_lookup_create_read() {
    let mut fs = Mantafs::new(CacheResolver::new(Rocksdb::new()));
    assert_eq!(fs.lookup(ROOT_ID, "model.bin", 40), Err(FsError::NoEntry));

    let raw = "hf://org/model:main";
    let id = ProtocolPath::parse(raw).unwrap().inode_id();
    assert_eq!(id, gen_inode(raw));
    let mut inode = row(id, "model.bin", ROOT_ID, KindType::File, 5);
    inode.source = raw.to_string();
    assert_eq!(fs.create(inode), Ok(id));
    let attr = fs.lookup(ROOT_ID, "model.bin", 50).unwrap();
    assert_eq!(attr.ino, id);
    assert_eq!(attr.size, 5);

    let mut origin = FakeOrigin { bytes: vec![1, 2, 3, 4, 5], calls: Vec::new() };
    // Miss, lock taken, no peer has it, the origin delivers.
    match fs.read(id, 0, 100, 60) {
        ReadOutcome::Pending(Action::QueryPeers) => {}
        other => panic!("unexpected {:?}", other),
    }
    assert!(fs.resolver().catalog().get(id).unwrap().lock);
    let bytes = fetch_as_holder(&mut fs, id, &mut origin, 61);
    assert_eq!(bytes, vec![1, 2, 3, 4, 5]);
    assert_eq!(
        origin.calls,
        vec![(StoreType::HF, "hf".to_string(), "org/model".to_string(), "main".to_string())]
    );
    assert_eq!(fs.read_delivered(id, &bytes, 1, 3), Ok(vec![2, 3, 4]));
    assert!(!fs.resolver().catalog().get(id).unwrap().lock);

    // The second read is served from the local cache: no new fetch.
    assert_eq!(data(fs.read(id, 0, 100, 70)), vec![1, 2, 3, 4, 5]);
    assert_eq!(origin.calls.len(), 1);
    assert_eq!(fs.resolver().catalog().get(id).unwrap().last_visited_at, 70);
}

#[test]
fn two_readers_fetch_once() {
    let mut fs = mounted();
    let id = gen_inode("hf://org/model:main");
    fs.create(row(id, "model", ROOT_ID, KindType::File, 3)).unwrap();
    let mut origin = FakeOrigin { bytes: vec![7, 8, 9], calls: Vec::new() };

    let first = fs.read(id, 0, 10, 100);
    let second = fs.read(id, 0, 10, 100);
    assert!(matches!(first, ReadOutcome::Pending(Action::QueryPeers)));
    assert!(matches!(second, ReadOutcome::Pending(Action::Wait)));

    let a = fetch_as_holder(&mut fs, id, &mut origin, 101);
    let a = fs.read_delivered(id, &a, 0, 10).unwrap();
    // The waiter starts again and finds the bytes cached.
    let b = data(fs.read(id, 0, 10, 103));
    assert_eq!(a, vec![7, 8, 9]);
    assert_eq!(a, b);
    assert_eq!(origin.calls.len(), 1);
    assert!(!fs.resolver().catalog().get(id).unwrap().lock);
}

#[test]
fn directories_are_not_fetched() {
    let mut fs = mounted();
    fs.create(row(9, "sub", ROOT_ID, KindType::Directory, 0)).unwrap();
    assert!(matches!(fs.read(9, 0, 2, 1), ReadOutcome::Fail(FsError::IsDirectory)));
    assert!(!fs.resolver().catalog().get(9).unwrap().lock);
    assert!(matches!(
        fs.on_origin(9, Ok(vec![1]), 2),
        Action::Fail(ResolveError::NotLockHolder)
    ));
}

#[test]
fn answers_without_the_lock_are_dropped() {
    let mut fs = mounted();
    fs.create(row(9, "weights", ROOT_ID, KindType::File, 2)).unwrap();
    assert!(matches!(
        fs.on_peer(9, Some(vec![1, 2]), 1),
        Action::Fail(ResolveError::NotLockHolder)
    ));
    assert!(matches!(
        fs.on_origin(9, Ok(vec![1, 2]), 1),
        Action::Fail(ResolveError::NotLockHolder)
    ));
    assert!(matches!(
        fs.on_origin(42, Ok(vec![1, 2]), 1),
        Action::Fail(ResolveError::NotLockHolder)
    ));
    // Nothing was cached: a read still has to fetch.
    assert!(matches!(fs.read(9, 0, 2, 2), ReadOutcome::Pending(Action::QueryPeers)));
}

#[test]
fn unparsable_source_ends_the_fetch() {
    let mut fs = mounted();
    let mut inode = row(9, "weights", ROOT_ID, KindType::File, 2);
    inode.source = "no-separator".to_string();
    fs.create(inode).unwrap();
    assert!(matches!(fs.read(9, 0, 2, 1), ReadOutcome::Pending(Action::QueryPeers)));
    assert!(matches!(fs.on_peer(9, None, 2), Action::Fail(ResolveError::InvalidSource)));
    assert!(!fs.resolver().catalog().get(9).unwrap().lock);
}

#[test]
fn restored_bytes_serve_reads() {
    let mut resolver = CacheResolver::new(Rocksdb::new());
    resolver.create(row(9, "weights", ROOT_ID, KindType::File, 2)).unwrap();
    resolver.create(row(8, "sub", ROOT_ID, KindType::Directory, 0)).unwrap();
    assert!(resolver.restore(9, vec![5, 6]));
    assert!(!resolver.restore(9, vec![7, 7]));
    assert!(!resolver.restore(8, vec![1]));
    assert!(!resolver.restore(77, vec![1]));
    let mut fs = Mantafs::new(resolver);
    assert_eq!(data(fs.read(9, 0, 10, 1)), vec![5, 6]);
}

#[test]
fn peer_hit_skips_origin() {
    let mut fs = mounted();
    fs.create(row(9, "weights", ROOT_ID, KindType::File, 2)).unwrap();
    assert!(matches!(fs.read(9, 0, 2, 1), ReadOutcome::Pending(Action::QueryPeers)));
    assert_eq!(delivered(fs.on_peer(9, Some(vec![4, 2]), 2)), vec![4, 2]);
    assert!(!fs.resolver().catalog().get(9).unwrap().lock);
    assert_eq!(data(fs.read(9, 1, 5, 3)), vec![2]);
}

#[test]
fn origin_failure_releases_lock() {
    let mut fs = mounted();
    fs.create(row(9, "weights", ROOT_ID, KindType::File, 2)).unwrap();
    assert!(matches!(fs.read(9, 0, 2, 1), ReadOutcome::Pending(Action::QueryPeers)));
    assert!(matches!(fs.on_peer(9, None, 2), Action::FetchOrigin(..)));
    let failed = fs.on_origin(9, Err(Error::new("timeout".to_string())), 3);
    assert!(matches!(failed, Action::Fail(ResolveError::OriginUnavailable)));
    assert_eq!(fs_error(ResolveError::OriginUnavailable), FsError::Io);
    assert!(!fs.resolver().catalog().get(9).unwrap().lock);
    // Nothing was cached: the next read fetches again.
    assert!(matches!(fs.read(9, 0, 2, 4), ReadOutcome::Pending(Action::QueryPeers)));
}

#[test]
fn read_unknown_inode() {
    let mut fs = mounted();
    assert!(matches!(fs.read(77, 0, 2, 1), ReadOutcome::Fail(FsError::NoEntry)));
    assert_eq!(fs.read_delivered(77, &vec![1], 0, 1), Err(FsError::NoEntry));
}

#[test]
fn read_past_end_is_empty() {
    let mut fs = mounted();
    fs.create(row(9, "weights", ROOT_ID, KindType::File, 3)).unwrap();
    fs.read(9, 0, 2, 1);
    fs.on_origin(9, Ok(vec![1, 2, 3]), 2);
    assert_eq!(data(fs.read(9, 3, 10, 3)), Vec::<u8>::new());
    assert_eq!(data(fs.read(9, 50, 10, 4)), Vec::<u8>::new());
}

#[test]
fn slices_are_clamped() {
    let b = vec![0, 1, 2, 3, 4, 5];
    assert_eq!(slice_range(&b, 2, 3, 6), vec![2, 3, 4]);
    assert_eq!(slice_range(&b, 4, 10, 6), vec![4, 5]);
    assert_eq!(slice_range(&b, 1, 10, 3), vec![1, 2]);
    assert_eq!(slice_range(&b, 6, 1, 6), Vec::<u8>::new());
    assert_eq!(slice_range(&b, 0, 0, 6), Vec::<u8>::new());
}

#[test]
fn getattr_and_mkdir() {
    let mut fs = mounted();
    fs.create(row(9, "weights", ROOT_ID, KindType::File, 3)).unwrap();
    assert_eq!(fs.getattr(9).unwrap().size, 3);
    assert_eq!(fs.getattr(10), Err(FsError::NoEntry));
    assert_eq!(fs.mkdir(ROOT_ID, "dir"), Err(FsError::NotSupported));
}

#[test]
fn backend_answers_map_to_replies() {
    let attr = entry_reply(Ok(Some(row(9, "weights", ROOT_ID, KindType::File, 3)))).unwrap();
    assert_eq!(attr.ino, 9);
    assert_eq!(entry_reply(Ok(None)), Err(FsError::NoEntry));
    assert_eq!(entry_reply(Err(Error::new("locked".to_string()))), Err(FsError::Io));
}

#[test]
fn cached_read_visits_row() {
    let mut fs = mounted();
    fs.create(row(9, "weights", ROOT_ID, KindType::File, 3)).unwrap();
    fs.read(9, 0, 2, 1);
    fs.on_origin(9, Ok(vec![1, 2, 3]), 200);
    assert_eq!(fs.resolver().catalog().get(9).unwrap().last_visited_at, 200);
    fs.read(9, 0, 2, 150);
    assert_eq!(fs.resolver().catalog().get(9).unwrap().last_visited_at, 200);
    fs.read(9, 0, 2, 250);
    assert_eq!(fs.resolver().catalog().get(9).unwrap().last_visited_at, 250);
}
