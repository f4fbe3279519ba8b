use mantafs::error::{Error, ErrorKind};
use mantafs::rocksdb::{CatalogError, LockOutcome, Rocksdb};
use mantafs::store::{Inode, KindType, StoreType, ROOT_ID};

fn row(id: u64, name: &str, parent: u64, kind: KindType, size: u64) -> Inode {
    Inode {
        id,
        name: name.to_string(),
        path: format!("/{}", name),
        source: format!("hf://org/{}:main", name),
        size,
        parent_id: parent,
        store_type: StoreType::HF,
        kind_type: kind,
        created_at: 100,
        updated_at: 200,
        last_visited_at: 300,
        lock: false,
    }
}

fn with_root() -> Rocksdb {
    let mut db = Rocksdb::new();
    assert_eq!(db.create(row(ROOT_ID, "", ROOT_ID, KindType::Directory, 0)), Ok(ROOT_ID));
    db
}

#[test]
fn empty_catalog_finds_nothing() {
    let db = Rocksdb::new();
    assert_eq!(db.len(), 0);
    assert!(db.get(ROOT_ID).is_none());
    assert!(db.lookup(ROOT_ID, "model.bin").is_none());
}

#[test]
fn create_then_get_and_lookup() {
    let mut db = Rocksdb::new();
    assert_eq!(db.create(row(ROOT_ID, "", ROOT_ID, KindType::Directory, 0)), Ok(ROOT_ID));
    assert_eq!(db.create(row(7, "model.bin", ROOT_ID, KindType::File, 42)), Ok(7));
    let got = db.get(7).unwrap();
    assert_eq!(got.name, "model.bin");
    assert_eq!(got.size, 42);
    let found = db.lookup(ROOT_ID, "model.bin").unwrap();
    assert_eq!(found.id, 7);
    assert!(db.lookup(ROOT_ID, "other.bin").is_none());
    assert!(db.lookup(7, "model.bin").is_none());
}

#[test]
fn create_twice_keeps_one_row() {
    let mut db = with_root();
    assert_eq!(db.create(row(7, "model.bin", ROOT_ID, KindType::File, 42)), Ok(7));
    assert_eq!(
        db.create(row(7, "model.bin", ROOT_ID, KindType::File, 42)),
        Err(CatalogError::AlreadyExists)
    );
    assert_eq!(db.len(), 2);
}

#[test]
fn create_same_entry_other_id_is_refused() {
    let mut db = with_root();
    assert_eq!(db.create(row(7, "model.bin", ROOT_ID, KindType::File, 42)), Ok(7));
    assert_eq!(
        db.create(row(8, "model.bin", ROOT_ID, KindType::File, 42)),
        Err(CatalogError::AlreadyExists)
    );
    assert_eq!(db.len(), 2);
    assert!(db.get(8).is_none());
}

#[test]
fn create_under_root_on_empty_catalog() {
    let mut db = Rocksdb::new();
    assert_eq!(db.create(row(7, "model.bin", ROOT_ID, KindType::File, 42)), Ok(7));
    assert_eq!(db.lookup(ROOT_ID, "model.bin").unwrap().id, 7);
}

#[test]
fn create_needs_a_parent_directory() {
    let mut db = with_root();
    assert_eq!(db.create(row(7, "model.bin", ROOT_ID, KindType::File, 42)), Ok(7));
    assert_eq!(
        db.create(row(8, "inner", 7, KindType::File, 1)),
        Err(CatalogError::NoParent)
    );
    assert_eq!(
        db.create(row(11, "loose", 12, KindType::File, 1)),
        Err(CatalogError::NoParent)
    );
    assert_eq!(db.create(row(9, "sub", ROOT_ID, KindType::Directory, 0)), Ok(9));
    assert_eq!(db.create(row(10, "inner", 9, KindType::File, 1)), Ok(10));
    assert_eq!(db.len(), 4);
}

#[test]
fn only_the_root_is_its_own_parent() {
    let mut db = Rocksdb::new();
    assert_eq!(
        db.create(row(5, "self", 5, KindType::File, 1)),
        Err(CatalogError::NoParent)
    );
    assert_eq!(
        db.create(row(5, "self", 5, KindType::Directory, 0)),
        Err(CatalogError::NoParent)
    );
    assert_eq!(
        db.create(row(ROOT_ID, "", ROOT_ID, KindType::File, 0)),
        Err(CatalogError::NoParent)
    );
    assert_eq!(
        db.create(row(ROOT_ID, "", 3, KindType::Directory, 0)),
        Err(CatalogError::NoParent)
    );
    assert_eq!(db.len(), 0);
}

#[test]
fn from_rows_clears_stale_locks() {
    let mut dir = row(9, "sub", ROOT_ID, KindType::Directory, 0);
    dir.lock = true;
    let mut file = row(10, "inner", 9, KindType::File, 1);
    file.lock = true;
    let db = Rocksdb::from_rows(&vec![row(ROOT_ID, "", ROOT_ID, KindType::Directory, 0), dir, file])
        .unwrap();
    assert_eq!(db.len(), 3);
    assert!(!db.get(9).unwrap().lock);
    assert!(!db.get(10).unwrap().lock);
    assert_eq!(db.lookup(9, "inner").unwrap().id, 10);
}

#[test]
fn from_rows_refuses_bad_rows() {
    let rows = vec![row(10, "inner", 9, KindType::File, 1), row(9, "sub", ROOT_ID, KindType::Directory, 0)];
    assert!(matches!(Rocksdb::from_rows(&rows), Err(CatalogError::NoParent)));
    let twice = vec![row(7, "a", ROOT_ID, KindType::File, 1), row(7, "b", ROOT_ID, KindType::File, 1)];
    assert!(matches!(Rocksdb::from_rows(&twice), Err(CatalogError::AlreadyExists)));
}

#[test]
fn create_stores_rows_unlocked() {
    let mut db = with_root();
    let mut r = row(7, "model.bin", ROOT_ID, KindType::File, 42);
    r.lock = true;
    assert_eq!(db.create(r), Ok(7));
    assert!(!db.get(7).unwrap().lock);
}

#[test]
fn touch_never_moves_back() {
    let mut db = with_root();
    db.create(row(7, "model.bin", ROOT_ID, KindType::File, 42)).unwrap();
    db.touch(7, 500);
    assert_eq!(db.get(7).unwrap().last_visited_at, 500);
    db.touch(7, 400);
    assert_eq!(db.get(7).unwrap().last_visited_at, 500);
    db.touch(9, 900);
    assert_eq!(db.get(7).unwrap().last_visited_at, 500);
}

#[test]
fn lock_is_taken_once() {
    let mut db = with_root();
    db.create(row(7, "model.bin", ROOT_ID, KindType::File, 42)).unwrap();
    assert_eq!(db.try_lock(7), LockOutcome::Acquired);
    assert!(db.get(7).unwrap().lock);
    assert_eq!(db.try_lock(7), LockOutcome::AlreadyLocked);
    db.unlock(7);
    assert!(!db.get(7).unwrap().lock);
    db.unlock(7);
    assert!(!db.get(7).unwrap().lock);
    assert_eq!(db.try_lock(7), LockOutcome::Acquired);
    assert_eq!(db.try_lock(8), LockOutcome::NotFound);
}

#[test]
fn attributes_of_a_row() {
    let attr = row(7, "model.bin", ROOT_ID, KindType::File, 42).convert_to_fileAttr();
    assert_eq!(attr.ino, 7);
    assert_eq!(attr.size, 42);
    assert_eq!(attr.atime, 300);
    assert_eq!(attr.mtime, 200);
    assert_eq!(attr.ctime, 200);
    assert_eq!(attr.crtime, 100);
    assert_eq!(attr.kind, KindType::File);
    assert_eq!(attr.perm, 0o777);
    assert_eq!(attr.uid, 1000);
    assert_eq!(attr.blksize, 4096);
}

#[test]
fn error_keeps_its_message() {
    let e = Error::new("disk full".to_string());
    assert_eq!(e.description(), "disk full");
    assert_eq!(e, Error::new("disk full".to_string()));
    assert_ne!(ErrorKind::NotFound, ErrorKind::IOError);
}
