//! The content-addressed object store: each chunk is kept once, in a file
//! whose path is derived from its digest.
use std::sync::Arc;
use vstd::prelude::*;

use crate::chunk::Chunk;
use crate::hash::{hex_encode, hex_of};
use crate::path::{is_under, join, join_spec, splits_into};
use crate::storage::{path_check, AtomicWrite, Storage, StorageError, WriteStep, WriteView};

verus! {

/// Why an object store operation failed.
#[derive(Debug)]
pub enum CasError {
    /// The storage layer refused the path or reported an error.
    StorageErr(StorageError),
    /// No object is stored under the digest.
    ObjectNotFound,
    /// A failure of no other kind.
    Unknown,
}

impl From<StorageError> for CasError {
    fn from(value: StorageError) -> (r: CasError)
        ensures
            r == CasError::StorageErr(value),
    {
        CasError::StorageErr(value)
    }
}

impl vstd::std_specs::convert::FromSpecImpl<StorageError> for CasError {
    open spec fn obeys_from_spec() -> bool {
        true
    }

    open spec fn from_spec(v: StorageError) -> CasError {
        CasError::StorageErr(v)
    }
}

/// Path of the object for digest `hash` below `root`: two shard directories
/// named by the hex of the digest's first and second bytes, then a file named
/// by the hex of the whole digest.
pub open spec fn object_path_spec(root: Seq<char>, hash: Seq<u8>) -> Seq<char> {
    join_spec(
        join_spec(
            join_spec(Storage::objects_dir_spec(root), hex_of(hash.subrange(0, 1))),
            hex_of(hash.subrange(1, 2)),
        ),
        hex_of(hash),
    )
}

/// In the files `files`, an object is stored under `hash` below `root`.
pub open spec fn stored(files: Map<Seq<char>, Seq<u8>>, root: Seq<char>, hash: Seq<u8>) -> bool {
    files.contains_key(object_path_spec(root, hash))
}

/// The object store, over a shared storage root.
pub struct Cas {
    pub storage: Arc<Storage>,
}

impl Cas {
    /// An object store over `storage`.
    pub fn new(storage: Storage) -> (r: Cas)
        ensures
            r.storage.root@ == storage.root@,
    {
        Cas { storage: Arc::new(storage) }
    }

    pub fn new_with_storage(storage: Arc<Storage>) -> (r: Cas)
        ensures
            r.storage == storage,
    {
        Cas { storage }
    }

    /// The path at which the object for `hash` is kept.
    pub fn construct_hash_path(&self, hash: &[u8; 32]) -> (r: String)
        ensures
            r@ == object_path_spec(self.storage.root@, hash@),
    {
        let objects_dir = self.storage.objects_dir();
        let first = [hash[0]];
        let second = [hash[1]];
        let shard1 = hex_encode(&first);
        let shard2 = hex_encode(&second);
        let object_name = hex_encode(hash);
        proof {
            assert(first@ =~= hash@.subrange(0, 1));
            assert(second@ =~= hash@.subrange(1, 2));
        }
        let dir1 = join(&objects_dir, shard1.as_str());
        let dir2 = join(&dir1, shard2.as_str());
        join(&dir2, object_name.as_str())
    }

    /// Decides how to store `data` under `hash`, given whether an object is
    /// already stored there (`exists`). An object already present means
    /// success with nothing to write; otherwise the write to perform is
    /// returned. The store trusts that `hash` is the digest of `data`.
    pub fn put_object(&self, hash: &[u8; 32], data: Vec<u8>, exists: bool) -> (r: Result<
        Option<AtomicWrite>,
        CasError,
    >)
        ensures
            exists ==> r matches Ok(None),
            !exists ==> path_check(self.storage.root@, object_path_spec(self.storage.root@, hash@)) is Ok
                ==> r matches Ok(Some(_)),
            !exists ==> path_check(self.storage.root@, object_path_spec(self.storage.root@, hash@)) is Err
                ==> r == Err::<Option<AtomicWrite>, CasError>(CasError::StorageErr(
                    path_check(self.storage.root@, object_path_spec(self.storage.root@, hash@))->Err_0,
                )),
            r matches Ok(Some(w)) ==> {
                &&& w@.wf()
                &&& w@.step == WriteStep::CreateParent
                &&& !w@.failed
                &&& w@.target == object_path_spec(self.storage.root@, hash@)
                &&& w@.data == data@
            },
    {
        if exists {
            return Ok(None);
        }
        let path = self.construct_hash_path(hash);
        proof {
            lemma_object_path_has_file_name(self.storage.root@, hash@);
        }
        match self.storage.atomic_write(path.as_str(), data) {
            Ok(w) => Ok(Some(w)),
            Err(e) => Err(CasError::StorageErr(e)),
        }
    }

    /// The chunk stored under `hash`, from what was found at its path:
    /// `None` when no object is stored there, else the outcome of reading it.
    pub fn get_object(&self, hash: &[u8; 32], found: Option<Result<Vec<u8>, StorageError>>) -> (r:
        Result<Chunk, CasError>)
        ensures
            found is None ==> r == Err::<Chunk, CasError>(CasError::ObjectNotFound),
            found matches Some(Err(e)) ==> r == Err::<Chunk, CasError>(CasError::StorageErr(e)),
            found matches Some(Ok(b)) ==> r matches Ok(c) && c.hash == *hash && c.data@ == b@,
    {
        match found {
            None => Err(CasError::ObjectNotFound),
            Some(Err(e)) => Err(CasError::StorageErr(e)),
            Some(Ok(bytes)) => Ok(Chunk { hash: *hash, data: bytes }),
        }
    }
}

/// The object path of a digest ends in a file name: the hex of the digest.
proof fn lemma_object_path_has_file_name(root: Seq<char>, hash: Seq<u8>)
    requires
        hash.len() == 32,
    ensures
        splits_into(
            object_path_spec(root, hash),
            join_spec(
                join_spec(Storage::objects_dir_spec(root), hex_of(hash.subrange(0, 1))),
                hex_of(hash.subrange(1, 2)),
            ),
            hex_of(hash),
        ),
{
    let name = hex_of(hash);
    assert forall|i: int| 0 <= i < name.len() implies name[i] != '/' by {
        assert(0 <= hash[i / 2] as int / 16 < 16);
        assert(0 <= hash[i / 2] as int % 16 < 16);
    }
    assert(name.len() == 64);
    assert(name != seq!['.']);
}

/// After a put that writes, with every step succeeding, the object is stored
/// under its digest and holds exactly the bytes put, so a second put finds
/// it present and writes nothing.
pub proof fn lemma_put_then_stored(
    root: Seq<char>,
    hash: Seq<u8>,
    data: Seq<u8>,
    w: WriteView,
    files: Map<Seq<char>, Seq<u8>>,
)
    requires
        w.wf(),
        w.step == WriteStep::CreateParent,
        !w.failed,
        w.target == object_path_spec(root, hash),
        w.data == data,
        !files.contains_key(w.temp),
    ensures
        stored(w.run(files, 5).1, root, hash),
        w.run(files, 5).1[object_path_spec(root, hash)] == data,
        w.run(files, 5).0.step == WriteStep::Done && !w.run(files, 5).0.failed,
{
    crate::storage::lemma_atomic_write_commits(w, files);
}

/// Every object path lies below the storage root.
pub proof fn lemma_object_path_under_root(root: Seq<char>, hash: Seq<u8>)
    ensures
        is_under(object_path_spec(root, hash), root),
{
    let p = object_path_spec(root, hash);
    let rest = p.subrange(root.len() as int, p.len() as int);
    assert(p =~= root + rest);
    assert(p.subrange(0, root.len() as int) =~= root);
    assert(p[root.len() as int] == '/');
}

} // verus!
