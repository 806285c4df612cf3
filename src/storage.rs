//! The storage root: its directory layout, the containment checks on every
//! path touched below it, and the crash-atomic write protocol.
use vstd::prelude::*;
use vstd::string::*;

use crate::hash::{hex_encode, hex_of};
use crate::path::{
    contains_parent_segment, has_file_name, has_parent_segment, is_under, join, join_spec,
    split_file_name, splits_into, starts_with_root,
};

verus! {

/// `std::io::Error`, carried unopened inside `StorageError::IoError`.
#[verifier::external_type_specification]
#[verifier::external_body]
pub struct ExIoError(std::io::Error);

/// Why a storage operation failed.
#[derive(Debug)]
pub enum StorageError {
    /// The host platform is not supported.
    UnsupportedOS,
    /// No default root could be determined.
    NoHomeDir,
    /// The path does not lie below the storage root.
    PathOutsideRoot,
    /// The path holds a `..` component or names no file.
    InvalidFileLocation,
    /// Nothing, or a directory, lies at the path.
    FileDoesNotExist,
    /// The filesystem reported an error.
    IoError(std::io::Error),
}

/// The description of each kind of storage error.
pub open spec fn message_of(e: StorageError) -> Seq<char> {
    match e {
        StorageError::UnsupportedOS => "Only Linux is supported"@,
        StorageError::NoHomeDir => "Could not find home directory"@,
        StorageError::PathOutsideRoot => "Attempted to write outside of storage root"@,
        StorageError::InvalidFileLocation => "Invalid file path or filename"@,
        StorageError::FileDoesNotExist => "File does not exist"@,
        StorageError::IoError(_) => "I/O Error"@,
    }
}

impl StorageError {
    /// A short description of the error.
    pub fn message(&self) -> (r: String)
        ensures
            r@ == message_of(*self),
    {
        match self {
            StorageError::UnsupportedOS => String::from_str("Only Linux is supported"),
            StorageError::NoHomeDir => String::from_str("Could not find home directory"),
            StorageError::PathOutsideRoot => String::from_str(
                "Attempted to write outside of storage root",
            ),
            StorageError::InvalidFileLocation => String::from_str("Invalid file path or filename"),
            StorageError::FileDoesNotExist => String::from_str("File does not exist"),
            StorageError::IoError(_) => String::from_str("I/O Error"),
        }
    }
}

/// The outcome of the checks made on a path before any filesystem access:
/// a `..` component is refused first, then a path outside the root.
pub open spec fn path_check(root: Seq<char>, p: Seq<char>) -> Result<(), StorageError> {
    if has_parent_segment(p) {
        Err(StorageError::InvalidFileLocation)
    } else if !is_under(p, root) {
        Err(StorageError::PathOutsideRoot)
    } else {
        Ok(())
    }
}

/// The directory below which every object, manifest and setting is kept.
pub struct Storage {
    pub root: String,
}

impl Storage {
    /// The objects directory below `root`.
    pub open spec fn objects_dir_spec(root: Seq<char>) -> Seq<char> {
        join_spec(root, seq!['o', 'b', 'j', 'e', 'c', 't', 's'])
    }

    /// The manifests directory below `root`.
    pub open spec fn manifests_dir_spec(root: Seq<char>) -> Seq<char> {
        join_spec(root, seq!['m', 'a', 'n', 'i', 'f', 'e', 's', 't', 's'])
    }

    /// The configuration file below `root`.
    pub open spec fn config_path_spec(root: Seq<char>) -> Seq<char> {
        join_spec(root, seq!['c', 'o', 'n', 'f', 'i', 'g'])
    }

    /// A storage rooted at `root`. Creating the directories is left to the
    /// caller, which reads them from `objects_dir`, `manifests_dir` and
    /// `config_path`.
    pub fn at_root(root: String) -> (r: Storage)
        ensures
            r.root@ == root@,
    {
        Storage { root }
    }

    pub fn objects_dir(&self) -> (r: String)
        ensures
            r@ == Self::objects_dir_spec(self.root@),
    {
        proof {
            reveal_strlit("objects");
        }
        join(&self.root, "objects")
    }

    pub fn manifests_dir(&self) -> (r: String)
        ensures
            r@ == Self::manifests_dir_spec(self.root@),
    {
        proof {
            reveal_strlit("manifests");
        }
        join(&self.root, "manifests")
    }

    pub fn config_path(&self) -> (r: String)
        ensures
            r@ == Self::config_path_spec(self.root@),
    {
        proof {
            reveal_strlit("config");
        }
        join(&self.root, "config")
    }

    /// Tells whether `canonical_path` lies below `canonical_root`, both
    /// already resolved (symbolic links, `.` and `..` removed).
    pub fn within_root(canonical_root: &str, canonical_path: &str) -> (r: bool)
        ensures
            r == is_under(canonical_path@, canonical_root@),
    {
        starts_with_root(canonical_path, canonical_root)
    }

    /// The checks made on `path` before any filesystem access, for reads and
    /// writes alike.
    pub fn check_path(&self, path: &str) -> (r: Result<(), StorageError>)
        ensures
            r == path_check(self.root@, path@),
    {
        if contains_parent_segment(path) {
            return Err(StorageError::InvalidFileLocation);
        }
        if !starts_with_root(path, self.root.as_str()) {
            return Err(StorageError::PathOutsideRoot);
        }
        Ok(())
    }

    /// Decides a read once `path` has passed `check_path` and has been
    /// resolved: a resolved path outside the resolved root is refused, and
    /// only an existing regular file is read.
    pub fn check_resolved(canonical_root: &str, canonical_path: &str, is_file: bool) -> (r:
        Result<(), StorageError>)
        ensures
            !is_under(canonical_path@, canonical_root@) ==> r == Err::<(), StorageError>(
                StorageError::PathOutsideRoot,
            ),
            is_under(canonical_path@, canonical_root@) && !is_file ==> r == Err::<
                (),
                StorageError,
            >(StorageError::FileDoesNotExist),
            is_under(canonical_path@, canonical_root@) && is_file ==> r is Ok,
    {
        if !Self::within_root(canonical_root, canonical_path) {
            return Err(StorageError::PathOutsideRoot);
        }
        if !is_file {
            return Err(StorageError::FileDoesNotExist);
        }
        Ok(())
    }
}

/// The step of an atomic write that is to be performed next.
#[derive(Clone, Copy, PartialEq, Eq, Structural, Debug)]
pub enum WriteStep {
    /// Create the target's directory and its missing ancestors.
    CreateParent,
    /// Create the temporary file, failing if a file of that name exists.
    CreateTemp,
    /// Write all the bytes to the temporary file.
    WriteTemp,
    /// Force the temporary file's data to physical storage.
    SyncTemp,
    /// Rename the temporary file onto the target: the commit point.
    RenameTemp,
    /// Remove the temporary file after a failure; its outcome is ignored.
    RemoveTemp,
    /// Nothing is left to do; `finish` gives the result.
    Done,
}

/// The suffix `.temp`.
pub open spec fn temp_ext() -> Seq<char> {
    seq!['.', 't', 'e', 'm', 'p']
}

/// Name of the temporary file for file `name`, told apart by a random `suffix`.
pub open spec fn temp_name(name: Seq<char>, suffix: Seq<u8>) -> Seq<char> {
    name + seq!['.'] + hex_of(suffix) + temp_ext()
}

/// What an atomic write is: the paths it touches, the bytes it writes, its
/// next step, and whether a step has failed.
pub struct WriteView {
    pub step: WriteStep,
    pub parent: Seq<char>,
    pub name: Seq<char>,
    pub suffix: Seq<u8>,
    pub target: Seq<char>,
    pub temp: Seq<char>,
    pub data: Seq<u8>,
    pub failed: bool,
}

impl WriteView {
    /// The target is `name` in directory `parent`, and the temporary file
    /// sits beside it under another name.
    pub open spec fn wf(self) -> bool {
        &&& self.target == join_spec(self.parent, self.name)
        &&& self.temp == join_spec(self.parent, temp_name(self.name, self.suffix))
        &&& self.step == WriteStep::RemoveTemp ==> self.failed
    }

    /// The state after the current step, which succeeded when `ok` holds.
    pub open spec fn next(self, ok: bool) -> WriteView {
        let step = match self.step {
            WriteStep::CreateParent => if ok {
                WriteStep::CreateTemp
            } else {
                WriteStep::Done
            },
            WriteStep::CreateTemp => if ok {
                WriteStep::WriteTemp
            } else {
                WriteStep::Done
            },
            WriteStep::WriteTemp => if ok {
                WriteStep::SyncTemp
            } else {
                WriteStep::RemoveTemp
            },
            WriteStep::SyncTemp => if ok {
                WriteStep::RenameTemp
            } else {
                WriteStep::RemoveTemp
            },
            WriteStep::RenameTemp => if ok {
                WriteStep::Done
            } else {
                WriteStep::RemoveTemp
            },
            WriteStep::RemoveTemp => WriteStep::Done,
            WriteStep::Done => WriteStep::Done,
        };
        let failed = if self.step == WriteStep::RemoveTemp || self.step == WriteStep::Done {
            self.failed
        } else {
            self.failed || !ok
        };
        WriteView { step, failed, ..self }
    }

    /// The files (path to contents) after the current step succeeds on `files`.
    pub open spec fn effect(self, files: Map<Seq<char>, Seq<u8>>) -> Map<Seq<char>, Seq<u8>> {
        match self.step {
            WriteStep::CreateTemp => files.insert(self.temp, Seq::empty()),
            WriteStep::WriteTemp => files.insert(self.temp, self.data),
            WriteStep::RenameTemp => files.remove(self.temp).insert(self.target, files[self.temp]),
            WriteStep::RemoveTemp => files.remove(self.temp),
            _ => files,
        }
    }

    /// The state and the files after `n` steps that all succeed.
    pub open spec fn run(self, files: Map<Seq<char>, Seq<u8>>, n: nat) -> (WriteView, Map<
        Seq<char>,
        Seq<u8>,
    >)
        decreases n,
    {
        if n == 0 {
            (self, files)
        } else {
            self.next(true).run(self.effect(files), (n - 1) as nat)
        }
    }
}

/// `f` and `g` agree at path `p`: both lack it, or both hold the same bytes there.
pub open spec fn same_at(f: Map<Seq<char>, Seq<u8>>, g: Map<Seq<char>, Seq<u8>>, p: Seq<char>) -> bool {
    &&& f.contains_key(p) == g.contains_key(p)
    &&& f.contains_key(p) ==> f[p] == g[p]
}

/// A write of `data` to `path` that is under way. Each step names one
/// filesystem action; the caller performs it on `parent()`, `temp_path()` or
/// `target()` and reports the outcome through `advance`.
pub struct AtomicWrite {
    step: WriteStep,
    parent: String,
    name: String,
    suffix: [u8; 8],
    target: String,
    temp: String,
    data: Vec<u8>,
    error: Option<std::io::Error>,
}

impl View for AtomicWrite {
    type V = WriteView;

    closed spec fn view(&self) -> WriteView {
        WriteView {
            step: self.step,
            parent: self.parent@,
            name: self.name@,
            suffix: self.suffix@,
            target: self.target@,
            temp: self.temp@,
            data: self.data@,
            failed: self.error is Some,
        }
    }
}

/// Relies on `fastrand::u64` over the full range, which never panics: eight
/// random bytes, of which nothing is known.
#[verifier::external_body]
fn random_suffix() -> (r: [u8; 8]) {
    fastrand::u64(..).to_be_bytes()
}

impl AtomicWrite {
    pub fn step(&self) -> (r: WriteStep)
        ensures
            r == self@.step,
    {
        self.step
    }

    /// The directory that holds the target and the temporary file.
    pub fn parent(&self) -> (r: &String)
        ensures
            r@ == self@.parent,
    {
        &self.parent
    }

    pub fn target(&self) -> (r: &String)
        ensures
            r@ == self@.target,
    {
        &self.target
    }

    pub fn temp_path(&self) -> (r: &String)
        ensures
            r@ == self@.temp,
    {
        &self.temp
    }

    /// The bytes to be written.
    pub fn data(&self) -> (r: &[u8])
        ensures
            r@ == self@.data,
    {
        self.data.as_slice()
    }

    /// Records the outcome of the current step and moves to the next one.
    /// The first error is kept; the outcome of removing the temporary file
    /// is ignored.
    pub fn advance(&mut self, outcome: Result<(), std::io::Error>)
        requires
            old(self)@.wf(),
        ensures
            final(self)@ == old(self)@.next(outcome is Ok),
            final(self)@.wf(),
    {
        match self.step {
            WriteStep::RemoveTemp | WriteStep::Done => {
                self.step = WriteStep::Done;
            },
            _ => match outcome {
                Ok(()) => {
                    self.step = match self.step {
                        WriteStep::CreateParent => WriteStep::CreateTemp,
                        WriteStep::CreateTemp => WriteStep::WriteTemp,
                        WriteStep::WriteTemp => WriteStep::SyncTemp,
                        WriteStep::SyncTemp => WriteStep::RenameTemp,
                        _ => WriteStep::Done,
                    };
                },
                Err(e) => {
                    self.step = match self.step {
                        WriteStep::CreateParent | WriteStep::CreateTemp => WriteStep::Done,
                        _ => WriteStep::RemoveTemp,
                    };
                    if self.error.is_none() {
                        self.error = Some(e);
                    }
                },
            },
        }
    }

    /// The result of a finished write: success exactly when no step failed.
    pub fn finish(self) -> (r: Result<(), StorageError>)
        requires
            self@.step == WriteStep::Done,
        ensures
            r is Ok <==> !self@.failed,
            r is Err ==> r->Err_0 is IoError,
    {
        match self.error {
            None => Ok(()),
            Some(e) => Err(StorageError::IoError(e)),
        }
    }
}

impl Storage {
    /// Starts a crash-atomic write of `bytes` to `path`. A path with a `..`
    /// component, a path outside the root, or one that names no file is
    /// refused here, so that no filesystem action is ever asked for it.
    pub fn atomic_write(&self, path: &str, bytes: Vec<u8>) -> (r: Result<AtomicWrite, StorageError>)
        ensures
            path_check(self.root@, path@) is Err ==> r == Err::<AtomicWrite, StorageError>(
                path_check(self.root@, path@)->Err_0,
            ),
            path_check(self.root@, path@) is Ok && !has_file_name(path@) ==> r == Err::<
                AtomicWrite,
                StorageError,
            >(StorageError::InvalidFileLocation),
            path_check(self.root@, path@) is Ok && has_file_name(path@) ==> r is Ok,
            r matches Ok(w) ==> {
                &&& w@.wf()
                &&& w@.step == WriteStep::CreateParent
                &&& !w@.failed
                &&& w@.target == path@
                &&& w@.data == bytes@
                &&& splits_into(path@, w@.parent, w@.name)
            },
    {
        match self.check_path(path) {
            Err(e) => {
                return Err(e);
            },
            Ok(()) => {},
        }
        let (parent, name) = match split_file_name(path) {
            None => {
                return Err(StorageError::InvalidFileLocation);
            },
            Some(pn) => pn,
        };
        let suffix = random_suffix();
        let mut temp_file = name.clone();
        proof {
            reveal_strlit(".");
            reveal_strlit(".temp");
        }
        temp_file.append(".");
        let hex = hex_encode(&suffix);
        temp_file.append(hex.as_str());
        temp_file.append(".temp");
        let temp = join(&parent, temp_file.as_str());
        let target = join(&parent, name.as_str());
        proof {
            assert(temp_file@ =~= temp_name(name@, suffix@));
        }
        Ok(
            AtomicWrite {
                step: WriteStep::CreateParent,
                parent,
                name,
                suffix,
                target,
                temp,
                data: bytes,
                error: None,
            },
        )
    }
}

/// The temporary file and the target of a well-formed write are different
/// paths in the same directory.
pub proof fn lemma_temp_beside_target(v: WriteView)
    requires
        v.wf(),
    ensures
        v.temp != v.target,
        v.temp.len() > v.target.len(),
{
    assert(v.temp.len() > v.target.len());
}

/// Every step but the rename leaves the target as it was: its presence and
/// its contents.
pub proof fn lemma_only_rename_touches_target(v: WriteView, files: Map<Seq<char>, Seq<u8>>)
    requires
        v.wf(),
        v.step != WriteStep::RenameTemp,
    ensures
        same_at(v.effect(files), files, v.target),
{
    lemma_temp_beside_target(v);
}

/// A write started on files that lack its temporary file, whose every step
/// succeeds, ends after five steps without failure, with the target holding
/// exactly the data and nothing else changed; before the fifth step (the
/// rename) the target is as it was.
pub proof fn lemma_atomic_write_commits(v: WriteView, files: Map<Seq<char>, Seq<u8>>)
    requires
        v.wf(),
        v.step == WriteStep::CreateParent,
        !v.failed,
        !files.contains_key(v.temp),
    ensures
        v.run(files, 5).0.step == WriteStep::Done,
        !v.run(files, 5).0.failed,
        v.run(files, 5).1 == files.insert(v.target, v.data),
        forall|n: nat| n < 5 ==> same_at(#[trigger] v.run(files, n).1, files, v.target),
{
    lemma_temp_beside_target(v);
    let v1 = v.next(true);
    let v2 = v1.next(true);
    let v3 = v2.next(true);
    let v4 = v3.next(true);
    let f1 = v.effect(files);
    let f2 = v1.effect(f1);
    let f3 = v2.effect(f2);
    let f4 = v3.effect(f3);
    let f5 = v4.effect(f4);
    assert(v.run(files, 1) == v1.run(f1, 0));
    assert(v.run(files, 2) == v1.run(f1, 1));
    assert(v1.run(f1, 1) == v2.run(f2, 0));
    assert(v.run(files, 3) == v1.run(f1, 2));
    assert(v1.run(f1, 2) == v2.run(f2, 1));
    assert(v2.run(f2, 1) == v3.run(f3, 0));
    assert(v.run(files, 4) == v1.run(f1, 3));
    assert(v1.run(f1, 3) == v2.run(f2, 2));
    assert(v2.run(f2, 2) == v3.run(f3, 1));
    assert(v3.run(f3, 1) == v4.run(f4, 0));
    assert(v.run(files, 5) == v1.run(f1, 4));
    assert(v1.run(f1, 4) == v2.run(f2, 3));
    assert(v2.run(f2, 3) == v3.run(f3, 2));
    assert(v3.run(f3, 2) == v4.run(f4, 1));
    assert(v4.run(f4, 1) == v4.next(true).run(f5, 0));
    assert(f5 =~= files.insert(v.target, v.data));
    assert forall|n: nat| n < 5 implies same_at(#[trigger] v.run(files, n).1, files, v.target) by {
        if n == 0 {
        } else if n == 1 {
        } else if n == 2 {
        } else if n == 3 {
        } else {
        }
    }
}

} // verus!
