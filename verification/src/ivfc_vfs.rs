//! The RomFS as a read-only file system of paths.
//!
//! A path is resolved from the root, one component after the other. A file
//! opens as a window on the source of the RomFS, which all windows share.
//! Nothing can be written, made or removed.

use crate::ivfc::{
    child, children, explains, find_child, lemma_listed_names_resolve, names_of, table_base, Child,
    DirRecord, DirectoryMetadata, DirectoryOrFile, Fault, FileMetadata, FileRecord, IVFCError,
    IVFCReader, Miss,
};
use crate::partition::{is_poisoned, read_through, sent_to, PartitionMutex};
use crate::paths::{
    components, is_name, join, join_all, join_paths, last_component, last_extension,
    lemma_join_adds_component, lemma_join_all_adds_components, parent_of, parent_path, split_path,
};
use crate::shared::{acquire, protected, share};
use crate::source::{same_source, ByteSource, IoError, IoErrorKind};
use std::sync::Arc;
use vstd::prelude::*;

verus! {

/// How a file is to be opened.
#[derive(Debug, Clone, Copy)]
pub struct OpenOptions {
    pub read: bool,
    pub write: bool,
    pub create: bool,
    pub append: bool,
    pub truncate: bool,
}

impl OpenOptions {
    /// The options ask for something that changes the file system.
    pub open spec fn writes(&self) -> bool {
        self.write || self.create || self.append || self.truncate
    }

    /// Options that ask for nothing.
    pub fn new() -> (opt: OpenOptions)
        ensures
            !opt.read,
            !opt.writes(),
    {
        OpenOptions { read: false, write: false, create: false, append: false, truncate: false }
    }
}

/// What lies behind an error of the file system.
#[derive(Debug)]
pub enum VfsCause {
    /// A few words are all there is.
    Words(&'static str),
    /// The path did not resolve.
    Metadata(GetMetadataError),
    /// The RomFS could not be read.
    Reader(IVFCError),
    /// The window on the file could not be made.
    Window(IoError),
}

/// An error of the file system: its kind, and what lies behind it.
#[derive(Debug)]
pub struct VfsError {
    pub kind: IoErrorKind,
    pub cause: VfsCause,
}

/// What a path stands for: a file of some length, or a directory.
#[derive(Debug, Clone, Copy)]
pub enum IVFCMeta {
    File(u64),
    Dir,
}

/// What a resolved path says of itself.
pub open spec fn meta_of(found: Child) -> IVFCMeta {
    match found {
        Child::Dir(_) => IVFCMeta::Dir,
        Child::File(file) => IVFCMeta::File(file.lenght_file_data),
    }
}

impl IVFCMeta {
    /// The length of a file; 0 for a directory.
    pub open spec fn spec_len(&self) -> u64 {
        match self {
            IVFCMeta::File(lenght) => *lenght,
            IVFCMeta::Dir => 0,
        }
    }

    /// What `found` says of itself.
    pub fn of(found: &DirectoryOrFile) -> (meta: IVFCMeta)
        ensures
            meta == meta_of(found@),
    {
        match found {
            DirectoryOrFile::Dir(_) => IVFCMeta::Dir,
            DirectoryOrFile::File(meta) => IVFCMeta::File(meta.lenght_file_data),
        }
    }

    /// Whether this is a directory.
    pub fn is_dir(&self) -> (r: bool)
        ensures
            r == (self is Dir),
    {
        match self {
            IVFCMeta::File(_) => false,
            IVFCMeta::Dir => true,
        }
    }

    /// Whether this is a file.
    pub fn is_file(&self) -> (r: bool)
        ensures
            r == (self is File),
    {
        !self.is_dir()
    }

    /// The length of a file; 0 for a directory.
    pub fn len(&self) -> (r: u64)
        ensures
            r == self.spec_len(),
    {
        match self {
            IVFCMeta::File(lenght) => *lenght,
            IVFCMeta::Dir => 0,
        }
    }
}

/// Why a path did not resolve.
#[derive(Debug)]
pub enum GetMetadataError {
    /// A component of the path is no string. No path of this crate is such.
    CantConvertOSStrToString,
    IVFCError(IVFCError),
    /// The path goes on below this file.
    TryGetChildFile(FileMetadata),
}

impl GetMetadataError {
    /// The error as one of the file system: nothing was found.
    #[allow(clippy::wrong_self_convention)]
    pub fn to_io_error(self) -> (e: VfsError)
        ensures
            e.kind == IoErrorKind::NotFound,
            e.cause == VfsCause::Metadata(self),
    {
        VfsError { kind: IoErrorKind::NotFound, cause: VfsCause::Metadata(self) }
    }
}

/// Why the walk down a path stops before its end.
pub enum Stop {
    /// The path goes on below a file.
    IntoFile(FileRecord),
    /// A component is not there.
    Missing(Miss),
}

/// What `parts` lead to from `current`: each names a child of what the one
/// before it led to.
pub open spec fn descend(
    data: Seq<u8>,
    dir_base: nat,
    file_base: nat,
    current: Child,
    parts: Seq<Seq<char>>,
) -> Result<Child, Stop>
    decreases parts.len(),
{
    if parts.len() == 0 {
        Ok(current)
    } else {
        match current {
            Child::File(file) => Err(Stop::IntoFile(file)),
            Child::Dir(dir) => match child(data, dir_base, file_base, dir, parts[0]) {
                Ok(next) => descend(data, dir_base, file_base, next, parts.skip(1)),
                Err(miss) => Err(Stop::Missing(miss)),
            },
        }
    }
}

/// What a walk gives that goes one component further than `parts`: the
/// child of that name of what `parts` lead to.
pub open spec fn step_down(
    data: Seq<u8>,
    dir_base: nat,
    file_base: nat,
    reached: Result<Child, Stop>,
    name: Seq<char>,
) -> Result<Child, Stop> {
    match reached {
        Ok(Child::Dir(dir)) => match child(data, dir_base, file_base, dir, name) {
            Ok(next) => Ok(next),
            Err(miss) => Err(Stop::Missing(miss)),
        },
        Ok(Child::File(file)) => Err(Stop::IntoFile(file)),
        Err(stop) => Err(stop),
    }
}

/// A walk down one more component is the walk so far, and one step.
pub proof fn lemma_descend_one_more(
    data: Seq<u8>,
    dir_base: nat,
    file_base: nat,
    current: Child,
    parts: Seq<Seq<char>>,
    name: Seq<char>,
)
    ensures
        descend(data, dir_base, file_base, current, parts.push(name)) == step_down(
            data,
            dir_base,
            file_base,
            descend(data, dir_base, file_base, current, parts),
            name,
        ),
    decreases parts.len(),
{
    let longer = parts.push(name);
    if parts.len() == 0 {
        assert(longer.skip(1) =~= Seq::<Seq<char>>::empty());
        assert(longer[0] == name);
        if let Child::Dir(dir) = current {
            if let Ok(next) = child(data, dir_base, file_base, dir, name) {
                assert(descend(data, dir_base, file_base, next, longer.skip(1)) == Ok::<
                    Child,
                    Stop,
                >(next));
            }
        }
    } else {
        assert(longer[0] == parts[0]);
        assert(longer.skip(1) =~= parts.skip(1).push(name));
        if let Child::Dir(dir) = current {
            if let Ok(next) = child(data, dir_base, file_base, dir, parts[0]) {
                lemma_descend_one_more(data, dir_base, file_base, next, parts.skip(1), name);
            }
        }
    }
}

/// The paths that listing a directory gives resolve: where `base` leads to
/// the directory `dir`, and `name` is among the children of `dir`, the path
/// of `name` under `base` leads to the child of that name.
///
/// This holds of names that are one component: a record whose name is
/// empty or holds a slash is listed, but no path leads to it.
pub proof fn lemma_listed_paths_resolve(
    data: Seq<u8>,
    dir_base: nat,
    file_base: nat,
    root: DirRecord,
    base: Seq<char>,
    dir: DirRecord,
    name: Seq<char>,
)
    requires
        descend(data, dir_base, file_base, Child::Dir(root), split_path(base)) == Ok::<
            Child,
            Stop,
        >(Child::Dir(dir)),
        children(data, dir_base, file_base, dir) is Ok,
        children(data, dir_base, file_base, dir).unwrap().contains(name),
        is_name(name),
    ensures
        child(data, dir_base, file_base, dir, name) is Ok,
        descend(data, dir_base, file_base, Child::Dir(root), split_path(join(base, name))) == Ok::<
            Child,
            Stop,
        >(child(data, dir_base, file_base, dir, name).unwrap()),
{
    lemma_listed_names_resolve(data, dir_base, file_base, dir, name);
    lemma_join_adds_component(base, name);
    lemma_descend_one_more(data, dir_base, file_base, Child::Dir(root), split_path(base), name);
}

/// The names `parts` are found from `current` by listing: each is among the
/// children that are listed for the directory that the names before it lead
/// to.
pub open spec fn listed_walk(
    data: Seq<u8>,
    dir_base: nat,
    file_base: nat,
    current: Child,
    parts: Seq<Seq<char>>,
) -> bool
    decreases parts.len(),
{
    if parts.len() == 0 {
        true
    } else {
        match current {
            Child::File(_) => false,
            Child::Dir(dir) => match children(data, dir_base, file_base, dir) {
                Err(_) => false,
                Ok(names) => names.contains(parts[0]) && match child(
                    data,
                    dir_base,
                    file_base,
                    dir,
                    parts[0],
                ) {
                    Ok(next) => listed_walk(data, dir_base, file_base, next, parts.skip(1)),
                    Err(_) => false,
                },
            },
        }
    }
}

/// Every directory on the way down `parts` from `current` can be listed.
pub open spec fn listable_along(
    data: Seq<u8>,
    dir_base: nat,
    file_base: nat,
    current: Child,
    parts: Seq<Seq<char>>,
) -> bool
    decreases parts.len(),
{
    if parts.len() == 0 {
        true
    } else {
        match current {
            Child::File(_) => true,
            Child::Dir(dir) => children(data, dir_base, file_base, dir) is Ok && match child(
                data,
                dir_base,
                file_base,
                dir,
                parts[0],
            ) {
                Ok(next) => listable_along(data, dir_base, file_base, next, parts.skip(1)),
                Err(_) => true,
            },
        }
    }
}

/// What is found by listing is what a walk leads to: names that are found
/// from `current` by listing lead somewhere, and names that lead somewhere
/// through directories that can be listed are found by listing.
pub proof fn lemma_listing_finds_what_resolves(
    data: Seq<u8>,
    dir_base: nat,
    file_base: nat,
    current: Child,
    parts: Seq<Seq<char>>,
)
    ensures
        listed_walk(data, dir_base, file_base, current, parts) ==> descend(
            data,
            dir_base,
            file_base,
            current,
            parts,
        ) is Ok,
        descend(data, dir_base, file_base, current, parts) is Ok && listable_along(
            data,
            dir_base,
            file_base,
            current,
            parts,
        ) ==> listed_walk(data, dir_base, file_base, current, parts),
    decreases parts.len(),
{
    if parts.len() > 0 {
        if let Child::Dir(dir) = current {
            if children(data, dir_base, file_base, dir) is Ok {
                lemma_listed_names_resolve(data, dir_base, file_base, dir, parts[0]);
            }
            if let Ok(next) = child(data, dir_base, file_base, dir, parts[0]) {
                lemma_listing_finds_what_resolves(data, dir_base, file_base, next, parts.skip(1));
            }
        }
    }
}

/// The tree that walking the listings from the root shows is the tree that
/// paths resolve in. A path that is built name by name from listings, each
/// name under the path before it, resolves from the root; and where a path
/// of names resolves through directories that can be listed, its names are
/// found by listing. Each record of a chain is listed once, as
/// [`lemma_listed_names_resolve`] has it.
///
/// This holds of names that are one component: a record whose name is
/// empty or holds a slash is listed, but no path leads to it.
pub proof fn lemma_listed_tree_is_the_tree(
    data: Seq<u8>,
    dir_base: nat,
    file_base: nat,
    root: DirRecord,
    parts: Seq<Seq<char>>,
)
    requires
        forall|i: int| 0 <= i < parts.len() ==> is_name(#[trigger] parts[i]),
    ensures
        split_path(join_all(Seq::empty(), parts)) == parts,
        listed_walk(data, dir_base, file_base, Child::Dir(root), parts) ==> descend(
            data,
            dir_base,
            file_base,
            Child::Dir(root),
            split_path(join_all(Seq::empty(), parts)),
        ) is Ok,
        descend(
            data,
            dir_base,
            file_base,
            Child::Dir(root),
            split_path(join_all(Seq::empty(), parts)),
        ) is Ok && listable_along(data, dir_base, file_base, Child::Dir(root), parts)
            ==> listed_walk(data, dir_base, file_base, Child::Dir(root), parts),
{
    lemma_join_all_adds_components(Seq::empty(), parts);
    assert(split_path(Seq::<char>::empty()) + parts =~= parts);
    lemma_listing_finds_what_resolves(data, dir_base, file_base, Child::Dir(root), parts);
}

/// The fault that stopped a walk, if one did.
pub open spec fn fault_under(outcome: Result<Child, Stop>) -> Option<Fault> {
    match outcome {
        Err(Stop::Missing(Miss::Faulty(fault))) => Some(fault),
        _ => None,
    }
}

/// `r` is what a walk that should end as `outcome` gives, on a source that
/// is `dependable` or not.
pub open spec fn walked(
    r: Result<DirectoryOrFile, GetMetadataError>,
    dependable: bool,
    outcome: Result<Child, Stop>,
) -> bool {
    match r {
        Ok(found) => outcome == Ok::<Child, Stop>(found@),
        Err(GetMetadataError::TryGetChildFile(file)) => outcome == Err::<Child, Stop>(
            Stop::IntoFile(file@),
        ),
        Err(GetMetadataError::IVFCError(IVFCError::DirNotFound)) => outcome == Err::<Child, Stop>(
            Stop::Missing(Miss::NoSuchDir),
        ),
        Err(GetMetadataError::IVFCError(IVFCError::FileNotFound)) => outcome == Err::<Child, Stop>(
            Stop::Missing(Miss::NoSuchFile),
        ),
        Err(GetMetadataError::IVFCError(e)) => explains(e, dependable, fault_under(outcome)),
        Err(GetMetadataError::CantConvertOSStrToString) => false,
    }
}

/// What walking from the directory `root` down the components `names` gives
/// on the source `before`, where `later` is the source afterwards.
///
/// Without components the walk ends at `root`. What it finds else bears the
/// name of the last component. On a source that has a model, the walk ends
/// as `descend` says; an error fits what is wrong with the records, and a
/// dependable source does not fail where `descend` does not.
pub open spec fn walk_outcome<T: ByteSource>(
    before: &T,
    later: &T,
    dir_base: u64,
    file_base: u64,
    root: DirectoryMetadata,
    names: Seq<Seq<char>>,
    r: Result<DirectoryOrFile, GetMetadataError>,
) -> bool {
    &&& same_source(before, later)
    &&& names.len() == 0 ==> r == Ok::<DirectoryOrFile, GetMetadataError>(
        DirectoryOrFile::Dir(root),
    )
    &&& names.len() > 0 && r is Ok ==> r.unwrap()@.name() == Some(names.last())
    &&& !(r matches Err(GetMetadataError::CantConvertOSStrToString))
    &&& before.modeled() ==> walked(
        r,
        before.dependable(),
        descend(before.bytes(), dir_base as nat, file_base as nat, Child::Dir(root@), names),
    )
    &&& before.modeled() && before.dependable() && descend(
        before.bytes(),
        dir_base as nat,
        file_base as nat,
        Child::Dir(root@),
        names,
    ) is Ok ==> r is Ok
}

/// Walks from the directory `root` down the components `parts`.
pub fn walk_path<T: ByteSource>(
    file: &mut T,
    dir_base: u64,
    file_base: u64,
    root: &DirectoryMetadata,
    parts: &Vec<String>,
) -> (r: Result<DirectoryOrFile, GetMetadataError>)
    requires
        table_base(dir_base),
        table_base(file_base),
    ensures
        walk_outcome(
            old(file),
            final(file),
            dir_base,
            file_base,
            *root,
            parts@.map_values(|s: String| s@),
            r,
        ),
{
    let ghost data = file.bytes();
    let ghost names = parts@.map_values(|s: String| s@);
    let mut actual_meta = DirectoryOrFile::Dir(root.clone());
    let mut done: usize = 0;
    proof {
        assert(names.skip(0) =~= names);
    }
    while done < parts.len()
        invariant
            table_base(dir_base),
            table_base(file_base),
            done <= parts@.len(),
            data == old(file).bytes(),
            names == parts@.map_values(|s: String| s@),
            same_source(old(file), file),
            done == 0 ==> actual_meta == DirectoryOrFile::Dir(*root),
            done > 0 ==> actual_meta@.name() == Some(parts@[done - 1]@),
            file.modeled() ==> descend(
                data,
                dir_base as nat,
                file_base as nat,
                Child::Dir(root@),
                names,
            ) == descend(
                data,
                dir_base as nat,
                file_base as nat,
                actual_meta@,
                names.skip(done as int),
            ),
        decreases parts@.len() - done,
    {
        proof {
            assert(names.skip(done as int)[0] == parts@[done as int]@);
            assert(names.skip(done as int).skip(1) =~= names.skip(done + 1));
        }
        match actual_meta {
            DirectoryOrFile::Dir(actual_dir) => {
                match find_child(file, dir_base, file_base, &actual_dir, parts[done].as_str()) {
                    Ok(new_dir) => {
                        actual_meta = new_dir;
                    },
                    Err(err) => {
                        return Err(GetMetadataError::IVFCError(err));
                    },
                }
            },
            DirectoryOrFile::File(actual_file) => {
                return Err(GetMetadataError::TryGetChildFile(actual_file));
            },
        }
        done += 1;
    }
    Ok(actual_meta)
}

/// The error of everything that would change the file system.
pub fn return_ro_error<V>() -> (r: Result<V, VfsError>)
    ensures
        r matches Err(e) && e.kind == IoErrorKind::PermissionDenied && e.cause is Words,
{
    Err(
        VfsError {
            kind: IoErrorKind::PermissionDenied,
            cause: VfsCause::Words("read only file system"),
        },
    )
}

/// The file system of a RomFS.
#[verifier::reject_recursive_types(T)]
pub struct IVFCVFS<T: ByteSource> {
    reader: Arc<IVFCReader<T>>,
}

impl<T: ByteSource> IVFCVFS<T> {
    /// The reader of the RomFS.
    pub closed spec fn reader(&self) -> IVFCReader<T> {
        *self.reader
    }

    /// The file system of the RomFS that `reader` has read.
    pub fn new(reader: IVFCReader<T>) -> (vfs: IVFCVFS<T>)
        ensures
            vfs.reader() == reader,
    {
        IVFCVFS { reader: Arc::new(reader) }
    }

    /// The path `path` in this file system. Whether anything is there is not
    /// looked at.
    pub fn path(&self, path: String) -> (p: IVFCVPATH<T>)
        ensures
            p.reader() == self.reader(),
            p.path() == path@,
    {
        IVFCVPATH { reader: share(&self.reader), path }
    }
}

/// A path in the file system of a RomFS.
#[verifier::reject_recursive_types(T)]
pub struct IVFCVPATH<T: ByteSource> {
    reader: Arc<IVFCReader<T>>,
    path: String,
}

impl<T: ByteSource> Clone for IVFCVPATH<T> {
    fn clone(&self) -> (r: Self)
        ensures
            r == *self,
    {
        IVFCVPATH { reader: share(&self.reader), path: self.path.clone() }
    }
}

impl<T: ByteSource> IVFCVPATH<T> {
    /// The reader of the RomFS.
    pub closed spec fn reader(&self) -> IVFCReader<T> {
        *self.reader
    }

    /// The characters of the path.
    pub closed spec fn path(&self) -> Seq<char> {
        self.path@
    }

    /// The root of the file system that `reader` reads.
    pub fn new(reader: Arc<IVFCReader<T>>) -> (p: IVFCVPATH<T>)
        ensures
            p.reader() == *reader,
            p.path() == Seq::<char>::empty(),
    {
        IVFCVPATH { reader, path: String::new() }
    }

    /// `r` is what resolving the path gives: the root where the path has no
    /// components; else the error of a poisoned lock, or what walking down
    /// its components gives on the source that the lock holds. Which source
    /// that is cannot be said here, so it is stated of some source.
    pub open spec fn resolves_to(&self, r: Result<DirectoryOrFile, GetMetadataError>) -> bool {
        if split_path(self.path()).len() == 0 {
            r == Ok::<DirectoryOrFile, GetMetadataError>(
                DirectoryOrFile::Dir(self.reader().first_dir_metadata),
            )
        } else {
            (r matches Err(GetMetadataError::IVFCError(IVFCError::Poisoned))) || exists|
                before: T,
                later: T,
            | #[trigger]
                walk_outcome(
                    &before,
                    &later,
                    self.reader().dir_metadata_part_offset,
                    self.reader().file_metadata_part_offset,
                    self.reader().first_dir_metadata,
                    split_path(self.path()),
                    r,
                )
        }
    }

    /// What the path stands for: it is walked from the root, one component
    /// after the other.
    ///
    /// The root is found without the source. Else the source is locked for
    /// the walk, and the outcome is as [`IVFCVPATH::resolves_to`] has it.
    pub fn get_internal_meta(&self) -> (r: Result<DirectoryOrFile, GetMetadataError>)
        requires
            self.reader().wf(),
        ensures
            self.resolves_to(r),
            split_path(self.path()).len() == 0 ==> r == Ok::<DirectoryOrFile, GetMetadataError>(
                DirectoryOrFile::Dir(self.reader().first_dir_metadata),
            ),
            split_path(self.path()).len() > 0 && r is Ok ==> r.unwrap()@.name() == Some(
                split_path(self.path()).last(),
            ),
            !(r matches Err(GetMetadataError::CantConvertOSStrToString)),
    {
        let parts = components(self.path.as_str());
        if parts.len() == 0 {
            return Ok(DirectoryOrFile::Dir(self.reader.first_dir_metadata.clone()));
        }
        let mut guard = match acquire(&*self.reader.file) {
            Some(guard) => guard,
            None => {
                return Err(GetMetadataError::IVFCError(IVFCError::Poisoned));
            },
        };
        let file = protected(&mut guard);
        let ghost before = *file;
        let r = walk_path(
            file,
            self.reader.dir_metadata_part_offset,
            self.reader.file_metadata_part_offset,
            &self.reader.first_dir_metadata,
            &parts,
        );
        proof {
            let later = *file;
            assert(walk_outcome(
                &before,
                &later,
                self.reader().dir_metadata_part_offset,
                self.reader().file_metadata_part_offset,
                self.reader().first_dir_metadata,
                split_path(self.path()),
                r,
            ));
        }
        r
    }

    /// `r` is what opening a window on the bytes of `file` gives.
    ///
    /// A file whose bytes would end past what 64 bits can address is invalid
    /// data. Else the window shares the lock of the reader, starts where the
    /// bytes of the file start, is as long as the record says the file is,
    /// and has its cursor at its start;
    /// it is not made where the lock is poisoned, or where the source that
    /// the lock holds refuses to go to the start of the file.
    pub open spec fn opened_as(&self, file: FileRecord, r: Result<PartitionMutex<T>, VfsError>) -> bool {
        let start = self.reader().file_data_offset + file.offset_file_data;
        if start + file.lenght_file_data > u64::MAX {
            r matches Err(e) && e.kind == IoErrorKind::InvalidData && e.cause is Words
        } else {
            match r {
                Ok(opened) => {
                    &&& opened.lock() == self.reader().file
                    &&& opened.window_start() == start
                    &&& opened.window_end() == start + file.lenght_file_data
                    &&& opened.pointer() == opened.window_start()
                    &&& opened.bounded()
                    &&& exists|before: T, after: T| #[trigger] sent_to(&before, &after, start, true)
                },
                Err(e) => {
                    &&& e.kind == IoErrorKind::Other
                    &&& e.cause matches VfsCause::Window(err) && (is_poisoned(err) || exists|
                        before: T,
                        after: T,
                    | #[trigger] sent_to(&before, &after, start, false))
                },
            }
        }
    }

    /// `r` is what opening gives for a path that resolved as `found`: the
    /// window on the file that was found; invalid data for a directory; not
    /// found, with the error of the resolution as its cause, where the path
    /// did not resolve.
    pub open spec fn opens_from(
        &self,
        found: Result<DirectoryOrFile, GetMetadataError>,
        r: Result<PartitionMutex<T>, VfsError>,
    ) -> bool {
        match found {
            Ok(DirectoryOrFile::File(file)) => self.opened_as(file@, r),
            Ok(DirectoryOrFile::Dir(_)) => r matches Err(e) && e.kind == IoErrorKind::InvalidData
                && e.cause is Words,
            Err(err) => r matches Err(e) && e.kind == IoErrorKind::NotFound && e.cause
                == VfsCause::Metadata(err),
        }
    }

    /// `r` is what opening the path for reading gives: what [`opens_from`]
    /// has for what the path resolves to.
    ///
    /// [`opens_from`]: IVFCVPATH::opens_from
    pub open spec fn opens(&self, r: Result<PartitionMutex<T>, VfsError>) -> bool {
        exists|found: Result<DirectoryOrFile, GetMetadataError>| #[trigger]
            self.resolves_to(found) && self.opens_from(found, r)
    }

    /// `r` is what listing gives for a path that resolved as `found`: the
    /// children of the directory that was found, as the reader lists them,
    /// or the error of the reader where it cannot list them; invalid data
    /// for a file; not found, with the error of the resolution as its cause,
    /// where the path did not resolve.
    pub open spec fn lists_from(
        &self,
        found: Result<DirectoryOrFile, GetMetadataError>,
        r: Result<FileNameIterator<T>, VfsError>,
    ) -> bool {
        match found {
            Ok(DirectoryOrFile::Dir(dir)) => match r {
                Ok(entries) => {
                    &&& entries.wf()
                    &&& entries.child_of() == *self
                    &&& exists|listed: Vec<String>| #[trigger]
                        self.reader().lists(dir@, Ok::<Vec<String>, IVFCError>(listed))
                            && entries.names() == names_of(listed@)
                },
                Err(e) => {
                    &&& e.kind == IoErrorKind::Other
                    &&& e.cause matches VfsCause::Reader(err) && self.reader().lists(
                        dir@,
                        Err::<Vec<String>, IVFCError>(err),
                    )
                },
            },
            Ok(DirectoryOrFile::File(_)) => r matches Err(e) && e.kind == IoErrorKind::InvalidData
                && e.cause is Words,
            Err(err) => r matches Err(e) && e.kind == IoErrorKind::NotFound && e.cause
                == VfsCause::Metadata(err),
        }
    }

    /// `r` is what listing the path gives: what [`lists_from`] has for what
    /// the path resolves to.
    ///
    /// [`lists_from`]: IVFCVPATH::lists_from
    pub open spec fn lists_as(&self, r: Result<FileNameIterator<T>, VfsError>) -> bool {
        exists|found: Result<DirectoryOrFile, GetMetadataError>| #[trigger]
            self.resolves_to(found) && self.lists_from(found, r)
    }

    /// A window on the bytes of the file that `file_meta` describes.
    ///
    /// The window is as long as the record says the file is. A file whose
    /// bytes would end past what 64 bits can address is refused as invalid
    /// data.
    pub fn open_file(&self, file_meta: &FileMetadata) -> (r: Result<PartitionMutex<T>, VfsError>)
        ensures
            self.opened_as(file_meta@, r),
    {
        let start = match self.reader.file_data_offset.checked_add(file_meta.offset_file_data) {
            Some(start) => start,
            None => {
                return Err(outside_the_source());
            },
        };
        if start.checked_add(file_meta.lenght_file_data).is_none() {
            return Err(outside_the_source());
        }
        match PartitionMutex::new(share(&self.reader.file), start, file_meta.lenght_file_data) {
            Ok(value) => {
                proof {
                    let (before, after) = choose|before: T, after: T| #[trigger]
                        sent_to(&before, &after, start as int, true);
                    assert(sent_to(
                        &before,
                        &after,
                        self.reader().file_data_offset + file_meta.offset_file_data,
                        true,
                    ));
                }
                Ok(value)
            },
            Err(err) => {
                proof {
                    if !is_poisoned(err) {
                        let (before, after) = choose|before: T, after: T| #[trigger]
                            sent_to(&before, &after, start as int, false);
                        assert(sent_to(
                            &before,
                            &after,
                            self.reader().file_data_offset + file_meta.offset_file_data,
                            false,
                        ));
                    }
                }
                Err(VfsError { kind: IoErrorKind::Other, cause: VfsCause::Window(err) })
            },
        }
    }

    /// Opens the file at the path, for reading only.
    ///
    /// Options that ask for writing, creating, appending or truncating are
    /// refused before anything is looked up. A path that does not resolve is
    /// not found, and a directory is invalid data.
    pub fn open_with_options(&self, opt: &OpenOptions) -> (r: Result<PartitionMutex<T>, VfsError>)
        requires
            self.reader().wf(),
        ensures
            opt.writes() ==> (r matches Err(e) && e.kind == IoErrorKind::PermissionDenied && e.cause
                is Words),
            !opt.writes() ==> self.opens(r),
            !opt.writes() && split_path(self.path()).len() == 0 ==> (r matches Err(e) && e.kind
                == IoErrorKind::InvalidData),
            match r {
                Ok(opened) => {
                    &&& !opt.writes()
                    &&& opened.bounded()
                    &&& opened.pointer() == opened.window_start()
                    &&& opened.window_start() >= self.reader().file_data_offset
                },
                Err(e) => {
                    &&& e.kind == IoErrorKind::PermissionDenied <==> opt.writes()
                    &&& e.kind == IoErrorKind::NotFound <==> e.cause is Metadata
                    &&& e.kind == IoErrorKind::PermissionDenied || e.kind == IoErrorKind::NotFound
                        || e.kind == IoErrorKind::InvalidData || e.kind == IoErrorKind::Other
                },
            },
    {
        if opt.write || opt.create || opt.append || opt.truncate {
            return return_ro_error();
        }
        let found = self.get_internal_meta();
        let ghost resolved = found;
        let r = self.open_resolved(found);
        assert(self.resolves_to(resolved) && self.opens_from(resolved, r));
        r
    }

    /// Opens what the path resolved to: `found` is what resolving it gave.
    ///
    /// A file opens as a window on its bytes. A directory is invalid data.
    /// A path that did not resolve is not found, and the error of the
    /// resolution is the cause.
    pub fn open_resolved(&self, found: Result<DirectoryOrFile, GetMetadataError>) -> (r: Result<
        PartitionMutex<T>,
        VfsError,
    >)
        ensures
            self.opens_from(found, r),
    {
        match found {
            Ok(DirectoryOrFile::File(file_meta)) => self.open_file(&file_meta),
            Ok(DirectoryOrFile::Dir(_)) => Err(
                VfsError {
                    kind: IoErrorKind::InvalidData,
                    cause: VfsCause::Words("trying to open a directory"),
                },
            ),
            Err(err) => Err(err.to_io_error()),
        }
    }

    /// The children of the directory at the path, as paths below it: its
    /// files, then its subdirectories. A path that does not resolve is not
    /// found, and a file is invalid data.
    pub fn read_dir(&self) -> (r: Result<FileNameIterator<T>, VfsError>)
        requires
            self.reader().wf(),
        ensures
            self.lists_as(r),
            split_path(self.path()).len() == 0 && self.reader().first_dir_metadata.offset_first_subdir
                is None && self.reader().first_dir_metadata.offset_first_file is None ==> (
            r matches Ok(entries) && entries.names().len() == 0),
            r matches Err(e) ==> {
                &&& e.kind == IoErrorKind::NotFound <==> e.cause is Metadata
                &&& e.kind == IoErrorKind::Other <==> e.cause is Reader
                &&& e.kind == IoErrorKind::InvalidData <==> e.cause is Words
            },
    {
        let found = self.get_internal_meta();
        let ghost resolved = found;
        let r = self.list_resolved(found);
        assert(self.resolves_to(resolved) && self.lists_from(resolved, r));
        r
    }

    /// Lists what the path resolved to: `found` is what resolving it gave.
    ///
    /// A directory gives its children as paths below this one, as the
    /// reader lists them, or the error of the reader. A file is invalid
    /// data. A path that did not resolve is not found, and the error of the
    /// resolution is the cause.
    pub fn list_resolved(&self, found: Result<DirectoryOrFile, GetMetadataError>) -> (r: Result<
        FileNameIterator<T>,
        VfsError,
    >)
        requires
            self.reader().wf(),
        ensures
            self.lists_from(found, r),
    {
        match found {
            Ok(DirectoryOrFile::Dir(dir_meta)) => {
                match self.reader.list_child(&dir_meta) {
                    Ok(child_list) => {
                        assert(self.reader().lists(
                            dir_meta@,
                            Ok::<Vec<String>, IVFCError>(child_list),
                        ));
                        let ghost listed = child_list;
                        let entries = FileNameIterator::new(child_list, self.clone());
                        assert(entries.names() == names_of(listed@));
                        Ok(entries)
                    },
                    Err(err) => Err(
                        VfsError { kind: IoErrorKind::Other, cause: VfsCause::Reader(err) },
                    ),
                }
            },
            Ok(DirectoryOrFile::File(_)) => Err(
                VfsError {
                    kind: IoErrorKind::InvalidData,
                    cause: VfsCause::Words("trying to list content for a file"),
                },
            ),
            Err(err) => Err(err.to_io_error()),
        }
    }

    /// Refuses: no directory is ever made.
    pub fn mkdir(&self) -> (r: Result<(), VfsError>)
        ensures
            r matches Err(e) && e.kind == IoErrorKind::PermissionDenied,
    {
        return_ro_error()
    }

    /// Refuses: nothing is ever removed.
    pub fn rm(&self) -> (r: Result<(), VfsError>)
        ensures
            r matches Err(e) && e.kind == IoErrorKind::PermissionDenied,
    {
        return_ro_error()
    }

    /// Refuses: nothing is ever removed.
    pub fn rmrf(&self) -> (r: Result<(), VfsError>)
        ensures
            r matches Err(e) && e.kind == IoErrorKind::PermissionDenied,
    {
        return_ro_error()
    }

    /// The last component of the path, as the file paths of the machine
    /// have it. The empty path has none.
    pub fn file_name(&self) -> (r: Option<String>)
        ensures
            self.path().len() == 0 ==> r is None,
    {
        last_component(self.path.as_str())
    }

    /// The extension of the last component of the path, as the file paths of
    /// the machine have it: what follows its last dot. The empty path has
    /// none.
    pub fn extension(&self) -> (r: Option<String>)
        ensures
            self.path().len() == 0 ==> r is None,
            r matches Some(extension) ==> !extension@.contains('.'),
    {
        last_extension(self.path.as_str())
    }

    /// The path of `path` below this one. A `path` that starts with a slash
    /// is a path from the root, and takes the place of this one.
    pub fn resolve(&self, path: &String) -> (r: IVFCVPATH<T>)
        ensures
            r.reader() == self.reader(),
            r.path() == join(self.path(), path@),
    {
        IVFCVPATH {
            reader: share(&self.reader),
            path: join_paths(self.path.as_str(), path.as_str()),
        }
    }

    /// The path above this one. The root has none.
    pub fn parent(&self) -> (r: Option<IVFCVPATH<T>>)
        ensures
            match r {
                Some(above) => above.reader() == self.reader() && parent_of(self.path()) == Some(
                    above.path(),
                ),
                None => parent_of(self.path()) is None,
            },
    {
        match parent_path(self.path.as_str()) {
            Some(path) => Some(IVFCVPATH { reader: share(&self.reader), path }),
            None => None,
        }
    }

    /// The path after `romfs://`.
    pub fn to_string(&self) -> (r: String)
        ensures
            r@ == "romfs://"@ + self.path(),
    {
        String::from_str("romfs://").concat(self.path.as_str())
    }

    /// Whether the path resolves: whether resolving it gives a directory or
    /// a file, and no error. The root always does.
    pub fn path_exists(&self) -> (r: bool)
        requires
            self.reader().wf(),
        ensures
            split_path(self.path()).len() == 0 ==> r,
            if r {
                exists|found: DirectoryOrFile| #[trigger]
                    self.resolves_to(Ok::<DirectoryOrFile, GetMetadataError>(found))
            } else {
                exists|err: GetMetadataError| #[trigger]
                    self.resolves_to(Err::<DirectoryOrFile, GetMetadataError>(err))
            },
    {
        match self.get_internal_meta() {
            Ok(meta) => {
                assert(self.resolves_to(Ok::<DirectoryOrFile, GetMetadataError>(meta)));
                true
            },
            Err(err) => {
                assert(self.resolves_to(Err::<DirectoryOrFile, GetMetadataError>(err)));
                false
            },
        }
    }

    /// What the path stands for: a directory, or a file of the length that
    /// its record gives. A path that does not resolve is not found, with the
    /// error of the resolution as the cause.
    pub fn metadata(&self) -> (r: Result<IVFCMeta, VfsError>)
        requires
            self.reader().wf(),
        ensures
            split_path(self.path()).len() == 0 ==> r matches Ok(IVFCMeta::Dir),
            match r {
                Ok(meta) => exists|found: DirectoryOrFile| #[trigger]
                    self.resolves_to(Ok::<DirectoryOrFile, GetMetadataError>(found)) && meta
                        == meta_of(found@),
                Err(e) => {
                    &&& e.kind == IoErrorKind::NotFound
                    &&& e.cause matches VfsCause::Metadata(err) && self.resolves_to(
                        Err::<DirectoryOrFile, GetMetadataError>(err),
                    )
                },
            },
    {
        match self.get_internal_meta() {
            Ok(metadata) => {
                assert(self.resolves_to(Ok::<DirectoryOrFile, GetMetadataError>(metadata)));
                Ok(IVFCMeta::of(&metadata))
            },
            Err(err) => {
                assert(self.resolves_to(Err::<DirectoryOrFile, GetMetadataError>(err)));
                Err(err.to_io_error())
            },
        }
    }
}

/// What is reported of a file whose bytes cannot be addressed.
fn outside_the_source() -> (e: VfsError)
    ensures
        e.kind == IoErrorKind::InvalidData,
        e.cause is Words,
{
    VfsError {
        kind: IoErrorKind::InvalidData,
        cause: VfsCause::Words("the file ends past the addressable range"),
    }
}

/// The children of a directory, as paths, one at a time.
#[verifier::reject_recursive_types(T)]
pub struct FileNameIterator<T: ByteSource> {
    childs: Vec<String>,
    given: usize,
    child_of: IVFCVPATH<T>,
}

impl<T: ByteSource> FileNameIterator<T> {
    /// The directory whose children these are.
    pub closed spec fn child_of(&self) -> IVFCVPATH<T> {
        self.child_of
    }

    /// The names that are still to come.
    pub closed spec fn names(&self) -> Seq<Seq<char>> {
        names_of(self.childs@).skip(self.given as int)
    }

    /// No more names are given than there are.
    pub closed spec fn wf(&self) -> bool {
        self.given <= self.childs@.len()
    }

    /// The children of `child_of` that are named `childs`.
    pub fn new(childs: Vec<String>, child_of: IVFCVPATH<T>) -> (r: FileNameIterator<T>)
        ensures
            r.wf(),
            r.child_of() == child_of,
            r.names() == names_of(childs@),
    {
        assert(names_of(childs@).skip(0) =~= names_of(childs@));
        FileNameIterator { childs, given: 0, child_of }
    }

    /// The path of the next child, where one is left.
    pub fn next(&mut self) -> (r: Option<IVFCVPATH<T>>)
        requires
            old(self).wf(),
        ensures
            final(self).wf(),
            final(self).child_of() == old(self).child_of(),
            match r {
                Some(path) => {
                    &&& old(self).names().len() > 0
                    &&& path.reader() == old(self).child_of().reader()
                    &&& path.path() == join(old(self).child_of().path(), old(self).names()[0])
                    &&& final(self).names() == old(self).names().skip(1)
                },
                None => old(self).names().len() == 0 && final(self).names() == old(self).names(),
            },
    {
        if self.given < self.childs.len() {
            let path = self.child_of.resolve(&self.childs[self.given]);
            proof {
                let all = names_of(self.childs@);
                assert(all.skip(self.given as int).skip(1) =~= all.skip(self.given + 1));
            }
            self.given += 1;
            Some(path)
        } else {
            None
        }
    }
}

/// The window on a file is as long as the metadata of the file say it is.
pub proof fn lemma_window_has_metadata_length(
    file: FileRecord,
    window_start: u64,
    window_end: u64,
)
    requires
        window_end == window_start + file.lenght_file_data,
    ensures
        window_end - window_start == meta_of(Child::File(file)).spec_len(),
{
}

/// A file is read to its end by one read that is long enough: where the
/// bytes of the file lie inside a dependable source, a read through the
/// window on the file, from its start, into a buffer that is not shorter
/// than the file, gives as many bytes as the metadata of the file say, and
/// they are the bytes of the file.
pub proof fn lemma_file_is_read_whole<T: ByteSource>(
    file: FileRecord,
    before: &T,
    after: &T,
    had: Seq<u8>,
    has: Seq<u8>,
    window_start: u64,
    window_end: u64,
    r: (u64, Result<usize, IoError>),
)
    requires
        before.modeled(),
        before.dependable(),
        window_end == window_start + file.lenght_file_data,
        window_end <= before.bytes().len(),
        had.len() >= file.lenght_file_data,
        read_through(before, after, had, has, window_end, window_start, r),
    ensures
        r.1 matches Ok(n) && n == meta_of(Child::File(file)).spec_len(),
        r.0 == window_end,
        has.take(file.lenght_file_data as int) == before.bytes().subrange(
            window_start as int,
            window_end as int,
        ),
{
    let n = file.lenght_file_data;
    if n == 0 {
        assert(has.take(0) =~= before.bytes().subrange(window_start as int, window_end as int));
    }
}

} // verus!
