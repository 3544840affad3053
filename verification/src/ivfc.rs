//! The directory tree of a RomFS.
//!
//! A RomFS starts with an IVFC header. Its third level, at offset 0x1000,
//! holds a table of directory records, a table of file records, and the
//! bytes of the files. A directory record names its first subdirectory and
//! its first file; each record names its next sibling. Nothing is kept in
//! memory: every lookup walks those chains in the source.

use crate::bytes::{
    field, is_magic, read_2, read_4, read_8, read_fails, u16_from_le, u32_from_le, u64_from_le,
};
use crate::shared::{acquire, new_lock, protected};
use crate::source::{same_source, span, ByteSource, IoError, IoErrorKind, SeekFrom};
use std::string::FromUtf16Error;
use std::sync::Arc;
use std::sync::Mutex;
use vstd::prelude::*;

verus! {

/// `std::string::FromUtf16Error`: the error of `String::from_utf16`. It is
/// carried along as the cause, and not looked into.
#[verifier::external_type_specification]
#[verifier::external_body]
pub struct ExFromUtf16Error(std::string::FromUtf16Error);

/// Why a RomFS was not read, or a name in it not found.
///
/// The errors on a field carry a few words that say which field it was.
#[derive(Debug)]
pub enum IVFCError {
    ReadError(IoError, &'static str),
    SeekError(IoError, &'static str),
    /// The four bytes found where `IVFC` should stand.
    FirstMagicError([u8; 4]),
    /// The four bytes found where the version should stand.
    SecondMagicError([u8; 4]),
    /// The length found where that of the level 3 header, 0x28, should stand.
    Level3HeaderLenghtInvalid(u32),
    /// A name whose length in bytes is odd: the field, and the length.
    UTF16LenghtNonMultiple2(&'static str, u32),
    ToUTF16Error(FromUtf16Error, &'static str),
    DirNotFound,
    FileNotFound,
    Poisoned,
}

impl IVFCError {
    /// The error comes from reading a record: from the source, or from a
    /// name that is no UTF-16 string.
    pub open spec fn is_read_failure(&self) -> bool {
        self is ReadError || self is SeekError || self is UTF16LenghtNonMultiple2
            || self is ToUTF16Error
    }
}

/// What is wrong with a record, or with the chain that it stands in.
#[derive(Debug)]
pub enum Fault {
    /// The data ends before the record does.
    Truncated,
    /// The name takes an odd number of bytes.
    OddNameLength(u32),
    /// The name is not UTF-16.
    BadName,
    /// The chain has more records than there are offsets.
    Endless,
}

/// `e` is an error that a source which is `dependable` or not gives on a
/// record with this fault, or with none.
pub open spec fn explains(e: IVFCError, dependable: bool, fault: Option<Fault>) -> bool {
    match e {
        IVFCError::ReadError(io, _) => {
            ||| !dependable
            ||| fault == Some(Fault::Truncated)
            ||| fault == Some(Fault::Endless) && io.kind == IoErrorKind::InvalidData
        },
        IVFCError::SeekError(_, _) => !dependable || fault == Some(Fault::Truncated),
        IVFCError::UTF16LenghtNonMultiple2(_, lenght) => fault == Some(Fault::OddNameLength(lenght)),
        IVFCError::ToUTF16Error(_, _) => fault == Some(Fault::BadName),
        _ => false,
    }
}

/// The fault of an outcome, if it has one.
pub open spec fn fault_of<R>(outcome: Result<R, Fault>) -> Option<Fault> {
    match outcome {
        Ok(_) => None,
        Err(fault) => Some(fault),
    }
}

/// The string that UTF-16 code units decode to; `None` where they hold a
/// surrogate without its partner.
pub uninterp spec fn utf16_decoded(units: Seq<u16>) -> Option<Seq<char>>;

/// `String::from_utf16`: the string that the code units decode to, or an
/// error where they are not UTF-16.
#[verifier::external_body]
fn decode_utf16(units: &Vec<u16>) -> (r: Result<String, FromUtf16Error>)
    ensures
        match r {
            Ok(s) => utf16_decoded(units@) == Some(s@),
            Err(_) => utf16_decoded(units@) is None,
        },
{
    String::from_utf16(units)
}

/// The `count` little-endian code units of `data` at offset `at`.
pub open spec fn units_at(data: Seq<u8>, at: nat, count: nat) -> Seq<u16> {
    Seq::new(count, |i: int| field(data, (at + 2 * i) as nat, 2) as u16)
}

/// The offset in the four bytes of `data` at `at`, where 0xFFFF_FFFF stands
/// for none.
pub open spec fn link_at(data: Seq<u8>, at: nat) -> Option<u32> {
    if field(data, at, 4) == 0xFFFF_FFFF {
        None
    } else {
        Some(field(data, at, 4) as u32)
    }
}

/// The name whose length in bytes stands in `data` at `at`, followed by its
/// UTF-16 code units.
pub open spec fn name_at(data: Seq<u8>, at: nat) -> Result<Seq<char>, Fault> {
    let lenght = field(data, at, 4);
    if data.len() < at + 4 {
        Err(Fault::Truncated)
    } else if lenght % 2 != 0 {
        Err(Fault::OddNameLength(lenght as u32))
    } else if data.len() < at + 4 + lenght {
        Err(Fault::Truncated)
    } else {
        match utf16_decoded(units_at(data, at + 4, lenght / 2)) {
            Some(name) => Ok(name),
            None => Err(Fault::BadName),
        }
    }
}

/// Reads a `u32`. `what` says which one, for the error.
#[allow(non_snake_case)]
pub fn IVFC_read_u32<T: ByteSource>(file: &mut T, what: &'static str) -> (r: Result<u32, IVFCError>)
    requires
        old(file).wf(),
    ensures
        same_source(old(file), final(file)),
        r matches Err(e) ==> e.is_read_failure(),
        r is Ok ==> final(file).wf(),
        old(file).modeled() ==> match r {
            Ok(v) => {
                &&& final(file).position() == old(file).position() + 4
                &&& old(file).position() + 4 <= old(file).bytes().len()
                &&& v == field(old(file).bytes(), old(file).position(), 4)
            },
            Err(IVFCError::ReadError(_, tag)) => {
                &&& tag == what
                &&& read_fails(old(file).bytes(), old(file).dependable(), old(file).position(), 4)
            },
            Err(_) => false,
        },
{
    match read_4(file) {
        Ok(buffer) => Ok(u32_from_le(&buffer)),
        Err(err) => Err(IVFCError::ReadError(err, what)),
    }
}

/// Reads a `u64`. `what` says which one, for the error.
#[allow(non_snake_case)]
pub fn IVFC_read_u64<T: ByteSource>(file: &mut T, what: &'static str) -> (r: Result<u64, IVFCError>)
    requires
        old(file).wf(),
    ensures
        same_source(old(file), final(file)),
        r matches Err(e) ==> e.is_read_failure(),
        r is Ok ==> final(file).wf(),
        old(file).modeled() ==> match r {
            Ok(v) => {
                &&& final(file).position() == old(file).position() + 8
                &&& old(file).position() + 8 <= old(file).bytes().len()
                &&& v == field(old(file).bytes(), old(file).position(), 8)
            },
            Err(IVFCError::ReadError(_, tag)) => {
                &&& tag == what
                &&& read_fails(old(file).bytes(), old(file).dependable(), old(file).position(), 8)
            },
            Err(_) => false,
        },
{
    match read_8(file) {
        Ok(buffer) => Ok(u64_from_le(&buffer)),
        Err(err) => Err(IVFCError::ReadError(err, what)),
    }
}

/// Reads a UTF-16 string of `lenght` bytes. `what` says which one, for the
/// error. An odd length is refused before anything is read.
#[allow(non_snake_case)]
pub fn IVFC_read_utf_16<T: ByteSource>(file: &mut T, lenght: u32, what: &'static str) -> (r: Result<
    String,
    IVFCError,
>)
    requires
        old(file).wf(),
    ensures
        same_source(old(file), final(file)),
        r matches Err(e) ==> e.is_read_failure(),
        r is Ok ==> final(file).wf(),
        lenght % 2 != 0 ==> (r matches Err(IVFCError::UTF16LenghtNonMultiple2(tag, found)) && tag
            == what && found == lenght && *final(file) == *old(file)),
        lenght % 2 == 0 ==> !(r matches Err(IVFCError::UTF16LenghtNonMultiple2(_, _))),
        old(file).modeled() ==> match r {
            Ok(s) => {
                &&& final(file).position() == old(file).position() + lenght
                &&& lenght % 2 == 0
                &&& lenght > 0 ==> old(file).position() + lenght <= old(file).bytes().len()
                &&& utf16_decoded(
                    units_at(old(file).bytes(), old(file).position(), (lenght / 2) as nat),
                ) == Some(s@)
            },
            Err(IVFCError::UTF16LenghtNonMultiple2(tag, found)) => {
                &&& tag == what
                &&& found == lenght
                &&& lenght % 2 != 0
                &&& *final(file) == *old(file)
            },
            Err(IVFCError::ReadError(_, tag)) => {
                &&& tag == what
                &&& lenght % 2 == 0
                &&& read_fails(
                    old(file).bytes(),
                    old(file).dependable(),
                    old(file).position(),
                    lenght as nat,
                )
            },
            Err(IVFCError::ToUTF16Error(_, tag)) => {
                &&& tag == what
                &&& lenght % 2 == 0
                &&& lenght > 0 ==> old(file).position() + lenght <= old(file).bytes().len()
                &&& utf16_decoded(
                    units_at(old(file).bytes(), old(file).position(), (lenght / 2) as nat),
                ) is None
            },
            Err(_) => false,
        },
{
    if lenght % 2 != 0 {
        return Err(IVFCError::UTF16LenghtNonMultiple2(what, lenght));
    }
    let ghost data = file.bytes();
    let ghost start = file.position();
    let count: u32 = lenght / 2;
    let mut string_numbered: Vec<u16> = Vec::new();
    let mut done: u32 = 0;
    while done < count
        invariant
            done <= count,
            count * 2 == lenght,
            data == old(file).bytes(),
            start == old(file).position(),
            file.wf(),
            same_source(old(file), file),
            file.modeled() ==> {
                &&& file.position() == start + 2 * done
                &&& done > 0 ==> start + 2 * done <= data.len()
                &&& string_numbered@ == units_at(data, start, done as nat)
            },
        decreases count - done,
    {
        let buffer = match read_2(file) {
            Ok(buffer) => buffer,
            Err(err) => {
                return Err(IVFCError::ReadError(err, what));
            },
        };
        string_numbered.push(u16_from_le(&buffer));
        done += 1;
        assert(file.modeled() ==> string_numbered@ =~= units_at(data, start, done as nat));
    }
    match decode_utf16(&string_numbered) {
        Ok(value) => Ok(value),
        Err(err) => Err(IVFCError::ToUTF16Error(err, what)),
    }
}

/// What a directory record says.
pub struct DirRecord {
    pub offset_parent: Option<u32>,
    pub offset_next_sibling: Option<u32>,
    pub offset_first_subdir: Option<u32>,
    pub offset_first_file: Option<u32>,
    pub name: Option<Seq<char>>,
}

/// What a file record says.
pub struct FileRecord {
    pub offset_parent: u32,
    pub offset_sibling: Option<u32>,
    pub offset_file_data: u64,
    pub lenght_file_data: u64,
    pub name: Seq<char>,
}

/// The number of bytes that are read of the directory record of `data` at
/// `at`: five offsets for the root, whose name is not looked for; five
/// offsets, the length of the name and the name for every other.
pub open spec fn dir_record_len(data: Seq<u8>, at: nat, is_root: bool) -> nat {
    if is_root {
        20
    } else {
        24 + field(data, at + 20, 4)
    }
}

/// The number of bytes that are read of the file record of `data` at `at`:
/// 32 before the name, and the name.
pub open spec fn file_record_len(data: Seq<u8>, at: nat) -> nat {
    32 + field(data, at + 28, 4)
}

/// The directory record of `data` at `at`. The record of the root has no
/// name; every other has one after its five offsets.
pub open spec fn dir_record(data: Seq<u8>, at: nat, is_root: bool) -> Result<DirRecord, Fault> {
    let head = DirRecord {
        offset_parent: Some(field(data, at, 4) as u32),
        offset_next_sibling: link_at(data, at + 4),
        offset_first_subdir: link_at(data, at + 8),
        offset_first_file: link_at(data, at + 12),
        name: None,
    };
    if data.len() < at + 20 {
        Err(Fault::Truncated)
    } else if is_root {
        Ok(head)
    } else {
        match name_at(data, at + 20) {
            Ok(name) => Ok(DirRecord { name: Some(name), ..head }),
            Err(fault) => Err(fault),
        }
    }
}

/// The file record of `data` at `at`.
pub open spec fn file_record(data: Seq<u8>, at: nat) -> Result<FileRecord, Fault> {
    if data.len() < at + 28 {
        Err(Fault::Truncated)
    } else {
        match name_at(data, at + 28) {
            Ok(name) => Ok(
                FileRecord {
                    offset_parent: field(data, at, 4) as u32,
                    offset_sibling: link_at(data, at + 4),
                    offset_file_data: field(data, at + 8, 8) as u64,
                    lenght_file_data: field(data, at + 16, 8) as u64,
                    name,
                },
            ),
            Err(fault) => Err(fault),
        }
    }
}

/// Reading the directory record of `data` at `at` stopped at the field that
/// `what` names, which could not be read: what came before it was there.
pub open spec fn dir_read_stops(data: Seq<u8>, dependable: bool, at: nat, what: Seq<char>) -> bool {
    ||| what == "offset of the parent directory in a directory metadata"@ && read_fails(
        data,
        dependable,
        at,
        4,
    )
    ||| what == "offset of the next sibling directory in a directory metadata"@ && data.len()
        >= at + 4 && read_fails(data, dependable, at + 4, 4)
    ||| what == "offset of the first subdirectory in a directory metadata"@ && data.len() >= at
        + 8 && read_fails(data, dependable, at + 8, 4)
    ||| what == "offset of the first file in a directory metadata"@ && data.len() >= at + 12
        && read_fails(data, dependable, at + 12, 4)
    ||| what == "offset of the next directory in the same hash table in a directory metadata"@
        && data.len() >= at + 16 && read_fails(data, dependable, at + 16, 4)
    ||| what == "lenght of the name of a directory"@ && data.len() >= at + 20 && read_fails(
        data,
        dependable,
        at + 20,
        4,
    )
    ||| what == "directory name"@ && data.len() >= at + 24 && read_fails(
        data,
        dependable,
        at + 24,
        field(data, at + 20, 4),
    )
}

/// The directory record of `data` at `at` is refused with `e`, by a source
/// that is `dependable` or not: the error fits what is wrong with the
/// record, and names the field at which reading stopped.
pub open spec fn dir_refusal(
    data: Seq<u8>,
    dependable: bool,
    at: nat,
    is_root: bool,
    e: IVFCError,
) -> bool {
    &&& explains(e, dependable, fault_of(dir_record(data, at, is_root)))
    &&& match e {
        IVFCError::ReadError(_, what) => dir_read_stops(data, dependable, at, what@),
        IVFCError::UTF16LenghtNonMultiple2(what, _) => what@ == "directory name"@,
        IVFCError::ToUTF16Error(_, what) => what@ == "directory name"@,
        _ => false,
    }
}

/// Reading the file record of `data` at `at` stopped at the field that
/// `what` names, which could not be read: what came before it was there.
pub open spec fn file_read_stops(data: Seq<u8>, dependable: bool, at: nat, what: Seq<char>) -> bool {
    ||| what == "an offset of the parent of a file metadata"@ && read_fails(
        data,
        dependable,
        at,
        4,
    )
    ||| what == "an offset the sibling of a file metadata"@ && data.len() >= at + 4
        && read_fails(data, dependable, at + 4, 4)
    ||| what == "the offset of a file in a file metadata"@ && data.len() >= at + 8 && read_fails(
        data,
        dependable,
        at + 8,
        8,
    )
    ||| what == "the lenght of a file in a file metadata"@ && data.len() >= at + 16
        && read_fails(data, dependable, at + 16, 8)
    ||| what == "the offset of the next file in it's Hash Table Bucket in a file metadata"@
        && data.len() >= at + 24 && read_fails(data, dependable, at + 24, 4)
    ||| what == "the lenght of a name of a file"@ && data.len() >= at + 28 && read_fails(
        data,
        dependable,
        at + 28,
        4,
    )
    ||| what == "file name"@ && data.len() >= at + 32 && read_fails(
        data,
        dependable,
        at + 32,
        field(data, at + 28, 4),
    )
}

/// The file record of `data` at `at` is refused with `e`, by a source that
/// is `dependable` or not: the error fits what is wrong with the record, and
/// names the field at which reading stopped.
pub open spec fn file_refusal(data: Seq<u8>, dependable: bool, at: nat, e: IVFCError) -> bool {
    &&& explains(e, dependable, fault_of(file_record(data, at)))
    &&& match e {
        IVFCError::ReadError(_, what) => file_read_stops(data, dependable, at, what@),
        IVFCError::UTF16LenghtNonMultiple2(what, _) => what@ == "file name"@,
        IVFCError::ToUTF16Error(_, what) => what@ == "file name"@,
        _ => false,
    }
}

/// A directory or a file: what a name in a directory stands for.
#[derive(Debug)]
pub enum DirectoryOrFile {
    Dir(DirectoryMetadata),
    File(FileMetadata),
}

impl Clone for DirectoryOrFile {
    fn clone(&self) -> (r: Self)
        ensures
            r == *self,
    {
        match self {
            DirectoryOrFile::Dir(dir) => DirectoryOrFile::Dir(dir.clone()),
            DirectoryOrFile::File(file) => DirectoryOrFile::File(file.clone()),
        }
    }
}

/// The record of a directory. The offsets count from the start of the table
/// of their kind.
#[derive(Debug)]
pub struct DirectoryMetadata {
    pub offset_parent: Option<u32>,
    pub offset_next_sibling: Option<u32>,
    pub offset_first_subdir: Option<u32>,
    pub offset_first_file: Option<u32>,
    /// `None` for the root, which has no name.
    pub name: Option<String>,
}

impl View for DirectoryMetadata {
    type V = DirRecord;

    open spec fn view(&self) -> DirRecord {
        DirRecord {
            offset_parent: self.offset_parent,
            offset_next_sibling: self.offset_next_sibling,
            offset_first_subdir: self.offset_first_subdir,
            offset_first_file: self.offset_first_file,
            name: match self.name {
                Some(name) => Some(name@),
                None => None,
            },
        }
    }
}

impl Clone for DirectoryMetadata {
    fn clone(&self) -> (r: Self)
        ensures
            r == *self,
    {
        DirectoryMetadata {
            offset_parent: self.offset_parent,
            offset_next_sibling: self.offset_next_sibling,
            offset_first_subdir: self.offset_first_subdir,
            offset_first_file: self.offset_first_file,
            name: match &self.name {
                Some(name) => Some(name.clone()),
                None => None,
            },
        }
    }
}

/// Reads an offset, where 0xFFFF_FFFF stands for none.
fn read_link<T: ByteSource>(file: &mut T, what: &'static str) -> (r: Result<Option<u32>, IVFCError>)
    requires
        old(file).wf(),
    ensures
        same_source(old(file), final(file)),
        r matches Err(e) ==> e.is_read_failure(),
        r is Ok ==> final(file).wf(),
        old(file).modeled() ==> match r {
            Ok(link) => {
                &&& final(file).position() == old(file).position() + 4
                &&& old(file).position() + 4 <= old(file).bytes().len()
                &&& link == link_at(old(file).bytes(), old(file).position())
            },
            Err(IVFCError::ReadError(_, tag)) => {
                &&& tag == what
                &&& read_fails(old(file).bytes(), old(file).dependable(), old(file).position(), 4)
            },
            Err(_) => false,
        },
{
    match IVFC_read_u32(file, what) {
        Ok(value) => if value == 0xFFFF_FFFF {
            Ok(None)
        } else {
            Ok(Some(value))
        },
        Err(err) => Err(err),
    }
}

impl DirectoryMetadata {
    /// Reads the directory record at the cursor of `file`.
    pub fn new<T: ByteSource>(file: &mut T, is_root: bool) -> (r: Result<
        DirectoryMetadata,
        IVFCError,
    >)
        requires
            old(file).wf(),
        ensures
            same_source(old(file), final(file)),
            r matches Err(e) ==> e.is_read_failure(),
            r is Ok ==> final(file).wf(),
            old(file).modeled() ==> match r {
                Ok(dir) => {
                    &&& dir_record(old(file).bytes(), old(file).position(), is_root) == Ok::<
                        DirRecord,
                        Fault,
                    >(dir@)
                    &&& final(file).position() == old(file).position() + dir_record_len(
                        old(file).bytes(),
                        old(file).position(),
                        is_root,
                    )
                },
                Err(e) => dir_refusal(
                    old(file).bytes(),
                    old(file).dependable(),
                    old(file).position(),
                    is_root,
                    e,
                ),
            },
    {
        let offset_parent = Some(
            IVFC_read_u32(file, "offset of the parent directory in a directory metadata")?,
        );
        let offset_next_sibling = read_link(
            file,
            "offset of the next sibling directory in a directory metadata",
        )?;
        let offset_first_subdir = read_link(
            file,
            "offset of the first subdirectory in a directory metadata",
        )?;
        let offset_first_file = read_link(file, "offset of the first file in a directory metadata")?;
        let _ = IVFC_read_u32(
            file,
            "offset of the next directory in the same hash table in a directory metadata",
        )?;

        let name;
        if !is_root {
            let name_lenght = IVFC_read_u32(file, "lenght of the name of a directory")?;
            name = Some(IVFC_read_utf_16(file, name_lenght, "directory name")?);
        } else {
            name = None;
        }
        Ok(
            DirectoryMetadata {
                offset_parent,
                offset_next_sibling,
                offset_first_subdir,
                offset_first_file,
                name,
            },
        )
    }
}

/// The record of a file. The offsets of records count from the start of the
/// table of their kind, that of the data from the start of the file data.
#[derive(Debug)]
pub struct FileMetadata {
    pub offset_parent: u32,
    pub offset_sibling: Option<u32>,
    pub offset_file_data: u64,
    pub lenght_file_data: u64,
    pub name: String,
}

impl View for FileMetadata {
    type V = FileRecord;

    open spec fn view(&self) -> FileRecord {
        FileRecord {
            offset_parent: self.offset_parent,
            offset_sibling: self.offset_sibling,
            offset_file_data: self.offset_file_data,
            lenght_file_data: self.lenght_file_data,
            name: self.name@,
        }
    }
}

impl Clone for FileMetadata {
    fn clone(&self) -> (r: Self)
        ensures
            r == *self,
    {
        FileMetadata {
            offset_parent: self.offset_parent,
            offset_sibling: self.offset_sibling,
            offset_file_data: self.offset_file_data,
            lenght_file_data: self.lenght_file_data,
            name: self.name.clone(),
        }
    }
}

impl FileMetadata {
    /// Reads the file record at the cursor of `file`.
    pub fn new<T: ByteSource>(file: &mut T) -> (r: Result<FileMetadata, IVFCError>)
        requires
            old(file).wf(),
        ensures
            same_source(old(file), final(file)),
            r matches Err(e) ==> e.is_read_failure(),
            r is Ok ==> final(file).wf(),
            old(file).modeled() ==> match r {
                Ok(found) => {
                    &&& file_record(old(file).bytes(), old(file).position()) == Ok::<
                        FileRecord,
                        Fault,
                    >(found@)
                    &&& final(file).position() == old(file).position() + file_record_len(
                        old(file).bytes(),
                        old(file).position(),
                    )
                },
                Err(e) => file_refusal(
                    old(file).bytes(),
                    old(file).dependable(),
                    old(file).position(),
                    e,
                ),
            },
    {
        let offset_parent = IVFC_read_u32(file, "an offset of the parent of a file metadata")?;
        let offset_sibling = read_link(file, "an offset the sibling of a file metadata")?;
        let offset_file_data = IVFC_read_u64(file, "the offset of a file in a file metadata")?;
        let lenght_file_data = IVFC_read_u64(file, "the lenght of a file in a file metadata")?;
        let _ = IVFC_read_u32(
            file,
            "the offset of the next file in it's Hash Table Bucket in a file metadata",
        )?;
        let name_lenght = IVFC_read_u32(file, "the lenght of a name of a file")?;
        let name = IVFC_read_utf_16(file, name_lenght, "file name")?;
        Ok(FileMetadata { offset_parent, offset_sibling, offset_file_data, lenght_file_data, name })
    }
}

/// What a name in a directory stands for, as the records say it.
pub enum Child {
    Dir(DirRecord),
    File(FileRecord),
}

impl Child {
    /// The name in the record; the root has none.
    pub open spec fn name(&self) -> Option<Seq<char>> {
        match self {
            Child::Dir(dir) => dir.name,
            Child::File(file) => Some(file.name),
        }
    }
}

impl View for DirectoryOrFile {
    type V = Child;

    open spec fn view(&self) -> Child {
        match self {
            DirectoryOrFile::Dir(dir) => Child::Dir(dir@),
            DirectoryOrFile::File(file) => Child::File(file@),
        }
    }
}

/// How the search for a name in a chain of siblings ends.
pub enum Lookup<R> {
    Found(R),
    Absent,
    Broken(Fault),
}

/// Why a directory has no child of a given name.
#[derive(Debug)]
pub enum Miss {
    /// No subdirectory has the name, and the directory has no files.
    NoSuchDir,
    /// No subdirectory has the name, and no file.
    NoSuchFile,
    /// A record on the way could not be read.
    Faulty(Fault),
}

/// The number of offsets that 32 bits can hold. A chain of siblings that
/// ends has fewer records.
pub open spec fn chain_limit() -> nat {
    0x1_0000_0000
}

/// The first directory named `name` in the chain of siblings that starts at
/// `link`, in the table at `base`. `fuel` bounds the steps.
pub open spec fn find_dir(
    data: Seq<u8>,
    base: nat,
    link: Option<u32>,
    name: Seq<char>,
    fuel: nat,
) -> Lookup<DirRecord>
    decreases fuel,
{
    match link {
        None => Lookup::Absent,
        Some(offset) => if fuel == 0 {
            Lookup::Broken(Fault::Endless)
        } else {
            match dir_record(data, base + offset as nat, false) {
                Err(fault) => Lookup::Broken(fault),
                Ok(record) => if record.name == Some(name) {
                    Lookup::Found(record)
                } else {
                    find_dir(data, base, record.offset_next_sibling, name, (fuel - 1) as nat)
                },
            }
        },
    }
}

/// The first file named `name` in the chain of siblings that starts at
/// `link`, in the table at `base`. `fuel` bounds the steps.
pub open spec fn find_file(
    data: Seq<u8>,
    base: nat,
    link: Option<u32>,
    name: Seq<char>,
    fuel: nat,
) -> Lookup<FileRecord>
    decreases fuel,
{
    match link {
        None => Lookup::Absent,
        Some(offset) => if fuel == 0 {
            Lookup::Broken(Fault::Endless)
        } else {
            match file_record(data, base + offset as nat) {
                Err(fault) => Lookup::Broken(fault),
                Ok(record) => if record.name == name {
                    Lookup::Found(record)
                } else {
                    find_file(data, base, record.offset_sibling, name, (fuel - 1) as nat)
                },
            }
        },
    }
}

/// The names of the directories in the chain of siblings that starts at
/// `link`, in the table at `base`, one for each record and in their order.
pub open spec fn dir_names(data: Seq<u8>, base: nat, link: Option<u32>, fuel: nat) -> Result<
    Seq<Seq<char>>,
    Fault,
>
    decreases fuel,
{
    match link {
        None => Ok(Seq::empty()),
        Some(offset) => if fuel == 0 {
            Err(Fault::Endless)
        } else {
            match dir_record(data, base + offset as nat, false) {
                Err(fault) => Err(fault),
                Ok(record) => after(
                    seq![record.name.unwrap()],
                    dir_names(data, base, record.offset_next_sibling, (fuel - 1) as nat),
                ),
            }
        },
    }
}

/// The names of the files in the chain of siblings that starts at `link`, in
/// the table at `base`, one for each record and in their order.
pub open spec fn file_names(data: Seq<u8>, base: nat, link: Option<u32>, fuel: nat) -> Result<
    Seq<Seq<char>>,
    Fault,
>
    decreases fuel,
{
    match link {
        None => Ok(Seq::empty()),
        Some(offset) => if fuel == 0 {
            Err(Fault::Endless)
        } else {
            match file_record(data, base + offset as nat) {
                Err(fault) => Err(fault),
                Ok(record) => after(
                    seq![record.name],
                    file_names(data, base, record.offset_sibling, (fuel - 1) as nat),
                ),
            }
        },
    }
}

/// `front` followed by what `rest` gives, where it gives anything.
pub open spec fn after(front: Seq<Seq<char>>, rest: Result<Seq<Seq<char>>, Fault>) -> Result<
    Seq<Seq<char>>,
    Fault,
> {
    match rest {
        Ok(names) => Ok(front + names),
        Err(fault) => Err(fault),
    }
}

/// The child named `name` of the directory `dir`: the first subdirectory of
/// that name, else the first file of that name.
pub open spec fn child(
    data: Seq<u8>,
    dir_base: nat,
    file_base: nat,
    dir: DirRecord,
    name: Seq<char>,
) -> Result<Child, Miss> {
    match find_dir(data, dir_base, dir.offset_first_subdir, name, chain_limit()) {
        Lookup::Found(record) => Ok(Child::Dir(record)),
        Lookup::Broken(fault) => Err(Miss::Faulty(fault)),
        Lookup::Absent => if dir.offset_first_file is None {
            Err(Miss::NoSuchDir)
        } else {
            match find_file(data, file_base, dir.offset_first_file, name, chain_limit()) {
                Lookup::Found(record) => Ok(Child::File(record)),
                Lookup::Broken(fault) => Err(Miss::Faulty(fault)),
                Lookup::Absent => Err(Miss::NoSuchFile),
            }
        },
    }
}

/// The names of the children of the directory `dir`: its files, then its
/// subdirectories.
pub open spec fn children(data: Seq<u8>, dir_base: nat, file_base: nat, dir: DirRecord) -> Result<
    Seq<Seq<char>>,
    Fault,
> {
    match file_names(data, file_base, dir.offset_first_file, chain_limit()) {
        Err(fault) => Err(fault),
        Ok(files) => after(
            files,
            dir_names(data, dir_base, dir.offset_first_subdir, chain_limit()),
        ),
    }
}

/// The fault that a search ran into, if it did.
pub open spec fn fault_in<R>(lookup: Lookup<R>) -> Option<Fault> {
    match lookup {
        Lookup::Broken(fault) => Some(fault),
        _ => None,
    }
}

/// The fault that kept a child from being found, if one did.
pub open spec fn fault_behind(outcome: Result<Child, Miss>) -> Option<Fault> {
    match outcome {
        Err(Miss::Faulty(fault)) => Some(fault),
        _ => None,
    }
}

/// The views of strings.
pub open spec fn names_of(strings: Seq<String>) -> Seq<Seq<char>> {
    strings.map_values(|s: String| s@)
}

/// A table may start anywhere that leaves room for a 32-bit offset.
pub open spec fn table_base(base: u64) -> bool {
    base <= u64::MAX - 0xFFFF_FFFF
}

/// The number of steps after which a chain is given up as endless.
pub const CHAIN_LIMIT: u64 = 0x1_0000_0000;

/// What is reported of a chain that does not end.
fn endless(what: &'static str) -> (e: IVFCError)
    ensures
        e matches IVFCError::ReadError(io, _) && io.kind == IoErrorKind::InvalidData,
{
    IVFCError::ReadError(IoError::new(IoErrorKind::InvalidData, "the chain of siblings does not end"), what)
}

/// Looks for the directory named `name` in the chain of siblings that starts
/// at `first`, in the table at `base`.
pub fn find_dir_in<T: ByteSource>(file: &mut T, base: u64, first: Option<u32>, name: &String) -> (r:
    Result<Option<DirectoryMetadata>, IVFCError>)
    requires
        table_base(base),
    ensures
        same_source(old(file), final(file)),
        r matches Err(e) ==> e.is_read_failure(),
        first is None ==> (r matches Ok(None)) && *final(file) == *old(file),
        r matches Ok(Some(dir)) ==> dir@.name == Some(name@) && first is Some,
        old(file).modeled() ==> match r {
            Ok(Some(dir)) => find_dir(old(file).bytes(), base as nat, first, name@, chain_limit())
                == Lookup::Found(dir@),
            Ok(None) => find_dir(old(file).bytes(), base as nat, first, name@, chain_limit())
                == Lookup::<DirRecord>::Absent,
            Err(e) => explains(
                e,
                old(file).dependable(),
                fault_in(find_dir(old(file).bytes(), base as nat, first, name@, chain_limit())),
            ),
        },
{
    let ghost data = file.bytes();
    let mut link = first;
    let mut steps: u64 = 0;
    loop
        invariant
            table_base(base),
            steps <= CHAIN_LIMIT,
            data == old(file).bytes(),
            same_source(old(file), file),
            first is None ==> link is None && *file == *old(file),
            file.modeled() ==> find_dir(data, base as nat, first, name@, chain_limit()) == find_dir(
                data,
                base as nat,
                link,
                name@,
                (chain_limit() - steps) as nat,
            ),
        decreases CHAIN_LIMIT - steps,
    {
        let offset = match link {
            Some(offset) => offset,
            None => {
                return Ok(None);
            },
        };
        if steps >= CHAIN_LIMIT {
            return Err(endless("a directory metadata"));
        }
        match file.seek(SeekFrom::Start(base + offset as u64)) {
            Ok(_) => {},
            Err(err) => {
                return Err(IVFCError::SeekError(err, "a directory metadata"));
            },
        }
        let actual_subdir = DirectoryMetadata::new(file, false)?;
        let matches = match &actual_subdir.name {
            Some(found) => *found == *name,
            None => false,
        };
        if matches {
            return Ok(Some(actual_subdir));
        }
        link = actual_subdir.offset_next_sibling;
        steps += 1;
    }
}

/// Looks for the file named `name` in the chain of siblings that starts at
/// `first`, in the table at `base`.
pub fn find_file_in<T: ByteSource>(file: &mut T, base: u64, first: Option<u32>, name: &String) -> (r:
    Result<Option<FileMetadata>, IVFCError>)
    requires
        table_base(base),
    ensures
        same_source(old(file), final(file)),
        r matches Err(e) ==> e.is_read_failure(),
        first is None ==> (r matches Ok(None)) && *final(file) == *old(file),
        r matches Ok(Some(found)) ==> found@.name == name@ && first is Some,
        old(file).modeled() ==> match r {
            Ok(Some(found)) => find_file(old(file).bytes(), base as nat, first, name@, chain_limit())
                == Lookup::Found(found@),
            Ok(None) => find_file(old(file).bytes(), base as nat, first, name@, chain_limit())
                == Lookup::<FileRecord>::Absent,
            Err(e) => explains(
                e,
                old(file).dependable(),
                fault_in(find_file(old(file).bytes(), base as nat, first, name@, chain_limit())),
            ),
        },
{
    let ghost data = file.bytes();
    let mut link = first;
    let mut steps: u64 = 0;
    loop
        invariant
            table_base(base),
            steps <= CHAIN_LIMIT,
            data == old(file).bytes(),
            same_source(old(file), file),
            first is None ==> link is None && *file == *old(file),
            file.modeled() ==> find_file(data, base as nat, first, name@, chain_limit()) == find_file(
                data,
                base as nat,
                link,
                name@,
                (chain_limit() - steps) as nat,
            ),
        decreases CHAIN_LIMIT - steps,
    {
        let offset = match link {
            Some(offset) => offset,
            None => {
                return Ok(None);
            },
        };
        if steps >= CHAIN_LIMIT {
            return Err(endless("a file metadata"));
        }
        match file.seek(SeekFrom::Start(base + offset as u64)) {
            Ok(_) => {},
            Err(err) => {
                return Err(IVFCError::SeekError(err, "a file metadata"));
            },
        }
        let actual_file = FileMetadata::new(file)?;
        if actual_file.name == *name {
            return Ok(Some(actual_file));
        }
        link = actual_file.offset_sibling;
        steps += 1;
    }
}

/// What a lookup of `name` in `dir` gives whatever the source holds: what
/// is found has the name and stands in a chain that `dir` has, and a name is
/// reported as no directory only where `dir` has no files.
pub open spec fn found_in(
    dir: DirRecord,
    name: Seq<char>,
    r: Result<DirectoryOrFile, IVFCError>,
) -> bool {
    match r {
        Ok(DirectoryOrFile::Dir(d)) => d@.name == Some(name) && dir.offset_first_subdir is Some,
        Ok(DirectoryOrFile::File(f)) => f@.name == name && dir.offset_first_file is Some,
        Err(IVFCError::DirNotFound) => dir.offset_first_file is None,
        Err(IVFCError::FileNotFound) => dir.offset_first_file is Some,
        Err(_) => true,
    }
}

/// What looking for the child named `name` of `dir` gives on the source
/// `before`, where `later` is the source afterwards and the tables stand at
/// `dir_base` and `file_base`.
///
/// Whatever the source, what is found is as `found_in` has it. On a source
/// that has a model, the outcome is the one that `child` gives; an error
/// fits what is wrong with the records, and a dependable source finds what
/// `child` finds.
pub open spec fn child_looked_up<T: ByteSource>(
    before: &T,
    later: &T,
    dir_base: u64,
    file_base: u64,
    dir: DirRecord,
    name: Seq<char>,
    r: Result<DirectoryOrFile, IVFCError>,
) -> bool {
    &&& same_source(before, later)
    &&& r matches Err(e) ==> e.is_read_failure() || e is DirNotFound || e is FileNotFound
    &&& found_in(dir, name, r)
    &&& before.modeled() ==> match r {
        Ok(found) => child(before.bytes(), dir_base as nat, file_base as nat, dir, name) == Ok::<
            Child,
            Miss,
        >(found@),
        Err(IVFCError::DirNotFound) => child(
            before.bytes(),
            dir_base as nat,
            file_base as nat,
            dir,
            name,
        ) == Err::<Child, Miss>(Miss::NoSuchDir),
        Err(IVFCError::FileNotFound) => child(
            before.bytes(),
            dir_base as nat,
            file_base as nat,
            dir,
            name,
        ) == Err::<Child, Miss>(Miss::NoSuchFile),
        Err(e) => explains(
            e,
            before.dependable(),
            fault_behind(child(before.bytes(), dir_base as nat, file_base as nat, dir, name)),
        ),
    }
    &&& before.modeled() && before.dependable() && child(
        before.bytes(),
        dir_base as nat,
        file_base as nat,
        dir,
        name,
    ) is Ok ==> r is Ok
}

/// Looks for the child named `name` of `dir`: among its subdirectories
/// first, then among its files.
///
/// Where neither has it, the error is `FileNotFound` if the directory has
/// files to look through, `DirNotFound` if it has none.
pub fn find_child<T: ByteSource>(
    file: &mut T,
    dir_base: u64,
    file_base: u64,
    dir: &DirectoryMetadata,
    name: &str,
) -> (r: Result<DirectoryOrFile, IVFCError>)
    requires
        table_base(dir_base),
        table_base(file_base),
    ensures
        child_looked_up(old(file), final(file), dir_base, file_base, dir@, name@, r),
{
    let wanted = String::from_str(name);
    match find_dir_in(file, dir_base, dir.offset_first_subdir, &wanted)? {
        Some(found) => {
            return Ok(DirectoryOrFile::Dir(found));
        },
        None => {},
    }
    if dir.offset_first_file.is_none() {
        return Err(IVFCError::DirNotFound);
    }
    match find_file_in(file, file_base, dir.offset_first_file, &wanted)? {
        Some(found) => Ok(DirectoryOrFile::File(found)),
        None => Err(IVFCError::FileNotFound),
    }
}

/// `longer` starts with `shorter`.
pub open spec fn extends<A>(longer: Seq<A>, shorter: Seq<A>) -> bool {
    shorter.len() <= longer.len() && longer.take(shorter.len() as int) =~= shorter
}

/// What listing the directories in the chain of siblings that starts at
/// `first`, in the table at `base`, gives on the source `before`: `later` is
/// the source afterwards, `had` and `has` are the list before and after.
///
/// Names are only added at the end. On a source that has a model, the names
/// added are those of the chain, one for each record and in their order; an
/// error fits what is wrong with the chain.
pub open spec fn dirs_listed<T: ByteSource>(
    before: &T,
    later: &T,
    base: u64,
    first: Option<u32>,
    had: Seq<String>,
    has: Seq<String>,
    r: Result<(), IVFCError>,
) -> bool {
    &&& same_source(before, later)
    &&& r matches Err(e) ==> e.is_read_failure()
    &&& extends(has, had)
    &&& first is None ==> r is Ok && later == before && has == had
    &&& before.modeled() ==> match r {
        Ok(_) => after(names_of(had), dir_names(before.bytes(), base as nat, first, chain_limit()))
            == Ok::<Seq<Seq<char>>, Fault>(names_of(has)),
        Err(e) => explains(
            e,
            before.dependable(),
            fault_of(dir_names(before.bytes(), base as nat, first, chain_limit())),
        ),
    }
}

/// What listing the files in the chain of siblings that starts at `first`,
/// in the table at `base`, gives on the source `before`: `later` is the
/// source afterwards, `had` and `has` are the list before and after.
///
/// Names are only added at the end. On a source that has a model, the names
/// added are those of the chain, one for each record and in their order; an
/// error fits what is wrong with the chain.
pub open spec fn files_listed<T: ByteSource>(
    before: &T,
    later: &T,
    base: u64,
    first: Option<u32>,
    had: Seq<String>,
    has: Seq<String>,
    r: Result<(), IVFCError>,
) -> bool {
    &&& same_source(before, later)
    &&& r matches Err(e) ==> e.is_read_failure()
    &&& extends(has, had)
    &&& first is None ==> r is Ok && later == before && has == had
    &&& before.modeled() ==> match r {
        Ok(_) => after(
            names_of(had),
            file_names(before.bytes(), base as nat, first, chain_limit()),
        ) == Ok::<Seq<Seq<char>>, Fault>(names_of(has)),
        Err(e) => explains(
            e,
            before.dependable(),
            fault_of(file_names(before.bytes(), base as nat, first, chain_limit())),
        ),
    }
}

/// What listing the children of `dir` gives on the source `before`, where
/// `after` is the source afterwards.
///
/// A directory without subdirectories and without files has no children. On
/// a source that has a model, the names are those that `children` gives; an
/// error fits what is wrong with the chains, and a dependable source gives
/// the names wherever the chains can be read.
pub open spec fn children_listed<T: ByteSource>(
    before: &T,
    after: &T,
    dir_base: u64,
    file_base: u64,
    dir: DirRecord,
    r: Result<Vec<String>, IVFCError>,
) -> bool {
    &&& same_source(before, after)
    &&& r matches Err(e) ==> e.is_read_failure()
    &&& dir.offset_first_subdir is None && dir.offset_first_file is None ==> (r matches Ok(
        childs,
    ) && childs@.len() == 0)
    &&& before.modeled() ==> match r {
        Ok(childs) => children(before.bytes(), dir_base as nat, file_base as nat, dir) == Ok::<
            Seq<Seq<char>>,
            Fault,
        >(names_of(childs@)),
        Err(e) => explains(
            e,
            before.dependable(),
            fault_of(children(before.bytes(), dir_base as nat, file_base as nat, dir)),
        ),
    }
    &&& before.modeled() && before.dependable() && children(
        before.bytes(),
        dir_base as nat,
        file_base as nat,
        dir,
    ) is Ok ==> r is Ok
}

/// Appends to `childs` the names of the directories in the chain of siblings
/// that starts at `first`, in the table at `base`.
pub fn list_dirs_in<T: ByteSource>(
    file: &mut T,
    base: u64,
    first: Option<u32>,
    childs: &mut Vec<String>,
) -> (r: Result<(), IVFCError>)
    requires
        table_base(base),
    ensures
        dirs_listed(old(file), final(file), base, first, old(childs)@, final(childs)@, r),
{
    let ghost data = file.bytes();
    let ghost whole = dir_names(data, base as nat, first, chain_limit());
    let mut link = first;
    let mut steps: u64 = 0;
    loop
        invariant
            table_base(base),
            steps <= CHAIN_LIMIT,
            data == old(file).bytes(),
            whole == dir_names(data, base as nat, first, chain_limit()),
            same_source(old(file), file),
            first is None ==> link is None && *file == *old(file) && childs@ == old(childs)@,
            extends(childs@, old(childs)@),
            file.modeled() ==> after(names_of(old(childs)@), whole) == after(
                names_of(childs@),
                dir_names(data, base as nat, link, (chain_limit() - steps) as nat),
            ),
        decreases CHAIN_LIMIT - steps,
    {
        let offset = match link {
            Some(offset) => offset,
            None => {
                assert(names_of(childs@) + Seq::<Seq<char>>::empty() =~= names_of(childs@));
                return Ok(());
            },
        };
        if steps >= CHAIN_LIMIT {
            return Err(endless("a directory metadata for listing child directory"));
        }
        match file.seek(SeekFrom::Start(base + offset as u64)) {
            Ok(_) => {},
            Err(err) => {
                return Err(
                    IVFCError::SeekError(err, "a directory metadata for listing child directory"),
                );
            },
        }
        let actual_dir_metadata = DirectoryMetadata::new(file, false)?;
        let ghost before = childs@;
        let ghost record = actual_dir_metadata@;
        match actual_dir_metadata.name {
            Some(name) => {
                childs.push(name);
            },
            None => {},
        }
        link = actual_dir_metadata.offset_next_sibling;
        steps += 1;
        proof {
            if file.modeled() {
                let rest = dir_names(data, base as nat, link, (chain_limit() - steps) as nat);
                assert(names_of(childs@) =~= names_of(before) + seq![record.name.unwrap()]);
                if let Ok(names) = rest {
                    assert(names_of(before) + (seq![record.name.unwrap()] + names) =~= names_of(
                        childs@,
                    ) + names);
                }
            }
        }
    }
}

/// Appends to `childs` the names of the files in the chain of siblings that
/// starts at `first`, in the table at `base`.
pub fn list_files_in<T: ByteSource>(
    file: &mut T,
    base: u64,
    first: Option<u32>,
    childs: &mut Vec<String>,
) -> (r: Result<(), IVFCError>)
    requires
        table_base(base),
    ensures
        files_listed(old(file), final(file), base, first, old(childs)@, final(childs)@, r),
{
    let ghost data = file.bytes();
    let ghost whole = file_names(data, base as nat, first, chain_limit());
    let mut link = first;
    let mut steps: u64 = 0;
    loop
        invariant
            table_base(base),
            steps <= CHAIN_LIMIT,
            data == old(file).bytes(),
            whole == file_names(data, base as nat, first, chain_limit()),
            same_source(old(file), file),
            first is None ==> link is None && *file == *old(file) && childs@ == old(childs)@,
            extends(childs@, old(childs)@),
            file.modeled() ==> after(names_of(old(childs)@), whole) == after(
                names_of(childs@),
                file_names(data, base as nat, link, (chain_limit() - steps) as nat),
            ),
        decreases CHAIN_LIMIT - steps,
    {
        let offset = match link {
            Some(offset) => offset,
            None => {
                assert(names_of(childs@) + Seq::<Seq<char>>::empty() =~= names_of(childs@));
                return Ok(());
            },
        };
        if steps >= CHAIN_LIMIT {
            return Err(endless("a file metadata for listing child files"));
        }
        match file.seek(SeekFrom::Start(base + offset as u64)) {
            Ok(_) => {},
            Err(err) => {
                return Err(IVFCError::SeekError(err, "a file metadata for listing child files"));
            },
        }
        let actual_file_metadata = FileMetadata::new(file)?;
        let ghost before = childs@;
        let ghost record = actual_file_metadata@;
        link = actual_file_metadata.offset_sibling;
        childs.push(actual_file_metadata.name);
        steps += 1;
        proof {
            if file.modeled() {
                let rest = file_names(data, base as nat, link, (chain_limit() - steps) as nat);
                assert(names_of(childs@) =~= names_of(before) + seq![record.name]);
                if let Ok(names) = rest {
                    assert(names_of(before) + (seq![record.name] + names) =~= names_of(childs@)
                        + names);
                }
            }
        }
    }
}

/// The names of the children of `dir`: its files, then its subdirectories,
/// each kind in the order of its chain.
pub fn list_children<T: ByteSource>(
    file: &mut T,
    dir_base: u64,
    file_base: u64,
    dir: &DirectoryMetadata,
) -> (r: Result<Vec<String>, IVFCError>)
    requires
        table_base(dir_base),
        table_base(file_base),
    ensures
        children_listed(old(file), final(file), dir_base, file_base, dir@, r),
{
    let mut childs: Vec<String> = Vec::new();
    assert(names_of(childs@) =~= Seq::<Seq<char>>::empty());
    let ghost data = file.bytes();
    list_files_in(file, file_base, dir.offset_first_file, &mut childs)?;
    proof {
        let files = file_names(data, file_base as nat, dir.offset_first_file, chain_limit());
        if file.modeled() {
            assert(Seq::<Seq<char>>::empty() + files.unwrap() =~= files.unwrap());
        }
    }
    list_dirs_in(file, dir_base, dir.offset_first_subdir, &mut childs)?;
    Ok(childs)
}

/// A chain that can be listed holds a name just where the search for the
/// name finds a directory.
pub proof fn lemma_listed_dirs_are_found(
    data: Seq<u8>,
    base: nat,
    link: Option<u32>,
    name: Seq<char>,
    fuel: nat,
)
    requires
        dir_names(data, base, link, fuel) is Ok,
    ensures
        find_dir(data, base, link, name, fuel) is Found <==> dir_names(
            data,
            base,
            link,
            fuel,
        ).unwrap().contains(name),
        !(find_dir(data, base, link, name, fuel) is Broken),
    decreases fuel,
{
    let names = dir_names(data, base, link, fuel).unwrap();
    match link {
        None => {},
        Some(offset) => {
            let record = dir_record(data, base + offset as nat, false).unwrap();
            let next = record.offset_next_sibling;
            let rest = dir_names(data, base, next, (fuel - 1) as nat).unwrap();
            lemma_listed_dirs_are_found(data, base, next, name, (fuel - 1) as nat);
            assert(names =~= seq![record.name.unwrap()] + rest);
            assert(names[0] == record.name.unwrap());
            if record.name == Some(name) {
                assert(names.contains(name));
            } else {
                if rest.contains(name) {
                    let i = choose|i: int| 0 <= i < rest.len() && rest[i] == name;
                    assert(names[i + 1] == name);
                }
                if names.contains(name) {
                    let i = choose|i: int| 0 <= i < names.len() && names[i] == name;
                    assert(rest[i - 1] == name);
                }
            }
        },
    }
}

/// A chain that can be listed holds a name just where the search for the
/// name finds a file.
pub proof fn lemma_listed_files_are_found(
    data: Seq<u8>,
    base: nat,
    link: Option<u32>,
    name: Seq<char>,
    fuel: nat,
)
    requires
        file_names(data, base, link, fuel) is Ok,
    ensures
        find_file(data, base, link, name, fuel) is Found <==> file_names(
            data,
            base,
            link,
            fuel,
        ).unwrap().contains(name),
        !(find_file(data, base, link, name, fuel) is Broken),
    decreases fuel,
{
    let names = file_names(data, base, link, fuel).unwrap();
    match link {
        None => {},
        Some(offset) => {
            let record = file_record(data, base + offset as nat).unwrap();
            let next = record.offset_sibling;
            let rest = file_names(data, base, next, (fuel - 1) as nat).unwrap();
            lemma_listed_files_are_found(data, base, next, name, (fuel - 1) as nat);
            assert(names =~= seq![record.name] + rest);
            assert(names[0] == record.name);
            if record.name == name {
                assert(names.contains(name));
            } else {
                if rest.contains(name) {
                    let i = choose|i: int| 0 <= i < rest.len() && rest[i] == name;
                    assert(names[i + 1] == name);
                }
                if names.contains(name) {
                    let i = choose|i: int| 0 <= i < names.len() && names[i] == name;
                    assert(rest[i - 1] == name);
                }
            }
        },
    }
}

/// Where the children of a directory can be listed, the names in the list
/// are just those that a lookup in the directory resolves: every record on
/// its two chains is listed, and nothing else is.
pub proof fn lemma_listed_names_resolve(
    data: Seq<u8>,
    dir_base: nat,
    file_base: nat,
    dir: DirRecord,
    name: Seq<char>,
)
    requires
        children(data, dir_base, file_base, dir) is Ok,
    ensures
        children(data, dir_base, file_base, dir).unwrap().contains(name) <==> child(
            data,
            dir_base,
            file_base,
            dir,
            name,
        ) is Ok,
        children(data, dir_base, file_base, dir).unwrap().len() == file_names(
            data,
            file_base,
            dir.offset_first_file,
            chain_limit(),
        ).unwrap().len() + dir_names(
            data,
            dir_base,
            dir.offset_first_subdir,
            chain_limit(),
        ).unwrap().len(),
{
    let files = file_names(data, file_base, dir.offset_first_file, chain_limit()).unwrap();
    let dirs = dir_names(data, dir_base, dir.offset_first_subdir, chain_limit()).unwrap();
    let all = children(data, dir_base, file_base, dir).unwrap();
    assert(all =~= files + dirs);
    lemma_listed_files_are_found(data, file_base, dir.offset_first_file, name, chain_limit());
    lemma_listed_dirs_are_found(data, dir_base, dir.offset_first_subdir, name, chain_limit());
    if files.contains(name) {
        let i = choose|i: int| 0 <= i < files.len() && files[i] == name;
        assert(all[i] == name);
    }
    if dirs.contains(name) {
        let i = choose|i: int| 0 <= i < dirs.len() && dirs[i] == name;
        assert(all[files.len() + i] == name);
    }
    if all.contains(name) {
        let i = choose|i: int| 0 <= i < all.len() && all[i] == name;
        if i < files.len() {
            assert(files[i] == name);
        } else {
            assert(dirs[i - files.len()] == name);
        }
    }
}

/// A directory without subdirectories and without files has no children.
pub proof fn lemma_empty_directory(data: Seq<u8>, dir_base: nat, file_base: nat, dir: DirRecord)
    requires
        dir.offset_first_subdir is None,
        dir.offset_first_file is None,
    ensures
        children(data, dir_base, file_base, dir) == Ok::<Seq<Seq<char>>, Fault>(Seq::empty()),
        forall|name: Seq<char>| #[trigger]
            child(data, dir_base, file_base, dir, name) == Err::<Child, Miss>(Miss::NoSuchDir),
{
    assert(Seq::<Seq<char>>::empty() + Seq::<Seq<char>>::empty() =~= Seq::<Seq<char>>::empty());
}

/// The bytes `IVFC`.
pub open spec fn ivfc_magic() -> Seq<u8> {
    seq![73u8, 86u8, 70u8, 67u8]
}

/// The bytes of the version 0x10000.
pub open spec fn ivfc_version() -> Seq<u8> {
    seq![0u8, 0u8, 1u8, 0u8]
}

/// Where level 3 starts in a RomFS.
pub const LEVEL_3: u64 = 0x1000;

/// Where the table of directory records starts in the RomFS `data`.
pub open spec fn dir_table(data: Seq<u8>) -> nat {
    0x1000 + field(data, 0x100C, 4)
}

/// Where the table of file records starts in the RomFS `data`.
pub open spec fn file_table(data: Seq<u8>) -> nat {
    0x1000 + field(data, 0x101C, 4)
}

/// Where the bytes of the files start in the RomFS `data`.
pub open spec fn file_data(data: Seq<u8>) -> nat {
    0x1000 + field(data, 0x1024, 4)
}

/// What is wrong with the header of a RomFS.
pub enum HeaderFault {
    /// The data ends before the header, or before the record of the root.
    Truncated,
    FirstMagic,
    SecondMagic,
    HeaderLenght,
}

/// The first thing that is wrong with the header of the RomFS `data`, in the
/// order in which the header is read; `None` where it can be read.
pub open spec fn ivfc_fault(data: Seq<u8>) -> Option<HeaderFault> {
    if data.len() < 4 {
        Some(HeaderFault::Truncated)
    } else if span(data, 0, 4) != ivfc_magic() {
        Some(HeaderFault::FirstMagic)
    } else if data.len() < 8 {
        Some(HeaderFault::Truncated)
    } else if span(data, 4, 4) != ivfc_version() {
        Some(HeaderFault::SecondMagic)
    } else if data.len() < 0x1004 {
        Some(HeaderFault::Truncated)
    } else if field(data, 0x1000, 4) != 0x28 {
        Some(HeaderFault::HeaderLenght)
    } else if data.len() < 0x1028 {
        Some(HeaderFault::Truncated)
    } else if dir_record(data, dir_table(data), true) is Err {
        Some(HeaderFault::Truncated)
    } else {
        None
    }
}

/// The RomFS `data` is refused with `e`, by a source that is `dependable` or
/// not.
pub open spec fn ivfc_refusal(data: Seq<u8>, dependable: bool, e: IVFCError) -> bool {
    match e {
        IVFCError::FirstMagicError(found) => {
            &&& ivfc_fault(data) == Some(HeaderFault::FirstMagic)
            &&& found@ == span(data, 0, 4)
        },
        IVFCError::SecondMagicError(found) => {
            &&& ivfc_fault(data) == Some(HeaderFault::SecondMagic)
            &&& found@ == span(data, 4, 4)
        },
        IVFCError::Level3HeaderLenghtInvalid(found) => {
            &&& ivfc_fault(data) == Some(HeaderFault::HeaderLenght)
            &&& found == field(data, 0x1000, 4)
        },
        IVFCError::ReadError(_, what) => {
            &&& !dependable || ivfc_fault(data) == Some(HeaderFault::Truncated)
            &&& header_read_stops(data, dependable, what@)
        },
        IVFCError::SeekError(_, what) => {
            &&& !dependable || ivfc_fault(data) == Some(HeaderFault::Truncated)
            &&& header_seek_stops(data, dependable, what@)
        },
        _ => false,
    }
}

/// Reading the header of the RomFS `data` stopped at the field that `what`
/// names, which could not be read.
pub open spec fn header_read_stops(data: Seq<u8>, dependable: bool, what: Seq<char>) -> bool {
    ||| what == "magic \"IVFC\""@ && read_fails(data, dependable, 0, 4)
    ||| what == "magic 0x00010000"@ && data.len() >= 4 && read_fails(data, dependable, 4, 4)
    ||| what == "level 3 header lenght"@ && read_fails(data, dependable, 0x1000, 4)
    ||| what == "offset of the directory hashdata"@ && level_3_stops(data, dependable, 0x1004)
    ||| what == "lenght of the directory hashdata"@ && level_3_stops(data, dependable, 0x1008)
    ||| what == "offset of the directory metadata"@ && level_3_stops(data, dependable, 0x100C)
    ||| what == "lenght of the directory metadata"@ && level_3_stops(data, dependable, 0x1010)
    ||| what == "offset of the file hashdata"@ && level_3_stops(data, dependable, 0x1014)
    ||| what == "lenght of the file hashdata"@ && level_3_stops(data, dependable, 0x1018)
    ||| what == "offset of the file metadata"@ && level_3_stops(data, dependable, 0x101C)
    ||| what == "lenght of the file metadata"@ && level_3_stops(data, dependable, 0x1020)
    ||| what == "file data offset"@ && level_3_stops(data, dependable, 0x1024)
    ||| data.len() >= 0x1028 && dir_read_stops(data, dependable, dir_table(data), what)
}

/// Reading stopped at the four bytes at `at` of level 3: all before them
/// was there.
pub open spec fn level_3_stops(data: Seq<u8>, dependable: bool, at: nat) -> bool {
    data.len() >= at && read_fails(data, dependable, at, 4)
}

/// The source did not go where `what` names: to level 3, or to the record of
/// the root.
pub open spec fn header_seek_stops(data: Seq<u8>, dependable: bool, what: Seq<char>) -> bool {
    ||| what == "level 3"@ && (!dependable || data.len() < 0x1000)
    ||| what == "first directory metadata"@ && data.len() >= 0x1028 && (!dependable || data.len()
        < dir_table(data))
}

/// The header of a RomFS, and the source that it was read from, behind a
/// lock: the windows on the files share that source.
#[verifier::reject_recursive_types(T)]
pub struct IVFCReader<T: ByteSource> {
    /// The lock around the source. The reader and the windows on its files
    /// take it for each walk and each read; a caller that holds it must let
    /// it go before it calls into them.
    pub file: Arc<Mutex<T>>,
    /// Where the table of directory records starts.
    pub dir_metadata_part_offset: u64,
    /// Where the table of file records starts.
    pub file_metadata_part_offset: u64,
    /// The record of the root.
    pub first_dir_metadata: DirectoryMetadata,
    /// Where the bytes of the files start.
    pub file_data_offset: u64,
}

impl<T: ByteSource> IVFCReader<T> {
    /// The tables start where a header can say that they do.
    pub open spec fn wf(&self) -> bool {
        &&& table_base(self.dir_metadata_part_offset)
        &&& table_base(self.file_metadata_part_offset)
        &&& table_base(self.file_data_offset)
    }

    /// The reader holds what the header of the RomFS `data` says.
    pub open spec fn describes(&self, data: Seq<u8>) -> bool {
        &&& self.dir_metadata_part_offset == dir_table(data)
        &&& self.file_metadata_part_offset == file_table(data)
        &&& self.file_data_offset == file_data(data)
        &&& dir_record(data, dir_table(data), true) == Ok::<DirRecord, Fault>(
            self.first_dir_metadata@,
        )
    }

    /// Reads the header of the RomFS that `file` holds, and the record of
    /// its root.
    ///
    /// The header is accepted where it starts with `IVFC` and the version
    /// 0x10000, and where its level 3 starts with the length 0x28. The
    /// tables of hashes are not looked into.
    pub fn new(file: T) -> (r: Result<IVFCReader<T>, IVFCError>)
        requires
            file.wf(),
            file.position() == 0,
        ensures
            r matches Ok(reader) ==> reader.wf(),
            file.modeled() ==> match r {
                Ok(reader) => ivfc_fault(file.bytes()) is None && reader.describes(file.bytes()),
                Err(e) => ivfc_refusal(file.bytes(), file.dependable(), e),
            },
            file.modeled() && file.dependable() && ivfc_fault(file.bytes()) is None ==> r is Ok,
    {
        let mut source = file;

        let magic_1 = match read_4(&mut source) {
            Ok(bytes) => bytes,
            Err(err) => {
                return Err(IVFCError::ReadError(err, "magic \"IVFC\""));
            },
        };
        let expected_magic_1: [u8; 4] = [73, 86, 70, 67];
        assert(expected_magic_1@ =~= ivfc_magic());
        if !is_magic(&magic_1, &expected_magic_1) {
            return Err(IVFCError::FirstMagicError(magic_1));
        }

        let magic_2 = match read_4(&mut source) {
            Ok(bytes) => bytes,
            Err(err) => {
                return Err(IVFCError::ReadError(err, "magic 0x00010000"));
            },
        };
        let expected_magic_2: [u8; 4] = [0, 0, 1, 0];
        assert(expected_magic_2@ =~= ivfc_version());
        if !is_magic(&magic_2, &expected_magic_2) {
            return Err(IVFCError::SecondMagicError(magic_2));
        }

        match source.seek(SeekFrom::Start(LEVEL_3)) {
            Ok(_) => {},
            Err(err) => {
                return Err(IVFCError::SeekError(err, "level 3"));
            },
        }

        let level_3_header_lenght = IVFC_read_u32(&mut source, "level 3 header lenght")?;
        if level_3_header_lenght != 0x28 {
            return Err(IVFCError::Level3HeaderLenghtInvalid(level_3_header_lenght));
        }

        let _ = IVFC_read_u32(&mut source, "offset of the directory hashdata")?;
        let _ = IVFC_read_u32(&mut source, "lenght of the directory hashdata")?;

        let relative_offset_dir_metadata = IVFC_read_u32(
            &mut source,
            "offset of the directory metadata",
        )?;
        let _ = IVFC_read_u32(&mut source, "lenght of the directory metadata")?;
        let dir_metadata_part_offset: u64 = LEVEL_3 + relative_offset_dir_metadata as u64;

        let _ = IVFC_read_u32(&mut source, "offset of the file hashdata")?;
        let _ = IVFC_read_u32(&mut source, "lenght of the file hashdata")?;

        let relative_offset_file_metadata = IVFC_read_u32(
            &mut source,
            "offset of the file metadata",
        )?;
        let file_metadata_part_offset: u64 = LEVEL_3 + relative_offset_file_metadata as u64;

        let _ = IVFC_read_u32(&mut source, "lenght of the file metadata")?;
        let file_data_offset: u64 = LEVEL_3 + IVFC_read_u32(&mut source, "file data offset")? as u64;

        match source.seek(SeekFrom::Start(dir_metadata_part_offset)) {
            Ok(_) => {},
            Err(err) => {
                return Err(IVFCError::SeekError(err, "first directory metadata"));
            },
        }

        let first_dir_metadata = DirectoryMetadata::new(&mut source, true)?;

        Ok(
            IVFCReader {
                file: Arc::new(new_lock(source)),
                dir_metadata_part_offset,
                file_metadata_part_offset,
                first_dir_metadata,
                file_data_offset,
            },
        )
    }

    /// `r` is what looking up `name` in `dir` gives: no such directory where
    /// `dir` has neither subdirectories nor files; else the error of a
    /// poisoned lock, or what the lookup in the two tables of this reader
    /// gives on the source that the lock holds. Which source that is cannot
    /// be said here, so it is stated of some source.
    pub open spec fn looks_up(
        &self,
        dir: DirRecord,
        name: Seq<char>,
        r: Result<DirectoryOrFile, IVFCError>,
    ) -> bool {
        &&& found_in(dir, name, r)
        &&& r matches Err(e) ==> e.is_read_failure() || e is DirNotFound || e is FileNotFound || e
            is Poisoned
        &&& if dir.offset_first_subdir is None && dir.offset_first_file is None {
            r matches Err(IVFCError::DirNotFound)
        } else {
            (r matches Err(IVFCError::Poisoned)) || exists|before: T, later: T| #[trigger]
                child_looked_up(
                    &before,
                    &later,
                    self.dir_metadata_part_offset,
                    self.file_metadata_part_offset,
                    dir,
                    name,
                    r,
                )
        }
    }

    /// `r` is what listing the children of `dir` gives: no names where `dir`
    /// has neither subdirectories nor files; else the error of a poisoned
    /// lock, or what the listing from the two tables of this reader gives on
    /// the source that the lock holds. Which source that is cannot be said
    /// here, so it is stated of some source.
    pub open spec fn lists(&self, dir: DirRecord, r: Result<Vec<String>, IVFCError>) -> bool {
        &&& r matches Err(e) ==> e.is_read_failure() || e is Poisoned
        &&& if dir.offset_first_subdir is None && dir.offset_first_file is None {
            r matches Ok(childs) && childs@.len() == 0
        } else {
            (r matches Err(IVFCError::Poisoned)) || exists|before: T, later: T| #[trigger]
                children_listed(
                    &before,
                    &later,
                    self.dir_metadata_part_offset,
                    self.file_metadata_part_offset,
                    dir,
                    r,
                )
        }
    }

    /// The child of `dir` that is named `path`: a subdirectory, or else a
    /// file.
    ///
    /// A directory without subdirectories and files has no child, and the
    /// source is not touched for it. Else the source is locked while the
    /// records are walked, and the outcome is as [`IVFCReader::looks_up`]
    /// has it.
    pub fn get_child(&self, dir: &DirectoryMetadata, path: &str) -> (r: Result<
        DirectoryOrFile,
        IVFCError,
    >)
        requires
            self.wf(),
        ensures
            self.looks_up(dir@, path@, r),
    {
        if dir.offset_first_subdir.is_none() && dir.offset_first_file.is_none() {
            return Err(IVFCError::DirNotFound);
        }
        let mut guard = match acquire(&*self.file) {
            Some(guard) => guard,
            None => {
                return Err(IVFCError::Poisoned);
            },
        };
        let file = protected(&mut guard);
        let ghost before = *file;
        let r = find_child(
            file,
            self.dir_metadata_part_offset,
            self.file_metadata_part_offset,
            dir,
            path,
        );
        proof {
            let later = *file;
            assert(child_looked_up(
                &before,
                &later,
                self.dir_metadata_part_offset,
                self.file_metadata_part_offset,
                dir@,
                path@,
                r,
            ));
        }
        r
    }

    /// Appends the names of the files of `dir` to `childs`. A directory
    /// without files adds nothing, and the source is not touched for it.
    ///
    /// Else the source is locked while the chain is walked. A poisoned lock
    /// adds nothing. What the lock holds cannot be said here, so the outcome
    /// is stated of some source, as [`files_listed`] has it.
    pub fn list_file_child(&self, dir: &DirectoryMetadata, childs: &mut Vec<String>) -> (r: Result<
        (),
        IVFCError,
    >)
        requires
            self.wf(),
        ensures
            extends(final(childs)@, old(childs)@),
            r matches Err(e) ==> e.is_read_failure() || e is Poisoned,
            match dir.offset_first_file {
                None => r is Ok && final(childs)@ == old(childs)@,
                Some(_) => (r matches Err(IVFCError::Poisoned) && final(childs)@ == old(childs)@)
                    || exists|before: T, after: T| #[trigger]
                    files_listed(
                        &before,
                        &after,
                        self.file_metadata_part_offset,
                        dir.offset_first_file,
                        old(childs)@,
                        final(childs)@,
                        r,
                    ),
            },
    {
        if dir.offset_first_file.is_none() {
            return Ok(());
        }
        let mut guard = match acquire(&*self.file) {
            Some(guard) => guard,
            None => {
                return Err(IVFCError::Poisoned);
            },
        };
        let file = protected(&mut guard);
        let ghost before = *file;
        let r = list_files_in(file, self.file_metadata_part_offset, dir.offset_first_file, childs);
        proof {
            let after = *file;
            assert(files_listed(
                &before,
                &after,
                self.file_metadata_part_offset,
                dir.offset_first_file,
                old(childs)@,
                childs@,
                r,
            ));
        }
        r
    }

    /// Appends the names of the subdirectories of `dir` to `childs`. A
    /// directory without subdirectories adds nothing, and the source is not
    /// touched for it.
    ///
    /// Else the source is locked while the chain is walked. A poisoned lock
    /// adds nothing. What the lock holds cannot be said here, so the outcome
    /// is stated of some source, as [`dirs_listed`] has it.
    pub fn list_dir_child(&self, dir: &DirectoryMetadata, childs: &mut Vec<String>) -> (r: Result<
        (),
        IVFCError,
    >)
        requires
            self.wf(),
        ensures
            extends(final(childs)@, old(childs)@),
            r matches Err(e) ==> e.is_read_failure() || e is Poisoned,
            match dir.offset_first_subdir {
                None => r is Ok && final(childs)@ == old(childs)@,
                Some(_) => (r matches Err(IVFCError::Poisoned) && final(childs)@ == old(childs)@)
                    || exists|before: T, after: T| #[trigger]
                    dirs_listed(
                        &before,
                        &after,
                        self.dir_metadata_part_offset,
                        dir.offset_first_subdir,
                        old(childs)@,
                        final(childs)@,
                        r,
                    ),
            },
    {
        if dir.offset_first_subdir.is_none() {
            return Ok(());
        }
        let mut guard = match acquire(&*self.file) {
            Some(guard) => guard,
            None => {
                return Err(IVFCError::Poisoned);
            },
        };
        let file = protected(&mut guard);
        let ghost before = *file;
        let r = list_dirs_in(file, self.dir_metadata_part_offset, dir.offset_first_subdir, childs);
        proof {
            let after = *file;
            assert(dirs_listed(
                &before,
                &after,
                self.dir_metadata_part_offset,
                dir.offset_first_subdir,
                old(childs)@,
                childs@,
                r,
            ));
        }
        r
    }

    /// The names of the children of `dir`: its files, then its
    /// subdirectories. A directory without either has none, and the source
    /// is not touched for it.
    ///
    /// Else the source is locked while the records are walked, and the
    /// outcome is as [`IVFCReader::lists`] has it.
    pub fn list_child(&self, dir: &DirectoryMetadata) -> (r: Result<Vec<String>, IVFCError>)
        requires
            self.wf(),
        ensures
            self.lists(dir@, r),
    {
        if dir.offset_first_subdir.is_none() && dir.offset_first_file.is_none() {
            return Ok(Vec::new());
        }
        let mut guard = match acquire(&*self.file) {
            Some(guard) => guard,
            None => {
                return Err(IVFCError::Poisoned);
            },
        };
        let file = protected(&mut guard);
        let ghost before = *file;
        let r = list_children(
            file,
            self.dir_metadata_part_offset,
            self.file_metadata_part_offset,
            dir,
        );
        proof {
            let after = *file;
            assert(children_listed(
                &before,
                &after,
                self.dir_metadata_part_offset,
                self.file_metadata_part_offset,
                dir@,
                r,
            ));
        }
        r
    }

    /// Where the bytes of `file` start in the source.
    pub fn get_file_real_offset(&self, file: &FileMetadata) -> (offset: u64)
        requires
            file.offset_file_data + self.file_data_offset <= u64::MAX,
        ensures
            offset == file.offset_file_data + self.file_data_offset,
    {
        file.offset_file_data + self.file_data_offset
    }
}

} // verus!
