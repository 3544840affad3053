//! A partition of a cartridge image.
//!
//! An NCCH header sits at the start of the partition. It names four regions
//! of it by sector: the plain region, the logo, the ExeFS and the RomFS.

use crate::bytes::{
    field, is_magic, read_2, read_4, read_8, read_fails, sectors, sectors_to_bytes, u16_from_le,
    u32_from_le,
};
use crate::partition::Partition;
use crate::source::{read_exact, same_source, span, ByteSource, IoError, SeekFrom};
use crate::{region_at, PartitionData};
use vstd::prelude::*;

verus! {

/// Why an NCCH header was not read, or a region of it not opened.
///
/// The errors on a region carry its name: `"plain region"`, `"logo region"`,
/// `"exefs"` or `"romfs"`.
#[derive(Debug)]
pub enum NCCHError {
    ReadNCCHSignatureError(IoError),
    ReadMagicError(IoError),
    /// The four bytes found where `NCCH` should stand.
    InvalidMagic([u8; 4]),
    SizeReadError(IoError),
    PartitionIdReadError(IoError),
    MakerCodeReadError(IoError),
    VersionReadError(IoError),
    FlagsSeekError(IoError),
    FlagsReadError(IoError),
    OffsetSeekError(IoError, &'static str),
    OffsetReadError(IoError, &'static str),
    LenghtReadError(IoError, &'static str),
    CreatePartitionError(IoError),
}

/// The bytes `NCCH`.
pub open spec fn ncch_magic() -> Seq<u8> {
    seq![78u8, 67u8, 67u8, 72u8]
}

/// The length of the part of an NCCH header that is read.
pub open spec fn ncch_header_len() -> nat {
    0x1B8
}

/// `data` starts with an NCCH header that can be read: it is all there, and
/// it has the magic.
pub open spec fn ncch_accepts(data: Seq<u8>) -> bool {
    &&& data.len() >= ncch_header_len()
    &&& span(data, 0x100, 4) == ncch_magic()
}

/// Reading stopped at the field of `n` bytes at offset `at`, which follows
/// what was read before it: all before it was there.
pub open spec fn ncch_stops_at(data: Seq<u8>, dependable: bool, at: nat, n: nat) -> bool {
    &&& data.len() >= at
    &&& read_fails(data, dependable, at, n)
    &&& at >= 0x104 ==> span(data, 0x100, 4) == ncch_magic()
}

/// Reading stopped at the field of `n` bytes at offset `at`, to which the
/// source was sent after it had given all up to `before`.
pub open spec fn ncch_stops_past(data: Seq<u8>, dependable: bool, before: nat, at: nat, n: nat) -> bool {
    &&& data.len() >= before
    &&& read_fails(data, dependable, at, n)
    &&& span(data, 0x100, 4) == ncch_magic()
}

/// Where the record of the region named `what` stands in the header.
pub open spec fn region_record(what: Seq<char>) -> Option<nat> {
    if what == "plain region"@ {
        Some(0x190)
    } else if what == "logo region"@ {
        Some(0x198)
    } else if what == "exefs"@ {
        Some(0x1A0)
    } else if what == "romfs"@ {
        Some(0x1B0)
    } else {
        None
    }
}

/// Each of the four names has its own record.
pub proof fn lemma_region_names()
    ensures
        region_record("plain region"@) == Some(0x190nat),
        region_record("logo region"@) == Some(0x198nat),
        region_record("exefs"@) == Some(0x1A0nat),
        region_record("romfs"@) == Some(0x1B0nat),
{
    reveal_strlit("plain region");
    reveal_strlit("logo region");
    reveal_strlit("exefs");
    reveal_strlit("romfs");
    assert("plain region"@.len() == 12);
    assert("logo region"@.len() == 11);
    assert("exefs"@.len() == 5);
    assert("exefs"@[0] != "romfs"@[0]);
}

/// The header that `data` starts with is refused with `e`, by a source that
/// is `dependable` or not.
pub open spec fn ncch_refusal(data: Seq<u8>, dependable: bool, e: NCCHError) -> bool {
    match e {
        NCCHError::ReadNCCHSignatureError(_) => ncch_stops_at(data, dependable, 0, 0x100),
        NCCHError::ReadMagicError(_) => ncch_stops_at(data, dependable, 0x100, 4),
        NCCHError::InvalidMagic(found) => {
            &&& data.len() >= 0x104
            &&& found@ == span(data, 0x100, 4)
            &&& found@ != ncch_magic()
        },
        NCCHError::SizeReadError(_) => ncch_stops_at(data, dependable, 0x104, 4),
        NCCHError::PartitionIdReadError(_) => ncch_stops_at(data, dependable, 0x108, 8),
        NCCHError::MakerCodeReadError(_) => ncch_stops_at(data, dependable, 0x110, 2),
        NCCHError::VersionReadError(_) => ncch_stops_at(data, dependable, 0x112, 2),
        NCCHError::FlagsSeekError(_) => ncch_stops_past(data, dependable, 0x114, 0x188, 0),
        NCCHError::FlagsReadError(_) => ncch_stops_past(data, dependable, 0x114, 0x188, 8),
        NCCHError::OffsetSeekError(_, what) => {
            &&& what@ == "romfs"@
            &&& ncch_stops_past(data, dependable, 0x1A8, 0x1B0, 0)
        },
        NCCHError::OffsetReadError(_, what) => {
            &&& region_record(what@) matches Some(at)
            &&& if at == 0x1B0 {
                ncch_stops_past(data, dependable, 0x1A8, 0x1B0, 4)
            } else {
                ncch_stops_at(data, dependable, at, 4)
            }
        },
        NCCHError::LenghtReadError(_, what) => {
            &&& region_record(what@) matches Some(at)
            &&& ncch_stops_at(data, dependable, at + 4, 4)
        },
        NCCHError::CreatePartitionError(_) => false,
    }
}

/// Reads the record of the region named `what`: the sector at which it
/// starts, then the number of sectors that it takes.
fn read_region<T: ByteSource>(file: &mut T, what: &'static str) -> (r: Result<
    PartitionData,
    NCCHError,
>)
    requires
        old(file).wf(),
    ensures
        same_source(old(file), final(file)),
        r matches Ok(region) ==> final(file).wf() && region.bounded(),
        old(file).modeled() ==> match r {
            Ok(region) => {
                &&& final(file).position() == old(file).position() + 8
                &&& old(file).position() + 8 <= old(file).bytes().len()
                &&& region == region_at(old(file).bytes(), old(file).position())
            },
            Err(NCCHError::OffsetReadError(_, tag)) => {
                &&& tag == what
                &&& read_fails(old(file).bytes(), old(file).dependable(), old(file).position(), 4)
            },
            Err(NCCHError::LenghtReadError(_, tag)) => {
                &&& tag == what
                &&& old(file).position() + 4 <= old(file).bytes().len()
                &&& read_fails(
                    old(file).bytes(),
                    old(file).dependable(),
                    old(file).position() + 4,
                    4,
                )
            },
            Err(_) => false,
        },
{
    let offset = match read_4(file) {
        Ok(bytes) => sectors_to_bytes(u32_from_le(&bytes)),
        Err(err) => {
            return Err(NCCHError::OffsetReadError(err, what));
        },
    };
    let lenght = match read_4(file) {
        Ok(bytes) => sectors_to_bytes(u32_from_le(&bytes)),
        Err(err) => {
            return Err(NCCHError::LenghtReadError(err, what));
        },
    };
    Ok(PartitionData { offset, lenght })
}

/// The header of an NCCH partition, and the source that it was read from.
pub struct NCCHReader<T: ByteSource> {
    /// The source that the header was read from.
    pub file: T,
    /// The size of the partition, in bytes.
    pub content_size: u64,
    pub version: u16,
    pub plain_region: PartitionData,
    pub logo_region: PartitionData,
    pub exefs: PartitionData,
    pub romfs: PartitionData,
}

impl<T: ByteSource> NCCHReader<T> {
    /// Each region is a run of sectors counted in 32 bits.
    pub open spec fn wf(&self) -> bool {
        &&& self.plain_region.bounded()
        &&& self.logo_region.bounded()
        &&& self.exefs.bounded()
        &&& self.romfs.bounded()
    }

    /// The reader holds what the header at the start of `data` says.
    pub open spec fn describes(&self, data: Seq<u8>) -> bool {
        &&& self.content_size == sectors(data, 0x104)
        &&& self.version == field(data, 0x112, 2)
        &&& self.plain_region == region_at(data, 0x190)
        &&& self.logo_region == region_at(data, 0x198)
        &&& self.exefs == region_at(data, 0x1A0)
        &&& self.romfs == region_at(data, 0x1B0)
    }

    /// Reads the header at the start of `file`.
    ///
    /// The header is accepted where it is complete and starts its second
    /// quarter-kilobyte with `NCCH`. Each other outcome names the field at
    /// which reading stopped. Neither the signature nor the flags are
    /// looked into.
    pub fn new(file: T) -> (r: Result<NCCHReader<T>, NCCHError>)
        requires
            file.wf(),
            file.position() == 0,
        ensures
            r matches Ok(reader) ==> {
                &&& reader.wf()
                &&& reader.file.wf()
                &&& same_source(&file, &reader.file)
            },
            file.modeled() ==> match r {
                Ok(reader) => {
                    &&& ncch_accepts(file.bytes())
                    &&& reader.describes(file.bytes())
                    &&& reader.file.position() == ncch_header_len()
                },
                Err(e) => ncch_refusal(file.bytes(), file.dependable(), e),
            },
            file.modeled() && file.dependable() && ncch_accepts(file.bytes()) ==> r is Ok,
    {
        let mut source = file;
        proof {
            lemma_region_names();
        }

        let mut signature = [0u8;0x100];
        match read_exact(&mut source, &mut signature) {
            Ok(_) => {},
            Err(err) => {
                return Err(NCCHError::ReadNCCHSignatureError(err));
            },
        }

        let magic = match read_4(&mut source) {
            Ok(bytes) => bytes,
            Err(err) => {
                return Err(NCCHError::ReadMagicError(err));
            },
        };
        let expected_magic: [u8; 4] = [78, 67, 67, 72];
        assert(expected_magic@ =~= ncch_magic());
        if !is_magic(&magic, &expected_magic) {
            return Err(NCCHError::InvalidMagic(magic));
        }

        let content_size = match read_4(&mut source) {
            Ok(bytes) => sectors_to_bytes(u32_from_le(&bytes)),
            Err(err) => {
                return Err(NCCHError::SizeReadError(err));
            },
        };

        match read_8(&mut source) {
            Ok(_) => {},
            Err(err) => {
                return Err(NCCHError::PartitionIdReadError(err));
            },
        }

        match read_2(&mut source) {
            Ok(_) => {},
            Err(err) => {
                return Err(NCCHError::MakerCodeReadError(err));
            },
        }

        let version = match read_2(&mut source) {
            Ok(bytes) => u16_from_le(&bytes),
            Err(err) => {
                return Err(NCCHError::VersionReadError(err));
            },
        };

        match source.seek(SeekFrom::Start(0x188)) {
            Ok(_) => {},
            Err(err) => {
                return Err(NCCHError::FlagsSeekError(err));
            },
        }

        match read_8(&mut source) {
            Ok(_) => {},
            Err(err) => {
                return Err(NCCHError::FlagsReadError(err));
            },
        }

        let plain_region = match read_region(&mut source, "plain region") {
            Ok(region) => region,
            Err(err) => {
                return Err(err);
            },
        };
        let logo_region = match read_region(&mut source, "logo region") {
            Ok(region) => region,
            Err(err) => {
                return Err(err);
            },
        };
        let exefs = match read_region(&mut source, "exefs") {
            Ok(region) => region,
            Err(err) => {
                return Err(err);
            },
        };

        match source.seek(SeekFrom::Start(0x1B0)) {
            Ok(_) => {},
            Err(err) => {
                return Err(NCCHError::OffsetSeekError(err, "romfs"));
            },
        }

        let romfs = match read_region(&mut source, "romfs") {
            Ok(region) => region,
            Err(err) => {
                return Err(err);
            },
        };

        Ok(
            NCCHReader {
                file: source,
                content_size,
                version,
                plain_region,
                logo_region,
                exefs,
                romfs,
            },
        )
    }

    /// Opens the plain region as a window on the source.
    pub fn get_plain_region(self) -> (r: Result<Partition<T>, NCCHError>)
        requires
            self.wf(),
        ensures
            region_opened(self.file, self.plain_region, r),
    {
        let data = self.plain_region;
        self.get_partition(data)
    }

    /// Opens the logo region as a window on the source.
    pub fn get_logo_region(self) -> (r: Result<Partition<T>, NCCHError>)
        requires
            self.wf(),
        ensures
            region_opened(self.file, self.logo_region, r),
    {
        let data = self.logo_region;
        self.get_partition(data)
    }

    /// Opens the ExeFS as a window on the source.
    pub fn get_exefs(self) -> (r: Result<Partition<T>, NCCHError>)
        requires
            self.wf(),
        ensures
            region_opened(self.file, self.exefs, r),
    {
        let data = self.exefs;
        self.get_partition(data)
    }

    /// Opens the RomFS as a window on the source.
    pub fn get_romfs(self) -> (r: Result<Partition<T>, NCCHError>)
        requires
            self.wf(),
        ensures
            region_opened(self.file, self.romfs, r),
    {
        let data = self.romfs;
        self.get_partition(data)
    }

    /// Opens the region `partdata` as a window on the source, and gives the
    /// header up.
    pub fn get_partition(self, partdata: PartitionData) -> (r: Result<Partition<T>, NCCHError>)
        requires
            partdata.bounded(),
        ensures
            region_opened(self.file, partdata, r),
    {
        match Partition::new(self.file, partdata.offset, partdata.lenght) {
            Ok(value) => Ok(value),
            Err(err) => Err(NCCHError::CreatePartitionError(err)),
        }
    }
}

/// `r` is what opening `region` of `file` gives: a window on just that
/// region with its cursor at the start, unless the source refused to go
/// there.
pub open spec fn region_opened<T: ByteSource>(
    file: T,
    region: PartitionData,
    r: Result<Partition<T>, NCCHError>,
) -> bool {
    &&& file.modeled() && file.dependable() && region.offset <= file.bytes().len() ==> r is Ok
    &&& match r {
        Ok(p) => {
            &&& p.wf()
            &&& p.bounded()
            &&& p.window_start() == region.offset
            &&& p.window_end() == region.offset + region.lenght
            &&& p.pointer() == region.offset
            &&& same_source(&file, &p.source())
        },
        Err(NCCHError::CreatePartitionError(_)) => file.modeled() ==> !(file.dependable()
            && region.offset <= file.bytes().len()),
        Err(_) => false,
    }
}

} // verus!
