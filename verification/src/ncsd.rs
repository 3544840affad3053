//! The outer container of a cartridge image.
//!
//! An NCSD header sits at the start of the image. It names up to eight
//! partitions by the sector at which each starts and the number of sectors
//! that it takes.

use crate::bytes::{
    field, is_magic, is_zeroed, read_4, read_8, read_fails, sectors, sectors_to_bytes, u32_from_le,
    u64_from_le,
};
use crate::partition::Partition;
use crate::source::{read_exact, same_source, span, ByteSource, IoError};
use crate::{region_at, PartitionData};
use vstd::prelude::*;

verus! {

/// Why an NCSD header was not read, or a partition of it not opened.
#[derive(Debug)]
pub enum NCSDError {
    SignatureReadError(IoError),
    MagicReadError(IoError),
    /// The four bytes found where `NCSD` should stand.
    InvalidMagic([u8; 4]),
    ReadSizeError(IoError),
    MediaIDReadError(IoError),
    PartitionTypeReadError(IoError),
    CryptTypeReadError(IoError),
    EncryptedRom,
    /// With the number of the partition.
    ReadPartitionOffsetError(IoError, usize),
    /// With the number of the partition.
    ReadPartitionLenghtError(IoError, usize),
    ReadExHeaderHashError(IoError),
    ReadAdditionalHeaderSizeError(IoError),
    SectorZeroOffsetReadError(IoError),
    PartitionFlagReadError(IoError),
    /// With the number of the partition.
    PartitionIdReadError(IoError, usize),
    /// With the number that was asked for.
    InexistingPartition(usize),
    CreatePartitionFail(IoError),
}

/// The bytes `NCSD`.
pub open spec fn ncsd_magic() -> Seq<u8> {
    seq![78u8, 67u8, 83u8, 68u8]
}

/// Eight zero bytes: the crypt types of a container that is not encrypted.
pub open spec fn no_encryption() -> Seq<u8> {
    seq![0u8, 0u8, 0u8, 0u8, 0u8, 0u8, 0u8, 0u8]
}

/// The length of an NCSD header.
pub open spec fn ncsd_header_len() -> nat {
    0x1D0
}

/// The record of partition `i` in the header that `data` starts with.
pub open spec fn ncsd_partition(data: Seq<u8>, i: int) -> PartitionData {
    region_at(data, (0x120 + 8 * i) as nat)
}

/// The identifier of partition `i` in the header that `data` starts with.
pub open spec fn ncsd_partition_id(data: Seq<u8>, i: int) -> Seq<u8> {
    span(data, (0x190 + 8 * i) as nat, 8)
}

/// `data` starts with the header of a container that can be read: it is all
/// there, it has the magic, and no partition is encrypted.
pub open spec fn ncsd_accepts(data: Seq<u8>) -> bool {
    &&& data.len() >= ncsd_header_len()
    &&& span(data, 0x100, 4) == ncsd_magic()
    &&& span(data, 0x118, 8) == no_encryption()
}

/// Reading the header stopped at the field of `n` bytes at offset `at`,
/// which could not be read: what came before it was there and was accepted.
pub open spec fn ncsd_stops_at(data: Seq<u8>, dependable: bool, at: nat, n: nat) -> bool {
    &&& data.len() >= at
    &&& read_fails(data, dependable, at, n)
    &&& at >= 0x104 ==> span(data, 0x100, 4) == ncsd_magic()
    &&& at >= 0x120 ==> span(data, 0x118, 8) == no_encryption()
}

/// The header that `data` starts with is refused with `e`, by a source that
/// is `dependable` or not.
pub open spec fn ncsd_refusal(data: Seq<u8>, dependable: bool, e: NCSDError) -> bool {
    match e {
        NCSDError::SignatureReadError(_) => ncsd_stops_at(data, dependable, 0, 0x100),
        NCSDError::MagicReadError(_) => ncsd_stops_at(data, dependable, 0x100, 4),
        NCSDError::InvalidMagic(found) => {
            &&& data.len() >= 0x104
            &&& found@ == span(data, 0x100, 4)
            &&& found@ != ncsd_magic()
        },
        NCSDError::ReadSizeError(_) => ncsd_stops_at(data, dependable, 0x104, 4),
        NCSDError::MediaIDReadError(_) => ncsd_stops_at(data, dependable, 0x108, 8),
        NCSDError::PartitionTypeReadError(_) => ncsd_stops_at(data, dependable, 0x110, 8),
        NCSDError::CryptTypeReadError(_) => ncsd_stops_at(data, dependable, 0x118, 8),
        NCSDError::EncryptedRom => {
            &&& data.len() >= 0x120
            &&& span(data, 0x100, 4) == ncsd_magic()
            &&& span(data, 0x118, 8) != no_encryption()
        },
        NCSDError::ReadPartitionOffsetError(_, i) => i < 8 && ncsd_stops_at(
            data,
            dependable,
            (0x120 + 8 * i) as nat,
            4,
        ),
        NCSDError::ReadPartitionLenghtError(_, i) => i < 8 && ncsd_stops_at(
            data,
            dependable,
            (0x124 + 8 * i) as nat,
            4,
        ),
        NCSDError::ReadExHeaderHashError(_) => ncsd_stops_at(data, dependable, 0x160, 0x20),
        NCSDError::ReadAdditionalHeaderSizeError(_) => ncsd_stops_at(data, dependable, 0x180, 4),
        NCSDError::SectorZeroOffsetReadError(_) => ncsd_stops_at(data, dependable, 0x184, 4),
        NCSDError::PartitionFlagReadError(_) => ncsd_stops_at(data, dependable, 0x188, 8),
        NCSDError::PartitionIdReadError(_, i) => i < 8 && ncsd_stops_at(
            data,
            dependable,
            (0x190 + 8 * i) as nat,
            8,
        ),
        NCSDError::InexistingPartition(_) => false,
        NCSDError::CreatePartitionFail(_) => false,
    }
}

/// The header of an NCSD container, and the source that it was read from.
pub struct NCSDReader<T: ByteSource> {
    /// The source that the header was read from.
    pub file: T,
    /// The size of the image, in bytes.
    pub size: u64,
    pub media_id: u64,
    pub partition_type: u64,
    /// The identifiers of the eight partitions.
    pub partitions_id: Vec<[u8; 8]>,
    pub partition_crypt_type: [u8; 8],
    /// The records of the eight partitions.
    pub partitions: Vec<PartitionData>,
}

impl<T: ByteSource> NCSDReader<T> {
    /// There are eight records, each for a run of sectors counted in 32 bits.
    pub open spec fn wf(&self) -> bool {
        &&& self.partitions@.len() == 8
        &&& forall|i: int|
            0 <= i < 8 ==> (#[trigger] self.partitions@[i]).bounded()
    }

    /// The reader holds what the header at the start of `data` says.
    pub open spec fn describes(&self, data: Seq<u8>) -> bool {
        &&& self.size == sectors(data, 0x104)
        &&& self.media_id == field(data, 0x108, 8)
        &&& self.partition_type == field(data, 0x110, 8)
        &&& self.partition_crypt_type@ == span(data, 0x118, 8)
        &&& self.partitions@.len() == 8
        &&& forall|i: int| 0 <= i < 8 ==> #[trigger] self.partitions@[i] == ncsd_partition(data, i)
        &&& self.partitions_id@.len() == 8
        &&& forall|i: int|
            0 <= i < 8 ==> (#[trigger] self.partitions_id@[i])@ == ncsd_partition_id(data, i)
    }

    /// Reads the header at the start of `file`.
    ///
    /// The header is accepted where it is complete, starts its second
    /// quarter-kilobyte with `NCSD` and marks every partition as not
    /// encrypted. Each other outcome names the field at which reading
    /// stopped.
    pub fn new(file: T) -> (r: Result<NCSDReader<T>, NCSDError>)
        requires
            file.wf(),
            file.position() == 0,
        ensures
            r matches Ok(reader) ==> {
                &&& reader.wf()
                &&& reader.file.wf()
                &&& same_source(&file, &reader.file)
            },
            file.modeled() ==> match r {
                Ok(reader) => {
                    &&& ncsd_accepts(file.bytes())
                    &&& reader.describes(file.bytes())
                    &&& reader.file.position() == ncsd_header_len()
                },
                Err(e) => ncsd_refusal(file.bytes(), file.dependable(), e),
            },
            file.modeled() && file.dependable() && ncsd_accepts(file.bytes()) ==> r is Ok,
    {
        let ghost data = file.bytes();
        let ghost dependable = file.dependable();
        let mut source = file;

        let mut signature = [0u8;0x100];
        match read_exact(&mut source, &mut signature) {
            Ok(_) => {},
            Err(e) => {
                return Err(NCSDError::SignatureReadError(e));
            },
        }

        let magic = match read_4(&mut source) {
            Ok(bytes) => bytes,
            Err(e) => {
                return Err(NCSDError::MagicReadError(e));
            },
        };
        let expected_magic: [u8; 4] = [78, 67, 83, 68];
        assert(expected_magic@ =~= ncsd_magic());
        if !is_magic(&magic, &expected_magic) {
            return Err(NCSDError::InvalidMagic(magic));
        }

        let size = match read_4(&mut source) {
            Ok(bytes) => sectors_to_bytes(u32_from_le(&bytes)),
            Err(e) => {
                return Err(NCSDError::ReadSizeError(e));
            },
        };

        let media_id = match read_8(&mut source) {
            Ok(bytes) => u64_from_le(&bytes),
            Err(e) => {
                return Err(NCSDError::MediaIDReadError(e));
            },
        };

        let partition_type = match read_8(&mut source) {
            Ok(bytes) => u64_from_le(&bytes),
            Err(e) => {
                return Err(NCSDError::PartitionTypeReadError(e));
            },
        };

        let partition_crypt_type = match read_8(&mut source) {
            Ok(bytes) => bytes,
            Err(e) => {
                return Err(NCSDError::CryptTypeReadError(e));
            },
        };
        if !is_zeroed(&partition_crypt_type) {
            return Err(NCSDError::EncryptedRom);
        }

        let mut partitions: Vec<PartitionData> = Vec::new();
        let mut partition_nb: usize = 0;
        while partition_nb < 8
            invariant
                partition_nb <= 8,
                data == file.bytes(),
                dependable == file.dependable(),
                source.wf(),
                same_source(&file, &source),
                partitions@.len() == partition_nb,
                forall|i: int| 0 <= i < partition_nb ==> (#[trigger] partitions@[i]).bounded(),
                file.modeled() ==> {
                    &&& source.position() == 0x120 + 8 * partition_nb
                    &&& data.len() >= 0x120 + 8 * partition_nb
                    &&& span(data, 0x100, 4) == ncsd_magic()
                    &&& span(data, 0x118, 8) == no_encryption()
                    &&& forall|i: int|
                        0 <= i < partition_nb ==> #[trigger] partitions@[i] == ncsd_partition(
                            data,
                            i,
                        )
                },
            decreases 8 - partition_nb,
        {
            let offset = match read_4(&mut source) {
                Ok(bytes) => sectors_to_bytes(u32_from_le(&bytes)),
                Err(e) => {
                    return Err(NCSDError::ReadPartitionOffsetError(e, partition_nb));
                },
            };
            let lenght = match read_4(&mut source) {
                Ok(bytes) => sectors_to_bytes(u32_from_le(&bytes)),
                Err(e) => {
                    return Err(NCSDError::ReadPartitionLenghtError(e, partition_nb));
                },
            };
            partitions.push(PartitionData { offset, lenght });
            partition_nb += 1;
        }

        let mut exheader_hash = [0u8;0x20];
        match read_exact(&mut source, &mut exheader_hash) {
            Ok(_) => {},
            Err(e) => {
                return Err(NCSDError::ReadExHeaderHashError(e));
            },
        }

        match read_4(&mut source) {
            Ok(_) => {},
            Err(e) => {
                return Err(NCSDError::ReadAdditionalHeaderSizeError(e));
            },
        }

        match read_4(&mut source) {
            Ok(_) => {},
            Err(e) => {
                return Err(NCSDError::SectorZeroOffsetReadError(e));
            },
        }

        match read_8(&mut source) {
            Ok(_) => {},
            Err(e) => {
                return Err(NCSDError::PartitionFlagReadError(e));
            },
        }

        let mut partitions_id: Vec<[u8; 8]> = Vec::new();
        let mut partition_nb: usize = 0;
        while partition_nb < 8
            invariant
                partition_nb <= 8,
                data == file.bytes(),
                dependable == file.dependable(),
                source.wf(),
                same_source(&file, &source),
                partitions_id@.len() == partition_nb,
                file.modeled() ==> {
                    &&& source.position() == 0x190 + 8 * partition_nb
                    &&& data.len() >= 0x190 + 8 * partition_nb
                    &&& span(data, 0x100, 4) == ncsd_magic()
                    &&& span(data, 0x118, 8) == no_encryption()
                    &&& forall|i: int|
                        0 <= i < partition_nb ==> (#[trigger] partitions_id@[i])@
                            == ncsd_partition_id(data, i)
                },
            decreases 8 - partition_nb,
        {
            let partition_id = match read_8(&mut source) {
                Ok(bytes) => bytes,
                Err(e) => {
                    return Err(NCSDError::PartitionIdReadError(e, partition_nb));
                },
            };
            partitions_id.push(partition_id);
            partition_nb += 1;
        }

        Ok(
            NCSDReader {
                file: source,
                size,
                media_id,
                partition_type,
                partitions_id,
                partition_crypt_type,
                partitions,
            },
        )
    }

    /// Opens partition `partition_nb` as a window on the source, and gives
    /// the header up.
    ///
    /// There are eight partitions, and one whose record says that it starts
    /// at sector 0 does not exist.
    pub fn load_partition(self, partition_nb: usize) -> (r: Result<Partition<T>, NCSDError>)
        requires
            self.wf(),
        ensures
            match r {
                Ok(p) => {
                    &&& partition_nb < 8
                    &&& self.partitions@[partition_nb as int].offset != 0
                    &&& p.wf()
                    &&& p.bounded()
                    &&& p.window_start() == self.partitions@[partition_nb as int].offset
                    &&& p.window_end() == self.partitions@[partition_nb as int].offset
                        + self.partitions@[partition_nb as int].lenght
                    &&& p.pointer() == p.window_start()
                    &&& same_source(&self.file, &p.source())
                },
                Err(NCSDError::InexistingPartition(n)) => {
                    &&& n == partition_nb
                    &&& partition_nb >= 8 || self.partitions@[partition_nb as int].offset == 0
                },
                Err(NCSDError::CreatePartitionFail(_)) => {
                    &&& partition_nb < 8
                    &&& self.partitions@[partition_nb as int].offset != 0
                    &&& self.file.modeled() ==> !(self.file.dependable()
                        && self.partitions@[partition_nb as int].offset <= self.file.bytes().len())
                },
                Err(_) => false,
            },
            self.file.modeled() && self.file.dependable() && partition_nb < 8
                && self.partitions@[partition_nb as int].offset != 0
                && self.partitions@[partition_nb as int].offset <= self.file.bytes().len() ==> r
                is Ok,
    {
        if partition_nb >= 8 {
            return Err(NCSDError::InexistingPartition(partition_nb));
        }
        let offset = self.partitions[partition_nb].offset;
        let lenght = self.partitions[partition_nb].lenght;
        if offset == 0 {
            return Err(NCSDError::InexistingPartition(partition_nb));
        }
        match Partition::new(self.file, offset, lenght) {
            Ok(value) => Ok(value),
            Err(err) => Err(NCSDError::CreatePartitionFail(err)),
        }
    }
}

} // verus!
