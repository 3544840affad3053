//! Read-only access to the RomFS of an unencrypted 3DS cartridge image.
//!
//! An image is an NCSD container of NCCH partitions. The first partition
//! holds a RomFS: a tree of directories and files under an IVFC header.
//! Each layer is read through a window on the layer around it.
//!
//! [`get_romfs_vfs`] takes a byte source that holds an image and gives the
//! file system of its RomFS.

use vstd::prelude::*;

pub mod bytes;
pub mod ivfc;
pub mod ivfc_vfs;
pub mod ncch;
pub mod ncsd;
pub mod partition;
pub mod paths;
pub mod shared;
pub mod source;

pub use ivfc::{IVFCError, IVFCReader};
pub use ivfc_vfs::{IVFCMeta, IVFCVFS, IVFCVPATH};
pub use ncch::{NCCHError, NCCHReader};
pub use ncsd::{NCSDError, NCSDReader};
pub use partition::{Partition, PartitionMutex};

verus! {

/// Where a region lies in the source around it, in bytes.
#[derive(Debug, Clone, Copy)]
pub struct PartitionData {
    pub offset: u64,
    pub lenght: u64,
}

impl PartitionData {
    /// The region is a run of sectors counted in 32 bits.
    pub open spec fn bounded(&self) -> bool {
        self.offset <= 0xFFFF_FFFF * 0x200 && self.lenght <= 0xFFFF_FFFF * 0x200
    }

    /// The bytes of the region in `data`.
    pub open spec fn of(&self, data: Seq<u8>) -> Seq<u8> {
        partition::window(data, self.offset as nat, (self.offset + self.lenght) as nat)
    }

    /// The region lies inside `data`.
    pub open spec fn within(&self, data: Seq<u8>) -> bool {
        self.offset + self.lenght <= data.len()
    }
}

/// The region that the eight bytes of `data` at `at` name: the sector at
/// which it starts, then the number of sectors that it takes.
pub open spec fn region_at(data: Seq<u8>, at: nat) -> PartitionData {
    PartitionData {
        offset: bytes::sectors(data, at) as u64,
        lenght: bytes::sectors(data, at + 4) as u64,
    }
}

/// Why the RomFS of an image was not reached: the layer that failed, and how.
#[derive(Debug)]
pub enum GetRomfsError {
    ReadNcsdError(NCSDError),
    ReadNcchError(NCCHError),
    ReadIVFCError(IVFCError),
}

impl From<NCCHError> for GetRomfsError {
    fn from(e: NCCHError) -> (r: GetRomfsError) {
        GetRomfsError::ReadNcchError(e)
    }
}

impl vstd::std_specs::convert::FromSpecImpl<NCCHError> for GetRomfsError {
    open spec fn obeys_from_spec() -> bool {
        true
    }

    open spec fn from_spec(e: NCCHError) -> GetRomfsError {
        GetRomfsError::ReadNcchError(e)
    }
}

impl From<NCSDError> for GetRomfsError {
    fn from(e: NCSDError) -> (r: GetRomfsError) {
        GetRomfsError::ReadNcsdError(e)
    }
}

impl vstd::std_specs::convert::FromSpecImpl<NCSDError> for GetRomfsError {
    open spec fn obeys_from_spec() -> bool {
        true
    }

    open spec fn from_spec(e: NCSDError) -> GetRomfsError {
        GetRomfsError::ReadNcsdError(e)
    }
}

impl From<IVFCError> for GetRomfsError {
    fn from(e: IVFCError) -> (r: GetRomfsError) {
        GetRomfsError::ReadIVFCError(e)
    }
}

impl vstd::std_specs::convert::FromSpecImpl<IVFCError> for GetRomfsError {
    open spec fn obeys_from_spec() -> bool {
        true
    }

    open spec fn from_spec(e: IVFCError) -> GetRomfsError {
        GetRomfsError::ReadIVFCError(e)
    }
}

/// The bytes of the first partition of the image `image`.
pub open spec fn first_partition(image: Seq<u8>) -> Seq<u8> {
    ncsd::ncsd_partition(image, 0).of(image)
}

/// The bytes of the RomFS of the first partition of the image `image`.
pub open spec fn romfs_of(image: Seq<u8>) -> Seq<u8> {
    region_at(first_partition(image), 0x1B0).of(first_partition(image))
}

/// The outer container of `image` is refused with `e`, or its first
/// partition is.
pub open spec fn container_refusal(image: Seq<u8>, dependable: bool, e: NCSDError) -> bool {
    match e {
        NCSDError::InexistingPartition(n) => {
            &&& n == 0
            &&& ncsd::ncsd_accepts(image)
            &&& ncsd::ncsd_partition(image, 0).offset == 0
        },
        NCSDError::CreatePartitionFail(_) => {
            &&& ncsd::ncsd_accepts(image)
            &&& ncsd::ncsd_partition(image, 0).offset != 0
            &&& !(dependable && ncsd::ncsd_partition(image, 0).offset <= image.len())
        },
        _ => ncsd::ncsd_refusal(image, dependable, e),
    }
}

/// The first partition of `image` is refused with `e`, or its RomFS is.
pub open spec fn partition_refusal(image: Seq<u8>, dependable: bool, e: NCCHError) -> bool {
    let inside = dependable && ncsd::ncsd_partition(image, 0).within(image);
    &&& ncsd::ncsd_accepts(image)
    &&& ncsd::ncsd_partition(image, 0).offset != 0
    &&& match e {
        NCCHError::CreatePartitionError(_) => {
            &&& ncch::ncch_accepts(first_partition(image))
            &&& !(inside && region_at(first_partition(image), 0x1B0).offset <= first_partition(
                image,
            ).len())
        },
        _ => ncch::ncch_refusal(first_partition(image), inside, e),
    }
}

/// The RomFS of `image` is refused with `e`.
pub open spec fn romfs_refusal(image: Seq<u8>, dependable: bool, e: IVFCError) -> bool {
    let inside = dependable && ncsd::ncsd_partition(image, 0).within(image) && region_at(
        first_partition(image),
        0x1B0,
    ).within(first_partition(image));
    &&& ncsd::ncsd_accepts(image)
    &&& ncsd::ncsd_partition(image, 0).offset != 0
    &&& ncch::ncch_accepts(first_partition(image))
    &&& ivfc::ivfc_refusal(romfs_of(image), inside, e)
}

/// The image `image` can be read down to its RomFS: each layer is accepted,
/// and lies inside the one around it.
pub open spec fn image_accepted(image: Seq<u8>) -> bool {
    &&& ncsd::ncsd_accepts(image)
    &&& ncsd::ncsd_partition(image, 0).offset != 0
    &&& ncsd::ncsd_partition(image, 0).within(image)
    &&& ncch::ncch_accepts(first_partition(image))
    &&& region_at(first_partition(image), 0x1B0).within(first_partition(image))
    &&& ivfc::ivfc_fault(romfs_of(image)) is None
}

/// Reads the image that `file` holds, down to the RomFS of its first
/// partition, and gives the file system of that RomFS.
///
/// Each layer is read through a window on the one around it: the first
/// partition of the container, then the RomFS of that partition. The error
/// says which layer failed, and how.
pub fn get_romfs_vfs<T: source::ByteSource>(file: T) -> (r: Result<
    IVFCVFS<Partition<Partition<T>>>,
    GetRomfsError,
>)
    requires
        file.wf(),
        file.position() == 0,
    ensures
        r matches Ok(vfs) ==> vfs.reader().wf(),
        file.modeled() ==> match r {
            Ok(vfs) => {
                &&& ncsd::ncsd_accepts(file.bytes())
                &&& ncsd::ncsd_partition(file.bytes(), 0).offset != 0
                &&& ncch::ncch_accepts(first_partition(file.bytes()))
                &&& ivfc::ivfc_fault(romfs_of(file.bytes())) is None
                &&& vfs.reader().describes(romfs_of(file.bytes()))
            },
            Err(GetRomfsError::ReadNcsdError(e)) => container_refusal(
                file.bytes(),
                file.dependable(),
                e,
            ),
            Err(GetRomfsError::ReadNcchError(e)) => partition_refusal(
                file.bytes(),
                file.dependable(),
                e,
            ),
            Err(GetRomfsError::ReadIVFCError(e)) => romfs_refusal(
                file.bytes(),
                file.dependable(),
                e,
            ),
        },
        file.modeled() && file.dependable() && image_accepted(file.bytes()) ==> r is Ok,
{
    let ncsd = match NCSDReader::new(file) {
        Ok(ncsd) => ncsd,
        Err(e) => {
            return Err(GetRomfsError::ReadNcsdError(e));
        },
    };
    let partition = match ncsd.load_partition(0) {
        Ok(partition) => partition,
        Err(e) => {
            return Err(GetRomfsError::ReadNcsdError(e));
        },
    };
    let ncch = match NCCHReader::new(partition) {
        Ok(ncch) => ncch,
        Err(e) => {
            return Err(GetRomfsError::ReadNcchError(e));
        },
    };
    let romfs = match ncch.get_romfs() {
        Ok(romfs) => romfs,
        Err(e) => {
            return Err(GetRomfsError::ReadNcchError(e));
        },
    };
    let ivfc = match IVFCReader::new(romfs) {
        Ok(ivfc) => ivfc,
        Err(e) => {
            return Err(GetRomfsError::ReadIVFCError(e));
        },
    };
    Ok(IVFCVFS::new(ivfc))
}

} // verus!
