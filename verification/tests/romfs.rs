use fs3ds::ivfc::{
    find_child, list_children, DirectoryMetadata, DirectoryOrFile, FileMetadata,
};
use fs3ds::ivfc_vfs::{walk_path, FileNameIterator, GetMetadataError, OpenOptions};
use fs3ds::source::{ByteSource, IoError, IoErrorKind, MemorySource, SeekFrom};
use fs3ds::{
    get_romfs_vfs, GetRomfsError, IVFCError, IVFCMeta, IVFCReader, NCCHError, NCCHReader,
    NCSDError, NCSDReader, Partition, IVFCVFS, IVFCVPATH,
};
use fs3ds::PartitionMutex;
use std::sync::{Arc, Mutex};

const SECTOR: usize = 0x200;
const PAYLOAD: [u8; 5] = [0xDE, 0xAD, 0xBE, 0xEF, 0x42];
const NESTED: [u8; 3] = [1, 2, 3];

fn put_u32(image: &mut Vec<u8>, at: usize, value: u32) {
    image[at..at + 4].copy_from_slice(&value.to_le_bytes());
}

fn put_u64(image: &mut Vec<u8>, at: usize, value: u64) {
    image[at..at + 8].copy_from_slice(&value.to_le_bytes());
}

fn utf16(name: &str) -> Vec<u8> {
    let mut bytes = Vec::new();
    for unit in name.encode_utf16() {
        bytes.extend_from_slice(&unit.to_le_bytes());
    }
    bytes
}

fn dir_entry(parent: u32, sibling: u32, subdir: u32, file: u32, name: &[u8]) -> Vec<u8> {
    let mut entry = Vec::new();
    for value in [parent, sibling, subdir, file, 0xFFFF_FFFF, name.len() as u32] {
        entry.extend_from_slice(&value.to_le_bytes());
    }
    entry.extend_from_slice(name);
    while entry.len() % 4 != 0 {
        entry.push(0);
    }
    entry
}

fn file_entry(parent: u32, sibling: u32, data: u64, lenght: u64, name: &[u8]) -> Vec<u8> {
    let mut entry = Vec::new();
    entry.extend_from_slice(&parent.to_le_bytes());
    entry.extend_from_slice(&sibling.to_le_bytes());
    entry.extend_from_slice(&data.to_le_bytes());
    entry.extend_from_slice(&lenght.to_le_bytes());
    entry.extend_from_slice(&0xFFFF_FFFFu32.to_le_bytes());
    entry.extend_from_slice(&(name.len() as u32).to_le_bytes());
    entry.extend_from_slice(name);
    while entry.len() % 4 != 0 {
        entry.push(0);
    }
    entry
}

const NONE: u32 = 0xFFFF_FFFF;

/// A RomFS whose root holds the directories `a` and `b` and the file
/// `c.bin`; `a` holds the file `d.txt`, `b` is empty.
fn romfs() -> Vec<u8> {
    // directory table: root at 0, a at 0x18, b at 0x34
    let root = dir_entry(0, NONE, 0x18, 0, &[]);
    assert_eq!(root.len(), 0x18);
    let a = dir_entry(0, 0x18 + 0x1C, NONE, 0x2C, &utf16("a"));
    assert_eq!(a.len(), 0x1C);
    let b = dir_entry(0, NONE, NONE, NONE, &utf16("b"));
    let mut dirs = Vec::new();
    dirs.extend_from_slice(&root);
    dirs.extend_from_slice(&a);
    dirs.extend_from_slice(&b);

    // file table: c.bin at 0, d.txt at 0x2C
    let c = file_entry(0, NONE, 0, 5, &utf16("c.bin"));
    assert_eq!(c.len(), 0x2C);
    let d = file_entry(0x18, NONE, 0x10, 3, &utf16("d.txt"));
    let mut files = Vec::new();
    files.extend_from_slice(&c);
    files.extend_from_slice(&d);

    let dir_table = 0x28usize;
    let file_table = dir_table + dirs.len();
    let file_data = (file_table + files.len() + 0xF) & !0xF;

    let mut image = vec![0u8; 0x1000 + file_data + 0x20];
    image[0..4].copy_from_slice(b"IVFC");
    image[4..8].copy_from_slice(&[0, 0, 1, 0]);
    put_u32(&mut image, 0x1000, 0x28);
    put_u32(&mut image, 0x100C, dir_table as u32);
    put_u32(&mut image, 0x1010, dirs.len() as u32);
    put_u32(&mut image, 0x101C, file_table as u32);
    put_u32(&mut image, 0x1020, files.len() as u32);
    put_u32(&mut image, 0x1024, file_data as u32);
    image[0x1000 + dir_table..0x1000 + dir_table + dirs.len()].copy_from_slice(&dirs);
    image[0x1000 + file_table..0x1000 + file_table + files.len()].copy_from_slice(&files);
    image[0x1000 + file_data..0x1000 + file_data + 5].copy_from_slice(&PAYLOAD);
    image[0x1000 + file_data + 0x10..0x1000 + file_data + 0x13].copy_from_slice(&NESTED);
    while image.len() % SECTOR != 0 {
        image.push(0);
    }
    image
}

/// An NCCH partition with the given RomFS at its second sector.
fn ncch(romfs: &[u8]) -> Vec<u8> {
    let mut image = vec![0u8; SECTOR];
    image[0x100..0x104].copy_from_slice(b"NCCH");
    put_u32(&mut image, 0x104, (1 + romfs.len() / SECTOR) as u32);
    image[0x112] = 2;
    put_u32(&mut image, 0x190, 5);
    put_u32(&mut image, 0x194, 6);
    put_u32(&mut image, 0x198, 7);
    put_u32(&mut image, 0x19C, 8);
    put_u32(&mut image, 0x1A0, 9);
    put_u32(&mut image, 0x1A4, 10);
    put_u32(&mut image, 0x1B0, 1);
    put_u32(&mut image, 0x1B4, (romfs.len() / SECTOR) as u32);
    image.extend_from_slice(romfs);
    image
}

/// An NCSD container with the given partition as its first, at sector 2.
fn ncsd(partition: &[u8]) -> Vec<u8> {
    let mut image = vec![0u8; 2 * SECTOR];
    image[0x100..0x104].copy_from_slice(b"NCSD");
    put_u32(&mut image, 0x104, (2 + partition.len() / SECTOR) as u32);
    put_u64(&mut image, 0x108, 0x0004_0000_0012_3400);
    put_u64(&mut image, 0x110, 0x0102_0304_0506_0708);
    put_u32(&mut image, 0x120, 2);
    put_u32(&mut image, 0x124, (partition.len() / SECTOR) as u32);
    for i in 0..8 {
        image[0x190 + 8 * i] = i as u8 + 1;
    }
    image.extend_from_slice(partition);
    image
}

fn cartridge() -> Vec<u8> {
    ncsd(&ncch(&romfs()))
}

fn vfs() -> IVFCVFS<Partition<Partition<MemorySource>>> {
    get_romfs_vfs(MemorySource::new(cartridge())).unwrap()
}

fn names(entries: &[String]) -> Vec<&str> {
    entries.iter().map(|s| s.as_str()).collect()
}

#[test]
fn magic_rejection() {
    let mut image = cartridge();
    image[0x103] = b'X';
    match get_romfs_vfs(MemorySource::new(image)) {
        Err(GetRomfsError::ReadNcsdError(NCSDError::InvalidMagic(found))) => {
            assert_eq!(&found, b"NCSX")
        }
        _ => panic!("the magic was not refused"),
    }
}

#[test]
fn encrypted_refusal() {
    for byte in 0..8 {
        let mut image = cartridge();
        image[0x118 + byte] = 1;
        assert!(matches!(
            get_romfs_vfs(MemorySource::new(image)),
            Err(GetRomfsError::ReadNcsdError(NCSDError::EncryptedRom))
        ));
    }
}

#[test]
fn inner_magic_rejection() {
    let mut image = cartridge();
    image[2 * SECTOR + 0x100] = b'M';
    match get_romfs_vfs(MemorySource::new(image)) {
        Err(GetRomfsError::ReadNcchError(NCCHError::InvalidMagic(found))) => {
            assert_eq!(&found, b"MCCH")
        }
        _ => panic!("the magic was not refused"),
    }
}

#[test]
fn ivfc_header_length() {
    let mut image = cartridge();
    image[3 * SECTOR + 0x1000] = 0x30;
    assert!(matches!(
        get_romfs_vfs(MemorySource::new(image)),
        Err(GetRomfsError::ReadIVFCError(IVFCError::Level3HeaderLenghtInvalid(0x30)))
    ));
}

#[test]
fn ivfc_magics() {
    let mut image = romfs();
    image[0] = b'J';
    match IVFCReader::new(MemorySource::new(image)) {
        Err(IVFCError::FirstMagicError(found)) => assert_eq!(&found, b"JVFC"),
        _ => panic!("the magic was not refused"),
    }
    let mut image = romfs();
    image[6] = 2;
    match IVFCReader::new(MemorySource::new(image)) {
        Err(IVFCError::SecondMagicError(found)) => assert_eq!(found, [0, 0, 2, 0]),
        _ => panic!("the version was not refused"),
    }
}

#[test]
fn directory_listing() {
    let vfs = vfs();
    let mut entries = vfs.path("/".to_string()).read_dir().unwrap();
    let mut found = Vec::new();
    while let Some(path) = entries.next() {
        found.push(path.to_string());
    }
    assert_eq!(found, ["romfs:///c.bin", "romfs:///a", "romfs:///b"]);
}

#[test]
fn file_read() {
    let vfs = vfs();
    let path = vfs.path("/c.bin".to_string());
    let mut file = path.open_with_options(&OpenOptions::new()).unwrap();
    let mut buf = [0u8; 5];
    assert_eq!(file.read(&mut buf).unwrap(), 5);
    assert_eq!(buf, PAYLOAD);
    let mut more = [0u8; 4];
    assert_eq!(file.read(&mut more).unwrap(), 0);
    assert_eq!(more, [0; 4]);
    assert_eq!(file.seek(SeekFrom::Current(0)).unwrap(), 5);
}

#[test]
fn a_long_buffer_gets_the_rest_of_the_file_only() {
    let vfs = vfs();
    let mut file = vfs.path("c.bin".to_string()).open_with_options(&OpenOptions::new()).unwrap();
    let mut buf = [0xFFu8; 16];
    assert_eq!(file.read(&mut buf).unwrap(), 5);
    assert_eq!(&buf[..5], &PAYLOAD);
    assert_eq!(&buf[5..], &[0xFF; 11]);
}

#[test]
fn read_length_is_metadata_length() {
    let vfs = vfs();
    for name in ["/c.bin", "/a/d.txt"] {
        let path = vfs.path(name.to_string());
        let lenght = path.metadata().unwrap().len();
        let mut file = path.open_with_options(&OpenOptions::new()).unwrap();
        let mut total = 0u64;
        let mut buf = [0u8; 2];
        loop {
            let n = file.read(&mut buf).unwrap();
            if n == 0 {
                break;
            }
            total += n as u64;
        }
        assert_eq!(total, lenght);
    }
}

#[test]
fn nested_file_read() {
    let vfs = vfs();
    let path = vfs.path("/a/d.txt".to_string());
    assert!(matches!(path.metadata().unwrap(), IVFCMeta::File(3)));
    let mut file = path.open_with_options(&OpenOptions::new()).unwrap();
    let mut buf = [0u8; 3];
    assert_eq!(file.read(&mut buf).unwrap(), 3);
    assert_eq!(buf, NESTED);
}

#[test]
fn open_files_do_not_disturb_each_other() {
    let vfs = vfs();
    let mut first = vfs.path("/c.bin".to_string()).open_with_options(&OpenOptions::new()).unwrap();
    let mut second =
        vfs.path("/a/d.txt".to_string()).open_with_options(&OpenOptions::new()).unwrap();
    let mut one = [0u8; 2];
    let mut two = [0u8; 2];
    assert_eq!(first.read(&mut one).unwrap(), 2);
    assert_eq!(second.read(&mut two).unwrap(), 2);
    assert_eq!(one, [0xDE, 0xAD]);
    assert_eq!(two, [1, 2]);
    assert!(vfs.path("/a".to_string()).path_exists());
    assert_eq!(first.read(&mut one).unwrap(), 2);
    assert_eq!(second.read(&mut two).unwrap(), 1);
    assert_eq!(one, [0xBE, 0xEF]);
    assert_eq!(two[0], 3);
}

#[test]
fn writes_are_refused() {
    let vfs = vfs();
    let path = vfs.path("/c.bin".to_string());
    let asks: [fn(&mut OpenOptions); 4] = [
        |o| o.write = true,
        |o| o.create = true,
        |o| o.append = true,
        |o| o.truncate = true,
    ];
    for ask in asks {
        let mut options = OpenOptions::new();
        options.read = true;
        ask(&mut options);
        match path.open_with_options(&options) {
            Err(e) => assert_eq!(e.kind, IoErrorKind::PermissionDenied),
            Ok(_) => panic!("opened for writing"),
        }
    }
    assert_eq!(path.mkdir().unwrap_err().kind, IoErrorKind::PermissionDenied);
    assert_eq!(path.rm().unwrap_err().kind, IoErrorKind::PermissionDenied);
    assert_eq!(path.rmrf().unwrap_err().kind, IoErrorKind::PermissionDenied);
    let mut file = path.open_with_options(&OpenOptions::new()).unwrap();
    assert_eq!(file.write(&[1, 2, 3]).unwrap_err().kind, IoErrorKind::PermissionDenied);
    assert!(file.flush().is_ok());
    let mut buf = [0u8; 5];
    assert_eq!(file.read(&mut buf).unwrap(), 5);
    assert_eq!(buf, PAYLOAD);
}

#[test]
fn a_directory_does_not_open_and_a_file_does_not_list() {
    let vfs = vfs();
    match vfs.path("/a".to_string()).open_with_options(&OpenOptions::new()) {
        Err(e) => assert_eq!(e.kind, IoErrorKind::InvalidData),
        Ok(_) => panic!("opened a directory"),
    }
    match vfs.path("/c.bin".to_string()).read_dir() {
        Err(e) => assert_eq!(e.kind, IoErrorKind::InvalidData),
        Ok(_) => panic!("listed a file"),
    }
}

#[test]
fn metadata_of_paths() {
    let vfs = vfs();
    let root = vfs.path("".to_string()).metadata().unwrap();
    assert!(root.is_dir());
    assert!(!root.is_file());
    assert_eq!(root.len(), 0);
    let file = vfs.path("/c.bin".to_string()).metadata().unwrap();
    assert!(file.is_file());
    assert!(!file.is_dir());
    assert_eq!(file.len(), 5);
    assert!(vfs.path("/b".to_string()).metadata().unwrap().is_dir());
    assert!(vfs.path("a//d.txt/".to_string()).path_exists());
    assert!(!vfs.path("/nothing".to_string()).path_exists());
    assert_eq!(
        vfs.path("/nothing".to_string()).metadata().unwrap_err().kind,
        IoErrorKind::NotFound
    );
}

#[test]
fn a_path_that_does_not_resolve_is_not_found() {
    let vfs = vfs();
    for path in ["/nothing", "/a/nothing", "/b/nothing", "/c.bin/below"] {
        match vfs.path(path.to_string()).open_with_options(&OpenOptions::new()) {
            Err(e) => assert_eq!(e.kind, IoErrorKind::NotFound),
            Ok(_) => panic!("opened what is not there"),
        }
        match vfs.path(path.to_string()).read_dir() {
            Err(e) => assert_eq!(e.kind, IoErrorKind::NotFound),
            Ok(_) => panic!("listed what is not there"),
        }
    }
}

#[test]
fn a_path_does_not_go_on_below_a_file() {
    let vfs = vfs();
    match vfs.path("/c.bin/x".to_string()).get_internal_meta() {
        Err(GetMetadataError::TryGetChildFile(file)) => assert_eq!(file.name, "c.bin"),
        _ => panic!("went below a file"),
    }
}

#[test]
fn walking_the_tree_finds_every_name_once() {
    let vfs = vfs();
    let mut found = Vec::new();
    let mut todo = vec![vfs.path("/".to_string())];
    while let Some(dir) = todo.pop() {
        let mut entries = dir.read_dir().unwrap();
        while let Some(path) = entries.next() {
            found.push(path.to_string());
            if path.metadata().unwrap().is_dir() {
                todo.push(path);
            }
        }
    }
    found.sort();
    assert_eq!(found, ["romfs:///a", "romfs:///a/d.txt", "romfs:///b", "romfs:///c.bin"]);
}

fn reader() -> IVFCReader<MemorySource> {
    IVFCReader::new(MemorySource::new(romfs())).unwrap()
}

#[test]
fn reader_holds_the_header() {
    let reader = reader();
    assert_eq!(reader.dir_metadata_part_offset, 0x1028);
    assert_eq!(reader.file_metadata_part_offset, 0x1028 + 0x18 + 0x1C + 0x1C);
    assert_eq!(reader.file_data_offset, 0x1000 + 0xD0);
    let root = &reader.first_dir_metadata;
    assert_eq!(root.offset_parent, Some(0));
    assert_eq!(root.offset_next_sibling, None);
    assert_eq!(root.offset_first_subdir, Some(0x18));
    assert_eq!(root.offset_first_file, Some(0));
    assert_eq!(root.name, None);
}

#[test]
fn get_child_finds_directories_and_files() {
    let reader = reader();
    let root = reader.first_dir_metadata.clone();
    match reader.get_child(&root, "a").unwrap() {
        DirectoryOrFile::Dir(dir) => {
            assert_eq!(dir.name.as_deref(), Some("a"));
            assert_eq!(dir.offset_next_sibling, Some(0x34));
            assert_eq!(dir.offset_first_subdir, None);
            assert_eq!(dir.offset_first_file, Some(0x2C));
        }
        DirectoryOrFile::File(_) => panic!("a is a directory"),
    }
    match reader.get_child(&root, "c.bin").unwrap() {
        DirectoryOrFile::File(file) => {
            assert_eq!(file.name, "c.bin");
            assert_eq!(file.offset_parent, 0);
            assert_eq!(file.offset_sibling, None);
            assert_eq!(file.offset_file_data, 0);
            assert_eq!(file.lenght_file_data, 5);
            assert_eq!(reader.get_file_real_offset(&file), 0x10D0);
        }
        DirectoryOrFile::Dir(_) => panic!("c.bin is a file"),
    }
}

#[test]
fn a_file_is_found_in_a_directory_without_subdirectories() {
    let reader = reader();
    let root = reader.first_dir_metadata.clone();
    let a = match reader.get_child(&root, "a").unwrap() {
        DirectoryOrFile::Dir(dir) => dir,
        DirectoryOrFile::File(_) => panic!("a is a directory"),
    };
    match reader.get_child(&a, "d.txt").unwrap() {
        DirectoryOrFile::File(file) => {
            assert_eq!(file.lenght_file_data, 3);
            assert_eq!(reader.get_file_real_offset(&file), 0x10E0);
        }
        DirectoryOrFile::Dir(_) => panic!("d.txt is a file"),
    }
}

#[test]
fn a_missing_name_is_a_missing_file_where_there_are_files() {
    let reader = reader();
    let root = reader.first_dir_metadata.clone();
    assert!(matches!(reader.get_child(&root, "zzz"), Err(IVFCError::FileNotFound)));
    let a = match reader.get_child(&root, "a").unwrap() {
        DirectoryOrFile::Dir(dir) => dir,
        DirectoryOrFile::File(_) => panic!("a is a directory"),
    };
    assert!(matches!(reader.get_child(&a, "zzz"), Err(IVFCError::FileNotFound)));
}

#[test]
fn a_missing_name_is_a_missing_directory_where_there_are_no_files() {
    let reader = reader();
    let root = reader.first_dir_metadata.clone();
    let b = match reader.get_child(&root, "b").unwrap() {
        DirectoryOrFile::Dir(dir) => dir,
        DirectoryOrFile::File(_) => panic!("b is a directory"),
    };
    assert!(matches!(reader.get_child(&b, "zzz"), Err(IVFCError::DirNotFound)));
    let only_dirs = DirectoryMetadata {
        offset_parent: Some(0),
        offset_next_sibling: None,
        offset_first_subdir: Some(0x18),
        offset_first_file: None,
        name: None,
    };
    assert!(matches!(reader.get_child(&only_dirs, "zzz"), Err(IVFCError::DirNotFound)));
    assert!(matches!(reader.get_child(&only_dirs, "b"), Ok(DirectoryOrFile::Dir(_))));
}

#[test]
fn an_empty_directory_lists_nothing() {
    let reader = reader();
    let root = reader.first_dir_metadata.clone();
    let b = match reader.get_child(&root, "b").unwrap() {
        DirectoryOrFile::Dir(dir) => dir,
        DirectoryOrFile::File(_) => panic!("b is a directory"),
    };
    assert!(reader.list_child(&b).unwrap().is_empty());
}

#[test]
fn listing_gives_files_then_directories() {
    let reader = reader();
    let root = reader.first_dir_metadata.clone();
    assert_eq!(names(&reader.list_child(&root).unwrap()), ["c.bin", "a", "b"]);
    let mut childs = vec!["kept".to_string()];
    reader.list_dir_child(&root, &mut childs).unwrap();
    assert_eq!(names(&childs), ["kept", "a", "b"]);
    reader.list_file_child(&root, &mut childs).unwrap();
    assert_eq!(names(&childs), ["kept", "a", "b", "c.bin"]);
}

#[test]
fn every_listed_name_resolves() {
    let mut source = MemorySource::new(romfs());
    let reader = reader();
    let root = reader.first_dir_metadata.clone();
    let listed = list_children(
        &mut source,
        reader.dir_metadata_part_offset,
        reader.file_metadata_part_offset,
        &root,
    )
    .unwrap();
    assert_eq!(names(&listed), ["c.bin", "a", "b"]);
    for name in &listed {
        assert!(find_child(
            &mut source,
            reader.dir_metadata_part_offset,
            reader.file_metadata_part_offset,
            &root,
            name,
        )
        .is_ok());
    }
    for name in ["", "c", "A", "c.bin ", "/"] {
        assert!(find_child(
            &mut source,
            reader.dir_metadata_part_offset,
            reader.file_metadata_part_offset,
            &root,
            name,
        )
        .is_err());
    }
}

#[test]
fn records_are_read_at_the_cursor() {
    let mut source = MemorySource::new(romfs());
    source.seek(SeekFrom::Start(0x1028 + 0x34)).unwrap();
    let b = DirectoryMetadata::new(&mut source, false).unwrap();
    assert_eq!(b.name.as_deref(), Some("b"));
    assert_eq!(b.offset_first_subdir, None);
    assert_eq!(b.offset_first_file, None);
    source.seek(SeekFrom::Start(0x1028 + 0x50 + 0x2C)).unwrap();
    let d = FileMetadata::new(&mut source).unwrap();
    assert_eq!(d.name, "d.txt");
    assert_eq!(d.offset_parent, 0x18);
    assert_eq!(d.offset_file_data, 0x10);
    assert_eq!(d.lenght_file_data, 3);
}

#[test]
fn a_name_of_odd_length_is_refused() {
    let mut image = romfs();
    // the length of the name of `a`
    image[0x1028 + 0x18 + 20] = 3;
    let reader = IVFCReader::new(MemorySource::new(image)).unwrap();
    let root = reader.first_dir_metadata.clone();
    assert!(matches!(
        reader.get_child(&root, "b"),
        Err(IVFCError::UTF16LenghtNonMultiple2("directory name", 3))
    ));
    let mut childs = Vec::new();
    assert!(matches!(
        reader.list_dir_child(&root, &mut childs),
        Err(IVFCError::UTF16LenghtNonMultiple2("directory name", 3))
    ));
}

#[test]
fn a_name_that_is_no_utf16_is_refused() {
    let mut image = romfs();
    // a lone surrogate where the `c` of `c.bin` stood
    image[0x1028 + 0x50 + 32] = 0x00;
    image[0x1028 + 0x50 + 33] = 0xD8;
    let reader = IVFCReader::new(MemorySource::new(image)).unwrap();
    let root = reader.first_dir_metadata.clone();
    assert!(matches!(reader.get_child(&root, "a"), Ok(DirectoryOrFile::Dir(_))));
    assert!(matches!(
        reader.get_child(&root, "c.bin"),
        Err(IVFCError::ToUTF16Error(_, "file name"))
    ));
    assert!(matches!(reader.list_child(&root), Err(IVFCError::ToUTF16Error(_, "file name"))));
}

#[test]
fn names_beyond_ascii_are_decoded() {
    let mut image = romfs();
    // U+00E9 in place of the `a`
    image[0x1028 + 0x18 + 24] = 0xE9;
    let reader = IVFCReader::new(MemorySource::new(image)).unwrap();
    let root = reader.first_dir_metadata.clone();
    assert!(matches!(reader.get_child(&root, "\u{e9}"), Ok(DirectoryOrFile::Dir(_))));
    assert_eq!(names(&reader.list_child(&root).unwrap()), ["c.bin", "\u{e9}", "b"]);
}

#[test]
fn a_record_past_the_end_is_a_read_error() {
    let mut image = romfs();
    // the sibling of `a` lies far outside the image
    put_u32(&mut image, 0x1028 + 0x18 + 4, 0x00F0_0000);
    let reader = IVFCReader::new(MemorySource::new(image)).unwrap();
    let root = reader.first_dir_metadata.clone();
    match reader.get_child(&root, "b") {
        Err(IVFCError::ReadError(e, _)) => assert_eq!(e.kind, IoErrorKind::UnexpectedEof),
        _ => panic!("read a record that is not there"),
    }
    assert!(matches!(reader.get_child(&root, "a"), Ok(DirectoryOrFile::Dir(_))));
}

#[test]
fn a_truncated_romfs_is_a_read_error() {
    let mut image = romfs();
    image.truncate(0x1010);
    match IVFCReader::new(MemorySource::new(image)) {
        Err(IVFCError::ReadError(e, what)) => {
            assert_eq!(e.kind, IoErrorKind::UnexpectedEof);
            assert_eq!(what, "lenght of the directory metadata");
        }
        _ => panic!("read a header that is not there"),
    }
}

#[test]
fn ncsd_header_fields() {
    let image = cartridge();
    let total = image.len() as u64;
    let reader = NCSDReader::new(MemorySource::new(image)).unwrap();
    assert_eq!(reader.size, total);
    assert_eq!(reader.media_id, 0x0004_0000_0012_3400);
    assert_eq!(reader.partition_type, 0x0102_0304_0506_0708);
    assert_eq!(reader.partition_crypt_type, [0; 8]);
    assert_eq!(reader.partitions.len(), 8);
    assert_eq!(reader.partitions[0].offset, 0x400);
    assert_eq!(reader.partitions[0].lenght, total - 0x400);
    assert_eq!(reader.partitions[1].offset, 0);
    assert_eq!(reader.partitions_id.len(), 8);
    for i in 0..8 {
        assert_eq!(reader.partitions_id[i], [i as u8 + 1, 0, 0, 0, 0, 0, 0, 0]);
    }
}

#[test]
fn sector_counts_do_not_overflow() {
    let mut image = cartridge();
    put_u32(&mut image, 0x104, 0xFFFF_FFFF);
    put_u32(&mut image, 0x138, 0x0080_0000);
    put_u32(&mut image, 0x13C, 0xFFFF_FFFF);
    let reader = NCSDReader::new(MemorySource::new(image)).unwrap();
    assert_eq!(reader.size, 0xFFFF_FFFFu64 * 0x200);
    assert_eq!(reader.partitions[3].offset, 0x1_0000_0000);
    assert_eq!(reader.partitions[3].lenght, 0xFFFF_FFFFu64 * 0x200);
}

#[test]
fn partitions_that_are_not_there() {
    for nb in [1usize, 7, 8, 9, usize::MAX] {
        let reader = NCSDReader::new(MemorySource::new(cartridge())).unwrap();
        match reader.load_partition(nb) {
            Err(NCSDError::InexistingPartition(found)) => assert_eq!(found, nb),
            _ => panic!("loaded a partition that is not there"),
        }
    }
    let mut image = cartridge();
    put_u32(&mut image, 0x120, 0);
    assert!(matches!(
        get_romfs_vfs(MemorySource::new(image)),
        Err(GetRomfsError::ReadNcsdError(NCSDError::InexistingPartition(0)))
    ));
}

#[test]
fn a_truncated_container_names_the_field() {
    let image = cartridge();
    let cut = |len: usize| NCSDReader::new(MemorySource::new(image[..len].to_vec())).err().unwrap();
    assert!(matches!(cut(0), NCSDError::SignatureReadError(_)));
    assert!(matches!(cut(0xFF), NCSDError::SignatureReadError(_)));
    assert!(matches!(cut(0x100), NCSDError::MagicReadError(_)));
    assert!(matches!(cut(0x104), NCSDError::ReadSizeError(_)));
    assert!(matches!(cut(0x108), NCSDError::MediaIDReadError(_)));
    assert!(matches!(cut(0x110), NCSDError::PartitionTypeReadError(_)));
    assert!(matches!(cut(0x11F), NCSDError::CryptTypeReadError(_)));
    assert!(matches!(cut(0x120), NCSDError::ReadPartitionOffsetError(_, 0)));
    assert!(matches!(cut(0x124), NCSDError::ReadPartitionLenghtError(_, 0)));
    assert!(matches!(cut(0x15B), NCSDError::ReadPartitionOffsetError(_, 7)));
    assert!(matches!(cut(0x15F), NCSDError::ReadPartitionLenghtError(_, 7)));
    assert!(matches!(cut(0x160), NCSDError::ReadExHeaderHashError(_)));
    assert!(matches!(cut(0x180), NCSDError::ReadAdditionalHeaderSizeError(_)));
    assert!(matches!(cut(0x184), NCSDError::SectorZeroOffsetReadError(_)));
    assert!(matches!(cut(0x188), NCSDError::PartitionFlagReadError(_)));
    assert!(matches!(cut(0x190), NCSDError::PartitionIdReadError(_, 0)));
    assert!(matches!(cut(0x1CF), NCSDError::PartitionIdReadError(_, 7)));
    assert!(NCSDReader::new(MemorySource::new(image[..0x1D0].to_vec())).is_ok());
    match cut(0x100) {
        NCSDError::MagicReadError(e) => assert_eq!(e.kind, IoErrorKind::UnexpectedEof),
        _ => panic!("another error"),
    }
}

#[test]
fn ncch_header_fields() {
    let partition = ncch(&romfs());
    let size = partition.len() as u64;
    let reader = NCCHReader::new(MemorySource::new(partition)).unwrap();
    assert_eq!(reader.content_size, size);
    assert_eq!(reader.version, 2);
    assert_eq!((reader.plain_region.offset, reader.plain_region.lenght), (5 * 0x200, 6 * 0x200));
    assert_eq!((reader.logo_region.offset, reader.logo_region.lenght), (7 * 0x200, 8 * 0x200));
    assert_eq!((reader.exefs.offset, reader.exefs.lenght), (9 * 0x200, 10 * 0x200));
    assert_eq!((reader.romfs.offset, reader.romfs.lenght), (0x200, size - 0x200));
}

#[test]
fn a_truncated_partition_names_the_field() {
    let partition = ncch(&romfs());
    let cut =
        |len: usize| NCCHReader::new(MemorySource::new(partition[..len].to_vec())).err().unwrap();
    assert!(matches!(cut(0x10), NCCHError::ReadNCCHSignatureError(_)));
    assert!(matches!(cut(0x102), NCCHError::ReadMagicError(_)));
    assert!(matches!(cut(0x104), NCCHError::SizeReadError(_)));
    assert!(matches!(cut(0x108), NCCHError::PartitionIdReadError(_)));
    assert!(matches!(cut(0x110), NCCHError::MakerCodeReadError(_)));
    assert!(matches!(cut(0x112), NCCHError::VersionReadError(_)));
    assert!(matches!(cut(0x18F), NCCHError::FlagsReadError(_)));
    assert!(matches!(cut(0x190), NCCHError::OffsetReadError(_, "plain region")));
    assert!(matches!(cut(0x194), NCCHError::LenghtReadError(_, "plain region")));
    assert!(matches!(cut(0x198), NCCHError::OffsetReadError(_, "logo region")));
    assert!(matches!(cut(0x19C), NCCHError::LenghtReadError(_, "logo region")));
    assert!(matches!(cut(0x1A0), NCCHError::OffsetReadError(_, "exefs")));
    assert!(matches!(cut(0x1A4), NCCHError::LenghtReadError(_, "exefs")));
    assert!(matches!(cut(0x1B0), NCCHError::OffsetReadError(_, "romfs")));
    assert!(matches!(cut(0x1B4), NCCHError::LenghtReadError(_, "romfs")));
    assert!(NCCHReader::new(MemorySource::new(partition[..0x1B8].to_vec())).is_ok());
}

#[test]
fn regions_open_as_windows() {
    let partition = ncch(&romfs());
    let mut window =
        NCCHReader::new(MemorySource::new(partition.clone())).unwrap().get_romfs().unwrap();
    let mut magic = [0u8; 4];
    assert_eq!(window.read(&mut magic).unwrap(), 4);
    assert_eq!(&magic, b"IVFC");

    let mut partition = partition;
    put_u32(&mut partition, 0x190, 0);
    put_u32(&mut partition, 0x194, 1);
    put_u32(&mut partition, 0x198, 1);
    put_u32(&mut partition, 0x19C, 1);
    put_u32(&mut partition, 0x1A0, 8);
    put_u32(&mut partition, 0x1A4, 1);
    let open = |partition: &Vec<u8>| NCCHReader::new(MemorySource::new(partition.clone())).unwrap();
    let mut plain = open(&partition).get_plain_region().unwrap();
    let mut buf = [0u8; 0x104];
    assert_eq!(plain.read(&mut buf).unwrap(), 0x104);
    assert_eq!(&buf[0x100..], b"NCCH");
    let mut logo = open(&partition).get_logo_region().unwrap();
    assert_eq!(logo.read(&mut magic).unwrap(), 4);
    assert_eq!(&magic, b"IVFC");
    assert_eq!(logo.seek(SeekFrom::End(0)).unwrap(), 0x200);
    let mut exefs = open(&partition).get_exefs().unwrap();
    assert_eq!(exefs.seek(SeekFrom::Current(0)).unwrap(), 0);
    let whole = MemorySource::new(partition.clone());
    let mut again = open(&partition)
        .get_partition(fs3ds::PartitionData { offset: 0x100, lenght: 4 })
        .unwrap();
    assert_eq!(again.read(&mut buf).unwrap(), 4);
    assert_eq!(&buf[..4], b"NCCH");
    drop(whole);
}

#[test]
fn root_path_of_a_reader() {
    let reader = Arc::new(reader());
    let root = IVFCVPATH::new(reader);
    assert_eq!(root.to_string(), "romfs://");
    assert!(root.metadata().unwrap().is_dir());
    assert!(root.parent().is_none());
    let child = root.resolve(&"a".to_string()).resolve(&"d.txt".to_string());
    assert_eq!(child.to_string(), "romfs://a/d.txt");
    assert_eq!(child.metadata().unwrap().len(), 3);
    assert_eq!(child.file_name().as_deref(), Some("d.txt"));
    assert_eq!(child.extension().as_deref(), Some("txt"));
    let above = child.parent().unwrap();
    assert_eq!(above.to_string(), "romfs://a");
    assert!(above.metadata().unwrap().is_dir());
    assert_eq!(above.clone().to_string(), "romfs://a");
}

#[test]
fn to_io_error_is_not_found() {
    let error = GetMetadataError::IVFCError(IVFCError::FileNotFound).to_io_error();
    assert_eq!(error.kind, IoErrorKind::NotFound);
    assert!(matches!(
        error.cause,
        fs3ds::ivfc_vfs::VfsCause::Metadata(GetMetadataError::IVFCError(IVFCError::FileNotFound))
    ));
}

/// A source that refuses every seek after the first `seeks`, and every read
/// after the first `reads`.
struct Stubborn {
    inner: MemorySource,
    seeks: usize,
    reads: usize,
}

impl Stubborn {
    fn new(data: Vec<u8>, seeks: usize, reads: usize) -> Stubborn {
        Stubborn { inner: MemorySource::new(data), seeks, reads }
    }
}

impl ByteSource for Stubborn {
    fn read(&mut self, buf: &mut [u8]) -> Result<usize, IoError> {
        if self.reads == 0 {
            return Err(IoError::new(IoErrorKind::Other, "no more reads"));
        }
        self.reads -= 1;
        self.inner.read(buf)
    }

    fn seek(&mut self, target: SeekFrom) -> Result<u64, IoError> {
        if self.seeks == 0 {
            return Err(IoError::new(IoErrorKind::Other, "no more seeks"));
        }
        self.seeks -= 1;
        self.inner.seek(target)
    }
}

const MANY: usize = usize::MAX;

#[test]
fn a_source_that_fails_a_read_is_reported_with_its_error() {
    match NCSDReader::new(Stubborn::new(cartridge(), MANY, 0)) {
        Err(NCSDError::SignatureReadError(e)) => {
            assert_eq!(e.kind, IoErrorKind::Other);
            assert_eq!(e.message, "no more reads");
        }
        _ => panic!("read from a source that gives nothing"),
    }
    assert!(matches!(
        NCSDReader::new(Stubborn::new(cartridge(), MANY, 2)),
        Err(NCSDError::ReadSizeError(_))
    ));
    assert!(matches!(
        NCCHReader::new(Stubborn::new(ncch(&romfs()), MANY, 0)),
        Err(NCCHError::ReadNCCHSignatureError(_))
    ));
    assert!(matches!(
        IVFCReader::new(Stubborn::new(romfs(), MANY, 0)),
        Err(IVFCError::ReadError(_, "magic \"IVFC\""))
    ));
    assert!(matches!(
        IVFCReader::new(Stubborn::new(romfs(), MANY, 1)),
        Err(IVFCError::ReadError(_, "magic 0x00010000"))
    ));
    assert!(matches!(
        IVFCReader::new(Stubborn::new(romfs(), MANY, 12)),
        Err(IVFCError::ReadError(_, "offset of the parent directory in a directory metadata"))
    ));
}

#[test]
fn a_source_that_fails_a_seek_is_reported_with_its_error() {
    assert!(matches!(
        NCCHReader::new(Stubborn::new(ncch(&romfs()), 0, MANY)),
        Err(NCCHError::FlagsSeekError(_))
    ));
    assert!(matches!(
        NCCHReader::new(Stubborn::new(ncch(&romfs()), 1, MANY)),
        Err(NCCHError::OffsetSeekError(_, "romfs"))
    ));
    assert!(matches!(
        IVFCReader::new(Stubborn::new(romfs(), 0, MANY)),
        Err(IVFCError::SeekError(_, "level 3"))
    ));
    assert!(matches!(
        IVFCReader::new(Stubborn::new(romfs(), 1, MANY)),
        Err(IVFCError::SeekError(_, "first directory metadata"))
    ));
    let reader = IVFCReader::new(Stubborn::new(romfs(), 2, MANY)).unwrap();
    let root = reader.first_dir_metadata.clone();
    assert!(matches!(
        reader.get_child(&root, "a"),
        Err(IVFCError::SeekError(_, "a directory metadata"))
    ));
    assert!(matches!(
        reader.list_child(&root),
        Err(IVFCError::SeekError(_, "a file metadata for listing child files"))
    ));
    let mut childs = Vec::new();
    assert!(matches!(
        reader.list_dir_child(&root, &mut childs),
        Err(IVFCError::SeekError(_, "a directory metadata for listing child directory"))
    ));
    assert!(childs.is_empty());
}

#[test]
fn a_window_that_cannot_be_reached_is_not_made() {
    let reader = NCSDReader::new(Stubborn::new(cartridge(), 0, MANY)).unwrap();
    assert!(matches!(reader.load_partition(0), Err(NCSDError::CreatePartitionFail(_))));
    let reader = NCCHReader::new(Stubborn::new(ncch(&romfs()), 2, MANY)).unwrap();
    assert!(matches!(reader.get_romfs(), Err(NCCHError::CreatePartitionError(_))));
    assert!(matches!(
        get_romfs_vfs(Stubborn::new(cartridge(), 0, MANY)),
        Err(GetRomfsError::ReadNcsdError(NCSDError::CreatePartitionFail(_)))
    ));
    assert!(matches!(
        get_romfs_vfs(Stubborn::new(cartridge(), 3, MANY)),
        Err(GetRomfsError::ReadNcchError(NCCHError::CreatePartitionError(_)))
    ));
    assert!(Partition::new(Stubborn::new(romfs(), 0, MANY), 0, 8).is_err());
    let shared = Arc::new(Mutex::new(Stubborn::new(romfs(), 0, MANY)));
    assert!(PartitionMutex::new(shared, 0, 8).is_err());
}

#[test]
fn the_file_system_reports_what_the_reader_could_not_read() {
    // enough seeks to read the headers and to list the root, no more
    let vfs = get_romfs_vfs(Stubborn::new(cartridge(), 6, MANY)).unwrap();
    let root = vfs.path("/".to_string());
    match root.read_dir() {
        Err(e) => assert_eq!(e.kind, IoErrorKind::Other),
        Ok(_) => panic!("listed without seeking"),
    }
    match vfs.path("/c.bin".to_string()).open_with_options(&OpenOptions::new()) {
        Err(e) => assert_eq!(e.kind, IoErrorKind::NotFound),
        Ok(_) => panic!("opened without seeking"),
    }
    assert!(!vfs.path("/c.bin".to_string()).path_exists());
    assert!(vfs.path("/".to_string()).path_exists());
}

#[test]
fn a_file_that_ends_past_what_can_be_addressed_does_not_open() {
    let reader = Arc::new(reader());
    let path = IVFCVPATH::new(reader);
    let file = FileMetadata {
        offset_parent: 0,
        offset_sibling: None,
        offset_file_data: u64::MAX - 0x2000,
        lenght_file_data: 0x2000,
        name: "huge".to_string(),
    };
    match path.open_file(&file) {
        Err(e) => assert_eq!(e.kind, IoErrorKind::InvalidData),
        Ok(_) => panic!("opened a file past the end of everything"),
    }
    let file = FileMetadata { offset_file_data: 0, lenght_file_data: 5, ..file };
    let mut opened = path.open_file(&file).unwrap();
    let mut buf = [0u8; 8];
    assert_eq!(opened.read(&mut buf).unwrap(), 5);
    assert_eq!(&buf[..5], &PAYLOAD);
}

#[test]
fn entries_are_the_names_under_their_directory() {
    let reader = Arc::new(reader());
    let dir = IVFCVPATH::new(reader).resolve(&"a".to_string());
    let mut entries =
        FileNameIterator::new(vec!["x".to_string(), "y.z".to_string()], dir);
    assert_eq!(entries.next().unwrap().to_string(), "romfs://a/x");
    assert_eq!(entries.next().unwrap().to_string(), "romfs://a/y.z");
    assert!(entries.next().is_none());
    assert!(entries.next().is_none());
}

#[test]
fn a_file_system_of_a_reader() {
    let vfs = IVFCVFS::new(reader());
    let path = vfs.path("a/d.txt".to_string());
    assert_eq!(path.to_string(), "romfs://a/d.txt");
    assert!(path.path_exists());
    assert!(matches!(path.get_internal_meta(), Ok(DirectoryOrFile::File(_))));
    assert!(matches!(vfs.path("a".to_string()).get_internal_meta(), Ok(DirectoryOrFile::Dir(_))));
    match vfs.path("b/x".to_string()).get_internal_meta() {
        Err(GetMetadataError::IVFCError(IVFCError::DirNotFound)) => {}
        _ => panic!("found a child of an empty directory"),
    }
    match vfs.path("a/x".to_string()).get_internal_meta() {
        Err(GetMetadataError::IVFCError(IVFCError::FileNotFound)) => {}
        _ => panic!("found a file that is not there"),
    }
}

#[test]
fn a_walk_goes_down_component_by_component() {
    let mut source = MemorySource::new(romfs());
    let reader = reader();
    let root = reader.first_dir_metadata.clone();
    let walk = |source: &mut MemorySource, parts: &[&str]| {
        let parts: Vec<String> = parts.iter().map(|s| s.to_string()).collect();
        walk_path(
            source,
            reader.dir_metadata_part_offset,
            reader.file_metadata_part_offset,
            &root,
            &parts,
        )
    };
    match walk(&mut source, &[]) {
        Ok(DirectoryOrFile::Dir(dir)) => assert_eq!(dir.name, None),
        _ => panic!("the root is a directory"),
    }
    match walk(&mut source, &["a", "d.txt"]) {
        Ok(DirectoryOrFile::File(file)) => assert_eq!(file.lenght_file_data, 3),
        _ => panic!("d.txt is a file"),
    }
    assert!(matches!(
        walk(&mut source, &["a", "d.txt", "x"]),
        Err(GetMetadataError::TryGetChildFile(_))
    ));
    assert!(matches!(
        walk(&mut source, &["d.txt"]),
        Err(GetMetadataError::IVFCError(IVFCError::FileNotFound))
    ));
}

#[test]
fn the_cursor_stands_after_the_record_that_was_read() {
    let record: Vec<u8> = [
        vec![7, 0, 0, 0],
        vec![0x30, 0, 0, 0],
        vec![255; 4],
        vec![0x18, 0, 0, 0],
        vec![255; 4],
        vec![4, 0, 0, 0],
        vec![97, 0, 98, 0],
        vec![9, 9],
    ]
    .concat();
    let mut source = MemorySource::new(record);
    let dir = DirectoryMetadata::new(&mut source, false).unwrap();
    assert_eq!(dir.offset_parent, Some(7));
    assert_eq!(dir.offset_next_sibling, Some(0x30));
    assert_eq!(dir.offset_first_subdir, None);
    assert_eq!(dir.offset_first_file, Some(0x18));
    assert_eq!(dir.name.as_deref(), Some("ab"));
    assert_eq!(source.seek(SeekFrom::Current(0)).unwrap(), 28);

    let root: Vec<u8> =
        [vec![0; 4], vec![255; 12], vec![255; 4], vec![4, 0, 0, 0], vec![97, 0, 98, 0]].concat();
    let mut source = MemorySource::new(root);
    let dir = DirectoryMetadata::new(&mut source, true).unwrap();
    assert_eq!(dir.name, None);
    assert_eq!(dir.offset_next_sibling, None);
    assert_eq!(dir.offset_first_subdir, None);
    assert_eq!(dir.offset_first_file, None);
    assert_eq!(source.seek(SeekFrom::Current(0)).unwrap(), 20);

    let file: Vec<u8> = [
        vec![0; 4],
        vec![255; 4],
        vec![0x10, 0, 0, 0, 0, 0, 0, 0],
        vec![5, 0, 0, 0, 0, 0, 0, 0],
        vec![255; 4],
        vec![10, 0, 0, 0],
        vec![99, 0, 46, 0, 98, 0, 105, 0, 110, 0],
    ]
    .concat();
    let mut source = MemorySource::new(file);
    let found = FileMetadata::new(&mut source).unwrap();
    assert_eq!(found.offset_parent, 0);
    assert_eq!(found.offset_sibling, None);
    assert_eq!(found.offset_file_data, 0x10);
    assert_eq!(found.lenght_file_data, 5);
    assert_eq!(found.name, "c.bin");
    assert_eq!(source.seek(SeekFrom::Current(0)).unwrap(), 42);
}

#[test]
fn a_root_without_children_lists_nothing() {
    let mut image = romfs();
    put_u32(&mut image, 0x1028 + 8, NONE);
    put_u32(&mut image, 0x1028 + 12, NONE);
    let vfs = IVFCVFS::new(IVFCReader::new(MemorySource::new(image)).unwrap());
    for path in ["", "/"] {
        let mut entries = vfs.path(path.to_string()).read_dir().unwrap();
        assert!(entries.next().is_none());
    }
}

#[test]
fn the_root_does_not_open() {
    let vfs = vfs();
    for path in ["", "/", "//"] {
        match vfs.path(path.to_string()).open_with_options(&OpenOptions::new()) {
            Err(e) => assert_eq!(e.kind, IoErrorKind::InvalidData),
            Ok(_) => panic!("opened the root"),
        }
    }
}

#[test]
fn the_window_on_a_file_is_as_long_as_its_metadata_say() {
    let vfs = vfs();
    let path = vfs.path("/a/d.txt".to_string());
    let lenght = path.metadata().unwrap().len();
    let mut file = path.open_with_options(&OpenOptions::new()).unwrap();
    assert_eq!(file.seek(SeekFrom::End(0)).unwrap(), lenght);
    assert_eq!(file.seek(SeekFrom::Start(0)).unwrap(), 0);
    let mut buf = [0x55u8; 8];
    assert_eq!(file.read(&mut buf).unwrap(), 3);
    assert_eq!(buf, [1, 2, 3, 0x55, 0x55, 0x55, 0x55, 0x55]);
    assert_eq!(file.read(&mut buf).unwrap(), 0);
    assert_eq!(buf, [1, 2, 3, 0x55, 0x55, 0x55, 0x55, 0x55]);
}

#[test]
fn what_is_found_can_be_copied() {
    let reader = reader();
    let root = reader.first_dir_metadata.clone();
    let found = reader.get_child(&root, "c.bin").unwrap();
    match (found.clone(), found) {
        (DirectoryOrFile::File(copy), DirectoryOrFile::File(file)) => {
            assert_eq!(copy.name, file.name);
            assert_eq!(copy.offset_file_data, file.offset_file_data);
            assert_eq!(copy.lenght_file_data, file.lenght_file_data);
        }
        _ => panic!("c.bin is a file"),
    }
    let found = reader.get_child(&root, "a").unwrap();
    match found.clone() {
        DirectoryOrFile::Dir(copy) => assert_eq!(copy.name.as_deref(), Some("a")),
        DirectoryOrFile::File(_) => panic!("a is a directory"),
    }
}

#[test]
fn resolving_a_path_from_the_root_leaves_the_base() {
    let vfs = vfs();
    let base = vfs.path("/a".to_string());
    assert_eq!(base.resolve(&"/c.bin".to_string()).to_string(), "romfs:///c.bin");
    assert_eq!(base.resolve(&"d.txt".to_string()).to_string(), "romfs:///a/d.txt");
    assert!(base.resolve(&"/c.bin".to_string()).metadata().unwrap().is_file());
}

#[test]
fn what_was_resolved_decides_what_opening_gives() {
    let reader = Arc::new(reader());
    let path = IVFCVPATH::new(reader.clone());
    let root = reader.first_dir_metadata.clone();
    match path.open_resolved(Ok(DirectoryOrFile::Dir(root.clone()))) {
        Err(e) => assert_eq!(e.kind, IoErrorKind::InvalidData),
        Ok(_) => panic!("opened a directory"),
    }
    match path.open_resolved(Err(GetMetadataError::IVFCError(IVFCError::FileNotFound))) {
        Err(e) => {
            assert_eq!(e.kind, IoErrorKind::NotFound);
            assert!(matches!(
                e.cause,
                fs3ds::ivfc_vfs::VfsCause::Metadata(GetMetadataError::IVFCError(
                    IVFCError::FileNotFound
                ))
            ));
        }
        Ok(_) => panic!("opened what was not found"),
    }
    let file = match reader.get_child(&root, "c.bin").unwrap() {
        DirectoryOrFile::File(file) => file,
        DirectoryOrFile::Dir(_) => panic!("c.bin is a file"),
    };
    let mut opened = path.open_resolved(Ok(DirectoryOrFile::File(file))).unwrap();
    let mut buf = [0u8; 5];
    assert_eq!(opened.read(&mut buf).unwrap(), 5);
    assert_eq!(buf, PAYLOAD);
}

#[test]
fn what_was_resolved_decides_what_listing_gives() {
    let reader = Arc::new(reader());
    let path = IVFCVPATH::new(reader.clone()).resolve(&"a".to_string());
    let root = reader.first_dir_metadata.clone();
    let a = match reader.get_child(&root, "a").unwrap() {
        DirectoryOrFile::Dir(dir) => dir,
        DirectoryOrFile::File(_) => panic!("a is a directory"),
    };
    let mut entries = path.list_resolved(Ok(DirectoryOrFile::Dir(a))).unwrap();
    assert_eq!(entries.next().unwrap().to_string(), "romfs://a/d.txt");
    assert!(entries.next().is_none());
    let file = match reader.get_child(&root, "c.bin").unwrap() {
        DirectoryOrFile::File(file) => file,
        DirectoryOrFile::Dir(_) => panic!("c.bin is a file"),
    };
    match path.list_resolved(Ok(DirectoryOrFile::File(file))) {
        Err(e) => assert_eq!(e.kind, IoErrorKind::InvalidData),
        Ok(_) => panic!("listed a file"),
    }
    match path.list_resolved(Err(GetMetadataError::IVFCError(IVFCError::DirNotFound))) {
        Err(e) => assert_eq!(e.kind, IoErrorKind::NotFound),
        Ok(_) => panic!("listed what was not found"),
    }
}

#[test]
fn the_empty_path_has_no_name_and_an_extension_has_no_dot() {
    let vfs = vfs();
    let empty = vfs.path("".to_string());
    assert_eq!(empty.file_name(), None);
    assert_eq!(empty.extension(), None);
    let path = vfs.path("/a/b.tar.gz".to_string());
    assert_eq!(path.file_name().as_deref(), Some("b.tar.gz"));
    assert_eq!(path.extension().as_deref(), Some("gz"));
    assert_eq!(vfs.path("/a/b".to_string()).extension(), None);
}
