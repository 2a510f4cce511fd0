use star_kernel::ramfs::{init_ramfs, ramfs_mut, FileType, RamFs};

#[test]
fn kinds_have_their_tags() {
    assert_eq!(FileType::Text.to_string(), "TXT");
    assert_eq!(FileType::Binary.to_string(), "BIN");
    assert_eq!(FileType::Executable.to_string(), "EXE");
    assert_eq!(FileType::Directory.to_string(), "DIR");
    assert_eq!(FileType::Unknown.to_string(), "???");
}

#[test]
fn new_store_is_empty() {
    let fs = RamFs::new();
    assert!(fs.files.is_empty());
    assert_eq!(fs.clock, 0);
    assert!(fs.list_files().is_empty());
    assert!(fs.list_files_detailed().is_empty());
    assert!(fs.read_file("a").is_none());
    assert!(fs.get_file_info("a").is_none());
}

#[test]
fn created_files_keep_their_order_and_get_rising_stamps() {
    let mut fs = RamFs::new();
    fs.create_file("a.txt", b"one");
    fs.create_file("b", &[0, 1, 2, 3]);
    fs.create_file("c/", b"");
    assert_eq!(fs.list_files(), vec!["a.txt", "b", "c/"]);
    let detailed = fs.list_files_detailed();
    assert_eq!(detailed.len(), 3);
    assert_eq!(detailed[0].name, "a.txt");
    assert_eq!(detailed[0].data, b"one");
    assert_eq!(detailed[0].size, 3);
    assert_eq!(detailed[0].created_at, 1);
    assert!(detailed[0].file_type == FileType::Text);
    assert_eq!(detailed[1].size, 4);
    assert_eq!(detailed[1].created_at, 2);
    assert!(detailed[1].file_type == FileType::Binary);
    assert_eq!(detailed[2].size, 0);
    assert_eq!(detailed[2].created_at, 3);
    assert!(detailed[2].file_type == FileType::Directory);
    assert_eq!(fs.clock, 3);
}

#[test]
fn reading_finds_the_first_file_of_a_name() {
    let mut fs = RamFs::new();
    fs.create_file("x", b"first");
    fs.create_file("y", b"other");
    fs.create_file("x", b"second");
    assert_eq!(fs.read_file("x"), Some(&b"first"[..]));
    assert_eq!(fs.read_file("y"), Some(&b"other"[..]));
    assert_eq!(fs.read_file("z"), None);
    assert_eq!(fs.read_file(""), None);
    assert_eq!(fs.read_file("X"), None);
    let info = fs.get_file_info("x").unwrap();
    assert_eq!(info.created_at, 1);
    assert_eq!(info.data, b"first");
    assert!(fs.get_file_info("xx").is_none());
}

#[test]
fn writing_replaces_contents_size_and_kind_of_the_first_match() {
    let mut fs = RamFs::new();
    fs.create_file("notes", b"plain");
    fs.create_file("notes", b"later");
    assert!(fs.write_file("notes", &[0xff, 0x00]));
    assert_eq!(fs.files[0].data, vec![0xff, 0x00]);
    assert_eq!(fs.files[0].size, 2);
    assert!(fs.files[0].file_type == FileType::Binary);
    assert_eq!(fs.files[0].created_at, 1);
    assert_eq!(fs.files[0].name, "notes");
    assert_eq!(fs.files[1].data, b"later");
    assert!(fs.files[1].file_type == FileType::Text);
    assert_eq!(fs.clock, 2);
    assert!(!fs.write_file("absent", b"x"));
    assert_eq!(fs.files.len(), 2);
}

#[test]
fn kind_goes_by_the_name_first() {
    let binary = [0u8, 200, 7];
    assert!(RamFs::detect_file_type("a.txt", &binary) == FileType::Text);
    assert!(RamFs::detect_file_type("a.md", &binary) == FileType::Text);
    assert!(RamFs::detect_file_type("a.log", &binary) == FileType::Text);
    assert!(RamFs::detect_file_type("a.exe", b"text") == FileType::Executable);
    assert!(RamFs::detect_file_type("a.bin", b"text") == FileType::Executable);
    assert!(RamFs::detect_file_type("a.elf", b"text") == FileType::Executable);
    assert!(RamFs::detect_file_type("dir/", &binary) == FileType::Directory);
    assert!(RamFs::detect_file_type("dir\\", b"text") == FileType::Directory);
    assert!(RamFs::detect_file_type(".txt", &binary) == FileType::Text);
    assert!(RamFs::detect_file_type("txt", &binary) == FileType::Binary);
    assert!(RamFs::detect_file_type("a.txt.exe", b"") == FileType::Executable);
    assert!(RamFs::detect_file_type("a.TXT", &binary) == FileType::Binary);
    assert!(RamFs::detect_file_type("\u{e9}.md", &binary) == FileType::Text);
}

#[test]
fn kind_goes_by_the_contents_otherwise() {
    assert!(RamFs::detect_file_type("f", b"") == FileType::Text);
    assert!(RamFs::detect_file_type("", b"") == FileType::Text);
    assert!(RamFs::detect_file_type("f", b"Hello\r\n\tworld ~") == FileType::Text);
    assert!(RamFs::detect_file_type("f", &[32, 126, 9, 10, 13]) == FileType::Text);
    assert!(RamFs::detect_file_type("f", &[31]) == FileType::Binary);
    assert!(RamFs::detect_file_type("f", &[127]) == FileType::Binary);
    assert!(RamFs::detect_file_type("f", &[0]) == FileType::Binary);
    assert!(RamFs::detect_file_type("f", &[11]) == FileType::Binary);
    assert!(RamFs::detect_file_type("f", &[b'a', b'b', 0x80]) == FileType::Binary);
}

#[test]
fn stamps_come_from_the_clock() {
    let mut fs = RamFs::new();
    assert_eq!(fs.get_timestamp(), 1);
    assert_eq!(fs.get_timestamp(), 2);
    fs.create_file("f", b"");
    assert_eq!(fs.files[0].created_at, 3);
}

#[test]
fn slot_holds_the_store() {
    let mut slot = None;
    assert!(init_ramfs(&mut slot));
    ramfs_mut(&mut slot).create_file("f", b"data");
    assert_eq!(slot.as_ref().unwrap().files.len(), 1);
    assert_eq!(ramfs_mut(&mut slot).read_file("f"), Some(&b"data"[..]));
    assert!(init_ramfs(&mut slot));
    assert!(slot.unwrap().files.is_empty());
}
