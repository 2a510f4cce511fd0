use star_kernel::fileio::{
    field_name, sys_ramfs_create, sys_ramfs_list, sys_ramfs_read, sys_ramfs_write, sys_read,
    sys_write, ReadStep, CARRIAGE_RETURN, LINE_FEED, NAME_FIELD_LEN,
};
use star_kernel::ramfs::{FileType, RamFs};

fn field(name: &[u8]) -> [u8; 32] {
    let mut bytes = [0u8; 32];
    bytes[..name.len()].copy_from_slice(name);
    bytes
}

#[test]
fn line_constants_have_their_values() {
    assert_eq!(LINE_FEED, b'\n');
    assert_eq!(CARRIAGE_RETURN, b'\r');
    assert_eq!(NAME_FIELD_LEN, 32);
}

#[test]
fn read_goes_on_until_a_line_end_or_the_length() {
    assert_eq!(sys_read(0, 5, b""), ReadStep::More);
    assert_eq!(sys_read(0, 5, b"a"), ReadStep::More);
    assert_eq!(sys_read(0, 5, b"abcd"), ReadStep::More);
    assert_eq!(sys_read(0, 5, b"abcde"), ReadStep::Done(5));
    assert_eq!(sys_read(0, 5, b"ab\n"), ReadStep::Done(3));
    assert_eq!(sys_read(0, 5, b"ab\r"), ReadStep::Done(3));
    assert_eq!(sys_read(0, 5, b"\n"), ReadStep::Done(1));
    assert_eq!(sys_read(0, 5, b"a\nb"), ReadStep::More);
    assert_eq!(sys_read(0, 0, b""), ReadStep::Done(0));
    assert_eq!(sys_read(0, 2, b"abc"), ReadStep::Done(2));
}

#[test]
fn read_from_another_descriptor_delivers_nothing() {
    assert_eq!(sys_read(1, 5, b""), ReadStep::Done(0));
    assert_eq!(sys_read(2, 5, b"abc"), ReadStep::Done(0));
    assert_eq!(sys_read(u64::MAX, 0, b""), ReadStep::Done(0));
}

#[test]
fn write_shows_valid_text_on_the_standard_output() {
    assert_eq!(sys_write(1, b"hello"), (5, Some("hello")));
    assert_eq!(sys_write(1, b""), (0, Some("")));
    assert_eq!(sys_write(1, "gr\u{fc}n".as_bytes()), (5, Some("gr\u{fc}n")));
    assert_eq!(sys_write(1, &[b'a', 0xff]), (0, None));
    assert_eq!(sys_write(1, &[0xc3]), (0, None));
    assert_eq!(sys_write(0, b"hello"), (0, None));
    assert_eq!(sys_write(2, b"hello"), (0, None));
}

#[test]
fn name_field_loses_its_trailing_zeros() {
    assert_eq!(field_name(&field(b"hello.txt")), "hello.txt");
    assert_eq!(field_name(&field(b"")), "");
    assert_eq!(field_name(&field(b"a\0b")), "a\0b");
    assert_eq!(field_name(&[b'x'; 32]), "x".repeat(32));
    assert_eq!(field_name(b"short"), "short");
    assert_eq!(field_name(b""), "");
    assert_eq!(field_name(&field("\u{e9}t\u{e9}".as_bytes())), "\u{e9}t\u{e9}");
}

#[test]
fn name_field_that_is_not_text_is_the_empty_name() {
    assert_eq!(field_name(&field(&[b'a', 0xff, b'b'])), "");
    assert_eq!(field_name(&field(&[0xc3])), "");
    let mut cut = [b'a'; 32];
    cut[31] = 0xc3;
    assert_eq!(field_name(&cut), "");
}

#[test]
fn create_call_adds_a_file() {
    let mut fs = RamFs::new();
    assert_eq!(sys_ramfs_create(&mut fs, &field(b"log.txt"), b"entry"), 0);
    assert_eq!(sys_ramfs_create(&mut fs, &field(&[0xff]), &[1, 2]), 0);
    assert_eq!(fs.files.len(), 2);
    assert_eq!(fs.files[0].name, "log.txt");
    assert_eq!(fs.files[0].data, b"entry");
    assert_eq!(fs.files[0].size, 5);
    assert_eq!(fs.files[0].created_at, 1);
    assert!(fs.files[0].file_type == FileType::Text);
    assert_eq!(fs.files[1].name, "");
    assert!(fs.files[1].file_type == FileType::Binary);
    assert_eq!(fs.files[1].created_at, 2);
}

#[test]
fn read_call_delivers_as_much_as_the_buffer_takes() {
    let mut fs = RamFs::new();
    fs.create_file("f", b"0123456789");
    fs.create_file("f", b"zz");
    assert_eq!(sys_ramfs_read(&fs, &field(b"f"), 4), b"0123");
    assert_eq!(sys_ramfs_read(&fs, &field(b"f"), 10), b"0123456789");
    assert_eq!(sys_ramfs_read(&fs, &field(b"f"), 100), b"0123456789");
    assert_eq!(sys_ramfs_read(&fs, &field(b"f"), 0), b"");
    assert_eq!(sys_ramfs_read(&fs, &field(b"g"), 10), b"");
    assert_eq!(sys_ramfs_read(&fs, &field(&[0x80]), 10), b"");
}

#[test]
fn write_call_replaces_or_fails() {
    let mut fs = RamFs::new();
    fs.create_file("f", b"old");
    assert_eq!(sys_ramfs_write(&mut fs, &field(b"f"), &[0, 1]), 0);
    assert_eq!(fs.files[0].data, vec![0, 1]);
    assert_eq!(fs.files[0].size, 2);
    assert!(fs.files[0].file_type == FileType::Binary);
    assert_eq!(sys_ramfs_write(&mut fs, &field(b"g"), b"x"), u64::MAX);
    assert_eq!(fs.files.len(), 1);
    assert_eq!(fs.files[0].data, vec![0, 1]);
}

#[test]
fn listing_puts_a_line_feed_after_each_name() {
    let mut fs = RamFs::new();
    assert_eq!(sys_ramfs_list(&fs, 100), b"");
    fs.create_file("ab", b"");
    fs.create_file("cde", b"");
    fs.create_file("f", b"");
    assert_eq!(sys_ramfs_list(&fs, 100), b"ab\ncde\nf\n");
    assert_eq!(sys_ramfs_list(&fs, 9), b"ab\ncde\nf\n");
    assert_eq!(sys_ramfs_list(&fs, 8), b"ab\ncde\nf");
    assert_eq!(sys_ramfs_list(&fs, 7), b"ab\ncde\n");
    assert_eq!(sys_ramfs_list(&fs, 6), b"ab\ncde");
    assert_eq!(sys_ramfs_list(&fs, 5), b"ab\ncd");
    assert_eq!(sys_ramfs_list(&fs, 3), b"ab\n");
    assert_eq!(sys_ramfs_list(&fs, 2), b"ab");
    assert_eq!(sys_ramfs_list(&fs, 1), b"a");
    assert_eq!(sys_ramfs_list(&fs, 0), b"");
}

#[test]
fn listing_stops_at_an_empty_name() {
    let mut fs = RamFs::new();
    fs.create_file("a", b"");
    fs.create_file("", b"");
    fs.create_file("b", b"");
    assert_eq!(sys_ramfs_list(&fs, 100), b"a\n");
}
