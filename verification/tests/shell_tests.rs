use star_kernel::shell::{
    handle_command, read_line, trim, Command, BACKSPACE, DELETE, INTERRUPT, LINE_CAPACITY,
};

fn typed(line: &mut Vec<u8>, capacity: usize, keys: &[u8]) -> (Vec<u8>, bool) {
    let mut echo = Vec::new();
    let mut done = false;
    for &key in keys {
        let step = read_line(line, capacity, key);
        echo.extend_from_slice(&step.echo);
        done = step.done;
        if done {
            break;
        }
    }
    (echo, done)
}

#[test]
fn keys_have_their_values() {
    assert_eq!(LINE_CAPACITY, 64);
    assert_eq!(BACKSPACE, 8);
    assert_eq!(DELETE, 127);
    assert_eq!(INTERRUPT, 3);
}

#[test]
fn printable_characters_are_added_and_echoed() {
    let mut line = Vec::new();
    let (echo, done) = typed(&mut line, 64, b"ls -l");
    assert_eq!(line, b"ls -l");
    assert_eq!(echo, b"ls -l");
    assert!(!done);
    let step = read_line(&mut line, 64, b'\r');
    assert_eq!(step.echo, b"\n");
    assert!(step.done);
    assert_eq!(line, b"ls -l");
    let step = read_line(&mut line, 64, b'\n');
    assert_eq!(step.echo, b"\n");
    assert!(step.done);
}

#[test]
fn backspace_and_delete_erase_one_character() {
    let mut line = b"abc".to_vec();
    let step = read_line(&mut line, 64, 0x08);
    assert_eq!(line, b"ab");
    assert_eq!(step.echo, vec![8, 32, 8]);
    assert!(!step.done);
    let step = read_line(&mut line, 64, 0x7f);
    assert_eq!(line, b"a");
    assert_eq!(step.echo, vec![8, 32, 8]);
    let mut empty = Vec::new();
    let step = read_line(&mut empty, 64, 0x08);
    assert!(empty.is_empty());
    assert!(step.echo.is_empty());
    assert!(!step.done);
}

#[test]
fn interrupt_erases_the_whole_line() {
    let mut line = b"abc".to_vec();
    let step = read_line(&mut line, 64, 0x03);
    assert!(line.is_empty());
    assert_eq!(step.echo, vec![8, 32, 8, 8, 32, 8, 8, 32, 8]);
    assert!(!step.done);
    let step = read_line(&mut line, 64, 0x03);
    assert!(step.echo.is_empty());
}

#[test]
fn other_characters_are_dropped() {
    let mut line = b"a".to_vec();
    for key in [0u8, 1, 7, 9, 11, 27, 31, 128, 200, 255] {
        let step = read_line(&mut line, 64, key);
        assert_eq!(line, b"a");
        assert!(step.echo.is_empty());
        assert!(!step.done);
    }
}

#[test]
fn a_full_line_is_finished() {
    let mut line = Vec::new();
    let (echo, done) = typed(&mut line, 3, b"abcdef");
    assert_eq!(line, b"abc");
    assert_eq!(echo, b"abc");
    assert!(done);
    let step = read_line(&mut line, 3, b'x');
    assert_eq!(line, b"abc");
    assert!(step.echo.is_empty());
    assert!(step.done);
}

#[test]
fn trimming_takes_white_space_from_both_ends() {
    assert_eq!(trim(b"  ab c \t", 0, 8), (2, 6));
    assert_eq!(trim(b"abc", 0, 3), (0, 3));
    assert_eq!(trim(b"    ", 0, 4), (4, 4));
    assert_eq!(trim(b"    ", 1, 3), (3, 3));
    assert_eq!(trim(b"", 0, 0), (0, 0));
    assert_eq!(trim(b"xx a xx", 2, 5), (3, 4));
    assert_eq!(trim(b"\n\x0b\x0c\ra\r", 0, 6), (4, 5));
}

#[test]
fn commands_are_told_apart() {
    assert_eq!(handle_command(b"ls"), Command::List);
    assert_eq!(handle_command(b"exit"), Command::Exit);
    assert_eq!(handle_command(b""), Command::Empty);
    assert_eq!(handle_command(b"cat hello.txt"), Command::Show { from: 4, to: 13 });
    assert_eq!(handle_command(b"cat   a.txt  "), Command::Show { from: 6, to: 11 });
    assert_eq!(handle_command(b"cat "), Command::Show { from: 4, to: 4 });
    assert_eq!(handle_command(b"echo  hi there "), Command::Echo { from: 5, to: 15 });
    assert_eq!(handle_command(b"echo "), Command::Echo { from: 5, to: 5 });
    assert_eq!(handle_command(b"info readme.md"), Command::Info { from: 5, to: 14 });
    assert_eq!(handle_command(b"info  x "), Command::Info { from: 6, to: 7 });
}

#[test]
fn anything_else_is_unknown() {
    for line in [&b"ls "[..], b"LS", b"cat", b"echo", b"info", b"exit now", b" ls", b"help", b" "]
    {
        assert_eq!(handle_command(line), Command::Unknown);
    }
}
