//! The interactive shell's own logic: editing a line as characters arrive,
//! and telling the commands apart. Reading the console and showing the
//! answers is left to the caller.
use vstd::prelude::*;
use vstd::string::StringSliceAdditionalSpecFns;

verus! {

/// Number of bytes of the shell's line buffer.
pub const LINE_CAPACITY: usize = 64;

/// The backspace character.
pub const BACKSPACE: u8 = 0x08;

/// The delete character, which erases like a backspace.
pub const DELETE: u8 = 0x7f;

/// The interrupt character, which erases the whole line.
pub const INTERRUPT: u8 = 0x03;

/// Whether a byte is printable ASCII.
pub open spec fn is_printable(b: u8) -> bool {
    32 <= b && b <= 126
}

/// Whether a byte is ASCII white space.
pub open spec fn is_space(b: u8) -> bool {
    b == 32 || (9 <= b && b <= 13)
}

/// What goes to the console to erase `count` characters: for each, a
/// backspace, a blank and a backspace.
pub open spec fn erasure(count: nat) -> Seq<u8>
    decreases count,
{
    if count == 0 {
        Seq::empty()
    } else {
        erasure((count - 1) as nat) + seq![BACKSPACE, 32u8, BACKSPACE]
    }
}

/// What one character does to the line that is being edited.
pub struct LineStep {
    /// What goes to the console in answer.
    pub echo: Vec<u8>,
    /// Whether the line is finished: its end was typed, or it is full.
    pub done: bool,
}

/// The line after the character `ch` has arrived, when it may hold up to
/// `capacity` characters. A printable character is added if there is room, a
/// backspace or a delete takes the last character away, an interrupt clears
/// the line, and anything else leaves it.
pub open spec fn line_after(line: Seq<u8>, capacity: usize, ch: u8) -> Seq<u8> {
    if ch == 13 || ch == 10 {
        line
    } else if ch == BACKSPACE || ch == DELETE {
        if line.len() > 0 {
            line.drop_last()
        } else {
            line
        }
    } else if ch == INTERRUPT {
        Seq::empty()
    } else if is_printable(ch) && line.len() < capacity {
        line.push(ch)
    } else {
        line
    }
}

/// What goes to the console when the character `ch` arrives: a line feed
/// for a line end, an erasure for what is taken away, the character itself
/// if it is added, and nothing otherwise.
pub open spec fn echo_of(line: Seq<u8>, capacity: usize, ch: u8) -> Seq<u8> {
    if ch == 13 || ch == 10 {
        seq![10u8]
    } else if ch == BACKSPACE || ch == DELETE {
        if line.len() > 0 {
            erasure(1)
        } else {
            Seq::empty()
        }
    } else if ch == INTERRUPT {
        erasure(line.len())
    } else if is_printable(ch) && line.len() < capacity {
        seq![ch]
    } else {
        Seq::empty()
    }
}

/// Takes one character into the line that is being edited.
pub fn read_line(line: &mut Vec<u8>, capacity: usize, ch: u8) -> (step: LineStep)
    ensures
        final(line)@ == line_after(old(line)@, capacity, ch),
        step.echo@ == echo_of(old(line)@, capacity, ch),
        step.done <==> ch == 13 || ch == 10 || final(line)@.len() >= capacity,
{
    let mut echo: Vec<u8> = Vec::new();
    if ch == 13 || ch == 10 {
        echo.push(10);
        assert(echo@ =~= seq![10u8]);
        return LineStep { echo, done: true };
    }
    if ch == 0x08 || ch == 0x7f {
        if line.len() > 0 {
            line.pop();
            echo.push(0x08);
            echo.push(32);
            echo.push(0x08);
            proof {
                reveal_with_fuel(erasure, 2);
                assert(echo@ =~= erasure(1));
            }
        }
    } else if ch == 0x03 {
        while line.len() > 0
            invariant
                line@.len() <= old(line)@.len(),
                echo@ == erasure((old(line)@.len() - line@.len()) as nat),
            decreases line@.len(),
        {
            line.pop();
            echo.push(0x08);
            echo.push(32);
            echo.push(0x08);
            proof {
                let erased = (old(line)@.len() - line@.len()) as nat;
                assert(echo@ =~= erasure((erased - 1) as nat) + seq![BACKSPACE, 32u8, BACKSPACE]);
            }
        }
        assert(line@ =~= Seq::<u8>::empty());
    } else if ch >= 32 && ch <= 126 && line.len() < capacity {
        line.push(ch);
        echo.push(ch);
        assert(echo@ =~= seq![ch]);
    }
    let done: bool = line.len() >= capacity;
    LineStep { echo, done }
}

/// A command of the shell. Where a command has an argument, `from` and `to`
/// bound it within the line.
#[derive(Clone, Copy, PartialEq, Eq, Structural, Debug)]
pub enum Command {
    /// List the files.
    List,
    /// Show the contents of the file named by the argument.
    Show { from: usize, to: usize },
    /// Repeat the argument.
    Echo { from: usize, to: usize },
    /// Show what is known of the file named by the argument.
    Info { from: usize, to: usize },
    /// Leave the shell.
    Exit,
    /// Nothing was typed.
    Empty,
    /// Anything else.
    Unknown,
}

/// Whether `from` and `to` bound what is left of `bytes` between `low` and
/// `high` once the white space at both ends is taken away. If nothing is
/// left, both are `high`.
pub open spec fn is_trimmed(bytes: Seq<u8>, low: int, high: int, from: int, to: int) -> bool {
    &&& low <= from <= to <= high
    &&& forall|k: int| low <= k < from ==> is_space(#[trigger] bytes[k])
    &&& forall|k: int| to <= k < high ==> is_space(#[trigger] bytes[k])
    &&& from < to ==> !is_space(bytes[from]) && !is_space(bytes[to - 1])
    &&& from == to ==> from == high
}

/// Whether `bytes` starts with `prefix`.
pub open spec fn starts_with(bytes: Seq<u8>, prefix: Seq<u8>) -> bool {
    prefix.len() <= bytes.len() && bytes.subrange(0, prefix.len() as int) == prefix
}

/// The command that a line stands for. The first word decides; the
/// arguments of `cat` and `info` are taken without the white space around
/// them, the argument of `echo` as it stands.
pub open spec fn is_command_of(input: Seq<u8>, command: Command) -> bool {
    if input == "ls".spec_bytes() {
        command == Command::List
    } else if starts_with(input, "cat ".spec_bytes()) {
        command matches Command::Show { from, to } && is_trimmed(
            input,
            "cat ".spec_bytes().len() as int,
            input.len() as int,
            from as int,
            to as int,
        )
    } else if starts_with(input, "echo ".spec_bytes()) {
        command == (Command::Echo { from: "echo ".spec_bytes().len() as usize, to: input.len() as usize })
    } else if starts_with(input, "info ".spec_bytes()) {
        command matches Command::Info { from, to } && is_trimmed(
            input,
            "info ".spec_bytes().len() as int,
            input.len() as int,
            from as int,
            to as int,
        )
    } else if input == "exit".spec_bytes() {
        command == Command::Exit
    } else if input.len() == 0 {
        command == Command::Empty
    } else {
        command == Command::Unknown
    }
}

/// Finds what is left of `bytes` between `low` and `high` once the white
/// space at both ends is taken away.
pub fn trim(bytes: &[u8], low: usize, high: usize) -> (r: (usize, usize))
    requires
        low <= high <= bytes@.len(),
    ensures
        is_trimmed(bytes@, low as int, high as int, r.0 as int, r.1 as int),
{
    let mut from: usize = low;
    while from < high && is_space_byte(bytes[from])
        invariant
            low <= from <= high <= bytes@.len(),
            forall|k: int| low <= k < from ==> is_space(#[trigger] bytes@[k]),
        decreases high - from,
    {
        from = from + 1;
    }
    let mut to: usize = high;
    while to > from && is_space_byte(bytes[to - 1])
        invariant
            from <= to <= high <= bytes@.len(),
            forall|k: int| to <= k < high ==> is_space(#[trigger] bytes@[k]),
        decreases to,
    {
        to = to - 1;
    }
    (from, to)
}

fn is_space_byte(b: u8) -> (r: bool)
    ensures
        r == is_space(b),
{
    b == 32 || (b >= 9 && b <= 13)
}

fn bytes_start_with(bytes: &[u8], prefix: &[u8]) -> (r: bool)
    ensures
        r == starts_with(bytes@, prefix@),
{
    if prefix.len() > bytes.len() {
        return false;
    }
    let mut i: usize = 0;
    while i < prefix.len()
        invariant
            i <= prefix@.len() <= bytes@.len(),
            forall|k: int| 0 <= k < i ==> bytes@[k] == prefix@[k],
        decreases prefix@.len() - i,
    {
        if bytes[i] != prefix[i] {
            assert(bytes@.subrange(0, prefix@.len() as int)[i as int] != prefix@[i as int]);
            return false;
        }
        i = i + 1;
    }
    assert(bytes@.subrange(0, prefix@.len() as int) =~= prefix@);
    true
}

fn bytes_equal(bytes: &[u8], other: &[u8]) -> (r: bool)
    ensures
        r == (bytes@ == other@),
{
    if bytes.len() != other.len() {
        return false;
    }
    let r = bytes_start_with(bytes, other);
    assert(bytes@.subrange(0, bytes@.len() as int) =~= bytes@);
    r
}

/// Tells which command a line stands for.
pub fn handle_command(input: &[u8]) -> (command: Command)
    ensures
        is_command_of(input@, command),
{
    if bytes_equal(input, "ls".as_bytes()) {
        Command::List
    } else if bytes_start_with(input, "cat ".as_bytes()) {
        let (from, to) = trim(input, "cat ".as_bytes().len(), input.len());
        Command::Show { from, to }
    } else if bytes_start_with(input, "echo ".as_bytes()) {
        Command::Echo { from: "echo ".as_bytes().len(), to: input.len() }
    } else if bytes_start_with(input, "info ".as_bytes()) {
        let (from, to) = trim(input, "info ".as_bytes().len(), input.len());
        Command::Info { from, to }
    } else if bytes_equal(input, "exit".as_bytes()) {
        Command::Exit
    } else if input.len() == 0 {
        Command::Empty
    } else {
        Command::Unknown
    }
}

} // verus!
