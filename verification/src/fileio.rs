//! The system calls that move bytes between a task and the console or the
//! file store, as functions of the bytes themselves. Whoever carries a call
//! out fetches the bytes from the task's memory, calls the function here, and
//! stores what it yields.
use vstd::prelude::*;
use vstd::slice::slice_subrange;
use vstd::string::StringSliceAdditionalSpecFns;
use vstd::utf8::{
    encode_utf8,
    is_char_boundary_iff_not_is_continuation_byte,
    is_char_boundary_start_end_of_seq,
    valid_utf8,
    valid_utf8_split,
};
use crate::ramfs::{RamFile, RamFs, file_type_of, has_file, is_first_named};

verus! {

/// The line feed.
pub const LINE_FEED: u8 = 10;

/// The carriage return.
pub const CARRIAGE_RETURN: u8 = 13;

/// Number of bytes of a file name as a task hands it over.
pub const NAME_FIELD_LEN: usize = 32;

/// Whether a read from the console is complete.
#[derive(Clone, Copy, PartialEq, Eq, Structural, Debug)]
pub enum ReadStep {
    /// The console has to be asked for one more character.
    More,
    /// The read is complete and delivers this many bytes.
    Done(usize),
}

/// Whether a byte ends a line.
pub open spec fn is_line_end(b: u8) -> bool {
    b == LINE_FEED || b == CARRIAGE_RETURN
}

/// How far a read of up to `len` bytes from descriptor `fd` has come once
/// the bytes `received` have arrived. Only the standard input can be read;
/// the read is complete when `len` bytes have arrived or the last of them
/// ends a line.
pub open spec fn read_progress(fd: u64, len: usize, received: Seq<u8>) -> ReadStep {
    if fd != 0 {
        ReadStep::Done(0)
    } else if received.len() >= len {
        ReadStep::Done(len)
    } else if received.len() > 0 && is_line_end(received.last()) {
        ReadStep::Done(received.len() as usize)
    } else {
        ReadStep::More
    }
}

/// Decides how a read from the console goes on, given the characters that
/// have arrived so far.
pub fn sys_read(fd: u64, len: usize, received: &[u8]) -> (step: ReadStep)
    ensures
        step == read_progress(fd, len, received@),
{
    if fd != 0 {
        return ReadStep::Done(0);
    }
    let count: usize = received.len();
    if count >= len {
        return ReadStep::Done(len);
    }
    if count > 0 {
        let ch: u8 = received[count - 1];
        if ch == 10 || ch == 13 {
            return ReadStep::Done(count);
        }
    }
    ReadStep::More
}

/// `core::str::from_utf8`: the string slice that the bytes make up, if they
/// are valid UTF-8, and nothing if they are not. The contract rests on the
/// documentation of that function: it checks that the bytes are valid UTF-8
/// and then hands the same bytes back as a string slice.
#[verifier::external_body]
fn utf8_text(bytes: &[u8]) -> (text: Option<&str>)
    ensures
        text is Some <==> valid_utf8(bytes@),
        text matches Some(s) ==> s.spec_bytes() == bytes@,
{
    core::str::from_utf8(bytes).ok()
}

/// What a write to descriptor `fd` returns: the number of bytes if they go
/// to the standard output and are valid UTF-8, zero otherwise.
pub open spec fn write_result(fd: u64, data: Seq<u8>) -> usize {
    if fd == 1 && valid_utf8(data) {
        data.len() as usize
    } else {
        0
    }
}

/// Decides a write of `data` to descriptor `fd`. Returns the call's value
/// and, if something is to be shown on the console, the text.
pub fn sys_write(fd: u64, data: &[u8]) -> (r: (usize, Option<&str>))
    ensures
        r.0 == write_result(fd, data@),
        r.1 is Some <==> fd == 1 && valid_utf8(data@),
        r.1 matches Some(text) ==> text.spec_bytes() == data@,
{
    if fd == 1 {
        match utf8_text(data) {
            Some(text) => (data.len(), Some(text)),
            None => (0, None),
        }
    } else {
        (0, None)
    }
}

/// The bytes without the zero bytes at their end.
pub open spec fn without_trailing_zeros(bytes: Seq<u8>) -> Seq<u8>
    decreases bytes.len(),
{
    if bytes.len() > 0 && bytes.last() == 0 {
        without_trailing_zeros(bytes.drop_last())
    } else {
        bytes
    }
}

/// The UTF-8 bytes of the file name that a name field stands for: the field
/// without the zero bytes at its end if the field is valid UTF-8, and the
/// empty name if it is not.
pub open spec fn name_of_field(field: Seq<u8>) -> Seq<u8> {
    if valid_utf8(field) {
        without_trailing_zeros(field)
    } else {
        Seq::empty()
    }
}

proof fn lemma_without_trailing_zeros(bytes: Seq<u8>, end: int)
    requires
        0 <= end <= bytes.len(),
        forall|k: int| end <= k < bytes.len() ==> bytes[k] == 0,
        end > 0 ==> bytes[end - 1] != 0,
    ensures
        without_trailing_zeros(bytes) == bytes.subrange(0, end),
    decreases bytes.len() - end,
{
    if end < bytes.len() {
        assert(bytes.drop_last().subrange(0, end) =~= bytes.subrange(0, end));
        lemma_without_trailing_zeros(bytes.drop_last(), end);
    } else {
        assert(bytes.subrange(0, end) =~= bytes);
    }
}

proof fn lemma_prefix_before_zero_is_valid(bytes: Seq<u8>, end: int)
    requires
        valid_utf8(bytes),
        0 <= end <= bytes.len(),
        end < bytes.len() ==> bytes[end] == 0,
    ensures
        valid_utf8(bytes.subrange(0, end)),
{
    if end < bytes.len() {
        is_char_boundary_iff_not_is_continuation_byte(bytes, end);
    } else {
        is_char_boundary_start_end_of_seq(bytes);
    }
    valid_utf8_split(bytes, end);
}

/// Decodes a name field into a file name.
pub fn field_name(field: &[u8]) -> (name: &str)
    ensures
        name.spec_bytes() == name_of_field(field@),
{
    let mut end: usize = field.len();
    while end > 0 && field[end - 1] == 0
        invariant
            end <= field.len(),
            forall|k: int| end <= k < field@.len() ==> field@[k] == 0,
        decreases end,
    {
        end = end - 1;
    }
    proof {
        lemma_without_trailing_zeros(field@, end as int);
        reveal_strlit("");
        assert(encode_utf8(""@) =~= Seq::<u8>::empty());
    }
    match utf8_text(field) {
        Some(_) => {
            proof {
                lemma_prefix_before_zero_is_valid(field@, end as int);
            }
            match utf8_text(slice_subrange(field, 0, end)) {
                Some(name) => name,
                None => "",
            }
        },
        None => "",
    }
}

/// Creates a file from a name field and the contents. Returns zero.
pub fn sys_ramfs_create(fs: &mut RamFs, name_field: &[u8], data: &[u8]) -> (r: u64)
    requires
        old(fs).clock < u64::MAX,
    ensures
        r == 0,
        final(fs).clock == old(fs).clock + 1,
        final(fs).files@ == old(fs).files@.push(final(fs).files@.last()),
        final(fs).files@.len() == old(fs).files@.len() + 1,
        encode_utf8(final(fs).files@.last().name@) == name_of_field(name_field@),
        final(fs).files@.last().data@ == data@,
        final(fs).files@.last().size == data@.len(),
        final(fs).files@.last().created_at == final(fs).clock,
        final(fs).files@.last().file_type == file_type_of(name_of_field(name_field@), data@),
{
    let name = field_name(name_field);
    fs.create_file(name, data);
    0
}

/// The bytes that a read of the file named by a name field delivers into a
/// buffer of `buf_len` bytes: the start of the first such file's contents, as
/// far as the buffer takes it; nothing if there is no such file. The call's
/// value is the number of these bytes.
pub fn sys_ramfs_read<'a>(fs: &'a RamFs, name_field: &[u8], buf_len: usize) -> (out: &'a [u8])
    ensures
        out@.len() <= buf_len,
        !has_named(fs.files@, name_of_field(name_field@)) ==> out@.len() == 0,
        has_named(fs.files@, name_of_field(name_field@)) ==> exists|i: int|
            {
                &&& is_first_with_name(fs.files@, name_of_field(name_field@), i)
                &&& out@.len() == (if buf_len <= fs.files@[i].data@.len() {
                    buf_len as int
                } else {
                    fs.files@[i].data@.len() as int
                })
                &&& out@ == fs.files@[i].data@.subrange(0, out@.len() as int)
            },
{
    let name = field_name(name_field);
    proof {
        lemma_names_by_bytes(fs.files@, name@);
    }
    match fs.read_file(name) {
        Some(data) => {
            let copy_len: usize = if buf_len <= data.len() {
                buf_len
            } else {
                data.len()
            };
            slice_subrange(data, 0, copy_len)
        },
        None => {
            let nothing: &[u8] = &[];
            nothing
        },
    }
}

/// Replaces the contents of the file named by a name field. Returns zero,
/// or the failure value when there is no such file.
pub fn sys_ramfs_write(fs: &mut RamFs, name_field: &[u8], data: &[u8]) -> (r: u64)
    ensures
        r == (if has_named(old(fs).files@, name_of_field(name_field@)) {
            0
        } else {
            0xffff_ffff_ffff_ffffu64
        }),
        r != 0 ==> *final(fs) == *old(fs),
        final(fs).clock == old(fs).clock,
        r == 0 ==> exists|i: int|
            {
                &&& is_first_with_name(old(fs).files@, name_of_field(name_field@), i)
                &&& final(fs).files@ == old(fs).files@.update(i, final(fs).files@[i])
                &&& final(fs).files@[i].name == old(fs).files@[i].name
                &&& final(fs).files@[i].created_at == old(fs).files@[i].created_at
                &&& final(fs).files@[i].data@ == data@
                &&& final(fs).files@[i].size == data@.len()
                &&& final(fs).files@[i].file_type == file_type_of(
                    name_of_field(name_field@),
                    data@,
                )
            },
{
    let name = field_name(name_field);
    proof {
        lemma_names_by_bytes(fs.files@, name@);
    }
    if fs.write_file(name, data) {
        0
    } else {
        0xffff_ffff_ffff_ffff
    }
}

/// Whether some file has the name whose UTF-8 bytes are `name`.
pub open spec fn has_named(files: Seq<RamFile>, name: Seq<u8>) -> bool {
    exists|i: int| 0 <= i < files.len() && encode_utf8(files[i].name@) == name
}

/// Whether `index` is the first file with the name whose UTF-8 bytes are
/// `name`.
pub open spec fn is_first_with_name(files: Seq<RamFile>, name: Seq<u8>, index: int) -> bool {
    &&& 0 <= index < files.len()
    &&& encode_utf8(files[index].name@) == name
    &&& forall|i: int| 0 <= i < index ==> encode_utf8(files[i].name@) != name
}

/// Names are the same exactly when their UTF-8 bytes are.
proof fn lemma_names_by_bytes(files: Seq<RamFile>, name: Seq<char>)
    ensures
        has_file(files, name) <==> has_named(files, encode_utf8(name)),
        forall|i: int|
            is_first_named(files, name, i) <==> is_first_with_name(files, encode_utf8(name), i),
{
    assert forall|a: Seq<char>, b: Seq<char>| encode_utf8(a) == encode_utf8(b) implies a == b by {
        vstd::utf8::encode_utf8_decode_utf8(a);
        vstd::utf8::encode_utf8_decode_utf8(b);
    }
    if has_file(files, name) {
        let i = choose|i: int| 0 <= i < files.len() && files[i].name@ == name;
        assert(encode_utf8(files[i].name@) == encode_utf8(name));
    }
    if has_named(files, encode_utf8(name)) {
        let i = choose|i: int|
            0 <= i < files.len() && encode_utf8(files[i].name@) == encode_utf8(name);
        assert(files[i].name@ == name);
    }
    assert forall|i: int|
        is_first_named(files, name, i) <==> is_first_with_name(files, encode_utf8(name), i) by {
        if is_first_named(files, name, i) {
            assert(is_first_with_name(files, encode_utf8(name), i));
        }
        if is_first_with_name(files, encode_utf8(name), i) {
            assert(files[i].name@ == name);
            assert(is_first_named(files, name, i));
        }
    }
}

/// The UTF-8 bytes of the files' names, in the order of the store.
pub open spec fn names_of(files: Seq<RamFile>) -> Seq<Seq<u8>> {
    Seq::new(files.len(), |i: int| encode_utf8(files[i].name@))
}

/// The listing of `names` that fits into `room` bytes: each name followed by
/// a line feed. The listing stops at an empty name; a name that does not fit
/// is cut off, and a name that just fits goes without its line feed.
pub open spec fn listing(names: Seq<Seq<u8>>, room: int) -> Seq<u8>
    decreases names.len(),
{
    if names.len() == 0 || room <= 0 || names[0].len() == 0 {
        Seq::empty()
    } else if names[0].len() >= room {
        names[0].subrange(0, room)
    } else {
        names[0].push(LINE_FEED) + listing(names.drop_first(), room - names[0].len() - 1)
    }
}

/// The listing never takes more room than it was given.
pub proof fn lemma_listing_fits(names: Seq<Seq<u8>>, room: int)
    requires
        room >= 0,
    ensures
        listing(names, room).len() <= room,
    decreases names.len(),
{
    if !(names.len() == 0 || room <= 0 || names[0].len() == 0) && names[0].len() < room {
        lemma_listing_fits(names.drop_first(), room - names[0].len() - 1);
    }
}

/// The bytes that a listing of the store delivers into a buffer of `buf_len`
/// bytes. The call's value is the number of these bytes.
pub fn sys_ramfs_list(fs: &RamFs, buf_len: usize) -> (out: Vec<u8>)
    ensures
        out@ == listing(names_of(fs.files@), buf_len as int),
        out@.len() <= buf_len,
{
    let mut out: Vec<u8> = Vec::new();
    let mut i: usize = 0;
    let ghost names = names_of(fs.files@);
    proof {
        assert(names.skip(0) =~= names);
        lemma_listing_fits(names, buf_len as int);
    }
    while i < fs.files.len()
        invariant
            i <= fs.files@.len(),
            names == names_of(fs.files@),
            out@.len() <= buf_len,
            out@ + listing(names.skip(i as int), buf_len - out@.len()) == listing(
                names,
                buf_len as int,
            ),
        decreases fs.files@.len() - i,
    {
        let bytes: &[u8] = fs.files[i].name.as_str().as_bytes();
        let room: usize = buf_len - out.len();
        let ghost rest = names.skip(i as int);
        let ghost before = out@;
        proof {
            assert(rest[0] == bytes@);
            assert(rest.drop_first() =~= names.skip(i + 1));
        }
        let copy_len: usize = if room <= bytes.len() {
            room
        } else {
            bytes.len()
        };
        if copy_len == 0 {
            proof {
                assert(listing(rest, room as int) =~= Seq::<u8>::empty());
                assert(out@ + Seq::<u8>::empty() =~= out@);
            }
            return out;
        }
        let mut k: usize = 0;
        while k < copy_len
            invariant
                k <= copy_len <= bytes@.len(),
                out@ == before + bytes@.subrange(0, k as int),
            decreases copy_len - k,
        {
            out.push(bytes[k]);
            k = k + 1;
            assert(out@ =~= before + bytes@.subrange(0, k as int));
        }
        if out.len() < buf_len {
            out.push(10);
            proof {
                assert(bytes@.subrange(0, copy_len as int) =~= bytes@);
                assert(out@ =~= before + bytes@.push(LINE_FEED));
                assert(before + (bytes@.push(LINE_FEED) + listing(
                    names.skip(i + 1),
                    room - bytes@.len() - 1,
                )) =~= out@ + listing(names.skip(i + 1), buf_len - out@.len()));
            }
        } else {
            proof {
                assert(listing(rest, room as int) == bytes@.subrange(0, room as int));
                assert(listing(names.skip(i + 1), 0) =~= Seq::<u8>::empty());
                assert(out@ + Seq::<u8>::empty() =~= out@);
            }
        }
        i = i + 1;
    }
    proof {
        assert(listing(names.skip(i as int), buf_len - out@.len()) =~= Seq::<u8>::empty());
        assert(out@ + Seq::<u8>::empty() =~= out@);
    }
    out
}

} // verus!
