//! A small file store held in memory: named byte strings with a kind and a
//! creation stamp.
use vstd::prelude::*;
use vstd::slice::slice_to_vec;
use vstd::string::StringSliceAdditionalSpecFns;

verus! {

/// One stored file.
#[derive(Debug, Clone)]
pub struct RamFile {
    pub name: String,
    pub data: Vec<u8>,
    pub size: usize,
    pub created_at: u64,
    pub file_type: FileType,
}

/// The kind of a file, as far as its name and contents tell.
#[derive(Debug, Clone, Copy, PartialEq, Eq, Structural)]
pub enum FileType {
    Text,
    Binary,
    Executable,
    Directory,
    Unknown,
}

impl FileType {
    /// The three-letter tag that stands for the kind in listings.
    pub fn to_string(&self) -> (tag: &'static str)
        ensures
            tag@ == (match *self {
                FileType::Text => "TXT"@,
                FileType::Binary => "BIN"@,
                FileType::Executable => "EXE"@,
                FileType::Directory => "DIR"@,
                FileType::Unknown => "???"@,
            }),
    {
        match self {
            FileType::Text => "TXT",
            FileType::Binary => "BIN",
            FileType::Executable => "EXE",
            FileType::Directory => "DIR",
            FileType::Unknown => "???",
        }
    }
}

/// Whether the byte string `name` ends with the byte string `suffix`.
pub open spec fn ends_with(name: Seq<u8>, suffix: Seq<u8>) -> bool {
    suffix.len() <= name.len() && name.subrange(name.len() - suffix.len(), name.len() as int)
        == suffix
}

/// Whether a byte is printable ASCII, a line feed, a carriage return or a
/// tab.
pub open spec fn is_text_byte(b: u8) -> bool {
    (32 <= b && b <= 126) || b == 10 || b == 13 || b == 9
}

/// The kind of a file with the given name, in UTF-8, and contents. The
/// name's ending decides first: a text, an executable or a directory ending.
/// Otherwise the file is text if every byte of it is a text byte, and binary
/// if not.
pub open spec fn file_type_of(name: Seq<u8>, data: Seq<u8>) -> FileType {
    if ends_with(name, ".txt".spec_bytes()) || ends_with(name, ".md".spec_bytes()) || ends_with(
        name,
        ".log".spec_bytes(),
    ) {
        FileType::Text
    } else if ends_with(name, ".exe".spec_bytes()) || ends_with(name, ".bin".spec_bytes())
        || ends_with(name, ".elf".spec_bytes()) {
        FileType::Executable
    } else if ends_with(name, "/".spec_bytes()) || ends_with(name, "\\".spec_bytes()) {
        FileType::Directory
    } else if forall|i: int| 0 <= i < data.len() ==> is_text_byte(#[trigger] data[i]) {
        FileType::Text
    } else {
        FileType::Binary
    }
}

/// Whether `index` is the first file of `files` with the name `name`.
pub open spec fn is_first_named(files: Seq<RamFile>, name: Seq<char>, index: int) -> bool {
    &&& 0 <= index < files.len()
    &&& files[index].name@ == name
    &&& forall|i: int| 0 <= i < index ==> files[i].name@ != name
}

/// Whether some file of `files` has the name `name`.
pub open spec fn has_file(files: Seq<RamFile>, name: Seq<char>) -> bool {
    exists|i: int| 0 <= i < files.len() && files[i].name@ == name
}

fn bytes_end_with(name: &[u8], suffix: &[u8]) -> (r: bool)
    ensures
        r == ends_with(name@, suffix@),
{
    if suffix.len() > name.len() {
        return false;
    }
    let offset: usize = name.len() - suffix.len();
    let mut i: usize = 0;
    while i < suffix.len()
        invariant
            i <= suffix.len(),
            offset + suffix.len() == name.len(),
            forall|k: int| 0 <= k < i ==> name[offset + k] == suffix[k],
        decreases suffix.len() - i,
    {
        if name[offset + i] != suffix[i] {
            assert(name@.subrange(offset as int, name.len() as int)[i as int] != suffix@[i as int]);
            return false;
        }
        i = i + 1;
    }
    assert(name@.subrange(offset as int, name.len() as int) =~= suffix@);
    true
}

fn all_text_bytes(data: &[u8]) -> (r: bool)
    ensures
        r == forall|i: int| 0 <= i < data@.len() ==> is_text_byte(#[trigger] data@[i]),
{
    let mut i: usize = 0;
    while i < data.len()
        invariant
            i <= data.len(),
            forall|k: int| 0 <= k < i ==> is_text_byte(#[trigger] data@[k]),
        decreases data.len() - i,
    {
        let b: u8 = data[i];
        if !((b >= 32 && b <= 126) || b == 10 || b == 13 || b == 9) {
            return false;
        }
        i = i + 1;
    }
    true
}

/// The file store: the files in the order in which they were created, and
/// the stamp that the last of them got.
pub struct RamFs {
    pub files: Vec<RamFile>,
    pub clock: u64,
}

impl RamFs {
    /// An empty store.
    pub fn new() -> (fs: Self)
        ensures
            fs.files@.len() == 0,
            fs.clock == 0,
    {
        RamFs { files: Vec::new(), clock: 0 }
    }

    /// Adds a file with the given name and contents at the end of the store.
    /// The file gets the next creation stamp and the kind that its name and
    /// contents tell. A name that is taken already is not an obstacle.
    pub fn create_file(&mut self, name: &str, data: &[u8])
        requires
            old(self).clock < u64::MAX,
        ensures
            final(self).clock == old(self).clock + 1,
            final(self).files@.len() == old(self).files@.len() + 1,
            final(self).files@ == old(self).files@.push(final(self).files@.last()),
            final(self).files@.last().name@ == name@,
            final(self).files@.last().data@ == data@,
            final(self).files@.last().size == data@.len(),
            final(self).files@.last().created_at == final(self).clock,
            final(self).files@.last().file_type == file_type_of(name.spec_bytes(), data@),
    {
        let file_type = Self::detect_file_type(name, data);
        let created_at: u64 = self.get_timestamp();
        self.files.push(
            RamFile {
                name: name.to_owned(),
                data: slice_to_vec(data),
                size: data.len(),
                created_at,
                file_type,
            },
        );
    }

    /// The contents of the first file with the given name, if there is one.
    pub fn read_file(&self, name: &str) -> (r: Option<&[u8]>)
        ensures
            r is Some <==> has_file(self.files@, name@),
            r matches Some(data) ==> exists|i: int|
                is_first_named(self.files@, name@, i) && data@ == self.files@[i].data@,
    {
        match self.position(name) {
            Some(i) => Some(self.files[i].data.as_slice()),
            None => None,
        }
    }

    /// Replaces the contents of the first file with the given name, and with
    /// them its size and kind. Fails, changing nothing, when there is no such
    /// file.
    pub fn write_file(&mut self, name: &str, data: &[u8]) -> (ok: bool)
        ensures
            ok <==> has_file(old(self).files@, name@),
            !ok ==> *final(self) == *old(self),
            final(self).clock == old(self).clock,
            ok ==> exists|i: int|
                {
                    &&& is_first_named(old(self).files@, name@, i)
                    &&& final(self).files@ == old(self).files@.update(i, final(self).files@[i])
                    &&& final(self).files@[i].name == old(self).files@[i].name
                    &&& final(self).files@[i].created_at == old(self).files@[i].created_at
                    &&& final(self).files@[i].data@ == data@
                    &&& final(self).files@[i].size == data@.len()
                    &&& final(self).files@[i].file_type == file_type_of(name.spec_bytes(), data@)
                },
    {
        match self.position(name) {
            Some(i) => {
                let file_type = Self::detect_file_type(name, data);
                let file = &mut self.files[i];
                file.data = slice_to_vec(data);
                file.size = data.len();
                file.file_type = file_type;
                assert(is_first_named(old(self).files@, name@, i as int));
                true
            },
            None => false,
        }
    }

    /// The names of the files, in the order of the store.
    pub fn list_files(&self) -> (names: Vec<&str>)
        ensures
            names@.len() == self.files@.len(),
            forall|i: int| 0 <= i < names@.len() ==> (#[trigger] names@[i])@ == self.files@[i].name@,
    {
        let mut names: Vec<&str> = Vec::new();
        let mut i: usize = 0;
        while i < self.files.len()
            invariant
                i <= self.files@.len(),
                names@.len() == i,
                forall|k: int| 0 <= k < i ==> (#[trigger] names@[k])@ == self.files@[k].name@,
            decreases self.files@.len() - i,
        {
            names.push(self.files[i].name.as_str());
            i = i + 1;
        }
        names
    }

    /// The files, in the order of the store.
    pub fn list_files_detailed(&self) -> (files: Vec<&RamFile>)
        ensures
            files@.len() == self.files@.len(),
            forall|i: int| 0 <= i < files@.len() ==> *(#[trigger] files@[i]) == self.files@[i],
    {
        let mut files: Vec<&RamFile> = Vec::new();
        let mut i: usize = 0;
        while i < self.files.len()
            invariant
                i <= self.files@.len(),
                files@.len() == i,
                forall|k: int| 0 <= k < i ==> *(#[trigger] files@[k]) == self.files@[k],
            decreases self.files@.len() - i,
        {
            files.push(&self.files[i]);
            i = i + 1;
        }
        files
    }

    /// The first file with the given name, if there is one.
    pub fn get_file_info(&self, name: &str) -> (r: Option<&RamFile>)
        ensures
            r is Some <==> has_file(self.files@, name@),
            r matches Some(file) ==> exists|i: int|
                is_first_named(self.files@, name@, i) && *file == self.files@[i],
    {
        match self.position(name) {
            Some(i) => Some(&self.files[i]),
            None => None,
        }
    }

    /// The kind of a file with the given name and contents.
    pub fn detect_file_type(name: &str, data: &[u8]) -> (kind: FileType)
        ensures
            kind == file_type_of(name.spec_bytes(), data@),
    {
        let bytes = name.as_bytes();
        if bytes_end_with(bytes, ".txt".as_bytes()) || bytes_end_with(bytes, ".md".as_bytes())
            || bytes_end_with(bytes, ".log".as_bytes()) {
            return FileType::Text;
        }
        if bytes_end_with(bytes, ".exe".as_bytes()) || bytes_end_with(bytes, ".bin".as_bytes())
            || bytes_end_with(bytes, ".elf".as_bytes()) {
            return FileType::Executable;
        }
        if bytes_end_with(bytes, "/".as_bytes()) || bytes_end_with(bytes, "\\".as_bytes()) {
            return FileType::Directory;
        }
        if all_text_bytes(data) {
            FileType::Text
        } else {
            FileType::Binary
        }
    }

    /// Advances the store's clock and returns the new stamp.
    pub fn get_timestamp(&mut self) -> (stamp: u64)
        requires
            old(self).clock < u64::MAX,
        ensures
            stamp == old(self).clock + 1,
            final(self).clock == stamp,
            final(self).files == old(self).files,
    {
        self.clock = self.clock + 1;
        self.clock
    }

    /// The index of the first file with the given name, if there is one.
    fn position(&self, name: &str) -> (r: Option<usize>)
        ensures
            r is Some <==> has_file(self.files@, name@),
            r matches Some(i) ==> is_first_named(self.files@, name@, i as int),
    {
        let key: String = name.to_owned();
        let mut i: usize = 0;
        while i < self.files.len()
            invariant
                i <= self.files@.len(),
                key@ == name@,
                forall|k: int| 0 <= k < i ==> self.files@[k].name@ != name@,
            decreases self.files@.len() - i,
        {
            if self.files[i].name == key {
                return Some(i);
            }
            i = i + 1;
        }
        None
    }
}

/// Makes the file store and stores it in `slot`.
pub fn init_ramfs(slot: &mut Option<RamFs>) -> (ok: bool)
    ensures
        ok,
        *final(slot) matches Some(fs) && fs.files@.len() == 0 && fs.clock == 0,
{
    *slot = Some(RamFs::new());
    slot.is_some()
}

/// The file store in `slot`, which must hold one.
pub fn ramfs_mut(slot: &mut Option<RamFs>) -> (fs: &mut RamFs)
    requires
        *old(slot) is Some,
    ensures
        *fs == old(slot)->0,
        *final(slot) == Some(*final(fs)),
{
    slot.as_mut().unwrap()
}

} // verus!
