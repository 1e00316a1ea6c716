//! Options for loading and saving files, and the file formats they know.
use vstd::prelude::*;
use vstd::string::StringSliceAdditionalSpecFns;

verus! {

/// The formats a file can be stored in.
#[derive(Clone, Copy, PartialEq, Eq, Structural, Debug)]
pub enum FileType {
    Toml,
    Bin,
}

/// Whether path `p` names a file whose extension is `ext`: it ends in a dot
/// followed by `ext`, and the dot is not the first character of the file name.
pub open spec fn has_extension(p: Seq<u8>, ext: Seq<u8>) -> bool {
    &&& p.len() >= ext.len() + 2
    &&& p[p.len() - ext.len() - 1] == 46u8
    &&& p.subrange(p.len() - ext.len(), p.len() as int) == ext
    &&& p[p.len() - ext.len() - 2] != 47u8
}

/// The bytes of `toml`.
pub open spec fn toml_ext() -> Seq<u8> {
    seq![116u8, 111u8, 109u8, 108u8]
}

/// The bytes of `bin`.
pub open spec fn bin_ext() -> Seq<u8> {
    seq![98u8, 105u8, 110u8]
}

/// The format that a path's extension names, if any.
pub open spec fn file_type_of(p: Seq<u8>) -> Option<FileType> {
    if has_extension(p, toml_ext()) {
        Some(FileType::Toml)
    } else if has_extension(p, bin_ext()) {
        Some(FileType::Bin)
    } else {
        None
    }
}

fn ends_with_extension(p: &[u8], ext: &[u8]) -> (r: bool)
    ensures
        r == has_extension(p@, ext@),
{
    let n = p.len();
    let m = ext.len();
    if n < 2 || n - 2 < m {
        return false;
    }
    if p[n - m - 1] != 46u8 || p[n - m - 2] == 47u8 {
        return false;
    }
    let mut i: usize = 0;
    while i < m
        invariant
            0 <= i <= m,
            m == ext@.len(),
            n == p@.len(),
            n >= m + 2,
            forall|j: int| 0 <= j < i ==> p@[n - m + j] == ext@[j],
        decreases m - i,
    {
        if p[n - m + i] != ext[i] {
            assert(p@.subrange(n - m, n as int)[i as int] != ext@[i as int]);
            return false;
        }
        i += 1;
    }
    assert(p@.subrange(n - m, n as int) =~= ext@);
    true
}

impl FileType {
    /// The format named by the extension of `path`, if it names one.
    pub fn of_path(path: &str) -> (r: Option<FileType>)
        ensures
            r == file_type_of(path.spec_bytes()),
    {
        let bytes = path.as_bytes();
        let toml: [u8; 4] = [116u8, 111u8, 109u8, 108u8];
        let bin: [u8; 3] = [98u8, 105u8, 110u8];
        assert(toml@ =~= toml_ext());
        assert(bin@ =~= bin_ext());
        if ends_with_extension(bytes, toml.as_slice()) {
            Some(FileType::Toml)
        } else if ends_with_extension(bytes, bin.as_slice()) {
            Some(FileType::Bin)
        } else {
            None
        }
    }

    /// The format named by the extension of `path`, which must be `toml` or `bin`.
    pub fn from_path(path: &str) -> (r: FileType)
        requires
            file_type_of(path.spec_bytes()) is Some,
        ensures
            file_type_of(path.spec_bytes()) == Some(r),
    {
        FileType::of_path(path).unwrap()
    }
}

/// Where relative paths start.
#[derive(Clone, Copy, PartialEq, Eq, Structural, Debug)]
pub enum Directory {
    Unset,
    Audio,
    Cache,
    Config,
    Data,
    LocalData,
    Desktop,
    Document,
    Download,
    Executable,
    Font,
    Home,
    Picture,
    Preference,
    Public,
    Runtime,
    Template,
    Video,
}

impl Directory {
    /// No starting directory: paths are taken as given.
    pub fn new() -> (r: Directory)
        ensures
            r == Directory::Unset,
    {
        Directory::Unset
    }
}

/// How files are opened, created and read back.
#[derive(Clone, Copy, PartialEq, Eq, Structural, Debug)]
pub struct FileOptions {
    pub create_missing_directories: bool,
    pub create_missing_files: bool,
    pub reset_invalid_deserialization: bool,
    pub truncate_existing_files: bool,
    pub start_location: Directory,
}

impl FileOptions {
    /// Every option on, starting from no directory.
    pub fn new() -> (r: FileOptions)
        ensures
            r == (FileOptions {
                create_missing_directories: true,
                create_missing_files: true,
                reset_invalid_deserialization: true,
                truncate_existing_files: true,
                start_location: Directory::Unset,
            }),
    {
        FileOptions {
            create_missing_directories: true,
            create_missing_files: true,
            reset_invalid_deserialization: true,
            truncate_existing_files: true,
            start_location: Directory::new(),
        }
    }

    /// Sets whether missing parent directories are created.
    pub fn create_missing_directories(&mut self, value: bool) -> (r: &mut FileOptions)
        ensures
            *r == (FileOptions { create_missing_directories: value, ..*old(self) }),
            *final(self) == *final(r),
    {
        self.create_missing_directories = value;
        self
    }

    /// Sets whether missing files are created.
    pub fn create_missing_files(&mut self, value: bool) -> (r: &mut FileOptions)
        ensures
            *r == (FileOptions { create_missing_files: value, ..*old(self) }),
            *final(self) == *final(r),
    {
        self.create_missing_files = value;
        self
    }

    /// Sets whether a file that cannot be read back is reset to a default value.
    pub fn reset_on_invalid_deserialization(&mut self, value: bool) -> (r: &mut FileOptions)
        ensures
            *r == (FileOptions { reset_invalid_deserialization: value, ..*old(self) }),
            *final(self) == *final(r),
    {
        self.reset_invalid_deserialization = value;
        self
    }

    /// Sets whether existing files are truncated before writing.
    pub fn truncate_existing_files(&mut self, value: bool) -> (r: &mut FileOptions)
        ensures
            *r == (FileOptions { truncate_existing_files: value, ..*old(self) }),
            *final(self) == *final(r),
    {
        self.truncate_existing_files = value;
        self
    }
}

} // verus!
