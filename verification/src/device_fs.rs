//! The filesystem that holds the fetch device as its only file.
use crate::device_file::{DeviceFileModel, FetchDeviceFile};
use crate::path::{is_device_path, FETCH_DEVICE_FILE_NAME};
use vstd::prelude::*;
use vstd::string::*;

verus! {

/// Why an operation on the filesystem is refused.
#[derive(Debug, Clone, Copy, PartialEq, Eq, Structural)]
pub enum FsError {
    /// The path does not name the device.
    EntryNotFound,
    /// The operation does not apply to what the path names.
    InvalidInput,
    /// The filesystem does not let itself be changed.
    PermissionDenied,
    /// The filesystem does not offer the operation.
    Unsupported,
}

/// What sort of entry a path names.
#[derive(Debug, Clone, Copy, PartialEq, Eq, Structural)]
pub struct FileType {
    pub dir: bool,
    pub file: bool,
    pub symlink: bool,
    pub char_device: bool,
    pub block_device: bool,
    pub socket: bool,
    pub fifo: bool,
}

/// What is known of an entry.
#[derive(Debug, Clone, Copy, PartialEq, Eq, Structural)]
pub struct Metadata {
    pub ft: FileType,
    pub accessed: u64,
    pub created: u64,
    pub modified: u64,
    pub len: u64,
}

/// The type of a regular file: nothing but a file.
pub open spec fn regular_file() -> FileType {
    FileType {
        dir: false,
        file: true,
        symlink: false,
        char_device: false,
        block_device: false,
        socket: false,
        fifo: false,
    }
}

/// The type of a directory: nothing but a directory.
pub open spec fn directory() -> FileType {
    FileType {
        dir: true,
        file: false,
        symlink: false,
        char_device: false,
        block_device: false,
        socket: false,
        fifo: false,
    }
}

/// Metadata of an entry of type `ft`, without times and empty.
pub open spec fn bare_metadata(ft: FileType) -> Metadata {
    Metadata { ft, accessed: 0, created: 0, modified: 0, len: 0 }
}

/// What the filesystem knows of `path`: the device is a file, every other path
/// is a directory.
pub open spec fn metadata_of(path: Seq<u8>) -> Metadata {
    bare_metadata(
        if crate::path::names_device(path) {
            regular_file()
        } else {
            directory()
        },
    )
}

/// `virtual_fs::FileType::new_file`.
///
/// Trusted: the returned type is a file and has no other flag set.
#[verifier::external_body]
fn new_file_type() -> (ft: FileType)
    ensures
        ft == regular_file(),
{
    let ft = virtual_fs::FileType::new_file();
    FileType {
        dir: ft.dir,
        file: ft.file,
        symlink: ft.symlink,
        char_device: ft.char_device,
        block_device: ft.block_device,
        socket: ft.socket,
        fifo: ft.fifo,
    }
}

/// `virtual_fs::FileType::new_dir`.
///
/// Trusted: the returned type is a directory and has no other flag set.
#[verifier::external_body]
fn new_dir_type() -> (ft: FileType)
    ensures
        ft == directory(),
{
    let ft = virtual_fs::FileType::new_dir();
    FileType {
        dir: ft.dir,
        file: ft.file,
        symlink: ft.symlink,
        char_device: ft.char_device,
        block_device: ft.block_device,
        socket: ft.socket,
        fifo: ft.fifo,
    }
}

/// Metadata of the device.
pub fn file_metadata() -> (metadata: Metadata)
    ensures
        metadata == bare_metadata(regular_file()),
{
    Metadata { ft: new_file_type(), accessed: 0, created: 0, modified: 0, len: 0 }
}

/// Metadata of everything else.
pub fn dir_metadata() -> (metadata: Metadata)
    ensures
        metadata == bare_metadata(directory()),
{
    Metadata { ft: new_dir_type(), accessed: 0, created: 0, modified: 0, len: 0 }
}

/// The single-file filesystem. Paths are bytes with `/` between components.
#[derive(Debug, Clone, Copy, PartialEq, Eq, Structural)]
pub struct FetchDeviceFs;

impl FetchDeviceFs {
    /// Opens the device; no other path can be opened.
    pub fn open(&self, path: &[u8]) -> (file: Result<FetchDeviceFile, FsError>)
        ensures
            file is Ok <==> crate::path::names_device(path@),
            file matches Ok(handle) ==> handle@ == DeviceFileModel::opened() && handle.wf(),
            file matches Ok(handle) ==> handle.write_buf@.len() == 0 && !handle.published
                && handle.response is None,
            file matches Err(error) ==> error == FsError::EntryNotFound,
    {
        if is_device_path(path) {
            Ok(FetchDeviceFile::new())
        } else {
            Err(FsError::EntryNotFound)
        }
    }

    /// What `path` names.
    pub fn metadata(&self, path: &[u8]) -> (metadata: Result<Metadata, FsError>)
        ensures
            metadata matches Ok(known) && known == metadata_of(path@),
    {
        if is_device_path(path) {
            Ok(file_metadata())
        } else {
            Ok(dir_metadata())
        }
    }

    /// What `path` names; there are no symbolic links to follow.
    pub fn symlink_metadata(&self, path: &[u8]) -> (metadata: Result<Metadata, FsError>)
        ensures
            metadata matches Ok(known) && known == metadata_of(path@),
    {
        self.metadata(path)
    }

    /// No path names a symbolic link.
    pub fn readlink(&self, path: &[u8]) -> (target: Result<Vec<u8>, FsError>)
        ensures
            target matches Err(error) && error == FsError::InvalidInput,
    {
        Err(FsError::InvalidInput)
    }

    /// The names of the entries of a directory: every listing is empty.
    pub fn read_dir(&self, path: &[u8]) -> (entries: Result<Vec<Vec<u8>>, FsError>)
        ensures
            entries matches Ok(names) && names@.len() == 0,
    {
        Ok(Vec::new())
    }

    /// No directory can be created.
    pub fn create_dir(&self, path: &[u8]) -> (done: Result<(), FsError>)
        ensures
            done matches Err(error) && error == FsError::PermissionDenied,
    {
        Err(FsError::PermissionDenied)
    }

    /// No directory can be removed.
    pub fn remove_dir(&self, path: &[u8]) -> (done: Result<(), FsError>)
        ensures
            done matches Err(error) && error == FsError::PermissionDenied,
    {
        Err(FsError::PermissionDenied)
    }

    /// Nothing can be renamed.
    pub fn rename(&self, from: &[u8], to: &[u8]) -> (done: Result<(), FsError>)
        ensures
            done matches Err(error) && error == FsError::PermissionDenied,
    {
        Err(FsError::PermissionDenied)
    }

    /// No file can be removed.
    pub fn remove_file(&self, path: &[u8]) -> (done: Result<(), FsError>)
        ensures
            done matches Err(error) && error == FsError::PermissionDenied,
    {
        Err(FsError::PermissionDenied)
    }

    /// Nothing can be mounted inside.
    pub fn mount(&self, name: &str, path: &[u8]) -> (done: Result<(), FsError>)
        ensures
            done matches Err(error) && error == FsError::Unsupported,
    {
        Err(FsError::Unsupported)
    }
}

/// The handle by which a host gets at the device.
pub struct FetchDevice;

impl FetchDevice {
    /// The filesystem to mount, at `/frachter` or any parent that guests do not
    /// reserve.
    pub fn mount() -> (fs: FetchDeviceFs)
        ensures
            fs == FetchDeviceFs,
    {
        FetchDeviceFs
    }

    /// The device file name.
    pub fn file_name() -> (name: String)
        ensures
            name@ == FETCH_DEVICE_FILE_NAME@,
            name@ == "fetch"@,
    {
        FETCH_DEVICE_FILE_NAME.to_string()
    }
}

/// A path can be opened exactly when its metadata says that it is a file, and
/// every other path is a directory.
pub proof fn law_files_are_what_opens(path: Seq<u8>)
    ensures
        metadata_of(path).ft.file <==> crate::path::names_device(path),
        metadata_of(path).ft.dir <==> !crate::path::names_device(path),
{
}

/// A regular file and a directory each have their own flag and no other.
pub proof fn law_entry_types_have_one_flag()
    ensures
        regular_file().file && !regular_file().dir,
        directory().dir && !directory().file,
        !regular_file().symlink && !regular_file().char_device && !regular_file().block_device,
        !regular_file().socket && !regular_file().fifo,
        !directory().symlink && !directory().char_device && !directory().block_device,
        !directory().socket && !directory().fifo,
{
}

/// Metadata without times and empty keeps the type it was made for.
pub proof fn law_bare_metadata_is_its_type(ft: FileType)
    ensures
        bare_metadata(ft).ft == ft,
        bare_metadata(ft).accessed == 0,
        bare_metadata(ft).created == 0,
        bare_metadata(ft).modified == 0,
        bare_metadata(ft).len == 0,
{
}

/// Under any directory and on its own, the entry `fetch` is a file and every other
/// entry is a directory. No entry is of any other type, has a time or a length.
pub proof fn law_only_fetch_is_a_file(path: Seq<u8>, dir: Seq<u8>, name: Seq<u8>)
    requires
        name.len() > 0,
        forall|i: int| 0 <= i < name.len() ==> name[i] != 0x2f,
        name != seq![0x2eu8],
        name != seq![0x2eu8, 0x2eu8],
        path == name || path == dir + seq![0x2fu8] + name,
    ensures
        metadata_of(path).ft.file <==> name == vstd::utf8::encode_utf8("fetch"@),
        metadata_of(path).ft.dir <==> name != vstd::utf8::encode_utf8("fetch"@),
        !metadata_of(path).ft.symlink && !metadata_of(path).ft.char_device,
        !metadata_of(path).ft.block_device && !metadata_of(path).ft.socket,
        !metadata_of(path).ft.fifo,
        metadata_of(path).accessed == 0 && metadata_of(path).created == 0,
        metadata_of(path).modified == 0 && metadata_of(path).len == 0,
{
    crate::path::law_last_component_decides(dir, name);
}

} // verus!
