//! Common filesystem interface: error taxonomy, metadata records, and the
//! capabilities a filesystem driver offers.

use vstd::prelude::*;
use crate::hal::Device as HalDevice;

verus! {

/// Common error type for all filesystem operations.
#[derive(Debug)]
pub enum FilesystemError {
    NotFound,
    PermissionDenied,
    IoError,
    NotADirectory,
    NotAFile,
    AlreadyExists,
    InvalidInput,
    Unsupported,
    CorruptedFs,
    NoSpace,
    DriverNotRegistered(String),
    VolumeNotMounted(String),
    PluginLoadError(String),
    NotImplemented,
    Other(String),
}

/// Compact error variant set for environments without an allocator, where
/// errors cannot carry text.
#[derive(Clone, Copy, PartialEq, Eq, Structural, Debug)]
pub enum FilesystemErrorNoAlloc {
    NotFound,
    PermissionDenied,
    IoError,
    NotADirectory,
    NotAFile,
    Unsupported,
    CorruptedFs,
    NotImplemented,
    Other,
}

/// The mathematical shape of a filesystem error.
#[verifier::ext_equal]
pub enum FsErrorRep {
    NotFound,
    PermissionDenied,
    IoError,
    NotADirectory,
    NotAFile,
    AlreadyExists,
    InvalidInput,
    Unsupported,
    CorruptedFs,
    NoSpace,
    DriverNotRegistered(Seq<char>),
    VolumeNotMounted(Seq<char>),
    PluginLoadError(Seq<char>),
    NotImplemented,
    Other(Seq<char>),
}

impl View for FilesystemError {
    type V = FsErrorRep;

    open spec fn view(&self) -> FsErrorRep {
        match self {
            FilesystemError::NotFound => FsErrorRep::NotFound,
            FilesystemError::PermissionDenied => FsErrorRep::PermissionDenied,
            FilesystemError::IoError => FsErrorRep::IoError,
            FilesystemError::NotADirectory => FsErrorRep::NotADirectory,
            FilesystemError::NotAFile => FsErrorRep::NotAFile,
            FilesystemError::AlreadyExists => FsErrorRep::AlreadyExists,
            FilesystemError::InvalidInput => FsErrorRep::InvalidInput,
            FilesystemError::Unsupported => FsErrorRep::Unsupported,
            FilesystemError::CorruptedFs => FsErrorRep::CorruptedFs,
            FilesystemError::NoSpace => FsErrorRep::NoSpace,
            FilesystemError::DriverNotRegistered(s) => FsErrorRep::DriverNotRegistered(s@),
            FilesystemError::VolumeNotMounted(s) => FsErrorRep::VolumeNotMounted(s@),
            FilesystemError::PluginLoadError(s) => FsErrorRep::PluginLoadError(s@),
            FilesystemError::NotImplemented => FsErrorRep::NotImplemented,
            FilesystemError::Other(s) => FsErrorRep::Other(s@),
        }
    }
}

/// Type of a directory entry.
#[derive(Clone, Copy, PartialEq, Eq, Structural, Debug)]
pub enum EntryType {
    File,
    Directory,
    Symlink,
    Other,
}

/// Metadata for a file or directory.
pub struct FileMetadata {
    pub name: String,
    pub entry_type: EntryType,
    pub size: u64,
    pub created_time: Option<u64>,
    pub modified_time: Option<u64>,
    pub accessed_time: Option<u64>,
}

/// An entry within a directory.
pub struct DirectoryEntry {
    pub name: String,
    pub entry_type: EntryType,
}

/// A filesystem driver: recognizes and mounts a filesystem on a block
/// device. `Instance` is the mounted-filesystem handle the driver hands
/// back.
pub trait FileSystemDriver {
    type Instance;

    /// Name of the filesystem type this driver supports.
    fn name(&self) -> String;

    /// Whether the device holds a filesystem this driver recognizes.
    fn detect(&self, device: &HalDevice) -> bool;

    /// Mounts the filesystem on the device.
    fn mount(&self, device: &HalDevice, volume_id: &str, read_only: bool) -> Result<
        Self::Instance,
        FilesystemError,
    >;
}

/// An instance of a mounted filesystem.
pub trait FileSystemInstance {
    /// The id the manager assigned to this volume.
    fn volume_id(&self) -> &str;

    /// Reads a whole file. The path is rooted at the volume root.
    fn read_file(&self, path: &str) -> Result<Vec<u8>, FilesystemError>;

    /// Lists a directory.
    fn list_directory(&self, path: &str) -> Result<Vec<DirectoryEntry>, FilesystemError>;

    /// Metadata of a file or directory.
    fn metadata(&self, path: &str) -> Result<FileMetadata, FilesystemError>;

    /// Whether a path exists.
    fn path_exists(&self, path: &str) -> Result<bool, FilesystemError>;

    /// Whether the instance was mounted read-only.
    fn is_read_only(&self) -> bool;
}

} // verus!
