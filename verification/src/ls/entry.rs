//! What the listing knows of one file.
use vstd::prelude::*;

verus! {

/// The type of a file, as a query that does not follow links reports it.
#[derive(Clone, Copy, Debug, PartialEq, Eq, Structural)]
pub enum FileKind {
    Regular,
    Directory,
    Symlink,
    Fifo,
    Socket,
    BlockDevice,
    CharDevice,
}

/// A snapshot of one file's metadata, taken without following a final link.
#[derive(Clone, Copy, Debug, PartialEq, Eq, Structural)]
pub struct Meta {
    /// File type.
    pub kind: FileKind,
    /// Mode bits; of these the permission bits and the set-user-id,
    /// set-group-id and sticky bits are read.
    pub mode: u32,
    /// Number of hard links.
    pub nlink: u64,
    /// Owning user id.
    pub uid: u32,
    /// Owning group id.
    pub gid: u32,
    /// Size in bytes.
    pub size: u64,
    /// Raw device number; it means something for device files only.
    pub rdev: u64,
    /// Modification time in seconds since the epoch.
    pub mtime: i64,
    /// Allocated size in 512-byte blocks.
    pub blocks: u64,
    /// Whether the file carries extended attributes.
    pub has_xattrs: bool,
    /// Whether the path still leads to a file when links are followed. Only a
    /// symbolic link can fail to.
    pub resolves: bool,
}

/// Where a symbolic link points.
#[derive(Clone, Debug)]
pub struct LinkTarget {
    /// The target as the link stores it.
    pub text: String,
    /// The target's own metadata, or `None` where the target cannot be
    /// queried.
    pub meta: Option<Meta>,
}

/// One entry of a listing.
#[derive(Clone, Debug)]
pub struct DirEntry {
    /// The name to show. `.` and `..` are entries like any other.
    pub name: String,
    /// The path that the metadata was read from.
    pub path: String,
    /// The metadata snapshot.
    pub meta: Meta,
    /// The owning user's name, or `None` where the system knows none.
    pub user: Option<String>,
    /// The owning group's name, or `None` where the system knows none.
    pub group: Option<String>,
    /// The modification time as text, empty where it could not be formatted.
    pub stamp: String,
    /// For a symbolic link that could be read, where it points.
    pub link: Option<LinkTarget>,
}

impl Meta {
    /// A block or character device.
    pub open spec fn is_device(self) -> bool {
        self.kind == FileKind::BlockDevice || self.kind == FileKind::CharDevice
    }

    /// A regular file with any of the three execute bits set.
    pub open spec fn is_executable(self) -> bool {
        self.kind == FileKind::Regular && self.mode & 0o111 != 0
    }

    /// A symbolic link that leads nowhere.
    pub open spec fn is_broken_link(self) -> bool {
        self.kind == FileKind::Symlink && !self.resolves
    }
}

/// Whether the entry is a block or character device.
pub fn is_dev(meta: &Meta) -> (r: bool)
    ensures
        r == meta.is_device(),
{
    meta.kind == FileKind::BlockDevice || meta.kind == FileKind::CharDevice
}

/// Whether the entry is a regular file that somebody may execute.
pub fn is_exec_file(meta: &Meta) -> (r: bool)
    ensures
        r == meta.is_executable(),
{
    meta.kind == FileKind::Regular && (meta.mode & 0o111) != 0
}

/// Whether the entry is a symbolic link whose target is missing.
pub fn broken_link(meta: &Meta) -> (r: bool)
    ensures
        r == meta.is_broken_link(),
{
    meta.kind == FileKind::Symlink && !meta.resolves
}

/// The major number of a raw device number: its second-lowest byte.
pub open spec fn major_of(rdev: u64) -> u32 {
    ((rdev >> 8) & 0xff) as u32
}

/// The minor number of a raw device number: its lowest byte, with bits 20 to
/// 31 on top of it.
pub open spec fn minor_of(rdev: u64) -> u32 {
    ((rdev & 0xff) | ((rdev >> 12) & 0xfff00)) as u32
}

/// The two device numbers in terms of division: the raw number is laid out as
/// a low byte of the minor number, a byte of the major number, four bits that
/// are not read, and twelve more bits of the minor number.
pub proof fn lemma_device_numbers(rdev: u64)
    ensures
        major_of(rdev) == (rdev / 0x100) % 0x100,
        minor_of(rdev) == rdev % 0x100 + ((rdev / 0x10_0000) % 0x1000) * 0x100,
{
    assert(((rdev >> 8) & 0xff) == (rdev / 0x100) % 0x100) by (bit_vector);
    assert(((rdev & 0xff) | ((rdev >> 12) & 0xfff00)) == rdev % 0x100 + ((rdev / 0x10_0000)
        % 0x1000) * 0x100) by (bit_vector);
    assert(((rdev >> 8) & 0xff) <= 0xff) by (bit_vector);
    assert(((rdev & 0xff) | ((rdev >> 12) & 0xfff00)) <= 0xfffff) by (bit_vector);
}

/// Splits a raw device number into its major and minor numbers.
pub fn major_minor(rdev: u64) -> (r: (u32, u32))
    ensures
        r.0 == major_of(rdev),
        r.1 == minor_of(rdev),
        r.0 <= 0xff,
        r.1 <= 0xfffff,
{
    let major: u64 = (rdev >> 8) & 0xff;
    let minor: u64 = (rdev & 0xff) | ((rdev >> 12) & 0xfff00);
    assert(((rdev >> 8) & 0xff) <= 0xff) by (bit_vector);
    assert(((rdev & 0xff) | ((rdev >> 12) & 0xfff00)) <= 0xfffff) by (bit_vector);
    (major as u32, minor as u32)
}

} // verus!
