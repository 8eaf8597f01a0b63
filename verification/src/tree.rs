//! The virtual tree handler: a fixed two-node tree (root directory and one
//! regular file) answered through four operations — entry lookup, attribute
//! query, directory listing, and content read. The file's content is
//! regenerated on every read from the configured username and the one-time
//! code for the given time.

use vstd::prelude::*;

use crate::secret::{base32_decode_of, decode_secret, is_base32, normalize_spec, ConfigError};
use crate::totp::{generate, totp_code};

verus! {

/// Inode of the root directory.
pub const ROOT_INO: u64 = 1;

/// Inode of the single regular file.
pub const FILE_INO: u64 = 2;

/// How long a caller may trust a returned entry or attribute without asking
/// again, in seconds.
pub const TTL_SECONDS: u64 = 1;

/// A filesystem operation addressed to an entry that does not exist.
#[derive(Clone, Copy, PartialEq, Eq, Structural, Debug)]
pub enum FsError {
    /// The inode, or the name under its parent, names no entry of the tree.
    NotFound,
}

/// The kind of a tree node.
#[derive(Clone, Copy, PartialEq, Eq, Structural, Debug)]
pub enum FileKind {
    Directory,
    RegularFile,
}

/// A snapshot describing an inode to the caller. Timestamps are Unix seconds.
#[derive(Clone, Copy, PartialEq, Eq, Structural, Debug)]
pub struct FileAttributes {
    pub ino: u64,
    pub size: u64,
    pub blocks: u64,
    pub atime: u64,
    pub mtime: u64,
    pub ctime: u64,
    pub crtime: u64,
    pub kind: FileKind,
    pub perm: u16,
    pub nlink: u32,
    pub uid: u32,
    pub gid: u32,
    pub rdev: u32,
    pub flags: u32,
    pub blksize: u32,
}

/// One entry of a directory listing, paired with the offset at which a
/// resumed listing continues right after it.
pub struct DirEntry {
    pub ino: u64,
    pub kind: FileKind,
    pub name: Vec<u8>,
    pub next_offset: u64,
}

/// The constant attributes of the root directory.
pub open spec fn root_dir_attr_spec() -> FileAttributes {
    FileAttributes {
        ino: ROOT_INO,
        size: 0,
        blocks: 0,
        atime: 0,
        mtime: 0,
        ctime: 0,
        crtime: 0,
        kind: FileKind::Directory,
        perm: 0o755,
        nlink: 2,
        uid: 501,
        gid: 20,
        rdev: 0,
        flags: 0,
        blksize: 512,
    }
}

/// The attributes of the virtual file: `size` bytes, timestamps all `now`.
pub open spec fn file_attr_spec(size: u64, now: u64) -> FileAttributes {
    FileAttributes {
        ino: FILE_INO,
        size: size,
        blocks: 1,
        atime: now,
        mtime: now,
        ctime: now,
        crtime: now,
        kind: FileKind::RegularFile,
        perm: 0o666,
        nlink: 1,
        uid: 0,
        gid: 0,
        rdev: 0,
        flags: 0,
        blksize: 512,
    }
}

/// Build the constant attributes of the root directory.
pub fn root_dir_attr() -> (r: FileAttributes)
    ensures
        r == root_dir_attr_spec(),
{
    FileAttributes {
        ino: ROOT_INO,
        size: 0,
        blocks: 0,
        atime: 0,
        mtime: 0,
        ctime: 0,
        crtime: 0,
        kind: FileKind::Directory,
        perm: 0o755,
        nlink: 2,
        uid: 501,
        gid: 20,
        rdev: 0,
        flags: 0,
        blksize: 512,
    }
}

/// Build the attributes of the virtual file for a given size, with all
/// timestamps set to `now`.
pub fn file_attr(size: u64, now: u64) -> (r: FileAttributes)
    ensures
        r == file_attr_spec(size, now),
{
    FileAttributes {
        ino: FILE_INO,
        size: size,
        blocks: 1,
        atime: now,
        mtime: now,
        ctime: now,
        crtime: now,
        kind: FileKind::RegularFile,
        perm: 0o666,
        nlink: 1,
        uid: 0,
        gid: 0,
        rdev: 0,
        flags: 0,
        blksize: 512,
    }
}

fn bytes_eq(a: &[u8], b: &[u8]) -> (r: bool)
    ensures
        r <==> a@ == b@,
{
    if a.len() != b.len() {
        return false;
    }
    let n = a.len();
    let mut i: usize = 0;
    while i < n
        invariant
            n == a@.len() == b@.len(),
            0 <= i <= n,
            forall|j: int| 0 <= j < i ==> a@[j] == b@[j],
        decreases n - i,
    {
        if a[i] != b[i] {
            return false;
        }
        i = i + 1;
    }
    proof {
        assert(a@ =~= b@);
    }
    true
}

fn copy_bytes(src: &[u8]) -> (r: Vec<u8>)
    ensures
        r@ == src@,
{
    let n = src.len();
    let mut out: Vec<u8> = Vec::new();
    let mut i: usize = 0;
    while i < n
        invariant
            n == src@.len(),
            0 <= i <= n,
            out@ == src@.take(i as int),
        decreases n - i,
    {
        out.push(src[i]);
        proof {
            assert(out@ =~= src@.take(i + 1));
        }
        i = i + 1;
    }
    proof {
        assert(src@.take(n as int) =~= src@);
    }
    out
}

fn append_bytes(dst: &mut Vec<u8>, src: &[u8])
    ensures
        final(dst)@ == old(dst)@ + src@,
{
    let n = src.len();
    let mut i: usize = 0;
    while i < n
        invariant
            n == src@.len(),
            0 <= i <= n,
            dst@ == old(dst)@ + src@.take(i as int),
        decreases n - i,
    {
        dst.push(src[i]);
        proof {
            assert(old(dst)@ + src@.take(i as int) + seq![src@[i as int]] =~= old(dst)@
                + src@.take(i + 1));
        }
        i = i + 1;
    }
    proof {
        assert(old(dst)@ + src@.take(n as int) =~= old(dst)@ + src@);
    }
}

/// The single stateful object: the identity fixed at mount time (display
/// name of the file, username, decoded key) and the file's attributes.
pub struct AuthUserPass {
    pub filename: Vec<u8>,
    pub username: Vec<u8>,
    pub key: Vec<u8>,
    pub file_attr: FileAttributes,
}

impl AuthUserPass {
    /// Well-formedness: the stored attributes are the file attributes for the
    /// configured username's content size, with consistent timestamps.
    pub open spec fn wf(self) -> bool {
        &&& self.username@.len() + 8 <= u64::MAX
        &&& self.file_attr == file_attr_spec(
            (self.username@.len() + 8) as u64,
            self.file_attr.atime,
        )
    }

    /// The logical content of the virtual file at time `now`:
    /// `username`, newline, the 6-digit code, newline.
    pub open spec fn content_spec(self, now: u64) -> Seq<u8> {
        self.username@ + seq![10u8] + totp_code(self.key@, now) + seq![10u8]
    }

    /// Build the handler: decode the secret once, and fix the file's reported
    /// size to the content size `len(username) + 6 + 2`, with timestamps set
    /// to `now`. Fails with a configuration error exactly when the normalized
    /// secret is not base32 text.
    pub fn new(filename: Vec<u8>, username: Vec<u8>, secret: Vec<u8>, now: u64) -> (r: Result<
        AuthUserPass,
        ConfigError,
    >)
        requires
            username@.len() + 8 <= u64::MAX,
        ensures
            match r {
                Ok(fs) => {
                    &&& is_base32(normalize_spec(secret@))
                    &&& fs.wf()
                    &&& fs.filename@ == filename@
                    &&& fs.username@ == username@
                    &&& fs.key@ == base32_decode_of(normalize_spec(secret@))
                    &&& fs.file_attr == file_attr_spec((username@.len() + 8) as u64, now)
                },
                Err(e) => {
                    &&& e == ConfigError::InvalidSecret
                    &&& !is_base32(normalize_spec(secret@))
                },
            },
    {
        let key = match decode_secret(secret.as_slice()) {
            Ok(key) => key,
            Err(e) => {
                return Err(e);
            },
        };
        let size: u64 = username.len() as u64 + 8;
        Ok(AuthUserPass { filename, username, key, file_attr: file_attr(size, now) })
    }

    /// Look an entry up under a parent directory: succeeds exactly for the
    /// configured filename under the root, returning the file's attributes.
    pub fn lookup(&self, parent: u64, name: &[u8]) -> (r: Result<FileAttributes, FsError>)
        requires
            self.wf(),
        ensures
            parent == ROOT_INO && name@ == self.filename@ ==> r == Ok::<FileAttributes, FsError>(
                self.file_attr,
            ),
            !(parent == ROOT_INO && name@ == self.filename@) ==> r == Err::<
                FileAttributes,
                FsError,
            >(FsError::NotFound),
    {
        if parent == ROOT_INO && bytes_eq(name, self.filename.as_slice()) {
            Ok(self.file_attr)
        } else {
            Err(FsError::NotFound)
        }
    }

    /// Report the attributes of an inode: the root directory's constants, the
    /// file's stored attributes, and not-found for every other inode.
    pub fn getattr(&self, ino: u64) -> (r: Result<FileAttributes, FsError>)
        requires
            self.wf(),
        ensures
            ino == ROOT_INO ==> r == Ok::<FileAttributes, FsError>(root_dir_attr_spec()),
            ino == FILE_INO ==> r == Ok::<FileAttributes, FsError>(self.file_attr),
            ino != ROOT_INO && ino != FILE_INO ==> r == Err::<FileAttributes, FsError>(
                FsError::NotFound,
            ),
    {
        if ino == ROOT_INO {
            Ok(root_dir_attr())
        } else if ino == FILE_INO {
            Ok(self.file_attr)
        } else {
            Err(FsError::NotFound)
        }
    }

    /// The inode of the `k`-th entry of the root listing, `k` in 0..3.
    pub open spec fn entry_ino(self, k: int) -> u64 {
        if k == 2 {
            FILE_INO
        } else {
            ROOT_INO
        }
    }

    /// The kind of the `k`-th entry of the root listing.
    pub open spec fn entry_kind(self, k: int) -> FileKind {
        if k == 2 {
            FileKind::RegularFile
        } else {
            FileKind::Directory
        }
    }

    /// The name of the `k`-th entry of the root listing: `.`, `..`, then the
    /// configured filename.
    pub open spec fn entry_name(self, k: int) -> Seq<u8> {
        if k == 0 {
            seq![46u8]
        } else if k == 1 {
            seq![46u8, 46u8]
        } else {
            self.filename@
        }
    }

    /// List the root directory from a starting offset: the fixed three-entry
    /// listing with the first `offset` entries skipped, each entry paired
    /// with the offset right after it; an offset at or past the end yields an
    /// empty listing. Fails with not-found for every other inode.
    pub fn readdir(&self, ino: u64, offset: u64) -> (r: Result<Vec<DirEntry>, FsError>)
        requires
            self.wf(),
        ensures
            ino != ROOT_INO ==> (r matches Err(e) && e == FsError::NotFound),
            ino == ROOT_INO ==> (r matches Ok(es) && {
                &&& es@.len() == if offset < 3 {
                    3 - offset
                } else {
                    0
                }
                &&& forall|j: int|
                    0 <= j < es@.len() ==> {
                        &&& (#[trigger] es@[j]).ino == self.entry_ino(offset + j)
                        &&& es@[j].kind == self.entry_kind(offset + j)
                        &&& es@[j].name@ == self.entry_name(offset + j)
                        &&& es@[j].next_offset == offset + j + 1
                    }
            }),
    {
        if ino != ROOT_INO {
            return Err(FsError::NotFound);
        }
        let mut es: Vec<DirEntry> = Vec::new();
        if offset == 0 {
            let mut dot: Vec<u8> = Vec::new();
            dot.push(46);
            es.push(DirEntry { ino: ROOT_INO, kind: FileKind::Directory, name: dot, next_offset: 1 });
        }
        if offset <= 1 {
            let mut dotdot: Vec<u8> = Vec::new();
            dotdot.push(46);
            dotdot.push(46);
            es.push(
                DirEntry { ino: ROOT_INO, kind: FileKind::Directory, name: dotdot, next_offset: 2 },
            );
        }
        if offset <= 2 {
            es.push(
                DirEntry {
                    ino: FILE_INO,
                    kind: FileKind::RegularFile,
                    name: copy_bytes(self.filename.as_slice()),
                    next_offset: 3,
                },
            );
        }
        Ok(es)
    }

    /// Read the file's content from a byte offset at time `now`: the suffix
    /// of `username`, newline, code, newline starting at `offset`; an offset
    /// at or past the content's end yields an empty slice. Fails with
    /// not-found for every other inode.
    pub fn read(&self, ino: u64, offset: u64, now: u64) -> (r: Result<Vec<u8>, FsError>)
        requires
            self.wf(),
        ensures
            ino != FILE_INO ==> r == Err::<Vec<u8>, FsError>(FsError::NotFound),
            ino == FILE_INO ==> (r matches Ok(data) && data@ == (if offset
                <= self.content_spec(now).len() {
                self.content_spec(now).skip(offset as int)
            } else {
                Seq::<u8>::empty()
            })),
    {
        if ino != FILE_INO {
            return Err(FsError::NotFound);
        }
        let code = generate(self.key.as_slice(), now);
        let mut content: Vec<u8> = Vec::new();
        append_bytes(&mut content, self.username.as_slice());
        content.push(10);
        append_bytes(&mut content, code.as_slice());
        content.push(10);
        proof {
            assert(content@ =~= self.content_spec(now));
        }
        let len = content.len();
        let start: usize = if offset <= len as u64 {
            offset as usize
        } else {
            len
        };
        let mut out: Vec<u8> = Vec::new();
        let mut i: usize = start;
        while i < len
            invariant
                start <= i <= len,
                len == content@.len(),
                out@ == content@.subrange(start as int, i as int),
            decreases len - i,
        {
            out.push(content[i]);
            proof {
                assert(out@ =~= content@.subrange(start as int, i + 1));
            }
            i = i + 1;
        }
        proof {
            if offset <= content@.len() {
                assert(out@ =~= self.content_spec(now).skip(offset as int));
            } else {
                assert(out@ =~= Seq::<u8>::empty());
            }
        }
        Ok(out)
    }

    /// The content returned by a full read has exactly the length that the
    /// file's attributes report as its size.
    pub proof fn lemma_content_matches_size(self, now: u64)
        requires
            self.wf(),
        ensures
            self.content_spec(now).len() == self.file_attr.size,
    {
        crate::totp::lemma_code_shape(self.key@, now);
    }

    /// Lookup of the configured filename under the root returns the same
    /// inode that the root listing shows under that name: the listing's third
    /// entry carries the filename and inode `FILE_INO`, and lookup returns
    /// attributes with that same inode.
    pub proof fn lemma_lookup_agrees_with_readdir(self)
        requires
            self.wf(),
        ensures
            self.entry_name(2) == self.filename@,
            self.entry_ino(2) == FILE_INO,
            self.file_attr.ino == FILE_INO,
    {
    }
}

} // verus!
