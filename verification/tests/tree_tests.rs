use otpfs::tree::{AuthUserPass, FileKind, FsError, FILE_INO, ROOT_INO};
use totp_lite::{totp_custom, Sha1};

const KEY: &[u8] = b"12345678901234567890";

fn handler() -> AuthUserPass {
    let secret = koibumi_base32::encode(KEY);
    AuthUserPass::new(
        b"auth.txt".to_vec(),
        b"alice".to_vec(),
        secret.into_bytes(),
        1000,
    )
    .expect("valid secret")
}

#[test]
fn new_rejects_bad_secret() {
    let r = AuthUserPass::new(b"f".to_vec(), b"u".to_vec(), b"not base32!".to_vec(), 0);
    assert!(r.is_err());
}

#[test]
fn getattr_root_and_file() {
    let fs = handler();
    let root = fs.getattr(ROOT_INO).unwrap();
    assert_eq!(root.ino, ROOT_INO);
    assert_eq!(root.kind, FileKind::Directory);
    assert_eq!(root.perm, 0o755);
    assert_eq!(root.nlink, 2);

    let file = fs.getattr(FILE_INO).unwrap();
    assert_eq!(file.ino, FILE_INO);
    assert_eq!(file.kind, FileKind::RegularFile);
    // "alice" + newline + 6 digits + newline
    assert_eq!(file.size, 5 + 6 + 2);
    assert_eq!(file.atime, 1000);
}

#[test]
fn getattr_unknown_inode_fails() {
    let fs = handler();
    assert_eq!(fs.getattr(0), Err(FsError::NotFound));
    assert_eq!(fs.getattr(3), Err(FsError::NotFound));
    assert_eq!(fs.getattr(u64::MAX), Err(FsError::NotFound));
}

#[test]
fn lookup_finds_only_the_configured_name() {
    let fs = handler();
    let attr = fs.lookup(ROOT_INO, b"auth.txt").unwrap();
    assert_eq!(attr.ino, FILE_INO);
    assert_eq!(fs.lookup(ROOT_INO, b"other.txt"), Err(FsError::NotFound));
    assert_eq!(fs.lookup(ROOT_INO, b""), Err(FsError::NotFound));
    assert_eq!(fs.lookup(FILE_INO, b"auth.txt"), Err(FsError::NotFound));
    assert_eq!(fs.lookup(9, b"auth.txt"), Err(FsError::NotFound));
}

#[test]
fn readdir_lists_three_fixed_entries() {
    let fs = handler();
    let es = fs.readdir(ROOT_INO, 0).unwrap();
    assert_eq!(es.len(), 3);
    assert_eq!(es[0].ino, ROOT_INO);
    assert_eq!(es[0].kind, FileKind::Directory);
    assert_eq!(es[0].name, b".".to_vec());
    assert_eq!(es[0].next_offset, 1);
    assert_eq!(es[1].ino, ROOT_INO);
    assert_eq!(es[1].kind, FileKind::Directory);
    assert_eq!(es[1].name, b"..".to_vec());
    assert_eq!(es[1].next_offset, 2);
    assert_eq!(es[2].ino, FILE_INO);
    assert_eq!(es[2].kind, FileKind::RegularFile);
    assert_eq!(es[2].name, b"auth.txt".to_vec());
    assert_eq!(es[2].next_offset, 3);
}

#[test]
fn readdir_resumes_from_offsets() {
    let fs = handler();
    assert_eq!(fs.readdir(ROOT_INO, 0).unwrap().len(), 3);
    let from1 = fs.readdir(ROOT_INO, 1).unwrap();
    assert_eq!(from1.len(), 2);
    assert_eq!(from1[0].name, b"..".to_vec());
    let from2 = fs.readdir(ROOT_INO, 2).unwrap();
    assert_eq!(from2.len(), 1);
    assert_eq!(from2[0].name, b"auth.txt".to_vec());
    assert!(fs.readdir(ROOT_INO, 3).unwrap().is_empty());
    assert!(fs.readdir(ROOT_INO, 4).unwrap().is_empty());
    assert!(fs.readdir(ROOT_INO, u64::MAX).unwrap().is_empty());
}

#[test]
fn readdir_on_non_directory_fails() {
    let fs = handler();
    assert!(fs.readdir(FILE_INO, 0).is_err());
    assert!(fs.readdir(5, 0).is_err());
}

#[test]
fn lookup_agrees_with_readdir() {
    let fs = handler();
    let es = fs.readdir(ROOT_INO, 0).unwrap();
    let listed = es.iter().find(|e| e.name == b"auth.txt".to_vec()).unwrap();
    let attr = fs.lookup(ROOT_INO, b"auth.txt").unwrap();
    assert_eq!(listed.ino, attr.ino);
}

#[test]
fn full_read_has_exactly_the_reported_size() {
    let fs = handler();
    let size = fs.getattr(FILE_INO).unwrap().size;
    let data = fs.read(FILE_INO, 0, 59).unwrap();
    assert_eq!(data.len() as u64, size);
}

#[test]
fn read_suffixes_and_past_end() {
    let fs = handler();
    let full = fs.read(FILE_INO, 0, 59).unwrap();
    let size = full.len() as u64;
    for offset in 1..size {
        let part = fs.read(FILE_INO, offset, 59).unwrap();
        assert_eq!(part, full[offset as usize..].to_vec());
    }
    assert!(fs.read(FILE_INO, size, 59).unwrap().is_empty());
    assert!(fs.read(FILE_INO, size + 1, 59).unwrap().is_empty());
    assert!(fs.read(FILE_INO, u64::MAX, 59).unwrap().is_empty());
}

#[test]
fn read_on_unknown_inode_fails() {
    let fs = handler();
    assert_eq!(fs.read(ROOT_INO, 0, 59), Err(FsError::NotFound));
    assert_eq!(fs.read(17, 0, 59), Err(FsError::NotFound));
}

#[test]
fn end_to_end_content() {
    // Mount with filename "auth.txt", username "alice" and a valid base32
    // secret; the whole file reads as "alice\n######\n" where the digits are
    // the 30-second-windowed code of the decoded secret at read time.
    let fs = handler();
    let t: u64 = 59;
    let data = fs.read(FILE_INO, 0, t).unwrap();
    assert_eq!(data, b"alice\n287082\n".to_vec());
    let expected = format!("alice\n{}\n", totp_custom::<Sha1>(30, 6, KEY, t));
    assert_eq!(data, expected.into_bytes());
}
