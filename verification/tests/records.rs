use compiledfiles::normalize::{add_record, holds_record, normalize};
use compiledfiles::paths::{append_bytes, owned_bytes, path_is_absolute, path_push};
use compiledfiles::record::{bytes_eq, bytes_le};
use compiledfiles::{FileCheckSum, FileInfo};

fn plain(path: &str) -> FileInfo {
    FileInfo { path: path.as_bytes().to_vec(), size: None, timestamp: None, checksum: None }
}

fn sized(path: &str, size: u64) -> FileInfo {
    FileInfo { path: path.as_bytes().to_vec(), size: Some(size), timestamp: None, checksum: None }
}

#[test]
fn it_works() {
    assert_eq!(2 + 2, 4);
}

#[test]
fn bytes_le_is_lexicographic() {
    assert!(bytes_le(b"", b""));
    assert!(bytes_le(b"", b"a"));
    assert!(!bytes_le(b"a", b""));
    assert!(bytes_le(b"a", b"a"));
    assert!(bytes_le(b"a", b"ab"));
    assert!(!bytes_le(b"ab", b"a"));
    assert!(bytes_le(b"ab", b"b"));
    assert!(!bytes_le(b"b", b"ab"));
    assert!(bytes_le(b"/src/a.c", b"/src/b.c"));
    assert!(!bytes_le(&[200u8], &[100u8]));
}

#[test]
fn bytes_eq_compares_all_bytes() {
    assert!(bytes_eq(b"", b""));
    assert!(bytes_eq(b"abc", b"abc"));
    assert!(!bytes_eq(b"abc", b"abd"));
    assert!(!bytes_eq(b"abc", b"ab"));
}

#[test]
fn same_needs_all_four_fields() {
    let a = FileInfo {
        path: b"/a.c".to_vec(),
        size: Some(3),
        timestamp: Some(9),
        checksum: Some(FileCheckSum::Md5([7u8; 16])),
    };
    let mut b = a.clone();
    assert!(a.same(&b));
    b.size = Some(4);
    assert!(!a.same(&b));
    b = a.clone();
    b.timestamp = None;
    assert!(!a.same(&b));
    b = a.clone();
    b.checksum = Some(FileCheckSum::Md5([8u8; 16]));
    assert!(!a.same(&b));
    b = a.clone();
    b.path = b"/b.c".to_vec();
    assert!(!a.same(&b));
}

#[test]
fn checksums_of_different_algorithms_differ() {
    let md5 = FileCheckSum::Md5([0u8; 16]);
    let sha1 = FileCheckSum::Sha1([0u8; 20]);
    let sha256 = FileCheckSum::Sha256([0u8; 32]);
    assert!(md5.same(&FileCheckSum::Md5([0u8; 16])));
    assert!(!md5.same(&sha1));
    assert!(!sha1.same(&sha256));
    assert!(sha256.same(&FileCheckSum::Sha256([0u8; 32])));
    assert_eq!(md5.digest().len(), 16);
    assert_eq!(sha1.digest().len(), 20);
    assert_eq!(sha256.digest(), &[0u8; 32][..]);
}

#[test]
fn path_le_looks_at_the_path_alone() {
    let a = sized("/a.c", 100);
    let b = sized("/a.c", 1);
    assert!(a.path_le(&b));
    assert!(b.path_le(&a));
    assert!(a.path_le(&plain("/b.c")));
    assert!(!plain("/b.c").path_le(&a));
}

#[test]
fn normalize_sorts_by_path() {
    let out = normalize(vec![plain("/c.c"), plain("/a.c"), plain("/b.c")]);
    assert_eq!(out, vec![plain("/a.c"), plain("/b.c"), plain("/c.c")]);
    for w in out.windows(2) {
        assert!(w[0].path <= w[1].path);
    }
}

#[test]
fn normalize_of_nothing_is_nothing() {
    assert_eq!(normalize(Vec::new()), Vec::<FileInfo>::new());
}

#[test]
fn normalize_removes_exact_duplicates() {
    let out = normalize(vec![plain("/a.c"), plain("/b.c"), plain("/a.c"), plain("/a.c")]);
    assert_eq!(out, vec![plain("/a.c"), plain("/b.c")]);
}

#[test]
fn normalize_keeps_records_that_share_a_path() {
    let out = normalize(vec![sized("/a.c", 2), plain("/b.c"), sized("/a.c", 1)]);
    assert_eq!(out, vec![sized("/a.c", 2), sized("/a.c", 1), plain("/b.c")]);
}

#[test]
fn normalize_removes_duplicates_that_are_not_neighbours() {
    let out = normalize(vec![sized("/a.c", 1), sized("/a.c", 2), sized("/a.c", 1)]);
    assert_eq!(out, vec![sized("/a.c", 2), sized("/a.c", 1)]);
    for i in 0..out.len() {
        for j in (i + 1)..out.len() {
            assert_ne!(out[i], out[j]);
        }
    }
}

#[test]
fn normalize_twice_is_normalize_once() {
    let input = vec![plain("/z.c"), sized("/a.c", 1), plain("/m.c"), sized("/a.c", 1), plain("/a.c")];
    let once = normalize(input.clone());
    let twice = normalize(once.clone());
    assert_eq!(once, twice);
    assert_eq!(normalize(input), once);
}

#[test]
fn add_record_inserts_in_order() {
    let mut files = vec![plain("/a.c"), plain("/c.c")];
    add_record(&mut files, plain("/b.c"));
    assert_eq!(files, vec![plain("/a.c"), plain("/b.c"), plain("/c.c")]);
    add_record(&mut files, plain("/b.c"));
    assert_eq!(files.len(), 3);
    add_record(&mut files, plain("/d.c"));
    assert_eq!(files[3], plain("/d.c"));
    assert!(holds_record(&files, &plain("/d.c")));
    assert!(!holds_record(&files, &sized("/d.c", 1)));
}

#[test]
fn path_push_joins_with_a_separator() {
    let mut p = b"/usr/src".to_vec();
    path_push(&mut p, b"hello.c");
    assert_eq!(p, b"/usr/src/hello.c".to_vec());
}

#[test]
fn path_push_adds_no_second_separator() {
    let mut p = b"/usr/src/".to_vec();
    path_push(&mut p, b"hello.c");
    assert_eq!(p, b"/usr/src/hello.c".to_vec());
}

#[test]
fn path_push_of_an_absolute_path_replaces() {
    let mut p = b"/usr/src".to_vec();
    path_push(&mut p, b"/tmp/x.c");
    assert_eq!(p, b"/tmp/x.c".to_vec());
}

#[test]
fn path_push_on_the_empty_path() {
    let mut p: Vec<u8> = Vec::new();
    path_push(&mut p, b"x.c");
    assert_eq!(p, b"x.c".to_vec());
    let mut q = b"/a".to_vec();
    path_push(&mut q, b"");
    assert_eq!(q, b"/a/".to_vec());
}

#[test]
fn absolute_paths_start_at_the_root() {
    assert!(path_is_absolute(b"/a"));
    assert!(!path_is_absolute(b"a/b"));
    assert!(!path_is_absolute(b""));
}

#[test]
fn bytes_are_copied_and_appended() {
    assert_eq!(owned_bytes(b"abc"), b"abc".to_vec());
    let mut v = b"ab".to_vec();
    append_bytes(&mut v, b"cd");
    assert_eq!(v, b"abcd".to_vec());
}

#[test]
fn records_are_ordered_by_path_and_equal_by_all_fields() {
    let a = sized("/a.c", 100);
    let b = sized("/a.c", 1);
    assert_eq!(a.partial_cmp(&b), Some(std::cmp::Ordering::Equal));
    assert!(a != b);
    assert!(a == sized("/a.c", 100));
    assert!(a < plain("/b.c"));
    assert!(plain("/b.c") > a);
    assert_eq!(plain("/b.c").partial_cmp(&a), Some(std::cmp::Ordering::Greater));
    assert_eq!(plain("/a").partial_cmp(&plain("/a/b")), Some(std::cmp::Ordering::Less));
    assert!(FileCheckSum::Md5([1u8; 16]) == FileCheckSum::Md5([1u8; 16]));
    assert!(FileCheckSum::Md5([1u8; 16]) != FileCheckSum::Md5([2u8; 16]));
}
