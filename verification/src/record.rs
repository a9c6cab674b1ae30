//! The record of one source file, its mathematical view, and the order of
//! paths.

use vstd::prelude::*;

verus! {

/// Checksum of a source file's content, as the compiler recorded it.
#[derive(Debug, Clone, Eq)]
pub enum FileCheckSum {
    Md5([u8; 16]),
    Sha1([u8; 20]),
    Sha256([u8; 32]),
}

/// What a `FileCheckSum` is: the algorithm and the digest's bytes.
pub enum CheckSumView {
    Md5(Seq<u8>),
    Sha1(Seq<u8>),
    Sha256(Seq<u8>),
}

/// Information stored for one source file. Only the path is required.
#[derive(Debug, Clone, Eq)]
pub struct FileInfo {
    /// Recorded path to the source file, as the bytes that the debug
    /// information holds. Paths are compared and ordered byte by byte, not
    /// by their components: `a//b` and `a/b` are two paths, and `x/t.h`
    /// comes before `x/t/F.h` because `.` is smaller than `/`.
    pub path: Vec<u8>,
    /// Size of the source file in bytes.
    pub size: Option<u64>,
    /// Last modified time of the source file, in seconds since the epoch.
    pub timestamp: Option<u64>,
    /// Checksum of the source file.
    pub checksum: Option<FileCheckSum>,
}

/// What a `FileInfo` is: its four fields as plain values.
pub struct FileInfoView {
    pub path: Seq<u8>,
    pub size: Option<u64>,
    pub timestamp: Option<u64>,
    pub checksum: Option<CheckSumView>,
}

impl View for FileCheckSum {
    type V = CheckSumView;

    open spec fn view(&self) -> CheckSumView {
        match self {
            FileCheckSum::Md5(d) => CheckSumView::Md5(d@),
            FileCheckSum::Sha1(d) => CheckSumView::Sha1(d@),
            FileCheckSum::Sha256(d) => CheckSumView::Sha256(d@),
        }
    }
}

impl View for FileInfo {
    type V = FileInfoView;

    open spec fn view(&self) -> FileInfoView {
        FileInfoView {
            path: self.path@,
            size: self.size,
            timestamp: self.timestamp,
            checksum: match self.checksum {
                Some(c) => Some(c@),
                None => None,
            },
        }
    }
}

/// The views of a list of records, in the list's order.
pub open spec fn views(files: Seq<FileInfo>) -> Seq<FileInfoView> {
    files.map_values(|f: FileInfo| f@)
}

/// Lexicographic order on byte strings: `a` comes no later than `b`. This is
/// the order of paths, taken as raw bytes; separators get no special place.
pub open spec fn lex_le(a: Seq<u8>, b: Seq<u8>) -> bool
    decreases a.len(),
{
    if a.len() == 0 {
        true
    } else if b.len() == 0 {
        false
    } else if a[0] != b[0] {
        a[0] < b[0]
    } else {
        lex_le(a.drop_first(), b.drop_first())
    }
}

/// Any two byte strings are ordered one way or the other.
pub proof fn lemma_lex_le_total(a: Seq<u8>, b: Seq<u8>)
    ensures
        lex_le(a, b) || lex_le(b, a),
    decreases a.len(),
{
    if a.len() > 0 && b.len() > 0 && a[0] == b[0] {
        lemma_lex_le_total(a.drop_first(), b.drop_first());
    }
}

/// The order is transitive.
pub proof fn lemma_lex_le_transitive(a: Seq<u8>, b: Seq<u8>, c: Seq<u8>)
    requires
        lex_le(a, b),
        lex_le(b, c),
    ensures
        lex_le(a, c),
    decreases a.len(),
{
    if a.len() > 0 && b.len() > 0 && c.len() > 0 && a[0] == b[0] && b[0] == c[0] {
        lemma_lex_le_transitive(a.drop_first(), b.drop_first(), c.drop_first());
    }
}

/// The order is reflexive.
pub proof fn lemma_lex_le_reflexive(a: Seq<u8>)
    ensures
        lex_le(a, a),
    decreases a.len(),
{
    if a.len() > 0 {
        lemma_lex_le_reflexive(a.drop_first());
    }
}

/// Two byte strings that are ordered both ways are equal.
pub proof fn lemma_lex_le_antisymmetric(a: Seq<u8>, b: Seq<u8>)
    requires
        lex_le(a, b),
        lex_le(b, a),
    ensures
        a == b,
    decreases a.len(),
{
    if a.len() > 0 && b.len() > 0 {
        lemma_lex_le_antisymmetric(a.drop_first(), b.drop_first());
        assert(a =~= seq![a[0]] + a.drop_first());
        assert(b =~= seq![b[0]] + b.drop_first());
    } else {
        assert(a =~= b);
    }
}

/// What is left of `a` and `b` from `i` on decides their order when they agree
/// before `i`.
proof fn lemma_lex_le_skip(a: Seq<u8>, b: Seq<u8>, i: int)
    requires
        0 <= i <= a.len(),
        i <= b.len(),
        forall|k: int| 0 <= k < i ==> a[k] == b[k],
    ensures
        lex_le(a, b) == lex_le(a.skip(i), b.skip(i)),
    decreases i,
{
    if i == 0 {
        assert(a.skip(0) =~= a);
        assert(b.skip(0) =~= b);
    } else {
        lemma_lex_le_skip(a, b, i - 1);
        let x = a.skip(i - 1);
        let y = b.skip(i - 1);
        assert(x[0] == y[0]);
        assert(x.drop_first() =~= a.skip(i));
        assert(y.drop_first() =~= b.skip(i));
    }
}

/// Whether `a` comes no later than `b` in lexicographic order.
pub fn bytes_le(a: &[u8], b: &[u8]) -> (r: bool)
    ensures
        r == lex_le(a@, b@),
{
    let mut i: usize = 0;
    while i < a.len() && i < b.len()
        invariant
            i <= a.len(),
            i <= b.len(),
            forall|k: int| 0 <= k < i ==> a@[k] == b@[k],
        decreases a.len() - i,
    {
        if a[i] != b[i] {
            proof {
                lemma_lex_le_skip(a@, b@, i as int);
            }
            return a[i] < b[i];
        }
        i += 1;
    }
    proof {
        lemma_lex_le_skip(a@, b@, i as int);
    }
    i == a.len()
}

/// Whether two byte strings are the same.
pub fn bytes_eq(a: &[u8], b: &[u8]) -> (r: bool)
    ensures
        r == (a@ == b@),
{
    if a.len() != b.len() {
        return false;
    }
    let mut i: usize = 0;
    while i < a.len()
        invariant
            i <= a.len(),
            a.len() == b.len(),
            forall|k: int| 0 <= k < i ==> a@[k] == b@[k],
        decreases a.len() - i,
    {
        if a[i] != b[i] {
            return false;
        }
        i += 1;
    }
    assert(a@ =~= b@);
    true
}

fn opt_u64_eq(a: Option<u64>, b: Option<u64>) -> (r: bool)
    ensures
        r == (a == b),
{
    match (a, b) {
        (Some(x), Some(y)) => x == y,
        (None, None) => true,
        _ => false,
    }
}

impl FileCheckSum {
    /// The digest's bytes, whatever the algorithm.
    pub open spec fn digest_bytes(&self) -> Seq<u8> {
        match self {
            FileCheckSum::Md5(d) => d@,
            FileCheckSum::Sha1(d) => d@,
            FileCheckSum::Sha256(d) => d@,
        }
    }

    /// The digest's bytes.
    pub fn digest(&self) -> (r: &[u8])
        ensures
            r@ == self.digest_bytes(),
    {
        match self {
            FileCheckSum::Md5(d) => d.as_slice(),
            FileCheckSum::Sha1(d) => d.as_slice(),
            FileCheckSum::Sha256(d) => d.as_slice(),
        }
    }

    /// Whether two checksums name the same algorithm and hold the same digest.
    pub fn same(&self, other: &FileCheckSum) -> (r: bool)
        ensures
            r == (self@ == other@),
    {
        match (self, other) {
            (FileCheckSum::Md5(a), FileCheckSum::Md5(b)) => bytes_eq(a.as_slice(), b.as_slice()),
            (FileCheckSum::Sha1(a), FileCheckSum::Sha1(b)) => bytes_eq(a.as_slice(), b.as_slice()),
            (FileCheckSum::Sha256(a), FileCheckSum::Sha256(b)) => bytes_eq(
                a.as_slice(),
                b.as_slice(),
            ),
            _ => false,
        }
    }
}

impl FileInfo {
    /// Whether two records agree on all four fields.
    pub fn same(&self, other: &FileInfo) -> (r: bool)
        ensures
            r == (self@ == other@),
    {
        let checksums = match (&self.checksum, &other.checksum) {
            (Some(a), Some(b)) => a.same(b),
            (None, None) => true,
            _ => false,
        };
        checksums && opt_u64_eq(self.size, other.size) && opt_u64_eq(
            self.timestamp,
            other.timestamp,
        ) && bytes_eq(self.path.as_slice(), other.path.as_slice())
    }

    /// Whether this record's path comes no later than the other's. Records
    /// are ordered by their paths alone.
    pub fn path_le(&self, other: &FileInfo) -> (r: bool)
        ensures
            r == lex_le(self@.path, other@.path),
    {
        bytes_le(self.path.as_slice(), other.path.as_slice())
    }
}

} // verus!
