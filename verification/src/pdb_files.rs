//! The file table of a PDB container: its modules' line programs name the
//! source files, each with an optional checksum.

use vstd::prelude::*;
use pdb::FallibleIterator;
use crate::error::ParseError;
use crate::normalize::{
    all_records, lemma_normalized_all, no_full_duplicates, normalize, normalized, sorted_by_path,
};
use crate::record::{views, CheckSumView, FileCheckSum, FileInfo, FileInfoView};

verus! {

/// An opened PDB container.
#[verifier::external_type_specification]
#[verifier::external_body]
#[verifier::reject_recursive_types(S)]
pub struct ExPdb<'s, S>(pdb::PDB<'s, S>);

/// A reading position over bytes in memory.
#[verifier::external_type_specification]
#[verifier::external_body]
#[verifier::reject_recursive_types(T)]
pub struct ExCursor<T>(std::io::Cursor<T>);

/// The global debug information stream of a PDB container.
#[verifier::external_type_specification]
#[verifier::external_body]
pub struct ExDebugInformation<'s>(pdb::DebugInformation<'s>);

/// The global string table of a PDB container.
#[verifier::external_type_specification]
#[verifier::external_body]
pub struct ExStringTable<'s>(pdb::StringTable<'s>);

/// One module of a PDB container.
#[verifier::external_type_specification]
#[verifier::external_body]
pub struct ExModule<'m>(pdb::Module<'m>);

/// The debug information of one module.
#[verifier::external_type_specification]
#[verifier::external_body]
pub struct ExModuleInfo<'s>(pdb::ModuleInfo<'s>);

/// The line program of one module.
#[verifier::external_type_specification]
#[verifier::external_body]
pub struct ExLineProgram<'a>(pdb::LineProgram<'a>);

/// The checksum algorithm that a file entry declares.
#[derive(Debug, Clone, Copy, PartialEq, Eq, Structural)]
pub enum ChecksumKind {
    Absent,
    Md5,
    Sha1,
    Sha256,
}

/// One entry of a module's file table, as plain values.
#[derive(Debug, Clone, PartialEq, Eq)]
pub struct PdbFileEntry {
    /// Where the file's name stands in the string table.
    pub name: u32,
    /// The declared checksum algorithm.
    pub checksum_kind: ChecksumKind,
    /// The checksum's bytes; empty where none is declared.
    pub checksum: Vec<u8>,
}

/// The checksum of a file entry: the variant that the declared algorithm
/// names, when the digest has that algorithm's width; none otherwise.
pub open spec fn pdb_checksum(kind: ChecksumKind, data: Seq<u8>) -> Option<CheckSumView> {
    match kind {
        ChecksumKind::Md5 if data.len() == 16 => Some(CheckSumView::Md5(data)),
        ChecksumKind::Sha1 if data.len() == 20 => Some(CheckSumView::Sha1(data)),
        ChecksumKind::Sha256 if data.len() == 32 => Some(CheckSumView::Sha256(data)),
        _ => None,
    }
}

/// The record of a file entry: its resolved name as the path, no size, no
/// timestamp, and its checksum.
pub open spec fn pdb_record_view(name: Seq<u8>, kind: ChecksumKind, data: Seq<u8>) -> FileInfoView {
    FileInfoView { path: name, size: None, timestamp: None, checksum: pdb_checksum(kind, data) }
}

/// The shape of every record of a PDB file table: neither size nor
/// timestamp, and a checksum, if any, of its algorithm's width.
pub open spec fn is_pdb_record(r: FileInfoView) -> bool {
    &&& r.size is None
    &&& r.timestamp is None
    &&& r.checksum matches Some(c) ==> match c {
        CheckSumView::Md5(d) => d.len() == 16,
        CheckSumView::Sha1(d) => d.len() == 20,
        CheckSumView::Sha256(d) => d.len() == 32,
    }
}

/// Whether a digest of `len` bytes has the width of the declared algorithm.
/// Where no checksum is declared any bytes are ignored.
pub open spec fn width_fits(kind: ChecksumKind, len: nat) -> bool {
    match kind {
        ChecksumKind::Absent => true,
        ChecksumKind::Md5 => len == 16,
        ChecksumKind::Sha1 => len == 20,
        ChecksumKind::Sha256 => len == 32,
    }
}

/// Tests whether a digest has the width of the declared algorithm.
pub fn checksum_width_fits(kind: ChecksumKind, len: usize) -> (r: bool)
    ensures
        r == width_fits(kind, len as nat),
{
    match kind {
        ChecksumKind::Absent => true,
        ChecksumKind::Md5 => len == 16,
        ChecksumKind::Sha1 => len == 20,
        ChecksumKind::Sha256 => len == 32,
    }
}

fn digest_array<const N: usize>(data: &[u8]) -> (r: [u8; N])
    requires
        data@.len() == N,
    ensures
        r@ == data@,
{
    let mut r: [u8; N] = vstd::array::array_fill_for_copy_types(0u8);
    let mut i: usize = 0;
    while i < N
        invariant
            i <= N,
            data@.len() == N,
            r@.len() == N,
            forall|k: int| 0 <= k < i ==> r@[k] == data@[k],
        decreases N - i,
    {
        r[i] = data[i];
        i += 1;
    }
    assert(r@ =~= data@);
    r
}

/// Turns a file entry's declared checksum into a checksum of fixed width.
pub fn convert_pdb_checksum_to_checksum(kind: ChecksumKind, data: &[u8]) -> (r: Option<
    FileCheckSum,
>)
    requires
        width_fits(kind, data@.len()),
    ensures
        match r {
            Some(c) => Some(c@),
            None => None,
        } == pdb_checksum(kind, data@),
{
    match kind {
        ChecksumKind::Md5 => if data.len() == 16 {
            Some(FileCheckSum::Md5(digest_array::<16>(data)))
        } else {
            None
        },
        ChecksumKind::Sha1 => if data.len() == 20 {
            Some(FileCheckSum::Sha1(digest_array::<20>(data)))
        } else {
            None
        },
        ChecksumKind::Sha256 => if data.len() == 32 {
            Some(FileCheckSum::Sha256(digest_array::<32>(data)))
        } else {
            None
        },
        ChecksumKind::Absent => None,
    }
}

/// Builds the record of a file entry from its resolved name and its declared
/// checksum.
pub fn pdb_record(name: Vec<u8>, kind: ChecksumKind, data: &[u8]) -> (r: FileInfo)
    requires
        width_fits(kind, data@.len()),
    ensures
        r@ == pdb_record_view(name@, kind, data@),
        is_pdb_record(r@),
{
    FileInfo {
        path: name,
        size: None,
        timestamp: None,
        checksum: convert_pdb_checksum_to_checksum(kind, data),
    }
}

/// What `pdb::PDB::open` makes of the bytes: `Ok` where it opens them as a
/// PDB container, `Err(true)` where it fails with `UnrecognizedFileFormat`,
/// the signal that they are no PDB container at all, and `Err(false)` where
/// it fails in another way.
pub uninterp spec fn pdb_open_result(contents: Seq<u8>) -> Result<(), bool>;

/// Calls `pdb::PDB::open` on the bytes. The contract gives the outcome its
/// name, `pdb_open_result`: the call reads nothing but the bytes. A failure
/// comes with the mark that tells `UnrecognizedFileFormat` from the reader's
/// other errors.
#[verifier::external_body]
pub(crate) fn pdb_open<'a>(contents: &'a [u8]) -> (r: Result<
    pdb::PDB<'a, std::io::Cursor<&'a [u8]>>,
    (bool, pdb::Error),
>)
    ensures
        pdb_open_result(contents@) == match r {
            Ok(_) => Ok::<(), bool>(()),
            Err(e) => Err::<(), bool>(e.0),
        },
        r matches Ok(opened) ==> pdb_source(opened) == contents@,
{
    pdb::PDB::open(std::io::Cursor::new(contents)).map_err(
        |e| (matches!(e, pdb::Error::UnrecognizedFileFormat), e),
    )
}

/// The bytes that an opened container was opened on.
pub uninterp spec fn pdb_source(pdb: pdb::PDB<std::io::Cursor<&[u8]>>) -> Seq<u8>;

/// The bytes of the container that a debug information stream came of.
pub uninterp spec fn dbi_source(dbi: pdb::DebugInformation) -> Seq<u8>;

/// The bytes of the container that a string table came of.
pub uninterp spec fn table_source(table: pdb::StringTable) -> Seq<u8>;

/// The bytes of the container that a module came of, and the module's place
/// in the container's list of modules.
pub uninterp spec fn module_origin(module: pdb::Module) -> (Seq<u8>, nat);

/// The same for the debug information of a module.
pub uninterp spec fn info_origin(info: pdb::ModuleInfo) -> (Seq<u8>, nat);

/// The same for the line program of a module.
pub uninterp spec fn program_origin(program: pdb::LineProgram) -> (Seq<u8>, nat);

/// Whether `PDB::debug_information` succeeds on the container of these bytes.
pub uninterp spec fn pdb_dbi_loads(contents: Seq<u8>) -> bool;

/// Whether `PDB::string_table` succeeds on the container of these bytes.
pub uninterp spec fn pdb_strings_load(contents: Seq<u8>) -> bool;

/// How many modules `DebugInformation::modules` hands out on the container
/// of these bytes; none where the list cannot be read to its end.
pub uninterp spec fn pdb_module_count(contents: Seq<u8>) -> Option<nat>;

/// What `PDB::module_info` gives for the module at a place: none where it
/// fails, else whether the module has debug information.
pub uninterp spec fn pdb_module_has_info(contents: Seq<u8>, module: nat) -> Option<bool>;

/// Whether `ModuleInfo::line_program` succeeds for the module at a place.
pub uninterp spec fn pdb_program_loads(contents: Seq<u8>, module: nat) -> bool;

/// The entries that `LineProgram::files` hands out for the module at a place,
/// each as the name's place in the string table, the declared algorithm and
/// the digest; none where the table cannot be read to its end.
pub uninterp spec fn pdb_module_files(contents: Seq<u8>, module: nat) -> Option<
    Seq<(u32, ChecksumKind, Seq<u8>)>,
>;

/// The string that `StringRef::to_raw_string` finds at a place of the string
/// table; none where it fails.
pub uninterp spec fn pdb_name(contents: Seq<u8>, name: u32) -> Option<Seq<u8>>;

/// What `PDB::raw_stream` gives for a stream's number: none where it fails,
/// else the stream's bytes, if the number names a stream.
pub uninterp spec fn pdb_stream(contents: Seq<u8>, index: u16) -> Option<Option<Seq<u8>>>;

/// The entries of a list, each as the plain values that the names speak of.
pub open spec fn entry_views(entries: Seq<PdbFileEntry>) -> Seq<(u32, ChecksumKind, Seq<u8>)> {
    entries.map_values(|e: PdbFileEntry| (e.name, e.checksum_kind, e.checksum@))
}

/// The number of the stream that holds the debug information.
pub const DBI_STREAM: u16 = 3;

/// What the record of a module in the debug information stream declares of
/// the module's own stream.
#[derive(Debug, Clone, Copy, PartialEq, Eq, Structural)]
pub struct ModuleSizes {
    /// The number of the module's stream.
    pub stream: u16,
    /// The size of the symbols at the start of the stream.
    pub symbols_size: u32,
    /// The size of line information in the old format.
    pub lines_size: u32,
    /// The size of line information in the current format.
    pub c13_lines_size: u32,
}

/// The number that two bytes at `at` hold, low byte first.
pub open spec fn le16(b: Seq<u8>, at: int) -> int {
    b[at] + 256 * b[at + 1]
}

/// The number that four bytes at `at` hold, low byte first.
pub open spec fn le32(b: Seq<u8>, at: int) -> int {
    b[at] + 256 * b[at + 1] + 65536 * b[at + 2] + 16777216 * b[at + 3]
}

/// The place of the first zero byte from `from` on and before `end`, or
/// `end` where there is none.
pub open spec fn first_zero(b: Seq<u8>, from: int, end: int) -> int
    decreases end - from,
{
    if from >= end {
        end
    } else if b[from] == 0 {
        from
    } else {
        first_zero(b, from + 1, end)
    }
}

/// Where the record after the one at `at` begins: a record is 64 bytes, two
/// strings that each end in a zero byte, and padding to a multiple of four.
/// None where the list ends before the record does.
pub open spec fn next_module(b: Seq<u8>, at: int, end: int) -> Option<int> {
    if at + 64 > end {
        None
    } else {
        let first = first_zero(b, at + 64, end);
        if first >= end {
            None
        } else {
            let second = first_zero(b, first + 1, end);
            if second >= end {
                None
            } else {
                let next = second + 1 + (4 - (second + 1) % 4) % 4;
                if next > end {
                    None
                } else {
                    Some(next)
                }
            }
        }
    }
}

/// Where the record of the module at place `k` begins; the list of records
/// follows the stream's header of 64 bytes.
pub open spec fn module_offset(b: Seq<u8>, end: int, k: nat) -> Option<int>
    decreases k,
{
    if k == 0 {
        Some(64int)
    } else {
        match module_offset(b, end, (k - 1) as nat) {
            Some(at) => next_module(b, at, end),
            None => None,
        }
    }
}

/// What the debug information stream declares of the module at place `k`:
/// the sizes stand at fixed places of its record. None where the stream
/// holds no whole record at that place.
pub open spec fn module_sizes_spec(dbi: Seq<u8>, k: nat) -> Option<ModuleSizes> {
    if dbi.len() < 64 || 64 + le32(dbi, 24) > dbi.len() {
        None
    } else {
        let end = 64 + le32(dbi, 24);
        match module_offset(dbi, end, k) {
            Some(at) => if at + 64 <= end {
                Some(
                    ModuleSizes {
                        stream: le16(dbi, at + 34) as u16,
                        symbols_size: le32(dbi, at + 36) as u32,
                        lines_size: le32(dbi, at + 40) as u32,
                        c13_lines_size: le32(dbi, at + 44) as u32,
                    },
                )
            } else {
                None
            },
            None => None,
        }
    }
}

/// Whether the line information that a module declares lies within its
/// stream. Line information in the old format is never cut out.
pub open spec fn sizes_fit(sizes: ModuleSizes, stream_len: nat) -> bool {
    sizes.lines_size > 0 || sizes.symbols_size + sizes.c13_lines_size <= stream_len
}

/// Whether the module at place `m` declares line information that lies
/// within its stream, by the container's own streams.
pub open spec fn line_info_fits(contents: Seq<u8>, m: nat) -> bool {
    match pdb_stream(contents, DBI_STREAM) {
        Some(Some(dbi)) => match module_sizes_spec(dbi, m) {
            Some(sizes) => match pdb_stream(contents, sizes.stream) {
                Some(Some(stream)) => sizes_fit(sizes, stream.len()),
                _ => false,
            },
            None => false,
        },
        _ => false,
    }
}

fn read_le16(b: &[u8], at: usize) -> (r: u16)
    requires
        at + 2 <= b@.len(),
    ensures
        r == le16(b@, at as int),
{
    b[at] as u16 + 256 * (b[at + 1] as u16)
}

fn read_le32(b: &[u8], at: usize) -> (r: u32)
    requires
        at + 4 <= b@.len(),
    ensures
        r == le32(b@, at as int),
{
    b[at] as u32 + 256 * (b[at + 1] as u32) + 65536 * (b[at + 2] as u32) + 16777216 * (b[at
        + 3] as u32)
}

fn find_zero(b: &[u8], from: usize, end: usize) -> (r: usize)
    requires
        from <= end <= b@.len(),
    ensures
        r == first_zero(b@, from as int, end as int),
        from <= r <= end,
{
    let mut i: usize = from;
    while i < end && b[i] != 0
        invariant
            from <= i <= end <= b@.len(),
            first_zero(b@, from as int, end as int) == first_zero(b@, i as int, end as int),
        decreases end - i,
    {
        i += 1;
    }
    i
}

fn find_next_module(b: &[u8], at: usize, end: usize) -> (r: Option<usize>)
    requires
        at <= end <= b@.len(),
    ensures
        match r {
            Some(next) => next_module(b@, at as int, end as int) == Some(next as int) && at
                < next <= end,
            None => next_module(b@, at as int, end as int) is None,
        },
{
    if end - at < 64 {
        return None;
    }
    let first = find_zero(b, at + 64, end);
    if first >= end {
        return None;
    }
    let second = find_zero(b, first + 1, end);
    if second >= end {
        return None;
    }
    let pad: usize = (4 - (second + 1) % 4) % 4;
    if end - (second + 1) < pad {
        return None;
    }
    Some(second + 1 + pad)
}

/// Reads from the debug information stream what it declares of the module at
/// place `k`.
pub fn module_sizes(dbi: &[u8], k: usize) -> (r: Option<ModuleSizes>)
    ensures
        r == module_sizes_spec(dbi@, k as nat),
{
    if dbi.len() < 64 {
        return None;
    }
    let list: u64 = read_le32(dbi, 24) as u64;
    if 64 + list > dbi.len() as u64 {
        return None;
    }
    let end: usize = (64 + list) as usize;
    let mut at: usize = 64;
    let mut i: usize = 0;
    while i < k
        invariant
            i <= k,
            64 <= at <= end <= dbi@.len(),
            end as int == 64 + le32(dbi@, 24),
            module_offset(dbi@, end as int, i as nat) == Some(at as int),
        decreases k - i,
    {
        match find_next_module(dbi, at, end) {
            Some(next) => {
                at = next;
            },
            None => {
                proof {
                    assert(module_offset(dbi@, end as int, (i + 1) as nat) is None);
                    lemma_no_module_after(dbi@, end as int, (i + 1) as nat, k as nat);
                }
                return None;
            },
        }
        i += 1;
    }
    if end - at < 64 {
        return None;
    }
    Some(
        ModuleSizes {
            stream: read_le16(dbi, at + 34),
            symbols_size: read_le32(dbi, at + 36),
            lines_size: read_le32(dbi, at + 40),
            c13_lines_size: read_le32(dbi, at + 44),
        },
    )
}

/// Once the list of records has ended, no later place has a record.
proof fn lemma_no_module_after(b: Seq<u8>, end: int, i: nat, k: nat)
    requires
        module_offset(b, end, i) is None,
        i <= k,
    ensures
        module_offset(b, end, k) is None,
    decreases k,
{
    if i < k {
        lemma_no_module_after(b, end, i, (k - 1) as nat);
    }
}

/// The number of the stream that holds the container's information and
/// the map of its named streams.
pub const INFO_STREAM: u16 = 1;

/// Where the map of named streams stands in the information stream: the
/// size of the block of names, the number of entries that the map declares,
/// and the place of its first entry. The stream is 28 bytes of header, the
/// block's size in 4 bytes, the block, then the map: the number of entries,
/// a size, and two sets of words, each with its length before it. None
/// where the stream ends before the first entry.
pub open spec fn name_entries(info: Seq<u8>) -> Option<(int, int, int)> {
    if info.len() < 32 {
        None
    } else {
        let names_size = le32(info, 28);
        let map_at = 32 + names_size;
        if map_at + 12 > info.len() {
            None
        } else {
            let deleted_at = map_at + 12 + 4 * le32(info, map_at + 8);
            if deleted_at + 4 > info.len() {
                None
            } else {
                let entries_at = deleted_at + 4 + 4 * le32(info, deleted_at);
                if entries_at > info.len() {
                    None
                } else {
                    Some((names_size, le32(info, map_at), entries_at))
                }
            }
        }
    }
}

/// The place in the block of names that the entry at place `i` gives for
/// its name; an entry is 8 bytes.
pub open spec fn name_offset_at(info: Seq<u8>, entries_at: int, i: int) -> int {
    le32(info, entries_at + 8 * i)
}

/// Every one of `count` entries from `entries_at` on that lies within the
/// stream gives a place within a block of `names_size` bytes.
pub open spec fn offsets_fit(info: Seq<u8>, names_size: int, count: int, entries_at: int) -> bool {
    forall|i: int|
        0 <= i < count && entries_at + 8 * i + 8 <= info.len() ==> #[trigger] name_offset_at(
            info,
            entries_at,
            i,
        ) <= names_size
}

/// Every name offset of the map of named streams lies within the block of
/// names, as far as the map's entries lie within the stream.
pub open spec fn name_map_fits(info: Seq<u8>) -> bool {
    match name_entries(info) {
        None => true,
        Some(map) => offsets_fit(info, map.0, map.1, map.2),
    }
}

/// The information stream of the container loads and its map of named
/// streams points into the block of names.
pub open spec fn info_fits(contents: Seq<u8>) -> bool {
    pdb_stream(contents, INFO_STREAM) matches Some(Some(info)) && name_map_fits(info)
}

/// Tests whether every name offset of the map of named streams lies within
/// the block of names.
pub fn name_map_in_block(info: &[u8]) -> (r: bool)
    ensures
        r == name_map_fits(info@),
{
    let len: u64 = info.len() as u64;
    if len < 32 {
        return true;
    }
    let names_size: u64 = read_le32(info, 28) as u64;
    let map_at: u64 = 32 + names_size;
    if map_at + 12 > len {
        return true;
    }
    let count: u64 = read_le32(info, map_at as usize) as u64;
    let deleted_at: u64 = map_at + 12 + 4 * (read_le32(info, (map_at + 8) as usize) as u64);
    if deleted_at + 4 > len {
        return true;
    }
    let entries_at: u64 = deleted_at + 4 + 4 * (read_le32(info, deleted_at as usize) as u64);
    if entries_at > len {
        return true;
    }
    let left: u64 = len - entries_at;
    let mut i: u64 = 0;
    while i < count && 8 * i + 8 <= left
        invariant
            i <= count < 0x1_0000_0000,
            len == info@.len(),
            entries_at + left == len,
            name_entries(info@) == Some((names_size as int, count as int, entries_at as int)),
            forall|j: int|
                0 <= j < i ==> #[trigger] name_offset_at(info@, entries_at as int, j) <= names_size,
        decreases count - i,
    {
        assert(entries_at + 8 * i + 8 <= info.len());
        let at: usize = (entries_at + 8 * i) as usize;
        let offset = read_le32(info, at);
        assert(offset == name_offset_at(info@, entries_at as int, i as int));
        if offset as u64 > names_size {
            proof {
                let k = i as int;
                assert(0 <= k < count && entries_at + 8 * k + 8 <= info@.len());
                assert(!(name_offset_at(info@, entries_at as int, k) <= names_size));
                assert(!offsets_fit(info@, names_size as int, count as int, entries_at as int));
            }
            return false;
        }
        i += 1;
    }
    assert(offsets_fit(info@, names_size as int, count as int, entries_at as int));
    true
}

/// Tests whether the line information that a module declares lies within
/// its stream.
pub fn line_sizes_fit(sizes: &ModuleSizes, stream_len: usize) -> (r: bool)
    ensures
        r == sizes_fit(*sizes, stream_len as nat),
{
    sizes.lines_size > 0 || sizes.symbols_size as u64 + sizes.c13_lines_size as u64
        <= stream_len as u64
}

/// Makes the reader's error `UnexpectedEof`, for a container that declares
/// more than it holds.
#[verifier::external_body]
fn pdb_unexpected_eof() -> (r: pdb::Error) {
    pdb::Error::UnexpectedEof
}

/// Calls `PDB::debug_information`; whether it succeeds has the name
/// `pdb_dbi_loads` on the container's bytes.
#[verifier::external_body]
fn pdb_debug_information<'a>(pdb: &mut pdb::PDB<'a, std::io::Cursor<&'a [u8]>>) -> (r: Result<
    pdb::DebugInformation<'a>,
    pdb::Error,
>)
    ensures
        pdb_source(*final(pdb)) == pdb_source(*old(pdb)),
        r is Ok <==> pdb_dbi_loads(pdb_source(*old(pdb))),
        r matches Ok(dbi) ==> dbi_source(dbi) == pdb_source(*old(pdb)),
{
    pdb.debug_information()
}

/// Calls `PDB::string_table`; whether it succeeds has the name
/// `pdb_strings_load` on the container's bytes. The reader finds the table
/// through the map of named streams and cuts each name out of the block of
/// names at the place that the map gives, without a test: it does not
/// return where a place lies beyond the block. Such a container is left out
/// by `requires`.
#[verifier::external_body]
fn pdb_string_table<'a>(pdb: &mut pdb::PDB<'a, std::io::Cursor<&'a [u8]>>) -> (r: Result<
    pdb::StringTable<'a>,
    pdb::Error,
>)
    requires
        info_fits(pdb_source(*old(pdb))),
    ensures
        pdb_source(*final(pdb)) == pdb_source(*old(pdb)),
        r is Ok <==> pdb_strings_load(pdb_source(*old(pdb))),
        r matches Ok(table) ==> table_source(table) == pdb_source(*old(pdb)),
{
    pdb.string_table()
}

/// Calls `PDB::raw_stream` and copies the stream's bytes; the outcome has
/// the name `pdb_stream` on the container's bytes and the stream's number.
#[verifier::external_body]
fn pdb_raw_stream<'a>(pdb: &mut pdb::PDB<'a, std::io::Cursor<&'a [u8]>>, index: u16) -> (r:
    Result<Option<Vec<u8>>, pdb::Error>)
    ensures
        pdb_source(*final(pdb)) == pdb_source(*old(pdb)),
        pdb_stream(pdb_source(*old(pdb)), index) == match r {
            Ok(Some(bytes)) => Some(Some(bytes@)),
            Ok(None) => Some(None::<Seq<u8>>),
            Err(_) => None::<Option<Seq<u8>>>,
        },
{
    Ok(pdb.raw_stream(pdb::StreamIndex(index))?.map(|s| s.as_slice().to_vec()))
}

/// Calls `DebugInformation::modules` and collects what the iterator hands
/// out, in its order: the module at place `i` of the result is the module
/// at place `i` of the container, and their number has the name
/// `pdb_module_count`.
#[verifier::external_body]
fn pdb_modules<'d>(dbi: &'d pdb::DebugInformation<'_>) -> (r: Result<
    Vec<pdb::Module<'d>>,
    pdb::Error,
>)
    ensures
        pdb_module_count(dbi_source(*dbi)) == match r {
            Ok(modules) => Some(modules@.len()),
            Err(_) => None::<nat>,
        },
        r matches Ok(modules) ==> forall|i: int|
            0 <= i < modules@.len() ==> #[trigger] module_origin(modules@[i]) == (
                dbi_source(*dbi),
                i as nat,
            ),
{
    dbi.modules()?.collect()
}

/// Calls `PDB::module_info`; the outcome has the name `pdb_module_has_info`
/// on the container's bytes and the module's place.
#[verifier::external_body]
fn pdb_module_info<'a>(
    pdb: &mut pdb::PDB<'a, std::io::Cursor<&'a [u8]>>,
    module: &pdb::Module<'_>,
) -> (r: Result<Option<pdb::ModuleInfo<'a>>, pdb::Error>)
    requires
        module_origin(*module).0 == pdb_source(*old(pdb)),
    ensures
        pdb_source(*final(pdb)) == pdb_source(*old(pdb)),
        pdb_module_has_info(module_origin(*module).0, module_origin(*module).1) == match r {
            Ok(info) => Some(info is Some),
            Err(_) => None::<bool>,
        },
        r matches Ok(Some(info)) ==> info_origin(info) == module_origin(*module),
{
    pdb.module_info(module)
}

/// Calls `ModuleInfo::line_program`; whether it succeeds has the name
/// `pdb_program_loads`. The reader cuts the line information out of the
/// module's stream by the sizes that the module declares and does not
/// return where they reach beyond the stream: such a module is left out by
/// `requires`.
#[verifier::external_body]
fn pdb_line_program<'m>(info: &'m pdb::ModuleInfo<'_>) -> (r: Result<
    pdb::LineProgram<'m>,
    pdb::Error,
>)
    requires
        line_info_fits(info_origin(*info).0, info_origin(*info).1),
    ensures
        r is Ok <==> pdb_program_loads(info_origin(*info).0, info_origin(*info).1),
        r matches Ok(program) ==> program_origin(program) == info_origin(*info),
{
    info.line_program()
}

/// Calls `LineProgram::files` and collects what the iterator hands out, in
/// its order, each entry as plain values: the name's place in the string
/// table, the checksum's variant and its bytes. The outcome has the name
/// `pdb_module_files`.
#[verifier::external_body]
fn pdb_line_files(program: &pdb::LineProgram<'_>) -> (r: Result<Vec<PdbFileEntry>, pdb::Error>)
    ensures
        pdb_module_files(program_origin(*program).0, program_origin(*program).1) == match r {
            Ok(entries) => Some(entry_views(entries@)),
            Err(_) => None::<Seq<(u32, ChecksumKind, Seq<u8>)>>,
        },
{
    program.files().map(|f| Ok(match f.checksum {
        pdb::FileChecksum::None => (ChecksumKind::Absent, Vec::new()),
        pdb::FileChecksum::Md5(d) => (ChecksumKind::Md5, d.to_vec()),
        pdb::FileChecksum::Sha1(d) => (ChecksumKind::Sha1, d.to_vec()),
        pdb::FileChecksum::Sha256(d) => (ChecksumKind::Sha256, d.to_vec()),
    }).map(|(k, d)| PdbFileEntry { name: f.name.0, checksum_kind: k, checksum: d })).collect()
}

/// Calls `StringRef::to_raw_string` for the name at `name` and copies the
/// bytes of the string. The outcome has the name `pdb_name`.
#[verifier::external_body]
fn pdb_file_name(table: &pdb::StringTable<'_>, name: u32) -> (r: Result<Vec<u8>, pdb::Error>)
    ensures
        pdb_name(table_source(*table), name) == match r {
            Ok(bytes) => Some(bytes@),
            Err(_) => None::<Seq<u8>>,
        },
{
    Ok(pdb::StringRef(name).to_raw_string(table)?.as_bytes().to_vec())
}

/// The record of one entry: its name resolved through the string table,
/// with its checksum. None where the name does not resolve or the digest
/// has not the width of its algorithm.
pub open spec fn entry_record(contents: Seq<u8>, e: (u32, ChecksumKind, Seq<u8>)) -> Option<
    FileInfoView,
> {
    match pdb_name(contents, e.0) {
        Some(name) => if width_fits(e.1, e.2.len()) {
            Some(pdb_record_view(name, e.1, e.2))
        } else {
            None
        },
        None => None,
    }
}

/// Every entry of the list has a record.
pub open spec fn entries_ok(contents: Seq<u8>, entries: Seq<(u32, ChecksumKind, Seq<u8>)>) -> bool {
    forall|j: int| 0 <= j < entries.len() ==> (#[trigger] entry_record(contents, entries[j])) is Some
}

/// The records of the entries of a list, in the list's order.
pub open spec fn entry_records(
    contents: Seq<u8>,
    entries: Seq<(u32, ChecksumKind, Seq<u8>)>,
) -> Seq<FileInfoView> {
    Seq::new(entries.len(), |j: int| entry_record(contents, entries[j]).unwrap())
}

/// The records of the module at place `m`: none for a module without debug
/// information, else one for each entry of its file table, in the table's
/// order. None where a step of the reader fails, where the module declares
/// more line information than its stream holds, or where an entry has no
/// record.
pub open spec fn module_outcome(contents: Seq<u8>, m: nat) -> Option<Seq<FileInfoView>> {
    match pdb_module_has_info(contents, m) {
        None => None,
        Some(false) => Some(Seq::empty()),
        Some(true) => if line_info_fits(contents, m) && pdb_program_loads(contents, m) {
            match pdb_module_files(contents, m) {
                Some(entries) => if entries_ok(contents, entries) {
                    Some(entry_records(contents, entries))
                } else {
                    None
                },
                None => None,
            }
        } else {
            None
        },
    }
}

/// The records of the first `m` modules, in the container's order.
pub open spec fn records_before(contents: Seq<u8>, m: nat) -> Seq<FileInfoView>
    decreases m,
{
    if m == 0 {
        Seq::empty()
    } else {
        records_before(contents, (m - 1) as nat) + module_outcome(
            contents,
            (m - 1) as nat,
        ).unwrap()
    }
}

/// What the walk of a container gives: the records of all modules, sorted
/// by path, each exact duplicate once. None where the debug information, the
/// string table or the list of modules does not load, the map of named
/// streams points beyond the block of names, or a module has no outcome.
pub open spec fn pdb_walk(contents: Seq<u8>) -> Option<Seq<FileInfoView>> {
    if pdb_dbi_loads(contents) && info_fits(contents) && pdb_strings_load(contents) {
        match pdb_module_count(contents) {
            Some(count) => if forall|m: nat| m < count ==> (#[trigger] module_outcome(
                contents,
                m,
            )) is Some {
                Some(normalized(records_before(contents, count)))
            } else {
                None
            },
            None => None,
        }
    } else {
        None
    }
}

/// Every record of a module is among the records of the modules up to any
/// later place.
pub proof fn lemma_records_before_hold(contents: Seq<u8>, count: nat, m: nat, x: FileInfoView)
    requires
        m < count,
        module_outcome(contents, m) matches Some(records) && records.contains(x),
    ensures
        records_before(contents, count).contains(x),
    decreases count,
{
    let before = records_before(contents, (count - 1) as nat);
    let last = module_outcome(contents, (count - 1) as nat).unwrap();
    if m == count - 1 {
        let k = choose|k: int| 0 <= k < last.len() && last[k] == x;
        assert((before + last)[before.len() + k] == x);
    } else {
        lemma_records_before_hold(contents, (count - 1) as nat, m, x);
        let k = choose|k: int| 0 <= k < before.len() && before[k] == x;
        assert((before + last)[k] == x);
    }
}

/// Where the walk gives a list, the list holds the record of every entry of
/// every module: a file that a module names has its record in the result.
pub proof fn lemma_pdb_walk_holds_every_record(contents: Seq<u8>, m: nat, x: FileInfoView)
    requires
        pdb_walk(contents) is Some,
        pdb_module_count(contents) matches Some(count) && m < count,
        module_outcome(contents, m) matches Some(records) && records.contains(x),
    ensures
        pdb_walk(contents).unwrap().contains(x),
{
    let count = pdb_module_count(contents).unwrap();
    lemma_records_before_hold(contents, count, m, x);
    crate::normalize::lemma_normalized_same_records(records_before(contents, count));
}

/// A container whose modules all lack debug information gives the empty
/// list, not a failure.
pub proof fn lemma_pdb_walk_without_module_info(contents: Seq<u8>)
    requires
        pdb_dbi_loads(contents),
        info_fits(contents),
        pdb_strings_load(contents),
        pdb_module_count(contents) matches Some(count) && forall|m: nat|
            m < count ==> #[trigger] pdb_module_has_info(contents, m) == Some(false),
    ensures
        pdb_walk(contents) == Some(Seq::<FileInfoView>::empty()),
{
    let count = pdb_module_count(contents).unwrap();
    lemma_no_records_before(contents, count);
    assert forall|m: nat| m < count implies (#[trigger] module_outcome(contents, m)) is Some by {
        assert(pdb_module_has_info(contents, m) == Some(false));
    }
    assert(normalized(Seq::<FileInfoView>::empty()) =~= Seq::<FileInfoView>::empty());
}

proof fn lemma_no_records_before(contents: Seq<u8>, count: nat)
    requires
        forall|m: nat| m < count ==> #[trigger] pdb_module_has_info(contents, m) == Some(false),
    ensures
        records_before(contents, count) == Seq::<FileInfoView>::empty(),
    decreases count,
{
    if count > 0 {
        lemma_no_records_before(contents, (count - 1) as nat);
        assert(pdb_module_has_info(contents, (count - 1) as nat) == Some(false));
        assert(records_before(contents, count) =~= Seq::<FileInfoView>::empty());
    }
}

/// Whatever the bytes, a list that the walk gives is sorted by path and
/// holds no two records that agree on all four fields.
pub proof fn lemma_pdb_walk_is_normal(contents: Seq<u8>)
    ensures
        pdb_walk(contents) matches Some(list) ==> sorted_by_path(list) && no_full_duplicates(list),
{
    if pdb_walk(contents) is Some {
        let count = pdb_module_count(contents).unwrap();
        crate::normalize::lemma_normalized_sorted(records_before(contents, count));
        crate::normalize::lemma_normalized_no_full_duplicates(records_before(contents, count));
    }
}

/// The bytes kept are those of the container's debug information stream.
pub open spec fn holds_dbi(kept: Option<Vec<u8>>, contents: Seq<u8>) -> bool {
    kept matches Some(bytes) ==> pdb_stream(contents, DBI_STREAM) == Some(Some(bytes@))
}

/// Reads the file table of one module and builds its records. The bytes of
/// the debug information stream are read when the first module needs them
/// and kept in `dbi` for the next.
fn module_records<'a>(
    pdb: &mut pdb::PDB<'a, std::io::Cursor<&'a [u8]>>,
    dbi: &mut Option<Vec<u8>>,
    table: &pdb::StringTable<'_>,
    module: &pdb::Module<'_>,
    m: usize,
) -> (r: Result<Vec<FileInfo>, ParseError>)
    requires
        table_source(*table) == pdb_source(*old(pdb)),
        module_origin(*module) == (pdb_source(*old(pdb)), m as nat),
        holds_dbi(*old(dbi), pdb_source(*old(pdb))),
    ensures
        pdb_source(*final(pdb)) == pdb_source(*old(pdb)),
        holds_dbi(*final(dbi), pdb_source(*old(pdb))),
        match r {
            Ok(files) => module_outcome(pdb_source(*old(pdb)), m as nat) == Some(views(files@))
                && all_records(views(files@), |r: FileInfoView| is_pdb_record(r)),
            Err(e) => e is Pdb && module_outcome(pdb_source(*old(pdb)), m as nat) is None,
        },
{
    let ghost b = pdb_source(*pdb);
    let mut files: Vec<FileInfo> = Vec::new();
    let info = match pdb_module_info(pdb, module) {
        Ok(Some(i)) => i,
        Ok(None) => {
            assert(views(files@) =~= Seq::<FileInfoView>::empty());
            return Ok(files);
        },
        Err(e) => return Err(ParseError::Pdb { source: e }),
    };
    if dbi.is_none() {
        let loaded = match pdb_raw_stream(pdb, DBI_STREAM) {
            Ok(Some(d)) => d,
            Ok(None) => return Err(ParseError::Pdb { source: pdb_unexpected_eof() }),
            Err(e) => return Err(ParseError::Pdb { source: e }),
        };
        *dbi = Some(loaded);
    }
    let found = match dbi {
        Some(bytes) => module_sizes(bytes.as_slice(), m),
        None => None,
    };
    let sizes = match found {
        Some(s) => s,
        None => return Err(ParseError::Pdb { source: pdb_unexpected_eof() }),
    };
    let stream = match pdb_raw_stream(pdb, sizes.stream) {
        Ok(Some(d)) => d,
        Ok(None) => return Err(ParseError::Pdb { source: pdb_unexpected_eof() }),
        Err(e) => return Err(ParseError::Pdb { source: e }),
    };
    if !line_sizes_fit(&sizes, stream.len()) {
        return Err(ParseError::Pdb { source: pdb_unexpected_eof() });
    }
    let program = match pdb_line_program(&info) {
        Ok(p) => p,
        Err(e) => return Err(ParseError::Pdb { source: e }),
    };
    let entries = match pdb_line_files(&program) {
        Ok(f) => f,
        Err(e) => return Err(ParseError::Pdb { source: e }),
    };
    let ghost es = entry_views(entries@);
    assert(module_outcome(b, m as nat) == if entries_ok(b, es) {
        Some(entry_records(b, es))
    } else {
        None
    });
    let mut k: usize = 0;
    while k < entries.len()
        invariant
            k <= entries.len(),
            es == entry_views(entries@),
            table_source(*table) == b,
            pdb_source(*pdb) == b,
            b == pdb_source(*old(pdb)),
            holds_dbi(*dbi, b),
            module_outcome(b, m as nat) == if entries_ok(b, es) {
                Some(entry_records(b, es))
            } else {
                None
            },
            forall|j: int| 0 <= j < k ==> (#[trigger] entry_record(b, es[j])) is Some,
            views(files@) =~= Seq::new(k as nat, |j: int| entry_record(b, es[j]).unwrap()),
            all_records(views(files@), |r: FileInfoView| is_pdb_record(r)),
        decreases entries.len() - k,
    {
        assert(es[k as int] == (
            entries[k as int].name,
            entries[k as int].checksum_kind,
            entries[k as int].checksum@,
        ));
        let name = match pdb_file_name(table, entries[k].name) {
            Ok(n) => n,
            Err(e) => {
                assert(entry_record(b, es[k as int]) is None);
                return Err(ParseError::Pdb { source: e });
            },
        };
        if !checksum_width_fits(entries[k].checksum_kind, entries[k].checksum.len()) {
            assert(entry_record(b, es[k as int]) is None);
            return Err(ParseError::Pdb { source: pdb_unexpected_eof() });
        }
        let record = pdb_record(name, entries[k].checksum_kind, entries[k].checksum.as_slice());
        let ghost before = views(files@);
        files.push(record);
        assert(views(files@) =~= before.push(record@));
        k += 1;
    }
    assert(views(files@) =~= entry_records(b, es));
    Ok(files)
}

/// Lists the source files that an opened PDB container names: every entry of
/// every module's file table, sorted by path, each exact duplicate once. It
/// succeeds exactly where every step of the reader does, the map of named
/// streams points into the block of names, every module's line information
/// lies within its stream and every digest has the width of its algorithm; any failure ends the walk with an error of the PDB
/// layer and no list.
pub fn parse_pdb<'a>(pdb: pdb::PDB<'a, std::io::Cursor<&'a [u8]>>) -> (r: Result<
    Vec<FileInfo>,
    ParseError,
>)
    ensures
        match r {
            Ok(files) => pdb_walk(pdb_source(pdb)) == Some(views(files@)) && sorted_by_path(
                views(files@),
            ) && no_full_duplicates(views(files@)) && all_records(
                views(files@),
                |r: FileInfoView| is_pdb_record(r),
            ),
            Err(e) => e is Pdb && pdb_walk(pdb_source(pdb)) is None,
        },
{
    let ghost b = pdb_source(pdb);
    let mut opened = pdb;
    let mut files: Vec<FileInfo> = Vec::new();
    let dbi = match pdb_debug_information(&mut opened) {
        Ok(d) => d,
        Err(e) => return Err(ParseError::Pdb { source: e }),
    };
    let info = match pdb_raw_stream(&mut opened, INFO_STREAM) {
        Ok(Some(i)) => i,
        Ok(None) => return Err(ParseError::Pdb { source: pdb_unexpected_eof() }),
        Err(e) => return Err(ParseError::Pdb { source: e }),
    };
    if !name_map_in_block(info.as_slice()) {
        return Err(ParseError::Pdb { source: pdb_unexpected_eof() });
    }
    let table = match pdb_string_table(&mut opened) {
        Ok(t) => t,
        Err(e) => return Err(ParseError::Pdb { source: e }),
    };
    let modules = match pdb_modules(&dbi) {
        Ok(m) => m,
        Err(e) => return Err(ParseError::Pdb { source: e }),
    };
    assert(views(files@) =~= records_before(b, 0));
    let mut kept: Option<Vec<u8>> = None;
    let mut m: usize = 0;
    while m < modules.len()
        invariant
            m <= modules.len(),
            pdb_source(opened) == b,
            pdb_source(pdb) == b,
            holds_dbi(kept, b),
            table_source(table) == b,
            pdb_dbi_loads(b) && info_fits(b) && pdb_strings_load(b),
            pdb_module_count(b) == Some(modules@.len()),
            forall|i: int|
                0 <= i < modules@.len() ==> #[trigger] module_origin(modules@[i]) == (b, i as nat),
            forall|j: nat| j < m ==> (#[trigger] module_outcome(b, j)) is Some,
            views(files@) == records_before(b, m as nat),
            all_records(views(files@), |r: FileInfoView| is_pdb_record(r)),
        decreases modules.len() - m,
    {
        let mut found = match module_records(&mut opened, &mut kept, &table, &modules[m], m) {
            Ok(f) => f,
            Err(e) => {
                assert(module_outcome(b, m as nat) is None);
                return Err(e);
            },
        };
        let ghost before = views(files@);
        let ghost added = views(found@);
        files.append(&mut found);
        assert(views(files@) =~= before + added);
        m += 1;
    }
    proof {
        lemma_normalized_all(views(files@), |r: FileInfoView| is_pdb_record(r));
    }
    Ok(normalize(files))
}

} // verus!
