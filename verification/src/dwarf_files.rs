//! The file tables of the DWARF line programs in an ELF or Mach-O container.

use vstd::prelude::*;
use object::{Object, ObjectSection};
use crate::error::ParseError;
use crate::normalize::{
    all_records, lemma_normalized_all, no_full_duplicates, normalize, normalized, sorted_by_path,
};
use crate::paths::{is_absolute, owned_bytes, path_is_absolute, path_push, pushed};
use crate::record::{views, CheckSumView, FileCheckSum, FileInfo, FileInfoView};

verus! {

/// The byte `<`, with which the names of compiler-made pseudo files begin.
pub const PSEUDO_FILE_MARK: u8 = 60;

/// The byte order in which the DWARF decoder reads numbers.
#[verifier::external_type_specification]
pub struct ExRunTimeEndian(gimli::RunTimeEndian);

/// The bytes of the standard debug sections, one buffer per section.
#[verifier::external_type_specification]
#[verifier::external_body]
#[verifier::reject_recursive_types(T)]
pub struct ExDwarfSections<T>(gimli::DwarfSections<T>);

/// A parsed object file. The reader's own type is bounded by one of its
/// traits, so it is held here and not declared.
#[verifier::external_body]
pub struct ObjectFile<'a> {
    inner: object::File<'a>,
}

/// The DWARF decoder over the debug sections of one container.
#[verifier::external_body]
pub struct DwarfReader<'a> {
    inner: gimli::Dwarf<gimli::EndianSlice<'a, gimli::RunTimeEndian>>,
}

/// One compilation unit, decoded.
#[verifier::external_body]
pub struct DwarfUnit<'a> {
    inner: gimli::Unit<gimli::EndianSlice<'a, gimli::RunTimeEndian>>,
}

/// The headers of the units of a container, handed out one by one.
#[verifier::external_body]
pub struct UnitHeaders<'a> {
    inner: gimli::DebugInfoUnitHeadersIter<gimli::EndianSlice<'a, gimli::RunTimeEndian>>,
}

/// The header of one compilation unit.
#[verifier::external_body]
pub struct UnitHeader<'a> {
    inner: gimli::UnitHeader<gimli::EndianSlice<'a, gimli::RunTimeEndian>>,
}

/// The concrete kind of an object file.
#[derive(Debug, Clone, Copy, PartialEq, Eq, Structural)]
pub enum ContainerKind {
    Elf,
    Coff,
    MachO,
    Pe,
    Wasm,
    Other,
}

/// What the header of a line program declares of its file table.
#[derive(Debug, Clone, Copy, PartialEq, Eq, Structural)]
pub struct LineTable {
    /// The entries carry a timestamp.
    pub has_timestamp: bool,
    /// The entries carry a size.
    pub has_size: bool,
    /// The entries carry an MD5 digest.
    pub has_md5: bool,
    /// The number of entries.
    pub file_count: usize,
}

/// One entry of a file table, as plain values.
#[derive(Debug, Clone, PartialEq, Eq)]
pub struct DwarfFileEntry {
    /// The directory that the entry names.
    pub directory: Vec<u8>,
    /// The base name.
    pub name: Vec<u8>,
    /// The raw timestamp; 0 stands for none.
    pub timestamp: u64,
    /// The raw size; 0 stands for none.
    pub size: u64,
    /// The raw MD5 digest.
    pub md5: [u8; 16],
}

/// What a `DwarfFileEntry` is.
pub struct DwarfFileEntryView {
    pub directory: Seq<u8>,
    pub name: Seq<u8>,
    pub timestamp: u64,
    pub size: u64,
    pub md5: Seq<u8>,
}

impl View for DwarfFileEntry {
    type V = DwarfFileEntryView;

    open spec fn view(&self) -> DwarfFileEntryView {
        DwarfFileEntryView {
            directory: self.directory@,
            name: self.name@,
            timestamp: self.timestamp,
            size: self.size,
            md5: self.md5@,
        }
    }
}

/// The view of an optional byte string.
pub open spec fn opt_bytes(b: Option<&[u8]>) -> Option<Seq<u8>> {
    match b {
        Some(s) => Some(s@),
        None => None,
    }
}

/// The path of a file entry: its directory, put under the compilation
/// directory where it is relative and the unit has one, extended by the base
/// name.
pub open spec fn dwarf_path(directory: Seq<u8>, comp_dir: Option<Seq<u8>>, name: Seq<u8>) -> Seq<
    u8,
> {
    let base = match comp_dir {
        Some(c) if !is_absolute(directory) => pushed(c, directory),
        _ => directory,
    };
    pushed(base, name)
}

/// A raw number of a file table, where 0 stands for "not recorded".
pub open spec fn nonzero(declared: bool, raw: u64) -> Option<u64> {
    if declared && raw != 0 {
        Some(raw)
    } else {
        None
    }
}

/// Whether a base name is that of a pseudo file, which the compiler made up
/// and which names no source file.
pub open spec fn is_pseudo_file(name: Seq<u8>) -> bool {
    name.len() > 0 && name[0] == PSEUDO_FILE_MARK
}

/// The record of a file entry, or none for a pseudo file.
pub open spec fn dwarf_record_view(
    entry: DwarfFileEntryView,
    table: LineTable,
    comp_dir: Option<Seq<u8>>,
) -> Option<FileInfoView> {
    if is_pseudo_file(entry.name) {
        None
    } else {
        Some(
            FileInfoView {
                path: dwarf_path(entry.directory, comp_dir, entry.name),
                size: nonzero(table.has_size, entry.size),
                timestamp: nonzero(table.has_timestamp, entry.timestamp),
                checksum: if table.has_md5 {
                    Some(CheckSumView::Md5(entry.md5))
                } else {
                    None
                },
            },
        )
    }
}

/// The shape of every record of a DWARF file table: neither its size nor
/// its timestamp is a recorded 0, and its checksum, if any, is MD5.
pub open spec fn zero_is_absent(r: FileInfoView) -> bool {
    &&& r.size != Some(0u64)
    &&& r.timestamp != Some(0u64)
    &&& r.checksum matches Some(c) ==> c is Md5
}

/// The name `<built-in>`, under which GCC lists what is built into it.
pub open spec fn built_in_name() -> Seq<u8> {
    seq![60u8, 98u8, 117u8, 105u8, 108u8, 116u8, 45u8, 105u8, 110u8, 62u8]
}

/// A raw timestamp or size of 0 never shows in a record, whether or not the
/// header declares the field: the record then has none.
pub proof fn lemma_zero_is_absent(
    entry: DwarfFileEntryView,
    table: LineTable,
    comp_dir: Option<Seq<u8>>,
)
    ensures
        dwarf_record_view(entry, table, comp_dir) matches Some(r) ==> {
            &&& zero_is_absent(r)
            &&& entry.timestamp == 0 ==> r.timestamp is None
            &&& entry.size == 0 ==> r.size is None
        },
{
}

/// An entry named `<built-in>` gives no record, whatever else it holds.
pub proof fn lemma_built_in_excluded(
    entry: DwarfFileEntryView,
    table: LineTable,
    comp_dir: Option<Seq<u8>>,
)
    requires
        entry.name == built_in_name(),
    ensures
        dwarf_record_view(entry, table, comp_dir) is None,
{
}

fn nonzero_field(declared: bool, raw: u64) -> (r: Option<u64>)
    ensures
        r == nonzero(declared, raw),
{
    if declared && raw != 0 {
        Some(raw)
    } else {
        None
    }
}

/// Builds the path of a file entry.
pub fn dwarf_file_path(directory: &[u8], comp_dir: Option<&[u8]>, name: &[u8]) -> (r: Vec<u8>)
    ensures
        r@ == dwarf_path(directory@, opt_bytes(comp_dir), name@),
{
    let mut path: Vec<u8> = owned_bytes(directory);
    if !path_is_absolute(directory) {
        if let Some(c) = comp_dir {
            let mut joined = owned_bytes(c);
            path_push(&mut joined, directory);
            path = joined;
        }
    }
    path_push(&mut path, name);
    path
}

/// Builds the record of a file entry; a pseudo file gives none.
pub fn dwarf_record(entry: &DwarfFileEntry, table: &LineTable, comp_dir: Option<&[u8]>) -> (r:
    Option<FileInfo>)
    ensures
        match r {
            Some(f) => Some(f@),
            None => None,
        } == dwarf_record_view(entry@, *table, opt_bytes(comp_dir)),
        r matches Some(f) ==> zero_is_absent(f@),
{
    if entry.name.len() > 0 && entry.name[0] == PSEUDO_FILE_MARK {
        return None;
    }
    let path = dwarf_file_path(entry.directory.as_slice(), comp_dir, entry.name.as_slice());
    let checksum = if table.has_md5 {
        Some(FileCheckSum::Md5(entry.md5))
    } else {
        None
    };
    Some(
        FileInfo {
            path,
            size: nonzero_field(table.has_size, entry.size),
            timestamp: nonzero_field(table.has_timestamp, entry.timestamp),
            checksum,
        },
    )
}

/// The bytes of a section that was looked for: a section that the container
/// lacks is an empty one.
pub fn section_or_empty(found: Option<Vec<u8>>) -> (r: Vec<u8>)
    ensures
        r@ == match found {
            Some(b) => b@,
            None => Seq::<u8>::empty(),
        },
{
    match found {
        Some(b) => b,
        None => Vec::new(),
    }
}

/// The byte order that the decoder is to read in.
pub fn endianness(little_endian: bool) -> (r: gimli::RunTimeEndian)
    ensures
        r == if little_endian {
            gimli::RunTimeEndian::Little
        } else {
            gimli::RunTimeEndian::Big
        },
{
    if little_endian {
        gimli::RunTimeEndian::Little
    } else {
        gimli::RunTimeEndian::Big
    }
}

/// Whether `object::File::parse` takes the bytes for an object file.
pub uninterp spec fn object_parses(contents: Seq<u8>) -> bool;

/// The bytes that a parsed object file was parsed from.
pub uninterp spec fn object_source(file: ObjectFile) -> Seq<u8>;

/// What `Object::is_little_endian` returns on the file parsed from the bytes.
pub uninterp spec fn object_little_endian(contents: Seq<u8>) -> bool;

/// What `Object::has_debug_symbols` returns on the file parsed from the
/// bytes.
pub uninterp spec fn object_debug_symbols(contents: Seq<u8>) -> bool;

/// What `File::format` returns on the file parsed from the bytes, by the
/// kind that stands for it here.
pub uninterp spec fn object_format(contents: Seq<u8>) -> ContainerKind;

/// Calls `object::File::parse` on the bytes. The contract gives the outcome
/// its name, `object_parses`, and records in `object_source` which bytes the
/// file came of: the file borrows them and reads nothing else.
#[verifier::external_body]
fn object_parse<'a>(contents: &'a [u8]) -> (r: Result<ObjectFile<'a>, object::Error>)
    ensures
        r is Ok <==> object_parses(contents@),
        r matches Ok(file) ==> object_source(file) == contents@,
{
    Ok(ObjectFile { inner: object::File::parse(contents)? })
}

/// Calls `Object::is_little_endian`; the result has the name
/// `object_little_endian` on the file's bytes.
#[verifier::external_body]
pub(crate) fn object_is_little_endian(file: &ObjectFile<'_>) -> (r: bool)
    ensures
        r == object_little_endian(object_source(*file)),
{
    file.inner.is_little_endian()
}

/// Calls `Object::has_debug_symbols`; the result has the name
/// `object_debug_symbols` on the file's bytes.
#[verifier::external_body]
pub(crate) fn object_has_debug_symbols(file: &ObjectFile<'_>) -> (r: bool)
    ensures
        r == object_debug_symbols(object_source(*file)),
{
    file.inner.has_debug_symbols()
}

/// Calls `File::format` and names the variant that came back; a variant
/// without a name of its own here is `Other`. The result has the name
/// `object_format` on the file's bytes.
#[verifier::external_body]
pub(crate) fn object_kind(file: &ObjectFile<'_>) -> (r: ContainerKind)
    ensures
        r == object_format(object_source(*file)),
{
    match file.inner.format() {
        object::BinaryFormat::Elf => ContainerKind::Elf,
        object::BinaryFormat::Coff => ContainerKind::Coff,
        object::BinaryFormat::MachO => ContainerKind::MachO,
        object::BinaryFormat::Pe => ContainerKind::Pe,
        object::BinaryFormat::Wasm => ContainerKind::Wasm,
        _ => ContainerKind::Other,
    }
}

/// Calls `Object::section_by_name` and, on the section found,
/// `ObjectSection::uncompressed_data`, and copies the bytes. None where the
/// container has no such section or its data cannot be had.
#[verifier::external_body]
fn object_section(file: &ObjectFile<'_>, name: &str) -> (r: Option<Vec<u8>>) {
    file.inner.section_by_name(name)?.uncompressed_data().ok().map(|d| d.into_owned())
}

/// The bytes of the object file that the debug sections were read from.
pub uninterp spec fn sections_source(sections: gimli::DwarfSections<Vec<u8>>) -> Seq<u8>;

/// The bytes of the object file that a decoder reads, and whether it reads
/// numbers low byte first.
pub uninterp spec fn reader_origin(reader: DwarfReader) -> (Seq<u8>, bool);

/// The same for a unit, with the unit's place among the container's units.
pub uninterp spec fn unit_origin(unit: DwarfUnit) -> (Seq<u8>, bool, nat);

/// The bytes and byte order that the headers are read with, and the place
/// of the header that comes next.
pub uninterp spec fn headers_origin(headers: UnitHeaders) -> (Seq<u8>, bool, nat);

/// How many bytes of the unit section are not read yet.
pub uninterp spec fn headers_left(headers: UnitHeaders) -> nat;

/// The bytes and byte order that a header was read with, and its place.
pub uninterp spec fn header_origin(header: UnitHeader) -> (Seq<u8>, bool, nat);

/// What the iterator of `Dwarf::units` gives at a place: none where the
/// header there cannot be decoded, else whether there is a header.
pub uninterp spec fn dwarf_header_at(contents: Seq<u8>, little_endian: bool, unit: nat) -> Option<
    bool,
>;

/// Whether `Dwarf::unit` decodes the unit at a place.
pub uninterp spec fn dwarf_unit_decodes(contents: Seq<u8>, little_endian: bool, unit: nat) -> bool;

/// The field `comp_dir` of the unit at a place.
pub uninterp spec fn dwarf_comp_dir(contents: Seq<u8>, little_endian: bool, unit: nat) -> Option<
    Seq<u8>,
>;

/// What the header of the line program of the unit at a place declares;
/// none where the unit has no line program.
pub uninterp spec fn dwarf_line_table(contents: Seq<u8>, little_endian: bool, unit: nat) -> Option<
    LineTable,
>;

/// The directory of the file entry at a place of a unit's table, as
/// `FileEntry::directory` and `Dwarf::attr_string` give it: none where the
/// string cannot be decoded, `Some(None)` where the entry's index names no
/// directory.
pub uninterp spec fn dwarf_file_directory(
    contents: Seq<u8>,
    little_endian: bool,
    unit: nat,
    index: nat,
) -> Option<Option<Seq<u8>>>;

/// The base name of the file entry at a place of a unit's table, as
/// `FileEntry::path_name` and `Dwarf::attr_string` give it; none where the
/// string cannot be decoded.
pub uninterp spec fn dwarf_file_name(
    contents: Seq<u8>,
    little_endian: bool,
    unit: nat,
    index: nat,
) -> Option<Seq<u8>>;

/// The raw timestamp, size and MD5 digest of the file entry at a place of a
/// unit's table.
pub uninterp spec fn dwarf_file_numbers(
    contents: Seq<u8>,
    little_endian: bool,
    unit: nat,
    index: nat,
) -> (u64, u64, Seq<u8>);

/// Whether the unit has a file entry at `index`.
pub open spec fn has_file_entry(unit: DwarfUnit, index: nat) -> bool {
    dwarf_line_table(unit_origin(unit).0, unit_origin(unit).1, unit_origin(unit).2) matches Some(
        table,
    ) && index < table.file_count
}

/// Calls `gimli::DwarfSections::load`, which asks for each standard debug
/// section by its name; each is read from the container with
/// `object_section`, an absent one as empty. The call fails only where the
/// function that it is given does, and this one never does: it succeeds.
#[verifier::external_body]
fn load_sections(file: &ObjectFile<'_>) -> (r: Result<
    gimli::DwarfSections<Vec<u8>>,
    gimli::Error,
>)
    ensures
        r is Ok,
        r matches Ok(sections) ==> sections_source(sections) == object_source(*file),
{
    gimli::DwarfSections::load(|id| Ok(section_or_empty(object_section(file, id.name()))))
}

/// Calls `DwarfSections::borrow`, with each section's bytes as an
/// `EndianSlice` of the given byte order.
#[verifier::external_body]
fn borrow_sections<'a>(
    sections: &'a gimli::DwarfSections<Vec<u8>>,
    endian: gimli::RunTimeEndian,
) -> (r: DwarfReader<'a>)
    ensures
        reader_origin(r) == (sections_source(*sections), endian == gimli::RunTimeEndian::Little),
{
    DwarfReader { inner: sections.borrow(|s| gimli::EndianSlice::new(s.as_slice(), endian)) }
}

/// Calls `Dwarf::units`: the headers of the container's units, from the
/// first on.
#[verifier::external_body]
fn unit_headers<'a>(dwarf: &DwarfReader<'a>) -> (r: UnitHeaders<'a>)
    ensures
        headers_origin(r) == (reader_origin(*dwarf).0, reader_origin(*dwarf).1, 0nat),
{
    UnitHeaders { inner: dwarf.inner.units() }
}

/// Calls `DebugInfoUnitHeadersIter::next`; the outcome has the name
/// `dwarf_header_at`. A header that is handed out has been read from the
/// section, so less of the section is left.
#[verifier::external_body]
fn next_header<'a>(headers: &mut UnitHeaders<'a>) -> (r: Result<
    Option<UnitHeader<'a>>,
    gimli::Error,
>)
    ensures
        dwarf_header_at(
            headers_origin(*old(headers)).0,
            headers_origin(*old(headers)).1,
            headers_origin(*old(headers)).2,
        ) == match r {
            Ok(header) => Some(header is Some),
            Err(_) => None::<bool>,
        },
        r matches Ok(Some(header)) ==> header_origin(header) == headers_origin(*old(headers))
            && headers_origin(*final(headers)) == (
            headers_origin(*old(headers)).0,
            headers_origin(*old(headers)).1,
            headers_origin(*old(headers)).2 + 1,
        ) && headers_left(*final(headers)) < headers_left(*old(headers)),
{
    Ok(headers.inner.next()?.map(|h| UnitHeader { inner: h }))
}

/// Calls `Dwarf::unit` on a header; whether it succeeds has the name
/// `dwarf_unit_decodes`.
#[verifier::external_body]
fn decode_unit<'a>(dwarf: &DwarfReader<'a>, header: UnitHeader<'a>) -> (r: Result<
    DwarfUnit<'a>,
    gimli::Error,
>)
    requires
        reader_origin(*dwarf) == (header_origin(header).0, header_origin(header).1),
    ensures
        r is Ok <==> dwarf_unit_decodes(
            header_origin(header).0,
            header_origin(header).1,
            header_origin(header).2,
        ),
        r matches Ok(unit) ==> unit_origin(unit) == header_origin(header),
{
    Ok(DwarfUnit { inner: dwarf.inner.unit(header.inner)? })
}

/// Copies the unit's field `comp_dir`, the compilation directory.
#[verifier::external_body]
fn unit_comp_dir(unit: &DwarfUnit<'_>) -> (r: Option<Vec<u8>>)
    ensures
        dwarf_comp_dir(unit_origin(*unit).0, unit_origin(*unit).1, unit_origin(*unit).2)
            == match r {
            Some(dir) => Some(dir@),
            None => None::<Seq<u8>>,
        },
{
    unit.inner.comp_dir.as_ref().map(|d| d.slice().to_vec())
}

/// Reads from the header of the unit's line program, where it has one, what
/// `file_has_timestamp`, `file_has_size` and `file_has_md5` return and the
/// length of `file_names`.
#[verifier::external_body]
fn unit_line_table(unit: &DwarfUnit<'_>) -> (r: Option<LineTable>)
    ensures
        r == dwarf_line_table(unit_origin(*unit).0, unit_origin(*unit).1, unit_origin(*unit).2),
{
    let header = unit.inner.line_program.as_ref()?.header();
    Some(LineTable {
        has_timestamp: header.file_has_timestamp(),
        has_size: header.file_has_size(),
        has_md5: header.file_has_md5(),
        file_count: header.file_names().len(),
    })
}

/// Calls `FileEntry::directory` on the entry at `index` of the unit's file
/// table and resolves what it returns with `Dwarf::attr_string`. `Ok(None)`
/// where the entry's index names no directory.
#[verifier::external_body]
fn unit_file_directory(dwarf: &DwarfReader<'_>, unit: &DwarfUnit<'_>, index: usize) -> (r: Result<
    Option<Vec<u8>>,
    gimli::Error,
>)
    requires
        has_file_entry(*unit, index as nat),
        reader_origin(*dwarf) == (unit_origin(*unit).0, unit_origin(*unit).1),
    ensures
        dwarf_file_directory(
            unit_origin(*unit).0,
            unit_origin(*unit).1,
            unit_origin(*unit).2,
            index as nat,
        ) == match r {
            Ok(Some(dir)) => Some(Some(dir@)),
            Ok(None) => Some(None::<Seq<u8>>),
            Err(_) => None::<Option<Seq<u8>>>,
        },
{
    let header = unit.inner.line_program.as_ref().unwrap().header();
    match header.file_names()[index].directory(header) {
        Some(a) => Ok(Some(dwarf.inner.attr_string(&unit.inner, a)?.slice().to_vec())),
        None => Ok(None),
    }
}

/// Calls `FileEntry::path_name` on the entry at `index` of the unit's file
/// table and resolves what it returns with `Dwarf::attr_string`.
#[verifier::external_body]
fn unit_file_name(dwarf: &DwarfReader<'_>, unit: &DwarfUnit<'_>, index: usize) -> (r: Result<
    Vec<u8>,
    gimli::Error,
>)
    requires
        has_file_entry(*unit, index as nat),
        reader_origin(*dwarf) == (unit_origin(*unit).0, unit_origin(*unit).1),
    ensures
        dwarf_file_name(
            unit_origin(*unit).0,
            unit_origin(*unit).1,
            unit_origin(*unit).2,
            index as nat,
        ) == match r {
            Ok(name) => Some(name@),
            Err(_) => None::<Seq<u8>>,
        },
{
    let header = unit.inner.line_program.as_ref().unwrap().header();
    let name = header.file_names()[index].path_name();
    Ok(dwarf.inner.attr_string(&unit.inner, name)?.slice().to_vec())
}

/// Reads `FileEntry::timestamp`, `FileEntry::size` and `FileEntry::md5` of
/// the entry at `index` of the unit's file table.
#[verifier::external_body]
fn unit_file_numbers(unit: &DwarfUnit<'_>, index: usize) -> (r: (u64, u64, [u8; 16]))
    requires
        has_file_entry(*unit, index as nat),
    ensures
        (r.0, r.1, r.2@) == dwarf_file_numbers(
            unit_origin(*unit).0,
            unit_origin(*unit).1,
            unit_origin(*unit).2,
            index as nat,
        ),
{
    let file = &unit.inner.line_program.as_ref().unwrap().header().file_names()[index];
    (file.timestamp(), file.size(), *file.md5())
}

/// Makes the decoder's error `ExpectedStringAttributeValue`, for a file
/// entry whose directory index names no directory.
#[verifier::external_body]
fn dwarf_missing_directory() -> (r: gimli::Error) {
    gimli::Error::ExpectedStringAttributeValue
}

/// What the file entry at a place gives: none where its directory or its
/// name cannot be had, `Some(None)` for a pseudo file, else its record.
pub open spec fn entry_outcome(b: Seq<u8>, le: bool, u: nat, i: nat) -> Option<Option<FileInfoView>> {
    match (dwarf_file_directory(b, le, u, i), dwarf_file_name(b, le, u, i), dwarf_line_table(b, le, u)) {
        (Some(Some(directory)), Some(name), Some(table)) => Some(
            dwarf_record_view(
                DwarfFileEntryView {
                    directory,
                    name,
                    timestamp: dwarf_file_numbers(b, le, u, i).0,
                    size: dwarf_file_numbers(b, le, u, i).1,
                    md5: dwarf_file_numbers(b, le, u, i).2,
                },
                table,
                dwarf_comp_dir(b, le, u),
            ),
        ),
        _ => None,
    }
}

/// The records of the first `i` file entries of a unit, in the table's
/// order, pseudo files left out.
pub open spec fn unit_records_before(b: Seq<u8>, le: bool, u: nat, i: nat) -> Seq<FileInfoView>
    decreases i,
{
    if i == 0 {
        Seq::empty()
    } else {
        let before = unit_records_before(b, le, u, (i - 1) as nat);
        match entry_outcome(b, le, u, (i - 1) as nat) {
            Some(Some(r)) => before.push(r),
            _ => before,
        }
    }
}

/// The records of the unit at a place: none for a unit without a line
/// program, else those of its file entries. None where an entry has no
/// outcome.
pub open spec fn unit_outcome(b: Seq<u8>, le: bool, u: nat) -> Option<Seq<FileInfoView>> {
    match dwarf_line_table(b, le, u) {
        None => Some(Seq::empty()),
        Some(table) => if forall|i: nat|
            i < table.file_count ==> (#[trigger] entry_outcome(b, le, u, i)) is Some {
            Some(unit_records_before(b, le, u, table.file_count as nat))
        } else {
            None
        },
    }
}

/// The records of the first `u` units, in the container's order.
pub open spec fn dwarf_records_before(b: Seq<u8>, le: bool, u: nat) -> Seq<FileInfoView>
    decreases u,
{
    if u == 0 {
        Seq::empty()
    } else {
        dwarf_records_before(b, le, (u - 1) as nat) + unit_outcome(b, le, (u - 1) as nat).unwrap()
    }
}

/// The unit at a place is read to its end: its header is there, the unit
/// decodes, and its file table has an outcome.
pub open spec fn unit_ok(b: Seq<u8>, le: bool, u: nat) -> bool {
    dwarf_header_at(b, le, u) == Some(true) && dwarf_unit_decodes(b, le, u) && unit_outcome(
        b,
        le,
        u,
    ) is Some
}

/// The walk reads `n` units to their end and then finds no further header.
pub open spec fn walk_ends_at(b: Seq<u8>, le: bool, n: nat) -> bool {
    (forall|k: nat| k < n ==> #[trigger] unit_ok(b, le, k)) && dwarf_header_at(b, le, n) == Some(
        false,
    )
}

/// How many units the walk reads; none where a header or a unit cannot be
/// decoded or a unit has no outcome.
pub open spec fn dwarf_unit_count(b: Seq<u8>, le: bool) -> Option<nat> {
    if exists|n: nat| walk_ends_at(b, le, n) {
        Some(choose|n: nat| walk_ends_at(b, le, n))
    } else {
        None
    }
}

/// What the walk of an object file's DWARF information gives, read in the
/// given byte order: the records of all units, sorted by path, each exact
/// duplicate once. A section that the file lacks is read as empty and is no
/// failure. None where a unit cannot be decoded or has no outcome.
pub open spec fn dwarf_walk(b: Seq<u8>, le: bool) -> Option<Seq<FileInfoView>> {
    match dwarf_unit_count(b, le) {
        Some(count) => Some(normalized(dwarf_records_before(b, le, count))),
        None => None,
    }
}

/// The walk ends at one place only.
pub proof fn lemma_walk_end_is_unique(b: Seq<u8>, le: bool, n: nat, m: nat)
    requires
        walk_ends_at(b, le, n),
        walk_ends_at(b, le, m),
    ensures
        n == m,
{
    if n < m {
        assert(unit_ok(b, le, n));
    } else if m < n {
        assert(unit_ok(b, le, m));
    }
}

/// A walk that ends at `n` has read `n` units.
pub proof fn lemma_walk_ends(b: Seq<u8>, le: bool, n: nat)
    requires
        walk_ends_at(b, le, n),
    ensures
        dwarf_unit_count(b, le) == Some(n),
{
    let c = choose|c: nat| walk_ends_at(b, le, c);
    lemma_walk_end_is_unique(b, le, n, c);
}

/// A walk that fails at the unit at place `u` ends nowhere.
pub proof fn lemma_walk_fails(b: Seq<u8>, le: bool, u: nat)
    requires
        !unit_ok(b, le, u),
        dwarf_header_at(b, le, u) != Some(false),
        forall|k: nat| k < u ==> #[trigger] unit_ok(b, le, k),
    ensures
        dwarf_unit_count(b, le) is None,
{
    assert forall|n: nat| !walk_ends_at(b, le, n) by {
        if n < u {
            assert(unit_ok(b, le, n));
        } else if n > u {
            if walk_ends_at(b, le, n) {
                assert(unit_ok(b, le, u));
            }
        }
    }
}

/// Whatever the bytes, a list that the walk gives is sorted by path and
/// holds no two records that agree on all four fields.
pub proof fn lemma_dwarf_walk_is_normal(b: Seq<u8>, le: bool)
    ensures
        dwarf_walk(b, le) matches Some(list) ==> sorted_by_path(list) && no_full_duplicates(list),
{
    if dwarf_walk(b, le) is Some {
        let count = dwarf_unit_count(b, le).unwrap();
        crate::normalize::lemma_normalized_sorted(dwarf_records_before(b, le, count));
        crate::normalize::lemma_normalized_no_full_duplicates(dwarf_records_before(b, le, count));
    }
}

/// An object file whose debug sections hold no unit gives the empty list,
/// not a failure.
pub proof fn lemma_dwarf_walk_without_units(contents: Seq<u8>, little_endian: bool)
    requires
        dwarf_header_at(contents, little_endian, 0) == Some(false),
    ensures
        dwarf_walk(contents, little_endian) == Some(Seq::<FileInfoView>::empty()),
{
    lemma_walk_ends(contents, little_endian, 0);
    assert(dwarf_records_before(contents, little_endian, 0) =~= Seq::<FileInfoView>::empty());
    assert(normalized(Seq::<FileInfoView>::empty()) =~= Seq::<FileInfoView>::empty());
}

/// The walk never lists a record for an entry named `<built-in>`: such an
/// entry has an outcome without a record.
pub proof fn lemma_built_in_has_no_record(b: Seq<u8>, le: bool, u: nat, i: nat)
    requires
        dwarf_file_name(b, le, u, i) == Some(built_in_name()),
        entry_outcome(b, le, u, i) is Some,
    ensures
        entry_outcome(b, le, u, i) == Some(None::<FileInfoView>),
{
}

/// Reads the file table of one unit and builds its records.
fn unit_records(dwarf: &DwarfReader<'_>, unit: &DwarfUnit<'_>) -> (r: Result<
    Vec<FileInfo>,
    ParseError,
>)
    requires
        reader_origin(*dwarf) == (unit_origin(*unit).0, unit_origin(*unit).1),
    ensures
        match r {
            Ok(files) => unit_outcome(
                unit_origin(*unit).0,
                unit_origin(*unit).1,
                unit_origin(*unit).2,
            ) == Some(views(files@)) && all_records(
                views(files@),
                |r: FileInfoView| zero_is_absent(r),
            ),
            Err(e) => e is Dwarf && unit_outcome(
                unit_origin(*unit).0,
                unit_origin(*unit).1,
                unit_origin(*unit).2,
            ) is None,
        },
{
    let ghost b = unit_origin(*unit).0;
    let ghost le = unit_origin(*unit).1;
    let ghost u = unit_origin(*unit).2;
    let mut files: Vec<FileInfo> = Vec::new();
    assert(views(files@) =~= unit_records_before(b, le, u, 0));
    let table = match unit_line_table(unit) {
        Some(t) => t,
        None => return Ok(files),
    };
    let comp_dir = unit_comp_dir(unit);
    let mut i: usize = 0;
    while i < table.file_count
        invariant
            i <= table.file_count,
            unit_origin(*unit) == (b, le, u),
            reader_origin(*dwarf) == (b, le),
            dwarf_line_table(b, le, u) == Some(table),
            dwarf_comp_dir(b, le, u) == match comp_dir {
                Some(dir) => Some(dir@),
                None => None::<Seq<u8>>,
            },
            forall|j: nat| j < i ==> (#[trigger] entry_outcome(b, le, u, j)) is Some,
            views(files@) == unit_records_before(b, le, u, i as nat),
            all_records(views(files@), |r: FileInfoView| zero_is_absent(r)),
        decreases table.file_count - i,
    {
        let directory = match unit_file_directory(dwarf, unit, i) {
            Ok(Some(d)) => d,
            Ok(None) => {
                assert(entry_outcome(b, le, u, i as nat) is None);
                return Err(ParseError::Dwarf { source: dwarf_missing_directory() });
            },
            Err(e) => {
                assert(entry_outcome(b, le, u, i as nat) is None);
                return Err(ParseError::Dwarf { source: e });
            },
        };
        let name = match unit_file_name(dwarf, unit, i) {
            Ok(n) => n,
            Err(e) => {
                assert(entry_outcome(b, le, u, i as nat) is None);
                return Err(ParseError::Dwarf { source: e });
            },
        };
        let numbers = unit_file_numbers(unit, i);
        let entry = DwarfFileEntry {
            directory,
            name,
            timestamp: numbers.0,
            size: numbers.1,
            md5: numbers.2,
        };
        let dir: Option<&[u8]> = match &comp_dir {
            Some(c) => Some(c.as_slice()),
            None => None,
        };
        let ghost before = views(files@);
        match dwarf_record(&entry, &table, dir) {
            Some(record) => {
                files.push(record);
                assert(views(files@) =~= before.push(record@));
            },
            None => {},
        }
        assert(entry_outcome(b, le, u, i as nat) is Some);
        assert(views(files@) == unit_records_before(b, le, u, (i + 1) as nat));
        i += 1;
    }
    Ok(files)
}

/// Parses the bytes as an object file of any kind that the reader knows. It
/// succeeds exactly on the bytes that the reader takes, with the file parsed
/// from them; any other bytes fail in the object layer.
pub fn open_object<'a>(contents: &'a [u8]) -> (r: Result<ObjectFile<'a>, ParseError>)
    ensures
        r is Ok <==> object_parses(contents@),
        r matches Ok(file) ==> object_source(file) == contents@,
        r matches Err(e) ==> e is Object,
{
    match object_parse(contents) {
        Ok(file) => Ok(file),
        Err(e) => Err(ParseError::Object { source: e }),
    }
}

/// Lists the source files that the DWARF information of a container names,
/// read in the given byte order: every entry of every unit's file table but
/// the pseudo files, sorted by path, each exact duplicate once. It succeeds
/// exactly where the decoder does at every step and every entry names a
/// directory; any failure ends the walk with an error of the DWARF layer and
/// no list.
pub fn parse_elf_file(file: &ObjectFile<'_>, little_endian: bool) -> (r: Result<
    Vec<FileInfo>,
    ParseError,
>)
    ensures
        match r {
            Ok(files) => dwarf_walk(object_source(*file), little_endian) == Some(views(files@))
                && sorted_by_path(views(files@)) && no_full_duplicates(views(files@))
                && all_records(views(files@), |r: FileInfoView| zero_is_absent(r)),
            Err(e) => e is Dwarf && dwarf_walk(object_source(*file), little_endian) is None,
        },
{
    let ghost b = object_source(*file);
    let sections = match load_sections(file) {
        Ok(s) => s,
        Err(e) => return Err(ParseError::Dwarf { source: e }),
    };
    let dwarf = borrow_sections(&sections, endianness(little_endian));
    let mut headers = unit_headers(&dwarf);
    let mut files: Vec<FileInfo> = Vec::new();
    let ghost mut u: nat = 0;
    assert(views(files@) =~= dwarf_records_before(b, little_endian, 0));
    loop
        invariant
            b == object_source(*file),
            reader_origin(dwarf) == (b, little_endian),
            headers_origin(headers) == (b, little_endian, u),
            forall|k: nat| k < u ==> #[trigger] unit_ok(b, little_endian, k),
            views(files@) == dwarf_records_before(b, little_endian, u),
            all_records(views(files@), |r: FileInfoView| zero_is_absent(r)),
        decreases headers_left(headers),
    {
        let header = match next_header(&mut headers) {
            Ok(Some(h)) => h,
            Ok(None) => {
                proof {
                    lemma_walk_ends(b, little_endian, u);
                    lemma_normalized_all(views(files@), |r: FileInfoView| zero_is_absent(r));
                }
                return Ok(normalize(files));
            },
            Err(e) => {
                proof {
                    lemma_walk_fails(b, little_endian, u);
                }
                return Err(ParseError::Dwarf { source: e });
            },
        };
        let unit = match decode_unit(&dwarf, header) {
            Ok(decoded) => decoded,
            Err(e) => {
                proof {
                    lemma_walk_fails(b, little_endian, u);
                }
                return Err(ParseError::Dwarf { source: e });
            },
        };
        let mut found = match unit_records(&dwarf, &unit) {
            Ok(f) => f,
            Err(e) => {
                proof {
                    lemma_walk_fails(b, little_endian, u);
                }
                return Err(e);
            },
        };
        let ghost before = views(files@);
        let ghost added = views(found@);
        files.append(&mut found);
        proof {
            assert(views(files@) =~= before + added);
            assert(unit_ok(b, little_endian, u));
            u = u + 1;
        }
    }
}

} // verus!
