//! The entry point: finds out which container the bytes hold and hands them
//! to the reader of that container's debug information.

use vstd::prelude::*;
use crate::dwarf_files::{
    object_debug_symbols, object_format, object_has_debug_symbols,
    object_is_little_endian, object_kind, object_parses, object_source, open_object,
    dwarf_walk, lemma_dwarf_walk_is_normal, object_little_endian, parse_elf_file,
    zero_is_absent, ContainerKind, ObjectFile,
};
use crate::error::ParseError;
use crate::normalize::{all_records, no_full_duplicates, sorted_by_path};
use crate::pdb_files::{
    is_pdb_record, lemma_pdb_walk_is_normal, parse_pdb, pdb_open, pdb_open_result, pdb_walk,
};
use crate::record::{views, FileInfo, FileInfoView};

verus! {

/// What to do with the bytes once the PDB reader has seen them.
#[derive(Debug, Clone, Copy, PartialEq, Eq, Structural)]
pub enum Probe {
    /// They opened as a PDB container: read its file tables.
    Pdb,
    /// They are no PDB container: try them as an object file.
    Object,
    /// They are a PDB container that is broken: fail, and try nothing else.
    Fail,
}

/// What to do with an object file that was parsed.
#[derive(Debug, Clone, Copy, PartialEq, Eq, Structural)]
pub enum Route {
    /// Read its DWARF information.
    Dwarf,
    /// Fail: it carries no debug symbols that are read from it.
    MissingDebugSymbols,
    /// Fail: its kind is not known.
    UnrecognizedFileFormat,
    /// Fail: its kind is known, and reading it is not written yet.
    Unimplemented,
}

/// The decision after the PDB reader's attempt: bytes that open as PDB go to
/// the PDB reader, whatever else they may be; only the signal that they are
/// no PDB at all lets the object reader try.
pub open spec fn probe_spec(opened: bool, unrecognized: bool) -> Probe {
    if opened {
        Probe::Pdb
    } else if unrecognized {
        Probe::Object
    } else {
        Probe::Fail
    }
}

/// The decision on a parsed object file. Without debug symbols there is
/// nothing to read. With them, ELF and Mach-O hold DWARF; COFF and PE keep
/// theirs in a PDB and count as having none; WebAssembly is not read yet;
/// any other kind is unknown.
pub open spec fn route_spec(has_debug_symbols: bool, kind: ContainerKind) -> Route {
    if !has_debug_symbols {
        Route::MissingDebugSymbols
    } else {
        match kind {
            ContainerKind::Elf | ContainerKind::MachO => Route::Dwarf,
            ContainerKind::Coff | ContainerKind::Pe => Route::MissingDebugSymbols,
            ContainerKind::Wasm => Route::Unimplemented,
            ContainerKind::Other => Route::UnrecognizedFileFormat,
        }
    }
}

/// Decides what follows the PDB reader's attempt to open the bytes.
pub fn probe_outcome(opened: bool, unrecognized: bool) -> (r: Probe)
    ensures
        r == probe_spec(opened, unrecognized),
        opened ==> r == Probe::Pdb,
        !opened && unrecognized ==> r == Probe::Object,
{
    if opened {
        Probe::Pdb
    } else if unrecognized {
        Probe::Object
    } else {
        Probe::Fail
    }
}

/// Decides what to do with a parsed object file.
pub fn route_object(has_debug_symbols: bool, kind: ContainerKind) -> (r: Route)
    ensures
        r == route_spec(has_debug_symbols, kind),
        !has_debug_symbols ==> r == Route::MissingDebugSymbols,
{
    if !has_debug_symbols {
        return Route::MissingDebugSymbols;
    }
    match kind {
        ContainerKind::Elf => Route::Dwarf,
        ContainerKind::MachO => Route::Dwarf,
        ContainerKind::Coff => Route::MissingDebugSymbols,
        ContainerKind::Pe => Route::MissingDebugSymbols,
        ContainerKind::Wasm => Route::Unimplemented,
        ContainerKind::Other => Route::UnrecognizedFileFormat,
    }
}

/// A list of records as either reader returns it: sorted by path, free of
/// exact duplicates, and all of one origin.
pub open spec fn is_file_list(s: Seq<FileInfoView>) -> bool {
    &&& sorted_by_path(s)
    &&& no_full_duplicates(s)
    &&& (all_records(s, |r: FileInfoView| is_pdb_record(r)) || all_records(
        s,
        |r: FileInfoView| zero_is_absent(r),
    ))
}

/// What comes of a parsed object file once its route is decided: on the
/// route to DWARF the list that the walk gives, or a failure of the decoder
/// where the walk gives none; on every other route the error that the route
/// names. The route `Unimplemented` has no outcome.
pub open spec fn routed_result(
    route: Route,
    walk: Option<Seq<FileInfoView>>,
    r: Result<Vec<FileInfo>, ParseError>,
) -> bool {
    match route {
        Route::Dwarf => match r {
            Ok(files) => walk == Some(views(files@)),
            Err(e) => e is Dwarf && walk is None,
        },
        Route::MissingDebugSymbols => r matches Err(e) && e is MissingDebugSymbols,
        Route::UnrecognizedFileFormat => r matches Err(e) && e is UnrecognizedFileFormat,
        Route::Unimplemented => false,
    }
}

/// The route of the object file of these bytes.
pub open spec fn object_route(contents: Seq<u8>) -> Route {
    route_spec(object_debug_symbols(contents), object_format(contents))
}

/// What comes of bytes that the PDB reader does not know: a failure of the
/// object layer where the object reader does not take them either, else what
/// the route of the parsed file gives, the DWARF walk being that of this
/// file in the file's own byte order.
pub open spec fn object_result(contents: Seq<u8>, r: Result<Vec<FileInfo>, ParseError>) -> bool {
    if object_parses(contents) {
        routed_result(
            object_route(contents),
            dwarf_walk(contents, object_little_endian(contents)),
            r,
        )
    } else {
        r matches Err(e) && e is Object
    }
}

/// What comes of bytes: where the PDB reader opens them, the list that the
/// PDB walk gives or a failure of the PDB layer where it gives none,
/// whatever else the bytes may be; where it fails and the bytes are a PDB
/// container, that failure; only where it says that they are none, what the
/// object reader makes of them.
pub open spec fn parse_result(contents: Seq<u8>, r: Result<Vec<FileInfo>, ParseError>) -> bool {
    match pdb_open_result(contents) {
        Ok(_) => match r {
            Ok(files) => pdb_walk(contents) == Some(views(files@)),
            Err(e) => e is Pdb && pdb_walk(contents) is None,
        },
        Err(unrecognized) => if unrecognized {
            object_result(contents, r)
        } else {
            r matches Err(e) && e is Pdb
        },
    }
}

/// The bytes are a WebAssembly module with debug symbols, which is not read
/// yet: no list and no error is defined for them.
pub open spec fn unimplemented_input(contents: Seq<u8>) -> bool {
    pdb_open_result(contents) == Err::<(), bool>(true) && object_parses(contents) && object_route(
        contents,
    ) == Route::Unimplemented
}

/// Decoding is a function of the bytes: two outcomes of the same bytes are
/// both lists, equal record by record on all four fields, or both failures
/// of the same layer.
pub proof fn lemma_same_bytes_same_outcome(
    contents: Seq<u8>,
    first: Result<Vec<FileInfo>, ParseError>,
    second: Result<Vec<FileInfo>, ParseError>,
)
    requires
        !unimplemented_input(contents),
        parse_result(contents, first),
        parse_result(contents, second),
    ensures
        first is Ok <==> second is Ok,
        first matches Ok(a) ==> second matches Ok(b) && views(a@) == views(b@),
        first matches Err(e) ==> second matches Err(f) && {
            &&& e is MissingDebugSymbols <==> f is MissingDebugSymbols
            &&& e is UnrecognizedFileFormat <==> f is UnrecognizedFileFormat
            &&& e is Dwarf <==> f is Dwarf
            &&& e is Object <==> f is Object
            &&& e is Pdb <==> f is Pdb
        },
{
}

/// Does with a parsed object file what was decided: reads its DWARF
/// information in the given byte order, or fails with the error that the
/// decision names.
pub fn parse_routed(file: &ObjectFile<'_>, little_endian: bool, route: Route) -> (r: Result<
    Vec<FileInfo>,
    ParseError,
>)
    requires
        route != Route::Unimplemented,
    ensures
        routed_result(route, dwarf_walk(object_source(*file), little_endian), r),
        r matches Ok(files) ==> is_file_list(views(files@)),
{
    match route {
        Route::Dwarf => parse_elf_file(file, little_endian),
        Route::MissingDebugSymbols => Err(ParseError::MissingDebugSymbols),
        Route::UnrecognizedFileFormat => Err(ParseError::UnrecognizedFileFormat),
        Route::Unimplemented => unreached(),
    }
}

/// Where the PDB reader says that the bytes are no PDB container and the
/// object reader takes them, the outcome is that of the object file's
/// route: no failure of the PDB layer or of the object layer comes of the
/// probe that failed.
pub proof fn lemma_fallback_goes_by_the_route(
    contents: Seq<u8>,
    r: Result<Vec<FileInfo>, ParseError>,
)
    requires
        parse_result(contents, r),
        pdb_open_result(contents) == Err::<(), bool>(true),
        object_parses(contents),
    ensures
        routed_result(
            object_route(contents),
            dwarf_walk(contents, object_little_endian(contents)),
            r,
        ),
        r matches Err(e) ==> !(e is Pdb) && !(e is Object),
{
}

/// Whatever the bytes, a list that comes of them is sorted by path and
/// holds no two records that agree on all four fields.
pub proof fn lemma_outcome_is_normal(contents: Seq<u8>, r: Result<Vec<FileInfo>, ParseError>)
    requires
        parse_result(contents, r),
    ensures
        r matches Ok(files) ==> sorted_by_path(views(files@)) && no_full_duplicates(
            views(files@),
        ),
{
    lemma_pdb_walk_is_normal(contents);
    lemma_dwarf_walk_is_normal(contents, object_little_endian(contents));
}

/// Lists the source files of a parsed object file: asks the file for its
/// byte order, whether it has debug symbols, and its kind, and goes by
/// `route_object`. A file without debug symbols, and a COFF or PE file with
/// them, fails with `MissingDebugSymbols`; an ELF or Mach-O file with them
/// is read as DWARF in the file's byte order; a file of an unknown kind
/// fails as unrecognized. A WebAssembly module with debug symbols is not
/// admitted: `try_parse_object` tells it apart.
pub fn parse_object(file: &ObjectFile<'_>) -> (r: Result<Vec<FileInfo>, ParseError>)
    requires
        object_route(object_source(*file)) != Route::Unimplemented,
    ensures
        routed_result(
            object_route(object_source(*file)),
            dwarf_walk(object_source(*file), object_little_endian(object_source(*file))),
            r,
        ),
        r matches Ok(files) ==> is_file_list(views(files@)),
{
    let little_endian = object_is_little_endian(file);
    let route = route_object(object_has_debug_symbols(file), object_kind(file));
    parse_routed(file, little_endian, route)
}

/// Lists the source files of any parsed object file: none for a WebAssembly
/// module with debug symbols, which is not read yet, else what
/// `parse_object` gives.
pub fn try_parse_object(file: &ObjectFile<'_>) -> (r: Option<Result<Vec<FileInfo>, ParseError>>)
    ensures
        r is None <==> object_route(object_source(*file)) == Route::Unimplemented,
        r matches Some(x) ==> routed_result(
            object_route(object_source(*file)),
            dwarf_walk(object_source(*file), object_little_endian(object_source(*file))),
            x,
        ),
        r matches Some(Ok(files)) ==> is_file_list(views(files@)),
{
    match route_object(object_has_debug_symbols(file), object_kind(file)) {
        Route::Unimplemented => None,
        _ => Some(parse_object(file)),
    }
}

/// Lists the source files that the binary in `contents` was built from. The
/// bytes are first tried as a PDB container, and as an object file only
/// where the PDB reader says that they are no PDB at all. A WebAssembly
/// module with debug symbols is not admitted: `try_parse` tells it apart.
pub fn parse(contents: &[u8]) -> (r: Result<Vec<FileInfo>, ParseError>)
    requires
        !unimplemented_input(contents@),
    ensures
        parse_result(contents@, r),
        match r {
            Ok(files) => is_file_list(views(files@)),
            Err(e) => !(e is Io),
        },
{
    match try_parse(contents) {
        Some(r) => r,
        None => unreached(),
    }
}

/// Lists the source files of any bytes: none for a WebAssembly module with
/// debug symbols, which is not read yet. The bytes are first tried as a PDB
/// container, and as an object file only where the PDB reader says that
/// they are no PDB at all.
pub fn try_parse(contents: &[u8]) -> (r: Option<Result<Vec<FileInfo>, ParseError>>)
    ensures
        r is None <==> unimplemented_input(contents@),
        r matches Some(x) ==> parse_result(contents@, x),
        r matches Some(Ok(files)) ==> is_file_list(views(files@)),
        r matches Some(Err(e)) ==> !(e is Io),
{
    match pdb_open(contents) {
        Ok(pdb) => Some(parse_pdb(pdb)),
        Err(e) => match probe_outcome(false, e.0) {
            Probe::Object => match open_object(contents) {
                Ok(file) => try_parse_object(&file),
                Err(e) => Some(Err(e)),
            },
            _ => Some(Err(ParseError::Pdb { source: e.1 })),
        },
    }
}

} // verus!
