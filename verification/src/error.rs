//! Why a list of source files could not be had.

use vstd::prelude::*;

verus! {

/// Errors of the PDB reader, carried through as the cause of a failure.
#[verifier::external_type_specification]
#[verifier::external_body]
pub struct ExPdbError(pdb::Error);

/// Errors of the object file reader, carried through as the cause of a failure.
#[verifier::external_type_specification]
#[verifier::external_body]
pub struct ExObjectError(object::Error);

/// Errors of the DWARF decoder, carried through as the cause of a failure.
#[verifier::external_type_specification]
#[verifier::external_body]
pub struct ExDwarfError(gimli::Error);

/// Errors of reading the input, carried through as the cause of a failure.
#[verifier::external_type_specification]
#[verifier::external_body]
pub struct ExIoError(std::io::Error);

/// Possible errors of listing the source files of a binary.
#[derive(Debug)]
#[allow(inconsistent_fields)]
pub enum ParseError {
    /// The binary is of a known format but holds no debug symbols.
    MissingDebugSymbols,
    /// The format of the binary is unknown.
    UnrecognizedFileFormat,
    /// Reading the input failed.
    Io { source: std::io::Error },
    /// The DWARF information could not be decoded.
    Dwarf { source: gimli::Error },
    /// The ELF or Mach-O container could not be parsed.
    Object { source: object::Error },
    /// The PDB container could not be parsed.
    Pdb { source: pdb::Error },
}

impl ParseError {
    /// What the error says to a reader.
    pub fn message(&self) -> (r: &'static str)
        ensures
            r@ == match self {
                ParseError::MissingDebugSymbols => "File was missing debug symbols"@,
                ParseError::UnrecognizedFileFormat => "File format was unrecognized"@,
                ParseError::Io { .. } => "Error occured reading input data"@,
                ParseError::Dwarf { .. } => "Error occured while parsing Dwarf information"@,
                ParseError::Object { .. } => "Error occured while parsing ELF or Macho-O file"@,
                ParseError::Pdb { .. } => "Error occured while parsing PDB file"@,
            },
    {
        match self {
            ParseError::MissingDebugSymbols => "File was missing debug symbols",
            ParseError::UnrecognizedFileFormat => "File format was unrecognized",
            ParseError::Io { .. } => "Error occured reading input data",
            ParseError::Dwarf { .. } => "Error occured while parsing Dwarf information",
            ParseError::Object { .. } => "Error occured while parsing ELF or Macho-O file",
            ParseError::Pdb { .. } => "Error occured while parsing PDB file",
        }
    }
}

} // verus!
