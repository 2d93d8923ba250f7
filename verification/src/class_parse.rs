//! A minimal front end that checks only the fixed header of a class file: the
//! magic sentinel and the version words. It accepts a buffer whose header is
//! well formed and reads nothing beyond the major version.

use crate::reader::{spec_read_u16, spec_read_u32, Reader};
use vstd::prelude::*;

verus! {

/// The record of a header check that succeeded. The header carries no data
/// worth keeping beyond the fact that it was accepted.
pub struct ClassFile {}

/// The first point of failure of a header check.
#[derive(Debug, Clone, Copy, PartialEq, Eq)]
pub enum ParserError {
    InvalidMagicHeader,
    ReadFailure,
    UnsupportedVersion,
}

/// The whole header check: four magic bytes, the minor version (discarded),
/// and the single supported major version.
pub open spec fn spec_parse(s: Seq<u8>) -> Result<(), ParserError> {
    match spec_read_u32(s, 0) {
        None => Err(ParserError::ReadFailure),
        Some((magic, p1)) => {
            if magic != crate::class_file::MAGIC_HEADER {
                Err(ParserError::InvalidMagicHeader)
            } else {
                match spec_read_u16(s, p1) {
                    None => Err(ParserError::ReadFailure),
                    Some((_minor, p2)) => match spec_read_u16(s, p2) {
                        None => Err(ParserError::ReadFailure),
                        Some((major, _p3)) => {
                            if major != crate::class_file::SUPPORTED_MAJOR_VERSION {
                                Err(ParserError::UnsupportedVersion)
                            } else {
                                Ok(())
                            }
                        },
                    },
                }
            }
        },
    }
}

/// Checks the fixed header at offset 0 of `bytes`, returning exactly what
/// `spec_parse` describes.
pub fn parse(bytes: &[u8]) -> (r: Result<ClassFile, ParserError>)
    ensures
        match spec_parse(bytes@) {
            Ok(_) => r is Ok,
            Err(e) => r matches Err(e2) && e2 == e,
        },
{
    let mut reader = Reader::new(bytes);
    let magic = match reader.read_u32() {
        Some(v) => v,
        None => {
            return Err(ParserError::ReadFailure);
        },
    };
    if magic != crate::class_file::MAGIC_HEADER {
        return Err(ParserError::InvalidMagicHeader);
    }
    // The minor version is accepted but unchecked.
    if reader.read_u16().is_none() {
        return Err(ParserError::ReadFailure);
    }
    let major = match reader.read_u16() {
        Some(v) => v,
        None => {
            return Err(ParserError::ReadFailure);
        },
    };
    if major != crate::class_file::SUPPORTED_MAJOR_VERSION {
        return Err(ParserError::UnsupportedVersion);
    }
    Ok(ClassFile {  })
}

} // verus!
