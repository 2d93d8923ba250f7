//! The class-file parser: a strictly linear scan of a byte buffer that decodes
//! the fixed header, the constant pool, the class and superclass names, and
//! the field table, and fails with a structured error at the first malformed
//! or unsupported field.
//!
//! `spec_parse` is the mathematical description of the whole scan; `parse`
//! returns exactly what it describes.

use crate::constant_pool::{
    class_name_at, pool_valid, utf8_at, Constant, ConstantModel, ConstantPool,
};
use crate::reader::{
    lemma_read_bytes_prefix, lemma_read_u16_prefix, lemma_read_u32_prefix, lemma_read_u64_prefix,
    lemma_read_u8_prefix, lemma_skip_prefix,
    spec_read_bytes, spec_read_u16, spec_read_u32, spec_read_u64, spec_read_u8, spec_skip, Reader,
};
use vstd::prelude::*;
use vstd::utf8::{decode_utf8, valid_utf8};

verus! {

/// The tag byte that announces each constant-pool entry kind on the wire.
pub const TAG_UTF8: u8 = 1;

pub const TAG_INTEGER: u8 = 3;

pub const TAG_FLOAT: u8 = 4;

pub const TAG_LONG: u8 = 5;

pub const TAG_DOUBLE: u8 = 6;

pub const TAG_CLASS: u8 = 7;

pub const TAG_FIELD_REF: u8 = 9;

pub const TAG_METHOD_REF: u8 = 10;

pub const TAG_NAME_AND_TYPE: u8 = 12;

/// The fixed four-byte sentinel every class file starts with.
pub const MAGIC_HEADER: u32 = 0xCAFEBABE;

/// The single supported major version.
pub const SUPPORTED_MAJOR_VERSION: u16 = 61;

/// The first point of failure of a parse; every error aborts it immediately,
/// with no partial record and no recovery.
#[derive(Debug, Clone, Copy, PartialEq, Eq)]
pub enum ParserError {
    InvalidMagicHeader,
    ReadFailure,
    UnsupportedVersion,
    InvalidConstantTag,
    InvalidConstantPool,
    InvalidUtf8Encoding,
}

/// A field of the class: its name and its type descriptor, both resolved to
/// `Utf8` text through the constant pool.
#[derive(Debug)]
pub struct Field {
    name: String,
    descriptor: String,
}

/// The mathematical value of a `Field`.
pub struct FieldModel {
    pub name: Seq<char>,
    pub descriptor: Seq<char>,
}

impl View for Field {
    type V = FieldModel;

    closed spec fn view(&self) -> FieldModel {
        FieldModel { name: self.name@, descriptor: self.descriptor@ }
    }
}

impl Field {
    /// The field's name.
    pub fn name(&self) -> (r: &str)
        ensures
            r@ == self@.name,
    {
        self.name.as_str()
    }

    /// The field's type descriptor.
    pub fn descriptor(&self) -> (r: &str)
        ensures
            r@ == self@.descriptor,
    {
        self.descriptor.as_str()
    }
}

/// A completed class-file record: the validated constant pool, the resolved
/// class and superclass names, and the field table. Constructed exactly once
/// by a successful `parse` and immutable thereafter.
#[derive(Debug)]
pub struct ClassFile {
    constant_pool: ConstantPool,
    this_name: String,
    super_name: String,
    fields: Vec<Field>,
}

/// The mathematical value of a `ClassFile`.
pub struct ClassFileModel {
    pub constant_pool: Seq<ConstantModel>,
    pub this_name: Seq<char>,
    pub super_name: Seq<char>,
    pub fields: Seq<FieldModel>,
}

impl View for ClassFile {
    type V = ClassFileModel;

    closed spec fn view(&self) -> ClassFileModel {
        ClassFileModel {
            constant_pool: self.constant_pool@,
            this_name: self.this_name@,
            super_name: self.super_name@,
            fields: self.fields@.map_values(|f: Field| f@),
        }
    }
}

/// The two's-complement value of four big-endian payload bytes, as a signed
/// 32-bit integer.
pub open spec fn i32_from_bits(u: u32) -> i32 {
    if u < 0x80000000 {
        u as i32
    } else {
        (u - 0x100000000) as i32
    }
}

/// The two's-complement value of eight big-endian payload bytes, as a signed
/// 64-bit integer.
pub open spec fn i64_from_bits(u: u64) -> i64 {
    if u < 0x8000000000000000 {
        u as i64
    } else {
        (u - 0x10000000000000000) as i64
    }
}

fn i32_from_be(u: u32) -> (r: i32)
    ensures
        r == i32_from_bits(u),
{
    if u >= 0x80000000 {
        let d = u - 0x80000000;
        -0x7fffffffi32 - 1 + (d as i32)
    } else {
        u as i32
    }
}

fn i64_from_be(u: u64) -> (r: i64)
    ensures
        r == i64_from_bits(u),
{
    if u >= 0x8000000000000000 {
        let d = u - 0x8000000000000000;
        -0x7fffffffffffffffi64 - 1 + (d as i64)
    } else {
        u as i64
    }
}

/// Relies on str::from_utf8: it returns Ok exactly on the byte sequences that
/// are valid UTF-8, and the resulting string holds the characters those bytes
/// encode.
#[verifier::external_body]
fn utf8_to_string(bytes: &[u8]) -> (r: Option<String>)
    ensures
        r is Some <==> valid_utf8(bytes@),
        r matches Some(s) ==> s@ == decode_utf8(bytes@),
{
    match core::str::from_utf8(bytes) {
        Ok(s) => Some(s.to_owned()),
        Err(_) => None,
    }
}

/// One constant-pool entry decoded from `pos`: its tag byte, then its fixed or
/// length-prefixed payload. A wire index of zero is reserved and never
/// references an entry, so it fails as an invalid pool reference.
pub open spec fn spec_parse_constant(s: Seq<u8>, pos: int) -> Result<
    (ConstantModel, int),
    ParserError,
> {
    match spec_read_u8(s, pos) {
        None => Err(ParserError::ReadFailure),
        Some((tag, p)) => {
            if tag == TAG_CLASS {
                match spec_read_u16(s, p) {
                    None => Err(ParserError::ReadFailure),
                    Some((raw, p2)) => {
                        if raw == 0 {
                            Err(ParserError::InvalidConstantPool)
                        } else {
                            Ok((ConstantModel::Class { name_index: raw - 1 }, p2))
                        }
                    },
                }
            } else if tag == TAG_NAME_AND_TYPE {
                match spec_read_u16(s, p) {
                    None => Err(ParserError::ReadFailure),
                    Some((raw_n, p2)) => {
                        if raw_n == 0 {
                            Err(ParserError::InvalidConstantPool)
                        } else {
                            match spec_read_u16(s, p2) {
                                None => Err(ParserError::ReadFailure),
                                Some((raw_d, p3)) => {
                                    if raw_d == 0 {
                                        Err(ParserError::InvalidConstantPool)
                                    } else {
                                        Ok(
                                            (
                                                ConstantModel::NameAndType {
                                                    name_index: raw_n - 1,
                                                    descriptor_index: raw_d - 1,
                                                },
                                                p3,
                                            ),
                                        )
                                    }
                                },
                            }
                        }
                    },
                }
            } else if tag == TAG_METHOD_REF {
                match spec_read_u16(s, p) {
                    None => Err(ParserError::ReadFailure),
                    Some((raw_c, p2)) => {
                        if raw_c == 0 {
                            Err(ParserError::InvalidConstantPool)
                        } else {
                            match spec_read_u16(s, p2) {
                                None => Err(ParserError::ReadFailure),
                                Some((raw_nt, p3)) => {
                                    if raw_nt == 0 {
                                        Err(ParserError::InvalidConstantPool)
                                    } else {
                                        Ok(
                                            (
                                                ConstantModel::MethodRef {
                                                    class_index: raw_c - 1,
                                                    name_and_type_index: raw_nt - 1,
                                                },
                                                p3,
                                            ),
                                        )
                                    }
                                },
                            }
                        }
                    },
                }
            } else if tag == TAG_FIELD_REF {
                match spec_read_u16(s, p) {
                    None => Err(ParserError::ReadFailure),
                    Some((raw_c, p2)) => {
                        if raw_c == 0 {
                            Err(ParserError::InvalidConstantPool)
                        } else {
                            match spec_read_u16(s, p2) {
                                None => Err(ParserError::ReadFailure),
                                Some((raw_nt, p3)) => {
                                    if raw_nt == 0 {
                                        Err(ParserError::InvalidConstantPool)
                                    } else {
                                        Ok(
                                            (
                                                ConstantModel::FieldRef {
                                                    class_index: raw_c - 1,
                                                    name_and_type_index: raw_nt - 1,
                                                },
                                                p3,
                                            ),
                                        )
                                    }
                                },
                            }
                        }
                    },
                }
            } else if tag == TAG_UTF8 {
                match spec_read_u16(s, p) {
                    None => Err(ParserError::ReadFailure),
                    Some((len, p2)) => {
                        match spec_read_bytes(s, p2, len as int) {
                            None => Err(ParserError::ReadFailure),
                            Some((raw, p3)) => {
                                if valid_utf8(raw) {
                                    Ok((ConstantModel::Utf8 { text: decode_utf8(raw) }, p3))
                                } else {
                                    Err(ParserError::InvalidUtf8Encoding)
                                }
                            },
                        }
                    },
                }
            } else if tag == TAG_INTEGER {
                match spec_read_u32(s, p) {
                    None => Err(ParserError::ReadFailure),
                    Some((v, p2)) => Ok((ConstantModel::Integer { value: i32_from_bits(v) }, p2)),
                }
            } else if tag == TAG_FLOAT {
                match spec_read_u32(s, p) {
                    None => Err(ParserError::ReadFailure),
                    Some((v, p2)) => Ok((ConstantModel::Float { bits: v }, p2)),
                }
            } else if tag == TAG_LONG {
                match spec_read_u64(s, p) {
                    None => Err(ParserError::ReadFailure),
                    Some((v, p2)) => Ok((ConstantModel::Long { value: i64_from_bits(v) }, p2)),
                }
            } else if tag == TAG_DOUBLE {
                match spec_read_u64(s, p) {
                    None => Err(ParserError::ReadFailure),
                    Some((v, p2)) => Ok((ConstantModel::Double { bits: v }, p2)),
                }
            } else {
                Err(ParserError::InvalidConstantTag)
            }
        },
    }
}

/// `n` constant-pool entries decoded one after another from `pos`.
pub open spec fn spec_parse_constants(s: Seq<u8>, pos: int, n: nat) -> Result<
    (Seq<ConstantModel>, int),
    ParserError,
>
    decreases n,
{
    if n == 0 {
        Ok((Seq::empty(), pos))
    } else {
        match spec_parse_constant(s, pos) {
            Err(e) => Err(e),
            Ok((c, p)) => match spec_parse_constants(s, p, (n - 1) as nat) {
                Err(e) => Err(e),
                Ok((rest, p2)) => Ok((seq![c] + rest, p2)),
            },
        }
    }
}

/// The whole constant pool: a two-byte count that includes the reserved zero
/// slot, followed by one fewer entries than it says.
pub open spec fn spec_parse_pool(s: Seq<u8>, pos: int) -> Result<
    (Seq<ConstantModel>, int),
    ParserError,
> {
    match spec_read_u16(s, pos) {
        None => Err(ParserError::ReadFailure),
        Some((count, p)) => spec_parse_constants(
            s,
            p,
            if count >= 1 {
                (count - 1) as nat
            } else {
                0
            },
        ),
    }
}

/// The position after `n` attribute entries, each a two-byte name index, a
/// four-byte body length, and exactly that many body bytes; nothing when the
/// buffer runs out first.
pub open spec fn spec_skip_attributes(s: Seq<u8>, pos: int, n: nat) -> Option<int>
    decreases n,
{
    if n == 0 {
        Some(pos)
    } else {
        match spec_read_u16(s, pos) {
            None => None,
            Some((_name, p1)) => match spec_read_u32(s, p1) {
                None => None,
                Some((len, p2)) => match spec_skip(s, p2, len as int) {
                    None => None,
                    Some(p3) => spec_skip_attributes(s, p3, (n - 1) as nat),
                },
            },
        }
    }
}

/// One field-table entry decoded from `pos`: access flags (discarded), the
/// name and descriptor indices resolved to `Utf8` text through the pool, and
/// the attribute table fully skipped, bodies included.
pub open spec fn spec_parse_field(s: Seq<u8>, pos: int, pool: Seq<ConstantModel>) -> Result<
    (FieldModel, int),
    ParserError,
> {
    match spec_read_u16(s, pos) {
        None => Err(ParserError::ReadFailure),
        Some((_access, p1)) => match spec_read_u16(s, p1) {
            None => Err(ParserError::ReadFailure),
            Some((name_raw, p2)) => {
                if name_raw == 0 {
                    Err(ParserError::InvalidConstantPool)
                } else {
                    match spec_read_u16(s, p2) {
                        None => Err(ParserError::ReadFailure),
                        Some((desc_raw, p3)) => {
                            if desc_raw == 0 {
                                Err(ParserError::InvalidConstantPool)
                            } else {
                                match utf8_at(pool, name_raw - 1) {
                                    None => Err(ParserError::InvalidConstantPool),
                                    Some(name) => match utf8_at(pool, desc_raw - 1) {
                                        None => Err(ParserError::InvalidConstantPool),
                                        Some(descriptor) => match spec_read_u16(s, p3) {
                                            None => Err(ParserError::ReadFailure),
                                            Some((attr_count, p4)) => match spec_skip_attributes(
                                                s,
                                                p4,
                                                attr_count as nat,
                                            ) {
                                                None => Err(ParserError::ReadFailure),
                                                Some(p5) => Ok(
                                                    (FieldModel { name, descriptor }, p5),
                                                ),
                                            },
                                        },
                                    },
                                }
                            }
                        },
                    }
                }
            },
        },
    }
}

/// `n` field-table entries decoded one after another from `pos`.
pub open spec fn spec_parse_fields(s: Seq<u8>, pos: int, pool: Seq<ConstantModel>, n: nat) -> Result<
    (Seq<FieldModel>, int),
    ParserError,
>
    decreases n,
{
    if n == 0 {
        Ok((Seq::empty(), pos))
    } else {
        match spec_parse_field(s, pos, pool) {
            Err(e) => Err(e),
            Ok((f, p)) => match spec_parse_fields(s, p, pool, (n - 1) as nat) {
                Err(e) => Err(e),
                Ok((rest, p2)) => Ok((seq![f] + rest, p2)),
            },
        }
    }
}

/// The whole parse: magic sentinel, minor version (discarded), major version,
/// constant pool, pool validation, access flags (discarded), this/super class
/// indices, interface table (skipped), field table, and finally the class and
/// superclass names resolved through the validated pool.
pub open spec fn spec_parse(s: Seq<u8>) -> Result<ClassFileModel, ParserError> {
    match spec_read_u32(s, 0) {
        None => Err(ParserError::ReadFailure),
        Some((magic, p1)) => {
            if magic != MAGIC_HEADER {
                Err(ParserError::InvalidMagicHeader)
            } else {
                match spec_read_u16(s, p1) {
                    None => Err(ParserError::ReadFailure),
                    Some((_minor, p2)) => match spec_read_u16(s, p2) {
                        None => Err(ParserError::ReadFailure),
                        Some((major, p3)) => {
                            if major != SUPPORTED_MAJOR_VERSION {
                                Err(ParserError::UnsupportedVersion)
                            } else {
                                match spec_parse_pool(s, p3) {
                                    Err(e) => Err(e),
                                    Ok((pool, p4)) => {
                                        if !pool_valid(pool) {
                                            Err(ParserError::InvalidConstantPool)
                                        } else {
                                            spec_parse_tail(s, p4, pool)
                                        }
                                    },
                                }
                            }
                        },
                    },
                }
            }
        },
    }
}

/// What follows the validated pool: access flags, this/super indices, the
/// interface table, the field table, and the name resolutions.
pub open spec fn spec_parse_tail(s: Seq<u8>, pos: int, pool: Seq<ConstantModel>) -> Result<
    ClassFileModel,
    ParserError,
> {
    match spec_read_u16(s, pos) {
        None => Err(ParserError::ReadFailure),
        Some((_access, p5)) => match spec_read_u16(s, p5) {
            None => Err(ParserError::ReadFailure),
            Some((this_raw, p6)) => {
                if this_raw == 0 {
                    Err(ParserError::InvalidConstantPool)
                } else {
                    match spec_read_u16(s, p6) {
                        None => Err(ParserError::ReadFailure),
                        Some((super_raw, p7)) => {
                            if super_raw == 0 {
                                Err(ParserError::InvalidConstantPool)
                            } else {
                                match spec_read_u16(s, p7) {
                                    None => Err(ParserError::ReadFailure),
                                    Some((ifc_count, p8)) => match spec_skip(
                                        s,
                                        p8,
                                        2 * ifc_count,
                                    ) {
                                        None => Err(ParserError::ReadFailure),
                                        Some(p9) => match spec_read_u16(s, p9) {
                                            None => Err(ParserError::ReadFailure),
                                            Some((field_count, p10)) => match spec_parse_fields(
                                                s,
                                                p10,
                                                pool,
                                                field_count as nat,
                                            ) {
                                                Err(e) => Err(e),
                                                Ok((fields, _p11)) => match class_name_at(
                                                    pool,
                                                    this_raw - 1,
                                                ) {
                                                    None => Err(ParserError::InvalidConstantPool),
                                                    Some(this_name) => match class_name_at(
                                                        pool,
                                                        super_raw - 1,
                                                    ) {
                                                        None => Err(
                                                            ParserError::InvalidConstantPool,
                                                        ),
                                                        Some(super_name) => Ok(
                                                            ClassFileModel {
                                                                constant_pool: pool,
                                                                this_name,
                                                                super_name,
                                                                fields,
                                                            },
                                                        ),
                                                    },
                                                },
                                            },
                                        },
                                    },
                                }
                            }
                        },
                    }
                }
            },
        },
    }
}

/// Decoding one constant from a prefix of a buffer either agrees exactly with
/// decoding it from the whole buffer, or stops with a read failure.
proof fn lemma_parse_constant_prefix(s: Seq<u8>, k: int, pos: int)
    requires
        0 <= k <= s.len(),
    ensures
        spec_parse_constant(s.subrange(0, k), pos) == spec_parse_constant(s, pos)
            || spec_parse_constant(s.subrange(0, k), pos) == Err::<
            (ConstantModel, int),
            ParserError,
        >(ParserError::ReadFailure),
{
    let p = s.subrange(0, k);
    lemma_read_u8_prefix(s, k, pos);
    match spec_read_u8(p, pos) {
        None => {},
        Some((tag, p1)) => {
            if tag == TAG_CLASS {
                lemma_read_u16_prefix(s, k, p1);
            } else if tag == TAG_NAME_AND_TYPE || tag == TAG_METHOD_REF || tag == TAG_FIELD_REF {
                lemma_read_u16_prefix(s, k, p1);
                match spec_read_u16(p, p1) {
                    None => {},
                    Some((_raw, p2)) => {
                        lemma_read_u16_prefix(s, k, p2);
                    },
                }
            } else if tag == TAG_UTF8 {
                lemma_read_u16_prefix(s, k, p1);
                match spec_read_u16(p, p1) {
                    None => {},
                    Some((len, p2)) => {
                        lemma_read_bytes_prefix(s, k, p2, len as int);
                    },
                }
            } else if tag == TAG_INTEGER || tag == TAG_FLOAT {
                lemma_read_u32_prefix(s, k, p1);
            } else if tag == TAG_LONG || tag == TAG_DOUBLE {
                lemma_read_u64_prefix(s, k, p1);
            }
        },
    }
}

/// Decoding a run of constants from a prefix of a buffer either agrees
/// exactly with decoding it from the whole buffer, or stops with a read
/// failure.
proof fn lemma_parse_constants_prefix(s: Seq<u8>, k: int, pos: int, n: nat)
    requires
        0 <= k <= s.len(),
    ensures
        spec_parse_constants(s.subrange(0, k), pos, n) == spec_parse_constants(s, pos, n)
            || spec_parse_constants(s.subrange(0, k), pos, n) == Err::<
            (Seq<ConstantModel>, int),
            ParserError,
        >(ParserError::ReadFailure),
    decreases n,
{
    let p = s.subrange(0, k);
    if n != 0 {
        lemma_parse_constant_prefix(s, k, pos);
        match spec_parse_constant(p, pos) {
            Err(_) => {},
            Ok((_c, p2)) => {
                lemma_parse_constants_prefix(s, k, p2, (n - 1) as nat);
            },
        }
    }
}

/// Decoding the constant pool from a prefix of a buffer either agrees exactly
/// with decoding it from the whole buffer, or stops with a read failure.
proof fn lemma_parse_pool_prefix(s: Seq<u8>, k: int, pos: int)
    requires
        0 <= k <= s.len(),
    ensures
        spec_parse_pool(s.subrange(0, k), pos) == spec_parse_pool(s, pos) || spec_parse_pool(
            s.subrange(0, k),
            pos,
        ) == Err::<(Seq<ConstantModel>, int), ParserError>(ParserError::ReadFailure),
{
    let p = s.subrange(0, k);
    lemma_read_u16_prefix(s, k, pos);
    match spec_read_u16(p, pos) {
        None => {},
        Some((count, p1)) => {
            lemma_parse_constants_prefix(
                s,
                k,
                p1,
                if count >= 1 {
                    (count - 1) as nat
                } else {
                    0
                },
            );
        },
    }
}

/// Skipping an attribute table that fits inside a prefix of a buffer lands on
/// the same position as skipping it in the whole buffer.
proof fn lemma_skip_attributes_prefix(s: Seq<u8>, k: int, pos: int, n: nat)
    requires
        0 <= k <= s.len(),
    ensures
        spec_skip_attributes(s.subrange(0, k), pos, n) is Some ==> spec_skip_attributes(
            s.subrange(0, k),
            pos,
            n,
        ) == spec_skip_attributes(s, pos, n),
    decreases n,
{
    let p = s.subrange(0, k);
    if n != 0 {
        lemma_read_u16_prefix(s, k, pos);
        match spec_read_u16(p, pos) {
            None => {},
            Some((_name, p1)) => {
                lemma_read_u32_prefix(s, k, p1);
                match spec_read_u32(p, p1) {
                    None => {},
                    Some((len, p2)) => {
                        lemma_skip_prefix(s, k, p2, len as int);
                        match spec_skip(p, p2, len as int) {
                            None => {},
                            Some(p3) => {
                                lemma_skip_attributes_prefix(s, k, p3, (n - 1) as nat);
                            },
                        }
                    },
                }
            },
        }
    }
}

/// Decoding one field from a prefix of a buffer either agrees exactly with
/// decoding it from the whole buffer, or stops with a read failure.
proof fn lemma_parse_field_prefix(s: Seq<u8>, k: int, pos: int, pool: Seq<ConstantModel>)
    requires
        0 <= k <= s.len(),
    ensures
        spec_parse_field(s.subrange(0, k), pos, pool) == spec_parse_field(s, pos, pool)
            || spec_parse_field(s.subrange(0, k), pos, pool) == Err::<
            (FieldModel, int),
            ParserError,
        >(ParserError::ReadFailure),
{
    let p = s.subrange(0, k);
    lemma_read_u16_prefix(s, k, pos);
    match spec_read_u16(p, pos) {
        None => {},
        Some((_access, p1)) => {
            lemma_read_u16_prefix(s, k, p1);
            match spec_read_u16(p, p1) {
                None => {},
                Some((_name_raw, p2)) => {
                    lemma_read_u16_prefix(s, k, p2);
                    match spec_read_u16(p, p2) {
                        None => {},
                        Some((_desc_raw, p3)) => {
                            lemma_read_u16_prefix(s, k, p3);
                            match spec_read_u16(p, p3) {
                                None => {},
                                Some((attr_count, p4)) => {
                                    lemma_skip_attributes_prefix(s, k, p4, attr_count as nat);
                                },
                            }
                        },
                    }
                },
            }
        },
    }
}

/// Decoding the field table from a prefix of a buffer either agrees exactly
/// with decoding it from the whole buffer, or stops with a read failure.
proof fn lemma_parse_fields_prefix(s: Seq<u8>, k: int, pos: int, pool: Seq<ConstantModel>, n: nat)
    requires
        0 <= k <= s.len(),
    ensures
        spec_parse_fields(s.subrange(0, k), pos, pool, n) == spec_parse_fields(s, pos, pool, n)
            || spec_parse_fields(s.subrange(0, k), pos, pool, n) == Err::<
            (Seq<FieldModel>, int),
            ParserError,
        >(ParserError::ReadFailure),
    decreases n,
{
    let p = s.subrange(0, k);
    if n != 0 {
        lemma_parse_field_prefix(s, k, pos, pool);
        match spec_parse_field(p, pos, pool) {
            Err(_) => {},
            Ok((_f, p2)) => {
                lemma_parse_fields_prefix(s, k, p2, pool, (n - 1) as nat);
            },
        }
    }
}

/// Decoding everything after the pool from a prefix of a buffer either agrees
/// exactly with decoding it from the whole buffer, or stops with a read
/// failure.
proof fn lemma_parse_tail_prefix(s: Seq<u8>, k: int, pos: int, pool: Seq<ConstantModel>)
    requires
        0 <= k <= s.len(),
    ensures
        spec_parse_tail(s.subrange(0, k), pos, pool) == spec_parse_tail(s, pos, pool)
            || spec_parse_tail(s.subrange(0, k), pos, pool) == Err::<ClassFileModel, ParserError>(
            ParserError::ReadFailure,
        ),
{
    let p = s.subrange(0, k);
    lemma_read_u16_prefix(s, k, pos);
    match spec_read_u16(p, pos) {
        None => {},
        Some((_access, p5)) => {
            lemma_read_u16_prefix(s, k, p5);
            match spec_read_u16(p, p5) {
                None => {},
                Some((_this_raw, p6)) => {
                    lemma_read_u16_prefix(s, k, p6);
                    match spec_read_u16(p, p6) {
                        None => {},
                        Some((_super_raw, p7)) => {
                            lemma_read_u16_prefix(s, k, p7);
                            match spec_read_u16(p, p7) {
                                None => {},
                                Some((ifc_count, p8)) => {
                                    lemma_skip_prefix(s, k, p8, 2 * ifc_count);
                                    match spec_skip(p, p8, 2 * ifc_count) {
                                        None => {},
                                        Some(p9) => {
                                            lemma_read_u16_prefix(s, k, p9);
                                            match spec_read_u16(p, p9) {
                                                None => {},
                                                Some((field_count, p10)) => {
                                                    lemma_parse_fields_prefix(
                                                        s,
                                                        k,
                                                        p10,
                                                        pool,
                                                        field_count as nat,
                                                    );
                                                },
                                            }
                                        },
                                    }
                                },
                            }
                        },
                    }
                },
            }
        },
    }
}

/// Truncation changes the outcome of a parse only to a read failure: parsing
/// any prefix of a buffer yields either exactly the result of parsing the
/// whole buffer — when the cut spared every byte the scan consumes — or
/// `ReadFailure`, never a different record and never a different error.
pub proof fn lemma_parse_prefix(s: Seq<u8>, k: int)
    requires
        0 <= k <= s.len(),
    ensures
        spec_parse(s.subrange(0, k)) == spec_parse(s) || spec_parse(s.subrange(0, k)) == Err::<
            ClassFileModel,
            ParserError,
        >(ParserError::ReadFailure),
{
    let p = s.subrange(0, k);
    lemma_read_u32_prefix(s, k, 0);
    match spec_read_u32(p, 0) {
        None => {},
        Some((magic, p1)) => {
            if magic == MAGIC_HEADER {
                lemma_read_u16_prefix(s, k, p1);
                match spec_read_u16(p, p1) {
                    None => {},
                    Some((_minor, p2)) => {
                        lemma_read_u16_prefix(s, k, p2);
                        match spec_read_u16(p, p2) {
                            None => {},
                            Some((major, p3)) => {
                                if major == SUPPORTED_MAJOR_VERSION {
                                    lemma_parse_pool_prefix(s, k, p3);
                                    match spec_parse_pool(p, p3) {
                                        Err(_) => {},
                                        Ok((pool, p4)) => {
                                            lemma_parse_tail_prefix(s, k, p4, pool);
                                        },
                                    }
                                }
                            },
                        }
                    },
                }
            }
        },
    }
}

/// Converts a 1-based wire index into the 0-based pool index; index zero is
/// reserved and never references an entry. Every index read from the byte
/// stream goes through here, so the conversion can never underflow.
fn pool_index(raw: u16) -> (r: Option<usize>)
    ensures
        match r {
            Some(i) => raw != 0 && i == raw - 1,
            None => raw == 0,
        },
{
    if raw == 0 {
        None
    } else {
        Some((raw - 1) as usize)
    }
}

impl ClassFile {
    /// The class's own name.
    pub fn name(&self) -> (r: &str)
        ensures
            r@ == self@.this_name,
    {
        self.this_name.as_str()
    }

    /// The superclass's name.
    pub fn super_name(&self) -> (r: &str)
        ensures
            r@ == self@.super_name,
    {
        self.super_name.as_str()
    }

    /// The field table, in the order the fields stand in the buffer.
    pub fn fields(&self) -> (r: &Vec<Field>)
        ensures
            r@.map_values(|f: Field| f@) == self@.fields,
    {
        &self.fields
    }

    /// Parses a class file positioned at offset 0 of `bytes`, returning
    /// exactly what `spec_parse` describes: the completed record on success,
    /// the first point of failure otherwise.
    pub fn parse(bytes: &[u8]) -> (r: Result<ClassFile, ParserError>)
        ensures
            match spec_parse(bytes@) {
                Ok(m) => r matches Ok(cf) && cf@ == m,
                Err(e) => r matches Err(e2) && e2 == e,
            },
    {
        let mut reader = Reader::new(bytes);
        let magic = match reader.read_u32() {
            Some(v) => v,
            None => {
                return Err(ParserError::ReadFailure);
            },
        };
        if magic != MAGIC_HEADER {
            return Err(ParserError::InvalidMagicHeader);
        }
        // The minor version is accepted but unchecked.
        if reader.read_u16().is_none() {
            return Err(ParserError::ReadFailure);
        }
        let major = match reader.read_u16() {
            Some(v) => v,
            None => {
                return Err(ParserError::ReadFailure);
            },
        };
        if major != SUPPORTED_MAJOR_VERSION {
            return Err(ParserError::UnsupportedVersion);
        }
        let cp = match Self::parse_constant_pool(&mut reader) {
            Ok(cp) => cp,
            Err(e) => {
                return Err(e);
            },
        };
        if !cp.validate() {
            return Err(ParserError::InvalidConstantPool);
        }
        // Access flags are accepted but unchecked.
        if reader.read_u16().is_none() {
            return Err(ParserError::ReadFailure);
        }
        let this_raw = match reader.read_u16() {
            Some(v) => v,
            None => {
                return Err(ParserError::ReadFailure);
            },
        };
        let this_class = match pool_index(this_raw) {
            Some(i) => i,
            None => {
                return Err(ParserError::InvalidConstantPool);
            },
        };
        let super_raw = match reader.read_u16() {
            Some(v) => v,
            None => {
                return Err(ParserError::ReadFailure);
            },
        };
        let super_class = match pool_index(super_raw) {
            Some(i) => i,
            None => {
                return Err(ParserError::InvalidConstantPool);
            },
        };
        let ifc_count = match reader.read_u16() {
            Some(v) => v,
            None => {
                return Err(ParserError::ReadFailure);
            },
        };
        if !reader.skip((ifc_count as usize) * 2) {
            return Err(ParserError::ReadFailure);
        }
        let field_count = match reader.read_u16() {
            Some(v) => v,
            None => {
                return Err(ParserError::ReadFailure);
            },
        };
        let fields = match Self::parse_fields(&mut reader, &cp, field_count) {
            Ok(f) => f,
            Err(e) => {
                return Err(e);
            },
        };
        let this_name = match cp.get_class_name(this_class) {
            Some(s) => s.clone(),
            None => {
                return Err(ParserError::InvalidConstantPool);
            },
        };
        let super_name = match cp.get_class_name(super_class) {
            Some(s) => s.clone(),
            None => {
                return Err(ParserError::InvalidConstantPool);
            },
        };
        Ok(ClassFile { constant_pool: cp, this_name, super_name, fields })
    }

    /// Decodes the constant-pool count and that many entries, less the
    /// reserved zero slot.
    #[verifier::loop_isolation(false)]
    fn parse_constant_pool(reader: &mut Reader) -> (r: Result<ConstantPool, ParserError>)
        requires
            old(reader).wf(),
        ensures
            final(reader).wf(),
            final(reader).bytes@ == old(reader).bytes@,
            match spec_parse_pool(old(reader).bytes@, old(reader).pos as int) {
                Ok(pp) => r matches Ok(cp) && cp@ == pp.0 && final(reader).pos as int == pp.1,
                Err(e) => r matches Err(e2) && e2 == e,
            },
    {
        let ghost s = reader.bytes@;
        let count = match reader.read_u16() {
            Some(v) => v,
            None => {
                return Err(ParserError::ReadFailure);
            },
        };
        let n: usize = if count >= 1 {
            (count - 1) as usize
        } else {
            0
        };
        let ghost pos0 = reader.pos as int;
        let mut cp = ConstantPool::new();
        let mut i: usize = 0;
        proof {
            assert(spec_parse_constants(s, pos0, n as nat) == match spec_parse_constants(
                s,
                pos0,
                n as nat,
            ) {
                Ok(rest) => Ok::<(Seq<ConstantModel>, int), ParserError>((cp@ + rest.0, rest.1)),
                Err(e) => Err::<(Seq<ConstantModel>, int), ParserError>(e),
            }) by {
                match spec_parse_constants(s, pos0, n as nat) {
                    Ok(rest) => {
                        assert(cp@ + rest.0 =~= rest.0);
                    },
                    Err(_) => {},
                }
            }
        }
        while i < n
            invariant
                reader.wf(),
                reader.bytes@ == s,
                i <= n,
                cp@.len() == i,
                spec_parse_constants(s, pos0, n as nat) == match spec_parse_constants(
                    s,
                    reader.pos as int,
                    (n - i) as nat,
                ) {
                    Ok(rest) => Ok::<(Seq<ConstantModel>, int), ParserError>(
                        (cp@ + rest.0, rest.1),
                    ),
                    Err(e) => Err::<(Seq<ConstantModel>, int), ParserError>(e),
                },
            decreases n - i,
        {
            let ghost cp_before = cp@;
            let c = match Self::parse_constant(reader) {
                Ok(c) => c,
                Err(e) => {
                    return Err(e);
                },
            };
            cp.push(c);
            i = i + 1;
            proof {
                match spec_parse_constants(s, reader.pos as int, (n - i) as nat) {
                    Ok(rest) => {
                        assert(cp_before + (seq![c@] + rest.0) =~= cp@ + rest.0);
                    },
                    Err(_) => {},
                }
            }
        }
        proof {
            assert(cp@ + Seq::<ConstantModel>::empty() =~= cp@);
        }
        Ok(cp)
    }

    /// Decodes one constant-pool entry: a tag byte mapped through the closed
    /// set of recognized kinds, then that kind's payload.
    fn parse_constant(reader: &mut Reader) -> (r: Result<Constant, ParserError>)
        requires
            old(reader).wf(),
        ensures
            final(reader).wf(),
            final(reader).bytes@ == old(reader).bytes@,
            match spec_parse_constant(old(reader).bytes@, old(reader).pos as int) {
                Ok(cp) => r matches Ok(c) && c@ == cp.0 && final(reader).pos as int == cp.1,
                Err(e) => r matches Err(e2) && e2 == e,
            },
    {
        let tag = match reader.read_u8() {
            Some(t) => t,
            None => {
                return Err(ParserError::ReadFailure);
            },
        };
        if tag == TAG_CLASS {
            let raw = match reader.read_u16() {
                Some(v) => v,
                None => {
                    return Err(ParserError::ReadFailure);
                },
            };
            match pool_index(raw) {
                Some(i) => Ok(Constant::Class(i)),
                None => Err(ParserError::InvalidConstantPool),
            }
        } else if tag == TAG_NAME_AND_TYPE {
            let raw_n = match reader.read_u16() {
                Some(v) => v,
                None => {
                    return Err(ParserError::ReadFailure);
                },
            };
            let n = match pool_index(raw_n) {
                Some(i) => i,
                None => {
                    return Err(ParserError::InvalidConstantPool);
                },
            };
            let raw_d = match reader.read_u16() {
                Some(v) => v,
                None => {
                    return Err(ParserError::ReadFailure);
                },
            };
            let d = match pool_index(raw_d) {
                Some(i) => i,
                None => {
                    return Err(ParserError::InvalidConstantPool);
                },
            };
            Ok(Constant::NameAndType(n, d))
        } else if tag == TAG_METHOD_REF {
            let raw_c = match reader.read_u16() {
                Some(v) => v,
                None => {
                    return Err(ParserError::ReadFailure);
                },
            };
            let c = match pool_index(raw_c) {
                Some(i) => i,
                None => {
                    return Err(ParserError::InvalidConstantPool);
                },
            };
            let raw_nt = match reader.read_u16() {
                Some(v) => v,
                None => {
                    return Err(ParserError::ReadFailure);
                },
            };
            let nt = match pool_index(raw_nt) {
                Some(i) => i,
                None => {
                    return Err(ParserError::InvalidConstantPool);
                },
            };
            Ok(Constant::MethodRef(c, nt))
        } else if tag == TAG_FIELD_REF {
            let raw_c = match reader.read_u16() {
                Some(v) => v,
                None => {
                    return Err(ParserError::ReadFailure);
                },
            };
            let c = match pool_index(raw_c) {
                Some(i) => i,
                None => {
                    return Err(ParserError::InvalidConstantPool);
                },
            };
            let raw_nt = match reader.read_u16() {
                Some(v) => v,
                None => {
                    return Err(ParserError::ReadFailure);
                },
            };
            let nt = match pool_index(raw_nt) {
                Some(i) => i,
                None => {
                    return Err(ParserError::InvalidConstantPool);
                },
            };
            Ok(Constant::FieldRef(c, nt))
        } else if tag == TAG_UTF8 {
            let len = match reader.read_u16() {
                Some(v) => v,
                None => {
                    return Err(ParserError::ReadFailure);
                },
            };
            let raw = match reader.read_bytes(len as usize) {
                Some(b) => b,
                None => {
                    return Err(ParserError::ReadFailure);
                },
            };
            match utf8_to_string(raw) {
                Some(text) => Ok(Constant::Utf8(text)),
                None => Err(ParserError::InvalidUtf8Encoding),
            }
        } else if tag == TAG_INTEGER {
            let v = match reader.read_u32() {
                Some(v) => v,
                None => {
                    return Err(ParserError::ReadFailure);
                },
            };
            Ok(Constant::Integer(i32_from_be(v)))
        } else if tag == TAG_FLOAT {
            let v = match reader.read_u32() {
                Some(v) => v,
                None => {
                    return Err(ParserError::ReadFailure);
                },
            };
            Ok(Constant::Float(v))
        } else if tag == TAG_LONG {
            let v = match reader.read_u64() {
                Some(v) => v,
                None => {
                    return Err(ParserError::ReadFailure);
                },
            };
            Ok(Constant::Long(i64_from_be(v)))
        } else if tag == TAG_DOUBLE {
            let v = match reader.read_u64() {
                Some(v) => v,
                None => {
                    return Err(ParserError::ReadFailure);
                },
            };
            Ok(Constant::Double(v))
        } else {
            Err(ParserError::InvalidConstantTag)
        }
    }

    /// Skips `count` attribute entries, each with its length-prefixed body.
    #[verifier::loop_isolation(false)]
    fn skip_attributes(reader: &mut Reader, count: u16) -> (r: bool)
        requires
            old(reader).wf(),
        ensures
            final(reader).wf(),
            final(reader).bytes@ == old(reader).bytes@,
            match spec_skip_attributes(old(reader).bytes@, old(reader).pos as int, count as nat) {
                Some(p) => r && final(reader).pos as int == p,
                None => !r,
            },
    {
        let ghost s = reader.bytes@;
        let ghost pos0 = reader.pos as int;
        let n: usize = count as usize;
        let mut i: usize = 0;
        while i < n
            invariant
                reader.wf(),
                reader.bytes@ == s,
                i <= n,
                spec_skip_attributes(s, pos0, n as nat) == spec_skip_attributes(
                    s,
                    reader.pos as int,
                    (n - i) as nat,
                ),
            decreases n - i,
        {
            if reader.read_u16().is_none() {
                return false;
            }
            let len = match reader.read_u32() {
                Some(v) => v,
                None => {
                    return false;
                },
            };
            if !reader.skip(len as usize) {
                return false;
            }
            i = i + 1;
        }
        true
    }

    /// Decodes one field-table entry, resolving its name and descriptor
    /// through the pool.
    fn parse_field(reader: &mut Reader, cp: &ConstantPool) -> (r: Result<Field, ParserError>)
        requires
            old(reader).wf(),
        ensures
            final(reader).wf(),
            final(reader).bytes@ == old(reader).bytes@,
            match spec_parse_field(old(reader).bytes@, old(reader).pos as int, cp@) {
                Ok(fp) => r matches Ok(f) && f@ == fp.0 && final(reader).pos as int == fp.1,
                Err(e) => r matches Err(e2) && e2 == e,
            },
    {
        // Access flags are accepted but unchecked.
        if reader.read_u16().is_none() {
            return Err(ParserError::ReadFailure);
        }
        let name_raw = match reader.read_u16() {
            Some(v) => v,
            None => {
                return Err(ParserError::ReadFailure);
            },
        };
        let name_index = match pool_index(name_raw) {
            Some(i) => i,
            None => {
                return Err(ParserError::InvalidConstantPool);
            },
        };
        let desc_raw = match reader.read_u16() {
            Some(v) => v,
            None => {
                return Err(ParserError::ReadFailure);
            },
        };
        let descriptor_index = match pool_index(desc_raw) {
            Some(i) => i,
            None => {
                return Err(ParserError::InvalidConstantPool);
            },
        };
        let name = match cp.get_utf8_at(name_index) {
            Some(s) => s.clone(),
            None => {
                return Err(ParserError::InvalidConstantPool);
            },
        };
        let descriptor = match cp.get_utf8_at(descriptor_index) {
            Some(s) => s.clone(),
            None => {
                return Err(ParserError::InvalidConstantPool);
            },
        };
        let attr_count = match reader.read_u16() {
            Some(v) => v,
            None => {
                return Err(ParserError::ReadFailure);
            },
        };
        if !Self::skip_attributes(reader, attr_count) {
            return Err(ParserError::ReadFailure);
        }
        Ok(Field { name, descriptor })
    }

    /// Decodes `count` field-table entries.
    #[verifier::loop_isolation(false)]
    fn parse_fields(reader: &mut Reader, cp: &ConstantPool, count: u16) -> (r: Result<
        Vec<Field>,
        ParserError,
    >)
        requires
            old(reader).wf(),
        ensures
            final(reader).wf(),
            final(reader).bytes@ == old(reader).bytes@,
            match spec_parse_fields(
                old(reader).bytes@,
                old(reader).pos as int,
                cp@,
                count as nat,
            ) {
                Ok(fp) => r matches Ok(fs) && fs@.map_values(|f: Field| f@) == fp.0
                    && final(reader).pos as int == fp.1,
                Err(e) => r matches Err(e2) && e2 == e,
            },
    {
        let ghost s = reader.bytes@;
        let ghost pos0 = reader.pos as int;
        let n: usize = count as usize;
        let mut fields: Vec<Field> = Vec::new();
        let mut i: usize = 0;
        proof {
            assert(spec_parse_fields(s, pos0, cp@, n as nat) == match spec_parse_fields(
                s,
                pos0,
                cp@,
                n as nat,
            ) {
                Ok(rest) => Ok::<(Seq<FieldModel>, int), ParserError>(
                    (fields@.map_values(|f: Field| f@) + rest.0, rest.1),
                ),
                Err(e) => Err::<(Seq<FieldModel>, int), ParserError>(e),
            }) by {
                match spec_parse_fields(s, pos0, cp@, n as nat) {
                    Ok(rest) => {
                        assert(fields@.map_values(|f: Field| f@) + rest.0 =~= rest.0);
                    },
                    Err(_) => {},
                }
            }
        }
        while i < n
            invariant
                reader.wf(),
                reader.bytes@ == s,
                i <= n,
                fields@.len() == i,
                spec_parse_fields(s, pos0, cp@, n as nat) == match spec_parse_fields(
                    s,
                    reader.pos as int,
                    cp@,
                    (n - i) as nat,
                ) {
                    Ok(rest) => Ok::<(Seq<FieldModel>, int), ParserError>(
                        (fields@.map_values(|f: Field| f@) + rest.0, rest.1),
                    ),
                    Err(e) => Err::<(Seq<FieldModel>, int), ParserError>(e),
                },
            decreases n - i,
        {
            let ghost fields_before = fields@.map_values(|f: Field| f@);
            let f = match Self::parse_field(reader, cp) {
                Ok(f) => f,
                Err(e) => {
                    return Err(e);
                },
            };
            let ghost fm = f@;
            fields.push(f);
            i = i + 1;
            proof {
                assert(fields@.map_values(|f: Field| f@) =~= fields_before.push(fm));
                match spec_parse_fields(s, reader.pos as int, cp@, (n - i) as nat) {
                    Ok(rest) => {
                        assert(fields_before + (seq![fm] + rest.0) =~= fields@.map_values(
                            |f: Field| f@,
                        ) + rest.0);
                    },
                    Err(_) => {},
                }
            }
        }
        proof {
            assert(fields@.map_values(|f: Field| f@) + Seq::<FieldModel>::empty()
                =~= fields@.map_values(|f: Field| f@));
        }
        Ok(fields)
    }
}

} // verus!
