use jay::class_file::{ClassFile, ParserError};

fn push_u16(out: &mut Vec<u8>, v: u16) {
    out.push((v >> 8) as u8);
    out.push(v as u8);
}

fn push_utf8(out: &mut Vec<u8>, text: &str) {
    out.push(0x01);
    push_u16(out, text.len() as u16);
    out.extend_from_slice(text.as_bytes());
}

/// Builds a class file for `this_name` extending `super_name`, with the given
/// (name, descriptor) fields and no attributes. Pool layout: entry 1 is the
/// this-class name, entry 2 its Class; entry 3 the super-class name, entry 4
/// its Class; then two Utf8 entries per field.
fn class_bytes(this_name: &str, super_name: &str, fields: &[(&str, &str)]) -> Vec<u8> {
    let mut out: Vec<u8> = vec![0xCA, 0xFE, 0xBA, 0xBE, 0x00, 0x00, 0x00, 0x3D];
    push_u16(&mut out, 5 + 2 * fields.len() as u16); // pool count, reserved slot included
    push_utf8(&mut out, this_name); // wire index 1
    out.push(0x07); // wire index 2: Class(1)
    push_u16(&mut out, 1);
    push_utf8(&mut out, super_name); // wire index 3
    out.push(0x07); // wire index 4: Class(3)
    push_u16(&mut out, 3);
    for (name, descriptor) in fields {
        push_utf8(&mut out, name);
        push_utf8(&mut out, descriptor);
    }
    push_u16(&mut out, 0x0021); // access flags
    push_u16(&mut out, 2); // this class
    push_u16(&mut out, 4); // super class
    push_u16(&mut out, 0); // interfaces count
    push_u16(&mut out, fields.len() as u16);
    for i in 0..fields.len() {
        push_u16(&mut out, 0); // field access flags
        push_u16(&mut out, 5 + 2 * i as u16); // name index
        push_u16(&mut out, 6 + 2 * i as u16); // descriptor index
        push_u16(&mut out, 0); // attributes count
    }
    out
}

#[test]
fn can_parse_empty_class() {
    let buff = class_bytes("Empty", "java/lang/Object", &[]);
    let class_file = ClassFile::parse(&buff).unwrap();

    assert_eq!("Empty", class_file.name());
    assert_eq!("java/lang/Object", class_file.super_name());
}

#[test]
fn can_parse_class_with_fields() {
    let buff = class_bytes(
        "HaveFields",
        "java/lang/Object",
        &[("count", "I"), ("name", "Ljava/lang/String;")],
    );
    let class_file = ClassFile::parse(&buff).unwrap();

    assert_eq!("HaveFields", class_file.name());
    assert_eq!("java/lang/Object", class_file.super_name());
}

#[test]
fn field_names_and_descriptors_are_resolved() {
    let buff = class_bytes("HaveFields", "java/lang/Object", &[("count", "I"), ("next", "J")]);
    let class_file = ClassFile::parse(&buff).unwrap();

    let fields = class_file.fields();
    assert_eq!(fields.len(), 2);
    assert_eq!(fields[0].name(), "count");
    assert_eq!(fields[0].descriptor(), "I");
    assert_eq!(fields[1].name(), "next");
    assert_eq!(fields[1].descriptor(), "J");
}

#[test]
fn every_strict_prefix_is_a_read_failure() {
    // The scan consumes this whole buffer, so cutting it anywhere must give
    // ReadFailure: never a panic, and never a different error.
    let buff = class_bytes("Empty", "java/lang/Object", &[("count", "I")]);
    assert!(ClassFile::parse(&buff).is_ok());
    for k in 0..buff.len() {
        assert!(matches!(ClassFile::parse(&buff[..k]), Err(ParserError::ReadFailure)));
    }
}

#[test]
fn trailing_bytes_are_ignored() {
    let mut buff = class_bytes("Empty", "java/lang/Object", &[]);
    buff.push(0xAB);
    buff.push(0xCD);
    let class_file = ClassFile::parse(&buff).unwrap();
    assert_eq!("Empty", class_file.name());
}

#[test]
fn non_ascii_names_are_decoded() {
    // The class name is the two-byte UTF-8 encoding of a single character;
    // handing the raw bytes back undecoded would not match.
    let buff = class_bytes("caf\u{e9}", "java/lang/Object", &[]);
    let class_file = ClassFile::parse(&buff).unwrap();
    assert_eq!("caf\u{e9}", class_file.name());
    assert_eq!(class_file.name().chars().count(), 4);
}

#[test]
fn attribute_bodies_are_skipped() {
    // One field with one attribute whose five-byte body would desynchronize
    // the scan if it were not consumed.
    let mut out: Vec<u8> = vec![0xCA, 0xFE, 0xBA, 0xBE, 0x00, 0x00, 0x00, 0x3D];
    push_u16(&mut out, 7); // pool count: six entries
    push_utf8(&mut out, "WithAttr"); // 1
    out.push(0x07); // 2: Class(1)
    push_u16(&mut out, 1);
    push_utf8(&mut out, "java/lang/Object"); // 3
    out.push(0x07); // 4: Class(3)
    push_u16(&mut out, 3);
    push_utf8(&mut out, "flag"); // 5
    push_utf8(&mut out, "Z"); // 6
    push_u16(&mut out, 0x0021);
    push_u16(&mut out, 2); // this
    push_u16(&mut out, 4); // super
    push_u16(&mut out, 0); // interfaces
    push_u16(&mut out, 1); // one field
    push_u16(&mut out, 0); // field access flags
    push_u16(&mut out, 5); // name index
    push_u16(&mut out, 6); // descriptor index
    push_u16(&mut out, 1); // one attribute
    push_u16(&mut out, 3); // attribute name index (uninterpreted)
    out.extend_from_slice(&[0x00, 0x00, 0x00, 0x05]); // body length 5
    out.extend_from_slice(&[0xDE, 0xAD, 0xBE, 0xEF, 0x01]); // body

    let class_file = ClassFile::parse(&out).unwrap();
    assert_eq!("WithAttr", class_file.name());
    assert_eq!(class_file.fields().len(), 1);
    assert_eq!(class_file.fields()[0].name(), "flag");
}

#[test]
fn numeric_and_reference_entries_parse_and_validate() {
    // A pool holding every recognized kind: the numeric leaves need no
    // referent, the references chain through Class and NameAndType.
    let mut out: Vec<u8> = vec![0xCA, 0xFE, 0xBA, 0xBE, 0x00, 0x00, 0x00, 0x3D];
    push_u16(&mut out, 13); // pool count: twelve entries
    push_utf8(&mut out, "Numbers"); // 1
    out.push(0x07); // 2: Class(1)
    push_u16(&mut out, 1);
    push_utf8(&mut out, "java/lang/Object"); // 3
    out.push(0x07); // 4: Class(3)
    push_u16(&mut out, 3);
    out.push(0x03); // 5: Integer
    out.extend_from_slice(&[0xFF, 0xFF, 0xFF, 0xFE]); // -2
    out.push(0x04); // 6: Float bits
    out.extend_from_slice(&[0x40, 0x49, 0x0F, 0xDB]);
    out.push(0x05); // 7: Long
    out.extend_from_slice(&[0x00, 0x00, 0x00, 0x03, 0x1A, 0x85, 0x5D, 0x59]);
    out.push(0x06); // 8: Double bits
    out.extend_from_slice(&[0x40, 0x09, 0x21, 0xFB, 0x54, 0x44, 0x2D, 0x18]);
    push_utf8(&mut out, "value"); // 9
    push_utf8(&mut out, "D"); // 10
    out.push(0x0C); // 11: NameAndType(9, 10)
    push_u16(&mut out, 9);
    push_u16(&mut out, 10);
    out.push(0x09); // 12: FieldRef(2, 11)
    push_u16(&mut out, 2);
    push_u16(&mut out, 11);
    push_u16(&mut out, 0x0021);
    push_u16(&mut out, 2); // this
    push_u16(&mut out, 4); // super
    push_u16(&mut out, 0); // interfaces
    push_u16(&mut out, 0); // fields

    let class_file = ClassFile::parse(&out).unwrap();
    assert_eq!("Numbers", class_file.name());
    assert_eq!("java/lang/Object", class_file.super_name());
}

#[test]
fn interfaces_are_skipped() {
    let mut buff = class_bytes("Empty", "java/lang/Object", &[]);
    // Rewrite the tail: two interface entries before a zero field count.
    let n = buff.len();
    buff.truncate(n - 4);
    buff.extend_from_slice(&[0x00, 0x02, 0x00, 0x02, 0x00, 0x04, 0x00, 0x00]);
    let class_file = ClassFile::parse(&buff).unwrap();
    assert_eq!("Empty", class_file.name());
}

#[test]
fn dangling_field_ref_fails_validation() {
    // FieldRef whose class index points at a Utf8, caught by pool validation.
    let mut out: Vec<u8> = vec![0xCA, 0xFE, 0xBA, 0xBE, 0x00, 0x00, 0x00, 0x3D];
    push_u16(&mut out, 3); // pool count: two entries
    push_utf8(&mut out, "A"); // 1
    out.push(0x09); // 2: FieldRef(1, 1)
    push_u16(&mut out, 1);
    push_u16(&mut out, 1);
    push_u16(&mut out, 0x0021);
    push_u16(&mut out, 1);
    push_u16(&mut out, 1);
    push_u16(&mut out, 0);
    push_u16(&mut out, 0);
    assert!(matches!(ClassFile::parse(&out), Err(ParserError::InvalidConstantPool)));
}
