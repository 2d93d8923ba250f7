use jay::constant_pool::{Constant, ConstantPool};

#[test]
fn can_add_utf8_constant() {
    let mut cp = ConstantPool::new();
    let expected_utf8 = "java/lang/Object";

    cp.push(Constant::Utf8(expected_utf8.to_string()));

    let actual = cp.get_utf8_at(0).unwrap();
    assert_eq!(actual, expected_utf8);
}

#[test]
fn can_add_class_constant() {
    let mut cp = ConstantPool::new();

    cp.push(Constant::Utf8("java/lang/Object".to_string())); // idx: 0
    cp.push(Constant::Class(0)); // idx: 1

    assert_eq!(cp.get_class_name(1).unwrap(), "java/lang/Object");
}

#[test]
fn validate_class_constant() {
    let mut cp = ConstantPool::new();

    cp.push(Constant::Class(1));

    assert!(!cp.validate());

    cp.push(Constant::Utf8("class_name".to_string()));

    assert!(cp.validate());
}

#[test]
fn can_add_name_and_type_constant() {
    let mut cp = ConstantPool::new();

    cp.push(Constant::Utf8("name".to_string()));
    cp.push(Constant::Utf8("descriptor".to_string()));
    cp.push(Constant::NameAndType(0, 1));

    assert!(cp.get_name_and_type(0).is_none());
    assert!(cp.get_name_and_type(1).is_none());
    assert!(cp.get_name_and_type(2).is_some());

    let actual = cp.get_name_and_type(2).unwrap();
    assert!(matches!(*actual, Constant::NameAndType(0, 1)));
}

#[test]
fn validate_name_and_type_constant() {
    let mut cp = ConstantPool::new();

    cp.push(Constant::NameAndType(1, 2));
    assert!(!cp.validate());

    cp.push(Constant::Utf8("name".to_string()));
    assert!(!cp.validate());

    cp.push(Constant::Utf8("descriptor".to_string()));
    assert!(cp.validate());
}

fn setup_for_ref_tests(cp: &mut ConstantPool) {
    cp.push(Constant::Utf8("SomeClass".to_string()));
    cp.push(Constant::Utf8("refname".to_string()));
    cp.push(Constant::Utf8("descriptor".to_string()));
    cp.push(Constant::NameAndType(1, 2));
    cp.push(Constant::Class(0));
}

#[test]
fn can_add_field_ref() {
    let mut cp = ConstantPool::new();

    setup_for_ref_tests(&mut cp);

    cp.push(Constant::FieldRef(4, 3));

    assert!(cp.get_field_ref(5).is_some());
}

fn test_valid_ref(cp: &mut ConstantPool) {
    // precondition: 0 index has an invalid ref constant
    // pointing to class_index: 1 and name_and_type: 3
    assert!(!cp.validate());

    // class index is valid, but class info is not
    cp.push(Constant::Class(2));
    assert!(!cp.validate());

    // class index is valid and class info is valid. But no name and type
    cp.push(Constant::Utf8("SomeClass".to_string()));
    assert!(!cp.validate());

    // class index is valid and name and type index is valid. But name and type info is not
    cp.push(Constant::NameAndType(4, 5));
    assert!(!cp.validate());

    cp.push(Constant::Utf8("field1".to_string()));
    cp.push(Constant::Utf8("descriptor".to_string()));
    assert!(cp.validate());
}

#[test]
fn validate_field_ref() {
    let mut cp = ConstantPool::new();

    cp.push(Constant::FieldRef(1, 3));

    test_valid_ref(&mut cp);
}

#[test]
fn can_add_method_ref() {
    let mut cp = ConstantPool::new();

    setup_for_ref_tests(&mut cp);

    cp.push(Constant::MethodRef(1, 3));

    assert!(cp.get_method_ref(5).is_some());
}

#[test]
fn validate_method_ref() {
    let mut cp = ConstantPool::new();

    cp.push(Constant::MethodRef(1, 3));

    test_valid_ref(&mut cp);
}

#[test]
fn can_add_double() {
    let mut cp = ConstantPool::new();
    let double_val: f64 = 3.115;

    cp.push(Constant::Double(double_val.to_bits()));

    let actual = cp.get_double(0).unwrap();
    assert!(matches!(*actual, Constant::Double(d) if d == double_val.to_bits()));
}

#[test]
fn can_add_integer() {
    let mut cp = ConstantPool::new();
    let int_val: i32 = 42;

    cp.push(Constant::Integer(int_val));

    let actual = cp.get_integer(0).unwrap();
    assert!(matches!(*actual, Constant::Integer(i) if i == int_val));
}

#[test]
fn can_add_float() {
    let mut cp = ConstantPool::new();
    let float_val: f32 = 3.44;

    cp.push(Constant::Float(float_val.to_bits()));

    let actual = cp.get_float(0).unwrap();
    assert!(matches!(*actual, Constant::Float(f) if f == float_val.to_bits()));
}

#[test]
fn can_add_long() {
    let mut cp = ConstantPool::new();
    let long_val: i64 = 13333333337;

    cp.push(Constant::Long(long_val));

    let actual = cp.get_long(0).unwrap();
    assert!(matches!(*actual, Constant::Long(l) if l == long_val));
}

#[test]
fn class_name_resolution_is_idempotent() {
    let mut cp = ConstantPool::new();

    cp.push(Constant::Utf8("java/lang/Object".to_string()));
    cp.push(Constant::Class(0));

    let first = cp.get_class_name(1).unwrap().clone();
    let second = cp.get_class_name(1).unwrap().clone();
    assert_eq!(first, second);
    assert_eq!(first, "java/lang/Object");
}

#[test]
fn get_utf8_at_rejects_other_kinds_and_out_of_bounds() {
    let mut cp = ConstantPool::new();

    cp.push(Constant::Utf8("name".to_string()));
    cp.push(Constant::Class(0));

    assert!(cp.get_utf8_at(0).is_some());
    assert!(cp.get_utf8_at(1).is_none());
    assert!(cp.get_utf8_at(2).is_none());
}

#[test]
fn get_class_name_on_broken_chain_is_none() {
    let mut cp = ConstantPool::new();

    // A Class whose name index points at another Class, and one that dangles.
    cp.push(Constant::Class(2));
    cp.push(Constant::Class(0));
    cp.push(Constant::Utf8("A".to_string()));

    assert!(cp.get_class_name(1).is_none()); // resolves to a Class, not Utf8
    assert!(cp.get_class_name(2).is_none()); // entry is not a Class
    assert!(cp.get_class_name(9).is_none()); // out of bounds
    assert_eq!(cp.get_class_name(0).unwrap(), "A");
}
