//! Types, offsets and the rendering of numbers.

use std::ops::{AddAssign, SubAssign};

use letpl::ast::Param;
use letpl::offset::StackOffset;
use letpl::types::Type;
use letpl::util::{append_decimal, append_signed_decimal, ok_box};

#[test]
fn basic_types_know_what_they_are() {
    assert!(Type::new_int().is_int());
    assert!(!Type::new_int().is_bool());
    assert!(Type::new_int().as_proc().is_none());
    assert!(Type::new_bool().is_bool());
    assert!(!Type::new_bool().is_int());
    assert!(Type::new_bool().as_proc().is_none());
}

#[test]
fn procedure_types_give_their_parts() {
    let t = Type::new_proc(Type::new_int(), Type::new_bool());
    assert!(!t.is_int());
    assert!(!t.is_bool());
    let (param, result) = t.as_proc().expect("a procedure type");
    assert!(param.is_int());
    assert!(result.is_bool());
}

#[test]
fn types_are_equal_by_structure() {
    assert!(Type::new_int() == Type::new_int());
    assert!(Type::new_bool() == Type::new_bool());
    assert!(Type::new_int() != Type::new_bool());
    let a = Type::new_proc(Type::new_int(), Type::new_proc(Type::new_bool(), Type::new_int()));
    let b = Type::new_proc(Type::new_int(), Type::new_proc(Type::new_bool(), Type::new_int()));
    let c = Type::new_proc(Type::new_int(), Type::new_proc(Type::new_int(), Type::new_int()));
    assert!(a == b);
    assert!(a != c);
    assert!(a != Type::new_int());
}

#[test]
fn a_copy_of_a_type_is_the_same_type() {
    let t = Type::new_proc(Type::new_int(), Type::new_bool());
    let copy = t.clone();
    assert!(copy == t);
    assert_eq!(copy.to_string(), "(int -> bool)");
}

#[test]
fn types_are_written_as_in_source_text() {
    assert_eq!(Type::new_int().to_string(), "int");
    assert_eq!(Type::new_bool().to_string(), "bool");
    let t = Type::new_proc(
        Type::new_proc(Type::new_int(), Type::new_bool()),
        Type::new_proc(Type::new_bool(), Type::new_int()),
    );
    assert_eq!(t.to_string(), "((int -> bool) -> (bool -> int))");
}

#[test]
fn param_holds_its_name_and_type() {
    let param = Param::new(String::from("x"), Type::new_bool());
    assert_eq!(param.name, "x");
    assert!(param.t.is_bool());
}

#[test]
fn stack_offsets_add_and_subtract() {
    assert_eq!(StackOffset(3) + StackOffset(4), StackOffset(7));
    assert_eq!(StackOffset(7) - StackOffset(4), StackOffset(3));
    let mut offset = StackOffset(5);
    offset.add_assign(StackOffset(2));
    assert_eq!(offset, StackOffset(7));
    offset.sub_assign(StackOffset(7));
    assert_eq!(offset, StackOffset(0));
}

#[test]
fn decimal_has_no_leading_zeros() {
    let mut text = String::new();
    append_decimal(&mut text, 0);
    assert_eq!(text, "0");
    let mut text = String::from("n=");
    append_decimal(&mut text, 1203);
    assert_eq!(text, "n=1203");
    let mut text = String::new();
    append_decimal(&mut text, u64::MAX);
    assert_eq!(text, "18446744073709551615");
}

#[test]
fn signed_decimal_covers_the_whole_range() {
    let mut text = String::new();
    append_signed_decimal(&mut text, -7);
    assert_eq!(text, "-7");
    let mut text = String::new();
    append_signed_decimal(&mut text, i64::MIN);
    assert_eq!(text, "-9223372036854775808");
    let mut text = String::new();
    append_signed_decimal(&mut text, i64::MAX);
    assert_eq!(text, "9223372036854775807");
}

#[test]
fn ok_box_boxes_the_value() {
    let boxed: Result<Box<i64>, String> = ok_box(5);
    assert_eq!(boxed, Ok(Box::new(5)));
}
