//! Tables of names: shadowing, order and removal.

use letpl::binding::BindingTable;
use letpl::name_analysis::CaptureTable;
use letpl::offset::{Capture, CaptureOffset, StackOffset};
use letpl::symbol_table::SymbolTable;
use letpl::table::Table;

#[test]
fn table_starts_empty() {
    let table: Table<i64> = Table::new();
    assert_eq!(table.len(), 0);
    assert_eq!(table.lookup("x"), None);
    assert_eq!(table.lookup_offset("x"), None);
}

#[test]
fn table_lookup_finds_the_innermost_binding() {
    let mut table = Table::new();
    table.push(String::from("x"), 1);
    table.push(String::from("y"), 2);
    table.push(String::from("x"), 3);
    assert_eq!(table.len(), 3);
    assert_eq!(table.lookup("x"), Some(&3));
    assert_eq!(table.lookup_offset("x"), Some(2));
    assert_eq!(table.lookup("y"), Some(&2));
    assert_eq!(table.lookup_offset("y"), Some(1));
    assert_eq!(table.lookup("z"), None);
}

#[test]
fn table_pop_uncovers_the_shadowed_binding() {
    let mut table = Table::new();
    table.push(String::from("x"), 1);
    table.push(String::from("x"), 3);
    table.pop();
    assert_eq!(table.len(), 1);
    assert_eq!(table.lookup("x"), Some(&1));
    assert_eq!(table.lookup_offset("x"), Some(0));
    table.pop();
    assert_eq!(table.lookup("x"), None);
}

#[test]
fn table_names_are_compared_whole() {
    let mut table = Table::new();
    table.push(String::from("abc"), 1);
    assert_eq!(table.lookup("ab"), None);
    assert_eq!(table.lookup("abcd"), None);
    assert_eq!(table.lookup(""), None);
    table.push(String::new(), 2);
    assert_eq!(table.lookup(""), Some(&2));
}

#[test]
fn symbol_table_keeps_copies() {
    let mut table: SymbolTable<String> = SymbolTable::new();
    let value = String::from("one");
    table.push("x", &value);
    table.push("y", &String::from("two"));
    table.push("x", &String::from("three"));
    assert_eq!(table.lookup("x"), Some(&String::from("three")));
    assert_eq!(table.lookup("y"), Some(&String::from("two")));
    table.pop();
    assert_eq!(table.lookup("x"), Some(&value));
    assert_eq!(table.lookup("z"), None);
}

#[test]
fn binding_table_finds_the_innermost_slot() {
    let mut table = BindingTable::new();
    assert_eq!(table.lookup("x"), None);
    table.push("x", 0);
    table.push("y", 1);
    table.push("x", 2);
    assert_eq!(table.lookup("x"), Some(2));
    assert_eq!(table.lookup("y"), Some(1));
    table.pop();
    assert_eq!(table.lookup("x"), Some(0));
}

#[test]
fn capture_table_gives_offsets_in_order() {
    let mut table = CaptureTable::new();
    assert_eq!(table.lookup("x"), None);
    let first = table.push(String::from("x"), Capture::Local(StackOffset(1)));
    let second = table.push(String::from("y"), Capture::Capture(CaptureOffset(0)));
    assert_eq!(first, CaptureOffset(0));
    assert_eq!(second, CaptureOffset(1));
    assert_eq!(table.lookup("x"), Some(CaptureOffset(0)));
    assert_eq!(table.lookup("y"), Some(CaptureOffset(1)));
    let third = table.push(String::from("x"), Capture::Local(StackOffset(1)));
    assert_eq!(third, CaptureOffset(2));
    assert_eq!(table.lookup("x"), Some(CaptureOffset(2)));
}
