use gcl::symbol_table::SymbolTable;
use gcl::token::{Token, TokenType};

fn id(name: &str, line: usize) -> Token {
    Token { typ: TokenType::ID(name.to_string()), line }
}

#[test]
fn outer_variable_visible_in_nested_frame() {
    let mut t = SymbolTable::new();
    t.add_frame();
    t.add_var(&id("x", 1));
    t.add_frame();
    assert!(t.in_scope(&id("x", 2)));
    assert!(!t.declared_in_block(&id("x", 2)));
    t.inc_usage(&id("x", 2));
    t.inc_usage(&id("x", 2));
    t.inc_assign(&id("x", 3));
    t.pop_frame();
    assert_eq!(t.history().len(), 1);
    let v = &t.history()[0];
    assert_eq!(v.name(), "x");
    assert_eq!(v.declared(), 1);
    assert_eq!(v.depth(), 1);
    assert_eq!(v.uses().get(&2), Some(&2));
    assert_eq!(v.assignments().get(&3), Some(&1));
}

#[test]
fn popped_frame_hides_its_variables() {
    let mut t = SymbolTable::new();
    t.add_frame();
    t.add_frame();
    t.add_var(&id("y", 4));
    assert!(t.declared_in_block(&id("y", 4)));
    t.pop_frame();
    assert!(!t.in_scope(&id("y", 5)));
    assert_eq!(t.history().len(), 1);
    assert_eq!(t.history()[0].depth(), 2);
    assert_eq!(t.depth(), 1);
}

#[test]
fn usage_goes_to_latest_declaration() {
    let mut t = SymbolTable::new();
    t.add_frame();
    t.add_var(&id("z", 1));
    t.add_frame();
    t.add_var(&id("z", 2));
    t.inc_usage(&id("z", 3));
    assert!(t.history()[0].uses().is_empty());
    assert_eq!(t.history()[1].uses().get(&3), Some(&1));
}

#[test]
fn counting_unknown_name_changes_nothing() {
    let mut t = SymbolTable::new();
    t.add_frame();
    t.inc_usage(&id("q", 1));
    t.inc_assign(&id("q", 1));
    assert!(t.history().is_empty());
}
