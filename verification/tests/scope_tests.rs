use expr_lang::global_scope::{GlobalScope, Status, Variable};

#[test]
fn scope_starts_empty() {
    let scope = GlobalScope::new();
    assert!(scope.get_all_global_variables().is_none());
    assert!(scope.get_global_variable(String::from("a")).is_none());
}

#[test]
fn scope_saves_and_looks_up() {
    let mut scope = GlobalScope::new();
    let s = scope.add_global_variable(String::from("a"), String::from("5"));
    assert_eq!(s, Status::Saved);
    let v = scope.get_global_variable(String::from("a")).unwrap();
    assert_eq!(v.name, "a");
    assert_eq!(v.value, "5");
}

#[test]
fn scope_rejects_duplicate_names() {
    let mut scope = GlobalScope::new();
    assert_eq!(scope.add_global_variable(String::from("a"), String::from("1")), Status::Saved);
    assert_eq!(scope.add_global_variable(String::from("a"), String::from("2")), Status::Duplicate);
    // The first recording stands.
    let v = scope.get_global_variable(String::from("a")).unwrap();
    assert_eq!(v.value, "1");
}

#[test]
fn scope_hands_out_all_recordings_in_order() {
    let mut scope = GlobalScope::new();
    scope.add_global_variable(String::from("x"), String::from("1"));
    scope.add_global_variable(String::from("y"), String::from("2"));
    let all = scope.get_all_global_variables().unwrap();
    assert_eq!(all.len(), 2);
    assert_eq!(all[0].name, "x");
    assert_eq!(all[0].value, "1");
    assert_eq!(all[1].name, "y");
    assert_eq!(all[1].value, "2");
}

#[test]
fn variable_new_keeps_fields() {
    let v = Variable::new(String::from("n"), String::from("7"));
    assert_eq!(v.name, "n");
    assert_eq!(v.value, "7");
}
