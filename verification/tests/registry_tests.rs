use std::sync::Arc;

use sutra::ast::{AstNode, Expr, ParamList, Spanned};
use sutra::macros::{MacroDefinition, MacroTemplate};
use sutra::registry::MacroRegistry;
use sutra::span::Span;
use sutra::std_macros::BuiltinMacro;

fn template() -> MacroTemplate {
    let params = ParamList { required: vec![], rest: None, span: Span::default() };
    let body: AstNode = Spanned { value: Arc::new(Expr::Number("0".to_string(), Span::default())), span: Span::default() };
    MacroTemplate::new(params, Box::new(body)).unwrap()
}

#[test]
fn a_new_registry_is_empty() {
    let reg = MacroRegistry::new();
    assert!(reg.is_empty());
    assert_eq!(reg.len(), 0);
    assert!(MacroRegistry::default().is_empty());
}

#[test]
fn register_returns_the_replaced_macro() {
    let mut reg = MacroRegistry::new();
    let old = reg.register("foo", BuiltinMacro::GetPath).unwrap();
    assert!(old.is_none());
    let old2 = reg.register("foo", BuiltinMacro::SetPath).unwrap();
    assert!(matches!(old2, Some(MacroDefinition::Function(BuiltinMacro::GetPath))));
    assert!(matches!(reg.lookup("foo"), Some(MacroDefinition::Function(BuiltinMacro::SetPath))));
    assert_eq!(reg.len(), 1);
}

#[test]
fn register_or_error_refuses_a_taken_name() {
    let mut reg = MacroRegistry::new();
    reg.register_or_error("foo", BuiltinMacro::GetPath).unwrap();
    let e = reg.register_or_error("foo", BuiltinMacro::SetPath).unwrap_err();
    assert_eq!(e.message(), "Validation error: Macro 'foo' is already registered");
    assert!(matches!(reg.lookup("foo"), Some(MacroDefinition::Function(BuiltinMacro::GetPath))));
}

#[test]
fn templates_register_like_functions() {
    let mut reg = MacroRegistry::new();
    assert!(reg.register_template("foo", template()).unwrap().is_none());
    assert!(reg.register_template("foo", template()).unwrap().is_some());
    reg.register_template_or_error("bar", template()).unwrap();
    assert!(reg.register_template_or_error("bar", template()).is_err());
    assert!(reg.register_template_or_error("foo", template()).is_err());
    assert!(matches!(reg.lookup("bar"), Some(MacroDefinition::Template(_))));
    assert_eq!(reg.len(), 2);
}

#[test]
fn unregister_removes_only_that_macro() {
    let mut reg = MacroRegistry::new();
    reg.register("foo", BuiltinMacro::GetPath).unwrap();
    reg.register("bar", BuiltinMacro::Print).unwrap();
    let removed = reg.unregister("foo");
    assert!(removed.is_some());
    assert!(!reg.contains("foo"));
    assert!(reg.contains("bar"));
    assert!(reg.unregister("foo").is_none());
    assert_eq!(reg.len(), 1);
}

#[test]
fn names_are_case_sensitive() {
    let mut reg = MacroRegistry::new();
    reg.register("foo", BuiltinMacro::GetPath).unwrap();
    assert!(reg.contains("foo"));
    assert!(!reg.contains("Foo"));
    assert!(!reg.contains("nonexistent"));
    assert!(reg.lookup("FOO").is_none());
}

#[test]
fn names_and_iter_list_every_macro_once() {
    let mut reg = MacroRegistry::new();
    reg.register("macro1", BuiltinMacro::GetPath).unwrap();
    reg.register("macro2", BuiltinMacro::SetPath).unwrap();
    reg.register("macro1", BuiltinMacro::DelPath).unwrap();
    let mut names = reg.names();
    names.sort();
    assert_eq!(names, vec!["macro1".to_string(), "macro2".to_string()]);
    let entries = reg.iter();
    assert_eq!(entries.len(), 2);
    for (name, def) in entries {
        if name == "macro1" {
            assert!(matches!(def, MacroDefinition::Function(BuiltinMacro::DelPath)));
        }
    }
}

#[test]
fn clear_empties_the_registry() {
    let mut reg = MacroRegistry::new();
    reg.register("foo", BuiltinMacro::GetPath).unwrap();
    assert!(!reg.is_empty());
    reg.clear();
    assert!(reg.is_empty());
    assert!(!reg.contains("foo"));
}
