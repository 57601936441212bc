use muskitty_cssom::declaration::{CssDeclaration, CssStyleDeclaration};
use muskitty_cssom::syntax::{ComponentValue, Token};
use muskitty_cssom::ToCss;

fn ident(s: &str) -> ComponentValue {
    ComponentValue::PreservedToken(Token::Ident(s.to_string()))
}

#[test]
fn declaration_new_basic() {
    let d = CssDeclaration::new("color", Vec::new(), false);
    assert_eq!(d.name, "color");
    assert!(d.value.is_empty());
    assert!(!d.important);
}

#[test]
fn declaration_new_with_important() {
    let d = CssDeclaration::new("color", Vec::new(), true);
    assert!(d.important);
}

#[test]
fn style_declaration_default_empty() {
    let block = CssStyleDeclaration::default();
    assert!(block.is_empty());
    assert_eq!(block.len(), 0);
    assert!(!block.readonly);
}

#[test]
fn style_declaration_push_and_len() {
    let mut block = CssStyleDeclaration::new();
    block.push(CssDeclaration::new("a", Vec::new(), false));
    block.push(CssDeclaration::new("b", Vec::new(), false));
    assert_eq!(block.len(), 2);
    assert!(!block.is_empty());
}

#[test]
fn style_declaration_get_property_returns_last_match() {
    let mut block = CssStyleDeclaration::new();
    block.push(CssDeclaration::new("color", Vec::new(), false));
    block.push(CssDeclaration::new("font-size", Vec::new(), false));
    block.push(CssDeclaration::new("color", Vec::new(), true));

    let got = block.get_property("color").unwrap();
    assert!(got.important);
}

#[test]
fn style_declaration_get_property_missing_returns_none() {
    let block = CssStyleDeclaration::new();
    assert!(block.get_property("color").is_none());
    assert!(block.get_property_value("color").is_none());
}

#[test]
fn style_declaration_iter() {
    let mut block = CssStyleDeclaration::new();
    block.push(CssDeclaration::new("a", Vec::new(), false));
    block.push(CssDeclaration::new("b", Vec::new(), false));
    let names: Vec<_> = block.iter().map(|d| d.name.as_str()).collect();
    assert_eq!(names, vec!["a", "b"]);
}

#[test]
fn style_declaration_from_vec() {
    let block = CssStyleDeclaration::from_vec(vec![
        CssDeclaration::new("a", Vec::new(), false),
        CssDeclaration::new("b", Vec::new(), false),
    ]);
    assert_eq!(block.len(), 2);
    assert!(!block.readonly);
}

#[test]
fn style_declaration_iter_mut_can_modify() {
    let mut block = CssStyleDeclaration::new();
    block.push(CssDeclaration::new("a", Vec::new(), false));
    for d in block.iter_mut() {
        d.important = true;
    }
    assert!(block.get_property("a").unwrap().important);
}

#[test]
fn style_declaration_clone_preserves_state() {
    let mut block = CssStyleDeclaration::new();
    block.push(CssDeclaration::new("a", Vec::new(), false));
    block.readonly = true;
    let cloned = block.clone();
    assert_eq!(cloned.len(), 1);
    assert!(cloned.readonly);
}

// ── further cases ───────────────────────────────────────────────────

#[test]
fn get_property_is_case_sensitive() {
    let mut block = CssStyleDeclaration::new();
    block.push(CssDeclaration::new("color", vec![ident("red")], false));
    assert!(block.get_property("COLOR").is_none());
    assert!(block.get_property("color").is_some());
}

#[test]
fn get_property_value_of_last_match() {
    let mut block = CssStyleDeclaration::new();
    block.push(CssDeclaration::new("color", vec![ident("red")], false));
    block.push(CssDeclaration::new("margin", vec![ident("auto")], false));
    block.push(CssDeclaration::new("color", vec![ident("blue")], false));
    let v = block.get_property_value("color").unwrap();
    assert_eq!(v.len(), 1);
    match &v[0] {
        ComponentValue::PreservedToken(Token::Ident(s)) => assert_eq!(s, "blue"),
        _ => panic!("expected an ident"),
    }
}

#[test]
fn push_then_get_finds_pushed_declaration() {
    // read after write, for the pushed name and for another one
    let mut block = CssStyleDeclaration::new();
    block.push(CssDeclaration::new("margin", vec![ident("auto")], false));
    block.push(CssDeclaration::new("color", vec![ident("red")], true));
    let got = block.get_property("color").unwrap();
    assert!(got.important);
    assert_eq!(got.value.len(), 1);
    assert!(!block.get_property("margin").unwrap().important);
}

#[test]
fn from_vec_keeps_order() {
    let block = CssStyleDeclaration::from_vec(vec![
        CssDeclaration::new("b", Vec::new(), false),
        CssDeclaration::new("a", Vec::new(), false),
    ]);
    let names: Vec<_> = block.iter().map(|d| d.name.as_str()).collect();
    assert_eq!(names, vec!["b", "a"]);
}

#[test]
fn declaration_with_value_serialization() {
    let d = CssDeclaration::new("color", vec![ident("red")], false);
    assert_eq!(d.to_css_string(), "color: red");
    let d = CssDeclaration::new("color", vec![ident("red")], true);
    assert_eq!(d.to_css_string(), "color: red !important");
}

#[test]
fn declaration_name_is_written_as_given() {
    let d = CssDeclaration::new("--my-var", vec![ident("x")], false);
    assert_eq!(d.to_css_string(), "--my-var: x");
}

#[test]
fn empty_block_serializes_to_empty() {
    assert_eq!(CssStyleDeclaration::new().to_css_string(), "");
}
