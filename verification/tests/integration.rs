use muskitty_cssom::syntax::{
    AtRule, BlockKind, ComponentValue, Declaration, Function, HashType, Numeric, NumericValue,
    QualifiedRule, Rule, SimpleBlock, Stylesheet, Token,
};
use muskitty_cssom::{from_stylesheet, ToCss};

// Syntax trees written out as a CSS parser hands them over, converted and
// serialized again.

fn tok(t: Token) -> ComponentValue {
    ComponentValue::PreservedToken(t)
}

fn ident(s: &str) -> ComponentValue {
    tok(Token::Ident(s.to_string()))
}

fn string(s: &str) -> ComponentValue {
    tok(Token::String(s.to_string()))
}

fn ws() -> ComponentValue {
    tok(Token::Whitespace)
}

fn whole(i: i64) -> Numeric {
    Numeric { value: NumericValue::Integer(i), is_integer: true }
}

fn dim(i: i64, unit: &str) -> ComponentValue {
    tok(Token::Dimension(whole(i), unit.to_string()))
}

fn decl(name: &str, value: Vec<ComponentValue>) -> Declaration {
    Declaration { name: name.to_string(), value, important: false, original_text: None }
}

fn qrule(prelude: Vec<ComponentValue>, declarations: Vec<Declaration>, child_rules: Vec<Rule>) -> Rule {
    Rule::QualifiedRule(QualifiedRule { prelude, declarations, child_rules })
}

fn block_at(name: &str, prelude: Vec<ComponentValue>, declarations: Vec<Declaration>, child_rules: Vec<Rule>) -> Rule {
    Rule::AtRule(AtRule {
        name: name.to_string(),
        prelude,
        declarations: Some(declarations),
        child_rules: Some(child_rules),
    })
}

fn statement_at(name: &str, prelude: Vec<ComponentValue>) -> Rule {
    Rule::AtRule(AtRule { name: name.to_string(), prelude, declarations: None, child_rules: None })
}

fn css_of(rules: Vec<Rule>) -> String {
    from_stylesheet(&Stylesheet { rules }).to_css_string()
}

fn style(sel: &str, decls: Vec<Declaration>) -> Rule {
    qrule(vec![ident(sel), ws()], decls, Vec::new())
}

fn paren(inner: Vec<ComponentValue>) -> ComponentValue {
    ComponentValue::SimpleBlock(SimpleBlock { kind: BlockKind::Paren, value: inner })
}

#[test]
fn roundtrip_simple_style_rule() {
    let out = css_of(vec![style("a", vec![decl("color", vec![ident("red")])])]);
    assert!(out.contains("a"), "output: {}", out);
    assert!(out.contains("color"), "output: {}", out);
    assert!(out.contains("red"), "output: {}", out);
    assert!(out.contains("{") && out.contains("}"), "output: {}", out);
    assert_eq!(out, "a { color: red; }");
}

#[test]
fn roundtrip_multiple_declarations() {
    let out = css_of(vec![style(
        "a",
        vec![decl("color", vec![ident("red")]), decl("font-size", vec![dim(16, "px")])],
    )]);
    assert!(out.contains("color: red"), "output: {}", out);
    assert!(out.contains("font-size"), "output: {}", out);
    assert!(out.contains("16px"), "output: {}", out);
}

#[test]
fn roundtrip_important() {
    let mut d = decl("color", vec![ident("red")]);
    d.important = true;
    let out = css_of(vec![style("a", vec![d])]);
    assert!(out.contains("!important"), "output: {}", out);
}

#[test]
fn roundtrip_media_rule() {
    let out = css_of(vec![block_at(
        "media",
        vec![ws(), ident("print"), ws()],
        Vec::new(),
        vec![style("a", vec![decl("color", vec![ident("black")])])],
    )]);
    assert!(out.starts_with("@media"), "output: {}", out);
    assert!(out.contains("print"), "output: {}", out);
    assert!(out.contains("color: black"), "output: {}", out);
}

#[test]
fn roundtrip_import_rule() {
    let out = css_of(vec![statement_at("import", vec![ws(), string("style.css")])]);
    assert!(out.starts_with("@import"), "output: {}", out);
    assert!(out.contains("style.css"), "output: {}", out);
    assert!(out.ends_with(';'), "output: {}", out);
}

#[test]
fn roundtrip_import_with_media() {
    let out = css_of(vec![statement_at("import", vec![ws(), string("style.css"), ws(), ident("screen")])]);
    assert!(out.contains("screen"), "output: {}", out);
}

#[test]
fn roundtrip_namespace_rule() {
    let out = css_of(vec![statement_at(
        "namespace",
        vec![ws(), ident("svg"), ws(), string("http://www.w3.org/2000/svg")],
    )]);
    assert!(out.starts_with("@namespace"), "output: {}", out);
    assert!(out.contains("svg"), "output: {}", out);
    assert!(out.contains("http://www.w3.org/2000/svg"), "output: {}", out);
}

#[test]
fn roundtrip_supports_rule() {
    let cond = paren(vec![ident("display"), tok(Token::Colon), ws(), ident("grid")]);
    let out = css_of(vec![block_at(
        "supports",
        vec![ws(), cond, ws()],
        Vec::new(),
        vec![style("a", vec![decl("color", vec![ident("red")])])],
    )]);
    assert!(out.starts_with("@supports"), "output: {}", out);
    assert!(out.contains("display: grid"), "output: {}", out);
}

#[test]
fn roundtrip_layer_block() {
    let out = css_of(vec![block_at(
        "layer",
        vec![ws(), ident("base"), ws()],
        Vec::new(),
        vec![style("a", vec![decl("color", vec![ident("red")])])],
    )]);
    assert!(out.starts_with("@layer base"), "output: {}", out);
    assert!(out.contains("color: red"), "output: {}", out);
}

#[test]
fn roundtrip_layer_statement() {
    let out = css_of(vec![statement_at(
        "layer",
        vec![ws(), ident("base"), tok(Token::Comma), ws(), ident("theme")],
    )]);
    assert_eq!(out, "@layer base, theme;");
}

#[test]
fn roundtrip_container_rule() {
    let cond = paren(vec![ident("min-width"), tok(Token::Colon), ws(), dim(100, "px")]);
    let out = css_of(vec![block_at(
        "container",
        vec![ws(), cond, ws()],
        Vec::new(),
        vec![style("a", vec![decl("color", vec![ident("red")])])],
    )]);
    assert!(out.starts_with("@container"), "output: {}", out);
    assert!(out.contains("min-width"), "output: {}", out);
}

#[test]
fn roundtrip_multiple_rules() {
    let out = css_of(vec![
        style("a", vec![decl("color", vec![ident("red")])]),
        style("b", vec![decl("color", vec![ident("blue")])]),
    ]);
    assert!(out.contains("\n"), "output: {}", out);
    assert!(out.contains("a {") && out.contains("b {"), "output: {}", out);
    assert_eq!(out, "a { color: red; }\nb { color: blue; }");
}

#[test]
fn roundtrip_nested_rules() {
    let hover = qrule(
        vec![tok(Token::Delim('&')), tok(Token::Colon), ident("hover"), ws()],
        vec![decl("color", vec![ident("blue")])],
        Vec::new(),
    );
    let out = css_of(vec![qrule(
        vec![ident("a"), ws()],
        vec![decl("color", vec![ident("red")])],
        vec![hover],
    )]);
    assert!(out.contains("color: red"), "output: {}", out);
    assert!(out.contains("color: blue"), "output: {}", out);
    assert!(out.contains("&:hover"), "output: {}", out);
    assert_eq!(out, "a { color: red; &:hover { color: blue; } }");
}

#[test]
fn roundtrip_empty_stylesheet() {
    assert_eq!(css_of(Vec::new()), "");
}

#[test]
fn roundtrip_dimension_value() {
    let out = css_of(vec![style("a", vec![decl("margin", vec![dim(10, "px")])])]);
    assert!(out.contains("10px"), "output: {}", out);
}

#[test]
fn roundtrip_percentage_value() {
    let out = css_of(vec![style("a", vec![decl("width", vec![tok(Token::Percentage(whole(50)))])])]);
    assert!(out.contains("50%"), "output: {}", out);
}

#[test]
fn roundtrip_function_value() {
    let n = |i: i64| tok(Token::Number(whole(i)));
    let rgb = ComponentValue::Function(Function {
        name: "rgb".to_string(),
        value: vec![n(255), tok(Token::Comma), ws(), n(0), tok(Token::Comma), ws(), n(0)],
    });
    let out = css_of(vec![style("a", vec![decl("color", vec![rgb])])]);
    assert!(out.contains("rgb("), "output: {}", out);
    assert!(out.contains("255"), "output: {}", out);
    assert_eq!(out, "a { color: rgb(255, 0, 0); }");
}

#[test]
fn roundtrip_hash_color() {
    let hash = tok(Token::Hash("ff0000".to_string(), HashType::Unrestricted));
    let out = css_of(vec![style("a", vec![decl("color", vec![hash])])]);
    assert!(out.contains("#ff0000"), "output: {}", out);
}

#[test]
fn roundtrip_other_at_rule_statement() {
    let out = css_of(vec![statement_at("charset", vec![ws(), string("UTF-8")])]);
    assert!(out.starts_with("@charset"), "output: {}", out);
    assert!(out.contains("UTF-8"), "output: {}", out);
    assert!(out.ends_with(';'), "output: {}", out);
}

#[test]
fn roundtrip_other_at_rule_block_with_decls() {
    let url = ComponentValue::Function(Function { name: "url".to_string(), value: vec![string("x.woff2")] });
    let out = css_of(vec![block_at(
        "font-face",
        vec![ws()],
        vec![decl("font-family", vec![ident("X")]), decl("src", vec![url])],
        Vec::new(),
    )]);
    assert!(out.starts_with("@font-face"), "output: {}", out);
    assert!(out.contains("font-family: X"), "output: {}", out);
    assert!(out.contains("src: url(\"x.woff2\")"), "output: {}", out);
    assert_eq!(out, "@font-face { font-family: X; src: url(\"x.woff2\"); }");
}

#[test]
fn roundtrip_import_media_spacing() {
    let out = css_of(vec![statement_at("import", vec![ws(), string("style.css"), ws(), ident("screen"), ws()])]);
    assert_eq!(out, "@import url(\"style.css\") screen;");
}
