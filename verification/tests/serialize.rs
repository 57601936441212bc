use muskitty_cssom::declaration::{CssDeclaration, CssStyleDeclaration};
use muskitty_cssom::rule::{
    CssContainerRule, CssCounterStyleRule, CssFontFaceRule, CssImportRule, CssKeyframeRule,
    CssKeyframesRule, CssLayerBlockRule, CssLayerStatementRule, CssMediaRule, CssNamespaceRule,
    CssPageRule, CssPropertyRule, CssRule, CssScopeRule, CssStyleRule, CssSupportsRule, OtherRule,
};
use muskitty_cssom::stylesheet::CssStyleSheet;
use muskitty_cssom::syntax::{
    BlockKind, ComponentValue, Function, HashType, Numeric, NumericValue, SimpleBlock, Token,
};
use muskitty_cssom::{
    serialize_component_value, serialize_component_values, serialize_identifier,
    serialize_string, serialize_url, ToCss,
};

fn tok(t: Token) -> ComponentValue {
    ComponentValue::PreservedToken(t)
}

fn ident(s: &str) -> ComponentValue {
    tok(Token::Ident(s.to_string()))
}

fn ws() -> ComponentValue {
    tok(Token::Whitespace)
}

fn whole(i: i64) -> Numeric {
    Numeric { value: NumericValue::Integer(i), is_integer: true }
}

fn decl(name: &str, value: Vec<ComponentValue>) -> CssDeclaration {
    CssDeclaration::new(name, value, false)
}

fn block(decls: Vec<CssDeclaration>) -> CssStyleDeclaration {
    CssStyleDeclaration::from_vec(decls)
}

#[test]
fn serialize_simple_identifier() {
    assert_eq!(serialize_identifier("color"), "color");
    assert_eq!(serialize_identifier("font-size"), "font-size");
}

#[test]
fn serialize_identifier_with_escape() {
    assert_eq!(serialize_identifier("1foo"), "\\31 foo");
    assert_eq!(serialize_identifier("-"), "\\-");
}

#[test]
fn serialize_string_basic() {
    assert_eq!(serialize_string("hello"), "\"hello\"");
}

#[test]
fn serialize_string_with_quotes() {
    assert_eq!(serialize_string("he said \"hi\""), "\"he said \\\"hi\\\"\"");
}

#[test]
fn serialize_string_with_backslash() {
    assert_eq!(serialize_string("a\\b"), "\"a\\\\b\"");
}

#[test]
fn serialize_url_basic() {
    assert_eq!(serialize_url("style.css"), "url(\"style.css\")");
}

#[test]
fn declaration_without_important() {
    let d = CssDeclaration::new("color", Vec::new(), false);
    assert_eq!(d.to_css_string(), "color: ");
}

#[test]
fn declaration_with_important() {
    let d = CssDeclaration::new("color", Vec::new(), true);
    assert_eq!(d.to_css_string(), "color:  !important");
}

#[test]
fn style_declaration_serialization() {
    let mut block = CssStyleDeclaration::new();
    block.push(CssDeclaration::new("a", Vec::new(), false));
    block.push(CssDeclaration::new("b", Vec::new(), false));
    assert_eq!(block.to_css_string(), "a: ; b: ;");
}

#[test]
fn layer_statement_serialization() {
    let r = CssLayerStatementRule { names: vec!["base".to_string(), "theme".to_string()] };
    assert_eq!(r.to_css_string(), "@layer base, theme;");
}

#[test]
fn empty_stylesheet_serializes_to_empty() {
    let ss = CssStyleSheet::new();
    assert_eq!(ss.to_css_string(), "");
}

// ── identifiers, strings, URLs ──────────────────────────────────────

#[test]
fn identifier_escapes() {
    assert_eq!(serialize_identifier(""), "");
    assert_eq!(serialize_identifier("-1a"), "-\\31 a");
    assert_eq!(serialize_identifier("--x"), "--x");
    assert_eq!(serialize_identifier("a b"), "a\\ b");
    assert_eq!(serialize_identifier("a\u{0}b"), "a\u{FFFD}b");
    assert_eq!(serialize_identifier("a\u{1}"), "a\\1 ");
    assert_eq!(serialize_identifier("a\u{7f}"), "a\\7f ");
    assert_eq!(serialize_identifier("é_x"), "é_x");
    assert_eq!(serialize_identifier("9"), "\\39 ");
}

#[test]
fn string_control_characters() {
    assert_eq!(serialize_string(""), "\"\"");
    assert_eq!(serialize_string("a\nb"), "\"a\\a b\"");
    assert_eq!(serialize_string("\u{0}"), "\"\u{FFFD}\"");
    assert_eq!(serialize_string("\u{1f}"), "\"\\1f \"");
}

#[test]
fn url_escapes_quotes() {
    assert_eq!(serialize_url("a\"b"), "url(\"a\\\"b\")");
}

// ── tokens and component values ─────────────────────────────────────

#[test]
fn numeric_tokens() {
    assert_eq!(serialize_component_value(&tok(Token::Number(whole(10)))), "10");
    assert_eq!(serialize_component_value(&tok(Token::Number(whole(-5)))), "-5");
    assert_eq!(serialize_component_value(&tok(Token::Number(whole(0)))), "0");
    assert_eq!(serialize_component_value(&tok(Token::Percentage(whole(50)))), "50%");
    assert_eq!(
        serialize_component_value(&tok(Token::Dimension(whole(10), "px".to_string()))),
        "10px"
    );
    let half = Numeric { value: NumericValue::Text("0.5".to_string()), is_integer: false };
    assert_eq!(serialize_component_value(&tok(Token::Dimension(half, "em".to_string()))), "0.5em");
    assert_eq!(
        serialize_component_value(&tok(Token::Number(whole(-9_223_372_036_854_775_807)))),
        "-9223372036854775807"
    );
}

#[test]
fn hash_tokens() {
    assert_eq!(
        serialize_component_value(&tok(Token::Hash("ff0000".to_string(), HashType::Unrestricted))),
        "#ff0000"
    );
    assert_eq!(
        serialize_component_value(&tok(Token::Hash("main".to_string(), HashType::Id))),
        "#main"
    );
    assert_eq!(
        serialize_component_value(&tok(Token::Hash("1a".to_string(), HashType::Unrestricted))),
        "#1a"
    );
    assert_eq!(
        serialize_component_value(&tok(Token::Hash("a b".to_string(), HashType::Id))),
        "#a\\ b"
    );
}

#[test]
fn unicode_range_tokens() {
    assert_eq!(serialize_component_value(&tok(Token::UnicodeRange(Some(0x41), Some(0x41)))), "U+0041");
    assert_eq!(
        serialize_component_value(&tok(Token::UnicodeRange(Some(0x0), Some(0x10FFFF)))),
        "U+0000-10FFFF"
    );
    assert_eq!(serialize_component_value(&tok(Token::UnicodeRange(Some(0xabc), None))), "U+0ABC");
    assert_eq!(serialize_component_value(&tok(Token::UnicodeRange(None, None))), "U+0");
}

#[test]
fn punctuation_tokens() {
    let cvs = vec![
        tok(Token::Colon),
        tok(Token::Semicolon),
        tok(Token::Comma),
        tok(Token::OpenBracket),
        tok(Token::CloseBracket),
        tok(Token::OpenParen),
        tok(Token::CloseParen),
        tok(Token::OpenBrace),
        tok(Token::CloseBrace),
        tok(Token::Cdo),
        tok(Token::Cdc),
        tok(Token::Delim('*')),
        ws(),
    ];
    assert_eq!(serialize_component_values(&cvs), ":;,[](){}<!---->* ");
}

#[test]
fn tokens_without_text() {
    let cvs = vec![tok(Token::BadString), tok(Token::BadUrl), tok(Token::Eof)];
    assert_eq!(serialize_component_values(&cvs), "");
}

#[test]
fn string_like_tokens() {
    assert_eq!(serialize_component_value(&tok(Token::String("x".to_string()))), "\"x\"");
    assert_eq!(serialize_component_value(&tok(Token::Url("a.png".to_string()))), "url(\"a.png\")");
    assert_eq!(serialize_component_value(&tok(Token::Comment(" c ".to_string()))), "/* c */");
    assert_eq!(serialize_component_value(&tok(Token::AtKeyword("media".to_string()))), "@media");
    assert_eq!(serialize_component_value(&tok(Token::Function("rgb".to_string()))), "rgb(");
}

#[test]
fn functions_and_blocks() {
    let f = ComponentValue::Function(Function {
        name: "rgb".to_string(),
        value: vec![
            tok(Token::Number(whole(255))),
            tok(Token::Comma),
            ws(),
            tok(Token::Number(whole(0))),
        ],
    });
    assert_eq!(serialize_component_value(&f), "rgb(255, 0)");
    let b = ComponentValue::SimpleBlock(SimpleBlock {
        kind: BlockKind::Paren,
        value: vec![ident("display"), tok(Token::Colon), ws(), ident("grid")],
    });
    assert_eq!(serialize_component_value(&b), "(display: grid)");
    let sq = ComponentValue::SimpleBlock(SimpleBlock { kind: BlockKind::Square, value: vec![ident("a")] });
    assert_eq!(serialize_component_value(&sq), "[a]");
    let cu = ComponentValue::SimpleBlock(SimpleBlock { kind: BlockKind::Curly, value: Vec::new() });
    assert_eq!(serialize_component_value(&cu), "{}");
}

// ── rules ───────────────────────────────────────────────────────────

#[test]
fn style_rule_serialization() {
    let r = CssStyleRule {
        selectors: vec![ident("a"), ws()],
        style: block(vec![decl("color", vec![ident("red")])]),
        css_rules: Vec::new(),
    };
    assert_eq!(r.to_css_string(), "a { color: red; }");
    let empty = CssStyleRule::new(vec![ident("a")]);
    assert_eq!(empty.to_css_string(), "a {  }");
}

#[test]
fn style_rule_nested_children() {
    let child = |s: &str| CssRule::Style(CssStyleRule::new(vec![ident(s)]));
    let with_decls = CssStyleRule {
        selectors: vec![ident("a")],
        style: block(vec![decl("color", vec![ident("red")])]),
        css_rules: vec![child("b"), child("c")],
    };
    assert_eq!(with_decls.to_css_string(), "a { color: red; b {  } c {  } }");
    let without_decls = CssStyleRule {
        selectors: vec![ident("a")],
        style: CssStyleDeclaration::new(),
        css_rules: vec![child("b"), child("c")],
    };
    assert_eq!(without_decls.to_css_string(), "a { b {  } c {  } }");
}

#[test]
fn import_rule_serialization() {
    let r = CssImportRule { href: "style.css".to_string(), media: Vec::new() };
    assert_eq!(r.to_css_string(), "@import url(\"style.css\");");
    let m = CssImportRule { href: "s.css".to_string(), media: vec![ws(), ident("screen")] };
    assert_eq!(m.to_css_string(), "@import url(\"s.css\")  screen;");
}

#[test]
fn namespace_rule_serialization() {
    let r = CssNamespaceRule {
        namespace_uri: "http://www.w3.org/2000/svg".to_string(),
        prefix: Some("svg".to_string()),
    };
    assert_eq!(r.to_css_string(), "@namespace svg url(\"http://www.w3.org/2000/svg\");");
    let d = CssNamespaceRule { namespace_uri: "u".to_string(), prefix: None };
    assert_eq!(d.to_css_string(), "@namespace url(\"u\");");
}

#[test]
fn grouping_rule_serialization() {
    let inner = || vec![CssRule::Style(CssStyleRule::new(vec![ident("a")]))];
    let media = CssMediaRule { condition: vec![ident("print")], css_rules: inner() };
    assert_eq!(media.to_css_string(), "@media print { a {  } }");
    let blank = CssMediaRule { condition: vec![ws()], css_rules: Vec::new() };
    assert_eq!(blank.to_css_string(), "@media { }");
    let supports = CssSupportsRule { condition: vec![ident("x")], css_rules: inner() };
    assert_eq!(supports.to_css_string(), "@supports x { a {  } }");
    let container = CssContainerRule { condition: vec![ident("y")], css_rules: Vec::new() };
    assert_eq!(container.to_css_string(), "@container y { }");
    let scope = CssScopeRule { prelude: Vec::new(), css_rules: inner() };
    assert_eq!(scope.to_css_string(), "@scope { a {  } }");
    let layer = CssLayerBlockRule { name: Some("base".to_string()), css_rules: inner() };
    assert_eq!(layer.to_css_string(), "@layer base { a {  } }");
    let anon = CssLayerBlockRule { name: None, css_rules: Vec::new() };
    assert_eq!(anon.to_css_string(), "@layer { }");
}

#[test]
fn descriptor_rule_serialization() {
    let ff = CssFontFaceRule { style: block(vec![decl("font-family", vec![ident("X")])]) };
    assert_eq!(ff.to_css_string(), "@font-face { font-family: X; }");
    let empty = CssFontFaceRule { style: CssStyleDeclaration::new() };
    assert_eq!(empty.to_css_string(), "@font-face { }");
    let page = CssPageRule { selectors: vec![tok(Token::Colon), ident("first")], style: block(vec![decl("margin", vec![tok(Token::Number(whole(0)))])]) };
    assert_eq!(page.to_css_string(), "@page :first { margin: 0; }");
    let cs = CssCounterStyleRule { name: "thumbs".to_string(), style: CssStyleDeclaration::new() };
    assert_eq!(cs.to_css_string(), "@counter-style thumbs { }");
    let prop = CssPropertyRule { name: "--foo".to_string(), style: block(vec![decl("inherits", vec![ident("false")])]) };
    assert_eq!(prop.to_css_string(), "@property --foo { inherits: false; }");
}

#[test]
fn keyframes_serialization() {
    let kf = CssKeyframeRule {
        key_text: vec![ident("from"), ws()],
        style: block(vec![decl("opacity", vec![tok(Token::Number(whole(0)))])]),
    };
    assert_eq!(kf.to_css_string(), "from { opacity: 0; }");
    let r = CssKeyframesRule {
        name: Some("fade".to_string()),
        keyframes: vec![kf, CssKeyframeRule { key_text: vec![ident("to")], style: CssStyleDeclaration::new() }],
    };
    assert_eq!(r.to_css_string(), "@keyframes fade { from { opacity: 0; } to { } }");
    let anon = CssKeyframesRule { name: None, keyframes: Vec::new() };
    assert_eq!(anon.to_css_string(), "@keyframes  { }");
}

#[test]
fn other_rule_serialization() {
    let stmt = OtherRule {
        name: "charset".to_string(),
        prelude: vec![ws(), tok(Token::String("UTF-8".to_string()))],
        declarations: None,
        child_rules: Vec::new(),
    };
    assert_eq!(stmt.to_css_string(), "@charset  \"UTF-8\";");
    let blk = OtherRule {
        name: "font-feature-values".to_string(),
        prelude: vec![ident("Font")],
        declarations: Some(vec![decl("a", vec![ident("b")])]),
        child_rules: vec![CssRule::Style(CssStyleRule::new(vec![ident("c")]))],
    };
    assert_eq!(blk.to_css_string(), "@font-feature-values Font { a: b; c {  } }");
    let empty_block = OtherRule {
        name: "x".to_string(),
        prelude: Vec::new(),
        declarations: Some(Vec::new()),
        child_rules: Vec::new(),
    };
    assert_eq!(empty_block.to_css_string(), "@x { }");
}

#[test]
fn rule_enum_dispatches() {
    let r = CssRule::LayerStatement(CssLayerStatementRule { names: vec!["a.b".to_string(), "c".to_string()] });
    assert_eq!(r.to_css_string(), "@layer a\\.b, c;");
    let k = CssRule::Keyframe(CssKeyframeRule { key_text: vec![tok(Token::Percentage(whole(50)))], style: CssStyleDeclaration::new() });
    assert_eq!(k.to_css_string(), "50% { }");
}

#[test]
fn every_rule_text_is_terminated() {
    let rules = vec![
        CssRule::Style(CssStyleRule::new(Vec::new())),
        CssRule::Import(CssImportRule { href: String::new(), media: Vec::new() }),
        CssRule::LayerStatement(CssLayerStatementRule { names: Vec::new() }),
        CssRule::Keyframe(CssKeyframeRule { key_text: Vec::new(), style: CssStyleDeclaration::new() }),
        CssRule::Other(OtherRule { name: String::new(), prelude: Vec::new(), declarations: None, child_rules: Vec::new() }),
    ];
    for r in &rules {
        let s = r.to_css_string();
        assert!(s.ends_with('}') || s.ends_with(';'), "{}", s);
    }
}

/// Reads the text between the quotes of a CSS string token back.
fn read_back(quoted: &str) -> Option<String> {
    let inner: Vec<char> = quoted.chars().collect();
    assert!(inner.len() >= 2 && inner[0] == '"' && inner[inner.len() - 1] == '"');
    let t = &inner[1..inner.len() - 1];
    let mut out = String::new();
    let mut i = 0;
    while i < t.len() {
        let c = t[i];
        if c == '\\' {
            if i + 1 == t.len() {
                break;
            }
            let mut j = i + 1;
            let mut v: u32 = 0;
            while j < t.len() && j < i + 7 && t[j].is_ascii_hexdigit() {
                v = v * 16 + t[j].to_digit(16).unwrap();
                j += 1;
            }
            if j > i + 1 {
                out.push(char::from_u32(v).filter(|&c| c != '\0').unwrap_or('\u{FFFD}'));
                if j < t.len() && (t[j] == ' ' || t[j] == '\t' || t[j] == '\n') {
                    j += 1;
                }
                i = j;
            } else {
                out.push(t[i + 1]);
                i += 2;
            }
        } else if c == '"' || c == '\n' {
            return None;
        } else {
            out.push(c);
            i += 1;
        }
    }
    Some(out)
}

#[test]
fn serialized_strings_read_back() {
    for s in ["", "plain", "a\u{1}b", "\u{1f}1", "say \"hi\"", "back\\slash", "tab\there\nnl\u{7f} x", "é✓"] {
        assert_eq!(read_back(&serialize_string(s)).as_deref(), Some(s), "{:?}", s);
    }
    assert_eq!(read_back(&serialize_string("a\u{0}b")).as_deref(), Some("a\u{FFFD}b"));
    assert_eq!(serialize_string("a\u{1}b\"c\\"), "\"a\\1 b\\\"c\\\\\"");
}
