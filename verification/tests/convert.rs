use muskitty_cssom::rule::CssRule;
use muskitty_cssom::stylesheet::Origin;
use muskitty_cssom::syntax::{
    AtRule, ComponentValue, Declaration, Function, Numeric, NumericValue, QualifiedRule, Rule,
    SimpleBlock, BlockKind, Stylesheet, Token,
};
use muskitty_cssom::convert::extract_string_or_url;
use muskitty_cssom::{from_stylesheet, from_stylesheet_with_origin, serialize_component_values};

// Syntax trees written out as a CSS parser hands them over.

fn tok(t: Token) -> ComponentValue {
    ComponentValue::PreservedToken(t)
}

fn ident(s: &str) -> ComponentValue {
    tok(Token::Ident(s.to_string()))
}

fn string(s: &str) -> ComponentValue {
    tok(Token::String(s.to_string()))
}

fn ws() -> ComponentValue {
    tok(Token::Whitespace)
}

fn whole(i: i64) -> Numeric {
    Numeric { value: NumericValue::Integer(i), is_integer: true }
}

fn decl(name: &str, value: Vec<ComponentValue>) -> Declaration {
    Declaration { name: name.to_string(), value, important: false, original_text: None }
}

fn qrule(prelude: Vec<ComponentValue>, declarations: Vec<Declaration>, child_rules: Vec<Rule>) -> Rule {
    Rule::QualifiedRule(QualifiedRule { prelude, declarations, child_rules })
}

fn block_at(name: &str, prelude: Vec<ComponentValue>, declarations: Vec<Declaration>, child_rules: Vec<Rule>) -> Rule {
    Rule::AtRule(AtRule {
        name: name.to_string(),
        prelude,
        declarations: Some(declarations),
        child_rules: Some(child_rules),
    })
}

fn statement_at(name: &str, prelude: Vec<ComponentValue>) -> Rule {
    Rule::AtRule(AtRule { name: name.to_string(), prelude, declarations: None, child_rules: None })
}

fn sheet(rules: Vec<Rule>) -> Stylesheet {
    Stylesheet { rules }
}

/// `a { color: red; }`
fn a_color_red() -> Rule {
    qrule(vec![ident("a"), ws()], vec![decl("color", vec![ident("red")])], Vec::new())
}

#[test]
fn empty_stylesheet() {
    let om = from_stylesheet(&sheet(Vec::new()));
    assert!(om.is_empty());
    assert!(om.css_rules.is_empty());
}

#[test]
fn from_stylesheet_with_origin_sets_origin() {
    let ss = sheet(vec![a_color_red()]);
    let om = from_stylesheet_with_origin(&ss, Origin::UserAgent);
    assert_eq!(om.origin, Origin::UserAgent);
    assert_eq!(om.len(), 1);
    let author = from_stylesheet(&ss);
    assert_eq!(author.origin, Origin::Author);
}

#[test]
fn custom_property_original_text_preserved() {
    // :root { --x: red; color: blue; }
    let custom = Declaration {
        name: "--x".to_string(),
        value: vec![ident("red")],
        important: false,
        original_text: Some("red".to_string()),
    };
    let ss = sheet(vec![qrule(
        vec![tok(Token::Colon), ident("root"), ws()],
        vec![custom, decl("color", vec![ident("blue")])],
        Vec::new(),
    )]);
    let om = from_stylesheet(&ss);
    match &om.css_rules[0] {
        CssRule::Style(r) => {
            let custom = r.style.get_property("--x").expect("--x decl");
            assert!(custom.original_text.is_some(), "custom property keeps original_text");
            let normal = r.style.get_property("color").expect("color decl");
            assert!(normal.original_text.is_none(), "regular property has no original_text");
        }
        other => panic!("expected Style, got {:?}", other),
    }
}

#[test]
fn single_style_rule() {
    let om = from_stylesheet(&sheet(vec![a_color_red()]));
    assert_eq!(om.len(), 1);
    match &om.css_rules[0] {
        CssRule::Style(r) => {
            assert!(!r.selectors.is_empty());
            assert_eq!(r.style.len(), 1);
            assert_eq!(r.style.get_property("color").unwrap().name, "color");
            assert!(r.css_rules.is_empty());
        }
        other => panic!("expected Style, got {:?}", other),
    }
}

#[test]
fn style_rule_with_important() {
    let mut d = decl("color", vec![ident("red")]);
    d.important = true;
    let om = from_stylesheet(&sheet(vec![qrule(vec![ident("a"), ws()], vec![d], Vec::new())]));
    match &om.css_rules[0] {
        CssRule::Style(r) => {
            let decl = r.style.get_property("color").unwrap();
            assert!(decl.important);
        }
        _ => panic!(),
    }
}

#[test]
fn multiple_declarations() {
    let ss = sheet(vec![qrule(
        vec![ident("a"), ws()],
        vec![
            decl("color", vec![ident("red")]),
            decl("font-size", vec![tok(Token::Dimension(whole(16), "px".to_string()))]),
        ],
        Vec::new(),
    )]);
    let om = from_stylesheet(&ss);
    match &om.css_rules[0] {
        CssRule::Style(r) => {
            assert_eq!(r.style.len(), 2);
            assert!(r.style.get_property("color").is_some());
            assert!(r.style.get_property("font-size").is_some());
        }
        _ => panic!(),
    }
}

fn media_print(name: &str) -> Rule {
    block_at(
        name,
        vec![ws(), ident("print"), ws()],
        Vec::new(),
        vec![qrule(vec![ident("a"), ws()], vec![decl("color", vec![ident("black")])], Vec::new())],
    )
}

#[test]
fn media_rule() {
    let om = from_stylesheet(&sheet(vec![media_print("media")]));
    assert_eq!(om.len(), 1);
    match &om.css_rules[0] {
        CssRule::Media(r) => {
            assert!(!r.condition.is_empty());
            assert_eq!(r.css_rules.len(), 1);
            match &r.css_rules[0] {
                CssRule::Style(inner) => {
                    assert!(inner.style.get_property("color").is_some());
                }
                _ => panic!(),
            }
        }
        other => panic!("expected Media, got {:?}", other),
    }
}

#[test]
fn at_rule_name_case_insensitive() {
    let om = from_stylesheet(&sheet(vec![media_print("MEDIA")]));
    assert_eq!(om.len(), 1);
    assert!(
        matches!(&om.css_rules[0], CssRule::Media(_)),
        "expected Media, got {:?}",
        om.css_rules[0]
    );
}

#[test]
fn import_rule_with_string() {
    let om = from_stylesheet(&sheet(vec![statement_at("import", vec![ws(), string("style.css")])]));
    match &om.css_rules[0] {
        CssRule::Import(r) => {
            assert_eq!(r.href, "style.css");
            assert!(r.media.is_empty());
        }
        _ => panic!(),
    }
}

#[test]
fn import_rule_with_url_function() {
    let url = tok(Token::Url("style.css".to_string()));
    let om = from_stylesheet(&sheet(vec![statement_at("import", vec![ws(), url])]));
    match &om.css_rules[0] {
        CssRule::Import(r) => assert_eq!(r.href, "style.css"),
        _ => panic!(),
    }
}

#[test]
fn import_rule_with_quoted_url_function() {
    let f = ComponentValue::Function(Function { name: "url".to_string(), value: vec![string("style.css")] });
    let om = from_stylesheet(&sheet(vec![statement_at("import", vec![ws(), f])]));
    match &om.css_rules[0] {
        CssRule::Import(r) => assert_eq!(r.href, "style.css"),
        _ => panic!(),
    }
}

#[test]
fn import_rule_with_media() {
    // @import "style.css" screen and (min-width: 100px);
    let cond = ComponentValue::SimpleBlock(SimpleBlock {
        kind: BlockKind::Paren,
        value: vec![ident("min-width"), tok(Token::Colon), ws(), tok(Token::Dimension(whole(100), "px".to_string()))],
    });
    let prelude = vec![ws(), string("style.css"), ws(), ident("screen"), ws(), ident("and"), ws(), cond];
    let om = from_stylesheet(&sheet(vec![statement_at("import", prelude)]));
    match &om.css_rules[0] {
        CssRule::Import(r) => {
            assert_eq!(r.href, "style.css");
            assert!(!r.media.is_empty());
        }
        _ => panic!(),
    }
}

#[test]
fn namespace_rule_default() {
    let om = from_stylesheet(&sheet(vec![statement_at(
        "namespace",
        vec![ws(), string("http://www.w3.org/2000/svg")],
    )]));
    match &om.css_rules[0] {
        CssRule::Namespace(r) => {
            assert_eq!(r.namespace_uri, "http://www.w3.org/2000/svg");
            assert!(r.prefix.is_none());
        }
        _ => panic!(),
    }
}

#[test]
fn convert_namespace_rule_with_prefix() {
    let om = from_stylesheet(&sheet(vec![statement_at(
        "namespace",
        vec![ws(), ident("svg"), ws(), string("http://www.w3.org/2000/svg")],
    )]));
    match &om.css_rules[0] {
        CssRule::Namespace(r) => {
            assert_eq!(r.namespace_uri, "http://www.w3.org/2000/svg");
            assert_eq!(r.prefix.as_deref(), Some("svg"));
        }
        _ => panic!(),
    }
}

fn paren(inner: Vec<ComponentValue>) -> ComponentValue {
    ComponentValue::SimpleBlock(SimpleBlock { kind: BlockKind::Paren, value: inner })
}

#[test]
fn supports_rule() {
    let cond = paren(vec![ident("display"), tok(Token::Colon), ws(), ident("grid")]);
    let om = from_stylesheet(&sheet(vec![block_at("supports", vec![ws(), cond, ws()], Vec::new(), vec![a_color_red()])]));
    match &om.css_rules[0] {
        CssRule::Supports(r) => {
            assert!(!r.condition.is_empty());
            assert_eq!(r.css_rules.len(), 1);
        }
        _ => panic!(),
    }
}

#[test]
fn convert_layer_block_named() {
    let om = from_stylesheet(&sheet(vec![block_at("layer", vec![ws(), ident("base"), ws()], Vec::new(), vec![a_color_red()])]));
    match &om.css_rules[0] {
        CssRule::LayerBlock(r) => {
            assert_eq!(r.name.as_deref(), Some("base"));
            assert_eq!(r.css_rules.len(), 1);
        }
        _ => panic!(),
    }
}

#[test]
fn convert_layer_block_anonymous() {
    let om = from_stylesheet(&sheet(vec![block_at("layer", vec![ws()], Vec::new(), vec![a_color_red()])]));
    match &om.css_rules[0] {
        CssRule::LayerBlock(r) => {
            assert!(r.name.is_none());
            assert_eq!(r.css_rules.len(), 1);
        }
        _ => panic!(),
    }
}

fn dot() -> ComponentValue {
    tok(Token::Delim('.'))
}

#[test]
fn layer_block_dotted_name() {
    let prelude = vec![ws(), ident("a"), dot(), ident("b"), dot(), ident("c"), ws()];
    let om = from_stylesheet(&sheet(vec![block_at("layer", prelude, Vec::new(), vec![a_color_red()])]));
    match &om.css_rules[0] {
        CssRule::LayerBlock(r) => {
            assert_eq!(r.name.as_deref(), Some("a.b.c"));
            assert_eq!(r.css_rules.len(), 1);
        }
        other => panic!("expected LayerBlock, got {:?}", other),
    }
}

#[test]
fn layer_statement_dotted_names() {
    let prelude = vec![ws(), ident("a"), dot(), ident("b"), tok(Token::Comma), ws(), ident("c"), dot(), ident("d")];
    let om = from_stylesheet(&sheet(vec![statement_at("layer", prelude)]));
    match &om.css_rules[0] {
        CssRule::LayerStatement(r) => {
            assert_eq!(r.names, vec!["a.b", "c.d"]);
        }
        other => panic!("expected LayerStatement, got {:?}", other),
    }
}

#[test]
fn layer_statement() {
    let prelude = vec![
        ws(),
        ident("base"),
        tok(Token::Comma),
        ws(),
        ident("theme"),
        tok(Token::Comma),
        ws(),
        ident("utilities"),
    ];
    let om = from_stylesheet(&sheet(vec![statement_at("layer", prelude)]));
    match &om.css_rules[0] {
        CssRule::LayerStatement(r) => {
            assert_eq!(r.names, vec!["base", "theme", "utilities"]);
        }
        _ => panic!(),
    }
}

#[test]
fn container_rule() {
    let cond = paren(vec![ident("min-width"), tok(Token::Colon), ws(), tok(Token::Dimension(whole(100), "px".to_string()))]);
    let om = from_stylesheet(&sheet(vec![block_at("container", vec![ws(), cond, ws()], Vec::new(), vec![a_color_red()])]));
    match &om.css_rules[0] {
        CssRule::Container(r) => {
            assert!(!r.condition.is_empty());
            assert_eq!(r.css_rules.len(), 1);
        }
        _ => panic!(),
    }
}

#[test]
fn other_at_rule_statement() {
    let om = from_stylesheet(&sheet(vec![statement_at("charset", vec![ws(), string("UTF-8")])]));
    match &om.css_rules[0] {
        CssRule::Other(r) => {
            assert_eq!(r.name, "charset");
            assert!(r.declarations.is_none());
            assert!(r.child_rules.is_empty());
        }
        _ => panic!(),
    }
}

#[test]
fn font_face_rule_typed() {
    let url = tok(Token::Url("x".to_string()));
    let om = from_stylesheet(&sheet(vec![block_at(
        "font-face",
        vec![ws()],
        vec![decl("font-family", vec![ident("X")]), decl("src", vec![url])],
        Vec::new(),
    )]));
    match &om.css_rules[0] {
        CssRule::FontFace(r) => {
            assert_eq!(r.style.len(), 2);
            let names: Vec<&str> = r.style.declarations.iter().map(|d| d.name.as_str()).collect();
            assert_eq!(names, vec!["font-family", "src"]);
        }
        other => panic!("expected FontFace, got {:?}", other),
    }
}

#[test]
fn keyframes_rule_typed() {
    let frame = |key: &str, v: i64| {
        qrule(vec![ident(key), ws()], vec![decl("opacity", vec![tok(Token::Number(whole(v)))])], Vec::new())
    };
    let om = from_stylesheet(&sheet(vec![block_at(
        "keyframes",
        vec![ws(), ident("fade"), ws()],
        Vec::new(),
        vec![frame("from", 0), frame("to", 1)],
    )]));
    match &om.css_rules[0] {
        CssRule::Keyframes(r) => {
            assert_eq!(r.name.as_deref(), Some("fade"));
            assert_eq!(r.keyframes.len(), 2);
            let key_texts: Vec<String> = r
                .keyframes
                .iter()
                .map(|kf| serialize_component_values(&kf.key_text).trim().to_string())
                .collect();
            assert_eq!(key_texts, vec!["from", "to"]);
            assert_eq!(r.keyframes[0].style.len(), 1);
            assert_eq!(r.keyframes[0].style.declarations[0].name, "opacity");
        }
        other => panic!("expected Keyframes, got {:?}", other),
    }
}

#[test]
fn page_and_property_typed() {
    let page = block_at("page", vec![ws()], vec![decl("margin", vec![tok(Token::Dimension(whole(1), "cm".to_string()))])], Vec::new());
    let property = block_at("property", vec![ws(), ident("--foo"), ws()], vec![decl("syntax", vec![string("<length>")])], Vec::new());
    let om = from_stylesheet(&sheet(vec![page, property]));
    assert!(matches!(om.css_rules[0], CssRule::Page(_)));
    match &om.css_rules[1] {
        CssRule::Property(r) => {
            assert_eq!(r.name, "--foo");
            assert_eq!(r.style.len(), 1);
            assert_eq!(r.style.declarations[0].name, "syntax");
        }
        other => panic!("expected Property, got {:?}", other),
    }
}

fn hover_blue() -> Rule {
    qrule(
        vec![tok(Token::Delim('&')), tok(Token::Colon), ident("hover"), ws()],
        vec![decl("color", vec![ident("blue")])],
        Vec::new(),
    )
}

#[test]
fn nested_rules() {
    let ss = sheet(vec![qrule(vec![ident("a"), ws()], vec![decl("color", vec![ident("red")])], vec![hover_blue()])]);
    let om = from_stylesheet(&ss);
    match &om.css_rules[0] {
        CssRule::Style(r) => {
            assert_eq!(r.style.len(), 1);
            assert_eq!(r.css_rules.len(), 1);
            match &r.css_rules[0] {
                CssRule::Style(nested) => {
                    assert!(nested.style.get_property("color").is_some());
                }
                _ => panic!(),
            }
        }
        _ => panic!(),
    }
}

#[test]
fn nested_declarations_merged_into_parent() {
    // a { color: red; &:hover { color: blue; } font-size: 16px; }
    let font_size = decl("font-size", vec![tok(Token::Dimension(whole(16), "px".to_string()))]);
    let ss = sheet(vec![qrule(
        vec![ident("a"), ws()],
        vec![decl("color", vec![ident("red")])],
        vec![hover_blue(), Rule::Declarations(vec![font_size])],
    )]);
    let om = from_stylesheet(&ss);
    match &om.css_rules[0] {
        CssRule::Style(r) => {
            assert!(r.style.get_property("color").is_some());
            assert!(r.style.get_property("font-size").is_some());
            assert_eq!(r.css_rules.len(), 1);
        }
        _ => panic!(),
    }
}

#[test]
fn top_level_declarations_skipped() {
    let ss = sheet(vec![
        Rule::Declarations(vec![decl("color", vec![ident("red")])]),
        qrule(vec![ident("a"), ws()], vec![decl("color", vec![ident("blue")])], Vec::new()),
    ]);
    let om = from_stylesheet(&ss);
    assert_eq!(om.len(), 1);
    match &om.css_rules[0] {
        CssRule::Style(_) => {}
        _ => panic!(),
    }
}

#[test]
fn multiple_rules_at_top_level() {
    let b = qrule(vec![ident("b"), ws()], vec![decl("color", vec![ident("blue")])], Vec::new());
    let media = block_at(
        "media",
        vec![ws(), ident("print"), ws()],
        Vec::new(),
        vec![qrule(vec![ident("c"), ws()], vec![decl("color", vec![ident("green")])], Vec::new())],
    );
    let om = from_stylesheet(&sheet(vec![a_color_red(), b, media]));
    assert_eq!(om.len(), 3);
    assert!(matches!(om.css_rules[0], CssRule::Style(_)));
    assert!(matches!(om.css_rules[1], CssRule::Style(_)));
    assert!(matches!(om.css_rules[2], CssRule::Media(_)));
}

// ── further cases ───────────────────────────────────────────────────

#[test]
fn nested_declaration_wins_over_own() {
    // a { color: red; &:hover {} color: blue; }: the nested run comes last
    let ss = sheet(vec![qrule(
        vec![ident("a")],
        vec![decl("color", vec![ident("red")])],
        vec![hover_blue(), Rule::Declarations(vec![decl("color", vec![ident("blue")])])],
    )]);
    let om = from_stylesheet(&ss);
    match &om.css_rules[0] {
        CssRule::Style(r) => {
            assert_eq!(r.style.len(), 2);
            let v = r.style.get_property_value("color").unwrap();
            assert_eq!(serialize_component_values(v), "blue");
        }
        _ => panic!(),
    }
}

#[test]
fn grouping_rules_drop_bare_declarations() {
    let media = block_at(
        "media",
        vec![ident("print")],
        Vec::new(),
        vec![Rule::Declarations(vec![decl("color", vec![ident("red")])]), a_color_red()],
    );
    let om = from_stylesheet(&sheet(vec![media]));
    match &om.css_rules[0] {
        CssRule::Media(r) => assert_eq!(r.css_rules.len(), 1),
        _ => panic!(),
    }
}

#[test]
fn unknown_at_rule_keeps_name_and_declarations() {
    let other = Rule::AtRule(AtRule {
        name: "Font-Feature-Values".to_string(),
        prelude: vec![ws(), ident("Font")],
        declarations: Some(vec![decl("a", vec![ident("b")])]),
        child_rules: Some(vec![Rule::Declarations(vec![decl("c", vec![ident("d")])]), a_color_red()]),
    });
    let om = from_stylesheet(&sheet(vec![other]));
    match &om.css_rules[0] {
        CssRule::Other(r) => {
            assert_eq!(r.name, "Font-Feature-Values");
            assert_eq!(r.prelude.len(), 2);
            let names: Vec<&str> =
                r.declarations.as_ref().unwrap().iter().map(|d| d.name.as_str()).collect();
            assert_eq!(names, vec!["a", "c"]);
            assert_eq!(r.child_rules.len(), 1);
        }
        _ => panic!(),
    }
}

#[test]
fn counter_style_and_scope() {
    let cs = block_at("COUNTER-STYLE", vec![ws(), ident("thumbs"), ws()], vec![decl("system", vec![ident("cyclic")])], Vec::new());
    let scope = block_at("scope", vec![ws(), paren(vec![ident("main")]), ws()], Vec::new(), vec![a_color_red()]);
    let om = from_stylesheet(&sheet(vec![cs, scope]));
    match &om.css_rules[0] {
        CssRule::CounterStyle(r) => {
            assert_eq!(r.name, "thumbs");
            assert_eq!(r.style.len(), 1);
        }
        _ => panic!(),
    }
    match &om.css_rules[1] {
        CssRule::Scope(r) => {
            assert_eq!(r.prelude.len(), 3);
            assert_eq!(r.css_rules.len(), 1);
        }
        _ => panic!(),
    }
}

#[test]
fn keyframes_skip_non_qualified_children() {
    let om = from_stylesheet(&sheet(vec![block_at(
        "keyframes",
        vec![ws()],
        Vec::new(),
        vec![statement_at("x", Vec::new()), qrule(vec![tok(Token::Percentage(whole(50)))], Vec::new(), Vec::new())],
    )]));
    match &om.css_rules[0] {
        CssRule::Keyframes(r) => {
            assert!(r.name.is_none());
            assert_eq!(r.keyframes.len(), 1);
        }
        _ => panic!(),
    }
}

#[test]
fn namespace_last_uri_and_first_prefix() {
    let om = from_stylesheet(&sheet(vec![statement_at(
        "namespace",
        vec![ident("p"), ident("q"), string("one"), tok(Token::Url("two".to_string()))],
    )]));
    match &om.css_rules[0] {
        CssRule::Namespace(r) => {
            assert_eq!(r.prefix.as_deref(), Some("p"));
            assert_eq!(r.namespace_uri, "two");
        }
        _ => panic!(),
    }
}

#[test]
fn import_without_url_is_empty() {
    let om = from_stylesheet(&sheet(vec![statement_at("import", vec![ws(), ident("screen")])]));
    match &om.css_rules[0] {
        CssRule::Import(r) => {
            assert_eq!(r.href, "");
            assert!(r.media.is_empty());
        }
        _ => panic!(),
    }
}

#[test]
fn url_function_with_other_arguments_is_no_href() {
    let f = ComponentValue::Function(Function { name: "URL".to_string(), value: vec![ws(), string("a")] });
    let g = ComponentValue::Function(Function { name: "Url".to_string(), value: vec![string("b")] });
    let om = from_stylesheet(&sheet(vec![statement_at("import", vec![f, g, ws()])]));
    match &om.css_rules[0] {
        CssRule::Import(r) => {
            assert_eq!(r.href, "b");
            assert!(r.media.is_empty());
        }
        _ => panic!(),
    }
}

#[test]
fn layer_statement_trailing_comma_and_empty_names() {
    let prelude = vec![ident("a"), tok(Token::Comma), tok(Token::Comma), ident("b"), tok(Token::Comma)];
    let om = from_stylesheet(&sheet(vec![statement_at("layer", prelude)]));
    match &om.css_rules[0] {
        CssRule::LayerStatement(r) => assert_eq!(r.names, vec!["a", "", "b"]),
        _ => panic!(),
    }
}

#[test]
fn converted_sheet_has_default_attributes() {
    let om = from_stylesheet_with_origin(&sheet(vec![a_color_red()]), Origin::User);
    assert_eq!(om.origin, Origin::User);
    assert!(om.location.is_none());
    assert!(om.media.is_empty());
    assert!(om.title.is_empty());
    assert!(!om.alternate);
    assert!(!om.disabled);
}

#[test]
fn numbers_are_kept() {
    let v = NumericValue::Text("2.5".to_string());
    let ss = sheet(vec![qrule(vec![ident("a")], vec![decl("x", vec![tok(Token::Number(Numeric { value: v, is_integer: false }))])], Vec::new())]);
    let om = from_stylesheet(&ss);
    match &om.css_rules[0] {
        CssRule::Style(r) => {
            assert_eq!(serialize_component_values(r.style.get_property_value("x").unwrap()), "2.5");
        }
        _ => panic!(),
    }
}

#[test]
fn import_media_without_surrounding_whitespace() {
    let prelude = vec![ws(), string("style.css"), ws(), ident("screen"), ws()];
    let om = from_stylesheet(&sheet(vec![statement_at("import", prelude)]));
    match &om.css_rules[0] {
        CssRule::Import(r) => {
            assert_eq!(r.href, "style.css");
            assert_eq!(r.media.len(), 1);
            assert_eq!(serialize_component_values(&r.media), "screen");
        }
        _ => panic!(),
    }
}

#[test]
fn import_media_keeps_inner_whitespace() {
    let prelude = vec![string("a.css"), ws(), ident("screen"), ws(), ident("and"), ws(), ws()];
    let om = from_stylesheet(&sheet(vec![statement_at("import", prelude)]));
    match &om.css_rules[0] {
        CssRule::Import(r) => assert_eq!(serialize_component_values(&r.media), "screen and"),
        _ => panic!(),
    }
}

#[test]
fn string_or_url_of_component_values() {
    assert_eq!(extract_string_or_url(&string("a.css")).as_deref(), Some("a.css"));
    assert_eq!(extract_string_or_url(&tok(Token::Url("b.css".to_string()))).as_deref(), Some("b.css"));
    let quoted = ComponentValue::Function(Function { name: "uRl".to_string(), value: vec![string("c.css")] });
    assert_eq!(extract_string_or_url(&quoted).as_deref(), Some("c.css"));
    let two = ComponentValue::Function(Function { name: "url".to_string(), value: vec![string("c"), ws()] });
    assert_eq!(extract_string_or_url(&two), None);
    let other = ComponentValue::Function(Function { name: "image".to_string(), value: vec![string("c")] });
    assert_eq!(extract_string_or_url(&other), None);
    let unquoted = ComponentValue::Function(Function { name: "url".to_string(), value: vec![ident("c")] });
    assert_eq!(extract_string_or_url(&unquoted), None);
    assert_eq!(extract_string_or_url(&ident("x")), None);
}
