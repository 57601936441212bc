//! Serialization of CSS rules (CSSOM §8.4) and of style sheets.

use vstd::prelude::*;

use crate::declaration::{
    css_decls_model, decl_css, decls_css, push_declaration, push_declarations, CssDeclaration,
    CssStyleDeclaration, StyleModel,
};
use crate::rule::{
    css_rule_model, css_rules_model, keyframe_model, keyframes_model, lemma_css_rules_model_take,
    strings_model, CssContainerRule, CssCounterStyleRule, CssFontFaceRule, CssImportRule,
    CssKeyframeRule, CssKeyframesRule, CssLayerBlockRule, CssLayerStatementRule, CssMediaRule,
    CssNamespaceRule, CssPageRule, CssPropertyRule, CssRule, CssRuleModel, CssScopeRule,
    CssStyleRule, CssSupportsRule, KeyframeModel, OtherRule,
};
use crate::serialize::{
    cvs_css, ident_css, push_component_values, push_identifier, push_url, url_css, ToCss,
};
use crate::syntax::{cvs_model, ComponentValue, ComponentValueModel, DeclarationModel};
use crate::text::{
    all_white_space, is_blank, lemma_trim_blank, push_char, trim, trim_end, trim_end_string,
    trim_string,
};

verus! {

/// ` prelude`, or nothing when the prelude is blank.
pub open spec fn prelude_part(prelude: Seq<char>) -> Seq<char> {
    if trim(prelude).len() == 0 {
        seq![]
    } else {
        seq![' '] + prelude
    }
}

/// `@name` (escaped as an identifier), then the prelude part.
pub open spec fn at_rule_head(name: Seq<char>, prelude: Seq<char>) -> Seq<char> {
    seq!['@'] + ident_css(name) + prelude_part(prelude)
}

/// The block of a descriptor at-rule: ` {`, a space and the declarations
/// unless there are none, ` }`.
pub open spec fn descriptor_block_css(style: StyleModel) -> Seq<char> {
    seq![' ', '{'] + (if style.declarations.len() == 0 {
        seq![]
    } else {
        seq![' '] + decls_css(style.declarations)
    }) + seq![' ', '}']
}

/// Serialization of a descriptor at-rule (`@font-face`, `@page`,
/// `@counter-style`, `@property`): `@name prelude { descriptors }`.
pub open spec fn descriptor_at_rule_css(name: Seq<char>, prelude: Seq<char>, style: StyleModel) -> Seq<char> {
    at_rule_head(name, prelude) + descriptor_block_css(style)
}

/// `;`-terminated declarations, each preceded by a space.
pub open spec fn spaced_decls_css(s: Seq<DeclarationModel>) -> Seq<char>
    decreases s.len(),
{
    if s.len() == 0 {
        seq![]
    } else {
        spaced_decls_css(s.drop_last()) + seq![' '] + decl_css(s.last()) + seq![';']
    }
}

/// A keyframe: `key { declarations }`, with the key text trimmed.
pub open spec fn keyframe_css(k: KeyframeModel) -> Seq<char> {
    trim(cvs_css(k.key_text)) + seq![' ', '{'] + (if k.style.declarations.len() == 0 {
        seq![]
    } else {
        seq![' '] + decls_css(k.style.declarations)
    }) + seq![' ', '}']
}

/// Keyframes, each preceded by a space.
pub open spec fn spaced_keyframes_css(s: Seq<KeyframeModel>) -> Seq<char>
    decreases s.len(),
{
    if s.len() == 0 {
        seq![]
    } else {
        spaced_keyframes_css(s.drop_last()) + seq![' '] + keyframe_css(s.last())
    }
}

/// Layer names, escaped as identifiers and separated by `, `.
pub open spec fn layer_names_css(s: Seq<Seq<char>>) -> Seq<char>
    decreases s.len(),
{
    if s.len() == 0 {
        seq![]
    } else if s.len() == 1 {
        ident_css(s[0])
    } else {
        layer_names_css(s.drop_last()) + seq![',', ' '] + ident_css(s.last())
    }
}

/// An optional name, escaped as an identifier; nothing when absent.
pub open spec fn opt_ident_css(name: Option<Seq<char>>) -> Seq<char> {
    match name {
        Some(n) => ident_css(n),
        None => ident_css(seq![]),
    }
}

/// The serialization of a CSS rule.
pub open spec fn rule_css(m: CssRuleModel) -> Seq<char>
    decreases m,
{
    match m {
        CssRuleModel::Style(sel, style, rs) => trim_end(cvs_css(sel)) + seq![' ', '{', ' ']
            + decls_css(style.declarations) + (if style.declarations.len() == 0 {
            joined_rules_css(rs)
        } else {
            spaced_rules_css(rs)
        }) + seq![' ', '}'],
        CssRuleModel::Import(href, media) => "@import "@ + url_css(href) + (if media.len() == 0 {
            seq![]
        } else {
            seq![' '] + cvs_css(media)
        }) + seq![';'],
        CssRuleModel::Media(cond, rs) => at_rule_head("media"@, cvs_css(cond)) + seq![' ', '{']
            + spaced_rules_css(rs) + seq![' ', '}'],
        CssRuleModel::FontFace(style) => descriptor_at_rule_css("font-face"@, seq![], style),
        CssRuleModel::Page(sel, style) => descriptor_at_rule_css("page"@, cvs_css(sel), style),
        CssRuleModel::Keyframes(name, ks) => "@keyframes "@ + opt_ident_css(name) + seq![' ', '{']
            + spaced_keyframes_css(ks) + seq![' ', '}'],
        CssRuleModel::Keyframe(k) => keyframe_css(k),
        CssRuleModel::Namespace(uri, prefix) => "@namespace"@ + (match prefix {
            Some(p) => seq![' '] + ident_css(p),
            None => seq![],
        }) + seq![' '] + url_css(uri) + seq![';'],
        CssRuleModel::CounterStyle(name, style) => descriptor_at_rule_css(
            "counter-style"@,
            ident_css(name),
            style,
        ),
        CssRuleModel::Supports(cond, rs) => at_rule_head("supports"@, cvs_css(cond)) + seq![' ', '{']
            + spaced_rules_css(rs) + seq![' ', '}'],
        CssRuleModel::Container(cond, rs) => at_rule_head("container"@, cvs_css(cond)) + seq![
            ' ',
            '{',
        ] + spaced_rules_css(rs) + seq![' ', '}'],
        CssRuleModel::LayerBlock(name, rs) => at_rule_head(
            "layer"@,
            match name {
                Some(n) => ident_css(n),
                None => seq![],
            },
        ) + seq![' ', '{'] + spaced_rules_css(rs) + seq![' ', '}'],
        CssRuleModel::LayerStatement(names) => "@layer "@ + layer_names_css(names) + seq![';'],
        CssRuleModel::Property(name, style) => descriptor_at_rule_css(
            "property"@,
            ident_css(name),
            style,
        ),
        CssRuleModel::Scope(prelude, rs) => at_rule_head("scope"@, cvs_css(prelude)) + seq![' ', '{']
            + spaced_rules_css(rs) + seq![' ', '}'],
        CssRuleModel::Other(name, prelude, decls, rs) => if rs.len() == 0 && decls is None {
            at_rule_head(name, cvs_css(prelude)) + seq![';']
        } else {
            at_rule_head(name, cvs_css(prelude)) + seq![' ', '{'] + (match decls {
                Some(ds) => spaced_decls_css(ds),
                None => seq![],
            }) + spaced_rules_css(rs) + seq![' ', '}']
        },
    }
}

/// Rules, each preceded by a space.
pub open spec fn spaced_rules_css(s: Seq<CssRuleModel>) -> Seq<char>
    decreases s,
{
    if s.len() == 0 {
        seq![]
    } else {
        spaced_rules_css(s.drop_last()) + seq![' '] + rule_css(s.last())
    }
}

/// Rules, separated by single spaces.
pub open spec fn joined_rules_css(s: Seq<CssRuleModel>) -> Seq<char>
    decreases s,
{
    if s.len() == 0 {
        seq![]
    } else if s.len() == 1 {
        rule_css(s[0])
    } else {
        joined_rules_css(s.drop_last()) + seq![' '] + rule_css(s.last())
    }
}

/// The serialization of a list of rules as a style sheet: one rule per line.
pub open spec fn sheet_rules_css(s: Seq<CssRuleModel>) -> Seq<char>
    decreases s.len(),
{
    if s.len() == 0 {
        seq![]
    } else if s.len() == 1 {
        rule_css(s[0])
    } else {
        sheet_rules_css(s.drop_last()) + seq!['\n'] + rule_css(s.last())
    }
}

// ── helpers ─────────────────────────────────────────────────────────

fn push_str_lit(out: &mut String, s: &str)
    ensures
        final(out)@ == old(out)@ + s@,
{
    out.append(s);
}

fn push_at_rule_head(out: &mut String, name: &str, prelude: &str)
    ensures
        final(out)@ == old(out)@ + at_rule_head(name@, prelude@),
{
    let ghost s0 = out@;
    push_char(out, '@');
    push_identifier(out, name);
    if !is_blank(prelude) {
        push_char(out, ' ');
        out.append(prelude);
    }
    assert(out@ =~= s0 + at_rule_head(name@, prelude@));
}

fn push_descriptor_block(out: &mut String, style: &CssStyleDeclaration)
    ensures
        final(out)@ == old(out)@ + descriptor_block_css(style@),
{
    let ghost s0 = out@;
    push_char(out, ' ');
    push_char(out, '{');
    if style.declarations.len() != 0 {
        push_char(out, ' ');
        push_declarations(out, &style.declarations);
    }
    push_char(out, ' ');
    push_char(out, '}');
    assert(out@ =~= s0 + descriptor_block_css(style@));
}

fn push_descriptor_at_rule(out: &mut String, name: &str, prelude: &str, style: &CssStyleDeclaration)
    ensures
        final(out)@ == old(out)@ + descriptor_at_rule_css(name@, prelude@, style@),
{
    let ghost s0 = out@;
    push_at_rule_head(out, name, prelude);
    push_descriptor_block(out, style);
    assert(out@ =~= s0 + descriptor_at_rule_css(name@, prelude@, style@));
}

fn cvs_string(cvs: &Vec<ComponentValue>) -> (s: String)
    ensures
        s@ == cvs_css(cvs_model(cvs@)),
{
    let mut s = String::new();
    push_component_values(&mut s, cvs.as_slice());
    assert(s@ =~= cvs_css(cvs_model(cvs@)));
    s
}

fn push_spaced_decls(out: &mut String, decls: &Vec<CssDeclaration>)
    ensures
        final(out)@ == old(out)@ + spaced_decls_css(css_decls_model(decls@)),
{
    let ghost s0 = out@;
    let mut i: usize = 0;
    while i < decls.len()
        invariant
            i <= decls@.len(),
            out@ == s0 + spaced_decls_css(css_decls_model(decls@.take(i as int))),
        decreases decls@.len() - i,
    {
        push_char(out, ' ');
        push_declaration(out, &decls[i]);
        push_char(out, ';');
        proof {
            let m = css_decls_model(decls@.take(i + 1));
            assert(m.drop_last() =~= css_decls_model(decls@.take(i as int)));
            assert(m.last() == decls@[i as int]@);
        }
        assert(out@ =~= s0 + spaced_decls_css(css_decls_model(decls@.take(i + 1))));
        i = i + 1;
    }
    assert(decls@.take(decls@.len() as int) == decls@);
}

fn push_keyframe(out: &mut String, k: &CssKeyframeRule)
    ensures
        final(out)@ == old(out)@ + keyframe_css(keyframe_model(*k)),
{
    let ghost s0 = out@;
    let key = cvs_string(&k.key_text);
    let t = trim_string(key.as_str());
    out.append(t.as_str());
    push_char(out, ' ');
    push_char(out, '{');
    if k.style.declarations.len() != 0 {
        push_char(out, ' ');
        push_declarations(out, &k.style.declarations);
    }
    push_char(out, ' ');
    push_char(out, '}');
    assert(out@ =~= s0 + keyframe_css(keyframe_model(*k)));
}

fn push_spaced_keyframes(out: &mut String, ks: &Vec<CssKeyframeRule>)
    ensures
        final(out)@ == old(out)@ + spaced_keyframes_css(keyframes_model(ks@)),
{
    let ghost s0 = out@;
    let mut i: usize = 0;
    while i < ks.len()
        invariant
            i <= ks@.len(),
            out@ == s0 + spaced_keyframes_css(keyframes_model(ks@.take(i as int))),
        decreases ks@.len() - i,
    {
        push_char(out, ' ');
        push_keyframe(out, &ks[i]);
        proof {
            let m = keyframes_model(ks@.take(i + 1));
            assert(m.drop_last() =~= keyframes_model(ks@.take(i as int)));
            assert(m.last() == keyframe_model(ks@[i as int]));
        }
        assert(out@ =~= s0 + spaced_keyframes_css(keyframes_model(ks@.take(i + 1))));
        i = i + 1;
    }
    assert(ks@.take(ks@.len() as int) == ks@);
}

fn push_layer_names(out: &mut String, names: &Vec<String>)
    ensures
        final(out)@ == old(out)@ + layer_names_css(strings_model(names@)),
{
    let ghost s0 = out@;
    let mut i: usize = 0;
    while i < names.len()
        invariant
            i <= names@.len(),
            out@ == s0 + layer_names_css(strings_model(names@.take(i as int))),
        decreases names@.len() - i,
    {
        if i > 0 {
            push_char(out, ',');
            push_char(out, ' ');
        }
        push_identifier(out, names[i].as_str());
        proof {
            let m = strings_model(names@.take(i + 1));
            assert(m.drop_last() =~= strings_model(names@.take(i as int)));
            assert(m.last() == names@[i as int]@);
            if i == 0 {
                assert(m.len() == 1);
            }
        }
        assert(out@ =~= s0 + layer_names_css(strings_model(names@.take(i + 1))));
        i = i + 1;
    }
    assert(names@.take(names@.len() as int) == names@);
}

// ── rules ───────────────────────────────────────────────────────────

/// Appends the serialization of a rule.
pub fn push_rule(out: &mut String, r: &CssRule)
    ensures
        final(out)@ == old(out)@ + rule_css(r@),
    decreases r,
{
    match r {
        CssRule::Style(x) => push_style_rule(out, x),
        CssRule::Import(x) => push_import_rule(out, x),
        CssRule::Media(x) => push_media_rule(out, x),
        CssRule::FontFace(x) => push_font_face_rule(out, x),
        CssRule::Page(x) => push_page_rule(out, x),
        CssRule::Keyframes(x) => push_keyframes_rule(out, x),
        CssRule::Keyframe(x) => push_keyframe_rule(out, x),
        CssRule::Namespace(x) => push_namespace_rule(out, x),
        CssRule::CounterStyle(x) => push_counter_style_rule(out, x),
        CssRule::Supports(x) => push_supports_rule(out, x),
        CssRule::Container(x) => push_container_rule(out, x),
        CssRule::LayerBlock(x) => push_layer_block_rule(out, x),
        CssRule::LayerStatement(x) => push_layer_statement_rule(out, x),
        CssRule::Property(x) => push_property_rule(out, x),
        CssRule::Scope(x) => push_scope_rule(out, x),
        CssRule::Other(x) => push_other_rule(out, x),
    }
}

/// Appends rules, each preceded by a space.
pub fn push_spaced_rules(out: &mut String, rules: &Vec<CssRule>)
    ensures
        final(out)@ == old(out)@ + spaced_rules_css(css_rules_model(rules@)),
    decreases rules,
{
    let ghost s0 = out@;
    let mut i: usize = 0;
    while i < rules.len()
        invariant
            i <= rules@.len(),
            out@ == s0 + spaced_rules_css(css_rules_model(rules@.take(i as int))),
        decreases rules@.len() - i,
    {
        push_char(out, ' ');
        push_rule(out, &rules[i]);
        proof {
            lemma_css_rules_model_take(rules@, i as int);
            let m = css_rules_model(rules@.take(i + 1));
            assert(m.drop_last() =~= css_rules_model(rules@.take(i as int)));
        }
        assert(out@ =~= s0 + spaced_rules_css(css_rules_model(rules@.take(i + 1))));
        i = i + 1;
    }
    assert(rules@.take(rules@.len() as int) == rules@);
}

/// Appends rules, separated by single spaces.
pub fn push_joined_rules(out: &mut String, rules: &Vec<CssRule>)
    ensures
        final(out)@ == old(out)@ + joined_rules_css(css_rules_model(rules@)),
    decreases rules,
{
    let ghost s0 = out@;
    let mut i: usize = 0;
    while i < rules.len()
        invariant
            i <= rules@.len(),
            out@ == s0 + joined_rules_css(css_rules_model(rules@.take(i as int))),
        decreases rules@.len() - i,
    {
        if i > 0 {
            push_char(out, ' ');
        }
        push_rule(out, &rules[i]);
        proof {
            lemma_css_rules_model_take(rules@, i as int);
            let m = css_rules_model(rules@.take(i + 1));
            assert(m.drop_last() =~= css_rules_model(rules@.take(i as int)));
            if i == 0 {
                assert(m.len() == 1);
            }
        }
        assert(out@ =~= s0 + joined_rules_css(css_rules_model(rules@.take(i + 1))));
        i = i + 1;
    }
    assert(rules@.take(rules@.len() as int) == rules@);
}

/// `selectors { declarations nested-rules }`, the selectors without
/// trailing white space.
fn push_style_rule(out: &mut String, x: &CssStyleRule)
    ensures
        final(out)@ == old(out)@ + rule_css(CssRule::Style(*x)@),
    decreases x,
{
    let ghost s0 = out@;
    let sel = cvs_string(&x.selectors);
    let t = trim_end_string(sel.as_str());
    out.append(t.as_str());
    push_char(out, ' ');
    push_char(out, '{');
    push_char(out, ' ');
    push_declarations(out, &x.style.declarations);
    if x.style.declarations.len() == 0 {
        push_joined_rules(out, &x.css_rules);
    } else {
        push_spaced_rules(out, &x.css_rules);
    }
    push_char(out, ' ');
    push_char(out, '}');
    assert(out@ =~= s0 + rule_css(CssRule::Style(*x)@));
}

/// `@import url("href") media;`
fn push_import_rule(out: &mut String, x: &CssImportRule)
    ensures
        final(out)@ == old(out)@ + rule_css(CssRule::Import(*x)@),
{
    let ghost s0 = out@;
    push_str_lit(out, "@import ");
    push_url(out, x.href.as_str());
    if x.media.len() != 0 {
        push_char(out, ' ');
        push_component_values(out, x.media.as_slice());
    }
    push_char(out, ';');
    proof {
        crate::syntax::lemma_cvs_model(x.media@);
    }
    assert(out@ =~= s0 + rule_css(CssRule::Import(*x)@));
}

/// `@media condition { rules }`
fn push_media_rule(out: &mut String, x: &CssMediaRule)
    ensures
        final(out)@ == old(out)@ + rule_css(CssRule::Media(*x)@),
    decreases x,
{
    let ghost s0 = out@;
    let cond = cvs_string(&x.condition);
    push_at_rule_head(out, "media", cond.as_str());
    push_char(out, ' ');
    push_char(out, '{');
    push_spaced_rules(out, &x.css_rules);
    push_char(out, ' ');
    push_char(out, '}');
    assert(out@ =~= s0 + rule_css(CssRule::Media(*x)@));
}

/// `@supports condition { rules }`
fn push_supports_rule(out: &mut String, x: &CssSupportsRule)
    ensures
        final(out)@ == old(out)@ + rule_css(CssRule::Supports(*x)@),
    decreases x,
{
    let ghost s0 = out@;
    let cond = cvs_string(&x.condition);
    push_at_rule_head(out, "supports", cond.as_str());
    push_char(out, ' ');
    push_char(out, '{');
    push_spaced_rules(out, &x.css_rules);
    push_char(out, ' ');
    push_char(out, '}');
    assert(out@ =~= s0 + rule_css(CssRule::Supports(*x)@));
}

/// `@container condition { rules }`
fn push_container_rule(out: &mut String, x: &CssContainerRule)
    ensures
        final(out)@ == old(out)@ + rule_css(CssRule::Container(*x)@),
    decreases x,
{
    let ghost s0 = out@;
    let cond = cvs_string(&x.condition);
    push_at_rule_head(out, "container", cond.as_str());
    push_char(out, ' ');
    push_char(out, '{');
    push_spaced_rules(out, &x.css_rules);
    push_char(out, ' ');
    push_char(out, '}');
    assert(out@ =~= s0 + rule_css(CssRule::Container(*x)@));
}

/// `@scope prelude { rules }`
fn push_scope_rule(out: &mut String, x: &CssScopeRule)
    ensures
        final(out)@ == old(out)@ + rule_css(CssRule::Scope(*x)@),
    decreases x,
{
    let ghost s0 = out@;
    let prelude = cvs_string(&x.prelude);
    push_at_rule_head(out, "scope", prelude.as_str());
    push_char(out, ' ');
    push_char(out, '{');
    push_spaced_rules(out, &x.css_rules);
    push_char(out, ' ');
    push_char(out, '}');
    assert(out@ =~= s0 + rule_css(CssRule::Scope(*x)@));
}

/// `@layer [name] { rules }`
fn push_layer_block_rule(out: &mut String, x: &CssLayerBlockRule)
    ensures
        final(out)@ == old(out)@ + rule_css(CssRule::LayerBlock(*x)@),
    decreases x,
{
    let ghost s0 = out@;
    let mut prelude = String::new();
    match &x.name {
        Some(n) => push_identifier(&mut prelude, n.as_str()),
        None => {},
    }
    push_at_rule_head(out, "layer", prelude.as_str());
    push_char(out, ' ');
    push_char(out, '{');
    push_spaced_rules(out, &x.css_rules);
    push_char(out, ' ');
    push_char(out, '}');
    assert(out@ =~= s0 + rule_css(CssRule::LayerBlock(*x)@));
}

/// `@layer name1, name2;`
fn push_layer_statement_rule(out: &mut String, x: &CssLayerStatementRule)
    ensures
        final(out)@ == old(out)@ + rule_css(CssRule::LayerStatement(*x)@),
{
    let ghost s0 = out@;
    push_str_lit(out, "@layer ");
    push_layer_names(out, &x.names);
    push_char(out, ';');
    assert(out@ =~= s0 + rule_css(CssRule::LayerStatement(*x)@));
}

/// `@namespace [prefix] url("uri");`
fn push_namespace_rule(out: &mut String, x: &CssNamespaceRule)
    ensures
        final(out)@ == old(out)@ + rule_css(CssRule::Namespace(*x)@),
{
    let ghost s0 = out@;
    push_str_lit(out, "@namespace");
    match &x.prefix {
        Some(p) => {
            push_char(out, ' ');
            push_identifier(out, p.as_str());
        },
        None => {},
    }
    push_char(out, ' ');
    push_url(out, x.namespace_uri.as_str());
    push_char(out, ';');
    assert(out@ =~= s0 + rule_css(CssRule::Namespace(*x)@));
}

/// `@font-face { descriptors }`
fn push_font_face_rule(out: &mut String, x: &CssFontFaceRule)
    ensures
        final(out)@ == old(out)@ + rule_css(CssRule::FontFace(*x)@),
{
    let ghost s0 = out@;
    let empty = String::new();
    push_descriptor_at_rule(out, "font-face", empty.as_str(), &x.style);
    assert(out@ =~= s0 + rule_css(CssRule::FontFace(*x)@));
}

/// `@page [selector] { descriptors }`
fn push_page_rule(out: &mut String, x: &CssPageRule)
    ensures
        final(out)@ == old(out)@ + rule_css(CssRule::Page(*x)@),
{
    let ghost s0 = out@;
    let prelude = cvs_string(&x.selectors);
    push_descriptor_at_rule(out, "page", prelude.as_str(), &x.style);
    assert(out@ =~= s0 + rule_css(CssRule::Page(*x)@));
}

/// `@counter-style name { descriptors }`
fn push_counter_style_rule(out: &mut String, x: &CssCounterStyleRule)
    ensures
        final(out)@ == old(out)@ + rule_css(CssRule::CounterStyle(*x)@),
{
    let ghost s0 = out@;
    let mut prelude = String::new();
    push_identifier(&mut prelude, x.name.as_str());
    assert(prelude@ =~= ident_css(x.name@));
    push_descriptor_at_rule(out, "counter-style", prelude.as_str(), &x.style);
    assert(out@ =~= s0 + rule_css(CssRule::CounterStyle(*x)@));
}

/// `@property --name { descriptors }`
fn push_property_rule(out: &mut String, x: &CssPropertyRule)
    ensures
        final(out)@ == old(out)@ + rule_css(CssRule::Property(*x)@),
{
    let ghost s0 = out@;
    let mut prelude = String::new();
    push_identifier(&mut prelude, x.name.as_str());
    assert(prelude@ =~= ident_css(x.name@));
    push_descriptor_at_rule(out, "property", prelude.as_str(), &x.style);
    assert(out@ =~= s0 + rule_css(CssRule::Property(*x)@));
}

/// `@keyframes name { keyframe ... }`
fn push_keyframes_rule(out: &mut String, x: &CssKeyframesRule)
    ensures
        final(out)@ == old(out)@ + rule_css(CssRule::Keyframes(*x)@),
{
    let ghost s0 = out@;
    push_str_lit(out, "@keyframes ");
    match &x.name {
        Some(n) => push_identifier(out, n.as_str()),
        None => {
            let empty = String::new();
            push_identifier(out, empty.as_str());
        },
    }
    push_char(out, ' ');
    push_char(out, '{');
    push_spaced_keyframes(out, &x.keyframes);
    push_char(out, ' ');
    push_char(out, '}');
    assert(out@ =~= s0 + rule_css(CssRule::Keyframes(*x)@));
}

/// `key { declarations }`
fn push_keyframe_rule(out: &mut String, x: &CssKeyframeRule)
    ensures
        final(out)@ == old(out)@ + rule_css(CssRule::Keyframe(*x)@),
{
    push_keyframe(out, x);
}

/// `@name prelude;` for a statement at-rule, `@name prelude { declarations
/// rules }` for a block at-rule.
fn push_other_rule(out: &mut String, x: &OtherRule)
    ensures
        final(out)@ == old(out)@ + rule_css(CssRule::Other(*x)@),
    decreases x,
{
    let ghost s0 = out@;
    let prelude = cvs_string(&x.prelude);
    proof {
        crate::rule::lemma_css_rules_model(x.child_rules@);
    }
    if x.child_rules.len() == 0 && x.declarations.is_none() {
        push_at_rule_head(out, x.name.as_str(), prelude.as_str());
        push_char(out, ';');
    } else {
        push_at_rule_head(out, x.name.as_str(), prelude.as_str());
        push_char(out, ' ');
        push_char(out, '{');
        match &x.declarations {
            Some(decls) => push_spaced_decls(out, decls),
            None => {},
        }
        push_spaced_rules(out, &x.child_rules);
        push_char(out, ' ');
        push_char(out, '}');
    }
    assert(out@ =~= s0 + rule_css(CssRule::Other(*x)@));
}

/// Appends the rules of a style sheet, one per line.
pub fn push_sheet_rules(out: &mut String, rules: &Vec<CssRule>)
    ensures
        final(out)@ == old(out)@ + sheet_rules_css(css_rules_model(rules@)),
{
    let ghost s0 = out@;
    let mut i: usize = 0;
    while i < rules.len()
        invariant
            i <= rules@.len(),
            out@ == s0 + sheet_rules_css(css_rules_model(rules@.take(i as int))),
        decreases rules@.len() - i,
    {
        if i > 0 {
            push_char(out, '\n');
        }
        push_rule(out, &rules[i]);
        proof {
            lemma_css_rules_model_take(rules@, i as int);
            let m = css_rules_model(rules@.take(i + 1));
            assert(m.drop_last() =~= css_rules_model(rules@.take(i as int)));
            if i == 0 {
                assert(m.len() == 1);
            }
        }
        assert(out@ =~= s0 + sheet_rules_css(css_rules_model(rules@.take(i + 1))));
        i = i + 1;
    }
    assert(rules@.take(rules@.len() as int) == rules@);
}


// ── ToCss ───────────────────────────────────────────────────────────

impl ToCss for CssRule {
    open spec fn css_text(&self) -> Seq<char> {
        rule_css(self@)
    }

    fn to_css_string(&self) -> (s: String) {
        let mut out = String::new();
        push_rule(&mut out, self);
        assert(out@ =~= rule_css(self@));
        out
    }
}

impl ToCss for CssStyleRule {
    open spec fn css_text(&self) -> Seq<char> {
        rule_css(CssRule::Style(*self)@)
    }

    fn to_css_string(&self) -> (s: String) {
        let mut out = String::new();
        push_style_rule(&mut out, self);
        assert(out@ =~= rule_css(CssRule::Style(*self)@));
        out
    }
}

impl ToCss for CssImportRule {
    open spec fn css_text(&self) -> Seq<char> {
        rule_css(CssRule::Import(*self)@)
    }

    fn to_css_string(&self) -> (s: String) {
        let mut out = String::new();
        push_import_rule(&mut out, self);
        assert(out@ =~= rule_css(CssRule::Import(*self)@));
        out
    }
}

impl ToCss for CssMediaRule {
    open spec fn css_text(&self) -> Seq<char> {
        rule_css(CssRule::Media(*self)@)
    }

    fn to_css_string(&self) -> (s: String) {
        let mut out = String::new();
        push_media_rule(&mut out, self);
        assert(out@ =~= rule_css(CssRule::Media(*self)@));
        out
    }
}

impl ToCss for CssFontFaceRule {
    open spec fn css_text(&self) -> Seq<char> {
        rule_css(CssRule::FontFace(*self)@)
    }

    fn to_css_string(&self) -> (s: String) {
        let mut out = String::new();
        push_font_face_rule(&mut out, self);
        assert(out@ =~= rule_css(CssRule::FontFace(*self)@));
        out
    }
}

impl ToCss for CssPageRule {
    open spec fn css_text(&self) -> Seq<char> {
        rule_css(CssRule::Page(*self)@)
    }

    fn to_css_string(&self) -> (s: String) {
        let mut out = String::new();
        push_page_rule(&mut out, self);
        assert(out@ =~= rule_css(CssRule::Page(*self)@));
        out
    }
}

impl ToCss for CssKeyframesRule {
    open spec fn css_text(&self) -> Seq<char> {
        rule_css(CssRule::Keyframes(*self)@)
    }

    fn to_css_string(&self) -> (s: String) {
        let mut out = String::new();
        push_keyframes_rule(&mut out, self);
        assert(out@ =~= rule_css(CssRule::Keyframes(*self)@));
        out
    }
}

impl ToCss for CssKeyframeRule {
    open spec fn css_text(&self) -> Seq<char> {
        rule_css(CssRule::Keyframe(*self)@)
    }

    fn to_css_string(&self) -> (s: String) {
        let mut out = String::new();
        push_keyframe_rule(&mut out, self);
        assert(out@ =~= rule_css(CssRule::Keyframe(*self)@));
        out
    }
}

impl ToCss for CssNamespaceRule {
    open spec fn css_text(&self) -> Seq<char> {
        rule_css(CssRule::Namespace(*self)@)
    }

    fn to_css_string(&self) -> (s: String) {
        let mut out = String::new();
        push_namespace_rule(&mut out, self);
        assert(out@ =~= rule_css(CssRule::Namespace(*self)@));
        out
    }
}

impl ToCss for CssCounterStyleRule {
    open spec fn css_text(&self) -> Seq<char> {
        rule_css(CssRule::CounterStyle(*self)@)
    }

    fn to_css_string(&self) -> (s: String) {
        let mut out = String::new();
        push_counter_style_rule(&mut out, self);
        assert(out@ =~= rule_css(CssRule::CounterStyle(*self)@));
        out
    }
}

impl ToCss for CssSupportsRule {
    open spec fn css_text(&self) -> Seq<char> {
        rule_css(CssRule::Supports(*self)@)
    }

    fn to_css_string(&self) -> (s: String) {
        let mut out = String::new();
        push_supports_rule(&mut out, self);
        assert(out@ =~= rule_css(CssRule::Supports(*self)@));
        out
    }
}

impl ToCss for CssContainerRule {
    open spec fn css_text(&self) -> Seq<char> {
        rule_css(CssRule::Container(*self)@)
    }

    fn to_css_string(&self) -> (s: String) {
        let mut out = String::new();
        push_container_rule(&mut out, self);
        assert(out@ =~= rule_css(CssRule::Container(*self)@));
        out
    }
}

impl ToCss for CssLayerBlockRule {
    open spec fn css_text(&self) -> Seq<char> {
        rule_css(CssRule::LayerBlock(*self)@)
    }

    fn to_css_string(&self) -> (s: String) {
        let mut out = String::new();
        push_layer_block_rule(&mut out, self);
        assert(out@ =~= rule_css(CssRule::LayerBlock(*self)@));
        out
    }
}

impl ToCss for CssLayerStatementRule {
    open spec fn css_text(&self) -> Seq<char> {
        rule_css(CssRule::LayerStatement(*self)@)
    }

    fn to_css_string(&self) -> (s: String) {
        let mut out = String::new();
        push_layer_statement_rule(&mut out, self);
        assert(out@ =~= rule_css(CssRule::LayerStatement(*self)@));
        out
    }
}

impl ToCss for CssPropertyRule {
    open spec fn css_text(&self) -> Seq<char> {
        rule_css(CssRule::Property(*self)@)
    }

    fn to_css_string(&self) -> (s: String) {
        let mut out = String::new();
        push_property_rule(&mut out, self);
        assert(out@ =~= rule_css(CssRule::Property(*self)@));
        out
    }
}

impl ToCss for CssScopeRule {
    open spec fn css_text(&self) -> Seq<char> {
        rule_css(CssRule::Scope(*self)@)
    }

    fn to_css_string(&self) -> (s: String) {
        let mut out = String::new();
        push_scope_rule(&mut out, self);
        assert(out@ =~= rule_css(CssRule::Scope(*self)@));
        out
    }
}

impl ToCss for OtherRule {
    open spec fn css_text(&self) -> Seq<char> {
        rule_css(CssRule::Other(*self)@)
    }

    fn to_css_string(&self) -> (s: String) {
        let mut out = String::new();
        push_other_rule(&mut out, self);
        assert(out@ =~= rule_css(CssRule::Other(*self)@));
        out
    }
}

/// `@name`, then a space and the prelude unless the prelude is all white
/// space.
pub open spec fn written_head(name: Seq<char>, prelude: Seq<char>) -> Seq<char> {
    "@"@ + ident_css(name) + (if all_white_space(prelude) {
        Seq::<char>::empty()
    } else {
        " "@ + prelude
    })
}

/// ` {`, a space and the declarations unless there are none, ` }`.
pub open spec fn written_block(st: StyleModel) -> Seq<char> {
    " {"@ + (if st.declarations.len() == 0 {
        Seq::<char>::empty()
    } else {
        " "@ + decls_css(st.declarations)
    }) + " }"@
}

/// How a style rule is written (CSSOM §8.4): its selectors without trailing
/// white space, ` { `, its declarations, its nested rules (separated by
/// spaces, and preceded by one when there are declarations), ` }`.
pub proof fn law_style_rule_text(sel: Seq<ComponentValueModel>, st: StyleModel, rs: Seq<CssRuleModel>)
    ensures
        rule_css(CssRuleModel::Style(sel, st, rs)) == trim_end(cvs_css(sel)) + " { "@ + decls_css(
            st.declarations,
        ) + (if st.declarations.len() == 0 {
            joined_rules_css(rs)
        } else {
            spaced_rules_css(rs)
        }) + " }"@,
{
    reveal_strlit(" { ");
    reveal_strlit(" }");
    assert(rule_css(CssRuleModel::Style(sel, st, rs)) =~= trim_end(cvs_css(sel)) + " { "@ + decls_css(
        st.declarations,
    ) + (if st.declarations.len() == 0 {
        joined_rules_css(rs)
    } else {
        spaced_rules_css(rs)
    }) + " }"@);
}

/// How a grouping rule is written: `@media`, `@supports`, `@container`,
/// `@scope` or `@layer`, its prelude unless blank, ` {`, each child rule
/// preceded by a space, ` }`.
pub proof fn law_grouping_rule_text(c: Seq<ComponentValueModel>, name: Option<Seq<char>>, rs: Seq<CssRuleModel>)
    ensures
        rule_css(CssRuleModel::Media(c, rs)) == written_head("media"@, cvs_css(c)) + " {"@
            + spaced_rules_css(rs) + " }"@,
        rule_css(CssRuleModel::Supports(c, rs)) == written_head("supports"@, cvs_css(c)) + " {"@
            + spaced_rules_css(rs) + " }"@,
        rule_css(CssRuleModel::Container(c, rs)) == written_head("container"@, cvs_css(c)) + " {"@
            + spaced_rules_css(rs) + " }"@,
        rule_css(CssRuleModel::Scope(c, rs)) == written_head("scope"@, cvs_css(c)) + " {"@
            + spaced_rules_css(rs) + " }"@,
        rule_css(CssRuleModel::LayerBlock(name, rs)) == written_head(
            "layer"@,
            match name {
                Some(n) => ident_css(n),
                None => Seq::<char>::empty(),
            },
        ) + " {"@ + spaced_rules_css(rs) + " }"@,
{
    reveal_strlit("@");
    reveal_strlit(" ");
    reveal_strlit(" {");
    reveal_strlit(" }");
    lemma_trim_blank(cvs_css(c));
    let lp = match name {
        Some(n) => ident_css(n),
        None => Seq::<char>::empty(),
    };
    lemma_trim_blank(lp);
    assert(written_head("media"@, cvs_css(c)) =~= at_rule_head("media"@, cvs_css(c)));
    assert(written_head("supports"@, cvs_css(c)) =~= at_rule_head("supports"@, cvs_css(c)));
    assert(written_head("container"@, cvs_css(c)) =~= at_rule_head("container"@, cvs_css(c)));
    assert(written_head("scope"@, cvs_css(c)) =~= at_rule_head("scope"@, cvs_css(c)));
    assert(written_head("layer"@, lp) =~= at_rule_head("layer"@, lp));
    assert(" {"@ =~= seq![' ', '{']);
    assert(" }"@ =~= seq![' ', '}']);
}

/// How a descriptor rule is written: `@font-face`, `@page` with its
/// selector, `@counter-style` or `@property` with its name, then ` {`, a
/// space and the declarations unless there are none, ` }`.
pub proof fn law_descriptor_rule_text(sel: Seq<ComponentValueModel>, n: Seq<char>, st: StyleModel)
    ensures
        rule_css(CssRuleModel::FontFace(st)) == written_head("font-face"@, Seq::<char>::empty())
            + written_block(st),
        rule_css(CssRuleModel::Page(sel, st)) == written_head("page"@, cvs_css(sel)) + written_block(st),
        rule_css(CssRuleModel::CounterStyle(n, st)) == written_head("counter-style"@, ident_css(n))
            + written_block(st),
        rule_css(CssRuleModel::Property(n, st)) == written_head("property"@, ident_css(n))
            + written_block(st),
{
    reveal_strlit("@");
    reveal_strlit(" ");
    reveal_strlit(" {");
    reveal_strlit(" }");
    lemma_trim_blank(cvs_css(sel));
    lemma_trim_blank(ident_css(n));
    lemma_trim_blank(Seq::<char>::empty());
    assert(written_block(st) =~= descriptor_block_css(st));
    assert(written_head("font-face"@, Seq::<char>::empty()) =~= at_rule_head("font-face"@, seq![]));
    assert(written_head("page"@, cvs_css(sel)) =~= at_rule_head("page"@, cvs_css(sel)));
    assert(written_head("counter-style"@, ident_css(n)) =~= at_rule_head("counter-style"@, ident_css(n)));
    assert(written_head("property"@, ident_css(n)) =~= at_rule_head("property"@, ident_css(n)));
}

/// How the statement rules are written: `@import` with the URL and the
/// media unless there are none, `@namespace` with the prefix when there is
/// one and the URL, `@layer` with its names; each ends with `;`.
pub proof fn law_statement_rule_text(
    href: Seq<char>,
    media: Seq<ComponentValueModel>,
    prefix: Option<Seq<char>>,
    names: Seq<Seq<char>>,
)
    ensures
        rule_css(CssRuleModel::Import(href, media)) == "@import "@ + url_css(href) + (if media.len()
            == 0 {
            Seq::<char>::empty()
        } else {
            " "@ + cvs_css(media)
        }) + ";"@,
        rule_css(CssRuleModel::Namespace(href, prefix)) == "@namespace"@ + (match prefix {
            Some(p) => " "@ + ident_css(p),
            None => Seq::<char>::empty(),
        }) + " "@ + url_css(href) + ";"@,
        rule_css(CssRuleModel::LayerStatement(names)) == "@layer "@ + layer_names_css(names) + ";"@,
{
    reveal_strlit(" ");
    reveal_strlit(";");
    reveal_strlit("@import ");
    reveal_strlit("@layer ");
    reveal_strlit("@namespace");
    assert(rule_css(CssRuleModel::Import(href, media)) =~= "@import "@ + url_css(href) + (if media.len()
        == 0 {
        Seq::<char>::empty()
    } else {
        " "@ + cvs_css(media)
    }) + ";"@);
    assert(rule_css(CssRuleModel::Namespace(href, prefix)) =~= "@namespace"@ + (match prefix {
        Some(p) => " "@ + ident_css(p),
        None => Seq::<char>::empty(),
    }) + " "@ + url_css(href) + ";"@);
    assert(rule_css(CssRuleModel::LayerStatement(names)) =~= "@layer "@ + layer_names_css(names)
        + ";"@);
}

/// How keyframes are written: `@keyframes`, its name, ` {`, each keyframe
/// preceded by a space, ` }`; a keyframe as its key without surrounding
/// white space and its block of declarations.
pub proof fn law_keyframes_text(name: Option<Seq<char>>, ks: Seq<KeyframeModel>, k: KeyframeModel)
    ensures
        rule_css(CssRuleModel::Keyframes(name, ks)) == "@keyframes "@ + (match name {
            Some(n) => ident_css(n),
            None => Seq::<char>::empty(),
        }) + " {"@ + spaced_keyframes_css(ks) + " }"@,
        rule_css(CssRuleModel::Keyframe(k)) == trim(cvs_css(k.key_text)) + written_block(k.style),
{
    reveal_strlit(" {");
    reveal_strlit(" }");
    reveal_strlit(" ");
    reveal_strlit("@keyframes ");
    assert(rule_css(CssRuleModel::Keyframes(name, ks)) =~= "@keyframes "@ + (match name {
        Some(n) => ident_css(n),
        None => Seq::<char>::empty(),
    }) + " {"@ + spaced_keyframes_css(ks) + " }"@);
    assert(rule_css(CssRuleModel::Keyframe(k)) =~= trim(cvs_css(k.key_text)) + written_block(k.style));
}

/// How an unrecognised at-rule is written: its name and its prelude
/// unless blank, then `;` when it has neither declarations nor child
/// rules, and otherwise ` {`, each declaration as a space, the declaration
/// and `;`, each child rule preceded by a space, ` }`.
pub proof fn law_other_rule_text(
    name: Seq<char>,
    p: Seq<ComponentValueModel>,
    decls: Option<Seq<DeclarationModel>>,
    rs: Seq<CssRuleModel>,
)
    ensures
        rule_css(CssRuleModel::Other(name, p, decls, rs)) == if rs.len() == 0 && decls is None {
            written_head(name, cvs_css(p)) + ";"@
        } else {
            written_head(name, cvs_css(p)) + " {"@ + (match decls {
                Some(ds) => spaced_decls_css(ds),
                None => Seq::<char>::empty(),
            }) + spaced_rules_css(rs) + " }"@
        },
{
    reveal_strlit("@");
    reveal_strlit(" ");
    reveal_strlit(";");
    reveal_strlit(" {");
    reveal_strlit(" }");
    lemma_trim_blank(cvs_css(p));
    assert(written_head(name, cvs_css(p)) =~= at_rule_head(name, cvs_css(p)));
    assert(" {"@ =~= seq![' ', '{']);
    assert(" }"@ =~= seq![' ', '}']);
    assert(";"@ =~= seq![';']);
}

// ── laws on lists ───────────────────────────────────────────────────

/// The declarations of a block at-rule are written one after the other, each as a space, the declaration and `;`: every declaration is there, in order.
pub proof fn law_spaced_decls(s1: Seq<DeclarationModel>, s2: Seq<DeclarationModel>, x: DeclarationModel)
    ensures
        spaced_decls_css(s1 + s2) == spaced_decls_css(s1) + spaced_decls_css(s2),
        spaced_decls_css(seq![x]) == seq![' '] + decl_css(x) + seq![';'],
    decreases s2.len(),
{
    if s2.len() == 0 {
        assert(s1 + s2 =~= s1);
        assert(spaced_decls_css(s1) + spaced_decls_css(s2) =~= spaced_decls_css(s1));
    } else {
        law_spaced_decls(s1, s2.drop_last(), x);
        assert((s1 + s2).drop_last() =~= s1 + s2.drop_last());
        assert((s1 + s2).last() == s2.last());
        assert(spaced_decls_css(s1 + s2) =~= spaced_decls_css(s1) + spaced_decls_css(s2));
    }
    assert(seq![x].drop_last() =~= Seq::<DeclarationModel>::empty());
    assert(spaced_decls_css(Seq::<DeclarationModel>::empty()) =~= Seq::<char>::empty());
    assert(spaced_decls_css(seq![x]) =~= seq![' '] + decl_css(x) + seq![';']);
}

/// The keyframes of a keyframes rule are written one after the other, each preceded by a space.
pub proof fn law_spaced_keyframes(s1: Seq<KeyframeModel>, s2: Seq<KeyframeModel>, x: KeyframeModel)
    ensures
        spaced_keyframes_css(s1 + s2) == spaced_keyframes_css(s1) + spaced_keyframes_css(s2),
        spaced_keyframes_css(seq![x]) == seq![' '] + keyframe_css(x),
    decreases s2.len(),
{
    if s2.len() == 0 {
        assert(s1 + s2 =~= s1);
        assert(spaced_keyframes_css(s1) + spaced_keyframes_css(s2) =~= spaced_keyframes_css(s1));
    } else {
        law_spaced_keyframes(s1, s2.drop_last(), x);
        assert((s1 + s2).drop_last() =~= s1 + s2.drop_last());
        assert((s1 + s2).last() == s2.last());
        assert(spaced_keyframes_css(s1 + s2) =~= spaced_keyframes_css(s1) + spaced_keyframes_css(s2));
    }
    assert(seq![x].drop_last() =~= Seq::<KeyframeModel>::empty());
    assert(spaced_keyframes_css(Seq::<KeyframeModel>::empty()) =~= Seq::<char>::empty());
    assert(spaced_keyframes_css(seq![x]) =~= seq![' '] + keyframe_css(x));
}

/// The child rules of a grouping rule are written one after the other, each preceded by a space.
pub proof fn law_spaced_rules(s1: Seq<CssRuleModel>, s2: Seq<CssRuleModel>, x: CssRuleModel)
    ensures
        spaced_rules_css(s1 + s2) == spaced_rules_css(s1) + spaced_rules_css(s2),
        spaced_rules_css(seq![x]) == seq![' '] + rule_css(x),
    decreases s2.len(),
{
    if s2.len() == 0 {
        assert(s1 + s2 =~= s1);
        assert(spaced_rules_css(s1) + spaced_rules_css(s2) =~= spaced_rules_css(s1));
    } else {
        law_spaced_rules(s1, s2.drop_last(), x);
        assert((s1 + s2).drop_last() =~= s1 + s2.drop_last());
        assert((s1 + s2).last() == s2.last());
        assert(spaced_rules_css(s1 + s2) =~= spaced_rules_css(s1) + spaced_rules_css(s2));
    }
    assert(seq![x].drop_last() =~= Seq::<CssRuleModel>::empty());
    assert(spaced_rules_css(Seq::<CssRuleModel>::empty()) =~= Seq::<char>::empty());
    assert(spaced_rules_css(seq![x]) =~= seq![' '] + rule_css(x));
}

/// The nested rules of a style rule without declarations are separated by single spaces.
pub proof fn law_joined_rules(s1: Seq<CssRuleModel>, s2: Seq<CssRuleModel>, x: CssRuleModel)
    ensures
        s1.len() > 0 && s2.len() > 0 ==> joined_rules_css(s1 + s2) == joined_rules_css(s1) + seq![' '] + joined_rules_css(s2),
        joined_rules_css(Seq::<CssRuleModel>::empty()) == Seq::<char>::empty(),
        joined_rules_css(seq![x]) == rule_css(x),
    decreases s2.len(),
{
    if s1.len() > 0 && s2.len() > 0 {
        if s2.len() == 1 {
            assert(s2 == seq![s2[0]]);
            assert((s1 + s2).drop_last() =~= s1);
            assert((s1 + s2).last() == s2[0]);
            assert(joined_rules_css(s2) == rule_css(s2[0]));
        } else {
            law_joined_rules(s1, s2.drop_last(), x);
            assert((s1 + s2).drop_last() =~= s1 + s2.drop_last());
            assert((s1 + s2).last() == s2.last());
            assert(joined_rules_css(s1 + s2) =~= joined_rules_css(s1) + seq![' '] + joined_rules_css(s2));
        }
    }
    assert(seq![x][0] == x);
}

/// The rules of a style sheet are written one per line.
pub proof fn law_sheet_rules(s1: Seq<CssRuleModel>, s2: Seq<CssRuleModel>, x: CssRuleModel)
    ensures
        s1.len() > 0 && s2.len() > 0 ==> sheet_rules_css(s1 + s2) == sheet_rules_css(s1) + seq!['\n'] + sheet_rules_css(s2),
        sheet_rules_css(Seq::<CssRuleModel>::empty()) == Seq::<char>::empty(),
        sheet_rules_css(seq![x]) == rule_css(x),
    decreases s2.len(),
{
    if s1.len() > 0 && s2.len() > 0 {
        if s2.len() == 1 {
            assert(s2 == seq![s2[0]]);
            assert((s1 + s2).drop_last() =~= s1);
            assert((s1 + s2).last() == s2[0]);
            assert(sheet_rules_css(s2) == rule_css(s2[0]));
        } else {
            law_sheet_rules(s1, s2.drop_last(), x);
            assert((s1 + s2).drop_last() =~= s1 + s2.drop_last());
            assert((s1 + s2).last() == s2.last());
            assert(sheet_rules_css(s1 + s2) =~= sheet_rules_css(s1) + seq!['\n'] + sheet_rules_css(s2));
        }
    }
    assert(seq![x][0] == x);
}

/// Layer names are separated by `, `, each escaped as an identifier.
pub proof fn law_layer_names(s1: Seq<Seq<char>>, s2: Seq<Seq<char>>, x: Seq<char>)
    ensures
        s1.len() > 0 && s2.len() > 0 ==> layer_names_css(s1 + s2) == layer_names_css(s1) + seq![',', ' '] + layer_names_css(s2),
        layer_names_css(Seq::<Seq<char>>::empty()) == Seq::<char>::empty(),
        layer_names_css(seq![x]) == ident_css(x),
    decreases s2.len(),
{
    if s1.len() > 0 && s2.len() > 0 {
        if s2.len() == 1 {
            assert(s2 == seq![s2[0]]);
            assert((s1 + s2).drop_last() =~= s1);
            assert((s1 + s2).last() == s2[0]);
            assert(layer_names_css(s2) == ident_css(s2[0]));
        } else {
            law_layer_names(s1, s2.drop_last(), x);
            assert((s1 + s2).drop_last() =~= s1 + s2.drop_last());
            assert((s1 + s2).last() == s2.last());
            assert(layer_names_css(s1 + s2) =~= layer_names_css(s1) + seq![',', ' '] + layer_names_css(s2));
        }
    }
    assert(seq![x][0] == x);
}

// ── laws ────────────────────────────────────────────────────────────

/// Every serialized rule is non-empty and ends with `}` (a rule with a
/// block) or `;` (a statement rule). In particular no rule text ends with
/// `{ `, so in a style rule without declarations only the first nested rule
/// follows the opening `{ ` directly and the others are preceded by a space.
pub proof fn law_rule_css_terminated(m: CssRuleModel)
    ensures
        rule_css(m).len() > 0,
        rule_css(m).last() == '}' || rule_css(m).last() == ';',
{
    match m {
        CssRuleModel::Style(..) => {},
        CssRuleModel::Import(..) => {},
        CssRuleModel::Media(..) => {},
        CssRuleModel::FontFace(..) => {},
        CssRuleModel::Page(..) => {},
        CssRuleModel::Keyframes(..) => {},
        CssRuleModel::Keyframe(..) => {},
        CssRuleModel::Namespace(..) => {},
        CssRuleModel::CounterStyle(..) => {},
        CssRuleModel::Supports(..) => {},
        CssRuleModel::Container(..) => {},
        CssRuleModel::LayerBlock(..) => {},
        CssRuleModel::LayerStatement(..) => {},
        CssRuleModel::Property(..) => {},
        CssRuleModel::Scope(..) => {},
        CssRuleModel::Other(..) => {},
    }
}

} // verus!
