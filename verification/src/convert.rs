//! One-way conversion from the syntax layer (CSS Syntax §5.2) to the CSSOM
//! (CSSOM §8.4 parse a CSS rule, §8.6 parse a CSS declaration block).
//!
//! The CSSOM tree that comes out owns all its data and refers back to
//! nothing of the syntax tree it came from.

use vstd::prelude::*;

use crate::declaration::{css_decls_model, CssDeclaration, CssStyleDeclaration, StyleModel};
use crate::rule::{
    css_rules_model, keyframe_model, keyframes_model, lemma_css_rules_model_push,
    opt_seq, rule_type_number, strings_model, CssContainerRule, CssCounterStyleRule, CssFontFaceRule,
    CssImportRule, CssKeyframeRule, CssKeyframesRule, CssLayerBlockRule, CssLayerStatementRule,
    CssMediaRule, CssNamespaceRule, CssPageRule, CssPropertyRule, CssRule, CssRuleModel,
    CssScopeRule, CssStyleRule, CssSupportsRule, KeyframeModel, OtherRule,
};
use crate::stylesheet::{default_sheet, CssStyleSheet, Origin};
use crate::syntax::{
    copy_component_value, copy_component_values, copy_opt_string, cv_model, cvs_model,
    decls_model, lemma_cvs_model, lemma_rules_model, rule_model,
    rules_model, AtRule, ComponentValue, ComponentValueModel, Declaration, DeclarationModel,
    QualifiedRule, Rule, RuleModel, Stylesheet, Token,
};
use crate::text::{
    ascii_lower_seq, chars_equal, chars_of, eq_ignore_ascii_case, lower_chars,
    str_eq_ignore_ascii_case,
};

verus! {

// ── specification ───────────────────────────────────────────────────

/// A writable declaration block holding `decls`.
pub open spec fn style_of(decls: Seq<DeclarationModel>) -> StyleModel {
    StyleModel { declarations: decls, readonly: false }
}

/// The declarations of a block at-rule, or none for a statement at-rule.
pub open spec fn decls_or_empty(d: Option<Seq<DeclarationModel>>) -> Seq<DeclarationModel> {
    match d {
        Some(ds) => ds,
        None => seq![],
    }
}

/// The child rules of a block at-rule, or none for a statement at-rule.
pub open spec fn kids_or_empty(k: Option<Seq<RuleModel>>) -> Seq<RuleModel> {
    match k {
        Some(ks) => ks,
        None => seq![],
    }
}

/// The declarations of all `Declarations` runs among `s`, in order.
pub open spec fn nested_decls(s: Seq<RuleModel>) -> Seq<DeclarationModel>
    decreases s.len(),
{
    if s.len() == 0 {
        seq![]
    } else {
        nested_decls(s.drop_last()) + match s.last() {
            RuleModel::Declarations(ds) => ds,
            _ => seq![],
        }
    }
}

/// The string that a string token, a URL token, or a `url()` function
/// whose only argument is a string token (name compared up to ASCII case)
/// holds; `None` for any other component value.
pub open spec fn url_of(m: ComponentValueModel) -> Option<Seq<char>> {
    match m {
        ComponentValueModel::Token(Token::String(s)) => Some(s@),
        ComponentValueModel::Token(Token::Url(s)) => Some(s@),
        ComponentValueModel::Function(name, args) => if eq_ignore_ascii_case(name, "url"@)
            && args.len() == 1 && args[0] matches ComponentValueModel::Token(Token::String(_)) {
            match args[0] {
                ComponentValueModel::Token(Token::String(s)) => Some(s@),
                _ => None,
            }
        } else {
            None
        },
        _ => None,
    }
}

/// The name of an ident token; `None` for any other component value.
pub open spec fn ident_of(m: ComponentValueModel) -> Option<Seq<char>> {
    match m {
        ComponentValueModel::Token(Token::Ident(s)) => Some(s@),
        _ => None,
    }
}

/// The first ident token of a prelude.
pub open spec fn first_ident(s: Seq<ComponentValueModel>) -> Option<Seq<char>>
    decreases s.len(),
{
    if s.len() == 0 {
        None
    } else if first_ident(s.drop_last()) is Some {
        first_ident(s.drop_last())
    } else {
        ident_of(s.last())
    }
}

/// The string of the last component value of a prelude that holds one
/// (see [`url_of`]).
pub open spec fn last_url(s: Seq<ComponentValueModel>) -> Option<Seq<char>>
    decreases s.len(),
{
    if s.len() == 0 {
        None
    } else if url_of(s.last()) is Some {
        url_of(s.last())
    } else {
        last_url(s.drop_last())
    }
}

/// Reading an `@import` prelude from the left: whether the URL has been
/// seen, the URL (the first string or URL), and the component values after
/// it, from which the media list is taken.
pub open spec fn import_scan(s: Seq<ComponentValueModel>) -> (bool, Seq<char>, Seq<ComponentValueModel>)
    decreases s.len(),
{
    if s.len() == 0 {
        (false, seq![], seq![])
    } else {
        let (found, href, media) = import_scan(s.drop_last());
        if found {
            (true, href, media.push(s.last()))
        } else {
            match url_of(s.last()) {
                Some(u) => (true, u, seq![]),
                None => (false, seq![], seq![]),
            }
        }
    }
}

/// Whether a component value is a whitespace token.
pub open spec fn is_ws_token(m: ComponentValueModel) -> bool {
    m == ComponentValueModel::Token(Token::Whitespace)
}

/// `s` without its trailing whitespace tokens.
pub open spec fn trim_ws_end(s: Seq<ComponentValueModel>) -> Seq<ComponentValueModel>
    decreases s.len(),
{
    if s.len() > 0 && is_ws_token(s.last()) {
        trim_ws_end(s.drop_last())
    } else {
        s
    }
}

/// `s` without its leading whitespace tokens.
pub open spec fn trim_ws_start(s: Seq<ComponentValueModel>) -> Seq<ComponentValueModel>
    decreases s.len(),
{
    if s.len() > 0 && is_ws_token(s[0]) {
        trim_ws_start(s.drop_first())
    } else {
        s
    }
}

/// `s` without leading and trailing whitespace tokens.
pub open spec fn trim_ws_tokens(s: Seq<ComponentValueModel>) -> Seq<ComponentValueModel> {
    trim_ws_start(trim_ws_end(s))
}

/// Cutting whitespace tokens off the end leaves `s.take(k)` when every
/// value from `k` on is whitespace and the one before `k` is not.
proof fn lemma_trim_ws_end_take(s: Seq<ComponentValueModel>, k: int)
    requires
        0 <= k <= s.len(),
        forall|j: int| k <= j < s.len() ==> is_ws_token(#[trigger] s[j]),
        k > 0 ==> !is_ws_token(s[k - 1]),
    ensures
        trim_ws_end(s) == s.take(k),
    decreases s.len(),
{
    if s.len() > k {
        assert(is_ws_token(s[s.len() - 1]));
        lemma_trim_ws_end_take(s.drop_last(), k);
        assert(s.drop_last().take(k) == s.take(k));
    } else {
        assert(s.take(k) == s);
    }
}

/// Cutting whitespace tokens off the start leaves `s.skip(k)` when every
/// value before `k` is whitespace and the one at `k` is not.
proof fn lemma_trim_ws_start_skip(s: Seq<ComponentValueModel>, k: int)
    requires
        0 <= k <= s.len(),
        forall|j: int| 0 <= j < k ==> is_ws_token(#[trigger] s[j]),
        k < s.len() ==> !is_ws_token(s[k]),
    ensures
        trim_ws_start(s) == s.skip(k),
    decreases k,
{
    if k > 0 {
        assert(is_ws_token(s[0]));
        lemma_trim_ws_start_skip(s.drop_first(), k - 1);
        assert(s.drop_first().skip(k - 1) == s.skip(k));
    } else {
        assert(s.skip(0) == s);
    }
}

/// Reading an `@layer` prelude from the left: the names completed so far
/// (each ended by a comma) and the name being built. Idents and `.` delims
/// build a name; everything else is skipped.
pub open spec fn layer_scan(s: Seq<ComponentValueModel>) -> (Seq<Seq<char>>, Seq<char>)
    decreases s.len(),
{
    if s.len() == 0 {
        (seq![], seq![])
    } else {
        let (names, cur) = layer_scan(s.drop_last());
        match s.last() {
            ComponentValueModel::Token(Token::Comma) => (names.push(cur), seq![]),
            ComponentValueModel::Token(Token::Ident(x)) => (names, cur + x@),
            ComponentValueModel::Token(Token::Delim(c)) => if c == '.' {
                (names, cur.push('.'))
            } else {
                (names, cur)
            },
            _ => (names, cur),
        }
    }
}

/// The dotted layer names of an `@layer` prelude (`a.b.c, d` gives
/// `["a.b.c", "d"]`); a name left unfinished at the end counts only when
/// it is not empty.
pub open spec fn dotted_layer_names(s: Seq<ComponentValueModel>) -> Seq<Seq<char>> {
    let (names, cur) = layer_scan(s);
    if cur.len() == 0 {
        names
    } else {
        names.push(cur)
    }
}

/// The keyframes of an `@keyframes` block: one per qualified child rule,
/// with its prelude as key and its declarations; other children are skipped.
pub open spec fn keyframes_of(s: Seq<RuleModel>) -> Seq<KeyframeModel>
    decreases s.len(),
{
    if s.len() == 0 {
        seq![]
    } else {
        keyframes_of(s.drop_last()) + match s.last() {
            RuleModel::Qualified(p, d, _) => seq![
                KeyframeModel { key_text: p, style: style_of(d) },
            ],
            _ => seq![],
        }
    }
}

/// The CSSOM rules of a list of syntax rules: qualified rules and at-rules
/// are converted in order, declaration runs are left out.
pub open spec fn conv_rules(s: Seq<RuleModel>) -> Seq<CssRuleModel>
    decreases s,
{
    if s.len() == 0 {
        seq![]
    } else {
        match s.last() {
            RuleModel::Declarations(_) => conv_rules(s.drop_last()),
            _ => conv_rules(s.drop_last()).push(conv_rule(s.last())),
        }
    }
}

/// The CSSOM rules of the child rules of a block at-rule; none for a
/// statement at-rule.
pub open spec fn opt_conv_rules(k: Option<Seq<RuleModel>>) -> Seq<CssRuleModel>
    decreases k,
{
    match k {
        Some(ks) => conv_rules(ks),
        None => seq![],
    }
}

/// The CSSOM rule of a syntax rule.
///
/// A qualified rule becomes a style rule whose declarations are its own
/// followed by those of the declaration runs among its children. An at-rule
/// is dispatched on its name, compared up to ASCII case; names that are not
/// recognised give an [`CssRuleModel::Other`] rule.
pub open spec fn conv_rule(r: RuleModel) -> CssRuleModel
    decreases r,
{
    match r {
        RuleModel::Qualified(p, d, c) => CssRuleModel::Style(
            p,
            style_of(d + nested_decls(c)),
            conv_rules(c),
        ),
        RuleModel::At(name, prelude, decls, kids) => {
            let n = ascii_lower_seq(name);
            if n == "import"@ {
                let (found, href, media) = import_scan(prelude);
                CssRuleModel::Import(href, trim_ws_tokens(media))
            } else if n == "media"@ {
                CssRuleModel::Media(prelude, opt_conv_rules(kids))
            } else if n == "font-face"@ {
                CssRuleModel::FontFace(style_of(decls_or_empty(decls)))
            } else if n == "page"@ {
                CssRuleModel::Page(prelude, style_of(decls_or_empty(decls)))
            } else if n == "keyframes"@ {
                CssRuleModel::Keyframes(first_ident(prelude), keyframes_of(kids_or_empty(kids)))
            } else if n == "namespace"@ {
                CssRuleModel::Namespace(
                    match last_url(prelude) {
                        Some(u) => u,
                        None => seq![],
                    },
                    first_ident(prelude),
                )
            } else if n == "counter-style"@ {
                CssRuleModel::CounterStyle(
                    match first_ident(prelude) {
                        Some(x) => x,
                        None => seq![],
                    },
                    style_of(decls_or_empty(decls)),
                )
            } else if n == "supports"@ {
                CssRuleModel::Supports(prelude, opt_conv_rules(kids))
            } else if n == "layer"@ {
                let names = dotted_layer_names(prelude);
                if kids is Some {
                    CssRuleModel::LayerBlock(
                        if names.len() > 0 {
                            Some(names[0])
                        } else {
                            None
                        },
                        opt_conv_rules(kids),
                    )
                } else {
                    CssRuleModel::LayerStatement(names)
                }
            } else if n == "container"@ {
                CssRuleModel::Container(prelude, opt_conv_rules(kids))
            } else if n == "property"@ {
                CssRuleModel::Property(
                    match first_ident(prelude) {
                        Some(x) => x,
                        None => seq![],
                    },
                    style_of(decls_or_empty(decls)),
                )
            } else if n == "scope"@ {
                CssRuleModel::Scope(prelude, opt_conv_rules(kids))
            } else {
                CssRuleModel::Other(
                    name,
                    prelude,
                    match decls {
                        Some(ds) => Some(ds + nested_decls(kids_or_empty(kids))),
                        None => None,
                    },
                    opt_conv_rules(kids),
                )
            }
        },
        RuleModel::Declarations(_) => CssRuleModel::Other(seq![], seq![], None, seq![]),
    }
}

/// The model of the optional child rules of an at-rule.
pub open spec fn opt_rules_model(o: Option<Vec<Rule>>) -> Option<Seq<RuleModel>> {
    match o {
        Some(v) => Some(rules_model(v@)),
        None => None,
    }
}

/// The model of the optional declarations of an at-rule.
pub open spec fn opt_decls_model(o: Option<Vec<Declaration>>) -> Option<Seq<DeclarationModel>> {
    match o {
        Some(v) => Some(decls_model(v@)),
        None => None,
    }
}

// ── small conversions ───────────────────────────────────────────────

/// A syntax declaration as a CSSOM declaration (original text included).
fn convert_declaration(d: &Declaration) -> (r: CssDeclaration)
    ensures
        r@ == d@,
{
    CssDeclaration {
        name: d.name.clone(),
        value: copy_component_values(&d.value),
        important: d.important,
        original_text: copy_opt_string(&d.original_text),
    }
}

/// A list of syntax declarations as CSSOM declarations.
fn convert_declarations(v: &Vec<Declaration>) -> (r: Vec<CssDeclaration>)
    ensures
        css_decls_model(r@) == decls_model(v@),
{
    let mut r: Vec<CssDeclaration> = Vec::new();
    let mut i: usize = 0;
    while i < v.len()
        invariant
            i <= v@.len(),
            css_decls_model(r@) == decls_model(v@.take(i as int)),
        decreases v@.len() - i,
    {
        let ghost old_r = r@;
        r.push(convert_declaration(&v[i]));
        assert(css_decls_model(old_r).len() == decls_model(v@.take(i as int)).len());
        assert(css_decls_model(r@) =~= decls_model(v@.take(i + 1))) by {
            assert forall|j: int| 0 <= j < i implies css_decls_model(r@)[j] == decls_model(
                v@.take(i + 1),
            )[j] by {
                assert(css_decls_model(old_r)[j] == decls_model(v@.take(i as int))[j]);
            }
        }
        i = i + 1;
    }
    assert(v@.take(v@.len() as int) == v@);
    r
}

/// The declaration block of a descriptor at-rule (empty for a statement
/// at-rule).
fn convert_declaration_block(decls: &Option<Vec<Declaration>>) -> (r: CssStyleDeclaration)
    ensures
        r@ == style_of(decls_or_empty(opt_decls_model(*decls))),
{
    let declarations = match decls {
        Some(d) => convert_declarations(d),
        None => Vec::new(),
    };
    let r = CssStyleDeclaration { declarations, readonly: false };
    assert(css_decls_model(r.declarations@) =~= decls_or_empty(opt_decls_model(*decls)));
    r
}

/// Appends `extra` to the declarations of `style`.
fn append_declarations(style: &mut CssStyleDeclaration, extra: Vec<CssDeclaration>)
    ensures
        css_decls_model(final(style).declarations@) == css_decls_model(old(style).declarations@)
            + css_decls_model(extra@),
        final(style).readonly == old(style).readonly,
{
    let mut extra = extra;
    let ghost e = extra@;
    style.declarations.append(&mut extra);
    assert(css_decls_model(style.declarations@) =~= css_decls_model(old(style).declarations@)
        + css_decls_model(e));
}

/// The first ident token of a prelude (used for at-rule names).
fn first_ident_of(prelude: &Vec<ComponentValue>) -> (r: Option<String>)
    ensures
        opt_seq(r) == first_ident(cvs_model(prelude@)),
{
    proof {
        lemma_cvs_model(prelude@);
    }
    let mut i: usize = 0;
    while i < prelude.len()
        invariant
            i <= prelude@.len(),
            first_ident(cvs_model(prelude@).take(i as int)) is None,
            cvs_model(prelude@).len() == prelude@.len(),
            forall|j: int| 0 <= j < prelude@.len() ==> #[trigger] cvs_model(prelude@)[j] == cv_model(prelude@[j]),
        decreases prelude@.len() - i,
    {
        let ghost m = cvs_model(prelude@);
        assert(m.take(i + 1).drop_last() == m.take(i as int));
        match &prelude[i] {
            ComponentValue::PreservedToken(Token::Ident(s)) => {
                assert(m.take(i + 1).last() == m[i as int]);
                assert(m.take(prelude@.len() as int) == m);
                proof {
                    lemma_first_ident_prefix(m, i + 1);
                }
                return Some(s.clone());
            },
            _ => {},
        }
        i = i + 1;
    }
    assert(cvs_model(prelude@).take(prelude@.len() as int) == cvs_model(prelude@));
    None
}

/// Once a prefix holds an ident token, the first one of the whole list is
/// the first one of that prefix.
proof fn lemma_first_ident_prefix(s: Seq<ComponentValueModel>, k: int)
    requires
        0 <= k <= s.len(),
        first_ident(s.take(k)) is Some,
    ensures
        first_ident(s) == first_ident(s.take(k)),
    decreases s.len() - k,
{
    if k < s.len() {
        assert(s.take(k + 1).drop_last() == s.take(k));
        lemma_first_ident_prefix(s, k + 1);
    } else {
        assert(s.take(k) == s);
    }
}

/// The string a component value holds, if it is a string token, a URL
/// token, or a `url("...")` function.
pub fn extract_string_or_url(cv: &ComponentValue) -> (r: Option<String>)
    ensures
        opt_seq(r) == url_of(cv@),
{
    match cv {
        ComponentValue::PreservedToken(Token::String(s)) => Some(s.clone()),
        ComponentValue::PreservedToken(Token::Url(s)) => Some(s.clone()),
        ComponentValue::Function(f) => {
            proof {
                lemma_cvs_model(f.value@);
                reveal_strlit("url");
            }
            if str_eq_ignore_ascii_case(f.name.as_str(), "url") && f.value.len() == 1 {
                match &f.value[0] {
                    ComponentValue::PreservedToken(Token::String(s)) => Some(s.clone()),
                    _ => None,
                }
            } else {
                None
            }
        },
        _ => None,
    }
}

/// The dotted layer names of an `@layer` prelude.
fn extract_dotted_layer_names(prelude: &Vec<ComponentValue>) -> (r: Vec<String>)
    ensures
        strings_model(r@) == dotted_layer_names(cvs_model(prelude@)),
{
    proof {
        lemma_cvs_model(prelude@);
    }
    let ghost m = cvs_model(prelude@);
    let mut names: Vec<String> = Vec::new();
    let mut current = String::new();
    let mut i: usize = 0;
    while i < prelude.len()
        invariant
            i <= prelude@.len(),
            m == cvs_model(prelude@),
            m.len() == prelude@.len(),
            forall|j: int| 0 <= j < prelude@.len() ==> #[trigger] m[j] == cv_model(prelude@[j]),
            (strings_model(names@), current@) == layer_scan(m.take(i as int)),
        decreases prelude@.len() - i,
    {
        assert(m.take(i + 1).drop_last() == m.take(i as int));
        assert(m.take(i + 1).last() == m[i as int]);
        let ghost old_names = names@;
        match &prelude[i] {
            ComponentValue::PreservedToken(Token::Comma) => {
                let done = current;
                current = String::new();
                names.push(done);
                assert(strings_model(names@) =~= strings_model(old_names).push(done@));
            },
            ComponentValue::PreservedToken(Token::Ident(s)) => {
                current.append(s.as_str());
            },
            ComponentValue::PreservedToken(Token::Delim(c)) => {
                if *c == '.' {
                    crate::text::push_char(&mut current, '.');
                }
            },
            _ => {},
        }
        i = i + 1;
    }
    assert(m.take(prelude@.len() as int) == m);
    if current.as_str().unicode_len() != 0 {
        let ghost old_names = names@;
        names.push(current);
        assert(strings_model(names@) =~= strings_model(old_names).push(current@));
    }
    names
}

// ── at-rules that hold no rules ─────────────────────────────────────

/// Whether a component value is a whitespace token.
fn is_whitespace_cv(cv: &ComponentValue) -> (b: bool)
    ensures
        b == is_ws_token(cv@),
{
    match cv {
        ComponentValue::PreservedToken(Token::Whitespace) => true,
        _ => false,
    }
}

/// Copies `v` without its leading and trailing whitespace tokens.
fn trim_whitespace_tokens(v: &Vec<ComponentValue>) -> (r: Vec<ComponentValue>)
    ensures
        cvs_model(r@) == trim_ws_tokens(cvs_model(v@)),
{
    proof {
        lemma_cvs_model(v@);
    }
    let ghost m = cvs_model(v@);
    let mut end: usize = v.len();
    while end > 0 && is_whitespace_cv(&v[end - 1])
        invariant
            end <= v@.len(),
            m == cvs_model(v@),
            m.len() == v@.len(),
            forall|j: int| 0 <= j < v@.len() ==> #[trigger] m[j] == cv_model(v@[j]),
            forall|j: int| end <= j < m.len() ==> is_ws_token(#[trigger] m[j]),
        decreases end,
    {
        end = end - 1;
    }
    let mut start: usize = 0;
    while start < end && is_whitespace_cv(&v[start])
        invariant
            start <= end <= v@.len(),
            m == cvs_model(v@),
            m.len() == v@.len(),
            forall|j: int| 0 <= j < v@.len() ==> #[trigger] m[j] == cv_model(v@[j]),
            forall|j: int| 0 <= j < start ==> is_ws_token(#[trigger] m[j]),
        decreases end - start,
    {
        start = start + 1;
    }
    proof {
        lemma_trim_ws_end_take(m, end as int);
        let t = m.take(end as int);
        assert forall|j: int| 0 <= j < start implies is_ws_token(#[trigger] t[j]) by {
            assert(t[j] == m[j]);
        }
        lemma_trim_ws_start_skip(t, start as int);
        assert(t.skip(start as int) == m.subrange(start as int, end as int));
    }
    let mut r: Vec<ComponentValue> = Vec::new();
    let mut i: usize = start;
    while i < end
        invariant
            start <= i <= end <= v@.len(),
            m == cvs_model(v@),
            m.len() == v@.len(),
            forall|j: int| 0 <= j < v@.len() ==> #[trigger] m[j] == cv_model(v@[j]),
            cvs_model(r@) == m.subrange(start as int, i as int),
        decreases end - i,
    {
        let c = copy_component_value(&v[i]);
        let ghost old_r = r@;
        r.push(c);
        proof {
            assert(r@.drop_last() == old_r);
            assert(m.subrange(start as int, i + 1) == m.subrange(start as int, i as int).push(m[i as int]));
        }
        i = i + 1;
    }
    r
}

/// `@import`: the first string or URL of the prelude is the href; what
/// follows it, without leading and trailing whitespace, is the media list.
fn convert_import(ar: &AtRule) -> (r: CssImportRule)
    ensures
        CssRule::Import(r)@ == ({
            let (found, href, media) = import_scan(cvs_model(ar.prelude@));
            CssRuleModel::Import(href, trim_ws_tokens(media))
        }),
{
    proof {
        lemma_cvs_model(ar.prelude@);
    }
    let ghost m = cvs_model(ar.prelude@);
    let mut href = String::new();
    let mut media: Vec<ComponentValue> = Vec::new();
    let mut found_href = false;
    let mut i: usize = 0;
    while i < ar.prelude.len()
        invariant
            i <= ar.prelude@.len(),
            m == cvs_model(ar.prelude@),
            m.len() == ar.prelude@.len(),
            forall|j: int| 0 <= j < ar.prelude@.len() ==> #[trigger] m[j] == cv_model(ar.prelude@[j]),
            (found_href, href@, cvs_model(media@)) == import_scan(m.take(i as int)),
        decreases ar.prelude@.len() - i,
    {
        assert(m.take(i + 1).drop_last() == m.take(i as int));
        assert(m.take(i + 1).last() == m[i as int]);
        let cv = &ar.prelude[i];
        if !found_href {
            match extract_string_or_url(cv) {
                Some(s) => {
                    href = s;
                    found_href = true;
                    media = Vec::new();
                    assert(cvs_model(media@) =~= Seq::<ComponentValueModel>::empty());
                },
                None => {},
            }
        } else {
            let c = copy_component_value(cv);
            let ghost old_media = media@;
            media.push(c);
            assert(media@.drop_last() == old_media);
        }
        i = i + 1;
    }
    assert(m.take(ar.prelude@.len() as int) == m);
    CssImportRule { href, media: trim_whitespace_tokens(&media) }
}

/// `@namespace`: the first ident is the prefix, the last string or URL is
/// the namespace URI.
fn convert_namespace(ar: &AtRule) -> (r: CssNamespaceRule)
    ensures
        CssRule::Namespace(r)@ == CssRuleModel::Namespace(
            match last_url(cvs_model(ar.prelude@)) {
                Some(u) => u,
                None => seq![],
            },
            first_ident(cvs_model(ar.prelude@)),
        ),
{
    proof {
        lemma_cvs_model(ar.prelude@);
    }
    let ghost m = cvs_model(ar.prelude@);
    let mut prefix: Option<String> = None;
    let mut namespace_uri = String::new();
    let mut seen_prefix = false;
    let mut i: usize = 0;
    while i < ar.prelude.len()
        invariant
            i <= ar.prelude@.len(),
            m == cvs_model(ar.prelude@),
            m.len() == ar.prelude@.len(),
            forall|j: int| 0 <= j < ar.prelude@.len() ==> #[trigger] m[j] == cv_model(ar.prelude@[j]),
            seen_prefix == (first_ident(m.take(i as int)) is Some),
            opt_seq(prefix) == first_ident(m.take(i as int)),
            namespace_uri@ == match last_url(m.take(i as int)) {
                Some(u) => u,
                None => seq![],
            },
        decreases ar.prelude@.len() - i,
    {
        assert(m.take(i + 1).drop_last() == m.take(i as int));
        assert(m.take(i + 1).last() == m[i as int]);
        let cv = &ar.prelude[i];
        match cv {
            ComponentValue::PreservedToken(Token::Whitespace) => {},
            ComponentValue::PreservedToken(Token::Ident(s)) => {
                if !seen_prefix {
                    prefix = Some(s.clone());
                    seen_prefix = true;
                }
            },
            _ => {
                match extract_string_or_url(cv) {
                    Some(s) => {
                        namespace_uri = s;
                    },
                    None => {},
                }
            },
        }
        i = i + 1;
    }
    assert(m.take(ar.prelude@.len() as int) == m);
    CssNamespaceRule { namespace_uri, prefix }
}

/// `@font-face`: its declarations become the descriptors.
fn convert_font_face(ar: &AtRule) -> (r: CssFontFaceRule)
    ensures
        CssRule::FontFace(r)@ == CssRuleModel::FontFace(
            style_of(decls_or_empty(opt_decls_model(ar.declarations))),
        ),
{
    CssFontFaceRule { style: convert_declaration_block(&ar.declarations) }
}

/// `@page`: the prelude is the page selector, the declarations the
/// descriptors.
fn convert_page(ar: &AtRule) -> (r: CssPageRule)
    ensures
        CssRule::Page(r)@ == CssRuleModel::Page(
            cvs_model(ar.prelude@),
            style_of(decls_or_empty(opt_decls_model(ar.declarations))),
        ),
{
    CssPageRule {
        selectors: copy_component_values(&ar.prelude),
        style: convert_declaration_block(&ar.declarations),
    }
}

/// `@keyframes`: the first ident of the prelude names the animation; each
/// qualified child rule is a keyframe.
fn convert_keyframes(ar: &AtRule) -> (r: CssKeyframesRule)
    ensures
        CssRule::Keyframes(r)@ == CssRuleModel::Keyframes(
            first_ident(cvs_model(ar.prelude@)),
            keyframes_of(kids_or_empty(opt_rules_model(ar.child_rules))),
        ),
{
    let name = first_ident_of(&ar.prelude);
    let mut keyframes: Vec<CssKeyframeRule> = Vec::new();
    match &ar.child_rules {
        Some(child_rules) => {
            proof {
                lemma_rules_model(child_rules@);
            }
            let ghost m = rules_model(child_rules@);
            let mut i: usize = 0;
            while i < child_rules.len()
                invariant
                    i <= child_rules@.len(),
                    m == rules_model(child_rules@),
                    m.len() == child_rules@.len(),
                    forall|j: int| 0 <= j < child_rules@.len() ==> #[trigger] m[j] == rule_model(child_rules@[j]),
                    keyframes_model(keyframes@) == keyframes_of(m.take(i as int)),
                decreases child_rules@.len() - i,
            {
                assert(m.take(i + 1).drop_last() == m.take(i as int));
                assert(m.take(i + 1).last() == m[i as int]);
                let ghost old_k = keyframes@;
                match &child_rules[i] {
                    Rule::QualifiedRule(qr) => {
                        let style = CssStyleDeclaration {
                            declarations: convert_declarations(&qr.declarations),
                            readonly: false,
                        };
                        let k = CssKeyframeRule {
                            key_text: copy_component_values(&qr.prelude),
                            style,
                        };
                        keyframes.push(k);
                        assert(keyframes_model(keyframes@) =~= keyframes_model(old_k).push(
                            keyframe_model(k),
                        ));
                        assert(keyframe_model(k) =~= KeyframeModel {
                            key_text: cvs_model(qr.prelude@),
                            style: style_of(decls_model(qr.declarations@)),
                        });
                    },
                    _ => {},
                }
                assert(keyframes_model(keyframes@) =~= keyframes_of(m.take(i + 1)));
                i = i + 1;
            }
            assert(m.take(child_rules@.len() as int) == m);
        },
        None => {
            assert(keyframes_model(keyframes@) =~= Seq::<KeyframeModel>::empty());
        },
    }
    CssKeyframesRule { name, keyframes }
}

/// `@counter-style`: the first ident of the prelude names the style (empty
/// when there is none); the declarations are the descriptors.
fn convert_counter_style(ar: &AtRule) -> (r: CssCounterStyleRule)
    ensures
        CssRule::CounterStyle(r)@ == CssRuleModel::CounterStyle(
            match first_ident(cvs_model(ar.prelude@)) {
                Some(x) => x,
                None => seq![],
            },
            style_of(decls_or_empty(opt_decls_model(ar.declarations))),
        ),
{
    let name = match first_ident_of(&ar.prelude) {
        Some(n) => n,
        None => String::new(),
    };
    CssCounterStyleRule { name, style: convert_declaration_block(&ar.declarations) }
}

/// `@property`: the first ident of the prelude is the registered name
/// (empty when there is none); the declarations are the descriptors.
fn convert_property(ar: &AtRule) -> (r: CssPropertyRule)
    ensures
        CssRule::Property(r)@ == CssRuleModel::Property(
            match first_ident(cvs_model(ar.prelude@)) {
                Some(x) => x,
                None => seq![],
            },
            style_of(decls_or_empty(opt_decls_model(ar.declarations))),
        ),
{
    let name = match first_ident_of(&ar.prelude) {
        Some(n) => n,
        None => String::new(),
    };
    CssPropertyRule { name, style: convert_declaration_block(&ar.declarations) }
}

// ── rules that hold rules ───────────────────────────────────────────

/// Converts a list of child rules. Qualified rules and at-rules become CSSOM
/// rules; the declarations of declaration runs are returned separately, in
/// order, when `collect_decls` is set (and dropped otherwise), for the
/// caller to merge into its own declaration block.
fn convert_child_rules(rules: &Vec<Rule>, collect_decls: bool) -> (r: (Vec<CssRule>, Vec<CssDeclaration>))
    ensures
        css_rules_model(r.0@) == conv_rules(rules_model(rules@)),
        collect_decls ==> css_decls_model(r.1@) == nested_decls(rules_model(rules@)),
        !collect_decls ==> r.1@.len() == 0,
    decreases rules, 3int,
{
    proof {
        lemma_rules_model(rules@);
    }
    let ghost m = rules_model(rules@);
    let mut css_rules: Vec<CssRule> = Vec::new();
    let mut extra_decls: Vec<CssDeclaration> = Vec::new();
    let mut i: usize = 0;
    while i < rules.len()
        invariant
            i <= rules@.len(),
            m == rules_model(rules@),
            m.len() == rules@.len(),
            forall|j: int| 0 <= j < rules@.len() ==> #[trigger] m[j] == rule_model(rules@[j]),
            css_rules_model(css_rules@) == conv_rules(m.take(i as int)),
            collect_decls ==> css_decls_model(extra_decls@) == nested_decls(m.take(i as int)),
            !collect_decls ==> extra_decls@.len() == 0,
        decreases rules@.len() - i,
    {
        assert(m.take(i + 1).drop_last() == m.take(i as int));
        assert(m.take(i + 1).last() == m[i as int]);
        let ghost old_rules = css_rules@;
        let ghost old_decls = extra_decls@;
        match &rules[i] {
            Rule::QualifiedRule(qr) => {
                let c = CssRule::Style(convert_qualified_rule(qr));
                css_rules.push(c);
                proof {
                    lemma_css_rules_model_push(old_rules, c);
                }
            },
            Rule::AtRule(ar) => {
                let c = convert_at_rule(ar);
                css_rules.push(c);
                proof {
                    lemma_css_rules_model_push(old_rules, c);
                }
            },
            Rule::Declarations(decls) => {
                if collect_decls {
                    let mut converted = convert_declarations(decls);
                    extra_decls.append(&mut converted);
                    assert(css_decls_model(extra_decls@) =~= nested_decls(m.take(i + 1)));
                }
            },
        }
        i = i + 1;
    }
    assert(m.take(rules@.len() as int) == m);
    (css_rules, extra_decls)
}

/// A qualified rule as a style rule: its declarations, then those of the
/// declaration runs among its children (which come later in the cascade),
/// and its nested rules.
fn convert_qualified_rule(qr: &QualifiedRule) -> (r: CssStyleRule)
    ensures
        CssRule::Style(r)@ == conv_rule(rule_model(Rule::QualifiedRule(*qr))),
    decreases qr, 2int,
{
    let mut style = CssStyleDeclaration::new();
    let own = convert_declarations(&qr.declarations);
    append_declarations(&mut style, own);
    let (css_rules, extra_decls) = convert_child_rules(&qr.child_rules, true);
    append_declarations(&mut style, extra_decls);
    let r = CssStyleRule { selectors: copy_component_values(&qr.prelude), style, css_rules };
    assert(style@ =~= style_of(decls_model(qr.declarations@) + nested_decls(rules_model(qr.child_rules@))));
    r
}

/// Whether the lower-cased name `lower` is the literal `lit`.
fn is_name(lower: &Vec<char>, lit: &str) -> (b: bool)
    ensures
        b == (lower@ == lit@),
{
    let v = chars_of(lit);
    chars_equal(lower, &v)
}

/// An at-rule as the CSSOM rule its name calls for (compared up to ASCII
/// case); unrecognised names give an [`OtherRule`].
fn convert_at_rule(ar: &AtRule) -> (r: CssRule)
    ensures
        r@ == conv_rule(rule_model(Rule::AtRule(*ar))),
    decreases ar, 2int,
{
    let n = lower_chars(ar.name.as_str());
    if is_name(&n, "import") {
        CssRule::Import(convert_import(ar))
    } else if is_name(&n, "media") {
        CssRule::Media(convert_media(ar))
    } else if is_name(&n, "font-face") {
        CssRule::FontFace(convert_font_face(ar))
    } else if is_name(&n, "page") {
        CssRule::Page(convert_page(ar))
    } else if is_name(&n, "keyframes") {
        CssRule::Keyframes(convert_keyframes(ar))
    } else if is_name(&n, "namespace") {
        CssRule::Namespace(convert_namespace(ar))
    } else if is_name(&n, "counter-style") {
        CssRule::CounterStyle(convert_counter_style(ar))
    } else if is_name(&n, "supports") {
        CssRule::Supports(convert_supports(ar))
    } else if is_name(&n, "layer") {
        convert_layer(ar)
    } else if is_name(&n, "container") {
        CssRule::Container(convert_container(ar))
    } else if is_name(&n, "property") {
        CssRule::Property(convert_property(ar))
    } else if is_name(&n, "scope") {
        CssRule::Scope(convert_scope(ar))
    } else {
        CssRule::Other(convert_other(ar))
    }
}

/// The converted child rules of a block at-rule (nested declaration runs
/// dropped); none for a statement at-rule.
fn convert_at_rule_children(ar: &AtRule) -> (r: Vec<CssRule>)
    ensures
        css_rules_model(r@) == opt_conv_rules(opt_rules_model(ar.child_rules)),
    decreases ar, 0int,
{
    match &ar.child_rules {
        Some(c) => {
            let (css_rules, _) = convert_child_rules(c, false);
            css_rules
        },
        None => Vec::new(),
    }
}

/// `@media`: the prelude is the condition.
fn convert_media(ar: &AtRule) -> (r: CssMediaRule)
    ensures
        CssRule::Media(r)@ == CssRuleModel::Media(
            cvs_model(ar.prelude@),
            opt_conv_rules(opt_rules_model(ar.child_rules)),
        ),
    decreases ar, 1int,
{
    let css_rules = convert_at_rule_children(ar);
    CssMediaRule { condition: copy_component_values(&ar.prelude), css_rules }
}

/// `@supports`: the prelude is the condition.
fn convert_supports(ar: &AtRule) -> (r: CssSupportsRule)
    ensures
        CssRule::Supports(r)@ == CssRuleModel::Supports(
            cvs_model(ar.prelude@),
            opt_conv_rules(opt_rules_model(ar.child_rules)),
        ),
    decreases ar, 1int,
{
    let css_rules = convert_at_rule_children(ar);
    CssSupportsRule { condition: copy_component_values(&ar.prelude), css_rules }
}

/// `@container`: the prelude is the condition.
fn convert_container(ar: &AtRule) -> (r: CssContainerRule)
    ensures
        CssRule::Container(r)@ == CssRuleModel::Container(
            cvs_model(ar.prelude@),
            opt_conv_rules(opt_rules_model(ar.child_rules)),
        ),
    decreases ar, 1int,
{
    let css_rules = convert_at_rule_children(ar);
    CssContainerRule { condition: copy_component_values(&ar.prelude), css_rules }
}

/// `@scope`: the prelude is kept as it is.
fn convert_scope(ar: &AtRule) -> (r: CssScopeRule)
    ensures
        CssRule::Scope(r)@ == CssRuleModel::Scope(
            cvs_model(ar.prelude@),
            opt_conv_rules(opt_rules_model(ar.child_rules)),
        ),
    decreases ar, 1int,
{
    let css_rules = convert_at_rule_children(ar);
    CssScopeRule { prelude: copy_component_values(&ar.prelude), css_rules }
}

/// `@layer`: with a block, a layer block rule named by the first dotted name
/// (anonymous when there is none); without one, a layer statement rule
/// listing all dotted names.
fn convert_layer(ar: &AtRule) -> (r: CssRule)
    ensures
        r@ == ({
            let names = dotted_layer_names(cvs_model(ar.prelude@));
            if ar.child_rules is Some {
                CssRuleModel::LayerBlock(
                    if names.len() > 0 {
                        Some(names[0])
                    } else {
                        None
                    },
                    opt_conv_rules(opt_rules_model(ar.child_rules)),
                )
            } else {
                CssRuleModel::LayerStatement(names)
            }
        }),
    decreases ar, 1int,
{
    if ar.child_rules.is_some() {
        let css_rules = convert_at_rule_children(ar);
        let names = extract_dotted_layer_names(&ar.prelude);
        let name = if names.len() > 0 {
            Some(names[0].clone())
        } else {
            None
        };
        CssRule::LayerBlock(CssLayerBlockRule { name, css_rules })
    } else {
        let names = extract_dotted_layer_names(&ar.prelude);
        CssRule::LayerStatement(CssLayerStatementRule { names })
    }
}

/// An unrecognised at-rule, kept with its name and prelude. A block
/// at-rule keeps its declarations, followed by those of the declaration runs
/// among its children; a statement at-rule has none.
fn convert_other(ar: &AtRule) -> (r: OtherRule)
    ensures
        CssRule::Other(r)@ == CssRuleModel::Other(
            ar.name@,
            cvs_model(ar.prelude@),
            match opt_decls_model(ar.declarations) {
                Some(ds) => Some(ds + nested_decls(kids_or_empty(opt_rules_model(ar.child_rules)))),
                None => None,
            },
            opt_conv_rules(opt_rules_model(ar.child_rules)),
        ),
    decreases ar, 1int,
{
    let (child_rules, extra_decls) = match &ar.child_rules {
        Some(c) => convert_child_rules(c, true),
        None => (Vec::new(), Vec::new()),
    };
    let declarations = match &ar.declarations {
        Some(decls) => {
            let mut converted = convert_declarations(decls);
            let mut extra = extra_decls;
            let ghost c0 = converted@;
            let ghost e0 = extra@;
            converted.append(&mut extra);
            assert(css_decls_model(converted@) =~= css_decls_model(c0) + css_decls_model(e0));
            Some(converted)
        },
        None => None,
    };
    let r = OtherRule {
        name: ar.name.clone(),
        prelude: copy_component_values(&ar.prelude),
        declarations,
        child_rules,
    };
    assert(CssRule::Other(r)@ =~= CssRuleModel::Other(
        ar.name@,
        cvs_model(ar.prelude@),
        match opt_decls_model(ar.declarations) {
            Some(ds) => Some(ds + nested_decls(kids_or_empty(opt_rules_model(ar.child_rules)))),
            None => None,
        },
        opt_conv_rules(opt_rules_model(ar.child_rules)),
    ));
    r
}

// ── style sheets ────────────────────────────────────────────────────

/// Converts the top-level rules; top-level declaration runs (a parse error
/// by CSS Syntax §5.5.1) are left out.
fn convert_rules(rules: &Vec<Rule>) -> (r: Vec<CssRule>)
    ensures
        css_rules_model(r@) == conv_rules(rules_model(rules@)),
{
    proof {
        lemma_rules_model(rules@);
    }
    let ghost m = rules_model(rules@);
    let mut css_rules: Vec<CssRule> = Vec::new();
    let mut i: usize = 0;
    while i < rules.len()
        invariant
            i <= rules@.len(),
            m == rules_model(rules@),
            m.len() == rules@.len(),
            forall|j: int| 0 <= j < rules@.len() ==> #[trigger] m[j] == rule_model(rules@[j]),
            css_rules_model(css_rules@) == conv_rules(m.take(i as int)),
        decreases rules@.len() - i,
    {
        assert(m.take(i + 1).drop_last() == m.take(i as int));
        assert(m.take(i + 1).last() == m[i as int]);
        let ghost old_rules = css_rules@;
        match &rules[i] {
            Rule::QualifiedRule(qr) => {
                let c = CssRule::Style(convert_qualified_rule(qr));
                css_rules.push(c);
                proof {
                    lemma_css_rules_model_push(old_rules, c);
                }
            },
            Rule::AtRule(ar) => {
                let c = convert_at_rule(ar);
                css_rules.push(c);
                proof {
                    lemma_css_rules_model_push(old_rules, c);
                }
            },
            Rule::Declarations(_) => {},
        }
        i = i + 1;
    }
    assert(m.take(rules@.len() as int) == m);
    css_rules
}

/// Converts a parsed style sheet with the given cascade origin; every other
/// sheet attribute takes its default.
pub fn from_stylesheet_with_origin(ss: &Stylesheet, origin: Origin) -> (r: CssStyleSheet)
    ensures
        r@ == default_sheet(origin, conv_rules(ss@)),
{
    let r = CssStyleSheet {
        origin,
        location: None,
        media: Vec::new(),
        title: String::new(),
        alternate: false,
        disabled: false,
        css_rules: convert_rules(&ss.rules),
    };
    assert(r@ =~= default_sheet(origin, conv_rules(ss@)));
    r
}

/// Converts a parsed style sheet as an author style sheet.
pub fn from_stylesheet(ss: &Stylesheet) -> (r: CssStyleSheet)
    ensures
        r@ == default_sheet(Origin::Author, conv_rules(ss@)),
{
    from_stylesheet_with_origin(ss, Origin::Author)
}

// ── laws ────────────────────────────────────────────────────────────

/// At-rule names are matched without regard to ASCII case: two at-rules
/// whose names differ only in ASCII case convert to rules of the same type,
/// and to the very same rule unless the name is unrecognised, in which case
/// each keeps its name as written and all else agrees.
pub proof fn law_at_rule_name_case_insensitive(
    n1: Seq<char>,
    n2: Seq<char>,
    prelude: Seq<ComponentValueModel>,
    decls: Option<Seq<DeclarationModel>>,
    kids: Option<Seq<RuleModel>>,
)
    requires
        eq_ignore_ascii_case(n1, n2),
    ensures
        rule_type_number(conv_rule(RuleModel::At(n1, prelude, decls, kids))) == rule_type_number(
            conv_rule(RuleModel::At(n2, prelude, decls, kids)),
        ),
        !(conv_rule(RuleModel::At(n1, prelude, decls, kids)) is Other) ==> conv_rule(
            RuleModel::At(n1, prelude, decls, kids),
        ) == conv_rule(RuleModel::At(n2, prelude, decls, kids)),
        conv_rule(RuleModel::At(n1, prelude, decls, kids)) matches CssRuleModel::Other(
            _,
            p,
            d,
            k,
        ) ==> conv_rule(RuleModel::At(n2, prelude, decls, kids)) == CssRuleModel::Other(n2, p, d, k),
{
}

/// Conversion treats each syntax rule on its own: converting two lists one
/// after the other gives the concatenation of their conversions.
pub proof fn law_conv_rules_append(s1: Seq<RuleModel>, s2: Seq<RuleModel>)
    ensures
        conv_rules(s1 + s2) == conv_rules(s1) + conv_rules(s2),
    decreases s2.len(),
{
    if s2.len() == 0 {
        assert(s1 + s2 =~= s1);
        assert(conv_rules(s1) + conv_rules(s2) =~= conv_rules(s1));
    } else {
        law_conv_rules_append(s1, s2.drop_last());
        assert((s1 + s2).drop_last() =~= s1 + s2.drop_last());
        assert((s1 + s2).last() == s2.last());
        match s2.last() {
            RuleModel::Declarations(_) => {},
            _ => {
                assert(conv_rules(s1) + conv_rules(s2) =~= (conv_rules(s1) + conv_rules(
                    s2.drop_last(),
                )).push(conv_rule(s2.last())));
            },
        }
    }
}

/// A run of bare declarations among a list of rules (at the top level of a
/// style sheet, or among the children of a grouping rule) is dropped: the
/// list converts as if it were not there.
pub proof fn law_declaration_runs_dropped(
    before: Seq<RuleModel>,
    ds: Seq<DeclarationModel>,
    after: Seq<RuleModel>,
)
    ensures
        conv_rules(before + seq![RuleModel::Declarations(ds)] + after) == conv_rules(
            before + after,
        ),
{
    let run = seq![RuleModel::Declarations(ds)];
    law_conv_rules_append(before + run, after);
    law_conv_rules_append(before, run);
    law_conv_rules_append(before, after);
    assert(run.drop_last() =~= Seq::<RuleModel>::empty());
    assert(conv_rules(run.drop_last()) =~= Seq::<CssRuleModel>::empty());
    assert(run.last() == RuleModel::Declarations(ds));
    assert(conv_rules(run) =~= Seq::<CssRuleModel>::empty());
    assert(conv_rules(before) + conv_rules(run) =~= conv_rules(before));
}

/// The declarations of a converted style rule are its own, followed by
/// those of the bare declaration runs among its children in order, so that
/// a nested declaration comes after (and wins over) an own declaration of
/// the same name; its child rules are the conversion of its children.
pub proof fn law_nested_declarations_follow_own(
    p: Seq<ComponentValueModel>,
    d: Seq<DeclarationModel>,
    c: Seq<RuleModel>,
)
    ensures
        conv_rule(RuleModel::Qualified(p, d, c)) == CssRuleModel::Style(
            p,
            StyleModel { declarations: d + nested_decls(c), readonly: false },
            conv_rules(c),
        ),
{
}

/// The nested declarations of a list of child rules are those of its
/// declaration runs, in order: a run gives its declarations, any other
/// rule none.
pub proof fn law_nested_decls(s1: Seq<RuleModel>, s2: Seq<RuleModel>, r: RuleModel)
    ensures
        nested_decls(s1 + s2) == nested_decls(s1) + nested_decls(s2),
        nested_decls(seq![r]) == match r {
            RuleModel::Declarations(ds) => ds,
            _ => seq![],
        },
    decreases s2.len(),
{
    if s2.len() == 0 {
        assert(s1 + s2 =~= s1);
        assert(nested_decls(s2) =~= Seq::<DeclarationModel>::empty());
        assert(nested_decls(s1) + nested_decls(s2) =~= nested_decls(s1));
    } else {
        law_nested_decls(s1, s2.drop_last(), r);
        assert((s1 + s2).drop_last() =~= s1 + s2.drop_last());
        assert((s1 + s2).last() == s2.last());
        assert(nested_decls(s1 + s2) =~= nested_decls(s1) + nested_decls(s2));
    }
    assert(seq![r].drop_last() =~= Seq::<RuleModel>::empty());
    assert(nested_decls(Seq::<RuleModel>::empty()) =~= Seq::<DeclarationModel>::empty());
    assert(nested_decls(seq![r]) =~= match r {
        RuleModel::Declarations(ds) => ds,
        _ => seq![],
    });
}

/// A list of one rule converts to that rule's conversion, or to nothing
/// when it is a run of declarations.
pub proof fn law_conv_rules_single(r: RuleModel)
    ensures
        conv_rules(seq![r]) == match r {
            RuleModel::Declarations(_) => Seq::<CssRuleModel>::empty(),
            _ => seq![conv_rule(r)],
        },
{
    assert(seq![r].drop_last() =~= Seq::<RuleModel>::empty());
    assert(seq![r].last() == r);
    assert(conv_rules(Seq::<RuleModel>::empty()) =~= Seq::<CssRuleModel>::empty());
    assert(conv_rules(seq![r]) =~= match r {
        RuleModel::Declarations(_) => Seq::<CssRuleModel>::empty(),
        _ => seq![conv_rule(r)],
    });
}

/// The keyframes of an `@keyframes` block: one per qualified child rule, in
/// order, with its prelude as key and its declarations in a writable block;
/// every other child gives none.
pub proof fn law_keyframes_of(s1: Seq<RuleModel>, s2: Seq<RuleModel>, r: RuleModel)
    ensures
        keyframes_of(s1 + s2) == keyframes_of(s1) + keyframes_of(s2),
        keyframes_of(seq![r]) == match r {
            RuleModel::Qualified(p, d, _) => seq![
                KeyframeModel { key_text: p, style: StyleModel { declarations: d, readonly: false } },
            ],
            _ => seq![],
        },
    decreases s2.len(),
{
    if s2.len() == 0 {
        assert(s1 + s2 =~= s1);
        assert(keyframes_of(s2) =~= Seq::<KeyframeModel>::empty());
        assert(keyframes_of(s1) + keyframes_of(s2) =~= keyframes_of(s1));
    } else {
        law_keyframes_of(s1, s2.drop_last(), r);
        assert((s1 + s2).drop_last() =~= s1 + s2.drop_last());
        assert((s1 + s2).last() == s2.last());
        assert(keyframes_of(s1 + s2) =~= keyframes_of(s1) + keyframes_of(s2));
    }
    assert(seq![r].drop_last() =~= Seq::<RuleModel>::empty());
    assert(keyframes_of(Seq::<RuleModel>::empty()) =~= Seq::<KeyframeModel>::empty());
    assert(keyframes_of(seq![r]) =~= match r {
        RuleModel::Qualified(p, d, _) => seq![
            KeyframeModel { key_text: p, style: StyleModel { declarations: d, readonly: false } },
        ],
        _ => seq![],
    });
}

/// How an at-rule converts, by its name up to ASCII case: grouping rules
/// keep the prelude as condition and convert their children; descriptor
/// rules (`@font-face`, `@page`, `@counter-style`, `@property`) keep their
/// declarations, in order, in a writable block (none for a statement);
/// `@layer` gives a block rule with the converted children when it has a
/// block and a statement otherwise; `@import`, `@namespace` and
/// `@keyframes` give rules of their type; any other name gives an
/// unrecognised rule that keeps the name as written, the prelude, the
/// declarations followed by those of nested runs, and the converted
/// children.
pub proof fn law_at_rule_conversion(
    name: Seq<char>,
    prelude: Seq<ComponentValueModel>,
    decls: Option<Seq<DeclarationModel>>,
    kids: Option<Seq<RuleModel>>,
)
    ensures
        ({
            let r = conv_rule(RuleModel::At(name, prelude, decls, kids));
            let n = ascii_lower_seq(name);
            let block = StyleModel {
                declarations: match decls {
                    Some(d) => d,
                    None => seq![],
                },
                readonly: false,
            };
            let children: Seq<CssRuleModel> = match kids {
                Some(k) => conv_rules(k),
                None => seq![],
            };
            let ident_name: Seq<char> = match first_ident(prelude) {
                Some(x) => x,
                None => seq![],
            };
            &&& n == "media"@ ==> r == CssRuleModel::Media(prelude, children)
            &&& n == "supports"@ ==> r == CssRuleModel::Supports(prelude, children)
            &&& n == "container"@ ==> r == CssRuleModel::Container(prelude, children)
            &&& n == "scope"@ ==> r == CssRuleModel::Scope(prelude, children)
            &&& n == "font-face"@ ==> r == CssRuleModel::FontFace(block)
            &&& n == "page"@ ==> r == CssRuleModel::Page(prelude, block)
            &&& n == "counter-style"@ ==> r == CssRuleModel::CounterStyle(ident_name, block)
            &&& n == "property"@ ==> r == CssRuleModel::Property(ident_name, block)
            &&& n == "layer"@ ==> (if kids is Some {
                r == CssRuleModel::LayerBlock(
                    if dotted_layer_names(prelude).len() > 0 {
                        Some(dotted_layer_names(prelude)[0])
                    } else {
                        None
                    },
                    children,
                )
            } else {
                r == CssRuleModel::LayerStatement(dotted_layer_names(prelude))
            })
            &&& n == "import"@ ==> r == CssRuleModel::Import(
                import_scan(prelude).1,
                trim_ws_tokens(import_scan(prelude).2),
            )
            &&& n == "namespace"@ ==> r == CssRuleModel::Namespace(
                match last_url(prelude) {
                    Some(u) => u,
                    None => seq![],
                },
                first_ident(prelude),
            )
            &&& n == "keyframes"@ ==> r == CssRuleModel::Keyframes(
                first_ident(prelude),
                keyframes_of(
                    match kids {
                        Some(k) => k,
                        None => seq![],
                    },
                ),
            )
            &&& (n != "media"@ && n != "supports"@ && n != "container"@ && n != "scope"@ && n
                != "font-face"@ && n != "page"@ && n != "counter-style"@ && n != "property"@ && n
                != "layer"@ && n != "import"@ && n != "namespace"@ && n != "keyframes"@) ==> r
                == CssRuleModel::Other(
                name,
                prelude,
                match decls {
                    Some(d) => Some(d + nested_decls(match kids {
                        Some(k) => k,
                        None => seq![],
                    })),
                    None => None,
                },
                children,
            )
        }),
{
    reveal_strlit("import");
    reveal_strlit("media");
    reveal_strlit("font-face");
    reveal_strlit("page");
    reveal_strlit("keyframes");
    reveal_strlit("namespace");
    reveal_strlit("counter-style");
    reveal_strlit("supports");
    reveal_strlit("layer");
    reveal_strlit("container");
    reveal_strlit("property");
    reveal_strlit("scope");
    assert(opt_conv_rules(kids) == match kids {
        Some(k) => conv_rules(k),
        None => Seq::<CssRuleModel>::empty(),
    });
    // The recognised names differ in length or in their first character.
    let n = ascii_lower_seq(name);
    if n == "media"@ || n == "supports"@ || n == "container"@ || n == "scope"@ || n == "font-face"@
        || n == "page"@ || n == "counter-style"@ || n == "property"@ || n == "layer"@ || n
        == "import"@ || n == "namespace"@ || n == "keyframes"@ {
        assert(n.len() >= 4);
        let (l, c) = (n.len(), n[0]);
        assert(l == "media"@.len() && c == "media"@[0] ==> n == "media"@);
        assert(l == "supports"@.len() && c == "supports"@[0] ==> n == "supports"@);
        assert(l == "container"@.len() && c == "container"@[0] ==> n == "container"@);
        assert(l == "scope"@.len() && c == "scope"@[0] ==> n == "scope"@);
        assert(l == "font-face"@.len() && c == "font-face"@[0] ==> n == "font-face"@);
        assert(l == "page"@.len() && c == "page"@[0] ==> n == "page"@);
        assert(l == "counter-style"@.len() && c == "counter-style"@[0] ==> n == "counter-style"@);
        assert(l == "property"@.len() && c == "property"@[0] ==> n == "property"@);
        assert(l == "layer"@.len() && c == "layer"@[0] ==> n == "layer"@);
        assert(l == "import"@.len() && c == "import"@[0] ==> n == "import"@);
        assert(l == "namespace"@.len() && c == "namespace"@[0] ==> n == "namespace"@);
        assert(l == "keyframes"@.len() && c == "keyframes"@[0] ==> n == "keyframes"@);
    }
}

/// The name of the first ident token among `s1 + s2` is that of `s1` when
/// it holds one, else that of `s2`; an ident token is its own first ident,
/// any other value has none.
pub proof fn law_first_ident(s1: Seq<ComponentValueModel>, s2: Seq<ComponentValueModel>, m: ComponentValueModel)
    ensures
        first_ident(s1 + s2) == if first_ident(s1) is Some {
            first_ident(s1)
        } else {
            first_ident(s2)
        },
        first_ident(seq![m]) == match m {
            ComponentValueModel::Token(Token::Ident(x)) => Some(x@),
            _ => None,
        },
        first_ident(Seq::<ComponentValueModel>::empty()) is None,
    decreases s2.len(),
{
    if s2.len() == 0 {
        assert(s1 + s2 =~= s1);
    } else {
        law_first_ident(s1, s2.drop_last(), m);
        assert((s1 + s2).drop_last() =~= s1 + s2.drop_last());
        assert((s1 + s2).last() == s2.last());
    }
    assert(seq![m].drop_last() =~= Seq::<ComponentValueModel>::empty());
}

/// The string or URL that a component value holds: a string token, a URL
/// token, or a function named `url` (up to ASCII case) whose only argument
/// is a string token.
pub proof fn law_url_of(m: ComponentValueModel)
    ensures
        url_of(m) == match m {
            ComponentValueModel::Token(Token::String(x)) => Some(x@),
            ComponentValueModel::Token(Token::Url(x)) => Some(x@),
            ComponentValueModel::Function(name, args) => if ascii_lower_seq(name) == ascii_lower_seq(
                "url"@,
            ) && args.len() == 1 {
                match args[0] {
                    ComponentValueModel::Token(Token::String(x)) => Some(x@),
                    _ => None,
                }
            } else {
                None
            },
            _ => None,
        },
{
}

/// The last string or URL among `s1 + s2` is that of `s2` when it holds
/// one, else that of `s1`; a single value holds the one [`url_of`] gives.
pub proof fn law_last_url(s1: Seq<ComponentValueModel>, s2: Seq<ComponentValueModel>, m: ComponentValueModel)
    ensures
        last_url(s1 + s2) == if last_url(s2) is Some {
            last_url(s2)
        } else {
            last_url(s1)
        },
        last_url(seq![m]) == url_of(m),
        last_url(Seq::<ComponentValueModel>::empty()) is None,
    decreases s2.len(),
{
    if s2.len() == 0 {
        assert(s1 + s2 =~= s1);
    } else {
        law_last_url(s1, s2.drop_last(), m);
        assert((s1 + s2).drop_last() =~= s1 + s2.drop_last());
        assert((s1 + s2).last() == s2.last());
    }
    assert(seq![m].drop_last() =~= Seq::<ComponentValueModel>::empty());
}

/// Reading an `@import` prelude: once the first string or URL is found it
/// is the href and everything after it is media; before that nothing is
/// kept.
pub proof fn law_import_scan(s1: Seq<ComponentValueModel>, s2: Seq<ComponentValueModel>, m: ComponentValueModel)
    ensures
        import_scan(s1 + s2) == if import_scan(s1).0 {
            (true, import_scan(s1).1, import_scan(s1).2 + s2)
        } else {
            import_scan(s2)
        },
        import_scan(seq![m]) == match url_of(m) {
            Some(u) => (true, u, Seq::<ComponentValueModel>::empty()),
            None => (false, Seq::<char>::empty(), Seq::<ComponentValueModel>::empty()),
        },
        import_scan(Seq::<ComponentValueModel>::empty()) == (false, Seq::<char>::empty(), Seq::<ComponentValueModel>::empty()),
    decreases s2.len(),
{
    assert(seq![m].drop_last() =~= Seq::<ComponentValueModel>::empty());
    assert(seq![m].last() == m);
    assert(import_scan(Seq::<ComponentValueModel>::empty()) == (false, Seq::<char>::empty(), Seq::<ComponentValueModel>::empty()));
    assert(import_scan(seq![m]) == match url_of(m) {
        Some(u) => (true, u, Seq::<ComponentValueModel>::empty()),
        None => (false, Seq::<char>::empty(), Seq::<ComponentValueModel>::empty()),
    });
    if s2.len() == 0 {
        assert(s1 + s2 =~= s1);
        assert(import_scan(s1).2 + s2 =~= import_scan(s1).2);
    } else {
        law_import_scan(s1, s2.drop_last(), m);
        assert((s1 + s2).drop_last() =~= s1 + s2.drop_last());
        assert((s1 + s2).last() == s2.last());
        if import_scan(s1).0 {
            assert((import_scan(s1).2 + s2.drop_last()).push(s2.last()) =~= import_scan(s1).2 + s2);
        }
    }
}

/// Trimming whitespace tokens: whitespace on either side of a core that
/// starts and ends with something else is removed, and the core is kept
/// as it is; a list of nothing but whitespace trims to nothing.
pub proof fn law_trim_ws_tokens(a: Seq<ComponentValueModel>, core: Seq<ComponentValueModel>, b: Seq<ComponentValueModel>)
    requires
        forall|i: int| 0 <= i < a.len() ==> #[trigger] a[i] == ComponentValueModel::Token(Token::Whitespace),
        forall|i: int| 0 <= i < b.len() ==> #[trigger] b[i] == ComponentValueModel::Token(Token::Whitespace),
        core.len() > 0 ==> core[0] != ComponentValueModel::Token(Token::Whitespace) && core.last()
            != ComponentValueModel::Token(Token::Whitespace),
    ensures
        trim_ws_tokens(a + core + b) == core,
{
    let s = a + core + b;
    let k: int = (a.len() + core.len()) as int;
    if core.len() > 0 {
        assert forall|j: int| k <= j < s.len() implies is_ws_token(#[trigger] s[j]) by {
            assert(s[j] == b[j - k]);
        }
        assert(s[k - 1] == core.last());
        lemma_trim_ws_end_take(s, k);
        let t = s.take(k);
        assert forall|j: int| 0 <= j < a.len() implies is_ws_token(#[trigger] t[j]) by {
            assert(t[j] == a[j]);
        }
        assert(t[a.len() as int] == core[0]);
        lemma_trim_ws_start_skip(t, a.len() as int);
        assert(t.skip(a.len() as int) =~= core);
    } else {
        assert forall|j: int| 0 <= j < s.len() implies is_ws_token(#[trigger] s[j]) by {
            if j < a.len() {
                assert(s[j] == a[j]);
            } else {
                assert(s[j] == b[j - a.len()]);
            }
        }
        lemma_trim_ws_end_take(s, 0);
        assert(s.take(0) =~= Seq::<ComponentValueModel>::empty());
        lemma_trim_ws_start_skip(Seq::<ComponentValueModel>::empty(), 0);
        assert(Seq::<ComponentValueModel>::empty().skip(0) =~= core);
    }
}

/// The text of one `@layer` name: its ident tokens and `.` delimiters,
/// concatenated; everything else is left out.
pub open spec fn layer_text(s: Seq<ComponentValueModel>) -> Seq<char>
    decreases s.len(),
{
    if s.len() == 0 {
        seq![]
    } else {
        layer_text(s.drop_last()) + match s.last() {
            ComponentValueModel::Token(Token::Ident(x)) => x@,
            ComponentValueModel::Token(Token::Delim(c)) => if c == '.' {
                seq!['.']
            } else {
                seq![]
            },
            _ => seq![],
        }
    }
}

/// Whether a list holds no comma token.
pub open spec fn no_comma(s: Seq<ComponentValueModel>) -> bool {
    forall|i: int| 0 <= i < s.len() ==> #[trigger] s[i] != ComponentValueModel::Token(Token::Comma)
}

proof fn lemma_layer_scan_no_comma(s: Seq<ComponentValueModel>)
    requires
        no_comma(s),
    ensures
        layer_scan(s) == (Seq::<Seq<char>>::empty(), layer_text(s)),
    decreases s.len(),
{
    if s.len() > 0 {
        assert(no_comma(s.drop_last())) by {
            assert forall|i: int| 0 <= i < s.drop_last().len() implies #[trigger] s.drop_last()[i]
                != ComponentValueModel::Token(Token::Comma) by {
                assert(s.drop_last()[i] == s[i]);
            }
        }
        lemma_layer_scan_no_comma(s.drop_last());
        assert(s.last() == s[s.len() - 1]);
    }
}

proof fn lemma_layer_scan_after_comma(a: Seq<ComponentValueModel>, b: Seq<ComponentValueModel>)
    requires
        layer_scan(a).1.len() == 0,
    ensures
        layer_scan(a + b) == (layer_scan(a).0 + layer_scan(b).0, layer_scan(b).1),
    decreases b.len(),
{
    if b.len() == 0 {
        assert(a + b =~= a);
        assert(layer_scan(a).0 + layer_scan(b).0 =~= layer_scan(a).0);
    } else {
        lemma_layer_scan_after_comma(a, b.drop_last());
        assert((a + b).drop_last() =~= a + b.drop_last());
        assert((a + b).last() == b.last());
        let (n1, c1) = layer_scan(b.drop_last());
        assert((layer_scan(a).0 + n1).push(c1) =~= layer_scan(a).0 + n1.push(c1));
    }
}

/// The `@layer` names: the text before the first comma is the first name
/// (ident tokens and `.` delimiters, concatenated), followed by the names
/// after it; a prelude with no comma holds one name, or none when that text
/// is empty.
pub proof fn law_layer_names(s1: Seq<ComponentValueModel>, s2: Seq<ComponentValueModel>)
    requires
        no_comma(s1),
    ensures
        dotted_layer_names(s1 + seq![ComponentValueModel::Token(Token::Comma)] + s2) == seq![
            layer_text(s1),
        ] + dotted_layer_names(s2),
        dotted_layer_names(s1) == if layer_text(s1).len() > 0 {
            seq![layer_text(s1)]
        } else {
            Seq::<Seq<char>>::empty()
        },
{
    lemma_layer_scan_no_comma(s1);
    let comma = seq![ComponentValueModel::Token(Token::Comma)];
    let a = s1 + comma;
    assert(a.drop_last() =~= s1);
    assert(a.last() == ComponentValueModel::Token(Token::Comma));
    assert(layer_scan(a) == (seq![layer_text(s1)], Seq::<char>::empty()));
    lemma_layer_scan_after_comma(a, s2);
    let (n2, c2) = layer_scan(s2);
    assert((seq![layer_text(s1)] + n2).push(c2) =~= seq![layer_text(s1)] + n2.push(c2));
    assert(seq![layer_text(s1)] =~= Seq::<Seq<char>>::empty().push(layer_text(s1)));
}

} // verus!
