//! CSSOM §8.4 CSS rules: one enum over the concrete rule types, each with its
//! mathematical model.

use vstd::prelude::*;

use crate::declaration::{copy_css_declarations, css_decls_model, CssDeclaration, CssStyleDeclaration, StyleModel};
use crate::syntax::{copy_component_values, cvs_model, ComponentValue, ComponentValueModel, DeclarationModel};

verus! {

/// §8.4: a CSS rule, one variant per concrete rule type.
#[derive(Debug)]
pub enum CssRule {
    /// CSSStyleRule (type 1).
    Style(CssStyleRule),
    /// CSSImportRule (type 3).
    Import(CssImportRule),
    /// CSSMediaRule (type 4).
    Media(CssMediaRule),
    /// CSSFontFaceRule (type 5).
    FontFace(CssFontFaceRule),
    /// CSSPageRule (type 6).
    Page(CssPageRule),
    /// CSSKeyframesRule (type 7).
    Keyframes(CssKeyframesRule),
    /// CSSKeyframeRule (type 8).
    Keyframe(CssKeyframeRule),
    /// CSSNamespaceRule (type 10).
    Namespace(CssNamespaceRule),
    /// CSSCounterStyleRule (type 11).
    CounterStyle(CssCounterStyleRule),
    /// CSSSupportsRule (type 12).
    Supports(CssSupportsRule),
    /// CSSContainerRule (type 15).
    Container(CssContainerRule),
    /// CSSLayerBlockRule (type 16).
    LayerBlock(CssLayerBlockRule),
    /// CSSLayerStatementRule (type 17).
    LayerStatement(CssLayerStatementRule),
    /// CSSPropertyRule (type 18).
    Property(CssPropertyRule),
    /// CSSScopeRule (type 19).
    Scope(CssScopeRule),
    /// An at-rule that is not recognised, kept with prelude and block.
    Other(OtherRule),
}

/// CSSStyleRule: selectors, declaration block, nested rules.
#[derive(Debug)]
pub struct CssStyleRule {
    /// The selector prelude, as component values.
    pub selectors: Vec<ComponentValue>,
    /// The declaration block.
    pub style: CssStyleDeclaration,
    /// Nested rules (CSS nesting).
    pub css_rules: Vec<CssRule>,
}

/// CSSImportRule: the imported URL and its media list.
#[derive(Debug)]
pub struct CssImportRule {
    /// The URL.
    pub href: String,
    /// The media query, as component values.
    pub media: Vec<ComponentValue>,
}

/// CSSMediaRule: condition and child rules.
#[derive(Debug)]
pub struct CssMediaRule {
    /// The media condition, as component values.
    pub condition: Vec<ComponentValue>,
    /// The child rules.
    pub css_rules: Vec<CssRule>,
}

/// CSSNamespaceRule: namespace URI and optional prefix.
#[derive(Debug)]
pub struct CssNamespaceRule {
    /// The namespace URI.
    pub namespace_uri: String,
    /// The prefix; `None` for the default namespace.
    pub prefix: Option<String>,
}

/// CSSSupportsRule: condition and child rules.
#[derive(Debug)]
pub struct CssSupportsRule {
    /// The supports condition, as component values.
    pub condition: Vec<ComponentValue>,
    /// The child rules.
    pub css_rules: Vec<CssRule>,
}

/// CSSLayerBlockRule: optional layer name and child rules.
#[derive(Debug)]
pub struct CssLayerBlockRule {
    /// The layer name; `None` for an anonymous layer.
    pub name: Option<String>,
    /// The child rules.
    pub css_rules: Vec<CssRule>,
}

/// CSSLayerStatementRule: the declared layer names.
#[derive(Debug)]
pub struct CssLayerStatementRule {
    /// The layer names, in order.
    pub names: Vec<String>,
}

/// CSSContainerRule: condition and child rules.
#[derive(Debug)]
pub struct CssContainerRule {
    /// The container condition, as component values.
    pub condition: Vec<ComponentValue>,
    /// The child rules.
    pub css_rules: Vec<CssRule>,
}

/// CSSFontFaceRule: the descriptors.
#[derive(Debug)]
pub struct CssFontFaceRule {
    /// The descriptors (font-family, src, ...).
    pub style: CssStyleDeclaration,
}

/// CSSPageRule: page selector and descriptors.
#[derive(Debug)]
pub struct CssPageRule {
    /// The page selector (empty for an unnamed page).
    pub selectors: Vec<ComponentValue>,
    /// The page descriptors.
    pub style: CssStyleDeclaration,
}

/// CSSKeyframesRule: animation name and keyframes.
#[derive(Debug)]
pub struct CssKeyframesRule {
    /// The animation name.
    pub name: Option<String>,
    /// The keyframe blocks.
    pub keyframes: Vec<CssKeyframeRule>,
}

/// CSSKeyframeRule: keyframe selector and declarations.
#[derive(Debug)]
pub struct CssKeyframeRule {
    /// The keyframe selector (`from`, `to`, `50%`, ...).
    pub key_text: Vec<ComponentValue>,
    /// The declarations.
    pub style: CssStyleDeclaration,
}

/// CSSCounterStyleRule: counter style name and descriptors.
#[derive(Debug)]
pub struct CssCounterStyleRule {
    /// The counter style name.
    pub name: String,
    /// The descriptors.
    pub style: CssStyleDeclaration,
}

/// CSSPropertyRule: registered custom property name and descriptors.
#[derive(Debug)]
pub struct CssPropertyRule {
    /// The custom property name (such as `--foo`).
    pub name: String,
    /// The descriptors (syntax, inherits, initial-value).
    pub style: CssStyleDeclaration,
}

/// CSSScopeRule: scope prelude and child rules.
#[derive(Debug)]
pub struct CssScopeRule {
    /// The prelude (`(start) to (end)`).
    pub prelude: Vec<ComponentValue>,
    /// The child rules.
    pub css_rules: Vec<CssRule>,
}

/// An unrecognised at-rule, kept with its prelude and block.
#[derive(Debug)]
pub struct OtherRule {
    /// The name, without `@`.
    pub name: String,
    /// The prelude.
    pub prelude: Vec<ComponentValue>,
    /// The declarations of a block at-rule; `None` for a statement at-rule.
    pub declarations: Option<Vec<CssDeclaration>>,
    /// The child rules of a block at-rule.
    pub child_rules: Vec<CssRule>,
}

// ── models ──────────────────────────────────────────────────────────

/// The mathematical value of a keyframe rule.
pub struct KeyframeModel {
    /// The keyframe selector.
    pub key_text: Seq<ComponentValueModel>,
    /// The declarations.
    pub style: StyleModel,
}

/// The mathematical value of a CSS rule.
pub enum CssRuleModel {
    /// Selectors, declarations, nested rules.
    Style(Seq<ComponentValueModel>, StyleModel, Seq<CssRuleModel>),
    /// URL, media.
    Import(Seq<char>, Seq<ComponentValueModel>),
    /// Condition, child rules.
    Media(Seq<ComponentValueModel>, Seq<CssRuleModel>),
    /// Descriptors.
    FontFace(StyleModel),
    /// Page selector, descriptors.
    Page(Seq<ComponentValueModel>, StyleModel),
    /// Name, keyframes.
    Keyframes(Option<Seq<char>>, Seq<KeyframeModel>),
    /// One keyframe.
    Keyframe(KeyframeModel),
    /// Namespace URI, prefix.
    Namespace(Seq<char>, Option<Seq<char>>),
    /// Name, descriptors.
    CounterStyle(Seq<char>, StyleModel),
    /// Condition, child rules.
    Supports(Seq<ComponentValueModel>, Seq<CssRuleModel>),
    /// Condition, child rules.
    Container(Seq<ComponentValueModel>, Seq<CssRuleModel>),
    /// Layer name, child rules.
    LayerBlock(Option<Seq<char>>, Seq<CssRuleModel>),
    /// Layer names.
    LayerStatement(Seq<Seq<char>>),
    /// Name, descriptors.
    Property(Seq<char>, StyleModel),
    /// Prelude, child rules.
    Scope(Seq<ComponentValueModel>, Seq<CssRuleModel>),
    /// Name, prelude, block declarations, child rules.
    Other(Seq<char>, Seq<ComponentValueModel>, Option<Seq<DeclarationModel>>, Seq<CssRuleModel>),
}

/// The view of an optional string.
pub open spec fn opt_seq(o: Option<String>) -> Option<Seq<char>> {
    match o {
        Some(s) => Some(s@),
        None => None,
    }
}

/// The model of a keyframe rule.
pub open spec fn keyframe_model(k: CssKeyframeRule) -> KeyframeModel {
    KeyframeModel { key_text: cvs_model(k.key_text@), style: k.style@ }
}

/// The models of a list of keyframe rules.
pub open spec fn keyframes_model(s: Seq<CssKeyframeRule>) -> Seq<KeyframeModel> {
    s.map_values(|k: CssKeyframeRule| keyframe_model(k))
}

/// The views of a list of strings.
pub open spec fn strings_model(s: Seq<String>) -> Seq<Seq<char>> {
    s.map_values(|n: String| n@)
}

/// The model of a CSS rule.
pub open spec fn css_rule_model(r: CssRule) -> CssRuleModel
    decreases r,
{
    match r {
        CssRule::Style(x) => CssRuleModel::Style(
            cvs_model(x.selectors@),
            x.style@,
            css_rules_model(x.css_rules@),
        ),
        CssRule::Import(x) => CssRuleModel::Import(x.href@, cvs_model(x.media@)),
        CssRule::Media(x) => CssRuleModel::Media(
            cvs_model(x.condition@),
            css_rules_model(x.css_rules@),
        ),
        CssRule::FontFace(x) => CssRuleModel::FontFace(x.style@),
        CssRule::Page(x) => CssRuleModel::Page(cvs_model(x.selectors@), x.style@),
        CssRule::Keyframes(x) => CssRuleModel::Keyframes(
            opt_seq(x.name),
            keyframes_model(x.keyframes@),
        ),
        CssRule::Keyframe(x) => CssRuleModel::Keyframe(keyframe_model(x)),
        CssRule::Namespace(x) => CssRuleModel::Namespace(x.namespace_uri@, opt_seq(x.prefix)),
        CssRule::CounterStyle(x) => CssRuleModel::CounterStyle(x.name@, x.style@),
        CssRule::Supports(x) => CssRuleModel::Supports(
            cvs_model(x.condition@),
            css_rules_model(x.css_rules@),
        ),
        CssRule::Container(x) => CssRuleModel::Container(
            cvs_model(x.condition@),
            css_rules_model(x.css_rules@),
        ),
        CssRule::LayerBlock(x) => CssRuleModel::LayerBlock(
            opt_seq(x.name),
            css_rules_model(x.css_rules@),
        ),
        CssRule::LayerStatement(x) => CssRuleModel::LayerStatement(strings_model(x.names@)),
        CssRule::Property(x) => CssRuleModel::Property(x.name@, x.style@),
        CssRule::Scope(x) => CssRuleModel::Scope(
            cvs_model(x.prelude@),
            css_rules_model(x.css_rules@),
        ),
        CssRule::Other(x) => CssRuleModel::Other(
            x.name@,
            cvs_model(x.prelude@),
            match x.declarations {
                Some(d) => Some(css_decls_model(d@)),
                None => None,
            },
            css_rules_model(x.child_rules@),
        ),
    }
}

/// The models of a list of CSS rules.
pub open spec fn css_rules_model(s: Seq<CssRule>) -> Seq<CssRuleModel>
    decreases s,
{
    if s.len() == 0 {
        seq![]
    } else {
        css_rules_model(s.drop_last()).push(css_rule_model(s.last()))
    }
}

impl View for CssRule {
    type V = CssRuleModel;

    open spec fn view(&self) -> CssRuleModel {
        css_rule_model(*self)
    }
}

/// The model of a list has one model per rule, in order.
pub proof fn lemma_css_rules_model(s: Seq<CssRule>)
    ensures
        css_rules_model(s).len() == s.len(),
        forall|i: int| 0 <= i < s.len() ==> #[trigger] css_rules_model(s)[i] == css_rule_model(s[i]),
    decreases s.len(),
{
    if s.len() > 0 {
        lemma_css_rules_model(s.drop_last());
    }
}

/// Taking one more rule extends the model by that rule's model.
pub proof fn lemma_css_rules_model_take(s: Seq<CssRule>, i: int)
    requires
        0 <= i < s.len(),
    ensures
        css_rules_model(s.take(i + 1)) == css_rules_model(s.take(i)).push(css_rule_model(s[i])),
{
    assert(s.take(i + 1).drop_last() == s.take(i));
}

/// Appending a rule extends the model by that rule's model.
pub proof fn lemma_css_rules_model_push(s: Seq<CssRule>, r: CssRule)
    ensures
        css_rules_model(s.push(r)) == css_rules_model(s).push(css_rule_model(r)),
{
    assert(s.push(r).drop_last() == s);
}

// ── rule type and children ──────────────────────────────────────────

/// §8.4 the `type` constant of a rule; 0 for rules that have none.
pub open spec fn rule_type_number(m: CssRuleModel) -> u16 {
    match m {
        CssRuleModel::Style(..) => 1,
        CssRuleModel::Import(..) => 3,
        CssRuleModel::Media(..) => 4,
        CssRuleModel::FontFace(..) => 5,
        CssRuleModel::Page(..) => 6,
        CssRuleModel::Keyframes(..) => 7,
        CssRuleModel::Keyframe(..) => 8,
        CssRuleModel::Namespace(..) => 10,
        CssRuleModel::CounterStyle(..) => 11,
        CssRuleModel::Supports(..) => 12,
        CssRuleModel::Container(..) => 15,
        CssRuleModel::LayerBlock(..) => 16,
        CssRuleModel::LayerStatement(..) => 17,
        CssRuleModel::Property(..) => 18,
        CssRuleModel::Scope(..) => 19,
        CssRuleModel::Other(..) => 0,
    }
}

/// Whether a rule holds child rules: the nested rules of grouping and style
/// rules, the keyframes of a keyframes rule, the child rules of an
/// unrecognised at-rule.
pub open spec fn rule_has_children(m: CssRuleModel) -> bool {
    match m {
        CssRuleModel::Style(_, _, rs) => rs.len() != 0,
        CssRuleModel::Media(_, rs) => rs.len() != 0,
        CssRuleModel::Supports(_, rs) => rs.len() != 0,
        CssRuleModel::Container(_, rs) => rs.len() != 0,
        CssRuleModel::LayerBlock(_, rs) => rs.len() != 0,
        CssRuleModel::Scope(_, rs) => rs.len() != 0,
        CssRuleModel::Keyframes(_, ks) => ks.len() != 0,
        CssRuleModel::Other(_, _, _, rs) => rs.len() != 0,
        _ => false,
    }
}

impl CssRule {
    /// §8.4 the rule type constant (the CSSRule.type IDL attribute); 0 for
    /// unrecognised at-rules.
    pub fn type_id(&self) -> (t: u16)
        ensures
            t == rule_type_number(self@),
    {
        match self {
            CssRule::Style(_) => 1,
            CssRule::Import(_) => 3,
            CssRule::Media(_) => 4,
            CssRule::FontFace(_) => 5,
            CssRule::Page(_) => 6,
            CssRule::Keyframes(_) => 7,
            CssRule::Keyframe(_) => 8,
            CssRule::Namespace(_) => 10,
            CssRule::CounterStyle(_) => 11,
            CssRule::Supports(_) => 12,
            CssRule::Container(_) => 15,
            CssRule::LayerBlock(_) => 16,
            CssRule::LayerStatement(_) => 17,
            CssRule::Property(_) => 18,
            CssRule::Scope(_) => 19,
            CssRule::Other(_) => 0,
        }
    }

    /// Whether the rule holds child rules (or keyframes).
    pub fn has_child_rules(&self) -> (b: bool)
        ensures
            b == rule_has_children(self@),
    {
        proof {
            match self {
                CssRule::Style(r) => lemma_css_rules_model(r.css_rules@),
                CssRule::Media(r) => lemma_css_rules_model(r.css_rules@),
                CssRule::Supports(r) => lemma_css_rules_model(r.css_rules@),
                CssRule::Container(r) => lemma_css_rules_model(r.css_rules@),
                CssRule::LayerBlock(r) => lemma_css_rules_model(r.css_rules@),
                CssRule::Scope(r) => lemma_css_rules_model(r.css_rules@),
                CssRule::Other(r) => lemma_css_rules_model(r.child_rules@),
                _ => {},
            }
        }
        match self {
            CssRule::Style(r) => r.css_rules.len() != 0,
            CssRule::Media(r) => r.css_rules.len() != 0,
            CssRule::Supports(r) => r.css_rules.len() != 0,
            CssRule::Container(r) => r.css_rules.len() != 0,
            CssRule::LayerBlock(r) => r.css_rules.len() != 0,
            CssRule::Scope(r) => r.css_rules.len() != 0,
            CssRule::Keyframes(r) => r.keyframes.len() != 0,
            CssRule::Other(r) => r.child_rules.len() != 0,
            CssRule::Import(_)
            | CssRule::FontFace(_)
            | CssRule::Page(_)
            | CssRule::Keyframe(_)
            | CssRule::Namespace(_)
            | CssRule::CounterStyle(_)
            | CssRule::LayerStatement(_)
            | CssRule::Property(_) => false,
        }
    }
}

impl CssStyleRule {
    /// A style rule with the given selectors, an empty declaration block and
    /// no nested rules.
    pub fn new(selectors: Vec<ComponentValue>) -> (r: Self)
        ensures
            r.selectors == selectors,
            r.style.declarations@.len() == 0,
            !r.style.readonly,
            r.css_rules@.len() == 0,
    {
        CssStyleRule { selectors, style: CssStyleDeclaration::new(), css_rules: Vec::new() }
    }
}

// ── copies ──────────────────────────────────────────────────────────

/// Copies a declaration block; the copy has the same model.
pub fn copy_style(s: &CssStyleDeclaration) -> (r: CssStyleDeclaration)
    ensures
        r@ == s@,
{
    CssStyleDeclaration { declarations: copy_css_declarations(&s.declarations), readonly: s.readonly }
}

/// Copies an optional string.
pub fn copy_opt(o: &Option<String>) -> (r: Option<String>)
    ensures
        opt_seq(r) == opt_seq(*o),
{
    match o {
        Some(s) => Some(s.clone()),
        None => None,
    }
}

/// Copies a keyframe rule; the copy has the same model.
pub fn copy_keyframe(k: &CssKeyframeRule) -> (r: CssKeyframeRule)
    ensures
        keyframe_model(r) == keyframe_model(*k),
{
    CssKeyframeRule { key_text: copy_component_values(&k.key_text), style: copy_style(&k.style) }
}

fn copy_keyframes(v: &Vec<CssKeyframeRule>) -> (r: Vec<CssKeyframeRule>)
    ensures
        keyframes_model(r@) == keyframes_model(v@),
{
    let mut r: Vec<CssKeyframeRule> = Vec::new();
    let mut i: usize = 0;
    while i < v.len()
        invariant
            i <= v@.len(),
            keyframes_model(r@) == keyframes_model(v@.take(i as int)),
        decreases v@.len() - i,
    {
        let ghost old_r = r@;
        r.push(copy_keyframe(&v[i]));
        assert(keyframes_model(old_r).len() == keyframes_model(v@.take(i as int)).len());
        assert(keyframes_model(r@) =~= keyframes_model(v@.take(i + 1))) by {
            assert forall|j: int| 0 <= j < i implies keyframes_model(r@)[j] == keyframes_model(
                v@.take(i + 1),
            )[j] by {
                assert(keyframes_model(old_r)[j] == keyframes_model(v@.take(i as int))[j]);
            }
        }
        i = i + 1;
    }
    assert(v@.take(v@.len() as int) == v@);
    r
}

fn copy_strings(v: &Vec<String>) -> (r: Vec<String>)
    ensures
        r@ == v@,
{
    let mut r: Vec<String> = Vec::new();
    let mut i: usize = 0;
    while i < v.len()
        invariant
            i <= v@.len(),
            r@ == v@.take(i as int),
        decreases v@.len() - i,
    {
        r.push(v[i].clone());
        assert(r@ =~= v@.take(i + 1));
        i = i + 1;
    }
    assert(v@.take(v@.len() as int) == v@);
    r
}

/// Copies a CSS rule; the copy has the same model.
pub fn copy_css_rule(r: &CssRule) -> (c: CssRule)
    ensures
        c@ == r@,
    decreases r,
{
    match r {
        CssRule::Style(x) => CssRule::Style(
            CssStyleRule {
                selectors: copy_component_values(&x.selectors),
                style: copy_style(&x.style),
                css_rules: copy_css_rules(&x.css_rules),
            },
        ),
        CssRule::Import(x) => CssRule::Import(
            CssImportRule { href: x.href.clone(), media: copy_component_values(&x.media) },
        ),
        CssRule::Media(x) => CssRule::Media(
            CssMediaRule {
                condition: copy_component_values(&x.condition),
                css_rules: copy_css_rules(&x.css_rules),
            },
        ),
        CssRule::FontFace(x) => CssRule::FontFace(CssFontFaceRule { style: copy_style(&x.style) }),
        CssRule::Page(x) => CssRule::Page(
            CssPageRule {
                selectors: copy_component_values(&x.selectors),
                style: copy_style(&x.style),
            },
        ),
        CssRule::Keyframes(x) => CssRule::Keyframes(
            CssKeyframesRule { name: copy_opt(&x.name), keyframes: copy_keyframes(&x.keyframes) },
        ),
        CssRule::Keyframe(x) => CssRule::Keyframe(copy_keyframe(x)),
        CssRule::Namespace(x) => CssRule::Namespace(
            CssNamespaceRule { namespace_uri: x.namespace_uri.clone(), prefix: copy_opt(&x.prefix) },
        ),
        CssRule::CounterStyle(x) => CssRule::CounterStyle(
            CssCounterStyleRule { name: x.name.clone(), style: copy_style(&x.style) },
        ),
        CssRule::Supports(x) => CssRule::Supports(
            CssSupportsRule {
                condition: copy_component_values(&x.condition),
                css_rules: copy_css_rules(&x.css_rules),
            },
        ),
        CssRule::Container(x) => CssRule::Container(
            CssContainerRule {
                condition: copy_component_values(&x.condition),
                css_rules: copy_css_rules(&x.css_rules),
            },
        ),
        CssRule::LayerBlock(x) => CssRule::LayerBlock(
            CssLayerBlockRule { name: copy_opt(&x.name), css_rules: copy_css_rules(&x.css_rules) },
        ),
        CssRule::LayerStatement(x) => CssRule::LayerStatement(
            CssLayerStatementRule { names: copy_strings(&x.names) },
        ),
        CssRule::Property(x) => CssRule::Property(
            CssPropertyRule { name: x.name.clone(), style: copy_style(&x.style) },
        ),
        CssRule::Scope(x) => CssRule::Scope(
            CssScopeRule {
                prelude: copy_component_values(&x.prelude),
                css_rules: copy_css_rules(&x.css_rules),
            },
        ),
        CssRule::Other(x) => {
            let declarations = match &x.declarations {
                Some(d) => Some(copy_css_declarations(d)),
                None => None,
            };
            CssRule::Other(
                OtherRule {
                    name: x.name.clone(),
                    prelude: copy_component_values(&x.prelude),
                    declarations,
                    child_rules: copy_css_rules(&x.child_rules),
                },
            )
        },
    }
}

/// Copies a list of CSS rules; the copy has the same models.
pub fn copy_css_rules(v: &Vec<CssRule>) -> (r: Vec<CssRule>)
    ensures
        css_rules_model(r@) == css_rules_model(v@),
    decreases v,
{
    let mut r: Vec<CssRule> = Vec::new();
    let mut i: usize = 0;
    while i < v.len()
        invariant
            i <= v@.len(),
            css_rules_model(r@) == css_rules_model(v@.take(i as int)),
        decreases v@.len() - i,
    {
        let c = copy_css_rule(&v[i]);
        let ghost old_r = r@;
        r.push(c);
        proof {
            assert(r@ == old_r.push(c));
            lemma_css_rules_model_push(old_r, c);
            lemma_css_rules_model_take(v@, i as int);
        }
        i = i + 1;
    }
    assert(v@.take(v@.len() as int) == v@);
    r
}

impl Clone for CssRule {
    fn clone(&self) -> (r: Self)
        ensures
            r@ == self@,
    {
        copy_css_rule(self)
    }
}

impl Clone for CssStyleRule {
    fn clone(&self) -> (r: Self)
        ensures
            CssRule::Style(r)@ == CssRule::Style(*self)@,
    {
        CssStyleRule {
            selectors: copy_component_values(&self.selectors),
            style: copy_style(&self.style),
            css_rules: copy_css_rules(&self.css_rules),
        }
    }
}

impl Clone for CssMediaRule {
    fn clone(&self) -> (r: Self)
        ensures
            CssRule::Media(r)@ == CssRule::Media(*self)@,
    {
        CssMediaRule {
            condition: copy_component_values(&self.condition),
            css_rules: copy_css_rules(&self.css_rules),
        }
    }
}

impl Clone for CssSupportsRule {
    fn clone(&self) -> (r: Self)
        ensures
            CssRule::Supports(r)@ == CssRule::Supports(*self)@,
    {
        CssSupportsRule {
            condition: copy_component_values(&self.condition),
            css_rules: copy_css_rules(&self.css_rules),
        }
    }
}

impl Clone for CssContainerRule {
    fn clone(&self) -> (r: Self)
        ensures
            CssRule::Container(r)@ == CssRule::Container(*self)@,
    {
        CssContainerRule {
            condition: copy_component_values(&self.condition),
            css_rules: copy_css_rules(&self.css_rules),
        }
    }
}

impl Clone for CssLayerBlockRule {
    fn clone(&self) -> (r: Self)
        ensures
            CssRule::LayerBlock(r)@ == CssRule::LayerBlock(*self)@,
    {
        CssLayerBlockRule { name: copy_opt(&self.name), css_rules: copy_css_rules(&self.css_rules) }
    }
}

impl Clone for CssScopeRule {
    fn clone(&self) -> (r: Self)
        ensures
            CssRule::Scope(r)@ == CssRule::Scope(*self)@,
    {
        CssScopeRule {
            prelude: copy_component_values(&self.prelude),
            css_rules: copy_css_rules(&self.css_rules),
        }
    }
}

impl Clone for OtherRule {
    fn clone(&self) -> (r: Self)
        ensures
            CssRule::Other(r)@ == CssRule::Other(*self)@,
    {
        let declarations = match &self.declarations {
            Some(d) => Some(copy_css_declarations(d)),
            None => None,
        };
        OtherRule {
            name: self.name.clone(),
            prelude: copy_component_values(&self.prelude),
            declarations,
            child_rules: copy_css_rules(&self.child_rules),
        }
    }
}

impl Clone for CssImportRule {
    fn clone(&self) -> (r: Self)
        ensures
            CssRule::Import(r)@ == CssRule::Import(*self)@,
    {
        CssImportRule { href: self.href.clone(), media: copy_component_values(&self.media) }
    }
}

impl Clone for CssNamespaceRule {
    fn clone(&self) -> (r: Self)
        ensures
            CssRule::Namespace(r)@ == CssRule::Namespace(*self)@,
    {
        CssNamespaceRule { namespace_uri: self.namespace_uri.clone(), prefix: copy_opt(&self.prefix) }
    }
}

impl Clone for CssLayerStatementRule {
    fn clone(&self) -> (r: Self)
        ensures
            CssRule::LayerStatement(r)@ == CssRule::LayerStatement(*self)@,
    {
        CssLayerStatementRule { names: copy_strings(&self.names) }
    }
}

impl Clone for CssFontFaceRule {
    fn clone(&self) -> (r: Self)
        ensures
            CssRule::FontFace(r)@ == CssRule::FontFace(*self)@,
    {
        CssFontFaceRule { style: copy_style(&self.style) }
    }
}

impl Clone for CssPageRule {
    fn clone(&self) -> (r: Self)
        ensures
            CssRule::Page(r)@ == CssRule::Page(*self)@,
    {
        CssPageRule { selectors: copy_component_values(&self.selectors), style: copy_style(&self.style) }
    }
}

impl Clone for CssKeyframesRule {
    fn clone(&self) -> (r: Self)
        ensures
            CssRule::Keyframes(r)@ == CssRule::Keyframes(*self)@,
    {
        CssKeyframesRule { name: copy_opt(&self.name), keyframes: copy_keyframes(&self.keyframes) }
    }
}

impl Clone for CssKeyframeRule {
    fn clone(&self) -> (r: Self)
        ensures
            CssRule::Keyframe(r)@ == CssRule::Keyframe(*self)@,
    {
        copy_keyframe(self)
    }
}

impl Clone for CssCounterStyleRule {
    fn clone(&self) -> (r: Self)
        ensures
            CssRule::CounterStyle(r)@ == CssRule::CounterStyle(*self)@,
    {
        CssCounterStyleRule { name: self.name.clone(), style: copy_style(&self.style) }
    }
}

impl Clone for CssPropertyRule {
    fn clone(&self) -> (r: Self)
        ensures
            CssRule::Property(r)@ == CssRule::Property(*self)@,
    {
        CssPropertyRule { name: self.name.clone(), style: copy_style(&self.style) }
    }
}

// ── laws ────────────────────────────────────────────────────────────

/// A rule holds children exactly when its list of child rules (of
/// keyframes, for a keyframes rule) is not empty; the other rule types
/// never do.
pub proof fn law_rule_children(r: CssRule)
    ensures
        rule_has_children(r@) == match r {
            CssRule::Style(x) => x.css_rules@.len() > 0,
            CssRule::Media(x) => x.css_rules@.len() > 0,
            CssRule::Supports(x) => x.css_rules@.len() > 0,
            CssRule::Container(x) => x.css_rules@.len() > 0,
            CssRule::LayerBlock(x) => x.css_rules@.len() > 0,
            CssRule::Scope(x) => x.css_rules@.len() > 0,
            CssRule::Keyframes(x) => x.keyframes@.len() > 0,
            CssRule::Other(x) => x.child_rules@.len() > 0,
            CssRule::Import(_) => false,
            CssRule::FontFace(_) => false,
            CssRule::Page(_) => false,
            CssRule::Keyframe(_) => false,
            CssRule::Namespace(_) => false,
            CssRule::CounterStyle(_) => false,
            CssRule::LayerStatement(_) => false,
            CssRule::Property(_) => false,
        },
{
    match r {
        CssRule::Style(x) => lemma_css_rules_model(x.css_rules@),
        CssRule::Media(x) => lemma_css_rules_model(x.css_rules@),
        CssRule::Supports(x) => lemma_css_rules_model(x.css_rules@),
        CssRule::Container(x) => lemma_css_rules_model(x.css_rules@),
        CssRule::LayerBlock(x) => lemma_css_rules_model(x.css_rules@),
        CssRule::Scope(x) => lemma_css_rules_model(x.css_rules@),
        CssRule::Other(x) => lemma_css_rules_model(x.child_rules@),
        _ => {},
    }
}

/// §8.4 the rule type constants: STYLE_RULE 1, IMPORT_RULE 3, MEDIA_RULE 4,
/// FONT_FACE_RULE 5, PAGE_RULE 6, KEYFRAMES_RULE 7, KEYFRAME_RULE 8,
/// NAMESPACE_RULE 10, COUNTER_STYLE_RULE 11, SUPPORTS_RULE 12, and the
/// numbers of the newer rule types; 0 for an unrecognised at-rule. Distinct
/// rule types have distinct numbers.
pub proof fn law_rule_type_numbers(r: CssRule, q: CssRule)
    ensures
        rule_type_number(r@) == match r {
            CssRule::Style(_) => 1u16,
            CssRule::Import(_) => 3,
            CssRule::Media(_) => 4,
            CssRule::FontFace(_) => 5,
            CssRule::Page(_) => 6,
            CssRule::Keyframes(_) => 7,
            CssRule::Keyframe(_) => 8,
            CssRule::Namespace(_) => 10,
            CssRule::CounterStyle(_) => 11,
            CssRule::Supports(_) => 12,
            CssRule::Container(_) => 15,
            CssRule::LayerBlock(_) => 16,
            CssRule::LayerStatement(_) => 17,
            CssRule::Property(_) => 18,
            CssRule::Scope(_) => 19,
            CssRule::Other(_) => 0,
        },
        rule_type_number(r@) == rule_type_number(q@) ==> (r is Style <==> q is Style) && (
        r is Import <==> q is Import) && (r is Media <==> q is Media) && (r is FontFace <==> q is FontFace)
            && (r is Page <==> q is Page) && (r is Keyframes <==> q is Keyframes) && (r is Keyframe
            <==> q is Keyframe) && (r is Namespace <==> q is Namespace) && (r is CounterStyle
            <==> q is CounterStyle) && (r is Supports <==> q is Supports) && (r is Container
            <==> q is Container) && (r is LayerBlock <==> q is LayerBlock) && (r is LayerStatement
            <==> q is LayerStatement) && (r is Property <==> q is Property) && (r is Scope <==> q is Scope)
            && (r is Other <==> q is Other),
{
}

} // verus!
