//! The syntax layer that CSSOM objects are built from (CSS Syntax §5.2):
//! tokens, component values, declarations, rules and style sheets, as a CSS
//! parser hands them over, together with their mathematical models.
//!
//! A numeric token holds its value in the form in which it is written out:
//! a whole number of magnitude below 10^16 as an integer, any other value as
//! the text of its shortest round-trip decimal form.

use vstd::prelude::*;

verus! {

/// The type flag of a hash token (§4.1).
#[derive(Debug, Clone, Copy, PartialEq, Eq)]
pub enum HashType {
    /// `#` followed by an ident sequence.
    Id,
    /// `#` followed by anything else.
    Unrestricted,
}

/// The value of a numeric token, as it is serialized.
#[derive(Debug, PartialEq)]
pub enum NumericValue {
    /// A whole number whose magnitude is below 10^16: written in decimal.
    Integer(i64),
    /// Any other number: the decimal text of its value.
    Text(String),
}

/// The numeric part of number, percentage and dimension tokens (§4.3.13).
#[derive(Debug, PartialEq)]
pub struct Numeric {
    /// The value.
    pub value: NumericValue,
    /// Whether the source had neither a fraction nor an exponent.
    pub is_integer: bool,
}

/// A CSS token (§4.1).
#[derive(Debug, PartialEq)]
pub enum Token {
    /// `<ident-token>`.
    Ident(String),
    /// `<function-token>` (the name, without `(`).
    Function(String),
    /// `<at-keyword-token>` (the keyword, without `@`).
    AtKeyword(String),
    /// `<hash-token>`.
    Hash(String, HashType),
    /// `<string-token>` (the contents, without quotes).
    String(String),
    /// `<bad-string-token>`.
    BadString,
    /// `<url-token>` (the URL).
    Url(String),
    /// `<bad-url-token>`.
    BadUrl,
    /// `<delim-token>`.
    Delim(char),
    /// `<number-token>`.
    Number(Numeric),
    /// `<percentage-token>`.
    Percentage(Numeric),
    /// `<dimension-token>` (number and unit).
    Dimension(Numeric, String),
    /// `<unicode-range-token>` (start and end).
    UnicodeRange(Option<u32>, Option<u32>),
    /// `<whitespace-token>`.
    Whitespace,
    /// `<comment-token>` (the contents, without delimiters).
    Comment(String),
    /// `<colon-token>`.
    Colon,
    /// `<semicolon-token>`.
    Semicolon,
    /// `<comma-token>`.
    Comma,
    /// `<[-token>`.
    OpenBracket,
    /// `<]-token>`.
    CloseBracket,
    /// `<(-token>`.
    OpenParen,
    /// `<)-token>`.
    CloseParen,
    /// `<{-token>`.
    OpenBrace,
    /// `<}-token>`.
    CloseBrace,
    /// `<CDO-token>`.
    Cdo,
    /// `<CDC-token>`.
    Cdc,
    /// `<EOF-token>`.
    Eof,
}

/// The kind of a simple block: `{}`, `[]` or `()`.
#[derive(Debug, Clone, Copy, PartialEq, Eq)]
pub enum BlockKind {
    /// `{}`.
    Curly,
    /// `[]`.
    Square,
    /// `()`.
    Paren,
}

/// A component value (§5.2): a preserved token, a function or a simple block.
#[derive(Debug)]
pub enum ComponentValue {
    /// A preserved token.
    PreservedToken(Token),
    /// A function.
    Function(Function),
    /// A simple block.
    SimpleBlock(SimpleBlock),
}

/// A function: a name and its arguments.
#[derive(Debug)]
pub struct Function {
    /// The name, without `(`.
    pub name: String,
    /// The arguments.
    pub value: Vec<ComponentValue>,
}

/// A simple block: its kind and its contents.
#[derive(Debug)]
pub struct SimpleBlock {
    /// `{}`, `[]` or `()`.
    pub kind: BlockKind,
    /// The contents.
    pub value: Vec<ComponentValue>,
}

/// A declaration: name, value, `!important` flag and, for custom
/// properties, the original source text of the value.
#[derive(Debug)]
pub struct Declaration {
    /// The property or descriptor name.
    pub name: String,
    /// The value.
    pub value: Vec<ComponentValue>,
    /// Whether the declaration carried `!important`.
    pub important: bool,
    /// For custom properties, the source text of the value.
    pub original_text: Option<String>,
}

/// A qualified rule: prelude, declarations and child rules.
#[derive(Debug)]
pub struct QualifiedRule {
    /// The prelude (a selector for style rules).
    pub prelude: Vec<ComponentValue>,
    /// The declarations of the block.
    pub declarations: Vec<Declaration>,
    /// The child rules of the block.
    pub child_rules: Vec<Rule>,
}

/// An at-rule: name, prelude and, for block at-rules, declarations and
/// child rules.
#[derive(Debug)]
pub struct AtRule {
    /// The name, without `@`.
    pub name: String,
    /// The prelude.
    pub prelude: Vec<ComponentValue>,
    /// Block at-rules: the declarations of the block.
    pub declarations: Option<Vec<Declaration>>,
    /// Block at-rules: the child rules of the block.
    pub child_rules: Option<Vec<Rule>>,
}

/// A rule, or a run of declarations inside a block.
#[derive(Debug)]
pub enum Rule {
    /// An at-rule.
    AtRule(AtRule),
    /// A qualified rule.
    QualifiedRule(QualifiedRule),
    /// A run of consecutive declarations.
    Declarations(Vec<Declaration>),
}

/// A parsed style sheet: a list of rules.
#[derive(Debug, Default)]
pub struct Stylesheet {
    /// The rules, in order.
    pub rules: Vec<Rule>,
}

// ── models ──────────────────────────────────────────────────────────

/// The mathematical value of a component value.
pub enum ComponentValueModel {
    /// A preserved token.
    Token(Token),
    /// A function: name and arguments.
    Function(Seq<char>, Seq<ComponentValueModel>),
    /// A simple block: kind and contents.
    Block(BlockKind, Seq<ComponentValueModel>),
}

/// The model of one component value.
pub open spec fn cv_model(cv: ComponentValue) -> ComponentValueModel
    decreases cv,
{
    match cv {
        ComponentValue::PreservedToken(t) => ComponentValueModel::Token(t),
        ComponentValue::Function(f) => ComponentValueModel::Function(f.name@, cvs_model(f.value@)),
        ComponentValue::SimpleBlock(b) => ComponentValueModel::Block(b.kind, cvs_model(b.value@)),
    }
}

/// The model of a list of component values.
pub open spec fn cvs_model(s: Seq<ComponentValue>) -> Seq<ComponentValueModel>
    decreases s,
{
    if s.len() == 0 {
        seq![]
    } else {
        cvs_model(s.drop_last()).push(cv_model(s.last()))
    }
}

impl View for ComponentValue {
    type V = ComponentValueModel;

    open spec fn view(&self) -> ComponentValueModel {
        cv_model(*self)
    }
}

/// The mathematical value of a declaration (of either layer).
pub struct DeclarationModel {
    /// The name.
    pub name: Seq<char>,
    /// The value.
    pub value: Seq<ComponentValueModel>,
    /// The `!important` flag.
    pub important: bool,
    /// The original source text, if any.
    pub original_text: Option<Seq<char>>,
}

/// The view of an optional string.
pub open spec fn opt_string_view(o: Option<String>) -> Option<Seq<char>> {
    match o {
        Some(s) => Some(s@),
        None => None,
    }
}

impl View for Declaration {
    type V = DeclarationModel;

    open spec fn view(&self) -> DeclarationModel {
        DeclarationModel {
            name: self.name@,
            value: cvs_model(self.value@),
            important: self.important,
            original_text: opt_string_view(self.original_text),
        }
    }
}

/// The model of a list of declarations.
pub open spec fn decls_model(s: Seq<Declaration>) -> Seq<DeclarationModel> {
    s.map_values(|d: Declaration| d@)
}

/// The mathematical value of a syntax-layer rule.
pub enum RuleModel {
    /// An at-rule: name, prelude, block declarations, block child rules.
    At(Seq<char>, Seq<ComponentValueModel>, Option<Seq<DeclarationModel>>, Option<Seq<RuleModel>>),
    /// A qualified rule: prelude, declarations, child rules.
    Qualified(Seq<ComponentValueModel>, Seq<DeclarationModel>, Seq<RuleModel>),
    /// A run of declarations.
    Declarations(Seq<DeclarationModel>),
}

/// The model of one rule.
pub open spec fn rule_model(r: Rule) -> RuleModel
    decreases r,
{
    match r {
        Rule::AtRule(ar) => RuleModel::At(
            ar.name@,
            cvs_model(ar.prelude@),
            match ar.declarations {
                Some(d) => Some(decls_model(d@)),
                None => None,
            },
            match ar.child_rules {
                Some(c) => Some(rules_model(c@)),
                None => None,
            },
        ),
        Rule::QualifiedRule(qr) => RuleModel::Qualified(
            cvs_model(qr.prelude@),
            decls_model(qr.declarations@),
            rules_model(qr.child_rules@),
        ),
        Rule::Declarations(d) => RuleModel::Declarations(decls_model(d@)),
    }
}

/// The model of a list of rules.
pub open spec fn rules_model(s: Seq<Rule>) -> Seq<RuleModel>
    decreases s,
{
    if s.len() == 0 {
        seq![]
    } else {
        rules_model(s.drop_last()).push(rule_model(s.last()))
    }
}

impl View for Rule {
    type V = RuleModel;

    open spec fn view(&self) -> RuleModel {
        rule_model(*self)
    }
}

impl View for Stylesheet {
    type V = Seq<RuleModel>;

    open spec fn view(&self) -> Seq<RuleModel> {
        rules_model(self.rules@)
    }
}

// ── list lemmas ─────────────────────────────────────────────────────

/// The model of a list is the list of the models.
pub proof fn lemma_cvs_model(s: Seq<ComponentValue>)
    ensures
        cvs_model(s).len() == s.len(),
        forall|i: int| 0 <= i < s.len() ==> #[trigger] cvs_model(s)[i] == cv_model(s[i]),
    decreases s.len(),
{
    if s.len() > 0 {
        lemma_cvs_model(s.drop_last());
    }
}

/// Taking one more element extends the model by that element's model.
pub proof fn lemma_cvs_model_take(s: Seq<ComponentValue>, i: int)
    requires
        0 <= i < s.len(),
    ensures
        cvs_model(s.take(i + 1)) == cvs_model(s.take(i)).push(cv_model(s[i])),
{
    assert(s.take(i + 1).drop_last() == s.take(i));
}

/// The model of a list is the list of the models.
pub proof fn lemma_rules_model(s: Seq<Rule>)
    ensures
        rules_model(s).len() == s.len(),
        forall|i: int| 0 <= i < s.len() ==> #[trigger] rules_model(s)[i] == rule_model(s[i]),
    decreases s.len(),
{
    if s.len() > 0 {
        lemma_rules_model(s.drop_last());
    }
}

/// Copies a token; the copy is the same token.
pub fn copy_token(t: &Token) -> (r: Token)
    ensures
        r == *t,
{
    match t {
        Token::Ident(s) => Token::Ident(s.clone()),
        Token::Function(s) => Token::Function(s.clone()),
        Token::AtKeyword(s) => Token::AtKeyword(s.clone()),
        Token::Hash(s, h) => Token::Hash(s.clone(), *h),
        Token::String(s) => Token::String(s.clone()),
        Token::BadString => Token::BadString,
        Token::Url(s) => Token::Url(s.clone()),
        Token::BadUrl => Token::BadUrl,
        Token::Delim(c) => Token::Delim(*c),
        Token::Number(n) => Token::Number(copy_numeric(n)),
        Token::Percentage(n) => Token::Percentage(copy_numeric(n)),
        Token::Dimension(n, u) => Token::Dimension(copy_numeric(n), u.clone()),
        Token::UnicodeRange(a, b) => Token::UnicodeRange(*a, *b),
        Token::Whitespace => Token::Whitespace,
        Token::Comment(s) => Token::Comment(s.clone()),
        Token::Colon => Token::Colon,
        Token::Semicolon => Token::Semicolon,
        Token::Comma => Token::Comma,
        Token::OpenBracket => Token::OpenBracket,
        Token::CloseBracket => Token::CloseBracket,
        Token::OpenParen => Token::OpenParen,
        Token::CloseParen => Token::CloseParen,
        Token::OpenBrace => Token::OpenBrace,
        Token::CloseBrace => Token::CloseBrace,
        Token::Cdo => Token::Cdo,
        Token::Cdc => Token::Cdc,
        Token::Eof => Token::Eof,
    }
}

fn copy_numeric(n: &Numeric) -> (r: Numeric)
    ensures
        r == *n,
{
    let value = match &n.value {
        NumericValue::Integer(i) => NumericValue::Integer(*i),
        NumericValue::Text(s) => NumericValue::Text(s.clone()),
    };
    Numeric { value, is_integer: n.is_integer }
}

impl Clone for NumericValue {
    fn clone(&self) -> (r: Self)
        ensures
            r == *self,
    {
        match self {
            NumericValue::Integer(i) => NumericValue::Integer(*i),
            NumericValue::Text(s) => NumericValue::Text(s.clone()),
        }
    }
}

impl Clone for Numeric {
    fn clone(&self) -> (r: Self)
        ensures
            r == *self,
    {
        copy_numeric(self)
    }
}

impl Clone for Token {
    fn clone(&self) -> (r: Self)
        ensures
            r == *self,
    {
        copy_token(self)
    }
}

/// Copies a component value; the copy has the same model.
pub fn copy_component_value(cv: &ComponentValue) -> (r: ComponentValue)
    ensures
        r@ == cv@,
    decreases cv,
{
    match cv {
        ComponentValue::PreservedToken(t) => ComponentValue::PreservedToken(copy_token(t)),
        ComponentValue::Function(f) => ComponentValue::Function(
            Function { name: f.name.clone(), value: copy_component_values(&f.value) },
        ),
        ComponentValue::SimpleBlock(b) => ComponentValue::SimpleBlock(
            SimpleBlock { kind: b.kind, value: copy_component_values(&b.value) },
        ),
    }
}

/// Copies a list of component values; the copy has the same model.
pub fn copy_component_values(v: &Vec<ComponentValue>) -> (r: Vec<ComponentValue>)
    ensures
        cvs_model(r@) == cvs_model(v@),
    decreases v,
{
    let mut r: Vec<ComponentValue> = Vec::new();
    let mut i: usize = 0;
    while i < v.len()
        invariant
            i <= v@.len(),
            cvs_model(r@) == cvs_model(v@.take(i as int)),
        decreases v@.len() - i,
    {
        let c = copy_component_value(&v[i]);
        let ghost old_r = r@;
        r.push(c);
        proof {
            assert(r@.drop_last() == old_r);
            lemma_cvs_model_take(v@, i as int);
        }
        i = i + 1;
    }
    assert(v@.take(v@.len() as int) == v@);
    r
}

impl Clone for ComponentValue {
    fn clone(&self) -> (r: Self)
        ensures
            r@ == self@,
    {
        copy_component_value(self)
    }
}

impl Clone for Function {
    fn clone(&self) -> (r: Self)
        ensures
            r.name == self.name,
            cvs_model(r.value@) == cvs_model(self.value@),
    {
        Function { name: self.name.clone(), value: copy_component_values(&self.value) }
    }
}

impl Clone for SimpleBlock {
    fn clone(&self) -> (r: Self)
        ensures
            r.kind == self.kind,
            cvs_model(r.value@) == cvs_model(self.value@),
    {
        SimpleBlock { kind: self.kind, value: copy_component_values(&self.value) }
    }
}

/// Copies a declaration; the copy has the same model.
pub fn copy_declaration(d: &Declaration) -> (r: Declaration)
    ensures
        r@ == d@,
{
    Declaration {
        name: d.name.clone(),
        value: copy_component_values(&d.value),
        important: d.important,
        original_text: copy_opt_string(&d.original_text),
    }
}

impl Clone for Declaration {
    fn clone(&self) -> (r: Self)
        ensures
            r@ == self@,
    {
        copy_declaration(self)
    }
}

/// Copies a list of declarations; the copy has the same model.
pub fn copy_declarations(v: &Vec<Declaration>) -> (r: Vec<Declaration>)
    ensures
        decls_model(r@) == decls_model(v@),
{
    let mut r: Vec<Declaration> = Vec::new();
    let mut i: usize = 0;
    while i < v.len()
        invariant
            i <= v@.len(),
            decls_model(r@) == decls_model(v@.take(i as int)),
        decreases v@.len() - i,
    {
        let ghost old_r = r@;
        r.push(copy_declaration(&v[i]));
        assert(decls_model(old_r).len() == decls_model(v@.take(i as int)).len());
        assert(decls_model(r@) =~= decls_model(v@.take(i + 1))) by {
            assert forall|j: int| 0 <= j < i implies decls_model(r@)[j] == decls_model(
                v@.take(i + 1),
            )[j] by {
                assert(decls_model(old_r)[j] == decls_model(v@.take(i as int))[j]);
            }
        }
        i = i + 1;
    }
    assert(v@.take(v@.len() as int) == v@);
    r
}

/// Copies an at-rule; the copy has the same model.
pub fn copy_at_rule(ar: &AtRule) -> (c: AtRule)
    ensures
        Rule::AtRule(c)@ == Rule::AtRule(*ar)@,
    decreases ar,
{
    let declarations = match &ar.declarations {
        Some(d) => Some(copy_declarations(d)),
        None => None,
    };
    let child_rules = match &ar.child_rules {
        Some(c) => Some(copy_rules(c)),
        None => None,
    };
    AtRule {
        name: ar.name.clone(),
        prelude: copy_component_values(&ar.prelude),
        declarations,
        child_rules,
    }
}

/// Copies a qualified rule; the copy has the same model.
pub fn copy_qualified_rule(qr: &QualifiedRule) -> (c: QualifiedRule)
    ensures
        Rule::QualifiedRule(c)@ == Rule::QualifiedRule(*qr)@,
    decreases qr,
{
    QualifiedRule {
        prelude: copy_component_values(&qr.prelude),
        declarations: copy_declarations(&qr.declarations),
        child_rules: copy_rules(&qr.child_rules),
    }
}

/// Copies a rule; the copy has the same model.
pub fn copy_rule(r: &Rule) -> (c: Rule)
    ensures
        c@ == r@,
    decreases r,
{
    match r {
        Rule::AtRule(ar) => Rule::AtRule(copy_at_rule(ar)),
        Rule::QualifiedRule(qr) => Rule::QualifiedRule(copy_qualified_rule(qr)),
        Rule::Declarations(d) => Rule::Declarations(copy_declarations(d)),
    }
}

/// Copies a list of rules; the copy has the same model.
pub fn copy_rules(v: &Vec<Rule>) -> (r: Vec<Rule>)
    ensures
        rules_model(r@) == rules_model(v@),
    decreases v,
{
    let mut r: Vec<Rule> = Vec::new();
    let mut i: usize = 0;
    while i < v.len()
        invariant
            i <= v@.len(),
            rules_model(r@) == rules_model(v@.take(i as int)),
        decreases v@.len() - i,
    {
        let c = copy_rule(&v[i]);
        let ghost old_r = r@;
        r.push(c);
        proof {
            assert(r@.drop_last() == old_r);
            assert(v@.take(i + 1).drop_last() == v@.take(i as int));
        }
        i = i + 1;
    }
    assert(v@.take(v@.len() as int) == v@);
    r
}

impl Clone for Rule {
    fn clone(&self) -> (r: Self)
        ensures
            r@ == self@,
    {
        copy_rule(self)
    }
}

impl Clone for AtRule {
    fn clone(&self) -> (r: Self)
        ensures
            Rule::AtRule(r)@ == Rule::AtRule(*self)@,
    {
        copy_at_rule(self)
    }
}

impl Clone for QualifiedRule {
    fn clone(&self) -> (r: Self)
        ensures
            Rule::QualifiedRule(r)@ == Rule::QualifiedRule(*self)@,
    {
        copy_qualified_rule(self)
    }
}

impl Clone for Stylesheet {
    fn clone(&self) -> (r: Self)
        ensures
            r@ == self@,
    {
        Stylesheet { rules: copy_rules(&self.rules) }
    }
}

/// Copies an optional string.
pub fn copy_opt_string(o: &Option<String>) -> (r: Option<String>)
    ensures
        opt_string_view(r) == opt_string_view(*o),
{
    match o {
        Some(s) => Some(s.clone()),
        None => None,
    }
}

} // verus!
