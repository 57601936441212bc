//! CSS Object Model data structures, their serialization, and the one-way
//! conversion from CSS syntax trees.
//!
//! The syntax layer (`syntax`) holds stylesheets, rules, declarations and
//! component values as a CSS parser produces them. `convert` maps them onto
//! the semantic layer (`CssStyleSheet`, `CssRule` and its rule
//! types, `CssStyleDeclaration`), which owns its data and keeps no link back
//! to the syntax tree. `serialize` and `rule_css` turn the semantic layer
//! back into CSS text.

pub mod convert;
pub mod declaration;
pub mod element_style;
pub mod rule;
pub mod rule_css;
pub mod serialize;
pub mod stylesheet;
pub mod syntax;
pub mod text;

pub use convert::{from_stylesheet, from_stylesheet_with_origin};
pub use declaration::{CssDeclaration, CssStyleDeclaration};
pub use rule::{
    CssContainerRule, CssCounterStyleRule, CssFontFaceRule, CssImportRule, CssKeyframeRule,
    CssKeyframesRule, CssLayerBlockRule, CssLayerStatementRule, CssMediaRule, CssNamespaceRule,
    CssPageRule, CssPropertyRule, CssRule, CssScopeRule, CssStyleRule, CssSupportsRule, OtherRule,
};
pub use serialize::{
    serialize_component_value, serialize_component_values, serialize_identifier, serialize_string,
    serialize_url, ToCss,
};
pub use stylesheet::{CssStyleSheet, Origin};
pub use syntax::ComponentValue;
