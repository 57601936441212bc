//! CSSOM §8.1 CSS style sheets, with their cascade origin (css-cascade §6.2).

use vstd::prelude::*;
use vstd::std_specs::iter::IteratorSpec;

use crate::rule::{copy_css_rules, copy_opt, css_rules_model, opt_seq, CssRule, CssRuleModel};
use crate::rule_css::{push_sheet_rules, sheet_rules_css};
use crate::serialize::ToCss;
use crate::syntax::{copy_component_values, cvs_model, ComponentValue, ComponentValueModel};

verus! {

/// The cascade origin of a style sheet. Normal declarations rank
/// user-agent < user < author; important ones the other way round.
#[derive(Debug, Clone, Copy, PartialEq, Eq, Structural, PartialOrd, Ord, Default)]
pub enum Origin {
    /// The user agent's default style sheet.
    UserAgent,
    /// A user style sheet.
    User,
    /// An author style sheet (the default).
    #[default]
    Author,
}

/// §8.1: a CSS style sheet.
#[derive(Debug)]
pub struct CssStyleSheet {
    /// The cascade origin.
    pub origin: Origin,
    /// The location (an absolute URL); `None` for embedded sheets.
    pub location: Option<String>,
    /// The media, as component values.
    pub media: Vec<ComponentValue>,
    /// The title.
    pub title: String,
    /// The alternate flag.
    pub alternate: bool,
    /// The disabled flag.
    pub disabled: bool,
    /// The rules, in order.
    pub css_rules: Vec<CssRule>,
}

/// The mathematical value of a style sheet.
pub struct SheetModel {
    /// The cascade origin.
    pub origin: Origin,
    /// The location.
    pub location: Option<Seq<char>>,
    /// The media.
    pub media: Seq<ComponentValueModel>,
    /// The title.
    pub title: Seq<char>,
    /// The alternate flag.
    pub alternate: bool,
    /// The disabled flag.
    pub disabled: bool,
    /// The rules.
    pub rules: Seq<CssRuleModel>,
}

impl View for CssStyleSheet {
    type V = SheetModel;

    open spec fn view(&self) -> SheetModel {
        SheetModel {
            origin: self.origin,
            location: opt_seq(self.location),
            media: cvs_model(self.media@),
            title: self.title@,
            alternate: self.alternate,
            disabled: self.disabled,
            rules: css_rules_model(self.css_rules@),
        }
    }
}

/// The model of a style sheet with the given origin and rules and every
/// other attribute at its default: no location, no media, empty title,
/// neither alternate nor disabled.
pub open spec fn default_sheet(origin: Origin, rules: Seq<CssRuleModel>) -> SheetModel {
    SheetModel {
        origin,
        location: None,
        media: seq![],
        title: seq![],
        alternate: false,
        disabled: false,
        rules,
    }
}

impl CssStyleSheet {
    /// An empty author style sheet.
    pub fn new() -> (s: Self)
        ensures
            s@ == default_sheet(Origin::Author, seq![]),
    {
        let s = CssStyleSheet {
            origin: Origin::Author,
            location: None,
            media: Vec::new(),
            title: String::new(),
            alternate: false,
            disabled: false,
            css_rules: Vec::new(),
        };
        assert(s@ =~= default_sheet(Origin::Author, seq![]));
        s
    }

    /// The number of rules.
    pub fn len(&self) -> (n: usize)
        ensures
            n == self.css_rules@.len(),
    {
        self.css_rules.len()
    }

    /// Whether the sheet holds no rule.
    pub fn is_empty(&self) -> (b: bool)
        ensures
            b == (self.css_rules@.len() == 0),
    {
        self.css_rules.len() == 0
    }

    /// An iterator over the rules, in order.
    pub fn iter(&self) -> (it: std::slice::Iter<'_, CssRule>)
        ensures
            it.remaining() == self.css_rules@.as_ref(),
    {
        broadcast use vstd::std_specs::slice::axiom_spec_slice_iter;
        let s = self.css_rules.as_slice();
        s.iter()
    }
}

impl Default for CssStyleSheet {
    fn default() -> (s: Self)
        ensures
            s@ == default_sheet(Origin::Author, seq![]),
    {
        CssStyleSheet::new()
    }
}

impl Clone for CssStyleSheet {
    fn clone(&self) -> (s: Self)
        ensures
            s@ == self@,
    {
        let s = CssStyleSheet {
            origin: self.origin,
            location: copy_opt(&self.location),
            media: copy_component_values(&self.media),
            title: self.title.clone(),
            alternate: self.alternate,
            disabled: self.disabled,
            css_rules: copy_css_rules(&self.css_rules),
        };
        assert(s@ =~= self@);
        s
    }
}

impl ToCss for CssStyleSheet {
    /// The rules, one per line.
    open spec fn css_text(&self) -> Seq<char> {
        sheet_rules_css(self@.rules)
    }

    fn to_css_string(&self) -> (s: String) {
        let mut out = String::new();
        push_sheet_rules(&mut out, &self.css_rules);
        assert(out@ =~= sheet_rules_css(self@.rules));
        out
    }
}

/// A style sheet made with only an origin and rules has no location, no
/// media, an empty title, and is neither alternate nor disabled.
pub proof fn law_default_sheet(origin: Origin, rules: Seq<CssRuleModel>)
    ensures
        default_sheet(origin, rules).origin == origin,
        default_sheet(origin, rules).rules == rules,
        default_sheet(origin, rules).location is None,
        default_sheet(origin, rules).media.len() == 0,
        default_sheet(origin, rules).title.len() == 0,
        !default_sheet(origin, rules).alternate,
        !default_sheet(origin, rules).disabled,
{
}

} // verus!
