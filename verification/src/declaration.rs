//! CSSOM §8.5 CSS declarations and §8.6 CSS declaration blocks.

use vstd::prelude::*;
use vstd::std_specs::iter::IteratorSpec;

use crate::serialize::{cvs_css, push_component_values, ToCss};
use crate::syntax::{
    copy_component_values, copy_opt_string, cvs_model, opt_string_view, ComponentValue,
    DeclarationModel,
};
use crate::text::{push_char, str_equal, str_eq_ignore_ascii_case, eq_ignore_ascii_case};

verus! {

/// §8.5: a CSS declaration: property name, value, `!important` flag and,
/// for custom properties, the original source text of the value.
#[derive(Debug)]
pub struct CssDeclaration {
    /// The property name (such as `color`).
    pub name: String,
    /// The value, as component values.
    pub value: Vec<ComponentValue>,
    /// Whether the declaration carries `!important`.
    pub important: bool,
    /// For custom properties, the source text of the value; `None` otherwise.
    pub original_text: Option<String>,
}

impl View for CssDeclaration {
    type V = DeclarationModel;

    open spec fn view(&self) -> DeclarationModel {
        DeclarationModel {
            name: self.name@,
            value: cvs_model(self.value@),
            important: self.important,
            original_text: opt_string_view(self.original_text),
        }
    }
}

/// The models of a list of declarations.
pub open spec fn css_decls_model(s: Seq<CssDeclaration>) -> Seq<DeclarationModel> {
    s.map_values(|d: CssDeclaration| d@)
}

impl CssDeclaration {
    /// A new declaration without original text.
    pub fn new(name: &str, value: Vec<ComponentValue>, important: bool) -> (d: Self)
        ensures
            d.name@ == name@,
            d.value == value,
            d.important == important,
            d.original_text is None,
    {
        CssDeclaration { name: name.to_owned(), value, important, original_text: None }
    }
}

/// Copies a declaration; the copy has the same model.
pub fn copy_css_declaration(d: &CssDeclaration) -> (r: CssDeclaration)
    ensures
        r@ == d@,
{
    CssDeclaration {
        name: d.name.clone(),
        value: copy_component_values(&d.value),
        important: d.important,
        original_text: copy_opt_string(&d.original_text),
    }
}

/// Copies a list of declarations; the copy has the same models.
pub fn copy_css_declarations(v: &Vec<CssDeclaration>) -> (r: Vec<CssDeclaration>)
    ensures
        css_decls_model(r@) == css_decls_model(v@),
{
    let mut r: Vec<CssDeclaration> = Vec::new();
    let mut i: usize = 0;
    while i < v.len()
        invariant
            i <= v@.len(),
            css_decls_model(r@) == css_decls_model(v@.take(i as int)),
        decreases v@.len() - i,
    {
        let ghost old_r = r@;
        r.push(copy_css_declaration(&v[i]));
        assert(css_decls_model(old_r).len() == css_decls_model(v@.take(i as int)).len());
        assert(css_decls_model(r@) =~= css_decls_model(v@.take(i + 1))) by {
            assert forall|j: int| 0 <= j < i implies css_decls_model(r@)[j] == css_decls_model(
                v@.take(i + 1),
            )[j] by {
                assert(css_decls_model(old_r)[j] == css_decls_model(v@.take(i as int))[j]);
            }
        }
        i = i + 1;
    }
    assert(v@.take(v@.len() as int) == v@);
    r
}

/// §8.6: a CSS declaration block: declarations in order of appearance,
/// and the readonly flag.
#[derive(Debug)]
pub struct CssStyleDeclaration {
    /// The declarations, in order of appearance.
    pub declarations: Vec<CssDeclaration>,
    /// Whether the block is read-only.
    pub readonly: bool,
}

/// The mathematical value of a declaration block.
pub struct StyleModel {
    /// The declarations.
    pub declarations: Seq<DeclarationModel>,
    /// The readonly flag.
    pub readonly: bool,
}

impl View for CssStyleDeclaration {
    type V = StyleModel;

    open spec fn view(&self) -> StyleModel {
        StyleModel { declarations: css_decls_model(self.declarations@), readonly: self.readonly }
    }
}

/// The index of the last declaration of `decls` that satisfies `f`, or -1
/// when there is none.
pub open spec fn last_index_where(decls: Seq<CssDeclaration>, f: spec_fn(CssDeclaration) -> bool) -> int
    decreases decls.len(),
{
    if decls.len() == 0 {
        -1
    } else if f(decls.last()) {
        decls.len() - 1
    } else {
        last_index_where(decls.drop_last(), f)
    }
}

/// The index of the last declaration named exactly `name`, or -1.
pub open spec fn last_index_named(decls: Seq<CssDeclaration>, name: Seq<char>) -> int {
    last_index_where(decls, |d: CssDeclaration| d.name@ == name)
}

/// The index of the last declaration whose name equals `name` up to ASCII
/// case, or -1.
pub open spec fn last_index_named_ci(decls: Seq<CssDeclaration>, name: Seq<char>) -> int {
    last_index_where(decls, |d: CssDeclaration| eq_ignore_ascii_case(d.name@, name))
}

/// The last declaration satisfying `f` is the one at the index that
/// `last_index_where` gives; -1 means that none does.
pub proof fn lemma_last_index_where(decls: Seq<CssDeclaration>, f: spec_fn(CssDeclaration) -> bool)
    ensures
        -1 <= last_index_where(decls, f) < decls.len(),
        last_index_where(decls, f) >= 0 ==> f(decls[last_index_where(decls, f)]),
        forall|j: int|
            last_index_where(decls, f) < j < decls.len() ==> !f(#[trigger] decls[j]),
    decreases decls.len(),
{
    if decls.len() > 0 && !f(decls.last()) {
        lemma_last_index_where(decls.drop_last(), f);
        assert forall|j: int| last_index_where(decls, f) < j < decls.len() implies !f(
            #[trigger] decls[j],
        ) by {
            if j < decls.len() - 1 {
                assert(decls[j] == decls.drop_last()[j]);
            }
        }
    }
}

/// Any index that satisfies `f` with nothing after it satisfying `f` is the
/// one that `last_index_where` gives.
pub proof fn lemma_last_index_where_unique(
    decls: Seq<CssDeclaration>,
    f: spec_fn(CssDeclaration) -> bool,
    k: int,
)
    requires
        -1 <= k < decls.len(),
        k >= 0 ==> f(decls[k]),
        forall|j: int| k < j < decls.len() ==> !f(#[trigger] decls[j]),
    ensures
        last_index_where(decls, f) == k,
{
    lemma_last_index_where(decls, f);
    let r = last_index_where(decls, f);
    if r > k {
        assert(!f(decls[r]));
    } else if r < k {
        assert(!f(decls[k]));
    }
}

/// Finds the last declaration whose name satisfies the test that `ci`
/// selects: exact equality, or equality up to ASCII case.
fn find_last(decls: &Vec<CssDeclaration>, name: &str, ci: bool) -> (r: Option<usize>)
    ensures
        r matches Some(i) ==> i < decls@.len(),
        ci ==> match r {
            Some(i) => i as int == last_index_named_ci(decls@, name@),
            None => last_index_named_ci(decls@, name@) == -1,
        },
        !ci ==> match r {
            Some(i) => i as int == last_index_named(decls@, name@),
            None => last_index_named(decls@, name@) == -1,
        },
{
    let ghost f = if ci {
        |d: CssDeclaration| eq_ignore_ascii_case(d.name@, name@)
    } else {
        |d: CssDeclaration| d.name@ == name@
    };
    let mut i: usize = decls.len();
    while i > 0
        invariant
            i <= decls@.len(),
            forall|j: int| i <= j < decls@.len() ==> !f(#[trigger] decls@[j]),
            f == (if ci {
                |d: CssDeclaration| eq_ignore_ascii_case(d.name@, name@)
            } else {
                |d: CssDeclaration| d.name@ == name@
            }),
        decreases i,
    {
        let d = &decls[i - 1];
        let hit = if ci {
            str_eq_ignore_ascii_case(d.name.as_str(), name)
        } else {
            str_equal(d.name.as_str(), name)
        };
        assert(hit == f(decls@[i - 1]));
        if hit {
            proof {
                lemma_last_index_where_unique(decls@, f, i - 1);
            }
            return Some(i - 1);
        }
        i = i - 1;
    }
    proof {
        lemma_last_index_where_unique(decls@, f, -1);
    }
    None
}

impl CssStyleDeclaration {
    /// An empty, writable declaration block.
    pub fn new() -> (b: Self)
        ensures
            b.declarations@.len() == 0,
            !b.readonly,
    {
        CssStyleDeclaration { declarations: Vec::new(), readonly: false }
    }

    /// The number of declarations.
    pub fn len(&self) -> (n: usize)
        ensures
            n == self.declarations@.len(),
    {
        self.declarations.len()
    }

    /// Whether the block holds no declaration.
    pub fn is_empty(&self) -> (b: bool)
        ensures
            b == (self.declarations@.len() == 0),
    {
        self.declarations.len() == 0
    }

    /// An iterator over the declarations, in order.
    pub fn iter(&self) -> (it: std::slice::Iter<'_, CssDeclaration>)
        ensures
            it.remaining() == self.declarations@.as_ref(),
    {
        broadcast use vstd::std_specs::slice::axiom_spec_slice_iter;
        let s = self.declarations.as_slice();
        s.iter()
    }

    /// Mutable access to the declarations, in order.
    pub fn iter_mut(&mut self) -> (ds: &mut Vec<CssDeclaration>)
        ensures
            *ds == old(self).declarations,
            final(self).declarations == *final(ds),
            final(self).readonly == old(self).readonly,
    {
        &mut self.declarations
    }

    /// §8.6 cascade semantics: the **last** declaration named `name`.
    pub fn get_property(&self, name: &str) -> (r: Option<&CssDeclaration>)
        ensures
            match r {
                Some(d) => {
                    &&& last_index_named(self.declarations@, name@) >= 0
                    &&& *d == self.declarations@[last_index_named(self.declarations@, name@)]
                },
                None => last_index_named(self.declarations@, name@) == -1,
            },
    {
        match find_last(&self.declarations, name, false) {
            Some(i) => Some(&self.declarations[i]),
            None => None,
        }
    }

    /// The value of the last declaration named `name`.
    pub fn get_property_value(&self, name: &str) -> (r: Option<&[ComponentValue]>)
        ensures
            match r {
                Some(v) => {
                    &&& last_index_named(self.declarations@, name@) >= 0
                    &&& v@ == self.declarations@[last_index_named(
                        self.declarations@,
                        name@,
                    )].value@
                },
                None => last_index_named(self.declarations@, name@) == -1,
            },
    {
        match self.get_property(name) {
            Some(d) => Some(d.value.as_slice()),
            None => None,
        }
    }

    /// Appends a declaration at the end.
    pub fn push(&mut self, decl: CssDeclaration)
        ensures
            final(self).declarations@ == old(self).declarations@.push(decl),
            final(self).readonly == old(self).readonly,
    {
        self.declarations.push(decl);
    }

    /// A writable block holding `declarations`.
    pub fn from_vec(declarations: Vec<CssDeclaration>) -> (b: Self)
        ensures
            b.declarations == declarations,
            !b.readonly,
    {
        CssStyleDeclaration { declarations, readonly: false }
    }
}

impl Clone for CssDeclaration {
    fn clone(&self) -> (r: Self)
        ensures
            r@ == self@,
    {
        copy_css_declaration(self)
    }
}

impl Clone for CssStyleDeclaration {
    fn clone(&self) -> (r: Self)
        ensures
            r@ == self@,
    {
        CssStyleDeclaration {
            declarations: copy_css_declarations(&self.declarations),
            readonly: self.readonly,
        }
    }
}

impl Default for CssStyleDeclaration {
    fn default() -> (b: Self)
        ensures
            b.declarations@.len() == 0,
            !b.readonly,
    {
        CssStyleDeclaration::new()
    }
}

// ── serialization (§8.5, §8.6) ──────────────────────────────────────

/// §8.5 serialize a CSS declaration: `name: value`, then ` !important`
/// when flagged. The name is written as it is.
pub open spec fn decl_css(d: DeclarationModel) -> Seq<char> {
    d.name + seq![':', ' '] + cvs_css(d.value) + if d.important {
        " !important"@
    } else {
        seq![]
    }
}

/// §8.6 serialize a declaration block: each declaration followed by `;`,
/// separated by single spaces.
pub open spec fn decls_css(s: Seq<DeclarationModel>) -> Seq<char>
    decreases s.len(),
{
    if s.len() == 0 {
        seq![]
    } else if s.len() == 1 {
        decl_css(s[0]) + seq![';']
    } else {
        decls_css(s.drop_last()) + seq![' '] + decl_css(s.last()) + seq![';']
    }
}

/// Appends the serialization of a declaration.
pub fn push_declaration(out: &mut String, d: &CssDeclaration)
    ensures
        final(out)@ == old(out)@ + decl_css(d@),
{
    let ghost s0 = out@;
    out.append(d.name.as_str());
    push_char(out, ':');
    push_char(out, ' ');
    push_component_values(out, d.value.as_slice());
    if d.important {
        out.append(" !important");
    }
    assert(out@ =~= s0 + decl_css(d@));
}

/// Appends the serialization of a list of declarations, as a block.
pub fn push_declarations(out: &mut String, decls: &Vec<CssDeclaration>)
    ensures
        final(out)@ == old(out)@ + decls_css(css_decls_model(decls@)),
{
    let ghost s0 = out@;
    let mut i: usize = 0;
    while i < decls.len()
        invariant
            i <= decls@.len(),
            out@ == s0 + decls_css(css_decls_model(decls@.take(i as int))),
        decreases decls@.len() - i,
    {
        if i > 0 {
            push_char(out, ' ');
        }
        push_declaration(out, &decls[i]);
        push_char(out, ';');
        proof {
            let m = css_decls_model(decls@.take(i + 1));
            assert(m.drop_last() =~= css_decls_model(decls@.take(i as int)));
            assert(m.last() == decls@[i as int]@);
            if i == 0 {
                assert(m.len() == 1);
            }
        }
        assert(out@ =~= s0 + decls_css(css_decls_model(decls@.take(i + 1))));
        i = i + 1;
    }
    assert(decls@.take(decls@.len() as int) == decls@);
}

impl ToCss for CssDeclaration {
    open spec fn css_text(&self) -> Seq<char> {
        decl_css(self@)
    }

    fn to_css_string(&self) -> (s: String) {
        let mut out = String::new();
        push_declaration(&mut out, self);
        assert(out@ =~= decl_css(self@));
        out
    }
}

impl ToCss for CssStyleDeclaration {
    open spec fn css_text(&self) -> Seq<char> {
        decls_css(self@.declarations)
    }

    fn to_css_string(&self) -> (s: String) {
        let mut out = String::new();
        push_declarations(&mut out, &self.declarations);
        assert(out@ =~= decls_css(self@.declarations));
        out
    }
}

// ── laws ────────────────────────────────────────────────────────────

/// Read after write: after `push(d)`, the last declaration named `d.name`
/// is `d` itself (the one at the new last index), and for every other name
/// the last declaration is the one it was before.
pub proof fn law_push_then_get(decls: Seq<CssDeclaration>, d: CssDeclaration, other: Seq<char>)
    ensures
        last_index_named(decls.push(d), d.name@) == decls.len(),
        other != d.name@ ==> last_index_named(decls.push(d), other) == last_index_named(
            decls,
            other,
        ),
{
    assert(decls.push(d).drop_last() == decls);
    assert(decls.push(d).last() == d);
}

/// A declaration block is written as its declarations, each followed by `;`, separated by single spaces.
pub proof fn law_decls_css(s1: Seq<DeclarationModel>, s2: Seq<DeclarationModel>, x: DeclarationModel)
    ensures
        s1.len() > 0 && s2.len() > 0 ==> decls_css(s1 + s2) == decls_css(s1) + seq![' '] + decls_css(s2),
        decls_css(Seq::<DeclarationModel>::empty()) == Seq::<char>::empty(),
        decls_css(seq![x]) == decl_css(x) + seq![';'],
    decreases s2.len(),
{
    if s1.len() > 0 && s2.len() > 0 {
        if s2.len() == 1 {
            assert(s2 == seq![s2[0]]);
            assert((s1 + s2).drop_last() =~= s1);
            assert((s1 + s2).last() == s2[0]);
            assert(decls_css(s2) == decl_css(s2[0]) + seq![';']);
        } else {
            law_decls_css(s1, s2.drop_last(), x);
            assert((s1 + s2).drop_last() =~= s1 + s2.drop_last());
            assert((s1 + s2).last() == s2.last());
            assert(decls_css(s1 + s2) =~= decls_css(s1) + seq![' '] + decls_css(s2));
        }
    }
    assert(seq![x][0] == x);
}

/// A declaration is written as its name as given, `: `, its value and,
/// when it is important, ` !important`.
pub proof fn law_declaration_text(d: DeclarationModel)
    ensures
        decl_css(d) == d.name + ": "@ + cvs_css(d.value) + (if d.important {
            " !important"@
        } else {
            Seq::<char>::empty()
        }),
{
    reveal_strlit(": ");
    assert(": "@ =~= seq![':', ' ']);
}

} // verus!
