//! The declaration-block side of `element.style` (CSSOM §6.7,
//! `CSSStyleDeclaration`: `getPropertyValue`, `setProperty`,
//! `removeProperty`). Property names are matched up to ASCII case; an
//! element's `style` attribute is parsed into a block, changed here, and
//! serialized back.

use vstd::prelude::*;

use crate::declaration::{last_index_named_ci, last_index_where, lemma_last_index_where, lemma_last_index_where_unique, CssDeclaration, CssStyleDeclaration};
use crate::serialize::{cvs_css, push_component_values};
use crate::syntax::{cvs_model, ComponentValue};
use crate::text::{ascii_lower, ascii_lower_seq, eq_ignore_ascii_case, str_eq_ignore_ascii_case, to_ascii_lowercase};

verus! {

/// Whether a declaration's name matches `name` up to ASCII case.
pub open spec fn named_ci(d: CssDeclaration, name: Seq<char>) -> bool {
    eq_ignore_ascii_case(d.name@, name)
}

/// The declarations that remain once those named `name` (up to ASCII case)
/// are removed, in order.
pub open spec fn without_property(decls: Seq<CssDeclaration>, name: Seq<char>) -> Seq<CssDeclaration> {
    decls.filter(|d: CssDeclaration| !named_ci(d, name))
}

/// `setProperty(name, value)` with a non-empty value whose component values
/// are `tokens`: the last declaration named `name` (up to ASCII case) gets
/// the new value and keeps everything else; when there is none, a
/// declaration with the lower-cased name, the value, no `!important` and no
/// original text is appended.
pub open spec fn property_set(
    old: Seq<CssDeclaration>,
    new: Seq<CssDeclaration>,
    name: Seq<char>,
    tokens: Seq<ComponentValue>,
) -> bool {
    let i = last_index_named_ci(old, name);
    if i >= 0 {
        &&& new.len() == old.len()
        &&& forall|j: int| 0 <= j < old.len() && j != i ==> new[j] == old[j]
        &&& new[i].name == old[i].name
        &&& new[i].value@ == tokens
        &&& new[i].important == old[i].important
        &&& new[i].original_text == old[i].original_text
    } else {
        &&& new.len() == old.len() + 1
        &&& new.drop_last() == old
        &&& new.last().name@ == ascii_lower_seq(name)
        &&& new.last().value@ == tokens
        &&& !new.last().important
        &&& new.last().original_text is None
    }
}

/// The text of a declaration's value (§9 serialization of its component
/// values).
pub fn serialize_property_value(decl: &CssDeclaration) -> (s: String)
    ensures
        s@ == cvs_css(cvs_model(decl.value@)),
{
    let mut out = String::new();
    push_component_values(&mut out, decl.value.as_slice());
    assert(out@ =~= cvs_css(cvs_model(decl.value@)));
    out
}

fn find_last_ci(decls: &Vec<CssDeclaration>, name: &str) -> (r: Option<usize>)
    ensures
        match r {
            Some(i) => i < decls@.len() && i as int == last_index_named_ci(decls@, name@),
            None => last_index_named_ci(decls@, name@) == -1,
        },
{
    let ghost f = |d: CssDeclaration| eq_ignore_ascii_case(d.name@, name@);
    let mut i: usize = decls.len();
    while i > 0
        invariant
            i <= decls@.len(),
            f == (|d: CssDeclaration| eq_ignore_ascii_case(d.name@, name@)),
            forall|j: int| i <= j < decls@.len() ==> !f(#[trigger] decls@[j]),
        decreases i,
    {
        if str_eq_ignore_ascii_case(decls[i - 1].name.as_str(), name) {
            proof {
                lemma_last_index_where_unique(decls@, f, i - 1);
            }
            return Some(i - 1);
        }
        i = i - 1;
    }
    proof {
        lemma_last_index_where_unique(decls@, f, -1);
    }
    None
}

/// `getPropertyValue(name)`: the value text of the last declaration named
/// `name` (up to ASCII case), or `None` when there is none.
pub fn style_property_value(block: &CssStyleDeclaration, name: &str) -> (r: Option<String>)
    ensures
        match r {
            Some(s) => {
                &&& last_index_named_ci(block.declarations@, name@) >= 0
                &&& s@ == cvs_css(cvs_model(block.declarations@[last_index_named_ci(block.declarations@, name@)].value@))
            },
            None => last_index_named_ci(block.declarations@, name@) == -1,
        },
{
    match find_last_ci(&block.declarations, name) {
        Some(i) => Some(serialize_property_value(&block.declarations[i])),
        None => None,
    }
}

/// `removeProperty(name)`: removes every declaration named `name` (up to
/// ASCII case); says whether any was removed.
pub fn remove_style_property(block: &mut CssStyleDeclaration, name: &str) -> (removed: bool)
    ensures
        final(block).declarations@ == without_property(old(block).declarations@, name@),
        final(block).readonly == old(block).readonly,
        removed == (final(block).declarations@.len() != old(block).declarations@.len()),
{
    let ghost orig = block.declarations@;
    let ghost pred = |d: CssDeclaration| !named_ci(d, name@);
    let mut rest: Vec<CssDeclaration> = Vec::new();
    std::mem::swap(&mut rest, &mut block.declarations);
    let mut kept: Vec<CssDeclaration> = Vec::new();
    let mut k: usize = 0;
    let n = rest.len();
    while rest.len() > 0
        invariant
            n == orig.len(),
            k <= n,
            rest@ == orig.skip(k as int),
            kept@ == orig.take(k as int).filter(pred),
            pred == (|d: CssDeclaration| !named_ci(d, name@)),
        decreases rest@.len(),
    {
        let d = rest.remove(0);
        let ghost dd = d;
        let matches = str_eq_ignore_ascii_case(d.name.as_str(), name);
        if !matches {
            kept.push(d);
        }
        proof {
            assert(orig.take(k + 1).drop_last() == orig.take(k as int));
            assert(orig.take(k + 1).last() == dd);
            assert(orig.take(k + 1).filter(pred) == if pred(dd) {
                orig.take(k as int).filter(pred).push(dd)
            } else {
                orig.take(k as int).filter(pred)
            }) by {
                reveal(Seq::filter);
            }
            assert(orig.skip(k + 1) =~= orig.skip(k as int).remove(0));
        }
        k = k + 1;
    }
    assert(orig.take(n as int) == orig);
    let removed = kept.len() != n;
    block.declarations = kept;
    removed
}

/// `setProperty(name, value)`, given the component values `tokens` that
/// `value` parses to. An empty `value` removes the property instead. Says
/// whether the block changed and must be written back.
pub fn set_style_property(
    block: &mut CssStyleDeclaration,
    name: &str,
    value: &str,
    tokens: Vec<ComponentValue>,
) -> (changed: bool)
    ensures
        final(block).readonly == old(block).readonly,
        value@.len() == 0 ==> {
            &&& final(block).declarations@ == without_property(old(block).declarations@, name@)
            &&& changed == (final(block).declarations@.len() != old(block).declarations@.len())
        },
        value@.len() != 0 ==> {
            &&& property_set(old(block).declarations@, final(block).declarations@, name@, tokens@)
            &&& changed
        },
{
    if value.is_empty() {
        let lower = to_ascii_lowercase(name);
        proof {
            lemma_lower_same_names(old(block).declarations@, name@, lower@);
        }
        return remove_style_property(block, lower.as_str());
    }
    let lower = to_ascii_lowercase(name);
    proof {
        lemma_lower_same_names(block.declarations@, name@, lower@);
    }
    match find_last_ci(&block.declarations, lower.as_str()) {
        Some(i) => {
            let ghost before = block.declarations@;
            let mut d = block.declarations.remove(i);
            d.value = tokens;
            let ghost d2 = d;
            block.declarations.insert(i, d);
            assert(block.declarations@ =~= before.update(i as int, d2));
        },
        None => {
            let ghost before = block.declarations@;
            let d = CssDeclaration::new(lower.as_str(), tokens, false);
            block.declarations.push(d);
            assert(block.declarations@.drop_last() =~= before);
        },
    }
    true
}

/// ASCII lower-casing twice is lower-casing once.
proof fn lemma_ascii_lower_idempotent(s: Seq<char>)
    ensures
        ascii_lower_seq(ascii_lower_seq(s)) == ascii_lower_seq(s),
{
    assert(ascii_lower_seq(ascii_lower_seq(s)) =~= ascii_lower_seq(s));
}

/// Matching a name up to ASCII case is the same as matching its lower-cased
/// form.
proof fn lemma_lower_same_names(decls: Seq<CssDeclaration>, name: Seq<char>, lower: Seq<char>)
    requires
        lower == ascii_lower_seq(name),
    ensures
        last_index_named_ci(decls, lower) == last_index_named_ci(decls, name),
        without_property(decls, lower) == without_property(decls, name),
{
    lemma_ascii_lower_idempotent(name);
    let f1 = |d: CssDeclaration| eq_ignore_ascii_case(d.name@, lower);
    let f2 = |d: CssDeclaration| eq_ignore_ascii_case(d.name@, name);
    assert(f1 =~= f2);
    let p1 = |d: CssDeclaration| !named_ci(d, lower);
    let p2 = |d: CssDeclaration| !named_ci(d, name);
    assert(p1 =~= p2);
}

// ── laws ────────────────────────────────────────────────────────────

/// Read after write: once `setProperty(name, value)` has set a non-empty
/// value, `getPropertyValue(name)` finds a declaration (matching up to ASCII
/// case) whose value is the one that was set.
pub proof fn law_set_then_get(
    old: Seq<CssDeclaration>,
    new: Seq<CssDeclaration>,
    name: Seq<char>,
    tokens: Seq<ComponentValue>,
)
    requires
        property_set(old, new, name, tokens),
    ensures
        last_index_named_ci(new, name) >= 0,
        new[last_index_named_ci(new, name)].value@ == tokens,
{
    let f = |d: CssDeclaration| eq_ignore_ascii_case(d.name@, name);
    let i = last_index_named_ci(old, name);
    lemma_last_index_where(old, f);
    if i >= 0 {
        assert forall|j: int| i < j < new.len() implies !f(#[trigger] new[j]) by {
            assert(new[j] == old[j]);
        }
        assert(f(new[i]));
        lemma_last_index_where_unique(new, f, i);
    } else {
        lemma_ascii_lower_idempotent(name);
        assert(f(new.last()));
        lemma_last_index_where_unique(new, f, new.len() - 1);
    }
}

/// Setting one property leaves what `getPropertyValue` finds for any name
/// that differs from it (up to ASCII case) unchanged: the same declaration
/// at the same index.
pub proof fn law_set_keeps_other_properties(
    old: Seq<CssDeclaration>,
    new: Seq<CssDeclaration>,
    name: Seq<char>,
    tokens: Seq<ComponentValue>,
    other: Seq<char>,
)
    requires
        property_set(old, new, name, tokens),
        !eq_ignore_ascii_case(other, name),
    ensures
        last_index_named_ci(new, other) == last_index_named_ci(old, other),
        last_index_named_ci(old, other) >= 0 ==> new[last_index_named_ci(old, other)]
            == old[last_index_named_ci(old, other)],
{
    let f = |d: CssDeclaration| eq_ignore_ascii_case(d.name@, name);
    let g = |d: CssDeclaration| eq_ignore_ascii_case(d.name@, other);
    let i = last_index_named_ci(old, name);
    let k = last_index_named_ci(old, other);
    lemma_last_index_where(old, f);
    lemma_last_index_where(old, g);
    if i >= 0 {
        assert(k != i);
        assert forall|j: int| k < j < new.len() implies !g(#[trigger] new[j]) by {
            if j != i {
                assert(new[j] == old[j]);
            } else {
                assert(new[j].name == old[j].name);
                assert(!g(old[j]));
            }
        }
        if k >= 0 {
            assert(new[k] == old[k]);
        }
        lemma_last_index_where_unique(new, g, k);
    } else {
        lemma_ascii_lower_idempotent(name);
        assert(!g(new.last()));
        assert forall|j: int| k < j < new.len() implies !g(#[trigger] new[j]) by {
            if j < old.len() {
                assert(new[j] == new.drop_last()[j]);
            }
        }
        if k >= 0 {
            assert(new[k] == new.drop_last()[k]);
        }
        lemma_last_index_where_unique(new, g, k);
    }
}

/// After `removeProperty(name)`, `getPropertyValue(name)` finds nothing.
pub proof fn law_remove_then_get(decls: Seq<CssDeclaration>, name: Seq<char>)
    ensures
        last_index_named_ci(without_property(decls, name), name) == -1,
{
    let p = |d: CssDeclaration| !named_ci(d, name);
    let f = |d: CssDeclaration| eq_ignore_ascii_case(d.name@, name);
    let w = without_property(decls, name);
    assert forall|j: int| -1 < j < w.len() implies !f(#[trigger] w[j]) by {
        decls.lemma_filter_pred(p, j);
    }
    lemma_last_index_where_unique(w, f, -1);
}

/// `removeProperty` keeps every declaration whose name does not match (up
/// to ASCII case), in order, and drops every one that does.
pub proof fn law_remove_keeps_others(s1: Seq<CssDeclaration>, s2: Seq<CssDeclaration>, d: CssDeclaration, name: Seq<char>)
    ensures
        without_property(s1 + s2, name) == without_property(s1, name) + without_property(s2, name),
        without_property(seq![d], name) == if ascii_lower_seq(d.name@) == ascii_lower_seq(name) {
            Seq::<CssDeclaration>::empty()
        } else {
            seq![d]
        },
{
    let p = |x: CssDeclaration| !named_ci(x, name);
    Seq::filter_distributes_over_add(s1, s2, p);
    reveal(Seq::filter);
    assert(seq![d].drop_last() =~= Seq::<CssDeclaration>::empty());
    assert(Seq::<CssDeclaration>::empty().filter(p) =~= Seq::<CssDeclaration>::empty());
    assert(without_property(seq![d], name) =~= if ascii_lower_seq(d.name@) == ascii_lower_seq(name) {
        Seq::<CssDeclaration>::empty()
    } else {
        seq![d]
    });
}

} // verus!
