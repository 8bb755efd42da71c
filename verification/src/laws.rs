//! What holds of every pass and of every run of passes.

use crate::catalog::CatalogView;
use crate::driver::run;
use crate::pass::{
    catalog_of, end_of, exported_names, is_dropped, lemma_retained_empty, lemma_retained_push,
    pass, retained, start_of, stays, visit_expr, visit_exprs, visit_item, visit_items, walked,
    InlinerView,
};
use crate::syntax::{ExprView, ItemView};
use vstd::prelude::*;

verus! {

/// How many references to `name` stand in `e`.
pub open spec fn references_in(e: ExprView, name: Seq<char>) -> nat
    decreases e,
{
    match e {
        ExprView::Ident(n) => if n == name {
            1
        } else {
            0
        },
        ExprView::Node { children, .. } => references_in_all(children, name),
    }
}

/// How many references to `name` stand in the expressions of `es`.
pub open spec fn references_in_all(es: Seq<ExprView>, name: Seq<char>) -> nat
    decreases es,
{
    if es.len() == 0 {
        0
    } else {
        references_in_all(es.drop_last(), name) + references_in(es.last(), name)
    }
}

/// How many references to `name` stand in the expressions of `item`.
pub open spec fn references_in_item(item: ItemView, name: Seq<char>) -> nat {
    match item {
        ItemView::Declaration { init, .. } => match init {
            Some(e) => references_in(e, name),
            None => 0,
        },
        ItemView::Export { exprs, .. } => references_in_all(exprs, name),
        ItemView::Statement { exprs, .. } => references_in_all(exprs, name),
    }
}

/// How many references to `name` stand in the program.
pub open spec fn references(items: Seq<ItemView>, name: Seq<char>) -> nat
    decreases items.len(),
{
    if items.len() == 0 {
        0
    } else {
        references(items.drop_last(), name) + references_in_item(items.last(), name)
    }
}

/// Two catalogs differ at most in their counters.
pub open spec fn same_bindings(a: CatalogView, b: CatalogView) -> bool {
    &&& a.exported == b.exported
    &&& a.bindings.dom() == b.bindings.dom()
    &&& forall|n: Seq<char>| #[trigger]
        a.bindings.dom().contains(n) ==> a.bindings[n].init == b.bindings[n].init
}

/// No reference has been counted yet.
pub open spec fn untouched(catalog: CatalogView) -> bool {
    forall|n: Seq<char>| #[trigger]
        catalog.bindings.dom().contains(n) ==> catalog.bindings[n].uses == 0
}

/// The counter of `name` after `found` references to it were met: a
/// candidate's counter has gone up by that number, any other is as it was.
pub open spec fn uses_after(catalog: CatalogView, name: Seq<char>, found: nat) -> nat {
    if catalog.is_candidate(name) {
        catalog.uses(name) + found
    } else {
        catalog.uses(name)
    }
}

/// The walk over an expression changes nothing in the catalog but the
/// counters; the counter of a candidate goes up by the number of references
/// to it in the expression, as it was before the walk; and a pass that has
/// changed something stays so.
pub proof fn lemma_walk_expr(st: InlinerView, e: ExprView, name: Seq<char>)
    ensures
        same_bindings(st.catalog, visit_expr(st, e).0.catalog),
        visit_expr(st, e).0.catalog.uses(name) == uses_after(
            st.catalog,
            name,
            references_in(e, name),
        ),
        st.inlined ==> visit_expr(st, e).0.inlined,
    decreases e,
{
    match e {
        ExprView::Ident(n) => {
            let after = st.catalog.record_use(n);
            if st.catalog.is_candidate(n) {
                assert(after.bindings.dom() =~= st.catalog.bindings.dom());
            }
        },
        ExprView::Node { tag, children } => {
            lemma_walk_exprs(st, children, name);
        },
    }
}

/// The same of the walk over a sequence of expressions.
pub proof fn lemma_walk_exprs(st: InlinerView, es: Seq<ExprView>, name: Seq<char>)
    ensures
        same_bindings(st.catalog, visit_exprs(st, es).0.catalog),
        visit_exprs(st, es).0.catalog.uses(name) == uses_after(
            st.catalog,
            name,
            references_in_all(es, name),
        ),
        st.inlined ==> visit_exprs(st, es).0.inlined,
        visit_exprs(st, es).1.len() == es.len(),
    decreases es,
{
    if es.len() > 0 {
        lemma_walk_exprs(st, es.drop_last(), name);
        let before = visit_exprs(st, es.drop_last()).0;
        lemma_walk_expr(before, es.last(), name);
    }
}

/// The same of the walk over one item, which keeps the item's kind, tag and
/// names.
pub proof fn lemma_walk_item(st: InlinerView, item: ItemView, name: Seq<char>)
    ensures
        same_bindings(st.catalog, visit_item(st, item).0.catalog),
        visit_item(st, item).0.catalog.uses(name) == uses_after(
            st.catalog,
            name,
            references_in_item(item, name),
        ),
        st.inlined ==> visit_item(st, item).0.inlined,
        same_head(item, visit_item(st, item).1),
{
    match item {
        ItemView::Declaration { init, .. } => match init {
            Some(e) => lemma_walk_expr(st, e, name),
            None => {},
        },
        ItemView::Export { exprs, .. } => lemma_walk_exprs(st, exprs, name),
        ItemView::Statement { exprs, .. } => lemma_walk_exprs(st, exprs, name),
    }
}

/// Two items are of one kind and have the same tag and names; a declaration
/// has an initializer in both or in neither.
pub open spec fn same_head(a: ItemView, b: ItemView) -> bool {
    match a {
        ItemView::Declaration { tag, name, init } => b matches ItemView::Declaration {
            tag: other_tag,
            name: other_name,
            init: other_init,
        } && tag == other_tag && name == other_name && (init is Some == other_init is Some),
        ItemView::Export { tag, names, .. } => b matches ItemView::Export {
            tag: other_tag,
            names: other_names,
            ..
        } && tag == other_tag && names == other_names,
        ItemView::Statement { tag, .. } => b matches ItemView::Statement { tag: other_tag, .. }
            && tag == other_tag,
    }
}

/// The same of the walk over a program, which leaves as many items as it
/// found, each with the head that it had.
pub proof fn lemma_walk_items(st: InlinerView, items: Seq<ItemView>, name: Seq<char>)
    ensures
        same_bindings(st.catalog, visit_items(st, items).0.catalog),
        visit_items(st, items).0.catalog.uses(name) == uses_after(
            st.catalog,
            name,
            references(items, name),
        ),
        st.inlined ==> visit_items(st, items).0.inlined,
        visit_items(st, items).1.len() == items.len(),
        forall|i: int|
            0 <= i < items.len() ==> same_head(items[i], #[trigger] visit_items(st, items).1[i]),
    decreases items.len(),
{
    if items.len() > 0 {
        lemma_walk_items(st, items.drop_last(), name);
        let before = visit_items(st, items.drop_last()).0;
        lemma_walk_item(before, items.last(), name);
    }
}

/// A walk that starts before any reference was counted and ends without a
/// change has left the expression and the state as they were.
pub proof fn lemma_inert_expr(st: InlinerView, e: ExprView)
    requires
        untouched(st.catalog),
        !visit_expr(st, e).0.inlined,
    ensures
        visit_expr(st, e) == (st, e),
    decreases e,
{
    match e {
        ExprView::Ident(n) => {},
        ExprView::Node { tag, children } => {
            lemma_inert_exprs(st, children);
        },
    }
}

/// The same of the walk over a sequence of expressions.
pub proof fn lemma_inert_exprs(st: InlinerView, es: Seq<ExprView>)
    requires
        untouched(st.catalog),
        !visit_exprs(st, es).0.inlined,
    ensures
        visit_exprs(st, es) == (st, es),
    decreases es,
{
    if es.len() > 0 {
        let before = visit_exprs(st, es.drop_last()).0;
        lemma_walk_expr(before, es.last(), Seq::empty());
        lemma_inert_exprs(st, es.drop_last());
        lemma_inert_expr(st, es.last());
    } else {
    }
}

/// The same of the walk over one item.
pub proof fn lemma_inert_item(st: InlinerView, item: ItemView)
    requires
        untouched(st.catalog),
        !visit_item(st, item).0.inlined,
    ensures
        visit_item(st, item) == (st, item),
{
    match item {
        ItemView::Declaration { init, .. } => match init {
            Some(e) => lemma_inert_expr(st, e),
            None => {},
        },
        ItemView::Export { exprs, .. } => lemma_inert_exprs(st, exprs),
        ItemView::Statement { exprs, .. } => lemma_inert_exprs(st, exprs),
    }
}

/// The same of the walk over a program.
pub proof fn lemma_inert_items(st: InlinerView, items: Seq<ItemView>)
    requires
        untouched(st.catalog),
        !visit_items(st, items).0.inlined,
    ensures
        visit_items(st, items) == (st, items),
    decreases items.len(),
{
    if items.len() > 0 {
        let before = visit_items(st, items.drop_last()).0;
        lemma_walk_item(before, items.last(), Seq::empty());
        lemma_inert_items(st, items.drop_last());
        lemma_inert_item(st, items.last());
    } else {
    }
}

/// Where no item is dropped, all items stay.
pub proof fn lemma_retained_all(catalog: CatalogView, items: Seq<ItemView>)
    requires
        forall|i: int| 0 <= i < items.len() ==> !is_dropped(catalog, #[trigger] items[i]),
    ensures
        retained(catalog, items) == items,
    decreases items.len(),
{
    if items.len() > 0 {
        lemma_retained_all(catalog, items.drop_last());
        lemma_retained_push(catalog, items.drop_last(), items.last());
        assert(items.drop_last().push(items.last()) =~= items);
    } else {
        lemma_retained_empty(catalog);
    }
}

/// A pass that reports no change has left the program as it was.
pub proof fn law_inert_pass_keeps_program(items: Seq<ItemView>)
    requires
        !pass(items).1,
    ensures
        pass(items).0 == items,
{
    let start = start_of(items);
    lemma_inert_items(start, items);
    lemma_retained_all(start.catalog, items);
}

/// Idempotence of the fixpoint: the program that a settled run leaves is one
/// on which the next pass changes nothing, so that a second run on it ends
/// with its first pass and returns it unchanged.
pub proof fn law_fixpoint_idempotent(items: Seq<ItemView>, passes: nat, again: nat)
    requires
        run(items, passes).1,
        again >= 1,
    ensures
        pass(run(items, passes).0) == (run(items, passes).0, false),
        run(run(items, passes).0, again) == (run(items, passes).0, true),
    decreases passes,
{
    let (next, changed) = pass(items);
    if changed {
        law_fixpoint_idempotent(next, (passes - 1) as nat, again);
    } else {
        law_inert_pass_keeps_program(items);
    }
}

/// A pass never adds an item: it leaves at most as many as it found.
pub proof fn law_pass_never_grows(items: Seq<ItemView>)
    ensures
        pass(items).0.len() <= items.len(),
{
    lemma_walk_items(start_of(items), items, Seq::empty());
    walked(items).lemma_filter_len(stays(end_of(items).catalog));
}

/// Usage counts: at the end of a pass the counter of each candidate is the
/// number of references to its name in the program as the pass found it, and
/// the catalog is otherwise the one that the pass started from.
pub proof fn law_usage_counts_references(items: Seq<ItemView>, name: Seq<char>)
    ensures
        same_bindings(catalog_of(items), end_of(items).catalog),
        end_of(items).catalog.is_candidate(name) == catalog_of(items).is_candidate(name),
        end_of(items).catalog.uses(name) == if catalog_of(items).is_candidate(name) {
            references(items, name)
        } else {
            0
        },
{
    lemma_walk_items(start_of(items), items, name);
}

/// The item declares a candidate to whose name the program refers exactly
/// once.
pub open spec fn is_used_once(items: Seq<ItemView>, item: ItemView) -> bool {
    item matches ItemView::Declaration { name, .. } && catalog_of(items).is_candidate(name)
        && references(items, name) == 1
}

/// A pass drops the item at place `i` exactly when it declares a candidate
/// to whose name the program, as the pass found it, refers exactly once. A
/// candidate that is referenced never or more than once keeps its
/// declaration.
pub proof fn law_dropped_exactly_when_used_once(items: Seq<ItemView>, i: int)
    requires
        0 <= i < items.len(),
    ensures
        walked(items).len() == items.len(),
        is_dropped(end_of(items).catalog, walked(items)[i]) <==> is_used_once(items, items[i]),
{
    lemma_walk_items(start_of(items), items, Seq::empty());
    match items[i] {
        ItemView::Declaration { name, .. } => {
            law_usage_counts_references(items, name);
        },
        _ => {},
    }
}

/// Export preservation, of a reference: the walk over a reference to an
/// exported name leaves the reference and the state as they were.
pub proof fn law_exported_reference_stays(st: InlinerView, name: Seq<char>)
    requires
        st.catalog.exported.contains(name),
    ensures
        visit_expr(st, ExprView::Ident(name)) == (st, ExprView::Ident(name)),
{
}

/// Export preservation, of an item: a pass drops no export, and it drops no
/// declaration of a name that some export of the program names, however
/// often the name is referenced.
pub proof fn law_exported_item_stays(items: Seq<ItemView>, i: int)
    requires
        0 <= i < items.len(),
        items[i] is Export || (items[i] matches ItemView::Declaration { name, .. }
            && exported_names(items).contains(name)),
    ensures
        walked(items).len() == items.len(),
        !is_dropped(end_of(items).catalog, walked(items)[i]),
{
    law_dropped_exactly_when_used_once(items, i);
}

/// The pass has changed something exactly when a reference to some
/// candidate has been counted.
pub open spec fn flag_follows_counts(st: InlinerView) -> bool {
    st.inlined <==> exists|n: Seq<char>|
        st.catalog.is_candidate(n) && #[trigger] st.catalog.uses(n) >= 1
}

/// The walk over an expression keeps the flag in step with the counters.
pub proof fn lemma_flag_expr(st: InlinerView, e: ExprView)
    requires
        flag_follows_counts(st),
    ensures
        flag_follows_counts(visit_expr(st, e).0),
    decreases e,
{
    let after = visit_expr(st, e).0;
    match e {
        ExprView::Ident(name) => {
            if st.catalog.is_candidate(name) {
                if after.catalog.uses(name) != 1 {
                    assert(st.catalog.is_candidate(name) && st.catalog.uses(name) >= 1);
                }
            } else {
            }
        },
        ExprView::Node { tag, children } => {
            lemma_flag_exprs(st, children);
        },
    }
}

/// The same of the walk over a sequence of expressions.
pub proof fn lemma_flag_exprs(st: InlinerView, es: Seq<ExprView>)
    requires
        flag_follows_counts(st),
    ensures
        flag_follows_counts(visit_exprs(st, es).0),
    decreases es,
{
    if es.len() > 0 {
        lemma_flag_exprs(st, es.drop_last());
        lemma_flag_expr(visit_exprs(st, es.drop_last()).0, es.last());
    }
}

/// The same of the walk over a program.
pub proof fn lemma_flag_items(st: InlinerView, items: Seq<ItemView>)
    requires
        flag_follows_counts(st),
    ensures
        flag_follows_counts(visit_items(st, items).0),
    decreases items.len(),
{
    if items.len() > 0 {
        lemma_flag_items(st, items.drop_last());
        let before = visit_items(st, items.drop_last()).0;
        match items.last() {
            ItemView::Declaration { init, .. } => match init {
                Some(e) => lemma_flag_expr(before, e),
                None => {},
            },
            ItemView::Export { exprs, .. } => lemma_flag_exprs(before, exprs),
            ItemView::Statement { exprs, .. } => lemma_flag_exprs(before, exprs),
        }
    }
}

/// A pass reports a change exactly when the program, as the pass found it,
/// refers to some candidate.
pub proof fn law_changed_exactly_when_a_candidate_is_used(items: Seq<ItemView>)
    ensures
        pass(items).1 <==> exists|name: Seq<char>|
            catalog_of(items).is_candidate(name) && #[trigger] references(items, name) >= 1,
{
    let start = start_of(items);
    let (after, rewritten) = visit_items(start, items);
    lemma_flag_items(start, items);
    if after.inlined {
        let name = choose|n: Seq<char>|
            after.catalog.is_candidate(n) && #[trigger] after.catalog.uses(n) >= 1;
        law_usage_counts_references(items, name);
    }
    if exists|name: Seq<char>|
        catalog_of(items).is_candidate(name) && #[trigger] references(items, name) >= 1 {
        let name = choose|name: Seq<char>|
            catalog_of(items).is_candidate(name) && #[trigger] references(items, name) >= 1;
        law_usage_counts_references(items, name);
    }
    if pass(items).1 && !after.inlined {
        let i = choose|i: int|
            0 <= i < rewritten.len() && is_dropped(after.catalog, #[trigger] rewritten[i]);
        let name = rewritten[i]->Declaration_name;
    }
}

/// A candidate to whose name the program refers exactly once leaves no
/// declaration behind: no item that the pass leaves declares its name.
pub proof fn law_inlined_binding_leaves_no_declaration(
    items: Seq<ItemView>,
    name: Seq<char>,
    k: int,
)
    requires
        catalog_of(items).is_candidate(name),
        references(items, name) == 1,
        0 <= k < pass(items).0.len(),
    ensures
        !(pass(items).0[k] matches ItemView::Declaration { name: declared, .. } && declared
            == name),
{
    law_usage_counts_references(items, name);
    walked(items).lemma_filter_pred(stays(end_of(items).catalog), k);
}

/// Marking a name as exported twice is marking it once.
pub proof fn law_register_export_idempotent(catalog: CatalogView, name: Seq<char>)
    ensures
        catalog.register_export(name).register_export(name) == catalog.register_export(name),
{
    assert(catalog.exported.insert(name).insert(name) =~= catalog.exported.insert(name));
}

/// A declaration of an exported name is not recorded, whatever the catalog
/// held before.
pub proof fn law_exported_name_is_not_recorded(
    catalog: CatalogView,
    name: Seq<char>,
    init: ExprView,
)
    requires
        catalog.exported.contains(name),
    ensures
        catalog.register_binding(name, init) == catalog,
{
}

/// A pass makes no item: each item that it leaves has the head of an item
/// that it found, so that a declaration that was dropped does not come back.
pub proof fn law_pass_makes_no_item(items: Seq<ItemView>, k: int)
    requires
        0 <= k < pass(items).0.len(),
    ensures
        exists|i: int| 0 <= i < items.len() && same_head(#[trigger] items[i], pass(items).0[k]),
{
    lemma_walk_items(start_of(items), items, Seq::empty());
    let kept = pass(items).0;
    walked(items).lemma_filter_contains_rev(stays(end_of(items).catalog), kept[k]);
    let i = choose|i: int| 0 <= i < walked(items).len() && walked(items)[i] == kept[k];
}

} // verus!
