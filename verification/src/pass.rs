//! What one pass does, stated over the models of the program and the catalog.
//!
//! A pass has three steps. The catalog is filled from the whole program: the
//! exported names first, then the declarations that assign an initializer.
//! The expressions are then walked in source order, and a reference that
//! brings a candidate's counter to exactly 1 is replaced by the initializer
//! recorded for it; what was put in is not walked again in the same pass.
//! Last, each declaration whose name ended with a counter of exactly 1 is
//! dropped.

use crate::catalog::{BindingView, CatalogView};
use crate::syntax::{ExprView, ItemView};
use vstd::prelude::*;

verus! {

/// Mathematical model of an inliner: its catalog, and whether the pass has
/// changed anything so far.
pub struct InlinerView {
    pub catalog: CatalogView,
    pub inlined: bool,
}

/// `item` is an export that names `name`.
pub open spec fn exports(item: ItemView, name: Seq<char>) -> bool {
    item matches ItemView::Export { names, .. } && names.contains(name)
}

/// `item` is a declaration that assigns an initializer to `name`.
pub open spec fn declares(item: ItemView, name: Seq<char>) -> bool {
    item matches ItemView::Declaration { name: declared, init: Some(_), .. } && declared == name
}

/// The names that some export of the program names.
pub open spec fn exported_names(items: Seq<ItemView>) -> Set<Seq<char>> {
    Set::new(
        |name: Seq<char>| exists|i: int| 0 <= i < items.len() && exports(#[trigger] items[i], name),
    )
}

/// `i` is the place of the last declaration of the program that assigns an
/// initializer to `name`.
pub open spec fn is_last_declaration(items: Seq<ItemView>, name: Seq<char>, i: int) -> bool {
    &&& 0 <= i < items.len()
    &&& declares(items[i], name)
    &&& forall|j: int| i < j < items.len() ==> !declares(#[trigger] items[j], name)
}

/// The place of the last declaration that assigns an initializer to `name`.
pub open spec fn last_declaration(items: Seq<ItemView>, name: Seq<char>) -> int {
    choose|i: int| is_last_declaration(items, name, i)
}

/// The bindings that a pass records where `exported` are the exported names:
/// one for each name that is not exported and that some declaration assigns
/// an initializer to. The binding holds the initializer of the last such
/// declaration, and no reference is counted yet.
pub open spec fn bindings_of(exported: Set<Seq<char>>, items: Seq<ItemView>) -> Map<
    Seq<char>,
    BindingView,
> {
    Map::new(
        |name: Seq<char>|
            !exported.contains(name) && exists|i: int|
                0 <= i < items.len() && declares(#[trigger] items[i], name),
        |name: Seq<char>|
            BindingView { init: items[last_declaration(items, name)]->init->0, uses: 0 },
    )
}

/// The catalog that a pass starts from: the exported names of the whole
/// program, and the bindings of the whole program under them.
pub open spec fn catalog_of(items: Seq<ItemView>) -> CatalogView {
    CatalogView {
        exported: exported_names(items),
        bindings: bindings_of(exported_names(items), items),
    }
}

/// The walk over one expression: the state after it, and the expression
/// that stands in its place.
///
/// A reference to a candidate is counted. If that brings the counter to
/// exactly 1, the initializer recorded for the name takes the reference's
/// place and the pass has changed something. Any other reference stays, and
/// the operands of any other expression are walked in order.
pub open spec fn visit_expr(st: InlinerView, e: ExprView) -> (InlinerView, ExprView)
    decreases e,
{
    match e {
        ExprView::Ident(name) => {
            let catalog = st.catalog.record_use(name);
            if st.catalog.is_candidate(name) && catalog.uses(name) == 1 {
                (InlinerView { catalog, inlined: true }, st.catalog.bindings[name].init)
            } else {
                (InlinerView { catalog, inlined: st.inlined }, e)
            }
        },
        ExprView::Node { tag, children } => {
            let (after, rewritten) = visit_exprs(st, children);
            (after, ExprView::Node { tag, children: rewritten })
        },
    }
}

/// The walk over a sequence of expressions, from the first to the last.
pub open spec fn visit_exprs(st: InlinerView, es: Seq<ExprView>) -> (InlinerView, Seq<ExprView>)
    decreases es,
{
    if es.len() == 0 {
        (st, Seq::empty())
    } else {
        let (before, done) = visit_exprs(st, es.drop_last());
        let (after, e) = visit_expr(before, es.last());
        (after, done.push(e))
    }
}

/// The walk over the expressions of one item.
pub open spec fn visit_item(st: InlinerView, item: ItemView) -> (InlinerView, ItemView) {
    match item {
        ItemView::Declaration { tag, name, init } => match init {
            Some(e) => {
                let (after, rewritten) = visit_expr(st, e);
                (after, ItemView::Declaration { tag, name, init: Some(rewritten) })
            },
            None => (st, item),
        },
        ItemView::Export { tag, names, exprs } => {
            let (after, rewritten) = visit_exprs(st, exprs);
            (after, ItemView::Export { tag, names, exprs: rewritten })
        },
        ItemView::Statement { tag, exprs } => {
            let (after, rewritten) = visit_exprs(st, exprs);
            (after, ItemView::Statement { tag, exprs: rewritten })
        },
    }
}

/// The walk over the items of a program, from the first to the last.
pub open spec fn visit_items(st: InlinerView, items: Seq<ItemView>) -> (InlinerView, Seq<ItemView>)
    decreases items.len(),
{
    if items.len() == 0 {
        (st, Seq::empty())
    } else {
        let (before, done) = visit_items(st, items.drop_last());
        let (after, item) = visit_item(before, items.last());
        (after, done.push(item))
    }
}

/// An item is dropped when it declares a candidate whose counter stands at
/// exactly 1.
pub open spec fn is_dropped(catalog: CatalogView, item: ItemView) -> bool {
    item matches ItemView::Declaration { name, .. } && catalog.is_candidate(name) && catalog.uses(
        name,
    ) == 1
}

/// The test that an item passes when it stays.
pub open spec fn stays(catalog: CatalogView) -> spec_fn(ItemView) -> bool {
    |item: ItemView| !is_dropped(catalog, item)
}

/// The items that stay, in their order.
pub open spec fn retained(catalog: CatalogView, items: Seq<ItemView>) -> Seq<ItemView> {
    items.filter(stays(catalog))
}

/// The state after the last step: the pass has changed something if it had
/// before or if an item is dropped.
pub open spec fn after_retain(st: InlinerView, items: Seq<ItemView>) -> InlinerView {
    InlinerView {
        catalog: st.catalog,
        inlined: st.inlined || exists|i: int|
            0 <= i < items.len() && is_dropped(st.catalog, #[trigger] items[i]),
    }
}

/// The inliner at the start of a pass over `items`.
pub open spec fn start_of(items: Seq<ItemView>) -> InlinerView {
    InlinerView { catalog: catalog_of(items), inlined: false }
}

/// The items as the walk of a pass over `items` leaves them, before any of
/// them is dropped.
pub open spec fn walked(items: Seq<ItemView>) -> Seq<ItemView> {
    visit_items(start_of(items), items).1
}

/// The inliner at the end of a pass over `items`.
pub open spec fn end_of(items: Seq<ItemView>) -> InlinerView {
    after_retain(visit_items(start_of(items), items).0, walked(items))
}

/// One pass: the program that it leaves, and whether it changed anything.
pub open spec fn pass(items: Seq<ItemView>) -> (Seq<ItemView>, bool) {
    (retained(end_of(items).catalog, walked(items)), end_of(items).inlined)
}

/// The exported names of a program with one more item at its end.
pub proof fn lemma_exported_names_push(items: Seq<ItemView>, item: ItemView)
    ensures
        exported_names(items.push(item)) == match item {
            ItemView::Export { names, .. } => exported_names(items).union(names.to_set()),
            _ => exported_names(items),
        },
{
    let longer = items.push(item);
    let expected = match item {
        ItemView::Export { names, .. } => exported_names(items).union(names.to_set()),
        _ => exported_names(items),
    };
    assert forall|name: Seq<char>| exported_names(longer).contains(name) implies expected.contains(
        name,
    ) by {
        let i = choose|i: int| 0 <= i < longer.len() && exports(#[trigger] longer[i], name);
        if i < items.len() {
        }
    }
    assert forall|name: Seq<char>| expected.contains(name) implies exported_names(longer).contains(
        name,
    ) by {
        if exported_names(items).contains(name) {
            let i = choose|i: int| 0 <= i < items.len() && exports(#[trigger] items[i], name);
            assert(exports(longer[i], name));
        } else {
            assert(exports(longer[items.len() as int], name));
        }
    }
}

/// Where some declaration assigns an initializer to `name`, there is a last
/// one, and `last_declaration` is its place.
pub proof fn lemma_last_declaration(items: Seq<ItemView>, name: Seq<char>)
    requires
        exists|i: int| 0 <= i < items.len() && declares(#[trigger] items[i], name),
    ensures
        is_last_declaration(items, name, last_declaration(items, name)),
    decreases items.len(),
{
    if declares(items.last(), name) {
        assert(is_last_declaration(items, name, items.len() - 1));
    } else {
        let shorter = items.drop_last();
        let i = choose|i: int| 0 <= i < items.len() && declares(#[trigger] items[i], name);
        assert(declares(shorter[i], name));
        lemma_last_declaration(shorter, name);
        let last = last_declaration(shorter, name);
        assert forall|j: int| last < j < items.len() implies !declares(
            #[trigger] items[j],
            name,
        ) by {
            if j < shorter.len() {
                assert(!declares(shorter[j], name));
            }
        }
        assert(is_last_declaration(items, name, last));
    }
}

/// The bindings of a program with one more item at its end.
pub proof fn lemma_bindings_of_push(exported: Set<Seq<char>>, items: Seq<ItemView>, item: ItemView)
    ensures
        bindings_of(exported, items.push(item)) == match item {
            ItemView::Declaration { name, init: Some(e), .. } => if exported.contains(name) {
                bindings_of(exported, items)
            } else {
                bindings_of(exported, items).insert(name, BindingView { init: e, uses: 0 })
            },
            _ => bindings_of(exported, items),
        },
{
    let longer = items.push(item);
    let expected = match item {
        ItemView::Declaration { name, init: Some(e), .. } => if exported.contains(name) {
            bindings_of(exported, items)
        } else {
            bindings_of(exported, items).insert(name, BindingView { init: e, uses: 0 })
        },
        _ => bindings_of(exported, items),
    };
    let got = bindings_of(exported, longer);
    assert forall|name: Seq<char>| got.dom().contains(name) implies expected.dom().contains(
        name,
    ) by {
        let i = choose|i: int| 0 <= i < longer.len() && declares(#[trigger] longer[i], name);
        if i < items.len() {
        }
    }
    assert forall|name: Seq<char>| expected.dom().contains(name) implies #[trigger]
        got.dom().contains(name) && got[name] == expected[name] by {
        if declares(item, name) {
            assert(declares(longer[items.len() as int], name));
            lemma_last_declaration(longer, name);
        } else {
            let i = choose|i: int| 0 <= i < items.len() && declares(#[trigger] items[i], name);
            assert(declares(longer[i], name));
            lemma_last_declaration(items, name);
            lemma_last_declaration(longer, name);
            let a = last_declaration(items, name);
            let b = last_declaration(longer, name);
            assert(declares(longer[a], name));
        }
    }
}

/// The items that stay of a program with one more item at its end.
pub proof fn lemma_retained_push(catalog: CatalogView, items: Seq<ItemView>, item: ItemView)
    ensures
        retained(catalog, items.push(item)) == if is_dropped(catalog, item) {
            retained(catalog, items)
        } else {
            retained(catalog, items).push(item)
        },
{
    items.lemma_filter_push(item, stays(catalog));
}

/// Of no items none stays.
pub proof fn lemma_retained_empty(catalog: CatalogView)
    ensures
        retained(catalog, Seq::empty()) == Seq::<ItemView>::empty(),
{
    reveal(Seq::filter);
}

} // verus!
