//! The rewriter: one pass over a program.

use crate::catalog::{BindingView, Catalog, CatalogView};
use crate::pass::{
    after_retain, bindings_of, end_of, exported_names, is_dropped, lemma_bindings_of_push,
    lemma_exported_names_push, lemma_retained_empty, lemma_retained_push, pass, retained,
    visit_expr, visit_exprs, visit_item, visit_items, InlinerView,
};
use crate::syntax::{expr_views, item_views, name_views, Expr, Item, Program};
use vstd::prelude::*;

verus! {

/// The state of one pass: the catalog, and whether the pass has changed
/// anything so far.
pub struct Inliner {
    catalog: Catalog,
    inlined: bool,
}

impl View for Inliner {
    type V = InlinerView;

    closed spec fn view(&self) -> InlinerView {
        InlinerView { catalog: self.catalog@, inlined: self.inlined }
    }
}

impl Inliner {
    /// The catalog's stored entries and its model say the same.
    pub closed spec fn wf(&self) -> bool {
        self.catalog.wf()
    }

    /// An inliner with an empty catalog that has changed nothing.
    pub fn new() -> (out: Inliner)
        ensures
            out.wf(),
            out@ == (InlinerView { catalog: CatalogView::empty(), inlined: false }),
    {
        Inliner { catalog: Catalog::new(), inlined: false }
    }

    /// Whether the pass has changed anything so far.
    pub fn inlined(&self) -> (out: bool)
        ensures
            out == self@.inlined,
    {
        self.inlined
    }

    /// The catalog as it stands.
    pub fn catalog(&self) -> (out: &Catalog)
        ensures
            out@ == self@.catalog,
            self.wf() ==> out.wf(),
    {
        &self.catalog
    }

    /// Walks each expression of `es` in order.
    pub fn visit_mut_exprs(&mut self, es: &mut Vec<Expr>)
        requires
            old(self).wf(),
        ensures
            final(self).wf(),
            (final(self)@, expr_views(final(es)@)) == visit_exprs(old(self)@, expr_views(old(es)@)),
        decreases *old(es),
    {
        let ghost st0 = self@;
        let ghost start = *es;
        let ghost es0 = expr_views(es@);
        let mut i: usize = 0;
        while i < es.len()
            invariant
                self.wf(),
                i <= es.len(),
                es.len() == start.len(),
                *old(es) == start,
                es0 == expr_views(start@),
                forall|j: int| i <= j < es.len() ==> es[j] == start[j],
                (self@, expr_views(es@).take(i as int)) == visit_exprs(st0, es0.take(i as int)),
            decreases es.len() - i,
        {
            assert(decreases_to!(start@ => start@[i as int]));
            self.visit_mut_expr(&mut es[i]);
            assert(es0.take(i + 1).drop_last() =~= es0.take(i as int));
            i += 1;
        }
        assert(es0.take(i as int) =~= es0);
    }

    /// Walks one expression.
    ///
    /// A reference to a candidate is counted; the one that brings the counter
    /// to exactly 1 is replaced by a copy of the initializer recorded for the
    /// name, and the pass has then changed something. What was put in is not
    /// walked. Any other reference stays as it is, and the operands of any
    /// other expression are walked in order.
    pub fn visit_mut_expr(&mut self, expr: &mut Expr)
        requires
            old(self).wf(),
        ensures
            final(self).wf(),
            (final(self)@, final(expr)@) == visit_expr(old(self)@, old(expr)@),
        decreases *old(expr),
    {
        let replacement = match expr {
            Expr::Ident(name) => {
                match self.catalog.record_use(name) {
                    Some(count) => {
                        if count == 1 {
                            self.catalog.initializer(name)
                        } else {
                            None
                        }
                    },
                    None => None,
                }
            },
            Expr::Node { tag, children } => {
                self.visit_mut_exprs(children);
                None
            },
        };
        match replacement {
            Some(init) => {
                *expr = init;
                self.inlined = true;
            },
            None => {},
        }
    }

    /// Marks one name that an export names as exported.
    pub fn visit_mut_export_named_specifier(&mut self, name: &String)
        requires
            old(self).wf(),
        ensures
            final(self).wf(),
            final(self)@ == (InlinerView {
                catalog: old(self)@.catalog.register_export(name@),
                inlined: old(self)@.inlined,
            }),
    {
        self.catalog.register_export(name.clone());
    }

    /// Records what one declaration binds: a declaration that assigns an
    /// initializer to a name that is not exported becomes the binding of that
    /// name; any other declaration changes nothing.
    pub fn visit_mut_var_declarator(&mut self, name: &String, init: &Option<Expr>)
        requires
            old(self).wf(),
        ensures
            final(self).wf(),
            final(self)@ == (InlinerView {
                catalog: match init {
                    Some(e) => old(self)@.catalog.register_binding(name@, e@),
                    None => old(self)@.catalog,
                },
                inlined: old(self)@.inlined,
            }),
    {
        match init {
            Some(e) => {
                self.catalog.register_binding(name.clone(), e.copy());
            },
            None => {},
        }
    }

    /// Marks every name that an export of `items` names.
    fn register_exports(&mut self, items: &Vec<Item>)
        requires
            old(self).wf(),
            old(self)@.catalog == CatalogView::empty(),
        ensures
            final(self).wf(),
            final(self)@ == (InlinerView {
                catalog: CatalogView {
                    exported: exported_names(item_views(items@)),
                    bindings: Map::empty(),
                },
                inlined: old(self)@.inlined,
            }),
    {
        let ghost views = item_views(items@);
        let mut i: usize = 0;
        assert(exported_names(views.take(0)) =~= Set::<Seq<char>>::empty());
        while i < items.len()
            invariant
                self.wf(),
                i <= items.len(),
                views == item_views(items@),
                self@.inlined == old(self)@.inlined,
                self@.catalog == (CatalogView {
                    exported: exported_names(views.take(i as int)),
                    bindings: Map::empty(),
                }),
            decreases items.len() - i,
        {
            proof {
                assert(views.take(i + 1) =~= views.take(i as int).push(views[i as int]));
                lemma_exported_names_push(views.take(i as int), views[i as int]);
            }
            match &items[i] {
                Item::Export { names, .. } => {
                    let ghost all = name_views(names@);
                    let ghost seen = exported_names(views.take(i as int));
                    let mut j: usize = 0;
                    assert(seen.union(all.take(0).to_set()) =~= seen);
                    while j < names.len()
                        invariant
                            self.wf(),
                            j <= names.len(),
                            all == name_views(names@),
                            self@.inlined == old(self)@.inlined,
                            self@.catalog == (CatalogView {
                                exported: seen.union(all.take(j as int).to_set()),
                                bindings: Map::empty(),
                            }),
                        decreases names.len() - j,
                    {
                        self.visit_mut_export_named_specifier(&names[j]);
                        proof {
                            assert(all.take(j + 1) =~= all.take(j as int).push(all[j as int]));
                            all.take(j as int).lemma_push_to_set_commute(all[j as int]);
                            assert(seen.union(all.take(j + 1).to_set()) =~= seen.union(
                                all.take(j as int).to_set(),
                            ).insert(all[j as int]));
                        }
                        j += 1;
                    }
                    assert(all.take(j as int) =~= all);
                },
                _ => {},
            }
            i += 1;
        }
        assert(views.take(i as int) =~= views);
    }

    /// Records the binding of every declaration of `items`, in order.
    fn register_bindings(&mut self, items: &Vec<Item>)
        requires
            old(self).wf(),
            old(self)@.catalog.bindings == Map::<Seq<char>, BindingView>::empty(),
        ensures
            final(self).wf(),
            final(self)@ == (InlinerView {
                catalog: CatalogView {
                    exported: old(self)@.catalog.exported,
                    bindings: bindings_of(old(self)@.catalog.exported, item_views(items@)),
                },
                inlined: old(self)@.inlined,
            }),
    {
        let ghost views = item_views(items@);
        let ghost exported = self@.catalog.exported;
        let mut i: usize = 0;
        assert(bindings_of(exported, views.take(0)) =~= Map::empty());
        while i < items.len()
            invariant
                self.wf(),
                i <= items.len(),
                views == item_views(items@),
                self@.inlined == old(self)@.inlined,
                self@.catalog == (CatalogView {
                    exported,
                    bindings: bindings_of(exported, views.take(i as int)),
                }),
            decreases items.len() - i,
        {
            proof {
                assert(views.take(i + 1) =~= views.take(i as int).push(views[i as int]));
                lemma_bindings_of_push(exported, views.take(i as int), views[i as int]);
            }
            match &items[i] {
                Item::Declaration { name, init, .. } => {
                    self.visit_mut_var_declarator(name, init);
                },
                _ => {},
            }
            i += 1;
        }
        assert(views.take(i as int) =~= views);
    }

    /// Walks the expressions of one item.
    pub fn visit_mut_item(&mut self, item: &mut Item)
        requires
            old(self).wf(),
        ensures
            final(self).wf(),
            (final(self)@, final(item)@) == visit_item(old(self)@, old(item)@),
    {
        match item {
            Item::Declaration { init, .. } => match init {
                Some(e) => self.visit_mut_expr(e),
                None => {},
            },
            Item::Export { exprs, .. } => self.visit_mut_exprs(exprs),
            Item::Statement { exprs, .. } => self.visit_mut_exprs(exprs),
        }
    }

    /// Walks the expressions of each item of `items` in order.
    pub fn visit_mut_items(&mut self, items: &mut Vec<Item>)
        requires
            old(self).wf(),
        ensures
            final(self).wf(),
            (final(self)@, item_views(final(items)@)) == visit_items(
                old(self)@,
                item_views(old(items)@),
            ),
    {
        let ghost st0 = self@;
        let ghost views = item_views(items@);
        let mut i: usize = 0;
        while i < items.len()
            invariant
                self.wf(),
                i <= items.len(),
                items.len() == views.len(),
                forall|j: int| i <= j < items.len() ==> items[j]@ == views[j],
                (self@, item_views(items@).take(i as int)) == visit_items(
                    st0,
                    views.take(i as int),
                ),
            decreases items.len() - i,
        {
            self.visit_mut_item(&mut items[i]);
            assert(views.take(i + 1).drop_last() =~= views.take(i as int));
            i += 1;
        }
        assert(views.take(i as int) =~= views);
    }

    /// Drops each declaration of a candidate whose counter stands at exactly
    /// 1, and keeps every other item in its place. Where an item is dropped
    /// the pass has changed something.
    pub fn visit_mut_module_items(&mut self, items: &mut Vec<Item>)
        requires
            old(self).wf(),
        ensures
            final(self).wf(),
            item_views(final(items)@) == retained(old(self)@.catalog, item_views(old(items)@)),
            final(self)@ == after_retain(old(self)@, item_views(old(items)@)),
    {
        let ghost views = item_views(items@);
        let ghost catalog = self@.catalog;
        let ghost mut seen: int = 0;
        let mut i: usize = 0;
        proof {
            lemma_retained_empty(catalog);
        }
        while i < items.len()
            invariant
                self.wf(),
                self@.catalog == catalog,
                0 <= seen <= views.len(),
                i <= items.len(),
                items.len() - i == views.len() - seen,
                item_views(items@).take(i as int) == retained(catalog, views.take(seen)),
                item_views(items@).skip(i as int) == views.skip(seen),
                self@.inlined == (old(self)@.inlined || exists|k: int|
                    0 <= k < seen && is_dropped(catalog, #[trigger] views[k])),
            decreases items.len() - i,
        {
            let ghost before = item_views(items@);
            assert(before[i as int] == before.skip(i as int)[0]);
            let drop = match &items[i] {
                Item::Declaration { name, .. } => {
                    if self.catalog.is_exported(name) {
                        false
                    } else {
                        match self.catalog.usage_count(name) {
                            Some(count) => count == 1,
                            None => false,
                        }
                    }
                },
                _ => false,
            };
            proof {
                assert(views.take(seen + 1) =~= views.take(seen).push(views[seen]));
                lemma_retained_push(catalog, views.take(seen), views[seen]);
                assert(views.skip(seen + 1) =~= views.skip(seen).skip(1));
            }
            if drop {
                items.remove(i);
                self.inlined = true;
            } else {
                i += 1;
            }
            proof {
                seen = seen + 1;
            }
        }
        assert(views.take(seen) =~= views);
    }

    /// One pass over `program`: the catalog is built anew from the whole
    /// program, the expressions are walked, and the declarations that were
    /// inlined are dropped. The program that is left is returned, and
    /// [`Inliner::inlined`] then says whether the pass changed anything.
    pub fn inline(&mut self, program: Program) -> (out: Program)
        ensures
            final(self).wf(),
            final(self)@ == end_of(program@),
            (out@, final(self)@.inlined) == pass(program@),
    {
        let mut items = program.items;
        self.catalog = Catalog::new();
        self.inlined = false;
        self.register_exports(&items);
        self.register_bindings(&items);
        self.visit_mut_items(&mut items);
        self.visit_mut_module_items(&mut items);
        Program { items }
    }
}

} // verus!
