//! From what a parser reports of a top-level item to the item that the pass
//! works on: which declarators are declarations of a name, and which names
//! an export makes part of the program's surface.
//!
//! A variable statement is reported declarator by declarator, so that
//! `let a = 1, b = 2;` comes as two declarations, each of one name.

use crate::syntax::{expr_views, name_views, Expr, ExprView, Item, ItemView};
use vstd::prelude::*;

verus! {

/// Mathematical model of an [`ItemShape`].
pub enum ItemShapeView {
    Declarator { name: Option<Seq<char>>, has_init: bool },
    ExportedDeclaration { names: Seq<Seq<char>> },
    ExportedNames { names: Seq<Seq<char>> },
    Other,
}

/// What a top-level item is, beside the expressions that stand in it.
#[derive(Debug, PartialEq, Eq)]
pub enum ItemShape {
    /// One declarator of a variable statement, such as `a = 1` in
    /// `let a = 1, b;`: the name that it binds, `None` where it binds a
    /// pattern, and whether it assigns an initializer.
    Declarator { name: Option<String>, has_init: bool },
    /// An export of a declaration, such as `export let a = 5;`, with the
    /// names that the declaration binds.
    ExportedDeclaration { names: Vec<String> },
    /// An export list such as `export { a, b };` or `export { a } from "m";`,
    /// with the names that it lists, each as it is written before any `as`.
    ExportedNames { names: Vec<String> },
    /// Anything else.
    Other,
}

impl View for ItemShape {
    type V = ItemShapeView;

    open spec fn view(&self) -> ItemShapeView {
        match self {
            ItemShape::Declarator { name, has_init } => ItemShapeView::Declarator {
                name: match name {
                    Some(name) => Some(name@),
                    None => None,
                },
                has_init: *has_init,
            },
            ItemShape::ExportedDeclaration { names } => ItemShapeView::ExportedDeclaration {
                names: name_views(names@),
            },
            ItemShape::ExportedNames { names } => ItemShapeView::ExportedNames {
                names: name_views(names@),
            },
            ItemShape::Other => ItemShapeView::Other,
        }
    }
}

/// A declarator is the declaration of a name when it binds a name and holds
/// the initializer as its one expression, or no expression where none is
/// assigned.
pub open spec fn declares_a_name(
    name: Option<Seq<char>>,
    has_init: bool,
    exprs: Seq<ExprView>,
) -> bool {
    &&& name is Some
    &&& exprs.len() == if has_init {
        1nat
    } else {
        0nat
    }
}

/// The item that a shape and the expressions beside it make.
///
/// A declarator that declares a name is a declaration of that name; an
/// export of a declaration, and an export list, is an export of its names;
/// everything else is a statement.
pub open spec fn item_of(tag: u64, shape: ItemShapeView, exprs: Seq<ExprView>) -> ItemView {
    match shape {
        ItemShapeView::Declarator { name, has_init } => if declares_a_name(name, has_init, exprs) {
            ItemView::Declaration {
                tag,
                name: name->0,
                init: if has_init {
                    Some(exprs[0])
                } else {
                    None
                },
            }
        } else {
            ItemView::Statement { tag, exprs }
        },
        ItemShapeView::ExportedDeclaration { names } => ItemView::Export { tag, names, exprs },
        ItemShapeView::ExportedNames { names } => ItemView::Export { tag, names, exprs },
        ItemShapeView::Other => ItemView::Statement { tag, exprs },
    }
}

/// Makes the item of a shape and the expressions beside it.
pub fn make_item(tag: u64, shape: ItemShape, exprs: Vec<Expr>) -> (out: Item)
    ensures
        out@ == item_of(tag, shape@, expr_views(exprs@)),
{
    let mut exprs = exprs;
    match shape {
        ItemShape::Declarator { name, has_init } => {
            let wanted: usize = if has_init {
                1
            } else {
                0
            };
            match name {
                Some(name) => {
                    if exprs.len() == wanted {
                        let init = exprs.pop();
                        Item::Declaration { tag, name, init }
                    } else {
                        Item::Statement { tag, exprs }
                    }
                },
                None => Item::Statement { tag, exprs },
            }
        },
        ItemShape::ExportedDeclaration { names } => Item::Export { tag, names, exprs },
        ItemShape::ExportedNames { names } => Item::Export { tag, names, exprs },
        ItemShape::Other => Item::Statement { tag, exprs },
    }
}

} // verus!
