//! The program tree that the inlining pass reads and rewrites.
//!
//! A program is a sequence of top-level items. Expressions are kept as a
//! skeleton: a reference to a name is spelled out, every other expression is a
//! node that carries a tag and its operand expressions in source order. The
//! tag belongs to whoever built the tree (a parser keeps the operator or the
//! literal under it); the pass copies tags and never looks into them.

use vstd::prelude::*;

verus! {

/// Mathematical model of an [`Expr`].
pub enum ExprView {
    /// A reference to the name.
    Ident(Seq<char>),
    /// Any other expression, with its operands in source order.
    Node { tag: u64, children: Seq<ExprView> },
}

/// Mathematical model of an [`Item`].
pub enum ItemView {
    /// A declaration of one name, with the expression assigned to it, if any.
    Declaration { tag: u64, name: Seq<char>, init: Option<ExprView> },
    /// An export: the names it makes part of the program's surface and the
    /// expressions it holds.
    Export { tag: u64, names: Seq<Seq<char>>, exprs: Seq<ExprView> },
    /// Any other statement, with the expressions it holds in source order.
    Statement { tag: u64, exprs: Seq<ExprView> },
}

/// An expression.
#[derive(Debug, PartialEq, Eq)]
pub enum Expr {
    /// A reference to the name.
    Ident(String),
    /// Any other expression, with its operands in source order.
    Node { tag: u64, children: Vec<Expr> },
}

/// A top-level item of a program.
#[derive(Debug, PartialEq, Eq)]
pub enum Item {
    /// `let name = init;` or `let name;`: a declaration of one name.
    Declaration { tag: u64, name: String, init: Option<Expr> },
    /// An export such as `export let a = 5;` or `export { a, b };`: the names
    /// that it exports and the expressions that stand in it.
    Export { tag: u64, names: Vec<String>, exprs: Vec<Expr> },
    /// Any other statement, with the expressions that stand in it.
    Statement { tag: u64, exprs: Vec<Expr> },
}

/// A program unit: its top-level items in source order.
#[derive(Debug, PartialEq, Eq)]
pub struct Program {
    pub items: Vec<Item>,
}

/// The models of a sequence of expressions, one for one.
pub open spec fn expr_views(es: Seq<Expr>) -> Seq<ExprView>
    decreases es,
{
    Seq::new(
        es.len(),
        |i: int|
            if 0 <= i < es.len() {
                es[i]@
            } else {
                arbitrary()
            },
    )
}

/// The models of a sequence of names, one for one.
pub open spec fn name_views(names: Seq<String>) -> Seq<Seq<char>> {
    Seq::new(names.len(), |i: int| names[i]@)
}

/// The models of a sequence of items, one for one.
pub open spec fn item_views(items: Seq<Item>) -> Seq<ItemView> {
    Seq::new(items.len(), |i: int| items[i]@)
}

impl View for Expr {
    type V = ExprView;

    open spec fn view(&self) -> ExprView
        decreases self,
    {
        match self {
            Expr::Ident(name) => ExprView::Ident(name@),
            Expr::Node { tag, children } => ExprView::Node {
                tag: *tag,
                children: expr_views(children@),
            },
        }
    }
}

impl View for Item {
    type V = ItemView;

    open spec fn view(&self) -> ItemView {
        match self {
            Item::Declaration { tag, name, init } => ItemView::Declaration {
                tag: *tag,
                name: name@,
                init: match init {
                    Some(e) => Some(e@),
                    None => None,
                },
            },
            Item::Export { tag, names, exprs } => ItemView::Export {
                tag: *tag,
                names: name_views(names@),
                exprs: expr_views(exprs@),
            },
            Item::Statement { tag, exprs } => ItemView::Statement {
                tag: *tag,
                exprs: expr_views(exprs@),
            },
        }
    }
}

impl View for Program {
    type V = Seq<ItemView>;

    open spec fn view(&self) -> Seq<ItemView> {
        item_views(self.items@)
    }
}

/// A fresh copy of each expression of `es`, in order.
pub fn copy_exprs(es: &Vec<Expr>) -> (out: Vec<Expr>)
    ensures
        expr_views(out@) == expr_views(es@),
    decreases es,
{
    let mut out: Vec<Expr> = Vec::new();
    let mut i: usize = 0;
    while i < es.len()
        invariant
            i <= es.len(),
            out.len() == i,
            forall|j: int| 0 <= j < i ==> out[j]@ == es[j]@,
        decreases es.len() - i,
    {
        let e = es[i].copy();
        out.push(e);
        i += 1;
    }
    out
}

/// A fresh copy of each name of `names`, in order.
pub fn copy_names(names: &Vec<String>) -> (out: Vec<String>)
    ensures
        name_views(out@) == name_views(names@),
{
    let mut out: Vec<String> = Vec::new();
    let mut i: usize = 0;
    while i < names.len()
        invariant
            i <= names.len(),
            out.len() == i,
            forall|j: int| 0 <= j < i ==> out[j]@ == names[j]@,
        decreases names.len() - i,
    {
        out.push(names[i].clone());
        i += 1;
    }
    out
}

impl Expr {
    /// A fresh copy of the whole expression.
    pub fn copy(&self) -> (out: Expr)
        ensures
            out@ == self@,
        decreases self,
    {
        match self {
            Expr::Ident(name) => Expr::Ident(name.clone()),
            Expr::Node { tag, children } => {
                Expr::Node { tag: *tag, children: copy_exprs(children) }
            },
        }
    }
}

impl Clone for Expr {
    fn clone(&self) -> (out: Expr)
        ensures
            out@ == self@,
    {
        self.copy()
    }
}

impl Item {
    /// A fresh copy of the whole item.
    pub fn copy(&self) -> (out: Item)
        ensures
            out@ == self@,
    {
        match self {
            Item::Declaration { tag, name, init } => {
                let init = match init {
                    Some(e) => Some(e.copy()),
                    None => None,
                };
                Item::Declaration { tag: *tag, name: name.clone(), init }
            },
            Item::Export { tag, names, exprs } => Item::Export {
                tag: *tag,
                names: copy_names(names),
                exprs: copy_exprs(exprs),
            },
            Item::Statement { tag, exprs } => Item::Statement {
                tag: *tag,
                exprs: copy_exprs(exprs),
            },
        }
    }
}

impl Clone for Item {
    fn clone(&self) -> (out: Item)
        ensures
            out@ == self@,
    {
        self.copy()
    }
}

impl Program {
    /// A fresh copy of the whole program.
    pub fn copy(&self) -> (out: Program)
        ensures
            out@ == self@,
    {
        let mut items: Vec<Item> = Vec::new();
        let mut i: usize = 0;
        while i < self.items.len()
            invariant
                i <= self.items.len(),
                items.len() == i,
                forall|j: int| 0 <= j < i ==> items[j]@ == self.items[j]@,
            decreases self.items.len() - i,
        {
            items.push(self.items[i].copy());
            i += 1;
        }
        Program { items }
    }
}

impl Clone for Program {
    fn clone(&self) -> (out: Program)
        ensures
            out@ == self@,
    {
        self.copy()
    }
}

} // verus!
