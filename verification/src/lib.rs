//! Single-use variable inlining for a program's top-level bindings.
//!
//! A pass finds the top-level bindings that are not exported, puts a copy of a
//! binding's initializer in place of the first reference to it, and drops the
//! declarations whose name was referenced exactly once. Passes are repeated
//! until one of them changes nothing.
//!
//! - [`syntax`]: the program tree, and [`shape`]: how items are made from what
//!   a parser reports.
//! - [`catalog`]: the bindings and exported names of one pass.
//! - [`pass`]: what one pass does, as a function on the models.
//! - [`inliner`]: the pass itself, and [`driver`]: passes up to the fixpoint.
//! - [`laws`]: what holds of every pass and every run.
//! - [`text`]: from the code generator's bytes to text.
//! - [`title`]: title case.

pub mod catalog;
pub mod driver;
pub mod inliner;
pub mod laws;
pub mod pass;
pub mod shape;
pub mod syntax;
pub mod text;
pub mod title;

pub use catalog::Catalog;
pub use driver::{process_recursive, process_within};
pub use inliner::Inliner;
pub use shape::{make_item, ItemShape};
pub use syntax::{Expr, Item, Program};
pub use text::{generate_output, PrintError};
pub use title::to_title_case;
