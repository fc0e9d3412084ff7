//! Layout intermediate representation: grid and path layouts over UI
//! elements, the geometry properties they bind, and a visitation protocol
//! that hands every layout-owned expression to a compiler pass exactly once.
pub mod expression_tree;
pub mod gen;
pub mod layout;
pub mod visit;

pub use expression_tree::{Binding, Element, ElementRc, Expression, NamedReference, Path, PathElement, PropertyDeclaration, Type};
pub use gen::{Component, Language, LayoutItemCodeGen, LayoutTreeItem};
pub use layout::{GridLayout, GridLayoutElement, Layout, LayoutConstraints, LayoutItem, LayoutRect, PathLayout};
pub use visit::{ExpressionCollector, ExpressionVisitor};
