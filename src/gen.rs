//! Lowering layouts through a backend: the backend names its compiled
//! code type and says how to refer to an item's properties and sizing
//! information; a layout item forwards to whichever case it holds.
use vstd::prelude::*;
use crate::expression_tree::ElementRc;
use crate::layout::{GridLayout, Layout, LayoutConstraints, LayoutItem, PathLayout};

verus! {

/// A code generation backend.
pub trait Language {
    /// The backend's representation of a piece of generated code.
    type CompiledCode;
}

/// The component being lowered.
#[derive(Debug)]
pub struct Component {
    pub root_element: ElementRc,
    pub layout_constraints: LayoutConstraints,
}

/// A backend's compiled view of one layout node.
pub enum LayoutTreeItem<'a, L: Language> {
    GridLayout {
        grid: &'a GridLayout,
        spacing: L::CompiledCode,
        var_creation_code: L::CompiledCode,
        cell_ref_variable: L::CompiledCode,
    },
    PathLayout(&'a PathLayout),
}

/// How a backend lowers one kind of layout item.
///
/// `property_ref` and `layout_info` state what the two operations produce;
/// a backend that implements the trait proves its operations against them.
pub trait LayoutItemCodeGen<L: Language> {
    spec fn property_ref(&self, name: Seq<char>) -> L::CompiledCode;

    spec fn layout_info<'a>(
        &'a self,
        layout_tree: Seq<LayoutTreeItem<'a, L>>,
        component: Component,
    ) -> (L::CompiledCode, Seq<LayoutTreeItem<'a, L>>);

    /// Code that refers to the property `name` of the item.
    fn get_property_ref(&self, name: &str) -> (r: L::CompiledCode)
        ensures
            r == self.property_ref(name@),
    ;

    /// Code that refers to the item's sizing information. The call may only
    /// append to `layout_tree`, and does so at most once per item: asking
    /// again on the tree it leaves behind adds nothing.
    fn get_layout_info_ref<'a, 'b>(
        &'a self,
        layout_tree: &'b mut Vec<LayoutTreeItem<'a, L>>,
        component: &Component,
    ) -> (r: L::CompiledCode)
        ensures
            (r, final(layout_tree)@) == self.layout_info(old(layout_tree)@, *component),
            final(layout_tree)@.len() >= old(layout_tree)@.len(),
            final(layout_tree)@.take(old(layout_tree)@.len() as int) == old(layout_tree)@,
            self.layout_info(final(layout_tree)@, *component).1 == final(layout_tree)@,
    ;
}

impl<L: Language> LayoutItemCodeGen<L> for LayoutItem where
    ElementRc: LayoutItemCodeGen<L>,
    Layout: LayoutItemCodeGen<L>,
 {
    open spec fn property_ref(&self, name: Seq<char>) -> L::CompiledCode {
        match self {
            LayoutItem::Element(e) => <ElementRc as LayoutItemCodeGen<L>>::property_ref(e, name),
            LayoutItem::Layout(l) => <Layout as LayoutItemCodeGen<L>>::property_ref(&**l, name),
        }
    }

    open spec fn layout_info<'a>(
        &'a self,
        layout_tree: Seq<LayoutTreeItem<'a, L>>,
        component: Component,
    ) -> (L::CompiledCode, Seq<LayoutTreeItem<'a, L>>) {
        match self {
            LayoutItem::Element(e) => <ElementRc as LayoutItemCodeGen<L>>::layout_info(e, layout_tree, component),
            LayoutItem::Layout(l) => <Layout as LayoutItemCodeGen<L>>::layout_info(&**l, layout_tree, component),
        }
    }

    fn get_property_ref(&self, name: &str) -> (r: L::CompiledCode) {
        match self {
            LayoutItem::Element(e) => <ElementRc as LayoutItemCodeGen<L>>::get_property_ref(e, name),
            LayoutItem::Layout(l) => <Layout as LayoutItemCodeGen<L>>::get_property_ref(&**l, name),
        }
    }

    fn get_layout_info_ref<'a, 'b>(
        &'a self,
        layout_tree: &'b mut Vec<LayoutTreeItem<'a, L>>,
        component: &Component,
    ) -> (r: L::CompiledCode) {
        match self {
            LayoutItem::Element(e) => <ElementRc as LayoutItemCodeGen<L>>::get_layout_info_ref(
                e,
                layout_tree,
                component,
            ),
            LayoutItem::Layout(l) => <Layout as LayoutItemCodeGen<L>>::get_layout_info_ref(
                &**l,
                layout_tree,
                component,
            ),
        }
    }
}


impl<'a, L: Language> From<&'a PathLayout> for LayoutTreeItem<'a, L> {
    fn from(path: &'a PathLayout) -> (r: Self)
        ensures
            r == Self::PathLayout(path),
    {
        LayoutTreeItem::PathLayout(path)
    }
}

impl<'a, L: Language> vstd::std_specs::convert::FromSpecImpl<&'a PathLayout> for LayoutTreeItem<'a, L> {
    open spec fn obeys_from_spec() -> bool {
        true
    }

    open spec fn from_spec(path: &'a PathLayout) -> Self {
        LayoutTreeItem::PathLayout(path)
    }
}

impl<'a, L: Language> From<(&'a GridLayout, L::CompiledCode, L::CompiledCode, L::CompiledCode)> for LayoutTreeItem<'a, L> {
    /// From the grid, its spacing, its variable-creation code and its
    /// cell-table reference, in that order.
    fn from(parts: (&'a GridLayout, L::CompiledCode, L::CompiledCode, L::CompiledCode)) -> (r: Self)
        ensures
            r == (Self::GridLayout {
                grid: parts.0,
                spacing: parts.1,
                var_creation_code: parts.2,
                cell_ref_variable: parts.3,
            }),
    {
        let (grid, spacing, var_creation_code, cell_ref_variable) = parts;
        LayoutTreeItem::GridLayout { grid, spacing, var_creation_code, cell_ref_variable }
    }
}

impl<'a, L: Language> vstd::std_specs::convert::FromSpecImpl<(&'a GridLayout, L::CompiledCode, L::CompiledCode, L::CompiledCode)> for LayoutTreeItem<'a, L> {
    open spec fn obeys_from_spec() -> bool {
        true
    }

    open spec fn from_spec(parts: (&'a GridLayout, L::CompiledCode, L::CompiledCode, L::CompiledCode)) -> Self {
        LayoutTreeItem::GridLayout {
            grid: parts.0,
            spacing: parts.1,
            var_creation_code: parts.2,
            cell_ref_variable: parts.3,
        }
    }
}

} // verus!
