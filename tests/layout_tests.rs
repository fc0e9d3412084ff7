use sixtyfps_layout::{
    Binding, Component, Element, ElementRc, Expression, ExpressionCollector,
    GridLayout, GridLayoutElement, Language, Layout, LayoutConstraints, LayoutItem,
    LayoutItemCodeGen, LayoutRect, LayoutTreeItem, NamedReference, Path, PathElement, PathLayout,
    Type,
};
use vstd::prelude::Seq;

fn element(id: usize) -> Element {
    Element { id: ElementRc(id), property_declarations: Vec::new(), bindings: Vec::new() }
}

fn reference(id: usize, name: &str) -> Expression {
    Expression::PropertyReference(NamedReference { element: ElementRc(id), name: name.to_string() })
}

fn declared_type(e: &Element, name: &str) -> Option<Type> {
    e.property_declarations.iter().find(|d| d.name == name).map(|d| d.property_type)
}

fn leaf_cell(col: u16, row: u16, id: usize) -> GridLayoutElement {
    GridLayoutElement { col, row, colspan: 1, rowspan: 1, item: LayoutItem::Element(ElementRc(id)) }
}

fn path_layout(rect: LayoutRect, offset: i64) -> PathLayout {
    PathLayout {
        path: Path {
            elements: vec![
                PathElement::MoveTo { x: 0, y: 0 },
                PathElement::LineTo { x: 100, y: 0 },
                PathElement::Close,
            ],
        },
        elements: vec![ElementRc(20), ElementRc(21)],
        rect,
        offset_reference: Expression::NumberLiteral(offset),
    }
}

fn rect_expressions(id: usize) -> Vec<Expression> {
    vec![reference(id, "width"), reference(id, "height"), reference(id, "x"), reference(id, "y")]
}

#[test]
fn install_then_mapped_names() {
    let mut e = element(1);
    let rect = LayoutRect::install_on_element(&mut e);
    for name in ["x", "y", "width", "height"] {
        assert_eq!(rect.mapped_property_name(name), Some(name));
        assert_eq!(declared_type(&e, name), Some(Type::Length));
    }
    assert_eq!(e.property_declarations.len(), 4);
    assert_eq!(rect.x_reference, reference(1, "x"));
    assert_eq!(rect.height_reference, reference(1, "height"));
}

#[test]
fn rewritten_channel_maps_to_nothing() {
    let mut e = element(2);
    let mut rect = LayoutRect::install_on_element(&mut e);
    rect.width_reference = Expression::BinaryExpression {
        lhs: Box::new(reference(2, "width")),
        rhs: Box::new(Expression::NumberLiteral(10)),
        op: '+',
    };
    assert_eq!(rect.mapped_property_name("width"), None);
    assert_eq!(rect.mapped_property_name("height"), Some("height"));
    rect.x_reference = Expression::NumberLiteral(0);
    assert_eq!(rect.mapped_property_name("x"), None);
    assert_eq!(rect.mapped_property_name("y"), Some("y"));
}

#[test]
fn unknown_channel_maps_to_nothing() {
    let mut e = element(3);
    let rect = LayoutRect::install_on_element(&mut e);
    assert_eq!(rect.mapped_property_name("z"), None);
    assert_eq!(rect.mapped_property_name(""), None);
    assert_eq!(rect.mapped_property_name("Width"), None);
}

#[test]
fn install_overwrites_existing_declaration() {
    let mut e = element(4);
    e.declare_property("width".to_string(), Type::Int32);
    e.declare_property("color".to_string(), Type::Color);
    let _rect = LayoutRect::install_on_element(&mut e);
    assert_eq!(declared_type(&e, "width"), Some(Type::Length));
    assert_eq!(declared_type(&e, "color"), Some(Type::Color));
    assert_eq!(e.property_declarations.len(), 5);
    assert_eq!(e.property_declarations.iter().filter(|d| d.name == "width").count(), 1);
}

#[test]
fn installing_twice_keeps_one_declaration_per_name() {
    let mut e = element(5);
    let _a = LayoutRect::install_on_element(&mut e);
    let b = LayoutRect::install_on_element(&mut e);
    assert_eq!(e.property_declarations.len(), 4);
    assert_eq!(b.mapped_property_name("y"), Some("y"));
}

fn nested_grid() -> (GridLayout, Vec<Expression>) {
    let mut outer = element(10);
    let mut inner = element(11);
    let inner_grid = GridLayout {
        elems: vec![leaf_cell(0, 0, 30)],
        rect: LayoutRect::install_on_element(&mut inner),
        spacing: None,
    };
    let grid = GridLayout {
        elems: vec![
            leaf_cell(0, 0, 31),
            GridLayoutElement {
                col: 1,
                row: 0,
                colspan: 1,
                rowspan: 1,
                item: LayoutItem::Layout(Box::new(Layout::GridLayout(inner_grid))),
            },
            leaf_cell(2, 0, 32),
        ],
        rect: LayoutRect::install_on_element(&mut outer),
        spacing: Some(Expression::NumberLiteral(5)),
    };
    let mut expected = rect_expressions(10);
    expected.push(Expression::NumberLiteral(5));
    expected.extend(rect_expressions(11));
    (grid, expected)
}

#[test]
fn grid_visitation_order_is_stable() {
    let (mut grid, expected) = nested_grid();
    let mut first = ExpressionCollector::new();
    grid.visit_expressions(&mut first);
    let mut second = ExpressionCollector::new();
    grid.visit_expressions(&mut second);
    assert_eq!(first.visited, expected);
    assert_eq!(second.visited, expected);
}

#[test]
fn nested_layout_visited_at_cell_position() {
    let mut outer = element(12);
    let mut inner = element(13);
    let mut lone = element(14);
    let inner_path = path_layout(LayoutRect::install_on_element(&mut inner), 7);
    let inner_grid = GridLayout {
        elems: vec![],
        rect: LayoutRect::install_on_element(&mut lone),
        spacing: Some(Expression::NumberLiteral(3)),
    };
    let mut grid = GridLayout {
        elems: vec![
            GridLayoutElement {
                col: 0,
                row: 0,
                colspan: 1,
                rowspan: 1,
                item: LayoutItem::Layout(Box::new(Layout::PathLayout(inner_path))),
            },
            leaf_cell(1, 0, 33),
            GridLayoutElement {
                col: 0,
                row: 1,
                colspan: 2,
                rowspan: 1,
                item: LayoutItem::Layout(Box::new(Layout::GridLayout(inner_grid))),
            },
        ],
        rect: LayoutRect::install_on_element(&mut outer),
        spacing: None,
    };
    let mut collector = ExpressionCollector::new();
    grid.visit_expressions(&mut collector);
    let mut expected = rect_expressions(12);
    expected.extend(rect_expressions(13));
    expected.push(Expression::NumberLiteral(7));
    expected.extend(rect_expressions(14));
    expected.push(Expression::NumberLiteral(3));
    assert_eq!(collector.visited, expected);
}

#[test]
fn leaf_cell_expressions_never_visited() {
    let marker = Expression::NumberLiteral(4242);
    let mut owner = element(15);
    let mut leaf = element(34);
    leaf.bindings.push(Binding { name: "width".to_string(), expression: Expression::NumberLiteral(4242) });
    let mut grid = GridLayout {
        elems: vec![
            GridLayoutElement { col: 0, row: 0, colspan: 1, rowspan: 1, item: LayoutItem::from(leaf.id) },
        ],
        rect: LayoutRect::install_on_element(&mut owner),
        spacing: None,
    };
    let mut collector = ExpressionCollector::new();
    grid.visit_expressions(&mut collector);
    assert!(!collector.visited.contains(&marker));
    assert!(!collector.visited.iter().any(|e| matches!(e, Expression::PropertyReference(r) if r.element == ElementRc(34))));
    assert_eq!(collector.visited, rect_expressions(15));
    assert_eq!(leaf.bindings[0].expression, marker);
}

#[test]
fn path_elements_never_visited() {
    let mut owner = element(16);
    let mut path = path_layout(LayoutRect::install_on_element(&mut owner), 1);
    let mut collector = ExpressionCollector::new();
    path.visit_expressions(&mut collector);
    assert!(!collector
        .visited
        .iter()
        .any(|e| matches!(e, Expression::PropertyReference(r) if r.element == ElementRc(20) || r.element == ElementRc(21))));
    assert_eq!(path.elements, vec![ElementRc(20), ElementRc(21)]);
}

#[test]
fn rect_returns_stored_rect() {
    let (grid, _) = nested_grid();
    let layout = Layout::from(grid);
    let r = layout.rect();
    match &layout {
        Layout::GridLayout(g) => assert!(std::ptr::eq(r, &g.rect)),
        Layout::PathLayout(_) => panic!("expected a grid layout"),
    }
    let mut owner = element(17);
    let layout = Layout::from(path_layout(LayoutRect::install_on_element(&mut owner), 0));
    let r = layout.rect();
    match &layout {
        Layout::PathLayout(p) => assert!(std::ptr::eq(r, &p.rect)),
        Layout::GridLayout(_) => panic!("expected a path layout"),
    }
    assert_eq!(r.mapped_property_name("x"), Some("x"));
}

#[test]
fn grid_with_two_leaf_cells_visits_only_the_rect() {
    let mut e = element(40);
    let mut grid = GridLayout {
        elems: vec![leaf_cell(0, 0, 41), leaf_cell(1, 0, 42)],
        rect: LayoutRect::install_on_element(&mut e),
        spacing: None,
    };
    let mut collector = ExpressionCollector::new();
    grid.visit_expressions(&mut collector);
    assert_eq!(collector.visited.len(), 4);
    assert_eq!(collector.visited, rect_expressions(40));
    assert_eq!(grid.elems.len(), 2);
    assert_eq!(grid.elems[1].col, 1);
}

#[test]
fn path_with_constant_offset_visits_rect_then_offset() {
    let mut f = element(50);
    let mut path = path_layout(LayoutRect::install_on_element(&mut f), 0);
    let mut collector = ExpressionCollector::new();
    path.visit_expressions(&mut collector);
    let mut expected = rect_expressions(50);
    expected.push(Expression::NumberLiteral(0));
    assert_eq!(collector.visited.len(), 5);
    assert_eq!(collector.visited, expected);
    assert_eq!(path.elements, vec![ElementRc(20), ElementRc(21)]);
    assert_eq!(path.path.elements.len(), 3);
}

#[test]
fn constraints_visit_every_layout_in_order() {
    let mut a = element(60);
    let mut b = element(61);
    let mut constraints = LayoutConstraints::default();
    assert!(constraints.0.is_empty());
    constraints.0.push(Layout::from(path_layout(LayoutRect::install_on_element(&mut a), 2)));
    constraints.0.push(Layout::from(GridLayout {
        elems: vec![leaf_cell(0, 0, 62)],
        rect: LayoutRect::install_on_element(&mut b),
        spacing: Some(Expression::NumberLiteral(9)),
    }));
    let mut collector = ExpressionCollector::new();
    constraints.visit_expressions(&mut collector);
    let mut expected = rect_expressions(60);
    expected.push(Expression::NumberLiteral(2));
    expected.extend(rect_expressions(61));
    expected.push(Expression::NumberLiteral(9));
    assert_eq!(collector.visited, expected);
}

#[test]
fn empty_constraints_visit_nothing() {
    let mut constraints = LayoutConstraints::default();
    let mut collector = ExpressionCollector::new();
    constraints.visit_expressions(&mut collector);
    assert!(collector.visited.is_empty());
}

#[test]
fn deep_clone_copies_whole_tree() {
    let e = Expression::BinaryExpression {
        lhs: Box::new(reference(70, "x")),
        rhs: Box::new(Expression::BinaryExpression {
            lhs: Box::new(Expression::NumberLiteral(-3)),
            rhs: Box::new(Expression::Invalid),
            op: '*',
        }),
        op: '-',
    };
    assert_eq!(e.deep_clone(), e);
}

#[test]
fn layout_item_from_conversions() {
    assert!(matches!(LayoutItem::from(ElementRc(80)), LayoutItem::Element(ElementRc(80))));
    let mut e = element(81);
    let inner = Layout::from(path_layout(LayoutRect::install_on_element(&mut e), 0));
    match LayoutItem::from(Box::new(inner)) {
        LayoutItem::Layout(l) => assert!(matches!(*l, Layout::PathLayout(_))),
        LayoutItem::Element(_) => panic!("expected a nested layout"),
    }
}

/// A backend whose compiled code is text.
struct Text;

impl Language for Text {
    type CompiledCode = String;
}

impl LayoutItemCodeGen<Text> for ElementRc {
    // The verifier's description of the operations; compiled code never calls it.
    fn property_ref(&self, _name: Seq<char>) -> String {
        unreachable!()
    }
    fn layout_info<'a>(
        &'a self,
        _layout_tree: Seq<LayoutTreeItem<'a, Text>>,
        _component: Component,
    ) -> (String, Seq<LayoutTreeItem<'a, Text>>) {
        unreachable!()
    }
    fn get_property_ref(&self, name: &str) -> String {
        format!("e{}.{}", self.0, name)
    }
    fn get_layout_info_ref<'a, 'b>(
        &'a self,
        _layout_tree: &'b mut Vec<LayoutTreeItem<'a, Text>>,
        _component: &Component,
    ) -> String {
        format!("e{}.layout_info()", self.0)
    }
}

impl LayoutItemCodeGen<Text> for Layout {
    // The verifier's description of the operations; compiled code never calls it.
    fn property_ref(&self, _name: Seq<char>) -> String {
        unreachable!()
    }
    fn layout_info<'a>(
        &'a self,
        _layout_tree: Seq<LayoutTreeItem<'a, Text>>,
        _component: Component,
    ) -> (String, Seq<LayoutTreeItem<'a, Text>>) {
        unreachable!()
    }
    fn get_property_ref(&self, name: &str) -> String {
        format!("layout.{}", self.rect().mapped_property_name(name).unwrap_or("?"))
    }
    fn get_layout_info_ref<'a, 'b>(
        &'a self,
        layout_tree: &'b mut Vec<LayoutTreeItem<'a, Text>>,
        _component: &Component,
    ) -> String {
        let found = layout_tree.iter().position(|item| match (item, self) {
            (LayoutTreeItem::GridLayout { grid, .. }, Layout::GridLayout(g)) => std::ptr::eq(*grid, g),
            (LayoutTreeItem::PathLayout(p), Layout::PathLayout(q)) => std::ptr::eq(*p, q),
            _ => false,
        });
        let index = match found {
            Some(i) => i,
            None => {
                match self {
                    Layout::GridLayout(grid) => layout_tree.push(LayoutTreeItem::from((
                        grid,
                        "0".to_string(),
                        String::new(),
                        "cells".to_string(),
                    ))),
                    Layout::PathLayout(path) => layout_tree.push(LayoutTreeItem::from(path)),
                }
                layout_tree.len() - 1
            }
        };
        format!("tree[{}]", index)
    }
}

#[test]
fn layout_item_forwards_to_its_case() {
    let component = Component { root_element: ElementRc(0), layout_constraints: LayoutConstraints::default() };
    let leaf = LayoutItem::Element(ElementRc(7));
    let mut e = element(8);
    let nested = LayoutItem::Layout(Box::new(Layout::from(path_layout(LayoutRect::install_on_element(&mut e), 0))));
    assert_eq!(<LayoutItem as LayoutItemCodeGen<Text>>::get_property_ref(&leaf, "width"), "e7.width");
    assert_eq!(<LayoutItem as LayoutItemCodeGen<Text>>::get_property_ref(&nested, "width"), "layout.width");
    let mut tree: Vec<LayoutTreeItem<Text>> = Vec::new();
    assert_eq!(
        <LayoutItem as LayoutItemCodeGen<Text>>::get_layout_info_ref(&leaf, &mut tree, &component),
        "e7.layout_info()"
    );
    assert!(tree.is_empty());
    assert_eq!(
        <LayoutItem as LayoutItemCodeGen<Text>>::get_layout_info_ref(&nested, &mut tree, &component),
        "tree[0]"
    );
    assert_eq!(tree.len(), 1);
    assert!(matches!(tree[0], LayoutTreeItem::PathLayout(_)));
    assert_eq!(
        <LayoutItem as LayoutItemCodeGen<Text>>::get_layout_info_ref(&nested, &mut tree, &component),
        "tree[0]"
    );
    assert_eq!(tree.len(), 1);
}

#[test]
fn layout_info_entries_are_appended_once_per_layout() {
    let component = Component { root_element: ElementRc(0), layout_constraints: LayoutConstraints::default() };
    let (grid, _) = nested_grid();
    let mut e = element(9);
    let first = LayoutItem::Layout(Box::new(Layout::from(grid)));
    let second = LayoutItem::Layout(Box::new(Layout::from(path_layout(LayoutRect::install_on_element(&mut e), 0))));
    let mut tree: Vec<LayoutTreeItem<Text>> = Vec::new();
    assert_eq!(<LayoutItem as LayoutItemCodeGen<Text>>::get_layout_info_ref(&first, &mut tree, &component), "tree[0]");
    assert_eq!(<LayoutItem as LayoutItemCodeGen<Text>>::get_layout_info_ref(&second, &mut tree, &component), "tree[1]");
    assert_eq!(<LayoutItem as LayoutItemCodeGen<Text>>::get_layout_info_ref(&first, &mut tree, &component), "tree[0]");
    assert_eq!(tree.len(), 2);
    match &tree[0] {
        LayoutTreeItem::GridLayout { spacing, cell_ref_variable, .. } => {
            assert_eq!(spacing, "0");
            assert_eq!(cell_ref_variable, "cells");
        }
        LayoutTreeItem::PathLayout(_) => panic!("expected the grid first"),
    }
    assert!(matches!(tree[1], LayoutTreeItem::PathLayout(_)));
}

#[test]
fn rect_clone_keeps_every_channel() {
    let mut e = element(95);
    let rect = LayoutRect::install_on_element(&mut e);
    let copy = rect.clone();
    assert_eq!(copy.width_reference, rect.width_reference);
    assert_eq!(copy.height_reference, rect.height_reference);
    assert_eq!(copy.x_reference, reference(95, "x"));
    assert_eq!(copy.mapped_property_name("y"), Some("y"));
}

#[test]
fn nested_leaf_cell_expressions_never_visited() {
    let mut deep_leaf = element(36);
    deep_leaf.bindings.push(Binding { name: "x".to_string(), expression: Expression::NumberLiteral(777) });
    let mut a = element(37);
    let mut b = element(38);
    let inner = GridLayout {
        elems: vec![leaf_cell(0, 0, 35), GridLayoutElement { col: 1, row: 0, colspan: 1, rowspan: 1, item: LayoutItem::from(deep_leaf.id) }],
        rect: LayoutRect::install_on_element(&mut b),
        spacing: None,
    };
    let mut outer = GridLayout {
        elems: vec![GridLayoutElement {
            col: 0,
            row: 0,
            colspan: 1,
            rowspan: 1,
            item: LayoutItem::Layout(Box::new(Layout::from(inner))),
        }],
        rect: LayoutRect::install_on_element(&mut a),
        spacing: None,
    };
    let mut collector = ExpressionCollector::new();
    outer.visit_expressions(&mut collector);
    let mut expected = rect_expressions(37);
    expected.extend(rect_expressions(38));
    assert_eq!(collector.visited, expected);
    assert!(!collector.visited.contains(&Expression::NumberLiteral(777)));
    assert_eq!(deep_leaf.bindings[0].expression, Expression::NumberLiteral(777));
}
