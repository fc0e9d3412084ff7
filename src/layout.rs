//! Layouts: the geometry rect that binds a layout to element properties, the
//! grid and path arrangements, and the expression visitation protocol.
use vstd::prelude::*;
use crate::expression_tree::{Element, ElementRc, Expression, NamedReference, Path, Type};
use crate::visit::{ExpressionVisitor, visit_all, lemma_visit_push, lemma_visit_append, lemma_visit_empty};

verus! {

pub open spec fn x_name() -> Seq<char> {
    seq!['x']
}

pub open spec fn y_name() -> Seq<char> {
    seq!['y']
}

pub open spec fn width_name() -> Seq<char> {
    seq!['w', 'i', 'd', 't', 'h']
}

pub open spec fn height_name() -> Seq<char> {
    seq!['h', 'e', 'i', 'g', 'h', 't']
}

/// `e` is a direct reference to the property `name` of `element`.
pub open spec fn refers_to(e: Expression, element: ElementRc, name: Seq<char>) -> bool {
    match e {
        Expression::PropertyReference(r) => r.element == element && r.name@ == name,
        _ => false,
    }
}

/// The position and size of a layout, one expression per channel.
#[derive(Clone, Debug)]
pub struct LayoutRect {
    pub width_reference: Expression,
    pub height_reference: Expression,
    pub x_reference: Expression,
    pub y_reference: Expression,
}

/// Declares the property `name` as a length on `element` and returns a
/// direct reference to it.
fn install_prop(element: &mut Element, name: &str) -> (r: Expression)
    requires
        old(element).well_formed(),
    ensures
        final(element).well_formed(),
        final(element).declarations() == old(element).declarations().insert(name@, (Type::Length, None)),
        final(element).id == old(element).id,
        final(element).bindings == old(element).bindings,
        refers_to(r, old(element).id, name@),
{
    element.declare_property(name.to_owned(), Type::Length);
    Expression::PropertyReference(NamedReference { element: element.id, name: name.to_owned() })
}

impl LayoutRect {
    /// The expression of the channel called `name`, if there is such a channel.
    pub open spec fn channel(&self, name: Seq<char>) -> Option<Expression> {
        if name == x_name() {
            Some(self.x_reference)
        } else if name == y_name() {
            Some(self.y_reference)
        } else if name == width_name() {
            Some(self.width_reference)
        } else if name == height_name() {
            Some(self.height_reference)
        } else {
            None
        }
    }

    /// The name of the property that channel `name` refers to, while that
    /// channel is a direct property reference.
    pub open spec fn mapped_name(&self, name: Seq<char>) -> Option<Seq<char>> {
        match self.channel(name) {
            Some(Expression::PropertyReference(nr)) => Some(nr.name@),
            _ => None,
        }
    }

    /// The rect with channel `name` replaced by `e`.
    pub open spec fn with_channel(self, name: Seq<char>, e: Expression) -> LayoutRect {
        if name == x_name() {
            LayoutRect { x_reference: e, ..self }
        } else if name == y_name() {
            LayoutRect { y_reference: e, ..self }
        } else if name == width_name() {
            LayoutRect { width_reference: e, ..self }
        } else if name == height_name() {
            LayoutRect { height_reference: e, ..self }
        } else {
            self
        }
    }

    /// Declares the length properties x, y, width and height on `element`,
    /// replacing earlier declarations of these names, and returns the rect
    /// whose channels refer to them.
    pub fn install_on_element(element: &mut Element) -> (r: Self)
        requires
            old(element).well_formed(),
        ensures
            final(element).well_formed(),
            final(element).declarations() == old(element).declarations()
                .insert(x_name(), (Type::Length, None))
                .insert(y_name(), (Type::Length, None))
                .insert(width_name(), (Type::Length, None))
                .insert(height_name(), (Type::Length, None)),
            final(element).id == old(element).id,
            final(element).bindings == old(element).bindings,
            refers_to(r.x_reference, old(element).id, x_name()),
            refers_to(r.y_reference, old(element).id, y_name()),
            refers_to(r.width_reference, old(element).id, width_name()),
            refers_to(r.height_reference, old(element).id, height_name()),
    {
        proof {
            reveal_strlit("x");
            reveal_strlit("y");
            reveal_strlit("width");
            reveal_strlit("height");
            assert("x"@ =~= x_name());
            assert("y"@ =~= y_name());
            assert("width"@ =~= width_name());
            assert("height"@ =~= height_name());
        }
        let x_reference = install_prop(element, "x");
        let y_reference = install_prop(element, "y");
        let width_reference = install_prop(element, "width");
        let height_reference = install_prop(element, "height");
        LayoutRect { width_reference, height_reference, x_reference, y_reference }
    }

    /// The name of the property that channel `name` refers to, while that
    /// channel is still a direct property reference.
    pub fn mapped_property_name(&self, name: &str) -> (r: Option<&str>)
        ensures
            match r {
                Some(n) => self.mapped_name(name@) == Some(n@),
                None => self.mapped_name(name@) is None,
            },
    {
        proof {
            reveal_strlit("x");
            reveal_strlit("y");
            reveal_strlit("width");
            reveal_strlit("height");
            assert("x"@ =~= x_name());
            assert("y"@ =~= y_name());
            assert("width"@ =~= width_name());
            assert("height"@ =~= height_name());
        }
        let n = name.to_owned();
        let expr = if n == "x".to_owned() {
            &self.x_reference
        } else if n == "y".to_owned() {
            &self.y_reference
        } else if n == "width".to_owned() {
            &self.width_reference
        } else if n == "height".to_owned() {
            &self.height_reference
        } else {
            return None;
        };
        match expr {
            Expression::PropertyReference(nr) => Some(nr.name.as_str()),
            _ => None,
        }
    }
}


impl LayoutRect {
    /// The channels in visitation order: width, height, x, y.
    pub open spec fn expressions(&self) -> Seq<Expression> {
        seq![self.width_reference, self.height_reference, self.x_reference, self.y_reference]
    }

    /// Hands the width, height, x and y expressions, in that order, to `visitor`.
    pub fn visit_expressions<V: ExpressionVisitor>(&mut self, visitor: &mut V)
        ensures
            (final(visitor)@, final(self).expressions()) == visit_all::<V>(old(visitor)@, old(self).expressions()),
    {
        let ghost s0 = visitor@;
        let ghost w = self.width_reference;
        let ghost h = self.height_reference;
        let ghost x = self.x_reference;
        let ghost y = self.y_reference;
        proof {
            lemma_visit_empty::<V>(s0);
        }
        visitor.visit(&mut self.width_reference);
        proof {
            lemma_visit_push::<V>(s0, seq![], w);
        }
        visitor.visit(&mut self.height_reference);
        proof {
            lemma_visit_push::<V>(s0, seq![].push(w), h);
        }
        visitor.visit(&mut self.x_reference);
        proof {
            lemma_visit_push::<V>(s0, seq![].push(w).push(h), x);
        }
        visitor.visit(&mut self.y_reference);
        proof {
            lemma_visit_push::<V>(s0, seq![].push(w).push(h).push(x), y);
            assert(old(self).expressions() =~= seq![].push(w).push(h).push(x).push(y));
            assert(self.expressions() =~= seq![].push(self.width_reference).push(self.height_reference).push(
                self.x_reference,
            ).push(self.y_reference));
        }
    }
}

/// A rect just installed on an element maps each of x, y, width and height
/// to the property of the same name.
pub proof fn lemma_installed_rect_maps_channels(r: LayoutRect, element: ElementRc)
    requires
        refers_to(r.x_reference, element, x_name()),
        refers_to(r.y_reference, element, y_name()),
        refers_to(r.width_reference, element, width_name()),
        refers_to(r.height_reference, element, height_name()),
    ensures
        r.mapped_name(x_name()) == Some(x_name()),
        r.mapped_name(y_name()) == Some(y_name()),
        r.mapped_name(width_name()) == Some(width_name()),
        r.mapped_name(height_name()) == Some(height_name()),
{
    assert(x_name()[0] != y_name()[0]);
    assert(x_name().len() != width_name().len() && y_name().len() != width_name().len());
    assert(x_name().len() != height_name().len() && y_name().len() != height_name().len());
    assert(width_name().len() != height_name().len());
}

/// Once a channel holds anything but a direct property reference, it maps
/// to no property.
pub proof fn lemma_rewritten_channel_unmapped(r: LayoutRect, name: Seq<char>, e: Expression)
    requires
        r.channel(name) is Some,
        !(e is PropertyReference),
    ensures
        r.with_channel(name, e).mapped_name(name) is None,
{
}

/// What a grid cell holds: a leaf element, or a nested layout that the
/// cell owns.
#[derive(Debug)]
pub enum LayoutItem {
    Element(ElementRc),
    Layout(Box<Layout>),
}

/// One cell of a grid layout.
#[derive(Debug)]
pub struct GridLayoutElement {
    pub col: u16,
    pub row: u16,
    pub colspan: u16,
    pub rowspan: u16,
    pub item: LayoutItem,
}

/// A grid arrangement.
#[derive(Debug)]
pub struct GridLayout {
    /// The cells, in declaration order.
    pub elems: Vec<GridLayoutElement>,
    pub rect: LayoutRect,
    pub spacing: Option<Expression>,
}

/// A path arrangement: elements placed along a path, starting at an offset.
#[derive(Debug)]
pub struct PathLayout {
    pub path: Path,
    pub elements: Vec<ElementRc>,
    pub rect: LayoutRect,
    pub offset_reference: Expression,
}

/// A layout of either kind.
#[derive(Debug)]
pub enum Layout {
    GridLayout(GridLayout),
    PathLayout(PathLayout),
}

/// The spacing slot of a grid, as a sequence of zero or one expression.
pub open spec fn optional_expressions(o: Option<Expression>) -> Seq<Expression> {
    match o {
        Some(e) => seq![e],
        None => Seq::empty(),
    }
}

/// The expressions that the items of `cells` own, cell by cell: none for
/// a leaf element, all of its own for a nested layout.
pub open spec fn cells_expressions(cells: Seq<GridLayoutElement>) -> Seq<Expression>
    decreases cells,
{
    if cells.len() == 0 {
        Seq::empty()
    } else {
        cells_expressions(cells.drop_last()) + item_expressions(cells.last().item)
    }
}

/// The expressions that a layout item owns.
pub open spec fn item_expressions(item: LayoutItem) -> Seq<Expression>
    decreases item,
{
    match item {
        LayoutItem::Element(_) => Seq::empty(),
        LayoutItem::Layout(l) => l.expressions(),
    }
}

/// `a` and `b` differ at most in the expressions that their items own.
pub open spec fn cells_same_shape(a: Seq<GridLayoutElement>, b: Seq<GridLayoutElement>) -> bool
    decreases a,
{
    &&& a.len() == b.len()
    &&& a.len() > 0 ==> {
        &&& cells_same_shape(a.drop_last(), b.drop_last())
        &&& a.last().col == b.last().col
        &&& a.last().row == b.last().row
        &&& a.last().colspan == b.last().colspan
        &&& a.last().rowspan == b.last().rowspan
        &&& item_same_shape(a.last().item, b.last().item)
    }
}

/// `a` and `b` differ at most in the expressions that they own.
pub open spec fn item_same_shape(a: LayoutItem, b: LayoutItem) -> bool
    decreases a,
{
    match a {
        LayoutItem::Element(e) => b == LayoutItem::Element(e),
        LayoutItem::Layout(l) => b is Layout && l.same_shape(*b->Layout_0),
    }
}

proof fn lemma_cells_expressions_append(a: Seq<GridLayoutElement>, b: Seq<GridLayoutElement>)
    ensures
        cells_expressions(a + b) == cells_expressions(a) + cells_expressions(b),
    decreases b.len(),
{
    if b.len() == 0 {
        assert(a + b =~= a);
        assert(cells_expressions(a) + cells_expressions(b) =~= cells_expressions(a));
    } else {
        assert((a + b).drop_last() =~= a + b.drop_last());
        assert((a + b).last() == b.last());
        lemma_cells_expressions_append(a, b.drop_last());
        assert(cells_expressions(a + b) =~= cells_expressions(a) + cells_expressions(b));
    }
}

proof fn lemma_cells_expressions_split(cells: Seq<GridLayoutElement>, i: int)
    requires
        0 <= i < cells.len(),
    ensures
        cells_expressions(cells) == cells_expressions(cells.take(i)) + item_expressions(cells[i].item)
            + cells_expressions(cells.skip(i + 1)),
{
    let one = seq![cells[i]];
    assert(cells =~= (cells.take(i) + one) + cells.skip(i + 1));
    lemma_cells_expressions_append(cells.take(i) + one, cells.skip(i + 1));
    lemma_cells_expressions_append(cells.take(i), one);
    assert(one.drop_last() =~= Seq::<GridLayoutElement>::empty());
    assert(one.last() == cells[i]);
    assert(cells_expressions(one.drop_last()) == Seq::<Expression>::empty());
    assert(cells_expressions(one) =~= item_expressions(cells[i].item));
}

/// A cell that holds a leaf element adds nothing to what a grid's
/// visitation yields: the grid yields exactly what it would without it.
pub proof fn lemma_leaf_cell_excluded(g: GridLayout, i: int)
    requires
        0 <= i < g.elems@.len(),
        g.elems@[i].item is Element,
    ensures
        g.expressions() == g.rect.expressions() + optional_expressions(g.spacing) + cells_expressions(
            g.elems@.remove(i),
        ),
{
    let cells = g.elems@;
    lemma_cells_expressions_split(cells, i);
    assert(cells.remove(i) =~= cells.take(i) + cells.skip(i + 1));
    lemma_cells_expressions_append(cells.take(i), cells.skip(i + 1));
    assert(cells_expressions(cells) =~= cells_expressions(cells.remove(i)));
}

/// `b` is `a` with the leaf cell `i` removed from the grid that `path`
/// leads to: each index of `path` picks a cell of the current grid whose
/// nested layout is the next grid, and nothing else differs.
pub open spec fn leaf_removed(a: Layout, b: Layout, path: Seq<int>, i: int) -> bool
    decreases path.len(),
{
    &&& a is GridLayout
    &&& b is GridLayout
    &&& a->GridLayout_0.rect == b->GridLayout_0.rect
    &&& a->GridLayout_0.spacing == b->GridLayout_0.spacing
    &&& if path.len() == 0 {
        let cells = a->GridLayout_0.elems@;
        &&& 0 <= i < cells.len()
        &&& cells[i].item is Element
        &&& b->GridLayout_0.elems@ == cells.remove(i)
    } else {
        let cells = a->GridLayout_0.elems@;
        let k = path[0];
        &&& 0 <= k < cells.len()
        &&& cells[k].item is Layout
        &&& b->GridLayout_0.elems@.len() == cells.len()
        &&& forall|j: int| 0 <= j < cells.len() && j != k ==> #[trigger] b->GridLayout_0.elems@[j] == cells[j]
        &&& b->GridLayout_0.elems@[k].item is Layout
        &&& leaf_removed(
            *cells[k].item->Layout_0,
            *b->GridLayout_0.elems@[k].item->Layout_0,
            path.drop_first(),
            i,
        )
    }
}

/// A leaf cell at any depth adds nothing to what visitation yields: a
/// layout yields exactly what it yields with that cell removed.
pub proof fn lemma_nested_leaf_cell_excluded(a: Layout, b: Layout, path: Seq<int>, i: int)
    requires
        leaf_removed(a, b, path, i),
    ensures
        a.expressions() == b.expressions(),
    decreases path.len(),
{
    let ga = a->GridLayout_0;
    let gb = b->GridLayout_0;
    let ca = ga.elems@;
    let cb = gb.elems@;
    if path.len() == 0 {
        lemma_leaf_cell_excluded(ga, i);
    } else {
        let k = path[0];
        lemma_nested_leaf_cell_excluded(*ca[k].item->Layout_0, *cb[k].item->Layout_0, path.drop_first(), i);
        lemma_cells_expressions_split(ca, k);
        lemma_cells_expressions_split(cb, k);
        assert(ca.take(k) =~= cb.take(k));
        assert(ca.skip(k + 1) =~= cb.skip(k + 1));
        assert(cells_expressions(ca) == cells_expressions(cb));
    }
}

/// The elements placed along a path are never visited: two path layouts
/// with the same rect and offset yield the same expressions.
pub proof fn lemma_path_elements_excluded(p: PathLayout, q: PathLayout)
    requires
        p.rect == q.rect,
        p.offset_reference == q.offset_reference,
    ensures
        p.expressions() == q.expressions(),
{
}

/// A cell that holds a nested layout contributes that layout's own
/// expressions, in its own order, at the cell's place in the grid's order.
pub proof fn lemma_nested_layout_delegated(g: GridLayout, i: int)
    requires
        0 <= i < g.elems@.len(),
        g.elems@[i].item is Layout,
    ensures
        g.expressions() == g.rect.expressions() + optional_expressions(g.spacing) + cells_expressions(
            g.elems@.take(i),
        ) + g.elems@[i].item->Layout_0.expressions() + cells_expressions(g.elems@.skip(i + 1)),
{
    lemma_cells_expressions_split(g.elems@, i);
    let h = g.rect.expressions() + optional_expressions(g.spacing);
    let a = cells_expressions(g.elems@.take(i));
    let m = g.elems@[i].item->Layout_0.expressions();
    let c = cells_expressions(g.elems@.skip(i + 1));
    assert(h + (a + m + c) =~= h + a + m + c);
}

impl GridLayout {
    /// The expressions that the grid owns, in visitation order: the rect's,
    /// then the spacing if there is one, then those of each nested layout
    /// in cell order. Leaf elements contribute nothing.
    pub open spec fn expressions(&self) -> Seq<Expression>
        decreases *self,
    {
        self.rect.expressions() + optional_expressions(self.spacing) + cells_expressions(self.elems@)
    }

    /// `self` and `other` differ at most in the expressions that the grid owns.
    pub open spec fn same_shape(&self, other: GridLayout) -> bool
        decreases *self,
    {
        &&& self.spacing is Some <==> other.spacing is Some
        &&& cells_same_shape(self.elems@, other.elems@)
    }
}

impl PathLayout {
    /// The rect's expressions, then the offset. The elements along the path
    /// are not visited.
    pub open spec fn expressions(&self) -> Seq<Expression> {
        self.rect.expressions().push(self.offset_reference)
    }

    /// `self` and `other` differ at most in the expressions that the path
    /// layout owns.
    pub open spec fn same_shape(&self, other: PathLayout) -> bool {
        self.path == other.path && self.elements == other.elements
    }
}

impl PathLayout {
    /// Hands the rect's expressions, then the offset, to `visitor`.
    pub fn visit_expressions<V: ExpressionVisitor>(&mut self, visitor: &mut V)
        ensures
            final(self).same_shape(*old(self)),
            (final(visitor)@, final(self).expressions()) == visit_all::<V>(old(visitor)@, old(self).expressions()),
    {
        let ghost s0 = visitor@;
        self.rect.visit_expressions(visitor);
        let ghost offset = self.offset_reference;
        visitor.visit(&mut self.offset_reference);
        proof {
            lemma_visit_push::<V>(s0, old(self).rect.expressions(), offset);
        }
    }
}

impl GridLayout {
    /// Hands the rect's expressions, then the spacing if there is one, then
    /// the expressions of each nested layout in cell order, to `visitor`.
    /// Cells that hold a leaf element are skipped: the element tree's own
    /// traversal reaches what an element owns.
    pub fn visit_expressions<V: ExpressionVisitor>(&mut self, visitor: &mut V)
        ensures
            final(self).same_shape(*old(self)),
            (final(visitor)@, final(self).expressions()) == visit_all::<V>(old(visitor)@, old(self).expressions()),
        decreases *old(self),
    {
        let ghost s0 = visitor@;
        self.rect.visit_expressions(visitor);
        match &mut self.spacing {
            Some(e) => {
                let ghost spacing = *e;
                visitor.visit(e);
                proof {
                    lemma_visit_push::<V>(s0, old(self).rect.expressions(), spacing);
                    assert(old(self).rect.expressions().push(spacing) =~= old(self).rect.expressions()
                        + optional_expressions(old(self).spacing));
                    assert(self.rect.expressions().push(*e) =~= self.rect.expressions()
                        + optional_expressions(self.spacing));
                }
            },
            None => {
                proof {
                    assert(old(self).rect.expressions() =~= old(self).rect.expressions()
                        + optional_expressions(old(self).spacing));
                    assert(self.rect.expressions() =~= self.rect.expressions()
                        + optional_expressions(self.spacing));
                }
            },
        }
        let ghost head_old = old(self).rect.expressions() + optional_expressions(old(self).spacing);
        let ghost head_new = self.rect.expressions() + optional_expressions(self.spacing);
        let ghost s1 = visitor@;
        let ghost rect1 = self.rect;
        let ghost spacing1 = self.spacing;
        let ghost cells0 = old(self).elems@;
        proof {
            lemma_visit_empty::<V>(s1);
            assert(cells0.take(0) =~= Seq::<GridLayoutElement>::empty());
            assert(self.elems@.take(0) =~= Seq::<GridLayoutElement>::empty());
        }
        let n = self.elems.len();
        let mut i: usize = 0;
        while i < n
            invariant
                0 <= i <= n,
                n == cells0.len(),
                self.elems@.len() == n,
                self.rect == rect1,
                self.spacing == spacing1,
                head_new == self.rect.expressions() + optional_expressions(self.spacing),
                (s1, head_new) == visit_all::<V>(s0, head_old),
                forall|j: int| i <= j < n ==> #[trigger] self.elems@[j] == cells0[j],
                cells_same_shape(self.elems@.take(i as int), cells0.take(i as int)),
                (visitor@, cells_expressions(self.elems@.take(i as int))) == visit_all::<V>(
                    s1,
                    cells_expressions(cells0.take(i as int)),
                ),
                cells0 == old(self).elems@,
            decreases n - i,
        {
            let ghost before = self.elems@;
            let ghost si = visitor@;
            let ghost cell = cells0[i as int];
            proof {
                assert(cells0.take(i + 1).drop_last() =~= cells0.take(i as int));
                assert(cells0.take(i + 1).last() == cell);
                lemma_visit_append::<V>(s1, cells_expressions(cells0.take(i as int)), item_expressions(cell.item));
            }
            match &mut self.elems[i].item {
                LayoutItem::Element(_) => {
                    proof {
                        lemma_visit_empty::<V>(si);
                    }
                },
                LayoutItem::Layout(l) => {
                    proof {
                        assert(decreases_to!(old(self).elems => old(self).elems@));
                        assert(decreases_to!(old(self).elems@ => old(self).elems@[i as int]));
                    }
                    l.visit_expressions(visitor);
                },
            }
            proof {
                let now = self.elems@;
                assert(now.take(i as int) =~= before.take(i as int));
                assert(now.take(i + 1).drop_last() =~= now.take(i as int));
                assert(now.take(i + 1).last() == now[i as int]);
                assert(now[i as int].col == cell.col && now[i as int].row == cell.row);
                assert(now[i as int].colspan == cell.colspan && now[i as int].rowspan == cell.rowspan);
                assert(item_same_shape(now[i as int].item, cell.item));
                assert(cells_same_shape(now.take(i + 1), cells0.take(i + 1)));
                assert(cells_expressions(now.take(i + 1)) =~= cells_expressions(now.take(i as int))
                    + item_expressions(now[i as int].item));
            }
            i = i + 1;
        }
        proof {
            assert(self.elems@.take(n as int) =~= self.elems@);
            assert(cells0.take(n as int) =~= cells0);
            lemma_visit_append::<V>(s0, head_old, cells_expressions(cells0));
        }
    }
}

impl Layout {
    pub open spec fn expressions(&self) -> Seq<Expression>
        decreases *self,
    {
        match self {
            Layout::GridLayout(g) => g.expressions(),
            Layout::PathLayout(p) => p.expressions(),
        }
    }

    pub open spec fn same_shape(&self, other: Layout) -> bool
        decreases *self,
    {
        match self {
            Layout::GridLayout(g) => other is GridLayout && g.same_shape(other->GridLayout_0),
            Layout::PathLayout(p) => other is PathLayout && p.same_shape(other->PathLayout_0),
        }
    }

    pub open spec fn spec_rect(&self) -> LayoutRect {
        match self {
            Layout::GridLayout(g) => g.rect,
            Layout::PathLayout(p) => p.rect,
        }
    }

    /// Hands the expressions of whichever layout this is to `visitor`.
    pub fn visit_expressions<V: ExpressionVisitor>(&mut self, visitor: &mut V)
        ensures
            final(self).same_shape(*old(self)),
            (final(visitor)@, final(self).expressions()) == visit_all::<V>(old(visitor)@, old(self).expressions()),
        decreases *old(self),
    {
        match self {
            Layout::GridLayout(g) => g.visit_expressions(visitor),
            Layout::PathLayout(p) => p.visit_expressions(visitor),
        }
    }

    /// The rect of whichever layout this is: the one it holds, not a copy.
    pub fn rect(&self) -> (r: &LayoutRect)
        ensures
            *r == self.spec_rect(),
    {
        match self {
            Layout::GridLayout(g) => &g.rect,
            Layout::PathLayout(p) => &p.rect,
        }
    }
}


/// All the layouts of one component, in order.
#[derive(Debug)]
pub struct LayoutConstraints(pub Vec<Layout>);

/// The expressions that `layouts` own, layout by layout.
pub open spec fn layouts_expressions(layouts: Seq<Layout>) -> Seq<Expression>
    decreases layouts.len(),
{
    if layouts.len() == 0 {
        Seq::empty()
    } else {
        layouts_expressions(layouts.drop_last()) + layouts.last().expressions()
    }
}

impl Default for LayoutConstraints {
    fn default() -> (r: Self)
        ensures
            r.0@ == Seq::<Layout>::empty(),
    {
        LayoutConstraints(Vec::new())
    }
}

impl LayoutConstraints {
    pub open spec fn expressions(&self) -> Seq<Expression> {
        layouts_expressions(self.0@)
    }

    pub open spec fn same_shape(&self, other: LayoutConstraints) -> bool {
        &&& self.0@.len() == other.0@.len()
        &&& forall|j: int| 0 <= j < self.0@.len() ==> #[trigger] self.0@[j].same_shape(other.0@[j])
    }

    /// Hands the expressions of every layout, layout by layout, to `visitor`.
    pub fn visit_expressions<V: ExpressionVisitor>(&mut self, visitor: &mut V)
        ensures
            final(self).same_shape(*old(self)),
            (final(visitor)@, final(self).expressions()) == visit_all::<V>(old(visitor)@, old(self).expressions()),
    {
        let ghost s0 = visitor@;
        let ghost layouts0 = self.0@;
        proof {
            lemma_visit_empty::<V>(s0);
            assert(layouts0.take(0) =~= Seq::<Layout>::empty());
            assert(self.0@.take(0) =~= Seq::<Layout>::empty());
        }
        let n = self.0.len();
        let mut i: usize = 0;
        while i < n
            invariant
                0 <= i <= n,
                n == layouts0.len(),
                self.0@.len() == n,
                layouts0 == old(self).0@,
                forall|j: int| i <= j < n ==> #[trigger] self.0@[j] == layouts0[j],
                forall|j: int| 0 <= j < i ==> #[trigger] self.0@[j].same_shape(layouts0[j]),
                (visitor@, layouts_expressions(self.0@.take(i as int))) == visit_all::<V>(
                    s0,
                    layouts_expressions(layouts0.take(i as int)),
                ),
            decreases n - i,
        {
            let ghost before = self.0@;
            proof {
                assert(layouts0.take(i + 1).drop_last() =~= layouts0.take(i as int));
                lemma_visit_append::<V>(s0, layouts_expressions(layouts0.take(i as int)), layouts0[i as int].expressions());
            }
            self.0[i].visit_expressions(visitor);
            proof {
                let now = self.0@;
                assert(now.take(i as int) =~= before.take(i as int));
                assert(now.take(i + 1).drop_last() =~= now.take(i as int));
                assert(layouts_expressions(now.take(i + 1)) =~= layouts_expressions(now.take(i as int))
                    + now[i as int].expressions());
            }
            i = i + 1;
        }
        proof {
            assert(self.0@.take(n as int) =~= self.0@);
            assert(layouts0.take(n as int) =~= layouts0);
        }
    }
}

impl From<GridLayout> for Layout {
    fn from(g: GridLayout) -> (r: Layout)
        ensures
            r == Layout::GridLayout(g),
    {
        Layout::GridLayout(g)
    }
}

impl vstd::std_specs::convert::FromSpecImpl<GridLayout> for Layout {
    open spec fn obeys_from_spec() -> bool {
        true
    }

    open spec fn from_spec(g: GridLayout) -> Layout {
        Layout::GridLayout(g)
    }
}

impl From<PathLayout> for Layout {
    fn from(p: PathLayout) -> (r: Layout)
        ensures
            r == Layout::PathLayout(p),
    {
        Layout::PathLayout(p)
    }
}

impl vstd::std_specs::convert::FromSpecImpl<PathLayout> for Layout {
    open spec fn obeys_from_spec() -> bool {
        true
    }

    open spec fn from_spec(p: PathLayout) -> Layout {
        Layout::PathLayout(p)
    }
}

impl From<ElementRc> for LayoutItem {
    fn from(e: ElementRc) -> (r: LayoutItem)
        ensures
            r == LayoutItem::Element(e),
    {
        LayoutItem::Element(e)
    }
}

impl vstd::std_specs::convert::FromSpecImpl<ElementRc> for LayoutItem {
    open spec fn obeys_from_spec() -> bool {
        true
    }

    open spec fn from_spec(e: ElementRc) -> LayoutItem {
        LayoutItem::Element(e)
    }
}

impl From<Box<Layout>> for LayoutItem {
    fn from(l: Box<Layout>) -> (r: LayoutItem)
        ensures
            r == LayoutItem::Layout(l),
    {
        LayoutItem::Layout(l)
    }
}

impl vstd::std_specs::convert::FromSpecImpl<Box<Layout>> for LayoutItem {
    open spec fn obeys_from_spec() -> bool {
        true
    }

    open spec fn from_spec(l: Box<Layout>) -> LayoutItem {
        LayoutItem::Layout(l)
    }
}

} // verus!
