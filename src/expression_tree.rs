//! The parts of the element tree that layouts refer to: element handles,
//! property declarations, named references and expressions.
use vstd::prelude::*;

verus! {

/// A non-owning handle to a UI element: its index in the element arena.
/// Layouts hold these, never the element itself, so that no ownership
/// cycle can form between elements and the layouts that arrange them.
#[derive(Clone, Copy, Debug, PartialEq, Eq, Structural)]
pub struct ElementRc(pub usize);

/// The semantic type of a property.
#[derive(Clone, Copy, Debug, PartialEq, Eq, Structural)]
pub enum Type {
    Invalid,
    Length,
    Int32,
    Bool,
    Text,
    Color,
}

/// A named, typed slot on an element.
#[derive(Debug)]
pub struct PropertyDeclaration {
    pub name: String,
    pub property_type: Type,
    /// Where the declaration was written, if it was written at all.
    pub source_offset: Option<usize>,
}

/// A handle on one property of one element.
#[derive(Clone, Debug, PartialEq, Eq)]
pub struct NamedReference {
    pub element: ElementRc,
    pub name: String,
}

/// An expression of the compiler's expression tree.
#[derive(Debug, PartialEq, Eq)]
pub enum Expression {
    Invalid,
    NumberLiteral(i64),
    PropertyReference(NamedReference),
    BinaryExpression { lhs: Box<Expression>, rhs: Box<Expression>, op: char },
}

/// A property binding held by an element.
#[derive(Debug)]
pub struct Binding {
    pub name: String,
    pub expression: Expression,
}

/// One node of the element tree, with its name-keyed declaration table.
#[derive(Debug)]
pub struct Element {
    pub id: ElementRc,
    pub property_declarations: Vec<PropertyDeclaration>,
    pub bindings: Vec<Binding>,
}

/// One command of a path's geometry.
#[derive(Clone, Copy, Debug, PartialEq, Eq, Structural)]
pub enum PathElement {
    MoveTo { x: i64, y: i64 },
    LineTo { x: i64, y: i64 },
    Close,
}

/// The geometry of a path: its commands in order.
#[derive(Debug)]
pub struct Path {
    pub elements: Vec<PathElement>,
}

/// The declaration table of `decls` as a map: where a name occurs more than
/// once, the later entry wins.
pub open spec fn declaration_map(decls: Seq<PropertyDeclaration>) -> Map<Seq<char>, (Type, Option<usize>)>
    decreases decls.len(),
{
    if decls.len() == 0 {
        Map::empty()
    } else {
        let last = decls.last();
        declaration_map(decls.drop_last()).insert(last.name@, (last.property_type, last.source_offset))
    }
}

/// No two entries of `decls` share a name.
pub open spec fn names_unique(decls: Seq<PropertyDeclaration>) -> bool {
    forall|i: int, j: int|
        0 <= i < j < decls.len() ==> #[trigger] decls[i].name@ != #[trigger] decls[j].name@
}

proof fn lemma_declaration_map_absent(decls: Seq<PropertyDeclaration>, name: Seq<char>)
    requires
        forall|i: int| 0 <= i < decls.len() ==> #[trigger] decls[i].name@ != name,
    ensures
        !declaration_map(decls).contains_key(name),
    decreases decls.len(),
{
    if decls.len() > 0 {
        lemma_declaration_map_absent(decls.drop_last(), name);
    }
}

proof fn lemma_declaration_map_update(decls: Seq<PropertyDeclaration>, k: int, d: PropertyDeclaration)
    requires
        names_unique(decls),
        0 <= k < decls.len(),
        decls[k].name@ == d.name@,
    ensures
        declaration_map(decls.update(k, d)) == declaration_map(decls).insert(
            d.name@,
            (d.property_type, d.source_offset),
        ),
    decreases decls.len(),
{
    let u = decls.update(k, d);
    if k == decls.len() - 1 {
        assert(u.drop_last() == decls.drop_last());
        assert(forall|i: int| 0 <= i < decls.drop_last().len() ==> decls.drop_last()[i] == decls[i]);
        lemma_declaration_map_absent(decls.drop_last(), d.name@);
        assert(declaration_map(u) =~= declaration_map(decls).insert(d.name@, (d.property_type, d.source_offset)));
    } else {
        assert(u.drop_last() == decls.drop_last().update(k, d));
        lemma_declaration_map_update(decls.drop_last(), k, d);
        assert(declaration_map(u) =~= declaration_map(decls).insert(d.name@, (d.property_type, d.source_offset)));
    }
}

impl NamedReference {
    /// A copy of the reference.
    pub fn deep_clone(&self) -> (r: NamedReference)
        ensures
            r == *self,
    {
        NamedReference { element: self.element, name: self.name.clone() }
    }
}

impl Expression {
    /// A copy of the whole expression tree.
    pub fn deep_clone(&self) -> (r: Expression)
        ensures
            r == *self,
        decreases *self,
    {
        match self {
            Expression::Invalid => Expression::Invalid,
            Expression::NumberLiteral(n) => Expression::NumberLiteral(*n),
            Expression::PropertyReference(nr) => Expression::PropertyReference(nr.deep_clone()),
            Expression::BinaryExpression { lhs, rhs, op } => Expression::BinaryExpression {
                lhs: Box::new(lhs.deep_clone()),
                rhs: Box::new(rhs.deep_clone()),
                op: *op,
            },
        }
    }
}

impl Clone for Expression {
    fn clone(&self) -> Self {
        self.deep_clone()
    }
}

impl Element {
    /// The declaration table, by name.
    pub open spec fn declarations(&self) -> Map<Seq<char>, (Type, Option<usize>)> {
        declaration_map(self.property_declarations@)
    }

    /// The declaration table holds each name once.
    pub open spec fn well_formed(&self) -> bool {
        names_unique(self.property_declarations@)
    }

    /// Declares the property `name` of type `property_type`, replacing any
    /// earlier declaration of that name.
    pub fn declare_property(&mut self, name: String, property_type: Type)
        requires
            old(self).well_formed(),
        ensures
            final(self).well_formed(),
            final(self).declarations() == old(self).declarations().insert(name@, (property_type, None)),
            final(self).id == old(self).id,
            final(self).bindings == old(self).bindings,
    {
        let ghost name_view = name@;
        let mut i: usize = 0;
        while i < self.property_declarations.len()
            invariant
                0 <= i <= self.property_declarations.len(),
                *self == *old(self),
                names_unique(self.property_declarations@),
                name@ == name_view,
                forall|j: int| 0 <= j < i ==> #[trigger] self.property_declarations@[j].name@ != name@,
            decreases self.property_declarations.len() - i,
        {
            if self.property_declarations[i].name == name {
                let decl = PropertyDeclaration { name, property_type, source_offset: None };
                proof {
                    lemma_declaration_map_update(self.property_declarations@, i as int, decl);
                }
                self.property_declarations.set(i, decl);
                proof {
                    let s = self.property_declarations@;
                    let o = old(self).property_declarations@;
                    assert(forall|j: int| 0 <= j < s.len() ==> #[trigger] s[j].name@ == o[j].name@);
                }
                return;
            }
            i = i + 1;
        }
        proof {
            lemma_declaration_map_absent(self.property_declarations@, name@);
        }
        let decl = PropertyDeclaration { name, property_type, source_offset: None };
        self.property_declarations.push(decl);
        proof {
            assert(self.property_declarations@.drop_last() == old(self).property_declarations@);
        }
    }
}

} // verus!
