//! The expression visitation protocol: a pass sees one expression slot at
//! a time, may rewrite it, and may record what it saw.
use vstd::prelude::*;
use crate::expression_tree::Expression;

verus! {

/// A compiler pass that layouts hand their expressions to, one at a time.
///
/// What a visit does is fixed by the visitor's view before the visit and
/// the expression visited: `rewritten` is what the slot then holds, and
/// `advanced` is the visitor's view afterwards.
pub trait ExpressionVisitor: View + Sized {
    spec fn rewritten(state: Self::V, e: Expression) -> Expression;

    spec fn advanced(state: Self::V, e: Expression) -> Self::V;

    fn visit(&mut self, e: &mut Expression)
        ensures
            *final(e) == Self::rewritten(old(self)@, *old(e)),
            final(self)@ == Self::advanced(old(self)@, *old(e)),
    ;
}

/// Visiting the expressions `s` in order, starting from the view `state`:
/// the view at the end, and what each slot then holds.
pub open spec fn visit_all<V: ExpressionVisitor>(state: V::V, s: Seq<Expression>) -> (V::V, Seq<Expression>)
    decreases s.len(),
{
    if s.len() == 0 {
        (state, Seq::empty())
    } else {
        let rest = visit_all::<V>(V::advanced(state, s[0]), s.drop_first());
        (rest.0, seq![V::rewritten(state, s[0])] + rest.1)
    }
}

pub proof fn lemma_visit_empty<V: ExpressionVisitor>(state: V::V)
    ensures
        visit_all::<V>(state, Seq::empty()) == (state, Seq::<Expression>::empty()),
{
}

/// Visiting `a + b` is visiting `a`, then `b` from where `a` left off.
pub proof fn lemma_visit_append<V: ExpressionVisitor>(state: V::V, a: Seq<Expression>, b: Seq<Expression>)
    ensures
        visit_all::<V>(state, a + b) == (
            visit_all::<V>(visit_all::<V>(state, a).0, b).0,
            visit_all::<V>(state, a).1 + visit_all::<V>(visit_all::<V>(state, a).0, b).1,
        ),
    decreases a.len(),
{
    if a.len() == 0 {
        assert(a + b =~= b);
        assert(visit_all::<V>(state, a).1 + visit_all::<V>(state, b).1 =~= visit_all::<V>(state, b).1);
    } else {
        assert((a + b).drop_first() =~= a.drop_first() + b);
        lemma_visit_append::<V>(V::advanced(state, a[0]), a.drop_first(), b);
        let p = visit_all::<V>(V::advanced(state, a[0]), a.drop_first());
        let q = visit_all::<V>(p.0, b);
        assert(seq![V::rewritten(state, a[0])] + (p.1 + q.1) =~= (seq![V::rewritten(state, a[0])] + p.1) + q.1);
    }
}

/// Visiting one more expression after `a`.
pub proof fn lemma_visit_push<V: ExpressionVisitor>(state: V::V, a: Seq<Expression>, e: Expression)
    ensures
        visit_all::<V>(state, a.push(e)) == (
            V::advanced(visit_all::<V>(state, a).0, e),
            visit_all::<V>(state, a).1.push(V::rewritten(visit_all::<V>(state, a).0, e)),
        ),
{
    assert(a.push(e) =~= a + seq![e]);
    lemma_visit_append::<V>(state, a, seq![e]);
    let p = visit_all::<V>(state, a);
    assert(seq![e].drop_first() =~= Seq::<Expression>::empty());
    assert(seq![e][0] == e);
    lemma_visit_empty::<V>(V::advanced(p.0, e));
    assert(visit_all::<V>(p.0, seq![e]) == (V::advanced(p.0, e), seq![V::rewritten(p.0, e)] + Seq::<Expression>::empty()));
    assert(p.1 + (seq![V::rewritten(p.0, e)] + Seq::<Expression>::empty()) =~= p.1.push(V::rewritten(p.0, e)));
}


/// A visitor that leaves every expression as it is and records, in order,
/// the expressions it was handed.
#[derive(Debug)]
pub struct ExpressionCollector {
    pub visited: Vec<Expression>,
}

impl View for ExpressionCollector {
    type V = Seq<Expression>;

    open spec fn view(&self) -> Seq<Expression> {
        self.visited@
    }
}

impl ExpressionCollector {
    pub fn new() -> (r: Self)
        ensures
            r@ == Seq::<Expression>::empty(),
    {
        ExpressionCollector { visited: Vec::new() }
    }
}

impl ExpressionVisitor for ExpressionCollector {
    open spec fn rewritten(state: Seq<Expression>, e: Expression) -> Expression {
        e
    }

    open spec fn advanced(state: Seq<Expression>, e: Expression) -> Seq<Expression> {
        state.push(e)
    }

    fn visit(&mut self, e: &mut Expression) {
        self.visited.push(e.deep_clone());
    }
}

/// Recording with an `ExpressionCollector` appends exactly `s` to what was
/// recorded and leaves each expression as it was.
pub proof fn lemma_collector_records(state: Seq<Expression>, s: Seq<Expression>)
    ensures
        visit_all::<ExpressionCollector>(state, s) == (state + s, s),
    decreases s.len(),
{
    if s.len() == 0 {
        assert(state + s =~= state);
    } else {
        lemma_collector_records(state.push(s[0]), s.drop_first());
        assert(state.push(s[0]) + s.drop_first() =~= state + s);
        assert(seq![s[0]] + s.drop_first() =~= s);
    }
}


/// Visiting the same expressions twice with an `ExpressionCollector` records
/// the same sequence both times, and leaves the expressions as they were.
pub proof fn lemma_collector_visits_stable(
    seen0: Seq<Expression>,
    s0: Seq<Expression>,
    seen1: Seq<Expression>,
    s1: Seq<Expression>,
    seen2: Seq<Expression>,
    s2: Seq<Expression>,
)
    requires
        (seen1, s1) == visit_all::<ExpressionCollector>(seen0, s0),
        (seen2, s2) == visit_all::<ExpressionCollector>(seen1, s1),
    ensures
        seen1 == seen0 + s0,
        seen2 == seen1 + s0,
        s2 == s0,
{
    lemma_collector_records(seen0, s0);
    lemma_collector_records(seen1, s1);
}

} // verus!
