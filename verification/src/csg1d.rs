//! One-dimensional CSG combinators: union (pointwise maximum) and
//! intersection (pointwise minimum) over any number of children.

use crate::fixed::{max_v, min_v, Fx, MAX_RAW};
use crate::heights::{eval1, eval_list_max, eval_list_min, lemma_eval1_bounded, Height1};
use vstd::prelude::*;

verus! {

/// The pointwise maximum of a list of children.
#[derive(Debug)]
pub struct Union1D {
    pub funcs: Vec<Height1>,
}

impl Union1D {
    pub fn new(a: Height1, b: Height1) -> (r: Union1D)
        ensures
            r.funcs@.len() == 2,
            r.funcs@[0] == a,
            r.funcs@[1] == b,
    {
        Union1D { funcs: vec![a, b] }
    }

    pub fn many(funcs: Vec<Height1>) -> (r: Union1D)
        ensures
            r.funcs@ == funcs@,
    {
        Union1D { funcs }
    }

    /// Fold the children with `max`, starting from the minus-infinity
    /// stand-in, exactly as `eval_list_max` states.
    pub fn compute(&self, x: Fx) -> (r: Fx)
        ensures
            r@ == eval_list_max(self.funcs@, x@),
        decreases self.funcs@,
    {
        let mut result = Fx { raw: -MAX_RAW };
        let mut i: usize = 0;
        while i < self.funcs.len()
            invariant
                0 <= i <= self.funcs@.len(),
                result@ == eval_list_max(self.funcs@.take(i as int), x@),
            decreases self.funcs@.len() - i,
        {
            let v = self.funcs[i].compute(x);
            proof {
                let t = self.funcs@.take(i + 1);
                assert(t.subrange(0, t.len() - 1) =~= self.funcs@.take(i as int));
                assert(t[t.len() - 1] == self.funcs@[i as int]);
            }
            result = result.max(v);
            i = i + 1;
        }
        proof {
            assert(self.funcs@.take(self.funcs@.len() as int) =~= self.funcs@);
        }
        result
    }
}

/// The pointwise minimum of a list of children.
#[derive(Debug)]
pub struct Intersection1D {
    pub funcs: Vec<Height1>,
}

impl Intersection1D {
    pub fn new(a: Height1, b: Height1) -> (r: Intersection1D)
        ensures
            r.funcs@.len() == 2,
            r.funcs@[0] == a,
            r.funcs@[1] == b,
    {
        Intersection1D { funcs: vec![a, b] }
    }

    pub fn many(funcs: Vec<Height1>) -> (r: Intersection1D)
        ensures
            r.funcs@ == funcs@,
    {
        Intersection1D { funcs }
    }

    /// Fold the children with `min`, starting from the plus-infinity
    /// stand-in, exactly as `eval_list_min` states.
    pub fn compute(&self, x: Fx) -> (r: Fx)
        ensures
            r@ == eval_list_min(self.funcs@, x@),
        decreases self.funcs@,
    {
        let mut result = Fx { raw: MAX_RAW };
        let mut i: usize = 0;
        while i < self.funcs.len()
            invariant
                0 <= i <= self.funcs@.len(),
                result@ == eval_list_min(self.funcs@.take(i as int), x@),
            decreases self.funcs@.len() - i,
        {
            let v = self.funcs[i].compute(x);
            proof {
                let t = self.funcs@.take(i + 1);
                assert(t.subrange(0, t.len() - 1) =~= self.funcs@.take(i as int));
                assert(t[t.len() - 1] == self.funcs@[i as int]);
            }
            result = result.min(v);
            i = i + 1;
        }
        proof {
            assert(self.funcs@.take(self.funcs@.len() as int) =~= self.funcs@);
        }
        result
    }
}

/// A two-child union computes the pointwise maximum of its children.
pub proof fn lemma_union_pair_is_max(u: Union1D, a: Height1, b: Height1, x: int)
    requires
        u.funcs@ =~= seq![a, b],
    ensures
        eval1(Height1::Union(u), x) == max_v(eval1(a, x), eval1(b, x)),
{
    let s = u.funcs@;
    lemma_eval1_bounded(a, x);
    lemma_eval1_bounded(b, x);
    assert(seq![a].subrange(0, 0) =~= Seq::<Height1>::empty());
    assert(eval_list_max(Seq::<Height1>::empty(), x) == -(MAX_RAW as int));
    assert(eval_list_max(seq![a], x) == max_v(-(MAX_RAW as int), eval1(a, x)));
    assert(s.subrange(0, 1) =~= seq![a]);
    assert(eval_list_max(s, x) == max_v(eval_list_max(seq![a], x), eval1(b, x)));
}

/// A two-child intersection computes the pointwise minimum of its children.
pub proof fn lemma_intersection_pair_is_min(s: Intersection1D, a: Height1, b: Height1, x: int)
    requires
        s.funcs@ =~= seq![a, b],
    ensures
        eval1(Height1::Intersection(s), x) == min_v(eval1(a, x), eval1(b, x)),
{
    let q = s.funcs@;
    lemma_eval1_bounded(a, x);
    lemma_eval1_bounded(b, x);
    assert(seq![a].subrange(0, 0) =~= Seq::<Height1>::empty());
    assert(eval_list_min(Seq::<Height1>::empty(), x) == MAX_RAW as int);
    assert(eval_list_min(seq![a], x) == min_v(MAX_RAW as int, eval1(a, x)));
    assert(q.subrange(0, 1) =~= seq![a]);
    assert(eval_list_min(q, x) == min_v(eval_list_min(seq![a], x), eval1(b, x)));
}

} // verus!
