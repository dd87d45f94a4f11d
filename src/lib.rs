//! Variables, literals, clauses and three-valued assignments for a DPLL-style SAT solver.
use vstd::prelude::*;

verus! {

/// A SAT variable, numbered from 1.
#[derive(Clone, Copy, Debug, PartialEq, Eq, Structural)]
pub struct Var(i32);

impl View for Var {
    type V = int;

    closed spec fn view(&self) -> int {
        self.0 as int
    }
}

impl Var {
    pub open spec fn wf(self) -> bool {
        1 <= self@ <= 0x7fff_ffff
    }

    /// The variable numbered `n`, if `n` is at least 1.
    pub fn new(n: i32) -> (r: Option<Var>)
        ensures
            r.is_some() == (n >= 1),
            r.is_some() ==> r.unwrap()@ == n && r.unwrap().wf(),
    {
        if n >= 1 { Some(Var(n)) } else { None }
    }

    /// The zero-based storage index of this variable.
    pub fn index(self) -> (r: usize)
        requires
            self.wf(),
        ensures
            r == self@ - 1,
    {
        (self.0 - 1) as usize
    }

    /// A variable is determined by its number.
    pub proof fn lemma_view_injective(v: Var, w: Var)
        ensures
            v@ == w@ ==> v == w,
    {
    }

    /// Distinct variables have distinct storage indices.
    pub proof fn lemma_index_injective(v: Var, w: Var)
        requires
            v.wf(),
            w.wf(),
            v@ - 1 == w@ - 1,
        ensures
            v == w,
    {
    }
}

/// A literal: a variable, possibly negated; the sign carries the polarity.
#[derive(Clone, Copy, Debug, PartialEq, Eq, Structural)]
pub struct Lit(i32);

impl View for Lit {
    type V = int;

    closed spec fn view(&self) -> int {
        self.0 as int
    }
}

impl Lit {
    pub open spec fn wf(self) -> bool {
        self@ != 0 && -0x7fff_ffff <= self@ <= 0x7fff_ffff
    }

    pub open spec fn var_id(self) -> int {
        if self@ < 0 { -self@ } else { self@ }
    }

    /// The literal with the opposite sign.
    pub closed spec fn negation(self) -> Lit {
        Lit((-self.0) as i32)
    }

    /// The literal with value `v`, unless `v` is zero or has no negation in `i32`.
    pub fn new(v: i32) -> (r: Option<Lit>)
        ensures
            r.is_some() == (v != 0 && v != i32::MIN),
            r.is_some() ==> r.unwrap()@ == v && r.unwrap().wf(),
    {
        if v != 0 && v != i32::MIN { Some(Lit(v)) } else { None }
    }

    /// The variable of this literal, whatever its polarity.
    pub fn var(self) -> (r: Var)
        requires
            self.wf(),
        ensures
            r@ == self.var_id(),
            r.wf(),
    {
        Var(if self.0 < 0 { -self.0 } else { self.0 })
    }

    /// Is this literal negated?
    pub fn negated(self) -> (r: bool)
        ensures
            r == (self@ < 0),
    {
        self.0 < 0
    }

    /// The negation of this literal.
    pub fn negate(self) -> (r: Lit)
        requires
            self.wf(),
        ensures
            r == self.negation(),
            r@ == -self@,
            r.wf(),
    {
        Lit(-self.0)
    }

    /// A literal is determined by its signed value.
    pub proof fn lemma_view_injective(l: Lit, m: Lit)
        ensures
            l@ == m@ ==> l == m,
    {
    }

    /// Negating twice gives back the literal.
    pub proof fn lemma_negate_involution(l: Lit)
        requires
            l.wf(),
        ensures
            l.negation().negation() == l,
            l.negation()@ == -l@,
    {
    }
}

/// A disjunction of literals.
pub type Clause = Vec<Lit>;

/// A conjunction of clauses.
pub type Formula = Vec<Clause>;

/// What an assignment holds for the variable of `l`.
pub open spec fn stored(a: Seq<Option<bool>>, l: Lit) -> Option<bool> {
    a[l.var_id() - 1]
}

/// The value of `l` under `a`, polarity applied.
pub open spec fn lit_value(a: Seq<Option<bool>>, l: Lit) -> Option<bool> {
    match stored(a, l) {
        None => None,
        Some(b) => Some(if l@ < 0 { !b } else { b }),
    }
}

/// Every literal of `c` is valid and names a variable that `a` holds.
pub open spec fn in_range(a: Seq<Option<bool>>, c: Seq<Lit>) -> bool {
    forall|i: int| 0 <= i < c.len() ==> #[trigger] c[i].wf() && c[i].var_id() <= a.len()
}

/// Some literal of `c` evaluates to true.
pub open spec fn satisfied(a: Seq<Option<bool>>, c: Seq<Lit>) -> bool {
    exists|i: int| 0 <= i < c.len() && lit_value(a, #[trigger] c[i]) == Some(true)
}

/// Exactly one literal of `c` has an unknown variable.
pub open spec fn one_unknown(a: Seq<Option<bool>>, c: Seq<Lit>) -> bool {
    exists|j: int|
        0 <= j < c.len() && #[trigger] stored(a, c[j]).is_none() && forall|k: int|
            0 <= k < c.len() && k != j ==> (#[trigger] stored(a, c[k])).is_some()
}

/// Unit clause: no literal is satisfied and exactly one has an unknown variable.
pub open spec fn unit(a: Seq<Option<bool>>, c: Seq<Lit>) -> bool {
    !satisfied(a, c) && one_unknown(a, c)
}

/// An assignment of true, false or unknown (`None`) to each variable.
pub struct Assignment(Vec<Option<bool>>);

impl View for Assignment {
    type V = Seq<Option<bool>>;

    closed spec fn view(&self) -> Seq<Option<bool>> {
        self.0@
    }
}

impl Assignment {
    /// An assignment of `n` variables, all unknown.
    pub fn new(n: usize) -> (r: Assignment)
        ensures
            r@ == Seq::new(n as nat, |i: int| None::<bool>),
    {
        let mut v: Vec<Option<bool>> = Vec::new();
        let mut i: usize = 0;
        while i < n
            invariant
                i <= n,
                v@ == Seq::new(i as nat, |k: int| None::<bool>),
            decreases n - i,
        {
            v.push(None);
            i = i + 1;
            assert(v@ =~= Seq::new(i as nat, |k: int| None::<bool>));
        }
        Assignment(v)
    }

    /// What is stored for variable `v`.
    pub fn get(&self, v: Var) -> (r: Option<bool>)
        requires
            v.wf(),
            v@ <= self@.len(),
        ensures
            r == self@[v@ - 1],
    {
        self.0[v.index()]
    }

    /// Stores `val` for variable `v`.
    pub fn set(&mut self, v: Var, val: Option<bool>)
        requires
            v.wf(),
            v@ <= old(self)@.len(),
        ensures
            final(self)@ == old(self)@.update(v@ - 1, val),
    {
        let i = v.index();
        self.0.set(i, val);
    }

    /// The value of `lit`, taking negation into account.
    pub fn check(&self, lit: Lit) -> (r: Option<bool>)
        requires
            lit.wf(),
            lit.var_id() <= self@.len(),
        ensures
            r == lit_value(self@, lit),
    {
        match self.0[lit.var().index()] {
            None => None,
            Some(val) => Some(if lit.negated() { !val } else { val }),
        }
    }

    /// Is `clause` a unit clause: no literal satisfied, exactly one unknown?
    pub fn is_unit(&self, clause: &Clause) -> (r: bool)
        requires
            in_range(self@, clause@),
        ensures
            r == unit(self@, clause@),
    {
        let mut found: bool = false;
        let ghost mut pos: int = 0;
        let mut i: usize = 0;
        while i < clause.len()
            invariant
                i <= clause@.len(),
                in_range(self@, clause@),
                forall|k: int| 0 <= k < i ==> lit_value(self@, #[trigger] clause@[k]) != Some(true),
                found ==> 0 <= pos < i && stored(self@, clause@[pos]).is_none(),
                forall|k: int|
                    0 <= k < i && (!found || k != pos) ==> (#[trigger] stored(self@, clause@[k])).is_some(),
            decreases clause@.len() - i,
        {
            let lit = clause[i];
            assert(in_range(self@, clause@) ==> clause@[i as int].wf());
            match self.0[lit.var().index()] {
                None => {
                    if found {
                        assert(!one_unknown(self@, clause@)) by {
                            assert forall|j: int|
                                0 <= j < clause@.len() && #[trigger] stored(self@, clause@[j]).is_none()
                                implies !(forall|k: int|
                                0 <= k < clause@.len() && k != j ==> (#[trigger] stored(self@, clause@[k])).is_some()) by {
                                if j == pos {
                                    assert(stored(self@, clause@[i as int]).is_none());
                                } else {
                                    assert(stored(self@, clause@[pos]).is_none());
                                }
                            }
                        }
                        return false;
                    }
                    found = true;
                    proof { pos = i as int; }
                },
                Some(val) => {
                    if val != lit.negated() {
                        assert(satisfied(self@, clause@)) by {
                            assert(lit_value(self@, clause@[i as int]) == Some(true));
                        }
                        return false;
                    }
                },
            }
            i = i + 1;
        }
        proof {
            if found {
                assert(stored(self@, clause@[pos]).is_none());
            } else {
                assert forall|j: int| 0 <= j < clause@.len() implies
                    !(#[trigger] stored(self@, clause@[j])).is_none() by {}
            }
        }
        found
    }
}

/// A clause is unit exactly when exactly one literal has an unknown variable and no
/// literal is satisfied.
pub proof fn lemma_unit_correct(a: Seq<Option<bool>>, c: Seq<Lit>)
    ensures
        unit(a, c) == (one_unknown(a, c) && !satisfied(a, c)),
{
}

/// A satisfied clause is never unit, however many of its literals are unknown.
pub proof fn lemma_satisfied_not_unit(a: Seq<Option<bool>>, c: Seq<Lit>)
    requires
        satisfied(a, c),
    ensures
        !unit(a, c),
{
}

/// The empty clause is never unit.
pub proof fn lemma_empty_not_unit(a: Seq<Option<bool>>)
    ensures
        !unit(a, Seq::<Lit>::empty()),
{
}

} // verus!
