//! A small constraint language over the decisions of one solving session,
//! with its meaning on an assignment and an evaluator.
use crate::model::{SemesterDegree, Speciality};
use vstd::prelude::*;

verus! {

/// The values that one model gives to the decisions of one module.
#[derive(Clone, Copy, Debug, PartialEq, Eq, Structural)]
pub struct ModuleChoice {
    pub used: bool,
    pub semester: i64,
    pub degree: SemesterDegree,
    pub speciality: Speciality,
}

/// A full assignment: one choice per module, in catalog order, and the two
/// chosen specialities.
#[derive(Debug)]
pub struct Assignment {
    pub choices: Vec<ModuleChoice>,
    pub first: Speciality,
    pub second: Speciality,
}

/// An elementary proposition about an assignment.
#[derive(Clone, Copy, Debug, PartialEq, Eq, Structural)]
pub enum Atom {
    True,
    /// The module is selected.
    Used(usize),
    /// The module is counted towards the Bachelor degree.
    IsBachelor(usize),
    /// The module's speciality branch is the given speciality.
    SpecialityIs(usize, Speciality),
    /// The module's speciality branch is the first (0) or second (1) choice.
    SpecialityIsChoice(usize, usize),
    /// The first (0) or second (1) chosen speciality is the given one.
    ChoiceIs(usize, Speciality),
    /// The two chosen specialities differ.
    ChoicesDiffer,
    /// The module's semester index equals the value.
    SemesterIs(usize, i64),
    /// The module's semester index is at least the value.
    SemesterAtLeast(usize, i64),
    /// The first module's semester index is below the second's.
    SemesterBefore(usize, usize),
}

/// An atom or its negation.
#[derive(Clone, Copy, Debug, PartialEq, Eq, Structural)]
pub struct Lit {
    pub atom: Atom,
    pub positive: bool,
}

/// `weight` when all three literals hold, else zero.
#[derive(Clone, Copy, Debug, PartialEq, Eq, Structural)]
pub struct Term {
    pub first: Lit,
    pub second: Lit,
    pub third: Lit,
    pub weight: i64,
}

#[derive(Debug)]
pub enum Formula {
    Lit(Lit),
    And(Box<Formula>, Box<Formula>),
    Or(Box<Formula>, Box<Formula>),
    /// The sum of the terms is at least the bound.
    AtLeast(Vec<Term>, i64),
    /// The sum of the terms is at most the bound.
    AtMost(Vec<Term>, i64),
}

pub open spec fn choice_of(m: Assignment, k: usize) -> Speciality {
    if k == 0 {
        m.first
    } else {
        m.second
    }
}

pub open spec fn atom_holds(a: Atom, m: Assignment) -> bool {
    let c = m.choices@;
    match a {
        Atom::True => true,
        Atom::Used(i) => c[i as int].used,
        Atom::IsBachelor(i) => c[i as int].degree == SemesterDegree::Bachelor,
        Atom::SpecialityIs(i, s) => c[i as int].speciality == s,
        Atom::SpecialityIsChoice(i, k) => c[i as int].speciality == choice_of(m, k),
        Atom::ChoiceIs(k, s) => choice_of(m, k) == s,
        Atom::ChoicesDiffer => m.first != m.second,
        Atom::SemesterIs(i, v) => c[i as int].semester == v,
        Atom::SemesterAtLeast(i, v) => c[i as int].semester >= v,
        Atom::SemesterBefore(i, j) => c[i as int].semester < c[j as int].semester,
    }
}

pub open spec fn lit_holds(l: Lit, m: Assignment) -> bool {
    atom_holds(l.atom, m) == l.positive
}

pub open spec fn term_value(t: Term, m: Assignment) -> int {
    if lit_holds(t.first, m) && lit_holds(t.second, m) && lit_holds(t.third, m) {
        t.weight as int
    } else {
        0
    }
}

pub open spec fn sum_value(ts: Seq<Term>, m: Assignment) -> int
    decreases ts.len(),
{
    if ts.len() == 0 {
        0
    } else {
        sum_value(ts.drop_last(), m) + term_value(ts.last(), m)
    }
}

pub open spec fn holds(f: Formula, m: Assignment) -> bool
    decreases f,
{
    match f {
        Formula::Lit(l) => lit_holds(l, m),
        Formula::And(a, b) => holds(*a, m) && holds(*b, m),
        Formula::Or(a, b) => holds(*a, m) || holds(*b, m),
        Formula::AtLeast(ts, k) => sum_value(ts@, m) >= k as int,
        Formula::AtMost(ts, k) => sum_value(ts@, m) <= k as int,
    }
}

/// Every atom of the literal speaks of a module below `n`.
pub open spec fn atom_in_range(a: Atom, n: nat) -> bool {
    match a {
        Atom::Used(i) => i < n,
        Atom::IsBachelor(i) => i < n,
        Atom::SpecialityIs(i, _) => i < n,
        Atom::SpecialityIsChoice(i, _) => i < n,
        Atom::SemesterIs(i, _) => i < n,
        Atom::SemesterAtLeast(i, _) => i < n,
        Atom::SemesterBefore(i, j) => i < n && j < n,
        _ => true,
    }
}

pub open spec fn term_in_range(t: Term, n: nat) -> bool {
    atom_in_range(t.first.atom, n) && atom_in_range(t.second.atom, n) && atom_in_range(
        t.third.atom,
        n,
    )
}

/// Every module that the formula speaks of lies below `n`.
pub open spec fn in_range(f: Formula, n: nat) -> bool
    decreases f,
{
    match f {
        Formula::Lit(l) => atom_in_range(l.atom, n),
        Formula::And(a, b) => in_range(*a, n) && in_range(*b, n),
        Formula::Or(a, b) => in_range(*a, n) && in_range(*b, n),
        Formula::AtLeast(ts, _) => forall|i: int| 0 <= i < ts@.len() ==> term_in_range(#[trigger] ts@[i], n),
        Formula::AtMost(ts, _) => forall|i: int| 0 <= i < ts@.len() ==> term_in_range(#[trigger] ts@[i], n),
    }
}

impl Atom {
    pub fn eval(&self, m: &Assignment) -> (r: bool)
        requires
            atom_in_range(*self, m.choices@.len()),
        ensures
            r == atom_holds(*self, *m),
    {
        match *self {
            Atom::True => true,
            Atom::Used(i) => m.choices[i].used,
            Atom::IsBachelor(i) => m.choices[i].degree == SemesterDegree::Bachelor,
            Atom::SpecialityIs(i, s) => m.choices[i].speciality == s,
            Atom::SpecialityIsChoice(i, k) => {
                let c = if k == 0 {
                    m.first
                } else {
                    m.second
                };
                m.choices[i].speciality == c
            },
            Atom::ChoiceIs(k, s) => {
                let c = if k == 0 {
                    m.first
                } else {
                    m.second
                };
                c == s
            },
            Atom::ChoicesDiffer => m.first != m.second,
            Atom::SemesterIs(i, v) => m.choices[i].semester == v,
            Atom::SemesterAtLeast(i, v) => m.choices[i].semester >= v,
            Atom::SemesterBefore(i, j) => m.choices[i].semester < m.choices[j].semester,
        }
    }
}

impl Lit {
    pub fn eval(&self, m: &Assignment) -> (r: bool)
        requires
            atom_in_range(self.atom, m.choices@.len()),
        ensures
            r == lit_holds(*self, *m),
    {
        self.atom.eval(m) == self.positive
    }
}

impl Term {
    pub fn eval(&self, m: &Assignment) -> (r: i64)
        requires
            term_in_range(*self, m.choices@.len()),
        ensures
            r as int == term_value(*self, *m),
    {
        if self.first.eval(m) && self.second.eval(m) && self.third.eval(m) {
            self.weight
        } else {
            0
        }
    }
}

/// The sum of the terms on the assignment.
pub fn eval_sum(ts: &Vec<Term>, m: &Assignment) -> (r: i128)
    requires
        forall|i: int| 0 <= i < ts@.len() ==> term_in_range(#[trigger] ts@[i], m.choices@.len()),
    ensures
        r as int == sum_value(ts@, *m),
{
    let mut acc: i128 = 0;
    let mut i: usize = 0;
    while i < ts.len()
        invariant
            i <= ts@.len(),
            forall|j: int| 0 <= j < ts@.len() ==> term_in_range(#[trigger] ts@[j], m.choices@.len()),
            acc as int == sum_value(ts@.subrange(0, i as int), *m),
            -0x8000_0000_0000_0000 * (i as int) <= acc <= 0x7fff_ffff_ffff_ffff * (i as int),
        decreases ts@.len() - i,
    {
        let v = ts[i].eval(m);
        proof {
            assert(ts@.subrange(0, i + 1).drop_last() =~= ts@.subrange(0, i as int));
            assert(i < 0x1_0000_0000_0000_0000) by {
                assert(ts@.len() <= usize::MAX);
            }
        }
        acc = acc + v as i128;
        i = i + 1;
    }
    assert(ts@.subrange(0, i as int) =~= ts@);
    acc
}

impl Formula {
    pub fn eval(&self, m: &Assignment) -> (r: bool)
        requires
            in_range(*self, m.choices@.len()),
        ensures
            r == holds(*self, *m),
        decreases self,
    {
        match self {
            Formula::Lit(l) => l.eval(m),
            Formula::And(a, b) => a.eval(m) && b.eval(m),
            Formula::Or(a, b) => a.eval(m) || b.eval(m),
            Formula::AtLeast(ts, k) => eval_sum(ts, m) >= *k as i128,
            Formula::AtMost(ts, k) => eval_sum(ts, m) <= *k as i128,
        }
    }
}

} // verus!
