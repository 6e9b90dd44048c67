//! Compiles a catalog into labelled constraints whose models are exactly the
//! assignments that meet the regulations.
use crate::constraint::{holds, in_range, sum_value, term_in_range, term_value, Assignment, Atom, Formula, Lit, Term};
use crate::model::{
    ConfigurationError, Degree, Module, ModuleType, ModuleView, Plan, PlanView, Semester,
    SemesterDegree, SemesterType, SemesterView, Speciality,
};
use crate::regulations::{
    bound_season, contribution, counted_master_credits, introductory_rule, load_rules, module_ok,
    module_rules, phase_rules, pin_rules, places, regulations, requirement_rules, requires_module,
    season_ok, season_rules, sole_phase, speciality_ok, speciality_rules, sum_over, tally,
    total_rules, Tally, APPLIED_NO_ROOT_MIN, APPLIED_SPECIALITY, BACHELOR_MAX, BACHELOR_MIN,
    BACHELOR_ROOT_MIN, LAB_SEMINAR_CEILING, MASTER_LAB_MIN, MASTER_LAB_SEMINAR_MIN, MASTER_MAX,
    MASTER_MIN, MASTER_ROOT_MIN, MASTER_SEMINAR_MIN, SPECIALITY_MIN, SPECIALITY_NO_ROOT_MIN,
};
use vstd::prelude::*;

verus! {

/// What a constraint stands for; indices are module and semester positions.
#[derive(Clone, Copy, Debug, PartialEq, Eq, Structural)]
pub enum Label {
    BachelorModule(usize),
    SpecialityMembership(usize),
    Forced(usize),
    SemesterNonNegative(usize),
    SemesterBelowCount(usize),
    PinnedSemester(usize, usize),
    PinnedUsed(usize, usize),
    LoadMin(usize),
    LoadMax(usize),
    BachelorMin,
    BachelorMax,
    MasterMin,
    MasterMinCounted,
    MasterMax,
    BachelorRoots,
    MasterRoots,
    MasterLabs,
    MasterSeminars,
    MasterLabsAndSeminars,
    RequirementOrder(usize, usize),
    RequirementUsage(usize, usize),
    IntroductorySeminar,
    Season(usize),
    Phase(usize, usize),
    DistinctSpecialities,
    SpecialityTotal(usize),
    SpecialityWithoutRoots(usize),
    /// Excludes a selection pattern already found.
    NewSelection,
}

/// A labelled constraint.
#[derive(Debug)]
pub struct Rule {
    pub label: Label,
    pub formula: Formula,
}

pub open spec fn all_hold(rs: Seq<Rule>, m: Assignment) -> bool {
    forall|k: int| 0 <= k < rs.len() ==> holds(#[trigger] rs[k].formula, m)
}

pub open spec fn rules_in_range(rs: Seq<Rule>, n: nat) -> bool {
    forall|k: int| 0 <= k < rs.len() ==> in_range(#[trigger] rs[k].formula, n)
}

pub open spec fn pos(a: Atom) -> Lit {
    Lit { atom: a, positive: true }
}

pub open spec fn neg(a: Atom) -> Lit {
    Lit { atom: a, positive: false }
}

fn lit(a: Atom, positive: bool) -> (r: Lit)
    ensures
        r == (Lit { atom: a, positive }),
{
    Lit { atom: a, positive }
}

fn or(a: Formula, b: Formula) -> (r: Formula)
    ensures
        forall|m: Assignment| #[trigger] holds(r, m) <==> holds(a, m) || holds(b, m),
        forall|n: nat| #[trigger] in_range(r, n) <==> in_range(a, n) && in_range(b, n),
{
    Formula::Or(Box::new(a), Box::new(b))
}

fn and(a: Formula, b: Formula) -> (r: Formula)
    ensures
        forall|m: Assignment| #[trigger] holds(r, m) <==> holds(a, m) && holds(b, m),
        forall|n: nat| #[trigger] in_range(r, n) <==> in_range(a, n) && in_range(b, n),
{
    Formula::And(Box::new(a), Box::new(b))
}

/// Appends a rule; the rules then hold where the old ones and `f` hold.
fn push_rule(out: &mut Vec<Rule>, label: Label, f: Formula, n: Ghost<nat>)
    requires
        in_range(f, n@),
        rules_in_range(old(out)@, n@),
    ensures
        rules_in_range(final(out)@, n@),
        forall|m: Assignment|
            #![trigger all_hold(final(out)@, m)]
            all_hold(final(out)@, m) <==> all_hold(old(out)@, m) && holds(f, m),
{
    let ghost g = f;
    out.push(Rule { label, formula: f });
    assert(final(out)@.last().formula == g);
    assert forall|m: Assignment| all_hold(final(out)@, m) <==> all_hold(old(out)@, m) && holds(g, m) by {
        if all_hold(old(out)@, m) && holds(g, m) {
            assert forall|k: int| 0 <= k < final(out)@.len() implies holds(
                #[trigger] final(out)@[k].formula,
                m,
            ) by {
                if k < old(out)@.len() {
                    assert(final(out)@[k] == old(out)@[k]);
                }
            }
        }
        if all_hold(final(out)@, m) {
            assert forall|k: int| 0 <= k < old(out)@.len() implies holds(
                #[trigger] old(out)@[k].formula,
                m,
            ) by {
                assert(final(out)@[k] == old(out)@[k]);
            }
            assert(holds(final(out)@[old(out)@.len() as int].formula, m));
        }
    }
    assert forall|k: int| 0 <= k < final(out)@.len() implies in_range(
        #[trigger] final(out)@[k].formula,
        n@,
    ) by {
        if k < old(out)@.len() {
            assert(final(out)@[k] == old(out)@[k]);
        }
    }
}

/// Appends all rules of `more`.
fn append_rules(out: &mut Vec<Rule>, more: Vec<Rule>, n: Ghost<nat>)
    requires
        rules_in_range(old(out)@, n@),
        rules_in_range(more@, n@),
    ensures
        rules_in_range(final(out)@, n@),
        forall|m: Assignment|
            #![trigger all_hold(final(out)@, m)]
            all_hold(final(out)@, m) <==> all_hold(old(out)@, m) && all_hold(more@, m),
{
    let mut more = more;
    let ghost a = out@;
    let ghost b = more@;
    out.append(&mut more);
    assert(out@ == a + b);
    assert forall|m: Assignment| all_hold(out@, m) <==> all_hold(a, m) && all_hold(b, m) by {
        if all_hold(out@, m) {
            assert forall|k: int| 0 <= k < b.len() implies holds(#[trigger] b[k].formula, m) by {
                assert(out@[a.len() + k] == b[k]);
            }
            assert forall|k: int| 0 <= k < a.len() implies holds(#[trigger] a[k].formula, m) by {
                assert(out@[k] == a[k]);
            }
        }
        if all_hold(a, m) && all_hold(b, m) {
            assert forall|k: int| 0 <= k < out@.len() implies holds(#[trigger] out@[k].formula, m) by {
                if k < a.len() {
                    assert(out@[k] == a[k]);
                } else {
                    assert(out@[k] == b[k - a.len()]);
                }
            }
        }
    }
    assert forall|k: int| 0 <= k < out@.len() implies in_range(#[trigger] out@[k].formula, n@) by {
        if k < a.len() {
            assert(out@[k] == a[k]);
        } else {
            assert(out@[k] == b[k - a.len()]);
        }
    }
}

/// The term by which module `i` enters a tally.
pub open spec fn tally_term(mv: ModuleView, i: usize, t: Tally) -> Term {
    let used = pos(Atom::Used(i));
    let master = neg(Atom::IsBachelor(i));
    let bachelor = pos(Atom::IsBachelor(i));
    let any = pos(Atom::True);
    let w = mv.half_ects as i64;
    let ty = mv.module_type;
    match t {
        Tally::Load(s) => Term { first: used, second: pos(Atom::SemesterIs(i, s)), third: any, weight: w },
        Tally::BachelorCredits => Term { first: used, second: bachelor, third: any, weight: w },
        Tally::MasterCredits => Term { first: used, second: master, third: any, weight: w },
        Tally::MasterCreditsLabSeminarTwice => Term {
            first: used,
            second: master,
            third: any,
            weight: if ty.is_lab() || ty.is_seminar() { (2 * mv.half_ects) as i64 } else { w },
        },
        Tally::MasterLabCredits => Term {
            first: used,
            second: master,
            third: any,
            weight: if ty.is_lab() { w } else { 0 },
        },
        Tally::MasterSeminarCredits => Term {
            first: used,
            second: master,
            third: any,
            weight: if ty.is_seminar() { w } else { 0 },
        },
        Tally::MasterLabSeminarCredits => Term {
            first: used,
            second: master,
            third: any,
            weight: if ty.is_lab() || ty.is_seminar() { w } else { 0 },
        },
        Tally::BachelorRoots => Term {
            first: used,
            second: bachelor,
            third: any,
            weight: if ty.is_root_lecture() { 1 } else { 0 },
        },
        Tally::MasterRoots => Term {
            first: used,
            second: master,
            third: any,
            weight: if ty.is_root_lecture() { 1 } else { 0 },
        },
        Tally::IntroductorySeminars => Term {
            first: used,
            second: bachelor,
            third: any,
            weight: if ty.is_pro_seminar() { 1 } else { 0 },
        },
        Tally::SpecialityCredits(k, roots) => Term {
            first: used,
            second: master,
            third: pos(Atom::SpecialityIsChoice(i, k)),
            weight: if roots || !ty.is_root_lecture() { w } else { 0 },
        },
    }
}

fn tally_term_of(mv: &Module, i: usize, t: Tally) -> (r: Term)
    ensures
        r == tally_term(mv@, i, t),
{
    let used = lit(Atom::Used(i), true);
    let master = lit(Atom::IsBachelor(i), false);
    let bachelor = lit(Atom::IsBachelor(i), true);
    let any = lit(Atom::True, true);
    let w = mv.half_ects as i64;
    let lab = matches!(mv.module_type, ModuleType::Lab);
    let seminar = matches!(mv.module_type, ModuleType::Seminar { .. });
    let root = matches!(mv.module_type, ModuleType::Lecture { is_root: true });
    let pro = matches!(mv.module_type, ModuleType::Seminar { is_pro: true });
    match t {
        Tally::Load(s) => Term {
            first: used,
            second: lit(Atom::SemesterIs(i, s), true),
            third: any,
            weight: w,
        },
        Tally::BachelorCredits => Term { first: used, second: bachelor, third: any, weight: w },
        Tally::MasterCredits => Term { first: used, second: master, third: any, weight: w },
        Tally::MasterCreditsLabSeminarTwice => Term {
            first: used,
            second: master,
            third: any,
            weight: if lab || seminar { 2 * w } else { w },
        },
        Tally::MasterLabCredits => Term {
            first: used,
            second: master,
            third: any,
            weight: if lab { w } else { 0 },
        },
        Tally::MasterSeminarCredits => Term {
            first: used,
            second: master,
            third: any,
            weight: if seminar { w } else { 0 },
        },
        Tally::MasterLabSeminarCredits => Term {
            first: used,
            second: master,
            third: any,
            weight: if lab || seminar { w } else { 0 },
        },
        Tally::BachelorRoots => Term {
            first: used,
            second: bachelor,
            third: any,
            weight: if root { 1 } else { 0 },
        },
        Tally::MasterRoots => Term {
            first: used,
            second: master,
            third: any,
            weight: if root { 1 } else { 0 },
        },
        Tally::IntroductorySeminars => Term {
            first: used,
            second: bachelor,
            third: any,
            weight: if pro { 1 } else { 0 },
        },
        Tally::SpecialityCredits(k, roots) => Term {
            first: used,
            second: master,
            third: lit(Atom::SpecialityIsChoice(i, k), true),
            weight: if roots || !root { w } else { 0 },
        },
    }
}

/// The terms of a tally, one per module.
fn tally_terms(mods: &Vec<Module>, t: Tally) -> (r: Vec<Term>)
    ensures
        r@.len() == mods@.len(),
        forall|j: int| 0 <= j < r@.len() ==> r@[j] == tally_term(mods@[j]@, j as usize, t),
        forall|j: int| 0 <= j < r@.len() ==> term_in_range(#[trigger] r@[j], mods@.len()),
{
    let mut r: Vec<Term> = Vec::new();
    let mut i: usize = 0;
    while i < mods.len()
        invariant
            i <= mods@.len(),
            r@.len() == i,
            forall|j: int| 0 <= j < i ==> r@[j] == tally_term(mods@[j]@, j as usize, t),
        decreases mods@.len() - i,
    {
        r.push(tally_term_of(&mods[i], i, t));
        i = i + 1;
    }
    r
}

pub open spec fn contribution_fn(p: PlanView, m: Assignment, t: Tally) -> spec_fn(int) -> int {
    |i: int| contribution(p.modules[i], m.choices@[i], m, t)
}

/// Every module weight of the view came from an `i32`.
pub open spec fn weights_fit(p: PlanView) -> bool {
    forall|i: int| 0 <= i < p.modules.len() ==> i32::MIN <= #[trigger] p.modules[i].half_ects <= i32::MAX
}

proof fn lemma_sum_terms(ts: Seq<Term>, m: Assignment, f: spec_fn(int) -> int)
    requires
        forall|j: int| 0 <= j < ts.len() ==> term_value(#[trigger] ts[j], m) == f(j),
    ensures
        sum_value(ts, m) == sum_over(ts.len() as int, f),
    decreases ts.len(),
{
    if ts.len() > 0 {
        let d = ts.drop_last();
        assert forall|j: int| 0 <= j < d.len() implies term_value(#[trigger] d[j], m) == f(j) by {
            assert(d[j] == ts[j]);
        }
        lemma_sum_terms(d, m, f);
        assert(term_value(ts.last(), m) == f(ts.len() - 1));
    }
}

/// Terms built for a tally sum to the tally.
proof fn lemma_tally_terms(p: PlanView, m: Assignment, t: Tally, ts: Seq<Term>)
    requires
        weights_fit(p),
        p.modules.len() <= usize::MAX,
        ts.len() == p.modules.len(),
        m.choices@.len() == p.modules.len(),
        forall|j: int| 0 <= j < ts.len() ==> ts[j] == tally_term(p.modules[j], j as usize, t),
    ensures
        sum_value(ts, m) == tally(p, m, t),
{
    let f = contribution_fn(p, m, t);
    assert forall|j: int| 0 <= j < ts.len() implies term_value(#[trigger] ts[j], m) == f(j) by {
        assert(i32::MIN <= p.modules[j].half_ects <= i32::MAX);
        assert((j as usize) as int == j);
    }
    lemma_sum_terms(ts, m, f);
    assert(f == (|i: int| contribution(p.modules[i], m.choices@[i], m, t)));
}

/// A sum of terms that are never negative is at least one exactly when
/// some term is.
pub proof fn lemma_sum_positive(ts: Seq<Term>, m: Assignment)
    requires
        forall|j: int| 0 <= j < ts.len() ==> term_value(#[trigger] ts[j], m) >= 0,
    ensures
        sum_value(ts, m) >= 0,
        sum_value(ts, m) >= 1 <==> exists|j: int| 0 <= j < ts.len() && term_value(#[trigger] ts[j], m) >= 1,
    decreases ts.len(),
{
    if ts.len() > 0 {
        let d = ts.drop_last();
        assert forall|j: int| 0 <= j < d.len() implies term_value(#[trigger] d[j], m) >= 0 by {
            assert(d[j] == ts[j]);
        }
        lemma_sum_positive(d, m);
        if exists|j: int| 0 <= j < d.len() && term_value(#[trigger] d[j], m) >= 1 {
            let j = choose|j: int| 0 <= j < d.len() && term_value(#[trigger] d[j], m) >= 1;
            assert(ts[j] == d[j]);
        }
        if exists|j: int| 0 <= j < ts.len() && term_value(#[trigger] ts[j], m) >= 1 {
            let j = choose|j: int| 0 <= j < ts.len() && term_value(#[trigger] ts[j], m) >= 1;
            if j < d.len() {
                assert(ts[j] == d[j]);
            }
        }
    }
}

/// The assignment has one choice per module of the catalog.
pub open spec fn fits(p: PlanView, m: Assignment) -> bool {
    m.choices@.len() == p.modules.len()
}

pub open spec fn membership_term(i: usize, s: Speciality) -> Term {
    Term { first: pos(Atom::SpecialityIs(i, s)), second: pos(Atom::True), third: pos(Atom::True), weight: 1 }
}

fn membership_terms(specs: &Vec<Speciality>, i: usize) -> (r: Vec<Term>)
    ensures
        r@.len() == specs@.len(),
        forall|j: int| 0 <= j < r@.len() ==> r@[j] == membership_term(i, specs@[j]),
{
    let mut r: Vec<Term> = Vec::new();
    let mut j: usize = 0;
    while j < specs.len()
        invariant
            j <= specs@.len(),
            r@.len() == j,
            forall|t: int| 0 <= t < j ==> r@[t] == membership_term(i, specs@[t]),
        decreases specs@.len() - j,
    {
        r.push(Term {
            first: lit(Atom::SpecialityIs(i, specs[j]), true),
            second: lit(Atom::True, true),
            third: lit(Atom::True, true),
            weight: 1,
        });
        j = j + 1;
    }
    r
}

/// The rules of one module: its degree, its specialities, whether it is
/// forced, and the range of its semester index.
fn module_group(mv: &Module, i: usize, semester_count: usize, out: &mut Vec<Rule>, n: Ghost<nat>)
    requires
        i < n@,
        semester_count <= i64::MAX,
        rules_in_range(old(out)@, n@),
    ensures
        rules_in_range(final(out)@, n@),
        forall|m: Assignment|
            #![trigger all_hold(final(out)@, m)]
            m.choices@.len() == n@ ==> (all_hold(final(out)@, m) <==> all_hold(old(out)@, m)
                && module_ok(mv@, m.choices@[i as int], semester_count as int)),
{
    let ghost start = out@;
    match &mv.degree {
        Degree::Bachelor => {
            push_rule(out, Label::BachelorModule(i), Formula::Lit(lit(Atom::IsBachelor(i), true)), n);
        },
        Degree::Master(specs) => {
            if specs.len() > 0 {
                let terms = membership_terms(specs, i);
                let ghost ts = terms@;
                proof {
                    assert forall|m: Assignment| m.choices@.len() == n@ implies (sum_value(ts, m) >= 1
                        <==> specs@.contains(m.choices@[i as int].speciality)) by {
                        assert forall|j: int| 0 <= j < ts.len() implies term_value(#[trigger] ts[j], m) >= 0 by {}
                        lemma_sum_positive(ts, m);
                        if specs@.contains(m.choices@[i as int].speciality) {
                            let j = choose|j: int| 0 <= j < specs@.len() && specs@[j] == m.choices@[i as int].speciality;
                            assert(term_value(ts[j], m) >= 1);
                        }
                        if sum_value(ts, m) >= 1 {
                            let j = choose|j: int| 0 <= j < ts.len() && term_value(#[trigger] ts[j], m) >= 1;
                            assert(specs@[j] == m.choices@[i as int].speciality);
                        }
                    }
                    assert forall|j: int| 0 <= j < ts.len() implies term_in_range(#[trigger] ts[j], n@) by {}
                }
                push_rule(out, Label::SpecialityMembership(i), Formula::AtLeast(terms, 1), n);
            }
        },
    }
    if mv.force {
        push_rule(out, Label::Forced(i), Formula::Lit(lit(Atom::Used(i), true)), n);
    }
    push_rule(out, Label::SemesterNonNegative(i), Formula::Lit(lit(Atom::SemesterAtLeast(i, 0), true)), n);
    push_rule(
        out,
        Label::SemesterBelowCount(i),
        Formula::Lit(lit(Atom::SemesterAtLeast(i, semester_count as i64), false)),
        n,
    );
}

/// The rules of all modules of the catalog.
fn module_groups(p: &Plan) -> (r: Vec<Rule>)
    requires
        p@.semesters.len() <= i64::MAX,
    ensures
        rules_in_range(r@, p@.modules.len()),
        forall|m: Assignment|
            #![trigger all_hold(r@, m)]
            fits(p@, m) ==> (all_hold(r@, m) <==> module_rules(p@, m)),
{
    let ghost n = p@.modules.len();
    let mut r: Vec<Rule> = Vec::new();
    let mut i: usize = 0;
    while i < p.modules.len()
        invariant
            i <= n,
            n == p@.modules.len(),
            p@.semesters.len() <= i64::MAX,
            rules_in_range(r@, n),
            forall|m: Assignment|
                #![trigger all_hold(r@, m)]
                m.choices@.len() == n ==> (all_hold(r@, m) <==> forall|j: int|
                    0 <= j < i ==> module_ok(p@.modules[j], #[trigger] m.choices@[j], p@.semesters.len() as int)),
        decreases n - i,
    {
        let ghost before = r@;
        module_group(&p.modules[i], i, p.semesters.len(), &mut r, Ghost(n));
        proof {
            assert forall|m: Assignment| m.choices@.len() == n implies (all_hold(r@, m) <==> forall|j: int|
                0 <= j < i + 1 ==> module_ok(p@.modules[j], #[trigger] m.choices@[j], p@.semesters.len() as int)) by {
                assert(all_hold(before, m) <==> forall|j: int|
                    0 <= j < i ==> module_ok(p@.modules[j], #[trigger] m.choices@[j], p@.semesters.len() as int));
                assert(p@.modules[i as int] == p.modules@[i as int]@);
            }
        }
        i = i + 1;
    }
    r
}

/// Whether the semester lists a module with this identifier.
fn semester_places(s: &Semester, id: &String) -> (r: bool)
    ensures
        r == places(s@, id@),
{
    let mut q: usize = 0;
    while q < s.modules.len()
        invariant
            q <= s.modules@.len(),
            forall|t: int| 0 <= t < q ==> s@.modules[t].identifier != id@,
        decreases s.modules@.len() - q,
    {
        if s.modules[q].identifier == *id {
            assert(s@.modules[q as int].identifier == id@);
            return true;
        }
        q = q + 1;
    }
    false
}

pub open spec fn pin_ok(p: PlanView, m: Assignment, i: int, k: int) -> bool {
    places(p.semesters[k], p.modules[i].identifier) ==> m.choices@[i].used && m.choices@[i].semester == k
}

/// A module listed in a semester of the catalog is pinned there and selected.
fn pin_group(p: &Plan) -> (r: Vec<Rule>)
    requires
        p@.semesters.len() <= i64::MAX,
    ensures
        rules_in_range(r@, p@.modules.len()),
        forall|m: Assignment|
            #![trigger all_hold(r@, m)]
            fits(p@, m) ==> (all_hold(r@, m) <==> pin_rules(p@, m)),
{
    let ghost n = p@.modules.len();
    let ghost ns = p@.semesters.len();
    let mut r: Vec<Rule> = Vec::new();
    let mut i: usize = 0;
    while i < p.modules.len()
        invariant
            i <= n,
            n == p@.modules.len(),
            ns == p@.semesters.len(),
            ns <= i64::MAX,
            rules_in_range(r@, n),
            forall|m: Assignment|
                #![trigger all_hold(r@, m)]
                m.choices@.len() == n ==> (all_hold(r@, m) <==> forall|a: int, k: int|
                    0 <= a < i && 0 <= k < ns ==> #[trigger] pin_ok(p@, m, a, k)),
        decreases n - i,
    {
        let ghost outer = r@;
        let mut k: usize = 0;
        while k < p.semesters.len()
            invariant
                i < n,
                k <= ns,
                n == p@.modules.len(),
                ns == p@.semesters.len(),
                ns <= i64::MAX,
                rules_in_range(r@, n),
                forall|m: Assignment|
                    #![trigger all_hold(r@, m)]
                    m.choices@.len() == n ==> (all_hold(r@, m) <==> all_hold(outer, m) && forall|b: int|
                        0 <= b < k ==> #[trigger] pin_ok(p@, m, i as int, b)),
            decreases ns - k,
        {
            let ghost before = r@;
            let here = semester_places(&p.semesters[k], &p.modules[i].identifier);
            proof {
                assert(p@.semesters[k as int] == p.semesters@[k as int]@);
                assert(p@.modules[i as int] == p.modules@[i as int]@);
            }
            if here {
                push_rule(&mut r, Label::PinnedSemester(i, k), Formula::Lit(lit(Atom::SemesterIs(i, k as i64), true)), Ghost(n));
                push_rule(&mut r, Label::PinnedUsed(i, k), Formula::Lit(lit(Atom::Used(i), true)), Ghost(n));
            }
            proof {
                assert forall|m: Assignment| m.choices@.len() == n implies (all_hold(r@, m) <==> all_hold(outer, m)
                    && forall|b: int| 0 <= b < k + 1 ==> #[trigger] pin_ok(p@, m, i as int, b)) by {
                    assert(all_hold(before, m) <==> all_hold(outer, m) && forall|b: int|
                        0 <= b < k ==> #[trigger] pin_ok(p@, m, i as int, b));
                    if forall|b: int| 0 <= b < k + 1 ==> #[trigger] pin_ok(p@, m, i as int, b) {
                        assert(pin_ok(p@, m, i as int, k as int));
                    }
                }
            }
            k = k + 1;
        }
        proof {
            assert forall|m: Assignment| m.choices@.len() == n implies (all_hold(r@, m) <==> forall|a: int, b: int|
                0 <= a < i + 1 && 0 <= b < ns ==> #[trigger] pin_ok(p@, m, a, b)) by {
                if forall|a: int, b: int| 0 <= a < i + 1 && 0 <= b < ns ==> #[trigger] pin_ok(p@, m, a, b) {
                    assert forall|b: int| 0 <= b < k implies #[trigger] pin_ok(p@, m, i as int, b) by {}
                }
                if all_hold(r@, m) {
                    assert forall|a: int, b: int| 0 <= a < i + 1 && 0 <= b < ns implies #[trigger] pin_ok(p@, m, a, b) by {
                        if a == i {
                            assert(pin_ok(p@, m, i as int, b));
                        }
                    }
                }
            }
        }
        i = i + 1;
    }
    proof {
        assert forall|m: Assignment| fits(p@, m) implies (all_hold(r@, m) <==> pin_rules(p@, m)) by {
            if all_hold(r@, m) {
                assert forall|a: int, b: int| 0 <= a < n && 0 <= b < ns && places(#[trigger] p@.semesters[b], #[trigger] p@.modules[a].identifier)
                    implies m.choices@[a].used && m.choices@[a].semester == b by {
                    assert(pin_ok(p@, m, a, b));
                }
            }
            if pin_rules(p@, m) {
                assert forall|a: int, b: int| 0 <= a < n && 0 <= b < ns implies #[trigger] pin_ok(p@, m, a, b) by {
                    if places(p@.semesters[b], p@.modules[a].identifier) {}
                }
            }
        }
    }
    r
}

/// Proof that a plan's view has weights that fit an `i32`.
proof fn lemma_weights_fit(p: &Plan)
    ensures
        weights_fit(p@),
{
    assert forall|i: int| 0 <= i < p@.modules.len() implies i32::MIN <= #[trigger] p@.modules[i].half_ects <= i32::MAX by {
        assert(p@.modules[i] == p.modules@[i]@);
    }
}

/// Each semester's load lies in its range.
fn load_group(p: &Plan) -> (r: Vec<Rule>)
    requires
        p@.semesters.len() <= i64::MAX,
    ensures
        rules_in_range(r@, p@.modules.len()),
        forall|m: Assignment|
            #![trigger all_hold(r@, m)]
            fits(p@, m) ==> (all_hold(r@, m) <==> load_rules(p@, m)),
{
    let ghost n = p@.modules.len();
    let ghost ns = p@.semesters.len();
    proof { lemma_weights_fit(p); }
    let count = p.modules.len();
    let mut r: Vec<Rule> = Vec::new();
    let mut k: usize = 0;
    while k < p.semesters.len()
        invariant
            k <= ns,
            n == count,
            n == p@.modules.len(),
            ns == p@.semesters.len(),
            ns <= i64::MAX,
            weights_fit(p@),
            rules_in_range(r@, n),
            forall|m: Assignment|
                #![trigger all_hold(r@, m)]
                m.choices@.len() == n ==> (all_hold(r@, m) <==> forall|b: int|
                    0 <= b < k ==> p@.semesters[b].min_load <= #[trigger] tally(p@, m, Tally::Load(b as i64))
                        <= p@.semesters[b].max_load),
        decreases ns - k,
    {
        let ghost before = r@;
        let low = tally_terms(&p.modules, Tally::Load(k as i64));
        let high = tally_terms(&p.modules, Tally::Load(k as i64));
        let ghost lt = low@;
        let ghost ht = high@;
        let sem = &p.semesters[k];
        proof {
            assert(p@.semesters[k as int] == sem@);
            assert forall|j: int| 0 <= j < lt.len() implies lt[j] == tally_term(p@.modules[j], j as usize, Tally::Load(k as i64)) by {
                assert(p@.modules[j] == p.modules@[j]@);
            }
            assert forall|j: int| 0 <= j < ht.len() implies ht[j] == tally_term(p@.modules[j], j as usize, Tally::Load(k as i64)) by {
                assert(p@.modules[j] == p.modules@[j]@);
            }
        }
        push_rule(&mut r, Label::LoadMin(k), Formula::AtLeast(low, sem.ects.start as i64), Ghost(n));
        push_rule(&mut r, Label::LoadMax(k), Formula::AtMost(high, sem.ects.end as i64), Ghost(n));
        proof {
            assert forall|m: Assignment| m.choices@.len() == n implies (all_hold(r@, m) <==> forall|b: int|
                0 <= b < k + 1 ==> p@.semesters[b].min_load <= #[trigger] tally(p@, m, Tally::Load(b as i64))
                    <= p@.semesters[b].max_load) by {
                lemma_tally_terms(p@, m, Tally::Load(k as i64), lt);
                lemma_tally_terms(p@, m, Tally::Load(k as i64), ht);
                assert(all_hold(before, m) <==> forall|b: int|
                    0 <= b < k ==> p@.semesters[b].min_load <= #[trigger] tally(p@, m, Tally::Load(b as i64))
                        <= p@.semesters[b].max_load);
            }
        }
        k = k + 1;
    }
    r
}

/// The terms of a tally over the catalog's modules.
fn terms_for(p: &Plan, t: Tally) -> (r: Vec<Term>)
    ensures
        forall|j: int| 0 <= j < r@.len() ==> term_in_range(#[trigger] r@[j], p@.modules.len()),
        forall|m: Assignment| #![trigger sum_value(r@, m)] fits(p@, m) ==> sum_value(r@, m) == tally(p@, m, t),
{
    let count = p.modules.len();
    let r = tally_terms(&p.modules, t);
    proof {
        lemma_weights_fit(p);
        assert forall|j: int| 0 <= j < r@.len() implies r@[j] == tally_term(p@.modules[j], j as usize, t) by {
            assert(p@.modules[j] == p.modules@[j]@);
        }
        assert forall|m: Assignment| fits(p@, m) implies sum_value(r@, m) == tally(p@, m, t) by {
            lemma_tally_terms(p@, m, t, r@);
        }
    }
    r
}

pub proof fn lemma_sum_over_add(n: int, f: spec_fn(int) -> int, g: spec_fn(int) -> int, h: spec_fn(int) -> int)
    requires
        forall|i: int| 0 <= i < n ==> #[trigger] h(i) == f(i) + g(i),
    ensures
        sum_over(n, h) == sum_over(n, f) + sum_over(n, g),
    decreases n,
{
    if n > 0 {
        lemma_sum_over_add(n - 1, f, g, h);
    }
}

/// A sum of values that are never negative is at least one exactly when
/// some value is.
proof fn lemma_sum_over_positive(n: int, f: spec_fn(int) -> int)
    requires
        forall|i: int| 0 <= i < n ==> #[trigger] f(i) >= 0,
    ensures
        sum_over(n, f) >= 0,
        sum_over(n, f) >= 1 <==> exists|i: int| 0 <= i < n && #[trigger] f(i) >= 1,
    decreases n,
{
    if n > 0 {
        lemma_sum_over_positive(n - 1, f);
        if exists|i: int| 0 <= i < n && #[trigger] f(i) >= 1 {
            let i = choose|i: int| 0 <= i < n && #[trigger] f(i) >= 1;
            if i < n - 1 {
                assert(0 <= i < n - 1 && f(i) >= 1);
            }
        }
    }
}

/// Master credits with labs and seminars counted twice are Master credits
/// plus Master lab and seminar credits.
proof fn lemma_twice(p: PlanView, m: Assignment)
    ensures
        tally(p, m, Tally::MasterCreditsLabSeminarTwice) == tally(p, m, Tally::MasterCredits) + tally(
            p,
            m,
            Tally::MasterLabSeminarCredits,
        ),
{
    let f = contribution_fn(p, m, Tally::MasterCredits);
    let g = contribution_fn(p, m, Tally::MasterLabSeminarCredits);
    let h = contribution_fn(p, m, Tally::MasterCreditsLabSeminarTwice);
    lemma_sum_over_add(p.modules.len() as int, f, g, h);
    assert(f == (|i: int| contribution(p.modules[i], m.choices@[i], m, Tally::MasterCredits)));
    assert(g == (|i: int| contribution(p.modules[i], m.choices@[i], m, Tally::MasterLabSeminarCredits)));
    assert(h == (|i: int| contribution(p.modules[i], m.choices@[i], m, Tally::MasterCreditsLabSeminarTwice)));
}

/// The credit bounds of both degrees and the minimum counts.
fn total_group(p: &Plan) -> (r: Vec<Rule>)
    ensures
        rules_in_range(r@, p@.modules.len()),
        forall|m: Assignment|
            #![trigger all_hold(r@, m)]
            fits(p@, m) ==> (all_hold(r@, m) <==> total_rules(p@, m)),
{
    let ghost n = p@.modules.len();
    let b1 = terms_for(p, Tally::BachelorCredits);
    let b2 = terms_for(p, Tally::BachelorCredits);
    let m1 = terms_for(p, Tally::MasterCredits);
    let m2 = terms_for(p, Tally::MasterCredits);
    let t1 = terms_for(p, Tally::MasterCreditsLabSeminarTwice);
    let t2 = terms_for(p, Tally::MasterCreditsLabSeminarTwice);
    let br = terms_for(p, Tally::BachelorRoots);
    let mr = terms_for(p, Tally::MasterRoots);
    let ml = terms_for(p, Tally::MasterLabCredits);
    let ms = terms_for(p, Tally::MasterSeminarCredits);
    let mls = terms_for(p, Tally::MasterLabSeminarCredits);
    let ghost g = (b1@, b2@, m1@, m2@, t1@, t2@, br@, mr@, ml@, ms@, mls@);
    let mut r: Vec<Rule> = Vec::new();
    push_rule(&mut r, Label::BachelorMin, Formula::AtLeast(b1, BACHELOR_MIN), Ghost(n));
    push_rule(&mut r, Label::BachelorMax, Formula::AtMost(b2, BACHELOR_MAX), Ghost(n));
    push_rule(&mut r, Label::MasterMin, Formula::AtLeast(m1, MASTER_MIN), Ghost(n));
    push_rule(&mut r, Label::MasterMinCounted, Formula::AtLeast(t1, MASTER_MIN + LAB_SEMINAR_CEILING), Ghost(n));
    let most = or(
        Formula::AtMost(m2, MASTER_MAX),
        Formula::AtMost(t2, MASTER_MAX + LAB_SEMINAR_CEILING),
    );
    let ghost gm = most;
    push_rule(&mut r, Label::MasterMax, most, Ghost(n));
    push_rule(&mut r, Label::BachelorRoots, Formula::AtLeast(br, BACHELOR_ROOT_MIN), Ghost(n));
    push_rule(&mut r, Label::MasterRoots, Formula::AtLeast(mr, MASTER_ROOT_MIN), Ghost(n));
    push_rule(&mut r, Label::MasterLabs, Formula::AtLeast(ml, MASTER_LAB_MIN), Ghost(n));
    push_rule(&mut r, Label::MasterSeminars, Formula::AtLeast(ms, MASTER_SEMINAR_MIN), Ghost(n));
    push_rule(&mut r, Label::MasterLabsAndSeminars, Formula::AtLeast(mls, MASTER_LAB_SEMINAR_MIN), Ghost(n));
    proof {
        assert forall|m: Assignment| fits(p@, m) implies (all_hold(r@, m) <==> total_rules(p@, m)) by {
            lemma_twice(p@, m);
            assert(holds(gm, m) <==> sum_value(g.3, m) <= MASTER_MAX || sum_value(g.5, m) <= MASTER_MAX + LAB_SEMINAR_CEILING);
            let mc = tally(p@, m, Tally::MasterCredits);
            let ls = tally(p@, m, Tally::MasterLabSeminarCredits);
            assert(counted_master_credits(p@, m) == mc - if LAB_SEMINAR_CEILING - ls > 0 { LAB_SEMINAR_CEILING - ls } else { 0 });
        }
    }
    r
}

pub open spec fn req_ok(m: Assignment, i: int, j: int) -> bool {
    m.choices@[j].semester < m.choices@[i].semester && (m.choices@[i].used ==> m.choices@[j].used)
}

/// Requirement `q` of module `i` names no module of the catalog.
pub open spec fn missing_requirement(p: PlanView, i: int, q: int) -> bool {
    &&& 0 <= i < p.modules.len()
    &&& 0 <= q < p.modules[i].requirements.len()
    &&& forall|j: int| 0 <= j < p.modules.len() ==> p.modules[j].identifier != #[trigger] p.modules[i].requirements[q]
}

pub open spec fn has_unknown_requirement(p: PlanView) -> bool {
    exists|i: int, q: int| #[trigger] missing_requirement(p, i, q)
}

impl ConfigurationError {
    /// The error names module `id` and a requirement `req` of it.
    pub open spec fn names_requirement(self, id: Seq<char>, req: Seq<char>) -> bool {
        self matches ConfigurationError::UnknownRequirement { module, requirement } && module@ == id
            && requirement@ == req
    }
}

/// Required modules come earlier and are selected with the modules that
/// require them; fails on a requirement that names no module.
fn requirement_group(p: &Plan) -> (r: Result<Vec<Rule>, ConfigurationError>)
    ensures
        r is Err <==> has_unknown_requirement(p@),
        r matches Err(e) ==> exists|i: int, q: int|
            #[trigger] missing_requirement(p@, i, q) && e.names_requirement(
                p@.modules[i].identifier,
                p@.modules[i].requirements[q],
            ),
        r matches Ok(rs) ==> rules_in_range(rs@, p@.modules.len()),
        r matches Ok(rs) ==> forall|m: Assignment|
            #![trigger all_hold(rs@, m)]
            fits(p@, m) ==> (all_hold(rs@, m) <==> requirement_rules(p@, m)),
{
    let ghost n = p@.modules.len();
    let mut r: Vec<Rule> = Vec::new();
    let mut i: usize = 0;
    while i < p.modules.len()
        invariant
            i <= n,
            n == p@.modules.len(),
            rules_in_range(r@, n),
            forall|a: int, q: int| 0 <= a < i ==> !#[trigger] missing_requirement(p@, a, q),
            forall|m: Assignment|
                #![trigger all_hold(r@, m)]
                m.choices@.len() == n ==> (all_hold(r@, m) <==> forall|a: int, j: int|
                    0 <= a < i && 0 <= j < n && #[trigger] requires_module(p@, a, j) ==> req_ok(m, a, j)),
        decreases n - i,
    {
        let md = &p.modules[i];
        proof { assert(p@.modules[i as int] == md@); }
        let ghost outer = r@;
        let mut q: usize = 0;
        while q < md.requirements.len()
            invariant
                i < n,
                n == p@.modules.len(),
                p@.modules[i as int] == md@,
                q <= md@.requirements.len(),
                rules_in_range(r@, n),
                forall|b: int| 0 <= b < q ==> !#[trigger] missing_requirement(p@, i as int, b),
                forall|m: Assignment|
                    #![trigger all_hold(r@, m)]
                    m.choices@.len() == n ==> (all_hold(r@, m) <==> all_hold(outer, m) && forall|b: int, j: int|
                        0 <= b < q && 0 <= j < n && #[trigger] md@.requirements[b] == #[trigger] p@.modules[j].identifier
                            ==> req_ok(m, i as int, j)),
            decreases md@.requirements.len() - q,
        {
            let req = &md.requirements[q];
            proof { assert(md@.requirements[q as int] == req@); }
            let ghost middle = r@;
            let mut found = false;
            let mut j: usize = 0;
            while j < p.modules.len()
                invariant
                    i < n,
                    j <= n,
                    n == p@.modules.len(),
                    p@.modules[i as int] == md@,
                    q < md@.requirements.len(),
                    md@.requirements[q as int] == req@,
                    rules_in_range(r@, n),
                    found <==> exists|c: int| 0 <= c < j && #[trigger] p@.modules[c].identifier == req@,
                    forall|m: Assignment|
                        #![trigger all_hold(r@, m)]
                        m.choices@.len() == n ==> (all_hold(r@, m) <==> all_hold(middle, m) && forall|c: int|
                            0 <= c < j && req@ == #[trigger] p@.modules[c].identifier ==> req_ok(m, i as int, c)),
                decreases n - j,
            {
                let ghost before = r@;
                proof { assert(p@.modules[j as int] == p.modules@[j as int]@); }
                if p.modules[j].identifier == *req {
                    let f1 = Formula::Lit(lit(Atom::SemesterBefore(j, i), true));
                    let f2 = or(Formula::Lit(lit(Atom::Used(i), false)), Formula::Lit(lit(Atom::Used(j), true)));
                    proof {
                        assert forall|m: Assignment| m.choices@.len() == n implies (holds(f1, m) && holds(f2, m) <==> req_ok(m, i as int, j as int)) by {}
                        assert(p@.modules[j as int].identifier == req@);
                    }
                    push_rule(&mut r, Label::RequirementOrder(i, j), f1, Ghost(n));
                    push_rule(&mut r, Label::RequirementUsage(i, j), f2, Ghost(n));
                    found = true;
                }
                proof {
                    assert forall|m: Assignment| m.choices@.len() == n implies (all_hold(r@, m) <==> all_hold(middle, m)
                        && forall|c: int| 0 <= c < j + 1 && req@ == #[trigger] p@.modules[c].identifier ==> req_ok(m, i as int, c)) by {
                        assert(all_hold(before, m) <==> all_hold(middle, m) && forall|c: int|
                            0 <= c < j && req@ == #[trigger] p@.modules[c].identifier ==> req_ok(m, i as int, c));
                    }
                }
                j = j + 1;
            }
            if !found {
                proof {
                    assert forall|c: int| 0 <= c < n implies p@.modules[c].identifier != #[trigger] p@.modules[i as int].requirements[q as int] by {}
                    assert(missing_requirement(p@, i as int, q as int));
                }
                return Err(ConfigurationError::UnknownRequirement { module: md.identifier.clone(), requirement: req.clone() });
            }
            proof {
                assert(!missing_requirement(p@, i as int, q as int));
                assert forall|m: Assignment| m.choices@.len() == n implies (all_hold(r@, m) <==> all_hold(outer, m)
                    && forall|b: int, c: int| 0 <= b < q + 1 && 0 <= c < n && #[trigger] md@.requirements[b] == #[trigger] p@.modules[c].identifier
                        ==> req_ok(m, i as int, c)) by {
                    assert(all_hold(middle, m) <==> all_hold(outer, m) && forall|b: int, c: int|
                        0 <= b < q && 0 <= c < n && #[trigger] md@.requirements[b] == #[trigger] p@.modules[c].identifier
                            ==> req_ok(m, i as int, c));
                }
            }
            q = q + 1;
        }
        proof {
            assert forall|b: int| !#[trigger] missing_requirement(p@, i as int, b) by {
                if 0 <= b < md@.requirements.len() {
                    assert(!missing_requirement(p@, i as int, b));
                }
            }
            assert forall|m: Assignment| m.choices@.len() == n implies (all_hold(r@, m) <==> forall|a: int, c: int|
                0 <= a < i + 1 && 0 <= c < n && #[trigger] requires_module(p@, a, c) ==> req_ok(m, a, c)) by {
                assert(all_hold(outer, m) <==> forall|a: int, c: int|
                    0 <= a < i && 0 <= c < n && #[trigger] requires_module(p@, a, c) ==> req_ok(m, a, c));
                if all_hold(r@, m) {
                    assert forall|a: int, c: int| 0 <= a < i + 1 && 0 <= c < n && #[trigger] requires_module(p@, a, c)
                        implies req_ok(m, a, c) by {
                        if a == i {
                            let b = choose|b: int| 0 <= b < p@.modules[a].requirements.len() && #[trigger] p@.modules[a].requirements[b] == p@.modules[c].identifier;
                            assert(md@.requirements[b] == p@.modules[c].identifier);
                        }
                    }
                }
                if forall|a: int, c: int| 0 <= a < i + 1 && 0 <= c < n && #[trigger] requires_module(p@, a, c) ==> req_ok(m, a, c) {
                    assert forall|b: int, c: int| 0 <= b < q && 0 <= c < n && #[trigger] md@.requirements[b] == #[trigger] p@.modules[c].identifier
                        implies req_ok(m, i as int, c) by {
                        assert(requires_module(p@, i as int, c));
                    }
                }
            }
        }
        i = i + 1;
    }
    proof {
        assert forall|a: int, q: int| !#[trigger] missing_requirement(p@, a, q) by {
            if 0 <= a < n {
                assert(!missing_requirement(p@, a, q));
            }
        }
    }
    Ok(r)
}

/// Some introductory seminar is selected for the Bachelor.
fn introductory_group(p: &Plan) -> (r: Vec<Rule>)
    ensures
        rules_in_range(r@, p@.modules.len()),
        forall|m: Assignment|
            #![trigger all_hold(r@, m)]
            fits(p@, m) ==> (all_hold(r@, m) <==> introductory_rule(p@, m)),
{
    let ghost n = p@.modules.len();
    let ts = terms_for(p, Tally::IntroductorySeminars);
    let ghost g = ts@;
    let mut r: Vec<Rule> = Vec::new();
    push_rule(&mut r, Label::IntroductorySeminar, Formula::AtLeast(ts, 1), Ghost(n));
    proof {
        assert forall|m: Assignment| fits(p@, m) implies (all_hold(r@, m) <==> introductory_rule(p@, m)) by {
            let f = contribution_fn(p@, m, Tally::IntroductorySeminars);
            assert(f == (|i: int| contribution(p@.modules[i], m.choices@[i], m, Tally::IntroductorySeminars)));
            lemma_sum_over_positive(n as int, f);
            if introductory_rule(p@, m) {
                let i = choose|i: int| 0 <= i < p@.modules.len() && p@.modules[i].module_type.is_pro_seminar() && (
                    #[trigger] m.choices@[i]).used && m.choices@[i].degree == SemesterDegree::Bachelor;
                assert(f(i) >= 1);
            }
            if tally(p@, m, Tally::IntroductorySeminars) >= 1 {
                let i = choose|i: int| 0 <= i < n && #[trigger] f(i) >= 1;
                assert(m.choices@[i].used);
            }
        }
    }
    r
}

pub open spec fn season_term(s: SemesterView, i: usize, k: usize, season: SemesterType) -> Term {
    Term {
        first: pos(Atom::SemesterIs(i, k as i64)),
        second: pos(Atom::True),
        third: pos(Atom::True),
        weight: if s.semester_type == season { 1 } else { 0 },
    }
}

/// Module `i`, bound to `season`, lies in a semester of that season.
fn season_formula(p: &Plan, i: usize, season: SemesterType) -> (r: Formula)
    requires
        i < p@.modules.len(),
        p@.semesters.len() <= i64::MAX,
    ensures
        in_range(r, p@.modules.len()),
        forall|m: Assignment| #![trigger holds(r, m)] fits(p@, m) ==> (holds(r, m) <==> exists|k: int|
            0 <= k < p@.semesters.len() && #[trigger] p@.semesters[k].semester_type == season
                && m.choices@[i as int].semester == k),
{
    let ghost ns = p@.semesters.len();
    let mut ts: Vec<Term> = Vec::new();
    let mut k: usize = 0;
    while k < p.semesters.len()
        invariant
            k <= ns,
            ns == p@.semesters.len(),
            ns <= i64::MAX,
            ts@.len() == k,
            forall|t: int| 0 <= t < k ==> ts@[t] == season_term(p@.semesters[t], i, t as usize, season),
        decreases ns - k,
    {
        proof { assert(p@.semesters[k as int] == p.semesters@[k as int]@); }
        let w: i64 = if p.semesters[k].semester_type == season { 1 } else { 0 };
        ts.push(Term {
            first: lit(Atom::SemesterIs(i, k as i64), true),
            second: lit(Atom::True, true),
            third: lit(Atom::True, true),
            weight: w,
        });
        k = k + 1;
    }
    let ghost g = ts@;
    let r = Formula::AtLeast(ts, 1);
    proof {
        assert forall|m: Assignment| fits(p@, m) implies (holds(r, m) <==> exists|b: int|
            0 <= b < ns && #[trigger] p@.semesters[b].semester_type == season && m.choices@[i as int].semester == b) by {
            assert forall|j: int| 0 <= j < g.len() implies term_value(#[trigger] g[j], m) >= 0 by {}
            lemma_sum_positive(g, m);
            if exists|b: int| 0 <= b < ns && #[trigger] p@.semesters[b].semester_type == season && m.choices@[i as int].semester == b {
                let b = choose|b: int| 0 <= b < ns && #[trigger] p@.semesters[b].semester_type == season && m.choices@[i as int].semester == b;
                assert(term_value(g[b], m) >= 1);
            }
            if sum_value(g, m) >= 1 {
                let j = choose|j: int| 0 <= j < g.len() && term_value(#[trigger] g[j], m) >= 1;
                assert(m.choices@[i as int].semester == j);
                assert(p@.semesters[j].semester_type == season);
            }
        }
        assert forall|j: int| 0 <= j < g.len() implies term_in_range(#[trigger] g[j], p@.modules.len()) by {}
    }
    r
}

/// Modules bound to one season lie in semesters of that season.
fn season_group(p: &Plan) -> (r: Vec<Rule>)
    requires
        p@.semesters.len() <= i64::MAX,
    ensures
        rules_in_range(r@, p@.modules.len()),
        forall|m: Assignment|
            #![trigger all_hold(r@, m)]
            fits(p@, m) ==> (all_hold(r@, m) <==> season_rules(p@, m)),
{
    let ghost n = p@.modules.len();
    let ghost ns = p@.semesters.len();
    let mut r: Vec<Rule> = Vec::new();
    let mut i: usize = 0;
    while i < p.modules.len()
        invariant
            i <= n,
            n == p@.modules.len(),
            ns == p@.semesters.len(),
            ns <= i64::MAX,
            rules_in_range(r@, n),
            forall|m: Assignment|
                #![trigger all_hold(r@, m)]
                m.choices@.len() == n ==> (all_hold(r@, m) <==> forall|a: int|
                    0 <= a < i ==> #[trigger] season_ok(p@, m, a)),
        decreases n - i,
    {
        let ghost before = r@;
        let md = &p.modules[i];
        proof { assert(p@.modules[i as int] == md@); }
        if md.semesters.len() == 1 && md.semesters[0] != SemesterType::Unknown {
            let f = season_formula(p, i, md.semesters[0]);
            push_rule(&mut r, Label::Season(i), f, Ghost(n));
            proof {
                assert(bound_season(p@.modules[i as int]) == Some(md@.semesters[0]));
                assert forall|m: Assignment| m.choices@.len() == n implies (all_hold(r@, m) <==> all_hold(before, m)
                    && #[trigger] season_ok(p@, m, i as int)) by {}
            }
        } else {
            proof {
                assert(bound_season(p@.modules[i as int]) is None);
            }
        }
        proof {
            assert forall|m: Assignment| m.choices@.len() == n implies (all_hold(r@, m) <==> forall|a: int|
                0 <= a < i + 1 ==> #[trigger] season_ok(p@, m, a)) by {
                assert(all_hold(before, m) <==> forall|a: int| 0 <= a < i ==> #[trigger] season_ok(p@, m, a));
                assert(all_hold(r@, m) <==> all_hold(before, m) && season_ok(p@, m, i as int));
            }
        }
        i = i + 1;
    }
    r
}

/// Modules selected into a semester of one phase are counted in that phase.
fn phase_group(p: &Plan) -> (r: Vec<Rule>)
    requires
        p@.semesters.len() <= i64::MAX,
    ensures
        rules_in_range(r@, p@.modules.len()),
        forall|m: Assignment|
            #![trigger all_hold(r@, m)]
            fits(p@, m) ==> (all_hold(r@, m) <==> phase_rules(p@, m)),
{
    let ghost n = p@.modules.len();
    let ghost ns = p@.semesters.len();
    let mut r: Vec<Rule> = Vec::new();
    let mut k: usize = 0;
    while k < p.semesters.len()
        invariant
            k <= ns,
            n == p@.modules.len(),
            ns == p@.semesters.len(),
            ns <= i64::MAX,
            rules_in_range(r@, n),
            forall|m: Assignment|
                #![trigger all_hold(r@, m)]
                m.choices@.len() == n ==> (all_hold(r@, m) <==> forall|b: int, a: int|
                    0 <= b < k && 0 <= a < n && #[trigger] sole_phase(p@.semesters[b]) is Some
                        && (#[trigger] m.choices@[a]).used && m.choices@[a].semester == b ==> Some(
                        m.choices@[a].degree,
                    ) == sole_phase(p@.semesters[b])),
        decreases ns - k,
    {
        let ghost outer = r@;
        let sem = &p.semesters[k];
        proof { assert(p@.semesters[k as int] == sem@); }
        if sem.degrees.len() == 1 {
            let bachelor = sem.degrees[0] == SemesterDegree::Bachelor;
            let mut i: usize = 0;
            while i < p.modules.len()
                invariant
                    k < ns,
                    i <= n,
                    n == p@.modules.len(),
                    ns == p@.semesters.len(),
                    ns <= i64::MAX,
                    p@.semesters[k as int] == sem@,
                    sem@.degrees.len() == 1,
                    bachelor == (sem@.degrees[0] == SemesterDegree::Bachelor),
                    rules_in_range(r@, n),
                    forall|m: Assignment|
                        #![trigger all_hold(r@, m)]
                        m.choices@.len() == n ==> (all_hold(r@, m) <==> all_hold(outer, m) && forall|a: int|
                            0 <= a < i && (#[trigger] m.choices@[a]).used && m.choices@[a].semester == k ==> Some(
                            m.choices@[a].degree,
                        ) == sole_phase(sem@)),
                decreases n - i,
            {
                let ghost before = r@;
                let f = or(
                    Formula::Lit(lit(Atom::Used(i), false)),
                    or(
                        Formula::Lit(lit(Atom::SemesterIs(i, k as i64), false)),
                        Formula::Lit(lit(Atom::IsBachelor(i), bachelor)),
                    ),
                );
                push_rule(&mut r, Label::Phase(k, i), f, Ghost(n));
                proof {
                    assert forall|m: Assignment| m.choices@.len() == n implies (all_hold(r@, m) <==> all_hold(outer, m)
                        && forall|a: int| 0 <= a < i + 1 && (#[trigger] m.choices@[a]).used && m.choices@[a].semester == k
                            ==> Some(m.choices@[a].degree) == sole_phase(sem@)) by {
                        assert(all_hold(before, m) <==> all_hold(outer, m) && forall|a: int|
                            0 <= a < i && (#[trigger] m.choices@[a]).used && m.choices@[a].semester == k ==> Some(
                            m.choices@[a].degree,
                        ) == sole_phase(sem@));
                        assert(holds(f, m) <==> (m.choices@[i as int].used && m.choices@[i as int].semester == k ==> Some(
                            m.choices@[i as int].degree) == sole_phase(sem@)));
                    }
                }
                i = i + 1;
            }
        }
        proof {
            assert forall|m: Assignment| m.choices@.len() == n implies (all_hold(r@, m) <==> forall|b: int, a: int|
                0 <= b < k + 1 && 0 <= a < n && #[trigger] sole_phase(p@.semesters[b]) is Some
                    && (#[trigger] m.choices@[a]).used && m.choices@[a].semester == b ==> Some(
                    m.choices@[a].degree,
                ) == sole_phase(p@.semesters[b])) by {
                assert(all_hold(outer, m) <==> forall|b: int, a: int|
                    0 <= b < k && 0 <= a < n && #[trigger] sole_phase(p@.semesters[b]) is Some
                        && (#[trigger] m.choices@[a]).used && m.choices@[a].semester == b ==> Some(
                        m.choices@[a].degree,
                    ) == sole_phase(p@.semesters[b]));
            }
        }
        k = k + 1;
    }
    r
}

/// Two distinct chosen specialities, each with enough Master credits.
fn speciality_group(p: &Plan) -> (r: Vec<Rule>)
    ensures
        rules_in_range(r@, p@.modules.len()),
        forall|m: Assignment|
            #![trigger all_hold(r@, m)]
            fits(p@, m) ==> (all_hold(r@, m) <==> speciality_rules(p@, m)),
{
    let ghost n = p@.modules.len();
    let mut r: Vec<Rule> = Vec::new();
    push_rule(&mut r, Label::DistinctSpecialities, Formula::Lit(lit(Atom::ChoicesDiffer, true)), Ghost(n));
    let mut k: usize = 0;
    while k < 2
        invariant
            k <= 2,
            n == p@.modules.len(),
            rules_in_range(r@, n),
            forall|m: Assignment|
                #![trigger all_hold(r@, m)]
                fits(p@, m) ==> (all_hold(r@, m) <==> m.first != m.second && forall|b: usize|
                    b < k ==> #[trigger] speciality_ok(p@, m, b)),
        decreases 2 - k,
    {
        let ghost before = r@;
        let total = terms_for(p, Tally::SpecialityCredits(k, true));
        let plain = terms_for(p, Tally::SpecialityCredits(k, false));
        let applied = terms_for(p, Tally::SpecialityCredits(k, false));
        let ghost g = (total@, plain@, applied@);
        let f1 = Formula::AtLeast(total, SPECIALITY_MIN);
        let f2 = or(
            Formula::AtLeast(plain, SPECIALITY_NO_ROOT_MIN),
            and(Formula::Lit(lit(Atom::ChoiceIs(k, APPLIED_SPECIALITY), true)), Formula::AtLeast(applied, APPLIED_NO_ROOT_MIN)),
        );
        proof {
            assert forall|m: Assignment| fits(p@, m) implies (holds(f1, m) && holds(f2, m) <==> speciality_ok(p@, m, k)) by {
                assert(sum_value(g.1, m) == sum_value(g.2, m));
            }
        }
        push_rule(&mut r, Label::SpecialityTotal(k), f1, Ghost(n));
        push_rule(&mut r, Label::SpecialityWithoutRoots(k), f2, Ghost(n));
        proof {
            assert forall|m: Assignment| fits(p@, m) implies (all_hold(r@, m) <==> m.first != m.second && forall|b: usize|
                b < k + 1 ==> #[trigger] speciality_ok(p@, m, b)) by {
                assert(all_hold(before, m) <==> m.first != m.second && forall|b: usize|
                    b < k ==> #[trigger] speciality_ok(p@, m, b));
            }
        }
        k = k + 1;
    }
    r
}

/// Compiles the catalog into labelled constraints. It fails exactly when a
/// module requires an identifier that no module has; otherwise an
/// assignment with one choice per module meets every rule exactly when it
/// meets the regulations.
pub fn compile(p: &Plan) -> (r: Result<Vec<Rule>, ConfigurationError>)
    requires
        p@.semesters.len() <= i64::MAX,
    ensures
        r is Err <==> has_unknown_requirement(p@),
        r matches Err(e) ==> exists|i: int, q: int|
            #[trigger] missing_requirement(p@, i, q) && e.names_requirement(
                p@.modules[i].identifier,
                p@.modules[i].requirements[q],
            ),
        r matches Ok(rs) ==> rules_in_range(rs@, p@.modules.len()),
        r matches Ok(rs) ==> forall|m: Assignment|
            #![trigger all_hold(rs@, m)]
            fits(p@, m) ==> (all_hold(rs@, m) <==> regulations(p@, m)),
{
    let ghost n = p@.modules.len();
    let requirements = match requirement_group(p) {
        Ok(rs) => rs,
        Err(e) => {
            return Err(e);
        },
    };
    let mut r = module_groups(p);
    let g1 = pin_group(p);
    let g2 = load_group(p);
    let g3 = total_group(p);
    let g4 = introductory_group(p);
    let g5 = season_group(p);
    let g6 = phase_group(p);
    let g7 = speciality_group(p);
    let ghost s = (r@, g1@, g2@, g3@, requirements@, g4@, g5@, g6@, g7@);
    append_rules(&mut r, g1, Ghost(n));
    let ghost s1 = r@;
    append_rules(&mut r, g2, Ghost(n));
    let ghost s2 = r@;
    append_rules(&mut r, g3, Ghost(n));
    let ghost s3 = r@;
    append_rules(&mut r, requirements, Ghost(n));
    let ghost s4 = r@;
    append_rules(&mut r, g4, Ghost(n));
    let ghost s5 = r@;
    append_rules(&mut r, g5, Ghost(n));
    let ghost s6 = r@;
    append_rules(&mut r, g6, Ghost(n));
    let ghost s7 = r@;
    append_rules(&mut r, g7, Ghost(n));
    proof {
        assert forall|m: Assignment| fits(p@, m) implies (all_hold(r@, m) <==> regulations(p@, m)) by {
            assert(all_hold(s1, m) <==> all_hold(s.0, m) && all_hold(s.1, m));
            assert(all_hold(s2, m) <==> all_hold(s1, m) && all_hold(s.2, m));
            assert(all_hold(s3, m) <==> all_hold(s2, m) && all_hold(s.3, m));
            assert(all_hold(s4, m) <==> all_hold(s3, m) && all_hold(s.4, m));
            assert(all_hold(s5, m) <==> all_hold(s4, m) && all_hold(s.5, m));
            assert(all_hold(s6, m) <==> all_hold(s5, m) && all_hold(s.6, m));
            assert(all_hold(s7, m) <==> all_hold(s6, m) && all_hold(s.7, m));
            assert(all_hold(r@, m) <==> all_hold(s7, m) && all_hold(s.8, m));
        }
    }
    Ok(r)
}

} // verus!
