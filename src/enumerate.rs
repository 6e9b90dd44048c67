//! Turns the oracle's models into plans and asks for new selection patterns
//! until the oracle has none left.
use crate::compile::{
    all_hold, compile, contribution_fn, fits, has_unknown_requirement, lemma_sum_positive,
    missing_requirement,
    rules_in_range, Label, Rule,
};
use crate::constraint::{
    holds, in_range, sum_value, term_in_range, term_value, Assignment, Atom, Formula, Lit,
    ModuleChoice, Term,
};
use crate::model::{
    ConfigurationError, Degree, DegreeView, Module, ModuleView, Plan, PlanView, Semester,
    SemesterDegree, SemesterView,
};
use crate::regulations::{
    contribution, regulations, requires_module, sum_over, tally, total_rules, Tally, BACHELOR_MAX,
    BACHELOR_MIN, BACHELOR_ROOT_MIN, LAB_SEMINAR_CEILING, MASTER_LAB_MIN, MASTER_LAB_SEMINAR_MIN,
    MASTER_MAX, MASTER_MIN, MASTER_ROOT_MIN, MASTER_SEMINAR_MIN,
};
use crate::compile::lemma_sum_over_add;
use vstd::prelude::*;

verus! {

/// The module as it stands in a solution: counted in the degree, and for
/// the Master in the speciality, that the choice gives it.
pub open spec fn resolved(mv: ModuleView, c: ModuleChoice) -> ModuleView {
    ModuleView {
        degree: if c.degree == SemesterDegree::Bachelor {
            DegreeView::Bachelor
        } else {
            DegreeView::Master(seq![c.speciality])
        },
        ..mv
    }
}

/// The selected modules among the first `n` whose semester index is `s`, in
/// catalog order.
pub open spec fn placed_upto(p: PlanView, m: Assignment, s: int, n: int) -> Seq<ModuleView>
    decreases n,
{
    if n <= 0 {
        seq![]
    } else {
        let c = m.choices@[n - 1];
        placed_upto(p, m, s, n - 1) + if c.used && c.semester == s {
            seq![resolved(p.modules[n - 1], c)]
        } else {
            seq![]
        }
    }
}

pub open spec fn placed(p: PlanView, m: Assignment, s: int) -> Seq<ModuleView> {
    placed_upto(p, m, s, p.modules.len() as int)
}

/// The plan that a model describes: each semester of the catalog with the
/// modules selected into it, and the two chosen specialities.
pub open spec fn solution_of(p: PlanView, m: Assignment) -> PlanView {
    PlanView {
        modules: seq![],
        semesters: Seq::new(
            p.semesters.len(),
            |s: int| SemesterView { modules: placed(p, m, s), ..p.semesters[s] },
        ),
        specialties: seq![Some(m.first), Some(m.second)],
    }
}

/// Which modules the model selects.
pub open spec fn selection(m: Assignment) -> Seq<bool> {
    m.choices@.map_values(|c: ModuleChoice| c.used)
}

fn resolve(md: &Module, c: &ModuleChoice) -> (r: Module)
    ensures
        r@ == resolved(md@, *c),
{
    let mut r = md.duplicate();
    if c.degree == SemesterDegree::Bachelor {
        r.degree = Degree::Bachelor;
    } else {
        let v = vec![c.speciality];
        assert(v@ =~= seq![c.speciality]);
        r.degree = Degree::Master(v);
    }
    assert(r@ =~= resolved(md@, *c));
    r
}

fn placed_modules(p: &Plan, m: &Assignment, s: usize) -> (r: Vec<Module>)
    requires
        fits(p@, *m),
        s <= i64::MAX,
    ensures
        r@.map_values(|x: Module| x@) == placed(p@, *m, s as int),
{
    let mut r: Vec<Module> = Vec::new();
    let mut i: usize = 0;
    while i < p.modules.len()
        invariant
            i <= p@.modules.len(),
            fits(p@, *m),
            s <= i64::MAX,
            r@.map_values(|x: Module| x@) == placed_upto(p@, *m, s as int, i as int),
        decreases p@.modules.len() - i,
    {
        let c = m.choices[i];
        proof { assert(p@.modules[i as int] == p.modules@[i as int]@); }
        if c.used && c.semester == s as i64 {
            let x = resolve(&p.modules[i], &c);
            let ghost old_r = r@;
            r.push(x);
            assert(r@.map_values(|x: Module| x@) =~= old_r.map_values(|x: Module| x@) + seq![x@]);
        } else {
            assert(placed_upto(p@, *m, s as int, i + 1) =~= placed_upto(p@, *m, s as int, i as int));
        }
        i = i + 1;
    }
    r
}

/// The plan that the model describes.
pub fn extract(p: &Plan, m: &Assignment) -> (r: Plan)
    requires
        fits(p@, *m),
        p@.semesters.len() <= i64::MAX,
    ensures
        r@ == solution_of(p@, *m),
{
    let mut semesters: Vec<Semester> = Vec::new();
    let mut s: usize = 0;
    while s < p.semesters.len()
        invariant
            s <= p@.semesters.len(),
            p@.semesters.len() <= i64::MAX,
            fits(p@, *m),
            semesters@.len() == s,
            forall|t: int| 0 <= t < s ==> #[trigger] semesters@[t]@ == solution_of(p@, *m).semesters[t],
        decreases p@.semesters.len() - s,
    {
        let sem = &p.semesters[s];
        proof { assert(p@.semesters[s as int] == sem@); }
        let modules = placed_modules(p, m, s);
        semesters.push(Semester {
            number: sem.number,
            degrees: crate::model::copy_items(&sem.degrees),
            ects: std::ops::Range { start: sem.ects.start, end: sem.ects.end },
            modules,
            semester_type: sem.semester_type,
        });
        s = s + 1;
    }
    let r = Plan { modules: Vec::new(), semesters, specialties: [Some(m.first), Some(m.second)] };
    proof {
        assert(r@.semesters =~= solution_of(p@, *m).semesters);
        assert(r@.modules =~= solution_of(p@, *m).modules);
        assert(r@.specialties =~= solution_of(p@, *m).specialties);
    }
    r
}

/// Where a search stands.
#[derive(Clone, Copy, Debug, PartialEq, Eq, Structural)]
pub enum Outcome {
    /// The oracle is asked again.
    Searching,
    /// The oracle found no model at its first check.
    Unsatisfiable,
    /// The oracle has no model with a new selection pattern.
    Exhausted,
    /// The oracle could not decide.
    Undecided,
    /// The search was cancelled.
    Cancelled,
    /// The oracle gave a model that breaks a rule or repeats a pattern.
    RejectedModel,
}

/// What the oracle answered to a satisfiability check.
#[derive(Debug)]
pub enum OracleAnswer {
    Sat(Assignment),
    Unsat,
    Unknown,
}

/// One enumeration session over a compiled catalog: it keeps the plans
/// found so far and the selection pattern of each.
pub struct Enumeration {
    catalog: Plan,
    rules: Vec<Rule>,
    solutions: Vec<Plan>,
    patterns: Vec<Vec<bool>>,
    outcome: Outcome,
    models: Ghost<Seq<Assignment>>,
}

/// The rule holds of an assignment exactly when its selection pattern
/// differs from that of `m`.
pub open spec fn blocks(rule: Rule, p: PlanView, m: Assignment) -> bool {
    &&& in_range(rule.formula, p.modules.len())
    &&& forall|m2: Assignment|
        #![trigger holds(rule.formula, m2)]
        fits(p, m2) ==> (holds(rule.formula, m2) <==> selection(m2) != selection(m))
}

impl Enumeration {
    /// The compiled catalog.
    pub closed spec fn catalog_view(&self) -> PlanView {
        self.catalog@
    }

    /// Its constraints.
    pub closed spec fn rule_set(&self) -> Seq<Rule> {
        self.rules@
    }

    /// The plans found so far, in the order found.
    pub closed spec fn found_plans(&self) -> Seq<PlanView> {
        self.solutions@.map_values(|p: Plan| p@)
    }

    /// The model of each plan found.
    pub closed spec fn found_models(&self) -> Seq<Assignment> {
        self.models@
    }

    /// The selection pattern of each plan found.
    pub closed spec fn seen(&self) -> Seq<Seq<bool>> {
        self.patterns@.map_values(|v: Vec<bool>| v@)
    }

    /// Where the search stands.
    pub closed spec fn state(&self) -> Outcome {
        self.outcome
    }

    /// The rules describe the regulations of the catalog, and every plan
    /// found so far is the plan of a model that meets them, with a selection
    /// pattern of its own.
    pub open spec fn wf(&self) -> bool {
        let p = self.catalog_view();
        let n = self.found_plans().len();
        &&& p.semesters.len() <= i64::MAX
        &&& rules_in_range(self.rule_set(), p.modules.len())
        &&& forall|m: Assignment|
            #![trigger all_hold(self.rule_set(), m)]
            fits(p, m) ==> (all_hold(self.rule_set(), m) <==> regulations(p, m))
        &&& self.found_models().len() == n
        &&& self.seen().len() == n
        &&& forall|k: int|
            0 <= k < n ==> regulations(p, #[trigger] self.found_models()[k])
                && self.found_plans()[k] == solution_of(p, self.found_models()[k])
                && self.seen()[k] == selection(self.found_models()[k])
        &&& forall|a: int, b: int| 0 <= a < n && 0 <= b < n && a != b ==> #[trigger] self.seen()[a] != #[trigger] self.seen()[b]
    }

    /// The model is one that the session takes: it meets the regulations and
    /// its selection pattern is new.
    pub open spec fn accepts(&self, m: Assignment) -> bool {
        &&& fits(self.catalog_view(), m)
        &&& regulations(self.catalog_view(), m)
        &&& forall|k: int| 0 <= k < self.seen().len() ==> #[trigger] self.seen()[k] != selection(m)
    }

    /// Compiles the catalog and opens a session; fails exactly when a
    /// module requires an identifier that no module has.
    pub fn new(catalog: Plan) -> (r: Result<Enumeration, ConfigurationError>)
        requires
            catalog@.semesters.len() <= i64::MAX,
        ensures
            r is Err <==> has_unknown_requirement(catalog@),
            r matches Err(err) ==> exists|i: int, q: int|
                #[trigger] missing_requirement(catalog@, i, q) && err.names_requirement(
                    catalog@.modules[i].identifier,
                    catalog@.modules[i].requirements[q],
                ),
            r matches Ok(e) ==> e.wf() && e.catalog_view() == catalog@ && e.found_plans().len() == 0
                && e.state() == Outcome::Searching,
    {
        match compile(&catalog) {
            Err(e) => Err(e),
            Ok(rules) => {
                let e = Enumeration {
                    catalog,
                    rules,
                    solutions: Vec::new(),
                    patterns: Vec::new(),
                    outcome: Outcome::Searching,
                    models: Ghost(Seq::empty()),
                };
                proof {
                    assert(e.found_plans() =~= Seq::empty());
                    assert(e.seen() =~= Seq::empty());
                }
                Ok(e)
            },
        }
    }

    /// The rules to assert before the first check.
    pub fn rules(&self) -> (r: &Vec<Rule>)
        ensures
            r@ == self.rule_set(),
    {
        &self.rules
    }

    pub fn catalog(&self) -> (r: &Plan)
        ensures
            r@ == self.catalog_view(),
    {
        &self.catalog
    }

    pub fn outcome(&self) -> (r: Outcome)
        ensures
            r == self.state(),
    {
        self.outcome
    }

    /// How many plans were found so far.
    pub fn found(&self) -> (r: usize)
        ensures
            r == self.found_plans().len(),
    {
        self.solutions.len()
    }

    pub fn solutions(&self) -> (r: &Vec<Plan>)
        ensures
            r@.map_values(|p: Plan| p@) == self.found_plans(),
    {
        &self.solutions
    }

    pub fn into_solutions(self) -> (r: Vec<Plan>)
        ensures
            r@.map_values(|p: Plan| p@) == self.found_plans(),
    {
        self.solutions
    }

    /// Takes the oracle's answer. A model that the session accepts becomes a
    /// plan, and the rule returned excludes its selection pattern from later
    /// models; any other answer ends the search. Once the search has ended,
    /// answers change nothing.
    pub fn on_answer(&mut self, answer: OracleAnswer) -> (r: Option<Rule>)
        requires
            old(self).wf(),
        ensures
            final(self).wf(),
            final(self).catalog_view() == old(self).catalog_view(),
            final(self).rule_set() == old(self).rule_set(),
            old(self).state() != Outcome::Searching ==> r is None && final(self).found_plans()
                == old(self).found_plans() && final(self).state() == old(self).state(),
            old(self).state() == Outcome::Searching ==> match answer {
                OracleAnswer::Sat(m) => if old(self).accepts(m) {
                    &&& final(self).found_plans() == old(self).found_plans().push(
                        solution_of(old(self).catalog_view(), m),
                    )
                    &&& final(self).state() == Outcome::Searching
                    &&& r matches Some(rule) && blocks(rule, old(self).catalog_view(), m)
                } else {
                    &&& final(self).found_plans() == old(self).found_plans()
                    &&& final(self).state() == Outcome::RejectedModel
                    &&& r is None
                },
                OracleAnswer::Unsat => {
                    &&& final(self).found_plans() == old(self).found_plans()
                    &&& final(self).state() == if old(self).found_plans().len() == 0 {
                        Outcome::Unsatisfiable
                    } else {
                        Outcome::Exhausted
                    }
                    &&& r is None
                },
                OracleAnswer::Unknown => {
                    &&& final(self).found_plans() == old(self).found_plans()
                    &&& final(self).state() == Outcome::Undecided
                    &&& r is None
                },
            },
    {
        if self.outcome != Outcome::Searching {
            return None;
        }
        match answer {
            OracleAnswer::Unsat => {
                self.outcome = if self.solutions.len() == 0 {
                    Outcome::Unsatisfiable
                } else {
                    Outcome::Exhausted
                };
                None
            },
            OracleAnswer::Unknown => {
                self.outcome = Outcome::Undecided;
                None
            },
            OracleAnswer::Sat(m) => {
                let ghost p = self.catalog@;
                if m.choices.len() != self.catalog.modules.len() {
                    self.outcome = Outcome::RejectedModel;
                    return None;
                }
                if !all_rules_hold(&self.rules, &m) {
                    self.outcome = Outcome::RejectedModel;
                    return None;
                }
                let pattern = selection_of(&m);
                if !pattern_is_new(&self.patterns, &pattern) {
                    proof {
                        let k = choose|k: int| 0 <= k < self.patterns@.len() && #[trigger] self.patterns@[k]@ == pattern@;
                        assert(self.seen()[k] == self.patterns@[k]@);
                    }
                    self.outcome = Outcome::RejectedModel;
                    return None;
                }
                proof {
                    assert forall|k: int| 0 <= k < self.seen().len() implies #[trigger] self.seen()[k] != selection(m) by {
                        assert(self.seen()[k] == self.patterns@[k]@);
                    }
                }
                let rule = blocking_rule(&pattern, Ghost(p.modules.len()));
                let plan = extract(&self.catalog, &m);
                let ghost old_plans = self.found_plans();
                let ghost old_seen = self.seen();
                self.solutions.push(plan);
                self.patterns.push(pattern);
                self.models = Ghost(self.models@.push(m));
                proof {
                    assert(self.found_plans() =~= old_plans.push(solution_of(p, m)));
                    assert(self.seen() =~= old_seen.push(selection(m)));
                }
                Some(rule)
            },
        }
    }

    /// Stops the search between two checks; the plans found are kept.
    pub fn cancel(&mut self)
        requires
            old(self).wf(),
        ensures
            final(self).wf(),
            final(self).catalog_view() == old(self).catalog_view(),
            final(self).rule_set() == old(self).rule_set(),
            final(self).found_plans() == old(self).found_plans(),
            final(self).state() == (if old(self).state() == Outcome::Searching {
                Outcome::Cancelled
            } else {
                old(self).state()
            }),
    {
        if self.outcome == Outcome::Searching {
            self.outcome = Outcome::Cancelled;
        }
    }
}

/// The selection pattern of the model.
fn selection_of(m: &Assignment) -> (r: Vec<bool>)
    ensures
        r@ == selection(*m),
{
    let mut r: Vec<bool> = Vec::new();
    let mut i: usize = 0;
    while i < m.choices.len()
        invariant
            i <= m.choices@.len(),
            r@ == selection(*m).subrange(0, i as int),
        decreases m.choices@.len() - i,
    {
        r.push(m.choices[i].used);
        i = i + 1;
        assert(r@ =~= selection(*m).subrange(0, i as int));
    }
    assert(selection(*m).subrange(0, i as int) =~= selection(*m));
    r
}

fn pattern_is_new(patterns: &Vec<Vec<bool>>, pattern: &Vec<bool>) -> (r: bool)
    ensures
        r == forall|k: int| 0 <= k < patterns@.len() ==> #[trigger] patterns@[k]@ != pattern@,
{
    let mut k: usize = 0;
    while k < patterns.len()
        invariant
            k <= patterns@.len(),
            forall|j: int| 0 <= j < k ==> #[trigger] patterns@[j]@ != pattern@,
        decreases patterns@.len() - k,
    {
        if same_pattern(&patterns[k], pattern) {
            return false;
        }
        k = k + 1;
    }
    true
}

fn same_pattern(a: &Vec<bool>, b: &Vec<bool>) -> (r: bool)
    ensures
        r == (a@ == b@),
{
    if a.len() != b.len() {
        return false;
    }
    let mut i: usize = 0;
    while i < a.len()
        invariant
            i <= a@.len(),
            a@.len() == b@.len(),
            forall|j: int| 0 <= j < i ==> a@[j] == b@[j],
        decreases a@.len() - i,
    {
        if a[i] != b[i] {
            return false;
        }
        i = i + 1;
    }
    assert(a@ =~= b@);
    true
}

/// All rules hold of the model.
fn all_rules_hold(rules: &Vec<Rule>, m: &Assignment) -> (r: bool)
    requires
        rules_in_range(rules@, m.choices@.len()),
    ensures
        r == all_hold(rules@, *m),
{
    let mut k: usize = 0;
    while k < rules.len()
        invariant
            k <= rules@.len(),
            rules_in_range(rules@, m.choices@.len()),
            forall|j: int| 0 <= j < k ==> holds(#[trigger] rules@[j].formula, *m),
        decreases rules@.len() - k,
    {
        if !rules[k].formula.eval(m) {
            return false;
        }
        k = k + 1;
    }
    true
}

/// The rule that excludes the selection pattern `pattern` from later models.
fn blocking_rule(pattern: &Vec<bool>, n: Ghost<nat>) -> (r: Rule)
    requires
        pattern@.len() == n@,
    ensures
        in_range(r.formula, n@),
        forall|m2: Assignment|
            #![trigger holds(r.formula, m2)]
            m2.choices@.len() == n@ ==> (holds(r.formula, m2) <==> selection(m2) != pattern@),
{
    let mut ts: Vec<Term> = Vec::new();
    let mut i: usize = 0;
    while i < pattern.len()
        invariant
            i <= pattern@.len(),
            ts@.len() == i,
            forall|j: int| 0 <= j < i ==> #[trigger] ts@[j] == (Term {
                first: Lit { atom: Atom::Used(j as usize), positive: !pattern@[j] },
                second: Lit { atom: Atom::True, positive: true },
                third: Lit { atom: Atom::True, positive: true },
                weight: 1,
            }),
        decreases pattern@.len() - i,
    {
        ts.push(Term {
            first: Lit { atom: Atom::Used(i), positive: !pattern[i] },
            second: Lit { atom: Atom::True, positive: true },
            third: Lit { atom: Atom::True, positive: true },
            weight: 1,
        });
        i = i + 1;
    }
    let ghost g = ts@;
    let r = Rule { label: Label::NewSelection, formula: Formula::AtLeast(ts, 1) };
    proof {
        assert forall|m2: Assignment| m2.choices@.len() == n@ implies (holds(r.formula, m2) <==> selection(m2) != pattern@) by {
            assert forall|j: int| 0 <= j < g.len() implies term_value(#[trigger] g[j], m2) >= 0 by {}
            lemma_sum_positive(g, m2);
            if selection(m2) != pattern@ {
                assert(!(selection(m2) =~= pattern@));
                let j = choose|j: int| 0 <= j < n@ && selection(m2)[j] != pattern@[j];
                assert(term_value(g[j], m2) >= 1);
            }
            if sum_value(g, m2) >= 1 {
                let j = choose|j: int| 0 <= j < g.len() && term_value(#[trigger] g[j], m2) >= 1;
                assert(selection(m2)[j] != pattern@[j]);
            }
        }
        assert forall|j: int| 0 <= j < g.len() implies term_in_range(#[trigger] g[j], n@) by {}
    }
    r
}

/// The credits of a list of modules, in half ECTS.
pub open spec fn credit_sum(ms: Seq<ModuleView>) -> int
    decreases ms.len(),
{
    if ms.len() == 0 {
        0
    } else {
        credit_sum(ms.drop_last()) + ms.last().half_ects
    }
}

proof fn lemma_placed_credits(p: PlanView, m: Assignment, s: int, n: int)
    requires
        0 <= n <= p.modules.len(),
        fits(p, m),
        s == (s as i64) as int,
    ensures
        credit_sum(placed_upto(p, m, s, n)) == sum_over(n, contribution_fn(p, m, Tally::Load(s as i64))),
    decreases n,
{
    if n > 0 {
        lemma_placed_credits(p, m, s, n - 1);
        let c = m.choices@[n - 1];
        let prev = placed_upto(p, m, s, n - 1);
        if c.used && c.semester == s {
            let x = resolved(p.modules[n - 1], c);
            assert((prev + seq![x]).drop_last() =~= prev);
        } else {
            assert(prev + seq![] =~= prev);
        }
    }
}

proof fn lemma_placed_contains(p: PlanView, m: Assignment, s: int, n: int, j: int)
    requires
        0 <= j < n <= p.modules.len(),
        fits(p, m),
        m.choices@[j].used,
        m.choices@[j].semester == s,
    ensures
        placed_upto(p, m, s, n).contains(resolved(p.modules[j], m.choices@[j])),
    decreases n,
{
    let prev = placed_upto(p, m, s, n - 1);
    if j < n - 1 {
        lemma_placed_contains(p, m, s, n - 1, j);
        let q = choose|q: int| 0 <= q < prev.len() && prev[q] == resolved(p.modules[j], m.choices@[j]);
        let c = m.choices@[n - 1];
        let tail = if c.used && c.semester == s {
            seq![resolved(p.modules[n - 1], c)]
        } else {
            seq![]
        };
        assert((prev + tail)[q] == prev[q]);
    } else {
        let x = resolved(p.modules[j], m.choices@[j]);
        assert((prev + seq![x])[prev.len() as int] == x);
    }
}

/// Every plan found keeps each semester's load within the semester's range,
/// and the model it came from meets the credit bounds of both degrees and
/// the minimum counts.
pub proof fn lemma_found_plans_meet_bounds(e: &Enumeration, k: int)
    requires
        e.wf(),
        0 <= k < e.found_plans().len(),
    ensures
        forall|s: int|
            0 <= s < e.catalog_view().semesters.len() ==> {
                let sem = #[trigger] e.found_plans()[k].semesters[s];
                sem.min_load <= credit_sum(sem.modules) <= sem.max_load
            },
        total_rules(e.catalog_view(), e.found_models()[k]),
{
    let p = e.catalog_view();
    let m = e.found_models()[k];
    assert(regulations(p, m));
    assert forall|s: int| 0 <= s < p.semesters.len() implies {
        let sem = #[trigger] e.found_plans()[k].semesters[s];
        sem.min_load <= credit_sum(sem.modules) <= sem.max_load
    } by {
        lemma_placed_credits(p, m, s, p.modules.len() as int);
        assert(contribution_fn(p, m, Tally::Load(s as i64)) == (|i: int| contribution(p.modules[i], m.choices@[i], m, Tally::Load(s as i64))));
        assert(p.semesters[s].min_load <= tally(p, m, Tally::Load(s as i64)) <= p.semesters[s].max_load);
    }
}

/// In every plan found, a selected module's required modules are selected
/// too, in earlier semesters, and both stand in the plan.
pub proof fn lemma_found_plans_keep_requirements(e: &Enumeration, k: int, i: int, j: int)
    requires
        e.wf(),
        0 <= k < e.found_plans().len(),
        0 <= i < e.catalog_view().modules.len(),
        0 <= j < e.catalog_view().modules.len(),
        requires_module(e.catalog_view(), i, j),
        e.found_models()[k].choices@[i].used,
    ensures
        ({
            let p = e.catalog_view();
            let m = e.found_models()[k];
            let plan = e.found_plans()[k];
            let (ci, cj) = (m.choices@[i], m.choices@[j]);
            &&& cj.used
            &&& 0 <= cj.semester < ci.semester < p.semesters.len()
            &&& plan.semesters[ci.semester as int].modules.contains(resolved(p.modules[i], ci))
            &&& plan.semesters[cj.semester as int].modules.contains(resolved(p.modules[j], cj))
        }),
{
    let p = e.catalog_view();
    let m = e.found_models()[k];
    assert(regulations(p, m));
    assert(crate::regulations::module_ok(p.modules[i], m.choices@[i], p.semesters.len() as int));
    assert(crate::regulations::module_ok(p.modules[j], m.choices@[j], p.semesters.len() as int));
    lemma_placed_contains(p, m, m.choices@[i].semester as int, p.modules.len() as int, i);
    lemma_placed_contains(p, m, m.choices@[j].semester as int, p.modules.len() as int, j);
}

/// No plan found names the same speciality twice.
pub proof fn lemma_found_plans_distinct_specialities(e: &Enumeration, k: int)
    requires
        e.wf(),
        0 <= k < e.found_plans().len(),
    ensures
        e.found_plans()[k].specialties.len() == 2,
        e.found_plans()[k].specialties[0] != e.found_plans()[k].specialties[1],
{
    assert(regulations(e.catalog_view(), e.found_models()[k]));
}

pub open spec fn two_to(n: nat) -> nat
    decreases n,
{
    if n == 0 {
        1
    } else {
        2 * two_to((n - 1) as nat)
    }
}

/// How many of the flags are off.
pub open spec fn free_count(flags: Seq<bool>) -> nat
    decreases flags.len(),
{
    if flags.len() == 0 {
        0
    } else {
        free_count(flags.drop_last()) + if flags.last() { 0nat } else { 1nat }
    }
}

/// The pattern has one entry per flag and is set wherever the flag is.
pub open spec fn respects(s: Seq<bool>, flags: Seq<bool>) -> bool {
    s.len() == flags.len() && forall|i: int| 0 <= i < flags.len() && #[trigger] flags[i] ==> s[i]
}

/// Which modules of the catalog are forced.
pub open spec fn forced_flags(p: PlanView) -> Seq<bool> {
    p.modules.map_values(|m: ModuleView| m.force)
}

/// Patterns that are set wherever the flags are number at most two to the
/// number of flags that are off.
proof fn lemma_pattern_count(ps: Set<Seq<bool>>, flags: Seq<bool>)
    requires
        ps.finite(),
        forall|s: Seq<bool>| #[trigger] ps.contains(s) ==> respects(s, flags),
    ensures
        ps.len() <= two_to(free_count(flags)),
    decreases flags.len(),
{
    if flags.len() == 0 {
        let single = set![Seq::<bool>::empty()];
        assert(ps.subset_of(single)) by {
            assert forall|s: Seq<bool>| ps.contains(s) implies single.contains(s) by {
                assert(s =~= Seq::<bool>::empty());
            }
        }
        vstd::set_lib::lemma_len_subset(ps, single);
    } else {
        let f1 = flags.drop_last();
        let g = |s: Seq<bool>| s.drop_last();
        let t = ps.filter(|s: Seq<bool>| s.last());
        let u = ps.filter(|s: Seq<bool>| !s.last());
        assert forall|x: Seq<bool>, y: Seq<bool>| t.contains(x) && t.contains(y) && #[trigger] g(x) == #[trigger] g(y) implies x == y by {
            assert(x =~= g(x).push(x.last()));
            assert(y =~= g(y).push(y.last()));
        }
        assert forall|x: Seq<bool>, y: Seq<bool>| u.contains(x) && u.contains(y) && #[trigger] g(x) == #[trigger] g(y) implies x == y by {
            assert(x =~= g(x).push(x.last()));
            assert(y =~= g(y).push(y.last()));
        }
        vstd::set_lib::lemma_map_size(t, t.map(g), g);
        vstd::set_lib::lemma_map_size(u, u.map(g), g);
        assert forall|s: Seq<bool>| #[trigger] t.map(g).contains(s) implies respects(s, f1) by {
            let x = choose|x: Seq<bool>| t.contains(x) && g(x) == s;
            assert forall|i: int| 0 <= i < f1.len() && #[trigger] f1[i] implies s[i] by {
                assert(flags[i]);
            }
        }
        assert forall|s: Seq<bool>| #[trigger] u.map(g).contains(s) implies respects(s, f1) by {
            let x = choose|x: Seq<bool>| u.contains(x) && g(x) == s;
            assert forall|i: int| 0 <= i < f1.len() && #[trigger] f1[i] implies s[i] by {
                assert(flags[i]);
            }
        }
        lemma_pattern_count(t.map(g), f1);
        lemma_pattern_count(u.map(g), f1);
        assert(ps =~= t.union(u));
        vstd::set_lib::lemma_len_union(t, u);
        if flags.last() {
            assert(u =~= Set::<Seq<bool>>::empty()) by {
                assert forall|s: Seq<bool>| !u.contains(s) by {
                    if u.contains(s) {
                        assert(flags[flags.len() - 1]);
                    }
                }
            }
            assert(t.union(u) =~= t);
        }
    }
}

/// The session never finds more plans than two to the number of modules
/// that are not forced: each plan has a selection pattern of its own, and
/// every pattern selects the forced modules.
pub proof fn lemma_found_count_bound(e: &Enumeration)
    requires
        e.wf(),
    ensures
        e.found_plans().len() <= two_to(free_count(forced_flags(e.catalog_view()))),
{
    let p = e.catalog_view();
    let seen = e.seen();
    let flags = forced_flags(p);
    assert(seen.no_duplicates()) by {
        assert forall|a: int, b: int| 0 <= a < seen.len() && 0 <= b < seen.len() && a != b implies seen[a] != seen[b] by {}
    }
    seen.unique_seq_to_set();
    assert forall|s: Seq<bool>| #[trigger] seen.to_set().contains(s) implies respects(s, flags) by {
        let k = choose|k: int| 0 <= k < seen.len() && seen[k] == s;
        let m = e.found_models()[k];
        assert(regulations(p, m));
        assert forall|i: int| 0 <= i < flags.len() && #[trigger] flags[i] implies s[i] by {
            assert(crate::regulations::module_ok(p.modules[i], m.choices@[i], p.semesters.len() as int));
        }
    }
    lemma_pattern_count(seen.to_set(), flags);
}

/// What a module placed in a plan adds to a degree or category tally, read
/// from the degree it is counted in; semester loads and speciality credits
/// are not read this way and add nothing.
pub open spec fn placed_contribution(mv: ModuleView, t: Tally) -> int {
    let bachelor = mv.degree is Bachelor;
    let ty = mv.module_type;
    match t {
        Tally::BachelorCredits => if bachelor { mv.half_ects } else { 0 },
        Tally::MasterCredits => if !bachelor { mv.half_ects } else { 0 },
        Tally::MasterCreditsLabSeminarTwice => if bachelor {
            0
        } else if ty.is_lab() || ty.is_seminar() {
            2 * mv.half_ects
        } else {
            mv.half_ects
        },
        Tally::MasterLabCredits => if !bachelor && ty.is_lab() { mv.half_ects } else { 0 },
        Tally::MasterSeminarCredits => if !bachelor && ty.is_seminar() { mv.half_ects } else { 0 },
        Tally::MasterLabSeminarCredits => if !bachelor && (ty.is_lab() || ty.is_seminar()) {
            mv.half_ects
        } else {
            0
        },
        Tally::BachelorRoots => if bachelor && ty.is_root_lecture() { 1 } else { 0 },
        Tally::MasterRoots => if !bachelor && ty.is_root_lecture() { 1 } else { 0 },
        Tally::IntroductorySeminars => if bachelor && ty.is_pro_seminar() { 1 } else { 0 },
        _ => 0,
    }
}

pub open spec fn module_sum(ms: Seq<ModuleView>, t: Tally) -> int
    decreases ms.len(),
{
    if ms.len() == 0 {
        0
    } else {
        module_sum(ms.drop_last(), t) + placed_contribution(ms.last(), t)
    }
}

/// A tally over all modules that the plan places in its semesters.
pub open spec fn plan_tally(plan: PlanView, t: Tally) -> int {
    sum_over(plan.semesters.len() as int, |s: int| module_sum(plan.semesters[s].modules, t))
}

/// The plan's own modules meet the credit bounds of both degrees and the
/// minimum counts.
pub open spec fn plan_meets_totals(plan: PlanView) -> bool {
    let missing = LAB_SEMINAR_CEILING - plan_tally(plan, Tally::MasterLabSeminarCredits);
    let counted = plan_tally(plan, Tally::MasterCredits) - if missing > 0 { missing } else { 0 };
    &&& BACHELOR_MIN <= plan_tally(plan, Tally::BachelorCredits) <= BACHELOR_MAX
    &&& MASTER_MIN <= counted <= MASTER_MAX
    &&& plan_tally(plan, Tally::BachelorRoots) >= BACHELOR_ROOT_MIN
    &&& plan_tally(plan, Tally::MasterRoots) >= MASTER_ROOT_MIN
    &&& plan_tally(plan, Tally::MasterLabCredits) >= MASTER_LAB_MIN
    &&& plan_tally(plan, Tally::MasterSeminarCredits) >= MASTER_SEMINAR_MIN
    &&& plan_tally(plan, Tally::MasterLabSeminarCredits) >= MASTER_LAB_SEMINAR_MIN
}

proof fn lemma_sum_over_ext(n: int, f: spec_fn(int) -> int, g: spec_fn(int) -> int)
    requires
        forall|i: int| 0 <= i < n ==> #[trigger] f(i) == g(i),
    ensures
        sum_over(n, f) == sum_over(n, g),
    decreases n,
{
    if n > 0 {
        lemma_sum_over_ext(n - 1, f, g);
    }
}

proof fn lemma_sum_over_indicator(n: int, k: int, v: int, f: spec_fn(int) -> int)
    requires
        forall|s: int| 0 <= s < n ==> #[trigger] f(s) == if s == k { v } else { 0 },
    ensures
        sum_over(n, f) == if 0 <= k < n { v } else { 0 },
    decreases n,
{
    if n > 0 {
        lemma_sum_over_indicator(n - 1, k, v, f);
    }
}

/// Summing per semester what the model places there gives the tally of
/// the first `n` modules.
proof fn lemma_placed_tally(p: PlanView, m: Assignment, t: Tally, n: int)
    requires
        fits(p, m),
        0 <= n <= p.modules.len(),
        forall|i: int| 0 <= i < p.modules.len() ==> 0 <= #[trigger] m.choices@[i].semester < p.semesters.len(),
        !(t is Load),
        !(t is SpecialityCredits),
    ensures
        sum_over(p.semesters.len() as int, |s: int| module_sum(placed_upto(p, m, s, n), t))
            == sum_over(n, contribution_fn(p, m, t)),
    decreases n,
{
    let ns = p.semesters.len() as int;
    if n == 0 {
        lemma_sum_over_indicator(ns, -1, 0, |s: int| module_sum(placed_upto(p, m, s, 0), t));
    } else {
        lemma_placed_tally(p, m, t, n - 1);
        let c = m.choices@[n - 1];
        let x = resolved(p.modules[n - 1], c);
        let v = if c.used { placed_contribution(x, t) } else { 0 };
        let g0 = |s: int| module_sum(placed_upto(p, m, s, n - 1), t);
        let g1 = |s: int| module_sum(placed_upto(p, m, s, n), t);
        let ind = |s: int| if c.used && c.semester == s { placed_contribution(x, t) } else { 0 };
        assert forall|s: int| 0 <= s < ns implies #[trigger] g1(s) == g0(s) + ind(s) by {
            let prev = placed_upto(p, m, s, n - 1);
            if c.used && c.semester == s {
                assert((prev + seq![x]).drop_last() =~= prev);
            } else {
                assert(prev + seq![] =~= prev);
            }
        }
        lemma_sum_over_add(ns, g0, ind, g1);
        lemma_sum_over_indicator(ns, c.semester as int, v, ind);
        assert(v == contribution_fn(p, m, t)(n - 1));
    }
}

/// The plan that a model meeting the regulations describes has the model's
/// degree and category tallies.
proof fn lemma_plan_tally(p: PlanView, m: Assignment, t: Tally)
    requires
        regulations(p, m),
        !(t is Load),
        !(t is SpecialityCredits),
    ensures
        plan_tally(solution_of(p, m), t) == tally(p, m, t),
{
    let sol = solution_of(p, m);
    let ns = p.semesters.len() as int;
    assert forall|i: int| 0 <= i < p.modules.len() implies 0 <= #[trigger] m.choices@[i].semester < ns by {
        assert(crate::regulations::module_ok(p.modules[i], m.choices@[i], ns));
    }
    lemma_placed_tally(p, m, t, p.modules.len() as int);
    lemma_sum_over_ext(
        ns,
        |s: int| module_sum(sol.semesters[s].modules, t),
        |s: int| module_sum(placed_upto(p, m, s, p.modules.len() as int), t),
    );
    assert(contribution_fn(p, m, t) == (|i: int| contribution(p.modules[i], m.choices@[i], m, t)));
}

/// Every plan found meets, over its own modules, the credit bounds of both
/// degrees and the minimum counts of root lectures, labs and seminars.
pub proof fn lemma_found_plans_meet_totals(e: &Enumeration, k: int)
    requires
        e.wf(),
        0 <= k < e.found_plans().len(),
    ensures
        plan_meets_totals(e.found_plans()[k]),
{
    let p = e.catalog_view();
    let m = e.found_models()[k];
    assert(regulations(p, m));
    lemma_plan_tally(p, m, Tally::BachelorCredits);
    lemma_plan_tally(p, m, Tally::MasterCredits);
    lemma_plan_tally(p, m, Tally::MasterLabSeminarCredits);
    lemma_plan_tally(p, m, Tally::BachelorRoots);
    lemma_plan_tally(p, m, Tally::MasterRoots);
    lemma_plan_tally(p, m, Tally::MasterLabCredits);
    lemma_plan_tally(p, m, Tally::MasterSeminarCredits);
}

/// The sum of the catalog's positive module weights.
pub open spec fn positive_weight_total(p: PlanView) -> int {
    sum_over(p.modules.len() as int, |i: int| if p.modules[i].half_ects > 0 { p.modules[i].half_ects } else { 0 })
}

proof fn lemma_sum_over_le(n: int, f: spec_fn(int) -> int, g: spec_fn(int) -> int)
    requires
        forall|i: int| 0 <= i < n ==> #[trigger] f(i) <= g(i),
    ensures
        sum_over(n, f) <= sum_over(n, g),
    decreases n,
{
    if n > 0 {
        lemma_sum_over_le(n - 1, f, g);
    }
}

/// A catalog whose positive weights fall short of the Bachelor minimum
/// yields no plan: no model meets the regulations.
pub proof fn lemma_unreachable_minimum_finds_nothing(e: &Enumeration)
    requires
        e.wf(),
        positive_weight_total(e.catalog_view()) < BACHELOR_MIN,
    ensures
        e.found_plans().len() == 0,
{
    let p = e.catalog_view();
    if e.found_plans().len() > 0 {
        let m = e.found_models()[0];
        assert(regulations(p, m));
        lemma_sum_over_le(
            p.modules.len() as int,
            contribution_fn(p, m, Tally::BachelorCredits),
            |i: int| if p.modules[i].half_ects > 0 { p.modules[i].half_ects } else { 0 },
        );
        assert(contribution_fn(p, m, Tally::BachelorCredits) == (|i: int| contribution(p.modules[i], m.choices@[i], m, Tally::BachelorCredits)));
    }
}

} // verus!
