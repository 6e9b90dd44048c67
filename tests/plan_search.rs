use study_planner::catalog::{
    catalog_semesters, elective_modules, get_bachelor_semester_1, get_bachelor_semester_2,
    get_bachelor_semester_5, get_bachelor_semester_6, get_master_semester_1, get_master_semester_4,
};
use study_planner::compile::{compile, Label, Rule};
use study_planner::constraint::{Assignment, Atom, Formula, Lit, ModuleChoice, Term};
use study_planner::dedup::{dedupe, PlanModuleView};
use study_planner::enumerate::{extract, Enumeration, OracleAnswer, Outcome};
use study_planner::model::{
    ConfigurationError, Degree, Module, ModuleType, Plan, Semester, SemesterDegree, SemesterType,
    Speciality,
};

fn module(
    id: &str,
    module_type: ModuleType,
    half_ects: i32,
    degree: Degree,
    requirements: &[&str],
) -> Module {
    Module {
        module_type,
        half_ects,
        degree,
        name: format!("Module {}", id),
        identifier: id.to_string(),
        requirements: requirements.iter().map(|r| r.to_string()).collect(),
        semesters: vec![SemesterType::Unknown],
        force: false,
    }
}

fn semester(number: i32, degrees: Vec<SemesterDegree>, lo: i32, hi: i32, kind: SemesterType) -> Semester {
    Semester { number, degrees, ects: lo..hi, modules: vec![], semester_type: kind }
}

fn lecture(root: bool) -> ModuleType {
    ModuleType::Lecture { is_root: root }
}

fn master(specs: &[Speciality]) -> Degree {
    Degree::Master(specs.to_vec())
}

/// A catalog that meets every regulation when all its modules are taken:
/// index 0 to 2 are Bachelor modules, 3 to 6 Master root lectures, then a
/// lab, a seminar and two lectures; module 9 requires module 3.
fn small_catalog() -> Plan {
    let modules = vec![
        module("B1", lecture(false), 276, Degree::Bachelor, &[]),
        module("BR", lecture(true), 12, Degree::Bachelor, &[]),
        module("PS", ModuleType::Seminar { is_pro: true }, 6, Degree::Bachelor, &[]),
        module("R1", lecture(true), 12, master(&[Speciality::Theoretics]), &[]),
        module("R2", lecture(true), 12, master(&[Speciality::Theoretics]), &[]),
        module("R3", lecture(true), 12, master(&[Speciality::Theoretics]), &[]),
        module("R4", lecture(true), 12, master(&[Speciality::Theoretics]), &[]),
        module("L1", ModuleType::Lab, 24, master(&[Speciality::Theoretics]), &[]),
        module("S1", ModuleType::Seminar { is_pro: false }, 12, master(&[Speciality::Algorithms]), &[]),
        module("A1", lecture(false), 40, master(&[Speciality::Algorithms]), &["R1"]),
        module("T1", lecture(false), 40, master(&[Speciality::Theoretics]), &[]),
    ];
    let both = vec![SemesterDegree::Bachelor, SemesterDegree::Master];
    let semesters = vec![
        semester(1, both.clone(), 0, 1000, SemesterType::Winter),
        semester(2, both, 0, 1000, SemesterType::Summer),
    ];
    Plan::from_semesters_with_modules(&semesters, &modules).unwrap()
}

fn choice(semester: i64, degree: SemesterDegree, speciality: Speciality) -> ModuleChoice {
    ModuleChoice { used: true, semester, degree, speciality }
}

/// The model that takes every module of `small_catalog`, all in the first
/// semester but module 9, which goes to the second.
fn small_model() -> Assignment {
    let mut choices = vec![];
    for _ in 0..3 {
        choices.push(choice(0, SemesterDegree::Bachelor, Speciality::Theoretics));
    }
    for _ in 0..5 {
        choices.push(choice(0, SemesterDegree::Master, Speciality::Theoretics));
    }
    choices.push(choice(0, SemesterDegree::Master, Speciality::Algorithms));
    choices.push(choice(1, SemesterDegree::Master, Speciality::Algorithms));
    choices.push(choice(0, SemesterDegree::Master, Speciality::Theoretics));
    Assignment { choices, first: Speciality::Theoretics, second: Speciality::Algorithms }
}

fn find_rule<'a>(rules: &'a [Rule], label: Label) -> &'a Rule {
    rules.iter().find(|r| r.label == label).expect("rule present")
}

fn all_hold(rules: &[Rule], m: &Assignment) -> bool {
    rules.iter().all(|r| r.formula.eval(m))
}

fn credits(semester: &Semester) -> i32 {
    semester.modules.iter().map(|m| m.half_ects).sum()
}

#[test]
fn prefix_names_module_kinds() {
    assert_eq!(ModuleType::Lecture { is_root: true }.prefix(), "");
    assert_eq!(ModuleType::Lab.prefix(), "Praktikum ");
    assert_eq!(ModuleType::Seminar { is_pro: true }.prefix(), "Proseminar ");
    assert_eq!(ModuleType::Seminar { is_pro: false }.prefix(), "Seminar ");
}

#[test]
fn speciality_index_round_trip() {
    for i in 0..12u8 {
        let s = Speciality::from_index(i).unwrap();
        assert_eq!(s.index(), i);
    }
    assert_eq!(Speciality::from_index(12), None);
    assert_eq!(Speciality::Telematics.index(), 6);
}

#[test]
fn plan_collects_remaining_then_placed_modules() {
    let mut s = semester(1, vec![SemesterDegree::Bachelor], 0, 10, SemesterType::Winter);
    s.modules.push(module("P", lecture(false), 4, Degree::Bachelor, &[]));
    let loose = vec![module("L", lecture(false), 6, Degree::Bachelor, &[])];
    let plan = Plan::from_semesters_with_modules(&[s], &loose).unwrap();
    let ids: Vec<&str> = plan.modules().iter().map(|m| m.identifier.as_str()).collect();
    assert_eq!(ids, vec!["L", "P"]);
    assert_eq!(plan.semesters().len(), 1);
    assert_eq!(plan.specialties(), [None, None]);
}

#[test]
fn root_lecture_with_wrong_weight_is_a_configuration_error() {
    let bad = vec![module("X", lecture(true), 10, Degree::Bachelor, &[])];
    let s = semester(1, vec![SemesterDegree::Bachelor], 0, 64, SemesterType::Winter);
    let r = Plan::from_semesters_with_modules(&[s], &bad);
    assert_eq!(
        r.unwrap_err(),
        ConfigurationError::InvalidRootWeight { identifier: "X".to_string() }
    );
}

#[test]
fn root_lecture_pinned_in_semester_with_wrong_weight_fails() {
    let mut s = semester(1, vec![SemesterDegree::Bachelor], 0, 64, SemesterType::Winter);
    s.modules.push(module("ROOT", lecture(true), 14, Degree::Bachelor, &[]));
    let r = Plan::from_semesters_with_modules(&[s], &[]);
    assert!(matches!(r, Err(ConfigurationError::InvalidRootWeight { .. })));
}

#[test]
fn check_basic_accepts_canonical_root_weight() {
    let ok = vec![module("R", lecture(true), 12, Degree::Bachelor, &[])];
    let plan = Plan::from_semesters_with_modules(&[], &ok).unwrap();
    assert_eq!(plan.check_basic(), Ok(()));
}

#[test]
fn unknown_requirement_is_a_configuration_error() {
    let mods = vec![module("A", lecture(false), 4, Degree::Bachelor, &["NOPE"])];
    let plan = Plan::from_semesters_with_modules(&[], &mods).unwrap();
    let err = compile(&plan).unwrap_err();
    assert_eq!(
        err,
        ConfigurationError::UnknownRequirement { module: "A".to_string(), requirement: "NOPE".to_string() }
    );
    assert!(Enumeration::new(plan).is_err());
}

#[test]
fn requirement_orders_semesters() {
    let both = vec![SemesterDegree::Bachelor];
    let semesters = vec![
        semester(1, both.clone(), 0, 64, SemesterType::Winter),
        semester(2, both, 0, 64, SemesterType::Summer),
    ];
    let mods = vec![
        module("A", lecture(false), 10, Degree::Bachelor, &[]),
        module("B", lecture(false), 10, Degree::Bachelor, &["A"]),
    ];
    let plan = Plan::from_semesters_with_modules(&semesters, &mods).unwrap();
    let rules = compile(&plan).unwrap();
    let order = find_rule(&rules, Label::RequirementOrder(1, 0));
    let usage = find_rule(&rules, Label::RequirementUsage(1, 0));
    let mk = |a: i64, b: i64, used_a: bool| Assignment {
        choices: vec![
            ModuleChoice { used: used_a, semester: a, degree: SemesterDegree::Bachelor, speciality: Speciality::Theoretics },
            ModuleChoice { used: true, semester: b, degree: SemesterDegree::Bachelor, speciality: Speciality::Theoretics },
        ],
        first: Speciality::Theoretics,
        second: Speciality::Algorithms,
    };
    assert!(order.formula.eval(&mk(0, 1, true)));
    assert!(!order.formula.eval(&mk(1, 0, true)));
    assert!(!order.formula.eval(&mk(0, 0, true)));
    assert!(usage.formula.eval(&mk(0, 1, true)));
    assert!(!usage.formula.eval(&mk(0, 1, false)));
}

#[test]
fn unreachable_bachelor_minimum_ends_at_first_check() {
    let mods = vec![module("A", lecture(true), 12, Degree::Bachelor, &[])];
    let s = vec![semester(1, vec![SemesterDegree::Bachelor], 0, 64, SemesterType::Winter)];
    let plan = Plan::from_semesters_with_modules(&s, &mods).unwrap();
    let rules = compile(&plan).unwrap();
    let model = Assignment {
        choices: vec![choice(0, SemesterDegree::Bachelor, Speciality::Theoretics)],
        first: Speciality::Theoretics,
        second: Speciality::Algorithms,
    };
    assert!(!find_rule(&rules, Label::BachelorMin).formula.eval(&model));
    let mut e = Enumeration::new(plan).unwrap();
    assert!(e.on_answer(OracleAnswer::Unsat).is_none());
    assert_eq!(e.outcome(), Outcome::Unsatisfiable);
    assert_eq!(e.found(), 0);
    assert!(e.into_solutions().is_empty());
}

#[test]
fn single_root_module_model_is_rejected_by_global_bounds() {
    let mut s0 = semester(1, vec![SemesterDegree::Bachelor], 0, 64, SemesterType::Winter);
    s0.modules.push(module("ROOT", lecture(true), 12, Degree::Bachelor, &[]));
    let s1 = semester(2, vec![SemesterDegree::Bachelor], 0, 64, SemesterType::Summer);
    let plan = Plan::from_semesters_with_modules(&[s0, s1], &[]).unwrap();
    let model = Assignment {
        choices: vec![choice(0, SemesterDegree::Bachelor, Speciality::Theoretics)],
        first: Speciality::Theoretics,
        second: Speciality::Algorithms,
    };
    let solution = extract(&plan, &model);
    let key = PlanModuleView(solution).get_module_set();
    assert_eq!(key.len(), 1);
    let mut e = Enumeration::new(plan).unwrap();
    assert!(e.on_answer(OracleAnswer::Sat(model)).is_none());
    assert_eq!(e.outcome(), Outcome::RejectedModel);
    assert_eq!(e.found(), 0);
}

#[test]
fn small_catalog_model_meets_every_rule() {
    let plan = small_catalog();
    let rules = compile(&plan).unwrap();
    assert!(all_hold(&rules, &small_model()));
    let mut wrong = small_model();
    wrong.second = Speciality::Theoretics;
    assert!(!find_rule(&rules, Label::DistinctSpecialities).formula.eval(&wrong));
    let mut early = small_model();
    early.choices[9].semester = 0;
    assert!(!find_rule(&rules, Label::RequirementOrder(9, 3)).formula.eval(&early));
}

#[test]
fn accepted_model_becomes_plan_and_is_blocked() {
    let mut e = Enumeration::new(small_catalog()).unwrap();
    let block = e.on_answer(OracleAnswer::Sat(small_model())).expect("accepted");
    assert_eq!(e.outcome(), Outcome::Searching);
    assert_eq!(e.found(), 1);
    assert!(!block.formula.eval(&small_model()));
    let mut other = small_model();
    other.choices[10].used = false;
    assert!(block.formula.eval(&other));
    let plan = &e.solutions()[0];
    assert_eq!(plan.specialties(), [Some(Speciality::Theoretics), Some(Speciality::Algorithms)]);
    let sems = plan.semesters();
    assert_eq!(sems[0].modules.len(), 10);
    assert_eq!(sems[1].modules.len(), 1);
    assert_eq!(sems[1].modules[0].identifier, "A1");
    assert_eq!(sems[1].modules[0].degree, Degree::Master(vec![Speciality::Algorithms]));
    assert_eq!(credits(&sems[0]), 276 + 12 + 6 + 48 + 24 + 12 + 40);
    for s in sems {
        assert!(s.ects.start <= credits(s) && credits(s) <= s.ects.end);
    }
    assert!(e.on_answer(OracleAnswer::Sat(small_model())).is_none());
    assert_eq!(e.outcome(), Outcome::RejectedModel);
    assert_eq!(e.found(), 1);
}

#[test]
fn unsat_after_solutions_is_exhaustion() {
    let mut e = Enumeration::new(small_catalog()).unwrap();
    e.on_answer(OracleAnswer::Sat(small_model())).unwrap();
    assert!(e.on_answer(OracleAnswer::Unsat).is_none());
    assert_eq!(e.outcome(), Outcome::Exhausted);
    assert_eq!(e.into_solutions().len(), 1);
}

#[test]
fn unknown_answer_stops_and_keeps_plans() {
    let mut e = Enumeration::new(small_catalog()).unwrap();
    e.on_answer(OracleAnswer::Sat(small_model())).unwrap();
    assert!(e.on_answer(OracleAnswer::Unknown).is_none());
    assert_eq!(e.outcome(), Outcome::Undecided);
    assert_eq!(e.found(), 1);
    assert!(e.on_answer(OracleAnswer::Sat(small_model())).is_none());
    assert_eq!(e.outcome(), Outcome::Undecided);
}

#[test]
fn cancel_keeps_plans() {
    let mut e = Enumeration::new(small_catalog()).unwrap();
    e.on_answer(OracleAnswer::Sat(small_model())).unwrap();
    e.cancel();
    assert_eq!(e.outcome(), Outcome::Cancelled);
    assert_eq!(e.found(), 1);
    assert!(e.on_answer(OracleAnswer::Unsat).is_none());
    assert_eq!(e.outcome(), Outcome::Cancelled);
}

#[test]
fn model_of_wrong_length_is_rejected() {
    let mut e = Enumeration::new(small_catalog()).unwrap();
    let mut m = small_model();
    m.choices.pop();
    assert!(e.on_answer(OracleAnswer::Sat(m)).is_none());
    assert_eq!(e.outcome(), Outcome::RejectedModel);
}

#[test]
fn master_credit_bound_discounts_missing_lab_and_seminar_credits() {
    // lab and seminar credits reach the ceiling: nothing is taken off
    let plan = small_catalog();
    let rules = compile(&plan).unwrap();
    let max = find_rule(&rules, Label::MasterMax);
    let counted = find_rule(&rules, Label::MasterMinCounted);
    assert!(max.formula.eval(&small_model()));
    assert!(counted.formula.eval(&small_model()));
    // dropping the seminar leaves 24 of 36: 12 are taken off 152, below the minimum
    let mut m = small_model();
    m.choices[8].used = false;
    assert!(!counted.formula.eval(&m));
    assert!(!find_rule(&rules, Label::MasterMin).formula.eval(&m));
}

#[test]
fn applied_speciality_has_lower_floor() {
    let f = Formula::Or(
        Box::new(Formula::AtLeast(vec![], 1)),
        Box::new(Formula::Lit(Lit { atom: Atom::ChoiceIs(0, Speciality::Telematics), positive: true })),
    );
    let m = Assignment { choices: vec![], first: Speciality::Telematics, second: Speciality::Algorithms };
    assert!(f.eval(&m));
    let m2 = Assignment { choices: vec![], first: Speciality::Algorithms, second: Speciality::Telematics };
    assert!(!f.eval(&m2));
}

#[test]
fn formula_sums_weights_of_terms_whose_literals_hold() {
    let any = Lit { atom: Atom::True, positive: true };
    let used = |i: usize, positive: bool| Lit { atom: Atom::Used(i), positive };
    let terms = vec![
        Term { first: used(0, true), second: any, third: any, weight: 5 },
        Term { first: used(1, true), second: any, third: any, weight: 7 },
        Term { first: used(1, false), second: any, third: any, weight: 100 },
    ];
    let m = Assignment {
        choices: vec![
            ModuleChoice { used: true, semester: 0, degree: SemesterDegree::Bachelor, speciality: Speciality::Security },
            ModuleChoice { used: true, semester: 0, degree: SemesterDegree::Master, speciality: Speciality::Security },
        ],
        first: Speciality::Security,
        second: Speciality::Robotics,
    };
    assert!(Formula::AtLeast(terms.clone(), 12).eval(&m));
    assert!(!Formula::AtLeast(terms.clone(), 13).eval(&m));
    assert!(Formula::AtMost(terms.clone(), 12).eval(&m));
    assert!(!Formula::AtMost(terms, 11).eval(&m));
}

#[test]
fn dedupe_merges_placement_only_differences() {
    let plan = small_catalog();
    let a = extract(&plan, &small_model());
    let mut moved = small_model();
    moved.choices[10].semester = 1;
    let b = extract(&plan, &moved);
    let out = dedupe(&vec![a, b]);
    assert_eq!(out.len(), 1);
    assert_eq!(out[0].semesters()[1].modules.len(), 1);
}

#[test]
fn dedupe_keeps_degree_differences() {
    let plan = small_catalog();
    let a = extract(&plan, &small_model());
    let mut other = small_model();
    other.choices[10].speciality = Speciality::Algorithms;
    let b = extract(&plan, &other);
    let mut bachelor = small_model();
    bachelor.choices[10].degree = SemesterDegree::Bachelor;
    let c = extract(&plan, &bachelor);
    let out = dedupe(&vec![a, b, c]);
    assert_eq!(out.len(), 3);
}

#[test]
fn dedupe_is_idempotent_and_sorted() {
    let plan = small_catalog();
    let mut models = vec![];
    for (i, s) in [Speciality::Theoretics, Speciality::Algorithms, Speciality::Theoretics].iter().enumerate() {
        let mut m = small_model();
        m.choices[10].speciality = *s;
        m.choices[10].semester = (i % 2) as i64;
        models.push(m);
    }
    let plans: Vec<Plan> = models.iter().map(|m| extract(&plan, m)).collect();
    let once = dedupe(&plans);
    assert_eq!(once.len(), 2);
    let twice = dedupe(&once);
    assert_eq!(twice.len(), once.len());
    for (x, y) in once.iter().zip(twice.iter()) {
        assert_eq!(
            PlanModuleView(x.duplicate()).get_module_set(),
            PlanModuleView(y.duplicate()).get_module_set()
        );
    }
    let k0 = PlanModuleView(once[0].duplicate()).get_module_set();
    let k1 = PlanModuleView(once[1].duplicate()).get_module_set();
    assert!(k0 < k1);
}

#[test]
fn module_set_is_sorted_by_identifier() {
    let plan = small_catalog();
    let key = PlanModuleView(extract(&plan, &small_model())).get_module_set();
    assert_eq!(key.len(), 11);
    for w in key.windows(2) {
        assert!(w[0] < w[1]);
    }
    // "A1" comes first: 'A' + 1 = 66, '1' + 1 = 50, then the separator
    assert_eq!(&key[0][..3], &[66, 50, 0]);
}

#[test]
fn catalog_builds_and_compiles() {
    let first = get_bachelor_semester_1();
    assert_eq!(first.modules.len(), 4);
    assert_eq!(first.ects, 40..58);
    assert_eq!(get_master_semester_4().number, 11);
    let semesters = catalog_semesters();
    assert_eq!(semesters.len(), 11);
    let modules = elective_modules();
    assert_eq!(modules.len(), 30);
    let plan = Plan::from_semesters_with_modules(&semesters, &modules).unwrap();
    assert_eq!(plan.modules().len(), 30 + 4 + 5 + 5 + 5 + 4 + 1);
    let rules = compile(&plan).unwrap();
    assert!(rules.len() > 0);
    let e = Enumeration::new(plan).unwrap();
    assert_eq!(e.rules().len(), rules.len());
    assert_eq!(e.outcome(), Outcome::Searching);
}

#[test]
fn all_forced_catalog_allows_one_pattern() {
    let base = small_catalog();
    let modules: Vec<Module> = base
        .modules()
        .iter()
        .map(|m| {
            let mut m = m.duplicate();
            m.force = true;
            m
        })
        .collect();
    let both = vec![SemesterDegree::Bachelor, SemesterDegree::Master];
    let semesters = vec![
        semester(1, both.clone(), 0, 1000, SemesterType::Winter),
        semester(2, both, 0, 1000, SemesterType::Summer),
    ];
    let plan = Plan::from_semesters_with_modules(&semesters, &modules).unwrap();
    let mut e = Enumeration::new(plan).unwrap();
    assert!(e.on_answer(OracleAnswer::Sat(small_model())).is_some());
    let mut other = small_model();
    other.choices[10].used = false;
    assert!(e.on_answer(OracleAnswer::Sat(other)).is_none());
    assert_eq!(e.outcome(), Outcome::RejectedModel);
    assert_eq!(e.found(), 1);
}

#[test]
fn found_plan_keeps_required_module_earlier() {
    let mut e = Enumeration::new(small_catalog()).unwrap();
    e.on_answer(OracleAnswer::Sat(small_model())).unwrap();
    let sems = e.solutions()[0].semesters();
    assert!(sems[1].modules.iter().any(|m| m.identifier == "A1"));
    assert!(sems[0].modules.iter().any(|m| m.identifier == "R1"));
    assert!(!sems[1].modules.iter().any(|m| m.identifier == "R1"));
}

#[test]
fn plan_views_compare_by_canonical_key() {
    let plan = small_catalog();
    let a = PlanModuleView(extract(&plan, &small_model()));
    let mut moved = small_model();
    moved.choices[10].semester = 1;
    let b = PlanModuleView(extract(&plan, &moved));
    assert!(a == b);
    let mut other = small_model();
    other.choices[10].speciality = Speciality::Algorithms;
    let c = PlanModuleView(extract(&plan, &other));
    assert!(a != c);
    assert!(a < c);
    assert_eq!(c.partial_cmp(&a), Some(std::cmp::Ordering::Greater));
}

/// Two semesters, Winter for the Bachelor and Summer for the Master; module
/// 0 is a loose Winter-only module, module 1 is placed in the second semester.
fn seasonal_plan() -> Plan {
    let mut winter_only = module("W", lecture(false), 10, Degree::Bachelor, &[]);
    winter_only.semesters = vec![SemesterType::Winter];
    let mut s1 = semester(2, vec![SemesterDegree::Master], 0, 20, SemesterType::Summer);
    s1.modules.push(module("P", lecture(false), 8, master(&[Speciality::Security]), &[]));
    let s0 = semester(1, vec![SemesterDegree::Bachelor], 5, 12, SemesterType::Winter);
    Plan::from_semesters_with_modules(&[s0, s1], &[winter_only]).unwrap()
}

fn seasonal_model(w_semester: i64, p_degree: SemesterDegree, p_semester: i64) -> Assignment {
    Assignment {
        choices: vec![
            choice(w_semester, SemesterDegree::Bachelor, Speciality::Security),
            choice(p_semester, p_degree, Speciality::Security),
        ],
        first: Speciality::Security,
        second: Speciality::Robotics,
    }
}

#[test]
fn season_rule_binds_module_to_its_season() {
    let rules = compile(&seasonal_plan()).unwrap();
    let season = find_rule(&rules, Label::Season(0));
    assert!(season.formula.eval(&seasonal_model(0, SemesterDegree::Master, 1)));
    assert!(!season.formula.eval(&seasonal_model(1, SemesterDegree::Master, 1)));
    assert!(rules.iter().all(|r| r.label != Label::Season(1)));
}

#[test]
fn phase_rule_matches_degree_of_selected_modules() {
    let rules = compile(&seasonal_plan()).unwrap();
    let phase = find_rule(&rules, Label::Phase(1, 1));
    assert!(phase.formula.eval(&seasonal_model(0, SemesterDegree::Master, 1)));
    assert!(!phase.formula.eval(&seasonal_model(0, SemesterDegree::Bachelor, 1)));
    let mut unused = seasonal_model(0, SemesterDegree::Bachelor, 1);
    unused.choices[1].used = false;
    assert!(phase.formula.eval(&unused));
}

#[test]
fn placed_module_is_pinned_and_selected() {
    let rules = compile(&seasonal_plan()).unwrap();
    let pinned = find_rule(&rules, Label::PinnedSemester(1, 1));
    let used = find_rule(&rules, Label::PinnedUsed(1, 1));
    assert!(pinned.formula.eval(&seasonal_model(0, SemesterDegree::Master, 1)));
    assert!(!pinned.formula.eval(&seasonal_model(0, SemesterDegree::Master, 0)));
    let mut m = seasonal_model(0, SemesterDegree::Master, 1);
    assert!(used.formula.eval(&m));
    m.choices[1].used = false;
    assert!(!used.formula.eval(&m));
    assert!(rules.iter().all(|r| r.label != Label::PinnedSemester(0, 0)));
}

#[test]
fn load_rules_bound_each_semester() {
    let rules = compile(&seasonal_plan()).unwrap();
    let min = find_rule(&rules, Label::LoadMin(0));
    let max = find_rule(&rules, Label::LoadMax(0));
    // module 0 weighs 10, within 5..=12 when it sits in semester 0
    let m = seasonal_model(0, SemesterDegree::Master, 1);
    assert!(min.formula.eval(&m) && max.formula.eval(&m));
    // both modules in semester 0 weigh 18, above 12
    let heavy = seasonal_model(0, SemesterDegree::Master, 0);
    assert!(!max.formula.eval(&heavy));
    // an empty semester 0 weighs 0, below 5
    let empty = seasonal_model(1, SemesterDegree::Master, 1);
    assert!(!min.formula.eval(&empty));
}

#[test]
fn semester_index_must_lie_in_the_sequence() {
    let rules = compile(&seasonal_plan()).unwrap();
    let low = find_rule(&rules, Label::SemesterNonNegative(0));
    let high = find_rule(&rules, Label::SemesterBelowCount(0));
    assert!(!low.formula.eval(&seasonal_model(-1, SemesterDegree::Master, 1)));
    assert!(!high.formula.eval(&seasonal_model(2, SemesterDegree::Master, 1)));
    assert!(high.formula.eval(&seasonal_model(1, SemesterDegree::Master, 1)));
}

#[test]
fn bachelor_semester_two_holds_its_modules() {
    let s = get_bachelor_semester_2();
    assert_eq!(s.number, 2);
    assert_eq!(s.degrees, vec![SemesterDegree::Bachelor]);
    assert_eq!(s.semester_type, SemesterType::Summer);
    assert_eq!(s.ects, 50..58);
    let ids: Vec<&str> = s.modules.iter().map(|m| m.identifier.as_str()).collect();
    assert_eq!(ids, vec!["M-INFO-100030", "M-INFO-101175", "24007", "T-MATH-102233", "T-MATH-102241"]);
    let weights: Vec<i32> = s.modules.iter().map(|m| m.half_ects).collect();
    assert_eq!(weights, vec![12, 12, 12, 12, 10]);
    assert_eq!(credits(&s), 58);
    let reqs: Vec<Vec<String>> = s.modules.iter().map(|m| m.requirements.clone()).collect();
    assert_eq!(
        reqs,
        vec![
            vec!["M-INFO-101170".to_string()],
            vec!["M-INFO-101174".to_string()],
            vec![],
            vec![],
            vec!["T-MATH-103215".to_string()],
        ]
    );
    for m in &s.modules {
        assert_eq!(m.module_type, ModuleType::Lecture { is_root: false });
        assert_eq!(m.degree, Degree::Bachelor);
        assert_eq!(m.semesters, vec![SemesterType::Summer]);
        assert!(!m.force);
    }
}

#[test]
fn bachelor_semester_five_serves_both_phases() {
    let s = get_bachelor_semester_5();
    assert_eq!(s.degrees, vec![SemesterDegree::Bachelor, SemesterDegree::Master]);
    assert_eq!(s.ects, 36..44);
    assert_eq!(credits(&s), 40);
    let pro = s.modules.iter().find(|m| m.identifier == "proseminar").unwrap();
    assert_eq!(pro.module_type, ModuleType::Seminar { is_pro: true });
    assert_eq!(pro.semesters, vec![SemesterType::Winter, SemesterType::Summer]);
    let root = s.modules.iter().find(|m| m.identifier == "M-INFO-100799").unwrap();
    assert_eq!(root.module_type, ModuleType::Lecture { is_root: true });
    assert_eq!(root.half_ects, 12);
}

#[test]
fn bachelor_semester_six_and_master_phases() {
    let s = get_bachelor_semester_6();
    assert_eq!(s.modules.len(), 1);
    let m = &s.modules[0];
    assert_eq!(m.name, "AlgoPG");
    assert_eq!(m.identifier, "M-INFO-101220");
    assert_eq!(m.requirements, vec!["M-INFO-100030".to_string(), "M-INFO-101172".to_string()]);
    let master = get_master_semester_1();
    assert_eq!(master.degrees, vec![SemesterDegree::Master]);
    assert_eq!(master.number, 8);
    assert_eq!(master.semester_type, SemesterType::Summer);
    assert_eq!(master.ects, 36..64);
}

#[test]
fn semester_and_plan_clone_keep_their_contents() {
    let s = get_bachelor_semester_1();
    let c = s.clone();
    assert_eq!(c.modules, s.modules);
    assert_eq!(c.ects, s.ects);
    let plan = small_catalog();
    let p = plan.clone();
    assert_eq!(p.modules(), plan.modules());
    assert_eq!(p.semesters().len(), plan.semesters().len());
}

#[test]
fn degrees_order_bachelor_first() {
    assert!(Degree::Bachelor < Degree::Master(vec![Speciality::Theoretics]));
    assert!(Degree::Master(vec![Speciality::Theoretics]) < Degree::Master(vec![Speciality::Algorithms]));
}
