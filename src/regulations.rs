//! The degree regulations, stated over a catalog and an assignment.
use crate::constraint::{choice_of, Assignment, ModuleChoice};
use crate::model::{
    DegreeView, ModuleView, PlanView, SemesterDegree, SemesterType, SemesterView,
    Speciality,
};
use vstd::prelude::*;

verus! {

/// Least Bachelor credit sum, in half ECTS.
pub const BACHELOR_MIN: i64 = 294;
/// Greatest Bachelor credit sum, in half ECTS.
pub const BACHELOR_MAX: i64 = 302;
/// Least counted Master credit sum, in half ECTS.
pub const MASTER_MIN: i64 = 158;
/// Greatest counted Master credit sum, in half ECTS.
pub const MASTER_MAX: i64 = 166;
/// Lab and seminar credits below this ceiling are taken off the Master sum.
pub const LAB_SEMINAR_CEILING: i64 = 36;
pub const MASTER_LAB_MIN: i64 = 12;
pub const MASTER_SEMINAR_MIN: i64 = 6;
pub const MASTER_LAB_SEMINAR_MIN: i64 = 6;
pub const BACHELOR_ROOT_MIN: i64 = 1;
pub const MASTER_ROOT_MIN: i64 = 4;
/// Least Master credits for each chosen speciality.
pub const SPECIALITY_MIN: i64 = 30;
/// Least Master credits for a chosen speciality, root lectures left out.
pub const SPECIALITY_NO_ROOT_MIN: i64 = 20;
/// The same floor for the applied track.
pub const APPLIED_NO_ROOT_MIN: i64 = 16;
/// The speciality whose floor without root lectures is the lower one.
pub const APPLIED_SPECIALITY: Speciality = Speciality::Telematics;

/// A quantity summed over the modules of an assignment.
#[derive(Clone, Copy, Debug, PartialEq, Eq, Structural)]
pub enum Tally {
    /// Credits selected into the semester with this index.
    Load(i64),
    BachelorCredits,
    MasterCredits,
    /// Master credits with lab and seminar credits counted twice.
    MasterCreditsLabSeminarTwice,
    MasterLabCredits,
    MasterSeminarCredits,
    MasterLabSeminarCredits,
    BachelorRoots,
    MasterRoots,
    IntroductorySeminars,
    /// Master credits in the first (0) or second (1) chosen speciality;
    /// root lectures count only when the flag is set.
    SpecialityCredits(usize, bool),
}

pub open spec fn sum_over(n: int, f: spec_fn(int) -> int) -> int
    decreases n,
{
    if n <= 0 {
        0
    } else {
        sum_over(n - 1, f) + f(n - 1)
    }
}

/// What one module adds to a tally under its choice.
pub open spec fn contribution(mv: ModuleView, c: ModuleChoice, m: Assignment, t: Tally) -> int {
    let w = mv.half_ects;
    let bachelor = c.degree == SemesterDegree::Bachelor;
    let ty = mv.module_type;
    if !c.used {
        0
    } else {
        match t {
            Tally::Load(s) => if c.semester == s { w } else { 0 },
            Tally::BachelorCredits => if bachelor { w } else { 0 },
            Tally::MasterCredits => if !bachelor { w } else { 0 },
            Tally::MasterCreditsLabSeminarTwice => if bachelor {
                0
            } else if ty.is_lab() || ty.is_seminar() {
                2 * w
            } else {
                w
            },
            Tally::MasterLabCredits => if !bachelor && ty.is_lab() { w } else { 0 },
            Tally::MasterSeminarCredits => if !bachelor && ty.is_seminar() { w } else { 0 },
            Tally::MasterLabSeminarCredits => if !bachelor && (ty.is_lab() || ty.is_seminar()) {
                w
            } else {
                0
            },
            Tally::BachelorRoots => if bachelor && ty.is_root_lecture() { 1 } else { 0 },
            Tally::MasterRoots => if !bachelor && ty.is_root_lecture() { 1 } else { 0 },
            Tally::IntroductorySeminars => if bachelor && ty.is_pro_seminar() { 1 } else { 0 },
            Tally::SpecialityCredits(k, roots) => if !bachelor && c.speciality == choice_of(m, k)
                && (roots || !ty.is_root_lecture()) {
                w
            } else {
                0
            },
        }
    }
}

/// The tally over all modules of the catalog.
pub open spec fn tally(p: PlanView, m: Assignment, t: Tally) -> int {
    sum_over(p.modules.len() as int, |i: int| contribution(p.modules[i], m.choices@[i], m, t))
}

/// Master credits less the lab and seminar credits missing to the ceiling.
pub open spec fn counted_master_credits(p: PlanView, m: Assignment) -> int {
    let missing = LAB_SEMINAR_CEILING - tally(p, m, Tally::MasterLabSeminarCredits);
    tally(p, m, Tally::MasterCredits) - if missing > 0 { missing } else { 0 }
}

pub open spec fn speciality_floor(s: Speciality) -> int {
    if s == APPLIED_SPECIALITY {
        APPLIED_NO_ROOT_MIN as int
    } else {
        SPECIALITY_NO_ROOT_MIN as int
    }
}

/// The rules that concern one module alone.
pub open spec fn module_ok(mv: ModuleView, c: ModuleChoice, semester_count: int) -> bool {
    &&& mv.degree matches DegreeView::Bachelor ==> c.degree == SemesterDegree::Bachelor
    &&& mv.degree matches DegreeView::Master(s) ==> s.len() > 0 ==> s.contains(c.speciality)
    &&& mv.force ==> c.used
    &&& 0 <= c.semester < semester_count
}

pub open spec fn module_rules(p: PlanView, m: Assignment) -> bool {
    forall|i: int|
        0 <= i < p.modules.len() ==> module_ok(
            p.modules[i],
            #[trigger] m.choices@[i],
            p.semesters.len() as int,
        )
}

/// The semester lists a module with this identifier.
pub open spec fn places(s: SemesterView, id: Seq<char>) -> bool {
    exists|q: int| 0 <= q < s.modules.len() && #[trigger] s.modules[q].identifier == id
}

/// A module placed in a semester of the catalog is selected, in that semester.
pub open spec fn pin_rules(p: PlanView, m: Assignment) -> bool {
    forall|i: int, k: int|
        0 <= i < p.modules.len() && 0 <= k < p.semesters.len() && places(
            #[trigger] p.semesters[k],
            #[trigger] p.modules[i].identifier,
        ) ==> m.choices@[i].used && m.choices@[i].semester == k
}

/// Each semester's load lies in its range.
pub open spec fn load_rules(p: PlanView, m: Assignment) -> bool {
    forall|k: int|
        0 <= k < p.semesters.len() ==> p.semesters[k].min_load <= #[trigger] tally(
            p,
            m,
            Tally::Load(k as i64),
        ) <= p.semesters[k].max_load
}

pub open spec fn total_rules(p: PlanView, m: Assignment) -> bool {
    &&& BACHELOR_MIN <= tally(p, m, Tally::BachelorCredits) <= BACHELOR_MAX
    &&& MASTER_MIN <= counted_master_credits(p, m) <= MASTER_MAX
    &&& tally(p, m, Tally::BachelorRoots) >= BACHELOR_ROOT_MIN
    &&& tally(p, m, Tally::MasterRoots) >= MASTER_ROOT_MIN
    &&& tally(p, m, Tally::MasterLabCredits) >= MASTER_LAB_MIN
    &&& tally(p, m, Tally::MasterSeminarCredits) >= MASTER_SEMINAR_MIN
    &&& tally(p, m, Tally::MasterLabSeminarCredits) >= MASTER_LAB_SEMINAR_MIN
}

/// Module `j` is one that module `i` requires.
pub open spec fn requires_module(p: PlanView, i: int, j: int) -> bool {
    exists|q: int|
        0 <= q < p.modules[i].requirements.len() && #[trigger] p.modules[i].requirements[q]
            == p.modules[j].identifier
}

/// A required module comes in an earlier semester, and is selected when the
/// module that requires it is.
pub open spec fn requirement_rules(p: PlanView, m: Assignment) -> bool {
    forall|i: int, j: int|
        0 <= i < p.modules.len() && 0 <= j < p.modules.len() && #[trigger] requires_module(p, i, j)
            ==> m.choices@[j].semester < m.choices@[i].semester && (m.choices@[i].used
            ==> m.choices@[j].used)
}

/// Some introductory seminar is selected for the Bachelor.
pub open spec fn introductory_rule(p: PlanView, m: Assignment) -> bool {
    exists|i: int|
        0 <= i < p.modules.len() && p.modules[i].module_type.is_pro_seminar() && (
        #[trigger] m.choices@[i]).used && m.choices@[i].degree == SemesterDegree::Bachelor
}

/// The one season a module is offered in, if it is bound to one.
pub open spec fn bound_season(mv: ModuleView) -> Option<SemesterType> {
    if mv.semesters.len() == 1 && mv.semesters[0] != SemesterType::Unknown {
        Some(mv.semesters[0])
    } else {
        None
    }
}

/// A module bound to a season lies in a semester of that season.
pub open spec fn season_ok(p: PlanView, m: Assignment, i: int) -> bool {
    bound_season(p.modules[i]) matches Some(season) ==> exists|k: int|
        0 <= k < p.semesters.len() && #[trigger] p.semesters[k].semester_type == season
            && m.choices@[i].semester == k
}

pub open spec fn season_rules(p: PlanView, m: Assignment) -> bool {
    forall|i: int| 0 <= i < p.modules.len() ==> #[trigger] season_ok(p, m, i)
}

/// The one degree phase a semester serves, if it serves one alone.
pub open spec fn sole_phase(s: SemesterView) -> Option<SemesterDegree> {
    if s.degrees.len() == 1 {
        Some(s.degrees[0])
    } else {
        None
    }
}

/// A module selected into a semester of one phase is counted in that phase.
pub open spec fn phase_rules(p: PlanView, m: Assignment) -> bool {
    forall|k: int, i: int|
        0 <= k < p.semesters.len() && 0 <= i < p.modules.len() && #[trigger] sole_phase(
            p.semesters[k],
        ) is Some && (#[trigger] m.choices@[i]).used && m.choices@[i].semester == k ==> Some(
            m.choices@[i].degree,
        ) == sole_phase(p.semesters[k])
}

/// The chosen speciality `k` has enough Master credits, with and without
/// root lectures.
pub open spec fn speciality_ok(p: PlanView, m: Assignment, k: usize) -> bool {
    &&& tally(p, m, Tally::SpecialityCredits(k, true)) >= SPECIALITY_MIN
    &&& tally(p, m, Tally::SpecialityCredits(k, false)) >= speciality_floor(choice_of(m, k))
}

/// Two distinct specialities, each with enough Master credits.
pub open spec fn speciality_rules(p: PlanView, m: Assignment) -> bool {
    &&& m.first != m.second
    &&& speciality_ok(p, m, 0)
    &&& speciality_ok(p, m, 1)
}

/// The assignment gives every module of the catalog a choice and meets
/// every regulation.
pub open spec fn regulations(p: PlanView, m: Assignment) -> bool {
    &&& m.choices@.len() == p.modules.len()
    &&& module_rules(p, m)
    &&& pin_rules(p, m)
    &&& load_rules(p, m)
    &&& total_rules(p, m)
    &&& requirement_rules(p, m)
    &&& introductory_rule(p, m)
    &&& season_rules(p, m)
    &&& phase_rules(p, m)
    &&& speciality_rules(p, m)
}

} // verus!
