//! The catalog: modules, semesters and the plan that holds them.
use vstd::prelude::*;

verus! {

/// A specialisation track that a Master module may count towards.
#[derive(Clone, Copy, Debug, PartialEq, Eq, Structural, Hash, PartialOrd, Ord)]
pub enum Speciality {
    Theoretics,
    Algorithms,
    Security,
    Parallelism,
    SoftwareEngineering,
    Embedded,
    Telematics,
    InformationSystems,
    ComputerGraphics,
    Robotics,
    AiOverlords,
    SystemArchitecture,
}

/// Number of specialities; `Speciality::index` ranges below it.
pub const SPECIALITY_COUNT: u8 = 12;

impl Speciality {
    /// Position of the speciality in declaration order.
    pub open spec fn spec_index(self) -> nat {
        match self {
            Speciality::Theoretics => 0,
            Speciality::Algorithms => 1,
            Speciality::Security => 2,
            Speciality::Parallelism => 3,
            Speciality::SoftwareEngineering => 4,
            Speciality::Embedded => 5,
            Speciality::Telematics => 6,
            Speciality::InformationSystems => 7,
            Speciality::ComputerGraphics => 8,
            Speciality::Robotics => 9,
            Speciality::AiOverlords => 10,
            Speciality::SystemArchitecture => 11,
        }
    }

    pub fn index(&self) -> (r: u8)
        ensures
            r as nat == self.spec_index(),
            r < SPECIALITY_COUNT,
    {
        match self {
            Speciality::Theoretics => 0,
            Speciality::Algorithms => 1,
            Speciality::Security => 2,
            Speciality::Parallelism => 3,
            Speciality::SoftwareEngineering => 4,
            Speciality::Embedded => 5,
            Speciality::Telematics => 6,
            Speciality::InformationSystems => 7,
            Speciality::ComputerGraphics => 8,
            Speciality::Robotics => 9,
            Speciality::AiOverlords => 10,
            Speciality::SystemArchitecture => 11,
        }
    }

    /// The speciality at position `i` in declaration order, if there is one.
    pub fn from_index(i: u8) -> (r: Option<Speciality>)
        ensures
            i < SPECIALITY_COUNT <==> r.is_some(),
            r matches Some(s) ==> s.spec_index() == i as nat,
    {
        match i {
            0 => Some(Speciality::Theoretics),
            1 => Some(Speciality::Algorithms),
            2 => Some(Speciality::Security),
            3 => Some(Speciality::Parallelism),
            4 => Some(Speciality::SoftwareEngineering),
            5 => Some(Speciality::Embedded),
            6 => Some(Speciality::Telematics),
            7 => Some(Speciality::InformationSystems),
            8 => Some(Speciality::ComputerGraphics),
            9 => Some(Speciality::Robotics),
            10 => Some(Speciality::AiOverlords),
            11 => Some(Speciality::SystemArchitecture),
            _ => None,
        }
    }
}

/// The degree a module belongs to; a Master module lists its specialities.
#[derive(Clone, Debug, PartialEq, Eq, Hash, PartialOrd, Ord)]
pub enum Degree {
    Bachelor,
    Master(Vec<Speciality>),
}

pub enum DegreeView {
    Bachelor,
    Master(Seq<Speciality>),
}

impl View for Degree {
    type V = DegreeView;

    open spec fn view(&self) -> DegreeView {
        match self {
            Degree::Bachelor => DegreeView::Bachelor,
            Degree::Master(s) => DegreeView::Master(s@),
        }
    }
}

/// The degree phase a semester may serve, or a module may be counted in.
#[derive(Clone, Copy, Debug, PartialEq, Eq, Structural, Hash)]
pub enum SemesterDegree {
    Bachelor,
    Master,
}

/// The season of a semester; `Unknown` on a module means "any season".
#[derive(Clone, Copy, Debug, PartialEq, Eq, Structural, Hash, PartialOrd, Ord)]
pub enum SemesterType {
    Summer,
    Winter,
    Unknown,
}

#[derive(Clone, Copy, Debug, PartialEq, Eq, Structural, Hash, PartialOrd, Ord)]
pub enum ModuleType {
    Lecture { is_root: bool },
    Lab,
    Seminar { is_pro: bool },
}

/// Credit weight, in half ECTS, that every root lecture carries.
pub const ROOT_MODULE_HALF_ECTS: i32 = 12;

impl ModuleType {
    pub open spec fn is_root_lecture(self) -> bool {
        self matches ModuleType::Lecture { is_root: true }
    }

    pub open spec fn is_lab(self) -> bool {
        self matches ModuleType::Lab
    }

    pub open spec fn is_seminar(self) -> bool {
        self matches ModuleType::Seminar { .. }
    }

    pub open spec fn is_pro_seminar(self) -> bool {
        self matches ModuleType::Seminar { is_pro: true }
    }

    pub open spec fn spec_prefix(self) -> Seq<char> {
        match self {
            ModuleType::Lecture { .. } => seq![],
            ModuleType::Lab => "Praktikum "@,
            ModuleType::Seminar { is_pro: true } => "Proseminar "@,
            ModuleType::Seminar { is_pro: false } => "Seminar "@,
        }
    }

    /// The word put before a module's name when it is listed.
    pub fn prefix(&self) -> (r: &'static str)
        ensures
            r@ == self.spec_prefix(),
    {
        proof {
            reveal_strlit("Praktikum ");
            reveal_strlit("Proseminar ");
            reveal_strlit("Seminar ");
            reveal_strlit("");
        }
        match self {
            ModuleType::Lecture { is_root: _ } => "",
            ModuleType::Lab => "Praktikum ",
            ModuleType::Seminar { is_pro: true } => "Proseminar ",
            ModuleType::Seminar { is_pro: false } => "Seminar ",
        }
    }
}


/// A module of the catalog; `half_ects` is its weight in half ECTS.
#[derive(Clone, Debug, PartialEq, Eq, Hash, PartialOrd, Ord)]
pub struct Module {
    pub module_type: ModuleType,
    pub half_ects: i32,
    pub degree: Degree,
    pub name: String,
    pub identifier: String,
    pub requirements: Vec<String>,
    pub semesters: Vec<SemesterType>,
    pub force: bool,
}

pub struct ModuleView {
    pub module_type: ModuleType,
    pub half_ects: int,
    pub degree: DegreeView,
    pub name: Seq<char>,
    pub identifier: Seq<char>,
    pub requirements: Seq<Seq<char>>,
    pub semesters: Seq<SemesterType>,
    pub force: bool,
}

impl View for Module {
    type V = ModuleView;

    open spec fn view(&self) -> ModuleView {
        ModuleView {
            module_type: self.module_type,
            half_ects: self.half_ects as int,
            degree: self.degree@,
            name: self.name@,
            identifier: self.identifier@,
            requirements: self.requirements@.map_values(|r: String| r@),
            semesters: self.semesters@,
            force: self.force,
        }
    }
}

impl ModuleView {
    /// A root lecture must weigh exactly the canonical root credit weight.
    pub open spec fn root_weight_ok(self) -> bool {
        self.module_type.is_root_lecture() ==> self.half_ects == ROOT_MODULE_HALF_ECTS as int
    }
}

/// A semester of the sequence; `ects` is the admissible load in half ECTS,
/// both ends included.
#[derive(Debug, Hash)]
pub struct Semester {
    pub number: i32,
    pub degrees: Vec<SemesterDegree>,
    pub ects: std::ops::Range<i32>,
    pub modules: Vec<Module>,
    pub semester_type: SemesterType,
}

pub struct SemesterView {
    pub number: int,
    pub degrees: Seq<SemesterDegree>,
    pub min_load: int,
    pub max_load: int,
    pub modules: Seq<ModuleView>,
    pub semester_type: SemesterType,
}

impl View for Semester {
    type V = SemesterView;

    open spec fn view(&self) -> SemesterView {
        SemesterView {
            number: self.number as int,
            degrees: self.degrees@,
            min_load: self.ects.start as int,
            max_load: self.ects.end as int,
            modules: self.modules@.map_values(|m: Module| m@),
            semester_type: self.semester_type,
        }
    }
}

pub fn copy_strings(v: &Vec<String>) -> (r: Vec<String>)
    ensures
        r@.map_values(|s: String| s@) == v@.map_values(|s: String| s@),
{
    let mut r: Vec<String> = Vec::new();
    let mut i: usize = 0;
    while i < v.len()
        invariant
            i <= v.len(),
            r@.len() == i,
            forall|j: int| 0 <= j < i ==> r@[j]@ == v@[j]@,
        decreases v.len() - i,
    {
        r.push(v[i].clone());
        i = i + 1;
    }
    assert(r@.map_values(|s: String| s@) =~= v@.map_values(|s: String| s@));
    r
}

pub fn copy_items<T: Copy>(v: &Vec<T>) -> (r: Vec<T>)
    ensures
        r@ == v@,
{
    let mut r: Vec<T> = Vec::new();
    let mut i: usize = 0;
    while i < v.len()
        invariant
            i <= v.len(),
            r@ == v@.subrange(0, i as int),
        decreases v.len() - i,
    {
        r.push(v[i]);
        i = i + 1;
    }
    assert(r@ =~= v@);
    r
}

impl Degree {
    pub fn duplicate(&self) -> (r: Degree)
        ensures
            r@ == self@,
    {
        match self {
            Degree::Bachelor => Degree::Bachelor,
            Degree::Master(s) => Degree::Master(copy_items(s)),
        }
    }
}

impl Module {
    /// A copy of the module with an equal view.
    pub fn duplicate(&self) -> (r: Module)
        ensures
            r@ == self@,
    {
        Module {
            module_type: self.module_type,
            half_ects: self.half_ects,
            degree: self.degree.duplicate(),
            name: self.name.clone(),
            identifier: self.identifier.clone(),
            requirements: copy_strings(&self.requirements),
            semesters: copy_items(&self.semesters),
            force: self.force,
        }
    }
}

pub fn copy_modules(v: &Vec<Module>) -> (r: Vec<Module>)
    ensures
        r@.map_values(|m: Module| m@) == v@.map_values(|m: Module| m@),
{
    let mut r: Vec<Module> = Vec::new();
    let mut i: usize = 0;
    while i < v.len()
        invariant
            i <= v.len(),
            r@.len() == i,
            forall|j: int| 0 <= j < i ==> r@[j]@ == v@[j]@,
        decreases v.len() - i,
    {
        r.push(v[i].duplicate());
        i = i + 1;
    }
    assert(r@.map_values(|m: Module| m@) =~= v@.map_values(|m: Module| m@));
    r
}

impl Semester {
    /// A copy of the semester with an equal view.
    pub fn duplicate(&self) -> (r: Semester)
        ensures
            r@ == self@,
    {
        Semester {
            number: self.number,
            degrees: copy_items(&self.degrees),
            ects: std::ops::Range { start: self.ects.start, end: self.ects.end },
            modules: copy_modules(&self.modules),
            semester_type: self.semester_type,
        }
    }
}


/// Why a catalog cannot be used.
#[derive(Clone, Debug, PartialEq, Eq)]
pub enum ConfigurationError {
    /// A root lecture whose weight is not the canonical root weight.
    InvalidRootWeight { identifier: String },
    /// A module requires an identifier that no module of the catalog has.
    UnknownRequirement { module: String, requirement: String },
}

impl ConfigurationError {
    /// The error is a bad root weight of the module with this identifier.
    pub open spec fn names_module(self, id: Seq<char>) -> bool {
        self matches ConfigurationError::InvalidRootWeight { identifier } && identifier@ == id
    }
}

/// A catalog, or, once solved, one assignment of modules to semesters
/// together with the two chosen specialities.
#[derive(Debug, Hash)]
pub struct Plan {
    pub modules: Vec<Module>,
    pub semesters: Vec<Semester>,
    pub specialties: [Option<Speciality>; 2],
}

pub struct PlanView {
    pub modules: Seq<ModuleView>,
    pub semesters: Seq<SemesterView>,
    pub specialties: Seq<Option<Speciality>>,
}

impl View for Plan {
    type V = PlanView;

    open spec fn view(&self) -> PlanView {
        PlanView {
            modules: self.modules@.map_values(|m: Module| m@),
            semesters: self.semesters@.map_values(|s: Semester| s@),
            specialties: self.specialties@,
        }
    }
}

/// The modules of the semesters, semester after semester.
pub open spec fn semester_modules(sems: Seq<SemesterView>) -> Seq<ModuleView>
    decreases sems.len(),
{
    if sems.len() == 0 {
        seq![]
    } else {
        semester_modules(sems.drop_last()) + sems.last().modules
    }
}

/// Every root lecture among `mods` carries the canonical root weight.
pub open spec fn root_weights_ok(mods: Seq<ModuleView>) -> bool {
    forall|i: int| 0 <= i < mods.len() ==> #[trigger] mods[i].root_weight_ok()
}

/// Index of the first module that breaks the root weight rule.
pub open spec fn first_bad_root(mods: Seq<ModuleView>, i: int) -> bool {
    0 <= i < mods.len() && !mods[i].root_weight_ok() && forall|j: int|
        0 <= j < i ==> #[trigger] mods[j].root_weight_ok()
}

impl Plan {
    pub fn modules(&self) -> (r: &Vec<Module>)
        ensures
            r@.map_values(|m: Module| m@) == self@.modules,
    {
        &self.modules
    }

    pub fn semesters(&self) -> (r: &Vec<Semester>)
        ensures
            r@.map_values(|s: Semester| s@) == self@.semesters,
    {
        &self.semesters
    }

    /// A copy of the plan with an equal view.
    pub fn duplicate(&self) -> (r: Plan)
        ensures
            r@ == self@,
    {
        let mut semesters: Vec<Semester> = Vec::new();
        let mut i: usize = 0;
        while i < self.semesters.len()
            invariant
                i <= self.semesters@.len(),
                semesters@.len() == i,
                forall|j: int| 0 <= j < i ==> semesters@[j]@ == self.semesters@[j]@,
            decreases self.semesters@.len() - i,
        {
            semesters.push(self.semesters[i].duplicate());
            i = i + 1;
        }
        let r = Plan { modules: copy_modules(&self.modules), semesters, specialties: self.specialties };
        assert(r@.semesters =~= self@.semesters);
        r
    }

    pub fn specialties(&self) -> (r: [Option<Speciality>; 2])
        ensures
            r@ == self@.specialties,
    {
        self.specialties
    }

    /// A plan over the given semesters whose modules are `remaining_modules`
    /// followed by the modules placed in the semesters. Fails when a root
    /// lecture does not carry the canonical root weight.
    pub fn from_semesters_with_modules(semesters: &[Semester], remaining_modules: &[Module]) -> (r:
        Result<Plan, ConfigurationError>)
        ensures
            ({
                let mods = remaining_modules@.map_values(|m: Module| m@) + semester_modules(
                    semesters@.map_values(|s: Semester| s@),
                );
                &&& r is Ok <==> root_weights_ok(mods)
                &&& r matches Ok(p) ==> p@.modules == mods && p@.semesters == semesters@.map_values(
                    |s: Semester| s@,
                ) && p@.specialties == seq![None::<Speciality>, None]
                &&& r matches Err(e) ==> exists|i: int|
                    first_bad_root(mods, i) && e.names_module(mods[i].identifier)
            }),
    {
        let ghost sems = semesters@.map_values(|s: Semester| s@);
        let mut modules: Vec<Module> = Vec::new();
        let mut i: usize = 0;
        while i < remaining_modules.len()
            invariant
                i <= remaining_modules@.len(),
                modules@.len() == i,
                forall|t: int| 0 <= t < i ==> modules@[t]@ == remaining_modules@[t]@,
            decreases remaining_modules@.len() - i,
        {
            modules.push(remaining_modules[i].duplicate());
            i = i + 1;
        }
        assert(modules@.map_values(|m: Module| m@) =~= remaining_modules@.map_values(
            |m: Module| m@,
        ));
        let ghost base = modules@.map_values(|m: Module| m@);
        let mut copied: Vec<Semester> = Vec::new();
        let mut k: usize = 0;
        while k < semesters.len()
            invariant
                k <= semesters@.len(),
                sems == semesters@.map_values(|s: Semester| s@),
                base == remaining_modules@.map_values(|m: Module| m@),
                modules@.map_values(|m: Module| m@) == base + semester_modules(
                    sems.subrange(0, k as int),
                ),
                copied@.map_values(|s: Semester| s@) == sems.subrange(0, k as int),
            decreases semesters@.len() - k,
        {
            let sem = &semesters[k];
            let ghost before = modules@.map_values(|m: Module| m@);
            let mut j: usize = 0;
            while j < sem.modules.len()
                invariant
                    j <= sem.modules@.len(),
                    modules@.len() == before.len() + j,
                    forall|t: int| 0 <= t < before.len() ==> modules@[t]@ == before[t],
                    forall|t: int| 0 <= t < j ==> modules@[before.len() + t]@ == sem.modules@[t]@,
                decreases sem.modules@.len() - j,
            {
                modules.push(sem.modules[j].duplicate());
                j = j + 1;
            }
            assert(modules@.map_values(|m: Module| m@) =~= before + sem@.modules);
            copied.push(sem.duplicate());
            k = k + 1;
            proof {
                let sub = sems.subrange(0, k as int);
                assert(sub.drop_last() =~= sems.subrange(0, k - 1));
                assert(sub.last() == sem@);
                assert(modules@.map_values(|m: Module| m@) =~= base + semester_modules(sub));
                assert(copied@.map_values(|s: Semester| s@) =~= sub);
            }
        }
        assert(sems.subrange(0, k as int) =~= sems);
        let plan = Plan { modules, semesters: copied, specialties: [None, None] };
        match plan.check_basic() {
            Ok(()) => {
                assert(plan.specialties@ =~= seq![None::<Speciality>, None]);
                Ok(plan)
            },
            Err(e) => Err(e),
        }
    }

    /// Checks that every root lecture of the plan weighs exactly the
    /// canonical root weight; the error names the first that does not.
    pub fn check_basic(&self) -> (r: Result<(), ConfigurationError>)
        ensures
            r is Ok <==> root_weights_ok(self@.modules),
            r matches Err(e) ==> exists|i: int|
                first_bad_root(self@.modules, i) && e.names_module(self@.modules[i].identifier),
    {
        let mut i: usize = 0;
        while i < self.modules.len()
            invariant
                i <= self.modules@.len(),
                forall|j: int| 0 <= j < i ==> #[trigger] self@.modules[j].root_weight_ok(),
            decreases self.modules@.len() - i,
        {
            let m = &self.modules[i];
            if matches!(m.module_type, ModuleType::Lecture { is_root: true }) && m.half_ects
                != ROOT_MODULE_HALF_ECTS {
                proof {
                    assert(self@.modules[i as int] == m@);
                    assert(first_bad_root(self@.modules, i as int));
                }
                return Err(ConfigurationError::InvalidRootWeight { identifier: m.identifier.clone() });
            }
            assert(self@.modules[i as int] == m@);
            i = i + 1;
        }
        Ok(())
    }
}

impl Clone for Semester {
    fn clone(&self) -> (r: Semester)
        ensures
            r@ == self@,
    {
        self.duplicate()
    }
}

impl Clone for Plan {
    fn clone(&self) -> (r: Plan)
        ensures
            r@ == self@,
    {
        self.duplicate()
    }
}

} // verus!
