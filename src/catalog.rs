//! The study catalog: the semesters of the sequence, the modules fixed to
//! them, and the elective Master modules.
use crate::model::{
    Degree, DegreeView, Module, ModuleType, ModuleView, Semester, SemesterDegree, SemesterType,
    SemesterView, Speciality,
};
use vstd::prelude::*;

verus! {

pub const PROGRAMMING_ID: &'static str = "M-INFO-101174";
pub const GBI_ID: &'static str = "M-INFO-101170";
pub const LA1_ID: &'static str = "T-MATH-103215";
pub const HM1_ID: &'static str = "T-MATH-102232";
pub const DT_ID: &'static str = "24007";
pub const ALGO1_ID: &'static str = "M-INFO-100030";
pub const LA2_ID: &'static str = "T-MATH-102241";
pub const OS_ID: &'static str = "M-INFO-101177";
pub const TGI_ID: &'static str = "M-INFO-101172";
pub const WT_ID: &'static str = "T-MATH-102244";
pub const INFOSEC_ID: &'static str = "M-INFO-106015";
pub const FORMSYS_ID: &'static str = "M-INFO-100799";
pub const CG_ID: &'static str = "M-INFO-100856";
pub const ALGO2_ID: &'static str = "M-INFO-101173";
pub const ITSEC_ID: &'static str = "M-INFO-106315";
pub const ROBOTICS_ID: &'static str = "M-INFO-100893";
pub const PRACTICAL_SAT_ID: &'static str = "M-INFO-102825";
pub const FOTO_BS_ID: &'static str = "M-INFO-100731";
pub const VISUALIZATION_ID: &'static str = "M-INFO-100738";

/// The view of a module with these fields.
pub open spec fn module_view(
    module_type: ModuleType,
    half_ects: int,
    degree: DegreeView,
    name: Seq<char>,
    identifier: Seq<char>,
    requirements: Seq<Seq<char>>,
    semesters: Seq<SemesterType>,
    force: bool,
) -> ModuleView {
    ModuleView { module_type, half_ects, degree, name, identifier, requirements, semesters, force }
}

fn module(
    module_type: ModuleType,
    half_ects: i32,
    degree: Degree,
    name: &str,
    identifier: &str,
    requirements: Vec<&str>,
    semesters: Vec<SemesterType>,
    force: bool,
) -> (r: Module)
    ensures
        r@ == module_view(
            module_type,
            half_ects as int,
            degree@,
            name@,
            identifier@,
            requirements@.map_values(|s: &str| s@),
            semesters@,
            force,
        ),
{
    let mut reqs: Vec<String> = Vec::new();
    let mut i: usize = 0;
    while i < requirements.len()
        invariant
            i <= requirements@.len(),
            reqs@.len() == i,
            forall|j: int| 0 <= j < i ==> #[trigger] reqs@[j]@ == requirements@[j]@,
        decreases requirements@.len() - i,
    {
        reqs.push(requirements[i].to_owned());
        i = i + 1;
    }
    let r = Module {
        module_type,
        half_ects,
        degree,
        name: name.to_owned(),
        identifier: identifier.to_owned(),
        requirements: reqs,
        semesters,
        force,
    };
    assert(r@.requirements =~= requirements@.map_values(|s: &str| s@));
    r
}

fn semester(
    number: i32,
    degrees: Vec<SemesterDegree>,
    min_load: i32,
    max_load: i32,
    modules: Vec<Module>,
    semester_type: SemesterType,
) -> (r: Semester)
    ensures
        r@ == (SemesterView {
            number: number as int,
            degrees: degrees@,
            min_load: min_load as int,
            max_load: max_load as int,
            modules: modules@.map_values(|m: Module| m@),
            semester_type,
        }),
{
    Semester { number, degrees, ects: std::ops::Range { start: min_load, end: max_load }, modules, semester_type }
}

/// The view of `get_bachelor_semester_1`'s result.
pub open spec fn bachelor_semester_1() -> SemesterView {
    SemesterView {
        number: 1,
        degrees: seq![SemesterDegree::Bachelor],
        min_load: 40,
        max_load: 58,
        modules: seq![
            module_view(
                ModuleType::Lecture { is_root: false },
                10,
                DegreeView::Bachelor,
                "Programmieren"@,
                PROGRAMMING_ID@,
                seq![],
                seq![SemesterType::Winter],
                false,
            ),
            module_view(
                ModuleType::Lecture { is_root: false },
                12,
                DegreeView::Bachelor,
                "GBI"@,
                GBI_ID@,
                seq![],
                seq![SemesterType::Winter],
                false,
            ),
            module_view(
                ModuleType::Lecture { is_root: false },
                18,
                DegreeView::Bachelor,
                "LA1"@,
                LA1_ID@,
                seq![],
                seq![SemesterType::Winter],
                false,
            ),
            module_view(
                ModuleType::Lecture { is_root: false },
                18,
                DegreeView::Bachelor,
                "HM1"@,
                HM1_ID@,
                seq![],
                seq![SemesterType::Winter],
                false,
            ),
        ],
        semester_type: SemesterType::Winter,
    }
}

pub fn get_bachelor_semester_1() -> (r: Semester)
    ensures
        r@ == bachelor_semester_1(),
{
    let programming = module(
        ModuleType::Lecture { is_root: false },
        10,
        Degree::Bachelor,
        "Programmieren",
        PROGRAMMING_ID,
        Vec::new(),
        vec![SemesterType::Winter],
        false,
    );
    assert(programming@ == module_view(
        ModuleType::Lecture { is_root: false },
        10,
        DegreeView::Bachelor,
        "Programmieren"@,
        PROGRAMMING_ID@,
        seq![],
        seq![SemesterType::Winter],
        false,
    )) by {
        assert(programming@.requirements =~= seq![]);
        assert(programming@.semesters =~= seq![SemesterType::Winter]);
    }
    let gbi = module(
        ModuleType::Lecture { is_root: false },
        12,
        Degree::Bachelor,
        "GBI",
        GBI_ID,
        Vec::new(),
        vec![SemesterType::Winter],
        false,
    );
    assert(gbi@ == module_view(
        ModuleType::Lecture { is_root: false },
        12,
        DegreeView::Bachelor,
        "GBI"@,
        GBI_ID@,
        seq![],
        seq![SemesterType::Winter],
        false,
    )) by {
        assert(gbi@.requirements =~= seq![]);
        assert(gbi@.semesters =~= seq![SemesterType::Winter]);
    }
    let la1 = module(
        ModuleType::Lecture { is_root: false },
        18,
        Degree::Bachelor,
        "LA1",
        LA1_ID,
        Vec::new(),
        vec![SemesterType::Winter],
        false,
    );
    assert(la1@ == module_view(
        ModuleType::Lecture { is_root: false },
        18,
        DegreeView::Bachelor,
        "LA1"@,
        LA1_ID@,
        seq![],
        seq![SemesterType::Winter],
        false,
    )) by {
        assert(la1@.requirements =~= seq![]);
        assert(la1@.semesters =~= seq![SemesterType::Winter]);
    }
    let hm1 = module(
        ModuleType::Lecture { is_root: false },
        18,
        Degree::Bachelor,
        "HM1",
        HM1_ID,
        Vec::new(),
        vec![SemesterType::Winter],
        false,
    );
    assert(hm1@ == module_view(
        ModuleType::Lecture { is_root: false },
        18,
        DegreeView::Bachelor,
        "HM1"@,
        HM1_ID@,
        seq![],
        seq![SemesterType::Winter],
        false,
    )) by {
        assert(hm1@.requirements =~= seq![]);
        assert(hm1@.semesters =~= seq![SemesterType::Winter]);
    }
    let modules: Vec<Module> = vec![programming, gbi, la1, hm1];
    let r = semester(1, vec![SemesterDegree::Bachelor], 40, 58, modules, SemesterType::Winter);
    assert(r@.degrees =~= bachelor_semester_1().degrees);
    assert(r@.modules =~= bachelor_semester_1().modules);
    r
}

/// The view of `get_bachelor_semester_2`'s result.
pub open spec fn bachelor_semester_2() -> SemesterView {
    SemesterView {
        number: 2,
        degrees: seq![SemesterDegree::Bachelor],
        min_load: 50,
        max_load: 58,
        modules: seq![
            module_view(
                ModuleType::Lecture { is_root: false },
                12,
                DegreeView::Bachelor,
                "Algo 1"@,
                ALGO1_ID@,
                seq![GBI_ID@],
                seq![SemesterType::Summer],
                false,
            ),
            module_view(
                ModuleType::Lecture { is_root: false },
                12,
                DegreeView::Bachelor,
                "Softwaretechnik I"@,
                "M-INFO-101175"@,
                seq![PROGRAMMING_ID@],
                seq![SemesterType::Summer],
                false,
            ),
            module_view(
                ModuleType::Lecture { is_root: false },
                12,
                DegreeView::Bachelor,
                "DT"@,
                DT_ID@,
                seq![],
                seq![SemesterType::Summer],
                false,
            ),
            module_view(
                ModuleType::Lecture { is_root: false },
                12,
                DegreeView::Bachelor,
                "HM2"@,
                "T-MATH-102233"@,
                seq![],
                seq![SemesterType::Summer],
                false,
            ),
            module_view(
                ModuleType::Lecture { is_root: false },
                10,
                DegreeView::Bachelor,
                "LA2"@,
                LA2_ID@,
                seq![LA1_ID@],
                seq![SemesterType::Summer],
                false,
            ),
        ],
        semester_type: SemesterType::Summer,
    }
}

pub fn get_bachelor_semester_2() -> (r: Semester)
    ensures
        r@ == bachelor_semester_2(),
{
    let swt = module(
        ModuleType::Lecture { is_root: false },
        12,
        Degree::Bachelor,
        "Softwaretechnik I",
        "M-INFO-101175",
        vec![PROGRAMMING_ID],
        vec![SemesterType::Summer],
        false,
    );
    assert(swt@ == module_view(
        ModuleType::Lecture { is_root: false },
        12,
        DegreeView::Bachelor,
        "Softwaretechnik I"@,
        "M-INFO-101175"@,
        seq![PROGRAMMING_ID@],
        seq![SemesterType::Summer],
        false,
    )) by {
        assert(swt@.requirements =~= seq![PROGRAMMING_ID@]);
        assert(swt@.semesters =~= seq![SemesterType::Summer]);
    }
    let algo = module(
        ModuleType::Lecture { is_root: false },
        12,
        Degree::Bachelor,
        "Algo 1",
        ALGO1_ID,
        vec![GBI_ID],
        vec![SemesterType::Summer],
        false,
    );
    assert(algo@ == module_view(
        ModuleType::Lecture { is_root: false },
        12,
        DegreeView::Bachelor,
        "Algo 1"@,
        ALGO1_ID@,
        seq![GBI_ID@],
        seq![SemesterType::Summer],
        false,
    )) by {
        assert(algo@.requirements =~= seq![GBI_ID@]);
        assert(algo@.semesters =~= seq![SemesterType::Summer]);
    }
    let dt = module(
        ModuleType::Lecture { is_root: false },
        12,
        Degree::Bachelor,
        "DT",
        DT_ID,
        Vec::new(),
        vec![SemesterType::Summer],
        false,
    );
    assert(dt@ == module_view(
        ModuleType::Lecture { is_root: false },
        12,
        DegreeView::Bachelor,
        "DT"@,
        DT_ID@,
        seq![],
        seq![SemesterType::Summer],
        false,
    )) by {
        assert(dt@.requirements =~= seq![]);
        assert(dt@.semesters =~= seq![SemesterType::Summer]);
    }
    let la2 = module(
        ModuleType::Lecture { is_root: false },
        10,
        Degree::Bachelor,
        "LA2",
        LA2_ID,
        vec![LA1_ID],
        vec![SemesterType::Summer],
        false,
    );
    assert(la2@ == module_view(
        ModuleType::Lecture { is_root: false },
        10,
        DegreeView::Bachelor,
        "LA2"@,
        LA2_ID@,
        seq![LA1_ID@],
        seq![SemesterType::Summer],
        false,
    )) by {
        assert(la2@.requirements =~= seq![LA1_ID@]);
        assert(la2@.semesters =~= seq![SemesterType::Summer]);
    }
    let hm2 = module(
        ModuleType::Lecture { is_root: false },
        12,
        Degree::Bachelor,
        "HM2",
        "T-MATH-102233",
        Vec::new(),
        vec![SemesterType::Summer],
        false,
    );
    assert(hm2@ == module_view(
        ModuleType::Lecture { is_root: false },
        12,
        DegreeView::Bachelor,
        "HM2"@,
        "T-MATH-102233"@,
        seq![],
        seq![SemesterType::Summer],
        false,
    )) by {
        assert(hm2@.requirements =~= seq![]);
        assert(hm2@.semesters =~= seq![SemesterType::Summer]);
    }
    let modules: Vec<Module> = vec![algo, swt, dt, hm2, la2];
    let r = semester(2, vec![SemesterDegree::Bachelor], 50, 58, modules, SemesterType::Summer);
    assert(r@.degrees =~= bachelor_semester_2().degrees);
    assert(r@.modules =~= bachelor_semester_2().modules);
    r
}

/// The view of `get_bachelor_semester_3`'s result.
pub open spec fn bachelor_semester_3() -> SemesterView {
    SemesterView {
        number: 3,
        degrees: seq![SemesterDegree::Bachelor],
        min_load: 50,
        max_load: 64,
        modules: seq![
            module_view(
                ModuleType::Lecture { is_root: false },
                12,
                DegreeView::Bachelor,
                "RO"@,
                "24502"@,
                seq![DT_ID@],
                seq![SemesterType::Winter],
                false,
            ),
            module_view(
                ModuleType::Lecture { is_root: false },
                12,
                DegreeView::Bachelor,
                "TGI"@,
                TGI_ID@,
                seq![ALGO1_ID@],
                seq![SemesterType::Winter],
                false,
            ),
            module_view(
                ModuleType::Lecture { is_root: false },
                12,
                DegreeView::Bachelor,
                "OS"@,
                OS_ID@,
                seq![],
                seq![SemesterType::Winter],
                false,
            ),
            module_view(
                ModuleType::Lecture { is_root: false },
                9,
                DegreeView::Bachelor,
                "WT"@,
                WT_ID@,
                seq![],
                seq![SemesterType::Winter],
                false,
            ),
            module_view(
                ModuleType::Lab,
                14,
                DegreeView::Bachelor,
                "PSE"@,
                "M-INFO-101176"@,
                seq![],
                seq![SemesterType::Winter],
                false,
            ),
        ],
        semester_type: SemesterType::Winter,
    }
}

pub fn get_bachelor_semester_3() -> (r: Semester)
    ensures
        r@ == bachelor_semester_3(),
{
    let ro = module(
        ModuleType::Lecture { is_root: false },
        12,
        Degree::Bachelor,
        "RO",
        "24502",
        vec![DT_ID],
        vec![SemesterType::Winter],
        false,
    );
    assert(ro@ == module_view(
        ModuleType::Lecture { is_root: false },
        12,
        DegreeView::Bachelor,
        "RO"@,
        "24502"@,
        seq![DT_ID@],
        seq![SemesterType::Winter],
        false,
    )) by {
        assert(ro@.requirements =~= seq![DT_ID@]);
        assert(ro@.semesters =~= seq![SemesterType::Winter]);
    }
    let tgi = module(
        ModuleType::Lecture { is_root: false },
        12,
        Degree::Bachelor,
        "TGI",
        TGI_ID,
        vec![ALGO1_ID],
        vec![SemesterType::Winter],
        false,
    );
    assert(tgi@ == module_view(
        ModuleType::Lecture { is_root: false },
        12,
        DegreeView::Bachelor,
        "TGI"@,
        TGI_ID@,
        seq![ALGO1_ID@],
        seq![SemesterType::Winter],
        false,
    )) by {
        assert(tgi@.requirements =~= seq![ALGO1_ID@]);
        assert(tgi@.semesters =~= seq![SemesterType::Winter]);
    }
    let os = module(
        ModuleType::Lecture { is_root: false },
        12,
        Degree::Bachelor,
        "OS",
        OS_ID,
        Vec::new(),
        vec![SemesterType::Winter],
        false,
    );
    assert(os@ == module_view(
        ModuleType::Lecture { is_root: false },
        12,
        DegreeView::Bachelor,
        "OS"@,
        OS_ID@,
        seq![],
        seq![SemesterType::Winter],
        false,
    )) by {
        assert(os@.requirements =~= seq![]);
        assert(os@.semesters =~= seq![SemesterType::Winter]);
    }
    let wt = module(
        ModuleType::Lecture { is_root: false },
        9,
        Degree::Bachelor,
        "WT",
        WT_ID,
        Vec::new(),
        vec![SemesterType::Winter],
        false,
    );
    assert(wt@ == module_view(
        ModuleType::Lecture { is_root: false },
        9,
        DegreeView::Bachelor,
        "WT"@,
        WT_ID@,
        seq![],
        seq![SemesterType::Winter],
        false,
    )) by {
        assert(wt@.requirements =~= seq![]);
        assert(wt@.semesters =~= seq![SemesterType::Winter]);
    }
    let pse = module(
        ModuleType::Lab,
        14,
        Degree::Bachelor,
        "PSE",
        "M-INFO-101176",
        Vec::new(),
        vec![SemesterType::Winter],
        false,
    );
    assert(pse@ == module_view(
        ModuleType::Lab,
        14,
        DegreeView::Bachelor,
        "PSE"@,
        "M-INFO-101176"@,
        seq![],
        seq![SemesterType::Winter],
        false,
    )) by {
        assert(pse@.requirements =~= seq![]);
        assert(pse@.semesters =~= seq![SemesterType::Winter]);
    }
    let modules: Vec<Module> = vec![ro, tgi, os, wt, pse];
    let r = semester(3, vec![SemesterDegree::Bachelor], 50, 64, modules, SemesterType::Winter);
    assert(r@.degrees =~= bachelor_semester_3().degrees);
    assert(r@.modules =~= bachelor_semester_3().modules);
    r
}

/// The view of `get_bachelor_semester_4`'s result.
pub open spec fn bachelor_semester_4() -> SemesterView {
    SemesterView {
        number: 4,
        degrees: seq![SemesterDegree::Bachelor],
        min_load: 40,
        max_load: 46,
        modules: seq![
            module_view(
                ModuleType::Lecture { is_root: false },
                10,
                DegreeView::Bachelor,
                "Infosec"@,
                INFOSEC_ID@,
                seq![],
                seq![SemesterType::Summer],
                false,
            ),
            module_view(
                ModuleType::Lecture { is_root: false },
                8,
                DegreeView::Bachelor,
                "Rechnernetze"@,
                "T-INFO-102015"@,
                seq![],
                seq![SemesterType::Summer],
                false,
            ),
            module_view(
                ModuleType::Lecture { is_root: false },
                8,
                DegreeView::Bachelor,
                "DBS"@,
                "T-INFO-101497 "@,
                seq![],
                seq![SemesterType::Summer],
                false,
            ),
            module_view(
                ModuleType::Lecture { is_root: false },
                9,
                DegreeView::Bachelor,
                "Numerik"@,
                "T-MATH-102242"@,
                seq![],
                seq![SemesterType::Summer],
                false,
            ),
            module_view(
                ModuleType::Lab,
                8,
                DegreeView::Bachelor,
                "OSDev"@,
                "OSDev"@,
                seq![],
                seq![SemesterType::Summer],
                false,
            ),
        ],
        semester_type: SemesterType::Summer,
    }
}

pub fn get_bachelor_semester_4() -> (r: Semester)
    ensures
        r@ == bachelor_semester_4(),
{
    let infosec = module(
        ModuleType::Lecture { is_root: false },
        10,
        Degree::Bachelor,
        "Infosec",
        INFOSEC_ID,
        Vec::new(),
        vec![SemesterType::Summer],
        false,
    );
    assert(infosec@ == module_view(
        ModuleType::Lecture { is_root: false },
        10,
        DegreeView::Bachelor,
        "Infosec"@,
        INFOSEC_ID@,
        seq![],
        seq![SemesterType::Summer],
        false,
    )) by {
        assert(infosec@.requirements =~= seq![]);
        assert(infosec@.semesters =~= seq![SemesterType::Summer]);
    }
    let rn = module(
        ModuleType::Lecture { is_root: false },
        8,
        Degree::Bachelor,
        "Rechnernetze",
        "T-INFO-102015",
        Vec::new(),
        vec![SemesterType::Summer],
        false,
    );
    assert(rn@ == module_view(
        ModuleType::Lecture { is_root: false },
        8,
        DegreeView::Bachelor,
        "Rechnernetze"@,
        "T-INFO-102015"@,
        seq![],
        seq![SemesterType::Summer],
        false,
    )) by {
        assert(rn@.requirements =~= seq![]);
        assert(rn@.semesters =~= seq![SemesterType::Summer]);
    }
    let dbs = module(
        ModuleType::Lecture { is_root: false },
        8,
        Degree::Bachelor,
        "DBS",
        "T-INFO-101497 ",
        Vec::new(),
        vec![SemesterType::Summer],
        false,
    );
    assert(dbs@ == module_view(
        ModuleType::Lecture { is_root: false },
        8,
        DegreeView::Bachelor,
        "DBS"@,
        "T-INFO-101497 "@,
        seq![],
        seq![SemesterType::Summer],
        false,
    )) by {
        assert(dbs@.requirements =~= seq![]);
        assert(dbs@.semesters =~= seq![SemesterType::Summer]);
    }
    let numerik = module(
        ModuleType::Lecture { is_root: false },
        9,
        Degree::Bachelor,
        "Numerik",
        "T-MATH-102242",
        Vec::new(),
        vec![SemesterType::Summer],
        false,
    );
    assert(numerik@ == module_view(
        ModuleType::Lecture { is_root: false },
        9,
        DegreeView::Bachelor,
        "Numerik"@,
        "T-MATH-102242"@,
        seq![],
        seq![SemesterType::Summer],
        false,
    )) by {
        assert(numerik@.requirements =~= seq![]);
        assert(numerik@.semesters =~= seq![SemesterType::Summer]);
    }
    let osdev = module(
        ModuleType::Lab,
        8,
        Degree::Bachelor,
        "OSDev",
        "OSDev",
        Vec::new(),
        vec![SemesterType::Summer],
        false,
    );
    assert(osdev@ == module_view(
        ModuleType::Lab,
        8,
        DegreeView::Bachelor,
        "OSDev"@,
        "OSDev"@,
        seq![],
        seq![SemesterType::Summer],
        false,
    )) by {
        assert(osdev@.requirements =~= seq![]);
        assert(osdev@.semesters =~= seq![SemesterType::Summer]);
    }
    let modules: Vec<Module> = vec![infosec, rn, dbs, numerik, osdev];
    let r = semester(4, vec![SemesterDegree::Bachelor], 40, 46, modules, SemesterType::Summer);
    assert(r@.degrees =~= bachelor_semester_4().degrees);
    assert(r@.modules =~= bachelor_semester_4().modules);
    r
}

/// The view of `get_bachelor_semester_5`'s result.
pub open spec fn bachelor_semester_5() -> SemesterView {
    SemesterView {
        number: 5,
        degrees: seq![SemesterDegree::Bachelor, SemesterDegree::Master],
        min_load: 36,
        max_load: 44,
        modules: seq![
            module_view(
                ModuleType::Lecture { is_root: false },
                12,
                DegreeView::Bachelor,
                "Propa"@,
                "M-INFO-101179"@,
                seq![TGI_ID@],
                seq![SemesterType::Winter],
                false,
            ),
            module_view(
                ModuleType::Lecture { is_root: false },
                10,
                DegreeView::Bachelor,
                "GKI"@,
                "M-INFO-106014"@,
                seq![LA2_ID@, WT_ID@],
                seq![SemesterType::Winter],
                false,
            ),
            module_view(
                ModuleType::Seminar { is_pro: true },
                6,
                DegreeView::Bachelor,
                "Proseminar"@,
                "proseminar"@,
                seq![],
                seq![SemesterType::Winter, SemesterType::Summer],
                false,
            ),
            module_view(
                ModuleType::Lecture { is_root: true },
                12,
                DegreeView::Bachelor,
                "Formsys"@,
                FORMSYS_ID@,
                seq![TGI_ID@],
                seq![SemesterType::Winter],
                false,
            ),
        ],
        semester_type: SemesterType::Winter,
    }
}

pub fn get_bachelor_semester_5() -> (r: Semester)
    ensures
        r@ == bachelor_semester_5(),
{
    let propa = module(
        ModuleType::Lecture { is_root: false },
        12,
        Degree::Bachelor,
        "Propa",
        "M-INFO-101179",
        vec![TGI_ID],
        vec![SemesterType::Winter],
        false,
    );
    assert(propa@ == module_view(
        ModuleType::Lecture { is_root: false },
        12,
        DegreeView::Bachelor,
        "Propa"@,
        "M-INFO-101179"@,
        seq![TGI_ID@],
        seq![SemesterType::Winter],
        false,
    )) by {
        assert(propa@.requirements =~= seq![TGI_ID@]);
        assert(propa@.semesters =~= seq![SemesterType::Winter]);
    }
    let gki = module(
        ModuleType::Lecture { is_root: false },
        10,
        Degree::Bachelor,
        "GKI",
        "M-INFO-106014",
        vec![LA2_ID, WT_ID],
        vec![SemesterType::Winter],
        false,
    );
    assert(gki@ == module_view(
        ModuleType::Lecture { is_root: false },
        10,
        DegreeView::Bachelor,
        "GKI"@,
        "M-INFO-106014"@,
        seq![LA2_ID@, WT_ID@],
        seq![SemesterType::Winter],
        false,
    )) by {
        assert(gki@.requirements =~= seq![LA2_ID@, WT_ID@]);
        assert(gki@.semesters =~= seq![SemesterType::Winter]);
    }
    let proseminar = module(
        ModuleType::Seminar { is_pro: true },
        6,
        Degree::Bachelor,
        "Proseminar",
        "proseminar",
        Vec::new(),
        vec![SemesterType::Winter, SemesterType::Summer],
        false,
    );
    assert(proseminar@ == module_view(
        ModuleType::Seminar { is_pro: true },
        6,
        DegreeView::Bachelor,
        "Proseminar"@,
        "proseminar"@,
        seq![],
        seq![SemesterType::Winter, SemesterType::Summer],
        false,
    )) by {
        assert(proseminar@.requirements =~= seq![]);
        assert(proseminar@.semesters =~= seq![SemesterType::Winter, SemesterType::Summer]);
    }
    let formsys = module(
        ModuleType::Lecture { is_root: true },
        12,
        Degree::Bachelor,
        "Formsys",
        FORMSYS_ID,
        vec![TGI_ID],
        vec![SemesterType::Winter],
        false,
    );
    assert(formsys@ == module_view(
        ModuleType::Lecture { is_root: true },
        12,
        DegreeView::Bachelor,
        "Formsys"@,
        FORMSYS_ID@,
        seq![TGI_ID@],
        seq![SemesterType::Winter],
        false,
    )) by {
        assert(formsys@.requirements =~= seq![TGI_ID@]);
        assert(formsys@.semesters =~= seq![SemesterType::Winter]);
    }
    let modules: Vec<Module> = vec![propa, gki, proseminar, formsys];
    let r = semester(5, vec![SemesterDegree::Bachelor, SemesterDegree::Master], 36, 44, modules, SemesterType::Winter);
    assert(r@.degrees =~= bachelor_semester_5().degrees);
    assert(r@.modules =~= bachelor_semester_5().modules);
    r
}

/// The view of `get_bachelor_semester_6`'s result.
pub open spec fn bachelor_semester_6() -> SemesterView {
    SemesterView {
        number: 6,
        degrees: seq![SemesterDegree::Bachelor, SemesterDegree::Master],
        min_load: 40,
        max_load: 60,
        modules: seq![
            module_view(
                ModuleType::Lecture { is_root: false },
                10,
                DegreeView::Bachelor,
                "AlgoPG"@,
                "M-INFO-101220"@,
                seq![ALGO1_ID@, TGI_ID@],
                seq![SemesterType::Summer],
                false,
            ),
        ],
        semester_type: SemesterType::Summer,
    }
}

pub fn get_bachelor_semester_6() -> (r: Semester)
    ensures
        r@ == bachelor_semester_6(),
{
    let algo_pg = module(
        ModuleType::Lecture { is_root: false },
        10,
        Degree::Bachelor,
        "AlgoPG",
        "M-INFO-101220",
        vec![ALGO1_ID, TGI_ID],
        vec![SemesterType::Summer],
        false,
    );
    assert(algo_pg@ == module_view(
        ModuleType::Lecture { is_root: false },
        10,
        DegreeView::Bachelor,
        "AlgoPG"@,
        "M-INFO-101220"@,
        seq![ALGO1_ID@, TGI_ID@],
        seq![SemesterType::Summer],
        false,
    )) by {
        assert(algo_pg@.requirements =~= seq![ALGO1_ID@, TGI_ID@]);
        assert(algo_pg@.semesters =~= seq![SemesterType::Summer]);
    }
    let modules: Vec<Module> = vec![algo_pg];
    let r = semester(6, vec![SemesterDegree::Bachelor, SemesterDegree::Master], 40, 60, modules, SemesterType::Summer);
    assert(r@.degrees =~= bachelor_semester_6().degrees);
    assert(r@.modules =~= bachelor_semester_6().modules);
    r
}

/// The view of `get_bachelor_semester_7`'s result.
pub open spec fn bachelor_semester_7() -> SemesterView {
    SemesterView {
        number: 7,
        degrees: seq![SemesterDegree::Bachelor, SemesterDegree::Master],
        min_load: 10,
        max_load: 25,
        modules: seq![],
        semester_type: SemesterType::Winter,
    }
}

pub fn get_bachelor_semester_7() -> (r: Semester)
    ensures
        r@ == bachelor_semester_7(),
{

    let modules: Vec<Module> = Vec::new();
    let r = semester(7, vec![SemesterDegree::Bachelor, SemesterDegree::Master], 10, 25, modules, SemesterType::Winter);
    assert(r@.degrees =~= bachelor_semester_7().degrees);
    assert(r@.modules =~= bachelor_semester_7().modules);
    r
}

/// The view of `get_master_semester_1`'s result.
pub open spec fn master_semester_1() -> SemesterView {
    SemesterView {
        number: 8,
        degrees: seq![SemesterDegree::Master],
        min_load: 36,
        max_load: 64,
        modules: seq![],
        semester_type: SemesterType::Summer,
    }
}

pub fn get_master_semester_1() -> (r: Semester)
    ensures
        r@ == master_semester_1(),
{

    let modules: Vec<Module> = Vec::new();
    let r = semester(8, vec![SemesterDegree::Master], 36, 64, modules, SemesterType::Summer);
    assert(r@.degrees =~= master_semester_1().degrees);
    assert(r@.modules =~= master_semester_1().modules);
    r
}

/// The view of `get_master_semester_2`'s result.
pub open spec fn master_semester_2() -> SemesterView {
    SemesterView {
        number: 9,
        degrees: seq![SemesterDegree::Master],
        min_load: 40,
        max_load: 64,
        modules: seq![],
        semester_type: SemesterType::Winter,
    }
}

pub fn get_master_semester_2() -> (r: Semester)
    ensures
        r@ == master_semester_2(),
{

    let modules: Vec<Module> = Vec::new();
    let r = semester(9, vec![SemesterDegree::Master], 40, 64, modules, SemesterType::Winter);
    assert(r@.degrees =~= master_semester_2().degrees);
    assert(r@.modules =~= master_semester_2().modules);
    r
}

/// The view of `get_master_semester_3`'s result.
pub open spec fn master_semester_3() -> SemesterView {
    SemesterView {
        number: 10,
        degrees: seq![SemesterDegree::Master],
        min_load: 40,
        max_load: 64,
        modules: seq![],
        semester_type: SemesterType::Summer,
    }
}

pub fn get_master_semester_3() -> (r: Semester)
    ensures
        r@ == master_semester_3(),
{

    let modules: Vec<Module> = Vec::new();
    let r = semester(10, vec![SemesterDegree::Master], 40, 64, modules, SemesterType::Summer);
    assert(r@.degrees =~= master_semester_3().degrees);
    assert(r@.modules =~= master_semester_3().modules);
    r
}

/// The view of `get_master_semester_4`'s result.
pub open spec fn master_semester_4() -> SemesterView {
    SemesterView {
        number: 11,
        degrees: seq![SemesterDegree::Master],
        min_load: 40,
        max_load: 64,
        modules: seq![],
        semester_type: SemesterType::Winter,
    }
}

pub fn get_master_semester_4() -> (r: Semester)
    ensures
        r@ == master_semester_4(),
{

    let modules: Vec<Module> = Vec::new();
    let r = semester(11, vec![SemesterDegree::Master], 40, 64, modules, SemesterType::Winter);
    assert(r@.degrees =~= master_semester_4().degrees);
    assert(r@.modules =~= master_semester_4().modules);
    r
}

/// The views of the elective Master modules.
pub open spec fn electives() -> Seq<ModuleView> {
    seq![
        module_view(
            ModuleType::Lecture { is_root: true },
            12,
            DegreeView::Master(seq![Speciality::ComputerGraphics]),
            "Computergrafik"@,
            CG_ID@,
            seq![LA2_ID@],
            seq![SemesterType::Winter],
            false,
        ),
        module_view(
            ModuleType::Lecture { is_root: true },
            12,
            DegreeView::Master(seq![Speciality::Theoretics, Speciality::Algorithms]),
            "Algo II"@,
            ALGO2_ID@,
            seq![ALGO1_ID@],
            seq![SemesterType::Winter],
            false,
        ),
        module_view(
            ModuleType::Lecture { is_root: true },
            12,
            DegreeView::Master(seq![Speciality::Security]),
            "ITSec"@,
            ITSEC_ID@,
            seq![INFOSEC_ID@],
            seq![SemesterType::Winter],
            false,
        ),
        module_view(
            ModuleType::Lecture { is_root: true },
            12,
            DegreeView::Master(seq![Speciality::Robotics]),
            "Robotik"@,
            ROBOTICS_ID@,
            seq![LA2_ID@],
            seq![SemesterType::Winter],
            false,
        ),
        module_view(
            ModuleType::Lecture { is_root: false },
            10,
            DegreeView::Master(seq![Speciality::Theoretics]),
            "Formsys2: Theorie"@,
            "M-INFO-100841"@,
            seq![FORMSYS_ID@],
            seq![SemesterType::Summer],
            false,
        ),
        module_view(
            ModuleType::Lecture { is_root: false },
            10,
            DegreeView::Master(seq![Speciality::Theoretics, Speciality::SoftwareEngineering]),
            "Formsys2: Anwendung"@,
            "M-INFO-100744"@,
            seq![FORMSYS_ID@],
            seq![SemesterType::Summer],
            false,
        ),
        module_view(
            ModuleType::Lecture { is_root: false },
            10,
            DegreeView::Master(seq![Speciality::Theoretics]),
            "SAT Solving in der Praxis"@,
            PRACTICAL_SAT_ID@,
            seq![FORMSYS_ID@],
            seq![SemesterType::Unknown],
            false,
        ),
        module_view(
            ModuleType::Seminar { is_pro: false },
            8,
            DegreeView::Master(seq![Speciality::Theoretics, Speciality::Algorithms, Speciality::Parallelism]),
            "Algorithm Engineering"@,
            "M-INFO-106086"@,
            seq![ALGO2_ID@],
            seq![SemesterType::Unknown],
            false,
        ),
        module_view(
            ModuleType::Lecture { is_root: false },
            10,
            DegreeView::Master(seq![Speciality::Theoretics, Speciality::Algorithms]),
            "Algorithmische Graphentheorie"@,
            "M-INFO-100762"@,
            seq![ALGO2_ID@],
            seq![SemesterType::Unknown],
            false,
        ),
        module_view(
            ModuleType::Lecture { is_root: false },
            10,
            DegreeView::Master(seq![Speciality::Theoretics, Speciality::SoftwareEngineering]),
            "Constructive logic / anderes Modul ( :( )von Platzer (Compilerbau) :pray:"@,
            "M-INFO-106256"@,
            seq![FORMSYS_ID@],
            seq![SemesterType::Summer],
            true,
        ),
        module_view(
            ModuleType::Lecture { is_root: false },
            10,
            DegreeView::Master(seq![Speciality::Theoretics, Speciality::SoftwareEngineering]),
            "Logical foundations of cyber-physical systems"@,
            "M-INFO-106102"@,
            seq![FORMSYS_ID@],
            seq![SemesterType::Winter],
            true,
        ),
        module_view(
            ModuleType::Lecture { is_root: false },
            12,
            DegreeView::Master(seq![Speciality::Theoretics, Speciality::Algorithms]),
            "Fine-grained complexity theory and algorithms"@,
            "M-INFO-106644"@,
            seq![],
            seq![SemesterType::Unknown],
            false,
        ),
        module_view(
            ModuleType::Lecture { is_root: false },
            12,
            DegreeView::Master(seq![Speciality::Theoretics, Speciality::Algorithms]),
            "Parametrisierte Algorithmen"@,
            "M-INFO-105621"@,
            seq![ALGO1_ID@],
            seq![SemesterType::Unknown],
            true,
        ),
        module_view(
            ModuleType::Lecture { is_root: false },
            10,
            DegreeView::Master(seq![Speciality::Algorithms, Speciality::Parallelism]),
            "Parallele Algorithmen"@,
            "M-INFO-100796"@,
            seq![ALGO2_ID@],
            seq![SemesterType::Winter],
            false,
        ),
        module_view(
            ModuleType::Seminar { is_pro: false },
            8,
            DegreeView::Master(seq![Speciality::Theoretics, Speciality::Algorithms]),
            "Seminar: Fine-grained complexity theory and algorithms"@,
            "M-INFO-106645"@,
            seq![],
            seq![SemesterType::Unknown],
            false,
        ),
        module_view(
            ModuleType::Seminar { is_pro: false },
            6,
            DegreeView::Master(seq![Speciality::Theoretics, Speciality::Algorithms]),
            "Fortgeschrittene Themen zu SAT Solving"@,
            "M-INFO-106085"@,
            seq![PRACTICAL_SAT_ID@],
            seq![SemesterType::Winter],
            false,
        ),
        module_view(
            ModuleType::Lecture { is_root: false },
            12,
            DegreeView::Master(seq![Speciality::Theoretics, Speciality::Robotics, Speciality::AiOverlords]),
            "Unscharfe Mengen"@,
            "M-INFO-100839"@,
            seq![FORMSYS_ID@],
            seq![SemesterType::Summer],
            false,
        ),
        module_view(
            ModuleType::Lecture { is_root: false },
            10,
            DegreeView::Master(seq![Speciality::Algorithms]),
            "Routenplanung"@,
            "M-INFO-100031"@,
            seq![ALGO2_ID@],
            seq![SemesterType::Summer],
            true,
        ),
        module_view(
            ModuleType::Lecture { is_root: false },
            10,
            DegreeView::Master(seq![Speciality::Theoretics, Speciality::Algorithms]),
            "Randomisierte Algorithmik"@,
            "M-INFO-106469"@,
            seq![WT_ID@, ALGO2_ID@],
            seq![SemesterType::Winter],
            false,
        ),
        module_view(
            ModuleType::Lecture { is_root: false },
            10,
            DegreeView::Master(seq![Speciality::Security]),
            "Theoretische Grundlagen der Kryptographie"@,
            "M-INFO-105584"@,
            seq![ITSEC_ID@],
            seq![SemesterType::Winter],
            false,
        ),
        module_view(
            ModuleType::Seminar { is_pro: false },
            6,
            DegreeView::Master(seq![Speciality::Security]),
            "Kryptoanalyse"@,
            "M-INFO-105337"@,
            seq![ITSEC_ID@],
            seq![SemesterType::Summer],
            false,
        ),
        module_view(
            ModuleType::Lab,
            8,
            DegreeView::Master(seq![Speciality::Security]),
            "Appsec"@,
            "M-INFO-103166"@,
            seq![],
            seq![SemesterType::Winter],
            true,
        ),
        module_view(
            ModuleType::Lecture { is_root: false },
            10,
            DegreeView::Master(seq![Speciality::ComputerGraphics]),
            "CG2"@,
            "M-INFO-106685"@,
            seq![CG_ID@],
            seq![SemesterType::Summer],
            false,
        ),
        module_view(
            ModuleType::Lecture { is_root: false },
            10,
            DegreeView::Master(seq![Speciality::ComputerGraphics]),
            "FotoBS"@,
            FOTO_BS_ID@,
            seq![CG_ID@],
            seq![SemesterType::Winter],
            true,
        ),
        module_view(
            ModuleType::Lecture { is_root: false },
            10,
            DegreeView::Master(seq![Speciality::ComputerGraphics]),
            "Visualisierung"@,
            VISUALIZATION_ID@,
            seq![CG_ID@],
            seq![SemesterType::Summer],
            false,
        ),
        module_view(
            ModuleType::Lab,
            12,
            DegreeView::Master(seq![Speciality::ComputerGraphics]),
            "Scientific Visualization"@,
            "M-INFO-106686"@,
            seq![VISUALIZATION_ID@, CG_ID@],
            seq![SemesterType::Winter, SemesterType::Summer],
            false,
        ),
        module_view(
            ModuleType::Lab,
            12,
            DegreeView::Master(seq![Speciality::ComputerGraphics]),
            "Rendering in CGI"@,
            "M-INFO-106687"@,
            seq![CG_ID@, FOTO_BS_ID@],
            seq![SemesterType::Winter, SemesterType::Summer],
            false,
        ),
        module_view(
            ModuleType::Lecture { is_root: false },
            6,
            DegreeView::Master(seq![Speciality::Security, Speciality::SystemArchitecture]),
            "Virtuelle Systeme"@,
            "M-INFO-108867"@,
            seq![OS_ID@],
            seq![SemesterType::Winter],
            true,
        ),
        module_view(
            ModuleType::Seminar { is_pro: false },
            6,
            DegreeView::Master(seq![Speciality::SystemArchitecture]),
            "Seminar Betriebssysteme"@,
            "M-INFO-101540"@,
            seq![OS_ID@],
            seq![SemesterType::Unknown],
            false,
        ),
        module_view(
            ModuleType::Seminar { is_pro: false },
            12,
            DegreeView::Master(seq![Speciality::SystemArchitecture]),
            "Seminar Betriebssysteme für fortgeschrittene"@,
            "M-INFO-100849"@,
            seq![OS_ID@],
            seq![SemesterType::Summer],
            false,
        ),
    ]
}

/// The elective Master modules of the catalog.
pub fn elective_modules() -> (r: Vec<Module>)
    ensures
        r@.map_values(|m: Module| m@) == electives(),
{
    let cg = module(
        ModuleType::Lecture { is_root: true },
        12,
        Degree::Master(vec![Speciality::ComputerGraphics]),
        "Computergrafik",
        CG_ID,
        vec![LA2_ID],
        vec![SemesterType::Winter],
        false,
    );
    assert(cg@ == module_view(
        ModuleType::Lecture { is_root: true },
        12,
        DegreeView::Master(seq![Speciality::ComputerGraphics]),
        "Computergrafik"@,
        CG_ID@,
        seq![LA2_ID@],
        seq![SemesterType::Winter],
        false,
    )) by {
        assert(cg@.requirements =~= seq![LA2_ID@]);
        assert(cg@.semesters =~= seq![SemesterType::Winter]);
        assert(cg@.degree->Master_0 =~= seq![Speciality::ComputerGraphics]);
    }
    let algo2 = module(
        ModuleType::Lecture { is_root: true },
        12,
        Degree::Master(vec![Speciality::Theoretics, Speciality::Algorithms]),
        "Algo II",
        ALGO2_ID,
        vec![ALGO1_ID],
        vec![SemesterType::Winter],
        false,
    );
    assert(algo2@ == module_view(
        ModuleType::Lecture { is_root: true },
        12,
        DegreeView::Master(seq![Speciality::Theoretics, Speciality::Algorithms]),
        "Algo II"@,
        ALGO2_ID@,
        seq![ALGO1_ID@],
        seq![SemesterType::Winter],
        false,
    )) by {
        assert(algo2@.requirements =~= seq![ALGO1_ID@]);
        assert(algo2@.semesters =~= seq![SemesterType::Winter]);
        assert(algo2@.degree->Master_0 =~= seq![Speciality::Theoretics, Speciality::Algorithms]);
    }
    let itsec = module(
        ModuleType::Lecture { is_root: true },
        12,
        Degree::Master(vec![Speciality::Security]),
        "ITSec",
        ITSEC_ID,
        vec![INFOSEC_ID],
        vec![SemesterType::Winter],
        false,
    );
    assert(itsec@ == module_view(
        ModuleType::Lecture { is_root: true },
        12,
        DegreeView::Master(seq![Speciality::Security]),
        "ITSec"@,
        ITSEC_ID@,
        seq![INFOSEC_ID@],
        seq![SemesterType::Winter],
        false,
    )) by {
        assert(itsec@.requirements =~= seq![INFOSEC_ID@]);
        assert(itsec@.semesters =~= seq![SemesterType::Winter]);
        assert(itsec@.degree->Master_0 =~= seq![Speciality::Security]);
    }
    let robotics = module(
        ModuleType::Lecture { is_root: true },
        12,
        Degree::Master(vec![Speciality::Robotics]),
        "Robotik",
        ROBOTICS_ID,
        vec![LA2_ID],
        vec![SemesterType::Winter],
        false,
    );
    assert(robotics@ == module_view(
        ModuleType::Lecture { is_root: true },
        12,
        DegreeView::Master(seq![Speciality::Robotics]),
        "Robotik"@,
        ROBOTICS_ID@,
        seq![LA2_ID@],
        seq![SemesterType::Winter],
        false,
    )) by {
        assert(robotics@.requirements =~= seq![LA2_ID@]);
        assert(robotics@.semesters =~= seq![SemesterType::Winter]);
        assert(robotics@.degree->Master_0 =~= seq![Speciality::Robotics]);
    }
    let formsys2_therory = module(
        ModuleType::Lecture { is_root: false },
        10,
        Degree::Master(vec![Speciality::Theoretics]),
        "Formsys2: Theorie",
        "M-INFO-100841",
        vec![FORMSYS_ID],
        vec![SemesterType::Summer],
        false,
    );
    assert(formsys2_therory@ == module_view(
        ModuleType::Lecture { is_root: false },
        10,
        DegreeView::Master(seq![Speciality::Theoretics]),
        "Formsys2: Theorie"@,
        "M-INFO-100841"@,
        seq![FORMSYS_ID@],
        seq![SemesterType::Summer],
        false,
    )) by {
        assert(formsys2_therory@.requirements =~= seq![FORMSYS_ID@]);
        assert(formsys2_therory@.semesters =~= seq![SemesterType::Summer]);
        assert(formsys2_therory@.degree->Master_0 =~= seq![Speciality::Theoretics]);
    }
    let formsys2_application = module(
        ModuleType::Lecture { is_root: false },
        10,
        Degree::Master(vec![Speciality::Theoretics, Speciality::SoftwareEngineering]),
        "Formsys2: Anwendung",
        "M-INFO-100744",
        vec![FORMSYS_ID],
        vec![SemesterType::Summer],
        false,
    );
    assert(formsys2_application@ == module_view(
        ModuleType::Lecture { is_root: false },
        10,
        DegreeView::Master(seq![Speciality::Theoretics, Speciality::SoftwareEngineering]),
        "Formsys2: Anwendung"@,
        "M-INFO-100744"@,
        seq![FORMSYS_ID@],
        seq![SemesterType::Summer],
        false,
    )) by {
        assert(formsys2_application@.requirements =~= seq![FORMSYS_ID@]);
        assert(formsys2_application@.semesters =~= seq![SemesterType::Summer]);
        assert(formsys2_application@.degree->Master_0 =~= seq![Speciality::Theoretics, Speciality::SoftwareEngineering]);
    }
    let practical_sat_solving = module(
        ModuleType::Lecture { is_root: false },
        10,
        Degree::Master(vec![Speciality::Theoretics]),
        "SAT Solving in der Praxis",
        PRACTICAL_SAT_ID,
        vec![FORMSYS_ID],
        vec![SemesterType::Unknown],
        false,
    );
    assert(practical_sat_solving@ == module_view(
        ModuleType::Lecture { is_root: false },
        10,
        DegreeView::Master(seq![Speciality::Theoretics]),
        "SAT Solving in der Praxis"@,
        PRACTICAL_SAT_ID@,
        seq![FORMSYS_ID@],
        seq![SemesterType::Unknown],
        false,
    )) by {
        assert(practical_sat_solving@.requirements =~= seq![FORMSYS_ID@]);
        assert(practical_sat_solving@.semesters =~= seq![SemesterType::Unknown]);
        assert(practical_sat_solving@.degree->Master_0 =~= seq![Speciality::Theoretics]);
    }
    let algorithm_engineering = module(
        ModuleType::Seminar { is_pro: false },
        8,
        Degree::Master(vec![Speciality::Theoretics, Speciality::Algorithms, Speciality::Parallelism]),
        "Algorithm Engineering",
        "M-INFO-106086",
        vec![ALGO2_ID],
        vec![SemesterType::Unknown],
        false,
    );
    assert(algorithm_engineering@ == module_view(
        ModuleType::Seminar { is_pro: false },
        8,
        DegreeView::Master(seq![Speciality::Theoretics, Speciality::Algorithms, Speciality::Parallelism]),
        "Algorithm Engineering"@,
        "M-INFO-106086"@,
        seq![ALGO2_ID@],
        seq![SemesterType::Unknown],
        false,
    )) by {
        assert(algorithm_engineering@.requirements =~= seq![ALGO2_ID@]);
        assert(algorithm_engineering@.semesters =~= seq![SemesterType::Unknown]);
        assert(algorithm_engineering@.degree->Master_0 =~= seq![Speciality::Theoretics, Speciality::Algorithms, Speciality::Parallelism]);
    }
    let clogic = module(
        ModuleType::Lecture { is_root: false },
        10,
        Degree::Master(vec![Speciality::Theoretics, Speciality::SoftwareEngineering]),
        "Constructive logic / anderes Modul ( :( )von Platzer (Compilerbau) :pray:",
        "M-INFO-106256",
        vec![FORMSYS_ID],
        vec![SemesterType::Summer],
        true,
    );
    assert(clogic@ == module_view(
        ModuleType::Lecture { is_root: false },
        10,
        DegreeView::Master(seq![Speciality::Theoretics, Speciality::SoftwareEngineering]),
        "Constructive logic / anderes Modul ( :( )von Platzer (Compilerbau) :pray:"@,
        "M-INFO-106256"@,
        seq![FORMSYS_ID@],
        seq![SemesterType::Summer],
        true,
    )) by {
        assert(clogic@.requirements =~= seq![FORMSYS_ID@]);
        assert(clogic@.semesters =~= seq![SemesterType::Summer]);
        assert(clogic@.degree->Master_0 =~= seq![Speciality::Theoretics, Speciality::SoftwareEngineering]);
    }
    let cps_logical_foundations = module(
        ModuleType::Lecture { is_root: false },
        10,
        Degree::Master(vec![Speciality::Theoretics, Speciality::SoftwareEngineering]),
        "Logical foundations of cyber-physical systems",
        "M-INFO-106102",
        vec![FORMSYS_ID],
        vec![SemesterType::Winter],
        true,
    );
    assert(cps_logical_foundations@ == module_view(
        ModuleType::Lecture { is_root: false },
        10,
        DegreeView::Master(seq![Speciality::Theoretics, Speciality::SoftwareEngineering]),
        "Logical foundations of cyber-physical systems"@,
        "M-INFO-106102"@,
        seq![FORMSYS_ID@],
        seq![SemesterType::Winter],
        true,
    )) by {
        assert(cps_logical_foundations@.requirements =~= seq![FORMSYS_ID@]);
        assert(cps_logical_foundations@.semesters =~= seq![SemesterType::Winter]);
        assert(cps_logical_foundations@.degree->Master_0 =~= seq![Speciality::Theoretics, Speciality::SoftwareEngineering]);
    }
    let complexity_theory = module(
        ModuleType::Lecture { is_root: false },
        12,
        Degree::Master(vec![Speciality::Theoretics, Speciality::Algorithms]),
        "Fine-grained complexity theory and algorithms",
        "M-INFO-106644",
        Vec::new(),
        vec![SemesterType::Unknown],
        false,
    );
    assert(complexity_theory@ == module_view(
        ModuleType::Lecture { is_root: false },
        12,
        DegreeView::Master(seq![Speciality::Theoretics, Speciality::Algorithms]),
        "Fine-grained complexity theory and algorithms"@,
        "M-INFO-106644"@,
        seq![],
        seq![SemesterType::Unknown],
        false,
    )) by {
        assert(complexity_theory@.requirements =~= seq![]);
        assert(complexity_theory@.semesters =~= seq![SemesterType::Unknown]);
        assert(complexity_theory@.degree->Master_0 =~= seq![Speciality::Theoretics, Speciality::Algorithms]);
    }
    let parameterized_algos = module(
        ModuleType::Lecture { is_root: false },
        12,
        Degree::Master(vec![Speciality::Theoretics, Speciality::Algorithms]),
        "Parametrisierte Algorithmen",
        "M-INFO-105621",
        vec![ALGO1_ID],
        vec![SemesterType::Unknown],
        true,
    );
    assert(parameterized_algos@ == module_view(
        ModuleType::Lecture { is_root: false },
        12,
        DegreeView::Master(seq![Speciality::Theoretics, Speciality::Algorithms]),
        "Parametrisierte Algorithmen"@,
        "M-INFO-105621"@,
        seq![ALGO1_ID@],
        seq![SemesterType::Unknown],
        true,
    )) by {
        assert(parameterized_algos@.requirements =~= seq![ALGO1_ID@]);
        assert(parameterized_algos@.semesters =~= seq![SemesterType::Unknown]);
        assert(parameterized_algos@.degree->Master_0 =~= seq![Speciality::Theoretics, Speciality::Algorithms]);
    }
    let seminar_complexity_theory = module(
        ModuleType::Seminar { is_pro: false },
        8,
        Degree::Master(vec![Speciality::Theoretics, Speciality::Algorithms]),
        "Seminar: Fine-grained complexity theory and algorithms",
        "M-INFO-106645",
        Vec::new(),
        vec![SemesterType::Unknown],
        false,
    );
    assert(seminar_complexity_theory@ == module_view(
        ModuleType::Seminar { is_pro: false },
        8,
        DegreeView::Master(seq![Speciality::Theoretics, Speciality::Algorithms]),
        "Seminar: Fine-grained complexity theory and algorithms"@,
        "M-INFO-106645"@,
        seq![],
        seq![SemesterType::Unknown],
        false,
    )) by {
        assert(seminar_complexity_theory@.requirements =~= seq![]);
        assert(seminar_complexity_theory@.semesters =~= seq![SemesterType::Unknown]);
        assert(seminar_complexity_theory@.degree->Master_0 =~= seq![Speciality::Theoretics, Speciality::Algorithms]);
    }
    let advanced_sat_solving = module(
        ModuleType::Seminar { is_pro: false },
        6,
        Degree::Master(vec![Speciality::Theoretics, Speciality::Algorithms]),
        "Fortgeschrittene Themen zu SAT Solving",
        "M-INFO-106085",
        vec![PRACTICAL_SAT_ID],
        vec![SemesterType::Winter],
        false,
    );
    assert(advanced_sat_solving@ == module_view(
        ModuleType::Seminar { is_pro: false },
        6,
        DegreeView::Master(seq![Speciality::Theoretics, Speciality::Algorithms]),
        "Fortgeschrittene Themen zu SAT Solving"@,
        "M-INFO-106085"@,
        seq![PRACTICAL_SAT_ID@],
        seq![SemesterType::Winter],
        false,
    )) by {
        assert(advanced_sat_solving@.requirements =~= seq![PRACTICAL_SAT_ID@]);
        assert(advanced_sat_solving@.semesters =~= seq![SemesterType::Winter]);
        assert(advanced_sat_solving@.degree->Master_0 =~= seq![Speciality::Theoretics, Speciality::Algorithms]);
    }
    let fuzzy_sets = module(
        ModuleType::Lecture { is_root: false },
        12,
        Degree::Master(vec![Speciality::Theoretics, Speciality::Robotics, Speciality::AiOverlords]),
        "Unscharfe Mengen",
        "M-INFO-100839",
        vec![FORMSYS_ID],
        vec![SemesterType::Summer],
        false,
    );
    assert(fuzzy_sets@ == module_view(
        ModuleType::Lecture { is_root: false },
        12,
        DegreeView::Master(seq![Speciality::Theoretics, Speciality::Robotics, Speciality::AiOverlords]),
        "Unscharfe Mengen"@,
        "M-INFO-100839"@,
        seq![FORMSYS_ID@],
        seq![SemesterType::Summer],
        false,
    )) by {
        assert(fuzzy_sets@.requirements =~= seq![FORMSYS_ID@]);
        assert(fuzzy_sets@.semesters =~= seq![SemesterType::Summer]);
        assert(fuzzy_sets@.degree->Master_0 =~= seq![Speciality::Theoretics, Speciality::Robotics, Speciality::AiOverlords]);
    }
    let route_planning = module(
        ModuleType::Lecture { is_root: false },
        10,
        Degree::Master(vec![Speciality::Algorithms]),
        "Routenplanung",
        "M-INFO-100031",
        vec![ALGO2_ID],
        vec![SemesterType::Summer],
        true,
    );
    assert(route_planning@ == module_view(
        ModuleType::Lecture { is_root: false },
        10,
        DegreeView::Master(seq![Speciality::Algorithms]),
        "Routenplanung"@,
        "M-INFO-100031"@,
        seq![ALGO2_ID@],
        seq![SemesterType::Summer],
        true,
    )) by {
        assert(route_planning@.requirements =~= seq![ALGO2_ID@]);
        assert(route_planning@.semesters =~= seq![SemesterType::Summer]);
        assert(route_planning@.degree->Master_0 =~= seq![Speciality::Algorithms]);
    }
    let algorithmic_graph_theory = module(
        ModuleType::Lecture { is_root: false },
        10,
        Degree::Master(vec![Speciality::Theoretics, Speciality::Algorithms]),
        "Algorithmische Graphentheorie",
        "M-INFO-100762",
        vec![ALGO2_ID],
        vec![SemesterType::Unknown],
        false,
    );
    assert(algorithmic_graph_theory@ == module_view(
        ModuleType::Lecture { is_root: false },
        10,
        DegreeView::Master(seq![Speciality::Theoretics, Speciality::Algorithms]),
        "Algorithmische Graphentheorie"@,
        "M-INFO-100762"@,
        seq![ALGO2_ID@],
        seq![SemesterType::Unknown],
        false,
    )) by {
        assert(algorithmic_graph_theory@.requirements =~= seq![ALGO2_ID@]);
        assert(algorithmic_graph_theory@.semesters =~= seq![SemesterType::Unknown]);
        assert(algorithmic_graph_theory@.degree->Master_0 =~= seq![Speciality::Theoretics, Speciality::Algorithms]);
    }
    let parallel_algorithms = module(
        ModuleType::Lecture { is_root: false },
        10,
        Degree::Master(vec![Speciality::Algorithms, Speciality::Parallelism]),
        "Parallele Algorithmen",
        "M-INFO-100796",
        vec![ALGO2_ID],
        vec![SemesterType::Winter],
        false,
    );
    assert(parallel_algorithms@ == module_view(
        ModuleType::Lecture { is_root: false },
        10,
        DegreeView::Master(seq![Speciality::Algorithms, Speciality::Parallelism]),
        "Parallele Algorithmen"@,
        "M-INFO-100796"@,
        seq![ALGO2_ID@],
        seq![SemesterType::Winter],
        false,
    )) by {
        assert(parallel_algorithms@.requirements =~= seq![ALGO2_ID@]);
        assert(parallel_algorithms@.semesters =~= seq![SemesterType::Winter]);
        assert(parallel_algorithms@.degree->Master_0 =~= seq![Speciality::Algorithms, Speciality::Parallelism]);
    }
    let randomized_algorithmic = module(
        ModuleType::Lecture { is_root: false },
        10,
        Degree::Master(vec![Speciality::Theoretics, Speciality::Algorithms]),
        "Randomisierte Algorithmik",
        "M-INFO-106469",
        vec![WT_ID, ALGO2_ID],
        vec![SemesterType::Winter],
        false,
    );
    assert(randomized_algorithmic@ == module_view(
        ModuleType::Lecture { is_root: false },
        10,
        DegreeView::Master(seq![Speciality::Theoretics, Speciality::Algorithms]),
        "Randomisierte Algorithmik"@,
        "M-INFO-106469"@,
        seq![WT_ID@, ALGO2_ID@],
        seq![SemesterType::Winter],
        false,
    )) by {
        assert(randomized_algorithmic@.requirements =~= seq![WT_ID@, ALGO2_ID@]);
        assert(randomized_algorithmic@.semesters =~= seq![SemesterType::Winter]);
        assert(randomized_algorithmic@.degree->Master_0 =~= seq![Speciality::Theoretics, Speciality::Algorithms]);
    }
    let crypto_foundations = module(
        ModuleType::Lecture { is_root: false },
        10,
        Degree::Master(vec![Speciality::Security]),
        "Theoretische Grundlagen der Kryptographie",
        "M-INFO-105584",
        vec![ITSEC_ID],
        vec![SemesterType::Winter],
        false,
    );
    assert(crypto_foundations@ == module_view(
        ModuleType::Lecture { is_root: false },
        10,
        DegreeView::Master(seq![Speciality::Security]),
        "Theoretische Grundlagen der Kryptographie"@,
        "M-INFO-105584"@,
        seq![ITSEC_ID@],
        seq![SemesterType::Winter],
        false,
    )) by {
        assert(crypto_foundations@.requirements =~= seq![ITSEC_ID@]);
        assert(crypto_foundations@.semesters =~= seq![SemesterType::Winter]);
        assert(crypto_foundations@.degree->Master_0 =~= seq![Speciality::Security]);
    }
    let appsec = module(
        ModuleType::Lab,
        8,
        Degree::Master(vec![Speciality::Security]),
        "Appsec",
        "M-INFO-103166",
        Vec::new(),
        vec![SemesterType::Winter],
        true,
    );
    assert(appsec@ == module_view(
        ModuleType::Lab,
        8,
        DegreeView::Master(seq![Speciality::Security]),
        "Appsec"@,
        "M-INFO-103166"@,
        seq![],
        seq![SemesterType::Winter],
        true,
    )) by {
        assert(appsec@.requirements =~= seq![]);
        assert(appsec@.semesters =~= seq![SemesterType::Winter]);
        assert(appsec@.degree->Master_0 =~= seq![Speciality::Security]);
    }
    let cryptanalysis = module(
        ModuleType::Seminar { is_pro: false },
        6,
        Degree::Master(vec![Speciality::Security]),
        "Kryptoanalyse",
        "M-INFO-105337",
        vec![ITSEC_ID],
        vec![SemesterType::Summer],
        false,
    );
    assert(cryptanalysis@ == module_view(
        ModuleType::Seminar { is_pro: false },
        6,
        DegreeView::Master(seq![Speciality::Security]),
        "Kryptoanalyse"@,
        "M-INFO-105337"@,
        seq![ITSEC_ID@],
        seq![SemesterType::Summer],
        false,
    )) by {
        assert(cryptanalysis@.requirements =~= seq![ITSEC_ID@]);
        assert(cryptanalysis@.semesters =~= seq![SemesterType::Summer]);
        assert(cryptanalysis@.degree->Master_0 =~= seq![Speciality::Security]);
    }
    let cg2 = module(
        ModuleType::Lecture { is_root: false },
        10,
        Degree::Master(vec![Speciality::ComputerGraphics]),
        "CG2",
        "M-INFO-106685",
        vec![CG_ID],
        vec![SemesterType::Summer],
        false,
    );
    assert(cg2@ == module_view(
        ModuleType::Lecture { is_root: false },
        10,
        DegreeView::Master(seq![Speciality::ComputerGraphics]),
        "CG2"@,
        "M-INFO-106685"@,
        seq![CG_ID@],
        seq![SemesterType::Summer],
        false,
    )) by {
        assert(cg2@.requirements =~= seq![CG_ID@]);
        assert(cg2@.semesters =~= seq![SemesterType::Summer]);
        assert(cg2@.degree->Master_0 =~= seq![Speciality::ComputerGraphics]);
    }
    let foto_bs = module(
        ModuleType::Lecture { is_root: false },
        10,
        Degree::Master(vec![Speciality::ComputerGraphics]),
        "FotoBS",
        FOTO_BS_ID,
        vec![CG_ID],
        vec![SemesterType::Winter],
        true,
    );
    assert(foto_bs@ == module_view(
        ModuleType::Lecture { is_root: false },
        10,
        DegreeView::Master(seq![Speciality::ComputerGraphics]),
        "FotoBS"@,
        FOTO_BS_ID@,
        seq![CG_ID@],
        seq![SemesterType::Winter],
        true,
    )) by {
        assert(foto_bs@.requirements =~= seq![CG_ID@]);
        assert(foto_bs@.semesters =~= seq![SemesterType::Winter]);
        assert(foto_bs@.degree->Master_0 =~= seq![Speciality::ComputerGraphics]);
    }
    let visualization = module(
        ModuleType::Lecture { is_root: false },
        10,
        Degree::Master(vec![Speciality::ComputerGraphics]),
        "Visualisierung",
        VISUALIZATION_ID,
        vec![CG_ID],
        vec![SemesterType::Summer],
        false,
    );
    assert(visualization@ == module_view(
        ModuleType::Lecture { is_root: false },
        10,
        DegreeView::Master(seq![Speciality::ComputerGraphics]),
        "Visualisierung"@,
        VISUALIZATION_ID@,
        seq![CG_ID@],
        seq![SemesterType::Summer],
        false,
    )) by {
        assert(visualization@.requirements =~= seq![CG_ID@]);
        assert(visualization@.semesters =~= seq![SemesterType::Summer]);
        assert(visualization@.degree->Master_0 =~= seq![Speciality::ComputerGraphics]);
    }
    let scientific_visualization = module(
        ModuleType::Lab,
        12,
        Degree::Master(vec![Speciality::ComputerGraphics]),
        "Scientific Visualization",
        "M-INFO-106686",
        vec![VISUALIZATION_ID, CG_ID],
        vec![SemesterType::Winter, SemesterType::Summer],
        false,
    );
    assert(scientific_visualization@ == module_view(
        ModuleType::Lab,
        12,
        DegreeView::Master(seq![Speciality::ComputerGraphics]),
        "Scientific Visualization"@,
        "M-INFO-106686"@,
        seq![VISUALIZATION_ID@, CG_ID@],
        seq![SemesterType::Winter, SemesterType::Summer],
        false,
    )) by {
        assert(scientific_visualization@.requirements =~= seq![VISUALIZATION_ID@, CG_ID@]);
        assert(scientific_visualization@.semesters =~= seq![SemesterType::Winter, SemesterType::Summer]);
        assert(scientific_visualization@.degree->Master_0 =~= seq![Speciality::ComputerGraphics]);
    }
    let rendering = module(
        ModuleType::Lab,
        12,
        Degree::Master(vec![Speciality::ComputerGraphics]),
        "Rendering in CGI",
        "M-INFO-106687",
        vec![CG_ID, FOTO_BS_ID],
        vec![SemesterType::Winter, SemesterType::Summer],
        false,
    );
    assert(rendering@ == module_view(
        ModuleType::Lab,
        12,
        DegreeView::Master(seq![Speciality::ComputerGraphics]),
        "Rendering in CGI"@,
        "M-INFO-106687"@,
        seq![CG_ID@, FOTO_BS_ID@],
        seq![SemesterType::Winter, SemesterType::Summer],
        false,
    )) by {
        assert(rendering@.requirements =~= seq![CG_ID@, FOTO_BS_ID@]);
        assert(rendering@.semesters =~= seq![SemesterType::Winter, SemesterType::Summer]);
        assert(rendering@.degree->Master_0 =~= seq![Speciality::ComputerGraphics]);
    }
    let virtual_systems = module(
        ModuleType::Lecture { is_root: false },
        6,
        Degree::Master(vec![Speciality::Security, Speciality::SystemArchitecture]),
        "Virtuelle Systeme",
        "M-INFO-108867",
        vec![OS_ID],
        vec![SemesterType::Winter],
        true,
    );
    assert(virtual_systems@ == module_view(
        ModuleType::Lecture { is_root: false },
        6,
        DegreeView::Master(seq![Speciality::Security, Speciality::SystemArchitecture]),
        "Virtuelle Systeme"@,
        "M-INFO-108867"@,
        seq![OS_ID@],
        seq![SemesterType::Winter],
        true,
    )) by {
        assert(virtual_systems@.requirements =~= seq![OS_ID@]);
        assert(virtual_systems@.semesters =~= seq![SemesterType::Winter]);
        assert(virtual_systems@.degree->Master_0 =~= seq![Speciality::Security, Speciality::SystemArchitecture]);
    }
    let os_seminar = module(
        ModuleType::Seminar { is_pro: false },
        6,
        Degree::Master(vec![Speciality::SystemArchitecture]),
        "Seminar Betriebssysteme",
        "M-INFO-101540",
        vec![OS_ID],
        vec![SemesterType::Unknown],
        false,
    );
    assert(os_seminar@ == module_view(
        ModuleType::Seminar { is_pro: false },
        6,
        DegreeView::Master(seq![Speciality::SystemArchitecture]),
        "Seminar Betriebssysteme"@,
        "M-INFO-101540"@,
        seq![OS_ID@],
        seq![SemesterType::Unknown],
        false,
    )) by {
        assert(os_seminar@.requirements =~= seq![OS_ID@]);
        assert(os_seminar@.semesters =~= seq![SemesterType::Unknown]);
        assert(os_seminar@.degree->Master_0 =~= seq![Speciality::SystemArchitecture]);
    }
    let advanced_os_seminar = module(
        ModuleType::Seminar { is_pro: false },
        12,
        Degree::Master(vec![Speciality::SystemArchitecture]),
        "Seminar Betriebssysteme für fortgeschrittene",
        "M-INFO-100849",
        vec![OS_ID],
        vec![SemesterType::Summer],
        false,
    );
    assert(advanced_os_seminar@ == module_view(
        ModuleType::Seminar { is_pro: false },
        12,
        DegreeView::Master(seq![Speciality::SystemArchitecture]),
        "Seminar Betriebssysteme für fortgeschrittene"@,
        "M-INFO-100849"@,
        seq![OS_ID@],
        seq![SemesterType::Summer],
        false,
    )) by {
        assert(advanced_os_seminar@.requirements =~= seq![OS_ID@]);
        assert(advanced_os_seminar@.semesters =~= seq![SemesterType::Summer]);
        assert(advanced_os_seminar@.degree->Master_0 =~= seq![Speciality::SystemArchitecture]);
    }
    let r: Vec<Module> = vec![cg, algo2, itsec, robotics, formsys2_therory, formsys2_application, practical_sat_solving, algorithm_engineering, algorithmic_graph_theory, clogic, cps_logical_foundations, complexity_theory, parameterized_algos, parallel_algorithms, seminar_complexity_theory, advanced_sat_solving, fuzzy_sets, route_planning, randomized_algorithmic, crypto_foundations, cryptanalysis, appsec, cg2, foto_bs, visualization, scientific_visualization, rendering, virtual_systems, os_seminar, advanced_os_seminar];
    assert(r@.map_values(|m: Module| m@) =~= electives());
    r
}

/// The views of the semesters of the sequence.
pub open spec fn sequence() -> Seq<SemesterView> {
    seq![
        bachelor_semester_1(),
        bachelor_semester_2(),
        bachelor_semester_3(),
        bachelor_semester_4(),
        bachelor_semester_5(),
        bachelor_semester_6(),
        bachelor_semester_7(),
        master_semester_1(),
        master_semester_2(),
        master_semester_3(),
        master_semester_4(),
    ]
}

/// The semesters of the sequence, Bachelor first, then Master.
pub fn catalog_semesters() -> (r: Vec<Semester>)
    ensures
        r@.map_values(|s: Semester| s@) == sequence(),
{
    let r: Vec<Semester> = vec![
        get_bachelor_semester_1(),
        get_bachelor_semester_2(),
        get_bachelor_semester_3(),
        get_bachelor_semester_4(),
        get_bachelor_semester_5(),
        get_bachelor_semester_6(),
        get_bachelor_semester_7(),
        get_master_semester_1(),
        get_master_semester_2(),
        get_master_semester_3(),
        get_master_semester_4(),
    ];
    assert(r@.map_values(|s: Semester| s@) =~= sequence());
    r
}

} // verus!
