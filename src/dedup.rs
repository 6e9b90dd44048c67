//! Merges plans that select the same modules in the same degrees, whatever
//! the semesters they place them in.
use crate::model::{Degree, DegreeView, Module, ModuleView, Plan, PlanView, Speciality};
use crate::order::{
    lemma_lex_strict_total, lemma_sorted_unique, lex, strict_total_order, strictly_sorted,
    diverges_at, agree_upto,
};
use vstd::prelude::*;

verus! {

pub open spec fn code_lt() -> spec_fn(u64, u64) -> bool {
    |a: u64, b: u64| a < b
}

/// Order on entry codes: lexicographic on the codes.
pub open spec fn entry_lt() -> spec_fn(Seq<u64>, Seq<u64>) -> bool {
    lex(code_lt())
}

/// Order on canonical keys: lexicographic on their entries.
pub open spec fn key_lt() -> spec_fn(Seq<Seq<u64>>, Seq<Seq<u64>>) -> bool {
    lex(entry_lt())
}

pub proof fn lemma_orders()
    ensures
        strict_total_order(entry_lt()),
        strict_total_order(key_lt()),
{
    let c = code_lt();
    assert(strict_total_order(c));
    lemma_lex_strict_total(c);
    lemma_lex_strict_total(entry_lt());
}

pub open spec fn degree_code(d: DegreeView) -> Seq<u64> {
    match d {
        DegreeView::Bachelor => seq![0u64],
        DegreeView::Master(s) => seq![1u64] + s.map_values(|x: Speciality| (x.spec_index() + 1) as u64)
            + seq![0u64],
    }
}

pub open spec fn char_code(c: char) -> u64 {
    ((c as u32) as u64 + 1) as u64
}

/// A module's identifier and degree as one code: identifier characters
/// shifted up by one, a zero, then the degree. Codes order modules by
/// identifier first and by degree next.
pub open spec fn entry_code(mv: ModuleView) -> Seq<u64> {
    mv.identifier.map_values(|c: char| char_code(c)) + seq![0u64] + degree_code(mv.degree)
}

/// The codes of all modules that the plan places in a semester.
pub open spec fn key_entries(p: PlanView) -> Set<Seq<u64>> {
    Set::new(
        |e: Seq<u64>|
            exists|s: int, q: int|
                0 <= s < p.semesters.len() && 0 <= q < p.semesters[s].modules.len() && e
                    == entry_code(#[trigger] p.semesters[s].modules[q]),
    )
}

pub open spec fn is_canonical_key(k: Seq<Seq<u64>>, p: PlanView) -> bool {
    strictly_sorted(k, entry_lt()) && k.to_set() == key_entries(p)
}

/// The plan's canonical key: its distinct entries, in increasing order.
pub open spec fn canonical_key(p: PlanView) -> Seq<Seq<u64>> {
    choose|k: Seq<Seq<u64>>| is_canonical_key(k, p)
}

pub open spec fn codes(v: Vec<Vec<u64>>) -> Seq<Seq<u64>> {
    v@.map_values(|e: Vec<u64>| e@)
}

fn degree_code_of(d: &Degree) -> (r: Vec<u64>)
    ensures
        r@ == degree_code(d@),
{
    match d {
        Degree::Bachelor => {
            let r = vec![0u64];
            assert(r@ =~= seq![0u64]);
            r
        },
        Degree::Master(s) => {
            let mut r: Vec<u64> = vec![1u64];
            let mut i: usize = 0;
            while i < s.len()
                invariant
                    i <= s@.len(),
                    r@ == seq![1u64] + s@.subrange(0, i as int).map_values(
                        |x: Speciality| (x.spec_index() + 1) as u64,
                    ),
                decreases s@.len() - i,
            {
                let x = s[i].index() as u64 + 1;
                r.push(x);
                i = i + 1;
                assert(r@ =~= seq![1u64] + s@.subrange(0, i as int).map_values(
                    |x: Speciality| (x.spec_index() + 1) as u64,
                ));
            }
            r.push(0);
            assert(s@.subrange(0, i as int) =~= s@);
            assert(r@ =~= degree_code(d@));
            r
        },
    }
}

fn entry_code_of(m: &Module) -> (r: Vec<u64>)
    ensures
        r@ == entry_code(m@),
{
    let id = m.identifier.as_str();
    let n = id.unicode_len();
    let mut r: Vec<u64> = Vec::new();
    let mut i: usize = 0;
    while i < n
        invariant
            i <= n,
            n == id@.len(),
            id@ == m@.identifier,
            r@ == id@.subrange(0, i as int).map_values(|c: char| char_code(c)),
        decreases n - i,
    {
        let c = id.get_char(i);
        r.push((c as u32) as u64 + 1);
        i = i + 1;
        assert(r@ =~= id@.subrange(0, i as int).map_values(|c: char| char_code(c)));
    }
    assert(id@.subrange(0, i as int) =~= id@);
    r.push(0);
    let mut d = degree_code_of(&m.degree);
    let ghost before = r@;
    r.append(&mut d);
    assert(r@ =~= entry_code(m@));
    r
}

/// Compares two codes: -1 below, 0 equal, 1 above.
fn cmp_code(a: &Vec<u64>, b: &Vec<u64>) -> (r: i8)
    ensures
        r == -1 <==> entry_lt()(a@, b@),
        r == 0 <==> a@ == b@,
        r == 1 <==> entry_lt()(b@, a@),
        -1 <= r <= 1,
{
    proof { lemma_orders(); }
    let mut i: usize = 0;
    while i < a.len() && i < b.len()
        invariant
            i <= a@.len(),
            i <= b@.len(),
            agree_upto(a@, b@, i as int),
        decreases a@.len() - i,
    {
        if a[i] < b[i] {
            assert(diverges_at(a@, b@, code_lt(), i as int));
            return -1;
        }
        if a[i] > b[i] {
            assert(diverges_at(b@, a@, code_lt(), i as int));
            return 1;
        }
        i = i + 1;
    }
    if a.len() < b.len() {
        assert(diverges_at(a@, b@, code_lt(), i as int));
        -1
    } else if b.len() < a.len() {
        assert(diverges_at(b@, a@, code_lt(), i as int));
        1
    } else {
        assert(a@ =~= b@);
        0
    }
}

/// Compares two keys: -1 below, 0 equal, 1 above.
fn cmp_key(a: &Vec<Vec<u64>>, b: &Vec<Vec<u64>>) -> (r: i8)
    ensures
        r == -1 <==> key_lt()(codes(*a), codes(*b)),
        r == 0 <==> codes(*a) == codes(*b),
        r == 1 <==> key_lt()(codes(*b), codes(*a)),
        -1 <= r <= 1,
{
    proof { lemma_orders(); }
    let ghost (x, y) = (codes(*a), codes(*b));
    let mut i: usize = 0;
    while i < a.len() && i < b.len()
        invariant
            x == codes(*a),
            y == codes(*b),
            i <= x.len(),
            i <= y.len(),
            agree_upto(x, y, i as int),
        decreases x.len() - i,
    {
        let c = cmp_code(&a[i], &b[i]);
        assert(x[i as int] == a@[i as int]@ && y[i as int] == b@[i as int]@);
        if c == -1 {
            assert(diverges_at(x, y, entry_lt(), i as int));
            return -1;
        }
        if c == 1 {
            assert(diverges_at(y, x, entry_lt(), i as int));
            return 1;
        }
        i = i + 1;
    }
    if a.len() < b.len() {
        assert(diverges_at(x, y, entry_lt(), i as int));
        -1
    } else if b.len() < a.len() {
        assert(diverges_at(y, x, entry_lt(), i as int));
        1
    } else {
        assert(x =~= y);
        0
    }
}

/// Inserts an entry into a strictly increasing list of entries, unless it
/// is there already.
fn insert_entry(keys: &mut Vec<Vec<u64>>, x: Vec<u64>)
    requires
        strictly_sorted(codes(*old(keys)), entry_lt()),
    ensures
        strictly_sorted(codes(*final(keys)), entry_lt()),
        codes(*final(keys)).to_set() == codes(*old(keys)).to_set().insert(x@),
{
    proof { lemma_orders(); }
    let ghost k0 = codes(*keys);
    let ghost xv = x@;
    let mut i: usize = 0;
    let mut above = false;
    while i < keys.len() && !above
        invariant
            k0 == codes(*keys),
            k0 == codes(*old(keys)),
            strictly_sorted(k0, entry_lt()),
            xv == x@,
            i <= k0.len(),
            above ==> i < k0.len() && entry_lt()(xv, k0[i as int]),
            forall|j: int| 0 <= j < i ==> entry_lt()(#[trigger] k0[j], xv),
        decreases k0.len() - i + if above { 0int } else { 1int },
    {
        let c = cmp_code(&keys[i], &x);
        assert(k0[i as int] == keys@[i as int]@);
        if c == 0 {
            assert(k0.to_set().contains(xv));
            assert(k0.to_set().insert(xv) =~= k0.to_set());
            return;
        }
        if c == 1 {
            above = true;
        } else {
            i = i + 1;
        }
    }
    keys.insert(i, x);
    proof {
        let k1 = codes(*keys);
        assert(k1 =~= k0.insert(i as int, xv));
        if i < k0.len() {
            assert(entry_lt()(xv, k0[i as int]));
        }
        assert forall|a: int, b: int| 0 <= a < b < k1.len() implies entry_lt()(#[trigger] k1[a], #[trigger] k1[b]) by {
            if a < i && b == i {
            } else if a < i && b > i {
                assert(k1[b] == k0[b - 1]);
                assert(entry_lt()(k0[a], xv));
                if b - 1 > i {
                    assert(entry_lt()(k0[i as int], k0[b - 1]));
                    assert(entry_lt()(xv, k0[i as int]));
                }
            } else if a == i {
                assert(k1[b] == k0[b - 1]);
                if b - 1 > i {
                    assert(entry_lt()(k0[i as int], k0[b - 1]));
                }
            } else if a > i {
                assert(k1[a] == k0[a - 1] && k1[b] == k0[b - 1]);
            } else {
                assert(k1[a] == k0[a] && k1[b] == k0[b]);
            }
        }
        assert(k1.to_set() =~= k0.to_set().insert(xv)) by {
            assert forall|e: Seq<u64>| k1.to_set().contains(e) <==> k0.to_set().insert(xv).contains(e) by {
                if k1.to_set().contains(e) {
                    let t = choose|t: int| 0 <= t < k1.len() && k1[t] == e;
                    if t < i {
                        assert(k0[t] == e);
                    } else if t > i {
                        assert(k0[t - 1] == e);
                    }
                }
                if k0.to_set().contains(e) {
                    let t = choose|t: int| 0 <= t < k0.len() && k0[t] == e;
                    if t < i {
                        assert(k1[t] == e);
                    } else {
                        assert(k1[t + 1] == e);
                    }
                }
                if e == xv {
                    assert(k1[i as int] == e);
                }
            }
        }
    }
}

/// Codes of the modules in semesters before `s`, and in semester `s`
/// before position `q`.
pub open spec fn entries_before(p: PlanView, s: int, q: int) -> Set<Seq<u64>> {
    Set::new(
        |e: Seq<u64>|
            exists|a: int, b: int|
                0 <= a < p.semesters.len() && 0 <= b < p.semesters[a].modules.len() && (a < s || (a
                    == s && b < q)) && e == entry_code(#[trigger] p.semesters[a].modules[b]),
    )
}

/// The key computed is the plan's canonical key.
proof fn lemma_canonical(k: Seq<Seq<u64>>, p: PlanView)
    requires
        is_canonical_key(k, p),
    ensures
        canonical_key(p) == k,
        is_canonical_key(canonical_key(p), p),
{
    lemma_orders();
    let c = canonical_key(p);
    assert(is_canonical_key(c, p));
    lemma_sorted_unique(c, k, entry_lt());
}

fn canonical_key_of(p: &Plan) -> (r: Vec<Vec<u64>>)
    ensures
        codes(r) == canonical_key(p@),
        is_canonical_key(canonical_key(p@), p@),
{
    let mut keys: Vec<Vec<u64>> = Vec::new();
    proof {
        assert(codes(keys).to_set() =~= entries_before(p@, 0, 0));
    }
    let mut s: usize = 0;
    while s < p.semesters.len()
        invariant
            s <= p@.semesters.len(),
            strictly_sorted(codes(keys), entry_lt()),
            codes(keys).to_set() == entries_before(p@, s as int, 0),
        decreases p@.semesters.len() - s,
    {
        let sem = &p.semesters[s];
        proof { assert(p@.semesters[s as int] == sem@); }
        let mut q: usize = 0;
        while q < sem.modules.len()
            invariant
                s < p@.semesters.len(),
                p@.semesters[s as int] == sem@,
                q <= sem@.modules.len(),
                strictly_sorted(codes(keys), entry_lt()),
                codes(keys).to_set() == entries_before(p@, s as int, q as int),
            decreases sem@.modules.len() - q,
        {
            let e = entry_code_of(&sem.modules[q]);
            proof { assert(sem@.modules[q as int] == sem.modules@[q as int]@); }
            let ghost ev = e@;
            insert_entry(&mut keys, e);
            proof {
                assert(codes(keys).to_set() =~= entries_before(p@, s as int, q + 1)) by {
                    assert forall|x: Seq<u64>| entries_before(p@, s as int, q + 1).contains(x) implies entries_before(p@, s as int, q as int).insert(ev).contains(x) by {
                        let (a, b) = choose|a: int, b: int|
                            0 <= a < p@.semesters.len() && 0 <= b < p@.semesters[a].modules.len() && (a < s || (a
                                == s && b < q + 1)) && x == entry_code(#[trigger] p@.semesters[a].modules[b]);
                        if !(a == s && b == q) {
                            assert(entries_before(p@, s as int, q as int).contains(x));
                        }
                    }
                    assert forall|x: Seq<u64>| entries_before(p@, s as int, q as int).insert(ev).contains(x) implies entries_before(p@, s as int, q + 1).contains(x) by {
                        if x == ev {
                            assert(x == entry_code(p@.semesters[s as int].modules[q as int]));
                        } else {
                            let (a, b) = choose|a: int, b: int|
                                0 <= a < p@.semesters.len() && 0 <= b < p@.semesters[a].modules.len() && (a < s || (a
                                    == s && b < q)) && x == entry_code(#[trigger] p@.semesters[a].modules[b]);
                            assert(x == entry_code(p@.semesters[a].modules[b]));
                        }
                    }
                }
            }
            q = q + 1;
        }
        proof {
            assert(codes(keys).to_set() =~= entries_before(p@, s + 1, 0)) by {
                assert forall|x: Seq<u64>| entries_before(p@, s + 1, 0).contains(x) implies entries_before(p@, s as int, q as int).contains(x) by {
                    let (a, b) = choose|a: int, b: int|
                        0 <= a < p@.semesters.len() && 0 <= b < p@.semesters[a].modules.len() && (a < s + 1 || (a
                            == s + 1 && b < 0)) && x == entry_code(#[trigger] p@.semesters[a].modules[b]);
                    assert(x == entry_code(p@.semesters[a].modules[b]));
                }
                assert forall|x: Seq<u64>| entries_before(p@, s as int, q as int).contains(x) implies entries_before(p@, s + 1, 0).contains(x) by {
                    let (a, b) = choose|a: int, b: int|
                        0 <= a < p@.semesters.len() && 0 <= b < p@.semesters[a].modules.len() && (a < s || (a
                            == s && b < q)) && x == entry_code(#[trigger] p@.semesters[a].modules[b]);
                    assert(x == entry_code(p@.semesters[a].modules[b]));
                }
            }
        }
        s = s + 1;
    }
    proof {
        assert(codes(keys).to_set() =~= key_entries(p@)) by {
            assert forall|x: Seq<u64>| key_entries(p@).contains(x) implies codes(keys).to_set().contains(x) by {
                let (a, b) = choose|a: int, b: int|
                    0 <= a < p@.semesters.len() && 0 <= b < p@.semesters[a].modules.len() && x
                        == entry_code(#[trigger] p@.semesters[a].modules[b]);
                assert(entries_before(p@, s as int, 0).contains(x));
            }
            assert forall|x: Seq<u64>| codes(keys).to_set().contains(x) implies key_entries(p@).contains(x) by {
                assert(entries_before(p@, s as int, 0).contains(x));
                let (a, b) = choose|a: int, b: int|
                    0 <= a < p@.semesters.len() && 0 <= b < p@.semesters[a].modules.len() && (a < s || (a
                        == s && b < 0)) && x == entry_code(#[trigger] p@.semesters[a].modules[b]);
                assert(x == entry_code(p@.semesters[a].modules[b]));
            }
        }
        lemma_canonical(codes(keys), p@);
    }
    keys
}

pub open spec fn keys_of(ps: Seq<PlanView>) -> Seq<Seq<Seq<u64>>> {
    ps.map_values(|p: PlanView| canonical_key(p))
}

/// Plan `i` is the first of `ps` with its canonical key.
pub open spec fn first_with_key(ps: Seq<PlanView>, i: int) -> bool {
    &&& 0 <= i < ps.len()
    &&& forall|j: int| 0 <= j < i ==> canonical_key(#[trigger] ps[j]) != canonical_key(ps[i])
}

/// `output` holds one plan per canonical key of `input`, the first with that
/// key, in increasing order of keys.
pub open spec fn dedupe_result(input: Seq<PlanView>, output: Seq<PlanView>) -> bool {
    &&& forall|i: int| 0 <= i < input.len() ==> is_canonical_key(canonical_key(#[trigger] input[i]), input[i])
    &&& strictly_sorted(keys_of(output), key_lt())
    &&& keys_of(output).to_set() == keys_of(input).to_set()
    &&& forall|t: int| 0 <= t < output.len() ==> #[trigger] picked_first(input, output[t])
}

/// The plan is the first of `input` with its canonical key.
pub open spec fn picked_first(input: Seq<PlanView>, p: PlanView) -> bool {
    exists|i: int| #[trigger] first_with_key(input, i) && p == input[i]
}

/// Keeps one plan of each canonical key, the first, and orders them by key.
pub fn dedupe(plans: &Vec<Plan>) -> (r: Vec<Plan>)
    ensures
        dedupe_result(plans@.map_values(|p: Plan| p@), r@.map_values(|p: Plan| p@)),
{
    proof { lemma_orders(); }
    let ghost input = plans@.map_values(|p: Plan| p@);
    let mut keys: Vec<Vec<Vec<u64>>> = Vec::new();
    let mut picks: Vec<usize> = Vec::new();
    let mut i: usize = 0;
    while i < plans.len()
        invariant
            i <= plans@.len(),
            input == plans@.map_values(|p: Plan| p@),
            keys@.len() == picks@.len(),
            strictly_sorted(keys@.map_values(|k: Vec<Vec<u64>>| codes(k)), key_lt()),
            forall|t: int| 0 <= t < keys@.len() ==> #[trigger] codes(keys@[t]) == canonical_key(input[picks@[t] as int]),
            forall|t: int| 0 <= t < picks@.len() ==> first_with_key(input, #[trigger] picks@[t] as int),
            forall|t: int| 0 <= t < picks@.len() ==> #[trigger] picks@[t] < i,
            keys@.map_values(|k: Vec<Vec<u64>>| codes(k)).to_set() == keys_of(input.subrange(0, i as int)).to_set(),
            forall|j: int| 0 <= j < i ==> is_canonical_key(canonical_key(#[trigger] input[j]), input[j]),
        decreases plans@.len() - i,
    {
        let k = canonical_key_of(&plans[i]);
        let ghost kv = codes(k);
        let ghost ks = keys@.map_values(|k: Vec<Vec<u64>>| codes(k));
        proof { assert(input[i as int] == plans@[i as int]@); }
        let mut j: usize = 0;
        let mut above = false;
        let mut present = false;
        while j < keys.len() && !above && !present
            invariant
                i < plans@.len(),
                input == plans@.map_values(|p: Plan| p@),
                keys@.len() == picks@.len(),
                strictly_sorted(keys@.map_values(|k: Vec<Vec<u64>>| codes(k)), key_lt()),
                forall|t: int| 0 <= t < keys@.len() ==> #[trigger] codes(keys@[t]) == canonical_key(input[picks@[t] as int]),
                forall|t: int| 0 <= t < picks@.len() ==> first_with_key(input, #[trigger] picks@[t] as int),
                forall|t: int| 0 <= t < picks@.len() ==> #[trigger] picks@[t] < i,
                keys@.map_values(|k: Vec<Vec<u64>>| codes(k)).to_set() == keys_of(input.subrange(0, i as int)).to_set(),
                forall|j: int| 0 <= j < i ==> is_canonical_key(canonical_key(#[trigger] input[j]), input[j]),
                kv == canonical_key(input[i as int]),
                ks == keys@.map_values(|k: Vec<Vec<u64>>| codes(k)),
                kv == codes(k),
                j <= ks.len(),
                above ==> j < ks.len() && key_lt()(kv, ks[j as int]),
                present ==> j < ks.len() && kv == ks[j as int],
                forall|t: int| 0 <= t < j ==> key_lt()(#[trigger] ks[t], kv),
            decreases ks.len() - j + if above || present { 0int } else { 1int },
        {
            let c = cmp_key(&keys[j], &k);
            assert(ks[j as int] == codes(keys@[j as int]));
            if c == 0 {
                present = true;
            } else if c == 1 {
                above = true;
            } else {
                j = j + 1;
            }
        }
        if !present {
            let ghost old_picks = picks@;
            let ghost old_keys = keys@;
            keys.insert(j, k);
            picks.insert(j, i);
            proof {
                lemma_orders();
                let ks1 = keys@.map_values(|k: Vec<Vec<u64>>| codes(k));
                assert(ks1 =~= ks.insert(j as int, kv));
                assert(picks@ =~= old_picks.insert(j as int, i));
                assert forall|a: int, b: int| 0 <= a < b < ks1.len() implies key_lt()(#[trigger] ks1[a], #[trigger] ks1[b]) by {
                    if a < j && b == j {
                        assert(ks1[a] == ks[a] && ks1[b] == kv);
                        assert(key_lt()(ks[a], kv));
                        assert(key_lt()(ks1[a], ks1[b]));
                    } else if a < j && b > j {
                        assert(ks1[a] == ks[a]);
                        assert(ks1[b] == ks[b - 1]);
                        assert(key_lt()(ks[a], kv));
                        assert(above);
                        assert(key_lt()(kv, ks[j as int]));
                        if b - 1 > j {
                            assert(key_lt()(ks[j as int], ks[b - 1]));
                        }
                        assert(key_lt()(ks1[a], ks1[b]));
                    } else if a == j {
                        assert(ks1[a] == kv);
                        assert(above);
                        assert(key_lt()(kv, ks[j as int]));
                        assert(ks1[b] == ks[b - 1]);
                        if b - 1 > j {
                            assert(key_lt()(ks[j as int], ks[b - 1]));
                            assert(key_lt()(kv, ks[b - 1]));
                        }
                        assert(key_lt()(ks1[a], ks1[b]));
                    } else if a > j {
                        assert(ks1[a] == ks[a - 1] && ks1[b] == ks[b - 1]);
                        assert(key_lt()(ks1[a], ks1[b]));
                    } else {
                        assert(ks1[a] == ks[a] && ks1[b] == ks[b]);
                        assert(key_lt()(ks1[a], ks1[b]));
                    }
                }
                assert forall|j2: int| 0 <= j2 < i implies canonical_key(#[trigger] input[j2]) != canonical_key(input[i as int]) by {
                    assert(keys_of(input.subrange(0, i as int))[j2] == canonical_key(input[j2]));
                    assert(ks.to_set().contains(canonical_key(input[j2])));
                    let t = choose|t: int| 0 <= t < ks.len() && ks[t] == canonical_key(input[j2]);
                    if t < j {
                        assert(key_lt()(ks[t], kv));
                    } else {
                        assert(key_lt()(kv, ks[j as int]));
                        if t > j {
                            assert(key_lt()(ks[j as int], ks[t]));
                        }
                    }
                }
                assert forall|t: int| 0 <= t < keys@.len() implies #[trigger] codes(keys@[t]) == canonical_key(input[picks@[t] as int])
                    && first_with_key(input, picks@[t] as int) && picks@[t] < i + 1 by {
                    assert(picks@[t] == old_picks.insert(j as int, i)[t]);
                    if t < j {
                        assert(ks1[t] == ks[t]);
                        assert(codes(old_keys[t]) == ks[t]);
                        assert(picks@[t] == old_picks[t]);
                    } else if t > j {
                        assert(ks1[t] == ks[t - 1]);
                        assert(codes(old_keys[t - 1]) == ks[t - 1]);
                        assert(picks@[t] == old_picks[t - 1]);
                    } else {
                        assert(codes(keys@[t]) == kv);
                        assert(picks@[t] == i);
                    }
                }
                assert(ks1.to_set() =~= keys_of(input.subrange(0, i + 1)).to_set()) by {
                    assert(keys_of(input.subrange(0, i + 1)) =~= keys_of(input.subrange(0, i as int)).push(kv));
                    assert forall|x: Seq<Seq<u64>>| ks1.to_set().contains(x) <==> ks.to_set().insert(kv).contains(x) by {
                        if ks1.to_set().contains(x) {
                            let t = choose|t: int| 0 <= t < ks1.len() && ks1[t] == x;
                            if t < j {
                                assert(ks[t] == x);
                            } else if t > j {
                                assert(ks[t - 1] == x);
                            }
                        }
                        if ks.to_set().contains(x) {
                            let t = choose|t: int| 0 <= t < ks.len() && ks[t] == x;
                            if t < j {
                                assert(ks1[t] == x);
                            } else {
                                assert(ks1[t + 1] == x);
                            }
                        }
                        if x == kv {
                            assert(ks1[j as int] == x);
                        }
                    }
                    assert forall|x: Seq<Seq<u64>>| keys_of(input.subrange(0, i + 1)).to_set().contains(x) <==> keys_of(input.subrange(0, i as int)).to_set().insert(kv).contains(x) by {
                        let a = keys_of(input.subrange(0, i as int));
                        if keys_of(input.subrange(0, i + 1)).to_set().contains(x) {
                            let t = choose|t: int| 0 <= t < a.push(kv).len() && a.push(kv)[t] == x;
                            if t < a.len() {
                                assert(a[t] == x);
                            }
                        }
                        if a.to_set().contains(x) {
                            let t = choose|t: int| 0 <= t < a.len() && a[t] == x;
                            assert(a.push(kv)[t] == x);
                        }
                        if x == kv {
                            assert(a.push(kv)[a.len() as int] == x);
                        }
                    }
                }
            }
        } else {
            proof {
                assert forall|t: int| 0 <= t < picks@.len() implies #[trigger] picks@[t] < i + 1 by {}
                assert(keys_of(input.subrange(0, i + 1)) =~= keys_of(input.subrange(0, i as int)).push(kv));
                assert(ks.to_set().contains(kv));
                assert forall|x: Seq<Seq<u64>>| keys_of(input.subrange(0, i + 1)).to_set().contains(x) <==> ks.to_set().contains(x) by {
                    let a = keys_of(input.subrange(0, i as int));
                    if keys_of(input.subrange(0, i + 1)).to_set().contains(x) {
                        let t = choose|t: int| 0 <= t < a.push(kv).len() && a.push(kv)[t] == x;
                        if t < a.len() {
                            assert(a[t] == x);
                            assert(a.to_set().contains(x));
                        }
                    }
                    if a.to_set().contains(x) {
                        let t = choose|t: int| 0 <= t < a.len() && a[t] == x;
                        assert(a.push(kv)[t] == x);
                    }
                }
                assert(keys_of(input.subrange(0, i + 1)).to_set() =~= ks.to_set());
            }
        }
        i = i + 1;
    }
    proof {
        assert forall|u: int| 0 <= u < picks@.len() implies picks@[u] < plans@.len() by {
            assert(picks@[u] < i);
        }
    }
    let mut r: Vec<Plan> = Vec::new();
    let mut t: usize = 0;
    while t < picks.len()
        invariant
            t <= picks@.len(),
            picks@.len() == keys@.len(),
            input == plans@.map_values(|p: Plan| p@),
            forall|u: int| 0 <= u < picks@.len() ==> picks@[u] < plans@.len(),
            r@.len() == t,
            forall|u: int| 0 <= u < t ==> #[trigger] r@[u]@ == input[picks@[u] as int],
        decreases picks@.len() - t,
    {
        r.push(plans[picks[t]].duplicate());
        t = t + 1;
    }
    proof {
        let out = r@.map_values(|p: Plan| p@);
        let ks = keys@.map_values(|k: Vec<Vec<u64>>| codes(k));
        assert(input.subrange(0, i as int) =~= input);
        assert(keys_of(out) =~= ks) by {
            assert forall|u: int| 0 <= u < ks.len() implies keys_of(out)[u] == ks[u] by {
                assert(codes(keys@[u]) == canonical_key(input[picks@[u] as int]));
            }
        }
        assert forall|u: int| 0 <= u < out.len() implies #[trigger] picked_first(input, out[u]) by {
            assert(codes(keys@[u]) == canonical_key(input[picks@[u] as int]));
            assert(first_with_key(input, picks@[u] as int));
            assert(first_with_key(input, picks@[u] as int));
        }
    }
    r
}

/// Deduplicating a deduplicated list changes nothing.
pub proof fn lemma_dedupe_idempotent(x: Seq<PlanView>, y: Seq<PlanView>, z: Seq<PlanView>)
    requires
        dedupe_result(x, y),
        dedupe_result(y, z),
    ensures
        z == y,
{
    lemma_orders();
    lemma_sorted_unique(keys_of(z), keys_of(y), key_lt());
    assert(z.len() == y.len()) by {
        assert(keys_of(z).len() == keys_of(y).len());
    }
    assert forall|t: int| 0 <= t < z.len() implies z[t] == y[t] by {
        assert(picked_first(y, z[t]));
        let i = choose|i: int| #[trigger] first_with_key(y, i) && z[t] == y[i];
        assert(keys_of(z)[t] == keys_of(y)[t]);
        assert(canonical_key(y[i]) == canonical_key(y[t]));
        if i != t {
            if i < t {
                assert(key_lt()(keys_of(y)[i], keys_of(y)[t]));
            } else {
                assert(key_lt()(keys_of(y)[t], keys_of(y)[i]));
            }
        }
    }
    assert(z =~= y);
}

/// Two plans with different canonical keys both have a representative in
/// the result, and the two are different plans.
pub proof fn lemma_dedupe_keeps_distinct_keys(x: Seq<PlanView>, y: Seq<PlanView>, a: int, b: int)
    requires
        dedupe_result(x, y),
        0 <= a < x.len(),
        0 <= b < x.len(),
        canonical_key(x[a]) != canonical_key(x[b]),
    ensures
        exists|s: int, t: int|
            0 <= s < y.len() && 0 <= t < y.len() && s != t && canonical_key(#[trigger] y[s]) == canonical_key(x[a])
                && canonical_key(#[trigger] y[t]) == canonical_key(x[b]),
{
    assert(keys_of(x)[a] == canonical_key(x[a]));
    assert(keys_of(x)[b] == canonical_key(x[b]));
    assert(keys_of(x).to_set().contains(canonical_key(x[a])));
    assert(keys_of(x).to_set().contains(canonical_key(x[b])));
    let s = choose|s: int| 0 <= s < keys_of(y).len() && keys_of(y)[s] == canonical_key(x[a]);
    let t = choose|t: int| 0 <= t < keys_of(y).len() && keys_of(y)[t] == canonical_key(x[b]);
    assert(canonical_key(y[s]) == canonical_key(x[a]));
    assert(canonical_key(y[t]) == canonical_key(x[b]));
}

/// Plans whose placed modules differ in their entries have different
/// canonical keys.
pub proof fn lemma_different_entries_different_keys(x: Seq<PlanView>, y: Seq<PlanView>, a: int, b: int, s: int, q: int)
    requires
        dedupe_result(x, y),
        0 <= a < x.len(),
        0 <= b < x.len(),
        0 <= s < x[a].semesters.len(),
        0 <= q < x[a].semesters[s].modules.len(),
        forall|s2: int, q2: int|
            0 <= s2 < x[b].semesters.len() && 0 <= q2 < x[b].semesters[s2].modules.len() ==> entry_code(
                #[trigger] x[b].semesters[s2].modules[q2],
            ) != entry_code(x[a].semesters[s].modules[q]),
    ensures
        canonical_key(x[a]) != canonical_key(x[b]),
{
    let e = entry_code(x[a].semesters[s].modules[q]);
    assert(key_entries(x[a]).contains(e));
    assert(!key_entries(x[b]).contains(e));
}

proof fn lemma_char_code_injective(a: char, b: char)
    requires
        char_code(a) == char_code(b),
    ensures
        a == b,
{
    assert((a as u32) == (b as u32));
}

/// Equal codes come from equal identifiers and equal degrees.
pub proof fn lemma_entry_code_injective(a: ModuleView, b: ModuleView)
    requires
        entry_code(a) == entry_code(b),
    ensures
        a.identifier == b.identifier,
        a.degree == b.degree,
{
    let ca = entry_code(a);
    let cb = entry_code(b);
    let la = a.identifier.len() as int;
    let lb = b.identifier.len() as int;
    if la < lb {
        let c = b.identifier[la];
        assert(ca[la] == 0);
        assert(cb[la] == char_code(c));
    } else if lb < la {
        let c = a.identifier[lb];
        assert(cb[lb] == 0);
        assert(ca[lb] == char_code(c));
    }
    assert(la == lb);
    assert forall|i: int| 0 <= i < la implies a.identifier[i] == b.identifier[i] by {
        assert(ca[i] == char_code(a.identifier[i]));
        assert(cb[i] == char_code(b.identifier[i]));
        lemma_char_code_injective(a.identifier[i], b.identifier[i]);
    }
    assert(a.identifier =~= b.identifier);
    let da = degree_code(a.degree);
    let db = degree_code(b.degree);
    assert(da =~= ca.subrange(la + 1, ca.len() as int));
    assert(db =~= cb.subrange(la + 1, cb.len() as int));
    match (a.degree, b.degree) {
        (DegreeView::Bachelor, DegreeView::Bachelor) => {},
        (DegreeView::Master(x), DegreeView::Master(y)) => {
            assert(x.len() == y.len());
            assert forall|i: int| 0 <= i < x.len() implies x[i] == y[i] by {
                assert(da[i + 1] == db[i + 1]);
                assert(x[i].spec_index() == y[i].spec_index());
            }
            assert(x =~= y);
        },
        (DegreeView::Bachelor, DegreeView::Master(_)) => {
            assert(da[0] != db[0]);
        },
        (DegreeView::Master(_), DegreeView::Bachelor) => {
            assert(da[0] != db[0]);
        },
    }
}

/// Deduplication keeps apart two plans where a module of one is resolved to
/// a degree, or speciality, that no module with its identifier has in the
/// other: both plans' keys stay represented, by different plans.
pub proof fn lemma_dedupe_keeps_degree_differences(x: Seq<PlanView>, y: Seq<PlanView>, a: int, b: int, s: int, q: int)
    requires
        dedupe_result(x, y),
        0 <= a < x.len(),
        0 <= b < x.len(),
        0 <= s < x[a].semesters.len(),
        0 <= q < x[a].semesters[s].modules.len(),
        forall|s2: int, q2: int|
            0 <= s2 < x[b].semesters.len() && 0 <= q2 < x[b].semesters[s2].modules.len() && (
            #[trigger] x[b].semesters[s2].modules[q2]).identifier == x[a].semesters[s].modules[q].identifier
                ==> x[b].semesters[s2].modules[q2].degree != x[a].semesters[s].modules[q].degree,
    ensures
        exists|u: int, v: int|
            0 <= u < y.len() && 0 <= v < y.len() && u != v && canonical_key(#[trigger] y[u]) == canonical_key(x[a])
                && canonical_key(#[trigger] y[v]) == canonical_key(x[b]),
{
    let mv = x[a].semesters[s].modules[q];
    assert forall|s2: int, q2: int|
        0 <= s2 < x[b].semesters.len() && 0 <= q2 < x[b].semesters[s2].modules.len() implies entry_code(
            #[trigger] x[b].semesters[s2].modules[q2],
        ) != entry_code(mv) by {
        if entry_code(x[b].semesters[s2].modules[q2]) == entry_code(mv) {
            lemma_entry_code_injective(x[b].semesters[s2].modules[q2], mv);
        }
    }
    lemma_different_entries_different_keys(x, y, a, b, s, q);
    lemma_dedupe_keeps_distinct_keys(x, y, a, b);
}

/// Modules that a plan places with equal identifiers stand at the same place.
pub open spec fn identifiers_unique(p: PlanView) -> bool {
    forall|s1: int, q1: int, s2: int, q2: int|
        0 <= s1 < p.semesters.len() && 0 <= q1 < p.semesters[s1].modules.len() && 0 <= s2
            < p.semesters.len() && 0 <= q2 < p.semesters[s2].modules.len() && (
        #[trigger] p.semesters[s1].modules[q1]).identifier == (
        #[trigger] p.semesters[s2].modules[q2]).identifier ==> s1 == s2 && q1 == q2
}

/// Two plans that resolve a shared module identifier to different degrees
/// or specialities both stay represented after deduplication, by different
/// plans; identifiers are taken to be unique within the second plan.
pub proof fn lemma_dedupe_keeps_shared_identifier_differences(
    x: Seq<PlanView>,
    y: Seq<PlanView>,
    a: int,
    b: int,
    s: int,
    q: int,
    s2: int,
    q2: int,
)
    requires
        dedupe_result(x, y),
        0 <= a < x.len(),
        0 <= b < x.len(),
        identifiers_unique(x[b]),
        0 <= s < x[a].semesters.len(),
        0 <= q < x[a].semesters[s].modules.len(),
        0 <= s2 < x[b].semesters.len(),
        0 <= q2 < x[b].semesters[s2].modules.len(),
        x[b].semesters[s2].modules[q2].identifier == x[a].semesters[s].modules[q].identifier,
        x[b].semesters[s2].modules[q2].degree != x[a].semesters[s].modules[q].degree,
    ensures
        exists|u: int, v: int|
            0 <= u < y.len() && 0 <= v < y.len() && u != v && canonical_key(#[trigger] y[u]) == canonical_key(x[a])
                && canonical_key(#[trigger] y[v]) == canonical_key(x[b]),
{
    let mv = x[a].semesters[s].modules[q];
    assert forall|s3: int, q3: int|
        0 <= s3 < x[b].semesters.len() && 0 <= q3 < x[b].semesters[s3].modules.len() && (
        #[trigger] x[b].semesters[s3].modules[q3]).identifier == mv.identifier implies x[b].semesters[s3].modules[q3].degree
        != mv.degree by {
        assert(x[b].semesters[s3].modules[q3].identifier == x[b].semesters[s2].modules[q2].identifier);
    }
    lemma_dedupe_keeps_degree_differences(x, y, a, b, s, q);
}

/// A plan seen through its canonical key.
pub struct PlanModuleView(pub Plan);

impl PlanModuleView {
    /// The canonical key of the plan: the codes of the distinct (identifier,
    /// degree) entries of the modules it places, in increasing order.
    pub fn get_module_set(&self) -> (r: Vec<Vec<u64>>)
        ensures
            codes(r) == canonical_key(self.0@),
            is_canonical_key(codes(r), self.0@),
    {
        canonical_key_of(&self.0)
    }
}

/// The order of canonical keys, as an `Ordering`.
pub open spec fn key_ordering(a: Seq<Seq<u64>>, b: Seq<Seq<u64>>) -> std::cmp::Ordering {
    if key_lt()(a, b) {
        std::cmp::Ordering::Less
    } else if a == b {
        std::cmp::Ordering::Equal
    } else {
        std::cmp::Ordering::Greater
    }
}

impl PartialEq for PlanModuleView {
    /// Two plans are equal when their canonical keys are.
    fn eq(&self, other: &PlanModuleView) -> (r: bool) {
        let a = self.get_module_set();
        let b = other.get_module_set();
        cmp_key(&a, &b) == 0
    }
}

impl vstd::std_specs::cmp::PartialEqSpecImpl for PlanModuleView {
    open spec fn obeys_eq_spec() -> bool {
        true
    }

    open spec fn eq_spec(&self, o: &PlanModuleView) -> bool {
        canonical_key(self.0@) == canonical_key(o.0@)
    }
}

impl PartialOrd for PlanModuleView {
    /// Plans are ordered by their canonical keys.
    fn partial_cmp(&self, other: &PlanModuleView) -> (r: Option<std::cmp::Ordering>) {
        proof { lemma_orders(); }
        let a = self.get_module_set();
        let b = other.get_module_set();
        let c = cmp_key(&a, &b);
        if c == -1 {
            Some(std::cmp::Ordering::Less)
        } else if c == 0 {
            Some(std::cmp::Ordering::Equal)
        } else {
            Some(std::cmp::Ordering::Greater)
        }
    }
}

impl vstd::std_specs::cmp::PartialOrdSpecImpl for PlanModuleView {
    open spec fn obeys_partial_cmp_spec() -> bool {
        true
    }

    open spec fn partial_cmp_spec(&self, o: &PlanModuleView) -> Option<std::cmp::Ordering> {
        Some(key_ordering(canonical_key(self.0@), canonical_key(o.0@)))
    }
}

} // verus!
