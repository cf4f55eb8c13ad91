//! Employee registry: employees are added in any order and listed by name,
//! optionally restricted to one department.
use vstd::prelude::*;
use crate::strings::{chars_of, str_eq};

verus! {

/// An employee and the department they work in.
#[derive(Debug, PartialEq, Eq)]
pub struct Employee {
    name: String,
    department: String,
}

/// Lexicographic order on character sequences (the order of `String` comparison).
pub open spec fn lex_le(a: Seq<char>, b: Seq<char>) -> bool
    decreases a.len(),
{
    if a.len() == 0 {
        true
    } else if b.len() == 0 {
        false
    } else if a[0] < b[0] {
        true
    } else if a[0] > b[0] {
        false
    } else {
        lex_le(a.drop_first(), b.drop_first())
    }
}

pub proof fn lemma_lex_le_total(a: Seq<char>, b: Seq<char>)
    ensures
        lex_le(a, b) || lex_le(b, a),
    decreases a.len(),
{
    if a.len() > 0 && b.len() > 0 && a[0] == b[0] {
        lemma_lex_le_total(a.drop_first(), b.drop_first());
    }
}

pub proof fn lemma_lex_le_antisymmetric(a: Seq<char>, b: Seq<char>)
    requires
        lex_le(a, b),
        lex_le(b, a),
    ensures
        a =~= b,
    decreases a.len(),
{
    if a.len() > 0 {
        assert(a[0] == b[0]);
        lemma_lex_le_antisymmetric(a.drop_first(), b.drop_first());
        assert(a =~= seq![a[0]] + a.drop_first());
        assert(b =~= seq![b[0]] + b.drop_first());
    }
}

pub proof fn lemma_lex_le_transitive(a: Seq<char>, b: Seq<char>, c: Seq<char>)
    requires
        lex_le(a, b),
        lex_le(b, c),
    ensures
        lex_le(a, c),
    decreases a.len(),
{
    if a.len() > 0 && b.len() > 0 && c.len() > 0 && a[0] == b[0] && b[0] == c[0] {
        lemma_lex_le_transitive(a.drop_first(), b.drop_first(), c.drop_first());
    }
}

/// Names are ordered as std orders strings: a name comes before every longer
/// name it begins, and a longer name never comes before its own beginning.
pub proof fn law_prefix_comes_first(a: Seq<char>, b: Seq<char>)
    ensures
        lex_le(a, a + b),
        lex_le(a + b, a) ==> b.len() == 0,
    decreases a.len(),
{
    if a.len() > 0 {
        let ab = a + b;
        assert(ab[0] == a[0]);
        assert(ab.drop_first() =~= a.drop_first() + b);
        law_prefix_comes_first(a.drop_first(), b);
    } else {
        assert(a + b =~= b);
    }
}

/// The name order is std's string order: `a` comes before or with `b` exactly
/// when `a` is a beginning of `b`, or at the first place where they differ
/// `a` has the smaller character.
pub proof fn law_name_order_is_string_order(a: Seq<char>, b: Seq<char>)
    ensures
        lex_le(a, b) <==> ((a.len() <= b.len() && b.take(a.len() as int) == a) || exists|i: int|
            0 <= i < a.len() && i < b.len() && a.take(i) == b.take(i) && a[i] < b[i]),
    decreases a.len(),
{
    if a.len() == 0 {
        assert(b.take(0) =~= a);
    } else if b.len() == 0 {
    } else if a[0] < b[0] {
        assert(a.take(0) =~= b.take(0));
    } else if a[0] > b[0] {
        assert(!(a.len() <= b.len() && b.take(a.len() as int) == a)) by {
            if a.len() <= b.len() {
                assert(b.take(a.len() as int)[0] == b[0]);
            }
        }
        assert forall|i: int| 0 <= i < a.len() && i < b.len() && a.take(i) == b.take(i) implies !(a[i] < b[i]) by {
            if i > 0 {
                assert(a.take(i)[0] == a[0] && b.take(i)[0] == b[0]);
            }
        }
    } else {
        let a1 = a.drop_first();
        let b1 = b.drop_first();
        law_name_order_is_string_order(a1, b1);
        if a.len() <= b.len() {
            assert(b.take(a.len() as int) == a <==> b1.take(a1.len() as int) == a1) by {
                if b.take(a.len() as int) == a {
                    assert(b1.take(a1.len() as int) =~= b.take(a.len() as int).drop_first());
                }
                if b1.take(a1.len() as int) == a1 {
                    assert forall|k: int| 0 <= k < a.len() implies #[trigger] b.take(a.len() as int)[k] == a[k] by {
                        if k > 0 {
                            assert(b1.take(a1.len() as int)[k - 1] == a1[k - 1]);
                        }
                    }
                    assert(b.take(a.len() as int) =~= a);
                }
            }
        }
        if exists|i: int| 0 <= i < a.len() && i < b.len() && a.take(i) == b.take(i) && a[i] < b[i] {
            let i = choose|i: int| 0 <= i < a.len() && i < b.len() && a.take(i) == b.take(i) && a[i] < b[i];
            assert(i > 0);
            assert(a1.take(i - 1) =~= a.take(i).drop_first());
            assert(b1.take(i - 1) =~= b.take(i).drop_first());
            assert(a1[i - 1] == a[i] && b1[i - 1] == b[i]);
        }
        if exists|i: int| 0 <= i < a1.len() && i < b1.len() && a1.take(i) == b1.take(i) && a1[i] < b1[i] {
            let i = choose|i: int| 0 <= i < a1.len() && i < b1.len() && a1.take(i) == b1.take(i) && a1[i] < b1[i];
            assert(a.take(i + 1) =~= seq![a[0]] + a1.take(i));
            assert(b.take(i + 1) =~= seq![b[0]] + b1.take(i));
            assert(a[i + 1] == a1[i] && b[i + 1] == b1[i]);
        }
    }
}

impl Employee {
    /// Creates an employee.
    pub fn new(name: String, department: String) -> (r: Employee)
        ensures
            r.name() == name@,
            r.department() == department@,
    {
        Employee { name, department }
    }

    /// The employee's name.
    pub closed spec fn name(&self) -> Seq<char> {
        self.name@
    }

    /// The employee's department.
    pub closed spec fn department(&self) -> Seq<char> {
        self.department@
    }
}

/// A registry of employees, in the order they were added.
pub struct Registry {
    entries: Vec<Employee>,
}

impl View for Registry {
    type V = Seq<Employee>;

    /// The employees, in the order they were added.
    closed spec fn view(&self) -> Seq<Employee> {
        self.entries@
    }
}

/// Index `i` of `entries` is listed when no department is asked for, or the
/// employee works in the department asked for.
pub open spec fn listed(entries: Seq<Employee>, department: Option<Seq<char>>, i: int) -> bool {
    match department {
        None => true,
        Some(d) => entries[i].department() == d,
    }
}

/// Index `i` comes before index `j`: by name, and by position among equal names.
pub open spec fn comes_before(entries: Seq<Employee>, i: int, j: int) -> bool {
    let a = entries[i].name();
    let b = entries[j].name();
    (lex_le(a, b) && a != b) || (a == b && i < j)
}

/// `idx` lists exactly the listed indices of `entries`, ordered by name and,
/// among equal names, by position (the order a stable sort by name gives).
pub open spec fn stable_listing(
    entries: Seq<Employee>,
    department: Option<Seq<char>>,
    idx: Seq<int>,
) -> bool {
    &&& forall|k: int|
        0 <= k < idx.len() ==> 0 <= #[trigger] idx[k] < entries.len() && listed(
            entries,
            department,
            idx[k],
        )
    &&& forall|i: int| 0 <= i < entries.len() && listed(entries, department, i) ==> idx.contains(i)
    &&& forall|a: int, b: int|
        0 <= a < b < idx.len() ==> comes_before(entries, #[trigger] idx[a], #[trigger] idx[b])
}

/// `r` holds the employees of `entries` at the indices of a stable listing.
pub open spec fn is_listing(
    entries: Seq<Employee>,
    department: Option<Seq<char>>,
    r: Seq<&Employee>,
) -> bool {
    exists|idx: Seq<int>|
        stable_listing(entries, department, idx) && idx.len() == r.len() && forall|k: int|
            0 <= k < r.len() ==> *r[k] == entries[#[trigger] idx[k]]
}

/// Compares two strings in lexicographic (character) order.
pub fn str_le(a: &str, b: &str) -> (r: bool)
    ensures
        r == lex_le(a@, b@),
{
    let x = chars_of(a);
    let y = chars_of(b);
    let mut i: usize = 0;
    assert(a@.skip(0) =~= a@ && b@.skip(0) =~= b@);
    while i < x.len() && i < y.len() && x[i] == y[i]
        invariant
            i <= x@.len(),
            i <= y@.len(),
            x@ == a@,
            y@ == b@,
            lex_le(a@, b@) == lex_le(a@.skip(i as int), b@.skip(i as int)),
        decreases x@.len() - i,
    {
        assert(a@.skip(i as int).drop_first() =~= a@.skip(i + 1));
        assert(b@.skip(i as int).drop_first() =~= b@.skip(i + 1));
        i = i + 1;
    }
    if i == x.len() {
        true
    } else if i == y.len() {
        false
    } else {
        x[i] < y[i]
    }
}

impl Registry {
    /// An empty registry.
    pub fn new() -> (r: Self)
        ensures
            r@ == Seq::<Employee>::empty(),
    {
        Registry { entries: Vec::new() }
    }

    /// The employees, in the order they were added.
    pub fn entries(&self) -> (r: &Vec<Employee>)
        ensures
            r@ == self@,
    {
        &self.entries
    }

    /// Adds a copy of the employee.
    pub fn add(&mut self, emploee: &Employee)
        ensures
            final(self)@ == old(self)@.push(*emploee),
    {
        let e = Employee { name: emploee.name.clone(), department: emploee.department.clone() };
        self.entries.push(e);
    }

    /// The positions of the listed employees, in increasing order.
    fn listed_positions(&self, department: Option<&str>) -> (sel: Vec<usize>)
        ensures
            forall|k: int|
                0 <= k < sel.len() ==> #[trigger] sel@[k] < self.entries@.len() && listed(
                    self.entries@,
                    dept_view(department),
                    sel@[k] as int,
                ),
            forall|a: int, b: int| 0 <= a < b < sel.len() ==> #[trigger] sel@[a] < #[trigger] sel@[b],
            forall|j: int|
                0 <= j < self.entries@.len() && listed(self.entries@, dept_view(department), j)
                    ==> sel@.contains(j as usize),
    {
        let ghost dept = dept_view(department);
        let ghost es = self.entries@;
        let n = self.entries.len();
        let mut sel: Vec<usize> = Vec::new();
        for i in 0..n
            invariant
                n == es.len(),
                es == self.entries@,
                dept == dept_view(department),
                forall|k: int|
                    0 <= k < sel.len() ==> #[trigger] sel@[k] < i && listed(es, dept, sel@[k] as int),
                forall|a: int, b: int| 0 <= a < b < sel.len() ==> #[trigger] sel@[a] < #[trigger] sel@[b],
                forall|j: int| 0 <= j < i && listed(es, dept, j) ==> sel@.contains(j as usize),
        {
            let keep = match department {
                None => true,
                Some(d) => str_eq(self.entries[i].department.as_str(), d),
            };
            let ghost before = sel@;
            if keep {
                sel.push(i);
                assert(sel@[sel.len() - 1] == i);
            }
            proof {
                assert forall|j: int| 0 <= j < i + 1 && listed(es, dept, j) implies sel@.contains(
                    j as usize,
                ) by {
                    if j < i {
                        let w = choose|w: int| 0 <= w < before.len() && before[w] == j as usize;
                        assert(sel@[w] == j as usize);
                    }
                }
            }
        }
        sel
    }

    /// The given positions reordered by name; equal names keep their order.
    fn order_by_name(&self, sel: &Vec<usize>) -> (out: Vec<usize>)
        requires
            forall|k: int| 0 <= k < sel.len() ==> #[trigger] sel@[k] < self.entries@.len(),
            forall|a: int, b: int| 0 <= a < b < sel.len() ==> #[trigger] sel@[a] < #[trigger] sel@[b],
        ensures
            forall|k: int|
                0 <= k < out.len() ==> #[trigger] sel@.contains(out@[k]),
            forall|u: int| 0 <= u < sel.len() ==> out@.contains(#[trigger] sel@[u]),
            forall|a: int, b: int|
                0 <= a < b < out.len() ==> comes_before(
                    self.entries@,
                    #[trigger] out@[a] as int,
                    #[trigger] out@[b] as int,
                ),
    {
        let ghost es = self.entries@;
        let n = self.entries.len();
        let mut out: Vec<usize> = Vec::new();
        let m = sel.len();
        for t in 0..m
            invariant
                m == sel.len(),
                n == es.len(),
                es == self.entries@,
                forall|k: int| 0 <= k < sel.len() ==> #[trigger] sel@[k] < n,
                forall|a: int, b: int| 0 <= a < b < sel.len() ==> #[trigger] sel@[a] < #[trigger] sel@[b],
                forall|k: int| 0 <= k < out.len() ==> #[trigger] sel@.contains(out@[k]),
                forall|k: int, u: int|
                    0 <= k < out.len() && t <= u < m ==> #[trigger] out@[k] < #[trigger] sel@[u],
                forall|u: int| 0 <= u < t ==> out@.contains(#[trigger] sel@[u]),
                forall|a: int, b: int|
                    0 <= a < b < out.len() ==> comes_before(
                        es,
                        #[trigger] out@[a] as int,
                        #[trigger] out@[b] as int,
                    ),
        {
            let x = sel[t];
            let mut p: usize = 0;
            while p < out.len() && str_le(
                self.entries[out[p]].name.as_str(),
                self.entries[x].name.as_str(),
            )
                invariant
                    p <= out.len(),
                    x < n,
                    n == es.len(),
                    es == self.entries@,
                    forall|k: int| 0 <= k < out.len() ==> #[trigger] out@[k] < n,
                    forall|k: int|
                        0 <= k < p ==> lex_le(es[#[trigger] out@[k] as int].name(), es[x as int].name()),
                decreases out.len() - p,
            {
                p = p + 1;
            }
            proof {
                assert forall|k: int| 0 <= k < out.len() implies #[trigger] out@[k] < x by {
                    assert(out@[k] < sel@[t as int]);
                }
                lemma_insert_keeps_order(es, out@, p as int, x);
            }
            let ghost old_out = out@;
            out.insert(p, x);
            proof {
                old_out.insert_ensures(p as int, x);
                assert forall|k: int| 0 <= k < out.len() implies #[trigger] sel@.contains(out@[k]) by {
                    if k < p {
                        assert(out@[k] == old_out[k]);
                    } else if k == p {
                        assert(sel@[t as int] == x);
                    } else {
                        assert(out@[k] == old_out[k - 1]);
                    }
                }
                assert forall|k: int, u: int|
                    0 <= k < out.len() && t + 1 <= u < m implies #[trigger] out@[k] < #[trigger] sel@[u] by {
                    if k < p {
                        assert(out@[k] == old_out[k]);
                    } else if k == p {
                        assert(sel@[t as int] < sel@[u]);
                    } else {
                        assert(out@[k] == old_out[k - 1]);
                    }
                }
                assert forall|u: int| 0 <= u < t + 1 implies out@.contains(#[trigger] sel@[u]) by {
                    if u == t {
                        assert(out@[p as int] == x);
                    } else {
                        let w = choose|w: int| 0 <= w < old_out.len() && old_out[w] == sel@[u];
                        if w < p {
                            assert(out@[w] == sel@[u]);
                        } else {
                            assert(out@[w + 1] == sel@[u]);
                        }
                    }
                }
            }
        }
        out
    }

    /// Lists the employees (of one department, if given), sorted by name; employees
    /// with the same name keep the order in which they were added.
    #[verifier::spinoff_prover]
    #[verifier::rlimit(30)]
    pub fn list(&self, department: Option<&str>) -> (r: Vec<&Employee>)
        ensures
            is_listing(self@, dept_view(department), r@),
    {
        let ghost es = self.entries@;
        let ghost dept = dept_view(department);
        let sel = self.listed_positions(department);
        let out = self.order_by_name(&sel);
        let mut r: Vec<&Employee> = Vec::new();
        let n = out.len();
        for k in 0..n
            invariant
                n == out.len(),
                es == self.entries@,
                forall|j: int| 0 <= j < out.len() ==> #[trigger] sel@.contains(out@[j]),
                forall|j: int| 0 <= j < sel.len() ==> #[trigger] sel@[j] < es.len(),
                r.len() == k,
                forall|j: int| 0 <= j < k ==> *r@[j] == es[#[trigger] out@[j] as int],
        {
            let x = out[k];
            assert(sel@.contains(out@[k as int]));
            r.push(&self.entries[x]);
        }
        proof {
            let idx = out@.map_values(|v: usize| v as int);
            assert forall|k: int| 0 <= k < idx.len() implies 0 <= #[trigger] idx[k] < es.len()
                && listed(es, dept, idx[k]) by {
                assert(sel@.contains(out@[k]));
            }
            assert forall|i: int| 0 <= i < es.len() && listed(es, dept, i) implies idx.contains(i) by {
                assert(i < self.entries.len());
                assert(sel@.contains(i as usize));
                let u = choose|u: int| 0 <= u < sel.len() && sel@[u] == i as usize;
                assert(out@.contains(sel@[u]));
                let w = choose|w: int| 0 <= w < out.len() && out@[w] == sel@[u];
                assert(idx[w] == i);
            }
            assert forall|a: int, b: int| 0 <= a < b < idx.len() implies comes_before(
                es,
                #[trigger] idx[a],
                #[trigger] idx[b],
            ) by {
                assert(comes_before(es, out@[a] as int, out@[b] as int));
            }
            assert(stable_listing(es, dept, idx));
            assert(forall|k: int| 0 <= k < r.len() ==> *r@[k] == es[#[trigger] idx[k]]);
        }
        r
    }
}

/// The department filter as a value of the model.
pub open spec fn dept_view(department: Option<&str>) -> Option<Seq<char>> {
    match department {
        None => None,
        Some(d) => Some(d@),
    }
}

/// Comparing by position-then-name: the first of two ordered positions has a
/// name no greater than the second's.
proof fn lemma_comes_before_le(es: Seq<Employee>, i: int, j: int)
    requires
        comes_before(es, i, j),
    ensures
        lex_le(es[i].name(), es[j].name()),
{
    lemma_lex_le_total(es[i].name(), es[j].name());
}

/// Inserting `x` at `p`, after every name no greater than its own and before
/// the first greater one, keeps a name-ordered list ordered, provided `x`
/// comes after every position already present.
proof fn lemma_insert_keeps_order(es: Seq<Employee>, out: Seq<usize>, p: int, x: usize)
    requires
        0 <= p <= out.len(),
        x < es.len(),
        forall|k: int| 0 <= k < out.len() ==> #[trigger] out[k] < x,
        forall|a: int, b: int|
            0 <= a < b < out.len() ==> comes_before(es, #[trigger] out[a] as int, #[trigger] out[b] as int),
        forall|k: int| 0 <= k < p ==> lex_le(es[#[trigger] out[k] as int].name(), es[x as int].name()),
        p < out.len() ==> !lex_le(es[out[p] as int].name(), es[x as int].name()),
    ensures
        forall|a: int, b: int|
            0 <= a < b < out.insert(p, x).len() ==> comes_before(
                es,
                #[trigger] out.insert(p, x)[a] as int,
                #[trigger] out.insert(p, x)[b] as int,
            ),
{
    let s = out.insert(p, x);
    out.insert_ensures(p, x);
    let nx = es[x as int].name();
    assert forall|a: int, b: int| 0 <= a < b < s.len() implies comes_before(
        es,
        #[trigger] s[a] as int,
        #[trigger] s[b] as int,
    ) by {
        if b < p {
            assert(s[a] == out[a] && s[b] == out[b]);
        } else if a < p && b == p {
            assert(s[a] == out[a] && s[b] == x);
            assert(lex_le(es[out[a] as int].name(), nx));
        } else if a < p {
            assert(s[a] == out[a] && s[b] == out[b - 1]);
        } else if a == p {
            let q = out[p] as int;
            let y = out[b - 1] as int;
            assert(s[a] == x && s[b] == out[b - 1]);
            lemma_lex_le_total(es[q].name(), nx);
            lemma_lex_le_total(nx, nx);
            if b - 1 > p {
                assert(comes_before(es, q, y));
                lemma_comes_before_le(es, q, y);
            } else {
                lemma_lex_le_total(es[q].name(), es[q].name());
            }
            lemma_lex_le_transitive(nx, es[q].name(), es[y].name());
            if es[y].name() == nx {
                assert(lex_le(es[q].name(), nx));
            }
        } else {
            assert(s[a] == out[a - 1] && s[b] == out[b - 1]);
        }
    }
}

/// `e` is one of the listed employees.
pub open spec fn lists(r: Seq<&Employee>, e: Employee) -> bool {
    exists|k: int| 0 <= k < r.len() && *r[k] == e
}

/// An employee just added shows in the listing of all employees.
pub proof fn law_added_employee_is_listed(entries: Seq<Employee>, e: Employee, r: Seq<&Employee>)
    requires
        is_listing(entries.push(e), None, r),
    ensures
        lists(r, e),
{
    let es = entries.push(e);
    let idx = choose|idx: Seq<int>|
        stable_listing(es, None, idx) && idx.len() == r.len() && forall|k: int|
            0 <= k < r.len() ==> *r[k] == es[#[trigger] idx[k]];
    let last = entries.len() as int;
    assert(listed(es, None, last));
    assert(idx.contains(last));
    let k = choose|k: int| 0 <= k < idx.len() && idx[k] == last;
    assert(*r[k] == es[idx[k]]);
}

/// An employee just added to a department shows in that department's listing.
pub proof fn law_added_employee_is_listed_in_department(
    entries: Seq<Employee>,
    e: Employee,
    r: Seq<&Employee>,
)
    requires
        is_listing(entries.push(e), Some(e.department()), r),
    ensures
        lists(r, e),
{
    let es = entries.push(e);
    let idx = choose|idx: Seq<int>|
        stable_listing(es, Some(e.department()), idx) && idx.len() == r.len() && forall|k: int|
            0 <= k < r.len() ==> *r[k] == es[#[trigger] idx[k]];
    let last = entries.len() as int;
    assert(listed(es, Some(e.department()), last));
    assert(idx.contains(last));
    let k = choose|k: int| 0 <= k < idx.len() && idx[k] == last;
    assert(*r[k] == es[idx[k]]);
}

/// Two positions never come before each other both ways.
proof fn lemma_comes_before_asymmetric(es: Seq<Employee>, i: int, j: int)
    requires
        comes_before(es, i, j),
    ensures
        !comes_before(es, j, i),
{
    let a = es[i].name();
    let b = es[j].name();
    if lex_le(a, b) && a != b && lex_le(b, a) && b != a {
        lemma_lex_le_antisymmetric(a, b);
    }
}

/// Positions in strictly increasing `comes_before` order.
pub open spec fn ordered_positions(es: Seq<Employee>, s: Seq<int>) -> bool {
    forall|a: int, b: int| 0 <= a < b < s.len() ==> comes_before(es, #[trigger] s[a], #[trigger] s[b])
}

/// Two position sequences in strictly increasing order with the same
/// positions are the same sequence.
proof fn lemma_ordered_positions_unique(es: Seq<Employee>, a: Seq<int>, b: Seq<int>)
    requires
        ordered_positions(es, a),
        ordered_positions(es, b),
        forall|x: int| a.contains(x) <==> b.contains(x),
    ensures
        a == b,
    decreases a.len(),
{
    if a.len() == 0 {
        if b.len() > 0 {
            assert(b.contains(b[0]));
        }
        assert(a =~= b);
    } else {
        assert(a.contains(a[0]));
        assert(b.len() > 0);
        let x = a[0];
        let y = b[0];
        if x != y {
            assert(b.contains(y));
            let k = choose|k: int| 0 <= k < a.len() && a[k] == y;
            assert(k > 0);
            assert(comes_before(es, a[0], a[k]));
            let m = choose|m: int| 0 <= m < b.len() && b[m] == x;
            assert(m > 0);
            assert(comes_before(es, b[0], b[m]));
            lemma_comes_before_asymmetric(es, x, y);
        }
        let a1 = a.drop_first();
        let b1 = b.drop_first();
        assert forall|z: int| a1.contains(z) <==> b1.contains(z) by {
            if a1.contains(z) {
                let k = choose|k: int| 0 <= k < a1.len() && a1[k] == z;
                assert(a[k + 1] == z);
                if z == x {
                    assert(comes_before(es, a[0], a[k + 1]));
                }
                assert(a.contains(z));
                let m = choose|m: int| 0 <= m < b.len() && b[m] == z;
                if m == 0 {
                    assert(comes_before(es, a[0], a[k + 1]));
                }
                assert(b1[m - 1] == z);
            }
            if b1.contains(z) {
                let k = choose|k: int| 0 <= k < b1.len() && b1[k] == z;
                assert(b[k + 1] == z);
                if z == y {
                    assert(comes_before(es, b[0], b[k + 1]));
                }
                assert(b.contains(z));
                let m = choose|m: int| 0 <= m < a.len() && a[m] == z;
                if m == 0 {
                    assert(comes_before(es, b[0], b[k + 1]));
                }
                assert(a1[m - 1] == z);
            }
        }
        assert(ordered_positions(es, a1)) by {
            assert forall|i: int, j: int| 0 <= i < j < a1.len() implies comes_before(
                es,
                #[trigger] a1[i],
                #[trigger] a1[j],
            ) by {
                assert(a1[i] == a[i + 1] && a1[j] == a[j + 1]);
            }
        }
        assert(ordered_positions(es, b1)) by {
            assert forall|i: int, j: int| 0 <= i < j < b1.len() implies comes_before(
                es,
                #[trigger] b1[i],
                #[trigger] b1[j],
            ) by {
                assert(b1[i] == b[i + 1] && b1[j] == b[j + 1]);
            }
        }
        lemma_ordered_positions_unique(es, a1, b1);
        assert(a =~= seq![x] + a1);
        assert(b =~= seq![y] + b1);
    }
}

/// The listing is determined: two results that both meet the contract of
/// `list` for the same employees and department are equal.
pub proof fn law_listing_is_unique(
    entries: Seq<Employee>,
    department: Option<Seq<char>>,
    r1: Seq<&Employee>,
    r2: Seq<&Employee>,
)
    requires
        is_listing(entries, department, r1),
        is_listing(entries, department, r2),
    ensures
        r1 == r2,
{
    let i1 = choose|idx: Seq<int>|
        stable_listing(entries, department, idx) && idx.len() == r1.len() && forall|k: int|
            0 <= k < r1.len() ==> *r1[k] == entries[#[trigger] idx[k]];
    let i2 = choose|idx: Seq<int>|
        stable_listing(entries, department, idx) && idx.len() == r2.len() && forall|k: int|
            0 <= k < r2.len() ==> *r2[k] == entries[#[trigger] idx[k]];
    assert forall|x: int| i1.contains(x) <==> i2.contains(x) by {
        if i1.contains(x) {
            let k = choose|k: int| 0 <= k < i1.len() && i1[k] == x;
            assert(0 <= i1[k] < entries.len() && listed(entries, department, i1[k]));
        }
        if i2.contains(x) {
            let k = choose|k: int| 0 <= k < i2.len() && i2[k] == x;
            assert(0 <= i2[k] < entries.len() && listed(entries, department, i2[k]));
        }
    }
    lemma_ordered_positions_unique(entries, i1, i2);
    assert forall|k: int| 0 <= k < r1.len() implies r1[k] == r2[k] by {
        assert(*r1[k] == entries[i1[k]]);
        assert(*r2[k] == entries[i2[k]]);
    }
    assert(r1 =~= r2);
}

/// The employees a listing refers to.
pub open spec fn listed_employees(r: Seq<&Employee>) -> Seq<Employee> {
    r.map_values(|e: &Employee| *e)
}

/// The employee at a position.
pub open spec fn employee_at(es: Seq<Employee>) -> spec_fn(int) -> Employee {
    |i: int| es[i]
}

/// An employee works in the department.
pub open spec fn works_in(d: Seq<char>) -> spec_fn(Employee) -> bool {
    |e: Employee| e.department() == d
}

/// A position holds an employee of the department.
pub open spec fn position_in(es: Seq<Employee>, d: Seq<char>) -> spec_fn(int) -> bool {
    |i: int| es[i].department() == d
}

/// Keeping the positions of a department, then taking their employees, is
/// taking the employees, then keeping those of the department.
proof fn lemma_filter_map(es: Seq<Employee>, d: Seq<char>, s: Seq<int>)
    ensures
        s.map_values(employee_at(es)).filter(works_in(d)) == s.filter(position_in(es, d)).map_values(
            employee_at(es),
        ),
    decreases s.len(),
{
    reveal(Seq::filter);
    let f = employee_at(es);
    if s.len() > 0 {
        let t = s.drop_last();
        lemma_filter_map(es, d, t);
        assert(s.map_values(f).drop_last() =~= t.map_values(f));
        assert(s.map_values(f).last() == f(s.last()));
        if position_in(es, d)(s.last()) {
            assert(s.filter(position_in(es, d)).map_values(f) =~= t.filter(position_in(es, d)).map_values(
                f,
            ).push(f(s.last())));
        }
    } else {
        assert(s.map_values(f) =~= Seq::<Employee>::empty());
        assert(s.filter(position_in(es, d)).map_values(f) =~= Seq::<Employee>::empty());
    }
}

/// Keeping some positions of an ordered sequence keeps it ordered.
proof fn lemma_filter_ordered(es: Seq<Employee>, s: Seq<int>, p: spec_fn(int) -> bool)
    requires
        ordered_positions(es, s),
    ensures
        ordered_positions(es, s.filter(p)),
    decreases s.len(),
{
    reveal(Seq::filter);
    if s.len() > 0 {
        let t = s.drop_last();
        assert(ordered_positions(es, t)) by {
            assert forall|a: int, b: int| 0 <= a < b < t.len() implies comes_before(
                es,
                #[trigger] t[a],
                #[trigger] t[b],
            ) by {
                assert(t[a] == s[a] && t[b] == s[b]);
            }
        }
        lemma_filter_ordered(es, t, p);
        if p(s.last()) {
            let ft = t.filter(p);
            let fs = ft.push(s.last());
            assert forall|a: int, b: int| 0 <= a < b < fs.len() implies comes_before(
                es,
                #[trigger] fs[a],
                #[trigger] fs[b],
            ) by {
                if b == fs.len() - 1 {
                    assert(ft.contains(fs[a]));
                    t.lemma_filter_contains_rev(p, fs[a]);
                    let k = choose|k: int| 0 <= k < t.len() && t[k] == fs[a];
                    assert(s[k] == fs[a]);
                    assert(comes_before(es, s[k], s[s.len() - 1]));
                } else {
                    assert(fs[a] == ft[a] && fs[b] == ft[b]);
                }
            }
        }
    }
}

/// The listing of a department is the listing of everyone, restricted to
/// the employees of that department, in the same order.
pub proof fn law_department_listing_is_restriction(
    entries: Seq<Employee>,
    d: Seq<char>,
    all: Seq<&Employee>,
    dept: Seq<&Employee>,
)
    requires
        is_listing(entries, None, all),
        is_listing(entries, Some(d), dept),
    ensures
        listed_employees(dept) == listed_employees(all).filter(works_in(d)),
{
    let ia = choose|idx: Seq<int>|
        stable_listing(entries, None, idx) && idx.len() == all.len() && forall|k: int|
            0 <= k < all.len() ==> *all[k] == entries[#[trigger] idx[k]];
    let i2 = choose|idx: Seq<int>|
        stable_listing(entries, Some(d), idx) && idx.len() == dept.len() && forall|k: int|
            0 <= k < dept.len() ==> *dept[k] == entries[#[trigger] idx[k]];
    let f = employee_at(entries);
    let p = position_in(entries, d);
    assert(listed_employees(all) =~= ia.map_values(f)) by {
        assert forall|k: int| 0 <= k < all.len() implies listed_employees(all)[k] == ia.map_values(f)[k] by {
            assert(*all[k] == entries[ia[k]]);
        }
    }
    let id = ia.filter(p);
    lemma_filter_ordered(entries, ia, p);
    assert forall|x: int| id.contains(x) <==> i2.contains(x) by {
        if id.contains(x) {
            ia.lemma_filter_contains_rev(p, x);
            let m = choose|m: int| 0 <= m < ia.len() && ia[m] == x;
            let k = choose|k: int| 0 <= k < id.len() && id[k] == x;
            ia.lemma_filter_pred(p, k);
            assert(0 <= ia[m] < entries.len());
            assert(listed(entries, Some(d), x));
        }
        if i2.contains(x) {
            let k = choose|k: int| 0 <= k < i2.len() && i2[k] == x;
            assert(0 <= i2[k] < entries.len() && listed(entries, Some(d), i2[k]));
            assert(listed(entries, None, x));
            assert(ia.contains(x));
            let m = choose|m: int| 0 <= m < ia.len() && ia[m] == x;
            ia.lemma_filter_contains(p, m);
        }
    }
    lemma_ordered_positions_unique(entries, id, i2);
    lemma_filter_map(entries, d, ia);
    assert(listed_employees(dept) =~= id.map_values(f)) by {
        assert forall|k: int| 0 <= k < dept.len() implies listed_employees(dept)[k] == id.map_values(f)[k] by {
            assert(*dept[k] == entries[i2[k]]);
        }
    }
}


/// What a listing is, in words: the employees of the department (all of them
/// without one), each exactly once, ordered by name, employees of the same
/// name in the order they were added.
pub proof fn law_listing_sorted_permutation(
    entries: Seq<Employee>,
    department: Option<Seq<char>>,
    r: Seq<&Employee>,
)
    requires
        is_listing(entries, department, r),
    ensures
        forall|i: int, j: int| 0 <= i < j < r.len() ==> lex_le(r[i].name(), r[j].name()),
        exists|idx: Seq<int>|
            {
                &&& idx.len() == r.len()
                &&& forall|k: int|
                    0 <= k < idx.len() ==> 0 <= #[trigger] idx[k] < entries.len() && listed(
                        entries,
                        department,
                        idx[k],
                    ) && *r[k] == entries[idx[k]]
                &&& forall|i: int| 0 <= i < entries.len() && listed(entries, department, i) ==> idx.contains(i)
                &&& forall|a: int, b: int| 0 <= a < b < idx.len() ==> #[trigger] idx[a] != #[trigger] idx[b]
                &&& forall|a: int, b: int|
                    0 <= a < b < idx.len() && entries[#[trigger] idx[a]].name() == entries[#[trigger] idx[b]].name()
                        ==> idx[a] < idx[b]
            },
{
    let idx = choose|idx: Seq<int>|
        stable_listing(entries, department, idx) && idx.len() == r.len() && forall|k: int|
            0 <= k < r.len() ==> *r[k] == entries[#[trigger] idx[k]];
    assert forall|i: int, j: int| 0 <= i < j < r.len() implies lex_le(r[i].name(), r[j].name()) by {
        assert(comes_before(entries, idx[i], idx[j]));
        lemma_comes_before_le(entries, idx[i], idx[j]);
        assert(*r[i] == entries[idx[i]] && *r[j] == entries[idx[j]]);
    }
    assert forall|a: int, b: int| 0 <= a < b < idx.len() implies #[trigger] idx[a] != #[trigger] idx[b] by {
        assert(comes_before(entries, idx[a], idx[b]));
    }
    assert forall|a: int, b: int|
        0 <= a < b < idx.len() && entries[#[trigger] idx[a]].name() == entries[#[trigger] idx[b]].name()
            implies idx[a] < idx[b] by {
        assert(comes_before(entries, idx[a], idx[b]));
    }
}

} // verus!
