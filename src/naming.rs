//! Output names that do not collide with files already present.
use vstd::prelude::*;
use vstd::set_lib::{lemma_int_range, lemma_len_subset, lemma_map_size, set_int_range};

verus! {

/// Decimal digits of `n`, most significant first, without leading zeros.
pub open spec fn decimal(n: nat) -> Seq<u8>
    decreases n,
{
    if n < 10 {
        seq![(48 + n) as u8]
    } else {
        decimal(n / 10).push((48 + n % 10) as u8)
    }
}

/// The length of `s` up to `i` once the slashes that end it are dropped.
pub open spec fn trimmed_len(s: Seq<u8>, i: int) -> int
    decreases i,
{
    if i > 0 && s[i - 1] == 47u8 {
        trimmed_len(s, i - 1)
    } else {
        i
    }
}

/// The part of `name` a numbered variant is built on: `name` without its
/// trailing slashes (all of `name` when nothing else is left).
pub open spec fn name_base(name: Seq<u8>) -> Seq<u8> {
    let e = trimmed_len(name, name.len() as int);
    if e <= 0 {
        name
    } else {
        name.subrange(0, e)
    }
}

/// What the counter is appended to: the base and a dot, or the base alone when it
/// already ends in a dot (its extension is empty, and the counter replaces it).
pub open spec fn numbered_prefix(name: Seq<u8>) -> Seq<u8> {
    let b = name_base(name);
    if b.len() > 0 && b.last() == 46u8 {
        b
    } else {
        b.push(46u8)
    }
}

/// The `k`-th name tried for `name`: the name itself, then the name with its
/// extension extended by the counter (`out.txt.1`), or the counter as the
/// extension where there is none (`README.1`, `a.` gives `a.1`).
pub open spec fn candidate(name: Seq<u8>, k: nat) -> Seq<u8> {
    if k == 0 {
        name
    } else {
        numbered_prefix(name) + decimal(k)
    }
}

proof fn lemma_trimmed_len(s: Seq<u8>, i: int)
    requires
        0 <= i <= s.len(),
    ensures
        0 <= trimmed_len(s, i) <= i,
        trimmed_len(s, i) < i ==> s[i - 1] == 47u8,
        trimmed_len(s, i) > 0 ==> s[trimmed_len(s, i) - 1] != 47u8,
    decreases i,
{
    if i > 0 && s[i - 1] == 47u8 {
        lemma_trimmed_len(s, i - 1);
    }
}

proof fn lemma_decimal_last(n: nat)
    ensures
        48 <= decimal(n).last() <= 57,
    decreases n,
{
}

proof fn lemma_numbered_prefix(name: Seq<u8>)
    ensures
        numbered_prefix(name).len() >= name.len() || name.last() == 47u8,
{
    lemma_trimmed_len(name, name.len() as int);
}

proof fn lemma_decimal_len(n: nat)
    ensures
        decimal(n).len() >= 1,
        n < 10 ==> decimal(n).len() == 1,
        n >= 10 ==> decimal(n).len() >= 2,
    decreases n,
{
    if n >= 10 {
        lemma_decimal_len(n / 10);
    }
}

proof fn lemma_decimal_injective(a: nat, b: nat)
    requires
        decimal(a) == decimal(b),
    ensures
        a == b,
    decreases a,
{
    lemma_decimal_len(a);
    lemma_decimal_len(b);
    if a >= 10 && b >= 10 {
        let da = decimal(a);
        let db = decimal(b);
        assert(da.last() == db.last());
        assert(da.last() == (48 + a % 10) as u8);
        assert(db.last() == (48 + b % 10) as u8);
        assert(a % 10 == b % 10);
        assert(da.drop_last() =~= decimal(a / 10));
        assert(db.drop_last() =~= decimal(b / 10));
        lemma_decimal_injective(a / 10, b / 10);
        assert(a == b) by (nonlinear_arith)
            requires
                a / 10 == b / 10,
                a % 10 == b % 10,
        ;
    } else if a < 10 && b < 10 {
        assert(decimal(a)[0] == (48 + a) as u8);
        assert(decimal(b)[0] == (48 + b) as u8);
    }
}

/// Distinct attempts give distinct names.
pub proof fn lemma_candidate_injective(name: Seq<u8>, j: nat, k: nat)
    requires
        j != k,
    ensures
        candidate(name, j) != candidate(name, k),
{
    lemma_decimal_len(j);
    lemma_decimal_len(k);
    let p = numbered_prefix(name);
    if j != 0 && k != 0 && candidate(name, j) == candidate(name, k) {
        assert(decimal(j) =~= candidate(name, j).subrange(p.len() as int, candidate(name, j).len() as int));
        assert(decimal(k) =~= candidate(name, k).subrange(p.len() as int, candidate(name, k).len() as int));
        lemma_decimal_injective(j, k);
    } else if j == 0 || k == 0 {
        let n = if j == 0 { k } else { j };
        lemma_numbered_prefix(name);
        lemma_decimal_last(n);
        if candidate(name, n) == name {
            assert(name.last() == decimal(n).last());
        }
    }
}

/// If the first `k` names tried for `name` are all taken, there are at least `k` taken names.
proof fn lemma_taken_bound(name: Seq<u8>, taken: Seq<Seq<u8>>, k: nat)
    requires
        forall|j: nat| j < k ==> taken.contains(#[trigger] candidate(name, j)),
    ensures
        k <= taken.len(),
{
    let f = |i: int| candidate(name, i as nat);
    let r = set_int_range(0, k as int);
    lemma_int_range(0, k as int);
    assert forall|x: int, y: int| r.contains(x) && r.contains(y) && #[trigger] f(x) == #[trigger] f(y) implies x == y by {
        if x != y {
            lemma_candidate_injective(name, x as nat, y as nat);
        }
    }
    lemma_map_size(r, r.map(f), f);
    assert forall|s: Seq<u8>| r.map(f).contains(s) implies taken.to_set().contains(s) by {
        let i = choose|i: int| r.contains(i) && f(i) == s;
        assert(candidate(name, i as nat) == s);
    }
    taken.lemma_cardinality_of_set();
    lemma_len_subset(r.map(f), taken.to_set());
}

fn push_decimal(v: &mut Vec<u8>, n: usize)
    ensures
        final(v)@ == old(v)@ + decimal(n as nat),
    decreases n,
{
    if n >= 10 {
        push_decimal(v, n / 10);
    }
    v.push((48 + n % 10) as u8);
    assert(decimal(n as nat) == if n < 10 { seq![(48 + n) as u8] } else { decimal((n / 10) as nat).push((48 + n % 10) as u8) });
    assert(final(v)@ =~= old(v)@ + decimal(n as nat));
}

fn copy_prefix(name: &[u8], e: usize) -> (r: Vec<u8>)
    requires
        e <= name@.len(),
    ensures
        r@ == name@.subrange(0, e as int),
{
    let mut r: Vec<u8> = Vec::new();
    let mut i: usize = 0;
    while i < e
        invariant
            i <= e <= name@.len(),
            r@ == name@.subrange(0, i as int),
        decreases e - i,
    {
        r.push(name[i]);
        i = i + 1;
        assert(r@ =~= name@.subrange(0, i as int));
    }
    r
}

/// The `k`-th name tried for `name`.
pub fn candidate_name(name: &[u8], k: usize) -> (r: Vec<u8>)
    ensures
        r@ == candidate(name@, k as nat),
{
    let n = name.len();
    if k == 0 {
        let r = copy_prefix(name, n);
        assert(r@ =~= name@);
        return r;
    }
    let mut e: usize = n;
    while e > 0 && name[e - 1] == 47u8
        invariant
            e <= n == name@.len(),
            trimmed_len(name@, n as int) == trimmed_len(name@, e as int),
        decreases e,
    {
        e = e - 1;
    }
    if e == 0 {
        e = n;
    }
    let mut r = copy_prefix(name, e);
    assert(r@ == name_base(name@)) by {
        if e == n {
            assert(name@.subrange(0, n as int) =~= name@);
        }
    }
    if !(e > 0 && name[e - 1] == 46u8) {
        r.push(46u8);
    }
    push_decimal(&mut r, k);
    r
}

/// Whether `a` and `b` hold the same bytes.
pub fn bytes_eq(a: &[u8], b: &[u8]) -> (r: bool)
    ensures
        r == (a@ == b@),
{
    if a.len() != b.len() {
        return false;
    }
    let mut i: usize = 0;
    while i < a.len()
        invariant
            a@.len() == b@.len(),
            i <= a@.len(),
            forall|j: int| 0 <= j < i ==> a@[j] == b@[j],
        decreases a@.len() - i,
    {
        if a[i] != b[i] {
            return false;
        }
        i = i + 1;
    }
    assert(a@ =~= b@);
    true
}

fn contains_name(taken: &Vec<Vec<u8>>, name: &[u8]) -> (r: bool)
    ensures
        r == taken@.map_values(|v: Vec<u8>| v@).contains(name@),
{
    let ghost names = taken@.map_values(|v: Vec<u8>| v@);
    let mut i: usize = 0;
    while i < taken.len()
        invariant
            i <= taken@.len(),
            names == taken@.map_values(|v: Vec<u8>| v@),
            forall|j: int| 0 <= j < i ==> names[j] != name@,
        decreases taken@.len() - i,
    {
        if bytes_eq(taken[i].as_slice(), name) {
            assert(names[i as int] == name@);
            return true;
        }
        i = i + 1;
    }
    false
}

/// The names of `taken` as byte sequences.
pub open spec fn names_of(taken: Seq<Vec<u8>>) -> Seq<Seq<u8>> {
    taken.map_values(|v: Vec<u8>| v@)
}

/// The first name tried for `name` that `taken` does not hold.
pub open spec fn is_first_free(name: Seq<u8>, taken: Seq<Seq<u8>>, r: Seq<u8>) -> bool {
    exists|k: nat|
        r == candidate(name, k) && !taken.contains(r) && forall|j: nat|
            j < k ==> taken.contains(#[trigger] candidate(name, j))
}

/// Picks the output name for an upload called `name` when the names in `taken`
/// already exist: `name` itself if it is free, else the first free `name.1`, `name.2`, ...
pub fn first_free_name(name: &[u8], taken: &Vec<Vec<u8>>) -> (r: Vec<u8>)
    ensures
        is_first_free(name@, names_of(taken@), r@),
{
    let ghost names = names_of(taken@);
    let n = taken.len();
    let mut k: usize = 0;
    let mut c = candidate_name(name, 0);
    while contains_name(taken, c.as_slice())
        invariant
            n == taken@.len(),
            names.len() == n,
            names == names_of(taken@),
            c@ == candidate(name@, k as nat),
            forall|j: nat| j < k ==> names.contains(#[trigger] candidate(name@, j)),
        decreases taken@.len() - k,
    {
        proof {
            assert forall|j: nat| j < k + 1 implies names.contains(#[trigger] candidate(name@, j)) by {
                if j == k {
                    assert(names.contains(c@));
                }
            }
            lemma_taken_bound(name@, names, (k + 1) as nat);
        }
        k = k + 1;
        c = candidate_name(name, k);
    }
    proof {
        lemma_taken_bound(name@, names, k as nat);
    }
    c
}

/// When `name` and its first `k - 1` numbered variants exist and the `k`-th does
/// not, the chosen name is that `k`-th variant, and no existing name is chosen.
pub proof fn lemma_first_free_is_first_gap(name: Seq<u8>, taken: Seq<Seq<u8>>, k: nat, r: Seq<u8>)
    requires
        forall|j: nat| j < k ==> taken.contains(#[trigger] candidate(name, j)),
        !taken.contains(candidate(name, k)),
        is_first_free(name, taken, r),
    ensures
        r == candidate(name, k),
        !taken.contains(r),
{
    let k2 = choose|k2: nat|
        r == candidate(name, k2) && !taken.contains(r) && forall|j: nat|
            j < k2 ==> taken.contains(#[trigger] candidate(name, j));
    if k2 < k {
        assert(taken.contains(candidate(name, k2)));
    } else if k2 > k {
        assert(taken.contains(candidate(name, k)));
    }
}

/// Two uploads of the same name, one after the other, land in two distinct files,
/// neither of which existed before.
pub proof fn lemma_repeated_upload_distinct(name: Seq<u8>, taken: Seq<Seq<u8>>, r1: Seq<u8>, r2: Seq<u8>)
    requires
        is_first_free(name, taken, r1),
        is_first_free(name, taken.push(r1), r2),
    ensures
        r1 != r2,
        !taken.contains(r1),
        !taken.contains(r2),
{
    assert(taken.push(r1).contains(r1)) by {
        assert(taken.push(r1)[taken.len() as int] == r1);
    }
    if taken.contains(r2) {
        let i = choose|i: int| 0 <= i < taken.len() && taken[i] == r2;
        assert(taken.push(r1)[i] == r2);
    }
}

} // verus!
