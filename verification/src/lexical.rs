//! Code-point lexicographic order on character sequences (the order of
//! `String`'s `Ord`, since UTF-8 preserves code-point order), and the
//! sorted, duplicate-free collections built with it. A sorted `Vec` stands
//! where a `BTreeSet<String>` would: vstd specifies `BTreeSet` only for key
//! types that obey its model of `Ord`, and gives `String` no such model, so
//! nothing could be proved of a `BTreeSet<String>`'s contents or order.

use vstd::prelude::*;

verus! {

/// `a` sorts strictly before `b`.
pub open spec fn lex_lt(a: Seq<char>, b: Seq<char>) -> bool
    decreases a.len(),
{
    if a.len() == 0 {
        b.len() > 0
    } else if b.len() == 0 {
        false
    } else if a[0] != b[0] {
        (a[0] as u32) < (b[0] as u32)
    } else {
        lex_lt(a.drop_first(), b.drop_first())
    }
}

/// Every element sorts strictly before the next one.
pub open spec fn strictly_sorted(s: Seq<Seq<char>>) -> bool {
    forall|i: int, j: int| 0 <= i < j < s.len() ==> lex_lt(#[trigger] s[i], #[trigger] s[j])
}

/// `v` with `x` placed at its position in the order, unless it is already there.
pub open spec fn sorted_insert(v: Seq<Seq<char>>, x: Seq<char>) -> Seq<Seq<char>>
    decreases v.len(),
{
    if v.len() == 0 {
        seq![x]
    } else if v[0] == x {
        v
    } else if lex_lt(x, v[0]) {
        seq![x] + v
    } else {
        seq![v[0]] + sorted_insert(v.drop_first(), x)
    }
}

/// The elements of `s`, sorted, each once.
pub open spec fn sort_unique(s: Seq<Seq<char>>) -> Seq<Seq<char>>
    decreases s.len(),
{
    if s.len() == 0 {
        seq![]
    } else {
        sorted_insert(sort_unique(s.drop_last()), s.last())
    }
}

pub proof fn lemma_lex_irreflexive(a: Seq<char>)
    ensures
        !lex_lt(a, a),
    decreases a.len(),
{
    if a.len() > 0 {
        lemma_lex_irreflexive(a.drop_first());
    }
}

pub proof fn lemma_lex_transitive(a: Seq<char>, b: Seq<char>, c: Seq<char>)
    requires
        lex_lt(a, b),
        lex_lt(b, c),
    ensures
        lex_lt(a, c),
    decreases a.len(),
{
    if a.len() > 0 && b.len() > 0 && c.len() > 0 {
        if a[0] == b[0] && b[0] == c[0] {
            lemma_lex_transitive(a.drop_first(), b.drop_first(), c.drop_first());
        }
    }
}

pub proof fn lemma_lex_total(a: Seq<char>, b: Seq<char>)
    requires
        a != b,
    ensures
        lex_lt(a, b) || lex_lt(b, a),
    decreases a.len(),
{
    if a.len() > 0 && b.len() > 0 && a[0] == b[0] {
        if a.drop_first() == b.drop_first() {
            assert(a =~= seq![a[0]] + a.drop_first());
            assert(b =~= seq![b[0]] + b.drop_first());
        }
        lemma_lex_total(a.drop_first(), b.drop_first());
    } else if a.len() == 0 && b.len() == 0 {
        assert(a =~= b);
    } else if a.len() > 0 && b.len() > 0 {
        vstd::utf8::char_u32_cast(a[0], a[0] as u32);
        vstd::utf8::char_u32_cast(b[0], b[0] as u32);
    }
}

/// Inserting keeps the sequence strictly sorted and adds exactly `x`.
pub proof fn lemma_sorted_insert(v: Seq<Seq<char>>, x: Seq<char>)
    requires
        strictly_sorted(v),
    ensures
        strictly_sorted(sorted_insert(v, x)),
        sorted_insert(v, x).to_set() == v.to_set().insert(x),
    decreases v.len(),
{
    broadcast use vstd::seq_lib::group_seq_properties;

    let r = sorted_insert(v, x);
    if v.len() == 0 {
        assert(r.to_set() =~= v.to_set().insert(x)) by {
            assert(r[0] == x);
        }
    } else if v[0] == x {
        assert(r.to_set() =~= v.to_set().insert(x)) by {
            assert(v.contains(x));
        }
    } else if lex_lt(x, v[0]) {
        assert forall|i: int, j: int| 0 <= i < j < r.len() implies lex_lt(
            #[trigger] r[i],
            #[trigger] r[j],
        ) by {
            if i == 0 {
                if j > 1 {
                    lemma_lex_transitive(x, v[0], v[j - 1]);
                }
            } else {
                assert(r[i] == v[i - 1] && r[j] == v[j - 1]);
            }
        }
        assert(r.to_set() =~= v.to_set().insert(x)) by {
            assert forall|e| r.to_set().contains(e) implies v.to_set().insert(x).contains(e) by {
                let k = choose|k: int| 0 <= k < r.len() && r[k] == e;
                if k > 0 {
                    assert(v[k - 1] == e);
                }
            }
            assert forall|e| v.to_set().insert(x).contains(e) implies r.to_set().contains(e) by {
                if e == x {
                    assert(r[0] == x);
                } else {
                    let k = choose|k: int| 0 <= k < v.len() && v[k] == e;
                    assert(r[k + 1] == e);
                }
            }
        }
    } else {
        let t = v.drop_first();
        assert forall|i: int, j: int| 0 <= i < j < t.len() implies lex_lt(
            #[trigger] t[i],
            #[trigger] t[j],
        ) by {
            assert(t[i] == v[i + 1] && t[j] == v[j + 1]);
        }
        lemma_sorted_insert(t, x);
        let rt = sorted_insert(t, x);
        lemma_lex_total(x, v[0]);
        assert(lex_lt(v[0], x));
        assert(r == seq![v[0]] + rt);
        assert forall|i: int, j: int| 0 <= i < j < r.len() implies lex_lt(
            #[trigger] r[i],
            #[trigger] r[j],
        ) by {
            if i == 0 {
                assert(r[j] == rt[j - 1]);
                assert(rt.to_set().contains(rt[j - 1]));
                if rt[j - 1] != x {
                    assert(t.to_set().contains(rt[j - 1]));
                    let k = choose|k: int| 0 <= k < t.len() && t[k] == rt[j - 1];
                    assert(v[k + 1] == t[k]);
                }
            } else {
                assert(r[i] == rt[i - 1] && r[j] == rt[j - 1]);
            }
        }
        assert(r.to_set() =~= v.to_set().insert(x)) by {
            assert forall|e| r.to_set().contains(e) implies v.to_set().insert(x).contains(e) by {
                let k = choose|k: int| 0 <= k < r.len() && r[k] == e;
                if k == 0 {
                    assert(v[0] == e);
                } else {
                    assert(rt[k - 1] == e);
                    assert(rt.to_set().contains(e));
                    if e != x {
                        let m = choose|m: int| 0 <= m < t.len() && t[m] == e;
                        assert(v[m + 1] == e);
                    }
                }
            }
            assert forall|e| v.to_set().insert(x).contains(e) implies r.to_set().contains(e) by {
                if e == v[0] {
                    assert(r[0] == e);
                } else {
                    if e != x {
                        let k = choose|k: int| 0 <= k < v.len() && v[k] == e;
                        assert(k > 0);
                        assert(t[k - 1] == e);
                        assert(t.to_set().contains(e));
                    }
                    assert(rt.to_set().contains(e));
                    let m = choose|m: int| 0 <= m < rt.len() && rt[m] == e;
                    assert(r[m + 1] == e);
                }
            }
        }
    }
}

/// The result of `sort_unique` is strictly sorted and holds exactly the
/// elements of its input.
pub proof fn lemma_sort_unique(s: Seq<Seq<char>>)
    ensures
        strictly_sorted(sort_unique(s)),
        sort_unique(s).to_set() == s.to_set(),
    decreases s.len(),
{
    broadcast use vstd::seq_lib::group_seq_properties;

    if s.len() == 0 {
        assert(sort_unique(s).to_set() =~= s.to_set());
    } else {
        lemma_sort_unique(s.drop_last());
        lemma_sorted_insert(sort_unique(s.drop_last()), s.last());
        assert(s.to_set() =~= s.drop_last().to_set().insert(s.last())) by {
            assert(s =~= s.drop_last().push(s.last()));
        }
    }
}

/// Exact comparison of two character vectors.
pub fn same_chars(a: &Vec<char>, b: &Vec<char>) -> (res: bool)
    ensures
        res == (a@ == b@),
{
    if a.len() != b.len() {
        return false;
    }
    let mut k: usize = 0;
    while k < a.len()
        invariant
            a.len() == b.len(),
            k <= a.len(),
            forall|j: int| 0 <= j < k ==> a@[j] == b@[j],
        decreases a.len() - k,
    {
        if a[k] != b[k] {
            return false;
        }
        k += 1;
    }
    assert(a@ =~= b@);
    true
}

proof fn lemma_lex_skip(a: Seq<char>, b: Seq<char>, k: int)
    requires
        0 <= k <= a.len(),
        k <= b.len(),
        forall|j: int| 0 <= j < k ==> a[j] == b[j],
    ensures
        lex_lt(a, b) == lex_lt(a.skip(k), b.skip(k)),
    decreases k,
{
    if k > 0 {
        lemma_lex_skip(a.drop_first(), b.drop_first(), k - 1);
        assert(a.drop_first().skip(k - 1) =~= a.skip(k));
        assert(b.drop_first().skip(k - 1) =~= b.skip(k));
    } else {
        assert(a.skip(0) =~= a);
        assert(b.skip(0) =~= b);
    }
}

/// `a` sorts strictly before `b`.
pub fn lex_less(a: &Vec<char>, b: &Vec<char>) -> (res: bool)
    ensures
        res == lex_lt(a@, b@),
{
    let mut k: usize = 0;
    while k < a.len() && k < b.len() && a[k] == b[k]
        invariant
            k <= a.len(),
            k <= b.len(),
            forall|j: int| 0 <= j < k ==> a@[j] == b@[j],
        decreases a.len() - k,
    {
        k += 1;
    }
    proof {
        lemma_lex_skip(a@, b@, k as int);
    }
    if k == a.len() {
        k < b.len()
    } else if k == b.len() {
        false
    } else {
        assert(a@.skip(k as int)[0] == a@[k as int]);
        assert(b@.skip(k as int)[0] == b@[k as int]);
        (a[k] as u32) < (b[k] as u32)
    }
}

proof fn lemma_sorted_insert_prefix(v: Seq<Seq<char>>, x: Seq<char>, j: int)
    requires
        0 <= j <= v.len(),
        forall|k: int| 0 <= k < j ==> lex_lt(#[trigger] v[k], x),
    ensures
        sorted_insert(v, x) == v.take(j) + sorted_insert(v.skip(j), x),
    decreases j,
{
    if j > 0 {
        lemma_lex_irreflexive(x);
        assert(lex_lt(v[0], x));
        if lex_lt(x, v[0]) {
            lemma_lex_transitive(x, v[0], x);
        }
        assert forall|k: int| 0 <= k < j - 1 implies lex_lt(#[trigger] v.drop_first()[k], x) by {
            assert(v.drop_first()[k] == v[k + 1]);
        }
        lemma_sorted_insert_prefix(v.drop_first(), x, j - 1);
        assert(v.drop_first().skip(j - 1) =~= v.skip(j));
        assert(v.take(j) =~= seq![v[0]] + v.drop_first().take(j - 1));
    } else {
        assert(v.skip(0) =~= v);
        assert(v.take(0) =~= Seq::<Seq<char>>::empty());
    }
}

/// Places `x` in the sorted collection `v`, unless it is already there.
pub fn insert_sorted(v: &mut Vec<Vec<char>>, x: Vec<char>)
    ensures
        final(v)@.map_values(|e: Vec<char>| e@) == sorted_insert(
            old(v)@.map_values(|e: Vec<char>| e@),
            x@,
        ),
{
    let ghost sv = v@.map_values(|e: Vec<char>| e@);
    let mut j: usize = 0;
    while j < v.len() && lex_less(&v[j], &x)
        invariant
            j <= v.len(),
            sv == v@.map_values(|e: Vec<char>| e@),
            forall|k: int| 0 <= k < j ==> lex_lt(#[trigger] sv[k], x@),
        decreases v.len() - j,
    {
        j += 1;
    }
    proof {
        lemma_sorted_insert_prefix(sv, x@, j as int);
    }
    let ghost rest = sv.skip(j as int);
    if j < v.len() && same_chars(&v[j], &x) {
        assert(rest[0] == x@);
        assert(sv.take(j as int) + rest =~= sv);
        return;
    }
    if j < v.len() {
        proof {
            lemma_lex_total(x@, rest[0]);
        }
        assert(rest =~= seq![rest[0]] + rest.drop_first());
    }
    v.insert(j, x);
    assert(v@.map_values(|e: Vec<char>| e@) =~= sv.take(j as int) + sorted_insert(rest, x@));
}

} // verus!
