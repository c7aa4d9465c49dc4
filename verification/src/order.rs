use vstd::prelude::*;

use crate::str_eq;

verus! {

/// Strict lexicographic order on character sequences by unicode scalar
/// value, the order the import block is emitted in. A proper prefix
/// comes before every extension of it.
pub open spec fn lex_lt(a: Seq<char>, b: Seq<char>) -> bool
    decreases a.len(),
{
    if b.len() == 0 {
        false
    } else if a.len() == 0 {
        true
    } else if (a[0] as u32) < (b[0] as u32) {
        true
    } else if (a[0] as u32) > (b[0] as u32) {
        false
    } else {
        lex_lt(a.drop_first(), b.drop_first())
    }
}

/// `lex_lt` never holds of a sequence and itself.
pub proof fn lemma_lex_lt_irrefl(a: Seq<char>)
    ensures
        !lex_lt(a, a),
    decreases a.len(),
{
    if a.len() > 0 {
        lemma_lex_lt_irrefl(a.drop_first());
    }
}

/// Any two character sequences are ordered or equal.
pub proof fn lemma_lex_lt_connected(a: Seq<char>, b: Seq<char>)
    ensures
        lex_lt(a, b) || lex_lt(b, a) || a == b,
    decreases a.len(),
{
    if a.len() == 0 && b.len() == 0 {
        assert(a =~= b);
    } else if a.len() > 0 && b.len() > 0 && (a[0] as u32) == (b[0] as u32) {
        let u = a[0] as u32;
        vstd::utf8::char_u32_cast(a[0], u);
        vstd::utf8::char_u32_cast(b[0], u);
        assert(a[0] == b[0]);
        lemma_lex_lt_connected(a.drop_first(), b.drop_first());
        if a.drop_first() == b.drop_first() {
            assert(a.drop_first().len() == a.len() - 1);
            assert(b.drop_first().len() == b.len() - 1);
            assert(a.len() == b.len());
            assert forall|i: int| 0 <= i < a.len() implies a[i] == b[i] by {
                if i >= 1 {
                    assert(a[i] == a.drop_first()[i - 1]);
                    assert(b[i] == b.drop_first()[i - 1]);
                }
            }
            assert(a =~= b);
        }
    }
}

/// At most one direction of `lex_lt` holds.
pub proof fn lemma_lex_lt_asym(a: Seq<char>, b: Seq<char>)
    ensures
        !(lex_lt(a, b) && lex_lt(b, a)),
    decreases a.len(),
{
    if a.len() > 0 && b.len() > 0 {
        lemma_lex_lt_asym(a.drop_first(), b.drop_first());
    }
}

/// `lex_lt` is transitive.
pub proof fn lemma_lex_lt_trans(a: Seq<char>, b: Seq<char>, c: Seq<char>)
    requires
        lex_lt(a, b),
        lex_lt(b, c),
    ensures
        lex_lt(a, c),
    decreases a.len(),
{
    if a.len() > 0 && b.len() > 0 && c.len() > 0 && (a[0] as u32) == (b[0] as u32) && (b[0] as u32)
        == (c[0] as u32) {
        lemma_lex_lt_trans(a.drop_first(), b.drop_first(), c.drop_first());
    }
}

/// Whether `a` comes strictly before `b` in the import order.
pub fn str_lt(a: &str, b: &str) -> (r: bool)
    ensures
        r == lex_lt(a@, b@),
{
    let a_len = a.unicode_len();
    let b_len = b.unicode_len();
    let mut i: usize = 0;
    proof {
        assert(a@.skip(0) =~= a@);
        assert(b@.skip(0) =~= b@);
    }
    while i < a_len && i < b_len
        invariant
            i <= a_len,
            i <= b_len,
            a_len == a@.len(),
            b_len == b@.len(),
            lex_lt(a@, b@) == lex_lt(a@.skip(i as int), b@.skip(i as int)),
        decreases a_len - i,
    {
        let ca = a.get_char(i);
        let cb = b.get_char(i);
        proof {
            assert(a@.skip(i as int)[0] == a@[i as int]);
            assert(b@.skip(i as int)[0] == b@[i as int]);
            assert(a@.skip(i as int).drop_first() =~= a@.skip(i as int + 1));
            assert(b@.skip(i as int).drop_first() =~= b@.skip(i as int + 1));
        }
        let ca32 = ca as u32;
        let cb32 = cb as u32;
        if ca32 < cb32 {
            return true;
        }
        if ca32 > cb32 {
            return false;
        }
        i = i + 1;
    }
    // one of the two is exhausted: `a` is before `b` exactly when `a`
    // is the shorter (proper) prefix
    i < b_len
}

/// Where `x` belongs in a run of names already in import order: before
/// the first entry not strictly below it, and not at all if that entry
/// is `x` itself.
pub open spec fn sorted_insert(s: Seq<Seq<char>>, x: Seq<char>) -> Seq<Seq<char>>
    decreases s.len(),
{
    if s.len() == 0 {
        seq![x]
    } else if x == s[0] {
        s
    } else if lex_lt(x, s[0]) {
        seq![x] + s
    } else {
        seq![s[0]] + sorted_insert(s.drop_first(), x)
    }
}

/// The import list an arbitrary traversal order boils down to: every
/// name inserted in turn into a sorted, duplicate-free run.
pub open spec fn sort_dedup(s: Seq<Seq<char>>) -> Seq<Seq<char>>
    decreases s.len(),
{
    if s.len() == 0 {
        Seq::empty()
    } else {
        sorted_insert(sort_dedup(s.drop_last()), s.last())
    }
}

/// Strictly ascending: sorted, and thus also free of duplicates.
pub open spec fn sorted_unique(s: Seq<Seq<char>>) -> bool {
    forall|i: int, j: int| 0 <= i < j < s.len() ==> lex_lt(s[i], s[j])
}

/// Inserting into a strictly ascending run keeps it strictly ascending
/// and adds exactly the inserted name to its contents.
pub proof fn lemma_sorted_insert_props(s: Seq<Seq<char>>, x: Seq<char>)
    requires
        sorted_unique(s),
    ensures
        sorted_unique(sorted_insert(s, x)),
        forall|y: Seq<char>|
            #[trigger] sorted_insert(s, x).contains(y) <==> (s.contains(y) || y == x),
    decreases s.len(),
{
    if s.len() == 0 {
        assert forall|y: Seq<char>|
            #[trigger] sorted_insert(s, x).contains(y) <==> (s.contains(y) || y == x) by {
            if y == x {
                assert(sorted_insert(s, x)[0] == x);
            }
        }
    } else if x == s[0] {
        assert forall|y: Seq<char>|
            #[trigger] sorted_insert(s, x).contains(y) <==> (s.contains(y) || y == x) by {
            if y == x {
                assert(s[0] == y);
            }
        }
    } else if lex_lt(x, s[0]) {
        let r = seq![x] + s;
        assert forall|i: int, j: int| 0 <= i < j < r.len() implies lex_lt(r[i], r[j]) by {
            if i == 0 {
                if j > 1 {
                    lemma_lex_lt_trans(x, s[0], s[j - 1]);
                }
            }
        }
        assert forall|y: Seq<char>| #[trigger] r.contains(y) <==> (s.contains(y) || y == x) by {
            if r.contains(y) {
                let k = choose|k: int| 0 <= k < r.len() && r[k] == y;
                if k == 0 {
                } else {
                    assert(s[k - 1] == y);
                }
            }
            if y == x {
                assert(r[0] == y);
            }
            if s.contains(y) {
                let k = choose|k: int| 0 <= k < s.len() && s[k] == y;
                assert(r[k + 1] == y);
            }
        }
    } else {
        lemma_lex_lt_connected(x, s[0]);
        assert(lex_lt(s[0], x));
        let tail = s.drop_first();
        assert(sorted_unique(tail)) by {
            assert(forall|i: int, j: int|
                0 <= i < j < tail.len() ==> tail[i] == s[i + 1] && tail[j] == s[j + 1]);
        }
        lemma_sorted_insert_props(tail, x);
        let rec = sorted_insert(tail, x);
        let r = seq![s[0]] + rec;
        assert(sorted_insert(s, x) == r);
        assert forall|i: int, j: int| 0 <= i < j < r.len() implies lex_lt(r[i], r[j]) by {
            if i == 0 {
                assert(rec.contains(r[j])) by {
                    assert(rec[j - 1] == r[j]);
                }
                if r[j] == x {
                } else {
                    assert(tail.contains(r[j]));
                    let k = choose|k: int| 0 <= k < tail.len() && tail[k] == r[j];
                    assert(s[k + 1] == r[j]);
                    assert(lex_lt(s[0], s[k + 1]));
                }
            } else {
                assert(rec[i - 1] == r[i] && rec[j - 1] == r[j]);
            }
        }
        assert forall|y: Seq<char>| #[trigger] r.contains(y) <==> (s.contains(y) || y == x) by {
            if r.contains(y) {
                let k = choose|k: int| 0 <= k < r.len() && r[k] == y;
                if k == 0 {
                    assert(s[0] == y);
                } else {
                    assert(rec[k - 1] == y);
                    assert(rec.contains(y));
                    if y != x {
                        assert(tail.contains(y));
                        let t = choose|t: int| 0 <= t < tail.len() && tail[t] == y;
                        assert(s[t + 1] == y);
                    }
                }
            }
            if y == x {
                assert(rec.contains(y));
                let k = choose|k: int| 0 <= k < rec.len() && rec[k] == y;
                assert(r[k + 1] == y);
            }
            if s.contains(y) {
                let k = choose|k: int| 0 <= k < s.len() && s[k] == y;
                if k == 0 {
                    assert(r[0] == y);
                } else {
                    assert(tail[k - 1] == y);
                    assert(tail.contains(y));
                    assert(rec.contains(y));
                    let t = choose|t: int| 0 <= t < rec.len() && rec[t] == y;
                    assert(r[t + 1] == y);
                }
            }
        }
    }
}

/// Law: however the imports were collected, the emitted list is
/// strictly ascending — sorted and free of duplicates — and holds
/// exactly the names that were collected.
pub proof fn lemma_sort_dedup_props(s: Seq<Seq<char>>)
    ensures
        sorted_unique(sort_dedup(s)),
        forall|y: Seq<char>| #[trigger] sort_dedup(s).contains(y) <==> s.contains(y),
    decreases s.len(),
{
    if s.len() == 0 {
    } else {
        let front = s.drop_last();
        lemma_sort_dedup_props(front);
        lemma_sorted_insert_props(sort_dedup(front), s.last());
        assert forall|y: Seq<char>| #[trigger] sort_dedup(s).contains(y) <==> s.contains(y) by {
            if sort_dedup(s).contains(y) {
                if y == s.last() {
                    assert(s[s.len() - 1] == y);
                } else {
                    assert(front.contains(y));
                    let k = choose|k: int| 0 <= k < front.len() && front[k] == y;
                    assert(s[k] == y);
                }
            }
            if s.contains(y) {
                let k = choose|k: int| 0 <= k < s.len() && s[k] == y;
                if k == s.len() - 1 {
                } else {
                    assert(front[k] == y);
                    assert(front.contains(y));
                }
            }
        }
    }
}

/// Two strictly ascending runs with the same contents are the same run.
pub proof fn lemma_sorted_unique_same_contents(a: Seq<Seq<char>>, b: Seq<Seq<char>>)
    requires
        sorted_unique(a),
        sorted_unique(b),
        forall|y: Seq<char>| #[trigger] a.contains(y) <==> b.contains(y),
    ensures
        a == b,
    decreases a.len(),
{
    if a.len() == 0 {
        if b.len() > 0 {
            assert(b.contains(b[0]));
            assert(a.contains(b[0]));
            assert(false);
        }
        assert(a =~= b);
    } else if b.len() == 0 {
        assert(a.contains(a[0]));
        assert(b.contains(a[0]));
        assert(false);
    } else {
        // each head is its run's strict minimum, and both runs hold
        // both heads, so the heads are equal
        assert(a.contains(a[0]) && b.contains(b[0]));
        assert(a.contains(b[0]) && b.contains(a[0]));
        let ia = choose|ia: int| 0 <= ia < a.len() && a[ia] == b[0];
        let ib = choose|ib: int| 0 <= ib < b.len() && b[ib] == a[0];
        assert(a[ia] == b[0] && b[ib] == a[0]);
        if ia > 0 {
            assert(lex_lt(a[0], a[ia]));
        }
        if ib > 0 {
            assert(lex_lt(b[0], b[ib]));
        }
        lemma_lex_lt_asym(a[0], b[0]);
        lemma_lex_lt_irrefl(a[0]);
        assert(a[0] == b[0]);
        let ta = a.drop_first();
        let tb = b.drop_first();
        assert(sorted_unique(ta) && sorted_unique(tb)) by {
            assert(forall|i: int, j: int|
                0 <= i < j < ta.len() ==> ta[i] == a[i + 1] && ta[j] == a[j + 1]);
            assert(forall|i: int, j: int|
                0 <= i < j < tb.len() ==> tb[i] == b[i + 1] && tb[j] == b[j + 1]);
        }
        assert forall|y: Seq<char>| #[trigger] ta.contains(y) <==> tb.contains(y) by {
            lemma_tail_contains(a, y);
            lemma_tail_contains(b, y);
        }
        lemma_sorted_unique_same_contents(ta, tb);
        assert(a =~= b) by {
            assert(forall|i: int| 1 <= i < a.len() ==> a[i] == ta[i - 1] && b[i] == tb[i - 1]);
        }
    }
}

/// In a strictly ascending run, the tail holds exactly the contents
/// other than the head.
proof fn lemma_tail_contains(a: Seq<Seq<char>>, y: Seq<char>)
    requires
        sorted_unique(a),
        a.len() > 0,
    ensures
        a.drop_first().contains(y) <==> (a.contains(y) && y != a[0]),
{
    let t = a.drop_first();
    if t.contains(y) {
        let k = choose|k: int| 0 <= k < t.len() && t[k] == y;
        assert(a[k + 1] == y);
        assert(lex_lt(a[0], a[k + 1]));
        lemma_lex_lt_irrefl(a[0]);
    }
    if a.contains(y) && y != a[0] {
        let k = choose|k: int| 0 <= k < a.len() && a[k] == y;
        assert(k > 0);
        assert(t[k - 1] == y);
    }
}

/// Law: the emitted import list depends only on which names were
/// collected, not on the order or multiplicity they were collected in.
pub proof fn lemma_sort_dedup_order_independent(s1: Seq<Seq<char>>, s2: Seq<Seq<char>>)
    requires
        forall|y: Seq<char>| #[trigger] s1.contains(y) <==> s2.contains(y),
    ensures
        sort_dedup(s1) == sort_dedup(s2),
{
    lemma_sort_dedup_props(s1);
    lemma_sort_dedup_props(s2);
    lemma_sorted_unique_same_contents(sort_dedup(s1), sort_dedup(s2));
}

/// Where the scan of a strictly ascending run stops, the recursive
/// insertion lands: at index `j`, or nowhere if the entry there already
/// is the inserted name.
pub proof fn lemma_sorted_insert_at(s: Seq<Seq<char>>, x: Seq<char>, j: int)
    requires
        0 <= j <= s.len(),
        forall|k: int| 0 <= k < j ==> lex_lt(#[trigger] s[k], x),
        j < s.len() ==> !lex_lt(s[j], x),
    ensures
        (j < s.len() && s[j] == x) ==> sorted_insert(s, x) == s,
        !(j < s.len() && s[j] == x) ==> sorted_insert(s, x) =~= s.subrange(0, j) + seq![x]
            + s.subrange(j, s.len() as int),
    decreases j,
{
    if j == 0 {
        if s.len() == 0 {
            assert(sorted_insert(s, x) =~= s.subrange(0, 0) + seq![x] + s.subrange(0, 0));
        } else if s[0] == x {
        } else {
            lemma_lex_lt_connected(x, s[0]);
            assert(lex_lt(x, s[0]));
            assert(seq![x] + s =~= s.subrange(0, 0) + seq![x] + s.subrange(0, s.len() as int));
        }
    } else {
        assert(lex_lt(s[0], x));
        lemma_lex_lt_irrefl(s[0]);
        assert(s[0] != x);
        lemma_lex_lt_asym(s[0], x);
        assert(!lex_lt(x, s[0]));
        let tail = s.drop_first();
        assert(forall|k: int| 0 <= k < j - 1 ==> lex_lt(#[trigger] tail[k], x)) by {
            assert(forall|k: int| 0 <= k < j - 1 ==> tail[k] == s[k + 1]);
        }
        lemma_sorted_insert_at(tail, x, j - 1);
        if j - 1 < tail.len() && tail[j - 1] == x {
            assert(s[j] == x);
            assert(seq![s[0]] + sorted_insert(tail, x) =~= s);
        } else {
            assert(sorted_insert(s, x) =~= s.subrange(0, j) + seq![x] + s.subrange(
                j,
                s.len() as int,
            )) by {
                assert(sorted_insert(tail, x) =~= tail.subrange(0, j - 1) + seq![x] + tail.subrange(
                    j - 1,
                    tail.len() as int,
                ));
                assert(forall|k: int| 0 <= k < tail.len() ==> tail[k] == s[k + 1]);
            }
        }
    }
}

/// Insert one name into an already strictly ascending vector, keeping
/// it strictly ascending and adding nothing when the name is present.
pub fn insert_sorted(v: &mut Vec<String>, x: String)
    ensures
        final(v).deep_view() == sorted_insert(old(v).deep_view(), x@),
{
    let ghost s = v.deep_view();
    let mut j: usize = 0;
    while j < v.len() && str_lt(v[j].as_str(), x.as_str())
        invariant
            j <= v@.len(),
            s == v.deep_view(),
            forall|k: int| 0 <= k < j ==> lex_lt(#[trigger] s[k], x@),
        decreases v@.len() - j,
    {
        j = j + 1;
    }
    proof {
        lemma_sorted_insert_at(s, x@, j as int);
    }
    if j < v.len() && str_eq(v[j].as_str(), x.as_str()) {
        // already present: the run keeps its contents
        proof {
            assert(s[j as int] == x@);
        }
    } else {
        v.insert(j, x);
        proof {
            assert(v.deep_view() =~= s.subrange(0, j as int) + seq![x@] + s.subrange(
                j as int,
                s.len() as int,
            )) by {
                assert(v@ == old(v)@.insert(j as int, x));
                assert(forall|k: int| 0 <= k < j ==> v@[k] == old(v)@[k]);
                assert(forall|k: int| j < k < v@.len() ==> v@[k] == old(v)@[k - 1]);
            }
        }
    }
}

} // verus!
