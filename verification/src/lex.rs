//! Lexicographic order on UTF-16 text, and sorted lists of texts searched by
//! bisection.
use vstd::prelude::*;

verus! {

/// `a` sorts before `b` once the first `i` code units have been passed over:
/// shorter-prefix-first lexicographic order, as std orders `[u16]`.
pub open spec fn lex_lt_at(a: Seq<u16>, b: Seq<u16>, i: int) -> bool
    recommends
        0 <= i,
    decreases a.len() - i,
{
    if i < 0 || i >= a.len() {
        0 <= i < b.len()
    } else if i >= b.len() {
        false
    } else if a[i] < b[i] {
        true
    } else if a[i] > b[i] {
        false
    } else {
        lex_lt_at(a, b, i + 1)
    }
}

/// Lexicographic "less than" on UTF-16 text.
pub open spec fn lex_lt(a: Seq<u16>, b: Seq<u16>) -> bool {
    lex_lt_at(a, b, 0)
}

/// Lexicographic "less than or equal" on UTF-16 text.
pub open spec fn lex_le(a: Seq<u16>, b: Seq<u16>) -> bool {
    lex_lt(a, b) || a == b
}

/// The views of a list of texts.
pub open spec fn texts_view(v: Seq<Vec<u16>>) -> Seq<Seq<u16>> {
    v.map_values(|t: Vec<u16>| t@)
}

/// A list of texts in non-decreasing lexicographic order.
pub open spec fn is_sorted(s: Seq<Seq<u16>>) -> bool {
    forall|i: int, j: int| 0 <= i < j < s.len() ==> lex_le(#[trigger] s[i], #[trigger] s[j])
}

proof fn lemma_lt_at_trans(a: Seq<u16>, b: Seq<u16>, c: Seq<u16>, i: int)
    requires
        0 <= i,
        lex_lt_at(a, b, i),
        lex_lt_at(b, c, i),
    ensures
        lex_lt_at(a, c, i),
    decreases a.len() - i,
{
    if i < a.len() && i < b.len() && i < c.len() && a[i] == b[i] && b[i] == c[i] {
        lemma_lt_at_trans(a, b, c, i + 1);
    }
}

proof fn lemma_lt_at_asym(a: Seq<u16>, b: Seq<u16>, i: int)
    requires
        0 <= i,
        lex_lt_at(a, b, i),
    ensures
        !lex_lt_at(b, a, i),
    decreases a.len() - i,
{
    if i < a.len() && i < b.len() && a[i] == b[i] {
        lemma_lt_at_asym(a, b, i + 1);
    }
}

proof fn lemma_lt_at_total(a: Seq<u16>, b: Seq<u16>, i: int)
    requires
        0 <= i <= a.len(),
        i <= b.len(),
        forall|k: int| 0 <= k < i ==> a[k] == b[k],
        !lex_lt_at(a, b, i),
        !lex_lt_at(b, a, i),
    ensures
        a == b,
    decreases a.len() - i,
{
    if i < a.len() && i < b.len() {
        lemma_lt_at_total(a, b, i + 1);
    } else {
        assert(a =~= b);
    }
}

/// Lexicographic order is transitive.
pub proof fn lemma_lex_lt_trans(a: Seq<u16>, b: Seq<u16>, c: Seq<u16>)
    requires
        lex_lt(a, b),
        lex_lt(b, c),
    ensures
        lex_lt(a, c),
{
    lemma_lt_at_trans(a, b, c, 0);
}

/// Lexicographic order is asymmetric (and so irreflexive).
pub proof fn lemma_lex_lt_asym(a: Seq<u16>, b: Seq<u16>)
    requires
        lex_lt(a, b),
    ensures
        !lex_lt(b, a),
        a != b,
{
    lemma_lt_at_asym(a, b, 0);
}

/// Lexicographic order is total.
pub proof fn lemma_lex_lt_total(a: Seq<u16>, b: Seq<u16>)
    ensures
        lex_lt(a, b) || lex_lt(b, a) || a == b,
{
    if !lex_lt(a, b) && !lex_lt(b, a) {
        lemma_lt_at_total(a, b, 0);
    }
}

/// Compares two texts lexicographically: `-1` if `a` sorts first, `1` if `b`
/// does, `0` if they are equal.
pub fn compare_text(a: &[u16], b: &[u16]) -> (r: i8)
    ensures
        r == -1 <==> lex_lt(a@, b@),
        r == 1 <==> lex_lt(b@, a@),
        r == 0 <==> a@ == b@,
        r == -1 || r == 0 || r == 1,
{
    let n: usize = a.len();
    let m: usize = b.len();
    let mut i: usize = 0;
    proof {
        lemma_lex_lt_total(a@, b@);
        if lex_lt(a@, b@) {
            lemma_lex_lt_asym(a@, b@);
        }
        if lex_lt(b@, a@) {
            lemma_lex_lt_asym(b@, a@);
        }
    }
    while i < n && i < m
        invariant
            n == a@.len(),
            m == b@.len(),
            i <= n,
            i <= m,
            forall|k: int| 0 <= k < i ==> a@[k] == b@[k],
            lex_lt(a@, b@) == lex_lt_at(a@, b@, i as int),
            lex_lt(b@, a@) == lex_lt_at(b@, a@, i as int),
            lex_lt(a@, b@) || lex_lt(b@, a@) || a@ == b@,
            !(lex_lt(a@, b@) && lex_lt(b@, a@)),
            lex_lt(a@, b@) ==> a@ != b@,
            lex_lt(b@, a@) ==> a@ != b@,
        decreases n - i,
    {
        if a[i] < b[i] {
            return -1;
        } else if a[i] > b[i] {
            return 1;
        }
        i = i + 1;
    }
    if i == n && i == m {
        assert(a@ =~= b@);
        0
    } else if i == n {
        -1
    } else {
        1
    }
}

/// The number of leading entries of a sorted list that sort before `t`: the
/// position at which `t` belongs.
pub fn lower_bound(sorted: &Vec<Vec<u16>>, t: &[u16]) -> (pos: usize)
    requires
        is_sorted(texts_view(sorted@)),
    ensures
        pos <= sorted@.len(),
        forall|k: int| 0 <= k < pos ==> lex_lt(#[trigger] sorted@[k]@, t@),
        forall|k: int| pos <= k < sorted@.len() ==> !lex_lt(#[trigger] sorted@[k]@, t@),
{
    let ghost s = texts_view(sorted@);
    let mut lo: usize = 0;
    let mut hi: usize = sorted.len();
    while lo < hi
        invariant
            lo <= hi <= sorted@.len(),
            s == texts_view(sorted@),
            is_sorted(s),
            forall|k: int| 0 <= k < lo ==> lex_lt(#[trigger] sorted@[k]@, t@),
            forall|k: int| hi <= k < sorted@.len() ==> !lex_lt(#[trigger] sorted@[k]@, t@),
        decreases hi - lo,
    {
        let mid: usize = lo + (hi - lo) / 2;
        let c = compare_text(sorted[mid].as_slice(), t);
        if c == -1 {
            proof {
                assert forall|k: int| 0 <= k <= mid implies lex_lt(#[trigger] sorted@[k]@, t@) by {
                    if k < mid {
                        assert(s[k] == sorted@[k]@ && s[mid as int] == sorted@[mid as int]@);
                        assert(lex_le(s[k], s[mid as int]));
                        if lex_lt(s[k], s[mid as int]) {
                            lemma_lex_lt_trans(s[k], s[mid as int], t@);
                        }
                    }
                }
            }
            lo = mid + 1;
        } else {
            proof {
                assert forall|k: int| mid <= k < sorted@.len() implies !lex_lt(
                    #[trigger] sorted@[k]@,
                    t@,
                ) by {
                    if k > mid {
                        assert(s[k] == sorted@[k]@ && s[mid as int] == sorted@[mid as int]@);
                        assert(lex_le(s[mid as int], s[k]));
                        lemma_lex_lt_total(sorted@[mid as int]@, t@);
                        if lex_lt(sorted@[k]@, t@) {
                            if lex_lt(s[mid as int], s[k]) {
                                lemma_lex_lt_trans(s[mid as int], s[k], t@);
                            }
                            if lex_lt(t@, sorted@[mid as int]@) {
                                lemma_lex_lt_asym(sorted@[k]@, t@);
                                if lex_lt(s[mid as int], s[k]) {
                                    lemma_lex_lt_trans(t@, s[mid as int], s[k]);
                                }
                            }
                        }
                    }
                }
            }
            hi = mid;
        }
    }
    lo
}

/// Whether a sorted list holds the text `t`.
pub fn sorted_contains(sorted: &Vec<Vec<u16>>, t: &[u16]) -> (r: bool)
    requires
        is_sorted(texts_view(sorted@)),
    ensures
        r == texts_view(sorted@).contains(t@),
{
    let ghost s = texts_view(sorted@);
    let pos = lower_bound(sorted, t);
    let found = pos < sorted.len() && compare_text(sorted[pos].as_slice(), t) == 0;
    proof {
        if s.contains(t@) {
            let k = choose|k: int| 0 <= k < s.len() && s[k] == t@;
            assert(sorted@[k]@ == t@);
            if k < pos {
                lemma_lex_lt_asym(sorted@[k]@, t@);
            } else {
                assert(!lex_lt(sorted@[pos as int]@, t@));
                if k > pos {
                    assert(lex_le(s[pos as int], s[k]));
                    lemma_lex_lt_total(sorted@[pos as int]@, t@);
                    if lex_lt(t@, sorted@[pos as int]@) {
                        lemma_lex_lt_asym(t@, sorted@[pos as int]@);
                        if lex_lt(s[pos as int], s[k]) {
                            lemma_lex_lt_trans(t@, s[pos as int], s[k]);
                            lemma_lex_lt_asym(t@, t@);
                        }
                    }
                }
                assert(s[pos as int] == t@);
            }
        }
        if found {
            assert(s[pos as int] == t@);
        }
    }
    found
}

/// Sorts a list of texts lexicographically, keeping every entry.
pub fn sort_texts(v: Vec<Vec<u16>>) -> (r: Vec<Vec<u16>>)
    ensures
        is_sorted(texts_view(r@)),
        texts_view(r@).to_multiset() == texts_view(v@).to_multiset(),
{
    broadcast use vstd::seq_lib::group_to_multiset_ensures;

    let ghost all = texts_view(v@);
    let mut rest = v;
    let mut out: Vec<Vec<u16>> = Vec::new();
    assert(texts_view(out@) =~= Seq::<Seq<u16>>::empty());
    while rest.len() > 0
        invariant
            is_sorted(texts_view(out@)),
            texts_view(out@).to_multiset().add(texts_view(rest@).to_multiset())
                == all.to_multiset(),
        decreases rest@.len(),
    {
        let ghost before_rest = texts_view(rest@);
        let ghost before_out = texts_view(out@);
        let x = rest.pop().unwrap();
        assert(before_rest =~= texts_view(rest@).push(x@));
        let pos = lower_bound(&out, x.as_slice());
        let ghost xv = x@;
        out.insert(pos, x);
        assert(texts_view(out@) =~= before_out.insert(pos as int, xv));
        proof {
            let s = texts_view(out@);
            assert forall|i: int, j: int| 0 <= i < j < s.len() implies lex_le(
                #[trigger] s[i],
                #[trigger] s[j],
            ) by {
                if i < pos && j == pos {
                    assert(lex_lt(before_out[i], xv));
                } else if i == pos && j > pos {
                    assert(!lex_lt(before_out[j - 1], xv));
                    lemma_lex_lt_total(before_out[j - 1], xv);
                } else if i < pos && j > pos {
                    assert(before_out[i] == s[i] && before_out[j - 1] == s[j]);
                } else if j < pos {
                    assert(before_out[i] == s[i] && before_out[j] == s[j]);
                } else {
                    assert(before_out[i - 1] == s[i] && before_out[j - 1] == s[j]);
                }
            }
            vstd::seq_lib::to_multiset_insert(before_out, pos as int, xv);
            vstd::seq_lib::to_multiset_build(texts_view(rest@), xv);
            broadcast use vstd::multiset::group_multiset_axioms;
            assert(texts_view(out@).to_multiset().add(texts_view(rest@).to_multiset())
                =~= before_out.to_multiset().add(before_rest.to_multiset()));
        }
    }
    assert(texts_view(rest@) =~= Seq::<Seq<u16>>::empty());
    out
}

} // verus!
