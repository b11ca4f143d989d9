//! Stable sorting of roster entries by ascending email. The specification
//! `sort_by_email` pins the sort down as a function: entries are taken in
//! roster order and each is placed after every entry already sorted whose
//! email is at or before its own, so entries with equal emails keep their
//! relative order. The laws proved here state that the result is a
//! permutation, that it is in ascending email order, and that the sort is
//! stable.

use vstd::prelude::*;
use vstd::seq_lib::lemma_multiset_commutative;

use crate::model::Friend;
use crate::order::{lemma_lex_le_refl, lemma_lex_le_total, lemma_lex_le_trans, lex_le, str_le};

verus! {

/// The entries stand in ascending email order.
pub open spec fn sorted_by_email(s: Seq<Friend>) -> bool {
    forall|i: int, j: int| 0 <= i < j < s.len() ==> lex_le(s[i].email@, s[j].email@)
}

/// The predicate selecting entries whose email reads `e`.
pub open spec fn has_email(e: Seq<char>) -> spec_fn(Friend) -> bool {
    |g: Friend| g.email@ == e
}

/// `f` placed after every entry of `s` whose email is at or before its
/// own: the insertion step of a stable insertion sort.
pub open spec fn sorted_insert(s: Seq<Friend>, f: Friend) -> Seq<Friend>
    decreases s.len(),
{
    if s.len() == 0 {
        seq![f]
    } else if lex_le(s[0].email@, f.email@) {
        seq![s[0]] + sorted_insert(s.skip(1), f)
    } else {
        seq![f] + s
    }
}

/// The entries of `s` stably sorted by ascending email.
pub open spec fn sort_by_email(s: Seq<Friend>) -> Seq<Friend>
    decreases s.len(),
{
    if s.len() == 0 {
        Seq::empty()
    } else {
        sorted_insert(sort_by_email(s.drop_last()), s.last())
    }
}

proof fn lemma_sorted_skip(s: Seq<Friend>)
    requires
        sorted_by_email(s),
        s.len() > 0,
    ensures
        sorted_by_email(s.skip(1)),
{
    assert forall|i: int, j: int| 0 <= i < j < s.skip(1).len() implies lex_le(
        s.skip(1)[i].email@,
        s.skip(1)[j].email@,
    ) by {
        assert(s.skip(1)[i] == s[i + 1]);
        assert(s.skip(1)[j] == s[j + 1]);
    }
}

/// Insertion adds one entry and invents none: every entry of the result is
/// the inserted one or one of `s`.
proof fn lemma_sorted_insert_membership(s: Seq<Friend>, f: Friend)
    ensures
        sorted_insert(s, f).len() == s.len() + 1,
        forall|k: int|
            0 <= k < sorted_insert(s, f).len() ==> #[trigger] sorted_insert(s, f)[k] == f
                || s.contains(sorted_insert(s, f)[k]),
    decreases s.len(),
{
    if s.len() == 0 {
    } else if lex_le(s[0].email@, f.email@) {
        lemma_sorted_insert_membership(s.skip(1), f);
        let r = sorted_insert(s, f);
        let rest = sorted_insert(s.skip(1), f);
        assert forall|k: int| 0 <= k < r.len() implies #[trigger] r[k] == f || s.contains(r[k]) by {
            if k == 0 {
                assert(r[0] == s[0]);
                assert(s.contains(s[0]));
            } else {
                assert(r[k] == rest[k - 1]);
                if rest[k - 1] == f {
                } else {
                    let m = choose|m: int| 0 <= m < s.skip(1).len() && s.skip(1)[m] == rest[k - 1];
                    assert(s[m + 1] == rest[k - 1]);
                    assert(s.contains(s[m + 1]));
                }
            }
        }
    } else {
        let r = sorted_insert(s, f);
        assert forall|k: int| 0 <= k < r.len() implies #[trigger] r[k] == f || s.contains(r[k]) by {
            if k > 0 {
                assert(r[k] == s[k - 1]);
                assert(s.contains(s[k - 1]));
            }
        }
    }
}

/// Inserting into a sorted sequence keeps it sorted.
proof fn lemma_sorted_insert_sorted(s: Seq<Friend>, f: Friend)
    requires
        sorted_by_email(s),
    ensures
        sorted_by_email(sorted_insert(s, f)),
    decreases s.len(),
{
    if s.len() == 0 {
    } else if lex_le(s[0].email@, f.email@) {
        lemma_sorted_skip(s);
        lemma_sorted_insert_sorted(s.skip(1), f);
        lemma_sorted_insert_membership(s.skip(1), f);
        let r = sorted_insert(s, f);
        let rest = sorted_insert(s.skip(1), f);
        assert forall|i: int, j: int| 0 <= i < j < r.len() implies lex_le(
            r[i].email@,
            r[j].email@,
        ) by {
            if i == 0 {
                assert(r[0] == s[0]);
                assert(r[j] == rest[j - 1]);
                if rest[j - 1] == f {
                } else {
                    assert(s.skip(1).contains(rest[j - 1]));
                    let m = choose|m: int|
                        0 <= m < s.skip(1).len() && s.skip(1)[m] == rest[j - 1];
                    assert(s.skip(1)[m] == s[m + 1]);
                    assert(lex_le(s[0].email@, s[m + 1].email@));
                }
            } else {
                assert(r[i] == rest[i - 1]);
                assert(r[j] == rest[j - 1]);
            }
        }
    } else {
        lemma_lex_le_total(s[0].email@, f.email@);
        let r = sorted_insert(s, f);
        assert forall|i: int, j: int| 0 <= i < j < r.len() implies lex_le(
            r[i].email@,
            r[j].email@,
        ) by {
            if i == 0 {
                assert(r[0] == f);
                assert(r[j] == s[j - 1]);
                if j - 1 > 0 {
                    assert(lex_le(s[0].email@, s[j - 1].email@));
                    lemma_lex_le_trans(f.email@, s[0].email@, s[j - 1].email@);
                }
            } else {
                assert(r[i] == s[i - 1]);
                assert(r[j] == s[j - 1]);
            }
        }
    }
}

/// Insertion adds exactly the inserted entry to the multiset of entries.
proof fn lemma_sorted_insert_multiset(s: Seq<Friend>, f: Friend)
    ensures
        sorted_insert(s, f).to_multiset() =~= s.to_multiset().insert(f),
    decreases s.len(),
{
    broadcast use vstd::seq_lib::group_to_multiset_ensures;
    broadcast use vstd::multiset::group_multiset_axioms;

    if s.len() == 0 {
        assert(seq![f] =~= Seq::<Friend>::empty().push(f));
    } else if lex_le(s[0].email@, f.email@) {
        lemma_sorted_insert_multiset(s.skip(1), f);
        lemma_multiset_commutative(seq![s[0]], sorted_insert(s.skip(1), f));
        assert(s =~= seq![s[0]] + s.skip(1));
        lemma_multiset_commutative(seq![s[0]], s.skip(1));
    } else {
        lemma_multiset_commutative(seq![f], s);
        assert(seq![f] =~= Seq::<Friend>::empty().push(f));
    }
}

/// A filter keeping nothing gives the empty sequence.
proof fn lemma_filter_no_match(s: Seq<Friend>, pred: spec_fn(Friend) -> bool)
    requires
        forall|j: int| 0 <= j < s.len() ==> !pred(#[trigger] s[j]),
    ensures
        s.filter(pred) == Seq::<Friend>::empty(),
    decreases s.len(),
{
    reveal(Seq::filter);
    if s.len() > 0 {
        lemma_filter_no_match(s.drop_last(), pred);
    } else {
        assert(s =~= Seq::<Friend>::empty());
    }
}

/// Filtering looks only at the last entry when one is appended.
pub proof fn lemma_filter_push(s: Seq<Friend>, x: Friend, pred: spec_fn(Friend) -> bool)
    ensures
        s.push(x).filter(pred) == (if pred(x) {
            s.filter(pred).push(x)
        } else {
            s.filter(pred)
        }),
{
    reveal(Seq::filter);
    assert(s.push(x).drop_last() =~= s);
    assert(s.push(x).last() == x);
}

/// Inserting into a sorted sequence appends to the entries of any one
/// email: among equals, the inserted entry comes last.
proof fn lemma_sorted_insert_filter(s: Seq<Friend>, f: Friend, e: Seq<char>)
    requires
        sorted_by_email(s),
    ensures
        sorted_insert(s, f).filter(has_email(e)) == (if f.email@ == e {
            s.filter(has_email(e)).push(f)
        } else {
            s.filter(has_email(e))
        }),
    decreases s.len(),
{
    reveal_with_fuel(Seq::<Friend>::filter, 3);
    let pred = has_email(e);
    if s.len() == 0 {
        assert(s =~= Seq::<Friend>::empty());
        assert(seq![f].drop_last() =~= Seq::<Friend>::empty());
        assert(seq![f].last() == f);
        if f.email@ == e {
            assert(seq![f].filter(pred) =~= Seq::<Friend>::empty().push(f));
        }
    } else if lex_le(s[0].email@, f.email@) {
        lemma_sorted_skip(s);
        lemma_sorted_insert_filter(s.skip(1), f, e);
        let rest = sorted_insert(s.skip(1), f);
        Seq::<Friend>::filter_distributes_over_add(seq![s[0]], rest, pred);
        Seq::<Friend>::filter_distributes_over_add(seq![s[0]], s.skip(1), pred);
        assert(s =~= seq![s[0]] + s.skip(1));
        assert(seq![s[0]].drop_last() =~= Seq::<Friend>::empty());
        assert(seq![s[0]].last() == s[0]);
        if f.email@ == e {
            assert(seq![s[0]].filter(pred) + s.skip(1).filter(pred).push(f) =~= (seq![
                s[0],
            ].filter(pred) + s.skip(1).filter(pred)).push(f));
        }
    } else {
        Seq::<Friend>::filter_distributes_over_add(seq![f], s, pred);
        assert(seq![f].drop_last() =~= Seq::<Friend>::empty());
        assert(seq![f].last() == f);
        if f.email@ == e {
            assert forall|j: int| 0 <= j < s.len() implies !pred(#[trigger] s[j]) by {
                if s[j].email@ == e {
                    if j == 0 {
                        lemma_lex_le_refl(s[0].email@);
                    } else {
                        assert(lex_le(s[0].email@, s[j].email@));
                    }
                    assert(lex_le(s[0].email@, f.email@));
                }
            }
            lemma_filter_no_match(s, pred);
            assert(seq![f].filter(pred) =~= Seq::<Friend>::empty().push(f));
            assert(seq![f].filter(pred) + s.filter(pred) =~= s.filter(pred).push(f));
        } else {
            assert(seq![f].filter(pred) =~= Seq::<Friend>::empty());
            assert(seq![f].filter(pred) + s.filter(pred) =~= s.filter(pred));
        }
    }
}

/// Where the exec sort places an entry is where `sorted_insert` says: at
/// the first position whose entry's email is not at or before the new one.
proof fn lemma_sorted_insert_at(s: Seq<Friend>, f: Friend, p: int)
    requires
        sorted_by_email(s),
        0 <= p <= s.len(),
        forall|j: int| 0 <= j < p ==> lex_le(#[trigger] s[j].email@, f.email@),
        p < s.len() ==> !lex_le(s[p].email@, f.email@),
    ensures
        sorted_insert(s, f) == s.insert(p, f),
    decreases s.len(),
{
    if s.len() == 0 {
        assert(sorted_insert(s, f) =~= s.insert(0, f));
    } else if p == 0 {
        assert(!lex_le(s[0].email@, f.email@));
        assert(seq![f] + s =~= s.insert(0, f));
    } else {
        assert(lex_le(s[0].email@, f.email@));
        lemma_sorted_skip(s);
        assert(forall|j: int| 0 <= j < p - 1 ==> #[trigger] s.skip(1)[j] == s[j + 1]);
        lemma_sorted_insert_at(s.skip(1), f, p - 1);
        assert(seq![s[0]] + s.skip(1).insert(p - 1, f) =~= s.insert(p, f));
    }
}

/// Law: sorting keeps the entries in ascending email order.
pub proof fn lemma_sort_by_email_sorted(s: Seq<Friend>)
    ensures
        sorted_by_email(sort_by_email(s)),
    decreases s.len(),
{
    if s.len() > 0 {
        lemma_sort_by_email_sorted(s.drop_last());
        lemma_sorted_insert_sorted(sort_by_email(s.drop_last()), s.last());
    }
}

/// Law: sorting permutes the entries; nothing is lost, invented or
/// duplicated.
pub proof fn lemma_sort_by_email_multiset(s: Seq<Friend>)
    ensures
        sort_by_email(s).to_multiset() =~= s.to_multiset(),
        sort_by_email(s).len() == s.len(),
    decreases s.len(),
{
    broadcast use vstd::seq_lib::group_to_multiset_ensures;
    broadcast use vstd::multiset::group_multiset_axioms;

    if s.len() > 0 {
        lemma_sort_by_email_multiset(s.drop_last());
        lemma_sorted_insert_multiset(sort_by_email(s.drop_last()), s.last());
        lemma_sorted_insert_membership(sort_by_email(s.drop_last()), s.last());
        assert(s =~= s.drop_last().push(s.last()));
    }
}

/// Law: the sort is stable. For any email, the entries carrying it come
/// out exactly as they went in, in the same order.
pub proof fn lemma_sort_by_email_stable(s: Seq<Friend>, e: Seq<char>)
    ensures
        sort_by_email(s).filter(has_email(e)) == s.filter(has_email(e)),
    decreases s.len(),
{
    if s.len() > 0 {
        lemma_sort_by_email_stable(s.drop_last(), e);
        lemma_sort_by_email_sorted(s.drop_last());
        lemma_sorted_insert_filter(sort_by_email(s.drop_last()), s.last(), e);
        lemma_filter_push(s.drop_last(), s.last(), has_email(e));
        assert(s.drop_last().push(s.last()) =~= s);
    }
}

/// Sorts the entries in place by ascending email, stably: the insertion
/// sort whose result `sort_by_email` states.
pub fn sort_friends_by_email(v: &mut Vec<Friend>)
    ensures
        final(v)@ == sort_by_email(old(v)@),
{
    let mut out: Vec<Friend> = Vec::new();
    let mut k: usize = 0;
    while k < v.len()
        invariant
            k <= v.len(),
            v@ == old(v)@,
            sorted_by_email(out@),
            out@ == sort_by_email(v@.subrange(0, k as int)),
        decreases v.len() - k,
    {
        let f = v[k].duplicate();
        let mut p: usize = 0;
        while p < out.len() && str_le(out[p].email.as_str(), f.email.as_str())
            invariant
                p <= out.len(),
                forall|j: int| 0 <= j < p ==> lex_le(#[trigger] out@[j].email@, f.email@),
            decreases out.len() - p,
        {
            p = p + 1;
        }
        proof {
            lemma_sorted_insert_at(out@, f, p as int);
            lemma_sorted_insert_sorted(out@, f);
            assert(v@.subrange(0, (k + 1) as int).drop_last() =~= v@.subrange(0, k as int));
            assert(v@.subrange(0, (k + 1) as int).last() == v@[k as int]);
        }
        out.insert(p, f);
        k = k + 1;
    }
    proof {
        assert(v@.subrange(0, v@.len() as int) =~= v@);
    }
    *v = out;
}

} // verus!
