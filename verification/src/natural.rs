//! Natural (digit-run aware) filename ordering, and a sort by it.
//!
//! The comparison itself comes from the `natord` crate; its result is named
//! by the uninterpreted `nat_order`.  The sort is verified to return a
//! permutation whose adjacent elements are ordered by that comparison.

use vstd::prelude::*;

use std::cmp::Ordering;

verus! {

/// What `natord::compare_ignore_case` returns for two strings, as a sign:
/// negative for before, zero for equal, positive for after.
pub uninterp spec fn nat_order(a: Seq<char>, b: Seq<char>) -> int;

/// Relies on `natord::compare_ignore_case`: a deterministic, case-insensitive
/// natural-order comparison (Unicode whitespace skipped, decimal digit runs
/// compared numerically), a pure function of the two strings.
#[verifier::external_body]
fn natural_cmp(a: &str, b: &str) -> (r: i8)
    ensures
        r as int == nat_order(a@, b@),
        -1 <= r as int <= 1,
{
    match natord::compare_ignore_case(a, b) {
        Ordering::Less => -1,
        Ordering::Equal => 0,
        Ordering::Greater => 1,
    }
}

/// `a` may stand before `b`: the comparison, asked from either side, does not
/// place `b` strictly first.  For a comparison that is a total order (as
/// natural ordering is) this is exactly "`a` compares less than or equal".
pub open spec fn nat_precedes(a: Seq<char>, b: Seq<char>) -> bool {
    nat_order(a, b) <= 0 || nat_order(b, a) > 0
}

/// Every adjacent pair is naturally ordered.
pub open spec fn nat_sorted(s: Seq<String>) -> bool {
    forall|k: int| #![trigger s[k]] 0 <= k < s.len() - 1 ==> nat_precedes(s[k]@, s[k + 1]@)
}

/// The views of a sequence of strings.
pub open spec fn seq_views(s: Seq<String>) -> Seq<Seq<char>> {
    s.map_values(|x: String| x@)
}

/// Inserting anywhere adds one element to the multiset of a sequence.
proof fn lemma_insert_to_multiset<A>(s: Seq<A>, p: int, x: A)
    requires
        0 <= p <= s.len(),
    ensures
        s.insert(p, x).to_multiset() =~= s.to_multiset().insert(x),
    decreases s.len(),
{
    broadcast use vstd::seq_lib::group_to_multiset_ensures;

    if p == s.len() {
        assert(s.insert(p, x) =~= s.push(x));
    } else {
        let dl = s.drop_last();
        assert(s.insert(p, x).drop_last() =~= dl.insert(p, x));
        assert(s.insert(p, x).last() == s.last());
        assert(s.insert(p, x) =~= dl.insert(p, x).push(s.last()));
        lemma_insert_to_multiset(dl, p, x);
        assert(s =~= dl.push(s.last()));
        assert(dl.insert(p, x).push(s.last()).to_multiset() =~= dl.insert(p, x).to_multiset()
            .insert(s.last()));
        assert(dl.to_multiset().insert(x).insert(s.last()) =~= dl.to_multiset().insert(
            s.last(),
        ).insert(x));
    }
}

/// Position at which `x` belongs in the sorted prefix `out`.
fn insert_pos(out: &Vec<String>, x: &String) -> (p: usize)
    ensures
        p <= out@.len(),
        forall|k: int| 0 <= k < p ==> nat_order(out@[k]@, x@) <= 0,
        p < out@.len() ==> nat_order(out@[p as int]@, x@) > 0,
{
    let mut p: usize = 0;
    loop
        invariant_except_break
            p <= out@.len(),
            forall|k: int| 0 <= k < p ==> nat_order(out@[k]@, x@) <= 0,
        ensures
            p <= out@.len(),
            forall|k: int| 0 <= k < p ==> nat_order(out@[k]@, x@) <= 0,
            p < out@.len() ==> nat_order(out@[p as int]@, x@) > 0,
        decreases out@.len() - p,
    {
        if p >= out.len() {
            break ;
        }
        if natural_cmp(out[p].as_str(), x.as_str()) > 0 {
            break ;
        }
        p = p + 1;
    }
    p
}

/// Sorts strings in natural order (stable insertion): the result is a
/// permutation of the input whose adjacent elements are ordered by
/// `nat_order`.
pub fn natural_sort_strings(values: &mut Vec<String>)
    ensures
        nat_sorted(final(values)@),
        final(values)@.len() == old(values)@.len(),
        seq_views(final(values)@).to_multiset() == seq_views(old(values)@).to_multiset(),
{
    let ghost input = values@;
    let mut out: Vec<String> = Vec::new();
    let mut idx: usize = 0;
    proof {
        assert(seq_views(input.take(0)) =~= Seq::<Seq<char>>::empty());
        assert(seq_views(out@) =~= Seq::<Seq<char>>::empty());
    }
    while idx < values.len()
        invariant
            idx <= values@.len(),
            values@ == input,
            nat_sorted(out@),
            out@.len() == idx,
            seq_views(out@).to_multiset() == seq_views(input.take(idx as int)).to_multiset(),
        decreases values@.len() - idx,
    {
        let x = values[idx].clone();
        let p = insert_pos(&out, &x);
        let ghost pre = out@;
        out.insert(p, x);
        proof {
            broadcast use vstd::seq_lib::group_to_multiset_ensures;

            let o = out@;
            assert forall|k: int| #![trigger o[k]] 0 <= k < o.len() - 1 implies nat_precedes(
                o[k]@,
                o[k + 1]@,
            ) by {
                if k + 1 < p {
                    assert(o[k] == pre[k] && o[k + 1] == pre[k + 1]);
                } else if k + 1 == p {
                    assert(o[k] == pre[k]);
                    assert(nat_order(pre[k]@, o[p as int]@) <= 0);
                } else if k == p {
                    assert(o[k + 1] == pre[k]);
                    assert(nat_order(pre[k]@, o[p as int]@) > 0);
                } else {
                    assert(o[k] == pre[k - 1] && o[k + 1] == pre[k]);
                }
            }
            assert(seq_views(o) =~= seq_views(pre).insert(p as int, input[idx as int]@));
            lemma_insert_to_multiset(seq_views(pre), p as int, input[idx as int]@);
            assert(seq_views(input.take(idx + 1)) =~= seq_views(input.take(idx as int)).push(
                input[idx as int]@));
            assert(seq_views(input.take(idx as int)).push(input[idx as int]@).to_multiset()
                =~= seq_views(input.take(idx as int)).to_multiset().insert(input[idx as int]@));
        }
        idx = idx + 1;
    }
    proof {
        assert(input.take(input.len() as int) =~= input);
    }
    *values = out;
}

} // verus!
