use vstd::prelude::*;

use crate::aggregate::entry_frac;
use crate::aggregate::entry_int;
use crate::aggregate::sum_frac;
use crate::aggregate::sum_int;
use crate::state::with_datasource;
use crate::state::with_testcase;
use crate::state::StateV;

verus! {

/// The owner bound at initialization stays: neither update touches it, so
/// it is invariant across any sequence of later updates.
pub proof fn lemma_owner_invariant(st: StateV, name: Seq<char>)
    ensures
        with_datasource(st, name).owner == st.owner,
        with_testcase(st, name).owner == st.owner,
{
}

/// An authorized update changes exactly the field it targets: the new
/// record carries the given name there and every other field, the owner
/// included, unchanged.
pub proof fn lemma_update_targets_one_field(st: StateV, name: Seq<char>)
    ensures
        with_datasource(st, name).ai_data_source == name,
        with_datasource(st, name).testcase == st.testcase,
        with_datasource(st, name).owner == st.owner,
        with_testcase(st, name).testcase == name,
        with_testcase(st, name).ai_data_source == st.ai_data_source,
        with_testcase(st, name).owner == st.owner,
{
}

/// Joining two batches contributes each batch's sums, whichever side
/// either stands on.
proof fn lemma_sum_concat(a: Seq<Seq<char>>, b: Seq<Seq<char>>)
    ensures
        sum_int(a + b) == sum_int(a) + sum_int(b),
        sum_frac(a + b) == sum_frac(a) + sum_frac(b),
    decreases b.len(),
{
    if b.len() == 0 {
        assert(a + b =~= a);
    } else {
        lemma_sum_concat(a, b.drop_last());
        assert((a + b).drop_last() =~= a + b.drop_last());
        assert((a + b).last() == b.last());
    }
}

/// Removing one entry takes exactly its contribution out of the sums.
proof fn lemma_sum_remove(s: Seq<Seq<char>>, i: int)
    requires
        0 <= i < s.len(),
    ensures
        sum_int(s) == sum_int(s.remove(i)) + entry_int(s[i]),
        sum_frac(s) == sum_frac(s.remove(i)) + entry_frac(s[i]),
{
    let l = s.take(i);
    let m = seq![s[i]];
    let r = s.skip(i + 1);
    assert(m.drop_last() =~= Seq::<Seq<char>>::empty());
    assert(m.last() == s[i]);
    assert(sum_int(Seq::<Seq<char>>::empty()) == 0);
    assert(sum_frac(Seq::<Seq<char>>::empty()) == 0);
    assert(sum_int(m) == entry_int(s[i]));
    assert(sum_frac(m) == entry_frac(s[i]));
    lemma_sum_concat(l, m);
    lemma_sum_concat(l + m, r);
    lemma_sum_concat(l, r);
    assert(s =~= (l + m) + r);
    assert(s.remove(i) =~= l + r);
}

/// Aggregation's accumulation is order-independent: two batches holding
/// the same entries, however ordered, have the same integer sum and the
/// same fractional sum, hence the same averaged result.
pub proof fn lemma_sums_order_independent(a: Seq<Seq<char>>, b: Seq<Seq<char>>)
    requires
        a.to_multiset() == b.to_multiset(),
    ensures
        sum_int(a) == sum_int(b),
        sum_frac(a) == sum_frac(b),
    decreases a.len(),
{
    broadcast use vstd::seq_lib::group_to_multiset_ensures;

    if a.len() == 0 {
        assert(a.to_multiset().len() == a.len());
        assert(b.to_multiset().len() == b.len());
        assert(b.len() == 0);
    } else {
        let x = a.last();
        let n = a.len() - 1;
        assert(a.contains(x));
        assert(a.to_multiset().count(x) > 0);
        assert(b.to_multiset().count(x) > 0);
        assert(b.contains(x));
        let i = choose|i: int| 0 <= i < b.len() && b[i] == x;
        assert(a.remove(n).to_multiset() =~= a.to_multiset().remove(x));
        assert(b.remove(i).to_multiset() =~= b.to_multiset().remove(b[i]));
        lemma_sums_order_independent(a.remove(n), b.remove(i));
        lemma_sum_remove(a, n);
        lemma_sum_remove(b, i);
        assert(a.remove(n) =~= a.drop_last());
    }
}

} // verus!
