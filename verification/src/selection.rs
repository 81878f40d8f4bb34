//! Coin selection: strategies, candidate ordering, and the accumulation scan
//! that decides which spendable outputs fund a transaction.

use vstd::prelude::*;
use crate::fee::Fee;
use crate::fee::spec_fee;
use crate::output::DbOutputV;
use crate::output::DbUnblindedOutput;
use crate::storage::sum_outputs;
use crate::storage::views_of_outputs;
use crate::storage::sorted_by_value;

verus! {

/// How spendable outputs are ordered when funding a transaction.
#[derive(Clone, Copy, Debug, PartialEq, Eq, Structural)]
pub enum UTXOSelectionStrategy {
    /// Smallest values first: trims the output set at the cost of more fees.
    Smallest,
    /// Oldest maturity first, then smallest value: avoids locked outputs.
    MaturityThenSmallest,
    /// Largest values first: preferred when the amount exceeds every single
    /// output.
    Largest,
}

impl UTXOSelectionStrategy {
    /// The strategy's name.
    pub fn as_str(&self) -> (r: &'static str)
        ensures
            *self == UTXOSelectionStrategy::Smallest ==> r@ == "Smallest"@,
            *self == UTXOSelectionStrategy::MaturityThenSmallest ==> r@
                == "MaturityThenSmallest"@,
            *self == UTXOSelectionStrategy::Largest ==> r@ == "Largest"@,
    {
        match self {
            UTXOSelectionStrategy::Smallest => "Smallest",
            UTXOSelectionStrategy::MaturityThenSmallest => "MaturityThenSmallest",
            UTXOSelectionStrategy::Largest => "Largest",
        }
    }
}

/// Sums distribute over concatenation.
pub proof fn lemma_sum_outputs_append(a: Seq<DbOutputV>, b: Seq<DbOutputV>)
    ensures
        sum_outputs(a + b) == sum_outputs(a) + sum_outputs(b),
    decreases b.len(),
{
    if b.len() == 0 {
        assert(a + b =~= a);
    } else {
        assert((a + b).drop_last() =~= a + b.drop_last());
        lemma_sum_outputs_append(a, b.drop_last());
    }
}

/// The sum of a single output is its value.
pub proof fn lemma_sum_outputs_singleton(o: DbOutputV)
    ensures
        sum_outputs(seq![o]) == o.output.value,
{
    assert(seq![o].drop_last() =~= Seq::<DbOutputV>::empty());
    assert(sum_outputs(Seq::<DbOutputV>::empty()) == 0);
}

/// Output sums are non-negative.
pub proof fn lemma_sum_outputs_nonneg(os: Seq<DbOutputV>)
    ensures
        0 <= sum_outputs(os),
    decreases os.len(),
{
    if os.len() > 0 {
        lemma_sum_outputs_nonneg(os.drop_last());
    }
}

/// Stepping a prefix output sum by one element.
pub proof fn lemma_sum_outputs_take_step(os: Seq<DbOutputV>, i: int)
    requires
        0 <= i < os.len(),
    ensures
        sum_outputs(os.take(i + 1)) == sum_outputs(os.take(i)) + os[i].output.value,
{
    assert(os.take(i + 1).drop_last() =~= os.take(i));
    assert(os.take(i + 1).last() == os[i]);
}

/// A prefix output sum is bounded by the whole.
pub proof fn lemma_sum_outputs_take_le(os: Seq<DbOutputV>, i: int)
    requires
        0 <= i <= os.len(),
    ensures
        sum_outputs(os.take(i)) <= sum_outputs(os),
    decreases os.len() - i,
{
    if i == os.len() {
        assert(os.take(i) =~= os);
    } else {
        lemma_sum_outputs_take_step(os, i);
        lemma_sum_outputs_take_le(os, i + 1);
    }
}

/// The sum of one pool is bounded by the sum of the whole store.
pub proof fn lemma_sum_outputs_status_le(
    rs: Seq<crate::storage::RecordV>,
    status: crate::storage::OutputStatus,
)
    ensures
        0 <= sum_outputs(crate::storage::spec_outputs_with_status(rs, status)) <= crate::storage::sum_values(
            rs,
        ),
    decreases rs.len(),
{
    if rs.len() == 0 {
    } else {
        lemma_sum_outputs_status_le(rs.drop_last(), status);
        let rest = crate::storage::spec_outputs_with_status(rs.drop_last(), status);
        if rs.last().status == status {
            assert(rest.push(rs.last().output).drop_last() =~= rest);
        }
    }
}

/// Reversal keeps the sum.
pub proof fn lemma_sum_outputs_reverse(os: Seq<DbOutputV>)
    ensures
        sum_outputs(os.reverse()) == sum_outputs(os),
    decreases os.len(),
{
    if os.len() > 0 {
        assert(os.reverse().drop_last() =~= os.drop_first().reverse());
        assert(os.reverse().last() == os.first());
        lemma_sum_outputs_reverse(os.drop_first());
        assert(os =~= seq![os.first()] + os.drop_first());
        lemma_sum_outputs_append(seq![os.first()], os.drop_first());
        lemma_sum_outputs_singleton(os.first());
    }
}

/// The outputs still spendable at the tip: all of them when the tip is
/// unknown, otherwise those whose maturity has passed.
pub open spec fn spec_mature_outputs(os: Seq<DbOutputV>, tip: Option<u64>) -> Seq<DbOutputV>
    decreases os.len(),
{
    match tip {
        None => os,
        Some(t) => if os.len() == 0 {
            Seq::empty()
        } else {
            let rest = spec_mature_outputs(os.drop_last(), tip);
            if os.last().output.features.maturity <= t {
                rest.push(os.last())
            } else {
                rest
            }
        },
    }
}

/// Filtering by maturity never grows the sum.
pub proof fn lemma_mature_sum_le(os: Seq<DbOutputV>, tip: Option<u64>)
    ensures
        0 <= sum_outputs(spec_mature_outputs(os, tip)) <= sum_outputs(os),
    decreases os.len(),
{
    lemma_sum_outputs_nonneg(spec_mature_outputs(os, tip));
    lemma_sum_outputs_nonneg(os);
    match tip {
        None => {},
        Some(t) => {
            if os.len() > 0 {
                lemma_mature_sum_le(os.drop_last(), tip);
                let rest = spec_mature_outputs(os.drop_last(), tip);
                if os.last().output.features.maturity <= t {
                    assert(rest.push(os.last()).drop_last() =~= rest);
                }
            }
        },
    }
}

/// Order by maturity first, then by value.
pub open spec fn spec_mv_le(a: DbOutputV, b: DbOutputV) -> bool {
    a.output.features.maturity < b.output.features.maturity || (a.output.features.maturity
        == b.output.features.maturity && a.output.value <= b.output.value)
}

/// Ascending order by maturity, then value.
pub open spec fn sorted_by_maturity_then_value(os: Seq<DbOutputV>) -> bool {
    forall|i: int, j: int| 0 <= i < j < os.len() ==> spec_mv_le(#[trigger] os[i], #[trigger] os[j])
}

/// Stable insertion into a maturity-then-value sorted sequence.
pub open spec fn spec_mv_sorted_insert(os: Seq<DbOutputV>, x: DbOutputV) -> Seq<DbOutputV>
    decreases os.len(),
{
    if os.len() == 0 {
        seq![x]
    } else if spec_mv_le(os.last(), x) {
        os.push(x)
    } else {
        spec_mv_sorted_insert(os.drop_last(), x).push(os.last())
    }
}

/// The stable maturity-then-value sort of a sequence of outputs.
pub open spec fn spec_mv_sorted(os: Seq<DbOutputV>) -> Seq<DbOutputV>
    decreases os.len(),
{
    if os.len() == 0 {
        Seq::empty()
    } else {
        spec_mv_sorted_insert(spec_mv_sorted(os.drop_last()), os.last())
    }
}

/// Stable insertion keeps the sum.
pub proof fn lemma_mv_sorted_insert_sum(os: Seq<DbOutputV>, x: DbOutputV)
    ensures
        sum_outputs(spec_mv_sorted_insert(os, x)) == sum_outputs(os) + x.output.value,
    decreases os.len(),
{
    if os.len() == 0 {
        lemma_sum_outputs_singleton(x);
    } else if spec_mv_le(os.last(), x) {
        assert(os.push(x).drop_last() =~= os);
    } else {
        lemma_mv_sorted_insert_sum(os.drop_last(), x);
        let rest = spec_mv_sorted_insert(os.drop_last(), x);
        assert(rest.push(os.last()).drop_last() =~= rest);
    }
}

/// The maturity-then-value sort keeps the sum.
pub proof fn lemma_mv_sorted_sum(os: Seq<DbOutputV>)
    ensures
        sum_outputs(spec_mv_sorted(os)) == sum_outputs(os),
    decreases os.len(),
{
    if os.len() > 0 {
        lemma_mv_sorted_sum(os.drop_last());
        lemma_mv_sorted_insert_sum(spec_mv_sorted(os.drop_last()), os.last());
    }
}

/// Stable insertion grows the length by one.
pub proof fn lemma_mv_sorted_insert_len(os: Seq<DbOutputV>, x: DbOutputV)
    ensures
        spec_mv_sorted_insert(os, x).len() == os.len() + 1,
    decreases os.len(),
{
    if os.len() > 0 && !spec_mv_le(os.last(), x) {
        lemma_mv_sorted_insert_len(os.drop_last(), x);
    }
}

/// The maturity-then-value sort keeps the length.
pub proof fn lemma_mv_sorted_len(os: Seq<DbOutputV>)
    ensures
        spec_mv_sorted(os).len() == os.len(),
    decreases os.len(),
{
    if os.len() > 0 {
        lemma_mv_sorted_len(os.drop_last());
        lemma_mv_sorted_insert_len(spec_mv_sorted(os.drop_last()), os.last());
    }
}

/// Filtering by maturity never grows the length.
pub proof fn lemma_mature_len_le(os: Seq<DbOutputV>, tip: Option<u64>)
    ensures
        spec_mature_outputs(os, tip).len() <= os.len(),
    decreases os.len(),
{
    match tip {
        None => {},
        Some(_) => {
            if os.len() > 0 {
                lemma_mature_len_le(os.drop_last(), tip);
            }
        },
    }
}

/// Filtering by maturity introduces no output.
pub proof fn lemma_mature_membership(os: Seq<DbOutputV>, tip: Option<u64>, o: DbOutputV)
    requires
        crate::storage::output_in(spec_mature_outputs(os, tip), o),
    ensures
        crate::storage::output_in(os, o),
    decreases os.len(),
{
    match tip {
        None => {},
        Some(t) => {
            if os.len() > 0 {
                let rest = spec_mature_outputs(os.drop_last(), tip);
                let pool = spec_mature_outputs(os, tip);
                let j = choose|j: int| 0 <= j < pool.len() && pool[j] == o;
                if os.last().output.features.maturity <= t && j == rest.len() {
                    assert(os[os.len() - 1] == o);
                } else {
                    assert(crate::storage::output_in(rest, o));
                    lemma_mature_membership(os.drop_last(), tip, o);
                    let i = choose|i: int|
                        0 <= i < os.drop_last().len() && os.drop_last()[i] == o;
                    assert(os[i] == o);
                }
            }
        },
    }
}

/// Stable insertion introduces no output but the inserted one.
pub proof fn lemma_mv_sorted_insert_membership(os: Seq<DbOutputV>, x: DbOutputV, o: DbOutputV)
    requires
        crate::storage::output_in(spec_mv_sorted_insert(os, x), o),
    ensures
        crate::storage::output_in(os, o) || o == x,
    decreases os.len(),
{
    if os.len() == 0 {
        assert(spec_mv_sorted_insert(os, x) =~= seq![x]);
    } else if spec_mv_le(os.last(), x) {
        let j = choose|j: int| 0 <= j < os.push(x).len() && os.push(x)[j] == o;
        if j < os.len() {
            assert(os[j] == o);
        }
    } else {
        let rest = spec_mv_sorted_insert(os.drop_last(), x);
        let j = choose|j: int|
            0 <= j < rest.push(os.last()).len() && rest.push(os.last())[j] == o;
        if j < rest.len() {
            assert(crate::storage::output_in(rest, o));
            lemma_mv_sorted_insert_membership(os.drop_last(), x, o);
            if crate::storage::output_in(os.drop_last(), o) {
                let j2 = choose|j2: int|
                    0 <= j2 < os.drop_last().len() && os.drop_last()[j2] == o;
                assert(os[j2] == o);
            }
        } else {
            assert(os[os.len() - 1] == o);
        }
    }
}

/// The maturity-then-value sort introduces no output.
pub proof fn lemma_mv_sorted_membership(os: Seq<DbOutputV>, o: DbOutputV)
    requires
        crate::storage::output_in(spec_mv_sorted(os), o),
    ensures
        crate::storage::output_in(os, o),
    decreases os.len(),
{
    if os.len() > 0 {
        lemma_mv_sorted_insert_membership(spec_mv_sorted(os.drop_last()), os.last(), o);
        if crate::storage::output_in(spec_mv_sorted(os.drop_last()), o) {
            lemma_mv_sorted_membership(os.drop_last(), o);
            let j = choose|j: int| 0 <= j < os.drop_last().len() && os.drop_last()[j] == o;
            assert(os[j] == o);
        } else {
            assert(os[os.len() - 1] == o);
        }
    }
}

/// Inserting at the first position that must come after the new output is
/// exactly the stable insertion.
proof fn lemma_mv_sorted_insert_at(os: Seq<DbOutputV>, x: DbOutputV, p: int)
    requires
        sorted_by_maturity_then_value(os),
        0 <= p <= os.len(),
        forall|j: int| 0 <= j < p ==> spec_mv_le(#[trigger] os[j], x),
        p < os.len() ==> !spec_mv_le(os[p], x),
    ensures
        os.insert(p, x) == spec_mv_sorted_insert(os, x),
    decreases os.len(),
{
    if os.len() == 0 {
        assert(os.insert(0, x) =~= seq![x]);
    } else if spec_mv_le(os.last(), x) {
        assert(p == os.len()) by {
            if p < os.len() {
                assert(spec_mv_le(os[p], os[os.len() - 1]) || p == os.len() - 1);
            }
        }
        assert(os.insert(p, x) =~= os.push(x));
    } else {
        assert(p < os.len());
        let prefix = os.drop_last();
        assert(sorted_by_maturity_then_value(prefix));
        lemma_mv_sorted_insert_at(prefix, x, p);
        assert(os.insert(p, x) =~= prefix.insert(p, x).push(os.last()));
    }
}

/// Keeps only the outputs spendable at the tip.
pub fn filter_mature_outputs(v: &Vec<DbUnblindedOutput>, tip: Option<u64>) -> (r: Vec<
    DbUnblindedOutput,
>)
    ensures
        views_of_outputs(r@) == spec_mature_outputs(views_of_outputs(v@), tip),
{
    match tip {
        None => {
            let mut r: Vec<DbUnblindedOutput> = Vec::new();
            let n = v.len();
            let mut i: usize = 0;
            while i < n
                invariant
                    0 <= i <= n,
                    n == v@.len(),
                    views_of_outputs(r@) =~= views_of_outputs(v@).take(i as int),
                decreases n - i,
            {
                let item = v[i].clone();
                let ghost prev = r@;
                r.push(item);
                proof {
                    assert(r@ =~= prev.push(item));
                    assert(views_of_outputs(r@) =~= views_of_outputs(prev).push(item@));
                    assert(item@ == views_of_outputs(v@)[i as int]);
                    assert(views_of_outputs(r@) =~= views_of_outputs(v@).take(i as int + 1));
                }
                i += 1;
            }
            proof {
                assert(views_of_outputs(v@).take(n as int) =~= views_of_outputs(v@));
            }
            r
        },
        Some(t) => {
            let mut r: Vec<DbUnblindedOutput> = Vec::new();
            let n = v.len();
            let mut i: usize = 0;
            while i < n
                invariant
                    0 <= i <= n,
                    n == v@.len(),
                    views_of_outputs(r@) =~= spec_mature_outputs(
                        views_of_outputs(v@).take(i as int),
                        Some(t),
                    ),
                decreases n - i,
            {
                proof {
                    let tv = views_of_outputs(v@);
                    assert(tv.take(i as int + 1).drop_last() =~= tv.take(i as int));
                    assert(tv.take(i as int + 1).last() == tv[i as int]);
                }
                if v[i].unblinded_output.features.maturity <= t {
                    let item = v[i].clone();
                    let ghost prev = r@;
                    r.push(item);
                    proof {
                        assert(r@ =~= prev.push(item));
                        assert(views_of_outputs(r@) =~= views_of_outputs(prev).push(item@));
                        assert(item@ == views_of_outputs(v@)[i as int]);
                    }
                }
                proof {
                    assert(views_of_outputs(r@) =~= spec_mature_outputs(
                        views_of_outputs(v@).take(i as int + 1),
                        Some(t),
                    ));
                }
                i += 1;
            }
            proof {
                assert(views_of_outputs(v@).take(n as int) =~= views_of_outputs(v@));
            }
            r
        },
    }
}

/// Sorts outputs by maturity, then value; stable.
pub fn sort_by_maturity_then_value(v: &Vec<DbUnblindedOutput>) -> (r: Vec<DbUnblindedOutput>)
    ensures
        views_of_outputs(r@) == spec_mv_sorted(views_of_outputs(v@)),
        sorted_by_maturity_then_value(views_of_outputs(r@)),
{
    let mut r: Vec<DbUnblindedOutput> = Vec::new();
    let n = v.len();
    let mut i: usize = 0;
    while i < n
        invariant
            0 <= i <= n,
            n == v@.len(),
            sorted_by_maturity_then_value(views_of_outputs(r@)),
            views_of_outputs(r@) =~= spec_mv_sorted(views_of_outputs(v@).take(i as int)),
        decreases n - i,
    {
        proof {
            let tv = views_of_outputs(v@);
            assert(tv.take(i as int + 1).drop_last() =~= tv.take(i as int));
            assert(tv.take(i as int + 1).last() == tv[i as int]);
        }
        let x = v[i].clone();
        mv_sorted_insert(&mut r, x);
        i += 1;
    }
    proof {
        assert(views_of_outputs(v@).take(n as int) =~= views_of_outputs(v@));
    }
    r
}

/// Inserts an output into a maturity-then-value sorted vector, after any
/// equal keys.
fn mv_sorted_insert(v: &mut Vec<DbUnblindedOutput>, x: DbUnblindedOutput)
    requires
        sorted_by_maturity_then_value(views_of_outputs(old(v)@)),
    ensures
        sorted_by_maturity_then_value(views_of_outputs(final(v)@)),
        views_of_outputs(final(v)@) == spec_mv_sorted_insert(views_of_outputs(old(v)@), x@),
{
    let ghost before = views_of_outputs(v@);
    let n = v.len();
    let mut p: usize = 0;
    while p < n
        invariant_except_break
            0 <= p <= n,
            n == v@.len(),
            views_of_outputs(v@) == before,
            forall|j: int| 0 <= j < p ==> spec_mv_le(#[trigger] before[j], x@),
        ensures
            0 <= p <= n,
            n == v@.len(),
            views_of_outputs(v@) == before,
            forall|j: int| 0 <= j < p ==> spec_mv_le(#[trigger] before[j], x@),
            p < n ==> !spec_mv_le(before[p as int], x@),
        decreases n - p,
    {
        let le = v[p].unblinded_output.features.maturity < x.unblinded_output.features.maturity
            || (v[p].unblinded_output.features.maturity == x.unblinded_output.features.maturity
            && v[p].unblinded_output.value <= x.unblinded_output.value);
        if le {
            p += 1;
        } else {
            break;
        }
    }
    v.insert(p, x);
    proof {
        assert(views_of_outputs(v@) =~= before.insert(p as int, x@));
        lemma_mv_sorted_insert_at(before, x@, p as int);
        let after = before.insert(p as int, x@);
        assert forall|a: int, b: int|
            0 <= a < b < after.len() implies spec_mv_le(#[trigger] after[a], #[trigger] after[b]) by {
            let a0 = if a < p as int { a } else { a - 1 };
            let b0 = if b < p as int { b } else { b - 1 };
            if a == p as int {
                assert(after[b] == before[b0]);
                assert(b0 >= p as int);
            } else if b == p as int {
                assert(after[a] == before[a0]);
            } else {
                assert(after[a] == before[a0]);
                assert(after[b] == before[b0]);
            }
        }
    }
}

/// Reverses a vector of outputs.
pub fn reverse_outputs(v: &Vec<DbUnblindedOutput>) -> (r: Vec<DbUnblindedOutput>)
    ensures
        views_of_outputs(r@) == views_of_outputs(v@).reverse(),
{
    let mut r: Vec<DbUnblindedOutput> = Vec::new();
    let n = v.len();
    let mut i: usize = 0;
    while i < n
        invariant
            0 <= i <= n,
            n == v@.len(),
            r@.len() == i,
            forall|k: int|
                0 <= k < i ==> views_of_outputs(r@)[k] == views_of_outputs(v@)[n - 1 - k],
        decreases n - i,
    {
        let item = v[n - 1 - i].clone();
        let ghost prev = r@;
        r.push(item);
        proof {
            assert(r@ =~= prev.push(item));
            assert(views_of_outputs(r@) =~= views_of_outputs(prev).push(item@));
            assert(item@ == views_of_outputs(v@)[n - 1 - i as int]);
        }
        i += 1;
    }
    proof {
        assert(views_of_outputs(r@) =~= views_of_outputs(v@).reverse());
    }
    r
}

/// The scan stopped because the accumulated total exactly covers the amount
/// plus the no-change fee.
pub const SCAN_EXACT: u8 = 0;
/// The scan stopped because the total covers the amount plus the with-change
/// fee, with something left over.
pub const SCAN_CHANGE: u8 = 1;
/// The scan consumed every candidate without reaching either condition.
pub const SCAN_SHORT: u8 = 2;

/// The accumulation scan from position `i` with running total `total`:
/// returns the outcome kind, the stop position, and the final total.
pub open spec fn spec_scan_from(
    os: Seq<DbOutputV>,
    i: int,
    total: int,
    amount: int,
    fee_per_gram: int,
    output_count: int,
) -> (int, int, int)
    decreases os.len() - i,
{
    if i < 0 || i >= os.len() {
        (SCAN_SHORT as int, i, total)
    } else {
        let total2 = total + os[i].output.value;
        if total2 == amount + spec_fee(fee_per_gram, 1, i + 1, output_count) {
            (SCAN_EXACT as int, i + 1, total2)
        } else if total2 > amount + spec_fee(fee_per_gram, 1, i + 1, output_count + 1) {
            (SCAN_CHANGE as int, i + 1, total2)
        } else {
            spec_scan_from(os, i + 1, total2, amount, fee_per_gram, output_count)
        }
    }
}

/// The accumulation scan over a candidate ordering.
pub open spec fn spec_scan(os: Seq<DbOutputV>, amount: int, fee_per_gram: int, output_count: int)
    -> (int, int, int) {
    spec_scan_from(os, 0, 0, amount, fee_per_gram, output_count)
}

/// Selection sufficiency: whenever the scan succeeds, the selected total
/// covers the amount plus the fee of the selected shape — exactly, with no
/// change owed, or strictly, leaving the difference for a change output.
pub proof fn lemma_selection_sufficiency(
    os: Seq<DbOutputV>,
    i: int,
    total: int,
    amount: int,
    fee_per_gram: int,
    output_count: int,
)
    requires
        0 <= i <= os.len(),
    ensures
        ({
            let (kind, k, t) = spec_scan_from(os, i, total, amount, fee_per_gram, output_count);
            &&& i <= k <= os.len()
            &&& t == total + sum_outputs(os.subrange(i, k))
            &&& kind == SCAN_EXACT || kind == SCAN_CHANGE || kind == SCAN_SHORT
            &&& kind == SCAN_EXACT ==> t == amount + spec_fee(fee_per_gram, 1, k, output_count)
            &&& kind == SCAN_CHANGE ==> t > amount + spec_fee(fee_per_gram, 1, k, output_count + 1)
            &&& kind == SCAN_SHORT ==> k == os.len()
        }),
    decreases os.len() - i,
{
    if i >= os.len() {
        assert(os.subrange(i, i) =~= Seq::<DbOutputV>::empty());
    } else {
        let total2 = total + os[i].output.value;
        assert(os.subrange(i, i + 1) =~= seq![os[i]]);
        lemma_sum_outputs_singleton(os[i]);
        if total2 == amount + spec_fee(fee_per_gram, 1, i + 1, output_count) {
        } else if total2 > amount + spec_fee(fee_per_gram, 1, i + 1, output_count + 1) {
        } else {
            lemma_selection_sufficiency(os, i + 1, total2, amount, fee_per_gram, output_count);
            let (kind, k, t) = spec_scan_from(os, i + 1, total2, amount, fee_per_gram, output_count);
            assert(os.subrange(i, k) =~= seq![os[i]] + os.subrange(i + 1, k));
            lemma_sum_outputs_append(seq![os[i]], os.subrange(i + 1, k));
        }
    }
}

/// Fees grow with the number of inputs and outputs.
pub proof fn lemma_fee_monotone(
    fee_per_gram: int,
    num_kernels: int,
    i1: int,
    o1: int,
    i2: int,
    o2: int,
)
    by (nonlinear_arith)
    requires
        0 <= fee_per_gram,
        0 <= num_kernels,
        0 <= i1 <= i2,
        0 <= o1 <= o2,
    ensures
        spec_fee(fee_per_gram, num_kernels, i1, o1) <= spec_fee(fee_per_gram, num_kernels, i2, o2),
{
}

/// Runs the accumulation scan over an ordered candidate list.
pub fn scan_candidates(
    ordered: &Vec<DbUnblindedOutput>,
    amount: u64,
    fee_per_gram: u64,
    output_count: u64,
) -> (r: (u8, usize, u64))
    requires
        sum_outputs(views_of_outputs(ordered@)) <= u64::MAX,
        output_count <= u64::MAX - 2,
        spec_fee(
            fee_per_gram as int,
            1,
            ordered@.len() as int + 1,
            output_count as int + 2,
        ) <= u64::MAX,
    ensures
        (r.0 as int, r.1 as int, r.2 as int) == spec_scan(
            views_of_outputs(ordered@),
            amount as int,
            fee_per_gram as int,
            output_count as int,
        ),
{
    let ghost os = views_of_outputs(ordered@);
    let n = ordered.len();
    let mut total: u64 = 0;
    let mut i: usize = 0;
    proof {
        lemma_sum_outputs_nonneg(os);
    }
    while i < n
        invariant
            0 <= i <= n,
            n == ordered@.len(),
            os == views_of_outputs(ordered@),
            sum_outputs(os) <= u64::MAX,
            output_count <= u64::MAX - 2,
            spec_fee(fee_per_gram as int, 1, n as int + 1, output_count as int + 2) <= u64::MAX,
            total == sum_outputs(os.take(i as int)),
            spec_scan(os, amount as int, fee_per_gram as int, output_count as int)
                == spec_scan_from(
                os,
                i as int,
                total as int,
                amount as int,
                fee_per_gram as int,
                output_count as int,
            ),
        decreases n - i,
    {
        proof {
            lemma_sum_outputs_take_step(os, i as int);
            lemma_sum_outputs_take_le(os, i as int + 1);
            lemma_sum_outputs_nonneg(os.take(i as int));
            lemma_fee_monotone(
                fee_per_gram as int,
                1,
                i as int + 1,
                output_count as int,
                n as int + 1,
                output_count as int + 2,
            );
            lemma_fee_monotone(
                fee_per_gram as int,
                1,
                i as int + 1,
                output_count as int + 1,
                n as int + 1,
                output_count as int + 2,
            );
        }
        let v = ordered[i].unblinded_output.value;
        total = total + v;
        let fee_no_change = Fee::calculate(fee_per_gram, 1, (i + 1) as u64, output_count);
        if (total as u128) == (amount as u128) + (fee_no_change as u128) {
            proof {
                assert(spec_scan_from(
                    os,
                    i as int,
                    sum_outputs(os.take(i as int)),
                    amount as int,
                    fee_per_gram as int,
                    output_count as int,
                ) == (SCAN_EXACT as int, i as int + 1, total as int));
            }
            i = i + 1;
            return (SCAN_EXACT, i, total);
        }
        let fee_with_change = Fee::calculate(fee_per_gram, 1, (i + 1) as u64, output_count + 1);
        if (total as u128) > (amount as u128) + (fee_with_change as u128) {
            proof {
                assert(spec_scan_from(
                    os,
                    i as int,
                    sum_outputs(os.take(i as int)),
                    amount as int,
                    fee_per_gram as int,
                    output_count as int,
                ) == (SCAN_CHANGE as int, i as int + 1, total as int));
            }
            i = i + 1;
            return (SCAN_CHANGE, i, total);
        }
        proof {
            assert(spec_scan_from(
                os,
                i as int,
                sum_outputs(os.take(i as int)),
                amount as int,
                fee_per_gram as int,
                output_count as int,
            ) == spec_scan_from(
                os,
                i as int + 1,
                total as int,
                amount as int,
                fee_per_gram as int,
                output_count as int,
            ));
        }
        i = i + 1;
    }
    proof {
        assert(spec_scan_from(
            os,
            n as int,
            total as int,
            amount as int,
            fee_per_gram as int,
            output_count as int,
        ) == (SCAN_SHORT as int, n as int, total as int));
    }
    (SCAN_SHORT, n, total)
}

} // verus!
