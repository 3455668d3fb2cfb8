//! The summary of a set of records: their number, the mean of their
//! amounts, the totals of their groups and the group that sums to the most.

use crate::data_models::{BusinessData, DataSummary};
use crate::data_processing::TransformError;
use crate::fixed::{divide, lemma_quotient_bound, magnitude, quotient};
use crate::name_map::{
    ascending, lemma_front_map, lemma_listing_map_line, listing_map, lists, NameMap,
};
use crate::names::{lemma_name_lt_asymmetric, name_lt};
use vstd::arithmetic::div_mod::{lemma_fundamental_div_mod, lemma_mod_multiples_basic};
use vstd::prelude::*;

verus! {

/// The field by which records are grouped.
#[derive(Debug, Clone, Copy, PartialEq, Eq, Structural)]
pub enum Dimension {
    Category,
    Region,
}

impl Dimension {
    /// The group that a record falls in.
    pub open spec fn key(self, r: BusinessData) -> Seq<char> {
        match self {
            Dimension::Category => r.category@,
            Dimension::Region => r.region@,
        }
    }

    /// The name of the group that a record falls in.
    pub fn name_of<'a>(self, r: &'a BusinessData) -> (name: &'a str)
        ensures
            name@ == self.key(*r),
    {
        match self {
            Dimension::Category => r.category.as_str(),
            Dimension::Region => r.region.as_str(),
        }
    }
}

/// The sum of the amounts of all records.
pub open spec fn total_value(records: Seq<BusinessData>) -> int
    decreases records.len(),
{
    if records.len() == 0 {
        0
    } else {
        total_value(records.drop_last()) + records.last().value
    }
}

/// The sum of the amounts of the records of one group.
pub open spec fn group_total(records: Seq<BusinessData>, by: Dimension, name: Seq<char>) -> int
    decreases records.len(),
{
    if records.len() == 0 {
        0
    } else {
        group_total(records.drop_last(), by, name) + if by.key(records.last()) == name {
            records.last().value as int
        } else {
            0int
        }
    }
}

/// Some record falls in the group `name`.
pub open spec fn has_group(records: Seq<BusinessData>, by: Dimension, name: Seq<char>) -> bool {
    exists|i: int| 0 <= i < records.len() && by.key(#[trigger] records[i]) == name
}

/// The totals are those of the groups of the records: a name for each
/// group, mapped to the sum of the amounts of the group's records.
pub open spec fn is_grouping(
    totals: Map<Seq<char>, i128>,
    records: Seq<BusinessData>,
    by: Dimension,
) -> bool {
    &&& forall|name: Seq<char>| #[trigger]
        totals.contains_key(name) <==> has_group(records, by, name)
    &&& forall|name: Seq<char>| #[trigger]
        totals.contains_key(name) ==> totals[name] == group_total(records, by, name)
}

/// The sum of the values of a listing.
pub open spec fn listing_total(s: Seq<(Seq<char>, i128)>) -> int
    decreases s.len(),
{
    if s.len() == 0 {
        0
    } else {
        listing_total(s.drop_last()) + s.last().1
    }
}

/// `name` has the greatest total; of several names with the greatest
/// total, it is the one that comes first in the order of names.
pub open spec fn is_top(totals: Map<Seq<char>, i128>, name: Seq<char>) -> bool {
    &&& totals.contains_key(name)
    &&& forall|other: Seq<char>| #[trigger] totals.contains_key(other) ==> totals[other] <= totals[name]
    &&& forall|other: Seq<char>| #[trigger]
        totals.contains_key(other) && totals[other] == totals[name] && other != name ==> name_lt(
            name,
            other,
        )
}

/// `name` is the category whose records sum to the most; of several such
/// categories, the one that comes first in the order of names.
pub open spec fn is_top_category(records: Seq<BusinessData>, name: Seq<char>) -> bool {
    &&& has_group(records, Dimension::Category, name)
    &&& forall|other: Seq<char>| #[trigger]
        has_group(records, Dimension::Category, other) ==> group_total(
            records,
            Dimension::Category,
            other,
        ) <= group_total(records, Dimension::Category, name)
    &&& forall|other: Seq<char>| #[trigger]
        has_group(records, Dimension::Category, other) && other != name && group_total(
            records,
            Dimension::Category,
            other,
        ) == group_total(records, Dimension::Category, name) ==> name_lt(name, other)
}

/// The mean of the amounts of the records, rounded toward zero.
pub open spec fn mean_value(records: Seq<BusinessData>) -> int {
    quotient(total_value(records), records.len() as int)
}

/// The summary is that of the records.
pub open spec fn is_summary_of(summary: DataSummary, records: Seq<BusinessData>) -> bool {
    &&& summary.total_metrics == records.len()
    &&& summary.average_value == mean_value(records)
    &&& is_top_category(records, summary.top_performing_category@)
    &&& is_grouping(summary.regional_breakdown@, records, Dimension::Region)
    &&& listing_total(summary.regional_breakdown.entries()) == total_value(records)
}

/// A sum of `i64` amounts is bounded by their number.
pub proof fn lemma_total_bound(records: Seq<BusinessData>)
    ensures
        -records.len() * 0x8000_0000_0000_0000 <= total_value(records) <= records.len()
            * 0x7fff_ffff_ffff_ffff,
    decreases records.len(),
{
    if records.len() > 0 {
        lemma_total_bound(records.drop_last());
    }
}

/// The sum of a group is bounded by the number of all records.
pub proof fn lemma_group_total_bound(records: Seq<BusinessData>, by: Dimension, name: Seq<char>)
    ensures
        -records.len() * 0x8000_0000_0000_0000 <= group_total(records, by, name) <= records.len()
            * 0x7fff_ffff_ffff_ffff,
    decreases records.len(),
{
    if records.len() > 0 {
        lemma_group_total_bound(records.drop_last(), by, name);
    }
}

/// A group without records sums to nothing.
pub proof fn lemma_absent_group(records: Seq<BusinessData>, by: Dimension, name: Seq<char>)
    requires
        !has_group(records, by, name),
    ensures
        group_total(records, by, name) == 0,
    decreases records.len(),
{
    if records.len() > 0 {
        let front = records.drop_last();
        assert(by.key(records[records.len() - 1]) != name);
        if has_group(front, by, name) {
            let i = choose|i: int| 0 <= i < front.len() && by.key(#[trigger] front[i]) == name;
            assert(by.key(records[i]) == name);
        }
        lemma_absent_group(front, by, name);
    }
}

/// One more record adds to the groups a record of its own group.
proof fn lemma_has_group_push(
    records: Seq<BusinessData>,
    r: BusinessData,
    by: Dimension,
    name: Seq<char>,
)
    ensures
        has_group(records.push(r), by, name) <==> has_group(records, by, name) || by.key(r) == name,
{
    let more = records.push(r);
    if has_group(more, by, name) {
        let i = choose|i: int| 0 <= i < more.len() && by.key(#[trigger] more[i]) == name;
        if i < records.len() {
            assert(by.key(records[i]) == name);
        }
    }
    if has_group(records, by, name) {
        let i = choose|i: int| 0 <= i < records.len() && by.key(#[trigger] records[i]) == name;
        assert(by.key(more[i]) == name);
    }
    if by.key(r) == name {
        assert(by.key(more[records.len() as int]) == name);
    }
}

/// The records that do not fall in the group `name`, in their order.
pub open spec fn without_group(
    records: Seq<BusinessData>,
    by: Dimension,
    name: Seq<char>,
) -> Seq<BusinessData>
    decreases records.len(),
{
    if records.len() == 0 {
        records
    } else if by.key(records.last()) == name {
        without_group(records.drop_last(), by, name)
    } else {
        without_group(records.drop_last(), by, name).push(records.last())
    }
}

/// Taking a group out of the records takes its total out of their sum and
/// leaves the other groups as they were.
pub proof fn lemma_without_group(
    records: Seq<BusinessData>,
    by: Dimension,
    name: Seq<char>,
    other: Seq<char>,
)
    ensures
        total_value(records) == total_value(without_group(records, by, name)) + group_total(
            records,
            by,
            name,
        ),
        other != name ==> group_total(without_group(records, by, name), by, other) == group_total(
            records,
            by,
            other,
        ),
        has_group(without_group(records, by, name), by, other) <==> has_group(records, by, other)
            && other != name,
    decreases records.len(),
{
    let rest = without_group(records, by, name);
    if records.len() == 0 {
        assert(!has_group(records, by, other));
    } else {
        let front = records.drop_last();
        let last = records.last();
        lemma_without_group(front, by, name, other);
        assert(records =~= front.push(last));
        lemma_has_group_push(front, last, by, other);
        if by.key(last) != name {
            let kept = without_group(front, by, name);
            assert(rest.drop_last() =~= kept);
            assert(rest.last() == last);
            lemma_has_group_push(kept, last, by, other);
        }
    }
}

/// Grouping is a partition: the totals of the groups of the records, each
/// group listed once, sum to the total of the records.
pub proof fn lemma_groups_sum_to_total(
    records: Seq<BusinessData>,
    by: Dimension,
    s: Seq<(Seq<char>, i128)>,
)
    requires
        ascending(s),
        is_grouping(listing_map(s), records, by),
    ensures
        listing_total(s) == total_value(records),
    decreases s.len(),
{
    let totals = listing_map(s);
    if s.len() == 0 {
        if records.len() > 0 {
            let first = by.key(records[0]);
            assert(has_group(records, by, first));
            assert(totals.contains_key(first));
            assert(lists(s, first));
        }
    } else {
        let name = s.last().0;
        let front = s.drop_last();
        let rest = without_group(records, by, name);
        lemma_front_map(s);
        lemma_listing_map_line(s, s.len() - 1);
        lemma_without_group(records, by, name, name);
        assert forall|other: Seq<char>| #[trigger]
            listing_map(front).contains_key(other) <==> has_group(rest, by, other) by {
            lemma_without_group(records, by, name, other);
            assert(totals.contains_key(other) <==> has_group(records, by, other));
        }
        assert forall|other: Seq<char>| #[trigger]
            listing_map(front).contains_key(other) implies listing_map(front)[other] == group_total(
            rest,
            by,
            other,
        ) by {
            lemma_without_group(records, by, name, other);
            assert(totals.contains_key(other));
        }
        lemma_groups_sum_to_total(rest, by, front);
    }
}

/// The totals of the groups of the records, by category or by region.
pub fn group_totals(records: &Vec<BusinessData>, by: Dimension) -> (totals: NameMap<i128>)
    ensures
        is_grouping(totals@, records@, by),
        listing_total(totals.entries()) == total_value(records@),
        totals.wf(),
{
    let mut totals: NameMap<i128> = NameMap::new();
    let mut i: usize = 0;
    assert(records@.take(0) =~= Seq::<BusinessData>::empty());
    while i < records.len()
        invariant
            i <= records.len(),
            totals.wf(),
            is_grouping(totals@, records@.take(i as int), by),
        decreases records.len() - i,
    {
        let r = &records[i];
        let name = by.name_of(r);
        let ghost seen = records@.take(i as int);
        let ghost more = records@.take(i + 1);
        let ghost old_map = totals@;
        let found = totals.get(name);
        let so_far: i128 = match found {
            Some(t) => t,
            None => 0,
        };
        proof {
            assert(more =~= seen.push(*r));
            assert(more.drop_last() =~= seen);
            lemma_group_total_bound(seen, by, name@);
            if !old_map.contains_key(name@) {
                lemma_absent_group(seen, by, name@);
            }
            assert(so_far == group_total(seen, by, name@));
            assert(seen.len() * 0x8000_0000_0000_0000 <= 0xffff_ffff_ffff_ffff
                * 0x8000_0000_0000_0000) by (nonlinear_arith)
                requires
                    seen.len() <= 0xffff_ffff_ffff_ffff,
            ;
        }
        let next: i128 = so_far + (r.value as i128);
        totals.insert(String::from_str(name), next);
        proof {
            assert forall|other: Seq<char>| #[trigger]
                totals@.contains_key(other) <==> has_group(more, by, other) by {
                lemma_has_group_push(seen, *r, by, other);
            }
            assert forall|other: Seq<char>| #[trigger] totals@.contains_key(other) implies totals@[other]
                == group_total(more, by, other) by {
                lemma_has_group_push(seen, *r, by, other);
            }
        }
        i += 1;
    }
    assert(records@.take(records.len() as int) =~= records@);
    proof {
        lemma_groups_sum_to_total(records@, by, totals.entries());
    }
    totals
}

/// The name with the greatest total, and of several such names the one
/// that comes first in the order of names; `None` of a map without names.
pub fn top_name(totals: &NameMap<i128>) -> (top: Option<String>)
    ensures
        totals.entries().len() == 0 <==> top is None,
        top is Some ==> is_top(totals@, top->0@),
{
    let n = totals.len();
    if n == 0 {
        return None;
    }
    let ghost s = totals.entries();
    let mut best: usize = 0;
    let mut best_total: i128 = totals.value_at(0);
    let mut i: usize = 1;
    while i < n
        invariant
            s == totals.entries(),
            n == s.len(),
            1 <= i <= n,
            best < i,
            best_total == s[best as int].1,
            forall|k: int| 0 <= k < i ==> (#[trigger] s[k]).1 <= best_total,
            forall|k: int| 0 <= k < best ==> (#[trigger] s[k]).1 < best_total,
        decreases n - i,
    {
        let here = totals.value_at(i);
        if here > best_total {
            best = i;
            best_total = here;
        }
        i += 1;
    }
    let top = String::from_str(totals.name_at(best));
    proof {
        let m = totals@;
        lemma_listing_map_line(s, best as int);
        assert forall|other: Seq<char>| #[trigger] m.contains_key(other) implies m[other]
            <= m[top@] && (m[other] == m[top@] && other != top@ ==> name_lt(top@, other)) by {
            let j = choose|j: int| 0 <= j < s.len() && #[trigger] s[j].0 == other;
            lemma_listing_map_line(s, j);
            assert(s[j].1 <= best_total);
            if m[other] == m[top@] && other != top@ {
                assert(best < j);
                assert(name_lt(s[best as int].0, s[j].0));
            }
        }
    }
    Some(top)
}

/// The aggregate view of the records: their number, the mean of their
/// amounts, the category that sums to the most and the total of each
/// region. Without records there is no mean, and no summary.
pub fn summarize(records: &Vec<BusinessData>) -> (summary: Result<DataSummary, TransformError>)
    ensures
        records.len() == 0 <==> summary is Err,
        summary is Err ==> summary->Err_0 == TransformError::EmptyInput,
        summary is Ok ==> is_summary_of(summary->Ok_0, records@),
{
    let total_metrics = records.len();
    if total_metrics == 0 {
        return Err(TransformError::EmptyInput);
    }
    let mut total: i128 = 0;
    let mut i: usize = 0;
    assert(records@.take(0) =~= Seq::<BusinessData>::empty());
    while i < total_metrics
        invariant
            total_metrics == records.len(),
            i <= total_metrics,
            total == total_value(records@.take(i as int)),
        decreases total_metrics - i,
    {
        proof {
            let seen = records@.take(i as int);
            assert(records@.take(i + 1).drop_last() =~= seen);
            lemma_total_bound(seen);
            assert(seen.len() * 0x8000_0000_0000_0000 <= 0xffff_ffff_ffff_ffff
                * 0x8000_0000_0000_0000) by (nonlinear_arith)
                requires
                    seen.len() <= 0xffff_ffff_ffff_ffff,
            ;
        }
        total = total + (records[i].value as i128);
        i += 1;
    }
    assert(records@.take(total_metrics as int) =~= records@);
    proof {
        lemma_total_bound(records@);
        assert(records.len() * 0x8000_0000_0000_0000 <= 0xffff_ffff_ffff_ffff
            * 0x8000_0000_0000_0000) by (nonlinear_arith)
            requires
                records.len() <= 0xffff_ffff_ffff_ffff,
        ;
        lemma_mean_bound(records@);
    }
    let mean = divide(total, total_metrics as i128);
    let average_value = mean as i64;
    let by_category = group_totals(records, Dimension::Category);
    let regional_breakdown = group_totals(records, Dimension::Region);
    let top = top_name(&by_category);
    proof {
        let first = records@[0].category@;
        assert(Dimension::Category.key(records@[0]) == first);
        assert(has_group(records@, Dimension::Category, first));
        assert(by_category@.contains_key(first));
        assert(lists(by_category.entries(), first));
        lemma_top_of_grouping(by_category@, records@, top->0@);
    }
    match top {
        Some(top_performing_category) => {
            Ok(
                DataSummary {
                    total_metrics,
                    average_value,
                    top_performing_category,
                    regional_breakdown,
                },
            )
        },
        None => Err(TransformError::EmptyInput),
    }
}

/// The name with the greatest total among the totals of the categories is
/// the top category.
proof fn lemma_top_of_grouping(
    totals: Map<Seq<char>, i128>,
    records: Seq<BusinessData>,
    name: Seq<char>,
)
    requires
        is_grouping(totals, records, Dimension::Category),
        is_top(totals, name),
    ensures
        is_top_category(records, name),
{
    assert forall|other: Seq<char>| #[trigger]
        has_group(records, Dimension::Category, other) implies group_total(
        records,
        Dimension::Category,
        other,
    ) <= group_total(records, Dimension::Category, name) && (other != name && group_total(
        records,
        Dimension::Category,
        other,
    ) == group_total(records, Dimension::Category, name) ==> name_lt(name, other)) by {
        assert(totals.contains_key(other));
    }
}

/// The mean of `i64` amounts is an `i64` amount.
pub proof fn lemma_mean_bound(records: Seq<BusinessData>)
    requires
        records.len() > 0,
    ensures
        -0x8000_0000_0000_0000 <= mean_value(records) <= 0x7fff_ffff_ffff_ffff,
{
    lemma_total_bound(records);
    let n = records.len() as int;
    let t = total_value(records);
    lemma_quotient_bound(t, n);
    let q = magnitude(quotient(t, n));
    if t >= 0 {
        assert(q <= 0x7fff_ffff_ffff_ffff) by (nonlinear_arith)
            requires
                n > 0,
                q >= 0,
                n * q <= t,
                t <= n * 0x7fff_ffff_ffff_ffff,
        ;
    } else {
        assert(q <= 0x8000_0000_0000_0000) by (nonlinear_arith)
            requires
                n > 0,
                q >= 0,
                n * q <= -t,
                -t <= n * 0x8000_0000_0000_0000,
        ;
    }
}

/// The mean lies within one millionth of the exact mean: the amounts sum
/// to the mean times their number, to less than their number.
pub proof fn lemma_mean_is_close(records: Seq<BusinessData>)
    requires
        records.len() > 0,
    ensures
        magnitude(total_value(records) - records.len() * mean_value(records)) < records.len(),
        total_value(records) % (records.len() as int) == 0 ==> total_value(records)
            == records.len() * mean_value(records),
{
    let n = records.len() as int;
    let t = total_value(records);
    lemma_quotient_bound(t, n);
    let q = magnitude(quotient(t, n));
    assert(n * (q + 1) == n * q + n) by (nonlinear_arith);
    assert(n * (-q) == -(n * q)) by (nonlinear_arith);
    if t % n == 0 {
        let size = magnitude(t);
        let k = if t < 0 {
            -(t / n)
        } else {
            t / n
        };
        lemma_fundamental_div_mod(t, n);
        assert(size == k * n) by (nonlinear_arith)
            requires
                t == n * (t / n),
                size == (if t < 0 {
                    -t
                } else {
                    t
                }),
                k == (if t < 0 {
                    -(t / n)
                } else {
                    t / n
                }),
        ;
        lemma_mod_multiples_basic(k, n);
        lemma_fundamental_div_mod(size, n);
    }
}

/// The mean never has the wrong sign: it is positive only of a positive
/// total and negative only of a negative one, and it is 0 where the total
/// is smaller in magnitude than the number of records.
pub proof fn lemma_mean_sign(records: Seq<BusinessData>)
    requires
        records.len() > 0,
    ensures
        mean_value(records) > 0 ==> total_value(records) > 0,
        mean_value(records) < 0 ==> total_value(records) < 0,
        mean_value(records) == 0 <==> magnitude(total_value(records)) < records.len(),
{
    let n = records.len() as int;
    let t = total_value(records);
    lemma_quotient_bound(t, n);
    let q = magnitude(quotient(t, n));
    assert(q == 0 <==> magnitude(t) < n) by (nonlinear_arith)
        requires
            n > 0,
            q >= 0,
            n * q <= magnitude(t),
            magnitude(t) < n * (q + 1),
    ;
}

/// Where all records are of one category, that category is the top one.
pub proof fn lemma_single_category_is_top(
    records: Seq<BusinessData>,
    category: Seq<char>,
    top: Seq<char>,
)
    requires
        forall|i: int| 0 <= i < records.len() ==> (#[trigger] records[i]).category@ == category,
        is_top_category(records, top),
    ensures
        top == category,
{
    let i = choose|i: int|
        0 <= i < records.len() && Dimension::Category.key(#[trigger] records[i]) == top;
    assert(records[i].category@ == category);
}

/// A set of records has one top category at most.
pub proof fn lemma_top_category_unique(records: Seq<BusinessData>, a: Seq<char>, b: Seq<char>)
    requires
        is_top_category(records, a),
        is_top_category(records, b),
    ensures
        a == b,
{
    if a != b {
        assert(name_lt(a, b));
        assert(name_lt(b, a));
        lemma_name_lt_asymmetric(a, b);
    }
}

} // verus!
