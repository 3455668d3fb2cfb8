//! What chance decides of a report, and the trend points and comparisons
//! that are made of it. Neither depends on the records: both stand in for
//! an analysis of the records over time.

use crate::data_models::{ComparisonData, DataTrend, TrendDirection};
use crate::fixed::{lemma_outward_quotient_bound, lemma_percent_change_sign, percent_change};
use crate::name_map::{lemma_rank_bounds, lists, NameMap};
use vstd::prelude::*;

verus! {

/// The least amount of a trend point.
pub const TREND_LOW: i64 = 50_000_000;

/// The bound that the amount of a trend point stays below.
pub const TREND_HIGH: i64 = 200_000_000;

/// The least current amount of a comparison.
pub const CURRENT_LOW: i64 = 100_000_000;

/// The bound that the current amount of a comparison stays below.
pub const CURRENT_HIGH: i64 = 500_000_000;

/// The least previous amount of a comparison.
pub const PREVIOUS_LOW: i64 = 80_000_000;

/// The bound that the previous amount of a comparison stays below.
pub const PREVIOUS_HIGH: i64 = 450_000_000;

/// What chance decides of one trend point: its amount, and a number that
/// stands for its direction.
#[derive(Debug, Clone, Copy, PartialEq, Eq, Structural)]
pub struct TrendDraw {
    pub value: i64,
    pub direction: i64,
}

/// What chance decides of one comparison: its two amounts.
#[derive(Debug, Clone, Copy, PartialEq, Eq, Structural)]
pub struct ComparisonDraw {
    pub current: i64,
    pub previous: i64,
}

/// All that chance decides of a report: a draw for each of the four
/// periods, and one for each of the three metrics compared.
#[derive(Debug, Clone, Copy, PartialEq, Eq)]
pub struct Draws {
    pub trends: [TrendDraw; 4],
    pub comparisons: [ComparisonDraw; 3],
}

impl TrendDraw {
    /// The draw lies in the ranges that trend points are drawn from.
    pub open spec fn valid(self) -> bool {
        TREND_LOW <= self.value < TREND_HIGH && 0 <= self.direction < 3
    }

    /// Whether the draw lies in the ranges that trend points are drawn from.
    pub fn is_valid(&self) -> (ok: bool)
        ensures
            ok == self.valid(),
    {
        TREND_LOW <= self.value && self.value < TREND_HIGH && 0 <= self.direction
            && self.direction < 3
    }
}

impl ComparisonDraw {
    /// The draw lies in the ranges that comparisons are drawn from.
    pub open spec fn valid(self) -> bool {
        CURRENT_LOW <= self.current < CURRENT_HIGH && PREVIOUS_LOW <= self.previous < PREVIOUS_HIGH
    }

    /// Whether the draw lies in the ranges that comparisons are drawn from.
    pub fn is_valid(&self) -> (ok: bool)
        ensures
            ok == self.valid(),
    {
        CURRENT_LOW <= self.current && self.current < CURRENT_HIGH && PREVIOUS_LOW <= self.previous
            && self.previous < PREVIOUS_HIGH
    }
}

impl Draws {
    /// Every draw lies in its ranges.
    pub open spec fn valid(self) -> bool {
        &&& forall|i: int| 0 <= i < 4 ==> (#[trigger] self.trends@[i]).valid()
        &&& forall|i: int| 0 <= i < 3 ==> (#[trigger] self.comparisons@[i]).valid()
    }

    /// Whether every draw lies in its ranges.
    pub fn is_valid(&self) -> (ok: bool)
        ensures
            ok == self.valid(),
    {
        self.trends[0].is_valid() && self.trends[1].is_valid() && self.trends[2].is_valid()
            && self.trends[3].is_valid() && self.comparisons[0].is_valid()
            && self.comparisons[1].is_valid() && self.comparisons[2].is_valid()
    }
}

/// The label of the period numbered `k`, of four.
pub open spec fn period_label(k: int) -> Seq<char> {
    if k == 0 {
        "Q1 2024"@
    } else if k == 1 {
        "Q2 2024"@
    } else if k == 2 {
        "Q3 2024"@
    } else {
        "Q4 2024"@
    }
}

/// The label of the metric numbered `k`, of the three that are compared.
pub open spec fn metric_label(k: int) -> Seq<char> {
    if k == 0 {
        "Revenue"@
    } else if k == 1 {
        "User Engagement"@
    } else {
        "Performance"@
    }
}

/// The direction that a drawn number stands for.
pub open spec fn direction_of(draw: int) -> TrendDirection {
    if draw == 0 {
        TrendDirection::Increasing
    } else if draw == 1 {
        TrendDirection::Decreasing
    } else {
        TrendDirection::Stable
    }
}

/// The trend points are those of the draws: a point for each period, in
/// the order of the periods.
pub open spec fn is_trends_of(trends: Seq<DataTrend>, draws: Seq<TrendDraw>) -> bool {
    &&& trends.len() == 4
    &&& forall|i: int|
        0 <= i < 4 ==> {
            &&& (#[trigger] trends[i]).period@ == period_label(i)
            &&& trends[i].value == draws[i].value
            &&& trends[i].trend_direction == direction_of(draws[i].direction as int)
        }
}

/// The comparisons are those of the draws: each of the three metrics
/// mapped to the amounts drawn for it and the change between them.
pub open spec fn is_comparisons_of(
    comparisons: Map<Seq<char>, ComparisonData>,
    draws: Seq<ComparisonDraw>,
) -> bool {
    &&& forall|name: Seq<char>| #[trigger]
        comparisons.contains_key(name) <==> name == metric_label(0) || name == metric_label(1)
            || name == metric_label(2)
    &&& forall|i: int|
        0 <= i < 3 ==> {
            &&& (#[trigger] comparisons[metric_label(i)]).current == draws[i].current
            &&& comparisons[metric_label(i)].previous == draws[i].previous
            &&& comparisons[metric_label(i)].consistent()
            &&& comparisons[metric_label(i)].shows_direction()
        }
}

/// The three metrics compared bear different names.
pub proof fn lemma_metric_labels_distinct()
    ensures
        metric_label(0) != metric_label(1),
        metric_label(0) != metric_label(2),
        metric_label(1) != metric_label(2),
{
    reveal_strlit("Revenue");
    reveal_strlit("User Engagement");
    reveal_strlit("Performance");
    assert("Revenue"@[0] == 'R');
    assert("User Engagement"@[0] == 'U');
    assert("Performance"@[0] == 'P');
}

fn period_name(k: usize) -> (name: &'static str)
    requires
        k < 4,
    ensures
        name@ == period_label(k as int),
{
    if k == 0 {
        "Q1 2024"
    } else if k == 1 {
        "Q2 2024"
    } else if k == 2 {
        "Q3 2024"
    } else {
        "Q4 2024"
    }
}

fn comparison_name(k: usize) -> (name: &'static str)
    requires
        k < 3,
    ensures
        name@ == metric_label(k as int),
{
    if k == 0 {
        "Revenue"
    } else if k == 1 {
        "User Engagement"
    } else {
        "Performance"
    }
}

/// The direction that a drawn number stands for: 0 for increasing, 1 for
/// decreasing, any other for stable.
pub fn direction_from(draw: i64) -> (direction: TrendDirection)
    ensures
        direction == direction_of(draw as int),
{
    if draw == 0 {
        TrendDirection::Increasing
    } else if draw == 1 {
        TrendDirection::Decreasing
    } else {
        TrendDirection::Stable
    }
}

/// The trend points of the four periods, from what was drawn for each.
pub fn trends_from(draws: &[TrendDraw; 4]) -> (trends: Vec<DataTrend>)
    ensures
        is_trends_of(trends@, draws@),
{
    let mut trends: Vec<DataTrend> = Vec::new();
    let mut i: usize = 0;
    while i < 4
        invariant
            i <= 4,
            trends.len() == i,
            forall|k: int|
                0 <= k < i ==> {
                    &&& (#[trigger] trends[k]).period@ == period_label(k)
                    &&& trends[k].value == draws[k].value
                    &&& trends[k].trend_direction == direction_of(draws[k].direction as int)
                },
        decreases 4 - i,
    {
        let draw = draws[i];
        trends.push(
            DataTrend {
                period: String::from_str(period_name(i)),
                value: draw.value,
                trend_direction: direction_from(draw.direction),
            },
        );
        i += 1;
    }
    trends
}

/// The comparisons of the three metrics, from what was drawn for each. No
/// previous amount may be 0: from nothing there is no change in percent.
pub fn comparisons_from(draws: &[ComparisonDraw; 3]) -> (comparisons: NameMap<ComparisonData>)
    requires
        forall|i: int| 0 <= i < 3 ==> (#[trigger] draws[i]).previous != 0,
    ensures
        is_comparisons_of(comparisons@, draws@),
        comparisons.entries().len() == 3,
{
    let mut comparisons: NameMap<ComparisonData> = NameMap::new();
    let mut i: usize = 0;
    proof {
        lemma_metric_labels_distinct();
    }
    while i < 3
        invariant
            i <= 3,
            forall|k: int| 0 <= k < 3 ==> (#[trigger] draws[k]).previous != 0,
            comparisons.wf(),
            comparisons.entries().len() == i,
            metric_label(0) != metric_label(1),
            metric_label(0) != metric_label(2),
            metric_label(1) != metric_label(2),
            forall|name: Seq<char>| #[trigger]
                comparisons@.contains_key(name) <==> exists|k: int|
                    0 <= k < i && name == #[trigger] metric_label(k),
            forall|k: int|
                0 <= k < i ==> {
                    &&& (#[trigger] comparisons@[metric_label(k)]).current == draws[k].current
                    &&& comparisons@[metric_label(k)].previous == draws[k].previous
                    &&& comparisons@[metric_label(k)].consistent()
                    &&& comparisons@[metric_label(k)].shows_direction()
                },
        decreases 3 - i,
    {
        let draw = draws[i];
        let ghost before = comparisons.entries();
        let ghost old_map = comparisons@;
        match ComparisonData::new(draw.current, draw.previous) {
            Some(entry) => {
                comparisons.insert(String::from_str(comparison_name(i)), entry);
                proof {
                    let label = metric_label(i as int);
                    assert(!old_map.contains_key(label));
                    assert(!lists(before, label));
                    lemma_rank_bounds(before, label);
                    assert forall|name: Seq<char>| #[trigger]
                        comparisons@.contains_key(name) <==> exists|k: int|
                            0 <= k < i + 1 && name == #[trigger] metric_label(k) by {
                        if name == label {
                            assert(name == metric_label(i as int));
                        }
                        if old_map.contains_key(name) {
                            let k = choose|k: int| 0 <= k < i && name == #[trigger] metric_label(k);
                            assert(0 <= k < i + 1 && name == metric_label(k));
                        }
                    }
                }
            },
            None => {},
        }
        i += 1;
    }
    proof {
        assert forall|name: Seq<char>| #[trigger]
            comparisons@.contains_key(name) <==> name == metric_label(0) || name == metric_label(1)
                || name == metric_label(2) by {
            if comparisons@.contains_key(name) {
                let k = choose|k: int| 0 <= k < 3 && name == #[trigger] metric_label(k);
            }
        }
    }
    comparisons
}

/// What holds of the trend points of a report, whatever was drawn: a point
/// for each period, in the order of the periods, its amount in range.
pub open spec fn is_trend_series(trends: Seq<DataTrend>) -> bool {
    &&& trends.len() == 4
    &&& forall|i: int|
        0 <= i < 4 ==> {
            &&& (#[trigger] trends[i]).period@ == period_label(i)
            &&& TREND_LOW <= trends[i].value < TREND_HIGH
        }
}

/// The bound that the change in percent of a drawn comparison stays above:
/// the fall from just under the greatest previous amount to the least
/// current one.
pub const CHANGE_LOW: i128 = -77_780_000;

/// The greatest change in percent of a drawn comparison: the rise from the
/// least previous amount to the bound of the current ones.
pub const CHANGE_HIGH: i128 = 525_000_000;

/// What holds of the comparisons of a report, whatever was drawn: each of
/// the three metrics mapped to two amounts in range and the change between
/// them, which is positive for a rise, negative for a fall and 0 for
/// neither.
pub open spec fn is_comparison_set(comparisons: Map<Seq<char>, ComparisonData>) -> bool {
    &&& forall|name: Seq<char>| #[trigger]
        comparisons.contains_key(name) <==> name == metric_label(0) || name == metric_label(1)
            || name == metric_label(2)
    &&& forall|i: int|
        0 <= i < 3 ==> {
            &&& CURRENT_LOW <= (#[trigger] comparisons[metric_label(i)]).current < CURRENT_HIGH
            &&& PREVIOUS_LOW <= comparisons[metric_label(i)].previous < PREVIOUS_HIGH
            &&& comparisons[metric_label(i)].consistent()
            &&& comparisons[metric_label(i)].change_percentage > 0 <==> comparisons[metric_label(
                i,
            )].current > comparisons[metric_label(i)].previous
            &&& comparisons[metric_label(i)].change_percentage < 0 <==> comparisons[metric_label(
                i,
            )].current < comparisons[metric_label(i)].previous
            &&& CHANGE_LOW < comparisons[metric_label(i)].change_percentage <= CHANGE_HIGH
        }
}

/// The change in percent between amounts within the ranges lies within
/// bounds of its own.
pub proof fn lemma_change_in_range(draw: ComparisonDraw)
    requires
        draw.valid(),
    ensures
        CHANGE_LOW < percent_change(draw.current as int, draw.previous as int) <= CHANGE_HIGH,
{
    let c = draw.current as int;
    let p = draw.previous as int;
    let a = (c - p) * 100_000_000;
    let q = percent_change(c, p);
    lemma_outward_quotient_bound(a, p);
    if c >= p {
        assert(q <= 525_000_000) by (nonlinear_arith)
            requires
                q >= 0,
                a >= 0,
                p * q < a + p,
                a == (c - p) * 100_000_000,
                80_000_000 <= p,
                c < 500_000_000,
        ;
    } else {
        assert(-q < 77_780_000) by (nonlinear_arith)
            requires
                q <= 0,
                a < 0,
                p * (-q) < -a + p,
                a == (c - p) * 100_000_000,
                p < 450_000_000,
                100_000_000 <= c,
                p > 0,
        ;
    }
}

/// Trend points made from draws within the ranges are a trend series.
pub proof fn lemma_valid_draws_give_trend_series(trends: Seq<DataTrend>, draws: Seq<TrendDraw>)
    requires
        draws.len() == 4,
        forall|i: int| 0 <= i < 4 ==> (#[trigger] draws[i]).valid(),
        is_trends_of(trends, draws),
    ensures
        is_trend_series(trends),
{
    assert forall|i: int| 0 <= i < 4 implies TREND_LOW <= (#[trigger] trends[i]).value
        < TREND_HIGH by {
        assert(draws[i].valid());
    }
}

/// Comparisons made from draws within the ranges are a comparison set.
pub proof fn lemma_valid_draws_give_comparison_set(
    comparisons: Map<Seq<char>, ComparisonData>,
    draws: Seq<ComparisonDraw>,
)
    requires
        draws.len() == 3,
        forall|i: int| 0 <= i < 3 ==> (#[trigger] draws[i]).valid(),
        is_comparisons_of(comparisons, draws),
    ensures
        is_comparison_set(comparisons),
{
    assert forall|i: int| 0 <= i < 3 implies {
        let entry = #[trigger] comparisons[metric_label(i)];
        &&& CURRENT_LOW <= entry.current < CURRENT_HIGH
        &&& PREVIOUS_LOW <= entry.previous < PREVIOUS_HIGH
        &&& entry.consistent()
        &&& entry.change_percentage > 0 <==> entry.current > entry.previous
        &&& entry.change_percentage < 0 <==> entry.current < entry.previous
        &&& CHANGE_LOW < entry.change_percentage <= CHANGE_HIGH
    } by {
        assert(draws[i].valid());
        lemma_percent_change_sign(draws[i].current as int, draws[i].previous as int);
        lemma_change_in_range(draws[i]);
    }
}

} // verus!
