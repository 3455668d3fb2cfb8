use business_report::data_models::{BusinessData, ComparisonData, TrendDirection};
use business_report::data_processing::{DataProcessor, TransformError};
use business_report::draws::{
    comparisons_from, direction_from, trends_from, ComparisonDraw, Draws, TrendDraw, CHANGE_HIGH,
    CHANGE_LOW, CURRENT_HIGH, CURRENT_LOW, PREVIOUS_HIGH, PREVIOUS_LOW, TREND_HIGH, TREND_LOW,
};
use business_report::fixed::{change_percentage, UNIT};
use business_report::report_generator::status_name;
use business_report::sample::{sample_range, sample_record};
use business_report::summary::{group_totals, summarize, top_name, Dimension};
use std::collections::HashSet;

fn record(category: &str, region: &str, value: i64) -> BusinessData {
    BusinessData {
        id: "id".to_string(),
        timestamp: "2024-01-01".to_string(),
        category: category.to_string(),
        metric_name: "Revenue".to_string(),
        value,
        region: region.to_string(),
        department: "Marketing".to_string(),
    }
}

fn fixed_draws() -> Draws {
    Draws {
        trends: [
            TrendDraw { value: 50 * UNIT, direction: 0 },
            TrendDraw { value: 75_500_000, direction: 1 },
            TrendDraw { value: 120 * UNIT, direction: 2 },
            TrendDraw { value: 199_999_999, direction: 0 },
        ],
        comparisons: [
            ComparisonDraw { current: 120 * UNIT, previous: 100 * UNIT },
            ComparisonDraw { current: 100 * UNIT, previous: 100 * UNIT },
            ComparisonDraw { current: 100 * UNIT, previous: 300 * UNIT },
        ],
    }
}

#[test]
fn test_data_processing() {
    let processor = DataProcessor::new();
    let sample_data = processor.generate_sample_data();
    assert!(!sample_data.is_empty());

    let transformed = processor.transform_data(sample_data).unwrap();
    assert!(transformed.summary.total_metrics > 0);
}

#[test]
fn sample_data_takes_its_fields_in_turn() {
    let data = DataProcessor::new().generate_sample_data();
    assert_eq!(data.len(), 100);
    let categories = ["Sales", "User Engagement", "Technical", "Customer Support"];
    let regions = ["North America", "Europe", "Asia", "Latin America"];
    let departments = ["Marketing", "Development", "Operations", "Support"];
    let metrics = [
        ["Revenue", "Units Sold", "Conversion Rate"],
        ["Daily Active Users", "Session Length", "Retention Rate"],
        ["Uptime", "Response Time", "Error Rate"],
        ["Ticket Volume", "Resolution Time", "Satisfaction Score"],
    ];
    for (i, r) in data.iter().enumerate() {
        assert_eq!(r.category, categories[i % 4]);
        assert_eq!(r.region, regions[i % 4]);
        assert_eq!(r.department, departments[i % 4]);
        assert_eq!(r.metric_name, metrics[i % 4][i % 3]);
        let (low, high) = sample_range(i);
        assert!(low <= r.value && r.value < high);
    }
}

#[test]
fn sample_dates_lie_in_2024() {
    let data = DataProcessor::new().generate_sample_data();
    for r in data.iter() {
        let parts: Vec<&str> = r.timestamp.split('-').collect();
        assert_eq!(parts.len(), 3);
        assert_eq!(parts[0], "2024");
        assert_eq!(parts[1].len(), 2);
        assert_eq!(parts[2].len(), 2);
        let month: u32 = parts[1].parse().unwrap();
        let day: u32 = parts[2].parse().unwrap();
        assert!(1 <= month && month <= 12);
        assert!(1 <= day && day <= 28);
    }
}

#[test]
fn sample_ids_are_random_identifiers() {
    let data = DataProcessor::new().generate_sample_data();
    let mut seen = HashSet::new();
    for r in data.iter() {
        let chars: Vec<char> = r.id.chars().collect();
        assert_eq!(chars.len(), 36);
        for (i, c) in chars.iter().enumerate() {
            if i == 8 || i == 13 || i == 18 || i == 23 {
                assert_eq!(*c, '-');
            } else {
                assert!(('0'..='9').contains(c) || ('a'..='f').contains(c));
            }
        }
        assert_eq!(chars[14], '4');
        assert!(matches!(chars[19], '8' | '9' | 'a' | 'b'));
        assert!(seen.insert(r.id.clone()));
    }
}

#[test]
fn sample_amounts_are_drawn() {
    let data = DataProcessor::new().generate_sample_data();
    let at_low = data.iter().enumerate().filter(|(i, r)| r.value == sample_range(*i).0).count();
    assert!(at_low < 100);
    let at_high = data.iter().enumerate().filter(|(i, r)| r.value == sample_range(*i).1).count();
    assert_eq!(at_high, 0);
    let first = DataProcessor::new().generate_sample_data();
    assert!(first.iter().zip(data.iter()).any(|(a, b)| a.value != b.value));
}

#[test]
fn sample_record_is_built_from_what_was_drawn() {
    let r = sample_record(5, "abc".to_string(), 42, 3, 7);
    assert_eq!(r.id, "abc");
    assert_eq!(r.timestamp, "2024-03-07");
    assert_eq!(r.category, "User Engagement");
    assert_eq!(r.metric_name, "Retention Rate");
    assert_eq!(r.value, 42);
    assert_eq!(r.region, "Europe");
    assert_eq!(r.department, "Development");

    let last = sample_record(99, "x".to_string(), -1, 12, 28);
    assert_eq!(last.timestamp, "2024-12-28");
    assert_eq!(last.category, "Customer Support");
    assert_eq!(last.metric_name, "Ticket Volume");
    assert_eq!(last.region, "Latin America");
    assert_eq!(last.department, "Support");
}

#[test]
fn sample_record_dates_any_numbers() {
    for month in [0u8, 9, 10, 99, 100, 109, 255] {
        for day in [0u8, 5, 31, 200] {
            let r = sample_record(0, String::new(), 0, month, day);
            assert_eq!(r.timestamp, format!("2024-{:02}-{:02}", month, day));
        }
    }
}

#[test]
fn sample_ranges_are_those_of_the_metrics() {
    assert_eq!(sample_range(0), (10_000 * UNIT, 100_000 * UNIT));
    assert_eq!(sample_range(4), (100 * UNIT, 5_000 * UNIT));
    assert_eq!(sample_range(8), (10_000, 500_000));
    assert_eq!(sample_range(9), (1_000 * UNIT, 50_000 * UNIT));
    assert_eq!(sample_range(1), (5 * UNIT, 60 * UNIT));
    assert_eq!(sample_range(5), (100_000, 900_000));
    assert_eq!(sample_range(6), (950_000, UNIT));
    assert_eq!(sample_range(10), (50 * UNIT, 500 * UNIT));
    assert_eq!(sample_range(2), (1_000, 100_000));
    assert_eq!(sample_range(3), (10 * UNIT, 500 * UNIT));
    assert_eq!(sample_range(7), (UNIT, 48 * UNIT));
    assert_eq!(sample_range(11), (3 * UNIT, 5 * UNIT));
    assert_eq!(sample_range(12), sample_range(0));
}

#[test]
fn summary_counts_the_records() {
    for n in [1usize, 2, 7, 250] {
        let records: Vec<BusinessData> =
            (0..n).map(|i| record("Sales", "Europe", i as i64)).collect();
        let summary = summarize(&records).unwrap();
        assert_eq!(summary.total_metrics, n);
    }
}

#[test]
fn average_is_the_mean() {
    let records = vec![
        record("Sales", "Europe", 10 * UNIT),
        record("Sales", "Asia", 20 * UNIT),
        record("Technical", "Asia", 30 * UNIT),
    ];
    let summary = summarize(&records).unwrap();
    assert_eq!(summary.average_value, 20 * UNIT);

    let one = vec![record("Sales", "Europe", 50_500_000)];
    assert_eq!(summarize(&one).unwrap().average_value, 50_500_000);
}

#[test]
fn average_is_rounded_toward_zero() {
    let up = vec![
        record("a", "x", UNIT),
        record("a", "x", 2 * UNIT),
        record("a", "x", 4 * UNIT),
    ];
    assert_eq!(summarize(&up).unwrap().average_value, 2_333_333);
    let down = vec![
        record("a", "x", -UNIT),
        record("a", "x", -2 * UNIT),
        record("a", "x", -4 * UNIT),
    ];
    assert_eq!(summarize(&down).unwrap().average_value, -2_333_333);
    let mixed = vec![record("a", "x", -1), record("a", "x", 0)];
    assert_eq!(summarize(&mixed).unwrap().average_value, 0);
}

#[test]
fn average_of_the_largest_amounts_does_not_overflow() {
    let high = vec![record("a", "x", i64::MAX); 3];
    let summary = summarize(&high).unwrap();
    assert_eq!(summary.average_value, i64::MAX);
    assert_eq!(summary.regional_breakdown.get("x"), Some(3 * (i64::MAX as i128)));
    let low = vec![record("a", "x", i64::MIN); 3];
    let summary = summarize(&low).unwrap();
    assert_eq!(summary.average_value, i64::MIN);
    assert_eq!(summary.regional_breakdown.get("x"), Some(3 * (i64::MIN as i128)));
}

#[test]
fn single_category_is_the_top_one() {
    let records = vec![
        record("Technical", "Europe", -5 * UNIT),
        record("Technical", "Asia", 3 * UNIT),
        record("Technical", "Asia", 0),
    ];
    assert_eq!(summarize(&records).unwrap().top_performing_category, "Technical");
}

#[test]
fn top_category_has_the_greatest_total() {
    let records = vec![
        record("Sales", "Europe", 10 * UNIT),
        record("Technical", "Europe", 25 * UNIT),
        record("Sales", "Asia", 20 * UNIT),
        record("Support", "Asia", 29 * UNIT),
    ];
    assert_eq!(summarize(&records).unwrap().top_performing_category, "Sales");
}

#[test]
fn top_category_of_equal_totals_is_first_by_name() {
    let one_way = vec![
        record("Beta", "x", 5 * UNIT),
        record("Alpha", "x", 5 * UNIT),
        record("Gamma", "x", 5 * UNIT),
        record("Delta", "x", 4 * UNIT),
    ];
    let mut other_way = one_way.clone();
    other_way.reverse();
    assert_eq!(summarize(&one_way).unwrap().top_performing_category, "Alpha");
    assert_eq!(summarize(&other_way).unwrap().top_performing_category, "Alpha");
}

#[test]
fn top_name_of_no_names_is_none() {
    let none: Vec<BusinessData> = Vec::new();
    let totals = group_totals(&none, Dimension::Category);
    assert_eq!(totals.len(), 0);
    assert_eq!(top_name(&totals), None);
}

#[test]
fn breakdown_holds_each_region_with_its_total() {
    let records = vec![
        record("Sales", "North America", 600 * UNIT),
        record("Sales", "Europe", 800 * UNIT),
        record("Technical", "North America", 400 * UNIT),
        record("Technical", "Asia", -UNIT),
    ];
    let breakdown = summarize(&records).unwrap().regional_breakdown;
    assert_eq!(breakdown.len(), 3);
    assert_eq!(breakdown.get("North America"), Some(1000 * UNIT as i128));
    assert_eq!(breakdown.get("Europe"), Some(800 * UNIT as i128));
    assert_eq!(breakdown.get("Asia"), Some(-UNIT as i128));
    assert_eq!(breakdown.get("Latin America"), None);
    assert_eq!(breakdown.name_at(0), "Asia");
    assert_eq!(breakdown.name_at(1), "Europe");
    assert_eq!(breakdown.name_at(2), "North America");
}

#[test]
fn breakdown_sums_to_the_total_of_the_records() {
    let data = DataProcessor::new().generate_sample_data();
    let total: i128 = data.iter().map(|r| r.value as i128).sum();
    let breakdown = summarize(&data).unwrap().regional_breakdown;
    let mut sum: i128 = 0;
    for i in 0..breakdown.len() {
        sum += breakdown.value_at(i);
    }
    assert_eq!(sum, total);
    assert_eq!(breakdown.len(), 4);
}

#[test]
fn group_totals_by_category_and_by_region() {
    let records = vec![
        record("Sales", "Europe", 1),
        record("Technical", "Europe", 2),
        record("Sales", "Asia", 4),
    ];
    let by_category = group_totals(&records, Dimension::Category);
    assert_eq!(by_category.len(), 2);
    assert_eq!(by_category.get("Sales"), Some(5));
    assert_eq!(by_category.get("Technical"), Some(2));
    let by_region = group_totals(&records, Dimension::Region);
    assert_eq!(by_region.get("Europe"), Some(3));
    assert_eq!(by_region.get("Asia"), Some(4));
    assert_eq!(Dimension::Category.name_of(&records[1]), "Technical");
    assert_eq!(Dimension::Region.name_of(&records[1]), "Europe");
}

#[test]
fn no_records_is_an_error() {
    let processor = DataProcessor::new();
    assert_eq!(summarize(&Vec::new()).err(), Some(TransformError::EmptyInput));
    assert_eq!(processor.transform_data(Vec::new()).err(), Some(TransformError::EmptyInput));
    assert_eq!(
        processor.transform_with(&Vec::new(), &fixed_draws()).err(),
        Some(TransformError::EmptyInput)
    );
}

#[test]
fn change_percentage_of_a_rise_and_a_fall() {
    assert_eq!(change_percentage(120 * UNIT, 100 * UNIT), Some(20 * UNIT as i128));
    assert_eq!(change_percentage(80 * UNIT, 100 * UNIT), Some(-20 * UNIT as i128));
    assert_eq!(change_percentage(100 * UNIT, 100 * UNIT), Some(0));
    let made = ComparisonData::new(120 * UNIT, 100 * UNIT).unwrap();
    assert_eq!(made.current, 120 * UNIT);
    assert_eq!(made.previous, 100 * UNIT);
    assert_eq!(made.change_percentage, 20 * UNIT as i128);
}

#[test]
fn change_percentage_is_rounded_away_from_zero() {
    assert_eq!(change_percentage(UNIT, 3 * UNIT), Some(-66_666_667));
    assert_eq!(change_percentage(5 * UNIT, 3 * UNIT), Some(66_666_667));
    assert_eq!(change_percentage(-UNIT, -3 * UNIT), Some(-66_666_667));
    assert_eq!(change_percentage(UNIT, -3 * UNIT), Some(-133_333_334));
    assert_eq!(change_percentage(150 * UNIT, 100 * UNIT), Some(50 * UNIT as i128));
    assert_eq!(change_percentage(100 * UNIT, 160 * UNIT), Some(-37_500_000));
}

#[test]
fn change_percentage_keeps_the_sign_of_a_small_change() {
    assert_eq!(change_percentage(200_000_001, 200 * UNIT), Some(1));
    assert_eq!(change_percentage(199_999_999, 200 * UNIT), Some(-1));
    assert_eq!(change_percentage(200 * UNIT, 200 * UNIT), Some(0));
    assert_eq!(change_percentage(CURRENT_HIGH - 1, PREVIOUS_HIGH - 2), Some(11_111_112));
    assert_eq!(change_percentage(i64::MAX, i64::MAX - 1), Some(1));
    assert_eq!(change_percentage(i64::MIN, i64::MIN + 1), Some(1));
    assert_eq!(change_percentage(i64::MIN + 1, i64::MIN), Some(-1));
    let rise = ComparisonData::new(200_000_001, 200 * UNIT).unwrap();
    assert_eq!(status_name(rise.change_percentage), "Improving");
    let fall = ComparisonData::new(199_999_999, 200 * UNIT).unwrap();
    assert_eq!(status_name(fall.change_percentage), "Declining");
    let none = ComparisonData::new(200 * UNIT, 200 * UNIT).unwrap();
    assert_eq!(status_name(none.change_percentage), "Stable");
}

#[test]
fn change_percentage_of_drawn_amounts_stays_within_bounds() {
    assert_eq!(change_percentage(CURRENT_HIGH - 1, PREVIOUS_LOW), Some(524_999_999));
    assert_eq!(change_percentage(CURRENT_LOW, PREVIOUS_HIGH - 1), Some(-77_777_778));
    assert!(CHANGE_LOW < -77_777_778 && 524_999_999 <= CHANGE_HIGH);
    let processor = DataProcessor::new();
    for _ in 0..200 {
        let comparisons = processor.generate_comparisons();
        for i in 0..comparisons.len() {
            let c = comparisons.value_at(i);
            assert!(CHANGE_LOW < c.change_percentage && c.change_percentage <= CHANGE_HIGH);
            assert_eq!(c.change_percentage > 0, c.current > c.previous);
            assert_eq!(c.change_percentage < 0, c.current < c.previous);
        }
    }
}

#[test]
fn change_percentage_of_nothing_is_none() {
    assert_eq!(change_percentage(5 * UNIT, 0), None);
    assert_eq!(change_percentage(0, 0), None);
    assert_eq!(ComparisonData::new(1, 0), None);
}

#[test]
fn change_percentage_of_the_largest_amounts() {
    let widest = (i64::MAX as i128 - i64::MIN as i128) * 100_000_000;
    assert_eq!(change_percentage(i64::MAX, 1), Some((i64::MAX as i128 - 1) * 100_000_000));
    assert_eq!(change_percentage(i64::MAX, i64::MIN), Some(widest / (i64::MIN as i128) - 1));
    assert_eq!(change_percentage(i64::MAX, i64::MIN), Some(-200_000_000));
    assert_eq!(change_percentage(i64::MIN, -1), Some((i64::MAX as i128) * 100_000_000));
}

#[test]
fn directions_of_drawn_numbers() {
    assert_eq!(direction_from(0), TrendDirection::Increasing);
    assert_eq!(direction_from(1), TrendDirection::Decreasing);
    assert_eq!(direction_from(2), TrendDirection::Stable);
    assert_eq!(direction_from(-1), TrendDirection::Stable);
    assert_eq!(direction_from(77), TrendDirection::Stable);
}

#[test]
fn trends_follow_the_draws() {
    let trends = trends_from(&fixed_draws().trends);
    assert_eq!(trends.len(), 4);
    let periods: Vec<&str> = trends.iter().map(|t| t.period.as_str()).collect();
    assert_eq!(periods, vec!["Q1 2024", "Q2 2024", "Q3 2024", "Q4 2024"]);
    let values: Vec<i64> = trends.iter().map(|t| t.value).collect();
    assert_eq!(values, vec![50 * UNIT, 75_500_000, 120 * UNIT, 199_999_999]);
    let directions: Vec<TrendDirection> = trends.iter().map(|t| t.trend_direction).collect();
    assert_eq!(
        directions,
        vec![
            TrendDirection::Increasing,
            TrendDirection::Decreasing,
            TrendDirection::Stable,
            TrendDirection::Increasing
        ]
    );
}

#[test]
fn comparisons_follow_the_draws() {
    let comparisons = comparisons_from(&fixed_draws().comparisons);
    assert_eq!(comparisons.len(), 3);
    assert_eq!(
        comparisons.get("Revenue"),
        Some(ComparisonData {
            current: 120 * UNIT,
            previous: 100 * UNIT,
            change_percentage: 20 * UNIT as i128
        })
    );
    assert_eq!(
        comparisons.get("User Engagement"),
        Some(ComparisonData { current: 100 * UNIT, previous: 100 * UNIT, change_percentage: 0 })
    );
    assert_eq!(
        comparisons.get("Performance"),
        Some(ComparisonData {
            current: 100 * UNIT,
            previous: 300 * UNIT,
            change_percentage: -66_666_667
        })
    );
    assert_eq!(comparisons.name_at(0), "Performance");
    assert_eq!(comparisons.name_at(1), "Revenue");
    assert_eq!(comparisons.name_at(2), "User Engagement");
}

#[test]
fn transform_with_draws_is_exact() {
    let records = vec![
        record("Sales", "North America", 600 * UNIT),
        record("Technical", "Europe", 800 * UNIT),
        record("Sales", "North America", 400 * UNIT),
    ];
    let draws = fixed_draws();
    assert!(draws.is_valid());
    let report = DataProcessor::new().transform_with(&records, &draws).unwrap();
    assert_eq!(report.summary.total_metrics, 3);
    assert_eq!(report.summary.average_value, 600 * UNIT);
    assert_eq!(report.summary.top_performing_category, "Sales");
    assert_eq!(report.summary.regional_breakdown.len(), 2);
    assert_eq!(report.summary.regional_breakdown.get("North America"), Some(1000 * UNIT as i128));
    assert_eq!(report.summary.regional_breakdown.get("Europe"), Some(800 * UNIT as i128));
    assert_eq!(report.trends, trends_from(&draws.trends));
    assert_eq!(report.comparisons.len(), 3);
    assert_eq!(report.comparisons.get("Revenue").unwrap().change_percentage, 20 * UNIT as i128);
    let again = DataProcessor::new().transform_with(&records, &draws).unwrap();
    assert_eq!(again.trends, report.trends);
    assert_eq!(again.comparisons.get("Performance"), report.comparisons.get("Performance"));
}

#[test]
fn transform_data_draws_within_the_ranges() {
    let processor = DataProcessor::new();
    for _ in 0..20 {
        let report = processor.transform_data(vec![record("Sales", "Europe", UNIT)]).unwrap();
        assert_eq!(report.summary.total_metrics, 1);
        assert_eq!(report.summary.average_value, UNIT);
        assert_eq!(report.trends.len(), 4);
        let periods: Vec<&str> = report.trends.iter().map(|t| t.period.as_str()).collect();
        assert_eq!(periods, vec!["Q1 2024", "Q2 2024", "Q3 2024", "Q4 2024"]);
        for t in report.trends.iter() {
            assert!(TREND_LOW <= t.value && t.value < TREND_HIGH);
        }
        assert_eq!(report.comparisons.len(), 3);
        for name in ["Revenue", "User Engagement", "Performance"] {
            let c = report.comparisons.get(name).unwrap();
            assert!(CURRENT_LOW <= c.current && c.current < CURRENT_HIGH);
            assert!(PREVIOUS_LOW <= c.previous && c.previous < PREVIOUS_HIGH);
            assert_eq!(Some(c.change_percentage), change_percentage(c.current, c.previous));
        }
    }
}

#[test]
fn trends_and_comparisons_are_drawn() {
    let processor = DataProcessor::new();
    let mut values = HashSet::new();
    let mut directions = HashSet::new();
    let mut currents = HashSet::new();
    for _ in 0..50 {
        for t in processor.generate_trends() {
            values.insert(t.value);
            directions.insert(t.trend_direction as u8);
        }
        let comparisons = processor.generate_comparisons();
        for i in 0..comparisons.len() {
            currents.insert(comparisons.value_at(i).current);
        }
    }
    assert!(values.len() > 1);
    assert!(currents.len() > 1);
    assert_eq!(directions.len(), 3);
    assert!(!values.contains(&TREND_HIGH));
    assert!(!currents.contains(&CURRENT_HIGH));
}

#[test]
fn draws_outside_the_ranges_are_not_valid() {
    assert!(TrendDraw { value: TREND_LOW, direction: 2 }.is_valid());
    assert!(!TrendDraw { value: TREND_LOW - 1, direction: 2 }.is_valid());
    assert!(!TrendDraw { value: TREND_HIGH, direction: 0 }.is_valid());
    assert!(!TrendDraw { value: TREND_LOW, direction: 3 }.is_valid());
    assert!(!TrendDraw { value: TREND_LOW, direction: -1 }.is_valid());
    assert!(ComparisonDraw { current: CURRENT_LOW, previous: PREVIOUS_HIGH - 1 }.is_valid());
    assert!(!ComparisonDraw { current: CURRENT_HIGH, previous: PREVIOUS_LOW }.is_valid());
    assert!(!ComparisonDraw { current: CURRENT_LOW, previous: PREVIOUS_LOW - 1 }.is_valid());
    let mut draws = fixed_draws();
    assert!(draws.is_valid());
    draws.comparisons[2].previous = 0;
    assert!(!draws.is_valid());
    let mut draws = fixed_draws();
    draws.trends[3].value = TREND_HIGH;
    assert!(!draws.is_valid());
}

#[test]
fn records_column_by_column() {
    let records = vec![
        record("Sales", "Europe", 1),
        record("Technical", "Asia", 2),
    ];
    let columns = DataProcessor::new().analyze_with_polars(&records);
    assert_eq!(columns.id, vec!["id", "id"]);
    assert_eq!(columns.category, vec!["Sales", "Technical"]);
    assert_eq!(columns.metric, vec!["Revenue", "Revenue"]);
    assert_eq!(columns.value, vec![1, 2]);
    assert_eq!(columns.region, vec!["Europe", "Asia"]);
    let none = DataProcessor::new().analyze_with_polars(&[]);
    assert!(none.id.is_empty() && none.value.is_empty());
}
