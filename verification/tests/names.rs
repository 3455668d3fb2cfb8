use business_report::fixed::{divide, divide_outward};
use business_report::name_map::NameMap;
use business_report::names::name_less;

#[test]
fn names_compare_character_by_character() {
    assert!(name_less("Europe", "North America"));
    assert!(!name_less("North America", "Europe"));
    assert!(name_less("Asia", "Asian"));
    assert!(!name_less("Asian", "Asia"));
    assert!(!name_less("Asia", "Asia"));
    assert!(name_less("", "a"));
    assert!(!name_less("", ""));
    assert!(!name_less("a", ""));
    assert!(name_less("Zebra", "apple"));
    assert!(name_less("Q1 2024", "Q2 2024"));
}

#[test]
fn names_compare_as_text_does() {
    let names = ["", "a", "A", "ab", "b", "z", "é", "日本", "日", "a\u{10000}", "a\u{ffff}", " ", "~"];
    for a in names {
        for b in names {
            assert_eq!(name_less(a, b), a < b);
        }
    }
}

#[test]
fn map_lists_names_in_ascending_order() {
    let mut map: NameMap<i128> = NameMap::new();
    assert_eq!(map.len(), 0);
    assert_eq!(map.insert("North America".to_string(), 1), None);
    assert_eq!(map.insert("Europe".to_string(), 2), None);
    assert_eq!(map.insert("Latin America".to_string(), 3), None);
    assert_eq!(map.insert("Asia".to_string(), 4), None);
    assert_eq!(map.len(), 4);
    let names: Vec<&str> = (0..map.len()).map(|i| map.name_at(i)).collect();
    assert_eq!(names, vec!["Asia", "Europe", "Latin America", "North America"]);
    let values: Vec<i128> = (0..map.len()).map(|i| map.value_at(i)).collect();
    assert_eq!(values, vec![4, 2, 3, 1]);
}

#[test]
fn map_holds_one_value_for_a_name() {
    let mut map: NameMap<i128> = NameMap::new();
    assert_eq!(map.get("a"), None);
    assert_eq!(map.insert("a".to_string(), 1), None);
    assert_eq!(map.insert("b".to_string(), 2), None);
    assert_eq!(map.insert("a".to_string(), 3), Some(1));
    assert_eq!(map.len(), 2);
    assert_eq!(map.get("a"), Some(3));
    assert_eq!(map.get("b"), Some(2));
    assert_eq!(map.get("c"), None);
    assert_eq!(map.get(""), None);
}

#[test]
fn map_of_many_names() {
    let mut map: NameMap<i128> = NameMap::new();
    for i in (0..500).rev() {
        map.insert(format!("{:04}", (i * 7) % 500), i);
    }
    assert_eq!(map.len(), 500);
    for i in 0..500 {
        assert_eq!(map.name_at(i), format!("{:04}", i));
        assert_eq!(map.get(&format!("{:04}", (i * 7) % 500)), Some(i as i128));
    }
}

#[test]
fn map_copy_is_equal_and_apart() {
    let mut map: NameMap<i128> = NameMap::new();
    map.insert("a".to_string(), 1);
    let copy = map.clone();
    map.insert("b".to_string(), 2);
    assert_eq!(copy.len(), 1);
    assert_eq!(copy.get("a"), Some(1));
    assert_eq!(copy.get("b"), None);
    assert_eq!(map.len(), 2);
}

#[test]
fn quotients_are_rounded_toward_zero() {
    assert_eq!(divide(7, 2), 3);
    assert_eq!(divide(-7, 2), -3);
    assert_eq!(divide(7, -2), -3);
    assert_eq!(divide(-7, -2), 3);
    assert_eq!(divide(0, 5), 0);
    assert_eq!(divide(6, 3), 2);
    assert_eq!(divide(-6, 3), -2);
    assert_eq!(divide(1, i128::MAX), 0);
    assert_eq!(divide(i128::MAX, 1), i128::MAX);
    assert_eq!(divide(i128::MIN + 1, -1), i128::MAX);
    assert_eq!(divide(i128::MIN, 1), i128::MIN);
    assert_eq!(divide(i128::MIN, i128::MIN), 1);
    assert_eq!(divide(i128::MIN, 2), i128::MIN / 2);
    assert_eq!(divide(i128::MIN, i128::MAX), -1);
    assert_eq!(divide(i128::MAX, i128::MIN), 0);
    assert_eq!(divide(5, i128::MIN), 0);
}

#[test]
fn quotients_are_rounded_away_from_zero() {
    assert_eq!(divide_outward(7, 2), 4);
    assert_eq!(divide_outward(-7, 2), -4);
    assert_eq!(divide_outward(7, -2), -4);
    assert_eq!(divide_outward(-7, -2), 4);
    assert_eq!(divide_outward(0, 5), 0);
    assert_eq!(divide_outward(0, -5), 0);
    assert_eq!(divide_outward(6, 3), 2);
    assert_eq!(divide_outward(-6, 3), -2);
    assert_eq!(divide_outward(1, i128::MAX), 1);
    assert_eq!(divide_outward(-1, i128::MAX), -1);
    assert_eq!(divide_outward(i128::MAX, 1), i128::MAX);
    assert_eq!(divide_outward(i128::MAX, 2), i128::MAX / 2 + 1);
    assert_eq!(divide_outward(i128::MIN, 1), i128::MIN);
    assert_eq!(divide_outward(i128::MIN, i128::MIN), 1);
    assert_eq!(divide_outward(i128::MIN, i128::MAX), -2);
    assert_eq!(divide_outward(i128::MAX, i128::MIN), -1);
    assert_eq!(divide_outward(1, i128::MIN), -1);
}
