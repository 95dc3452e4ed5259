//! Tests of the grouped-quantity classifier, the mergers, and the
//! shopping-list combiner.  Number magnitudes are fixed-point counts in
//! thousandths of a unit.

use cooklang_shopping::list::{
    add_to_ingredient_list, combine_ingredient_lists, merge_ingredient_lists, IngredientList,
};
use cooklang_shopping::model::{Amount, GroupedQuantityKey, QuantityType, Value};
use cooklang_shopping::quantity::{
    into_group_quantity, merge_grouped_quantities, GroupedQuantity,
};

fn key(name: &str, unit_type: QuantityType) -> GroupedQuantityKey {
    GroupedQuantityKey {
        name: name.to_string(),
        unit_type,
    }
}

fn number_bucket(unit: &str, thousandths: u64) -> GroupedQuantity {
    GroupedQuantity::from_entry(
        key(unit, QuantityType::Number),
        Value::Number { value: thousandths },
    )
}

#[test]
fn test_combine_ingredient_lists() {
    let mut salt_first = GroupedQuantity::new();
    salt_first.insert(key("g", QuantityType::Number), Value::Number { value: 5000 });
    salt_first.insert(key("tsp", QuantityType::Number), Value::Number { value: 1000 });
    let mut pepper = GroupedQuantity::new();
    pepper.insert(key("mg", QuantityType::Number), Value::Number { value: 5000 });
    pepper.insert(key("tsp", QuantityType::Number), Value::Number { value: 1000 });
    let mut first = IngredientList::new();
    first.insert("salt".to_string(), salt_first);
    first.insert("pepper".to_string(), pepper);

    let mut salt_second = GroupedQuantity::new();
    salt_second.insert(key("kg", QuantityType::Number), Value::Number { value: 5 });
    salt_second.insert(key("tsp", QuantityType::Number), Value::Number { value: 1000 });
    let mut second = IngredientList::new();
    second.insert("salt".to_string(), salt_second);

    let combined = combine_ingredient_lists(vec![first, second]);

    let salt = combined.get("salt").unwrap();
    assert_eq!(
        salt.get(&key("kg", QuantityType::Number)).unwrap(),
        Value::Number { value: 5 }
    );
    assert_eq!(
        salt.get(&key("tsp", QuantityType::Number)).unwrap(),
        Value::Number { value: 2000 }
    );
    assert_eq!(
        salt.get(&key("g", QuantityType::Number)).unwrap(),
        Value::Number { value: 5000 }
    );

    let pepper = combined.get("pepper").unwrap();
    assert_eq!(
        pepper.get(&key("mg", QuantityType::Number)).unwrap(),
        Value::Number { value: 5000 }
    );
    assert_eq!(
        pepper.get(&key("tsp", QuantityType::Number)).unwrap(),
        Value::Number { value: 1000 }
    );
}

#[test]
fn classify_missing_amount_is_empty_bucket() {
    let gq = into_group_quantity(&None);
    assert_eq!(
        gq.get(&key("", QuantityType::Empty)).unwrap(),
        Value::Empty
    );
    assert!(gq.get(&key("", QuantityType::Number)).is_none());
    assert!(gq.get(&key("g", QuantityType::Empty)).is_none());
}

#[test]
fn classify_amount_keeps_unit_and_kind() {
    let amount = Some(Amount {
        quantity: Value::Number { value: 200000 },
        units: Some("g".to_string()),
    });
    let gq = into_group_quantity(&amount);
    assert_eq!(
        gq.get(&key("g", QuantityType::Number)).unwrap(),
        Value::Number { value: 200000 }
    );
    assert!(gq.get(&key("G", QuantityType::Number)).is_none());
}

#[test]
fn classify_missing_unit_defaults_to_empty_label() {
    let amount = Some(Amount {
        quantity: Value::Text {
            value: "a pinch".to_string(),
        },
        units: None,
    });
    let gq = into_group_quantity(&amount);
    assert_eq!(
        gq.get(&key("", QuantityType::Text)).unwrap(),
        Value::Text {
            value: "a pinch".to_string()
        }
    );
}

#[test]
fn merge_adds_numbers_in_matching_bucket() {
    let mut left = number_bucket("g", 5000);
    let right = number_bucket("g", 3000);
    merge_grouped_quantities(&mut left, &right);
    assert_eq!(
        left.get(&key("g", QuantityType::Number)).unwrap(),
        Value::Number { value: 8000 }
    );
}

#[test]
fn merge_keeps_distinct_units_apart() {
    let mut left = number_bucket("g", 5000);
    let right = number_bucket("cup", 1000);
    merge_grouped_quantities(&mut left, &right);
    assert_eq!(
        left.get(&key("g", QuantityType::Number)).unwrap(),
        Value::Number { value: 5000 }
    );
    assert_eq!(
        left.get(&key("cup", QuantityType::Number)).unwrap(),
        Value::Number { value: 1000 }
    );
}

#[test]
fn merge_adds_range_endpoints() {
    let mut left = GroupedQuantity::from_entry(
        key("g", QuantityType::Range),
        Value::Range {
            start: 1000,
            end: 2000,
        },
    );
    let right = GroupedQuantity::from_entry(
        key("g", QuantityType::Range),
        Value::Range {
            start: 3000,
            end: 4000,
        },
    );
    merge_grouped_quantities(&mut left, &right);
    assert_eq!(
        left.get(&key("g", QuantityType::Range)).unwrap(),
        Value::Range {
            start: 4000,
            end: 6000
        }
    );
}

#[test]
fn merge_concatenates_text() {
    let mut left = GroupedQuantity::from_entry(
        key("", QuantityType::Text),
        Value::Text {
            value: "half".to_string(),
        },
    );
    let right = GroupedQuantity::from_entry(
        key("", QuantityType::Text),
        Value::Text {
            value: "half".to_string(),
        },
    );
    merge_grouped_quantities(&mut left, &right);
    assert_eq!(
        left.get(&key("", QuantityType::Text)).unwrap(),
        Value::Text {
            value: "halfhalf".to_string()
        }
    );
}

#[test]
fn merge_of_empty_buckets_stays_empty() {
    let mut left = GroupedQuantity::from_entry(key("", QuantityType::Empty), Value::Empty);
    let right = GroupedQuantity::from_entry(key("", QuantityType::Empty), Value::Empty);
    merge_grouped_quantities(&mut left, &right);
    assert_eq!(
        left.get(&key("", QuantityType::Empty)).unwrap(),
        Value::Empty
    );
}

#[test]
fn merge_saturates_at_the_fixed_point_ceiling() {
    let mut left = number_bucket("g", u64::MAX - 1);
    let right = number_bucket("g", 5000);
    merge_grouped_quantities(&mut left, &right);
    assert_eq!(
        left.get(&key("g", QuantityType::Number)).unwrap(),
        Value::Number { value: u64::MAX }
    );
}

#[test]
fn combine_no_lists_yields_empty_list() {
    let combined = combine_ingredient_lists(vec![]);
    assert!(combined.get("salt").is_none());
    assert!(combined.get("").is_none());
}

#[test]
fn combine_three_copies_scales_a_number_bucket() {
    let mut list = IngredientList::new();
    list.insert("flour".to_string(), number_bucket("g", 200000));
    let combined =
        combine_ingredient_lists(vec![list.dup(), list.dup(), list.dup()]);
    assert_eq!(
        combined
            .get("flour")
            .unwrap()
            .get(&key("g", QuantityType::Number))
            .unwrap(),
        Value::Number { value: 600000 }
    );
}

#[test]
fn merge_with_empty_list_changes_nothing() {
    let mut pepper = GroupedQuantity::new();
    pepper.insert(key("mg", QuantityType::Number), Value::Number { value: 5 });
    pepper.insert(key("tsp", QuantityType::Number), Value::Number { value: 1 });
    let mut list = IngredientList::new();
    list.insert("pepper".to_string(), pepper);

    merge_ingredient_lists(&mut list, &IngredientList::new());
    let got = list.get("pepper").unwrap();
    assert_eq!(
        got.get(&key("mg", QuantityType::Number)).unwrap(),
        Value::Number { value: 5 }
    );
    assert_eq!(
        got.get(&key("tsp", QuantityType::Number)).unwrap(),
        Value::Number { value: 1 }
    );

    let mut empty = IngredientList::new();
    merge_ingredient_lists(&mut empty, &list);
    let got = empty.get("pepper").unwrap();
    assert_eq!(
        got.get(&key("mg", QuantityType::Number)).unwrap(),
        Value::Number { value: 5 }
    );
    assert_eq!(
        got.get(&key("tsp", QuantityType::Number)).unwrap(),
        Value::Number { value: 1 }
    );
}

#[test]
fn add_to_ingredient_list_merges_existing_name() {
    let mut list = IngredientList::new();
    add_to_ingredient_list(&mut list, &"salt".to_string(), &number_bucket("g", 5000));
    add_to_ingredient_list(&mut list, &"salt".to_string(), &number_bucket("g", 3000));
    add_to_ingredient_list(&mut list, &"oil".to_string(), &number_bucket("ml", 1000));
    assert_eq!(
        list.get("salt")
            .unwrap()
            .get(&key("g", QuantityType::Number))
            .unwrap(),
        Value::Number { value: 8000 }
    );
    assert_eq!(
        list.get("oil")
            .unwrap()
            .get(&key("ml", QuantityType::Number))
            .unwrap(),
        Value::Number { value: 1000 }
    );
    assert!(list.get("Salt").is_none());
}

#[test]
fn merge_order_does_not_change_number_totals() {
    let mut ab = number_bucket("g", 1000);
    merge_grouped_quantities(&mut ab, &number_bucket("g", 2000));
    let mut ba = number_bucket("g", 2000);
    merge_grouped_quantities(&mut ba, &number_bucket("g", 1000));
    assert_eq!(
        ab.get(&key("g", QuantityType::Number)).unwrap(),
        ba.get(&key("g", QuantityType::Number)).unwrap()
    );
}
