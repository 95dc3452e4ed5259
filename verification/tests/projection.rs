//! Tests of the recipe projector, the metadata map, and the aisle
//! configuration.

use cooklang_shopping::aisle::{build_aisle_conf, into_category, RawAisleCategory};
use cooklang_shopping::metadata::CooklangMetadata;
use cooklang_shopping::model::{Amount, GroupedQuantityKey, QuantityType, Value};
use cooklang_shopping::recipe::{
    extract_quantity, into_item, into_simple_recipe, Item, RawContent, RawCookware, RawIngredient,
    RawItem, RawQuantity, RawRecipe, RawSection, RawTimer, ScalableValue,
};

fn key(name: &str, unit_type: QuantityType) -> GroupedQuantityKey {
    GroupedQuantityKey {
        name: name.to_string(),
        unit_type,
    }
}

fn fixed_number(thousandths: u64) -> ScalableValue {
    ScalableValue::Fixed {
        value: Value::Number {
            value: thousandths,
        },
    }
}

fn empty_recipe_around(
    items: Vec<RawItem>,
    ingredients: Vec<RawIngredient>,
) -> RawRecipe {
    RawRecipe {
        sections: vec![RawSection {
            content: vec![RawContent::Step { items }],
        }],
        ingredients,
        cookware: vec![],
        timers: vec![],
        metadata: vec![],
    }
}

#[test]
fn projector_resolves_step_items() {
    let recipe = empty_recipe_around(
        vec![
            RawItem::Text {
                value: "a test ".to_string(),
            },
            RawItem::IngredientRef { index: 0 },
            RawItem::Text {
                value: " ".to_string(),
            },
            RawItem::IngredientRef { index: 1 },
            RawItem::Text {
                value: " more text".to_string(),
            },
        ],
        vec![
            RawIngredient {
                name: "step".to_string(),
                quantity: None,
            },
            RawIngredient {
                name: "salt".to_string(),
                quantity: Some(RawQuantity {
                    value: fixed_number(1000),
                    unit: Some("mg".to_string()),
                }),
            },
        ],
    );
    let converted = into_simple_recipe(&recipe);
    assert_eq!(converted.steps.len(), 1);
    assert_eq!(
        converted.steps[0].items,
        vec![
            Item::Text {
                value: "a test ".to_string()
            },
            Item::Ingredient {
                name: "step".to_string(),
                amount: None
            },
            Item::Text {
                value: " ".to_string()
            },
            Item::Ingredient {
                name: "salt".to_string(),
                amount: Some(Amount {
                    quantity: Value::Number { value: 1000 },
                    units: Some("mg".to_string())
                })
            },
            Item::Text {
                value: " more text".to_string()
            }
        ]
    );
    assert_eq!(
        converted
            .ingredients
            .get("salt")
            .unwrap()
            .get(&key("mg", QuantityType::Number))
            .unwrap(),
        Value::Number { value: 1000 }
    );
}

#[test]
fn ingredient_without_amount_yields_empty_bucket() {
    let recipe = empty_recipe_around(
        vec![RawItem::IngredientRef { index: 0 }],
        vec![RawIngredient {
            name: "bay leaves".to_string(),
            quantity: None,
        }],
    );
    let converted = into_simple_recipe(&recipe);
    let leaves = converted.ingredients.get("bay leaves").unwrap();
    assert_eq!(
        leaves.get(&key("", QuantityType::Empty)).unwrap(),
        Value::Empty
    );
    assert!(leaves.get(&key("", QuantityType::Number)).is_none());
}

#[test]
fn repeated_occurrences_accumulate_in_one_list() {
    let recipe = empty_recipe_around(
        vec![
            RawItem::IngredientRef { index: 0 },
            RawItem::IngredientRef { index: 1 },
        ],
        vec![
            RawIngredient {
                name: "salt".to_string(),
                quantity: Some(RawQuantity {
                    value: fixed_number(2000),
                    unit: Some("g".to_string()),
                }),
            },
            RawIngredient {
                name: "salt".to_string(),
                quantity: Some(RawQuantity {
                    value: fixed_number(3000),
                    unit: Some("g".to_string()),
                }),
            },
        ],
    );
    let converted = into_simple_recipe(&recipe);
    assert_eq!(
        converted
            .ingredients
            .get("salt")
            .unwrap()
            .get(&key("g", QuantityType::Number))
            .unwrap(),
        Value::Number { value: 5000 }
    );
}

#[test]
fn projector_collects_cookware_and_metadata() {
    let mut recipe = empty_recipe_around(
        vec![
            RawItem::CookwareRef { index: 0 },
            RawItem::InlineQuantity { index: 0 },
        ],
        vec![],
    );
    recipe.cookware = vec![RawCookware {
        name: "pan".to_string(),
        quantity: Some(fixed_number(1000)),
    }];
    recipe.metadata = vec![(
        "source".to_string(),
        "https://google.com".to_string(),
    )];
    let converted = into_simple_recipe(&recipe);
    assert_eq!(converted.cookware.len(), 1);
    assert_eq!(
        converted.cookware[0],
        Item::Cookware {
            name: "pan".to_string(),
            amount: Some(Amount {
                quantity: Value::Number { value: 1000 },
                units: None
            })
        }
    );
    assert_eq!(
        converted.metadata.get("source").unwrap(),
        "https://google.com".to_string()
    );
    assert!(converted.metadata.get("author").is_none());
    assert_eq!(
        converted.steps[0].items[1],
        Item::Text {
            value: "".to_string()
        }
    );
}

#[test]
fn timer_reference_resolves_name_and_amount() {
    let mut recipe = empty_recipe_around(vec![RawItem::TimerRef { index: 0 }], vec![]);
    recipe.timers = vec![RawTimer {
        name: Some("soak".to_string()),
        quantity: Some(RawQuantity {
            value: fixed_number(10000),
            unit: Some("minutes".to_string()),
        }),
    }];
    let item = into_item(&RawItem::TimerRef { index: 0 }, &recipe);
    assert_eq!(
        item,
        Item::Timer {
            name: Some("soak".to_string()),
            amount: Some(Amount {
                quantity: Value::Number { value: 10000 },
                units: Some("minutes".to_string())
            })
        }
    );
}

#[test]
fn by_servings_resolves_to_first_entry() {
    let sv = ScalableValue::ByServings {
        values: vec![
            Value::Number { value: 2000 },
            Value::Number { value: 4000 },
            Value::Number { value: 6000 },
        ],
    };
    assert_eq!(extract_quantity(&sv), Value::Number { value: 2000 });
    assert_eq!(
        extract_quantity(&ScalableValue::Linear {
            value: Value::Text {
                value: "half".to_string()
            }
        }),
        Value::Text {
            value: "half".to_string()
        }
    );
}

#[test]
fn metadata_insert_replaces_value() {
    let mut metadata = CooklangMetadata::new();
    metadata.insert("servings".to_string(), "2".to_string());
    metadata.insert("servings".to_string(), "4".to_string());
    assert_eq!(metadata.get("servings").unwrap(), "4".to_string());
}

#[test]
fn into_category_splits_name_and_aliases() {
    let raw = RawAisleCategory {
        name: "fruit and veg".to_string(),
        ingredients: vec![
            vec!["apple gala".to_string(), "apples".to_string()],
            vec!["aubergine".to_string()],
        ],
    };
    let category = into_category(&raw);
    assert_eq!(category.name, "fruit and veg".to_string());
    assert_eq!(category.ingredients.len(), 2);
    assert_eq!(category.ingredients[0].name, "apple gala".to_string());
    assert_eq!(category.ingredients[0].aliases, vec!["apples".to_string()]);
    assert_eq!(category.ingredients[1].name, "aubergine".to_string());
    assert!(category.ingredients[1].aliases.is_empty());
}

#[test]
fn test_parse_aisle_config() {
    let config = build_aisle_conf(vec![
        RawAisleCategory {
            name: "fruit and veg".to_string(),
            ingredients: vec![
                vec!["apple gala".to_string(), "apples".to_string()],
                vec!["aubergine".to_string()],
                vec!["avocado".to_string(), "avocados".to_string()],
            ],
        },
        RawAisleCategory {
            name: "milk and dairy".to_string(),
            ingredients: vec![
                vec!["butter".to_string()],
                vec!["egg".to_string(), "eggs".to_string()],
                vec!["curd cheese".to_string()],
                vec!["cheddar cheese".to_string()],
                vec!["feta".to_string()],
            ],
        },
        RawAisleCategory {
            name: "dried herbs and spices".to_string(),
            ingredients: vec![
                vec!["bay leaves".to_string()],
                vec!["black pepper".to_string()],
                vec!["cayenne pepper".to_string()],
                vec!["dried oregano".to_string()],
            ],
        },
    ]);

    assert_eq!(
        config.category_for("bay leaves".to_string()),
        Some("dried herbs and spices".to_string())
    );
    assert_eq!(
        config.category_for("eggs".to_string()),
        Some("milk and dairy".to_string())
    );
    assert_eq!(config.category_for("some weird ingredient".to_string()), None);
}
