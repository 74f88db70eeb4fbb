//! Tests of the dice-value arithmetic, the calculator functions, and the
//! small text helpers.

use character_sheet::character_sheet::{CalculatedValue, CalculatorError};
use character_sheet::character_sheet_collection::{
    Dice, DiceModifier, DiceSelector, DiceValue, StaticValueType,
};
use character_sheet::functions::{add, divide, multiply, substract};
use character_sheet::string_map::{StringMap, StringSet};
use character_sheet::text::{i32_to_string, parse_i32};

fn d(amount: u32, sides: u32, modifiers: Vec<DiceModifier>) -> Dice {
    Dice { amount, sides, modifiers }
}

#[test]
fn adding_a_number_raises_the_bonus() {
    let base = DiceValue { dice: vec![d(2, 6, vec![])], bonus: 1 };
    let sum = base.add(&StaticValueType::Number(4));
    assert_eq!(sum.bonus, 5);
    assert_eq!(sum.dice, vec![d(2, 6, vec![])]);
}

#[test]
fn adding_dice_merges_matching_sets_and_appends_the_rest() {
    let base = DiceValue {
        dice: vec![d(2, 6, vec![]), d(1, 8, vec![DiceModifier::Keep(DiceSelector::Highest(1))])],
        bonus: 1,
    };
    let other = DiceValue {
        dice: vec![d(3, 6, vec![]), d(1, 4, vec![])],
        bonus: 2,
    };
    let sum = base.add(&StaticValueType::Dice(other));
    assert_eq!(sum.bonus, 3);
    assert_eq!(
        sum.dice,
        vec![
            d(5, 6, vec![]),
            d(1, 8, vec![DiceModifier::Keep(DiceSelector::Highest(1))]),
            d(1, 4, vec![]),
        ]
    );
}

#[test]
fn dice_with_different_modifiers_do_not_merge() {
    let base = DiceValue { dice: vec![d(2, 6, vec![])], bonus: 0 };
    let other = DiceValue {
        dice: vec![d(1, 6, vec![DiceModifier::Reroll(DiceSelector::LowerThan(2))])],
        bonus: 0,
    };
    let sum = base.add(&StaticValueType::Dice(other));
    assert_eq!(sum.dice.len(), 2);
    assert_eq!(sum.dice[0], d(2, 6, vec![]));
}

#[test]
fn subtracting_a_number_lowers_the_bonus() {
    let base = DiceValue { dice: vec![d(2, 6, vec![])], bonus: 1 };
    let difference = base.minus(&StaticValueType::Number(4));
    assert_eq!(difference.bonus, -3);
    assert_eq!(difference.dice, vec![d(2, 6, vec![])]);
}

#[test]
fn subtracting_dice_drops_sets_that_fall_to_zero_or_below() {
    let base = DiceValue { dice: vec![d(2, 6, vec![]), d(2, 8, vec![])], bonus: 5 };
    let other = DiceValue { dice: vec![d(1, 6, vec![]), d(3, 8, vec![])], bonus: 2 };
    let difference = base.minus(&StaticValueType::Dice(other));
    assert_eq!(difference.bonus, 3);
    // the 6-sided set keeps one die; the 8-sided set falls to zero or
    // below and is dropped
    assert_eq!(difference.dice, vec![d(1, 6, vec![])]);
}

#[test]
fn add_function_sums_numbers_and_dice() {
    let result = add(vec![StaticValueType::Number(1), StaticValueType::Number(2)]);
    assert_eq!(result, Ok(StaticValueType::Number(3)));

    let with_dice = add(vec![
        StaticValueType::Number(2),
        StaticValueType::Dice(DiceValue { dice: vec![d(1, 6, vec![])], bonus: 1 }),
        StaticValueType::Number(4),
    ]);
    assert_eq!(
        with_dice,
        Ok(StaticValueType::Dice(DiceValue { dice: vec![d(1, 6, vec![])], bonus: 7 }))
    );
}

#[test]
fn unimplemented_functions_report_themselves() {
    let expected = "unimplemented function 'add'".to_string();
    for result in [
        substract(Vec::<CalculatedValue>::new()),
        divide(Vec::<CalculatedValue>::new()),
        multiply(Vec::<CalculatedValue>::new()),
    ] {
        match result {
            Err(e) => {
                assert_eq!(e.internal_message, expected);
                assert_eq!(e.public_message, expected);
            }
            Ok(v) => panic!("expected an error, got {:?}", v),
        }
    }
}

#[test]
fn calculator_errors_carry_their_messages() {
    let e = CalculatorError::new("internal".to_string(), "public".to_string());
    assert_eq!(e.internal_message, "internal".to_string());
    assert_eq!(e.public_message, "public".to_string());
    let p = CalculatorError::new_public("both".to_string());
    assert_eq!(p.internal_message, "both".to_string());
    assert_eq!(p.public_message, "both".to_string());
}

#[test]
fn parse_i32_reads_signed_decimal_literals() {
    assert_eq!(parse_i32("11"), Some(11));
    assert_eq!(parse_i32("+11"), Some(11));
    assert_eq!(parse_i32("-11"), Some(-11));
    assert_eq!(parse_i32("0"), Some(0));
    assert_eq!(parse_i32("2147483647"), Some(i32::MAX));
    assert_eq!(parse_i32("-2147483648"), Some(i32::MIN));
    assert_eq!(parse_i32("2147483648"), None);
    assert_eq!(parse_i32(""), None);
    assert_eq!(parse_i32("+"), None);
    assert_eq!(parse_i32("1 + 2"), None);
    assert_eq!(parse_i32("12.5"), None);
}

#[test]
fn i32_to_string_renders_decimal() {
    assert_eq!(i32_to_string(0), "0".to_string());
    assert_eq!(i32_to_string(11), "11".to_string());
    assert_eq!(i32_to_string(-7), "-7".to_string());
    assert_eq!(i32_to_string(i32::MAX), "2147483647".to_string());
    assert_eq!(i32_to_string(i32::MIN), "-2147483648".to_string());
}

#[test]
fn string_map_keeps_the_last_value_per_key() {
    let mut map: StringMap<StaticValueType> = StringMap::new();
    assert_eq!(map.len(), 0);
    map.insert("a".to_string(), StaticValueType::Number(1));
    map.insert("b".to_string(), StaticValueType::Number(2));
    map.insert("a".to_string(), StaticValueType::Number(3));
    assert_eq!(map.len(), 2);
    assert_eq!(map.get("a"), Some(&StaticValueType::Number(3)));
    assert_eq!(map.get("b"), Some(&StaticValueType::Number(2)));
    assert_eq!(map.get("c"), None);
    assert!(map.contains_key("a"));
    assert!(!map.contains_key("c"));
}

#[test]
fn string_set_ignores_duplicates_and_removes() {
    let mut set = StringSet::new();
    set.insert("x".to_string());
    set.insert("y".to_string());
    set.insert("x".to_string());
    assert_eq!(set.len(), 2);
    assert!(set.contains("x"));
    assert!(set.contains("y"));
    set.remove("x");
    assert_eq!(set.len(), 1);
    assert!(!set.contains("x"));
}

#[test]
fn default_values_are_the_number_zero() {
    assert_eq!(StaticValueType::default(), StaticValueType::Number(0));
    assert_eq!(
        character_sheet::character_sheet_collection::CalculatedValue::default(),
        character_sheet::character_sheet_collection::CalculatedValue::StaticValue(
            StaticValueType::Number(0)
        )
    );
}
