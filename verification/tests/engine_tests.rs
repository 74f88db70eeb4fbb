//! Tests of the resolver and the required-input analyzer.

use character_sheet::character_sheet_collection::{
    CSCollection, CalculatedValue, Feature, FeatureModifier, FeatureSet, Script, StaticValueType,
};
use character_sheet::engine::{
    CharacterSheet, MissingDependency, ResultValue, ValueCalculationError,
};

fn add_active_featureset(collection: &mut CSCollection, sheet: &mut CharacterSheet, fs: FeatureSet) {
    collection.items.push(fs.clone());
    sheet.active_features.push(fs);
}

fn script_modifier(property: &str, script: &str, deps: &[&str]) -> FeatureModifier {
    FeatureModifier {
        property: property.to_string(),
        value: CalculatedValue::Script(Script {
            script: script.to_string(),
            dependencies: deps.iter().map(|d| d.to_string()).collect(),
        }),
    }
}

fn static_modifier(property: &str, value: i32) -> FeatureModifier {
    FeatureModifier {
        property: property.to_string(),
        value: CalculatedValue::StaticValue(StaticValueType::Number(value)),
    }
}

fn sheet_of_modifiers(modifiers: Vec<FeatureModifier>) -> CharacterSheet {
    let mut sheet = CharacterSheet::new();
    sheet.active_features.push(FeatureSet {
        name: "base".to_string(),
        description: "The base rules".to_string(),
        features: vec![Feature {
            name: "Attributes".to_string(),
            description: "Your character has basic attributes.".to_string(),
            base_type: "base_rules".to_string(),
            modifiers,
        }],
    });
    sheet
}

#[test]
fn complex_test() {
    let mut collection = CSCollection::new();
    let mut sheet = CharacterSheet::new();

    add_active_featureset(
        &mut collection,
        &mut sheet,
        FeatureSet {
            name: "base".to_string(),
            description: "The base rules".to_string(),
            features: vec![Feature {
                name: "Attributes".to_string(),
                description: "Your character has basic attributes.".to_string(),
                base_type: "base_rules".to_string(),
                modifiers: vec![FeatureModifier {
                    property: "MeleeAttack".to_string(),
                    value: CalculatedValue::Script(Script {
                        script: "11".to_string(),
                        dependencies: vec!["Strength".to_string()],
                    }),
                }],
            }],
        },
    );

    let expected_error: ResultValue =
        Err(ValueCalculationError::MissingDependency(MissingDependency {
            missing_dependency: "Strength".to_string(),
            found_in_feature_set: "base".to_string(),
            found_in_feature: "Attributes".to_string(),
            found_in_property: "MeleeAttack".to_string(),
        }));
    let values = sheet.calculate_all_values().unwrap();
    assert_eq!(values.len(), 1, "Missing dependency");
    assert_eq!(values.get("MeleeAttack"), Some(&expected_error), "Missing dependency");

    let required = sheet.find_minimum_required_user_values();
    assert_eq!(required.len(), 1, "The missing dependency is required as user value.");
    assert!(
        required.contains("Strength"),
        "The missing dependency is required as user value."
    );

    sheet
        .user_values
        .insert("Strength".to_string(), StaticValueType::Number(10));

    let required = sheet.find_minimum_required_user_values();
    assert_eq!(
        required.len(),
        1,
        "The expected user values stay the same, even if one is provided."
    );
    assert!(
        required.contains("Strength"),
        "The expected user values stay the same, even if one is provided."
    );

    let values = sheet.calculate_all_values().unwrap();
    assert_eq!(values.len(), 2, "Once Strength is provided as user value, it can be evaluated.");
    assert_eq!(
        values.get("MeleeAttack"),
        Some(&Ok(StaticValueType::Number(11))),
        "Once Strength is provided as user value, it can be evaluated."
    );
    assert_eq!(
        values.get("Strength"),
        Some(&Ok(StaticValueType::Number(10))),
        "Once Strength is provided as user value, it can be evaluated."
    );
}

#[test]
fn repeated_calls_return_identical_maps() {
    let mut sheet = sheet_of_modifiers(vec![
        static_modifier("Armor", 14),
        script_modifier("MeleeAttack", "11", &["Strength"]),
    ]);
    sheet
        .user_values
        .insert("Strength".to_string(), StaticValueType::Number(10));
    let first = sheet.calculate_all_values().unwrap();
    let second = sheet.calculate_all_values().unwrap();
    assert_eq!(first, second);
}

#[test]
fn result_holds_every_indexed_and_user_property_once() {
    let mut sheet = sheet_of_modifiers(vec![
        static_modifier("Armor", 14),
        static_modifier("Speed", 30),
    ]);
    sheet
        .user_values
        .insert("Luck".to_string(), StaticValueType::Number(3));
    let values = sheet.calculate_all_values().unwrap();
    assert_eq!(values.len(), 3);
    assert!(values.get("Armor").is_some());
    assert!(values.get("Speed").is_some());
    assert!(values.get("Luck").is_some());
    assert!(values.get("Unrelated").is_none());
}

#[test]
fn user_value_wins_over_modifier() {
    let mut sheet = sheet_of_modifiers(vec![static_modifier("Armor", 14)]);
    sheet
        .user_values
        .insert("Armor".to_string(), StaticValueType::Number(20));
    let values = sheet.calculate_all_values().unwrap();
    assert_eq!(values.len(), 1);
    assert_eq!(values.get("Armor"), Some(&Ok(StaticValueType::Number(20))));
}

#[test]
fn constant_modifier_always_succeeds() {
    let sheet = sheet_of_modifiers(vec![static_modifier("Armor", 14)]);
    let values = sheet.calculate_all_values().unwrap();
    assert_eq!(values.get("Armor"), Some(&Ok(StaticValueType::Number(14))));
}

#[test]
fn later_definition_of_a_property_wins() {
    let sheet = sheet_of_modifiers(vec![
        static_modifier("Armor", 14),
        static_modifier("Armor", 16),
    ]);
    let values = sheet.calculate_all_values().unwrap();
    assert_eq!(values.len(), 1);
    assert_eq!(values.get("Armor"), Some(&Ok(StaticValueType::Number(16))));
}

#[test]
fn missing_dependency_propagates_to_transitive_dependents() {
    let sheet = sheet_of_modifiers(vec![
        script_modifier("MeleeAttack", "11", &["Strength"]),
        script_modifier("PowerAttack", "13", &["MeleeAttack"]),
    ]);
    let values = sheet.calculate_all_values().unwrap();
    let expected: ResultValue =
        Err(ValueCalculationError::MissingDependency(MissingDependency {
            missing_dependency: "Strength".to_string(),
            found_in_feature_set: "base".to_string(),
            found_in_feature: "Attributes".to_string(),
            found_in_property: "MeleeAttack".to_string(),
        }));
    assert_eq!(values.get("MeleeAttack"), Some(&expected));
    // the transitive dependent names the original missing property, not
    // itself
    assert_eq!(values.get("PowerAttack"), Some(&expected));
}

fn cycle_path(value: &ResultValue) -> Vec<String> {
    match value {
        Err(ValueCalculationError::Cycle(nodes)) => {
            nodes.iter().map(|n| n.property.clone()).collect()
        }
        other => panic!("expected a cycle error, got {:?}", other),
    }
}

#[test]
fn two_node_cycle_is_reported_for_both_members() {
    let sheet = sheet_of_modifiers(vec![
        script_modifier("A", "1", &["B"]),
        script_modifier("B", "2", &["A"]),
    ]);
    let values = sheet.calculate_all_values().unwrap();
    assert_eq!(values.len(), 2);
    assert_eq!(cycle_path(values.get("A").unwrap()), vec!["A".to_string(), "B".to_string()]);
    assert_eq!(cycle_path(values.get("B").unwrap()), vec!["B".to_string(), "A".to_string()]);
    match values.get("A").unwrap() {
        Err(ValueCalculationError::Cycle(nodes)) => {
            assert_eq!(nodes[0].feature_set, "base".to_string());
            assert_eq!(nodes[0].feature, "Attributes".to_string());
        }
        _ => unreachable!(),
    }
}

#[test]
fn three_node_cycle_is_reported_with_full_paths() {
    let sheet = sheet_of_modifiers(vec![
        script_modifier("A", "1", &["B"]),
        script_modifier("B", "2", &["C"]),
        script_modifier("C", "3", &["A"]),
    ]);
    let values = sheet.calculate_all_values().unwrap();
    assert_eq!(values.len(), 3);
    assert_eq!(
        cycle_path(values.get("A").unwrap()),
        vec!["A".to_string(), "B".to_string(), "C".to_string()]
    );
    assert_eq!(
        cycle_path(values.get("B").unwrap()),
        vec!["B".to_string(), "C".to_string(), "A".to_string()]
    );
    assert_eq!(
        cycle_path(values.get("C").unwrap()),
        vec!["C".to_string(), "A".to_string(), "B".to_string()]
    );
}

#[test]
fn four_node_cycle_is_reported_with_full_paths() {
    let sheet = sheet_of_modifiers(vec![
        script_modifier("A", "1", &["B"]),
        script_modifier("B", "2", &["C"]),
        script_modifier("C", "3", &["D"]),
        script_modifier("D", "4", &["A"]),
    ]);
    let values = sheet.calculate_all_values().unwrap();
    assert_eq!(values.len(), 4);
    assert_eq!(
        cycle_path(values.get("A").unwrap()),
        vec!["A".to_string(), "B".to_string(), "C".to_string(), "D".to_string()]
    );
    assert_eq!(
        cycle_path(values.get("C").unwrap()),
        vec!["C".to_string(), "D".to_string(), "A".to_string(), "B".to_string()]
    );
}

#[test]
fn dependent_of_a_cycle_inherits_the_cycle_error() {
    let sheet = sheet_of_modifiers(vec![
        script_modifier("A", "1", &["B"]),
        script_modifier("B", "2", &["A"]),
        script_modifier("C", "3", &["A"]),
    ]);
    let values = sheet.calculate_all_values().unwrap();
    assert_eq!(values.len(), 3);
    assert_eq!(cycle_path(values.get("C").unwrap()), vec!["A".to_string(), "B".to_string()]);
}

#[test]
fn script_that_is_no_integer_literal_fails() {
    let mut sheet = sheet_of_modifiers(vec![script_modifier(
        "MeleeAttack",
        "1 + Strength",
        &["Strength"],
    )]);
    sheet
        .user_values
        .insert("Strength".to_string(), StaticValueType::Number(10));
    let values = sheet.calculate_all_values().unwrap();
    assert_eq!(
        values.get("MeleeAttack"),
        Some(&Err(ValueCalculationError::ScriptError(
            "script is not an integer literal".to_string()
        )))
    );
}

#[test]
fn script_with_satisfied_dependencies_evaluates_its_literal() {
    let mut sheet = sheet_of_modifiers(vec![
        static_modifier("Strength", 10),
        script_modifier("MeleeAttack", "-7", &["Strength"]),
    ]);
    sheet
        .user_values
        .insert("Luck".to_string(), StaticValueType::Number(1));
    let values = sheet.calculate_all_values().unwrap();
    assert_eq!(values.get("MeleeAttack"), Some(&Ok(StaticValueType::Number(-7))));
    assert_eq!(values.get("Strength"), Some(&Ok(StaticValueType::Number(10))));
}

#[test]
fn analyzer_ignores_user_values_and_returns_deps_minus_targets() {
    let mut sheet = sheet_of_modifiers(vec![
        static_modifier("Strength", 10),
        script_modifier("MeleeAttack", "11", &["Strength", "Weapon"]),
        script_modifier("PowerAttack", "13", &["MeleeAttack", "Feat"]),
    ]);
    let before = sheet.find_minimum_required_user_values();
    assert_eq!(before.len(), 2);
    assert!(before.contains("Weapon"));
    assert!(before.contains("Feat"));
    assert!(!before.contains("Strength"));
    assert!(!before.contains("MeleeAttack"));

    // inserting an unrelated user value changes nothing
    sheet
        .user_values
        .insert("Weapon".to_string(), StaticValueType::Number(1));
    let after = sheet.find_minimum_required_user_values();
    assert_eq!(before, after);
}

#[test]
fn empty_sheet_calculates_to_an_empty_map() {
    let sheet = CharacterSheet::new();
    let values = sheet.calculate_all_values().unwrap();
    assert_eq!(values.len(), 0);
    let required = sheet.find_minimum_required_user_values();
    assert_eq!(required.len(), 0);
}

#[test]
fn inactive_features_do_not_participate() {
    let mut sheet = CharacterSheet::new();
    sheet.inactive_features.push(FeatureSet {
        name: "stored".to_string(),
        description: "An unequipped item".to_string(),
        features: vec![Feature {
            name: "Shield".to_string(),
            description: "A sturdy shield.".to_string(),
            base_type: "item".to_string(),
            modifiers: vec![static_modifier("Armor", 2)],
        }],
    });
    let values = sheet.calculate_all_values().unwrap();
    assert_eq!(values.len(), 0);
}
