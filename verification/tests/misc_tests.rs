//! Tests of the smaller building blocks: formatting options, syntax-tree
//! nodes and the standard selectors and limiters.

use character_sheet::cast::{
    CASTNode, CASTNodeFmtType, NodeReferenceI32, NodeReferenceString, WhitespaceOptions,
};
use character_sheet::character_sheet::{default_limiter, default_selector, Limiter, Selector};
use character_sheet::character_sheet_collection::StaticValueType;
use character_sheet::cst::{CSTFeature, CSTModifier, CSTModifierValue, CSTModel};
use character_sheet::definitions::ArithmeticMutation;
use character_sheet::serializer::{self, SerializeNode};
use character_sheet::text::u32_to_string;

#[test]
fn cast_whitespace_options_start_neutral() {
    let spaced = WhitespaceOptions::new_spaces(2, 1);
    assert_eq!(spaced.spaces, 2);
    assert_eq!(spaced.newlines, 1);
    assert_eq!(spaced.indent_incr, 0);
    let none = WhitespaceOptions::new_no_ws();
    assert_eq!(none.spaces, 0);
    assert_eq!(none.newlines, 0);
}

#[test]
fn node_references_read_their_nodes() {
    let text_node = CASTNode {
        start_offset: 3,
        end_offset: 8,
        fmt_type: CASTNodeFmtType::Text("Hello".to_string()),
    };
    let text_ref = NodeReferenceString::new(text_node);
    assert_eq!(text_ref.get(), "Hello".to_string());

    let number_node = CASTNode {
        start_offset: 0,
        end_offset: 3,
        fmt_type: CASTNodeFmtType::Text("-42".to_string()),
    };
    let number_ref = NodeReferenceI32::new(number_node);
    assert_eq!(number_ref.get(), -42);
}

#[test]
fn serializer_whitespace_constructors_render_as_named() {
    let ws_space = serializer::WhitespaceOptions::new_space();
    assert_eq!(ws_space.spaces, 1);
    assert_eq!(ws_space.newline, 0);
    let ws_newline = serializer::WhitespaceOptions::new_newline().with_indent_incr(1);
    assert_eq!(ws_newline.newline, 1);
    assert_eq!(ws_newline.indent_incr, 1);
    let no_space = serializer::WhitespaceOptions::new_no_space();
    assert_eq!(no_space.spaces, 0);
    match SerializeNode::new_text("abc") {
        SerializeNode::Text(t) => assert_eq!(t, "abc".to_string()),
        other => panic!("expected a text node, got {:?}", other),
    }
    match SerializeNode::new_newline() {
        SerializeNode::Whitespace(w) => assert_eq!(w.newline_min, 1),
        other => panic!("expected a whitespace node, got {:?}", other),
    }
}

#[test]
fn cst_nodes_report_their_offsets() {
    let value = CSTModifierValue::Bonus { offset: 10, end_offset: 12, value: 2 };
    assert_eq!(value.get_offset(), 10);
    let modifier = CSTModifier {
        offset: 8,
        end_offset: 13,
        reference: "Strength".to_string(),
        value,
    };
    assert_eq!(modifier.get_offset(), 8);
    assert_eq!(modifier.get_end_offset(), 13);
    let feature = CSTFeature {
        offset: 0,
        end_offset: 13,
        name: "Race".to_string(),
        description: "".to_string(),
        modifiers: vec![modifier],
    };
    assert_eq!(feature.get_offset(), 0);
    let model = CSTModel { offset: 0, end_offset: 13, features: vec![feature] };
    assert_eq!(model.get_end_offset(), 13);
}

#[test]
fn standard_selector_and_limiter_behave_as_named() {
    let selector = default_selector();
    let picked = selector.select(vec![
        StaticValueType::Number(7),
        StaticValueType::Number(9),
    ]);
    assert_eq!(picked, StaticValueType::Number(7));
    assert_eq!(selector.string_representation(), "FirstSelector".to_string());

    let limiter = default_limiter();
    let mut value = StaticValueType::Number(5);
    limiter.apply_limits(&mut value);
    assert_eq!(value, StaticValueType::Number(5));
    assert_eq!(limiter.string_representation(), "NoLimiter".to_string());
}

#[test]
fn arithmetic_mutations_are_plain_tags() {
    assert_eq!(ArithmeticMutation::Addition, ArithmeticMutation::Addition);
    assert_ne!(ArithmeticMutation::Addition, ArithmeticMutation::Division);
}

#[test]
fn u32_to_string_renders_decimal() {
    assert_eq!(u32_to_string(0), "0".to_string());
    assert_eq!(u32_to_string(4294967295), "4294967295".to_string());
}
