use bc_envelope_pattern::{
    convert_dcbor_pattern_to_envelope_pattern, CBORPattern, DCBORMetaPattern, DCBORPattern,
    DCBORStructurePattern, DCBORValuePattern, KnownValuePattern, LeafPattern, MapPattern,
    MetaPattern, Pattern, TextPattern,
};
use dcbor_pattern as dp;

fn bool_value(b: bool) -> DCBORPattern {
    DCBORPattern::Value(DCBORValuePattern::Bool(dp::Pattern::bool(b).to_string()))
}

fn number_value(n: i32) -> DCBORPattern {
    DCBORPattern::Value(DCBORValuePattern::Number(dp::Pattern::number(n).to_string()))
}

#[test]
fn test_convert_bool_pattern() {
    let envelope_pattern = convert_dcbor_pattern_to_envelope_pattern(bool_value(true)).unwrap();
    match envelope_pattern {
        Pattern::Leaf(LeafPattern::Bool(_)) => {}
        _ => panic!("Expected boolean leaf pattern"),
    }
}

#[test]
fn test_convert_number_pattern() {
    let envelope_pattern = convert_dcbor_pattern_to_envelope_pattern(number_value(42)).unwrap();
    match envelope_pattern {
        Pattern::Leaf(LeafPattern::Number(_)) => {}
        _ => panic!("Expected number leaf pattern"),
    }
}

#[test]
fn test_convert_text_pattern() {
    let dcbor_text = DCBORPattern::Value(DCBORValuePattern::Text(TextPattern::value("hello")));
    let envelope_pattern = convert_dcbor_pattern_to_envelope_pattern(dcbor_text).unwrap();
    match envelope_pattern {
        Pattern::Leaf(LeafPattern::Text(_)) => {}
        _ => panic!("Expected text leaf pattern"),
    }
}

#[test]
fn test_convert_any_pattern() {
    let dcbor_any = DCBORPattern::Meta(DCBORMetaPattern::Any);
    let envelope_pattern = convert_dcbor_pattern_to_envelope_pattern(dcbor_any).unwrap();
    match envelope_pattern {
        Pattern::Meta(MetaPattern::Any(_)) => {}
        _ => panic!("Expected any meta pattern"),
    }
}

#[test]
fn test_convert_or_pattern() {
    let dcbor_or = DCBORPattern::Meta(DCBORMetaPattern::Or(vec![bool_value(true), number_value(42)]));
    let envelope_pattern = convert_dcbor_pattern_to_envelope_pattern(dcbor_or).unwrap();
    match envelope_pattern {
        Pattern::Meta(MetaPattern::Or(_)) => {}
        _ => panic!("Expected or meta pattern"),
    }
}

#[test]
fn test_convert_and_pattern() {
    let any_bool = DCBORPattern::Value(DCBORValuePattern::Bool(dp::Pattern::any_bool().to_string()));
    let any_number =
        DCBORPattern::Value(DCBORValuePattern::Number(dp::Pattern::any_number().to_string()));
    let dcbor_and = DCBORPattern::Meta(DCBORMetaPattern::And(vec![any_bool, any_number]));
    let envelope_pattern = convert_dcbor_pattern_to_envelope_pattern(dcbor_and).unwrap();
    match envelope_pattern {
        Pattern::Meta(MetaPattern::And(_)) => {}
        _ => panic!("Expected and meta pattern"),
    }
}

#[test]
fn test_convert_not_pattern() {
    let dcbor_not = DCBORPattern::Meta(DCBORMetaPattern::Not(Box::new(bool_value(false))));
    let envelope_pattern = convert_dcbor_pattern_to_envelope_pattern(dcbor_not).unwrap();
    match envelope_pattern {
        Pattern::Meta(MetaPattern::Not(_)) => {}
        _ => panic!("Expected not meta pattern"),
    }
}

#[test]
fn test_convert_capture_pattern() {
    let capture = dp::Pattern::capture("test", dp::Pattern::bool(true)).to_string();
    let dcbor_capture = DCBORPattern::Meta(DCBORMetaPattern::Capture(capture));
    let envelope_pattern = convert_dcbor_pattern_to_envelope_pattern(dcbor_capture).unwrap();
    match envelope_pattern {
        Pattern::Leaf(LeafPattern::Cbor(_)) => {}
        _ => panic!("Expected CBOR leaf pattern as fallback"),
    }
}

#[test]
fn conversion_keeps_expression_text() {
    let text = dp::Pattern::number(42).to_string();
    let converted = convert_dcbor_pattern_to_envelope_pattern(number_value(42)).unwrap();
    assert_eq!(converted.to_string(), text);

    let capture = dp::Pattern::capture("test", dp::Pattern::bool(true)).to_string();
    let converted = convert_dcbor_pattern_to_envelope_pattern(DCBORPattern::Meta(
        DCBORMetaPattern::Capture(capture.clone()),
    ))
    .unwrap();
    assert_eq!(converted, Pattern::Leaf(LeafPattern::Cbor(CBORPattern::Pattern(capture))));
}

#[test]
fn conversion_of_structure_and_known_values() {
    let map = DCBORPattern::Structure(DCBORStructurePattern::MapValue("map".to_string()));
    let converted = convert_dcbor_pattern_to_envelope_pattern(map).unwrap();
    assert_eq!(
        converted,
        Pattern::Leaf(LeafPattern::MapValue(MapPattern::from_dcbor_pattern("map")))
    );

    let known = DCBORPattern::Value(DCBORValuePattern::KnownValue(KnownValuePattern::named("date")));
    let converted = convert_dcbor_pattern_to_envelope_pattern(known).unwrap();
    assert_eq!(converted, Pattern::Leaf(LeafPattern::KnownValue(KnownValuePattern::named("date"))));
}

#[test]
fn conversion_descends_into_combinators() {
    let nested = DCBORPattern::Meta(DCBORMetaPattern::Not(Box::new(DCBORPattern::Meta(
        DCBORMetaPattern::Or(vec![bool_value(true), DCBORPattern::Meta(DCBORMetaPattern::Any)]),
    ))));
    let converted = convert_dcbor_pattern_to_envelope_pattern(nested).unwrap();
    match converted {
        Pattern::Meta(MetaPattern::Not(inner)) => match inner.pattern() {
            Pattern::Meta(MetaPattern::Or(or)) => {
                let parts = or.patterns();
                assert_eq!(parts.len(), 2);
                assert!(matches!(parts[0], Pattern::Leaf(LeafPattern::Bool(_))));
                assert!(matches!(parts[1], Pattern::Meta(MetaPattern::Any(_))));
            }
            _ => panic!("Expected or meta pattern inside not"),
        },
        _ => panic!("Expected not meta pattern"),
    }
}
