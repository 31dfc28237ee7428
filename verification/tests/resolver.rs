use dob_svg::Error;
use dob_svg::ParsedTrait;
use dob_svg::Pattern;
use dob_svg::Resolution;
use dob_svg::SVGTraitType;
use dob_svg::StandardDOBOutput;
use dob_svg::StructValue;
use dob_svg::TraitSchema;
use dob_svg::get_dob0_value_by_name;
use dob_svg::get_dob1_value_by_dob0_value;
use dob_svg::resolve_trait;

fn text(s: &str) -> StructValue {
    StructValue::Text(s.to_string())
}

fn entry(name: &str, traits: Vec<ParsedTrait>) -> StandardDOBOutput {
    StandardDOBOutput {
        name: name.to_string(),
        traits,
    }
}

#[test]
fn test_lookup_by_name() {
    let outputs = vec![
        entry("A", vec![ParsedTrait::Number(1)]),
        entry("B", vec![]),
        entry("B", vec![ParsedTrait::Text("b".to_string())]),
    ];
    assert_eq!(
        get_dob0_value_by_name(&"A".to_string(), &outputs),
        Some(ParsedTrait::Number(1))
    );
    assert_eq!(
        get_dob0_value_by_name(&"B".to_string(), &outputs),
        Some(ParsedTrait::Text("b".to_string()))
    );
    assert_eq!(get_dob0_value_by_name(&"C".to_string(), &outputs), None);
    assert_eq!(get_dob0_value_by_name(&"a".to_string(), &outputs), None);
}

#[test]
fn test_matcher_wildcard_matches_any_variant() {
    let args = StructValue::List(vec![StructValue::List(vec![
        StructValue::List(vec![text("*")]),
        text("anything"),
    ])]);
    for value in [
        ParsedTrait::Number(0),
        ParsedTrait::Text("x".to_string()),
        ParsedTrait::Svg("<svg></svg>".to_string()),
    ] {
        let r = get_dob1_value_by_dob0_value(&args, &value).unwrap();
        assert_eq!(r, Some("anything".to_string()));
    }
}

#[test]
fn test_matcher_no_arm_satisfied_is_not_an_error() {
    let args = StructValue::List(vec![StructValue::List(vec![
        StructValue::Number(9),
        text("nine"),
    ])]);
    let r = get_dob1_value_by_dob0_value(&args, &ParsedTrait::Number(3)).unwrap();
    assert_eq!(r, None);
}

#[test]
fn test_resolve_trait_outcomes() {
    let outputs = vec![entry("N", vec![ParsedTrait::Number(3)])];
    let matched = TraitSchema::new(
        "G.0",
        SVGTraitType::Elements,
        "N",
        Pattern::Options,
        StructValue::List(vec![StructValue::List(vec![StructValue::Number(3), text("three")])]),
    );
    match resolve_trait(&matched, &outputs) {
        Ok(Resolution::Resolved(s)) => assert_eq!(s, "three"),
        _ => panic!("expected a resolved string"),
    }

    let unsatisfied = TraitSchema::new(
        "G.0",
        SVGTraitType::Elements,
        "N",
        Pattern::Options,
        StructValue::List(vec![StructValue::List(vec![StructValue::Number(9), text("nine")])]),
    );
    assert!(matches!(
        resolve_trait(&unsatisfied, &outputs),
        Ok(Resolution::Skip)
    ));

    let absent = TraitSchema::new(
        "G.0",
        SVGTraitType::Elements,
        "Absent",
        Pattern::Raw,
        text("{value}"),
    );
    assert!(matches!(
        resolve_trait(&absent, &outputs),
        Ok(Resolution::Abandon)
    ));

    let substituted = TraitSchema::new(
        "G.0",
        SVGTraitType::Elements,
        "T",
        Pattern::Raw,
        text("<p>{value}</p>"),
    );
    let with_text = vec![entry("T", vec![ParsedTrait::Text("hi".to_string())])];
    match resolve_trait(&substituted, &with_text) {
        Ok(Resolution::Resolved(s)) => assert_eq!(s, "<p>hi</p>"),
        _ => panic!("expected a resolved string"),
    }
}

#[test]
fn test_trait_schema_new_fields() {
    let row = TraitSchema::new("G.1", SVGTraitType::Attributes, "S", Pattern::Range, text("a"));
    assert_eq!(row.name, "G.1");
    assert_eq!(row.type_, SVGTraitType::Attributes);
    assert_eq!(row.dob0_trait, "S");
    assert_eq!(row.pattern, Pattern::Range);
    assert_eq!(row.args, text("a"));
}

#[test]
fn test_raw_resolution_against_svg_value_is_an_error() {
    let outputs = vec![entry("V", vec![ParsedTrait::Svg("<svg></svg>".to_string())])];
    let row = TraitSchema::new("G.0", SVGTraitType::Elements, "V", Pattern::Raw, text("{value}"));
    assert!(matches!(
        resolve_trait(&row, &outputs),
        Err(Error::DecodeInvalidRawValue)
    ));
}
