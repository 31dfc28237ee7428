use dob_svg::Error;
use dob_svg::Parameters;
use dob_svg::ParsedTrait;
use dob_svg::Pattern;
use dob_svg::SVGTraitType;
use dob_svg::StandardDOBOutput;
use dob_svg::StructValue;
use dob_svg::TraitSchema;
use dob_svg::decode_trait_schema;
use dob_svg::dobs_decode;
use dob_svg::replace_placeholder;
use dob_svg::truncate_at_dot;

fn t(s: &str) -> StructValue {
    StructValue::Text(s.to_string())
}

fn n(v: u64) -> StructValue {
    StructValue::Number(v)
}

fn l(items: Vec<StructValue>) -> StructValue {
    StructValue::List(items)
}

fn one_output(name: &str, value: ParsedTrait) -> Vec<StandardDOBOutput> {
    vec![StandardDOBOutput {
        name: name.to_string(),
        traits: vec![value],
    }]
}

fn one_row(
    source: &str,
    pattern: Pattern,
    args: StructValue,
    outputs: Vec<StandardDOBOutput>,
) -> Result<Vec<StandardDOBOutput>, Error> {
    let row = TraitSchema::new("G.0", SVGTraitType::Elements, source, pattern, args);
    dobs_decode(Parameters {
        dob0_output: outputs,
        svg_traits: vec![row],
    })
}

fn svg_payload(out: &StandardDOBOutput) -> &str {
    assert_eq!(out.traits.len(), 1);
    match &out.traits[0] {
        ParsedTrait::Svg(s) => s,
        _ => panic!("not an svg trait"),
    }
}

#[test]
fn test_options_exact_and_case_sensitive() {
    let args = l(vec![l(vec![t("Ethan"), t("matched")])]);
    let hit = one_row(
        "Name",
        Pattern::Options,
        args.clone(),
        one_output("Name", ParsedTrait::Text("Ethan".to_string())),
    )
    .unwrap();
    assert_eq!(svg_payload(&hit[0]), "<svg>matched</svg>");

    let miss = one_row(
        "Name",
        Pattern::Options,
        args,
        one_output("Name", ParsedTrait::Text("ethan".to_string())),
    )
    .unwrap();
    assert_eq!(svg_payload(&miss[0]), "<svg></svg>");
}

#[test]
fn test_options_first_satisfying_pair_wins() {
    let args = l(vec![
        l(vec![l(vec![t("*")]), t("wild")]),
        l(vec![t("Ethan"), t("exact")]),
    ]);
    let out = one_row(
        "Name",
        Pattern::Options,
        args,
        one_output("Name", ParsedTrait::Text("Ethan".to_string())),
    )
    .unwrap();
    assert_eq!(svg_payload(&out[0]), "<svg>wild</svg>");
}

#[test]
fn test_options_number_key_matches_equal_number() {
    let args = l(vec![
        l(vec![n(7), t("seven")]),
        l(vec![n(8), t("eight")]),
    ]);
    let out = one_row(
        "N",
        Pattern::Options,
        args,
        one_output("N", ParsedTrait::Number(8)),
    )
    .unwrap();
    assert_eq!(svg_payload(&out[0]), "<svg>eight</svg>");
}

#[test]
fn test_range_bounds_inclusive() {
    let args = l(vec![l(vec![l(vec![n(10), n(20)]), t("in")])]);
    for (value, expect) in [(10u64, "<svg>in</svg>"), (20, "<svg>in</svg>"), (15, "<svg>in</svg>"), (9, "<svg></svg>"), (21, "<svg></svg>")] {
        let out = one_row(
            "Age",
            Pattern::Range,
            args.clone(),
            one_output("Age", ParsedTrait::Number(value)),
        )
        .unwrap();
        assert_eq!(svg_payload(&out[0]), expect, "value = {}", value);
    }
}

#[test]
fn test_raw_replaces_every_occurrence() {
    let out = one_row(
        "V",
        Pattern::Raw,
        t("a{value}b{value}c"),
        one_output("V", ParsedTrait::Text("X".to_string())),
    )
    .unwrap();
    assert_eq!(svg_payload(&out[0]), "<svg>aXbXc</svg>");
}

#[test]
fn test_unconditional_raw_is_verbatim() {
    let out = one_row(
        "",
        Pattern::Raw,
        t("kept {value} literally"),
        one_output("V", ParsedTrait::Text("X".to_string())),
    )
    .unwrap();
    assert_eq!(svg_payload(&out[0]), "<svg>kept {value} literally</svg>");
}

#[test]
fn test_replace_placeholder_function() {
    assert_eq!(replace_placeholder("{value}{value}", "ab"), "abab");
    assert_eq!(replace_placeholder("none here", "ab"), "none here");
    assert_eq!(replace_placeholder("{valu e}", "ab"), "{valu e}");
    assert_eq!(replace_placeholder("x{value}", ""), "x");
}

#[test]
fn test_truncate_at_dot_function() {
    assert_eq!(truncate_at_dot("IMAGE.0"), "IMAGE");
    assert_eq!(truncate_at_dot("IMAGE"), "IMAGE");
    assert_eq!(truncate_at_dot(".tail"), "");
    assert_eq!(truncate_at_dot("a.b.c"), "a");
}

#[test]
fn test_missing_named_trait_abandons_group() {
    let rows = vec![
        TraitSchema::new("G.0", SVGTraitType::Attributes, "", Pattern::Raw, t("kept='1'")),
        TraitSchema::new(
            "G.0",
            SVGTraitType::Elements,
            "Absent",
            Pattern::Options,
            l(vec![l(vec![l(vec![t("*")]), t("never")])]),
        ),
        TraitSchema::new("G.0", SVGTraitType::Elements, "", Pattern::Raw, t("dropped")),
    ];
    let out = dobs_decode(Parameters {
        dob0_output: one_output("Other", ParsedTrait::Number(1)),
        svg_traits: rows,
    })
    .unwrap();
    assert_eq!(out.len(), 1);
    assert_eq!(svg_payload(&out[0]), "<svg kept='1'></svg>");
}

#[test]
fn test_unsatisfied_pattern_skips_only_that_entry() {
    let rows = vec![
        TraitSchema::new(
            "G.0",
            SVGTraitType::Elements,
            "N",
            Pattern::Options,
            l(vec![l(vec![n(99), t("never")])]),
        ),
        TraitSchema::new("G.0", SVGTraitType::Elements, "", Pattern::Raw, t("kept")),
    ];
    let out = dobs_decode(Parameters {
        dob0_output: one_output("N", ParsedTrait::Number(1)),
        svg_traits: rows,
    })
    .unwrap();
    assert_eq!(out.len(), 1);
    assert_eq!(svg_payload(&out[0]), "<svg>kept</svg>");
}

#[test]
fn test_abandon_in_first_group_leaves_second_group_alone() {
    let rows = vec![
        TraitSchema::new("A.0", SVGTraitType::Elements, "Absent", Pattern::Raw, t("x")),
        TraitSchema::new("B.0", SVGTraitType::Elements, "", Pattern::Raw, t("kept")),
    ];
    let out = dobs_decode(Parameters {
        dob0_output: vec![],
        svg_traits: rows,
    })
    .unwrap();
    assert_eq!(out.len(), 2);
    assert_eq!(out[0].name, "A");
    assert_eq!(svg_payload(&out[0]), "<svg></svg>");
    assert_eq!(out[1].name, "B");
    assert_eq!(svg_payload(&out[1]), "<svg>kept</svg>");
}

#[test]
fn test_non_adjacent_same_name_rows_stay_separate_groups() {
    let rows = vec![
        TraitSchema::new("A.0", SVGTraitType::Elements, "", Pattern::Raw, t("one")),
        TraitSchema::new("B.0", SVGTraitType::Elements, "", Pattern::Raw, t("two")),
        TraitSchema::new("A.0", SVGTraitType::Elements, "", Pattern::Raw, t("three")),
    ];
    let out = dobs_decode(Parameters {
        dob0_output: vec![],
        svg_traits: rows,
    })
    .unwrap();
    assert_eq!(out.len(), 3);
    assert_eq!(out[0].name, "A");
    assert_eq!(out[1].name, "B");
    assert_eq!(out[2].name, "A");
    assert_eq!(svg_payload(&out[2]), "<svg>three</svg>");
}

#[test]
fn test_lookup_uses_first_match_with_a_value() {
    let outputs = vec![
        StandardDOBOutput {
            name: "N".to_string(),
            traits: vec![],
        },
        StandardDOBOutput {
            name: "N".to_string(),
            traits: vec![ParsedTrait::Number(5), ParsedTrait::Number(6)],
        },
    ];
    let args = l(vec![l(vec![n(5), t("five")]), l(vec![n(6), t("six")])]);
    let row = TraitSchema::new("G.0", SVGTraitType::Elements, "N", Pattern::Options, args);
    let out = dobs_decode(Parameters {
        dob0_output: outputs,
        svg_traits: vec![row],
    })
    .unwrap();
    assert_eq!(svg_payload(&out[0]), "<svg>five</svg>");
}

#[test]
fn test_parsed_trait_accessors() {
    let text = ParsedTrait::Text("abc".to_string());
    let number = ParsedTrait::Number(42);
    assert_eq!(text.get_string().unwrap(), "abc");
    assert!(matches!(
        text.get_number(),
        Err(Error::SchemaInvalidParsedTraitType)
    ));
    assert_eq!(number.get_number().unwrap(), 42);
    assert!(matches!(
        number.get_string(),
        Err(Error::SchemaInvalidParsedTraitType)
    ));
    assert_eq!(
        ParsedTrait::new("Text", t("abc")).unwrap(),
        ParsedTrait::Text("abc".to_string())
    );
    assert_eq!(
        ParsedTrait::new("Number", n(7)).unwrap(),
        ParsedTrait::Number(7)
    );
    assert!(matches!(
        ParsedTrait::new("Bool", StructValue::Opaque),
        Err(Error::SchemaInvalidParsedTraitType)
    ));
}

#[test]
fn test_schema_decode_error_codes() {
    let good = || {
        vec![
            t("G.0"),
            t("elements"),
            t("N"),
            t("options"),
            l(vec![]),
        ]
    };
    assert!(matches!(
        decode_trait_schema(vec![good()[..4].to_vec()]),
        Err(Error::SchemaInsufficientElements)
    ));
    let mut bad = good();
    bad[0] = n(1);
    assert!(matches!(
        decode_trait_schema(vec![bad]),
        Err(Error::SchemaInvalidName)
    ));
    let mut bad = good();
    bad[1] = n(1);
    assert!(matches!(
        decode_trait_schema(vec![bad]),
        Err(Error::SchemaInvalidType)
    ));
    let mut bad = good();
    bad[1] = t("attr");
    assert!(matches!(
        decode_trait_schema(vec![bad]),
        Err(Error::SchemaTypeMismatch)
    ));
    let mut bad = good();
    bad[2] = n(1);
    assert!(matches!(
        decode_trait_schema(vec![bad]),
        Err(Error::SchemaInvalidTraitName)
    ));
    let mut bad = good();
    bad[3] = n(1);
    assert!(matches!(
        decode_trait_schema(vec![bad]),
        Err(Error::SchemaInvalidPattern)
    ));
    let mut bad = good();
    bad[3] = t("optionz");
    assert!(matches!(
        decode_trait_schema(vec![bad]),
        Err(Error::SchemaPatternMismatch)
    ));
    assert!(decode_trait_schema(vec![good()]).is_ok());
}

#[test]
fn test_matcher_error_codes() {
    let value = one_output("N", ParsedTrait::Number(1));
    assert!(matches!(
        one_row("N", Pattern::Options, t("not a list"), value.clone()),
        Err(Error::SchemaInvalidArgs)
    ));
    assert!(matches!(
        one_row("N", Pattern::Options, l(vec![n(1)]), value.clone()),
        Err(Error::SchemaInvalidArgsElement)
    ));
    assert!(matches!(
        one_row("N", Pattern::Options, l(vec![l(vec![n(1)])]), value.clone()),
        Err(Error::SchemaInvalidArgsElement)
    ));
    assert!(matches!(
        one_row(
            "N",
            Pattern::Options,
            l(vec![l(vec![n(1), n(2)])]),
            value.clone()
        ),
        Err(Error::SchemaInvalidArgsElement)
    ));
    assert!(matches!(
        one_row(
            "N",
            Pattern::Options,
            l(vec![l(vec![StructValue::Opaque, t("x")])]),
            value.clone()
        ),
        Err(Error::SchemaInvalidArgsElement)
    ));
    assert!(matches!(
        one_row(
            "N",
            Pattern::Range,
            l(vec![l(vec![l(vec![t("a"), t("b")]), t("x")])]),
            value.clone()
        ),
        Err(Error::SchemaInvalidArgsElement)
    ));
    assert!(matches!(
        one_row(
            "N",
            Pattern::Range,
            l(vec![l(vec![l(vec![n(1)]), t("x")])]),
            value.clone()
        ),
        Err(Error::SchemaInvalidArgsElement)
    ));
    assert!(matches!(
        one_row(
            "N",
            Pattern::Options,
            l(vec![l(vec![t("key"), t("x")])]),
            value.clone()
        ),
        Err(Error::SchemaInvalidParsedTraitType)
    ));
    assert!(matches!(
        one_row(
            "N",
            Pattern::Options,
            l(vec![l(vec![n(1), t("x")])]),
            one_output("N", ParsedTrait::Text("text".to_string()))
        ),
        Err(Error::SchemaInvalidParsedTraitType)
    ));
}

#[test]
fn test_raw_error_codes() {
    assert!(matches!(
        one_row(
            "N",
            Pattern::Raw,
            t("{value}"),
            one_output("N", ParsedTrait::Number(1))
        ),
        Err(Error::DecodeInvalidRawValue)
    ));
    assert!(matches!(
        one_row(
            "N",
            Pattern::Raw,
            n(1),
            one_output("N", ParsedTrait::Text("x".to_string()))
        ),
        Err(Error::DecodeInvalidRawValueTemplate)
    ));
    assert!(matches!(
        one_row("", Pattern::Options, l(vec![]), vec![]),
        Err(Error::DecodeInvalidRawPattern)
    ));
    assert!(matches!(
        one_row("", Pattern::Raw, n(1), vec![]),
        Err(Error::DecodeInvalidRawValueTemplate)
    ));
}
