use drawio_lc::config::{is_title_slide, resolve_from_fields, strip_drawio_ext, validate_config, ConfigError};
use drawio_lc::model::{
    default_delay_between_slides, default_heading_margin_bottom, default_list_item_indent, default_list_item_spacing,
    default_transition_duration_ms, Config, Derived, Transform,
};
use drawio_lc::yaml::{check_document_fields, validate_unknown_fields, YamlKey, YamlValue};

fn step(output: &str, from: Option<&str>, transforms: Vec<Transform>) -> Derived {
    Derived {
        output: output.to_string(),
        from: from.map(|f| f.to_string()),
        transforms,
        bounding_box_tag: None,
        delay: None,
    }
}

fn config(derived: Vec<Derived>) -> Config {
    Config {
        derived,
        delay_between_slides: default_delay_between_slides(),
        heading_margin_bottom: default_heading_margin_bottom(),
        list_item_spacing: default_list_item_spacing(),
        list_item_indent: default_list_item_indent(),
        transition: None,
        transition_duration_ms: default_transition_duration_ms(),
        confluence: None,
    }
}

fn title() -> Vec<Transform> {
    vec![Transform::TitleSlide { text: "# T".to_string() }]
}

#[test]
fn defaults() {
    assert_eq!(default_delay_between_slides(), 1000);
    assert_eq!(default_heading_margin_bottom(), 4);
    assert_eq!(default_list_item_spacing(), 0);
    assert_eq!(default_transition_duration_ms(), 500);
    assert_eq!(default_list_item_indent(), 0);
}

#[test]
fn strip_extension() {
    assert_eq!(strip_drawio_ext("step6.scenario.drawio"), "step6.scenario");
    assert_eq!(strip_drawio_ext("step1.drawio"), "step1");
    assert_eq!(strip_drawio_ext("step1"), "step1");
}

#[test]
fn title_slide_steps() {
    assert!(is_title_slide(&step("t", None, title())));
    assert!(!is_title_slide(&step("t", None, vec![])));
    let mut two = title();
    two.push(Transform::Animation);
    assert!(!is_title_slide(&step("t", None, two)));
}

#[test]
fn missing_sources_follow_the_last_content_step() {
    let mut c = config(vec![
        step("a.drawio", Some("src.drawio"), vec![]),
        step("t.drawio", None, title()),
        step("b.drawio", None, vec![]),
        step("c.drawio", Some("other.drawio"), vec![]),
    ]);
    resolve_from_fields(&mut c);
    assert_eq!(c.derived[1].from.as_deref(), Some("a.drawio"));
    assert_eq!(c.derived[2].from.as_deref(), Some("a.drawio"));
    assert_eq!(c.derived[3].from.as_deref(), Some("other.drawio"));
}

#[test]
fn missing_source_after_only_title_slides_is_the_root() {
    let mut c = config(vec![step("t.drawio", Some("src.drawio"), title()), step("b.drawio", None, vec![])]);
    resolve_from_fields(&mut c);
    assert_eq!(c.derived[1].from.as_deref(), Some("src.drawio"));
}

#[test]
fn config_errors() {
    let empty = config(vec![]);
    let e = validate_config(&empty, &vec![]).unwrap_err();
    assert_eq!(e.message(), "Error: 'derived' list is empty — nothing to do.");

    let no_from = config(vec![step("a", None, vec![])]);
    let e = validate_config(&no_from, &vec![false]).unwrap_err();
    assert!(matches!(e, ConfigError::FirstStepWithoutSource));
    assert_eq!(e.message(), "Error: the first derived step must have an explicit 'from' field.");

    let unknown = config(vec![step("a", Some("src"), vec![]), step("b", Some("zzz"), vec![])]);
    let e = validate_config(&unknown, &vec![false, false]).unwrap_err();
    assert_eq!(
        e.message(),
        "Error in step 2: 'from' field 'zzz' is not the source file, a local file, nor the output of a previous step.\nAvailable sources at this point: [src, a]"
    );
    // An existing file is accepted.
    assert!(validate_config(&unknown, &vec![false, true]).is_ok());

    let mut boxed = step("t", Some("src"), title());
    boxed.bounding_box_tag = Some("x".to_string());
    let e = validate_config(&config(vec![boxed]), &vec![false]).unwrap_err();
    assert_eq!(
        e.message(),
        "Error in step 1 ('t'): 'bounding_box_tag' cannot be used with a TitleSlide transform — TitleSlide generates fresh XML without the original diagram cells."
    );
}

#[test]
fn chained_steps_are_valid() {
    let c = config(vec![step("a", Some("src"), vec![]), step("b", Some("a"), vec![]), step("c", Some("src"), vec![])]);
    assert!(validate_config(&c, &vec![false, false, false]).is_ok());
}

fn key(k: &str) -> YamlKey {
    YamlKey::Str(k.to_string())
}

fn map(entries: Vec<(&str, YamlValue)>) -> YamlValue {
    YamlValue::Mapping(entries.into_iter().map(|(k, v)| (key(k), v)).collect())
}

fn text(t: &str) -> YamlValue {
    YamlValue::Str(t.to_string())
}

#[test]
fn known_fields_pass() {
    let doc = map(vec![
        ("derived", YamlValue::Sequence(vec![map(vec![
            ("output", text("a.drawio")),
            ("transforms", YamlValue::Sequence(vec![map(vec![("type", text("Color")), ("tags", YamlValue::Other)])])),
        ])])),
        ("delay_between_slides", YamlValue::Other),
    ]);
    assert_eq!(check_document_fields(&doc, "c.yaml"), Ok(()));
}

#[test]
fn unknown_top_level_field() {
    let doc = map(vec![("derivd", YamlValue::Other)]);
    assert_eq!(
        check_document_fields(&doc, "c.yaml"),
        Err("Error in c.yaml: unknown top-level field 'derivd'\nKnown fields: confluence, delay_between_slides, derived, heading_margin_bottom, list_item_indent, list_item_spacing, transition, transition_duration_ms".to_string())
    );
}

#[test]
fn unknown_step_field() {
    let doc = map(vec![("derived", YamlValue::Sequence(vec![map(vec![("output", text("a")), ("colour", YamlValue::Other)])]))]);
    assert_eq!(
        check_document_fields(&doc, "c.yaml"),
        Err("Error in c.yaml step 1 ('a'): unknown field 'colour'\nKnown fields for a derived entry: bounding_box_tag, delay, from, output, transforms".to_string())
    );
}

#[test]
fn unknown_transform_type_and_field() {
    let bad_type = map(vec![("derived", YamlValue::Sequence(vec![map(vec![(
        "transforms",
        YamlValue::Sequence(vec![map(vec![("type", text("Colour"))])]),
    )])]))]);
    assert_eq!(
        check_document_fields(&bad_type, "c.yaml"),
        Err("Error in c.yaml step 1 ('?'), transform 1: unknown transform type 'Colour'\nKnown types: Animation, ArrowVisibility, Color, ColorEdges, EdgeAttributes, ElementVisibility, EmbedImage, ImportMarkdown, ReplaceText, ShapeAttributes, TitleSlide".to_string())
    );
    let bad_field = map(vec![("derived", YamlValue::Sequence(vec![map(vec![
        ("output", text("s")),
        ("transforms", YamlValue::Sequence(vec![map(vec![("type", text("ReplaceText")), ("txt", text("x"))])])),
    ])]))]);
    assert_eq!(
        check_document_fields(&bad_field, "c.yaml"),
        Err("Error in c.yaml step 1 ('s'), transform 1 (ReplaceText): unknown field 'txt'\nKnown fields for ReplaceText: tag, text, type".to_string())
    );
}

#[test]
fn unknown_fields_in_configuration_text() {
    let good = "derived:\n  - output: a.drawio\n    transforms:\n      - type: Color\n        tags: [x]\n        color: '#fff'\n";
    assert_eq!(validate_unknown_fields(good, "c.yaml"), Ok(()));
    let bad = "derived:\n  - output: a.drawio\n    colour: red\n";
    let err = validate_unknown_fields(bad, "c.yaml").unwrap_err();
    assert!(err.starts_with("Error in c.yaml step 1 ('a.drawio'): unknown field 'colour'"), "got: {}", err);
    assert_eq!(validate_unknown_fields("derived: [unclosed", "c.yaml"), Ok(()));
}
