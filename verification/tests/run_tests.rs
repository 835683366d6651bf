use drawio_lc::apply::apply_transforms;
use drawio_lc::markdown::markdown_to_xml_attr;
use drawio_lc::model::{
    default_delay_between_slides, default_heading_margin_bottom, default_list_item_indent, default_list_item_spacing,
    default_transition_duration_ms, Config, Derived, Resource, Transform,
};
use drawio_lc::run::{
    check_step_filter, digest_file_text, frame_file_name, frame_transforms, has_animation, parse_digests,
    reuses_step, section_gif_name, skips_step, slide_delays, slide_png_name, step_digest, stored_digest,
};

fn step(output: &str, delay: Option<u32>) -> Derived {
    Derived { output: output.to_string(), from: None, transforms: vec![], bounding_box_tag: None, delay }
}

fn config(derived: Vec<Derived>) -> Config {
    Config {
        derived,
        delay_between_slides: default_delay_between_slides(),
        heading_margin_bottom: default_heading_margin_bottom(),
        list_item_spacing: default_list_item_spacing(),
        list_item_indent: default_list_item_indent(),
        transition: None,
        transition_duration_ms: default_transition_duration_ms(),
        confluence: None,
    }
}

#[test]
fn file_names() {
    assert_eq!(slide_png_name("step6.scenario.drawio"), "step6.scenario.png");
    assert_eq!(section_gif_name("step1.drawio", 2), "step1.section2.gif");
    assert_eq!(frame_file_name("step1", 1, 0, "png"), "step1.s1.f0.png");
    assert_eq!(frame_file_name("step1", 3, 12, "drawio"), "step1.s3.f12.drawio");
}

#[test]
fn frames_are_growing_prefixes() {
    let section = vec![
        Transform::Color { tags: vec!["a".into()], color: "#1".into() },
        Transform::Color { tags: vec!["b".into()], color: "#2".into() },
    ];
    let frames = frame_transforms(&section);
    assert_eq!(frames.iter().map(|f| f.len()).collect::<Vec<_>>(), vec![0, 1, 2]);
}

#[test]
fn animation_detection() {
    assert!(has_animation(&vec![Transform::Animation]));
    assert!(!has_animation(&vec![Transform::TitleSlide { text: "x".into() }]));
    assert!(!has_animation(&vec![]));
}

#[test]
fn delays_default_to_configuration() {
    let c = config(vec![step("a", Some(250)), step("b", None)]);
    assert_eq!(slide_delays(&c), vec![250, 1000]);
}

#[test]
fn step_filter() {
    let c = config(vec![step("a.drawio", None), step("b.drawio", None)]);
    assert_eq!(check_step_filter(&c, "b.drawio"), Ok(()));
    assert_eq!(
        check_step_filter(&c, "c.drawio"),
        Err("Error: --step 'c.drawio' does not match any output. Available outputs: [a.drawio, b.drawio]".to_string())
    );
}

#[test]
fn digest_is_hex_sha256_of_json_then_document() {
    // SHA-256 of "abc".
    assert_eq!(step_digest("ab", "c"), "ba7816bf8f01cfea414140de5dae2223b00361a396177a9cb410ff61f20015ad");
}

#[test]
fn digest_file_round_trip() {
    let content = "h1  a.drawio\r\nbroken line\nh2  b.drawio\nh3  a.drawio\n";
    let entries = parse_digests(content);
    assert_eq!(
        entries,
        vec![
            ("a.drawio".to_string(), "h1".to_string()),
            ("b.drawio".to_string(), "h2".to_string()),
            ("a.drawio".to_string(), "h3".to_string()),
        ]
    );
    assert_eq!(stored_digest(&entries, "a.drawio"), Some("h3".to_string()));
    assert_eq!(stored_digest(&entries, "c.drawio"), None);
    let c = config(vec![step("a.drawio", None), step("c.drawio", None), step("b.drawio", None)]);
    assert_eq!(digest_file_text(&c, &entries), "h3  a.drawio\nh2  b.drawio\n");
    assert_eq!(parse_digests(""), vec![]);
}

#[test]
fn markdown_labels_are_attribute_safe() {
    let label = markdown_to_xml_attr("# A \"quoted\" <b>title</b>\n\n- one\n- two\r\n", 4, 1, 2);
    assert!(!label.contains('"') && !label.contains('<') && !label.contains('>'));
    assert!(!label.contains('\n') && !label.contains('\r'));
}

#[test]
fn title_slide_ignores_the_document() {
    let transforms = vec![Transform::TitleSlide { text: "# Hi".to_string() }];
    let resources = vec![Resource::Nothing];
    let a = apply_transforms("<a/>", &transforms, Some((5, 6)), 4, 0, 0, &resources).unwrap();
    let b = apply_transforms("not even xml <", &transforms, Some((5, 6)), 4, 0, 0, &resources).unwrap();
    assert_eq!(a, b);
}

#[test]
fn dirty_runs_skip_all_but_the_chosen_step() {
    assert!(skips_step(Some("b.drawio"), true, "a.drawio"));
    assert!(!skips_step(Some("b.drawio"), true, "b.drawio"));
    assert!(!skips_step(Some("b.drawio"), false, "a.drawio"));
    assert!(!skips_step(None, true, "a.drawio"));
}

#[test]
fn unchanged_steps_are_reused_unless_chosen() {
    let d = Some("abc".to_string());
    assert!(reuses_step(None, "a.drawio", &d, "abc", true) == false);
    assert!(reuses_step(Some("b.drawio"), "a.drawio", &d, "abc", true));
    assert!(!reuses_step(Some("b.drawio"), "a.drawio", &d, "abd", true));
    assert!(!reuses_step(Some("b.drawio"), "a.drawio", &d, "abc", false));
    assert!(!reuses_step(Some("b.drawio"), "a.drawio", &None, "abc", true));
    assert!(!reuses_step(Some("a.drawio"), "a.drawio", &d, "abc", true));
}

#[test]
fn written_digests_read_back() {
    let c = config(vec![step("a.drawio", None), step("b.drawio", None), step("c.drawio", None)]);
    let computed = vec![
        ("b.drawio".to_string(), "00ff".to_string()),
        ("a.drawio".to_string(), "11aa".to_string()),
        ("b.drawio".to_string(), "22bb".to_string()),
        ("z.drawio".to_string(), "33cc".to_string()),
    ];
    let back = parse_digests(&digest_file_text(&c, &computed));
    assert_eq!(stored_digest(&back, "a.drawio"), Some("11aa".to_string()));
    assert_eq!(stored_digest(&back, "b.drawio"), Some("22bb".to_string()));
    assert_eq!(stored_digest(&back, "c.drawio"), None);
    assert_eq!(stored_digest(&back, "z.drawio"), None);
    let none = parse_digests(&digest_file_text(&c, &vec![]));
    assert_eq!(stored_digest(&none, "a.drawio"), None);
}
