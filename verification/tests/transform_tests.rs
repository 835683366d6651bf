use drawio_lc::apply::{apply_transforms, build_title_slide_xml, collect_edge_ids_to_recolor};
use drawio_lc::transform::{collect_tag_to_ids, resolve_transforms};
use drawio_lc::xml::tokenize;
use drawio_lc::markdown::markdown_to_xml_attr;
use drawio_lc::model::{EmbeddedImage, Resource, StrokeStyle, Transform};
use drawio_lc::validate::TransformError;

const SAMPLE_XML: &str = r#"<mxfile><diagram><mxGraphModel><root>
        <mxCell id="0" />
        <mxCell id="1" parent="0" value="background" />
        <mxCell id="2" parent="0" value="foreground" />
        <mxCell id="3" parent="1" value="shape" vertex="1" />
    </root></mxGraphModel></diagram></mxfile>"#;

/// XML that uses `object` wrappers with draw.io tags (as real draw.io files do).
const TAGGED_XML: &str = r#"<mxfile><diagram><mxGraphModel><root>
        <mxCell id="0" />
        <mxCell id="1" parent="0" value="Layer 1" />
        <object id="cell-a" label="Box A" tags="highlight,important">
            <mxCell parent="1" vertex="1" style="fillColor=#ffffff;" />
        </object>
        <object id="cell-b" label="Box B" tags="secondary">
            <mxCell parent="1" vertex="1" style="fillColor=#ffffff;" />
        </object>
    </root></mxGraphModel></diagram></mxfile>"#;

/// XML where one cell carries two tags so we can test show/hide conflicts.
const MULTI_TAG_XML: &str = r#"<mxfile><diagram><mxGraphModel><root>
        <mxCell id="0" />
        <mxCell id="1" parent="0" value="Layer 1" />
        <object id="cell-ab" label="Box AB" tags="A,B">
            <mxCell parent="1" vertex="1" style="fillColor=#ffffff;" />
        </object>
    </root></mxGraphModel></diagram></mxfile>"#;

/// XML with an edge cell that has startArrow and endArrow in its style.
const EDGE_XML: &str = r#"<mxfile><diagram><mxGraphModel><root>
        <mxCell id="0" />
        <mxCell id="1" parent="0" />
        <object id="edge-a" label="" tags="myedge">
            <mxCell parent="1" edge="1" style="endArrow=classic;startArrow=classic;html=1;" />
        </object>
    </root></mxGraphModel></diagram></mxfile>"#;

fn no_resources(transforms: &Vec<Transform>) -> Vec<Resource> {
    transforms.iter().map(|_| Resource::Nothing).collect()
}

fn apply(xml: &str, transforms: &Vec<Transform>, ref_size: Option<(u32, u32)>) -> Result<String, TransformError> {
    apply_transforms(xml, transforms, ref_size, 4, 0, 0, &no_resources(transforms))
}

#[test]
fn heading_margin_is_injected() {
    let html = markdown_to_xml_attr("# Title\n\nsome text", 6, 0, 0);
    assert!(html.contains("margin-bottom:6px"), "got: {}", html);
}

#[test]
fn color_transform_by_tag_patches_fill() {
    let transforms = vec![Transform::Color {
        tags: vec!["highlight".to_string()],
        color: "#FF0000".to_string(),
    }];
    let result = apply(TAGGED_XML, &transforms, None).unwrap();
    assert!(result.contains("fillColor=#FF0000"), "expected fillColor=#FF0000 in: {result}");
    assert!(result.contains("fillColor=#ffffff"), "expected cell-b fillColor unchanged in: {result}");
}

#[test]
fn hide_elements_by_tag() {
    let transforms = vec![Transform::ElementVisibility {
        show: vec![],
        hide: vec!["secondary".to_string()],
    }];
    let result = apply(TAGGED_XML, &transforms, None).unwrap();
    assert!(result.contains(r#"visible="0""#), "expected visible=0 in: {result}");
}

#[test]
fn hide_elements_unknown_tag_errors() {
    let transforms = vec![Transform::ElementVisibility {
        show: vec![],
        hide: vec!["nonexistent-tag".to_string()],
    }];
    let err = apply(TAGGED_XML, &transforms, None).unwrap_err();
    assert!(
        err.message().contains("nonexistent-tag"),
        "expected error mentioning the unknown tag, got: {}",
        err.message()
    );
}

#[test]
fn element_visibility_conflict_errors() {
    let transforms = vec![Transform::ElementVisibility {
        show: vec!["A".to_string()],
        hide: vec!["B".to_string()],
    }];
    let err = apply(MULTI_TAG_XML, &transforms, None).unwrap_err();
    assert!(err.message().contains("conflict"), "expected conflict error, got: {}", err.message());
    assert!(err.message().contains("cell-ab"), "expected cell id in error, got: {}", err.message());
}

#[test]
fn animation_is_noop() {
    let transforms_with = vec![
        Transform::Color { tags: vec!["highlight".to_string()], color: "#FF0000".to_string() },
        Transform::Animation,
        Transform::Color { tags: vec!["secondary".to_string()], color: "#00FF00".to_string() },
    ];
    let transforms_without = vec![
        Transform::Color { tags: vec!["highlight".to_string()], color: "#FF0000".to_string() },
        Transform::Color { tags: vec!["secondary".to_string()], color: "#00FF00".to_string() },
    ];
    let with_anim = apply(TAGGED_XML, &transforms_with, None).unwrap();
    let without_anim = apply(TAGGED_XML, &transforms_without, None).unwrap();
    assert_eq!(with_anim, without_anim, "Animation should not affect the XML output");
}

#[test]
fn title_slide_with_animation_accepted() {
    let transforms = vec![
        Transform::Animation,
        Transform::TitleSlide { text: "# Hello".to_string() },
        Transform::Animation,
    ];
    let result = apply(TAGGED_XML, &transforms, Some((800, 600)));
    assert!(result.is_ok(), "TitleSlide + Animation should be accepted, got: {:?}", result);
}

#[test]
fn arrow_visibility_hide_end() {
    let transforms = vec![Transform::ArrowVisibility {
        tags: vec!["myedge".to_string()],
        begin: None,
        end: Some(false),
    }];
    let result = apply(EDGE_XML, &transforms, None).unwrap();
    assert!(result.contains("endArrow=none"), "endArrow should be none, got: {result}");
    assert!(result.contains("startArrow=classic"), "startArrow should be unchanged, got: {result}");
}

#[test]
fn arrow_visibility_hide_begin() {
    let transforms = vec![Transform::ArrowVisibility {
        tags: vec!["myedge".to_string()],
        begin: Some(false),
        end: None,
    }];
    let result = apply(EDGE_XML, &transforms, None).unwrap();
    assert!(result.contains("startArrow=none"), "startArrow should be none, got: {result}");
    assert!(result.contains("endArrow=classic"), "endArrow should be unchanged, got: {result}");
}

#[test]
fn arrow_visibility_show_both() {
    let hide = vec![Transform::ArrowVisibility {
        tags: vec!["myedge".to_string()],
        begin: Some(false),
        end: Some(false),
    }];
    let hidden = apply(EDGE_XML, &hide, None).unwrap();
    let show = vec![Transform::ArrowVisibility {
        tags: vec!["myedge".to_string()],
        begin: Some(true),
        end: Some(true),
    }];
    let shown = apply(&hidden, &show, None).unwrap();
    assert!(shown.contains("startArrow=classic"), "startArrow should be classic, got: {shown}");
    assert!(shown.contains("endArrow=classic"), "endArrow should be classic, got: {shown}");
}

// ---------------------------------------------------------------------------

#[test]
fn no_transforms_round_trips_the_document() {
    // Every mxCell tag is written back by quick-xml's writer, without the
    // space before `/>`; everything else is kept as it was read.
    let out = apply(SAMPLE_XML, &vec![], None).unwrap();
    assert_eq!(out, SAMPLE_XML.replace(" />", "/>"));
}

#[test]
fn color_by_cell_id_patches_only_that_cell() {
    let transforms = vec![Transform::Color { tags: vec!["3".to_string()], color: "#123456".to_string() }];
    let out = apply(SAMPLE_XML, &transforms, None).unwrap();
    assert!(out.contains(r#"<mxCell id="3" parent="1" value="shape" vertex="1"/>"#), "got: {out}");
    // No style attribute: nothing to recolor.
    assert!(!out.contains("#123456"), "got: {out}");
}

#[test]
fn replace_text_on_wrapper_sets_label() {
    let transforms = vec![Transform::ReplaceText { tag: "cell-b".to_string(), text: "Hello".to_string() }];
    let out = apply(TAGGED_XML, &transforms, None).unwrap();
    assert!(out.contains(r#"label="&lt;p style=&quot;margin-top:0&quot;&gt;Hello&lt;/p&gt;""#), "got: {out}");
    assert!(out.contains(r#"label="Box A""#), "got: {out}");
}

#[test]
fn unknown_tag_message_lists_sorted_names() {
    let transforms = vec![Transform::ReplaceText { tag: "nope".to_string(), text: "x".to_string() }];
    let err = apply(TAGGED_XML, &transforms, None).unwrap_err();
    assert_eq!(
        err.message(),
        "ReplaceText: tag \"nope\" does not exist in the document. Available tags: [0, 1, cell-a, cell-b, highlight, important, secondary]"
    );
    match err {
        TransformError::UnknownTag { transform, tag, available } => {
            assert_eq!(transform, "ReplaceText");
            assert_eq!(tag, "nope");
            assert_eq!(available.len(), 7);
        }
        other => panic!("unexpected error {:?}", other),
    }
}

#[test]
fn conflict_message_names_both_tag_lists() {
    let transforms = vec![Transform::ElementVisibility { show: vec!["A".to_string()], hide: vec!["B".to_string()] }];
    let err = apply(MULTI_TAG_XML, &transforms, None).unwrap_err();
    assert_eq!(
        err.message(),
        "ElementVisibility conflict: cell 'cell-ab' is targeted by both show (via tag(s): [A]) and hide (via tag(s): [B])"
    );
}

#[test]
fn title_slide_needs_reference_size() {
    let transforms = vec![Transform::TitleSlide { text: "# Hi".to_string() }];
    let err = apply(TAGGED_XML, &transforms, None).unwrap_err();
    assert!(matches!(err, TransformError::MissingReferenceSize));
    assert_eq!(
        err.message(),
        "TitleSlide requires a reference size — ensure the original file is exported first"
    );
}

#[test]
fn title_slide_must_be_alone() {
    let transforms = vec![
        Transform::TitleSlide { text: "# Hi".to_string() },
        Transform::Color { tags: vec!["highlight".to_string()], color: "#FF0000".to_string() },
    ];
    let err = apply(TAGGED_XML, &transforms, Some((10, 10))).unwrap_err();
    assert!(matches!(err, TransformError::TitleSlideNotAlone));
    assert_eq!(err.message(), "TitleSlide must be the only transform in the list");
}

#[test]
fn malformed_document_is_an_xml_error() {
    let transforms = vec![Transform::Color { tags: vec!["x".to_string()], color: "#FF0000".to_string() }];
    let err = apply("<a><b></a>", &transforms, None).unwrap_err();
    assert!(matches!(err, TransformError::Xml(_)), "got {:?}", err);
}

#[test]
fn markdown_read_failure_is_a_resource_error() {
    let transforms = vec![Transform::ImportMarkdown { tag: "cell-a".to_string(), file: "missing.md".to_string() }];
    let resources = vec![Resource::Markdown(Err("cannot read missing.md".to_string()))];
    let err = apply_transforms(TAGGED_XML, &transforms, None, 4, 0, 0, &resources).unwrap_err();
    assert_eq!(err.message(), "cannot read missing.md");
}

#[test]
fn import_markdown_sets_label() {
    let transforms = vec![Transform::ImportMarkdown { tag: "cell-a".to_string(), file: "a.md".to_string() }];
    let resources = vec![Resource::Markdown(Ok("**bold**".to_string()))];
    let out = apply_transforms(TAGGED_XML, &transforms, None, 4, 0, 0, &resources).unwrap();
    assert!(out.contains("&lt;strong&gt;bold&lt;/strong&gt;"), "got: {out}");
}

#[test]
fn embed_image_sets_data_uri_and_geometry() {
    let xml = r#"<root><object id="img" tags="pic"><mxCell parent="1" vertex="1" style="shape=image;"><mxGeometry x="0" y="0" width="10" height="20" as="geometry"/></mxCell></object></root>"#;
    let transforms = vec![Transform::EmbedImage {
        tag: "pic".to_string(),
        file: "logo.png".to_string(),
        width: Some("30".to_string()),
        height: None,
    }];
    let resources = vec![Resource::Image(Ok(EmbeddedImage {
        data: vec![1, 2, 3],
        width: Some("30".to_string()),
        height: None,
    }))];
    let out = apply_transforms(xml, &transforms, None, 4, 0, 0, &resources).unwrap();
    // base64 of [1, 2, 3] is "AQID".
    assert!(out.contains("data:image/png;base64,AQID"), "got: {out}");
    assert!(out.contains(r#"width="30" height="20""#), "got: {out}");
}

#[test]
fn color_edges_skips_excluded_ends() {
    let xml = r#"<root><mxCell id="e1" edge="1" source="a" target="b" style="x=1;"/><mxCell id="e2" edge="1" source="c" target="d" style="x=1;"/></root>"#;
    let transforms = vec![Transform::ColorEdges { exclude: vec!["a".to_string()], color: "#0F0F0F".to_string() }];
    let out = apply(xml, &transforms, None).unwrap();
    assert!(out.contains(r#"<mxCell id="e1" edge="1" source="a" target="b" style="x=1;"/>"#), "got: {out}");
    assert!(
        out.contains(r#"<mxCell id="e2" edge="1" source="c" target="d" style="x=1;fillColor=#0F0F0F;strokeColor=#0F0F0F;"/>"#),
        "got: {out}"
    );
}

#[test]
fn shape_attributes_dotted_stroke() {
    let transforms = vec![Transform::ShapeAttributes {
        tags: vec!["secondary".to_string()],
        shape: None,
        fill_color: None,
        stroke_color: None,
        stroke_style: Some(StrokeStyle::Dotted),
        text: None,
        font_size: Some(12),
    }];
    let out = apply(TAGGED_XML, &transforms, None).unwrap();
    assert!(out.contains("dashed=1"), "got: {out}");
    assert!(out.contains("dashPattern=1 4"), "got: {out}");
    assert!(out.contains("fontSize=12"), "got: {out}");
}

#[test]
fn title_slide_document_has_size_and_alignment() {
    let xml = build_title_slide_xml("- one\n- two", 640, 480, 4, 0, 0);
    assert!(xml.starts_with(r#"<mxfile host="drawio-lc"><diagram name="Title">"#));
    assert!(xml.contains(r#"width="640" height="480""#));
    assert!(xml.contains("align=left;"));
    let centered = build_title_slide_xml("# Title", 1, 2, 4, 0, 0);
    assert!(centered.contains("align=center;"));
    assert!(centered.contains(r#"width="1" height="2""#));
}

#[test]
fn color_edges_excludes_by_tag() {
    let xml = r#"<root><object id="n1" tags="T"><mxCell vertex="1"/></object><mxCell id="n2" vertex="1"/><mxCell id="e1" edge="1" source="n1" target="n2" style="html=1;"/><mxCell id="e2" edge="1" source="n2" target="n2" style="html=1;"/></root>"#;
    let transforms = vec![Transform::ColorEdges { exclude: vec!["T".to_string()], color: "#FF0000".to_string() }];
    let out = apply(xml, &transforms, None).unwrap();
    assert!(out.contains(r#"id="e1" edge="1" source="n1" target="n2" style="html=1;""#), "got: {}", out);
    assert!(out.contains(r#"id="e2" edge="1" source="n2" target="n2" style="html=1;fillColor=#FF0000;strokeColor=#FF0000;""#), "got: {}", out);
    let by_id = vec![Transform::ColorEdges { exclude: vec!["n2".to_string()], color: "#00FF00".to_string() }];
    assert!(!apply(xml, &by_id, None).unwrap().contains("#00FF00"));
}

#[test]
fn show_and_hide_of_a_single_tag_conflict() {
    let xml = r#"<root><object id="cell-a" tags="A"><mxCell vertex="1"/></object></root>"#;
    let transforms = vec![Transform::ElementVisibility { show: vec!["A".to_string()], hide: vec!["A".to_string()] }];
    let err = apply(xml, &transforms, None).unwrap_err();
    assert!(err.message().contains("cell-a"), "got: {}", err.message());
}

#[test]
fn every_color_edges_color_keeps_its_group() {
    let xml = r#"<root><object id="n1" tags="T"><mxCell vertex="1"/></object><mxCell id="n2" vertex="1"/><mxCell id="e1" edge="1" source="n1" target="n2"/><mxCell id="e2" edge="1" source="n2"/></root>"#;
    let tokens = tokenize(xml).unwrap();
    let transforms = vec![
        Transform::ColorEdges { exclude: vec!["n2".to_string()], color: "#111111".to_string() },
        Transform::ColorEdges { exclude: vec!["T".to_string()], color: "#222222".to_string() },
    ];
    let resolved = resolve_transforms(&transforms, &collect_tag_to_ids(&tokens));
    let groups: Vec<(String, Vec<String>)> = collect_edge_ids_to_recolor(&tokens, &resolved)
        .iter()
        .map(|(c, ids)| (c.iter().collect(), ids.iter().map(|i| i.iter().collect()).collect()))
        .collect();
    assert_eq!(groups, vec![("#111111".to_string(), vec![]), ("#222222".to_string(), vec!["e2".to_string()])]);
}

#[test]
fn removing_every_marker_changes_nothing() {
    let color = |tag: &str| Transform::Color { tags: vec![tag.to_string()], color: "#00FF00".to_string() };
    let with_markers = vec![
        Transform::Animation,
        color("highlight"),
        Transform::Animation,
        Transform::Animation,
        color("secondary"),
        Transform::Animation,
    ];
    let without = vec![color("highlight"), color("secondary")];
    assert_eq!(apply(TAGGED_XML, &with_markers, None).unwrap(), apply(TAGGED_XML, &without, None).unwrap());
    let replace = || Transform::ReplaceText { tag: "nope".to_string(), text: "x".to_string() };
    let bad = vec![Transform::Animation, replace(), Transform::Animation];
    assert_eq!(
        apply(TAGGED_XML, &bad, None).unwrap_err().message(),
        apply(TAGGED_XML, &vec![replace()], None).unwrap_err().message()
    );
}
