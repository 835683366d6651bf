use drawio_lc::cell::{
    patch_arrow_visibility, patch_cell_with_geometry, patch_wrapper, LabelStyle, patch_style_color, patch_style_token_in_attrs, patch_style_token_mut,
    patch_visibility_hidden, patch_visibility_visible,
};
use drawio_lc::markdown::inject_html_spacing;
use drawio_lc::model::{Resource, Transform};
use drawio_lc::xml::XmlTag;
use drawio_lc::transform::is_cell_wrapper;

fn chars(s: &str) -> Vec<char> {
    s.chars().collect()
}

fn attrs(pairs: &[(&str, &str)]) -> Vec<(Vec<char>, Vec<char>)> {
    pairs.iter().map(|(k, v)| (chars(k), chars(v))).collect()
}

fn text(a: &Vec<(Vec<char>, Vec<char>)>) -> Vec<(String, String)> {
    a.iter().map(|(k, v)| (k.iter().collect(), v.iter().collect())).collect()
}

fn owned(pairs: &[(&str, &str)]) -> Vec<(String, String)> {
    pairs.iter().map(|(k, v)| (k.to_string(), v.to_string())).collect()
}

#[test]
fn style_color_sets_fill_and_stroke() {
    let mut a = attrs(&[("id", "1"), ("style", "rounded=1;fillColor=#fff;")]);
    patch_style_color(&mut a, "#F00");
    assert_eq!(text(&a), owned(&[("id", "1"), ("style", "rounded=1;fillColor=#F00;strokeColor=#F00;")]));
}

#[test]
fn style_color_without_style_changes_nothing() {
    let mut a = attrs(&[("id", "1")]);
    patch_style_color(&mut a, "#F00");
    assert_eq!(text(&a), owned(&[("id", "1")]));
}

#[test]
fn visibility_is_set_or_added() {
    let mut a = attrs(&[("id", "1")]);
    patch_visibility_hidden(&mut a);
    assert_eq!(text(&a), owned(&[("id", "1"), ("visible", "0")]));
    patch_visibility_visible(&mut a);
    assert_eq!(text(&a), owned(&[("id", "1"), ("visible", "1")]));
}

#[test]
fn arrows_hidden_then_shown() {
    let mut a = attrs(&[("style", "endArrow=classic;startArrow=classic;html=1;")]);
    patch_arrow_visibility(&mut a, Some(false), None);
    assert_eq!(text(&a), owned(&[("style", "endArrow=classic;startArrow=none;html=1;")]));
    patch_arrow_visibility(&mut a, Some(true), Some(false));
    assert_eq!(text(&a), owned(&[("style", "endArrow=none;startArrow=classic;html=1;")]));
}

#[test]
fn style_token_creates_style_when_missing() {
    let mut a = attrs(&[("id", "1")]);
    patch_style_token_in_attrs(&mut a, "dashed", "1");
    assert_eq!(text(&a), owned(&[("id", "1"), ("style", "dashed=1;")]));
    patch_style_token_mut(&mut a, "dashed", "0");
    assert_eq!(text(&a), owned(&[("id", "1"), ("style", "dashed=0;")]));
}

#[test]
fn wrapper_names() {
    assert!(is_cell_wrapper(&chars("UserObject")));
    assert!(is_cell_wrapper(&chars("object")));
    assert!(!is_cell_wrapper(&chars("mxCell")));
}

#[test]
fn html_spacing_headings_paragraphs_and_lists() {
    let html = "<h2>T</h2>\n<p>x</p>\n<ul>\n<li>a</li>\n<li>b</li>\n</ul>\n<ol>\n<li>c</li>\n</ol>\n";
    let out = inject_html_spacing(html, 6, 1, 2);
    assert_eq!(
        out,
        "<h2 style=\"margin-top:0;margin-bottom:6px\">T</h2>\n<p style=\"margin-top:0\">x</p>\n&nbsp;&nbsp;• a<br><font style=\"font-size:1px\">.</font><br>&nbsp;&nbsp;• b\n&nbsp;&nbsp;1. c\n"
    );
}

fn layout() -> LabelStyle {
    LabelStyle { heading_margin_bottom: 6, list_item_spacing: 1, list_item_indent: 2 }
}

#[test]
fn unnamed_cell_is_left_as_it_is() {
    let tag = XmlTag { name: chars("mxCell"), attrs: attrs(&[("id", "7"), ("style", "fillColor=#fff;"), ("value", "x")]) };
    let ts = vec![
        Transform::Color { tags: vec!["8".to_string()], color: "#F00".to_string() },
        Transform::ReplaceText { tag: "9".to_string(), text: "hello".to_string() },
    ];
    let rs = vec![Resource::Nothing, Resource::Nothing];
    let (out, geometry) = patch_cell_with_geometry(&tag, &ts, &rs, &vec![], layout(), &None).unwrap();
    assert_eq!(text(&out.attrs), owned(&[("id", "7"), ("style", "fillColor=#fff;"), ("value", "x")]));
    assert!(geometry.is_none());
    let named = patch_cell_with_geometry(&tag, &vec![Transform::Color { tags: vec!["7".to_string()], color: "#F00".to_string() }], &vec![Resource::Nothing], &vec![], layout(), &None).unwrap();
    assert_eq!(text(&named.0.attrs), owned(&[("id", "7"), ("style", "fillColor=#F00;strokeColor=#F00;"), ("value", "x")]));
}

#[test]
fn unnamed_wrapper_keeps_its_label() {
    let tag = XmlTag { name: chars("UserObject"), attrs: attrs(&[("id", "w"), ("label", "old")]) };
    let ts = vec![Transform::ReplaceText { tag: "other".to_string(), text: "new".to_string() }];
    let out = patch_wrapper(&tag, &ts, &vec![Resource::Nothing], layout()).unwrap();
    assert_eq!(text(&out.attrs), owned(&[("id", "w"), ("label", "old")]));
}
