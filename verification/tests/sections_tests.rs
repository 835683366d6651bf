use drawio_lc::config::split_transform_sections;
use drawio_lc::model::Transform;

#[test]
fn split_sections_normal() {
    let transforms = vec![
        Transform::Color { tags: vec!["a".into()], color: "#FF0000".into() },
        Transform::Animation,
        Transform::Color { tags: vec!["b".into()], color: "#00FF00".into() },
        Transform::Color { tags: vec!["c".into()], color: "#0000FF".into() },
    ];
    let sections = split_transform_sections(&transforms);
    assert_eq!(sections.len(), 2);
    assert_eq!(sections[0].len(), 1);
    assert_eq!(sections[1].len(), 2);
}

#[test]
fn split_sections_leading_trailing_animation() {
    let transforms = vec![
        Transform::Animation,
        Transform::Color { tags: vec!["a".into()], color: "#FF0000".into() },
        Transform::Animation,
    ];
    let sections = split_transform_sections(&transforms);
    assert_eq!(sections.len(), 1);
    assert_eq!(sections[0].len(), 1);
}

#[test]
fn split_sections_consecutive_animation() {
    let transforms = vec![
        Transform::Color { tags: vec!["a".into()], color: "#FF0000".into() },
        Transform::Animation,
        Transform::Animation,
        Transform::Color { tags: vec!["b".into()], color: "#00FF00".into() },
    ];
    let sections = split_transform_sections(&transforms);
    assert_eq!(sections.len(), 2);
}

#[test]
fn split_sections_no_animation() {
    let transforms = vec![
        Transform::Color { tags: vec!["a".into()], color: "#FF0000".into() },
        Transform::Color { tags: vec!["b".into()], color: "#00FF00".into() },
    ];
    let sections = split_transform_sections(&transforms);
    assert_eq!(sections.len(), 1);
    assert_eq!(sections[0].len(), 2);
}

#[test]
fn split_sections_only_animation() {
    let transforms = vec![Transform::Animation, Transform::Animation];
    let sections = split_transform_sections(&transforms);
    assert_eq!(sections.len(), 0);
}

#[test]
fn split_sections_keep_order_and_drop_markers() {
    let transforms = vec![
        Transform::ReplaceText { tag: "x".into(), text: "1".into() },
        Transform::Animation,
        Transform::ReplaceText { tag: "y".into(), text: "2".into() },
    ];
    let sections = split_transform_sections(&transforms);
    let texts: Vec<String> = sections
        .iter()
        .flatten()
        .map(|t| match t {
            Transform::ReplaceText { text, .. } => text.clone(),
            _ => panic!("marker left in a section"),
        })
        .collect();
    assert_eq!(texts, vec!["1".to_string(), "2".to_string()]);
}
