use cppdoc::ast::{Accessibility, Ast, EntityData, EntityKind};
use cppdoc::autolink::fmt_autolinks;
use cppdoc::emoji::fmt_emoji;
use cppdoc::html::Html;
use cppdoc::markdown::{extract_title_from_md, fmt_markdown};
use cppdoc::tree::Namespace;

fn ent(kind: EntityKind, name: Option<&str>) -> EntityData {
    EntityData {
        kind,
        name: name.map(|s| s.to_string()),
        display_name: None,
        comment: None,
        in_system_header: false,
        is_definition: true,
        accessibility: Accessibility::Public,
        is_static_method: false,
        is_virtual_method: false,
        is_const_method: false,
        is_pure_virtual_method: false,
        parent: None,
        children: vec![],
        arguments: None,
        ty: None,
        result_type: None,
    }
}

/// A tree with one class Widget at the top level.
fn widget_world() -> (Ast, Namespace) {
    let mut w = ent(EntityKind::ClassDecl, Some("Widget"));
    w.parent = Some(1);
    let mut tu = ent(EntityKind::TranslationUnit, None);
    tu.children = vec![0];
    let ast = Ast { ents: vec![w, tu], tys: vec![] };
    let root = Namespace::new(&ast, 1);
    (ast, root)
}

#[test]
fn autolink_exact_match() {
    let (ast, root) = widget_world();
    let out = fmt_autolinks(&ast, &root, &"See Widget for details".to_string());
    assert_eq!(out, "See [Widget](Widget) for details");
}

#[test]
fn autolink_leaves_trailing_punctuation_unmatched() {
    let (ast, root) = widget_world();
    let out = fmt_autolinks(&ast, &root, &"See Widget.".to_string());
    assert_eq!(out, "See Widget.");
}

#[test]
fn autolink_rewrites_each_token_once() {
    let (ast, root) = widget_world();
    let out = fmt_autolinks(&ast, &root, &"Widget Widget".to_string());
    assert_eq!(out, "[Widget](Widget) [Widget](Widget)");
}

#[test]
fn autolink_preserves_line_count() {
    let (ast, root) = widget_world();
    let input = "first line\nWidget here\n\nlast".to_string();
    let out = fmt_autolinks(&ast, &root, &input);
    let in_lines = input.matches('\n').count();
    let out_lines = out.matches('\n').count();
    assert_eq!(in_lines, out_lines);
    assert!(out.contains("[Widget](Widget)"));
}

#[test]
fn emoji_shortcode_is_substituted() {
    assert_eq!(fmt_emoji("Hi :smile:!"), "Hi \u{1F604}!");
}

#[test]
fn emoji_unknown_shortcode_is_kept() {
    assert_eq!(fmt_emoji("strange :nosuchthing: stays"), "strange :nosuchthing: stays");
}

#[test]
fn emoji_open_run_at_end_still_matches() {
    // The scan treats the end of the text like a closing colon.
    assert_eq!(fmt_emoji("bye :smile"), "bye \u{1F604}");
}

#[test]
fn emoji_plain_text_unchanged() {
    assert_eq!(fmt_emoji("no shortcode here"), "no shortcode here");
}

#[test]
fn markdown_renders_inside_text_div() {
    let h = fmt_markdown(&"**hi**".to_string());
    match h {
        Html::Element(el) => {
            assert_eq!(el.tag, "div");
            assert!(el.classes.contains(&"text".to_string()));
            match &el.children[0] {
                Html::Raw(c) => {
                    assert!(c.contains("<strong>hi</strong>"));
                }
                _ => panic!("expected raw markup"),
            }
        }
        _ => panic!("expected an element"),
    }
}

#[test]
fn markdown_applies_emoji_to_text_runs() {
    let h = fmt_markdown(&"hello :smile:".to_string());
    match h {
        Html::Element(el) => match &el.children[0] {
            Html::Raw(c) => {
                assert!(c.contains('\u{1F604}'));
                assert!(c.contains("<p>"));
            }
            _ => panic!("expected raw markup"),
        },
        _ => panic!("expected an element"),
    }
}

#[test]
fn title_extracted_from_opening_heading() {
    assert_eq!(
        extract_title_from_md(&"# The Title\n\nbody".to_string()),
        Some("The Title".to_string())
    );
}

#[test]
fn no_title_without_opening_heading() {
    assert_eq!(extract_title_from_md(&"plain paragraph".to_string()), None);
}
