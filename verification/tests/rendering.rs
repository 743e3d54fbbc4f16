use cppdoc::ast::{Accessibility, Ast, EntityData, EntityKind, TypeData, TypeKind};
use cppdoc::html::{Html, HtmlElement};
use cppdoc::output::{fmt_header_link, fmt_section, output_classlike, output_entity, usize_to_dec};
use cppdoc::render::fmt_type;
use cppdoc::tree::{CppItem, Namespace};
use cppdoc::url::UrlPath;

fn ent(kind: EntityKind, name: Option<&str>) -> EntityData {
    EntityData {
        kind,
        name: name.map(|s| s.to_string()),
        display_name: None,
        comment: None,
        in_system_header: false,
        is_definition: true,
        accessibility: Accessibility::Public,
        is_static_method: false,
        is_virtual_method: false,
        is_const_method: false,
        is_pure_virtual_method: false,
        parent: None,
        children: vec![],
        arguments: None,
        ty: None,
        result_type: None,
    }
}

fn ty(kind: TypeKind, display: &str) -> TypeData {
    TypeData {
        kind,
        display_name: display.to_string(),
        is_const_qualified: false,
        is_pod: false,
        pointee: None,
        declaration: None,
        template_args: None,
    }
}

fn as_el(h: &Html) -> &HtmlElement {
    match h {
        Html::Element(e) => e,
        _ => panic!("expected an element"),
    }
}

fn text_of(h: &Html) -> String {
    match h {
        Html::Text(t) => t.clone(),
        _ => panic!("expected text"),
    }
}

fn span_text(h: &Html) -> String {
    let el = as_el(h);
    assert_eq!(el.tag, "span");
    text_of(&el.children[0])
}

fn attr<'a>(el: &'a HtmlElement, key: &str) -> Option<&'a String> {
    el.attrs.iter().find(|(k, _)| k == key).map(|(_, v)| v)
}

/// An arena with classes Foo and Bar at the top level, and the type
/// `const Foo<Bar>&`.
fn foo_bar_world() -> (Ast, Namespace) {
    let mut foo = ent(EntityKind::ClassDecl, Some("Foo"));
    foo.parent = Some(2);
    let mut bar = ent(EntityKind::ClassDecl, Some("Bar"));
    bar.parent = Some(2);
    let mut tu = ent(EntityKind::TranslationUnit, None);
    tu.children = vec![0, 1];
    let mut t_bar = ty(TypeKind::Other, "Bar");
    t_bar.declaration = Some(1);
    let mut t_foo = ty(TypeKind::Other, "Foo<Bar>");
    t_foo.declaration = Some(0);
    t_foo.is_const_qualified = true;
    t_foo.template_args = Some(vec![Some(0)]);
    let mut t_ref = ty(TypeKind::LValueReference, "const Foo<Bar> &");
    t_ref.pointee = Some(1);
    let ast = Ast { ents: vec![foo, bar, tu], tys: vec![t_bar, t_foo, t_ref] };
    let root = Namespace::new(&ast, 2);
    (ast, root)
}

#[test]
fn type_rendering_round_trip_const_ref_template() {
    let (ast, root) = foo_bar_world();
    let h = fmt_type(&ast, &root, 2);
    let el = as_el(&h);
    assert_eq!(el.tag, "a");
    // Linked to Foo's canonical URL.
    assert_eq!(attr(el, "href").map(|s| s.as_str()), Some("Foo"));
    assert!(!el.classes.contains(&"disabled".to_string()));
    // Scope chain: a single segment, Foo.
    let chain = match &el.children[0] {
        Html::List(v) => v,
        _ => panic!("expected the scope chain"),
    };
    assert_eq!(chain.len(), 1);
    assert_eq!(span_text(&chain[0]), "Foo");
    // Template arguments inside angle brackets, Bar linked in turn.
    let args = match &el.children[1] {
        Html::List(v) => v,
        _ => panic!("expected the template arguments"),
    };
    assert_eq!(text_of(&args[0]), "<");
    assert_eq!(text_of(&args[2]), ">");
    let bar = as_el(&args[1]);
    assert_eq!(bar.tag, "a");
    assert_eq!(attr(bar, "href").map(|s| s.as_str()), Some("Bar"));
    // const marker, then the reference suffix.
    assert_eq!(span_text(&el.children[2]), "const");
    assert_eq!(text_of(&el.children[3]), "&");
}

#[test]
fn type_rendering_builtin_keyword() {
    let ast = Ast {
        ents: vec![ent(EntityKind::TranslationUnit, None)],
        tys: vec![ty(TypeKind::Int, "int")],
    };
    let root = Namespace::new(&ast, 0);
    let h = fmt_type(&ast, &root, 0);
    let el = as_el(&h);
    assert_eq!(el.tag, "a");
    assert!(attr(el, "href").is_none());
    assert!(el.classes.contains(&"disabled".to_string()));
    assert_eq!(span_text(&el.children[0]), "int");
}

#[test]
fn type_rendering_unresolved_falls_back_to_display_name() {
    let ast = Ast {
        ents: vec![ent(EntityKind::TranslationUnit, None)],
        tys: vec![ty(TypeKind::Other, "std::vector<int>")],
    };
    let root = Namespace::new(&ast, 0);
    let h = fmt_type(&ast, &root, 0);
    let el = as_el(&h);
    assert!(attr(el, "href").is_none());
    assert!(el.classes.contains(&"disabled".to_string()));
    assert_eq!(span_text(&el.children[0]), "std::vector<int>");
}

#[test]
fn counts_render_in_decimal() {
    assert_eq!(usize_to_dec(0), "0");
    assert_eq!(usize_to_dec(7), "7");
    assert_eq!(usize_to_dec(120), "120");
}

#[test]
fn section_carries_title_badge_and_items() {
    let h = fmt_section("Examples", vec![Html::Text("one".to_string()), Html::Text(
        "two".to_string(),
    )]);
    let el = as_el(&h);
    assert_eq!(el.tag, "details");
    let summary = as_el(&el.children[0]);
    let span = as_el(&summary.children[0]);
    assert_eq!(text_of(&span.children[1]), "Examples");
    assert_eq!(span_text(&span.children[2]), "2");
    let body = as_el(&el.children[1]);
    match &body.children[0] {
        Html::List(items) => assert_eq!(items.len(), 2),
        _ => panic!("expected the item list"),
    }
}

#[test]
fn header_link_online_and_missing() {
    let online = fmt_header_link(
        Some("https://example.test/x.hpp".to_string()),
        Some(UrlPath::from_parts(vec!["x.hpp".to_string()])),
        Some(true),
    );
    let el = as_el(&online);
    assert_eq!(el.tag, "a");
    assert_eq!(attr(el, "href").map(|s| s.as_str()), Some("https://example.test/x.hpp"));
    let code = as_el(&el.children[0]);
    assert_eq!(span_text(&code.children[0]), "#include ");
    assert_eq!(span_text(&code.children[1]), "&lt;x.hpp&gt;");

    let missing = fmt_header_link(None, None, None);
    let p = as_el(&missing);
    assert_eq!(p.tag, "p");
    assert_eq!(text_of(&p.children[0]), "&lt;Not available online&gt;");
}

#[test]
fn output_entity_fields() {
    let (ast, root) = foo_bar_world();
    let item = &root.entries[0];
    let fields = output_entity(&ast, &root, item, None, None, None, vec![]);
    let keys: Vec<&str> = fields.iter().map(|(k, _)| k.as_str()).collect();
    assert_eq!(keys, vec!["name", "description", "header_link", "examples"]);
    assert_eq!(text_of(&as_el(&fields.get(1).unwrap().1).children[0]),
        "No Description Provided");
}

#[test]
fn output_classlike_filters_members() {
    // A class with one public static method, one public method, one
    // protected method, one public field and one protected field.
    let mut m_stat = ent(EntityKind::Method, Some("stat"));
    m_stat.is_static_method = true;
    m_stat.parent = Some(5);
    let mut m_pub = ent(EntityKind::Method, Some("go"));
    m_pub.parent = Some(5);
    let mut m_prot = ent(EntityKind::Method, Some("guarded"));
    m_prot.accessibility = Accessibility::Protected;
    m_prot.parent = Some(5);
    let mut f_pub = ent(EntityKind::FieldDecl, Some("value"));
    f_pub.parent = Some(5);
    let mut f_prot = ent(EntityKind::FieldDecl, Some("hidden"));
    f_prot.accessibility = Accessibility::Protected;
    f_prot.parent = Some(5);
    let mut cls = ent(EntityKind::ClassDecl, Some("Widget"));
    cls.children = vec![0, 1, 2, 3, 4];
    cls.parent = Some(6);
    let mut tu = ent(EntityKind::TranslationUnit, None);
    tu.children = vec![5];
    let ast = Ast { ents: vec![m_stat, m_pub, m_prot, f_pub, f_prot, cls, tu], tys: vec![] };
    let root = Namespace::new(&ast, 6);
    let item = &root.entries[0];
    let fields = output_classlike(&ast, &root, item, None, None, None, vec![]);
    assert_eq!(fields.len(), 9);
    let section_count = |idx: usize| -> String {
        let el = as_el(&fields[idx].1);
        let summary = as_el(&el.children[0]);
        let span = as_el(&summary.children[0]);
        span_text(&span.children[2])
    };
    assert_eq!(fields[4].0, "public_static_functions");
    assert_eq!(section_count(4), "1");
    assert_eq!(fields[5].0, "public_member_functions");
    assert_eq!(section_count(5), "1");
    assert_eq!(fields[6].0, "protected_member_functions");
    assert_eq!(section_count(6), "1");
    assert_eq!(fields[7].0, "public_members");
    assert_eq!(section_count(7), "1");
    assert_eq!(fields[8].0, "protected_members");
    assert_eq!(section_count(8), "1");
}

#[test]
fn class_output_lists_member_functions() {
    let mut m = ent(EntityKind::Method, Some("go"));
    m.parent = Some(1);
    let mut cls = ent(EntityKind::ClassDecl, Some("Widget"));
    cls.children = vec![0];
    cls.parent = Some(2);
    let mut tu = ent(EntityKind::TranslationUnit, None);
    tu.children = vec![1];
    let ast = Ast { ents: vec![m, cls, tu], tys: vec![] };
    let root = Namespace::new(&ast, 2);
    let c = cppdoc::tree::Class::new(1);
    let fields = c.output(&ast, &root, None, None);
    assert_eq!(fields.len(), 5);
    assert_eq!(fields[0].0, "name");
    assert_eq!(text_of(&fields[0].1), "Widget");
    assert_eq!(fields[4].0, "public_member_functions");
    match &fields[4].1 {
        Html::List(items) => assert_eq!(items.len(), 1),
        _ => panic!("expected the member list"),
    }
}
