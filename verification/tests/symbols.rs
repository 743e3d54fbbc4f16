use cppdoc::ast::{Accessibility, Ast, EntityData, EntityKind};
use cppdoc::nav::NavItem;
use cppdoc::tree::{CppItem, Namespace};
use cppdoc::url::UrlPath;

fn ent(kind: EntityKind, name: Option<&str>) -> EntityData {
    EntityData {
        kind,
        name: name.map(|s| s.to_string()),
        display_name: None,
        comment: None,
        in_system_header: false,
        is_definition: true,
        accessibility: Accessibility::Public,
        is_static_method: false,
        is_virtual_method: false,
        is_const_method: false,
        is_pure_virtual_method: false,
        parent: None,
        children: vec![],
        arguments: None,
        ty: None,
        result_type: None,
    }
}

fn name_of(ast: &Ast, item: &CppItem) -> String {
    item.name(ast)
}

#[test]
fn merge_disjoint_namespaces() {
    // 0: class Widget inside first N; 1: first N; 2: function free inside
    // second N; 3: second N; 4: translation unit.
    let mut e0 = ent(EntityKind::ClassDecl, Some("Widget"));
    e0.parent = Some(1);
    let mut e1 = ent(EntityKind::Namespace, Some("N"));
    e1.children = vec![0];
    e1.parent = Some(4);
    let mut e2 = ent(EntityKind::FunctionDecl, Some("free"));
    e2.parent = Some(3);
    let mut e3 = ent(EntityKind::Namespace, Some("N"));
    e3.children = vec![2];
    e3.parent = Some(4);
    let mut e4 = ent(EntityKind::TranslationUnit, None);
    e4.children = vec![1, 3];
    let ast = Ast { ents: vec![e0, e1, e2, e3, e4], tys: vec![] };
    let root = Namespace::new(&ast, 4);
    assert_eq!(root.entries.len(), 1);
    match &root.entries[0] {
        CppItem::Namespace(n) => {
            assert_eq!(n.entity, 1);
            assert_eq!(n.entries.len(), 2);
            let mut names: Vec<String> =
                n.entries.iter().map(|it| name_of(&ast, it)).collect();
            names.sort();
            assert_eq!(names, vec!["Widget".to_string(), "free".to_string()]);
        }
        _ => panic!("expected a namespace entry"),
    }
}

#[test]
fn merge_overlapping_class_last_write_wins() {
    // Two declarations of N, each holding a class A; the later one stays.
    let mut a1 = ent(EntityKind::ClassDecl, Some("A"));
    a1.parent = Some(1);
    let mut n1 = ent(EntityKind::Namespace, Some("N"));
    n1.children = vec![0];
    n1.parent = Some(4);
    let mut a2 = ent(EntityKind::ClassDecl, Some("A"));
    a2.parent = Some(3);
    let mut n2 = ent(EntityKind::Namespace, Some("N"));
    n2.children = vec![2];
    n2.parent = Some(4);
    let mut tu = ent(EntityKind::TranslationUnit, None);
    tu.children = vec![1, 3];
    let ast = Ast { ents: vec![a1, n1, a2, n2, tu], tys: vec![] };
    let root = Namespace::new(&ast, 4);
    assert_eq!(root.entries.len(), 1);
    match &root.entries[0] {
        CppItem::Namespace(n) => {
            assert_eq!(n.entries.len(), 1);
            match &n.entries[0] {
                CppItem::Class(c) => assert_eq!(c.entity, 2),
                _ => panic!("expected the later class"),
            }
        }
        _ => panic!("expected a namespace entry"),
    }
}

#[test]
fn merge_is_recursive_through_nested_namespaces() {
    // N { M { One } } and N { M { Two } }: the merged N.M holds both.
    let mut one = ent(EntityKind::ClassDecl, Some("One"));
    one.parent = Some(1);
    let mut m1 = ent(EntityKind::Namespace, Some("M"));
    m1.children = vec![0];
    m1.parent = Some(2);
    let mut n1 = ent(EntityKind::Namespace, Some("N"));
    n1.children = vec![1];
    n1.parent = Some(6);
    let mut two = ent(EntityKind::ClassDecl, Some("Two"));
    two.parent = Some(4);
    let mut m2 = ent(EntityKind::Namespace, Some("M"));
    m2.children = vec![3];
    m2.parent = Some(5);
    let mut n2 = ent(EntityKind::Namespace, Some("N"));
    n2.children = vec![4];
    n2.parent = Some(6);
    let mut tu = ent(EntityKind::TranslationUnit, None);
    tu.children = vec![2, 5];
    let ast = Ast { ents: vec![one, m1, n1, two, m2, n2, tu], tys: vec![] };
    let root = Namespace::new(&ast, 6);
    assert_eq!(root.entries.len(), 1);
    let n = match &root.entries[0] {
        CppItem::Namespace(n) => n,
        _ => panic!("expected namespace N"),
    };
    assert_eq!(n.entries.len(), 1);
    let m = match &n.entries[0] {
        CppItem::Namespace(m) => m,
        _ => panic!("expected namespace M"),
    };
    assert_eq!(m.entries.len(), 2);
    let mut names: Vec<String> = m.entries.iter().map(|it| name_of(&ast, it)).collect();
    names.sort();
    assert_eq!(names, vec!["One".to_string(), "Two".to_string()]);
}

#[test]
fn class_overwrites_function_of_same_name() {
    let mut f = ent(EntityKind::FunctionDecl, Some("Thing"));
    f.parent = Some(2);
    let mut c = ent(EntityKind::ClassDecl, Some("Thing"));
    c.parent = Some(2);
    let mut tu = ent(EntityKind::TranslationUnit, None);
    tu.children = vec![0, 1];
    let ast = Ast { ents: vec![f, c, tu], tys: vec![] };
    let root = Namespace::new(&ast, 2);
    assert_eq!(root.entries.len(), 1);
    assert!(matches!(&root.entries[0], CppItem::Class(_)));
}

#[test]
fn forward_declared_class_is_skipped() {
    let mut c = ent(EntityKind::ClassDecl, Some("Fwd"));
    c.is_definition = false;
    c.parent = Some(1);
    let mut tu = ent(EntityKind::TranslationUnit, None);
    tu.children = vec![0];
    let ast = Ast { ents: vec![c, tu], tys: vec![] };
    let root = Namespace::new(&ast, 1);
    assert_eq!(root.entries.len(), 0);
}

#[test]
fn system_header_and_anonymous_excluded() {
    let mut sys = ent(EntityKind::ClassDecl, Some("FromSystem"));
    sys.in_system_header = true;
    sys.parent = Some(2);
    let mut anon = ent(EntityKind::ClassDecl, None);
    anon.parent = Some(2);
    let mut tu = ent(EntityKind::TranslationUnit, None);
    tu.children = vec![0, 1];
    let ast = Ast { ents: vec![sys, anon, tu], tys: vec![] };
    let root = Namespace::new(&ast, 2);
    assert_eq!(root.entries.len(), 0);
}

#[test]
fn url_determinism() {
    let a = UrlPath::from_parts(vec!["a".to_string(), "b".to_string(), "C".to_string()]);
    let b = UrlPath::from_parts(vec!["a".to_string(), "b".to_string(), "C".to_string()]);
    let c = UrlPath::from_parts(vec!["a".to_string(), "b".to_string(), "D".to_string()]);
    assert_eq!(a.to_raw_string(), "a/b/C");
    assert_eq!(a.to_raw_string(), b.to_raw_string());
    assert_ne!(a.to_raw_string(), c.to_raw_string());
}

#[test]
fn url_of_nested_entity_follows_scope_chain() {
    let mut c = ent(EntityKind::ClassDecl, Some("C"));
    c.parent = Some(1);
    let mut b = ent(EntityKind::Namespace, Some("b"));
    b.children = vec![0];
    b.parent = Some(2);
    let mut a = ent(EntityKind::Namespace, Some("a"));
    a.children = vec![1];
    a.parent = Some(3);
    let mut tu = ent(EntityKind::TranslationUnit, None);
    tu.children = vec![2];
    let ast = Ast { ents: vec![c, b, a, tu], tys: vec![] };
    let url = cppdoc::tree::url_of_entity(&ast, 0);
    assert_eq!(url.to_raw_string(), "a/b/C");
}

#[test]
fn nav_ordering_namespaces_first_then_alphabetical() {
    // Children Zeta (namespace), Alpha (class), Beta (namespace),
    // Gamma (function): the order must be Beta, Zeta, Alpha, Gamma.
    let mut zeta = ent(EntityKind::Namespace, Some("Zeta"));
    zeta.parent = Some(4);
    let mut alpha = ent(EntityKind::ClassDecl, Some("Alpha"));
    alpha.parent = Some(4);
    let mut beta = ent(EntityKind::Namespace, Some("Beta"));
    beta.parent = Some(4);
    let mut gamma = ent(EntityKind::FunctionDecl, Some("Gamma"));
    gamma.parent = Some(4);
    let mut tu = ent(EntityKind::TranslationUnit, None);
    tu.children = vec![0, 1, 2, 3];
    let ast = Ast { ents: vec![zeta, alpha, beta, gamma, tu], tys: vec![] };
    let root = Namespace::new(&ast, 4);
    let nav = root.nav(&ast);
    let children = match nav {
        NavItem::Root { children } => children,
        _ => panic!("the translation unit must render as a root node"),
    };
    let labels: Vec<String> = children
        .iter()
        .map(|n| match n {
            NavItem::Dir { label, .. } => label.clone(),
            NavItem::Link { label, .. } => label.clone(),
            NavItem::Root { .. } => panic!("no nested root"),
        })
        .collect();
    assert_eq!(labels, vec!["Beta", "Zeta", "Alpha", "Gamma"]);
    assert!(matches!(children[0], NavItem::Dir { .. }));
    assert!(matches!(children[1], NavItem::Dir { .. }));
    match &children[2] {
        NavItem::Link { icon, url, .. } => {
            assert_eq!(icon.as_deref(), Some("box"));
            assert_eq!(url.to_raw_string(), "Alpha");
        }
        _ => panic!("classes are leaf links"),
    }
    match &children[3] {
        NavItem::Link { icon, .. } => assert_eq!(icon.as_deref(), Some("code")),
        _ => panic!("functions are leaf links"),
    }
}

#[test]
fn get_collects_matching_entries() {
    let mut w = ent(EntityKind::ClassDecl, Some("Widget"));
    w.parent = Some(1);
    let mut n = ent(EntityKind::Namespace, Some("N"));
    n.children = vec![0];
    n.parent = Some(3);
    let mut f = ent(EntityKind::FunctionDecl, Some("free"));
    f.parent = Some(3);
    let mut tu = ent(EntityKind::TranslationUnit, None);
    tu.children = vec![1, 2];
    let ast = Ast { ents: vec![w, n, f, tu], tys: vec![] };
    let root = Namespace::new(&ast, 3);
    let all = root.get(&|_it: &CppItem| true);
    assert_eq!(all.len(), 3);
    let classes = root.get(&|it: &CppItem| matches!(it, CppItem::Class(_)));
    assert_eq!(classes.len(), 1);
}
