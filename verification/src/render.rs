//! The type renderer: a type reference becomes a display tree — the
//! declaration's scope chain as linked, scope-styled segments, template
//! arguments rendered recursively inside angle brackets, `const` and
//! reference/pointer suffixes after the base — with a link exactly when the
//! declaration is part of the built symbol tree.

use vstd::prelude::*;
use vstd::string::StringExecFns;

use crate::ast::Ast;
use crate::ast::EntityKind;
use crate::ast::TypeKind;
use crate::html::Html;
use crate::html::HtmlElement;
use crate::html::is_span;
use crate::html::is_text;
use crate::tree::ItemM;
use crate::tree::Namespace;
use crate::tree::chain_in;
use crate::tree::entries_inv;
use crate::tree::models;
use crate::url::UrlPath;
use crate::url::joined;

verus! {

broadcast use {vstd::std_specs::vec::group_vec_axioms, vstd::seq::group_seq_axioms};

/// The scope-style class a chain segment gets from its declaration's kind.
pub open spec fn kind_class(k: EntityKind) -> Seq<char> {
    match k {
        EntityKind::Namespace => "namespace"@,
        EntityKind::ClassDecl => "class"@,
        EntityKind::ClassTemplate => "class"@,
        EntityKind::StructDecl => "struct"@,
        EntityKind::FunctionDecl => "fun"@,
        EntityKind::TypedefDecl => "alias"@,
        EntityKind::UsingDeclaration => "alias"@,
        EntityKind::TypeAliasDecl => "alias"@,
        EntityKind::EnumDecl => "enum"@,
        _ => "type"@,
    }
}

fn kind_class_str(k: EntityKind) -> (r: &'static str)
    ensures
        r@ == kind_class(k),
{
    match k {
        EntityKind::Namespace => "namespace",
        EntityKind::ClassDecl => "class",
        EntityKind::ClassTemplate => "class",
        EntityKind::StructDecl => "struct",
        EntityKind::FunctionDecl => "fun",
        EntityKind::TypedefDecl => "alias",
        EntityKind::UsingDeclaration => "alias",
        EntityKind::TypeAliasDecl => "alias",
        EntityKind::EnumDecl => "enum",
        _ => "type",
    }
}

/// The fixed keyword a built-in type renders as; anything outside the
/// closed mapping falls back to the type's own display name.
pub open spec fn builtin_keyword(k: TypeKind, display: Seq<char>) -> Seq<char> {
    match k {
        TypeKind::Void => "void"@,
        TypeKind::Bool => "bool"@,
        TypeKind::Long => "long"@,
        TypeKind::Auto => "auto"@,
        TypeKind::Int => "int"@,
        TypeKind::Short => "short"@,
        TypeKind::CharSigned => "char"@,
        TypeKind::CharUnsigned => "uchar"@,
        TypeKind::Float => "float"@,
        TypeKind::Double => "double"@,
        TypeKind::UInt => "uint"@,
        TypeKind::LongLong => "long long"@,
        _ => display,
    }
}

fn builtin_keyword_str(k: TypeKind, display: &String) -> (r: String)
    ensures
        r@ == builtin_keyword(k, display@),
{
    match k {
        TypeKind::Void => String::from_str("void"),
        TypeKind::Bool => String::from_str("bool"),
        TypeKind::Long => String::from_str("long"),
        TypeKind::Auto => String::from_str("auto"),
        TypeKind::Int => String::from_str("int"),
        TypeKind::Short => String::from_str("short"),
        TypeKind::CharSigned => String::from_str("char"),
        TypeKind::CharUnsigned => String::from_str("uchar"),
        TypeKind::Float => String::from_str("float"),
        TypeKind::Double => String::from_str("double"),
        TypeKind::UInt => String::from_str("uint"),
        TypeKind::LongLong => String::from_str("long long"),
        _ => display.clone(),
    }
}

/// One scope-chain segment: a `span` classed by the declaration's kind,
/// holding the segment's name.
pub open spec fn is_seg_span(ast: &Ast, e: int, h: Html) -> bool {
    is_span(h, seq![kind_class(ast.ents@[e].kind), "name"@], ast.spec_seg_name(e))
}

/// The `::` separator between scope-chain segments.
pub open spec fn is_scope_sep(h: Html) -> bool {
    is_span(h, seq!["scope"@], "::"@)
}

/// The comma between rendered template arguments.
pub open spec fn is_comma_span(h: Html) -> bool {
    is_span(h, seq!["comma"@, "space-after"@], ","@)
}

/// A declaration's whole scope chain, outermost scope first, segments
/// separated by `::`.
pub open spec fn is_chain_list(ast: &Ast, ch: Seq<usize>, h: Html) -> bool {
    &&& h matches Html::List(v)
    &&& v@.len() == if ch.len() == 0 {
        0int
    } else {
        2 * (ch.len() as int) - 1
    }
    &&& forall|j: int|
        0 <= j < v@.len() ==> if j % 2 == 0 {
            is_seg_span(ast, ch[j / 2] as int, #[trigger] v@[j])
        } else {
            is_scope_sep(v@[j])
        }
}

/// The trailing qualifier of a reference or pointer type.
pub open spec fn suffix_of(k: TypeKind) -> Option<Seq<char>> {
    match k {
        TypeKind::LValueReference => Some("&"@),
        TypeKind::RValueReference => Some("&&"@),
        TypeKind::Pointer => Some("*"@),
        _ => None,
    }
}

/// The rendered template-argument list: the arguments in order inside
/// angle brackets, comma-separated; an argument whose type could not be
/// determined renders as the fixed `_unk` placeholder.
pub open spec fn is_args_list(
    ast: &Ast,
    ms: Seq<ItemM>,
    args: Seq<Option<usize>>,
    b: int,
    h: Html,
) -> bool
    decreases b, 0nat,
    when ast.wf() && 0 <= b <= ast.tys@.len() && (forall|i: int|
        0 <= i < args.len() ==> ((#[trigger] args[i]) matches Some(a) ==> a < b))
{
    &&& h matches Html::List(v)
    &&& v@.len() == if args.len() == 0 {
        2int
    } else {
        2 * (args.len() as int) + 1
    }
    &&& is_text(v@[0], "<"@)
    &&& is_text(v@[v@.len() - 1], ">"@)
    &&& forall|j: int|
        1 <= j < v@.len() - 1 ==> if (j - 1) % 2 == 0 {
            match args[(j - 1) / 2] {
                Some(a) => type_html(ast, ms, a as int, #[trigger] v@[j]),
                None => is_text(v@[j], "_unk"@),
            }
        } else {
            is_comma_span(v@[j])
        }
}

/// What the type renderer owes for type `t` against the symbol tree `ms`:
/// one `a` element whose classes flag plain-old-data and unresolved types,
/// whose link is the declaration's canonical URL exactly when the
/// declaration is in the tree, and whose children are the scope chain (or
/// the built-in keyword), the template arguments unless the declaration is
/// an alias, a `const` marker, and the reference/pointer suffix.
pub open spec fn type_html(ast: &Ast, ms: Seq<ItemM>, t: int, r: Html) -> bool
    decreases t, 1nat,
    when ast.wf() && 0 <= t < ast.tys@.len()
    via type_html_decreases
{
    let td = ast.tys@[t];
    let base_i: int = match td.pointee {
        Some(p) => p as int,
        None => t,
    };
    let base = ast.tys@[base_i];
    let linked = base.declaration matches Some(d) && chain_in(ms, ast.chain_names(d as int));
    let url = match base.declaration {
        Some(d) => joined(ast.chain_names(d as int)),
        None => Seq::empty(),
    };
    let is_alias = match base.declaration {
        Some(d) => ast.ents@[d as int].kind is TypedefDecl || ast.ents@[
            d as int
        ].kind is TypeAliasDecl,
        None => false,
    };
    let args_present = base.template_args is Some && !is_alias;
    let n_args: int = if args_present {
        1
    } else {
        0
    };
    let n_const: int = if base.is_const_qualified {
        1
    } else {
        0
    };
    let n_suf: int = if suffix_of(td.kind) is Some {
        1
    } else {
        0
    };
    &&& r matches Html::Element(el)
    &&& el.tag@ == "a"@
    &&& el.classes_view() =~= seq!["entity"@, "type"@] + (if td.is_pod {
        seq!["keyword"@]
    } else {
        Seq::<Seq<char>>::empty()
    }) + (if !linked {
        seq!["disabled"@]
    } else {
        Seq::<Seq<char>>::empty()
    })
    &&& (linked ==> el.attrs_view() =~= seq![
        ("href"@, url),
        ("onclick"@, "return navigate('"@ + url + "'"@),
    ])
    &&& (!linked ==> el.attrs@.len() == 0)
    &&& el.children@.len() == 1 + n_args + n_const + n_suf
    &&& match base.declaration {
        Some(d) => is_chain_list(ast, ast.chain(d as int), el.children@[0]),
        None => is_span(
            el.children@[0],
            seq![
                if base.is_pod {
                    "keyword"@
                } else {
                    "template-param"@
                },
                "name"@,
            ],
            builtin_keyword(base.kind, base.display_name@),
        ),
    }
    &&& (args_present ==> is_args_list(
        ast,
        ms,
        base.template_args->0@,
        base_i,
        el.children@[1],
    ))
    &&& (base.is_const_qualified ==> is_span(
        el.children@[1 + n_args],
        seq!["keyword"@, "space-before"@],
        "const"@,
    ))
    &&& match suffix_of(td.kind) {
        Some(sfx) => is_text(el.children@[1 + n_args + n_const], sfx),
        None => true,
    }
}

#[via_fn]
proof fn type_html_decreases(ast: &Ast, ms: Seq<ItemM>, t: int, r: Html) {
    assert(ast.ty_wf(t));
    match ast.tys@[t].pointee {
        Some(p) => {
            assert(ast.ty_wf(p as int));
        },
        None => {},
    }
}

/// Renders a declaration's scope chain, outermost scope first, with `::`
/// separators.
#[verifier::loop_isolation(false)]
fn fmt_chain_list(ast: &Ast, d: usize) -> (r: Html)
    requires
        ast.wf(),
        d < ast.ents@.len(),
    ensures
        is_chain_list(ast, ast.chain(d as int), r),
{
    let idxs = ast.ancestorage(d);
    proof {
        crate::ast::lemma_chain_valid(ast, d as int);
    }
    let mut items: Vec<Html> = Vec::new();
    let mut i: usize = 0;
    while i < idxs.len()
        invariant
            i <= idxs@.len(),
            items@.len() == if i == 0 {
                0int
            } else {
                2 * i - 1
            },
            forall|j: int|
                0 <= j < items@.len() ==> if j % 2 == 0 {
                    is_seg_span(ast, idxs@[j / 2] as int, #[trigger] items@[j])
                } else {
                    is_scope_sep(items@[j])
                },
        decreases idxs@.len() - i,
    {
        if i > 0 {
            items.push(Html::span1("scope", "::"));
        }
        let e = idxs[i];
        let seg = ast.seg_name(e);
        let h = Html::span2(kind_class_str(ast.ents[e].kind), "name", seg.as_str());
        items.push(h);
        i += 1;
    }
    Html::List(items)
}

/// Renders a template-argument list inside angle brackets.
#[verifier::loop_isolation(false)]
fn fmt_args_list(
    ast: &Ast,
    root: &Namespace,
    args: &Vec<Option<usize>>,
    Ghost(b): Ghost<int>,
) -> (r: Html)
    requires
        ast.wf(),
        entries_inv(ast, root.entries@),
        0 <= b <= ast.tys@.len(),
        forall|i: int|
            0 <= i < args@.len() ==> ((#[trigger] args@[i]) matches Some(a) ==> a < b),
    ensures
        is_args_list(ast, models(ast, root.entries@), args@, b, r),
    decreases b, 0nat,
{
    let ghost ms = models(ast, root.entries@);
    let mut items: Vec<Html> = Vec::new();
    items.push(Html::text("<"));
    let mut i: usize = 0;
    while i < args.len()
        invariant
            i <= args@.len(),
            items@.len() == if i == 0 {
                1int
            } else {
                2 * i
            },
            is_text(items@[0], "<"@),
            forall|j: int|
                1 <= j < items@.len() ==> if (j - 1) % 2 == 0 {
                    match args@[(j - 1) / 2] {
                        Some(a) => type_html(ast, ms, a as int, #[trigger] items@[j]),
                        None => is_text(items@[j], "_unk"@),
                    }
                } else {
                    is_comma_span(items@[j])
                },
        decreases args@.len() - i,
    {
        if i > 0 {
            items.push(Html::span2("comma", "space-after", ","));
        }
        match args[i] {
            Some(a) => {
                let h = fmt_type(ast, root, a);
                items.push(h);
            },
            None => {
                items.push(Html::text("_unk"));
            },
        }
        i += 1;
    }
    items.push(Html::text(">"));
    Html::List(items)
}

/// Renders one type reference against the built symbol tree: the base
/// type's scope chain (linked when the declaration is in the tree, the
/// fixed keyword for built-ins), its template arguments, and the `const`,
/// `&`, `&&` or `*` qualifiers of the reference itself.
pub fn fmt_type(ast: &Ast, root: &Namespace, t: usize) -> (r: Html)
    requires
        ast.wf(),
        entries_inv(ast, root.entries@),
        t < ast.tys@.len(),
    ensures
        type_html(ast, models(ast, root.entries@), t as int, r),
    decreases t, 1nat,
{
    proof {
        assert(ast.ty_wf(t as int));
    }
    let td = &ast.tys[t];
    let base_i: usize = match td.pointee {
        Some(p) => p,
        None => t,
    };
    proof {
        assert(ast.ty_wf(base_i as int));
    }
    let base = &ast.tys[base_i];
    let ghost ms = models(ast, root.entries@);
    let mut link: Option<String> = None;
    let mut is_alias = false;
    let name_part: Html;
    match base.declaration {
        Some(d) => {
            let k = ast.ents[d].kind;
            if k == EntityKind::TypedefDecl || k == EntityKind::TypeAliasDecl {
                is_alias = true;
            }
            let names = ast.chain_parts(d);
            proof {
                assert(Seq::new(names@.len(), |i: int| names@[i]@) =~= ast.chain_names(
                    d as int,
                ));
            }
            if root.contains_chain(ast, &names) {
                let url = UrlPath::from_parts(names);
                proof {
                    assert(url@ =~= ast.chain_names(d as int));
                }
                link = Some(url.to_raw_string());
            }
            name_part = fmt_chain_list(ast, d);
        },
        None => {
            let kw = builtin_keyword_str(base.kind, &base.display_name);
            let c1 = if base.is_pod {
                "keyword"
            } else {
                "template-param"
            };
            name_part = Html::span2(c1, "name", kw.as_str());
        },
    }
    let linked_flag = link.is_some();
    let mut el = HtmlElement::new("a").with_class("entity").with_class("type");
    if td.is_pod {
        el = el.with_class("keyword");
    }
    if !linked_flag {
        el = el.with_class("disabled");
    }
    match &link {
        Some(u) => {
            el = el.with_attr("href", u.clone());
            let mut on = String::from_str("return navigate('");
            on.append(u.as_str());
            on.append("'");
            el = el.with_attr("onclick", on);
        },
        None => {},
    }
    el = el.with_child(name_part);
    if !is_alias {
        match &base.template_args {
            Some(args) => {
                let lst = fmt_args_list(ast, root, args, Ghost(base_i as int));
                el = el.with_child(lst);
            },
            None => {},
        }
    }
    if base.is_const_qualified {
        el = el.with_child(Html::span2("keyword", "space-before", "const"));
    }
    match td.kind {
        TypeKind::LValueReference => {
            el = el.with_child(Html::text("&"));
        },
        TypeKind::RValueReference => {
            el = el.with_child(Html::text("&&"));
        },
        TypeKind::Pointer => {
            el = el.with_child(Html::text("*"));
        },
        _ => {},
    }
    el.into_html()
}

} // verus!
