//! Per-entry output: the rendered fields handed to the template
//! collaborator for one symbol — name, description, header link, example
//! and member sections — with every member list filtered from the
//! declaration's children by kind, staticness and accessibility.

use vstd::prelude::*;
use vstd::string::StringExecFns;

use crate::ast::Accessibility;
use crate::ast::Ast;
use crate::ast::EntityKind;
use crate::html::Html;
use crate::html::HtmlElement;
use crate::html::is_p;
use crate::html::is_span;
use crate::html::is_text;
use crate::markdown::div_text_html;
use crate::markdown::fmt_markdown;
use crate::markdown::md_html_of;
use crate::render::fmt_type;
use crate::render::type_html;
use crate::tree::CppItem;
use crate::tree::ItemM;
use crate::tree::Namespace;
use crate::tree::entries_inv;
use crate::tree::item_entity;
use crate::tree::models;
use crate::tree::spec_item_name;
use crate::tree::spec_opt_name;
use crate::url::UrlPath;
use crate::url::joined;

verus! {

broadcast use {vstd::std_specs::vec::group_vec_axioms, vstd::seq::group_seq_axioms};

/// The decimal digit character of one value below ten.
pub open spec fn digit(d: nat) -> char {
    if d == 0 {
        '0'
    } else if d == 1 {
        '1'
    } else if d == 2 {
        '2'
    } else if d == 3 {
        '3'
    } else if d == 4 {
        '4'
    } else if d == 5 {
        '5'
    } else if d == 6 {
        '6'
    } else if d == 7 {
        '7'
    } else if d == 8 {
        '8'
    } else {
        '9'
    }
}

/// The decimal writing of a number.
pub open spec fn dec_str(n: nat) -> Seq<char>
    decreases n,
{
    if n < 10 {
        seq![digit(n)]
    } else {
        dec_str(n / 10).push(digit(n % 10))
    }
}

fn digit_exec(d: usize) -> (r: char)
    requires
        d < 10,
    ensures
        r == digit(d as nat),
{
    if d == 0 {
        '0'
    } else if d == 1 {
        '1'
    } else if d == 2 {
        '2'
    } else if d == 3 {
        '3'
    } else if d == 4 {
        '4'
    } else if d == 5 {
        '5'
    } else if d == 6 {
        '6'
    } else if d == 7 {
        '7'
    } else if d == 8 {
        '8'
    } else {
        '9'
    }
}

fn push_dec(n: usize, out: &mut Vec<char>)
    ensures
        final(out)@ == old(out)@ + dec_str(n as nat),
    decreases n,
{
    if n >= 10 {
        push_dec(n / 10, out);
    }
    out.push(digit_exec(n % 10));
    proof {
        if n < 10 {
            assert(old(out)@ + dec_str(n as nat) =~= out@);
        } else {
            assert(old(out)@ + dec_str(n as nat) =~= out@);
        }
    }
}

/// The decimal writing of a count.
pub fn usize_to_dec(n: usize) -> (r: String)
    ensures
        r@ == dec_str(n as nat),
{
    let mut v: Vec<char> = Vec::new();
    push_dec(n, &mut v);
    proof {
        assert(v@ =~= dec_str(n as nat));
    }
    crate::emoji::chars_to_string(&v)
}

/// A collapsible section: an open `details` whose summary shows a chevron
/// icon, the title and a badge with the number of items, and whose body
/// lists the items.
pub open spec fn is_section(r: Html, title: Seq<char>, data: Seq<Html>) -> bool {
    &&& r matches Html::Element(el)
    &&& el.tag@ == "details"@
    &&& el.classes_view() =~= seq!["section"@]
    &&& el.attrs_view() =~= seq![("open"@, ""@)]
    &&& el.children@.len() == 2
    &&& el.children@[0] matches Html::Element(sm) && sm.tag@ == "summary"@ && sm.classes@.len()
        == 0 && sm.attrs@.len() == 0 && sm.children@.len() == 1 && (sm.children@[0] matches
    Html::Element(sp) && sp.tag@ == "span"@ && sp.classes@.len() == 0 && sp.attrs@.len() == 0
        && sp.children@.len() == 3 && (sp.children@[0] matches Html::Element(ic) && ic.tag@
        == "i"@ && ic.classes_view() =~= seq!["feather"@, "chevron-right"@]) && is_text(
        sp.children@[1],
        title,
    ) && is_span(sp.children@[2], seq!["badge"@], dec_str(data.len())))
    &&& el.children@[1] matches Html::Element(dv) && dv.tag@ == "div"@ && dv.classes@.len()
        == 0 && dv.attrs@.len() == 0 && dv.children@.len() == 1 && (dv.children@[0] matches
    Html::List(l) && l@ == data)
}

/// Renders one titled section of items.
pub fn fmt_section(title: &str, data: Vec<Html>) -> (r: Html)
    ensures
        is_section(r, title@, data@),
{
    proof {
        reveal_strlit("");
        assert(""@ =~= Seq::<char>::empty());
    }
    let badge = usize_to_dec(data.len());
    let span = HtmlElement::new("span").with_child(Html::feather("chevron-right")).with_child(
        Html::text(title),
    ).with_child(Html::span1("badge", badge.as_str()));
    let summary = HtmlElement::new("summary").with_child(span.into_html());
    let body = HtmlElement::new("div").with_child(Html::List(data));
    let el = HtmlElement::new("details").with_attr("open", String::new()).with_class(
        "section",
    ).with_child(summary.into_html()).with_child(body.into_html());
    proof {
        assert(el.tag@ == "details"@);
        assert(el.classes_view() =~= seq!["section"@]);
        assert(el.attrs_view() =~= seq![("open"@, ""@)]);
        assert(el.children@.len() == 2);
        assert(el.children@[0] matches Html::Element(sm) && sm.tag@ == "summary"@
            && sm.classes@.len() == 0 && sm.attrs@.len() == 0 && sm.children@.len() == 1);
    }
    el.into_html()
}

/// A rendered parameter or field head: its type, then its display name.
pub open spec fn param_html(ast: &Ast, ms: Seq<ItemM>, e: int, r: Html) -> bool {
    let ent = ast.ents@[e];
    let n_ty: int = if ent.ty is Some {
        1
    } else {
        0
    };
    let n_nm: int = if ent.display_name is Some {
        1
    } else {
        0
    };
    &&& r matches Html::Element(el)
    &&& el.tag@ == "div"@
    &&& el.classes_view() =~= seq!["entity"@, "var"@]
    &&& el.attrs@.len() == 0
    &&& el.children@.len() == n_ty + n_nm
    &&& (ent.ty matches Some(t) ==> type_html(ast, ms, t as int, el.children@[0]))
    &&& (ent.display_name matches Some(dn) ==> is_span(
        el.children@[n_ty],
        seq!["name"@, "space-before"@],
        dn@,
    ))
}

/// Renders a parameter or field head.
pub fn fmt_param(ast: &Ast, root: &Namespace, param: usize) -> (r: Html)
    requires
        ast.wf(),
        entries_inv(ast, root.entries@),
        param < ast.ents@.len(),
    ensures
        param_html(ast, models(ast, root.entries@), param as int, r),
{
    proof {
        assert(ast.ent_wf(param as int));
    }
    let mut el = HtmlElement::new("div").with_class("entity").with_class("var");
    match ast.ents[param].ty {
        Some(t) => {
            el = el.with_child(fmt_type(ast, root, t));
        },
        None => {},
    }
    match &ast.ents[param].display_name {
        Some(dn) => {
            el = el.with_child(Html::span2("name", "space-before", dn.as_str()));
        },
        None => {},
    }
    el.into_html()
}

/// The description block of a declaration: its comment rendered as
/// markdown, or the fixed placeholder.
pub open spec fn desc_html(comment: Option<String>, placeholder: Seq<char>, r: Html) -> bool {
    match comment {
        Some(c) => div_text_html(r, md_html_of(c@)),
        None => is_p(r, placeholder),
    }
}

fn fmt_desc(comment: &Option<String>, placeholder: &str) -> (r: Html)
    ensures
        desc_html(*comment, placeholder@, r),
{
    match comment {
        Some(c) => fmt_markdown(c),
        None => Html::p(placeholder),
    }
}

/// A rendered field: a collapsible block whose summary shows the field
/// head and a semicolon, and whose body holds the field's description.
pub open spec fn field_html(ast: &Ast, ms: Seq<ItemM>, e: int, r: Html) -> bool {
    &&& r matches Html::Element(el)
    &&& el.tag@ == "details"@
    &&& el.classes_view() =~= seq!["entity-desc"@]
    &&& el.attrs@.len() == 0
    &&& el.children@.len() == 2
    &&& el.children@[0] matches Html::Element(sm) && sm.tag@ == "summary"@
        && sm.classes_view() =~= seq!["entity"@, "var"@] && sm.children@.len() == 2
        && param_html(ast, ms, e, sm.children@[0]) && is_text(sm.children@[1], ";"@)
    &&& el.children@[1] matches Html::Element(dv) && dv.tag@ == "div"@ && dv.children@.len()
        == 1 && desc_html(ast.ents@[e].comment, "No description provided"@, dv.children@[0])
}

/// Renders one field with its description.
pub fn fmt_field(ast: &Ast, root: &Namespace, field: usize) -> (r: Html)
    requires
        ast.wf(),
        entries_inv(ast, root.entries@),
        field < ast.ents@.len(),
    ensures
        field_html(ast, models(ast, root.entries@), field as int, r),
{
    let summary = HtmlElement::new("summary").with_class("entity").with_class("var")
        .with_child(fmt_param(ast, root, field)).with_child(Html::text(";"));
    let body = HtmlElement::new("div").with_child(
        fmt_desc(&ast.ents[field].comment, "No description provided"),
    );
    HtmlElement::new("details").with_class("entity-desc").with_child(summary.into_html())
        .with_child(body.into_html()).into_html()
}

/// A rendered parameter list: the parameters in order inside parentheses,
/// comma-separated.
pub open spec fn params_list_html(ast: &Ast, ms: Seq<ItemM>, args: Seq<usize>, r: Html) -> bool {
    &&& r matches Html::Element(el)
    &&& el.tag@ == "span"@
    &&& el.classes_view() =~= seq!["params"@]
    &&& el.children@.len() == (if args.len() == 0 {
        2int
    } else {
        2 * (args.len() as int) + 1
    })
    &&& is_text(el.children@[0], "("@)
    &&& is_text(el.children@[el.children@.len() - 1], ")"@)
    &&& forall|j: int|
        1 <= j < el.children@.len() - 1 ==> if (j - 1) % 2 == 0 {
            param_html(ast, ms, args[(j - 1) / 2] as int, #[trigger] el.children@[j])
        } else {
            is_span(el.children@[j], seq!["comma"@, "space-after"@], ","@)
        }
}

#[verifier::loop_isolation(false)]
fn fmt_params_list(ast: &Ast, root: &Namespace, args: &Vec<usize>) -> (r: Html)
    requires
        ast.wf(),
        entries_inv(ast, root.entries@),
        forall|i: int| 0 <= i < args@.len() ==> (#[trigger] args@[i]) < ast.ents@.len(),
    ensures
        params_list_html(ast, models(ast, root.entries@), args@, r),
{
    let ghost ms = models(ast, root.entries@);
    let mut items: Vec<Html> = Vec::new();
    items.push(Html::text("("));
    let mut i: usize = 0;
    while i < args.len()
        invariant
            i <= args@.len(),
            items@.len() == if i == 0 {
                1int
            } else {
                2 * i
            },
            is_text(items@[0], "("@),
            forall|j: int|
                1 <= j < items@.len() ==> if (j - 1) % 2 == 0 {
                    param_html(ast, ms, args@[(j - 1) / 2] as int, #[trigger] items@[j])
                } else {
                    is_span(items@[j], seq!["comma"@, "space-after"@], ","@)
                },
        decreases args@.len() - i,
    {
        if i > 0 {
            items.push(Html::span2("comma", "space-after", ","));
        }
        items.push(fmt_param(ast, root, args[i]));
        i += 1;
    }
    items.push(Html::text(")"));
    let mut classes: Vec<String> = Vec::new();
    classes.push(String::from_str("params"));
    let el = HtmlElement { tag: String::from_str("span"), classes, attrs: Vec::new(), children: items };
    proof {
        assert(el.classes_view() =~= seq!["params"@]);
    }
    el.into_html()
}

/// The `= 0` marker of a pure virtual method.
pub open spec fn pure_marker(h: Html) -> bool {
    &&& h matches Html::List(v)
    &&& v@.len() == 2
    &&& is_span(v@[0], seq!["space-before"@], "="@)
    &&& is_span(v@[1], seq!["space-before"@, "literal"@], "0"@)
}

/// A rendered function or method declaration: a collapsible block whose
/// summary shows `static`/`virtual` markers, the result type, the name,
/// the parameter list, a trailing `const` and the pure-virtual marker, and
/// whose body holds the declaration's description.
pub open spec fn fun_decl_html(ast: &Ast, ms: Seq<ItemM>, e: int, r: Html) -> bool {
    let ent = ast.ents@[e];
    let n_st: int = if ent.is_static_method {
        1
    } else {
        0
    };
    let n_vt: int = if ent.is_virtual_method {
        1
    } else {
        0
    };
    let n_rt: int = if ent.result_type is Some {
        1
    } else {
        0
    };
    let n_ct: int = if ent.is_const_method {
        1
    } else {
        0
    };
    let n_pv: int = if ent.is_pure_virtual_method {
        1
    } else {
        0
    };
    let args: Seq<usize> = match ent.arguments {
        Some(a) => a@,
        None => Seq::empty(),
    };
    &&& r matches Html::Element(el)
    &&& el.tag@ == "details"@
    &&& el.classes_view() =~= seq!["entity-desc"@]
    &&& el.attrs@.len() == 0
    &&& el.children@.len() == 2
    &&& el.children@[0] matches Html::Element(sm) && sm.tag@ == "summary"@
        && sm.classes_view() =~= seq!["entity"@, "fun"@] && sm.attrs@.len() == 0
        && sm.children@.len() == n_st + n_vt + n_rt + 2 + n_ct + n_pv && (ent.is_static_method
        ==> is_span(sm.children@[0], seq!["keyword"@, "space-after"@], "static"@)) && (
    ent.is_virtual_method ==> is_span(
        sm.children@[n_st],
        seq!["keyword"@, "space-after"@],
        "virtual"@,
    )) && (ent.result_type matches Some(t) ==> type_html(
        ast,
        ms,
        t as int,
        sm.children@[n_st + n_vt],
    )) && is_span(
        sm.children@[n_st + n_vt + n_rt],
        seq!["name"@, "space-before"@],
        spec_opt_name(ent.name, "_anon"@),
    ) && params_list_html(ast, ms, args, sm.children@[n_st + n_vt + n_rt + 1]) && (
    ent.is_const_method ==> is_span(
        sm.children@[n_st + n_vt + n_rt + 2],
        seq!["keyword"@, "space-before"@],
        "const"@,
    )) && (ent.is_pure_virtual_method ==> pure_marker(
        sm.children@[n_st + n_vt + n_rt + 2 + n_ct],
    ))
    &&& el.children@[1] matches Html::Element(dv) && dv.tag@ == "div"@ && dv.children@.len()
        == 1 && desc_html(ent.comment, "No description provided"@, dv.children@[0])
}

/// Renders one function or method declaration with its description.
pub fn fmt_fun_decl(ast: &Ast, root: &Namespace, fun: usize) -> (r: Html)
    requires
        ast.wf(),
        entries_inv(ast, root.entries@),
        fun < ast.ents@.len(),
    ensures
        fun_decl_html(ast, models(ast, root.entries@), fun as int, r),
{
    proof {
        assert(ast.ent_wf(fun as int));
    }
    let mut sm = HtmlElement::new("summary").with_class("entity").with_class("fun");
    if ast.ents[fun].is_static_method {
        sm = sm.with_child(Html::span2("keyword", "space-after", "static"));
    }
    if ast.ents[fun].is_virtual_method {
        sm = sm.with_child(Html::span2("keyword", "space-after", "virtual"));
    }
    match ast.ents[fun].result_type {
        Some(t) => {
            sm = sm.with_child(fmt_type(ast, root, t));
        },
        None => {},
    }
    let nm = match &ast.ents[fun].name {
        Some(n) => n.clone(),
        None => String::from_str("_anon"),
    };
    sm = sm.with_child(Html::span2("name", "space-before", nm.as_str()));
    let params = match &ast.ents[fun].arguments {
        Some(args) => fmt_params_list(ast, root, args),
        None => {
            let empty: Vec<usize> = Vec::new();
            proof {
                assert(empty@ =~= Seq::<usize>::empty());
            }
            fmt_params_list(ast, root, &empty)
        },
    };
    sm = sm.with_child(params);
    if ast.ents[fun].is_const_method {
        sm = sm.with_child(Html::span2("keyword", "space-before", "const"));
    }
    if ast.ents[fun].is_pure_virtual_method {
        let mut marker: Vec<Html> = Vec::new();
        marker.push(Html::span1("space-before", "="));
        marker.push(Html::span2("space-before", "literal", "0"));
        sm = sm.with_child(Html::List(marker));
    }
    let body = HtmlElement::new("div").with_child(
        fmt_desc(&ast.ents[fun].comment, "No description provided"),
    );
    HtmlElement::new("details").with_class("entity-desc").with_child(sm.into_html())
        .with_child(body.into_html()).into_html()
}

/// The header reference of an entry: a linked `#include` line when the
/// header's location, include path and online source are all known (the
/// link disabled when the source is not online), and a fixed placeholder
/// otherwise.
pub open spec fn header_link_html(
    link: Option<String>,
    path: Option<UrlPath>,
    online: Option<bool>,
    r: Html,
) -> bool {
    if link is Some && path is Some && online is Some {
        let disabled = !online->0;
        &&& r matches Html::Element(a)
        &&& a.tag@ == "a"@
        &&& a.attrs_view() =~= if disabled {
            Seq::<(Seq<char>, Seq<char>)>::empty()
        } else {
            seq![("href"@, link->0@)]
        }
        &&& a.classes_view() =~= seq!["header-link"@] + (if disabled {
            seq!["disabled"@]
        } else {
            Seq::<Seq<char>>::empty()
        })
        &&& a.children@.len() == 1
        &&& a.children@[0] matches Html::Element(code) && code.tag@ == "code"@
            && code.classes_view() =~= seq!["header-link"@] && code.children@.len() == 2
            && is_span(code.children@[0], seq!["keyword"@], "#include "@) && is_span(
            code.children@[1],
            seq!["url"@],
            "&lt;"@ + joined(path->0@) + "&gt;"@,
        )
    } else {
        is_p(r, "&lt;Not available online&gt;"@)
    }
}

/// Renders the header reference of an entry.
pub fn fmt_header_link(
    link: Option<String>,
    include_path: Option<UrlPath>,
    source_online: Option<bool>,
) -> (r: Html)
    ensures
        header_link_html(link, include_path, source_online, r),
{
    match (link, include_path, source_online) {
        (Some(u), Some(p), Some(online)) => {
            let mut path_text = String::from_str("&lt;");
            path_text.append(p.to_raw_string().as_str());
            path_text.append("&gt;");
            let code = HtmlElement::new("code").with_class("header-link").with_child(
                Html::span1("keyword", "#include "),
            ).with_child(Html::span1("url", path_text.as_str()));
            let disabled = !online;
            let a = HtmlElement::new("a").with_attr_opt(
                "href",
                if disabled {
                    None
                } else {
                    Some(u)
                },
            ).with_class("header-link").with_class_opt(
                if disabled {
                    Some("disabled")
                } else {
                    None
                },
            ).with_child(code.into_html());
            a.into_html()
        },
        _ => Html::p("&lt;Not available online&gt;"),
    }
}

/// The four fields every entry's page gets: its name, its description,
/// its header reference, and its examples section.
pub fn output_entity(
    ast: &Ast,
    root: &Namespace,
    item: &CppItem,
    link: Option<String>,
    include_path: Option<UrlPath>,
    source_online: Option<bool>,
    examples: Vec<Html>,
) -> (r: Vec<(String, Html)>)
    requires
        ast.wf(),
        entries_inv(ast, root.entries@),
        0 <= item_entity(*item) < ast.ents@.len(),
    ensures
        r@.len() == 4,
        r@[0].0@ == "name"@ && is_text(r@[0].1, spec_item_name(ast, *item)),
        r@[1].0@ == "description"@ && desc_html(
            ast.ents@[item_entity(*item)].comment,
            "No Description Provided"@,
            r@[1].1,
        ),
        r@[2].0@ == "header_link"@ && header_link_html(
            link,
            include_path,
            source_online,
            r@[2].1,
        ),
        r@[3].0@ == "examples"@ && is_section(r@[3].1, "Examples"@, examples@),
{
    let mut r: Vec<(String, Html)> = Vec::new();
    r.push((String::from_str("name"), Html::Text(item.name(ast))));
    r.push(
        (
            String::from_str("description"),
            fmt_desc(&ast.ents[item.entity()].comment, "No Description Provided"),
        ),
    );
    r.push(
        (
            String::from_str("header_link"),
            fmt_header_link(link, include_path, source_online),
        ),
    );
    r.push((String::from_str("examples"), fmt_section("Examples", examples)));
    r
}

/// Whether a child declaration belongs to one member section.
pub open spec fn child_passes(
    ast: &Ast,
    c: int,
    kind: EntityKind,
    want_static: Option<bool>,
    access: Option<Accessibility>,
) -> bool {
    &&& ast.ents@[c].kind == kind
    &&& (want_static matches Some(b) ==> ast.ents@[c].is_static_method == b)
    &&& (access matches Some(a) ==> ast.ents@[c].accessibility == a)
}

/// The children of a declaration that belong to one member section, in
/// declaration order.
pub open spec fn filtered_children(
    ast: &Ast,
    cs: Seq<usize>,
    kind: EntityKind,
    want_static: Option<bool>,
    access: Option<Accessibility>,
) -> Seq<usize>
    decreases cs.len(),
{
    if cs.len() == 0 {
        Seq::empty()
    } else {
        let prev = filtered_children(ast, cs.drop_last(), kind, want_static, access);
        if child_passes(ast, cs.last() as int, kind, want_static, access) {
            prev.push(cs.last())
        } else {
            prev
        }
    }
}

/// Renders the members of one section, in declaration order.
#[verifier::loop_isolation(false)]
fn collect_members(
    ast: &Ast,
    root: &Namespace,
    parent: usize,
    kind: EntityKind,
    want_static: Option<bool>,
    access: Option<Accessibility>,
    as_field: bool,
) -> (r: Vec<Html>)
    requires
        ast.wf(),
        entries_inv(ast, root.entries@),
        parent < ast.ents@.len(),
    ensures
        ({
            let fs = filtered_children(
                ast,
                ast.ents@[parent as int].children@,
                kind,
                want_static,
                access,
            );
            r@.len() == fs.len() && forall|i: int|
                0 <= i < fs.len() ==> if as_field {
                    field_html(ast, models(ast, root.entries@), fs[i] as int, #[trigger] r@[i])
                } else {
                    fun_decl_html(ast, models(ast, root.entries@), fs[i] as int, r@[i])
                }
        }),
{
    let ghost cs = ast.ents@[parent as int].children@;
    proof {
        assert(ast.ent_wf(parent as int));
        assert(cs.take(0) =~= Seq::<usize>::empty());
    }
    let mut r: Vec<Html> = Vec::new();
    let n = ast.ents[parent].children.len();
    let mut k: usize = 0;
    while k < n
        invariant
            k <= n,
            n == cs.len(),
            ({
                let fs = filtered_children(ast, cs.take(k as int), kind, want_static, access);
                r@.len() == fs.len() && forall|i: int|
                    0 <= i < fs.len() ==> if as_field {
                        field_html(
                            ast,
                            models(ast, root.entries@),
                            fs[i] as int,
                            #[trigger] r@[i],
                        )
                    } else {
                        fun_decl_html(ast, models(ast, root.entries@), fs[i] as int, r@[i])
                    }
            }),
        decreases n - k,
    {
        let c = ast.ents[parent].children[k];
        let e = &ast.ents[c];
        let mut take_it = e.kind == kind;
        if take_it {
            match want_static {
                Some(b) => {
                    if e.is_static_method != b {
                        take_it = false;
                    }
                },
                None => {},
            }
        }
        if take_it {
            match access {
                Some(a) => {
                    if e.accessibility != a {
                        take_it = false;
                    }
                },
                None => {},
            }
        }
        if take_it {
            if as_field {
                r.push(fmt_field(ast, root, c));
            } else {
                r.push(fmt_fun_decl(ast, root, c));
            }
        }
        proof {
            assert(cs.take(k + 1).drop_last() =~= cs.take(k as int));
            assert(cs.take(k + 1).last() == cs[k as int]);
        }
        k += 1;
    }
    proof {
        assert(cs.take(cs.len() as int) =~= cs);
    }
    r
}

/// One member section of a class-like page: a titled section whose items
/// are the rendered members belonging to it.
pub open spec fn member_section_html(
    ast: &Ast,
    ms: Seq<ItemM>,
    fs: Seq<usize>,
    title: Seq<char>,
    as_field: bool,
    r: Html,
) -> bool {
    exists|d: Seq<Html>|
        #![trigger is_section(r, title, d)]
        is_section(r, title, d) && d.len() == fs.len() && forall|i: int|
            0 <= i < fs.len() ==> if as_field {
                field_html(ast, ms, fs[i] as int, #[trigger] d[i])
            } else {
                fun_decl_html(ast, ms, fs[i] as int, d[i])
            }
}

/// The whole field list of a class-like entry's page: the four common
/// fields, then the method and field sections, each filtered from the
/// declaration's children by kind, staticness and accessibility.
pub fn output_classlike(
    ast: &Ast,
    root: &Namespace,
    item: &CppItem,
    link: Option<String>,
    include_path: Option<UrlPath>,
    source_online: Option<bool>,
    examples: Vec<Html>,
) -> (r: Vec<(String, Html)>)
    requires
        ast.wf(),
        entries_inv(ast, root.entries@),
        0 <= item_entity(*item) < ast.ents@.len(),
    ensures
        r@.len() == 9,
        r@[0].0@ == "name"@ && is_text(r@[0].1, spec_item_name(ast, *item)),
        r@[1].0@ == "description"@ && desc_html(
            ast.ents@[item_entity(*item)].comment,
            "No Description Provided"@,
            r@[1].1,
        ),
        r@[2].0@ == "header_link"@ && header_link_html(
            link,
            include_path,
            source_online,
            r@[2].1,
        ),
        r@[3].0@ == "examples"@ && is_section(r@[3].1, "Examples"@, examples@),
        r@[4].0@ == "public_static_functions"@ && member_section_html(
            ast,
            models(ast, root.entries@),
            filtered_children(
                ast,
                ast.ents@[item_entity(*item)].children@,
                EntityKind::Method,
                Some(true),
                Some(Accessibility::Public),
            ),
            "Public static methods"@,
            false,
            r@[4].1,
        ),
        r@[5].0@ == "public_member_functions"@ && member_section_html(
            ast,
            models(ast, root.entries@),
            filtered_children(
                ast,
                ast.ents@[item_entity(*item)].children@,
                EntityKind::Method,
                Some(false),
                Some(Accessibility::Public),
            ),
            "Public member functions"@,
            false,
            r@[5].1,
        ),
        r@[6].0@ == "protected_member_functions"@ && member_section_html(
            ast,
            models(ast, root.entries@),
            filtered_children(
                ast,
                ast.ents@[item_entity(*item)].children@,
                EntityKind::Method,
                Some(false),
                Some(Accessibility::Protected),
            ),
            "Protected member functions"@,
            false,
            r@[6].1,
        ),
        r@[7].0@ == "public_members"@ && member_section_html(
            ast,
            models(ast, root.entries@),
            filtered_children(
                ast,
                ast.ents@[item_entity(*item)].children@,
                EntityKind::FieldDecl,
                None,
                Some(Accessibility::Public),
            ),
            "Fields"@,
            true,
            r@[7].1,
        ),
        r@[8].0@ == "protected_members"@ && member_section_html(
            ast,
            models(ast, root.entries@),
            filtered_children(
                ast,
                ast.ents@[item_entity(*item)].children@,
                EntityKind::FieldDecl,
                None,
                Some(Accessibility::Protected),
            ),
            "Protected fields"@,
            true,
            r@[8].1,
        ),
{
    let e = item.entity();
    let mut r = output_entity(ast, root, item, link, include_path, source_online, examples);
    let d1 = collect_members(
        ast,
        root,
        e,
        EntityKind::Method,
        Some(true),
        Some(Accessibility::Public),
        false,
    );
    let ghost d1v = d1@;
    r.push(
        (
            String::from_str("public_static_functions"),
            fmt_section("Public static methods", d1),
        ),
    );
    let d2 = collect_members(
        ast,
        root,
        e,
        EntityKind::Method,
        Some(false),
        Some(Accessibility::Public),
        false,
    );
    let ghost d2v = d2@;
    r.push(
        (
            String::from_str("public_member_functions"),
            fmt_section("Public member functions", d2),
        ),
    );
    let d3 = collect_members(
        ast,
        root,
        e,
        EntityKind::Method,
        Some(false),
        Some(Accessibility::Protected),
        false,
    );
    let ghost d3v = d3@;
    r.push(
        (
            String::from_str("protected_member_functions"),
            fmt_section("Protected member functions", d3),
        ),
    );
    let d4 = collect_members(
        ast,
        root,
        e,
        EntityKind::FieldDecl,
        None,
        Some(Accessibility::Public),
        true,
    );
    let ghost d4v = d4@;
    r.push((String::from_str("public_members"), fmt_section("Fields", d4)));
    let d5 = collect_members(
        ast,
        root,
        e,
        EntityKind::FieldDecl,
        None,
        Some(Accessibility::Protected),
        true,
    );
    let ghost d5v = d5@;
    r.push((String::from_str("protected_members"), fmt_section("Protected fields", d5)));
    r
}

impl crate::tree::Class {
    /// The rendered declarations of the class's method children, in
    /// declaration order.
    pub fn fmt_pub_mem_funs(&self, ast: &Ast, root: &Namespace) -> (r: Vec<Html>)
        requires
            ast.wf(),
            entries_inv(ast, root.entries@),
            self.entity < ast.ents@.len(),
        ensures
            ({
                let fs = filtered_children(
                    ast,
                    ast.ents@[self.entity as int].children@,
                    EntityKind::Method,
                    None,
                    None,
                );
                r@.len() == fs.len() && forall|i: int|
                    0 <= i < fs.len() ==> fun_decl_html(
                        ast,
                        models(ast, root.entries@),
                        fs[i] as int,
                        #[trigger] r@[i],
                    )
            }),
    {
        collect_members(ast, root, self.entity, EntityKind::Method, None, None, false)
    }

    /// The fields of the class's page: its name, its description, the
    /// header's location and include path, and its member functions.
    pub fn output(
        &self,
        ast: &Ast,
        root: &Namespace,
        link: Option<String>,
        include_path: Option<UrlPath>,
    ) -> (r: Vec<(String, Html)>)
        requires
            ast.wf(),
            entries_inv(ast, root.entries@),
            self.entity < ast.ents@.len(),
        ensures
            r@.len() == 5,
            r@[0].0@ == "name"@ && is_text(
                r@[0].1,
                spec_item_name(ast, CppItem::Class(*self)),
            ),
            r@[1].0@ == "description"@ && desc_html(
                ast.ents@[self.entity as int].comment,
                "No Description Provided"@,
                r@[1].1,
            ),
            r@[2].0@ == "header_url"@ && is_text(
                r@[2].1,
                match link {
                    Some(u) => u@,
                    None => Seq::empty(),
                },
            ),
            r@[3].0@ == "header_path"@ && is_text(
                r@[3].1,
                match include_path {
                    Some(p) => joined(p@),
                    None => Seq::empty(),
                },
            ),
            r@[4].0@ == "public_member_functions"@ && ({
                let fs = filtered_children(
                    ast,
                    ast.ents@[self.entity as int].children@,
                    EntityKind::Method,
                    None,
                    None,
                );
                r@[4].1 matches Html::List(l) && l@.len() == fs.len() && forall|i: int|
                    0 <= i < fs.len() ==> fun_decl_html(
                        ast,
                        models(ast, root.entries@),
                        fs[i] as int,
                        #[trigger] l@[i],
                    )
            }),
    {
        let item = CppItem::Class(crate::tree::Class { entity: self.entity });
        let mut r: Vec<(String, Html)> = Vec::new();
        r.push((String::from_str("name"), Html::Text(item.name(ast))));
        r.push(
            (
                String::from_str("description"),
                fmt_desc(&ast.ents[self.entity].comment, "No Description Provided"),
            ),
        );
        let url_text = match link {
            Some(u) => u,
            None => String::new(),
        };
        proof {
            reveal_strlit("");
        }
        r.push((String::from_str("header_url"), Html::Text(url_text)));
        let path_text = match &include_path {
            Some(p) => p.to_raw_string(),
            None => String::new(),
        };
        r.push((String::from_str("header_path"), Html::Text(path_text)));
        let funs = self.fmt_pub_mem_funs(ast, root);
        r.push((String::from_str("public_member_functions"), Html::List(funs)));
        r
    }
}

} // verus!
