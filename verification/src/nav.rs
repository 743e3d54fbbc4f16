//! The navigation builder: an ordered tree mirroring the symbol tree for
//! the sidebar. Within each namespace, namespace entries come before all
//! other kinds, and each of the two groups is sorted by name in byte
//! order. The translation-unit root is an unlabeled root node, every other
//! namespace a named directory node, and classes, structs and functions
//! leaf links with a fixed icon per kind.

use vstd::prelude::*;
use vstd::string::StringExecFns;
use vstd::string::StrSliceExecFns;

use crate::ast::Ast;
use crate::ast::EntityKind;
use crate::tree::CppItem;
use crate::tree::Namespace;
use crate::tree::entries_inv;
use crate::tree::entry_inv;
use crate::tree::item_entity;
use crate::tree::item_size;
use crate::tree::items_size;
use crate::tree::lemma_item_size_le;
use crate::tree::spec_item_name;
use crate::url::UrlPath;

verus! {

broadcast use {vstd::std_specs::vec::group_vec_axioms, vstd::seq::group_seq_axioms};

/// One node of the navigation tree.
pub enum NavItem {
    Root { children: Vec<NavItem> },
    Dir { label: String, children: Vec<NavItem> },
    Link { label: String, url: UrlPath, icon: Option<String> },
}

/// Lexicographic order on names, by scalar value (for UTF-8 names this is
/// exactly byte order).
pub open spec fn lex_lt(a: Seq<char>, b: Seq<char>) -> bool
    decreases a.len(),
{
    if b.len() == 0 {
        false
    } else if a.len() == 0 {
        true
    } else if (a[0] as u32) < (b[0] as u32) {
        true
    } else if (a[0] as u32) > (b[0] as u32) {
        false
    } else {
        lex_lt(a.drop_first(), b.drop_first())
    }
}

pub proof fn lemma_lex_total(a: Seq<char>, b: Seq<char>)
    ensures
        !lex_lt(a, b) ==> lex_lt(b, a) || a == b,
    decreases a.len(),
{
    if a.len() == 0 || b.len() == 0 {
        if a.len() == 0 && b.len() == 0 {
            assert(a =~= b);
        }
    } else if (a[0] as u32) == (b[0] as u32) {
        vstd::utf8::char_u32_cast(a[0], a[0] as u32);
        vstd::utf8::char_u32_cast(b[0], b[0] as u32);
        assert(a[0] == b[0]);
        lemma_lex_total(a.drop_first(), b.drop_first());
        if !lex_lt(a, b) && !lex_lt(b, a) {
            assert(a.drop_first() == b.drop_first());
            assert forall|i: int| 0 <= i < a.len() implies a[i] == b[i] by {
                if i > 0 {
                    assert(a[i] == a.drop_first()[i - 1]);
                    assert(b[i] == b.drop_first()[i - 1]);
                }
            }
            assert(a =~= b);
        }
    }
}

pub proof fn lemma_lex_trans(a: Seq<char>, b: Seq<char>, c: Seq<char>)
    requires
        lex_lt(a, b),
        lex_lt(b, c),
    ensures
        lex_lt(a, c),
    decreases a.len(),
{
    if a.len() > 0 && b.len() > 0 && c.len() > 0 && (a[0] as u32) == (b[0] as u32) && (
    b[0] as u32) == (c[0] as u32) {
        lemma_lex_trans(a.drop_first(), b.drop_first(), c.drop_first());
    }
}

/// Whether some position of `r` holds the value `t`.
pub open spec fn has_idx(r: Seq<usize>, t: int) -> bool {
    exists|i: int| 0 <= i < r.len() && (#[trigger] r[i]) == t
}

/// The sort key order of the navigation: namespaces strictly before
/// everything else, names in byte order within a group.
pub open spec fn nav_key_lt(ast: &Ast, x: CppItem, y: CppItem) -> bool {
    let xo = !(x is Namespace);
    let yo = !(y is Namespace);
    (!xo && yo) || (xo == yo && lex_lt(spec_item_name(ast, x), spec_item_name(ast, y)))
}

/// Non-strict navigation order.
pub open spec fn nav_le(ast: &Ast, x: CppItem, y: CppItem) -> bool {
    nav_key_lt(ast, x, y) || ((x is Namespace <==> y is Namespace) && spec_item_name(ast, x)
        == spec_item_name(ast, y))
}

pub proof fn lemma_nav_le_total(ast: &Ast, x: CppItem, y: CppItem)
    ensures
        nav_le(ast, x, y) || nav_le(ast, y, x),
{
    lemma_lex_total(spec_item_name(ast, x), spec_item_name(ast, y));
}

pub proof fn lemma_nav_le_trans(ast: &Ast, x: CppItem, y: CppItem, z: CppItem)
    requires
        nav_le(ast, x, y),
        nav_le(ast, y, z),
    ensures
        nav_le(ast, x, z),
{
    let nx = spec_item_name(ast, x);
    let ny = spec_item_name(ast, y);
    let nz = spec_item_name(ast, z);
    if lex_lt(nx, ny) && lex_lt(ny, nz) {
        lemma_lex_trans(nx, ny, nz);
    }
}

/// Byte-order comparison of two names.
fn str_lex_lt(a: &str, b: &str) -> (r: bool)
    ensures
        r == lex_lt(a@, b@),
{
    let alen = a.unicode_len();
    let blen = b.unicode_len();
    let mut i: usize = 0;
    proof {
        assert(a@.skip(0) =~= a@);
        assert(b@.skip(0) =~= b@);
    }
    while i < alen && i < blen
        invariant
            alen == a@.len(),
            blen == b@.len(),
            i <= alen,
            i <= blen,
            lex_lt(a@, b@) == lex_lt(a@.skip(i as int), b@.skip(i as int)),
        decreases alen - i,
    {
        let ca = a.get_char(i);
        let cb = b.get_char(i);
        proof {
            assert(a@.skip(i as int)[0] == a@[i as int]);
            assert(b@.skip(i as int)[0] == b@[i as int]);
        }
        if (ca as u32) < (cb as u32) {
            return true;
        }
        if (ca as u32) > (cb as u32) {
            return false;
        }
        proof {
            assert(a@.skip(i as int).drop_first() =~= a@.skip(i + 1));
            assert(b@.skip(i as int).drop_first() =~= b@.skip(i + 1));
        }
        i += 1;
    }
    proof {
        if i == alen {
            assert(a@.skip(i as int).len() == 0);
        } else {
            assert(b@.skip(i as int).len() == 0);
        }
    }
    alen < blen
}

/// Non-strict navigation-order comparison of two entries.
fn nav_le_exec(ast: &Ast, x: &CppItem, y: &CppItem) -> (r: bool)
    requires
        0 <= item_entity(*x) < ast.ents@.len(),
        0 <= item_entity(*y) < ast.ents@.len(),
    ensures
        r == nav_le(ast, *x, *y),
{
    let xo = !(matches!(x, CppItem::Namespace(_)));
    let yo = !(matches!(y, CppItem::Namespace(_)));
    if !xo && yo {
        return true;
    }
    if xo && !yo {
        return false;
    }
    let xn = crate::tree::item_name(ast, x);
    let yn = crate::tree::item_name(ast, y);
    if str_lex_lt(xn.as_str(), yn.as_str()) {
        true
    } else {
        xn.eq(&yn)
    }
}

/// The order in which a scope's entries appear in the navigation: a
/// permutation of the entry positions, sorted namespaces-first and by name
/// within each group.
#[verifier::loop_isolation(false)]
fn nav_order(ast: &Ast, entries: &Vec<CppItem>) -> (r: Vec<usize>)
    requires
        forall|k: int|
            0 <= k < entries@.len() ==> 0 <= item_entity(#[trigger] entries@[k])
                < ast.ents@.len(),
    ensures
        r@.len() == entries@.len(),
        forall|i: int| 0 <= i < r@.len() ==> (#[trigger] r@[i]) < entries@.len(),
        forall|i: int, j: int| 0 <= i < j < r@.len() ==> r@[i] != r@[j],
        forall|i: int, j: int|
            0 <= i < j < r@.len() ==> nav_le(
                ast,
                entries@[r@[i] as int],
                entries@[r@[j] as int],
            ),
        forall|t: int| 0 <= t < entries@.len() ==> #[trigger] has_idx(r@, t),
{
    let mut r: Vec<usize> = Vec::new();
    let mut k: usize = 0;
    while k < entries.len()
        invariant
            k <= entries@.len(),
            r@.len() == k,
            forall|i: int| 0 <= i < r@.len() ==> (#[trigger] r@[i]) < k,
            forall|i: int, j: int| 0 <= i < j < r@.len() ==> r@[i] != r@[j],
            forall|i: int, j: int|
                0 <= i < j < r@.len() ==> nav_le(
                    ast,
                    entries@[r@[i] as int],
                    entries@[r@[j] as int],
                ),
            forall|t: int| 0 <= t < k ==> #[trigger] has_idx(r@, t),
        decreases entries@.len() - k,
    {
        let ghost r0 = r@;
        let mut p: usize = 0;
        loop
            invariant
                p <= r@.len(),
                r@ == r0,
                forall|i: int|
                    0 <= i < p ==> nav_le(ast, entries@[r@[i] as int], entries@[k as int]),
            decreases r@.len() - p,
        {
            if p >= r.len() {
                break;
            }
            if !nav_le_exec(ast, &entries[r[p]], &entries[k]) {
                break;
            }
            p += 1;
        }
        let ghost brk_le = p < r0.len() ==> !nav_le(
            ast,
            entries@[r0[p as int] as int],
            entries@[k as int],
        );
        r.insert(p, k);
        proof {
            assert forall|i: int, j: int| 0 <= i < j < r@.len() implies nav_le(
                ast,
                entries@[r@[i] as int],
                entries@[r@[j] as int],
            ) by {
                let pi = p as int;
                if j < pi {
                } else if i < pi && j == pi {
                } else if i == pi {
                    let other = r0[j - 1];
                    if j - 1 == pi {
                        lemma_nav_le_total(
                            ast,
                            entries@[r0[pi] as int],
                            entries@[k as int],
                        );
                    } else {
                        lemma_nav_le_total(
                            ast,
                            entries@[r0[pi] as int],
                            entries@[k as int],
                        );
                        lemma_nav_le_trans(
                            ast,
                            entries@[k as int],
                            entries@[r0[pi] as int],
                            entries@[other as int],
                        );
                    }
                } else if i > pi {
                }
            }
            assert forall|t: int| 0 <= t < k + 1 implies #[trigger] has_idx(r@, t) by {
                if t == k {
                    assert(r@[p as int] == k);
                } else {
                    assert(has_idx(r0, t));
                    let i0 = choose|i: int| 0 <= i < r0.len() && (#[trigger] r0[i]) == t;
                    if i0 < p {
                        assert(r@[i0] == t);
                    } else {
                        assert(r@[i0 + 1] == t);
                    }
                }
            }
        }
        k += 1;
    }
    r
}

pub open spec fn nav_label(n: NavItem) -> Seq<char> {
    match n {
        NavItem::Root { .. } => Seq::empty(),
        NavItem::Dir { label, .. } => label@,
        NavItem::Link { label, .. } => label@,
    }
}

pub open spec fn nav_is_dir(n: NavItem) -> bool {
    n is Dir || n is Root
}

pub open spec fn nav_children(n: NavItem) -> Seq<NavItem> {
    match n {
        NavItem::Root { children } => children@,
        NavItem::Dir { children, .. } => children@,
        NavItem::Link { .. } => Seq::empty(),
    }
}

/// The display order of two navigation nodes: directories first, labels in
/// byte order within a group.
pub open spec fn nav_pair_le(x: NavItem, y: NavItem) -> bool {
    (nav_is_dir(x) && !nav_is_dir(y)) || ((nav_is_dir(x) <==> nav_is_dir(y)) && (lex_lt(
        nav_label(x),
        nav_label(y),
    ) || nav_label(x) == nav_label(y)))
}

/// What the navigation node of one tree entry is: a named directory for a
/// namespace (with its children laid out by `nav_children_ok`), a leaf
/// link to the entry's canonical URL with the fixed icon of its kind for
/// everything else.
pub open spec fn nav_rel(ast: &Ast, item: CppItem, n: NavItem) -> bool
    decreases item,
{
    match item {
        CppItem::Namespace(ns) => {
            &&& n matches NavItem::Dir { label, children }
            &&& label@ == spec_item_name(ast, item)
            &&& nav_children_ok(ast, ns.entries@, children@)
        },
        CppItem::Class(c) => {
            &&& n matches NavItem::Link { label, url, icon }
            &&& label@ == spec_item_name(ast, item)
            &&& url@ =~= ast.chain_names(c.entity as int)
            &&& icon matches Some(s) && s@ == "box"@
        },
        CppItem::Struct(st) => {
            &&& n matches NavItem::Link { label, url, icon }
            &&& label@ == spec_item_name(ast, item)
            &&& url@ =~= ast.chain_names(st.entity as int)
            &&& icon matches Some(s) && s@ == "box"@
        },
        CppItem::Function(f) => {
            &&& n matches NavItem::Link { label, url, icon }
            &&& label@ == spec_item_name(ast, item)
            &&& url@ =~= ast.chain_names(f.entity as int)
            &&& icon matches Some(s) && s@ == "code"@
        },
    }
}

/// What a namespace's navigation children are: one node per entry, each
/// related to its entry by `nav_rel`, in display order.
pub open spec fn nav_children_ok(ast: &Ast, es: Seq<CppItem>, ch: Seq<NavItem>) -> bool
    decreases es,
{
    &&& ch.len() == es.len()
    &&& forall|i: int, j: int| 0 <= i < j < ch.len() ==> nav_pair_le(ch[i], ch[j])
    &&& forall|i: int|
        0 <= i < ch.len() ==> exists|k: int|
            0 <= k < es.len() && nav_rel(ast, es[k], #[trigger] ch[i])
    &&& forall|k: int|
        0 <= k < es.len() ==> exists|i: int|
            0 <= i < ch.len() && nav_rel(ast, #[trigger] es[k], ch[i])
}

/// A navigation node's group and label agree with its entry's.
proof fn lemma_nav_rel_key(ast: &Ast, item: CppItem, n: NavItem)
    requires
        nav_rel(ast, item, n),
    ensures
        nav_is_dir(n) == item is Namespace,
        nav_label(n) == spec_item_name(ast, item),
{
}

/// Builds the ordered navigation nodes for a scope's entries.
#[verifier::loop_isolation(false)]
fn nav_children_exec(ast: &Ast, entries: &Vec<CppItem>) -> (r: Vec<NavItem>)
    requires
        ast.wf(),
        entries_inv(ast, entries@),
    ensures
        nav_children_ok(ast, entries@, r@),
    decreases items_size(entries@), 1nat,
{
    proof {
        assert forall|k: int|
            0 <= k < entries@.len() implies 0 <= item_entity(#[trigger] entries@[k])
            < ast.ents@.len() by {
            assert(entry_inv(ast, entries@[k]));
        }
    }
    let ord = nav_order(ast, entries);
    let mut r: Vec<NavItem> = Vec::new();
    let mut i: usize = 0;
    while i < ord.len()
        invariant
            r@.len() == i,
            i <= ord@.len(),
            forall|a: int|
                0 <= a < i ==> nav_rel(ast, entries@[ord@[a] as int], #[trigger] r@[a]),
        decreases ord@.len() - i,
    {
        let e = &entries[ord[i]];
        proof {
            assert(entry_inv(ast, entries@[ord@[i as int] as int]));
            lemma_item_size_le(entries@, ord@[i as int] as int);
        }
        let n = e.nav(ast);
        r.push(n);
        i += 1;
    }
    proof {
        assert forall|a: int, b: int| 0 <= a < b < r@.len() implies nav_pair_le(
            r@[a],
            r@[b],
        ) by {
            let x = entries@[ord@[a] as int];
            let y = entries@[ord@[b] as int];
            lemma_nav_rel_key(ast, x, r@[a]);
            lemma_nav_rel_key(ast, y, r@[b]);
            assert(nav_le(ast, x, y));
        }
        assert forall|k: int| 0 <= k < entries@.len() implies exists|i2: int|
            0 <= i2 < r@.len() && nav_rel(ast, #[trigger] entries@[k], r@[i2]) by {
            assert(has_idx(ord@, k));
            let i0 = choose|i2: int| 0 <= i2 < ord@.len() && (#[trigger] ord@[i2]) == k;
            assert(nav_rel(ast, entries@[k], r@[i0]));
        }
    }
    r
}

impl CppItem {
    /// The navigation node of this entry: a directory for a namespace, a
    /// leaf link with the fixed icon of the entry's kind otherwise.
    pub fn nav(&self, ast: &Ast) -> (r: NavItem)
        requires
            ast.wf(),
            entry_inv(ast, *self),
        ensures
            nav_rel(ast, *self, r),
        decreases item_size(*self), 0nat,
    {
        match self {
            CppItem::Namespace(ns) => {
                let children = nav_children_exec(ast, &ns.entries);
                NavItem::Dir { label: self.name(ast), children }
            },
            CppItem::Class(c) => NavItem::Link {
                label: self.name(ast),
                url: crate::tree::url_of_entity(ast, c.entity),
                icon: Some(String::from_str("box")),
            },
            CppItem::Struct(st) => NavItem::Link {
                label: self.name(ast),
                url: crate::tree::url_of_entity(ast, st.entity),
                icon: Some(String::from_str("box")),
            },
            CppItem::Function(f) => NavItem::Link {
                label: self.name(ast),
                url: crate::tree::url_of_entity(ast, f.entity),
                icon: Some(String::from_str("code")),
            },
        }
    }
}

impl Namespace {
    /// The navigation tree of this scope: the translation-unit root is an
    /// unlabeled root node, any other namespace a directory named after
    /// it; the children mirror the scope's entries, namespaces first and
    /// alphabetical within each group.
    pub fn nav(&self, ast: &Ast) -> (r: NavItem)
        requires
            ast.wf(),
            self.entity < ast.ents@.len(),
            entries_inv(ast, self.entries@),
        ensures
            nav_children_ok(ast, self.entries@, nav_children(r)),
            ast.ents@[self.entity as int].kind is TranslationUnit ==> r is Root,
            !(ast.ents@[self.entity as int].kind is TranslationUnit) ==> (r matches NavItem::Dir {
                label,
                ..
            } && label@ == spec_item_name(ast, CppItem::Namespace(*self))),
    {
        let children = nav_children_exec(ast, &self.entries);
        if ast.ents[self.entity].kind == EntityKind::TranslationUnit {
            NavItem::Root { children }
        } else {
            NavItem::Dir { label: self.name(ast), children }
        }
    }
}

} // verus!
