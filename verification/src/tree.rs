//! The symbol tree: the merged, deduplicated hierarchy of namespace, class,
//! struct and function entries built from the declarations of a translation
//! unit. Within one namespace the entry names are unique; a repeated
//! namespace declaration merges its children into the entry already present,
//! while any other repeated name is overwritten by the later declaration.

use vstd::prelude::*;
use vstd::string::StringExecFns;

use crate::ast::Ast;
use crate::ast::EntityKind;
use crate::url::UrlPath;

verus! {

broadcast use {vstd::std_specs::vec::group_vec_axioms, vstd::seq::group_seq_axioms};

/// One entry of the symbol tree.
pub enum CppItem {
    Namespace(Namespace),
    Class(Class),
    Struct(Struct),
    Function(Function),
}

/// A namespace entry: it owns its child entries.
pub struct Namespace {
    pub entity: usize,
    pub entries: Vec<CppItem>,
}

/// A class (or class template) definition entry.
pub struct Class {
    pub entity: usize,
}

/// A struct definition entry.
pub struct Struct {
    pub entity: usize,
}

/// A function declaration entry.
pub struct Function {
    pub entity: usize,
}

pub open spec fn item_entity(it: CppItem) -> int {
    match it {
        CppItem::Namespace(ns) => ns.entity as int,
        CppItem::Class(c) => c.entity as int,
        CppItem::Struct(s) => s.entity as int,
        CppItem::Function(f) => f.entity as int,
    }
}

pub open spec fn spec_opt_name(n: Option<String>, alt: Seq<char>) -> Seq<char> {
    match n {
        Some(s) => s@,
        None => alt,
    }
}

/// The display name of an entry: the declaration's name, or a fixed
/// placeholder for an anonymous declaration.
pub open spec fn spec_item_name(ast: &Ast, it: CppItem) -> Seq<char> {
    match it {
        CppItem::Namespace(ns) => spec_opt_name(
            ast.ents@[ns.entity as int].name,
            "<Anonymous namespace>"@,
        ),
        CppItem::Class(c) => spec_opt_name(
            ast.ents@[c.entity as int].name,
            "<Anonymous class or struct>"@,
        ),
        CppItem::Struct(s) => spec_opt_name(
            ast.ents@[s.entity as int].name,
            "<Anonymous class or struct>"@,
        ),
        CppItem::Function(f) => spec_opt_name(ast.ents@[f.entity as int].name, "_anon"@),
    }
}

/// The mathematical shape of a symbol-tree entry: its name, the declaration
/// it stands for, and, for a namespace, the models of its children.
pub enum ItemM {
    NsM { entity: int, name: Seq<char>, entries: Seq<ItemM> },
    ClassM { entity: int, name: Seq<char> },
    StructM { entity: int, name: Seq<char> },
    FunM { entity: int, name: Seq<char> },
}

pub open spec fn m_name(m: ItemM) -> Seq<char> {
    match m {
        ItemM::NsM { name, .. } => name,
        ItemM::ClassM { name, .. } => name,
        ItemM::StructM { name, .. } => name,
        ItemM::FunM { name, .. } => name,
    }
}

/// The number of entries of a subtree, the entry itself included.
pub open spec fn item_size(it: CppItem) -> nat
    decreases it, 0nat,
{
    match it {
        CppItem::Namespace(ns) => 1 + items_size(ns.entries@),
        _ => 1,
    }
}

pub open spec fn items_size(es: Seq<CppItem>) -> nat
    decreases es, es.len(),
{
    if es.len() == 0 {
        0
    } else {
        items_size(es.drop_last()) + item_size(es.last())
    }
}

pub proof fn lemma_item_size_le(es: Seq<CppItem>, k: int)
    requires
        0 <= k < es.len(),
    ensures
        item_size(es[k]) <= items_size(es),
    decreases es.len(),
{
    if k == es.len() - 1 {
    } else {
        lemma_item_size_le(es.drop_last(), k);
        assert(es.drop_last()[k] == es[k]);
    }
}

/// The model of one entry.
pub open spec fn item_model(ast: &Ast, it: CppItem) -> ItemM
    decreases it, 1nat,
{
    match it {
        CppItem::Namespace(ns) => ItemM::NsM {
            entity: ns.entity as int,
            name: spec_item_name(ast, it),
            entries: models_rec(ast, ns.entries@),
        },
        CppItem::Class(c) => ItemM::ClassM {
            entity: c.entity as int,
            name: spec_item_name(ast, it),
        },
        CppItem::Struct(s) => ItemM::StructM {
            entity: s.entity as int,
            name: spec_item_name(ast, it),
        },
        CppItem::Function(f) => ItemM::FunM {
            entity: f.entity as int,
            name: spec_item_name(ast, it),
        },
    }
}

pub open spec fn models_rec(ast: &Ast, es: Seq<CppItem>) -> Seq<ItemM>
    decreases es, 0nat,
{
    if es.len() == 0 {
        Seq::empty()
    } else {
        models_rec(ast, es.drop_last()).push(item_model(ast, es.last()))
    }
}

/// The models of a sequence of entries, entry by entry.
pub open spec fn models(ast: &Ast, es: Seq<CppItem>) -> Seq<ItemM> {
    Seq::new(es.len(), |i: int| item_model(ast, es[i]))
}

/// The two readings of a scope's model agree.
pub proof fn lemma_models_rec(ast: &Ast, es: Seq<CppItem>)
    ensures
        models_rec(ast, es) =~= models(ast, es),
    decreases es.len(),
{
    if es.len() > 0 {
        lemma_models_rec(ast, es.drop_last());
    }
}

/// The index of the first entry with the given name, or the length if none
/// has it.
pub open spec fn first_match(es: Seq<ItemM>, n: Seq<char>) -> int
    decreases es.len(),
{
    if es.len() == 0 {
        0
    } else if m_name(es[0]) == n {
        0
    } else {
        1 + first_match(es.drop_first(), n)
    }
}

/// The entry with the given name, if any.
pub open spec fn find_m(es: Seq<ItemM>, n: Seq<char>) -> Option<ItemM>
    decreases es.len(),
{
    if es.len() == 0 {
        None
    } else if m_name(es[0]) == n {
        Some(es[0])
    } else {
        find_m(es.drop_first(), n)
    }
}

/// Inserting one entry into a scope: a namespace meeting a namespace of the
/// same name merges into it (the earlier declaration's identity is kept);
/// any other name collision is resolved by overwriting (last write wins);
/// a fresh name is appended.
pub open spec fn insert_m(es: Seq<ItemM>, it: ItemM) -> Seq<ItemM>
    decreases it, 0nat,
{
    let n = m_name(it);
    let k = first_match(es, n);
    if k == es.len() {
        es.push(it)
    } else if es[k] is NsM && it is NsM {
        es.update(
            k,
            ItemM::NsM {
                entity: es[k]->NsM_entity,
                name: n,
                entries: merge_m(es[k]->NsM_entries, it->NsM_entries),
            },
        )
    } else {
        es.update(k, it)
    }
}

/// Merging a second declaration of a namespace into the first: its entries
/// are inserted one after the other, in declaration order, each following
/// the merge/overwrite rule recursively.
pub open spec fn merge_m(dst: Seq<ItemM>, src: Seq<ItemM>) -> Seq<ItemM>
    decreases src, src.len(),
{
    if src.len() == 0 {
        dst
    } else {
        merge_m(insert_m(dst, src[0]), src.drop_first())
    }
}

/// An entity that the tree may admit: it has a name and does not come from
/// a system header.
pub open spec fn admitted_ent(ast: &Ast, e: int) -> bool {
    &&& 0 <= e < ast.ents@.len()
    &&& ast.ents@[e].name is Some
    &&& !ast.ents@[e].in_system_header
}

/// The declaration kinds each entry variant may stand for.
pub open spec fn kind_matches(ast: &Ast, it: CppItem) -> bool {
    match it {
        CppItem::Namespace(ns) => ast.ents@[ns.entity as int].kind is Namespace,
        CppItem::Class(c) => (ast.ents@[c.entity as int].kind is ClassDecl || ast.ents@[
            c.entity as int
        ].kind is ClassTemplate) && ast.ents@[c.entity as int].is_definition,
        CppItem::Struct(s) => ast.ents@[s.entity as int].kind is StructDecl && ast.ents@[
            s.entity as int
        ].is_definition,
        CppItem::Function(f) => ast.ents@[f.entity as int].kind is FunctionDecl,
    }
}

/// Invariant of one tree entry: it stands for an admitted declaration of
/// the matching kind, and a namespace's children satisfy the scope
/// invariant in turn.
pub open spec fn entry_inv(ast: &Ast, it: CppItem) -> bool
    decreases it, 0nat,
{
    &&& admitted_ent(ast, item_entity(it))
    &&& kind_matches(ast, it)
    &&& (it matches CppItem::Namespace(ns) ==> entries_inv(ast, ns.entries@))
}

/// Invariant of one scope: every entry satisfies its invariant and the
/// entry names are pairwise distinct.
pub open spec fn entries_inv(ast: &Ast, es: Seq<CppItem>) -> bool
    decreases es, es.len(),
{
    &&& forall|k: int| 0 <= k < es.len() ==> entry_inv(ast, #[trigger] es[k])
    &&& forall|i: int, j: int|
        0 <= i < j < es.len() ==> spec_item_name(ast, es[i]) != spec_item_name(ast, es[j])
}

/// Where the first match sits: before it no entry has the name, and if it
/// is inside the scope it names the match; `find_m` returns exactly that.
pub proof fn lemma_first_match(es: Seq<ItemM>, n: Seq<char>)
    ensures
        0 <= first_match(es, n) <= es.len(),
        forall|t: int| 0 <= t < first_match(es, n) ==> m_name(#[trigger] es[t]) != n,
        first_match(es, n) < es.len() ==> m_name(es[first_match(es, n)]) == n,
        find_m(es, n) == if first_match(es, n) == es.len() {
            None::<ItemM>
        } else {
            Some(es[first_match(es, n)])
        },
    decreases es.len(),
{
    if es.len() == 0 {
    } else if m_name(es[0]) == n {
    } else {
        let tl = es.drop_first();
        lemma_first_match(tl, n);
        let k = first_match(es, n);
        assert(k == 1 + first_match(tl, n));
        assert forall|t: int| 0 <= t < k implies m_name(#[trigger] es[t]) != n by {
            if t > 0 {
                assert(es[t] == tl[t - 1]);
            }
        }
        if k < es.len() {
            assert(es[k] == tl[k - 1]);
        }
    }
}

/// If the first `k` entries miss the name and entry `k` (if any) carries
/// it, then `k` is the first match.
pub proof fn lemma_first_match_is(es: Seq<ItemM>, n: Seq<char>, k: int)
    requires
        0 <= k <= es.len(),
        forall|t: int| 0 <= t < k ==> m_name(#[trigger] es[t]) != n,
        k < es.len() ==> m_name(es[k]) == n,
    ensures
        first_match(es, n) == k,
{
    lemma_first_match(es, n);
    let f = first_match(es, n);
    if f < k {
        assert(m_name(es[f]) == n);
    } else if k < f {
        assert(k < es.len());
        assert(m_name(es[k]) != n);
    }
}

/// Looking a name up after appending an entry.
pub proof fn lemma_find_push(es: Seq<ItemM>, it: ItemM, n: Seq<char>)
    ensures
        find_m(es.push(it), n) == if find_m(es, n) is Some {
            find_m(es, n)
        } else if m_name(it) == n {
            Some(it)
        } else {
            None::<ItemM>
        },
    decreases es.len(),
{
    if es.len() == 0 {
        assert(es.push(it)[0] == it);
        assert(es.push(it).drop_first() =~= Seq::<ItemM>::empty());
    } else {
        assert(es.push(it)[0] == es[0]);
        assert(es.push(it).drop_first() =~= es.drop_first().push(it));
        lemma_find_push(es.drop_first(), it, n);
    }
}

/// Looking a name up after replacing the first entry of that name by
/// another entry of the same name.
pub proof fn lemma_find_update(es: Seq<ItemM>, k: int, it: ItemM, q: Seq<char>)
    requires
        0 <= k < es.len(),
        k == first_match(es, m_name(it)),
        m_name(es[k]) == m_name(it),
    ensures
        find_m(es.update(k, it), q) == if q == m_name(it) {
            Some(it)
        } else {
            find_m(es, q)
        },
    decreases es.len(),
{
    let n = m_name(it);
    if k == 0 {
        assert(es.update(0, it)[0] == it);
        assert(es.update(0, it).drop_first() =~= es.drop_first());
    } else {
        assert(m_name(es[0]) != n);
        assert(es.update(k, it)[0] == es[0]);
        assert(es.update(k, it).drop_first() =~= es.drop_first().update(k - 1, it));
        assert(first_match(es.drop_first(), n) == k - 1);
        assert(es.drop_first()[k - 1] == es[k]);
        lemma_find_update(es.drop_first(), k - 1, it, q);
    }
}

/// How one insertion resolves every lookup: on the inserted entry's own
/// name a namespace merges into a namespace already present (keeping the
/// earlier declaration's identity) and anything else is simply the later
/// entry; every other name is untouched.
pub proof fn lemma_insert_resolves(es: Seq<ItemM>, it: ItemM, q: Seq<char>)
    ensures
        q != m_name(it) ==> find_m(insert_m(es, it), q) == find_m(es, q),
        q == m_name(it) ==> find_m(insert_m(es, it), q) == Some(
            match find_m(es, q) {
                Some(old) => if old is NsM && it is NsM {
                    ItemM::NsM {
                        entity: old->NsM_entity,
                        name: q,
                        entries: merge_m(old->NsM_entries, it->NsM_entries),
                    }
                } else {
                    it
                },
                None => it,
            },
        ),
{
    let n = m_name(it);
    let k = first_match(es, n);
    lemma_first_match(es, n);
    if k == es.len() {
        lemma_find_push(es, it, q);
    } else if es[k] is NsM && it is NsM {
        let merged = ItemM::NsM {
            entity: es[k]->NsM_entity,
            name: n,
            entries: merge_m(es[k]->NsM_entries, it->NsM_entries),
        };
        lemma_find_update(es, k, merged, q);
    } else {
        lemma_find_update(es, k, it, q);
    }
}

/// Merge idempotence over disjoint children: when a namespace is declared
/// twice and the two declarations' child names are disjoint (each
/// declaration's names also being unique), the merged scope resolves every
/// name exactly as the union of the two: names of the first declaration
/// keep its entries, all others fall through to the second.
pub proof fn lemma_merge_disjoint_union(dst: Seq<ItemM>, src: Seq<ItemM>, q: Seq<char>)
    requires
        forall|i: int, j: int|
            0 <= i < dst.len() && 0 <= j < src.len() ==> m_name(#[trigger] dst[i]) != m_name(
                #[trigger] src[j],
            ),
        forall|i: int, j: int|
            0 <= i < j < src.len() ==> m_name(#[trigger] src[i]) != m_name(#[trigger] src[j]),
    ensures
        find_m(merge_m(dst, src), q) == if find_m(dst, q) is Some {
            find_m(dst, q)
        } else {
            find_m(src, q)
        },
    decreases src.len(),
{
    lemma_first_match(dst, q);
    lemma_first_match(src, q);
    if src.len() == 0 {
    } else {
        let it = src[0];
        let n = m_name(it);
        lemma_first_match(dst, n);
        if first_match(dst, n) < dst.len() {
            assert(m_name(dst[first_match(dst, n)]) == n);
            assert(false);
        }
        assert(insert_m(dst, it) == dst.push(it));
        let dst2 = dst.push(it);
        let src2 = src.drop_first();
        assert forall|i: int, j: int|
            0 <= i < dst2.len() && 0 <= j < src2.len() implies m_name(#[trigger] dst2[i])
            != m_name(#[trigger] src2[j]) by {
            assert(src2[j] == src[j + 1]);
            if i < dst.len() {
                assert(dst2[i] == dst[i]);
            } else {
                assert(dst2[i] == src[0]);
            }
        }
        assert forall|i: int, j: int|
            0 <= i < j < src2.len() implies m_name(#[trigger] src2[i]) != m_name(
            #[trigger] src2[j]) by {
            assert(src2[i] == src[i + 1]);
            assert(src2[j] == src[j + 1]);
        }
        lemma_merge_disjoint_union(dst2, src2, q);
        lemma_find_push(dst, it, q);
    }
}

/// Exclusion, as an invariant of every built scope: an entry's key always stands
/// for a declaration that has a name and is not from a system header —
/// excluded declarations never appear in any symbol tree.
pub proof fn lemma_excluded_never_keyed(ast: &Ast, es: Seq<CppItem>, k: int)
    requires
        entries_inv(ast, es),
        0 <= k < es.len(),
    ensures
        admitted_ent(ast, item_entity(es[k])),
        ast.ents@[item_entity(es[k])].name is Some,
        !ast.ents@[item_entity(es[k])].in_system_header,
{
    assert(entry_inv(ast, es[k]));
}

/// The model of the scope built from entity `e`'s children: the children
/// are taken in declaration order; each admitted one is inserted under the
/// merge/overwrite rule.
pub open spec fn load_model(ast: &Ast, cs: Seq<usize>, b: int) -> Seq<ItemM>
    decreases b, 0nat, cs.len(),
    when ast.wf() && 0 <= b <= ast.ents@.len() && (forall|i: int|
        0 <= i < cs.len() ==> (#[trigger] cs[i]) < b)
{
    if cs.len() == 0 {
        Seq::empty()
    } else {
        let prev = load_model(ast, cs.drop_last(), b);
        match admit_model(ast, cs.last() as int) {
            None => prev,
            Some(m) => insert_m(prev, m),
        }
    }
}

/// The model of the namespace entry built for entity `e`.
pub open spec fn scope_model(ast: &Ast, e: int) -> ItemM
    decreases e, 1nat, 0nat,
    when ast.wf() && 0 <= e < ast.ents@.len()
    via scope_model_decreases
{
    ItemM::NsM {
        entity: e,
        name: spec_opt_name(ast.ents@[e].name, "<Anonymous namespace>"@),
        entries: load_model(ast, ast.ents@[e].children@, e),
    }
}

#[via_fn]
proof fn scope_model_decreases(ast: &Ast, e: int) {
    assert(ast.ent_wf(e));
}

/// Whether a child declaration is admitted to the tree, and as what:
/// nameless or system-header declarations never enter; classes and structs
/// enter only as definitions; functions enter unconditionally; namespaces
/// enter with their recursively built children.
pub open spec fn admit_model(ast: &Ast, c: int) -> Option<ItemM>
    decreases c, 2nat, 0nat,
    when ast.wf() && 0 <= c < ast.ents@.len()
{
    let e = ast.ents@[c];
    if e.in_system_header || e.name is None {
        None
    } else {
        match e.kind {
            EntityKind::Namespace => Some(scope_model(ast, c)),
            EntityKind::StructDecl => if e.is_definition {
                Some(ItemM::StructM { entity: c, name: e.name->0@ })
            } else {
                None
            },
            EntityKind::ClassDecl => if e.is_definition {
                Some(ItemM::ClassM { entity: c, name: e.name->0@ })
            } else {
                None
            },
            EntityKind::ClassTemplate => if e.is_definition {
                Some(ItemM::ClassM { entity: c, name: e.name->0@ })
            } else {
                None
            },
            EntityKind::FunctionDecl => Some(ItemM::FunM { entity: c, name: e.name->0@ }),
            _ => None,
        }
    }
}

/// The display name of one entry (the declaration's name, or the fixed
/// placeholder of its kind).
pub fn item_name(ast: &Ast, it: &CppItem) -> (r: String)
    requires
        0 <= item_entity(*it) < ast.ents@.len(),
    ensures
        r@ == spec_item_name(ast, *it),
{
    match it {
        CppItem::Namespace(ns) => match &ast.ents[ns.entity].name {
            Some(s) => s.clone(),
            None => String::from_str("<Anonymous namespace>"),
        },
        CppItem::Class(c) => match &ast.ents[c.entity].name {
            Some(s) => s.clone(),
            None => String::from_str("<Anonymous class or struct>"),
        },
        CppItem::Struct(s) => match &ast.ents[s.entity].name {
            Some(x) => x.clone(),
            None => String::from_str("<Anonymous class or struct>"),
        },
        CppItem::Function(f) => match &ast.ents[f.entity].name {
            Some(s) => s.clone(),
            None => String::from_str("_anon"),
        },
    }
}

/// The position of the entry with the given name, or the scope's length.
fn find_pos(ast: &Ast, entries: &Vec<CppItem>, n: &String) -> (pos: usize)
    requires
        forall|k: int|
            0 <= k < entries@.len() ==> 0 <= item_entity(#[trigger] entries@[k])
                < ast.ents@.len(),
    ensures
        pos as int == first_match(models(ast, entries@), n@),
{
    let mut k: usize = 0;
    while k < entries.len()
        invariant
            k <= entries@.len(),
            forall|k2: int|
                0 <= k2 < entries@.len() ==> 0 <= item_entity(#[trigger] entries@[k2])
                    < ast.ents@.len(),
            forall|t: int|
                0 <= t < k ==> m_name(#[trigger] models(ast, entries@)[t]) != n@,
        decreases entries@.len() - k,
    {
        let cand = item_name(ast, &entries[k]);
        if cand.eq(n) {
            proof {
                lemma_first_match_is(models(ast, entries@), n@, k as int);
            }
            return k;
        }
        k += 1;
    }
    proof {
        lemma_first_match_is(models(ast, entries@), n@, entries@.len() as int);
    }
    k
}

/// Inserts one freshly built entry into a scope under the merge/overwrite
/// rule, preserving the scope invariant.
#[verifier::loop_isolation(false)]
fn insert_item(ast: &Ast, entries: &mut Vec<CppItem>, it: CppItem)
    requires
        ast.wf(),
        entries_inv(ast, old(entries)@),
        entry_inv(ast, it),
    ensures
        entries_inv(ast, final(entries)@),
        models(ast, final(entries)@) =~= insert_m(
            models(ast, old(entries)@),
            item_model(ast, it),
        ),
    decreases item_size(it),
{
    proof {
        assert(item_size(it) >= 1);
    }
    let ghost es0 = entries@;
    let ghost it0 = it;
    let ghost ms0 = models(ast, es0);
    let ghost m_it = item_model(ast, it0);
    let n = item_name(ast, &it);
    proof {
        assert(m_name(m_it) == n@);
        assert forall|k: int|
            0 <= k < es0.len() implies 0 <= item_entity(#[trigger] es0[k])
            < ast.ents@.len() by {
            assert(entry_inv(ast, es0[k]));
        }
    }
    let pos = find_pos(ast, entries, &n);
    proof {
        lemma_first_match(ms0, n@);
    }
    if pos == entries.len() {
        entries.push(it);
        proof {
            assert(models(ast, entries@) =~= ms0.push(m_it));
            assert(insert_m(ms0, m_it) == ms0.push(m_it));
            assert forall|k: int| 0 <= k < entries@.len() implies entry_inv(
                ast,
                #[trigger] entries@[k],
            ) by {
                if k < es0.len() {
                    assert(entries@[k] == es0[k]);
                } else {
                    assert(entries@[k] == it0);
                }
            }
            assert forall|i: int, j: int| 0 <= i < j < entries@.len() implies spec_item_name(
                ast,
                entries@[i],
            ) != spec_item_name(ast, entries@[j]) by {
                if j < es0.len() {
                } else {
                    assert(entries@[j] == it0);
                    assert(m_name(ms0[i]) != n@);
                    assert(spec_item_name(ast, es0[i]) != n@);
                }
            }
        }
    } else {
        proof {
            assert(m_name(ms0[pos as int]) == n@);
            assert(entry_inv(ast, es0[pos as int]));
        }
        let removed = entries.remove(pos);
        match (removed, it) {
            (CppItem::Namespace(old_ns), CppItem::Namespace(new_ns)) => {
                let ghost new0 = new_ns;
                let ghost goal = merge_m(
                    models(ast, old_ns.entries@),
                    models(ast, new_ns.entries@),
                );
                let old_entity = old_ns.entity;
                let Namespace { entity: _, entries: old_entries } = old_ns;
                let Namespace { entity: _, entries: new_entries } = new_ns;
                let mut acc = old_entries;
                let mut rest = new_entries;
                let ghost mut off: int = 0;
                while rest.len() > 0
                    invariant
                        ast.wf(),
                        entries_inv(ast, acc@),
                        entries_inv(ast, new0.entries@),
                        it0 == CppItem::Namespace(new0),
                        0 <= off <= new0.entries@.len(),
                        rest@ =~= new0.entries@.subrange(off, new0.entries@.len() as int),
                        merge_m(models(ast, acc@), models(ast, rest@)) == goal,
                    decreases rest@.len(),
                {
                    let ghost rest0 = rest@;
                    let item = rest.remove(0);
                    proof {
                        assert(item == new0.entries@[off]);
                        assert(entry_inv(ast, new0.entries@[off]));
                        lemma_item_size_le(new0.entries@, off);
                        assert(item_size(it0) == 1 + items_size(new0.entries@));
                        assert(item_size(item) < item_size(it0));
                    }
                    let ghost acc0 = acc@;
                    insert_item(ast, &mut acc, item);
                    proof {
                        let ms_rest0 = models(ast, rest0);
                        assert(ms_rest0[0] == item_model(ast, item));
                        assert(ms_rest0.drop_first() =~= models(ast, rest@));
                        assert(merge_m(models(ast, acc0), ms_rest0) == merge_m(
                            insert_m(models(ast, acc0), item_model(ast, item)),
                            ms_rest0.drop_first(),
                        ));
                        assert(merge_m(models(ast, acc@), models(ast, rest@)) == goal);
                        off = off + 1;
                        assert(rest@ =~= new0.entries@.subrange(
                            off,
                            new0.entries@.len() as int,
                        ));
                    }
                }
                proof {
                    assert(models(ast, rest@) =~= Seq::<ItemM>::empty());
                    assert(merge_m(models(ast, acc@), models(ast, rest@)) == models(
                        ast,
                        acc@,
                    ));
                }
                let merged_item = CppItem::Namespace(
                    Namespace { entity: old_entity, entries: acc },
                );
                entries.insert(pos, merged_item);
                proof {
                    let m_merged = item_model(ast, entries@[pos as int]);
                    lemma_models_rec(ast, entries@[pos as int]->Namespace_0.entries@);
                    lemma_models_rec(ast, es0[pos as int]->Namespace_0.entries@);
                    lemma_models_rec(ast, it0->Namespace_0.entries@);
                    assert(entries@ =~= es0.update(pos as int, entries@[pos as int]));
                    assert(m_merged == ItemM::NsM {
                        entity: ms0[pos as int]->NsM_entity,
                        name: n@,
                        entries: merge_m(ms0[pos as int]->NsM_entries, m_it->NsM_entries),
                    });
                    assert(models(ast, entries@) =~= ms0.update(pos as int, m_merged));
                    assert(insert_m(ms0, m_it) == ms0.update(pos as int, m_merged));
                    assert forall|k: int| 0 <= k < entries@.len() implies entry_inv(
                        ast,
                        #[trigger] entries@[k],
                    ) by {
                        if k != pos as int {
                            assert(entries@[k] == es0[k]);
                        }
                    }
                    assert forall|i: int, j: int|
                        0 <= i < j < entries@.len() implies spec_item_name(ast, entries@[i])
                        != spec_item_name(ast, entries@[j]) by {
                        assert(spec_item_name(ast, entries@[pos as int]) == n@);
                        assert(spec_item_name(ast, es0[pos as int]) == n@);
                        if i != pos as int {
                            assert(entries@[i] == es0[i]);
                        }
                        if j != pos as int {
                            assert(entries@[j] == es0[j]);
                        }
                    }
                }
            },
            (_, it2) => {
                entries.insert(pos, it2);
                proof {
                    assert(entries@ =~= es0.update(pos as int, it0));
                    assert(models(ast, entries@) =~= ms0.update(pos as int, m_it));
                    assert(!(ms0[pos as int] is NsM && m_it is NsM));
                    assert(insert_m(ms0, m_it) == ms0.update(pos as int, m_it));
                    assert forall|k: int| 0 <= k < entries@.len() implies entry_inv(
                        ast,
                        #[trigger] entries@[k],
                    ) by {
                        if k != pos as int {
                            assert(entries@[k] == es0[k]);
                        }
                    }
                    assert forall|i: int, j: int|
                        0 <= i < j < entries@.len() implies spec_item_name(ast, entries@[i])
                        != spec_item_name(ast, entries@[j]) by {
                        assert(spec_item_name(ast, entries@[pos as int]) == n@);
                        assert(spec_item_name(ast, es0[pos as int]) == n@);
                        if i != pos as int {
                            assert(entries@[i] == es0[i]);
                        }
                        if j != pos as int {
                            assert(entries@[j] == es0[j]);
                        }
                    }
                }
            },
        }
    }
}

/// Walks the children of one scope in declaration order and builds the
/// scope's entries: system-header and nameless children are skipped,
/// classes and structs are admitted only as definitions, functions are
/// admitted unconditionally, and namespaces are built recursively; entries
/// land under the merge/overwrite rule.
#[verifier::loop_isolation(false)]
fn load_entries(ast: &Ast, entity: usize) -> (r: Vec<CppItem>)
    requires
        ast.wf(),
        entity < ast.ents@.len(),
    ensures
        entries_inv(ast, r@),
        models(ast, r@) =~= load_model(
            ast,
            ast.ents@[entity as int].children@,
            entity as int,
        ),
    decreases entity, 0nat,
{
    let ghost cs = ast.ents@[entity as int].children@;
    proof {
        assert(ast.ent_wf(entity as int));
        assert(cs.take(0) =~= Seq::<usize>::empty());
    }
    let mut entries: Vec<CppItem> = Vec::new();
    let cs_len = ast.ents[entity].children.len();
    let mut k: usize = 0;
    while k < cs_len
        invariant
            k <= cs_len,
            entries_inv(ast, entries@),
            models(ast, entries@) =~= load_model(ast, cs.take(k as int), entity as int),
        decreases cs_len - k,
    {
        let c = ast.ents[entity].children[k];
        proof {
            assert(cs[k as int] < entity);
        }
        let ghost es_before = entries@;
        let e = &ast.ents[c];
        let mut made: Option<CppItem> = None;
        if !e.in_system_header && e.name.is_some() {
            if e.kind == EntityKind::Namespace {
                let sub = Namespace::new(ast, c);
                made = Some(CppItem::Namespace(sub));
            } else if e.kind == EntityKind::StructDecl {
                if e.is_definition {
                    made = Some(CppItem::Struct(Struct { entity: c }));
                }
            } else if e.kind == EntityKind::ClassDecl || e.kind == EntityKind::ClassTemplate {
                if e.is_definition {
                    made = Some(CppItem::Class(Class { entity: c }));
                }
            } else if e.kind == EntityKind::FunctionDecl {
                made = Some(CppItem::Function(Function { entity: c }));
            }
        }
        proof {
            match &made {
                None => {
                    assert(admit_model(ast, c as int) is None);
                },
                Some(item) => {
                    assert(entry_inv(ast, *item));
                    assert(admit_model(ast, c as int) == Some(item_model(ast, *item)));
                },
            }
        }
        match made {
            Some(item) => {
                insert_item(ast, &mut entries, item);
            },
            None => {},
        }
        proof {
            assert(cs.take(k + 1).drop_last() =~= cs.take(k as int));
            assert(cs.take(k + 1).last() == cs[k as int]);
            assert(models(ast, entries@) =~= load_model(ast, cs.take(k + 1), entity as int));
        }
        k += 1;
    }
    proof {
        assert(cs.take(cs.len() as int) =~= cs);
    }
    entries
}

impl Namespace {
    /// Builds the symbol tree for one scope, in a single top-down pass:
    /// the result's entries are exactly `load_model` of the scope's
    /// children, and they satisfy the scope invariant.
    pub fn new(ast: &Ast, entity: usize) -> (r: Namespace)
        requires
            ast.wf(),
            entity < ast.ents@.len(),
        ensures
            r.entity == entity,
            entries_inv(ast, r.entries@),
            item_model(ast, CppItem::Namespace(r)) == scope_model(ast, entity as int),
            models(ast, r.entries@) =~= load_model(
                ast,
                ast.ents@[entity as int].children@,
                entity as int,
            ),
        decreases entity, 1nat,
    {
        let entries = load_entries(ast, entity);
        let r = Namespace { entity, entries };
        proof {
            assert(ast.ent_wf(entity as int));
            lemma_models_rec(ast, r.entries@);
        }
        r
    }

    /// The namespace's display name.
    pub fn name(&self, ast: &Ast) -> (r: String)
        requires
            self.entity < ast.ents@.len(),
        ensures
            r@ == spec_item_name(ast, CppItem::Namespace(*self)),
    {
        match &ast.ents[self.entity].name {
            Some(s) => s.clone(),
            None => String::from_str("<Anonymous namespace>"),
        }
    }

    /// The namespace's canonical URL: its fully qualified scope chain as a
    /// path.
    pub fn url(&self, ast: &Ast) -> (r: UrlPath)
        requires
            ast.wf(),
            self.entity < ast.ents@.len(),
        ensures
            r@ =~= ast.chain_names(self.entity as int),
    {
        url_of_entity(ast, self.entity)
    }

    /// Collects, over the whole tree below this namespace, the entries the
    /// matcher accepts, depth first.
    pub fn get<'a, F: Fn(&CppItem) -> bool>(&'a self, matcher: &F) -> (res: Vec<&'a CppItem>)
        requires
            forall|x: &CppItem| #[trigger] matcher.requires((x,)),
        ensures
            forall|t: int|
                0 <= t < res@.len() ==> matcher.ensures((#[trigger] res@[t],), true),
            forall|x: &CppItem|
                #![trigger matcher.ensures((x,), false)]
                (exists|k: int|
                    0 <= k < self.entries@.len() && subtree_contains(
                        #[trigger] self.entries@[k],
                        *x,
                    )) ==> (exists|t: int| 0 <= t < res@.len() && (#[trigger] res@[t]) == x)
                    || matcher.ensures((x,), false),
    {
        let mut res: Vec<&'a CppItem> = Vec::new();
        let mut i: usize = 0;
        while i < self.entries.len()
            invariant
                forall|x: &CppItem| #[trigger] matcher.requires((x,)),
                forall|t: int|
                    0 <= t < res@.len() ==> matcher.ensures((#[trigger] res@[t],), true),
                forall|x: &CppItem|
                    #![trigger matcher.ensures((x,), false)]
                    (exists|k: int|
                        0 <= k < i && subtree_contains(
                            #[trigger] self.entries@[k],
                            *x,
                        )) ==> (exists|t: int|
                        0 <= t < res@.len() && (#[trigger] res@[t]) == x)
                        || matcher.ensures((x,), false),
            decreases self.entries@.len() - i,
        {
            let ghost before = res@;
            self.entries[i].get(matcher, &mut res);
            proof {
                assert forall|x: &CppItem|
                    (exists|k: int|
                        0 <= k < i + 1 && subtree_contains(
                            #[trigger] self.entries@[k],
                            *x,
                        )) implies (exists|t: int|
                    0 <= t < res@.len() && (#[trigger] res@[t]) == x) || matcher.ensures(
                    (x,),
                    false,
                ) by {
                    let k = choose|k: int|
                        0 <= k < i + 1 && subtree_contains(#[trigger] self.entries@[k], *x);
                    if k < i {
                        if !matcher.ensures((x,), false) {
                            let t = choose|t: int|
                                0 <= t < before.len() && (#[trigger] before[t]) == x;
                            assert(res@[t] == x);
                        }
                    }
                }
            }
            i += 1;
        }
        res
    }
}

/// Whether a fully qualified chain of names leads to an entry of the tree:
/// each name but the last must name a namespace to descend into, and the
/// last must name any entry.
pub open spec fn chain_in(es: Seq<ItemM>, names: Seq<Seq<char>>) -> bool
    decreases names.len(),
{
    if names.len() == 0 {
        false
    } else {
        match find_m(es, names[0]) {
            None => false,
            Some(m) => if names.len() == 1 {
                true
            } else {
                m is NsM && chain_in(m->NsM_entries, names.drop_first())
            },
        }
    }
}

impl Namespace {
    /// Whether the given fully qualified chain of names resolves to an
    /// entry below this namespace.
    #[verifier::loop_isolation(false)]
    pub fn contains_chain(&self, ast: &Ast, names: &Vec<String>) -> (r: bool)
        requires
            ast.wf(),
            entries_inv(ast, self.entries@),
        ensures
            r == chain_in(
                models(ast, self.entries@),
                Seq::new(names@.len(), |i: int| names@[i]@),
            ),
    {
        let ghost nv = Seq::new(names@.len(), |i: int| names@[i]@);
        let mut cur: &Vec<CppItem> = &self.entries;
        let mut i: usize = 0;
        if names.len() == 0 {
            return false;
        }
        proof {
            assert(nv.skip(0) =~= nv);
        }
        loop
            invariant
                ast.wf(),
                entries_inv(ast, cur@),
                0 <= i < names@.len(),
                chain_in(models(ast, self.entries@), nv) == chain_in(
                    models(ast, cur@),
                    nv.skip(i as int),
                ),
            decreases names@.len() - i,
        {
            let ghost ms = models(ast, cur@);
            let ghost rest = nv.skip(i as int);
            proof {
                assert(rest[0] == nv[i as int]);
                assert forall|k: int|
                    0 <= k < cur@.len() implies 0 <= item_entity(#[trigger] cur@[k])
                    < ast.ents@.len() by {
                    assert(entry_inv(ast, cur@[k]));
                }
            }
            let pos = find_pos(ast, cur, &names[i]);
            proof {
                lemma_first_match(ms, nv[i as int]);
            }
            if pos == cur.len() {
                return false;
            }
            if i + 1 == names.len() {
                proof {
                    assert(rest.len() == 1);
                }
                return true;
            }
            proof {
                assert(find_m(ms, rest[0]) == Some(ms[pos as int]));
                assert(rest.drop_first() =~= nv.skip(i + 1));
            }
            match &cur[pos] {
                CppItem::Namespace(ns) => {
                    proof {
                        assert(entry_inv(ast, cur@[pos as int]));
                        assert(ms[pos as int] == item_model(ast, cur@[pos as int]));
                        lemma_models_rec(ast, ns.entries@);
                        assert(ms[pos as int]->NsM_entries =~= models(ast, ns.entries@));
                    }
                    cur = &ns.entries;
                    i = i + 1;
                },
                _ => {
                    proof {
                        assert(!(ms[pos as int] is NsM));
                    }
                    return false;
                },
            }
        }
    }
}

/// The canonical URL of an entity: the names along its fully qualified
/// scope chain, one path component each.
pub fn url_of_entity(ast: &Ast, e: usize) -> (r: UrlPath)
    requires
        ast.wf(),
        e < ast.ents@.len(),
    ensures
        r@ =~= ast.chain_names(e as int),
{
    let parts = ast.chain_parts(e);
    let r = UrlPath::from_parts(parts);
    proof {
        assert(r@ =~= ast.chain_names(e as int));
    }
    r
}

/// Whether `x` is a node of the subtree rooted at `it`.
pub open spec fn subtree_contains(it: CppItem, x: CppItem) -> bool
    decreases it,
{
    x == it || (it matches CppItem::Namespace(ns) && exists|k: int|
        0 <= k < ns.entries@.len() && subtree_contains(#[trigger] ns.entries@[k], x))
}

impl CppItem {
    /// The declaration this entry stands for.
    pub fn entity(&self) -> (r: usize)
        ensures
            r as int == item_entity(*self),
    {
        match self {
            CppItem::Namespace(ns) => ns.entity,
            CppItem::Class(c) => c.entity,
            CppItem::Struct(s) => s.entity,
            CppItem::Function(f) => f.entity,
        }
    }

    /// The entry's display name.
    pub fn name(&self, ast: &Ast) -> (r: String)
        requires
            0 <= item_entity(*self) < ast.ents@.len(),
        ensures
            r@ == spec_item_name(ast, *self),
    {
        item_name(ast, self)
    }

    /// The entry's canonical URL.
    pub fn url(&self, ast: &Ast) -> (r: UrlPath)
        requires
            ast.wf(),
            0 <= item_entity(*self) < ast.ents@.len(),
        ensures
            r@ =~= ast.chain_names(item_entity(*self)),
    {
        url_of_entity(ast, self.entity())
    }

    /// Collects, depth first, the entries of this subtree the matcher
    /// accepts, appending them to `out`; what was in `out` stays.
    #[verifier::loop_isolation(false)]
    pub fn get<'a, F: Fn(&CppItem) -> bool>(
        &'a self,
        matcher: &F,
        out: &mut Vec<&'a CppItem>,
    )
        requires
            forall|x: &CppItem| #[trigger] matcher.requires((x,)),
        ensures
            final(out)@.len() >= old(out)@.len(),
            forall|t: int| 0 <= t < old(out)@.len() ==> final(out)@[t] == old(out)@[t],
            forall|t: int|
                old(out)@.len() <= t < final(out)@.len() ==> matcher.ensures(
                    (#[trigger] final(out)@[t],),
                    true,
                ),
            forall|x: &CppItem|
                #![trigger subtree_contains(*self, *x)]
                subtree_contains(*self, *x) ==> (exists|t: int|
                    0 <= t < final(out)@.len() && (#[trigger] final(out)@[t]) == x)
                    || matcher.ensures((x,), false),
        decreases item_size(*self),
    {
        let ghost len0 = out@.len() as int;
        let m = matcher(self);
        if m {
            out.push(self);
        }
        let ghost root_done = out@;
        match self {
            CppItem::Namespace(ns) => {
                let mut i: usize = 0;
                while i < ns.entries.len()
                    invariant
                        out@.len() >= root_done.len() >= old(out)@.len(),
                        forall|t: int| 0 <= t < root_done.len() ==> out@[t] == root_done[t],
                        forall|t: int|
                            0 <= t < old(out)@.len() ==> out@[t] == old(out)@[t],
                        forall|t: int|
                            old(out)@.len() <= t < out@.len() ==> matcher.ensures(
                                (#[trigger] out@[t],),
                                true,
                            ),
                        forall|x: &CppItem|
                            #![trigger matcher.ensures((x,), false)]
                            (exists|k: int|
                                0 <= k < i && subtree_contains(
                                    #[trigger] ns.entries@[k],
                                    *x,
                                )) ==> (exists|t: int|
                                0 <= t < out@.len() && (#[trigger] out@[t]) == x)
                                || matcher.ensures((x,), false),
                    decreases ns.entries@.len() - i,
                {
                    proof {
                        lemma_item_size_le(ns.entries@, i as int);
                    }
                    let ghost before = out@;
                    ns.entries[i].get(matcher, out);
                    proof {
                        assert forall|x: &CppItem|
                            (exists|k: int|
                                0 <= k < i + 1 && subtree_contains(
                                    #[trigger] ns.entries@[k],
                                    *x,
                                )) implies (exists|t: int|
                            0 <= t < out@.len() && (#[trigger] out@[t]) == x)
                            || matcher.ensures((x,), false) by {
                            let k = choose|k: int|
                                0 <= k < i + 1 && subtree_contains(
                                    #[trigger] ns.entries@[k],
                                    *x,
                                );
                            if k < i {
                                if !matcher.ensures((x,), false) {
                                    let t = choose|t: int|
                                        0 <= t < before.len() && (#[trigger] before[t])
                                            == x;
                                    assert(out@[t] == x);
                                }
                            }
                        }
                    }
                    i += 1;
                }
                proof {
                    if m {
                        assert(out@[len0] == self);
                    }
                }
            },
            _ => {
                proof {
                    if m {
                        assert(out@[len0] == self);
                    }
                }
            },
        }
    }
}

impl Class {
    /// Wraps a class definition's entity as a tree entry.
    pub fn new(entity: usize) -> (r: Class)
        ensures
            r.entity == entity,
    {
        Class { entity }
    }
}

impl Struct {
    /// Wraps a struct definition's entity as a tree entry.
    pub fn new(entity: usize) -> (r: Struct)
        ensures
            r.entity == entity,
    {
        Struct { entity }
    }
}

impl Function {
    /// Wraps a function declaration's entity as a tree entry.
    pub fn new(entity: usize) -> (r: Function)
        ensures
            r.entity == entity,
    {
        Function { entity }
    }
}

} // verus!
