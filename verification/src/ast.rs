//! The parsed-declaration arena. The parse front end hands the library a
//! read-only tree of declarations; each declaration is a node in an arena
//! and is referred to by its index. A node's children always carry smaller
//! indices than the node itself (the arena is filled leaves-first), which
//! is what makes every walk over the tree terminate.

use vstd::prelude::*;
use vstd::string::StringExecFns;

verus! {

#[derive(Clone, Copy, PartialEq, Eq, Structural, Debug)]
pub enum EntityKind {
    TranslationUnit,
    Namespace,
    StructDecl,
    ClassDecl,
    ClassTemplate,
    FunctionDecl,
    Method,
    FieldDecl,
    TypedefDecl,
    TypeAliasDecl,
    UsingDeclaration,
    EnumDecl,
    Other,
}

#[derive(Clone, Copy, PartialEq, Eq, Structural, Debug)]
pub enum Accessibility {
    Public,
    Protected,
    Private,
}

#[derive(Clone, Copy, PartialEq, Eq, Structural, Debug)]
pub enum TypeKind {
    Void,
    Bool,
    Long,
    Auto,
    Int,
    Short,
    CharSigned,
    CharUnsigned,
    Float,
    Double,
    UInt,
    LongLong,
    LValueReference,
    RValueReference,
    Pointer,
    Other,
}

/// One parsed declaration.
pub struct EntityData {
    pub kind: EntityKind,
    pub name: Option<String>,
    pub display_name: Option<String>,
    pub comment: Option<String>,
    pub in_system_header: bool,
    pub is_definition: bool,
    pub accessibility: Accessibility,
    pub is_static_method: bool,
    pub is_virtual_method: bool,
    pub is_const_method: bool,
    pub is_pure_virtual_method: bool,
    /// Enclosing scope; always a larger index than the node's own.
    pub parent: Option<usize>,
    /// Child declarations, each a smaller index than the node's own.
    pub children: Vec<usize>,
    /// Parameters of a function or method, each a smaller index.
    pub arguments: Option<Vec<usize>>,
    /// The declared type of a field or parameter, an index into the types.
    pub ty: Option<usize>,
    /// The result type of a function or method, an index into the types.
    pub result_type: Option<usize>,
}

/// One type reference.
pub struct TypeData {
    pub kind: TypeKind,
    pub display_name: String,
    pub is_const_qualified: bool,
    pub is_pod: bool,
    /// For pointers and references, the type pointed to; a smaller index.
    pub pointee: Option<usize>,
    /// The declaration this type refers to, if any; an entity index.
    pub declaration: Option<usize>,
    /// Template arguments, each a smaller type index (or unknown).
    pub template_args: Option<Vec<Option<usize>>>,
}

/// The arena of declarations and type references for a run.
pub struct Ast {
    pub ents: Vec<EntityData>,
    pub tys: Vec<TypeData>,
}

impl Ast {
    pub open spec fn ent_wf(&self, i: int) -> bool {
        let e = self.ents@[i];
        &&& forall|k: int| 0 <= k < e.children@.len() ==> (#[trigger] e.children@[k]) < i
        &&& (e.parent matches Some(p) ==> i < p < self.ents@.len())
        &&& (e.arguments matches Some(args) ==> forall|k: int|
            0 <= k < args@.len() ==> (#[trigger] args@[k]) < i)
        &&& (e.ty matches Some(t) ==> t < self.tys@.len())
        &&& (e.result_type matches Some(t) ==> t < self.tys@.len())
    }

    pub open spec fn ty_wf(&self, j: int) -> bool {
        let t = self.tys@[j];
        &&& (t.pointee matches Some(p) ==> p < j)
        &&& (t.declaration matches Some(d) ==> d < self.ents@.len())
        &&& (t.template_args matches Some(args) ==> forall|k: int|
            0 <= k < args@.len() ==> ((#[trigger] args@[k]) matches Some(a) ==> a < j))
    }

    /// Well-formedness of the whole arena: every index points inward and
    /// downward, so no walk can loop.
    pub open spec fn wf(&self) -> bool {
        &&& forall|i: int| 0 <= i < self.ents@.len() ==> self.ent_wf(i)
        &&& forall|j: int| 0 <= j < self.tys@.len() ==> self.ty_wf(j)
    }

    /// The scope chain of an entity: the indices of its ancestors from the
    /// outermost named scope down to the entity itself. The translation
    /// unit root is not part of any chain.
    pub open spec fn chain(&self, i: int) -> Seq<usize>
        decreases self.ents@.len() - i,
        when self.wf() && 0 <= i < self.ents@.len()
        via Self::chain_decreases
    {
        if self.ents@[i].kind is TranslationUnit {
            Seq::empty()
        } else {
            match self.ents@[i].parent {
                None => seq![i as usize],
                Some(p) => self.chain(p as int).push(i as usize),
            }
        }
    }

    #[via_fn]
    proof fn chain_decreases(&self, i: int) {
        assert(self.ent_wf(i));
    }

    /// The display segment an entity contributes to a scope chain.
    pub open spec fn spec_seg_name(&self, i: int) -> Seq<char> {
        match self.ents@[i].name {
            Some(n) => n@,
            None => "_"@,
        }
    }

    /// The names along an entity's scope chain, outermost first.
    pub open spec fn chain_names(&self, i: int) -> Seq<Seq<char>> {
        self.chain(i).map_values(|e: usize| self.spec_seg_name(e as int))
    }

    /// Collects the scope chain of an entity, outermost scope first,
    /// ending with the entity itself; the translation unit is excluded.
    pub fn ancestorage(&self, i: usize) -> (r: Vec<usize>)
        requires
            self.wf(),
            i < self.ents@.len(),
        ensures
            r@ == self.chain(i as int),
        decreases self.ents@.len() - i,
    {
        proof {
            assert(self.ent_wf(i as int));
        }
        if self.ents[i].kind == EntityKind::TranslationUnit {
            Vec::new()
        } else {
            match self.ents[i].parent {
                None => {
                    let mut r: Vec<usize> = Vec::new();
                    r.push(i);
                    proof {
                        assert(r@ =~= seq![i]);
                    }
                    r
                },
                Some(p) => {
                    let mut r = self.ancestorage(p);
                    r.push(i);
                    r
                },
            }
        }
    }

    /// The display segment (the declaration's name, or `_` if it has none)
    /// for one entity.
    pub fn seg_name(&self, i: usize) -> (r: String)
        requires
            i < self.ents@.len(),
        ensures
            r@ == self.spec_seg_name(i as int),
    {
        match &self.ents[i].name {
            Some(n) => n.clone(),
            None => String::from_str("_"),
        }
    }

    /// The names along an entity's scope chain, outermost first.
    pub fn chain_parts(&self, i: usize) -> (r: Vec<String>)
        requires
            self.wf(),
            i < self.ents@.len(),
        ensures
            r@.map_values(|s: String| s@) =~= self.chain_names(i as int),
    {
        let idxs = self.ancestorage(i);
        proof {
            lemma_chain_valid(self, i as int);
        }
        let mut r: Vec<String> = Vec::new();
        let mut k: usize = 0;
        while k < idxs.len()
            invariant
                self.wf(),
                i < self.ents@.len(),
                k <= idxs@.len(),
                idxs@ == self.chain(i as int),
                forall|t: int| 0 <= t < idxs@.len() ==> (#[trigger] idxs@[t]) < self.ents@.len(),
                r@.len() == k,
                forall|t: int| 0 <= t < k ==> (#[trigger] r@[t])@ == self.chain_names(i as int)[t],
            decreases idxs@.len() - k,
        {
            let part = self.seg_name(idxs[k]);
            r.push(part);
            k += 1;
        }
        proof {
            assert(r@.map_values(|s: String| s@) =~= self.chain_names(i as int));
        }
        r
    }
}

/// Every index on an entity's scope chain is a valid entity index.
pub proof fn lemma_chain_valid(ast: &Ast, i: int)
    requires
        ast.wf(),
        0 <= i < ast.ents@.len(),
    ensures
        forall|t: int| 0 <= t < ast.chain(i).len() ==> (#[trigger] ast.chain(i)[t]) < ast.ents@.len(),
    decreases ast.ents@.len() - i,
{
    assert(ast.ent_wf(i));
    if !(ast.ents@[i].kind is TranslationUnit) {
        match ast.ents@[i].parent {
            None => {
                assert(ast.chain(i) =~= seq![i as usize]);
            },
            Some(p) => {
                lemma_chain_valid(ast, p as int);
                let c = ast.chain(i);
                let cp = ast.chain(p as int);
                assert(c =~= cp.push(i as usize));
                assert forall|t: int| 0 <= t < c.len() implies (#[trigger] c[t])
                    < ast.ents@.len() by {
                    if t < c.len() - 1 {
                        assert(c[t] == cp[t]);
                    } else {
                        assert(c[t] == i as usize);
                    }
                }
            },
        }
    }
}

} // verus!
