//! An already-resolved semantic snapshot of a program, held as plain values:
//! what each node of the syntax tree was resolved to, and which types can be
//! called. The queries of this library read it and never change it.

use crate::tree::SyntaxTree;
use either::Either;
use vstd::prelude::*;

verus! {

/// Declares either::Either to Verus as it stands, with its two public
/// variants `Left` and `Right`, so that verified code builds and matches it.
#[verifier::external_type_specification]
#[verifier::reject_recursive_types(L)]
#[verifier::reject_recursive_types(R)]
pub struct ExEither<L, R>(Either<L, R>);

/// A handle on a type of the snapshot: an index into its type table.
#[derive(Clone, Copy, Debug, PartialEq, Eq, Structural)]
pub struct Type {
    pub index: usize,
}

/// What the snapshot inferred for an expression: its type, and the type that
/// implicit adjustments (auto-deref, auto-borrow) turned it into.
#[derive(Clone, Copy, Debug, PartialEq, Eq, Structural)]
pub struct TypeInfo {
    pub inferred: Type,
    pub adjusted: Option<Type>,
}

impl TypeInfo {
    pub open spec fn adjusted_spec(self) -> Type {
        match self.adjusted {
            Some(t) => t,
            None => self.inferred,
        }
    }

    /// The type after adjustments; the inferred type where there were none.
    pub fn adjusted(&self) -> (r: Type)
        ensures
            r == self.adjusted_spec(),
    {
        match self.adjusted {
            Some(t) => t,
            None => self.inferred,
        }
    }
}

/// A handle on a definition of the snapshot.
#[derive(Clone, Copy, Debug, PartialEq, Eq, Structural)]
pub struct DefId {
    pub id: u32,
}

#[derive(Clone, Debug, PartialEq, Eq)]
pub struct Name {
    pub text: String,
}

impl Name {
    pub fn copy(&self) -> (r: Name)
        ensures
            r == *self,
    {
        Name { text: self.text.clone() }
    }
}

/// A `self` receiver parameter: `self`, `&self` or `&mut self`.
#[derive(Clone, Copy, Debug, PartialEq, Eq, Structural)]
pub struct SelfParam {
    pub by_ref: bool,
    pub mutable: bool,
}

/// The binding pattern of a parameter.
#[derive(Clone, Debug, PartialEq, Eq)]
pub enum Pat {
    /// `name` or `mut name`; the name may be missing from broken source.
    IdentPat(Option<Name>),
    /// Any destructuring pattern: a tuple, a struct, `_`, ...
    Other,
}

impl Pat {
    pub fn copy(&self) -> (r: Pat)
        ensures
            r == *self,
    {
        match self {
            Pat::IdentPat(Some(n)) => Pat::IdentPat(Some(n.copy())),
            Pat::IdentPat(None) => Pat::IdentPat(None),
            Pat::Other => Pat::Other,
        }
    }
}

/// One parameter of a callable: its binding, where the source of the
/// callable is at hand, and its type.
pub type Param = (Option<Either<SelfParam, Pat>>, Type);

pub fn copy_param(p: &Param) -> (r: Param)
    ensures
        r == *p,
{
    let pat = match &p.0 {
        Some(Either::Left(s)) => Some(Either::Left(*s)),
        Some(Either::Right(pat)) => Some(Either::Right(pat.copy())),
        None => None,
    };
    (pat, p.1)
}

/// A callable signature: its parameters in declaration order, any receiver
/// first.
#[derive(Clone, Debug)]
pub struct Callable {
    pub params: Vec<Param>,
}

impl View for Callable {
    type V = Seq<Param>;

    open spec fn view(&self) -> Seq<Param> {
        self.params@
    }
}

impl Callable {
    /// The parameters, in declaration order.
    pub fn params(&self) -> (r: Vec<Param>)
        ensures
            r@ == self@,
    {
        let mut r: Vec<Param> = Vec::new();
        let mut i: usize = 0;
        while i < self.params.len()
            invariant
                i <= self.params@.len(),
                r@ == self@.subrange(0, i as int),
            decreases self.params@.len() - i,
        {
            r.push(copy_param(&self.params[i]));
            i += 1;
            assert(r@ =~= self@.subrange(0, i as int));
        }
        assert(self@.subrange(0, i as int) =~= self@);
        r
    }

    pub fn copy(&self) -> (r: Callable)
        ensures
            r@ == self@,
    {
        Callable { params: self.params() }
    }
}

/// A definition that a module-level path can name.
#[derive(Clone, Copy, Debug, PartialEq, Eq, Structural)]
pub enum ModuleDef {
    Module(DefId),
    Function(DefId),
    Adt(DefId),
    Variant(DefId),
    Const(DefId),
    Static(DefId),
    Trait(DefId),
    TypeAlias(DefId),
    BuiltinType(DefId),
    Macro(DefId),
}

/// An item of an impl or a trait.
#[derive(Clone, Copy, Debug, PartialEq, Eq, Structural)]
pub enum AssocItem {
    Function(DefId),
    Const(DefId),
    TypeAlias(DefId),
}

/// What a path resolves to.
#[derive(Clone, Copy, Debug, PartialEq, Eq, Structural)]
pub enum PathResolution {
    Def(ModuleDef),
    AssocItem(AssocItem),
    BuiltinAttr(DefId),
    ToolModule(DefId),
    Local(DefId),
    TypeParam(DefId),
    ConstParam(DefId),
    SelfType(DefId),
}

/// A definition that can take generic arguments.
#[derive(Clone, Copy, Debug, PartialEq, Eq, Structural)]
pub enum GenericDef {
    Adt(DefId),
    Function(DefId),
    Trait(DefId),
    TypeAlias(DefId),
    Variant(DefId),
    AssocFunction(DefId),
    AssocTypeAlias(DefId),
}

impl PathResolution {
    /// The generic definition that this resolution names, if it names one.
    pub open spec fn generic_def_spec(self) -> Option<GenericDef> {
        match self {
            PathResolution::Def(ModuleDef::Adt(d)) => Some(GenericDef::Adt(d)),
            PathResolution::Def(ModuleDef::Function(d)) => Some(GenericDef::Function(d)),
            PathResolution::Def(ModuleDef::Trait(d)) => Some(GenericDef::Trait(d)),
            PathResolution::Def(ModuleDef::TypeAlias(d)) => Some(GenericDef::TypeAlias(d)),
            PathResolution::Def(ModuleDef::Variant(d)) => Some(GenericDef::Variant(d)),
            PathResolution::AssocItem(AssocItem::Function(d)) => Some(GenericDef::AssocFunction(d)),
            PathResolution::AssocItem(AssocItem::TypeAlias(d)) => Some(
                GenericDef::AssocTypeAlias(d),
            ),
            _ => None,
        }
    }

    /// The generic definition that this resolution names; `None` for
    /// modules, constants, statics, macros, built-in types, associated
    /// constants, attributes, tool modules, locals, generic parameters and
    /// `Self`.
    pub fn generic_def(&self) -> (r: Option<GenericDef>)
        ensures
            r == self.generic_def_spec(),
    {
        match *self {
            PathResolution::Def(ModuleDef::Adt(d)) => Some(GenericDef::Adt(d)),
            PathResolution::Def(ModuleDef::Function(d)) => Some(GenericDef::Function(d)),
            PathResolution::Def(ModuleDef::Trait(d)) => Some(GenericDef::Trait(d)),
            PathResolution::Def(ModuleDef::TypeAlias(d)) => Some(GenericDef::TypeAlias(d)),
            PathResolution::Def(ModuleDef::Variant(d)) => Some(GenericDef::Variant(d)),
            PathResolution::Def(ModuleDef::BuiltinType(_))
            | PathResolution::Def(ModuleDef::Const(_))
            | PathResolution::Def(ModuleDef::Macro(_))
            | PathResolution::Def(ModuleDef::Module(_))
            | PathResolution::Def(ModuleDef::Static(_)) => None,
            PathResolution::AssocItem(AssocItem::Function(d)) => Some(GenericDef::AssocFunction(d)),
            PathResolution::AssocItem(AssocItem::TypeAlias(d)) => Some(
                GenericDef::AssocTypeAlias(d),
            ),
            PathResolution::AssocItem(AssocItem::Const(_)) => None,
            PathResolution::BuiltinAttr(_)
            | PathResolution::ToolModule(_)
            | PathResolution::Local(_)
            | PathResolution::TypeParam(_)
            | PathResolution::ConstParam(_)
            | PathResolution::SelfType(_) => None,
        }
    }
}

/// What the snapshot resolved for one node of the tree.
#[derive(Clone, Debug)]
pub struct NodeFacts {
    /// For an expression: its inferred type.
    pub ty: Option<TypeInfo>,
    /// For a method call: the method, as a callable.
    pub callable: Option<Callable>,
    /// For a method call: the method.
    pub method: Option<DefId>,
    /// For a path: what it resolves to.
    pub resolution: Option<PathResolution>,
}

/// A syntax tree with what the snapshot resolved for its nodes.
#[derive(Clone, Debug)]
pub struct Semantics {
    pub tree: SyntaxTree,
    /// One entry per node of `tree`.
    pub facts: Vec<NodeFacts>,
    /// Indexed by `Type::index`: the callable that a value of the type is.
    pub callable_types: Vec<Option<Callable>>,
}

impl Semantics {
    pub open spec fn wf(&self) -> bool {
        self.tree.wf() && self.facts@.len() == self.tree.nodes@.len()
    }

    pub open spec fn type_of_expr_spec(&self, expr: usize) -> Option<TypeInfo> {
        self.facts@[expr as int].ty
    }

    pub open spec fn as_callable_spec(&self, ty: Type) -> Option<Callable> {
        if ty.index < self.callable_types@.len() {
            self.callable_types@[ty.index as int]
        } else {
            None
        }
    }

    pub open spec fn method_call_as_callable_spec(&self, call: usize) -> Option<Callable> {
        self.facts@[call as int].callable
    }

    pub open spec fn method_call_spec(&self, call: usize) -> Option<DefId> {
        self.facts@[call as int].method
    }

    pub open spec fn resolve_path_spec(&self, path: usize) -> Option<PathResolution> {
        self.facts@[path as int].resolution
    }

    /// The inferred type of an expression node.
    pub fn type_of_expr(&self, expr: usize) -> (r: Option<TypeInfo>)
        requires
            self.wf(),
            expr < self.tree.len(),
        ensures
            r == self.type_of_expr_spec(expr),
    {
        self.facts[expr].ty
    }

    /// The callable that a value of type `ty` is, if it is one.
    pub fn as_callable(&self, ty: Type) -> (r: Option<Callable>)
        ensures
            r is Some <==> self.as_callable_spec(ty) is Some,
            r matches Some(c) ==> c@ == self.as_callable_spec(ty)->0@,
    {
        if ty.index < self.callable_types.len() {
            match &self.callable_types[ty.index] {
                Some(c) => Some(c.copy()),
                None => None,
            }
        } else {
            None
        }
    }

    /// The method that a method call node calls, as a callable.
    pub fn resolve_method_call_as_callable(&self, call: usize) -> (r: Option<Callable>)
        requires
            self.wf(),
            call < self.tree.len(),
        ensures
            r is Some <==> self.method_call_as_callable_spec(call) is Some,
            r matches Some(c) ==> c@ == self.method_call_as_callable_spec(call)->0@,
    {
        match &self.facts[call].callable {
            Some(c) => Some(c.copy()),
            None => None,
        }
    }

    /// The method that a method call node calls.
    pub fn resolve_method_call(&self, call: usize) -> (r: Option<DefId>)
        requires
            self.wf(),
            call < self.tree.len(),
        ensures
            r == self.method_call_spec(call),
    {
        self.facts[call].method
    }

    /// What a path node resolves to.
    pub fn resolve_path(&self, path: usize) -> (r: Option<PathResolution>)
        requires
            self.wf(),
            path < self.tree.len(),
        ensures
            r == self.resolve_path_spec(path),
    {
        self.facts[path].resolution
    }
}

} // verus!
