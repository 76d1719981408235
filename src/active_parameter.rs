//! Which argument of which call, or which generic argument of which generic
//! definition, a token belongs to.
//!
//! Each query walks the token's ancestors outwards and stops at the first
//! construct whose argument list holds the token's start, so that a token in
//! a nested call is attributed to the innermost call. The argument index is
//! the number of arguments that end at or before the token's start.

use crate::sema::{Callable, GenericDef, Name, Param, Pat, PathResolution, SelfParam, Semantics, Type};
use crate::tree::{ChildKind, SyntaxKind, SyntaxToken, SyntaxTree};
use either::Either;
use vstd::prelude::*;

verus! {

/// The first element of `s` that `pred` accepts.
pub open spec fn first_where(s: Seq<usize>, pred: spec_fn(usize) -> bool) -> Option<usize>
    decreases s.len(),
{
    if s.len() == 0 {
        None
    } else if pred(s[0]) {
        Some(s[0])
    } else {
        first_where(s.drop_first(), pred)
    }
}

/// How many of the leading `nodes` end at or before `offset`: the nodes are
/// taken in order up to the first one that ends after it.
pub open spec fn count_ended(tree: SyntaxTree, nodes: Seq<usize>, offset: u32) -> nat
    decreases nodes.len(),
{
    if nodes.len() == 0 {
        0
    } else if tree.range(nodes[0]).end <= offset {
        1 + count_ended(tree, nodes.drop_first(), offset)
    } else {
        0
    }
}

/// `node` is a call or method call whose argument list holds `offset`.
pub open spec fn is_call_site(tree: SyntaxTree, node: usize, offset: u32) -> bool {
    &&& tree.kind(node).is_callable_expr_spec()
    &&& tree.first_child(node, ChildKind::ArgList.selects()) matches Some(a)
    &&& tree.range(a).holds(offset)
}

/// `node` is a generic argument list that holds `offset`.
pub open spec fn is_generic_arg_list_at(tree: SyntaxTree, node: usize, offset: u32) -> bool {
    tree.kind(node) is GenericArgList && tree.range(node).holds(offset)
}

/// The ancestors that a walk looks for.
#[derive(Clone, Copy, Debug, PartialEq, Eq, Structural)]
pub enum Site {
    /// A call or method call whose argument list holds the offset.
    Call,
    /// A generic argument list that holds the offset.
    GenericArgList,
    /// A path.
    Path,
}

impl Site {
    pub open spec fn pred(self, tree: SyntaxTree, offset: u32) -> spec_fn(usize) -> bool {
        match self {
            Site::Call => |n: usize| is_call_site(tree, n, offset),
            Site::GenericArgList => |n: usize| is_generic_arg_list_at(tree, n, offset),
            Site::Path => |n: usize| tree.kind(n) is Path,
        }
    }

    fn holds_at(&self, tree: &SyntaxTree, node: usize, offset: u32) -> (r: bool)
        requires
            node < tree.len(),
        ensures
            r == (self.pred(*tree, offset))(node),
    {
        match self {
            Site::Call => {
                if !tree.nodes[node].kind.is_callable_expr() {
                    return false;
                }
                match tree.first_child_of(node, ChildKind::ArgList) {
                    Some(a) => tree.nodes[a].range.contains(offset),
                    None => false,
                }
            },
            Site::GenericArgList => matches!(tree.nodes[node].kind, SyntaxKind::GenericArgList)
                && tree.nodes[node].range.contains(offset),
            Site::Path => matches!(tree.nodes[node].kind, SyntaxKind::Path),
        }
    }
}

/// The innermost of `node` and its ancestors that is a `site` for `offset`.
pub fn find_ancestor(tree: &SyntaxTree, node: usize, site: Site, offset: u32) -> (r: Option<usize>)
    requires
        tree.wf(),
        node < tree.len(),
    ensures
        r == first_where(tree.ancestors_of(node), site.pred(*tree, offset)),
        r matches Some(n) ==> n < tree.len(),
{
    let anc = tree.ancestors(node);
    proof {
        tree.lemma_ancestors_decrease(node);
    }
    let ghost pred = site.pred(*tree, offset);
    let mut i: usize = 0;
    assert(anc@.subrange(0, anc@.len() as int) =~= anc@);
    while i < anc.len()
        invariant
            i <= anc@.len(),
            anc@ == tree.ancestors_of(node),
            pred == site.pred(*tree, offset),
            forall|k: int| 0 <= k < anc@.len() ==> #[trigger] anc@[k] < tree.len(),
            first_where(anc@, pred) == first_where(anc@.subrange(i as int, anc@.len() as int), pred),
        decreases anc@.len() - i,
    {
        assert(anc@.subrange(i as int, anc@.len() as int).drop_first() =~= anc@.subrange(
            i + 1,
            anc@.len() as int,
        ));
        let ghost rest = anc@.subrange(i as int, anc@.len() as int);
        assert(rest.len() > 0 && rest[0] == anc@[i as int]);
        let found = site.holds_at(tree, anc[i], offset);
        assert(found == pred(rest[0]));
        if found {
            return Some(anc[i]);
        }
        assert(first_where(rest, pred) == first_where(rest.drop_first(), pred));
        i += 1;
    }
    assert(anc@.subrange(i as int, anc@.len() as int) =~= Seq::<usize>::empty());
    None
}

/// The number of leading `nodes` that end at or before `offset`.
pub fn count_ended_before(tree: &SyntaxTree, nodes: &Vec<usize>, offset: u32) -> (r: usize)
    requires
        forall|k: int| 0 <= k < nodes@.len() ==> #[trigger] nodes@[k] < tree.len(),
    ensures
        r == count_ended(*tree, nodes@, offset),
{
    let mut i: usize = 0;
    assert(nodes@.subrange(0, nodes@.len() as int) =~= nodes@);
    while i < nodes.len() && tree.nodes[nodes[i]].range.end <= offset
        invariant
            i <= nodes@.len(),
            forall|k: int| 0 <= k < nodes@.len() ==> #[trigger] nodes@[k] < tree.len(),
            count_ended(*tree, nodes@, offset) == i + count_ended(
                *tree,
                nodes@.subrange(i as int, nodes@.len() as int),
                offset,
            ),
        decreases nodes@.len() - i,
    {
        let ghost rest = nodes@.subrange(i as int, nodes@.len() as int);
        assert(rest.drop_first() =~= nodes@.subrange(i + 1, nodes@.len() as int));
        assert(rest[0] == nodes@[i as int]);
        i += 1;
    }
    if i < nodes.len() {
        assert(nodes@.subrange(i as int, nodes@.len() as int)[0] == nodes@[i as int]);
    } else {
        assert(nodes@.subrange(i as int, nodes@.len() as int) =~= Seq::<usize>::empty());
    }
    i
}

/// The innermost call or method call whose argument list holds the token's
/// start.
pub open spec fn call_site_of(tree: SyntaxTree, token: SyntaxToken) -> Option<usize> {
    first_where(tree.ancestors_of(token.parent), Site::Call.pred(tree, token.range.start))
}

/// The active argument index in `call` for a token starting at `offset`:
/// the number of arguments that end at or before it; `None` where the call
/// has no argument list.
pub open spec fn index_in_call(tree: SyntaxTree, call: usize, offset: u32) -> Option<usize> {
    match tree.first_child(call, ChildKind::ArgList.selects()) {
        Some(a) => Some(
            count_ended(tree, tree.children(a, ChildKind::Expr.selects()), offset) as usize,
        ),
        None => None,
    }
}

/// The callable that a call node calls: for a plain call, the callable that
/// the callee's adjusted type is; for a method call, the resolved method.
pub open spec fn callable_of(sema: Semantics, call: usize) -> Option<Callable> {
    match sema.tree.kind(call) {
        SyntaxKind::CallExpr => match sema.tree.first_child(call, ChildKind::Expr.selects()) {
            Some(callee) => match sema.type_of_expr_spec(callee) {
                Some(ty) => sema.as_callable_spec(ty.adjusted_spec()),
                None => None,
            },
            None => None,
        },
        SyntaxKind::MethodCallExpr => sema.method_call_as_callable_spec(call),
        _ => None,
    }
}

/// The callable that the token is an argument of, and its argument index.
pub open spec fn callable_at(sema: Semantics, token: SyntaxToken) -> Option<(Callable, Option<usize>)> {
    match call_site_of(sema.tree, token) {
        Some(call) => match callable_of(sema, call) {
            Some(c) => Some((c, index_in_call(sema.tree, call, token.range.start))),
            None => None,
        },
        None => None,
    }
}

/// The innermost call or method call whose argument list holds the token's
/// start.
pub fn find_call_site(tree: &SyntaxTree, token: SyntaxToken) -> (r: Option<usize>)
    requires
        tree.wf(),
        tree.holds_token(token),
    ensures
        r == call_site_of(*tree, token),
        r matches Some(n) ==> n < tree.len(),
{
    find_ancestor(tree, token.parent, Site::Call, token.range.start)
}

/// The zero-based index of the argument of `call` that a token starting at
/// `offset` is in; `None` where the call has no argument list.
pub fn active_index(tree: &SyntaxTree, call: usize, offset: u32) -> (r: Option<usize>)
    requires
        tree.wf(),
        call < tree.len(),
    ensures
        r == index_in_call(*tree, call, offset),
{
    match tree.first_child_of(call, ChildKind::ArgList) {
        Some(a) => {
            let args = tree.children_of(a, ChildKind::Expr);
            Some(count_ended_before(tree, &args, offset))
        },
        None => None,
    }
}

/// The callable that a call or method call node calls, as the snapshot
/// resolved it.
pub fn resolve_callable(sema: &Semantics, call: usize) -> (r: Option<Callable>)
    requires
        sema.wf(),
        call < sema.tree.len(),
    ensures
        r is Some <==> callable_of(*sema, call) is Some,
        r matches Some(c) ==> c@ == callable_of(*sema, call)->0@,
{
    match sema.tree.nodes[call].kind {
        SyntaxKind::CallExpr => {
            let callee = sema.tree.first_child_of(call, ChildKind::Expr);
            match callee {
                Some(e) => match sema.type_of_expr(e) {
                    Some(ty) => sema.as_callable(ty.adjusted()),
                    None => None,
                },
                None => None,
            }
        },
        SyntaxKind::MethodCallExpr => sema.resolve_method_call_as_callable(call),
        _ => None,
    }
}

/// Returns the callable that the token is an argument of, with the index of
/// that argument.
pub fn callable_for_token(sema: &Semantics, token: SyntaxToken) -> (r: Option<(Callable, Option<usize>)>)
    requires
        sema.wf(),
        sema.tree.holds_token(token),
    ensures
        r is Some <==> callable_at(*sema, token) is Some,
        r matches Some((c, i)) ==> (callable_at(*sema, token) matches Some((sc, si)) && c@ == sc@
            && i == si),
{
    let call = find_call_site(&sema.tree, token)?;
    let callable = resolve_callable(sema, call)?;
    let index = active_index(&sema.tree, call, token.range.start);
    Some((callable, index))
}

/// The parameter that a call argument binds to, with its declared type.
#[derive(Debug)]
pub struct ActiveParameter {
    pub ty: Type,
    pub pat: Either<SelfParam, Pat>,
}

/// What binding an argument index to a parameter list gives.
#[derive(Debug)]
pub enum Binding {
    /// The parameter at the index.
    Bound(ActiveParameter),
    /// The parameter exists, but its binding pattern is not at hand.
    NoPattern,
    /// The index is past the last parameter: the call has too many
    /// arguments.
    TooManyArguments,
}

/// The binding of the argument at `index` to `params`.
pub open spec fn binding_of(params: Seq<Param>, index: usize) -> Binding {
    if index < params.len() {
        match params[index as int].0 {
            Some(pat) => Binding::Bound(ActiveParameter { ty: params[index as int].1, pat }),
            None => Binding::NoPattern,
        }
    } else {
        Binding::TooManyArguments
    }
}

/// The active parameter for a token: the parameter that its argument binds
/// to in the callable that it is an argument of.
pub open spec fn active_parameter_at(sema: Semantics, token: SyntaxToken) -> Option<ActiveParameter> {
    match callable_at(sema, token) {
        Some((c, Some(i))) => match binding_of(c@, i) {
            Binding::Bound(p) => Some(p),
            _ => None,
        },
        _ => None,
    }
}

impl ActiveParameter {
    pub open spec fn ident_spec(&self) -> Option<Name> {
        match self.pat {
            Either::Right(Pat::IdentPat(n)) => n,
            _ => None,
        }
    }

    /// Binds the argument at `index` to the parameters of `callable`.
    pub fn bind(callable: &Callable, index: usize) -> (r: Binding)
        ensures
            r == binding_of(callable@, index),
    {
        let mut params = callable.params();
        if !(index < params.len()) {
            return Binding::TooManyArguments;
        }
        let (pat, ty) = params.swap_remove(index);
        match pat {
            Some(pat) => Binding::Bound(ActiveParameter { ty, pat }),
            None => Binding::NoPattern,
        }
    }

    /// Returns information about the call argument this token is part of.
    pub fn at_token(sema: &Semantics, token: SyntaxToken) -> (r: Option<ActiveParameter>)
        requires
            sema.wf(),
            sema.tree.holds_token(token),
        ensures
            r == active_parameter_at(*sema, token),
    {
        let (signature, active_parameter) = callable_for_token(sema, token)?;
        let idx = active_parameter?;
        match ActiveParameter::bind(&signature, idx) {
            Binding::Bound(p) => Some(p),
            _ => None,
        }
    }

    /// The parameter's name, where it is bound by a plain identifier
    /// pattern; `None` for `self` and for destructuring patterns.
    pub fn ident(&self) -> (r: Option<Name>)
        ensures
            r == self.ident_spec(),
    {
        match &self.pat {
            Either::Right(Pat::IdentPat(Some(n))) => Some(n.copy()),
            _ => None,
        }
    }
}

/// The innermost generic argument list that holds the token's start.
pub open spec fn generic_arg_list_of(tree: SyntaxTree, token: SyntaxToken) -> Option<usize> {
    first_where(tree.ancestors_of(token.parent), Site::GenericArgList.pred(tree, token.range.start))
}

/// The active generic argument index in `list` for a token starting at
/// `offset`: the number of generic arguments that end at or before it.
pub open spec fn generic_index(tree: SyntaxTree, list: usize, offset: u32) -> nat {
    count_ended(tree, tree.children(list, ChildKind::GenericArg.selects()), offset)
}

/// The generic definition that a generic argument list applies to: the one
/// that the innermost enclosing path resolves to, or, with no enclosing path,
/// the method of a method call whose explicit generic arguments it is.
pub open spec fn generic_target(sema: Semantics, list: usize) -> Option<GenericDef> {
    match first_where(sema.tree.ancestors_of(list), Site::Path.pred(sema.tree, 0)) {
        Some(path) => match sema.resolve_path_spec(path) {
            Some(res) => res.generic_def_spec(),
            None => None,
        },
        None => match sema.tree.nodes@[list as int].parent {
            Some(m) => if sema.tree.kind(m) is MethodCallExpr {
                match sema.method_call_spec(m) {
                    Some(f) => Some(GenericDef::AssocFunction(f)),
                    None => None,
                }
            } else {
                None
            },
            None => None,
        },
    }
}

/// The generic definition whose generic argument list the token is in, and
/// the index of its generic argument.
pub open spec fn generics_at(sema: Semantics, token: SyntaxToken) -> Option<(GenericDef, usize)> {
    match generic_arg_list_of(sema.tree, token) {
        Some(list) => match generic_target(sema, list) {
            Some(def) => Some((def, generic_index(sema.tree, list, token.range.start) as usize)),
            None => None,
        },
        None => None,
    }
}

/// The innermost generic argument list that holds the token's start.
pub fn find_generic_arg_list(tree: &SyntaxTree, token: SyntaxToken) -> (r: Option<usize>)
    requires
        tree.wf(),
        tree.holds_token(token),
    ensures
        r == generic_arg_list_of(*tree, token),
        r matches Some(n) ==> n < tree.len(),
{
    find_ancestor(tree, token.parent, Site::GenericArgList, token.range.start)
}

/// The zero-based index of the generic argument of `list` that a token
/// starting at `offset` is in.
pub fn active_generic_index(tree: &SyntaxTree, list: usize, offset: u32) -> (r: usize)
    requires
        tree.wf(),
        list < tree.len(),
    ensures
        r == generic_index(*tree, list, offset),
{
    let args = tree.children_of(list, ChildKind::GenericArg);
    count_ended_before(tree, &args, offset)
}

/// The generic definition that the generic argument list `list` applies to.
pub fn resolve_generic_target(sema: &Semantics, list: usize) -> (r: Option<GenericDef>)
    requires
        sema.wf(),
        list < sema.tree.len(),
    ensures
        r == generic_target(*sema, list),
{
    if let Some(path) = find_ancestor(&sema.tree, list, Site::Path, 0) {
        let res = sema.resolve_path(path)?;
        res.generic_def()
    } else if let Some(m) = sema.tree.parent(list) {
        if matches!(sema.tree.nodes[m].kind, SyntaxKind::MethodCallExpr) {
            // recv.method::<T>()
            let method = sema.resolve_method_call(m)?;
            Some(GenericDef::AssocFunction(method))
        } else {
            None
        }
    } else {
        None
    }
}

/// Returns the generic definition that the token is a generic argument of,
/// with the index of that argument.
pub fn generics_for_token(sema: &Semantics, token: SyntaxToken) -> (r: Option<(GenericDef, usize)>)
    requires
        sema.wf(),
        sema.tree.holds_token(token),
    ensures
        r == generics_at(*sema, token),
{
    let list = find_generic_arg_list(&sema.tree, token)?;
    let active_param = active_generic_index(&sema.tree, list, token.range.start);
    let def = resolve_generic_target(sema, list)?;
    Some((def, active_param))
}

/// `first_where` picks an accepted element at or before any accepted
/// position, and nothing where no element is accepted.
pub proof fn lemma_first_where(s: Seq<usize>, pred: spec_fn(usize) -> bool)
    ensures
        forall|i: int|
            0 <= i < s.len() && #[trigger] pred(s[i]) ==> exists|m: int|
                0 <= m <= i && first_where(s, pred) == Some(s[m]),
        (forall|i: int| 0 <= i < s.len() ==> !#[trigger] pred(s[i])) ==> first_where(s, pred)
            is None,
        first_where(s, pred) matches Some(x) ==> pred(x),
    decreases s.len(),
{
    if s.len() > 0 {
        let t = s.drop_first();
        lemma_first_where(t, pred);
        assert forall|i: int| 0 <= i < s.len() && #[trigger] pred(s[i]) implies exists|m: int|
            0 <= m <= i && first_where(s, pred) == Some(s[m]) by {
            if !pred(s[0]) {
                assert(t[i - 1] == s[i]);
                let m = choose|m: int| 0 <= m <= i - 1 && first_where(t, pred) == Some(t[m]);
                assert(s[m + 1] == t[m]);
            }
        }
        if forall|i: int| 0 <= i < s.len() ==> !#[trigger] pred(s[i]) {
            assert(!pred(s[0]));
            assert forall|i: int| 0 <= i < t.len() implies !#[trigger] pred(t[i]) by {
                assert(t[i] == s[i + 1]);
            }
        }
    }
}

/// Where the first `k` nodes end at or before `offset` and node `k` ends
/// after it, exactly `k` nodes have ended.
pub proof fn lemma_count_ended_stops_at(tree: SyntaxTree, nodes: Seq<usize>, offset: u32, k: int)
    requires
        0 <= k < nodes.len(),
        forall|i: int| 0 <= i < k ==> #[trigger] tree.range(nodes[i]).end <= offset,
        tree.range(nodes[k]).end > offset,
    ensures
        count_ended(tree, nodes, offset) == k,
    decreases k,
{
    if k > 0 {
        let t = nodes.drop_first();
        assert forall|i: int| 0 <= i < k - 1 implies #[trigger] tree.range(t[i]).end <= offset by {
            assert(t[i] == nodes[i + 1]);
        }
        assert(tree.range(nodes[0]).end <= offset);
        lemma_count_ended_stops_at(tree, t, offset, k - 1);
    }
}

/// Nodes in source order: each ends at or before the next one starts.
pub open spec fn in_source_order(tree: SyntaxTree, nodes: Seq<usize>) -> bool {
    forall|i: int, j: int|
        0 <= i < j < nodes.len() ==> #[trigger] tree.range(nodes[i]).end <= #[trigger] tree.range(
            nodes[j],
        ).start
}

/// A token that starts inside the `k`-th argument of a call, whose
/// arguments stand in source order, has active index `k`.
pub proof fn lemma_index_of_argument_holding_token(
    tree: SyntaxTree,
    call: usize,
    offset: u32,
    k: int,
)
    requires
        tree.first_child(call, ChildKind::ArgList.selects()) matches Some(a) && {
            let args = tree.children(a, ChildKind::Expr.selects());
            &&& in_source_order(tree, args)
            &&& 0 <= k < args.len()
            &&& tree.range(args[k]).holds(offset)
        },
    ensures
        index_in_call(tree, call, offset) == Some(k as usize),
{
    let a = tree.first_child(call, ChildKind::ArgList.selects())->0;
    let args = tree.children(a, ChildKind::Expr.selects());
    assert forall|i: int| 0 <= i < k implies #[trigger] tree.range(args[i]).end <= offset by {
        assert(tree.range(args[i]).end <= tree.range(args[k]).start);
    }
    lemma_count_ended_stops_at(tree, args, offset, k);
}

/// A token that starts inside the `k`-th argument of a generic argument
/// list, whose arguments stand in source order, has generic index `k`.
pub proof fn lemma_generic_index_of_argument_holding_token(
    tree: SyntaxTree,
    list: usize,
    offset: u32,
    k: int,
)
    requires
        ({
            let args = tree.children(list, ChildKind::GenericArg.selects());
            &&& in_source_order(tree, args)
            &&& 0 <= k < args.len()
            &&& tree.range(args[k]).holds(offset)
        }),
    ensures
        generic_index(tree, list, offset) == k,
{
    let args = tree.children(list, ChildKind::GenericArg.selects());
    assert forall|i: int| 0 <= i < k implies #[trigger] tree.range(args[i]).end <= offset by {
        assert(tree.range(args[i]).end <= tree.range(args[k]).start);
    }
    lemma_count_ended_stops_at(tree, args, offset, k);
}

/// In a call with an empty argument list, the active index is 0 wherever
/// the token is.
pub proof fn lemma_empty_argument_list_index_zero(tree: SyntaxTree, call: usize, offset: u32)
    requires
        tree.first_child(call, ChildKind::ArgList.selects()) matches Some(a) && tree.children(
            a,
            ChildKind::Expr.selects(),
        ).len() == 0,
    ensures
        index_in_call(tree, call, offset) == Some(0usize),
{
}

/// An argument index at or past the parameter count binds to no parameter:
/// it is the too-many-arguments outcome, and the token has no active
/// parameter.
pub proof fn lemma_too_many_arguments(sema: Semantics, token: SyntaxToken)
    requires
        callable_at(sema, token) matches Some((c, Some(i))) && i >= c@.len(),
    ensures
        callable_at(sema, token) matches Some((c, Some(i))) && binding_of(c@, i) is TooManyArguments,
        active_parameter_at(sema, token) is None,
{
}

/// Of two nested calls whose argument lists both hold the token, the
/// innermost one is found, never an outer one.
pub proof fn lemma_innermost_call_wins(tree: SyntaxTree, token: SyntaxToken, inner: int, outer: int)
    requires
        tree.wf(),
        tree.holds_token(token),
        0 <= inner < outer < tree.ancestors_of(token.parent).len(),
        is_call_site(tree, tree.ancestors_of(token.parent)[inner], token.range.start),
    ensures
        call_site_of(tree, token) is Some,
        call_site_of(tree, token) != Some(tree.ancestors_of(token.parent)[outer]),
{
    let anc = tree.ancestors_of(token.parent);
    let pred = Site::Call.pred(tree, token.range.start);
    tree.lemma_ancestors_decrease(token.parent);
    lemma_first_where(anc, pred);
    assert(pred(anc[inner]));
    let m = choose|m: int| 0 <= m <= inner && first_where(anc, pred) == Some(anc[m]);
    assert(anc[outer] < anc[m]);
}

/// A call whose argument list does not hold the token's start, as when the
/// token is in the callee, is never the call found for it.
pub proof fn lemma_call_without_token_skipped(tree: SyntaxTree, token: SyntaxToken, call: usize)
    requires
        !is_call_site(tree, call, token.range.start),
    ensures
        call_site_of(tree, token) != Some(call),
{
    lemma_first_where(tree.ancestors_of(token.parent), Site::Call.pred(tree, token.range.start));
}

/// A token that no enclosing call holds in its argument list has no call,
/// no callable and no active parameter.
pub proof fn lemma_no_enclosing_call(sema: Semantics, token: SyntaxToken)
    requires
        forall|i: int|
            0 <= i < sema.tree.ancestors_of(token.parent).len() ==> !is_call_site(
                sema.tree,
                #[trigger] sema.tree.ancestors_of(token.parent)[i],
                token.range.start,
            ),
    ensures
        call_site_of(sema.tree, token) is None,
        callable_at(sema, token) is None,
        active_parameter_at(sema, token) is None,
{
    let anc = sema.tree.ancestors_of(token.parent);
    let pred = Site::Call.pred(sema.tree, token.range.start);
    assert forall|i: int| 0 <= i < anc.len() implies !#[trigger] pred(anc[i]) by {}
    lemma_first_where(anc, pred);
}

/// A generic argument list under a path that resolves to a local, a module
/// or a constant has no generic definition, whatever the argument position.
pub proof fn lemma_no_generics_for_local_module_const(sema: Semantics, token: SyntaxToken, path: usize)
    requires
        generic_arg_list_of(sema.tree, token) matches Some(list) && first_where(
            sema.tree.ancestors_of(list),
            Site::Path.pred(sema.tree, 0),
        ) == Some(path),
        sema.resolve_path_spec(path) matches Some(res) && (res is Local || res matches PathResolution::Def(
            crate::sema::ModuleDef::Module(_),
        ) || res matches PathResolution::Def(crate::sema::ModuleDef::Const(_))
            || res matches PathResolution::AssocItem(crate::sema::AssocItem::Const(_))),
    ensures
        generics_at(sema, token) is None,
{
}

} // verus!
