use active_parameter::active_parameter::{
    callable_for_token, find_call_site, find_generic_arg_list, generics_for_token, ActiveParameter,
    Binding,
};
use active_parameter::sema::{
    AssocItem, Callable, DefId, GenericDef, ModuleDef, Name, NodeFacts, Param, Pat, PathResolution,
    SelfParam, Semantics, Type, TypeInfo,
};
use active_parameter::tree::{SyntaxKind, SyntaxNode, SyntaxToken, SyntaxTree, TextRange};
use either::Either;

fn node(kind: SyntaxKind, start: u32, end: u32, parent: Option<usize>) -> SyntaxNode {
    SyntaxNode { kind, range: TextRange::new(start, end), parent }
}

fn token(parent: usize, start: u32, end: u32) -> SyntaxToken {
    SyntaxToken { parent, range: TextRange::new(start, end) }
}

fn named(name: &str, ty: usize) -> Param {
    (Some(Either::Right(Pat::IdentPat(Some(Name { text: name.to_string() })))), Type { index: ty })
}

fn callable(names: &[&str]) -> Callable {
    Callable { params: names.iter().enumerate().map(|(i, n)| named(n, 100 + i)).collect() }
}

fn no_facts() -> NodeFacts {
    NodeFacts { ty: None, callable: None, method: None, resolution: None }
}

fn typed(index: usize) -> NodeFacts {
    NodeFacts { ty: Some(TypeInfo { inferred: Type { index }, adjusted: None }), ..no_facts() }
}

fn semantics(nodes: Vec<SyntaxNode>, mut facts: Vec<(usize, NodeFacts)>, types: Vec<Option<Callable>>) -> Semantics {
    let mut all: Vec<NodeFacts> = (0..nodes.len()).map(|_| no_facts()).collect();
    for (i, f) in facts.drain(..) {
        all[i] = f;
    }
    Semantics { tree: SyntaxTree { nodes }, facts: all, callable_types: types }
}

fn param_name(p: &ActiveParameter) -> Option<String> {
    p.ident().map(|n| n.text)
}

/// `f(a, b, c)`, with `f` of type 0, which calls a callable of `params`.
fn call_f_abc(params: &[&str]) -> Semantics {
    let nodes = vec![
        node(SyntaxKind::CallExpr, 0, 10, None),
        node(SyntaxKind::PathExpr, 0, 1, Some(0)),
        node(SyntaxKind::Path, 0, 1, Some(1)),
        node(SyntaxKind::ArgList, 1, 10, Some(0)),
        node(SyntaxKind::PathExpr, 2, 3, Some(3)),
        node(SyntaxKind::PathExpr, 5, 6, Some(3)),
        node(SyntaxKind::PathExpr, 8, 9, Some(3)),
        node(SyntaxKind::Path, 5, 6, Some(5)),
    ];
    semantics(nodes, vec![(1, typed(0))], vec![Some(callable(params))])
}

#[test]
fn token_in_second_argument_has_index_one() {
    let sema = call_f_abc(&["x", "y", "z"]);
    let (c, idx) = callable_for_token(&sema, token(7, 5, 6)).unwrap();
    assert_eq!(idx, Some(1));
    assert_eq!(c.params.len(), 3);
    let p = ActiveParameter::at_token(&sema, token(7, 5, 6)).unwrap();
    assert_eq!(param_name(&p), Some("y".to_string()));
    assert_eq!(p.ty, Type { index: 101 });
}

#[test]
fn token_on_comma_counts_finished_arguments() {
    let sema = call_f_abc(&["x", "y", "z"]);
    // the `,` after `a`, at offset 3, held by the argument list
    let (_, idx) = callable_for_token(&sema, token(3, 3, 4)).unwrap();
    assert_eq!(idx, Some(1));
    // the `(`, at offset 1
    let (_, idx) = callable_for_token(&sema, token(3, 1, 2)).unwrap();
    assert_eq!(idx, Some(0));
    // the `)`, at offset 9
    let (_, idx) = callable_for_token(&sema, token(3, 9, 10)).unwrap();
    assert_eq!(idx, Some(3));
}

#[test]
fn empty_argument_list_has_index_zero() {
    // f()
    let nodes = vec![
        node(SyntaxKind::CallExpr, 0, 3, None),
        node(SyntaxKind::PathExpr, 0, 1, Some(0)),
        node(SyntaxKind::ArgList, 1, 3, Some(0)),
    ];
    let sema = semantics(nodes, vec![(1, typed(0))], vec![Some(callable(&["x"]))]);
    let (_, idx) = callable_for_token(&sema, token(2, 2, 3)).unwrap();
    assert_eq!(idx, Some(0));
    let p = ActiveParameter::at_token(&sema, token(2, 2, 3)).unwrap();
    assert_eq!(param_name(&p), Some("x".to_string()));
}

#[test]
fn too_many_arguments_gives_no_parameter() {
    // f(a, b, c) against a callable of two parameters; the token is in `c`
    let sema = call_f_abc(&["x", "y"]);
    let (c, idx) = callable_for_token(&sema, token(6, 8, 9)).unwrap();
    assert_eq!(idx, Some(2));
    assert!(matches!(ActiveParameter::bind(&c, 2), Binding::TooManyArguments));
    assert!(ActiveParameter::at_token(&sema, token(6, 8, 9)).is_none());
}

#[test]
fn fourth_argument_to_three_parameters_is_too_many() {
    let c = callable(&["x", "y", "z"]);
    assert!(matches!(ActiveParameter::bind(&c, 3), Binding::TooManyArguments));
    assert!(matches!(ActiveParameter::bind(&c, 2), Binding::Bound(_)));
}

#[test]
fn parameter_without_pattern_is_not_bound() {
    let c = Callable { params: vec![(None, Type { index: 4 })] };
    assert!(matches!(ActiveParameter::bind(&c, 0), Binding::NoPattern));
}

/// `f(g(x))`: `f` has type 0, `g` type 1.
fn nested_calls() -> Semantics {
    let nodes = vec![
        node(SyntaxKind::CallExpr, 0, 7, None),
        node(SyntaxKind::PathExpr, 0, 1, Some(0)),
        node(SyntaxKind::ArgList, 1, 7, Some(0)),
        node(SyntaxKind::CallExpr, 2, 6, Some(2)),
        node(SyntaxKind::PathExpr, 2, 3, Some(3)),
        node(SyntaxKind::ArgList, 3, 6, Some(3)),
        node(SyntaxKind::PathExpr, 4, 5, Some(5)),
    ];
    semantics(
        nodes,
        vec![(1, typed(0)), (4, typed(1))],
        vec![Some(callable(&["outer"])), Some(callable(&["inner"]))],
    )
}

#[test]
fn nested_call_resolves_innermost() {
    let sema = nested_calls();
    assert_eq!(find_call_site(&sema.tree, token(6, 4, 5)), Some(3));
    let p = ActiveParameter::at_token(&sema, token(6, 4, 5)).unwrap();
    assert_eq!(param_name(&p), Some("inner".to_string()));
}

#[test]
fn callee_of_inner_call_belongs_to_outer_call() {
    let sema = nested_calls();
    // the token `g` is in the callee of `g(x)`, and in the arguments of `f`
    assert_eq!(find_call_site(&sema.tree, token(4, 2, 3)), Some(0));
    let p = ActiveParameter::at_token(&sema, token(4, 2, 3)).unwrap();
    assert_eq!(param_name(&p), Some("outer".to_string()));
}

#[test]
fn token_in_callee_has_no_call() {
    // f(x), the token on `f`
    let nodes = vec![
        node(SyntaxKind::CallExpr, 0, 4, None),
        node(SyntaxKind::PathExpr, 0, 1, Some(0)),
        node(SyntaxKind::ArgList, 1, 4, Some(0)),
        node(SyntaxKind::PathExpr, 2, 3, Some(2)),
    ];
    let sema = semantics(nodes, vec![(1, typed(0))], vec![Some(callable(&["x"]))]);
    assert_eq!(find_call_site(&sema.tree, token(1, 0, 1)), None);
    assert!(callable_for_token(&sema, token(1, 0, 1)).is_none());
    assert!(ActiveParameter::at_token(&sema, token(1, 0, 1)).is_none());
}

#[test]
fn call_without_argument_list_is_skipped() {
    // a broken call node with no argument list
    let nodes = vec![node(SyntaxKind::CallExpr, 0, 1, None), node(SyntaxKind::PathExpr, 0, 1, Some(0))];
    let sema = semantics(nodes, vec![(1, typed(0))], vec![Some(callable(&["x"]))]);
    assert_eq!(find_call_site(&sema.tree, token(1, 0, 1)), None);
}

#[test]
fn callee_type_is_adjusted_before_it_is_called() {
    // f(a), where `f` is a reference to a callable: type 0 derefs to type 1
    let nodes = vec![
        node(SyntaxKind::CallExpr, 0, 4, None),
        node(SyntaxKind::PathExpr, 0, 1, Some(0)),
        node(SyntaxKind::ArgList, 1, 4, Some(0)),
        node(SyntaxKind::PathExpr, 2, 3, Some(2)),
    ];
    let adjusted = NodeFacts {
        ty: Some(TypeInfo { inferred: Type { index: 0 }, adjusted: Some(Type { index: 1 }) }),
        ..no_facts()
    };
    let sema = semantics(nodes, vec![(1, adjusted)], vec![None, Some(callable(&["deref"]))]);
    let p = ActiveParameter::at_token(&sema, token(3, 2, 3)).unwrap();
    assert_eq!(param_name(&p), Some("deref".to_string()));
}

#[test]
fn callee_without_type_has_no_callable() {
    let nodes = vec![
        node(SyntaxKind::CallExpr, 0, 4, None),
        node(SyntaxKind::PathExpr, 0, 1, Some(0)),
        node(SyntaxKind::ArgList, 1, 4, Some(0)),
        node(SyntaxKind::PathExpr, 2, 3, Some(2)),
    ];
    let sema = semantics(nodes, vec![], vec![Some(callable(&["x"]))]);
    assert!(callable_for_token(&sema, token(3, 2, 3)).is_none());
    // a type that is not callable
    let nodes2 = sema.tree.nodes.clone();
    let sema2 = semantics(nodes2, vec![(1, typed(5))], vec![Some(callable(&["x"]))]);
    assert!(callable_for_token(&sema2, token(3, 2, 3)).is_none());
}

/// `recv.method::<T>(a)`, the method resolved as `method`, `callable`.
fn method_call(method: Option<u32>, callable: Option<Callable>) -> Semantics {
    let nodes = vec![
        node(SyntaxKind::MethodCallExpr, 0, 20, None),
        node(SyntaxKind::PathExpr, 0, 4, Some(0)),
        node(SyntaxKind::NameRef, 5, 11, Some(0)),
        node(SyntaxKind::GenericArgList, 11, 16, Some(0)),
        node(SyntaxKind::GenericArg, 14, 15, Some(3)),
        node(SyntaxKind::Path, 14, 15, Some(4)),
        node(SyntaxKind::ArgList, 16, 20, Some(0)),
        node(SyntaxKind::PathExpr, 17, 18, Some(6)),
    ];
    let facts = NodeFacts { method: method.map(|id| DefId { id }), callable, ..no_facts() };
    semantics(nodes, vec![(0, facts)], vec![])
}

#[test]
fn method_call_binds_receiver_and_arguments() {
    let params = vec![
        (Some(Either::Left(SelfParam { by_ref: true, mutable: false })), Type { index: 9 }),
        named("a", 10),
    ];
    let sema = method_call(Some(3), Some(Callable { params }));
    let (_, idx) = callable_for_token(&sema, token(7, 17, 18)).unwrap();
    assert_eq!(idx, Some(0));
    let p = ActiveParameter::at_token(&sema, token(7, 17, 18)).unwrap();
    assert!(p.pat.is_left());
    assert_eq!(p.ident(), None);
    assert_eq!(p.ty, Type { index: 9 });
}

#[test]
fn unresolved_method_has_no_callable() {
    let sema = method_call(None, None);
    assert!(callable_for_token(&sema, token(7, 17, 18)).is_none());
    assert_eq!(generics_for_token(&sema, token(5, 14, 15)), None);
}

#[test]
fn method_generic_argument_resolves_to_method() {
    let sema = method_call(Some(3), None);
    assert_eq!(find_generic_arg_list(&sema.tree, token(5, 14, 15)), Some(3));
    assert_eq!(generics_for_token(&sema, token(5, 14, 15)), Some((GenericDef::AssocFunction(DefId { id: 3 }), 0)));
}

/// `Vec::<T1, T2>` as an expression, its path resolved as `res`.
fn generic_path(res: Option<PathResolution>) -> Semantics {
    let nodes = vec![
        node(SyntaxKind::PathExpr, 0, 14, None),
        node(SyntaxKind::Path, 0, 14, Some(0)),
        node(SyntaxKind::PathSegment, 0, 14, Some(1)),
        node(SyntaxKind::NameRef, 0, 3, Some(2)),
        node(SyntaxKind::GenericArgList, 3, 14, Some(2)),
        node(SyntaxKind::GenericArg, 6, 8, Some(4)),
        node(SyntaxKind::GenericArg, 10, 12, Some(4)),
        node(SyntaxKind::Path, 10, 12, Some(6)),
    ];
    let facts = NodeFacts { resolution: res, ..no_facts() };
    semantics(nodes, vec![(1, facts)], vec![])
}

#[test]
fn generic_path_second_argument_is_adt_index_one() {
    let sema = generic_path(Some(PathResolution::Def(ModuleDef::Adt(DefId { id: 7 }))));
    assert_eq!(generics_for_token(&sema, token(7, 10, 12)), Some((GenericDef::Adt(DefId { id: 7 }), 1)));
    assert_eq!(generics_for_token(&sema, token(5, 6, 8)), Some((GenericDef::Adt(DefId { id: 7 }), 0)));
}

#[test]
fn generic_path_to_local_module_or_const_is_none() {
    let d = DefId { id: 1 };
    for res in [
        PathResolution::Local(d),
        PathResolution::Def(ModuleDef::Module(d)),
        PathResolution::Def(ModuleDef::Const(d)),
        PathResolution::AssocItem(AssocItem::Const(d)),
    ] {
        let sema = generic_path(Some(res));
        assert_eq!(generics_for_token(&sema, token(7, 10, 12)), None);
        assert_eq!(generics_for_token(&sema, token(5, 6, 8)), None);
    }
}

#[test]
fn generic_path_unresolved_is_none() {
    let sema = generic_path(None);
    assert_eq!(generics_for_token(&sema, token(7, 10, 12)), None);
}

#[test]
fn token_outside_generic_arguments_has_no_list() {
    let sema = generic_path(Some(PathResolution::Def(ModuleDef::Adt(DefId { id: 7 }))));
    // the token `Vec`
    assert_eq!(find_generic_arg_list(&sema.tree, token(3, 0, 3)), None);
    assert_eq!(generics_for_token(&sema, token(3, 0, 3)), None);
}

#[test]
fn resolutions_map_to_generic_defs() {
    let d = DefId { id: 2 };
    let cases = [
        (PathResolution::Def(ModuleDef::Adt(d)), Some(GenericDef::Adt(d))),
        (PathResolution::Def(ModuleDef::Function(d)), Some(GenericDef::Function(d))),
        (PathResolution::Def(ModuleDef::Trait(d)), Some(GenericDef::Trait(d))),
        (PathResolution::Def(ModuleDef::TypeAlias(d)), Some(GenericDef::TypeAlias(d))),
        (PathResolution::Def(ModuleDef::Variant(d)), Some(GenericDef::Variant(d))),
        (PathResolution::AssocItem(AssocItem::Function(d)), Some(GenericDef::AssocFunction(d))),
        (PathResolution::AssocItem(AssocItem::TypeAlias(d)), Some(GenericDef::AssocTypeAlias(d))),
        (PathResolution::Def(ModuleDef::Static(d)), None),
        (PathResolution::Def(ModuleDef::Macro(d)), None),
        (PathResolution::Def(ModuleDef::BuiltinType(d)), None),
        (PathResolution::TypeParam(d), None),
        (PathResolution::ConstParam(d), None),
        (PathResolution::SelfType(d), None),
        (PathResolution::BuiltinAttr(d), None),
        (PathResolution::ToolModule(d), None),
    ];
    for (res, want) in cases {
        assert_eq!(res.generic_def(), want);
    }
}

#[test]
fn ident_only_for_plain_identifier_patterns() {
    let ty = Type { index: 0 };
    let p = ActiveParameter { ty, pat: Either::Right(Pat::IdentPat(Some(Name { text: "n".to_string() }))) };
    assert_eq!(param_name(&p), Some("n".to_string()));
    let p = ActiveParameter { ty, pat: Either::Right(Pat::IdentPat(None)) };
    assert_eq!(p.ident(), None);
    let p = ActiveParameter { ty, pat: Either::Right(Pat::Other) };
    assert_eq!(p.ident(), None);
    let p = ActiveParameter { ty, pat: Either::Left(SelfParam { by_ref: false, mutable: false }) };
    assert_eq!(p.ident(), None);
}

#[test]
fn text_range_excludes_its_end() {
    let r = TextRange::new(2, 5);
    assert!(!r.contains(1));
    assert!(r.contains(2));
    assert!(r.contains(4));
    assert!(!r.contains(5));
}

#[test]
fn ancestors_run_innermost_first() {
    let sema = nested_calls();
    assert_eq!(sema.tree.ancestors(6), vec![6, 5, 3, 2, 0]);
}
