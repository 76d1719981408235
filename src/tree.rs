//! A read-only syntax tree held as an arena of nodes with parent links.
//!
//! A node's parent always stands before it in the arena, so that walking
//! parent links from any node ends at a root. The children of a node are the
//! nodes whose parent it is, in arena order, which is their source order.

use vstd::prelude::*;

verus! {

/// A half-open span of source text, `start..end`, in byte offsets.
#[derive(Clone, Copy, Debug, PartialEq, Eq, Structural)]
pub struct TextRange {
    pub start: u32,
    pub end: u32,
}

impl TextRange {
    /// The span holds `offset`: `start <= offset < end`.
    pub open spec fn holds(self, offset: u32) -> bool {
        self.start <= offset && offset < self.end
    }

    pub fn new(start: u32, end: u32) -> (r: TextRange)
        ensures
            r.start == start,
            r.end == end,
    {
        TextRange { start, end }
    }

    pub fn contains(&self, offset: u32) -> (r: bool)
        ensures
            r == self.holds(offset),
    {
        self.start <= offset && offset < self.end
    }
}

/// The kinds of node that the queries of this library tell apart.
#[derive(Clone, Copy, Debug, PartialEq, Eq, Structural)]
pub enum SyntaxKind {
    /// `f(args)`
    CallExpr,
    /// `recv.method::<generics>(args)`
    MethodCallExpr,
    /// A path used as an expression, `a::b`.
    PathExpr,
    /// Any other expression.
    OtherExpr,
    /// The parenthesised arguments of a call.
    ArgList,
    /// `::<A, B>` or `<A, B>`.
    GenericArgList,
    /// One argument of a generic argument list.
    GenericArg,
    Path,
    PathSegment,
    NameRef,
    /// Any other node.
    Other,
}

impl SyntaxKind {
    pub open spec fn is_expr_spec(self) -> bool {
        match self {
            SyntaxKind::CallExpr | SyntaxKind::MethodCallExpr | SyntaxKind::PathExpr
            | SyntaxKind::OtherExpr => true,
            _ => false,
        }
    }

    pub open spec fn is_callable_expr_spec(self) -> bool {
        self is CallExpr || self is MethodCallExpr
    }

    /// The node is an expression.
    pub fn is_expr(&self) -> (r: bool)
        ensures
            r == self.is_expr_spec(),
    {
        match self {
            SyntaxKind::CallExpr | SyntaxKind::MethodCallExpr | SyntaxKind::PathExpr
            | SyntaxKind::OtherExpr => true,
            _ => false,
        }
    }

    /// The node is a call or a method call.
    pub fn is_callable_expr(&self) -> (r: bool)
        ensures
            r == self.is_callable_expr_spec(),
    {
        match self {
            SyntaxKind::CallExpr | SyntaxKind::MethodCallExpr => true,
            _ => false,
        }
    }
}

/// Which children of a node a query selects.
#[derive(Clone, Copy, Debug, PartialEq, Eq, Structural)]
pub enum ChildKind {
    /// The argument list of a call.
    ArgList,
    /// Expressions: the arguments of an argument list, the callee of a call.
    Expr,
    /// The arguments of a generic argument list.
    GenericArg,
}

impl ChildKind {
    pub open spec fn selects(self) -> spec_fn(SyntaxKind) -> bool {
        match self {
            ChildKind::ArgList => |k: SyntaxKind| k is ArgList,
            ChildKind::Expr => |k: SyntaxKind| k.is_expr_spec(),
            ChildKind::GenericArg => |k: SyntaxKind| k is GenericArg,
        }
    }

    pub fn accepts(&self, k: SyntaxKind) -> (r: bool)
        ensures
            r == (self.selects())(k),
    {
        match self {
            ChildKind::ArgList => matches!(k, SyntaxKind::ArgList),
            ChildKind::Expr => k.is_expr(),
            ChildKind::GenericArg => matches!(k, SyntaxKind::GenericArg),
        }
    }
}

#[derive(Clone, Copy, Debug, PartialEq, Eq, Structural)]
pub struct SyntaxNode {
    pub kind: SyntaxKind,
    pub range: TextRange,
    pub parent: Option<usize>,
}

/// A token: a leaf of the tree, held by its parent node and its span.
#[derive(Clone, Copy, Debug, PartialEq, Eq, Structural)]
pub struct SyntaxToken {
    pub parent: usize,
    pub range: TextRange,
}

#[derive(Clone, Debug)]
pub struct SyntaxTree {
    pub nodes: Vec<SyntaxNode>,
}

impl SyntaxTree {
    /// Every parent link points to an earlier node.
    pub open spec fn wf(&self) -> bool {
        forall|i: int|
            0 <= i < self.nodes@.len() ==> ((#[trigger] self.nodes@[i]).parent matches Some(p)
                ==> p < i)
    }

    pub open spec fn len(&self) -> nat {
        self.nodes@.len()
    }

    pub open spec fn kind(&self, i: usize) -> SyntaxKind {
        self.nodes@[i as int].kind
    }

    pub open spec fn range(&self, i: usize) -> TextRange {
        self.nodes@[i as int].range
    }

    /// The token belongs to this tree.
    pub open spec fn holds_token(&self, token: SyntaxToken) -> bool {
        token.parent < self.nodes@.len()
    }

    /// `node` followed by its ancestors, innermost first.
    pub open spec fn ancestors_of(&self, node: usize) -> Seq<usize>
        decreases node,
    {
        if node < self.nodes@.len() {
            match self.nodes@[node as int].parent {
                Some(p) => if p < node {
                    seq![node] + self.ancestors_of(p)
                } else {
                    seq![node]
                },
                None => seq![node],
            }
        } else {
            seq![]
        }
    }

    /// `j` is a child of `p` of the kinds that `want` selects.
    pub open spec fn is_child(&self, p: usize, j: int, want: spec_fn(SyntaxKind) -> bool) -> bool {
        0 <= j < self.nodes@.len() && self.nodes@[j].parent == Some(p) && want(self.nodes@[j].kind)
    }

    /// The children of `p` selected by `want`, from arena index `j` on.
    pub open spec fn children_from(&self, p: usize, want: spec_fn(SyntaxKind) -> bool, j: int) -> Seq<
        usize,
    >
        decreases self.nodes@.len() - j,
    {
        if 0 <= j < self.nodes@.len() {
            if self.is_child(p, j, want) {
                seq![j as usize] + self.children_from(p, want, j + 1)
            } else {
                self.children_from(p, want, j + 1)
            }
        } else {
            seq![]
        }
    }

    /// The children of `p` selected by `want`, in source order.
    pub open spec fn children(&self, p: usize, want: spec_fn(SyntaxKind) -> bool) -> Seq<usize> {
        self.children_from(p, want, 0)
    }

    /// The first child of `p` selected by `want`.
    pub open spec fn first_child(&self, p: usize, want: spec_fn(SyntaxKind) -> bool) -> Option<
        usize,
    > {
        let c = self.children(p, want);
        if c.len() > 0 {
            Some(c[0])
        } else {
            None
        }
    }

    pub proof fn lemma_ancestors_of_unfold(&self, node: usize)
        requires
            self.wf(),
            node < self.len(),
        ensures
            self.ancestors_of(node) == match self.nodes@[node as int].parent {
                Some(p) => seq![node] + self.ancestors_of(p),
                None => seq![node],
            },
    {
        assert(self.nodes@[node as int].parent matches Some(p) ==> p < node);
    }

    /// The ancestors of a node in a well-formed tree are nodes of the tree,
    /// strictly decreasing from `node` outwards.
    pub proof fn lemma_ancestors_decrease(&self, node: usize)
        requires
            self.wf(),
            node < self.len(),
        ensures
            self.ancestors_of(node).len() > 0,
            self.ancestors_of(node)[0] == node,
            forall|i: int|
                0 <= i < self.ancestors_of(node).len() ==> #[trigger] self.ancestors_of(node)[i]
                    < self.len(),
            forall|i: int, k: int|
                0 <= i < k < self.ancestors_of(node).len() ==> #[trigger] self.ancestors_of(node)[k]
                    < #[trigger] self.ancestors_of(node)[i],
        decreases node,
    {
        self.lemma_ancestors_of_unfold(node);
        match self.nodes@[node as int].parent {
            Some(p) => {
                assert(p < node);
                self.lemma_ancestors_decrease(p);
                let a = self.ancestors_of(node);
                let b = self.ancestors_of(p);
                assert forall|i: int, k: int| 0 <= i < k < a.len() implies #[trigger] a[k] < #[trigger] a[i] by {
                    assert(a[k] == b[k - 1]);
                    if i > 0 {
                        assert(a[i] == b[i - 1]);
                    } else {
                        assert(b[k - 1] <= b[0]);
                    }
                }
                assert forall|i: int| 0 <= i < a.len() implies #[trigger] a[i] < self.len() by {
                    if i > 0 {
                        assert(a[i] == b[i - 1]);
                    }
                }
            },
            None => {},
        }
    }

    /// The children of `p` of the kind `want`, in source order.
    pub fn children_of(&self, p: usize, want: ChildKind) -> (r: Vec<usize>)
        ensures
            r@ == self.children(p, want.selects()),
            forall|i: int| 0 <= i < r@.len() ==> #[trigger] r@[i] < self.len(),
    {
        let mut r: Vec<usize> = Vec::new();
        let mut j: usize = 0;
        while j < self.nodes.len()
            invariant
                j <= self.nodes@.len(),
                r@ + self.children_from(p, want.selects(), j as int) == self.children(p, want.selects()),
                forall|i: int| 0 <= i < r@.len() ==> #[trigger] r@[i] < self.len(),
            decreases self.nodes@.len() - j,
        {
            let ghost before = r@;
            if self.nodes[j].parent == Some(p) && want.accepts(self.nodes[j].kind) {
                r.push(j);
                assert(before + self.children_from(p, want.selects(), j as int) =~= r@
                    + self.children_from(p, want.selects(), j + 1));
            }
            j += 1;
        }
        assert(r@ + self.children_from(p, want.selects(), j as int) =~= r@);
        r
    }

    /// The first child of `p` of the kind `want`.
    pub fn first_child_of(&self, p: usize, want: ChildKind) -> (r: Option<usize>)
        ensures
            r == self.first_child(p, want.selects()),
            r matches Some(c) ==> c < self.len(),
    {
        let c = self.children_of(p, want);
        if c.len() > 0 {
            Some(c[0])
        } else {
            None
        }
    }

    /// The parent of `node`, if it is not a root.
    pub fn parent(&self, node: usize) -> (r: Option<usize>)
        requires
            node < self.len(),
        ensures
            r == self.nodes@[node as int].parent,
    {
        self.nodes[node].parent
    }

    /// `node` followed by its ancestors, innermost first.
    pub fn ancestors(&self, node: usize) -> (r: Vec<usize>)
        requires
            self.wf(),
            node < self.len(),
        ensures
            r@ == self.ancestors_of(node),
    {
        let mut r: Vec<usize> = Vec::new();
        let mut cur: usize = node;
        loop
            invariant
                self.wf(),
                cur < self.len(),
                r@ + self.ancestors_of(cur) == self.ancestors_of(node),
            decreases cur,
        {
            proof {
                self.lemma_ancestors_of_unfold(cur);
            }
            let ghost before = r@;
            r.push(cur);
            match self.nodes[cur].parent {
                Some(p) => {
                    assert(before + self.ancestors_of(cur) =~= r@ + self.ancestors_of(p));
                    cur = p;
                },
                None => {
                    assert(before + self.ancestors_of(cur) =~= r@);
                    return r;
                },
            }
        }
    }
}

} // verus!
