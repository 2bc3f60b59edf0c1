//! Expression trees: an arena of nodes linked by index.

use vstd::prelude::*;
use crate::symbol_declaration::{BasicType, DeclId, TypeView};
use crate::token::Token;

verus! {

/// What a node of an expression tree stands for.
#[derive(Debug, PartialEq)]
pub enum StatementSymbol {
    Decl(DeclId),
    Literal(Token),
    Operator(Token),
    SingleChildOperator(Token),
    FunctionCall(DeclId, Vec<StatementTree>),
    ArrayAccess(DeclId, StatementTree),
}

/// A node of an expression tree.
#[derive(Debug, PartialEq)]
pub struct StatementNode {
    pub symbol: StatementSymbol,
    pub node_type: Option<BasicType>,
    pub parent: Option<usize>,
    pub left: Option<usize>,
    pub right: Option<usize>,
}

impl StatementNode {
    /// Whether the node has a left and a right child.
    pub fn has_both_children(&self) -> (r: bool)
        ensures
            r == (self.left is Some && self.right is Some),
    {
        self.left.is_some() && self.right.is_some()
    }

    /// The node with `child` in its first free branch: the left one if it is
    /// empty, the right one otherwise.
    pub open spec fn with_child(self, child: usize) -> StatementNode {
        if self.left is None {
            StatementNode { left: Some(child), ..self }
        } else {
            StatementNode { right: Some(child), ..self }
        }
    }

    /// The node with `new_child` in place of `child`: in the left branch if
    /// that holds `child`, in the right branch otherwise.
    pub open spec fn with_child_replaced(self, child: usize, new_child: usize) -> StatementNode {
        if self.left == Some(child) {
            StatementNode { left: Some(new_child), ..self }
        } else {
            StatementNode { right: Some(new_child), ..self }
        }
    }
}

/// An expression tree: its nodes and the index of its root, if it has one.
#[derive(Debug, PartialEq)]
pub struct StatementTree {
    pub nodes: Vec<StatementNode>,
    pub start: Option<usize>,
}

/// What a node stands for, as a mathematical value.
pub enum StatementSymbolView {
    Decl(Seq<char>, usize),
    Literal(Token),
    Operator(Token),
    SingleChildOperator(Token),
    FunctionCall(Seq<char>, usize, Seq<TreeView>),
    ArrayAccess(Seq<char>, usize, Box<TreeView>),
}

/// A node as a mathematical value.
pub struct NodeView {
    pub symbol: StatementSymbolView,
    pub node_type: Option<TypeView>,
    pub parent: Option<usize>,
    pub left: Option<usize>,
    pub right: Option<usize>,
}

/// An expression tree as a mathematical value.
pub struct TreeView {
    pub nodes: Seq<NodeView>,
    pub start: Option<usize>,
}

/// The type `t` as a mathematical value, where there is one.
pub open spec fn type_option_view(t: Option<BasicType>) -> Option<TypeView> {
    match t {
        Some(t) => Some(t@),
        None => None,
    }
}

/// The mathematical value of an expression tree.
pub open spec fn tree_view(tree: StatementTree) -> TreeView
    decreases tree, 2nat,
{
    TreeView {
        nodes: Seq::new(
            tree.nodes@.len(),
            |i: int|
                if 0 <= i < tree.nodes@.len() {
                    node_view(tree.nodes@[i])
                } else {
                    arbitrary()
                },
        ),
        start: tree.start,
    }
}

/// The mathematical value of a node.
pub open spec fn node_view(node: StatementNode) -> NodeView
    decreases node, 1nat,
{
    NodeView {
        symbol: symbol_view(node.symbol),
        node_type: type_option_view(node.node_type),
        parent: node.parent,
        left: node.left,
        right: node.right,
    }
}

/// The mathematical value of what a node stands for.
pub open spec fn symbol_view(symbol: StatementSymbol) -> StatementSymbolView
    decreases symbol, 0nat,
{
    match symbol {
        StatementSymbol::Decl(id) => StatementSymbolView::Decl(id.0@, id.1),
        StatementSymbol::Literal(token) => StatementSymbolView::Literal(token),
        StatementSymbol::Operator(token) => StatementSymbolView::Operator(token),
        StatementSymbol::SingleChildOperator(token) => StatementSymbolView::SingleChildOperator(
            token,
        ),
        StatementSymbol::FunctionCall(id, args) => StatementSymbolView::FunctionCall(
            id.0@,
            id.1,
            Seq::new(
                args@.len(),
                |i: int|
                    if 0 <= i < args@.len() {
                        tree_view(args@[i])
                    } else {
                        arbitrary()
                    },
            ),
        ),
        StatementSymbol::ArrayAccess(id, index) => StatementSymbolView::ArrayAccess(
            id.0@,
            id.1,
            Box::new(tree_view(index)),
        ),
    }
}

impl View for StatementTree {
    type V = TreeView;

    open spec fn view(&self) -> TreeView {
        tree_view(*self)
    }
}

impl View for StatementNode {
    type V = NodeView;

    open spec fn view(&self) -> NodeView {
        node_view(*self)
    }
}

/// The nodes `nodes` as mathematical values.
pub open spec fn nodes_view(nodes: Seq<StatementNode>) -> Seq<NodeView> {
    Seq::new(nodes.len(), |i: int| node_view(nodes[i]))
}

/// The view of a tree holds the views of its nodes.
pub proof fn lemma_tree_view(tree: StatementTree)
    ensures
        tree_view(tree).nodes == nodes_view(tree.nodes@),
        tree_view(tree).start == tree.start,
{
    assert(tree_view(tree).nodes =~= nodes_view(tree.nodes@));
}

/// The node `node` with `child` in its first free branch.
pub open spec fn with_child(node: NodeView, child: usize) -> NodeView {
    if node.left is None {
        NodeView { left: Some(child), ..node }
    } else {
        NodeView { right: Some(child), ..node }
    }
}

/// The node `node` with `new_child` in place of `child`.
pub open spec fn with_child_replaced(node: NodeView, child: usize, new_child: usize) -> NodeView {
    if node.left == Some(child) {
        NodeView { left: Some(new_child), ..node }
    } else {
        NodeView { right: Some(new_child), ..node }
    }
}

impl TreeView {
    /// The tree after a node for `symbol` was added under `parent`, in the
    /// parent's first free branch, or as the root without a parent.
    pub open spec fn add_node(self, symbol: StatementSymbolView, parent: Option<usize>) -> TreeView {
        let pushed = self.nodes.push(
            NodeView { symbol, node_type: None, parent, left: None, right: None },
        );
        TreeView {
            nodes: match parent {
                Some(p) => if p < pushed.len() {
                    pushed.update(p as int, with_child(pushed[p as int], self.nodes.len() as usize))
                } else {
                    pushed
                },
                None => pushed,
            },
            start: if parent is None {
                Some(self.nodes.len() as usize)
            } else {
                self.start
            },
        }
    }

    /// The tree after a node for `symbol` was put between `node` and its
    /// parent.
    pub open spec fn split(self, symbol: StatementSymbolView, node: usize) -> TreeView {
        let parent = self.nodes[node as int].parent;
        let new_node = self.nodes.len() as usize;
        let pushed = self.nodes.push(
            NodeView { symbol, node_type: None, parent, left: Some(node), right: None },
        );
        let relinked = match parent {
            Some(p) => if p < pushed.len() {
                pushed.update(p as int, with_child_replaced(pushed[p as int], node, new_node))
            } else {
                pushed
            },
            None => pushed,
        };
        TreeView {
            nodes: relinked.update(
                node as int,
                NodeView { parent: Some(new_node), ..relinked[node as int] },
            ),
            start: if parent is None {
                Some(new_node)
            } else {
                self.start
            },
        }
    }

    /// The type of the root, where the tree has a root with a type.
    pub open spec fn root_type(self) -> Option<TypeView> {
        match self.start {
            Some(start) => if start < self.nodes.len() {
                self.nodes[start as int].node_type
            } else {
                None
            },
            None => None,
        }
    }

    /// The tree with the type `node_type` at node `node`.
    pub open spec fn typed(self, node: usize, node_type: Option<TypeView>) -> TreeView {
        TreeView {
            nodes: self.nodes.update(
                node as int,
                NodeView { node_type, ..self.nodes[node as int] },
            ),
            ..self
        }
    }
}

/// The trees `trees` as mathematical values.
pub open spec fn trees_view(trees: Seq<StatementTree>) -> Seq<TreeView> {
    Seq::new(trees.len(), |i: int| tree_view(trees[i]))
}

/// The view of a call holds the views of its arguments.
pub proof fn lemma_call_view(id: DeclId, args: Vec<StatementTree>)
    ensures
        symbol_view(StatementSymbol::FunctionCall(id, args)) == StatementSymbolView::FunctionCall(
            id.0@,
            id.1,
            trees_view(args@),
        ),
{
    assert(symbol_view(StatementSymbol::FunctionCall(id, args))->FunctionCall_2 =~= trees_view(
        args@,
    ));
}

/// The view of the nodes after a node was added.
pub proof fn lemma_add_node_view(tree: StatementTree, symbol: StatementSymbol, parent: Option<usize>)
    ensures
        nodes_view(tree.nodes_after_add(symbol, parent)) == tree_view(tree).add_node(
            symbol_view(symbol),
            parent,
        ).nodes,
{
    lemma_tree_view(tree);
    assert(nodes_view(tree.nodes_after_add(symbol, parent)) =~= tree_view(tree).add_node(
        symbol_view(symbol),
        parent,
    ).nodes);
}

/// The view of the nodes after a node was put above another.
pub proof fn lemma_split_view(tree: StatementTree, symbol: StatementSymbol, node: usize)
    requires
        node < tree.nodes@.len(),
    ensures
        nodes_view(tree.nodes_after_split(symbol, node)) == tree_view(tree).split(
            symbol_view(symbol),
            node,
        ).nodes,
{
    lemma_tree_view(tree);
    assert(nodes_view(tree.nodes_after_split(symbol, node)) =~= tree_view(tree).split(
        symbol_view(symbol),
        node,
    ).nodes);
}

/// Why an expression is no array size.
#[derive(Debug, PartialEq, Eq, Clone, Copy, Structural)]
pub enum ArraySizeError {
    /// The tree has no root.
    NoStatement,
    /// The value is negative.
    NegativeSize,
    /// A literal is no integer.
    NotAnInteger,
    /// An operator lacks an operand.
    MissingOperand,
    /// An operator that constant expressions do not have.
    InvalidOperator,
    /// The expression reads a variable or calls a function.
    NotConstant,
    /// A value does not fit in a 32-bit signed integer.
    Overflow,
    /// A division or remainder by zero.
    DivisionByZero,
    /// A link leads outside the tree, or the links form a cycle.
    BrokenLink,
}

/// Division that rounds toward zero.
pub open spec fn trunc_div(x: int, d: int) -> int
    recommends
        d != 0,
{
    if x >= 0 && d > 0 {
        x / d
    } else if x < 0 && d < 0 {
        (-x) / (-d)
    } else if x < 0 {
        -((-x) / d)
    } else {
        -(x / (-d))
    }
}

/// The remainder of the division that rounds toward zero.
pub open spec fn trunc_rem(x: int, d: int) -> int
    recommends
        d != 0,
{
    if x >= 0 && d > 0 {
        x % d
    } else if x < 0 && d < 0 {
        -((-x) % (-d))
    } else if x < 0 {
        -((-x) % d)
    } else {
        x % (-d)
    }
}

/// `v` if it fits in a 32-bit signed integer, an overflow otherwise.
pub open spec fn in_range(v: int) -> Result<int, ArraySizeError> {
    if i32::MIN <= v <= i32::MAX {
        Ok(v)
    } else {
        Err(ArraySizeError::Overflow)
    }
}

/// The value of a binary operator of constant expressions.
pub open spec fn binary_value(op: Token, l: int, r: int) -> Result<int, ArraySizeError> {
    match op {
        Token::Oplus => in_range(l + r),
        Token::Ominus => in_range(l - r),
        Token::Omultiply => in_range(l * r),
        Token::Odivide => if r == 0 {
            Err(ArraySizeError::DivisionByZero)
        } else {
            in_range(trunc_div(l, r))
        },
        Token::Omod => if r == 0 {
            Err(ArraySizeError::DivisionByZero)
        } else if l == i32::MIN && r == -1 {
            Err(ArraySizeError::Overflow)
        } else {
            in_range(trunc_rem(l, r))
        },
        Token::Kor => Ok(if l > 0 || r > 0 { 1 } else { 0 }),
        Token::Kand => Ok(if l > 0 && r > 0 { 1 } else { 0 }),
        Token::Oequal => Ok(if l == r { 1 } else { 0 }),
        Token::Onot => Ok(if l != r { 1 } else { 0 }),
        Token::Olt => Ok(if l < r { 1 } else { 0 }),
        Token::Ogt => Ok(if l > r { 1 } else { 0 }),
        Token::Olte => Ok(if l <= r { 1 } else { 0 }),
        Token::Ogte => Ok(if l >= r { 1 } else { 0 }),
        _ => Err(ArraySizeError::InvalidOperator),
    }
}

/// The value of a unary operator of constant expressions.
pub open spec fn unary_value(op: Token, v: int) -> Result<int, ArraySizeError> {
    match op {
        Token::Soparen => Ok(v),
        Token::Knot => Ok(if v > 0 { 0 } else { 1 }),
        Token::Ominus => in_range(-v),
        _ => Err(ArraySizeError::InvalidOperator),
    }
}

/// The value of the constant expression rooted at node `i`, descending at
/// most `depth` levels. Literals are integers, operators compute on 32-bit
/// signed integers with division rounding toward zero, comparisons and the
/// logical operators give one or zero.
pub open spec fn const_value(nodes: Seq<NodeView>, i: usize, depth: nat) -> Result<
    int,
    ArraySizeError,
>
    decreases depth,
{
    if depth == 0 || i >= nodes.len() {
        Err(ArraySizeError::BrokenLink)
    } else {
        let node = nodes[i as int];
        match node.symbol {
            StatementSymbolView::Literal(token) => match token {
                Token::Tint(v) => in_range(v as int),
                _ => Err(ArraySizeError::NotAnInteger),
            },
            StatementSymbolView::Operator(op) => {
                if node.left is None || node.right is None {
                    Err(ArraySizeError::MissingOperand)
                } else {
                    match const_value(nodes, node.left->0, (depth - 1) as nat) {
                        Err(e) => Err(e),
                        Ok(l) => match const_value(nodes, node.right->0, (depth - 1) as nat) {
                            Err(e) => Err(e),
                            Ok(r) => binary_value(op, l, r),
                        },
                    }
                }
            },
            StatementSymbolView::SingleChildOperator(op) => {
                if node.left is None {
                    Err(ArraySizeError::MissingOperand)
                } else {
                    match const_value(nodes, node.left->0, (depth - 1) as nat) {
                        Err(e) => Err(e),
                        Ok(v) => unary_value(op, v),
                    }
                }
            },
            _ => Err(ArraySizeError::NotConstant),
        }
    }
}

/// An operator on two integer literals has the value that the operator
/// gives of the literals' values.
pub proof fn lemma_constant_of_literals(nodes: Seq<NodeView>, i: usize, depth: nat)
    requires
        depth >= 2,
        i < nodes.len(),
        nodes[i as int].symbol is Operator,
        nodes[i as int].left matches Some(l) && l < nodes.len() && (
        nodes[l as int].symbol matches StatementSymbolView::Literal(Token::Tint(a)) && a
            <= i32::MAX),
        nodes[i as int].right matches Some(r) && r < nodes.len() && (
        nodes[r as int].symbol matches StatementSymbolView::Literal(Token::Tint(b)) && b
            <= i32::MAX),
    ensures
        const_value(nodes, i, depth) == binary_value(
            nodes[i as int].symbol->Operator_0,
            nodes[nodes[i as int].left->0 as int].symbol->Literal_0->Tint_0 as int,
            nodes[nodes[i as int].right->0 as int].symbol->Literal_0->Tint_0 as int,
        ),
{
    let l = nodes[i as int].left->0;
    let r = nodes[i as int].right->0;
    assert(const_value(nodes, l, (depth - 1) as nat) == in_range(
        nodes[l as int].symbol->Literal_0->Tint_0 as int,
    ));
    assert(const_value(nodes, r, (depth - 1) as nat) == in_range(
        nodes[r as int].symbol->Literal_0->Tint_0 as int,
    ));
}

/// The array size that a tree with nodes `nodes` and root `start` denotes.
pub open spec fn array_size(nodes: Seq<NodeView>, start: Option<usize>) -> Result<
    u32,
    ArraySizeError,
> {
    match start {
        None => Err(ArraySizeError::NoStatement),
        Some(root) => match const_value(nodes, root, nodes.len()) {
            Err(e) => Err(e),
            Ok(v) => if v < 0 {
                Err(ArraySizeError::NegativeSize)
            } else {
                Ok(v as u32)
            },
        },
    }
}

/// A fresh node for `symbol` under `parent`, with no type and no children.
pub open spec fn fresh_node(symbol: StatementSymbol, parent: Option<usize>) -> StatementNode {
    StatementNode { symbol, node_type: None, parent, left: None, right: None }
}

impl StatementTree {
    /// Every link of the tree leads to one of its nodes.
    pub open spec fn wf(self) -> bool {
        &&& self.start matches Some(s) ==> s < self.nodes@.len()
        &&& forall|i: int|
            0 <= i < self.nodes@.len() ==> {
                &&& (#[trigger] self.nodes@[i]).parent matches Some(p) ==> p < self.nodes@.len()
                &&& self.nodes@[i].left matches Some(l) ==> l < self.nodes@.len()
                &&& self.nodes@[i].right matches Some(r) ==> r < self.nodes@.len()
            }
    }

    /// The nodes after a node for `symbol` was added under `parent`.
    pub open spec fn nodes_after_add(self, symbol: StatementSymbol, parent: Option<usize>) -> Seq<
        StatementNode,
    > {
        let pushed = self.nodes@.push(fresh_node(symbol, parent));
        match parent {
            Some(p) => if p < pushed.len() {
                pushed.update(p as int, pushed[p as int].with_child(self.nodes@.len() as usize))
            } else {
                pushed
            },
            None => pushed,
        }
    }

    /// The nodes after a node for `symbol` was put between `node` and its
    /// parent.
    pub open spec fn nodes_after_split(self, symbol: StatementSymbol, node: usize) -> Seq<
        StatementNode,
    >
        recommends
            node < self.nodes@.len(),
    {
        let parent = self.nodes@[node as int].parent;
        let new_node = self.nodes@.len() as usize;
        let pushed = self.nodes@.push(
            StatementNode { symbol, node_type: None, parent, left: Some(node), right: None },
        );
        let relinked = match parent {
            Some(p) => if p < pushed.len() {
                pushed.update(p as int, pushed[p as int].with_child_replaced(node, new_node))
            } else {
                pushed
            },
            None => pushed,
        };
        relinked.update(
            node as int,
            StatementNode { parent: Some(new_node), ..relinked[node as int] },
        )
    }

    /// A tree without nodes.
    pub fn new() -> (t: Self)
        ensures
            t.nodes@.len() == 0,
            t.start is None,
            t.wf(),
    {
        Self { nodes: Vec::new(), start: None }
    }

    /// Adds a node for `symbol` under `parent`, in the parent's first free
    /// branch, and returns its index. Without a parent the node becomes the
    /// root.
    pub fn add_node(&mut self, symbol: StatementSymbol, parent: Option<usize>) -> (r: usize)
        ensures
            r == old(self).nodes@.len(),
            final(self).nodes@ == old(self).nodes_after_add(symbol, parent),
            final(self)@ == old(self)@.add_node(symbol_view(symbol), parent),
            final(self).start == (if parent is None { Some(r) } else { old(self).start }),
            final(self).nodes@.len() == old(self).nodes@.len() + 1,
            old(self).wf() && (parent matches Some(p) ==> p < old(self).nodes@.len())
                ==> final(self).wf(),
    {
        self.nodes.push(StatementNode { symbol, node_type: None, parent, left: None, right: None });
        let node_index = self.nodes.len() - 1;
        match parent {
            Some(parent_index) => {
                if parent_index < self.nodes.len() {
                    if self.nodes[parent_index].left.is_none() {
                        self.nodes[parent_index].left = Some(node_index);
                    } else {
                        self.nodes[parent_index].right = Some(node_index);
                    }
                }
            },
            None => {
                self.start = Some(node_index);
            },
        }
        assert(self.nodes@ =~= old(self).nodes_after_add(symbol, parent));
        proof {
            lemma_add_node_view(*old(self), symbol, parent);
            lemma_tree_view(*self);
        }
        node_index
    }

    /// Puts a node for `symbol` between `node` and its parent, with `node` as
    /// its left child, and returns its index. Where `node` was the root, the
    /// new node becomes the root.
    pub fn split_tree(&mut self, symbol: StatementSymbol, node: usize) -> (r: usize)
        requires
            node < old(self).nodes@.len(),
        ensures
            r == old(self).nodes@.len(),
            final(self).nodes@ == old(self).nodes_after_split(symbol, node),
            final(self)@ == old(self)@.split(symbol_view(symbol), node),
            final(self).start == (if old(self).nodes@[node as int].parent is None {
                Some(r)
            } else {
                old(self).start
            }),
            final(self).nodes@.len() == old(self).nodes@.len() + 1,
            old(self).wf() ==> final(self).wf(),
    {
        let parent_index = self.nodes[node].parent;
        self.nodes.push(
            StatementNode {
                symbol,
                node_type: None,
                parent: parent_index,
                left: Some(node),
                right: None,
            },
        );
        let new_node = self.nodes.len() - 1;
        match parent_index {
            Some(parent) => {
                if parent < self.nodes.len() {
                    let is_left = match self.nodes[parent].left {
                        Some(l) => l == node,
                        None => false,
                    };
                    if is_left {
                        self.nodes[parent].left = Some(new_node);
                    } else {
                        self.nodes[parent].right = Some(new_node);
                    }
                }
            },
            None => {
                self.start = Some(new_node);
            },
        }
        self.nodes[node].parent = Some(new_node);
        assert(self.nodes@ =~= old(self).nodes_after_split(symbol, node));
        proof {
            lemma_split_view(*old(self), symbol, node);
            lemma_tree_view(*self);
            lemma_tree_view(*old(self));
        }
        new_node
    }

    /// The array size the tree denotes as a constant expression.
    pub fn calculate_array_size(&self) -> (r: Result<u32, ArraySizeError>)
        ensures
            r == array_size(nodes_view(self.nodes@), self.start),
            r == array_size(self@.nodes, self@.start),
    {
        proof {
            lemma_tree_view(*self);
        }
        match self.start {
            None => Err(ArraySizeError::NoStatement),
            Some(root) => {
                let value = Self::_calculate_array_size(&self.nodes, root, self.nodes.len())?;
                if value < 0 {
                    return Err(ArraySizeError::NegativeSize);
                }
                Ok(value as u32)
            },
        }
    }

    /// The value of the constant expression rooted at node `start`,
    /// descending at most `depth` levels.
    pub fn _calculate_array_size(nodes: &Vec<StatementNode>, start: usize, depth: usize) -> (r:
        Result<i32, ArraySizeError>)
        ensures
            r matches Ok(v) ==> const_value(nodes_view(nodes@), start, depth as nat) == Ok::<
                int,
                ArraySizeError,
            >(v as int),
            r matches Err(e) ==> const_value(nodes_view(nodes@), start, depth as nat) == Err::<
                int,
                ArraySizeError,
            >(e),
        decreases depth,
    {
        if depth == 0 || start >= nodes.len() {
            return Err(ArraySizeError::BrokenLink);
        }
        let node = &nodes[start];
        match &node.symbol {
            StatementSymbol::Literal(token) => match token {
                Token::Tint(value) => {
                    if *value > 0x7fff_ffff {
                        Err(ArraySizeError::Overflow)
                    } else {
                        Ok(*value as i32)
                    }
                },
                _ => Err(ArraySizeError::NotAnInteger),
            },
            StatementSymbol::Operator(op) => {
                if !node.has_both_children() {
                    return Err(ArraySizeError::MissingOperand);
                }
                let left = Self::_calculate_array_size(nodes, node.left.unwrap(), depth - 1)?;
                let right = Self::_calculate_array_size(nodes, node.right.unwrap(), depth - 1)?;
                apply_binary(op, left, right)
            },
            StatementSymbol::SingleChildOperator(op) => {
                if node.left.is_none() {
                    return Err(ArraySizeError::MissingOperand);
                }
                let left = Self::_calculate_array_size(nodes, node.left.unwrap(), depth - 1)?;
                apply_unary(op, left)
            },
            _ => Err(ArraySizeError::NotConstant),
        }
    }

    /// Storage units the value of the expression takes: those of the root's
    /// type, none where the tree has no root or the root no type.
    pub fn get_type_size(&self) -> (r: u64)
        ensures
            r == self.type_size(),
    {
        if let Some(start) = self.start {
            if start < self.nodes.len() {
                if let Some(node_type) = &self.nodes[start].node_type {
                    return node_type.get_size();
                }
            }
        }
        0
    }

    /// Storage units the value of the expression takes.
    pub open spec fn type_size(self) -> nat {
        match self.start {
            Some(start) => if start < self.nodes@.len() {
                match self.nodes@[start as int].node_type {
                    Some(t) => t@.size(),
                    None => 0,
                }
            } else {
                0
            },
            None => 0,
        }
    }
}

/// Wraps a checked result: nothing means that the value does not fit.
fn or_overflow(v: Option<i32>) -> (r: Result<i32, ArraySizeError>)
    ensures
        r == (match v {
            Some(x) => Ok::<i32, ArraySizeError>(x),
            None => Err::<i32, ArraySizeError>(ArraySizeError::Overflow),
        }),
{
    match v {
        Some(x) => Ok(x),
        None => Err(ArraySizeError::Overflow),
    }
}

/// One for true, zero for false.
fn truth(b: bool) -> (r: i32)
    ensures
        r == (if b { 1i32 } else { 0i32 }),
{
    if b { 1 } else { 0 }
}

/// Applies a binary operator of constant expressions.
pub fn apply_binary(op: &Token, left: i32, right: i32) -> (r: Result<i32, ArraySizeError>)
    ensures
        r matches Ok(v) ==> binary_value(*op, left as int, right as int) == Ok::<
            int,
            ArraySizeError,
        >(v as int),
        r matches Err(e) ==> binary_value(*op, left as int, right as int) == Err::<
            int,
            ArraySizeError,
        >(e),
{
    match op {
        Token::Oplus => or_overflow(left.checked_add(right)),
        Token::Ominus => or_overflow(left.checked_sub(right)),
        Token::Omultiply => or_overflow(left.checked_mul(right)),
        Token::Odivide => {
            if right == 0 {
                Err(ArraySizeError::DivisionByZero)
            } else {
                or_overflow(left.checked_div(right))
            }
        },
        Token::Omod => {
            if right == 0 {
                Err(ArraySizeError::DivisionByZero)
            } else {
                or_overflow(left.checked_rem(right))
            }
        },
        Token::Kor => Ok(truth(left > 0 || right > 0)),
        Token::Kand => Ok(truth(left > 0 && right > 0)),
        Token::Oequal => Ok(truth(left == right)),
        Token::Onot => Ok(truth(left != right)),
        Token::Olt => Ok(truth(left < right)),
        Token::Ogt => Ok(truth(left > right)),
        Token::Olte => Ok(truth(left <= right)),
        Token::Ogte => Ok(truth(left >= right)),
        _ => Err(ArraySizeError::InvalidOperator),
    }
}

/// Applies a unary operator of constant expressions.
pub fn apply_unary(op: &Token, value: i32) -> (r: Result<i32, ArraySizeError>)
    ensures
        r matches Ok(v) ==> unary_value(*op, value as int) == Ok::<int, ArraySizeError>(v as int),
        r matches Err(e) ==> unary_value(*op, value as int) == Err::<int, ArraySizeError>(e),
{
    match op {
        Token::Soparen => Ok(value),
        Token::Knot => Ok(truth(!(value > 0))),
        Token::Ominus => or_overflow(0i32.checked_sub(value)),
        _ => Err(ArraySizeError::InvalidOperator),
    }
}

/// An expression tree under construction, with the node that the next
/// operand or operator attaches to.
#[derive(Debug, PartialEq)]
pub struct StatementTreeInfo {
    pub tree: StatementTree,
    pub curr_node: Option<usize>,
}

impl StatementTreeInfo {
    /// An empty tree with no current node.
    pub fn new() -> (t: Self)
        ensures
            t.tree.nodes@.len() == 0,
            t.tree.start is None,
            t.curr_node is None,
            t.tree.wf(),
    {
        Self { tree: StatementTree::new(), curr_node: None }
    }
}

} // verus!
