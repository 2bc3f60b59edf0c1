//! The semantic analyzer as a function: the state of the analyzer as a
//! mathematical value, and what each semantic action makes of it.

use vstd::prelude::*;
use crate::semantic_actions::SemanticAction;
use crate::statement_tree::{array_size, ArraySizeError, NodeView, StatementSymbolView, TreeView};
use crate::symbol_declaration::{type_text, DeclView, TypeView};
use crate::symbol_table::{duplicate_message, BuiltInFuncType, ConditionalStatementType,
    EntryView, ScopeType, TableView};
use crate::text::decimal;
use crate::token::Token;

verus! {

/// A semantic error as a mathematical value: its kind and its message.
pub enum SemanticErrorView {
    UndefinedVariable(Seq<char>),
    TypeMismatch(Seq<char>),
    InvalidType(Seq<char>),
    DuplicateDeclaration(Seq<char>),
    MissingParameters(Seq<char>),
    InvalidArraySize(Seq<char>),
}

/// The message of an argument or operand whose type is not the expected
/// one: the two types around ` != `.
pub open spec fn mismatch_message(a: TypeView, b: TypeView) -> Seq<char> {
    type_text(a) + " != "@ + type_text(b)
}

/// The message of an array size that is none.
pub open spec fn array_size_message(e: ArraySizeError) -> Seq<char> {
    match e {
        ArraySizeError::NoStatement => "No statement provided"@,
        ArraySizeError::NegativeSize => "Array size must be a positive value"@,
        ArraySizeError::NotAnInteger => "Literal must be an Integer"@,
        ArraySizeError::MissingOperand => "Invalid token"@,
        ArraySizeError::InvalidOperator => "Invalid operator"@,
        ArraySizeError::NotConstant => "Array size must be a constant value"@,
        ArraySizeError::Overflow => "Array size does not fit"@,
        ArraySizeError::DivisionByZero => "Division by zero in array size"@,
        ArraySizeError::BrokenLink => "Invalid statement"@,
    }
}

/// An expression under construction as a mathematical value.
pub struct TreeInfoView {
    pub tree: TreeView,
    pub curr_node: Option<usize>,
}

/// The check of a call in progress as a mathematical value.
pub struct FuncCheckView {
    pub name: Seq<char>,
    pub scope: usize,
    pub param_index: usize,
    pub params: Seq<TreeView>,
}

/// A conditional statement under construction as a mathematical value.
pub struct PartialView {
    pub statement_type: ConditionalStatementType,
    pub condition: Option<TreeView>,
    pub body_scope: Option<usize>,
}

/// The state of the semantic analyzer as a mathematical value.
pub struct SemView {
    pub table: TableView,
    pub curr_scope: usize,
    pub curr_id: Option<Seq<char>>,
    pub curr_type: Option<TypeView>,
    pub curr_func: Option<DeclView>,
    pub func_scope: usize,
    pub func_return_type: Option<TypeView>,
    pub type_trees: Seq<TreeInfoView>,
    pub func_checks: Seq<FuncCheckView>,
    pub check_return_type: bool,
    pub build_assignment: bool,
    pub curr_var: Option<DeclView>,
    pub conds: Seq<PartialView>,
    pub curr_builtin_func: Option<BuiltInFuncType>,
    pub curr_array_index: Option<TreeView>,
}

impl TreeInfoView {
    /// The expression after an operand for `symbol` of type `node_type`
    /// was added under the current node. The operand becomes current where
    /// there was no current node or the current node is a unary operator.
    pub open spec fn add_operand(
        self,
        symbol: StatementSymbolView,
        node_type: Option<TypeView>,
    ) -> TreeInfoView {
        let new_node = self.tree.nodes.len() as usize;
        let is_unary = match self.curr_node {
            Some(c) => c < self.tree.nodes.len()
                && self.tree.nodes[c as int].symbol is SingleChildOperator,
            None => false,
        };
        TreeInfoView {
            tree: self.tree.add_node(symbol, self.curr_node).typed(new_node, node_type),
            curr_node: if self.curr_node is None || is_unary {
                Some(new_node)
            } else {
                self.curr_node
            },
        }
    }
}

/// The node that the check of types starts at: the nearest of `node` and
/// its ancestors that is an operator, or the last of them where none is, in
/// at most `steps` steps.
pub open spec fn climb(nodes: Seq<NodeView>, node: usize, steps: nat) -> usize
    decreases steps,
{
    if steps == 0 || node >= nodes.len() {
        node
    } else if nodes[node as int].symbol is Operator || nodes[node as int].symbol is SingleChildOperator {
        node
    } else {
        match nodes[node as int].parent {
            Some(p) => if p < nodes.len() {
                climb(nodes, p, (steps - 1) as nat)
            } else {
                node
            },
            None => node,
        }
    }
}

/// Whether the token is a comparison or a logical operator, whose result is
/// an integer.
pub open spec fn gives_truth(op: Token) -> bool {
    op is Kand || op is Kor || op is Oequal || op is Onot || op is Olt || op is Ogt || op is Olte
        || op is Ogte
}

/// What the check of types finds at an operator.
pub enum TypeVerdict {
    /// An operand has no type.
    Missing,
    /// The operands differ in type.
    Mismatch(TypeView, TypeView),
    /// The operator has this type.
    Typed(TypeView),
    /// The node is no operator, or lacks an operand.
    Unchanged,
}

/// What the check of types finds at node `node`: a binary operator with
/// both operands takes the type integer where it is a comparison or a
/// logical operator, the type of its operands otherwise, which must agree
/// unless it is `and` or `or`; a unary operator with its operand takes the
/// operand's type.
pub open spec fn verdict(nodes: Seq<NodeView>, node: usize) -> TypeVerdict {
    let n = nodes[node as int];
    match n.symbol {
        StatementSymbolView::Operator(op) => match (n.left, n.right) {
            (Some(l), Some(r)) => if l < nodes.len() && r < nodes.len() {
                match (nodes[l as int].node_type, nodes[r as int].node_type) {
                    (Some(lt), Some(rt)) => if !(op is Kand) && !(op is Kor) && lt != rt {
                        TypeVerdict::Mismatch(lt, rt)
                    } else if gives_truth(op) {
                        TypeVerdict::Typed(TypeView::Int)
                    } else {
                        TypeVerdict::Typed(lt)
                    },
                    _ => TypeVerdict::Missing,
                }
            } else {
                TypeVerdict::Unchanged
            },
            _ => TypeVerdict::Unchanged,
        },
        StatementSymbolView::SingleChildOperator(_) => match n.left {
            Some(l) => if l < nodes.len() {
                match nodes[l as int].node_type {
                    Some(t) => TypeVerdict::Typed(t),
                    None => TypeVerdict::Missing,
                }
            } else {
                TypeVerdict::Unchanged
            },
            None => TypeVerdict::Unchanged,
        },
        _ => TypeVerdict::Unchanged,
    }
}

/// The node above which a binary operator enters the tree: the left child
/// of the current node where that is a unary operator, its right child
/// where it has both children, the current node itself otherwise.
pub open spec fn split_anchor(info: TreeInfoView) -> Option<usize> {
    match info.curr_node {
        Some(node) => if node < info.tree.nodes.len() {
            let n = info.tree.nodes[node as int];
            if n.symbol is SingleChildOperator {
                n.left
            } else if n.left is Some && n.right is Some {
                n.right
            } else {
                Some(node)
            }
        } else {
            None
        },
        None => None,
    }
}

impl SemView {
    /// The state with `info` in place of the expression on top.
    pub open spec fn with_top(self, info: TreeInfoView) -> SemView {
        SemView { type_trees: self.type_trees.update(self.type_trees.len() - 1, info), ..self }
    }

    /// The state without the expression on top.
    pub open spec fn pop_tree(self) -> SemView {
        SemView { type_trees: self.type_trees.drop_last(), ..self }
    }

    /// The state before the first token.
    pub open spec fn initial() -> SemView {
        SemView {
            table: TableView::initial(),
            curr_scope: 0,
            curr_id: None,
            curr_type: None,
            curr_func: None,
            func_scope: 0,
            func_return_type: None,
            type_trees: Seq::empty(),
            func_checks: Seq::empty(),
            check_return_type: false,
            build_assignment: false,
            curr_var: None,
            conds: Seq::empty(),
            curr_builtin_func: None,
            curr_array_index: None,
        }
    }

    /// What the action that follows an identifier does. Inside an
    /// expression the identifier is looked up from the current scope: where
    /// it is declared, the expression gets an operand for the declaration
    /// with its type; where it is not, the expression is given up and the
    /// identifier reported. Outside an expression the identifier becomes the
    /// current name, and the target of the assignment that is being built,
    /// if it has none yet; there too it is reported where it is not
    /// declared.
    pub open spec fn set_id(self, prev: Option<Token>) -> (SemView, Option<SemanticErrorView>) {
        match prev {
            Some(Token::Identifier(id)) => {
                let found = self.table.lookup(id@, self.curr_scope);
                if self.type_trees.len() > 0 {
                    match found {
                        Some(d) => (
                            self.with_top(
                                self.type_trees.last().add_operand(
                                    StatementSymbolView::Decl(d.name, d.scope),
                                    Some(d.var_type),
                                ),
                            ),
                            None,
                        ),
                        None => (self.pop_tree(), Some(SemanticErrorView::UndefinedVariable(id@))),
                    }
                } else {
                    let named = SemView { curr_id: Some(id@), ..self };
                    if self.build_assignment && self.curr_var is None {
                        match found {
                            Some(d) => (SemView { curr_var: Some(d), ..named }, None),
                            None => (named, Some(SemanticErrorView::UndefinedVariable(id@))),
                        }
                    } else {
                        (named, None)
                    }
                }
            },
            _ => (self, None),
        }
    }

    /// After the keyword of a type.
    pub open spec fn set_type(self, prev: Option<Token>) -> SemView {
        match prev {
            Some(Token::Kint) => SemView { curr_type: Some(TypeView::Int), ..self },
            Some(Token::Kdouble) => SemView { curr_type: Some(TypeView::Double), ..self },
            _ => self,
        }
    }

    /// What the action that closes the brackets of a variable does with the
    /// index expression `index`, which it takes off the stack of
    /// expressions. An index of a type other than integer is a mismatch.
    /// Otherwise, inside an expression the latest operand, if it is a
    /// declaration, becomes an access to an element, or is reported where
    /// it is no array; in the target of an assignment the target becomes
    /// the element, or is reported where it is no array; in a declaration
    /// the current type becomes an array of the size that the expression
    /// denotes, or the size is reported.
    pub open spec fn set_array(self) -> (SemView, Option<SemanticErrorView>) {
        if self.type_trees.len() == 0 {
            (self, None)
        } else {
            let index = self.type_trees.last().tree;
            let popped = self.pop_tree();
            if index.root_type() matches Some(t) && t != TypeView::Int {
                (
                    popped,
                    Some(
                        SemanticErrorView::TypeMismatch(
                            "Array index type must be int, found "@ + type_text(index.root_type()->0),
                        ),
                    ),
                )
            } else if popped.type_trees.len() > 0 {
                let info = popped.type_trees.last();
                let count = info.tree.nodes.len();
                if count > 0 {
                    match info.tree.nodes[count - 1].symbol {
                        StatementSymbolView::Decl(name, scope) => match self.table.lookup(
                            name,
                            scope,
                        ) {
                            Some(decl) => match decl.var_type {
                                TypeView::Array(inner, _) => (
                                    popped.with_top(
                                        TreeInfoView {
                                            tree: TreeView {
                                                nodes: info.tree.nodes.update(
                                                    count - 1,
                                                    NodeView {
                                                        symbol: StatementSymbolView::ArrayAccess(
                                                            name,
                                                            scope,
                                                            Box::new(index),
                                                        ),
                                                        node_type: Some(*inner),
                                                        ..info.tree.nodes[count - 1]
                                                    },
                                                ),
                                                ..info.tree
                                            },
                                            ..info
                                        },
                                    ),
                                    None,
                                ),
                                _ => (popped.pop_tree(), Some(
                                    SemanticErrorView::InvalidType(
                                        "Variable "@ + name + " is not an array"@,
                                    ),
                                )),
                            },
                            None => (popped, None),
                        },
                        _ => (popped, None),
                    }
                } else {
                    (popped, None)
                }
            } else if self.build_assignment {
                match self.curr_var {
                    Some(var) => match var.var_type {
                        TypeView::Array(inner, _) => (
                            SemView {
                                curr_var: Some(
                                    DeclView { name: var.name, var_type: *inner, scope: var.scope },
                                ),
                                curr_array_index: Some(index),
                                ..popped
                            },
                            None,
                        ),
                        _ => (popped, Some(SemanticErrorView::InvalidType("Variable is not an array"@))),
                    },
                    None => (popped, None),
                }
            } else {
                match self.curr_type {
                    Some(basic_type) => match array_size(index.nodes, index.start) {
                        Ok(size) => (
                            SemView {
                                curr_type: Some(TypeView::Array(Box::new(basic_type), size)),
                                ..popped
                            },
                            None,
                        ),
                        Err(e) => (
                            popped,
                            Some(
                                SemanticErrorView::InvalidArraySize(
                                    array_size_message(e),
                                ),
                            ),
                        ),
                    },
                    None => (popped, None),
                }
            }
        }
    }

    /// What the action that follows a literal does: inside an expression
    /// the expression gets an operand for the literal, of type integer or
    /// decimal by the literal's kind.
    pub open spec fn set_literal(self, prev: Option<Token>) -> SemView {
        match prev {
            Some(token) => if self.type_trees.len() > 0 {
                self.with_top(
                    self.type_trees.last().add_operand(
                        StatementSymbolView::Literal(token),
                        match token {
                            Token::Tint(_) => Some(TypeView::Int),
                            Token::Tdouble(_) => Some(TypeView::Double),
                            _ => None,
                        },
                    ),
                )
            } else {
                self
            },
            None => self,
        }
    }

    /// What the action that ends a declarator does: where there is a
    /// current name and a current type, the name is declared with the type
    /// in the current scope, unless the scope declares it already; after an
    /// array the current type is the type of the elements again.
    pub open spec fn add_var_decl(self) -> (SemView, Option<SemanticErrorView>) {
        match (self.curr_id, self.curr_type) {
            (Some(id), Some(basic_type)) => match self.table.declared_with(
                DeclView { name: id, var_type: basic_type, scope: self.curr_scope },
                EntryView::Decl(id, self.curr_scope),
            ) {
                Some(table) => (
                    SemView {
                        table,
                        curr_type: Some(
                            match basic_type {
                                TypeView::Array(inner, _) => *inner,
                                other => other,
                            },
                        ),
                        ..self
                    },
                    None,
                ),
                None => (
                    self,
                    Some(
                        SemanticErrorView::DuplicateDeclaration(
                            duplicate_message(id, self.curr_scope as nat),
                        ),
                    ),
                ),
            },
            _ => (self, None),
        }
    }

    /// At the start of a body.
    pub open spec fn new_scope(self) -> SemView {
        let opened = self.table.scopes.len() as usize;
        SemView {
            table: self.table.with_scope(ScopeType::Local, self.curr_scope),
            curr_scope: opened,
            conds: if self.conds.len() > 0 && self.conds.last().body_scope is None {
                self.conds.update(
                    self.conds.len() - 1,
                    PartialView { body_scope: Some(opened), ..self.conds.last() },
                )
            } else {
                self.conds
            },
            ..self
        }
    }

    /// At the end of a scope.
    pub open spec fn pop_scope(self) -> SemView {
        SemView {
            curr_scope: self.table.scopes[self.curr_scope as int].parent_scope,
            func_return_type: None,
            ..self
        }
    }

    /// What the action that follows the name of a function does: with a
    /// current type, it opens the scope of the function's body and keeps the
    /// function, which returns the current type and has no parameters yet,
    /// for its declaration in the current scope.
    pub open spec fn set_func(self, prev: Option<Token>) -> SemView {
        match (prev, self.curr_type) {
            (Some(Token::Identifier(id)), Some(basic_type)) => {
                let opened = self.table.scopes.len() as usize;
                SemView {
                    table: self.table.with_scope(ScopeType::Function, self.curr_scope),
                    func_scope: opened,
                    curr_func: Some(
                        DeclView {
                            name: id@,
                            var_type: TypeView::Function {
                                return_type: Box::new(basic_type),
                                param_types: Seq::empty(),
                                body_scope: opened,
                            },
                            scope: self.curr_scope,
                        },
                    ),
                    ..self
                }
            },
            _ => self,
        }
    }

    /// What the action that ends a parameter does: where a function is
    /// being declared and there are a current type and a current name, the
    /// function gets a parameter of the type, and the name is declared with
    /// the type in the scope of the function's body, unless that scope
    /// declares it already.
    pub open spec fn add_param(self) -> (SemView, Option<SemanticErrorView>) {
        match (self.curr_func, self.curr_type, self.curr_id) {
            (Some(func), Some(basic_type), Some(id)) => match func.var_type {
                TypeView::Function { return_type, param_types, body_scope } => {
                    let grown = SemView {
                        curr_func: Some(
                            DeclView {
                                var_type: TypeView::Function {
                                    return_type,
                                    param_types: param_types.push(basic_type),
                                    body_scope,
                                },
                                ..func
                            },
                        ),
                        ..self
                    };
                    match self.table.declared_with(
                        DeclView { name: id, var_type: basic_type, scope: self.func_scope },
                        EntryView::Parameter(id, self.func_scope),
                    ) {
                        Some(table) => (SemView { table, ..grown }, None),
                        None => (grown, Some(
                            SemanticErrorView::DuplicateDeclaration(
                                duplicate_message(id, self.func_scope as nat),
                            ),
                        )),
                    }
                },
                _ => (self, None),
            },
            _ => (self, None),
        }
    }

    /// What the action that ends the head of a function does: where a
    /// function is being declared, it is declared in its scope, unless that
    /// scope declares its name already; then the scope of its body becomes
    /// current, and its type is kept for the checks of `return`.
    pub open spec fn add_func_decl(self) -> (SemView, Option<SemanticErrorView>) {
        match self.curr_func {
            Some(func) => match self.table.declared_with(
                func,
                EntryView::Decl(func.name, func.scope),
            ) {
                Some(table) => (
                    SemView {
                        table,
                        curr_scope: self.func_scope,
                        func_return_type: Some(func.var_type),
                        curr_func: None,
                        func_scope: 0,
                        ..self
                    },
                    None,
                ),
                None => (
                    self,
                    Some(
                        SemanticErrorView::DuplicateDeclaration(
                            duplicate_message(func.name, func.scope as nat),
                        ),
                    ),
                ),
            },
            None => (self, None),
        }
    }

    /// At the start of an expression.
    pub open spec fn start_type_tree(self) -> SemView {
        SemView {
            type_trees: self.type_trees.push(
                TreeInfoView {
                    tree: TreeView { nodes: Seq::empty(), start: None },
                    curr_node: None,
                },
            ),
            ..self
        }
    }

    /// What `return` makes of the symbol table with its expression `tree`:
    /// outside a function it is reported; in a function, an expression whose
    /// last node has a type must have the return type of the function, and
    /// then becomes a `return` statement of the current scope.
    pub open spec fn check_return(self, tree: TreeView) -> (TableView, Option<SemanticErrorView>) {
        match self.func_return_type {
            None => (
                self.table,
                Some(SemanticErrorView::InvalidType("Function return type not found"@)),
            ),
            Some(TypeView::Function { return_type, .. }) => if tree.nodes.len() > 0
                && tree.nodes.last().node_type is Some {
                if *return_type != tree.nodes.last().node_type->0 {
                    (
                        self.table,
                        Some(
                            SemanticErrorView::TypeMismatch(
                                "Wrong return type, "@ + type_text(*return_type) + " != "@
                                    + type_text(tree.nodes.last().node_type->0),
                            ),
                        ),
                    )
                } else {
                    (
                        self.table.with_entry(
                            self.curr_scope,
                            EntryView::BuiltInFunction(BuiltInFuncType::Return, tree),
                        ),
                        None,
                    )
                }
            } else {
                (self.table, None)
            },
            Some(_) => (self.table, None),
        }
    }

    /// What the action that ends an expression does with the expression
    /// `tree`, which it takes off the stack of expressions. Inside a call
    /// the expression becomes the next argument. Otherwise, after `return`
    /// its type is held against the return type of the current function and
    /// it becomes a `return` statement of the current scope; after `print`
    /// it becomes a `print` statement; else it becomes a statement of its
    /// own.
    pub open spec fn add_type_tree(self) -> (SemView, Option<SemanticErrorView>) {
        if self.type_trees.len() == 0 {
            (self, None)
        } else {
            let tree = self.type_trees.last().tree;
            let popped = self.pop_tree();
            if self.func_checks.len() > 0 {
                let check = self.func_checks.last();
                (
                    SemView {
                        func_checks: self.func_checks.update(
                            self.func_checks.len() - 1,
                            FuncCheckView { params: check.params.push(tree), ..check },
                        ),
                        ..popped
                    },
                    None,
                )
            } else {
                match self.curr_builtin_func {
                    Some(BuiltInFuncType::Return) => match self.check_return(tree) {
                        (_, Some(error)) => (popped, Some(error)),
                        (table, None) => (
                            SemView { table, curr_builtin_func: None, ..popped },
                            None,
                        ),
                    },
                    Some(BuiltInFuncType::Print) => (
                        SemView {
                            table: self.table.with_entry(
                                self.curr_scope,
                                EntryView::BuiltInFunction(BuiltInFuncType::Print, tree),
                            ),
                            curr_builtin_func: None,
                            ..popped
                        },
                        None,
                    ),
                    None => (
                        SemView {
                            table: self.table.with_entry(
                                self.curr_scope,
                                EntryView::StatementTree(tree),
                            ),
                            ..popped
                        },
                        None,
                    ),
                }
            }
        }
    }

    /// What the action that follows a binary operator does: inside an
    /// expression with a current node a node for the operator enters the
    /// tree above the anchor and becomes current; without a current node it
    /// becomes the root above the former root.
    pub open spec fn split_trees(self, prev: Option<Token>) -> SemView {
        match prev {
            Some(token) => if self.type_trees.len() > 0 {
                let info = self.type_trees.last();
                let new_node = info.tree.nodes.len() as usize;
                match info.curr_node {
                    Some(_) => match split_anchor(info) {
                        Some(anchor) => if anchor < info.tree.nodes.len() {
                            self.with_top(
                                TreeInfoView {
                                    tree: info.tree.split(
                                        StatementSymbolView::Operator(token),
                                        anchor,
                                    ),
                                    curr_node: Some(new_node),
                                },
                            )
                        } else {
                            self
                        },
                        None => self,
                    },
                    None => match info.tree.start {
                        Some(start) => self.with_top(
                            TreeInfoView {
                                tree: TreeView {
                                    nodes: info.tree.nodes.push(
                                        NodeView {
                                            symbol: StatementSymbolView::Operator(token),
                                            node_type: None,
                                            parent: None,
                                            left: Some(start),
                                            right: None,
                                        },
                                    ),
                                    start: Some(new_node),
                                },
                                curr_node: Some(new_node),
                            },
                        ),
                        None => self,
                    },
                }
            } else {
                self
            },
            None => self,
        }
    }

    /// What the action that follows a unary operator does: inside an
    /// expression a node for the operator enters the tree under the current
    /// node and becomes current.
    pub open spec fn add_operator(self, prev: Option<Token>) -> SemView {
        match prev {
            Some(token) => if self.type_trees.len() > 0 {
                let info = self.type_trees.last();
                self.with_top(
                    TreeInfoView {
                        tree: info.tree.add_node(
                            StatementSymbolView::SingleChildOperator(token),
                            info.curr_node,
                        ),
                        curr_node: Some(info.tree.nodes.len() as usize),
                    },
                )
            } else {
                self
            },
            None => self,
        }
    }

    /// What the action that follows an operand of an operator does: from the
    /// current node it goes up to the nearest operator and gives it its
    /// type; the operator's parent becomes current. Where an operand has no
    /// type, or the operands of a binary operator other than `and` and `or`
    /// differ in type, the expression is given up and the error reported.
    pub open spec fn check_type(self) -> (SemView, Option<SemanticErrorView>) {
        if self.type_trees.len() == 0 {
            (self, None)
        } else {
            let info = self.type_trees.last();
            match info.curr_node {
                None => (self, None),
                Some(start) => if start >= info.tree.nodes.len() {
                    (self, None)
                } else {
                    let node = climb(info.tree.nodes, start, info.tree.nodes.len());
                    let parent = info.tree.nodes[node as int].parent;
                    match verdict(info.tree.nodes, node) {
                        TypeVerdict::Missing => (
                            self.pop_tree(),
                            Some(
                                SemanticErrorView::InvalidType(
                                    "Type not found"@,
                                ),
                            ),
                        ),
                        TypeVerdict::Mismatch(a, b) => (
                            self.pop_tree(),
                            Some(SemanticErrorView::TypeMismatch(mismatch_message(a, b))),
                        ),
                        TypeVerdict::Typed(t) => (
                            self.with_top(
                                TreeInfoView { tree: info.tree.typed(node, Some(t)), curr_node: parent },
                            ),
                            None,
                        ),
                        TypeVerdict::Unchanged => (
                            self.with_top(TreeInfoView { curr_node: parent, ..info }),
                            None,
                        ),
                    }
                },
            }
        }
    }

    /// What the action that follows the value of an assignment does: where
    /// the expression has a root, the type of the root must be known and be
    /// the type of the target; else the expression is given up and the
    /// error reported.
    pub open spec fn check_var_type(self) -> (SemView, Option<SemanticErrorView>) {
        if self.type_trees.len() == 0 {
            (self, None)
        } else {
            let tree = self.type_trees.last().tree;
            match tree.start {
                Some(start) => if start < tree.nodes.len() {
                    match (tree.nodes[start as int].node_type, self.curr_id) {
                        (Some(node_type), Some(id)) => match self.curr_var {
                            Some(var) => if var.var_type != node_type {
                                (
                                    self.pop_tree(),
                                    Some(
                                        SemanticErrorView::TypeMismatch(
                                            mismatch_message(node_type, var.var_type),
                                        ),
                                    ),
                                )
                            } else {
                                (self, None)
                            },
                            None => (self.pop_tree(), Some(SemanticErrorView::UndefinedVariable(id))),
                        },
                        _ => (self.pop_tree(), Some(SemanticErrorView::InvalidType("Type not found"@))),
                    }
                } else {
                    (self, None)
                },
                None => (self, None),
            }
        }
    }

    /// What the action that opens the arguments of a call does: inside an
    /// expression with nodes, the last node leaves the tree; where it is the
    /// operand of a declaration, the declaration must be that of a
    /// function, and a check of the call begins; else the expression is
    /// given up and the error reported.
    pub open spec fn add_func_check(self) -> (SemView, Option<SemanticErrorView>) {
        if self.type_trees.len() == 0 || self.type_trees.last().tree.nodes.len() == 0 {
            (self, None)
        } else {
            let info = self.type_trees.last();
            let cut = self.with_top(
                TreeInfoView {
                    tree: TreeView { nodes: info.tree.nodes.drop_last(), ..info.tree },
                    ..info
                },
            );
            match info.tree.nodes.last().symbol {
                StatementSymbolView::Decl(name, scope) => match self.table.lookup(name, scope) {
                    Some(decl) => if decl.var_type is Function {
                        (
                            SemView {
                                func_checks: self.func_checks.push(
                                    FuncCheckView {
                                        name,
                                        scope,
                                        param_index: 0,
                                        params: Seq::empty(),
                                    },
                                ),
                                ..cut
                            },
                            None,
                        )
                    } else {
                        (
                            self.pop_tree(),
                            Some(
                                SemanticErrorView::InvalidType(
                                    decl.name + " is not a function"@,
                                ),
                            ),
                        )
                    },
                    None => (self.pop_tree(), Some(SemanticErrorView::UndefinedVariable(name))),
                },
                _ => (cut, None),
            }
        }
    }

    /// What the action that closes the arguments of a call does: inside an
    /// expression the latest check of a call ends; where its function is
    /// declared as a function and as many arguments matched as it has
    /// parameters, a node for the call with its arguments enters the tree
    /// under the current node, with the function's return type, and becomes
    /// current; with another number of arguments the call is reported.
    pub open spec fn pop_func_check(self) -> (SemView, Option<SemanticErrorView>) {
        if self.type_trees.len() == 0 || self.func_checks.len() == 0 {
            (self, None)
        } else {
            let check = self.func_checks.last();
            let info = self.type_trees.last();
            let popped = SemView { func_checks: self.func_checks.drop_last(), ..self };
            match self.table.lookup(check.name, check.scope) {
                Some(decl) => match decl.var_type {
                    TypeView::Function { return_type, param_types, .. } => if param_types.len()
                        != check.param_index {
                        (
                            popped,
                            Some(
                                SemanticErrorView::MissingParameters(
                                    "Expected "@ + decimal(param_types.len()) + " parameters, found "@
                                        + decimal(check.param_index as nat),
                                ),
                            ),
                        )
                    } else {
                        let new_node = info.tree.nodes.len() as usize;
                        (
                            popped.with_top(
                                TreeInfoView {
                                    tree: info.tree.add_node(
                                        StatementSymbolView::FunctionCall(
                                            check.name,
                                            check.scope,
                                            check.params,
                                        ),
                                        info.curr_node,
                                    ).typed(new_node, Some(*return_type)),
                                    curr_node: Some(new_node),
                                },
                            ),
                            None,
                        )
                    },
                    _ => (popped, None),
                },
                None => (popped, None),
            }
        }
    }

    /// What the action that follows an argument of a call does: where a
    /// call is being checked whose function is declared as a function, and
    /// the expression of the argument has a root, the type of the root must
    /// be known and be the type of the parameter at the place of the
    /// argument; then one more argument has matched. Else the expression and
    /// the check are given up and the error reported.
    pub open spec fn check_param_type(self) -> (SemView, Option<SemanticErrorView>) {
        if self.func_checks.len() == 0 || self.type_trees.len() == 0 {
            (self, None)
        } else {
            let check = self.func_checks.last();
            let tree = self.type_trees.last().tree;
            let failed = SemView { func_checks: self.func_checks.drop_last(), ..self.pop_tree() };
            match self.table.lookup(check.name, check.scope) {
                Some(decl) => match decl.var_type {
                    TypeView::Function { param_types, .. } => match tree.start {
                        Some(start) => if start < tree.nodes.len() {
                            match tree.nodes[start as int].node_type {
                                Some(node_type) => if check.param_index < param_types.len()
                                    && param_types[check.param_index as int] == node_type {
                                    (
                                        SemView {
                                            func_checks: self.func_checks.update(
                                                self.func_checks.len() - 1,
                                                FuncCheckView {
                                                    param_index: (check.param_index + 1) as usize,
                                                    ..check
                                                },
                                            ),
                                            ..self
                                        },
                                        None,
                                    )
                                } else {
                                    (
                                        failed,
                                        Some(
                                            SemanticErrorView::TypeMismatch(
                                                if check.param_index < param_types.len() {
                                                    mismatch_message(
                                                        param_types[check.param_index as int],
                                                        node_type,
                                                    )
                                                } else {
                                                    "Too many arguments"@
                                                },
                                            ),
                                        ),
                                    )
                                },
                                None => (
                                    failed,
                                    Some(
                                        SemanticErrorView::InvalidType(
                                            "Type not found"@,
                                        ),
                                    ),
                                ),
                            }
                        } else {
                            (self, None)
                        },
                        None => (self, None),
                    },
                    _ => (self, None),
                },
                None => (self, None),
            }
        }
    }

    /// What the action that ends an assignment does: the expression of the
    /// value leaves the stack of expressions and, where the assignment has
    /// a target, the assignment enters the current scope, with the index
    /// where an element is assigned; nothing of the assignment is kept.
    pub open spec fn add_assignment(self) -> SemView {
        let cleared = SemView { build_assignment: false, curr_var: None, ..self };
        if self.type_trees.len() == 0 {
            cleared
        } else {
            let tree = self.type_trees.last().tree;
            match self.curr_var {
                Some(var) => SemView {
                    table: self.table.with_entry(
                        self.curr_scope,
                        EntryView::Assignment(var.name, var.scope, self.curr_array_index, tree),
                    ),
                    curr_array_index: None,
                    ..cleared.pop_tree()
                },
                None => cleared.pop_tree(),
            }
        }
    }

    /// At the start of a conditional statement.
    pub open spec fn start_conditional(self, statement_type: ConditionalStatementType) -> SemView {
        SemView {
            conds: self.conds.push(PartialView { statement_type, condition: None, body_scope: None }),
            ..self
        }
    }

    /// What the action that follows a condition does: the expression
    /// leaves the stack of expressions and becomes the condition of the
    /// conditional statement under construction.
    pub open spec fn add_condition(self) -> SemView {
        if self.type_trees.len() == 0 {
            self
        } else {
            let tree = self.type_trees.last().tree;
            SemView {
                conds: if self.conds.len() > 0 {
                    self.conds.update(
                        self.conds.len() - 1,
                        PartialView { condition: Some(tree), ..self.conds.last() },
                    )
                } else {
                    self.conds
                },
                ..self.pop_tree()
            }
        }
    }

    /// What the action that ends the body of a conditional statement does:
    /// the scope around the current scope becomes current, and the latest
    /// conditional statement under construction, where its body has its
    /// scope, enters it.
    pub open spec fn add_conditional_statement(self) -> SemView {
        let left = self.pop_scope();
        if self.conds.len() == 0 {
            left
        } else {
            let partial = self.conds.last();
            SemView {
                table: match partial.body_scope {
                    Some(body_scope) => left.table.with_entry(
                        left.curr_scope,
                        EntryView::ConditionalStatement(
                            partial.statement_type,
                            partial.condition,
                            body_scope,
                        ),
                    ),
                    None => left.table,
                },
                conds: self.conds.drop_last(),
                ..left
            }
        }
    }

    /// What the semantic action `action` makes of the state after the
    /// terminal `prev`, and the error it reports, if any.
    pub open spec fn step(
        self,
        action: SemanticAction,
        prev: Option<Token>,
    ) -> (SemView, Option<SemanticErrorView>) {
        match action {
            SemanticAction::SetId => self.set_id(prev),
            SemanticAction::SetType => (self.set_type(prev), None),
            SemanticAction::SetArray => self.set_array(),
            SemanticAction::SetLiteral => (self.set_literal(prev), None),
            SemanticAction::AddVarDecl => self.add_var_decl(),
            SemanticAction::ClearVarDecl => (SemView { curr_id: None, curr_type: None, ..self }, None),
            SemanticAction::NewScope => (self.new_scope(), None),
            SemanticAction::PopScope => (self.pop_scope(), None),
            SemanticAction::SetFunc => (self.set_func(prev), None),
            SemanticAction::AddParam => self.add_param(),
            SemanticAction::AddFuncDecl => self.add_func_decl(),
            SemanticAction::StartTypeTree => (self.start_type_tree(), None),
            SemanticAction::AddTypeTree => self.add_type_tree(),
            SemanticAction::SplitTree => (self.split_trees(prev), None),
            SemanticAction::AddOperator => (self.add_operator(prev), None),
            SemanticAction::CheckType => self.check_type(),
            SemanticAction::CheckVarType => self.check_var_type(),
            SemanticAction::AddFuncCheck => self.add_func_check(),
            SemanticAction::PopFuncCheck => self.pop_func_check(),
            SemanticAction::CheckParamType => self.check_param_type(),
            SemanticAction::StartAssignment => (SemView { build_assignment: true, ..self }, None),
            SemanticAction::AddAssignment => (self.add_assignment(), None),
            SemanticAction::AddCondition => (self.add_condition(), None),
            SemanticAction::AddCondStatement => (self.add_conditional_statement(), None),
            SemanticAction::StartIf => (self.start_conditional(ConditionalStatementType::If), None),
            SemanticAction::StartElse => (
                self.start_conditional(ConditionalStatementType::Else),
                None,
            ),
            SemanticAction::StartWhile => (
                self.start_conditional(ConditionalStatementType::While),
                None,
            ),
            SemanticAction::StartReturn => (
                SemView {
                    check_return_type: true,
                    curr_builtin_func: Some(BuiltInFuncType::Return),
                    ..self
                },
                None,
            ),
            SemanticAction::StartPrint => (
                SemView { curr_builtin_func: Some(BuiltInFuncType::Print), ..self },
                None,
            ),
        }
    }
}

} // verus!
