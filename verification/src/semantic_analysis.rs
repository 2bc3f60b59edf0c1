//! The semantic analyzer: the actions that the parser runs while it expands
//! productions, and the state they work on.

use vstd::prelude::*;
use vstd::string::StringExecFns;
use crate::semantic_actions::SemanticAction;
use crate::semantic_model::{array_size_message, climb, gives_truth, mismatch_message, verdict,
    FuncCheckView, PartialView, SemView, SemanticErrorView, TreeInfoView, TypeVerdict};
use crate::statement_tree::{lemma_call_view, lemma_tree_view, nodes_view, symbol_view, trees_view,
    type_option_view, ArraySizeError, StatementNode, StatementSymbol, StatementTree,
    StatementTreeInfo};
use crate::symbol_declaration::{BasicType, DeclId, DeclView, FuncInfo, SymbolDecl};
use crate::symbol_table::{tree_option_view, BuiltInFunc, BuiltInFuncType, ConditionalStatement,
    ConditionalStatementType, EntryView, ScopeType, SymbolTable, GLOBAL_SCOPE};
use crate::token::Token;

verus! {

/// What a semantic action can object to, each with a message.
#[derive(Debug, PartialEq)]
pub enum SemanticErrorType {
    UndefinedVariable(String),
    TypeMismatch(String),
    InvalidType(String),
    DuplicateDeclaration(String),
    MissingParameters(String),
    InvalidArraySize(String),
}

impl View for SemanticErrorType {
    type V = SemanticErrorView;

    open spec fn view(&self) -> SemanticErrorView {
        match *self {
            SemanticErrorType::UndefinedVariable(m) => SemanticErrorView::UndefinedVariable(m@),
            SemanticErrorType::TypeMismatch(m) => SemanticErrorView::TypeMismatch(m@),
            SemanticErrorType::InvalidType(m) => SemanticErrorView::InvalidType(m@),
            SemanticErrorType::DuplicateDeclaration(m) => SemanticErrorView::DuplicateDeclaration(
                m@,
            ),
            SemanticErrorType::MissingParameters(m) => SemanticErrorView::MissingParameters(m@),
            SemanticErrorType::InvalidArraySize(m) => SemanticErrorView::InvalidArraySize(m@),
        }
    }
}

/// The error of an action as a mathematical value, where it reports one.
pub open spec fn outcome_view(r: Result<(), SemanticErrorType>) -> Option<SemanticErrorView> {
    match r {
        Ok(_) => None,
        Err(e) => Some(e@),
    }
}

/// A semantic error with the line it was found on.
#[derive(Debug, PartialEq)]
pub struct SemanticError {
    pub error_type: SemanticErrorType,
    pub line: usize,
}

impl SemanticError {
    /// The error `error_type` on line `line`.
    pub fn new(error_type: SemanticErrorType, line: usize) -> (e: Self)
        ensures
            e.error_type == error_type,
            e.line == line,
    {
        Self { error_type, line }
    }
}

/// The check of a call in progress: the function called, the number of
/// arguments that matched its parameters so far, and the arguments.
#[derive(Debug, PartialEq)]
pub struct FuncCheck {
    pub func_id: DeclId,
    pub param_index: usize,
    pub params: Vec<StatementTree>,
}

/// A conditional statement under construction.
#[derive(Debug, PartialEq)]
pub struct PartialConditionalStatement {
    pub statement_type: ConditionalStatementType,
    pub condition: Option<StatementTree>,
    pub body_scope: Option<usize>,
}

impl PartialConditionalStatement {
    /// The finished statement, where the body has its scope.
    pub fn to_conditional_statement(self) -> (r: Option<ConditionalStatement>)
        ensures
            r is Some == self.body_scope is Some,
            r matches Some(c) ==> c.statement_type == self.statement_type && c.condition
                == self.condition && Some(c.body_scope) == self.body_scope,
    {
        match self.body_scope {
            Some(body_scope) => Some(
                ConditionalStatement {
                    statement_type: self.statement_type,
                    condition: self.condition,
                    body_scope,
                },
            ),
            None => None,
        }
    }
}

/// The message of an array size that is none.
pub fn array_size_error_message(e: ArraySizeError) -> (s: String)
    ensures
        s@ == array_size_message(e),
{
    match e {
        ArraySizeError::NoStatement => String::from_str("No statement provided"),
        ArraySizeError::NegativeSize => String::from_str("Array size must be a positive value"),
        ArraySizeError::NotAnInteger => String::from_str("Literal must be an Integer"),
        ArraySizeError::MissingOperand => String::from_str("Invalid token"),
        ArraySizeError::InvalidOperator => String::from_str("Invalid operator"),
        ArraySizeError::NotConstant => String::from_str("Array size must be a constant value"),
        ArraySizeError::Overflow => String::from_str("Array size does not fit"),
        ArraySizeError::DivisionByZero => String::from_str("Division by zero in array size"),
        ArraySizeError::BrokenLink => String::from_str("Invalid statement"),
    }
}

/// The two types around ` != `.
fn mismatch(a: &BasicType, b: &BasicType) -> (s: String)
    ensures
        s@ == mismatch_message(a@, b@),
{
    let mut s = String::new();
    a.append_text(&mut s);
    s.append(" != ");
    b.append_text(&mut s);
    assert(s@ =~= mismatch_message(a@, b@));
    s
}

/// The type of the root of `tree`, where the tree has a root with a type.
fn get_root_type(tree: &StatementTree) -> (r: Option<&BasicType>)
    ensures
        r is Some == tree@.root_type() is Some,
        r matches Some(t) ==> tree@.root_type() == Some(t@),
{
    proof {
        lemma_tree_view(*tree);
    }
    match tree.start {
        Some(start) => if start < tree.nodes.len() {
            match &tree.nodes[start].node_type {
                Some(t) => Some(t),
                None => None,
            }
        } else {
            None
        },
        None => None,
    }
}

/// Whether the token is a comparison or a logical operator.
fn is_truth_operator(op: &Token) -> (r: bool)
    ensures
        r == gives_truth(*op),
{
    match op {
        Token::Kand
        | Token::Kor
        | Token::Oequal
        | Token::Onot
        | Token::Olt
        | Token::Ogt
        | Token::Olte
        | Token::Ogte => true,
        _ => false,
    }
}

/// The state of the semantic analyzer.
#[derive(Debug, PartialEq)]
pub struct SemanticInfo {
    pub symbol_table: SymbolTable,
    pub curr_scope: usize,
    pub curr_id: Option<String>,
    pub curr_type: Option<BasicType>,
    pub curr_func: Option<SymbolDecl>,
    pub func_scope: usize,
    pub func_return_type: Option<BasicType>,
    pub type_trees: Vec<StatementTreeInfo>,
    pub func_checks: Vec<FuncCheck>,
    pub check_return_type: bool,
    pub build_assignment: bool,
    pub curr_var: Option<SymbolDecl>,
    pub curr_conditional_statements: Vec<PartialConditionalStatement>,
    pub curr_builtin_func: Option<BuiltInFuncType>,
    pub curr_array_index: Option<StatementTree>,
}

/// The name `name` as a mathematical value, where there is one.
pub open spec fn name_option_view(name: Option<String>) -> Option<Seq<char>> {
    match name {
        Some(name) => Some(name@),
        None => None,
    }
}

/// The declaration `decl` as a mathematical value, where there is one.
pub open spec fn decl_option_view(decl: Option<SymbolDecl>) -> Option<DeclView> {
    match decl {
        Some(decl) => Some(decl@),
        None => None,
    }
}

impl View for StatementTreeInfo {
    type V = TreeInfoView;

    open spec fn view(&self) -> TreeInfoView {
        TreeInfoView { tree: self.tree@, curr_node: self.curr_node }
    }
}

impl View for FuncCheck {
    type V = FuncCheckView;

    open spec fn view(&self) -> FuncCheckView {
        FuncCheckView {
            name: self.func_id.0@,
            scope: self.func_id.1,
            param_index: self.param_index,
            params: trees_view(self.params@),
        }
    }
}

impl View for PartialConditionalStatement {
    type V = PartialView;

    open spec fn view(&self) -> PartialView {
        PartialView {
            statement_type: self.statement_type,
            condition: tree_option_view(self.condition),
            body_scope: self.body_scope,
        }
    }
}

/// The expressions `infos` as mathematical values.
pub open spec fn infos_view(infos: Seq<StatementTreeInfo>) -> Seq<TreeInfoView> {
    Seq::new(infos.len(), |i: int| infos[i]@)
}

/// The checks `checks` as mathematical values.
pub open spec fn checks_view(checks: Seq<FuncCheck>) -> Seq<FuncCheckView> {
    Seq::new(checks.len(), |i: int| checks[i]@)
}

/// The statements `partials` as mathematical values.
pub open spec fn partials_view(partials: Seq<PartialConditionalStatement>) -> Seq<PartialView> {
    Seq::new(partials.len(), |i: int| partials[i]@)
}

impl View for SemanticInfo {
    type V = SemView;

    open spec fn view(&self) -> SemView {
        SemView {
            table: self.symbol_table@,
            curr_scope: self.curr_scope,
            curr_id: name_option_view(self.curr_id),
            curr_type: type_option_view(self.curr_type),
            curr_func: decl_option_view(self.curr_func),
            func_scope: self.func_scope,
            func_return_type: type_option_view(self.func_return_type),
            type_trees: infos_view(self.type_trees@),
            func_checks: checks_view(self.func_checks@),
            check_return_type: self.check_return_type,
            build_assignment: self.build_assignment,
            curr_var: decl_option_view(self.curr_var),
            conds: partials_view(self.curr_conditional_statements@),
            curr_builtin_func: self.curr_builtin_func,
            curr_array_index: tree_option_view(self.curr_array_index),
        }
    }
}

/// The views of expressions that agree but for the last one.
proof fn lemma_top_replaced(before: Seq<StatementTreeInfo>, after: Seq<StatementTreeInfo>)
    requires
        before.len() > 0,
        after.len() == before.len(),
        after.drop_last() == before.drop_last(),
    ensures
        infos_view(after) == infos_view(before).update(before.len() - 1, after.last()@),
{
    assert forall|i: int| 0 <= i < before.len() - 1 implies after[i] == before[i] by {
        assert(after[i] == after.drop_last()[i]);
        assert(before[i] == before.drop_last()[i]);
    }
    assert(infos_view(after) =~= infos_view(before).update(before.len() - 1, after.last()@));
}

/// The views of checks that agree but for the last one.
proof fn lemma_check_replaced(before: Seq<FuncCheck>, after: Seq<FuncCheck>)
    requires
        before.len() > 0,
        after.len() == before.len(),
        after.drop_last() == before.drop_last(),
    ensures
        checks_view(after) == checks_view(before).update(before.len() - 1, after.last()@),
{
    assert forall|i: int| 0 <= i < before.len() - 1 implies after[i] == before[i] by {
        assert(after[i] == after.drop_last()[i]);
        assert(before[i] == before.drop_last()[i]);
    }
    assert(checks_view(after) =~= checks_view(before).update(before.len() - 1, after.last()@));
}

/// The views of conditional statements that agree but for the last one.
proof fn lemma_partial_replaced(
    before: Seq<PartialConditionalStatement>,
    after: Seq<PartialConditionalStatement>,
)
    requires
        before.len() > 0,
        after.len() == before.len(),
        after.drop_last() == before.drop_last(),
    ensures
        partials_view(after) == partials_view(before).update(before.len() - 1, after.last()@),
{
    assert forall|i: int| 0 <= i < before.len() - 1 implies after[i] == before[i] by {
        assert(after[i] == after.drop_last()[i]);
        assert(before[i] == before.drop_last()[i]);
    }
    assert(partials_view(after) =~= partials_view(before).update(
        before.len() - 1,
        after.last()@,
    ));
}

/// The views of expressions without the last one.
proof fn lemma_top_popped(before: Seq<StatementTreeInfo>)
    requires
        before.len() > 0,
    ensures
        infos_view(before.drop_last()) == infos_view(before).drop_last(),
{
    assert(infos_view(before.drop_last()) =~= infos_view(before).drop_last());
}

/// The views of checks without the last one.
proof fn lemma_check_popped(before: Seq<FuncCheck>)
    requires
        before.len() > 0,
    ensures
        checks_view(before.drop_last()) == checks_view(before).drop_last(),
{
    assert(checks_view(before.drop_last()) =~= checks_view(before).drop_last());
}

/// The views of conditional statements without the last one.
proof fn lemma_partial_popped(before: Seq<PartialConditionalStatement>)
    requires
        before.len() > 0,
    ensures
        partials_view(before.drop_last()) == partials_view(before).drop_last(),
{
    assert(partials_view(before.drop_last()) =~= partials_view(before).drop_last());
}

impl StatementTreeInfo {
    /// Adds an operand for `symbol` of type `node_type` under the current
    /// node.
    pub fn add_operand(&mut self, symbol: StatementSymbol, node_type: Option<BasicType>)
        ensures
            final(self)@ == old(self)@.add_operand(symbol_view(symbol), type_option_view(node_type)),
    {
        let curr = self.curr_node;
        let is_unary = match curr {
            Some(c) => c < self.tree.nodes.len() && match &self.tree.nodes[c].symbol {
                StatementSymbol::SingleChildOperator(_) => true,
                _ => false,
            },
            None => false,
        };
        let new_node = self.tree.add_node(symbol, curr);
        self.tree.nodes[new_node].node_type = node_type;
        if curr.is_none() || is_unary {
            self.curr_node = Some(new_node);
        }
        proof {
            lemma_tree_view(old(self).tree);
            lemma_tree_view(self.tree);
            assert(self@.tree.nodes =~= old(self)@.add_operand(
                symbol_view(symbol),
                type_option_view(node_type),
            ).tree.nodes);
        }
    }
}

impl SemanticInfo {
    /// The symbol table is well formed, and the scopes in use are scopes of
    /// the table.
    pub open spec fn wf(self) -> bool {
        &&& self.symbol_table.wf()
        &&& self.curr_scope < self.symbol_table.scopes@.len()
        &&& self.func_scope < self.symbol_table.scopes@.len()
        &&& (self.curr_func matches Some(f) ==> f.scope < self.symbol_table.scopes@.len())
    }

    /// The state before the first token: the global scope alone, nothing
    /// under construction.
    pub fn new() -> (s: Self)
        ensures
            s.wf(),
            s@ == SemView::initial(),
    {
        let s = Self {
            symbol_table: SymbolTable::new(),
            curr_scope: GLOBAL_SCOPE,
            curr_id: None,
            curr_type: None,
            curr_func: None,
            func_scope: 0,
            func_return_type: None,
            type_trees: Vec::new(),
            func_checks: Vec::new(),
            check_return_type: false,
            build_assignment: false,
            curr_var: None,
            curr_conditional_statements: Vec::new(),
            curr_builtin_func: None,
            curr_array_index: None,
        };
        assert(s@.type_trees =~= Seq::empty());
        assert(s@.func_checks =~= Seq::empty());
        assert(s@.conds =~= Seq::empty());
        s
    }

    /// Takes in the identifier that was just matched.
    pub fn set_id(&mut self, prev_terminal: &Option<Token>) -> (r: Result<(), SemanticErrorType>)
        requires
            old(self).wf(),
        ensures
            final(self).wf(),
            final(self)@ == old(self)@.set_id(*prev_terminal).0,
            outcome_view(r) == old(self)@.set_id(*prev_terminal).1,
    {
        if let Some(Token::Identifier(id)) = prev_terminal {
            let found = match self.symbol_table.find_decl(id, self.curr_scope) {
                Some(symbol) => Some(symbol.clone()),
                None => None,
            };
            if self.type_trees.len() > 0 {
                match found {
                    Some(symbol) => {
                        let last = self.type_trees.len() - 1;
                        let decl_id = symbol.get_id();
                        self.type_trees[last].add_operand(
                            StatementSymbol::Decl(decl_id),
                            Some(symbol.var_type),
                        );
                        assert(self.type_trees@.drop_last() =~= old(self).type_trees@.drop_last());
                        proof {
                            lemma_top_replaced(old(self).type_trees@, self.type_trees@);
                        }
                    },
                    None => {
                        self.type_trees.pop();
                        proof {
                            lemma_top_popped(old(self).type_trees@);
                        }
                        return Err(SemanticErrorType::UndefinedVariable(id.clone()));
                    },
                }
            } else {
                self.curr_id = Some(id.clone());
                if self.build_assignment && self.curr_var.is_none() {
                    match found {
                        Some(decl) => {
                            self.curr_var = Some(decl);
                        },
                        None => {
                            return Err(SemanticErrorType::UndefinedVariable(id.clone()));
                        },
                    }
                }
            }
        }
        Ok(())
    }

    /// Takes the type that the keyword just matched names as the current
    /// type.
    pub fn set_type(&mut self, prev_terminal: &Option<Token>)
        ensures
            old(self).wf() ==> final(self).wf(),
            final(self)@ == old(self)@.set_type(*prev_terminal),
    {
        if let Some(token) = prev_terminal {
            match token {
                Token::Kint => {
                    self.curr_type = Some(BasicType::Int);
                },
                Token::Kdouble => {
                    self.curr_type = Some(BasicType::Double);
                },
                _ => {},
            }
        }
    }

    /// Closes the brackets of a variable.
    pub fn set_array(&mut self) -> (r: Result<(), SemanticErrorType>)
        requires
            old(self).wf(),
        ensures
            final(self).wf(),
            final(self)@ == old(self)@.set_array().0,
            outcome_view(r) == old(self)@.set_array().1,
    {
        if self.type_trees.len() == 0 {
            return Ok(());
        }
        let index_tree_info = self.type_trees.pop().unwrap();
        proof {
            lemma_top_popped(old(self).type_trees@);
            lemma_tree_view(index_tree_info.tree);
            if self.type_trees@.len() > 0 {
                lemma_top_popped(self.type_trees@);
                lemma_tree_view(self.type_trees@.last().tree);
            }
        }
        let ghost rest = self.type_trees@;
        if let Some(node_type) = get_root_type(&index_tree_info.tree) {
            if !node_type.same_as(&BasicType::Int) {
                let mut message = String::from_str("Array index type must be int, found ");
                node_type.append_text(&mut message);
                return Err(SemanticErrorType::TypeMismatch(message));
            }
        }
        if self.type_trees.len() > 0 {
            let last = self.type_trees.len() - 1;
            let count = self.type_trees[last].tree.nodes.len();
            if count > 0 {
                let curr_node = count - 1;
                let target = match &self.type_trees[last].tree.nodes[curr_node].symbol {
                    StatementSymbol::Decl(id) => Some((id.0.clone(), id.1)),
                    _ => None,
                };
                if let Some(id) = target {
                    let element = match self.symbol_table.find_decl_by_id(&id) {
                        Some(decl) => match &decl.var_type {
                            BasicType::Array(inner_type, _) => Some(Some(inner_type.duplicate())),
                            _ => Some(None),
                        },
                        None => None,
                    };
                    match element {
                        Some(Some(inner_type)) => {
                            self.type_trees[last].tree.nodes[curr_node].symbol =
                                StatementSymbol::ArrayAccess(id, index_tree_info.tree);
                            self.type_trees[last].tree.nodes[curr_node].node_type = Some(inner_type);
                            proof {
                                assert(self.type_trees@.drop_last() =~= rest.drop_last());
                                lemma_top_replaced(rest, self.type_trees@);
                                lemma_tree_view(self.type_trees@.last().tree);
                                assert(self.type_trees@.last()@.tree.nodes
                                    =~= old(self)@.set_array().0.type_trees.last().tree.nodes);
                            }
                        },
                        Some(None) => {
                            let mut message = String::from_str("Variable ");
                            message.append(id.0.as_str());
                            message.append(" is not an array");
                            self.type_trees.pop();
                            return Err(SemanticErrorType::InvalidType(message));
                        },
                        None => {},
                    }
                }
            }
        } else if self.build_assignment {
            let element = match &self.curr_var {
                Some(var) => match &var.var_type {
                    BasicType::Array(arr_type, _) => Some(
                        Some(SymbolDecl::new(var.name.clone(), arr_type.duplicate(), var.scope)),
                    ),
                    _ => Some(None),
                },
                None => None,
            };
            match element {
                Some(Some(var)) => {
                    self.curr_var = Some(var);
                    self.curr_array_index = Some(index_tree_info.tree);
                },
                Some(None) => {
                    return Err(
                        SemanticErrorType::InvalidType(String::from_str("Variable is not an array")),
                    );
                },
                None => {},
            }
        } else {
            let sized = match &self.curr_type {
                Some(basic_type) => match index_tree_info.tree.calculate_array_size() {
                    Ok(size) => Some(Ok(BasicType::Array(Box::new(basic_type.duplicate()), size))),
                    Err(e) => Some(Err(e)),
                },
                None => None,
            };
            match sized {
                Some(Ok(array_type)) => {
                    self.curr_type = Some(array_type);
                },
                Some(Err(e)) => {
                    return Err(SemanticErrorType::InvalidArraySize(array_size_error_message(e)));
                },
                None => {},
            }
        }
        Ok(())
    }

    /// Takes in the literal that was just matched.
    pub fn set_literal(&mut self, prev_terminal: &Option<Token>)
        ensures
            old(self).wf() ==> final(self).wf(),
            final(self)@ == old(self)@.set_literal(*prev_terminal),
    {
        if let Some(token) = prev_terminal {
            if self.type_trees.len() > 0 {
                let last = self.type_trees.len() - 1;
                let node_type = match token {
                    Token::Tint(_) => Some(BasicType::Int),
                    Token::Tdouble(_) => Some(BasicType::Double),
                    _ => None,
                };
                self.type_trees[last].add_operand(StatementSymbol::Literal(token.clone()), node_type);
                assert(self.type_trees@.drop_last() =~= old(self).type_trees@.drop_last());
                proof {
                    lemma_top_replaced(old(self).type_trees@, self.type_trees@);
                }
            }
        }
    }

    /// Declares the current name with the current type.
    pub fn add_var_decl(&mut self) -> (r: Result<(), SemanticErrorType>)
        requires
            old(self).wf(),
        ensures
            final(self).wf(),
            final(self)@ == old(self)@.add_var_decl().0,
            outcome_view(r) == old(self)@.add_var_decl().1,
    {
        let decl = match (&self.curr_id, &self.curr_type) {
            (Some(id), Some(basic_type)) => SymbolDecl::new(
                id.clone(),
                basic_type.clone(),
                self.curr_scope,
            ),
            _ => {
                return Ok(());
            },
        };
        self.symbol_table.add_declaration(decl)?;
        let element = match &self.curr_type {
            Some(BasicType::Array(old_type, _)) => Some(old_type.duplicate()),
            _ => None,
        };
        if let Some(t) = element {
            self.curr_type = Some(t);
        }
        Ok(())
    }

    /// Opens a local scope inside the current scope and makes it current.
    /// The conditional statement under construction, if it has no body yet,
    /// takes it as its body.
    pub fn new_scope(&mut self)
        requires
            old(self).wf(),
        ensures
            final(self).wf(),
            final(self)@ == old(self)@.new_scope(),
    {
        self.curr_scope = self.symbol_table.add_scope(ScopeType::Local, self.curr_scope);
        let count = self.curr_conditional_statements.len();
        if count > 0 {
            if self.curr_conditional_statements[count - 1].body_scope.is_none() {
                self.curr_conditional_statements[count - 1].body_scope = Some(self.curr_scope);
                assert(self.curr_conditional_statements@.drop_last()
                    =~= old(self).curr_conditional_statements@.drop_last());
                proof {
                    lemma_partial_replaced(
                        old(self).curr_conditional_statements@,
                        self.curr_conditional_statements@,
                    );
                }
            }
        }
    }

    /// Makes the scope around the current scope current and forgets the
    /// return type of the current function.
    pub fn pop_scope(&mut self)
        requires
            old(self).wf(),
        ensures
            final(self).wf(),
            final(self)@ == old(self)@.pop_scope(),
    {
        self.curr_scope = self.symbol_table.get_parent_scope(self.curr_scope);
        self.func_return_type = None;
    }

    /// Takes in the name of a function that was just matched.
    pub fn set_func(&mut self, prev_terminal: &Option<Token>)
        requires
            old(self).wf(),
        ensures
            final(self).wf(),
            final(self)@ == old(self)@.set_func(*prev_terminal),
    {
        if let Some(Token::Identifier(id)) = prev_terminal {
            let return_type = match &self.curr_type {
                Some(basic_type) => basic_type.clone(),
                None => {
                    return ;
                },
            };
            self.func_scope = self.symbol_table.add_scope(ScopeType::Function, self.curr_scope);
            self.curr_func = Some(
                SymbolDecl::new_func(id.clone(), return_type, self.func_scope, self.curr_scope),
            );
        }
    }

    /// Gives the function that is being declared a parameter.
    pub fn add_param(&mut self) -> (r: Result<(), SemanticErrorType>)
        requires
            old(self).wf(),
        ensures
            final(self).wf(),
            final(self)@ == old(self)@.add_param().0,
            outcome_view(r) == old(self)@.add_param().1,
    {
        let decl = match (&self.curr_func, &self.curr_type, &self.curr_id) {
            (Some(func), Some(basic_type), Some(id)) => match &func.var_type {
                BasicType::Function(_) => SymbolDecl::new(
                    id.clone(),
                    basic_type.clone(),
                    self.func_scope,
                ),
                _ => {
                    return Ok(());
                },
            },
            _ => {
                return Ok(());
            },
        };
        let param_type = decl.var_type.clone();
        let func = self.curr_func.take().unwrap();
        let SymbolDecl { name, var_type, scope } = func;
        let ghost before_info = var_type->Function_0;
        let info = match var_type {
            BasicType::Function(info) => {
                let FuncInfo { return_type, param_types, body_scope } = info;
                let mut param_types = param_types;
                param_types.push(param_type);
                FuncInfo { return_type, param_types, body_scope }
            },
            other => {
                self.curr_func = Some(SymbolDecl { name, var_type: other, scope });
                return Ok(());
            },
        };
        assert(info.param_types@.drop_last() =~= before_info.param_types@);
        assert(BasicType::Function(info)@->param_types =~= BasicType::Function(
            before_info,
        )@->param_types.push(param_type@)) by {
            assert forall|i: int| 0 <= i < before_info.param_types@.len() implies info.param_types@[i]
                == before_info.param_types@[i] by {
                assert(info.param_types@[i] == info.param_types@.drop_last()[i]);
            }
        }
        self.curr_func = Some(SymbolDecl { name, var_type: BasicType::Function(info), scope });
        self.symbol_table.add_parameter(decl)?;
        Ok(())
    }

    /// Declares the function whose head was just parsed.
    pub fn add_func_decl(&mut self) -> (r: Result<(), SemanticErrorType>)
        requires
            old(self).wf(),
        ensures
            final(self).wf(),
            final(self)@ == old(self)@.add_func_decl().0,
            outcome_view(r) == old(self)@.add_func_decl().1,
    {
        let decl = match &self.curr_func {
            Some(func) => func.clone(),
            None => {
                return Ok(());
            },
        };
        let return_type = decl.var_type.clone();
        self.symbol_table.add_declaration(decl)?;
        self.curr_scope = self.func_scope;
        self.func_return_type = Some(return_type);
        self.curr_func = None;
        self.func_scope = GLOBAL_SCOPE;
        Ok(())
    }

    /// Ends the expression that was just parsed.
    pub fn add_type_tree(&mut self) -> (r: Result<(), SemanticErrorType>)
        requires
            old(self).wf(),
        ensures
            final(self).wf(),
            final(self)@ == old(self)@.add_type_tree().0,
            outcome_view(r) == old(self)@.add_type_tree().1,
    {
        if self.type_trees.len() == 0 {
            return Ok(());
        }
        let tree_info = self.type_trees.pop().unwrap();
        proof {
            lemma_top_popped(old(self).type_trees@);
            lemma_tree_view(tree_info.tree);
        }
        let count = self.func_checks.len();
        if count > 0 {
            self.func_checks[count - 1].params.push(tree_info.tree);
            proof {
                assert(self.func_checks@.drop_last() =~= old(self).func_checks@.drop_last());
                lemma_check_replaced(old(self).func_checks@, self.func_checks@);
                assert(self.func_checks@.last()@.params =~= old(self).func_checks@.last()@.params.push(
                    tree_info.tree@,
                ));
            }
            return Ok(());
        }
        match self.curr_builtin_func {
            Some(BuiltInFuncType::Return) => {
                self.check_return(tree_info)?;
                self.curr_builtin_func = None;
            },
            Some(BuiltInFuncType::Print) => {
                self.check_print(tree_info);
                self.curr_builtin_func = None;
            },
            None => {
                self.symbol_table.add_type_tree(tree_info.tree, self.curr_scope);
            },
        }
        Ok(())
    }

    /// Holds the type of the expression after `return` against the return
    /// type of the current function and appends the `return` statement to
    /// the current scope.
    fn check_return(&mut self, tree_info: StatementTreeInfo) -> (r: Result<(), SemanticErrorType>)
        requires
            old(self).wf(),
        ensures
            final(self).wf(),
            *final(self) == (Self { symbol_table: final(self).symbol_table, ..*old(self) }),
            final(self).symbol_table.scopes@.len() == old(self).symbol_table.scopes@.len(),
            final(self).symbol_table@ == old(self)@.check_return(tree_info.tree@).0,
            outcome_view(r) == old(self)@.check_return(tree_info.tree@).1,
    {
        proof {
            lemma_tree_view(tree_info.tree);
        }
        let verdict = match &self.func_return_type {
            None => {
                return Err(
                    SemanticErrorType::InvalidType(String::from_str("Function return type not found")),
                );
            },
            Some(BasicType::Function(func_info)) => {
                let count = tree_info.tree.nodes.len();
                if count > 0 {
                    match &tree_info.tree.nodes[count - 1].node_type {
                        Some(node_type) => {
                            if !func_info.return_type.same_as(node_type) {
                                let mut message = String::from_str("Wrong return type, ");
                                func_info.return_type.append_text(&mut message);
                                message.append(" != ");
                                node_type.append_text(&mut message);
                                Some(Err(SemanticErrorType::TypeMismatch(message)))
                            } else {
                                Some(Ok(()))
                            }
                        },
                        None => None,
                    }
                } else {
                    None
                }
            },
            Some(_) => None,
        };
        match verdict {
            Some(Err(e)) => Err(e),
            Some(Ok(())) => {
                self.symbol_table.add_builtin_func(
                    BuiltInFunc { func_type: BuiltInFuncType::Return, statement: tree_info.tree },
                    self.curr_scope,
                );
                Ok(())
            },
            None => Ok(()),
        }
    }

    /// Appends the `print` statement of the expression to the current
    /// scope.
    fn check_print(&mut self, tree_info: StatementTreeInfo)
        requires
            old(self).wf(),
        ensures
            final(self).wf(),
            *final(self) == (Self { symbol_table: final(self).symbol_table, ..*old(self) }),
            final(self).symbol_table.scopes@.len() == old(self).symbol_table.scopes@.len(),
            final(self).symbol_table@ == old(self).symbol_table@.with_entry(
                old(self).curr_scope,
                EntryView::BuiltInFunction(BuiltInFuncType::Print, tree_info.tree@),
            ),
    {
        self.symbol_table.add_builtin_func(
            BuiltInFunc { func_type: BuiltInFuncType::Print, statement: tree_info.tree },
            self.curr_scope,
        );
    }

    /// Takes in the binary operator that was just matched.
    pub fn split_trees(&mut self, prev_terminal: &Option<Token>)
        ensures
            old(self).wf() ==> final(self).wf(),
            final(self)@ == old(self)@.split_trees(*prev_terminal),
    {
        let token = match prev_terminal {
            Some(token) => token,
            None => {
                return ;
            },
        };
        let count = self.type_trees.len();
        if count == 0 {
            return ;
        }
        let last = count - 1;
        match self.type_trees[last].curr_node {
            Some(node) => {
                if node >= self.type_trees[last].tree.nodes.len() {
                    return ;
                }
                let is_unary = match &self.type_trees[last].tree.nodes[node].symbol {
                    StatementSymbol::SingleChildOperator(_) => true,
                    _ => false,
                };
                let anchor = if is_unary {
                    self.type_trees[last].tree.nodes[node].left
                } else if self.type_trees[last].tree.nodes[node].has_both_children() {
                    self.type_trees[last].tree.nodes[node].right
                } else {
                    Some(node)
                };
                if let Some(anchor) = anchor {
                    if anchor < self.type_trees[last].tree.nodes.len() {
                        let operator = token.clone();
                        let new_node = self.type_trees[last].tree.split_tree(
                            StatementSymbol::Operator(operator),
                            anchor,
                        );
                        self.type_trees[last].curr_node = Some(new_node);
                        assert(self.type_trees@.drop_last() =~= old(self).type_trees@.drop_last());
                        proof {
                            lemma_top_replaced(old(self).type_trees@, self.type_trees@);
                            lemma_tree_view(old(self).type_trees@.last().tree);
                        }
                    }
                }
            },
            None => {
                if let Some(start_node) = self.type_trees[last].tree.start {
                    let operator = token.clone();
                    let new_node = self.type_trees[last].tree.add_node(
                        StatementSymbol::Operator(operator),
                        None,
                    );
                    self.type_trees[last].curr_node = Some(new_node);
                    self.type_trees[last].tree.nodes[new_node].left = Some(start_node);
                    assert(self.type_trees@.drop_last() =~= old(self).type_trees@.drop_last());
                    proof {
                        lemma_top_replaced(old(self).type_trees@, self.type_trees@);
                        lemma_tree_view(old(self).type_trees@.last().tree);
                        lemma_tree_view(self.type_trees@.last().tree);
                        assert(self.type_trees@.last()@.tree.nodes =~= old(self)@.split_trees(
                            *prev_terminal,
                        ).type_trees.last().tree.nodes);
                    }
                }
            },
        }
    }

    /// Takes in the unary operator that was just matched.
    pub fn add_operator(&mut self, prev_terminal: &Option<Token>)
        ensures
            old(self).wf() ==> final(self).wf(),
            final(self)@ == old(self)@.add_operator(*prev_terminal),
    {
        if let Some(token) = prev_terminal {
            let count = self.type_trees.len();
            if count > 0 {
                let parent = self.type_trees[count - 1].curr_node;
                let new_node = self.type_trees[count - 1].tree.add_node(
                    StatementSymbol::SingleChildOperator(token.clone()),
                    parent,
                );
                self.type_trees[count - 1].curr_node = Some(new_node);
                assert(self.type_trees@.drop_last() =~= old(self).type_trees@.drop_last());
                proof {
                    lemma_top_replaced(old(self).type_trees@, self.type_trees@);
                }
            }
        }
    }

    /// Gives the operator above the current node its type.
    pub fn check_type(&mut self) -> (r: Result<(), SemanticErrorType>)
        ensures
            old(self).wf() ==> final(self).wf(),
            final(self)@ == old(self)@.check_type().0,
            outcome_view(r) == old(self)@.check_type().1,
    {
        let count = self.type_trees.len();
        if count == 0 {
            return Ok(());
        }
        let last = count - 1;
        let start = match self.type_trees[last].curr_node {
            Some(start) => start,
            None => {
                return Ok(());
            },
        };
        if start >= self.type_trees[last].tree.nodes.len() {
            return Ok(());
        }
        let node = nearest_operator(&self.type_trees[last].tree.nodes, start);
        let parent = self.type_trees[last].tree.nodes[node].parent;
        proof {
            lemma_tree_view(old(self).type_trees@.last().tree);
            lemma_top_popped(old(self).type_trees@);
        }
        match judge(&self.type_trees[last].tree.nodes, node) {
            Judgement::Missing => {
                self.type_trees.pop();
                Err(SemanticErrorType::InvalidType(String::from_str("Type not found")))
            },
            Judgement::Mismatch(message) => {
                self.type_trees.pop();
                Err(SemanticErrorType::TypeMismatch(message))
            },
            Judgement::Typed(node_type) => {
                self.type_trees[last].tree.nodes[node].node_type = Some(node_type);
                self.type_trees[last].curr_node = parent;
                assert(self.type_trees@.drop_last() =~= old(self).type_trees@.drop_last());
                proof {
                    lemma_top_replaced(old(self).type_trees@, self.type_trees@);
                    lemma_tree_view(self.type_trees@.last().tree);
                    assert(self.type_trees@.last()@.tree.nodes
                        =~= old(self)@.check_type().0.type_trees.last().tree.nodes);
                }
                Ok(())
            },
            Judgement::Unchanged => {
                self.type_trees[last].curr_node = parent;
                assert(self.type_trees@.drop_last() =~= old(self).type_trees@.drop_last());
                proof {
                    lemma_top_replaced(old(self).type_trees@, self.type_trees@);
                }
                Ok(())
            },
        }
    }

    /// Holds the type of the value of an assignment against its target.
    pub fn check_var_type(&mut self) -> (r: Result<(), SemanticErrorType>)
        ensures
            old(self).wf() ==> final(self).wf(),
            final(self)@ == old(self)@.check_var_type().0,
            outcome_view(r) == old(self)@.check_var_type().1,
    {
        let count = self.type_trees.len();
        if count == 0 {
            return Ok(());
        }
        proof {
            lemma_tree_view(old(self).type_trees@.last().tree);
            lemma_top_popped(old(self).type_trees@);
        }
        let error = match get_root_start(&self.type_trees[count - 1].tree) {
            Some(node) => match (&self.type_trees[count - 1].tree.nodes[node].node_type, &self.curr_id) {
                (Some(node_type), Some(id)) => match &self.curr_var {
                    Some(var) => if !var.var_type.same_as(node_type) {
                        Some(SemanticErrorType::TypeMismatch(mismatch(node_type, &var.var_type)))
                    } else {
                        None
                    },
                    None => Some(SemanticErrorType::UndefinedVariable(id.clone())),
                },
                _ => Some(SemanticErrorType::InvalidType(String::from_str("Type not found"))),
            },
            None => None,
        };
        match error {
            Some(e) => {
                self.type_trees.pop();
                Err(e)
            },
            None => Ok(()),
        }
    }

    /// Opens the check of a call.
    pub fn add_func_check(&mut self) -> (r: Result<(), SemanticErrorType>)
        requires
            old(self).wf(),
        ensures
            final(self).wf(),
            final(self)@ == old(self)@.add_func_check().0,
            outcome_view(r) == old(self)@.add_func_check().1,
    {
        let count = self.type_trees.len();
        if count == 0 {
            return Ok(());
        }
        proof {
            lemma_tree_view(old(self).type_trees@.last().tree);
            lemma_top_popped(old(self).type_trees@);
        }
        if self.type_trees[count - 1].tree.nodes.len() == 0 {
            return Ok(());
        }
        let node = self.type_trees[count - 1].tree.nodes.pop().unwrap();
        proof {
            assert(self.type_trees@.drop_last() =~= old(self).type_trees@.drop_last());
            lemma_top_replaced(old(self).type_trees@, self.type_trees@);
            lemma_tree_view(self.type_trees@.last().tree);
            assert(self.type_trees@.last()@.tree.nodes
                =~= old(self).type_trees@.last()@.tree.nodes.drop_last());
        }
        if let StatementSymbol::Decl(func_id) = node.symbol {
            let found = match self.symbol_table.find_decl_by_id(&func_id) {
                Some(decl) => match &decl.var_type {
                    BasicType::Function(_) => Some(None),
                    _ => {
                        let mut message = decl.name.clone();
                        message.append(" is not a function");
                        Some(Some(message))
                    },
                },
                None => None,
            };
            match found {
                Some(None) => {
                    self.func_checks.push(FuncCheck { func_id, param_index: 0, params: Vec::new() });
                    assert(self.func_checks@.drop_last() =~= old(self).func_checks@);
                    assert(self.func_checks@.last()@.params =~= Seq::empty());
                    assert(self@.func_checks =~= old(self)@.func_checks.push(self.func_checks@.last()@));
                },
                Some(Some(message)) => {
                    self.type_trees.pop();
                    return Err(SemanticErrorType::InvalidType(message));
                },
                None => {
                    self.type_trees.pop();
                    return Err(SemanticErrorType::UndefinedVariable(func_id.0));
                },
            }
        }
        Ok(())
    }

    /// Closes the check of a call.
    pub fn pop_func_check(&mut self) -> (r: Result<(), SemanticErrorType>)
        requires
            old(self).wf(),
        ensures
            final(self).wf(),
            final(self)@ == old(self)@.pop_func_check().0,
            outcome_view(r) == old(self)@.pop_func_check().1,
    {
        let count = self.type_trees.len();
        if count == 0 {
            return Ok(());
        }
        if self.func_checks.len() == 0 {
            return Ok(());
        }
        let func_check = self.func_checks.pop().unwrap();
        proof {
            lemma_check_popped(old(self).func_checks@);
            lemma_tree_view(old(self).type_trees@.last().tree);
        }
        assert(self.type_trees@.drop_last() =~= old(self).type_trees@.drop_last());
        let found = match self.symbol_table.find_decl_by_id(&func_check.func_id) {
            Some(decl) => match &decl.var_type {
                BasicType::Function(func_info) => Some(
                    (func_info.param_types.len(), func_info.return_type.duplicate()),
                ),
                _ => None,
            },
            None => None,
        };
        if let Some((expected, return_type)) = found {
            if expected != func_check.param_index {
                let mut message = String::from_str("Expected ");
                crate::text::append_decimal(&mut message, expected as u64);
                message.append(" parameters, found ");
                crate::text::append_decimal(&mut message, func_check.param_index as u64);
                return Err(SemanticErrorType::MissingParameters(message));
            }
            let parent = self.type_trees[count - 1].curr_node;
            let FuncCheck { func_id, param_index: _, params } = func_check;
            let new_node = self.type_trees[count - 1].tree.add_node(
                StatementSymbol::FunctionCall(func_id, params),
                parent,
            );
            self.type_trees[count - 1].curr_node = Some(new_node);
            self.type_trees[count - 1].tree.nodes[new_node].node_type = Some(return_type);
            assert(self.type_trees@.drop_last() =~= old(self).type_trees@.drop_last());
            proof {
                lemma_top_replaced(old(self).type_trees@, self.type_trees@);
                lemma_tree_view(self.type_trees@.last().tree);
                lemma_call_view(func_id, params);
                assert(self.type_trees@.last()@.tree.nodes
                    =~= old(self)@.pop_func_check().0.type_trees.last().tree.nodes);
            }
        }
        Ok(())
    }

    /// Holds the type of an argument against the parameter at its place.
    pub fn check_param_type(&mut self) -> (r: Result<(), SemanticErrorType>)
        requires
            old(self).wf(),
        ensures
            final(self).wf(),
            final(self)@ == old(self)@.check_param_type().0,
            outcome_view(r) == old(self)@.check_param_type().1,
    {
        let checks = self.func_checks.len();
        let trees = self.type_trees.len();
        if checks == 0 || trees == 0 {
            return Ok(());
        }
        proof {
            lemma_check_popped(old(self).func_checks@);
            lemma_top_popped(old(self).type_trees@);
            lemma_tree_view(old(self).type_trees@.last().tree);
        }
        let param_index = self.func_checks[checks - 1].param_index;
        let verdict: Option<Result<usize, SemanticErrorType>> = match self.symbol_table.find_decl_by_id(
            &self.func_checks[checks - 1].func_id,
        ) {
            Some(decl) => match &decl.var_type {
                BasicType::Function(func_info) => match get_root_start(
                    &self.type_trees[trees - 1].tree,
                ) {
                    Some(node) => match &self.type_trees[trees - 1].tree.nodes[node].node_type {
                        Some(node_type) => {
                            if param_index < func_info.param_types.len() {
                                if func_info.param_types[param_index].same_as(node_type) {
                                    Some(Ok(param_index + 1))
                                } else {
                                    Some(
                                        Err(
                                            SemanticErrorType::TypeMismatch(
                                                mismatch(&func_info.param_types[param_index], node_type),
                                            ),
                                        ),
                                    )
                                }
                            } else {
                                Some(
                                    Err(
                                        SemanticErrorType::TypeMismatch(
                                            String::from_str("Too many arguments"),
                                        ),
                                    ),
                                )
                            }
                        },
                        None => Some(
                            Err(SemanticErrorType::InvalidType(String::from_str("Type not found"))),
                        ),
                    },
                    None => None,
                },
                _ => None,
            },
            None => None,
        };
        match verdict {
            Some(Ok(matched)) => {
                self.func_checks[checks - 1].param_index = matched;
                assert(self.func_checks@.drop_last() =~= old(self).func_checks@.drop_last());
                proof {
                    lemma_check_replaced(old(self).func_checks@, self.func_checks@);
                }
                Ok(())
            },
            Some(Err(error)) => {
                self.type_trees.pop();
                self.func_checks.pop();
                Err(error)
            },
            None => Ok(()),
        }
    }

    /// Ends the assignment that was just parsed.
    pub fn add_assignment(&mut self)
        requires
            old(self).wf(),
        ensures
            final(self).wf(),
            final(self)@ == old(self)@.add_assignment(),
    {
        if let Some(tree_info) = self.type_trees.pop() {
            proof {
                lemma_top_popped(old(self).type_trees@);
            }
            if let Some(var) = self.curr_var.take() {
                let index = self.curr_array_index.take();
                self.symbol_table.add_assignment(var, index, tree_info.tree, self.curr_scope);
            }
        }
        self.build_assignment = false;
        self.curr_var = None;
    }

    /// Begins a conditional statement of kind `statement_type`, without
    /// condition and body so far.
    pub fn start_conditional_statement(&mut self, statement_type: ConditionalStatementType)
        ensures
            old(self).wf() ==> final(self).wf(),
            final(self)@ == old(self)@.start_conditional(statement_type),
    {
        self.curr_conditional_statements.push(
            PartialConditionalStatement { statement_type, condition: None, body_scope: None },
        );
        assert(self@.conds =~= old(self)@.start_conditional(statement_type).conds);
    }

    /// Takes the expression that was just parsed as the condition of the
    /// conditional statement under construction.
    pub fn add_condition(&mut self)
        ensures
            old(self).wf() ==> final(self).wf(),
            final(self)@ == old(self)@.add_condition(),
    {
        if let Some(tree_info) = self.type_trees.pop() {
            proof {
                lemma_top_popped(old(self).type_trees@);
            }
            let count = self.curr_conditional_statements.len();
            if count > 0 {
                self.curr_conditional_statements[count - 1].condition = Some(tree_info.tree);
                assert(self.curr_conditional_statements@.drop_last()
                    =~= old(self).curr_conditional_statements@.drop_last());
                proof {
                    lemma_partial_replaced(
                        old(self).curr_conditional_statements@,
                        self.curr_conditional_statements@,
                    );
                }
            }
        }
    }

    /// Ends the conditional statement whose body was just parsed.
    pub fn add_conditional_statement(&mut self)
        requires
            old(self).wf(),
        ensures
            final(self).wf(),
            final(self)@ == old(self)@.add_conditional_statement(),
    {
        self.pop_scope();
        let ghost partials = self.curr_conditional_statements@;
        if let Some(partial_statement) = self.curr_conditional_statements.pop() {
            proof {
                lemma_partial_popped(partials);
                assert(partials.last()@ == partials_view(partials).last());
            }
            if let Some(statement) = partial_statement.to_conditional_statement() {
                self.symbol_table.add_conditional_statement(statement, self.curr_scope);
            }
        }
    }

    /// Performs the semantic action `action`, which follows the terminal
    /// `prev_terminal`.
    pub fn perform_action(&mut self, action: &SemanticAction, prev_terminal: &Option<Token>) -> (r:
        Result<(), SemanticErrorType>)
        requires
            old(self).wf(),
        ensures
            final(self).wf(),
            final(self)@ == old(self)@.step(*action, *prev_terminal).0,
            outcome_view(r) == old(self)@.step(*action, *prev_terminal).1,
    {
        match action {
            SemanticAction::SetId => {
                self.set_id(prev_terminal)?;
            },
            SemanticAction::SetType => {
                self.set_type(prev_terminal);
            },
            SemanticAction::SetArray => {
                self.set_array()?;
            },
            SemanticAction::SetLiteral => {
                self.set_literal(prev_terminal);
            },
            SemanticAction::AddVarDecl => {
                self.add_var_decl()?;
            },
            SemanticAction::ClearVarDecl => {
                self.curr_id = None;
                self.curr_type = None;
            },
            SemanticAction::NewScope => {
                self.new_scope();
            },
            SemanticAction::PopScope => {
                self.pop_scope();
            },
            SemanticAction::SetFunc => {
                self.set_func(prev_terminal);
            },
            SemanticAction::AddParam => {
                self.add_param()?;
            },
            SemanticAction::AddFuncDecl => {
                self.add_func_decl()?;
            },
            SemanticAction::StartTypeTree => {
                self.type_trees.push(StatementTreeInfo::new());
                assert(self.type_trees@.drop_last() =~= old(self).type_trees@);
                proof {
                    lemma_tree_view(self.type_trees@.last().tree);
                    assert(self.type_trees@.last()@.tree.nodes =~= Seq::empty());
                    assert(self@.type_trees =~= old(self)@.start_type_tree().type_trees);
                }
            },
            SemanticAction::AddTypeTree => {
                self.add_type_tree()?;
            },
            SemanticAction::SplitTree => {
                self.split_trees(prev_terminal);
            },
            SemanticAction::AddOperator => {
                self.add_operator(prev_terminal);
            },
            SemanticAction::CheckType => {
                self.check_type()?;
            },
            SemanticAction::CheckVarType => {
                self.check_var_type()?;
            },
            SemanticAction::AddFuncCheck => {
                self.add_func_check()?;
            },
            SemanticAction::PopFuncCheck => {
                self.pop_func_check()?;
            },
            SemanticAction::CheckParamType => {
                self.check_param_type()?;
            },
            SemanticAction::StartAssignment => {
                self.build_assignment = true;
            },
            SemanticAction::AddAssignment => {
                self.add_assignment();
            },
            SemanticAction::AddCondition => {
                self.add_condition();
            },
            SemanticAction::AddCondStatement => {
                self.add_conditional_statement();
            },
            SemanticAction::StartIf => {
                self.start_conditional_statement(ConditionalStatementType::If);
            },
            SemanticAction::StartElse => {
                self.start_conditional_statement(ConditionalStatementType::Else);
            },
            SemanticAction::StartWhile => {
                self.start_conditional_statement(ConditionalStatementType::While);
            },
            SemanticAction::StartReturn => {
                self.check_return_type = true;
                self.curr_builtin_func = Some(BuiltInFuncType::Return);
            },
            SemanticAction::StartPrint => {
                self.curr_builtin_func = Some(BuiltInFuncType::Print);
            },
        }
        Ok(())
    }
}

/// The nearest of `node` and its ancestors that is an operator.
fn nearest_operator(nodes: &Vec<StatementNode>, node: usize) -> (r: usize)
    requires
        node < nodes@.len(),
    ensures
        r == climb(nodes_view(nodes@), node, nodes@.len()),
        r < nodes@.len(),
{
    let mut current = node;
    let mut steps = nodes.len();
    while steps > 0
        invariant
            current < nodes@.len(),
            climb(nodes_view(nodes@), node, nodes@.len()) == climb(
                nodes_view(nodes@),
                current,
                steps as nat,
            ),
        decreases steps,
    {
        match &nodes[current].symbol {
            StatementSymbol::Operator(_) => {
                return current;
            },
            StatementSymbol::SingleChildOperator(_) => {
                return current;
            },
            _ => {},
        }
        match nodes[current].parent {
            Some(p) => {
                if p < nodes.len() {
                    current = p;
                } else {
                    return current;
                }
            },
            None => {
                return current;
            },
        }
        steps -= 1;
    }
    current
}

/// What the check of types finds at an operator, with the message of a
/// mismatch and the type itself.
enum Judgement {
    Missing,
    Mismatch(String),
    Typed(BasicType),
    Unchanged,
}

/// What the check of types finds at node `node`.
fn judge(nodes: &Vec<StatementNode>, node: usize) -> (r: Judgement)
    requires
        node < nodes@.len(),
    ensures
        match verdict(nodes_view(nodes@), node) {
            TypeVerdict::Missing => r is Missing,
            TypeVerdict::Mismatch(a, b) => r matches Judgement::Mismatch(m) && m@ == mismatch_message(
                a,
                b,
            ),
            TypeVerdict::Typed(t) => r matches Judgement::Typed(found) && found@ == t,
            TypeVerdict::Unchanged => r is Unchanged,
        },
{
    let n = &nodes[node];
    match &n.symbol {
        StatementSymbol::Operator(op) => match (n.left, n.right) {
            (Some(l), Some(r)) => {
                if l < nodes.len() && r < nodes.len() {
                    match (&nodes[l].node_type, &nodes[r].node_type) {
                        (Some(left_type), Some(right_type)) => {
                            let logical = match op {
                                Token::Kand => true,
                                Token::Kor => true,
                                _ => false,
                            };
                            if !logical && !left_type.same_as(right_type) {
                                Judgement::Mismatch(mismatch(left_type, right_type))
                            } else if is_truth_operator(op) {
                                Judgement::Typed(BasicType::Int)
                            } else {
                                Judgement::Typed(left_type.duplicate())
                            }
                        },
                        _ => Judgement::Missing,
                    }
                } else {
                    Judgement::Unchanged
                }
            },
            _ => Judgement::Unchanged,
        },
        StatementSymbol::SingleChildOperator(_) => match n.left {
            Some(l) => {
                if l < nodes.len() {
                    match &nodes[l].node_type {
                        Some(t) => Judgement::Typed(t.duplicate()),
                        None => Judgement::Missing,
                    }
                } else {
                    Judgement::Unchanged
                }
            },
            None => Judgement::Unchanged,
        },
        _ => Judgement::Unchanged,
    }
}

/// The root of `tree`, where it is a node of the tree.
fn get_root_start(tree: &StatementTree) -> (r: Option<usize>)
    ensures
        match tree.start {
            Some(start) => if start < tree.nodes@.len() {
                r == Some(start)
            } else {
                r is None
            },
            None => r is None,
        },
{
    match tree.start {
        Some(start) => if start < tree.nodes.len() {
            Some(start)
        } else {
            None
        },
        None => None,
    }
}

} // verus!
