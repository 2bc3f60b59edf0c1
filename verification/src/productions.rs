//! The productions of the grammar, with the semantic actions in their
//! bodies.

use vstd::prelude::*;
use crate::non_terminals::NonTerminal;
use crate::semantic_actions::SemanticAction;
use crate::token::Token;

verus! {

/// A symbol in the body of a production.
#[derive(Debug, PartialEq)]
pub enum ProductionType {
    NonTerminal(NonTerminal),
    Terminal(Token),
    Action(SemanticAction),
}

/// The kind of identifiers.
pub open spec fn identifier_kind() -> nat {
    0
}

/// The kind of integer literals.
pub open spec fn int_kind() -> nat {
    1
}

/// The kind of decimal literals.
pub open spec fn double_kind() -> nat {
    2
}

/// A symbol as a mathematical value: a terminal by its kind.
pub enum SymbolView {
    NonTerminal(NonTerminal),
    Terminal(nat),
    Action(SemanticAction),
}

impl View for ProductionType {
    type V = SymbolView;

    open spec fn view(&self) -> SymbolView {
        match self {
            ProductionType::NonTerminal(n) => SymbolView::NonTerminal(*n),
            ProductionType::Terminal(t) => SymbolView::Terminal(t.kind()),
            ProductionType::Action(a) => SymbolView::Action(*a),
        }
    }
}

impl Clone for ProductionType {
    fn clone(&self) -> (r: Self)
        ensures
            r@ == self@,
            self matches ProductionType::Terminal(t) ==> (r matches ProductionType::Terminal(u)
                && u@ == t@),
    {
        match self {
            ProductionType::NonTerminal(n) => ProductionType::NonTerminal(*n),
            ProductionType::Terminal(t) => ProductionType::Terminal(t.clone()),
            ProductionType::Action(a) => ProductionType::Action(*a),
        }
    }
}

/// A production: the non-terminal it expands and its body.
#[derive(Debug, PartialEq)]
pub struct Production {
    pub left: NonTerminal,
    pub right: Vec<ProductionType>,
}

/// A production as a mathematical value.
pub type ProductionView = (NonTerminal, Seq<SymbolView>);

/// The body of a production as mathematical values.
pub open spec fn rhs_view(right: Seq<ProductionType>) -> Seq<SymbolView> {
    Seq::new(right.len(), |i: int| right[i]@)
}

/// Productions as mathematical values.
pub open spec fn productions_view(productions: Seq<Production>) -> Seq<ProductionView> {
    Seq::new(productions.len(), |i: int| (productions[i].left, rhs_view(productions[i].right@)))
}

/// Number of productions of the grammar.
pub const NUM_PRODUCTIONS: usize = 58;

/// The productions of the program and function declarations.
pub open spec fn function_productions() -> Seq<ProductionView> {
    seq![
        (
            NonTerminal::Program,
            seq![
                SymbolView::NonTerminal(NonTerminal::Fdecls),
                SymbolView::NonTerminal(NonTerminal::DeclarationsSeq),
                SymbolView::Terminal(Token::Speriod.kind()),
            ],
        ),
        (
            NonTerminal::Fdecls,
            seq![
                SymbolView::NonTerminal(NonTerminal::Fdec),
                SymbolView::Terminal(Token::Ssemicolon.kind()),
                SymbolView::NonTerminal(NonTerminal::Fdecls),
            ],
        ),
        (
            NonTerminal::Fdec,
            seq![
                SymbolView::Terminal(Token::Kdef.kind()),
                SymbolView::NonTerminal(NonTerminal::Type),
                SymbolView::NonTerminal(NonTerminal::Fname),
                SymbolView::Action(SemanticAction::SetFunc),
                SymbolView::Terminal(Token::Soparen.kind()),
                SymbolView::NonTerminal(NonTerminal::Params),
                SymbolView::Terminal(Token::Scparen.kind()),
                SymbolView::Action(SemanticAction::AddFuncDecl),
                SymbolView::NonTerminal(NonTerminal::DeclarationsSeq),
                SymbolView::Terminal(Token::Kfed.kind()),
                SymbolView::Action(SemanticAction::PopScope),
            ],
        ),
        (
            NonTerminal::Params,
            seq![
                SymbolView::NonTerminal(NonTerminal::TypeVar),
                SymbolView::Action(SemanticAction::AddParam),
                SymbolView::NonTerminal(NonTerminal::Params2),
            ],
        ),
        (
            NonTerminal::Params2,
            seq![
                SymbolView::Terminal(Token::Scomma.kind()),
                SymbolView::NonTerminal(NonTerminal::Params),
            ],
        ),
        (
            NonTerminal::TypeVar,
            seq![
                SymbolView::NonTerminal(NonTerminal::Type),
                SymbolView::NonTerminal(NonTerminal::Var),
            ],
        ),
        (
            NonTerminal::Fname,
            seq![
                SymbolView::NonTerminal(NonTerminal::Id),
            ],
        ),
    ]
}

/// The productions of declarations.
pub open spec fn declaration_productions() -> Seq<ProductionView> {
    seq![
        (
            NonTerminal::Declarations,
            seq![
                SymbolView::NonTerminal(NonTerminal::Decl),
                SymbolView::Terminal(Token::Ssemicolon.kind()),
                SymbolView::NonTerminal(NonTerminal::Declarations),
            ],
        ),
        (
            NonTerminal::DeclarationsSeq,
            seq![
                SymbolView::NonTerminal(NonTerminal::Declarations),
                SymbolView::NonTerminal(NonTerminal::StatementSeq),
            ],
        ),
        (
            NonTerminal::Decl,
            seq![
                SymbolView::NonTerminal(NonTerminal::Type),
                SymbolView::NonTerminal(NonTerminal::VarList),
                SymbolView::Action(SemanticAction::ClearVarDecl),
            ],
        ),
        (
            NonTerminal::Type,
            seq![
                SymbolView::Terminal(Token::Kint.kind()),
                SymbolView::Action(SemanticAction::SetType),
            ],
        ),
        (
            NonTerminal::Type,
            seq![
                SymbolView::Terminal(Token::Kdouble.kind()),
                SymbolView::Action(SemanticAction::SetType),
            ],
        ),
        (
            NonTerminal::VarList,
            seq![
                SymbolView::NonTerminal(NonTerminal::Var),
                SymbolView::Action(SemanticAction::AddVarDecl),
                SymbolView::NonTerminal(NonTerminal::VarList2),
            ],
        ),
        (
            NonTerminal::VarList2,
            seq![
                SymbolView::Terminal(Token::Scomma.kind()),
                SymbolView::NonTerminal(NonTerminal::VarList),
            ],
        ),
    ]
}

/// The productions of statements.
pub open spec fn statement_productions() -> Seq<ProductionView> {
    seq![
        (
            NonTerminal::StatementSeq,
            seq![
                SymbolView::NonTerminal(NonTerminal::Statement),
                SymbolView::NonTerminal(NonTerminal::StatementSeq2),
            ],
        ),
        (
            NonTerminal::StatementSeq2,
            seq![
                SymbolView::Terminal(Token::Ssemicolon.kind()),
                SymbolView::NonTerminal(NonTerminal::StatementSeq),
            ],
        ),
        (
            NonTerminal::Statement,
            seq![
                SymbolView::Action(SemanticAction::StartAssignment),
                SymbolView::NonTerminal(NonTerminal::Var),
                SymbolView::Terminal(Token::Oassign.kind()),
                SymbolView::Action(SemanticAction::StartTypeTree),
                SymbolView::NonTerminal(NonTerminal::Bexpr),
                SymbolView::Action(SemanticAction::CheckVarType),
                SymbolView::Action(SemanticAction::AddAssignment),
            ],
        ),
        (
            NonTerminal::Statement,
            seq![
                SymbolView::NonTerminal(NonTerminal::If),
            ],
        ),
        (
            NonTerminal::Statement,
            seq![
                SymbolView::Terminal(Token::Kwhile.kind()),
                SymbolView::Action(SemanticAction::StartWhile),
                SymbolView::Action(SemanticAction::StartTypeTree),
                SymbolView::NonTerminal(NonTerminal::Bexpr),
                SymbolView::Action(SemanticAction::AddCondition),
                SymbolView::Terminal(Token::Kdo.kind()),
                SymbolView::Action(SemanticAction::NewScope),
                SymbolView::NonTerminal(NonTerminal::StatementSeq),
                SymbolView::Action(SemanticAction::AddCondStatement),
                SymbolView::Terminal(Token::Kod.kind()),
            ],
        ),
        (
            NonTerminal::Statement,
            seq![
                SymbolView::NonTerminal(NonTerminal::BuiltIn),
                SymbolView::Action(SemanticAction::StartTypeTree),
                SymbolView::NonTerminal(NonTerminal::Bexpr),
                SymbolView::Action(SemanticAction::AddTypeTree),
            ],
        ),
        (
            NonTerminal::If,
            seq![
                SymbolView::Terminal(Token::Kif.kind()),
                SymbolView::Action(SemanticAction::StartIf),
                SymbolView::Action(SemanticAction::StartTypeTree),
                SymbolView::NonTerminal(NonTerminal::Bexpr),
                SymbolView::Action(SemanticAction::AddCondition),
                SymbolView::Terminal(Token::Kthen.kind()),
                SymbolView::Action(SemanticAction::NewScope),
                SymbolView::NonTerminal(NonTerminal::StatementSeq),
                SymbolView::Action(SemanticAction::AddCondStatement),
                SymbolView::NonTerminal(NonTerminal::Else),
                SymbolView::Terminal(Token::Kfi.kind()),
            ],
        ),
        (
            NonTerminal::Else,
            seq![
                SymbolView::Terminal(Token::Kelse.kind()),
                SymbolView::Action(SemanticAction::StartElse),
                SymbolView::Action(SemanticAction::NewScope),
                SymbolView::NonTerminal(NonTerminal::StatementSeq),
                SymbolView::Action(SemanticAction::AddCondStatement),
            ],
        ),
        (
            NonTerminal::BuiltIn,
            seq![
                SymbolView::Terminal(Token::Kprint.kind()),
                SymbolView::Action(SemanticAction::StartPrint),
            ],
        ),
        (
            NonTerminal::BuiltIn,
            seq![
                SymbolView::Terminal(Token::Kreturn.kind()),
                SymbolView::Action(SemanticAction::StartReturn),
            ],
        ),
    ]
}

/// The productions of boolean expressions.
pub open spec fn condition_productions() -> Seq<ProductionView> {
    seq![
        (
            NonTerminal::Bexpr,
            seq![
                SymbolView::NonTerminal(NonTerminal::Bterm),
                SymbolView::NonTerminal(NonTerminal::Bexpr2),
            ],
        ),
        (
            NonTerminal::Bexpr2,
            seq![
                SymbolView::Terminal(Token::Kor.kind()),
                SymbolView::Action(SemanticAction::SplitTree),
                SymbolView::NonTerminal(NonTerminal::Bexpr),
                SymbolView::Action(SemanticAction::CheckType),
            ],
        ),
        (
            NonTerminal::Bterm,
            seq![
                SymbolView::NonTerminal(NonTerminal::Bfactor),
                SymbolView::NonTerminal(NonTerminal::Bterm2),
            ],
        ),
        (
            NonTerminal::Bterm2,
            seq![
                SymbolView::Terminal(Token::Kand.kind()),
                SymbolView::Action(SemanticAction::SplitTree),
                SymbolView::NonTerminal(NonTerminal::Bterm),
                SymbolView::Action(SemanticAction::CheckType),
            ],
        ),
        (
            NonTerminal::Bfactor,
            seq![
                SymbolView::NonTerminal(NonTerminal::Expr),
                SymbolView::NonTerminal(NonTerminal::Bfactor2),
            ],
        ),
        (
            NonTerminal::Bfactor,
            seq![
                SymbolView::Terminal(Token::Knot.kind()),
                SymbolView::Action(SemanticAction::AddOperator),
                SymbolView::NonTerminal(NonTerminal::Bfactor),
                SymbolView::Action(SemanticAction::CheckType),
            ],
        ),
        (
            NonTerminal::Bfactor2,
            seq![
                SymbolView::NonTerminal(NonTerminal::Comp),
                SymbolView::Action(SemanticAction::SplitTree),
                SymbolView::NonTerminal(NonTerminal::Expr),
                SymbolView::Action(SemanticAction::CheckType),
            ],
        ),
    ]
}

/// The productions of arithmetic expressions.
pub open spec fn arithmetic_productions() -> Seq<ProductionView> {
    seq![
        (
            NonTerminal::Expr,
            seq![
                SymbolView::NonTerminal(NonTerminal::Term),
                SymbolView::NonTerminal(NonTerminal::Expr2),
            ],
        ),
        (
            NonTerminal::Expr2,
            seq![
                SymbolView::Terminal(Token::Oplus.kind()),
                SymbolView::Action(SemanticAction::SplitTree),
                SymbolView::NonTerminal(NonTerminal::Expr),
                SymbolView::Action(SemanticAction::CheckType),
            ],
        ),
        (
            NonTerminal::Expr2,
            seq![
                SymbolView::Terminal(Token::Ominus.kind()),
                SymbolView::Action(SemanticAction::SplitTree),
                SymbolView::NonTerminal(NonTerminal::Expr),
                SymbolView::Action(SemanticAction::CheckType),
            ],
        ),
        (
            NonTerminal::Term,
            seq![
                SymbolView::NonTerminal(NonTerminal::NegFactor),
                SymbolView::NonTerminal(NonTerminal::Term2),
            ],
        ),
        (
            NonTerminal::Term2,
            seq![
                SymbolView::Terminal(Token::Omultiply.kind()),
                SymbolView::Action(SemanticAction::SplitTree),
                SymbolView::NonTerminal(NonTerminal::Term),
                SymbolView::Action(SemanticAction::CheckType),
            ],
        ),
        (
            NonTerminal::Term2,
            seq![
                SymbolView::Terminal(Token::Odivide.kind()),
                SymbolView::Action(SemanticAction::SplitTree),
                SymbolView::NonTerminal(NonTerminal::Term),
                SymbolView::Action(SemanticAction::CheckType),
            ],
        ),
        (
            NonTerminal::Term2,
            seq![
                SymbolView::Terminal(Token::Omod.kind()),
                SymbolView::Action(SemanticAction::SplitTree),
                SymbolView::NonTerminal(NonTerminal::Term),
                SymbolView::Action(SemanticAction::CheckType),
            ],
        ),
        (
            NonTerminal::NegFactor,
            seq![
                SymbolView::Terminal(Token::Ominus.kind()),
                SymbolView::Action(SemanticAction::AddOperator),
                SymbolView::NonTerminal(NonTerminal::Factor),
                SymbolView::Action(SemanticAction::CheckType),
            ],
        ),
    ]
}

/// The productions of factors and argument lists.
pub open spec fn factor_productions() -> Seq<ProductionView> {
    seq![
        (
            NonTerminal::NegFactor,
            seq![
                SymbolView::NonTerminal(NonTerminal::Factor),
            ],
        ),
        (
            NonTerminal::Factor,
            seq![
                SymbolView::NonTerminal(NonTerminal::Id),
                SymbolView::NonTerminal(NonTerminal::Factor2),
            ],
        ),
        (
            NonTerminal::Factor,
            seq![
                SymbolView::NonTerminal(NonTerminal::Number),
                SymbolView::Action(SemanticAction::SetLiteral),
            ],
        ),
        (
            NonTerminal::Factor,
            seq![
                SymbolView::Terminal(Token::Soparen.kind()),
                SymbolView::Action(SemanticAction::AddOperator),
                SymbolView::NonTerminal(NonTerminal::Bexpr),
                SymbolView::Terminal(Token::Scparen.kind()),
                SymbolView::Action(SemanticAction::CheckType),
            ],
        ),
        (
            NonTerminal::Factor2,
            seq![
                SymbolView::NonTerminal(NonTerminal::Var2),
            ],
        ),
        (
            NonTerminal::Factor2,
            seq![
                SymbolView::Action(SemanticAction::AddFuncCheck),
                SymbolView::Terminal(Token::Soparen.kind()),
                SymbolView::NonTerminal(NonTerminal::ExprSeq),
                SymbolView::Terminal(Token::Scparen.kind()),
                SymbolView::Action(SemanticAction::PopFuncCheck),
            ],
        ),
        (
            NonTerminal::ExprSeq,
            seq![
                SymbolView::Action(SemanticAction::StartTypeTree),
                SymbolView::NonTerminal(NonTerminal::Bexpr),
                SymbolView::Action(SemanticAction::CheckParamType),
                SymbolView::Action(SemanticAction::AddTypeTree),
                SymbolView::NonTerminal(NonTerminal::ExprSeq2),
            ],
        ),
    ]
}

/// The productions of comparison operators, variables and literals.
pub open spec fn leaf_productions() -> Seq<ProductionView> {
    seq![
        (
            NonTerminal::ExprSeq2,
            seq![
                SymbolView::Terminal(Token::Scomma.kind()),
                SymbolView::NonTerminal(NonTerminal::ExprSeq),
            ],
        ),
        (
            NonTerminal::Comp,
            seq![
                SymbolView::Terminal(Token::Olt.kind()),
            ],
        ),
        (
            NonTerminal::Comp,
            seq![
                SymbolView::Terminal(Token::Ogt.kind()),
            ],
        ),
        (
            NonTerminal::Comp,
            seq![
                SymbolView::Terminal(Token::Oequal.kind()),
            ],
        ),
        (
            NonTerminal::Comp,
            seq![
                SymbolView::Terminal(Token::Olte.kind()),
            ],
        ),
        (
            NonTerminal::Comp,
            seq![
                SymbolView::Terminal(Token::Ogte.kind()),
            ],
        ),
        (
            NonTerminal::Comp,
            seq![
                SymbolView::Terminal(Token::Onot.kind()),
            ],
        ),
        (
            NonTerminal::Var,
            seq![
                SymbolView::NonTerminal(NonTerminal::Id),
                SymbolView::NonTerminal(NonTerminal::Var2),
            ],
        ),
        (
            NonTerminal::Var2,
            seq![
                SymbolView::Terminal(Token::Sobracket.kind()),
                SymbolView::Action(SemanticAction::StartTypeTree),
                SymbolView::NonTerminal(NonTerminal::Bexpr),
                SymbolView::Action(SemanticAction::SetArray),
                SymbolView::Terminal(Token::Scbracket.kind()),
            ],
        ),
        (
            NonTerminal::Id,
            seq![
                SymbolView::Terminal(identifier_kind()),
                SymbolView::Action(SemanticAction::SetId),
            ],
        ),
        (
            NonTerminal::Number,
            seq![
                SymbolView::Terminal(int_kind()),
            ],
        ),
        (
            NonTerminal::Number,
            seq![
                SymbolView::Terminal(double_kind()),
            ],
        ),
    ]
}

/// The grammar: its productions in order.
pub open spec fn grammar() -> Seq<ProductionView> {
    function_productions() + declaration_productions() + statement_productions() + condition_productions() + arithmetic_productions() + factor_productions() + leaf_productions()
}

/// Appends the production of `left` with the body `right`.
fn push_production(productions: &mut Vec<Production>, left: NonTerminal, right: Vec<ProductionType>)
    ensures
        productions_view(final(productions)@) == productions_view(old(productions)@).push(
            (left, rhs_view(right@)),
        ),
{
    productions.push(Production { left, right });
    assert(productions_view(productions@) =~= productions_view(old(productions)@).push(
        (left, rhs_view(right@)),
    ));
}

/// Appends the productions of the program and function declarations.
fn push_function_productions(productions: &mut Vec<Production>)
    ensures
        productions_view(final(productions)@) == productions_view(old(productions)@) + function_productions(),
{
    let ghost before = productions_view(productions@);
    let right = vec![
        ProductionType::NonTerminal(NonTerminal::Fdecls),
        ProductionType::NonTerminal(NonTerminal::DeclarationsSeq),
        ProductionType::Terminal(Token::Speriod),
    ];
    assert(rhs_view(right@) =~= function_productions()[0].1);
    push_production(productions, NonTerminal::Program, right);
    let right = vec![
        ProductionType::NonTerminal(NonTerminal::Fdec),
        ProductionType::Terminal(Token::Ssemicolon),
        ProductionType::NonTerminal(NonTerminal::Fdecls),
    ];
    assert(rhs_view(right@) =~= function_productions()[1].1);
    push_production(productions, NonTerminal::Fdecls, right);
    let right = vec![
        ProductionType::Terminal(Token::Kdef),
        ProductionType::NonTerminal(NonTerminal::Type),
        ProductionType::NonTerminal(NonTerminal::Fname),
        ProductionType::Action(SemanticAction::SetFunc),
        ProductionType::Terminal(Token::Soparen),
        ProductionType::NonTerminal(NonTerminal::Params),
        ProductionType::Terminal(Token::Scparen),
        ProductionType::Action(SemanticAction::AddFuncDecl),
        ProductionType::NonTerminal(NonTerminal::DeclarationsSeq),
        ProductionType::Terminal(Token::Kfed),
        ProductionType::Action(SemanticAction::PopScope),
    ];
    assert(rhs_view(right@) =~= function_productions()[2].1);
    push_production(productions, NonTerminal::Fdec, right);
    let right = vec![
        ProductionType::NonTerminal(NonTerminal::TypeVar),
        ProductionType::Action(SemanticAction::AddParam),
        ProductionType::NonTerminal(NonTerminal::Params2),
    ];
    assert(rhs_view(right@) =~= function_productions()[3].1);
    push_production(productions, NonTerminal::Params, right);
    let right = vec![
        ProductionType::Terminal(Token::Scomma),
        ProductionType::NonTerminal(NonTerminal::Params),
    ];
    assert(rhs_view(right@) =~= function_productions()[4].1);
    push_production(productions, NonTerminal::Params2, right);
    let right = vec![
        ProductionType::NonTerminal(NonTerminal::Type),
        ProductionType::NonTerminal(NonTerminal::Var),
    ];
    assert(rhs_view(right@) =~= function_productions()[5].1);
    push_production(productions, NonTerminal::TypeVar, right);
    let right = vec![
        ProductionType::NonTerminal(NonTerminal::Id),
    ];
    assert(rhs_view(right@) =~= function_productions()[6].1);
    push_production(productions, NonTerminal::Fname, right);
    assert(productions_view(productions@) =~= before + function_productions());
}

/// Appends the productions of declarations.
fn push_declaration_productions(productions: &mut Vec<Production>)
    ensures
        productions_view(final(productions)@) == productions_view(old(productions)@) + declaration_productions(),
{
    let ghost before = productions_view(productions@);
    let right = vec![
        ProductionType::NonTerminal(NonTerminal::Decl),
        ProductionType::Terminal(Token::Ssemicolon),
        ProductionType::NonTerminal(NonTerminal::Declarations),
    ];
    assert(rhs_view(right@) =~= declaration_productions()[0].1);
    push_production(productions, NonTerminal::Declarations, right);
    let right = vec![
        ProductionType::NonTerminal(NonTerminal::Declarations),
        ProductionType::NonTerminal(NonTerminal::StatementSeq),
    ];
    assert(rhs_view(right@) =~= declaration_productions()[1].1);
    push_production(productions, NonTerminal::DeclarationsSeq, right);
    let right = vec![
        ProductionType::NonTerminal(NonTerminal::Type),
        ProductionType::NonTerminal(NonTerminal::VarList),
        ProductionType::Action(SemanticAction::ClearVarDecl),
    ];
    assert(rhs_view(right@) =~= declaration_productions()[2].1);
    push_production(productions, NonTerminal::Decl, right);
    let right = vec![
        ProductionType::Terminal(Token::Kint),
        ProductionType::Action(SemanticAction::SetType),
    ];
    assert(rhs_view(right@) =~= declaration_productions()[3].1);
    push_production(productions, NonTerminal::Type, right);
    let right = vec![
        ProductionType::Terminal(Token::Kdouble),
        ProductionType::Action(SemanticAction::SetType),
    ];
    assert(rhs_view(right@) =~= declaration_productions()[4].1);
    push_production(productions, NonTerminal::Type, right);
    let right = vec![
        ProductionType::NonTerminal(NonTerminal::Var),
        ProductionType::Action(SemanticAction::AddVarDecl),
        ProductionType::NonTerminal(NonTerminal::VarList2),
    ];
    assert(rhs_view(right@) =~= declaration_productions()[5].1);
    push_production(productions, NonTerminal::VarList, right);
    let right = vec![
        ProductionType::Terminal(Token::Scomma),
        ProductionType::NonTerminal(NonTerminal::VarList),
    ];
    assert(rhs_view(right@) =~= declaration_productions()[6].1);
    push_production(productions, NonTerminal::VarList2, right);
    assert(productions_view(productions@) =~= before + declaration_productions());
}

/// Appends the productions of statements.
fn push_statement_productions(productions: &mut Vec<Production>)
    ensures
        productions_view(final(productions)@) == productions_view(old(productions)@) + statement_productions(),
{
    let ghost before = productions_view(productions@);
    let right = vec![
        ProductionType::NonTerminal(NonTerminal::Statement),
        ProductionType::NonTerminal(NonTerminal::StatementSeq2),
    ];
    assert(rhs_view(right@) =~= statement_productions()[0].1);
    push_production(productions, NonTerminal::StatementSeq, right);
    let right = vec![
        ProductionType::Terminal(Token::Ssemicolon),
        ProductionType::NonTerminal(NonTerminal::StatementSeq),
    ];
    assert(rhs_view(right@) =~= statement_productions()[1].1);
    push_production(productions, NonTerminal::StatementSeq2, right);
    let right = vec![
        ProductionType::Action(SemanticAction::StartAssignment),
        ProductionType::NonTerminal(NonTerminal::Var),
        ProductionType::Terminal(Token::Oassign),
        ProductionType::Action(SemanticAction::StartTypeTree),
        ProductionType::NonTerminal(NonTerminal::Bexpr),
        ProductionType::Action(SemanticAction::CheckVarType),
        ProductionType::Action(SemanticAction::AddAssignment),
    ];
    assert(rhs_view(right@) =~= statement_productions()[2].1);
    push_production(productions, NonTerminal::Statement, right);
    let right = vec![
        ProductionType::NonTerminal(NonTerminal::If),
    ];
    assert(rhs_view(right@) =~= statement_productions()[3].1);
    push_production(productions, NonTerminal::Statement, right);
    let right = vec![
        ProductionType::Terminal(Token::Kwhile),
        ProductionType::Action(SemanticAction::StartWhile),
        ProductionType::Action(SemanticAction::StartTypeTree),
        ProductionType::NonTerminal(NonTerminal::Bexpr),
        ProductionType::Action(SemanticAction::AddCondition),
        ProductionType::Terminal(Token::Kdo),
        ProductionType::Action(SemanticAction::NewScope),
        ProductionType::NonTerminal(NonTerminal::StatementSeq),
        ProductionType::Action(SemanticAction::AddCondStatement),
        ProductionType::Terminal(Token::Kod),
    ];
    assert(rhs_view(right@) =~= statement_productions()[4].1);
    push_production(productions, NonTerminal::Statement, right);
    let right = vec![
        ProductionType::NonTerminal(NonTerminal::BuiltIn),
        ProductionType::Action(SemanticAction::StartTypeTree),
        ProductionType::NonTerminal(NonTerminal::Bexpr),
        ProductionType::Action(SemanticAction::AddTypeTree),
    ];
    assert(rhs_view(right@) =~= statement_productions()[5].1);
    push_production(productions, NonTerminal::Statement, right);
    let right = vec![
        ProductionType::Terminal(Token::Kif),
        ProductionType::Action(SemanticAction::StartIf),
        ProductionType::Action(SemanticAction::StartTypeTree),
        ProductionType::NonTerminal(NonTerminal::Bexpr),
        ProductionType::Action(SemanticAction::AddCondition),
        ProductionType::Terminal(Token::Kthen),
        ProductionType::Action(SemanticAction::NewScope),
        ProductionType::NonTerminal(NonTerminal::StatementSeq),
        ProductionType::Action(SemanticAction::AddCondStatement),
        ProductionType::NonTerminal(NonTerminal::Else),
        ProductionType::Terminal(Token::Kfi),
    ];
    assert(rhs_view(right@) =~= statement_productions()[6].1);
    push_production(productions, NonTerminal::If, right);
    let right = vec![
        ProductionType::Terminal(Token::Kelse),
        ProductionType::Action(SemanticAction::StartElse),
        ProductionType::Action(SemanticAction::NewScope),
        ProductionType::NonTerminal(NonTerminal::StatementSeq),
        ProductionType::Action(SemanticAction::AddCondStatement),
    ];
    assert(rhs_view(right@) =~= statement_productions()[7].1);
    push_production(productions, NonTerminal::Else, right);
    let right = vec![
        ProductionType::Terminal(Token::Kprint),
        ProductionType::Action(SemanticAction::StartPrint),
    ];
    assert(rhs_view(right@) =~= statement_productions()[8].1);
    push_production(productions, NonTerminal::BuiltIn, right);
    let right = vec![
        ProductionType::Terminal(Token::Kreturn),
        ProductionType::Action(SemanticAction::StartReturn),
    ];
    assert(rhs_view(right@) =~= statement_productions()[9].1);
    push_production(productions, NonTerminal::BuiltIn, right);
    assert(productions_view(productions@) =~= before + statement_productions());
}

/// Appends the productions of boolean expressions.
fn push_condition_productions(productions: &mut Vec<Production>)
    ensures
        productions_view(final(productions)@) == productions_view(old(productions)@) + condition_productions(),
{
    let ghost before = productions_view(productions@);
    let right = vec![
        ProductionType::NonTerminal(NonTerminal::Bterm),
        ProductionType::NonTerminal(NonTerminal::Bexpr2),
    ];
    assert(rhs_view(right@) =~= condition_productions()[0].1);
    push_production(productions, NonTerminal::Bexpr, right);
    let right = vec![
        ProductionType::Terminal(Token::Kor),
        ProductionType::Action(SemanticAction::SplitTree),
        ProductionType::NonTerminal(NonTerminal::Bexpr),
        ProductionType::Action(SemanticAction::CheckType),
    ];
    assert(rhs_view(right@) =~= condition_productions()[1].1);
    push_production(productions, NonTerminal::Bexpr2, right);
    let right = vec![
        ProductionType::NonTerminal(NonTerminal::Bfactor),
        ProductionType::NonTerminal(NonTerminal::Bterm2),
    ];
    assert(rhs_view(right@) =~= condition_productions()[2].1);
    push_production(productions, NonTerminal::Bterm, right);
    let right = vec![
        ProductionType::Terminal(Token::Kand),
        ProductionType::Action(SemanticAction::SplitTree),
        ProductionType::NonTerminal(NonTerminal::Bterm),
        ProductionType::Action(SemanticAction::CheckType),
    ];
    assert(rhs_view(right@) =~= condition_productions()[3].1);
    push_production(productions, NonTerminal::Bterm2, right);
    let right = vec![
        ProductionType::NonTerminal(NonTerminal::Expr),
        ProductionType::NonTerminal(NonTerminal::Bfactor2),
    ];
    assert(rhs_view(right@) =~= condition_productions()[4].1);
    push_production(productions, NonTerminal::Bfactor, right);
    let right = vec![
        ProductionType::Terminal(Token::Knot),
        ProductionType::Action(SemanticAction::AddOperator),
        ProductionType::NonTerminal(NonTerminal::Bfactor),
        ProductionType::Action(SemanticAction::CheckType),
    ];
    assert(rhs_view(right@) =~= condition_productions()[5].1);
    push_production(productions, NonTerminal::Bfactor, right);
    let right = vec![
        ProductionType::NonTerminal(NonTerminal::Comp),
        ProductionType::Action(SemanticAction::SplitTree),
        ProductionType::NonTerminal(NonTerminal::Expr),
        ProductionType::Action(SemanticAction::CheckType),
    ];
    assert(rhs_view(right@) =~= condition_productions()[6].1);
    push_production(productions, NonTerminal::Bfactor2, right);
    assert(productions_view(productions@) =~= before + condition_productions());
}

/// Appends the productions of arithmetic expressions.
fn push_arithmetic_productions(productions: &mut Vec<Production>)
    ensures
        productions_view(final(productions)@) == productions_view(old(productions)@) + arithmetic_productions(),
{
    let ghost before = productions_view(productions@);
    let right = vec![
        ProductionType::NonTerminal(NonTerminal::Term),
        ProductionType::NonTerminal(NonTerminal::Expr2),
    ];
    assert(rhs_view(right@) =~= arithmetic_productions()[0].1);
    push_production(productions, NonTerminal::Expr, right);
    let right = vec![
        ProductionType::Terminal(Token::Oplus),
        ProductionType::Action(SemanticAction::SplitTree),
        ProductionType::NonTerminal(NonTerminal::Expr),
        ProductionType::Action(SemanticAction::CheckType),
    ];
    assert(rhs_view(right@) =~= arithmetic_productions()[1].1);
    push_production(productions, NonTerminal::Expr2, right);
    let right = vec![
        ProductionType::Terminal(Token::Ominus),
        ProductionType::Action(SemanticAction::SplitTree),
        ProductionType::NonTerminal(NonTerminal::Expr),
        ProductionType::Action(SemanticAction::CheckType),
    ];
    assert(rhs_view(right@) =~= arithmetic_productions()[2].1);
    push_production(productions, NonTerminal::Expr2, right);
    let right = vec![
        ProductionType::NonTerminal(NonTerminal::NegFactor),
        ProductionType::NonTerminal(NonTerminal::Term2),
    ];
    assert(rhs_view(right@) =~= arithmetic_productions()[3].1);
    push_production(productions, NonTerminal::Term, right);
    let right = vec![
        ProductionType::Terminal(Token::Omultiply),
        ProductionType::Action(SemanticAction::SplitTree),
        ProductionType::NonTerminal(NonTerminal::Term),
        ProductionType::Action(SemanticAction::CheckType),
    ];
    assert(rhs_view(right@) =~= arithmetic_productions()[4].1);
    push_production(productions, NonTerminal::Term2, right);
    let right = vec![
        ProductionType::Terminal(Token::Odivide),
        ProductionType::Action(SemanticAction::SplitTree),
        ProductionType::NonTerminal(NonTerminal::Term),
        ProductionType::Action(SemanticAction::CheckType),
    ];
    assert(rhs_view(right@) =~= arithmetic_productions()[5].1);
    push_production(productions, NonTerminal::Term2, right);
    let right = vec![
        ProductionType::Terminal(Token::Omod),
        ProductionType::Action(SemanticAction::SplitTree),
        ProductionType::NonTerminal(NonTerminal::Term),
        ProductionType::Action(SemanticAction::CheckType),
    ];
    assert(rhs_view(right@) =~= arithmetic_productions()[6].1);
    push_production(productions, NonTerminal::Term2, right);
    let right = vec![
        ProductionType::Terminal(Token::Ominus),
        ProductionType::Action(SemanticAction::AddOperator),
        ProductionType::NonTerminal(NonTerminal::Factor),
        ProductionType::Action(SemanticAction::CheckType),
    ];
    assert(rhs_view(right@) =~= arithmetic_productions()[7].1);
    push_production(productions, NonTerminal::NegFactor, right);
    assert(productions_view(productions@) =~= before + arithmetic_productions());
}

/// Appends the productions of factors and argument lists.
fn push_factor_productions(productions: &mut Vec<Production>)
    ensures
        productions_view(final(productions)@) == productions_view(old(productions)@) + factor_productions(),
{
    let ghost before = productions_view(productions@);
    let right = vec![
        ProductionType::NonTerminal(NonTerminal::Factor),
    ];
    assert(rhs_view(right@) =~= factor_productions()[0].1);
    push_production(productions, NonTerminal::NegFactor, right);
    let right = vec![
        ProductionType::NonTerminal(NonTerminal::Id),
        ProductionType::NonTerminal(NonTerminal::Factor2),
    ];
    assert(rhs_view(right@) =~= factor_productions()[1].1);
    push_production(productions, NonTerminal::Factor, right);
    let right = vec![
        ProductionType::NonTerminal(NonTerminal::Number),
        ProductionType::Action(SemanticAction::SetLiteral),
    ];
    assert(rhs_view(right@) =~= factor_productions()[2].1);
    push_production(productions, NonTerminal::Factor, right);
    let right = vec![
        ProductionType::Terminal(Token::Soparen),
        ProductionType::Action(SemanticAction::AddOperator),
        ProductionType::NonTerminal(NonTerminal::Bexpr),
        ProductionType::Terminal(Token::Scparen),
        ProductionType::Action(SemanticAction::CheckType),
    ];
    assert(rhs_view(right@) =~= factor_productions()[3].1);
    push_production(productions, NonTerminal::Factor, right);
    let right = vec![
        ProductionType::NonTerminal(NonTerminal::Var2),
    ];
    assert(rhs_view(right@) =~= factor_productions()[4].1);
    push_production(productions, NonTerminal::Factor2, right);
    let right = vec![
        ProductionType::Action(SemanticAction::AddFuncCheck),
        ProductionType::Terminal(Token::Soparen),
        ProductionType::NonTerminal(NonTerminal::ExprSeq),
        ProductionType::Terminal(Token::Scparen),
        ProductionType::Action(SemanticAction::PopFuncCheck),
    ];
    assert(rhs_view(right@) =~= factor_productions()[5].1);
    push_production(productions, NonTerminal::Factor2, right);
    let right = vec![
        ProductionType::Action(SemanticAction::StartTypeTree),
        ProductionType::NonTerminal(NonTerminal::Bexpr),
        ProductionType::Action(SemanticAction::CheckParamType),
        ProductionType::Action(SemanticAction::AddTypeTree),
        ProductionType::NonTerminal(NonTerminal::ExprSeq2),
    ];
    assert(rhs_view(right@) =~= factor_productions()[6].1);
    push_production(productions, NonTerminal::ExprSeq, right);
    assert(productions_view(productions@) =~= before + factor_productions());
}

/// Appends the productions of comparison operators, variables and literals.
fn push_leaf_productions(productions: &mut Vec<Production>)
    ensures
        productions_view(final(productions)@) == productions_view(old(productions)@) + leaf_productions(),
{
    let ghost before = productions_view(productions@);
    let right = vec![
        ProductionType::Terminal(Token::Scomma),
        ProductionType::NonTerminal(NonTerminal::ExprSeq),
    ];
    assert(rhs_view(right@) =~= leaf_productions()[0].1);
    push_production(productions, NonTerminal::ExprSeq2, right);
    let right = vec![
        ProductionType::Terminal(Token::Olt),
    ];
    assert(rhs_view(right@) =~= leaf_productions()[1].1);
    push_production(productions, NonTerminal::Comp, right);
    let right = vec![
        ProductionType::Terminal(Token::Ogt),
    ];
    assert(rhs_view(right@) =~= leaf_productions()[2].1);
    push_production(productions, NonTerminal::Comp, right);
    let right = vec![
        ProductionType::Terminal(Token::Oequal),
    ];
    assert(rhs_view(right@) =~= leaf_productions()[3].1);
    push_production(productions, NonTerminal::Comp, right);
    let right = vec![
        ProductionType::Terminal(Token::Olte),
    ];
    assert(rhs_view(right@) =~= leaf_productions()[4].1);
    push_production(productions, NonTerminal::Comp, right);
    let right = vec![
        ProductionType::Terminal(Token::Ogte),
    ];
    assert(rhs_view(right@) =~= leaf_productions()[5].1);
    push_production(productions, NonTerminal::Comp, right);
    let right = vec![
        ProductionType::Terminal(Token::Onot),
    ];
    assert(rhs_view(right@) =~= leaf_productions()[6].1);
    push_production(productions, NonTerminal::Comp, right);
    let right = vec![
        ProductionType::NonTerminal(NonTerminal::Id),
        ProductionType::NonTerminal(NonTerminal::Var2),
    ];
    assert(rhs_view(right@) =~= leaf_productions()[7].1);
    push_production(productions, NonTerminal::Var, right);
    let right = vec![
        ProductionType::Terminal(Token::Sobracket),
        ProductionType::Action(SemanticAction::StartTypeTree),
        ProductionType::NonTerminal(NonTerminal::Bexpr),
        ProductionType::Action(SemanticAction::SetArray),
        ProductionType::Terminal(Token::Scbracket),
    ];
    assert(rhs_view(right@) =~= leaf_productions()[8].1);
    push_production(productions, NonTerminal::Var2, right);
    let right = vec![
        ProductionType::Terminal(Token::Identifier(String::new())),
        ProductionType::Action(SemanticAction::SetId),
    ];
    assert(rhs_view(right@) =~= leaf_productions()[9].1);
    push_production(productions, NonTerminal::Id, right);
    let right = vec![
        ProductionType::Terminal(Token::Tint(0)),
    ];
    assert(rhs_view(right@) =~= leaf_productions()[10].1);
    push_production(productions, NonTerminal::Number, right);
    let right = vec![
        ProductionType::Terminal(Token::Tdouble(String::new())),
    ];
    assert(rhs_view(right@) =~= leaf_productions()[11].1);
    push_production(productions, NonTerminal::Number, right);
    assert(productions_view(productions@) =~= before + leaf_productions());
}

/// The productions of the grammar.
pub fn get_constant_productions() -> (productions: Vec<Production>)
    ensures
        productions_view(productions@) == grammar(),
        productions@.len() == NUM_PRODUCTIONS,
{
    let mut productions: Vec<Production> = Vec::new();
    assert(productions_view(productions@) =~= Seq::empty());
    push_function_productions(&mut productions);
    push_declaration_productions(&mut productions);
    push_statement_productions(&mut productions);
    push_condition_productions(&mut productions);
    push_arithmetic_productions(&mut productions);
    push_factor_productions(&mut productions);
    push_leaf_productions(&mut productions);
    assert(productions_view(productions@) =~= grammar());
    assert(productions_view(productions@).len() == productions@.len());
    productions
}

} // verus!
