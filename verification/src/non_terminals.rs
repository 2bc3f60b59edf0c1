//! The non-terminals of the grammar.

use vstd::prelude::*;

verus! {

/// Number of non-terminals.
pub const NUM_NON_TERMINALS: usize = 39;

/// Number of columns of terminals in the parsing table; the column after
/// them is that of the end of input.
pub const NUM_TERMINALS: usize = 39;

/// A non-terminal of the grammar.
#[derive(Debug, PartialEq, Eq, Clone, Copy, Structural)]
pub enum NonTerminal {
    Program,
    Fdecls,
    Fdec,
    Params,
    Params2,
    TypeVar,
    Fname,
    Declarations,
    DeclarationsSeq,
    Decl,
    Type,
    VarList,
    VarList2,
    StatementSeq,
    StatementSeq2,
    Statement,
    If,
    Else,
    BuiltIn,
    Bexpr,
    Bexpr2,
    Bterm,
    Bterm2,
    Bfactor,
    Bfactor2,
    Expr,
    Expr2,
    Term,
    Term2,
    NegFactor,
    Factor,
    Factor2,
    ExprSeq,
    ExprSeq2,
    Comp,
    Var,
    Var2,
    Id,
    Number,
}

impl NonTerminal {
    /// The ordinal of the non-terminal.
    pub open spec fn index(self) -> nat {
        match self {
            NonTerminal::Program => 0,
            NonTerminal::Fdecls => 1,
            NonTerminal::Fdec => 2,
            NonTerminal::Params => 3,
            NonTerminal::Params2 => 4,
            NonTerminal::TypeVar => 5,
            NonTerminal::Fname => 6,
            NonTerminal::Declarations => 7,
            NonTerminal::DeclarationsSeq => 8,
            NonTerminal::Decl => 9,
            NonTerminal::Type => 10,
            NonTerminal::VarList => 11,
            NonTerminal::VarList2 => 12,
            NonTerminal::StatementSeq => 13,
            NonTerminal::StatementSeq2 => 14,
            NonTerminal::Statement => 15,
            NonTerminal::If => 16,
            NonTerminal::Else => 17,
            NonTerminal::BuiltIn => 18,
            NonTerminal::Bexpr => 19,
            NonTerminal::Bexpr2 => 20,
            NonTerminal::Bterm => 21,
            NonTerminal::Bterm2 => 22,
            NonTerminal::Bfactor => 23,
            NonTerminal::Bfactor2 => 24,
            NonTerminal::Expr => 25,
            NonTerminal::Expr2 => 26,
            NonTerminal::Term => 27,
            NonTerminal::Term2 => 28,
            NonTerminal::NegFactor => 29,
            NonTerminal::Factor => 30,
            NonTerminal::Factor2 => 31,
            NonTerminal::ExprSeq => 32,
            NonTerminal::ExprSeq2 => 33,
            NonTerminal::Comp => 34,
            NonTerminal::Var => 35,
            NonTerminal::Var2 => 36,
            NonTerminal::Id => 37,
            NonTerminal::Number => 38,
        }
    }

    /// The non-terminal with ordinal `i`.
    pub open spec fn at(i: int) -> NonTerminal {
        choose|n: NonTerminal| n.index() == i
    }

    /// Non-terminals of one ordinal are one non-terminal.
    pub proof fn lemma_index_one(a: NonTerminal, b: NonTerminal)
        requires
            a.index() == b.index(),
        ensures
            a == b,
            a == NonTerminal::at(a.index() as int),
    {
    }

    /// The ordinal of the non-terminal, used as a row index.
    pub fn to_index(&self) -> (i: usize)
        ensures
            i == self.index(),
            i < NUM_NON_TERMINALS,
    {
        match self {
            NonTerminal::Program => 0,
            NonTerminal::Fdecls => 1,
            NonTerminal::Fdec => 2,
            NonTerminal::Params => 3,
            NonTerminal::Params2 => 4,
            NonTerminal::TypeVar => 5,
            NonTerminal::Fname => 6,
            NonTerminal::Declarations => 7,
            NonTerminal::DeclarationsSeq => 8,
            NonTerminal::Decl => 9,
            NonTerminal::Type => 10,
            NonTerminal::VarList => 11,
            NonTerminal::VarList2 => 12,
            NonTerminal::StatementSeq => 13,
            NonTerminal::StatementSeq2 => 14,
            NonTerminal::Statement => 15,
            NonTerminal::If => 16,
            NonTerminal::Else => 17,
            NonTerminal::BuiltIn => 18,
            NonTerminal::Bexpr => 19,
            NonTerminal::Bexpr2 => 20,
            NonTerminal::Bterm => 21,
            NonTerminal::Bterm2 => 22,
            NonTerminal::Bfactor => 23,
            NonTerminal::Bfactor2 => 24,
            NonTerminal::Expr => 25,
            NonTerminal::Expr2 => 26,
            NonTerminal::Term => 27,
            NonTerminal::Term2 => 28,
            NonTerminal::NegFactor => 29,
            NonTerminal::Factor => 30,
            NonTerminal::Factor2 => 31,
            NonTerminal::ExprSeq => 32,
            NonTerminal::ExprSeq2 => 33,
            NonTerminal::Comp => 34,
            NonTerminal::Var => 35,
            NonTerminal::Var2 => 36,
            NonTerminal::Id => 37,
            NonTerminal::Number => 38,
        }
    }

    /// The non-terminal with ordinal `i`.
    pub fn from_index(i: usize) -> (n: NonTerminal)
        requires
            i < NUM_NON_TERMINALS,
        ensures
            n.index() == i,
    {
        if i == 0 {
            NonTerminal::Program
        } else if i == 1 {
            NonTerminal::Fdecls
        } else if i == 2 {
            NonTerminal::Fdec
        } else if i == 3 {
            NonTerminal::Params
        } else if i == 4 {
            NonTerminal::Params2
        } else if i == 5 {
            NonTerminal::TypeVar
        } else if i == 6 {
            NonTerminal::Fname
        } else if i == 7 {
            NonTerminal::Declarations
        } else if i == 8 {
            NonTerminal::DeclarationsSeq
        } else if i == 9 {
            NonTerminal::Decl
        } else if i == 10 {
            NonTerminal::Type
        } else if i == 11 {
            NonTerminal::VarList
        } else if i == 12 {
            NonTerminal::VarList2
        } else if i == 13 {
            NonTerminal::StatementSeq
        } else if i == 14 {
            NonTerminal::StatementSeq2
        } else if i == 15 {
            NonTerminal::Statement
        } else if i == 16 {
            NonTerminal::If
        } else if i == 17 {
            NonTerminal::Else
        } else if i == 18 {
            NonTerminal::BuiltIn
        } else if i == 19 {
            NonTerminal::Bexpr
        } else if i == 20 {
            NonTerminal::Bexpr2
        } else if i == 21 {
            NonTerminal::Bterm
        } else if i == 22 {
            NonTerminal::Bterm2
        } else if i == 23 {
            NonTerminal::Bfactor
        } else if i == 24 {
            NonTerminal::Bfactor2
        } else if i == 25 {
            NonTerminal::Expr
        } else if i == 26 {
            NonTerminal::Expr2
        } else if i == 27 {
            NonTerminal::Term
        } else if i == 28 {
            NonTerminal::Term2
        } else if i == 29 {
            NonTerminal::NegFactor
        } else if i == 30 {
            NonTerminal::Factor
        } else if i == 31 {
            NonTerminal::Factor2
        } else if i == 32 {
            NonTerminal::ExprSeq
        } else if i == 33 {
            NonTerminal::ExprSeq2
        } else if i == 34 {
            NonTerminal::Comp
        } else if i == 35 {
            NonTerminal::Var
        } else if i == 36 {
            NonTerminal::Var2
        } else if i == 37 {
            NonTerminal::Id
        } else {
            NonTerminal::Number
        }
    }
}

} // verus!
