//! The terminals that can begin what a non-terminal derives, with the empty
//! word where it derives it.

use vstd::prelude::*;
use crate::non_terminals::{NonTerminal, NUM_NON_TERMINALS};
use crate::productions::{double_kind, identifier_kind, int_kind};
use crate::token::Token;

verus! {

/// A member of a FIRST set: a terminal or the empty word.
#[derive(Debug, PartialEq)]
pub enum FirstSetType {
    Terminal(Token),
    Epsilon,
}

/// A member of a FIRST set as a mathematical value: a terminal by its kind.
pub enum FirstItem {
    Terminal(nat),
    Epsilon,
}

impl View for FirstSetType {
    type V = FirstItem;

    open spec fn view(&self) -> FirstItem {
        match self {
            FirstSetType::Terminal(t) => FirstItem::Terminal(t.kind()),
            FirstSetType::Epsilon => FirstItem::Epsilon,
        }
    }
}

/// The FIRST set of a non-terminal.
#[derive(Debug, PartialEq)]
pub struct FirstSet {
    pub non_terminal: NonTerminal,
    pub first_set: Vec<FirstSetType>,
}

/// The members of a set as mathematical values.
pub open spec fn first_view(set: Seq<FirstSetType>) -> Seq<FirstItem> {
    Seq::new(set.len(), |i: int| set[i]@)
}

/// The FIRST set of the non-terminal `n`.
pub open spec fn first_of(n: NonTerminal) -> Seq<FirstItem> {
    match n {
        NonTerminal::Program => seq![
            FirstItem::Terminal(Token::Kdef.kind()),
            FirstItem::Terminal(Token::Speriod.kind()),
            FirstItem::Terminal(Token::Kint.kind()),
            FirstItem::Terminal(Token::Kdouble.kind()),
            FirstItem::Terminal(Token::Kwhile.kind()),
            FirstItem::Terminal(Token::Ssemicolon.kind()),
            FirstItem::Terminal(Token::Kif.kind()),
            FirstItem::Terminal(Token::Kprint.kind()),
            FirstItem::Terminal(Token::Kreturn.kind()),
            FirstItem::Terminal(identifier_kind()),
        ],
        NonTerminal::Fdecls => seq![
            FirstItem::Terminal(Token::Kdef.kind()),
            FirstItem::Epsilon,
        ],
        NonTerminal::Fdec => seq![
            FirstItem::Terminal(Token::Kdef.kind()),
        ],
        NonTerminal::Params => seq![
            FirstItem::Terminal(Token::Kint.kind()),
            FirstItem::Terminal(Token::Kdouble.kind()),
        ],
        NonTerminal::Params2 => seq![
            FirstItem::Terminal(Token::Scomma.kind()),
            FirstItem::Epsilon,
        ],
        NonTerminal::TypeVar => seq![
            FirstItem::Terminal(Token::Kint.kind()),
            FirstItem::Terminal(Token::Kdouble.kind()),
        ],
        NonTerminal::Fname => seq![
            FirstItem::Terminal(identifier_kind()),
        ],
        NonTerminal::Declarations => seq![
            FirstItem::Terminal(Token::Kint.kind()),
            FirstItem::Terminal(Token::Kdouble.kind()),
            FirstItem::Epsilon,
        ],
        NonTerminal::DeclarationsSeq => seq![
            FirstItem::Terminal(Token::Kint.kind()),
            FirstItem::Terminal(Token::Kdouble.kind()),
            FirstItem::Terminal(Token::Kwhile.kind()),
            FirstItem::Terminal(Token::Ssemicolon.kind()),
            FirstItem::Terminal(Token::Kif.kind()),
            FirstItem::Terminal(Token::Kprint.kind()),
            FirstItem::Terminal(Token::Kreturn.kind()),
            FirstItem::Terminal(identifier_kind()),
            FirstItem::Epsilon,
        ],
        NonTerminal::Decl => seq![
            FirstItem::Terminal(Token::Kint.kind()),
            FirstItem::Terminal(Token::Kdouble.kind()),
        ],
        NonTerminal::Type => seq![
            FirstItem::Terminal(Token::Kint.kind()),
            FirstItem::Terminal(Token::Kdouble.kind()),
        ],
        NonTerminal::VarList => seq![
            FirstItem::Terminal(identifier_kind()),
        ],
        NonTerminal::VarList2 => seq![
            FirstItem::Terminal(Token::Scomma.kind()),
            FirstItem::Epsilon,
        ],
        NonTerminal::StatementSeq => seq![
            FirstItem::Terminal(Token::Kwhile.kind()),
            FirstItem::Terminal(Token::Ssemicolon.kind()),
            FirstItem::Terminal(Token::Kif.kind()),
            FirstItem::Terminal(Token::Kprint.kind()),
            FirstItem::Terminal(Token::Kreturn.kind()),
            FirstItem::Terminal(identifier_kind()),
            FirstItem::Epsilon,
        ],
        NonTerminal::StatementSeq2 => seq![
            FirstItem::Terminal(Token::Ssemicolon.kind()),
            FirstItem::Epsilon,
        ],
        NonTerminal::Statement => seq![
            FirstItem::Terminal(Token::Kwhile.kind()),
            FirstItem::Terminal(Token::Kif.kind()),
            FirstItem::Terminal(Token::Kprint.kind()),
            FirstItem::Terminal(Token::Kreturn.kind()),
            FirstItem::Terminal(identifier_kind()),
            FirstItem::Epsilon,
        ],
        NonTerminal::If => seq![
            FirstItem::Terminal(Token::Kif.kind()),
        ],
        NonTerminal::Else => seq![
            FirstItem::Terminal(Token::Kelse.kind()),
            FirstItem::Epsilon,
        ],
        NonTerminal::BuiltIn => seq![
            FirstItem::Terminal(Token::Kprint.kind()),
            FirstItem::Terminal(Token::Kreturn.kind()),
        ],
        NonTerminal::Bexpr => seq![
            FirstItem::Terminal(Token::Knot.kind()),
            FirstItem::Terminal(Token::Ominus.kind()),
            FirstItem::Terminal(Token::Soparen.kind()),
            FirstItem::Terminal(identifier_kind()),
            FirstItem::Terminal(int_kind()),
            FirstItem::Terminal(double_kind()),
        ],
        NonTerminal::Bexpr2 => seq![
            FirstItem::Terminal(Token::Kor.kind()),
            FirstItem::Epsilon,
        ],
        NonTerminal::Bterm => seq![
            FirstItem::Terminal(Token::Knot.kind()),
            FirstItem::Terminal(Token::Ominus.kind()),
            FirstItem::Terminal(Token::Soparen.kind()),
            FirstItem::Terminal(identifier_kind()),
            FirstItem::Terminal(int_kind()),
            FirstItem::Terminal(double_kind()),
        ],
        NonTerminal::Bterm2 => seq![
            FirstItem::Terminal(Token::Kand.kind()),
            FirstItem::Epsilon,
        ],
        NonTerminal::Bfactor => seq![
            FirstItem::Terminal(Token::Knot.kind()),
            FirstItem::Terminal(Token::Ominus.kind()),
            FirstItem::Terminal(Token::Soparen.kind()),
            FirstItem::Terminal(identifier_kind()),
            FirstItem::Terminal(int_kind()),
            FirstItem::Terminal(double_kind()),
        ],
        NonTerminal::Bfactor2 => seq![
            FirstItem::Terminal(Token::Olt.kind()),
            FirstItem::Terminal(Token::Ogt.kind()),
            FirstItem::Terminal(Token::Oequal.kind()),
            FirstItem::Terminal(Token::Olte.kind()),
            FirstItem::Terminal(Token::Ogte.kind()),
            FirstItem::Terminal(Token::Onot.kind()),
            FirstItem::Epsilon,
        ],
        NonTerminal::Expr => seq![
            FirstItem::Terminal(Token::Ominus.kind()),
            FirstItem::Terminal(Token::Soparen.kind()),
            FirstItem::Terminal(identifier_kind()),
            FirstItem::Terminal(int_kind()),
            FirstItem::Terminal(double_kind()),
        ],
        NonTerminal::Expr2 => seq![
            FirstItem::Terminal(Token::Oplus.kind()),
            FirstItem::Terminal(Token::Ominus.kind()),
            FirstItem::Epsilon,
        ],
        NonTerminal::Term => seq![
            FirstItem::Terminal(Token::Ominus.kind()),
            FirstItem::Terminal(Token::Soparen.kind()),
            FirstItem::Terminal(identifier_kind()),
            FirstItem::Terminal(int_kind()),
            FirstItem::Terminal(double_kind()),
        ],
        NonTerminal::Term2 => seq![
            FirstItem::Terminal(Token::Omultiply.kind()),
            FirstItem::Terminal(Token::Odivide.kind()),
            FirstItem::Terminal(Token::Omod.kind()),
            FirstItem::Epsilon,
        ],
        NonTerminal::NegFactor => seq![
            FirstItem::Terminal(Token::Ominus.kind()),
            FirstItem::Terminal(Token::Soparen.kind()),
            FirstItem::Terminal(identifier_kind()),
            FirstItem::Terminal(int_kind()),
            FirstItem::Terminal(double_kind()),
        ],
        NonTerminal::Factor => seq![
            FirstItem::Terminal(Token::Soparen.kind()),
            FirstItem::Terminal(identifier_kind()),
            FirstItem::Terminal(int_kind()),
            FirstItem::Terminal(double_kind()),
        ],
        NonTerminal::Factor2 => seq![
            FirstItem::Terminal(Token::Soparen.kind()),
            FirstItem::Terminal(Token::Sobracket.kind()),
            FirstItem::Epsilon,
        ],
        NonTerminal::ExprSeq => seq![
            FirstItem::Terminal(Token::Knot.kind()),
            FirstItem::Terminal(Token::Ominus.kind()),
            FirstItem::Terminal(Token::Soparen.kind()),
            FirstItem::Terminal(identifier_kind()),
            FirstItem::Terminal(int_kind()),
            FirstItem::Terminal(double_kind()),
            FirstItem::Epsilon,
        ],
        NonTerminal::ExprSeq2 => seq![
            FirstItem::Terminal(Token::Scomma.kind()),
            FirstItem::Epsilon,
        ],
        NonTerminal::Comp => seq![
            FirstItem::Terminal(Token::Olt.kind()),
            FirstItem::Terminal(Token::Ogt.kind()),
            FirstItem::Terminal(Token::Oequal.kind()),
            FirstItem::Terminal(Token::Olte.kind()),
            FirstItem::Terminal(Token::Ogte.kind()),
            FirstItem::Terminal(Token::Onot.kind()),
        ],
        NonTerminal::Var => seq![
            FirstItem::Terminal(identifier_kind()),
        ],
        NonTerminal::Var2 => seq![
            FirstItem::Terminal(Token::Sobracket.kind()),
            FirstItem::Epsilon,
        ],
        NonTerminal::Id => seq![
            FirstItem::Terminal(identifier_kind()),
        ],
        NonTerminal::Number => seq![
            FirstItem::Terminal(int_kind()),
            FirstItem::Terminal(double_kind()),
        ],
    }
}

/// The FIRST set of the non-terminal `n`.
pub fn first_set_of(n: NonTerminal) -> (set: Vec<FirstSetType>)
    ensures
        first_view(set@) == first_of(n),
{
    let set = match n {
        NonTerminal::Program => vec![
            FirstSetType::Terminal(Token::Kdef),
            FirstSetType::Terminal(Token::Speriod),
            FirstSetType::Terminal(Token::Kint),
            FirstSetType::Terminal(Token::Kdouble),
            FirstSetType::Terminal(Token::Kwhile),
            FirstSetType::Terminal(Token::Ssemicolon),
            FirstSetType::Terminal(Token::Kif),
            FirstSetType::Terminal(Token::Kprint),
            FirstSetType::Terminal(Token::Kreturn),
            FirstSetType::Terminal(Token::Identifier(String::new())),
        ],
        NonTerminal::Fdecls => vec![
            FirstSetType::Terminal(Token::Kdef),
            FirstSetType::Epsilon,
        ],
        NonTerminal::Fdec => vec![
            FirstSetType::Terminal(Token::Kdef),
        ],
        NonTerminal::Params => vec![
            FirstSetType::Terminal(Token::Kint),
            FirstSetType::Terminal(Token::Kdouble),
        ],
        NonTerminal::Params2 => vec![
            FirstSetType::Terminal(Token::Scomma),
            FirstSetType::Epsilon,
        ],
        NonTerminal::TypeVar => vec![
            FirstSetType::Terminal(Token::Kint),
            FirstSetType::Terminal(Token::Kdouble),
        ],
        NonTerminal::Fname => vec![
            FirstSetType::Terminal(Token::Identifier(String::new())),
        ],
        NonTerminal::Declarations => vec![
            FirstSetType::Terminal(Token::Kint),
            FirstSetType::Terminal(Token::Kdouble),
            FirstSetType::Epsilon,
        ],
        NonTerminal::DeclarationsSeq => vec![
            FirstSetType::Terminal(Token::Kint),
            FirstSetType::Terminal(Token::Kdouble),
            FirstSetType::Terminal(Token::Kwhile),
            FirstSetType::Terminal(Token::Ssemicolon),
            FirstSetType::Terminal(Token::Kif),
            FirstSetType::Terminal(Token::Kprint),
            FirstSetType::Terminal(Token::Kreturn),
            FirstSetType::Terminal(Token::Identifier(String::new())),
            FirstSetType::Epsilon,
        ],
        NonTerminal::Decl => vec![
            FirstSetType::Terminal(Token::Kint),
            FirstSetType::Terminal(Token::Kdouble),
        ],
        NonTerminal::Type => vec![
            FirstSetType::Terminal(Token::Kint),
            FirstSetType::Terminal(Token::Kdouble),
        ],
        NonTerminal::VarList => vec![
            FirstSetType::Terminal(Token::Identifier(String::new())),
        ],
        NonTerminal::VarList2 => vec![
            FirstSetType::Terminal(Token::Scomma),
            FirstSetType::Epsilon,
        ],
        NonTerminal::StatementSeq => vec![
            FirstSetType::Terminal(Token::Kwhile),
            FirstSetType::Terminal(Token::Ssemicolon),
            FirstSetType::Terminal(Token::Kif),
            FirstSetType::Terminal(Token::Kprint),
            FirstSetType::Terminal(Token::Kreturn),
            FirstSetType::Terminal(Token::Identifier(String::new())),
            FirstSetType::Epsilon,
        ],
        NonTerminal::StatementSeq2 => vec![
            FirstSetType::Terminal(Token::Ssemicolon),
            FirstSetType::Epsilon,
        ],
        NonTerminal::Statement => vec![
            FirstSetType::Terminal(Token::Kwhile),
            FirstSetType::Terminal(Token::Kif),
            FirstSetType::Terminal(Token::Kprint),
            FirstSetType::Terminal(Token::Kreturn),
            FirstSetType::Terminal(Token::Identifier(String::new())),
            FirstSetType::Epsilon,
        ],
        NonTerminal::If => vec![
            FirstSetType::Terminal(Token::Kif),
        ],
        NonTerminal::Else => vec![
            FirstSetType::Terminal(Token::Kelse),
            FirstSetType::Epsilon,
        ],
        NonTerminal::BuiltIn => vec![
            FirstSetType::Terminal(Token::Kprint),
            FirstSetType::Terminal(Token::Kreturn),
        ],
        NonTerminal::Bexpr => vec![
            FirstSetType::Terminal(Token::Knot),
            FirstSetType::Terminal(Token::Ominus),
            FirstSetType::Terminal(Token::Soparen),
            FirstSetType::Terminal(Token::Identifier(String::new())),
            FirstSetType::Terminal(Token::Tint(0)),
            FirstSetType::Terminal(Token::Tdouble(String::new())),
        ],
        NonTerminal::Bexpr2 => vec![
            FirstSetType::Terminal(Token::Kor),
            FirstSetType::Epsilon,
        ],
        NonTerminal::Bterm => vec![
            FirstSetType::Terminal(Token::Knot),
            FirstSetType::Terminal(Token::Ominus),
            FirstSetType::Terminal(Token::Soparen),
            FirstSetType::Terminal(Token::Identifier(String::new())),
            FirstSetType::Terminal(Token::Tint(0)),
            FirstSetType::Terminal(Token::Tdouble(String::new())),
        ],
        NonTerminal::Bterm2 => vec![
            FirstSetType::Terminal(Token::Kand),
            FirstSetType::Epsilon,
        ],
        NonTerminal::Bfactor => vec![
            FirstSetType::Terminal(Token::Knot),
            FirstSetType::Terminal(Token::Ominus),
            FirstSetType::Terminal(Token::Soparen),
            FirstSetType::Terminal(Token::Identifier(String::new())),
            FirstSetType::Terminal(Token::Tint(0)),
            FirstSetType::Terminal(Token::Tdouble(String::new())),
        ],
        NonTerminal::Bfactor2 => vec![
            FirstSetType::Terminal(Token::Olt),
            FirstSetType::Terminal(Token::Ogt),
            FirstSetType::Terminal(Token::Oequal),
            FirstSetType::Terminal(Token::Olte),
            FirstSetType::Terminal(Token::Ogte),
            FirstSetType::Terminal(Token::Onot),
            FirstSetType::Epsilon,
        ],
        NonTerminal::Expr => vec![
            FirstSetType::Terminal(Token::Ominus),
            FirstSetType::Terminal(Token::Soparen),
            FirstSetType::Terminal(Token::Identifier(String::new())),
            FirstSetType::Terminal(Token::Tint(0)),
            FirstSetType::Terminal(Token::Tdouble(String::new())),
        ],
        NonTerminal::Expr2 => vec![
            FirstSetType::Terminal(Token::Oplus),
            FirstSetType::Terminal(Token::Ominus),
            FirstSetType::Epsilon,
        ],
        NonTerminal::Term => vec![
            FirstSetType::Terminal(Token::Ominus),
            FirstSetType::Terminal(Token::Soparen),
            FirstSetType::Terminal(Token::Identifier(String::new())),
            FirstSetType::Terminal(Token::Tint(0)),
            FirstSetType::Terminal(Token::Tdouble(String::new())),
        ],
        NonTerminal::Term2 => vec![
            FirstSetType::Terminal(Token::Omultiply),
            FirstSetType::Terminal(Token::Odivide),
            FirstSetType::Terminal(Token::Omod),
            FirstSetType::Epsilon,
        ],
        NonTerminal::NegFactor => vec![
            FirstSetType::Terminal(Token::Ominus),
            FirstSetType::Terminal(Token::Soparen),
            FirstSetType::Terminal(Token::Identifier(String::new())),
            FirstSetType::Terminal(Token::Tint(0)),
            FirstSetType::Terminal(Token::Tdouble(String::new())),
        ],
        NonTerminal::Factor => vec![
            FirstSetType::Terminal(Token::Soparen),
            FirstSetType::Terminal(Token::Identifier(String::new())),
            FirstSetType::Terminal(Token::Tint(0)),
            FirstSetType::Terminal(Token::Tdouble(String::new())),
        ],
        NonTerminal::Factor2 => vec![
            FirstSetType::Terminal(Token::Soparen),
            FirstSetType::Terminal(Token::Sobracket),
            FirstSetType::Epsilon,
        ],
        NonTerminal::ExprSeq => vec![
            FirstSetType::Terminal(Token::Knot),
            FirstSetType::Terminal(Token::Ominus),
            FirstSetType::Terminal(Token::Soparen),
            FirstSetType::Terminal(Token::Identifier(String::new())),
            FirstSetType::Terminal(Token::Tint(0)),
            FirstSetType::Terminal(Token::Tdouble(String::new())),
            FirstSetType::Epsilon,
        ],
        NonTerminal::ExprSeq2 => vec![
            FirstSetType::Terminal(Token::Scomma),
            FirstSetType::Epsilon,
        ],
        NonTerminal::Comp => vec![
            FirstSetType::Terminal(Token::Olt),
            FirstSetType::Terminal(Token::Ogt),
            FirstSetType::Terminal(Token::Oequal),
            FirstSetType::Terminal(Token::Olte),
            FirstSetType::Terminal(Token::Ogte),
            FirstSetType::Terminal(Token::Onot),
        ],
        NonTerminal::Var => vec![
            FirstSetType::Terminal(Token::Identifier(String::new())),
        ],
        NonTerminal::Var2 => vec![
            FirstSetType::Terminal(Token::Sobracket),
            FirstSetType::Epsilon,
        ],
        NonTerminal::Id => vec![
            FirstSetType::Terminal(Token::Identifier(String::new())),
        ],
        NonTerminal::Number => vec![
            FirstSetType::Terminal(Token::Tint(0)),
            FirstSetType::Terminal(Token::Tdouble(String::new())),
        ],
    };
    assert(first_view(set@) =~= first_of(n));
    set
}

/// The FIRST sets of all non-terminals, each at the place of its
/// non-terminal's ordinal.
pub fn get_constant_first_sets() -> (sets: Vec<FirstSet>)
    ensures
        sets@.len() == NUM_NON_TERMINALS,
        forall|i: int|
            0 <= i < sets@.len() ==> (#[trigger] sets@[i]).non_terminal.index() == i && first_view(
                sets@[i].first_set@,
            ) == first_of(sets@[i].non_terminal),
{
    let mut sets: Vec<FirstSet> = Vec::new();
    let mut i: usize = 0;
    while i < NUM_NON_TERMINALS
        invariant
            0 <= i <= NUM_NON_TERMINALS,
            sets@.len() == i,
            forall|j: int|
                0 <= j < sets@.len() ==> (#[trigger] sets@[j]).non_terminal.index() == j
                    && first_view(sets@[j].first_set@) == first_of(sets@[j].non_terminal),
        decreases NUM_NON_TERMINALS - i,
    {
        let non_terminal = NonTerminal::from_index(i);
        sets.push(FirstSet { non_terminal, first_set: first_set_of(non_terminal) });
        i += 1;
    }
    sets
}

} // verus!
