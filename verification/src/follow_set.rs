//! The terminals that can follow what a non-terminal derives, with the end of
//! input where it can end the input.

use vstd::prelude::*;
use crate::non_terminals::{NonTerminal, NUM_NON_TERMINALS};
use crate::productions::{double_kind, identifier_kind, int_kind};
use crate::token::Token;

verus! {

/// A member of a FOLLOW set: a terminal or the end of input.
#[derive(Debug, PartialEq)]
pub enum FollowSetType {
    Terminal(Token),
    EndOfInput,
}

/// A member of a FOLLOW set as a mathematical value: a terminal by its kind.
pub enum FollowItem {
    Terminal(nat),
    EndOfInput,
}

impl View for FollowSetType {
    type V = FollowItem;

    open spec fn view(&self) -> FollowItem {
        match self {
            FollowSetType::Terminal(t) => FollowItem::Terminal(t.kind()),
            FollowSetType::EndOfInput => FollowItem::EndOfInput,
        }
    }
}

/// The FOLLOW set of a non-terminal.
#[derive(Debug, PartialEq)]
pub struct FollowSet {
    pub non_terminal: NonTerminal,
    pub follow_set: Vec<FollowSetType>,
}

/// The members of a set as mathematical values.
pub open spec fn follow_view(set: Seq<FollowSetType>) -> Seq<FollowItem> {
    Seq::new(set.len(), |i: int| set[i]@)
}

/// The FOLLOW set of the non-terminal `n`.
pub open spec fn follow_of(n: NonTerminal) -> Seq<FollowItem> {
    match n {
        NonTerminal::Program => seq![
            FollowItem::EndOfInput,
        ],
        NonTerminal::Fdecls => seq![
            FollowItem::Terminal(Token::Kint.kind()),
            FollowItem::Terminal(Token::Kdouble.kind()),
            FollowItem::Terminal(identifier_kind()),
            FollowItem::Terminal(Token::Kif.kind()),
            FollowItem::Terminal(Token::Kwhile.kind()),
            FollowItem::Terminal(Token::Kprint.kind()),
            FollowItem::Terminal(Token::Kreturn.kind()),
            FollowItem::Terminal(Token::Ssemicolon.kind()),
            FollowItem::Terminal(Token::Speriod.kind()),
        ],
        NonTerminal::Fdec => seq![
            FollowItem::Terminal(Token::Ssemicolon.kind()),
        ],
        NonTerminal::Params => seq![
            FollowItem::Terminal(Token::Scparen.kind()),
        ],
        NonTerminal::Params2 => seq![
            FollowItem::Terminal(Token::Scparen.kind()),
        ],
        NonTerminal::TypeVar => seq![
            FollowItem::Terminal(Token::Scparen.kind()),
            FollowItem::Terminal(Token::Scomma.kind()),
        ],
        NonTerminal::Fname => seq![
            FollowItem::Terminal(Token::Soparen.kind()),
        ],
        NonTerminal::Declarations => seq![
            FollowItem::Terminal(identifier_kind()),
            FollowItem::Terminal(Token::Kif.kind()),
            FollowItem::Terminal(Token::Kwhile.kind()),
            FollowItem::Terminal(Token::Kprint.kind()),
            FollowItem::Terminal(Token::Kreturn.kind()),
            FollowItem::Terminal(Token::Ssemicolon.kind()),
            FollowItem::Terminal(Token::Speriod.kind()),
            FollowItem::Terminal(Token::Kfed.kind()),
        ],
        NonTerminal::DeclarationsSeq => seq![
            FollowItem::Terminal(Token::Speriod.kind()),
            FollowItem::Terminal(Token::Kfed.kind()),
        ],
        NonTerminal::Decl => seq![
            FollowItem::Terminal(Token::Ssemicolon.kind()),
        ],
        NonTerminal::Type => seq![
            FollowItem::Terminal(identifier_kind()),
        ],
        NonTerminal::VarList => seq![
            FollowItem::Terminal(Token::Ssemicolon.kind()),
        ],
        NonTerminal::VarList2 => seq![
            FollowItem::Terminal(Token::Ssemicolon.kind()),
        ],
        NonTerminal::StatementSeq => seq![
            FollowItem::Terminal(Token::Speriod.kind()),
            FollowItem::Terminal(Token::Kfed.kind()),
            FollowItem::Terminal(Token::Kod.kind()),
            FollowItem::Terminal(Token::Kelse.kind()),
            FollowItem::Terminal(Token::Kfi.kind()),
        ],
        NonTerminal::StatementSeq2 => seq![
            FollowItem::Terminal(Token::Speriod.kind()),
            FollowItem::Terminal(Token::Kfed.kind()),
            FollowItem::Terminal(Token::Kod.kind()),
            FollowItem::Terminal(Token::Kelse.kind()),
            FollowItem::Terminal(Token::Kfi.kind()),
        ],
        NonTerminal::Statement => seq![
            FollowItem::Terminal(Token::Speriod.kind()),
            FollowItem::Terminal(Token::Kfed.kind()),
            FollowItem::Terminal(Token::Kod.kind()),
            FollowItem::Terminal(Token::Kelse.kind()),
            FollowItem::Terminal(Token::Kfi.kind()),
            FollowItem::Terminal(Token::Ssemicolon.kind()),
        ],
        NonTerminal::If => seq![
            FollowItem::Terminal(Token::Speriod.kind()),
            FollowItem::Terminal(Token::Kfed.kind()),
            FollowItem::Terminal(Token::Kod.kind()),
            FollowItem::Terminal(Token::Kelse.kind()),
            FollowItem::Terminal(Token::Kfi.kind()),
            FollowItem::Terminal(Token::Ssemicolon.kind()),
        ],
        NonTerminal::Else => seq![
            FollowItem::Terminal(Token::Kfi.kind()),
        ],
        NonTerminal::BuiltIn => seq![
            FollowItem::Terminal(identifier_kind()),
            FollowItem::Terminal(int_kind()),
            FollowItem::Terminal(double_kind()),
            FollowItem::Terminal(Token::Soparen.kind()),
            FollowItem::Terminal(Token::Knot.kind()),
        ],
        NonTerminal::Bexpr => seq![
            FollowItem::Terminal(Token::Speriod.kind()),
            FollowItem::Terminal(Token::Kfed.kind()),
            FollowItem::Terminal(Token::Kod.kind()),
            FollowItem::Terminal(Token::Kelse.kind()),
            FollowItem::Terminal(Token::Kfi.kind()),
            FollowItem::Terminal(Token::Ssemicolon.kind()),
            FollowItem::Terminal(Token::Kdo.kind()),
            FollowItem::Terminal(Token::Kthen.kind()),
            FollowItem::Terminal(Token::Scparen.kind()),
            FollowItem::Terminal(Token::Scomma.kind()),
            FollowItem::Terminal(Token::Scbracket.kind()),
        ],
        NonTerminal::Bexpr2 => seq![
            FollowItem::Terminal(Token::Speriod.kind()),
            FollowItem::Terminal(Token::Kfed.kind()),
            FollowItem::Terminal(Token::Kod.kind()),
            FollowItem::Terminal(Token::Kelse.kind()),
            FollowItem::Terminal(Token::Kfi.kind()),
            FollowItem::Terminal(Token::Ssemicolon.kind()),
            FollowItem::Terminal(Token::Kdo.kind()),
            FollowItem::Terminal(Token::Kthen.kind()),
            FollowItem::Terminal(Token::Scparen.kind()),
            FollowItem::Terminal(Token::Scomma.kind()),
            FollowItem::Terminal(Token::Scbracket.kind()),
        ],
        NonTerminal::Bterm => seq![
            FollowItem::Terminal(Token::Kor.kind()),
            FollowItem::Terminal(Token::Speriod.kind()),
            FollowItem::Terminal(Token::Kfed.kind()),
            FollowItem::Terminal(Token::Kod.kind()),
            FollowItem::Terminal(Token::Kelse.kind()),
            FollowItem::Terminal(Token::Kfi.kind()),
            FollowItem::Terminal(Token::Ssemicolon.kind()),
            FollowItem::Terminal(Token::Kdo.kind()),
            FollowItem::Terminal(Token::Kthen.kind()),
            FollowItem::Terminal(Token::Scparen.kind()),
            FollowItem::Terminal(Token::Scomma.kind()),
            FollowItem::Terminal(Token::Scbracket.kind()),
        ],
        NonTerminal::Bterm2 => seq![
            FollowItem::Terminal(Token::Kor.kind()),
            FollowItem::Terminal(Token::Speriod.kind()),
            FollowItem::Terminal(Token::Kfed.kind()),
            FollowItem::Terminal(Token::Kod.kind()),
            FollowItem::Terminal(Token::Kelse.kind()),
            FollowItem::Terminal(Token::Kfi.kind()),
            FollowItem::Terminal(Token::Ssemicolon.kind()),
            FollowItem::Terminal(Token::Kdo.kind()),
            FollowItem::Terminal(Token::Kthen.kind()),
            FollowItem::Terminal(Token::Scparen.kind()),
            FollowItem::Terminal(Token::Scomma.kind()),
            FollowItem::Terminal(Token::Scbracket.kind()),
        ],
        NonTerminal::Bfactor => seq![
            FollowItem::Terminal(Token::Kand.kind()),
            FollowItem::Terminal(Token::Kor.kind()),
            FollowItem::Terminal(Token::Speriod.kind()),
            FollowItem::Terminal(Token::Kfed.kind()),
            FollowItem::Terminal(Token::Kod.kind()),
            FollowItem::Terminal(Token::Kelse.kind()),
            FollowItem::Terminal(Token::Kfi.kind()),
            FollowItem::Terminal(Token::Ssemicolon.kind()),
            FollowItem::Terminal(Token::Kdo.kind()),
            FollowItem::Terminal(Token::Kthen.kind()),
            FollowItem::Terminal(Token::Scparen.kind()),
            FollowItem::Terminal(Token::Scomma.kind()),
            FollowItem::Terminal(Token::Scbracket.kind()),
        ],
        NonTerminal::Bfactor2 => seq![
            FollowItem::Terminal(Token::Kand.kind()),
            FollowItem::Terminal(Token::Kor.kind()),
            FollowItem::Terminal(Token::Speriod.kind()),
            FollowItem::Terminal(Token::Kfed.kind()),
            FollowItem::Terminal(Token::Kod.kind()),
            FollowItem::Terminal(Token::Kelse.kind()),
            FollowItem::Terminal(Token::Kfi.kind()),
            FollowItem::Terminal(Token::Ssemicolon.kind()),
            FollowItem::Terminal(Token::Kdo.kind()),
            FollowItem::Terminal(Token::Kthen.kind()),
            FollowItem::Terminal(Token::Scparen.kind()),
            FollowItem::Terminal(Token::Scomma.kind()),
            FollowItem::Terminal(Token::Scbracket.kind()),
        ],
        NonTerminal::Expr => seq![
            FollowItem::Terminal(Token::Oequal.kind()),
            FollowItem::Terminal(Token::Olt.kind()),
            FollowItem::Terminal(Token::Ogt.kind()),
            FollowItem::Terminal(Token::Olte.kind()),
            FollowItem::Terminal(Token::Ogte.kind()),
            FollowItem::Terminal(Token::Onot.kind()),
            FollowItem::Terminal(Token::Kand.kind()),
            FollowItem::Terminal(Token::Kor.kind()),
            FollowItem::Terminal(Token::Speriod.kind()),
            FollowItem::Terminal(Token::Kfed.kind()),
            FollowItem::Terminal(Token::Kod.kind()),
            FollowItem::Terminal(Token::Kelse.kind()),
            FollowItem::Terminal(Token::Kfi.kind()),
            FollowItem::Terminal(Token::Ssemicolon.kind()),
            FollowItem::Terminal(Token::Kdo.kind()),
            FollowItem::Terminal(Token::Kthen.kind()),
            FollowItem::Terminal(Token::Scparen.kind()),
            FollowItem::Terminal(Token::Scomma.kind()),
            FollowItem::Terminal(Token::Scbracket.kind()),
        ],
        NonTerminal::Expr2 => seq![
            FollowItem::Terminal(Token::Oequal.kind()),
            FollowItem::Terminal(Token::Olt.kind()),
            FollowItem::Terminal(Token::Ogt.kind()),
            FollowItem::Terminal(Token::Olte.kind()),
            FollowItem::Terminal(Token::Ogte.kind()),
            FollowItem::Terminal(Token::Onot.kind()),
            FollowItem::Terminal(Token::Kand.kind()),
            FollowItem::Terminal(Token::Kor.kind()),
            FollowItem::Terminal(Token::Speriod.kind()),
            FollowItem::Terminal(Token::Kfed.kind()),
            FollowItem::Terminal(Token::Kod.kind()),
            FollowItem::Terminal(Token::Kelse.kind()),
            FollowItem::Terminal(Token::Kfi.kind()),
            FollowItem::Terminal(Token::Ssemicolon.kind()),
            FollowItem::Terminal(Token::Kdo.kind()),
            FollowItem::Terminal(Token::Kthen.kind()),
            FollowItem::Terminal(Token::Scparen.kind()),
            FollowItem::Terminal(Token::Scomma.kind()),
            FollowItem::Terminal(Token::Scbracket.kind()),
        ],
        NonTerminal::Term => seq![
            FollowItem::Terminal(Token::Oplus.kind()),
            FollowItem::Terminal(Token::Ominus.kind()),
            FollowItem::Terminal(Token::Oequal.kind()),
            FollowItem::Terminal(Token::Olt.kind()),
            FollowItem::Terminal(Token::Ogt.kind()),
            FollowItem::Terminal(Token::Olte.kind()),
            FollowItem::Terminal(Token::Ogte.kind()),
            FollowItem::Terminal(Token::Onot.kind()),
            FollowItem::Terminal(Token::Kand.kind()),
            FollowItem::Terminal(Token::Kor.kind()),
            FollowItem::Terminal(Token::Speriod.kind()),
            FollowItem::Terminal(Token::Kfed.kind()),
            FollowItem::Terminal(Token::Kod.kind()),
            FollowItem::Terminal(Token::Kelse.kind()),
            FollowItem::Terminal(Token::Kfi.kind()),
            FollowItem::Terminal(Token::Ssemicolon.kind()),
            FollowItem::Terminal(Token::Kdo.kind()),
            FollowItem::Terminal(Token::Kthen.kind()),
            FollowItem::Terminal(Token::Scparen.kind()),
            FollowItem::Terminal(Token::Scomma.kind()),
            FollowItem::Terminal(Token::Scbracket.kind()),
        ],
        NonTerminal::Term2 => seq![
            FollowItem::Terminal(Token::Oplus.kind()),
            FollowItem::Terminal(Token::Ominus.kind()),
            FollowItem::Terminal(Token::Oequal.kind()),
            FollowItem::Terminal(Token::Olt.kind()),
            FollowItem::Terminal(Token::Ogt.kind()),
            FollowItem::Terminal(Token::Olte.kind()),
            FollowItem::Terminal(Token::Ogte.kind()),
            FollowItem::Terminal(Token::Onot.kind()),
            FollowItem::Terminal(Token::Kand.kind()),
            FollowItem::Terminal(Token::Kor.kind()),
            FollowItem::Terminal(Token::Speriod.kind()),
            FollowItem::Terminal(Token::Kfed.kind()),
            FollowItem::Terminal(Token::Kod.kind()),
            FollowItem::Terminal(Token::Kelse.kind()),
            FollowItem::Terminal(Token::Kfi.kind()),
            FollowItem::Terminal(Token::Ssemicolon.kind()),
            FollowItem::Terminal(Token::Kdo.kind()),
            FollowItem::Terminal(Token::Kthen.kind()),
            FollowItem::Terminal(Token::Scparen.kind()),
            FollowItem::Terminal(Token::Scomma.kind()),
            FollowItem::Terminal(Token::Scbracket.kind()),
        ],
        NonTerminal::NegFactor => seq![
            FollowItem::Terminal(Token::Omultiply.kind()),
            FollowItem::Terminal(Token::Odivide.kind()),
            FollowItem::Terminal(Token::Omod.kind()),
            FollowItem::Terminal(Token::Oplus.kind()),
            FollowItem::Terminal(Token::Ominus.kind()),
            FollowItem::Terminal(Token::Oequal.kind()),
            FollowItem::Terminal(Token::Olt.kind()),
            FollowItem::Terminal(Token::Ogt.kind()),
            FollowItem::Terminal(Token::Olte.kind()),
            FollowItem::Terminal(Token::Ogte.kind()),
            FollowItem::Terminal(Token::Onot.kind()),
            FollowItem::Terminal(Token::Kand.kind()),
            FollowItem::Terminal(Token::Kor.kind()),
            FollowItem::Terminal(Token::Speriod.kind()),
            FollowItem::Terminal(Token::Kfed.kind()),
            FollowItem::Terminal(Token::Kod.kind()),
            FollowItem::Terminal(Token::Kelse.kind()),
            FollowItem::Terminal(Token::Kfi.kind()),
            FollowItem::Terminal(Token::Ssemicolon.kind()),
            FollowItem::Terminal(Token::Kdo.kind()),
            FollowItem::Terminal(Token::Kthen.kind()),
            FollowItem::Terminal(Token::Scparen.kind()),
            FollowItem::Terminal(Token::Scomma.kind()),
            FollowItem::Terminal(Token::Scbracket.kind()),
        ],
        NonTerminal::Factor => seq![
            FollowItem::Terminal(Token::Omultiply.kind()),
            FollowItem::Terminal(Token::Odivide.kind()),
            FollowItem::Terminal(Token::Omod.kind()),
            FollowItem::Terminal(Token::Oplus.kind()),
            FollowItem::Terminal(Token::Ominus.kind()),
            FollowItem::Terminal(Token::Oequal.kind()),
            FollowItem::Terminal(Token::Olt.kind()),
            FollowItem::Terminal(Token::Ogt.kind()),
            FollowItem::Terminal(Token::Olte.kind()),
            FollowItem::Terminal(Token::Ogte.kind()),
            FollowItem::Terminal(Token::Onot.kind()),
            FollowItem::Terminal(Token::Kand.kind()),
            FollowItem::Terminal(Token::Kor.kind()),
            FollowItem::Terminal(Token::Speriod.kind()),
            FollowItem::Terminal(Token::Kfed.kind()),
            FollowItem::Terminal(Token::Kod.kind()),
            FollowItem::Terminal(Token::Kelse.kind()),
            FollowItem::Terminal(Token::Kfi.kind()),
            FollowItem::Terminal(Token::Ssemicolon.kind()),
            FollowItem::Terminal(Token::Kdo.kind()),
            FollowItem::Terminal(Token::Kthen.kind()),
            FollowItem::Terminal(Token::Scparen.kind()),
            FollowItem::Terminal(Token::Scomma.kind()),
            FollowItem::Terminal(Token::Scbracket.kind()),
        ],
        NonTerminal::Factor2 => seq![
            FollowItem::Terminal(Token::Omultiply.kind()),
            FollowItem::Terminal(Token::Odivide.kind()),
            FollowItem::Terminal(Token::Omod.kind()),
            FollowItem::Terminal(Token::Oplus.kind()),
            FollowItem::Terminal(Token::Ominus.kind()),
            FollowItem::Terminal(Token::Oequal.kind()),
            FollowItem::Terminal(Token::Olt.kind()),
            FollowItem::Terminal(Token::Ogt.kind()),
            FollowItem::Terminal(Token::Olte.kind()),
            FollowItem::Terminal(Token::Ogte.kind()),
            FollowItem::Terminal(Token::Onot.kind()),
            FollowItem::Terminal(Token::Kand.kind()),
            FollowItem::Terminal(Token::Kor.kind()),
            FollowItem::Terminal(Token::Speriod.kind()),
            FollowItem::Terminal(Token::Kfed.kind()),
            FollowItem::Terminal(Token::Kod.kind()),
            FollowItem::Terminal(Token::Kelse.kind()),
            FollowItem::Terminal(Token::Kfi.kind()),
            FollowItem::Terminal(Token::Ssemicolon.kind()),
            FollowItem::Terminal(Token::Kdo.kind()),
            FollowItem::Terminal(Token::Kthen.kind()),
            FollowItem::Terminal(Token::Scparen.kind()),
            FollowItem::Terminal(Token::Scomma.kind()),
            FollowItem::Terminal(Token::Scbracket.kind()),
        ],
        NonTerminal::ExprSeq => seq![
            FollowItem::Terminal(Token::Scparen.kind()),
        ],
        NonTerminal::ExprSeq2 => seq![
            FollowItem::Terminal(Token::Scparen.kind()),
        ],
        NonTerminal::Comp => seq![
            FollowItem::Terminal(identifier_kind()),
            FollowItem::Terminal(int_kind()),
            FollowItem::Terminal(double_kind()),
            FollowItem::Terminal(Token::Soparen.kind()),
        ],
        NonTerminal::Var => seq![
            FollowItem::Terminal(Token::Scparen.kind()),
            FollowItem::Terminal(Token::Scomma.kind()),
            FollowItem::Terminal(Token::Ssemicolon.kind()),
            FollowItem::Terminal(Token::Oassign.kind()),
        ],
        NonTerminal::Var2 => seq![
            FollowItem::Terminal(Token::Oassign.kind()),
            FollowItem::Terminal(Token::Omultiply.kind()),
            FollowItem::Terminal(Token::Odivide.kind()),
            FollowItem::Terminal(Token::Omod.kind()),
            FollowItem::Terminal(Token::Oplus.kind()),
            FollowItem::Terminal(Token::Ominus.kind()),
            FollowItem::Terminal(Token::Oequal.kind()),
            FollowItem::Terminal(Token::Olt.kind()),
            FollowItem::Terminal(Token::Ogt.kind()),
            FollowItem::Terminal(Token::Olte.kind()),
            FollowItem::Terminal(Token::Ogte.kind()),
            FollowItem::Terminal(Token::Onot.kind()),
            FollowItem::Terminal(Token::Kand.kind()),
            FollowItem::Terminal(Token::Kor.kind()),
            FollowItem::Terminal(Token::Speriod.kind()),
            FollowItem::Terminal(Token::Kfed.kind()),
            FollowItem::Terminal(Token::Kod.kind()),
            FollowItem::Terminal(Token::Kelse.kind()),
            FollowItem::Terminal(Token::Kfi.kind()),
            FollowItem::Terminal(Token::Ssemicolon.kind()),
            FollowItem::Terminal(Token::Kdo.kind()),
            FollowItem::Terminal(Token::Kthen.kind()),
            FollowItem::Terminal(Token::Scparen.kind()),
            FollowItem::Terminal(Token::Scomma.kind()),
            FollowItem::Terminal(Token::Scbracket.kind()),
        ],
        NonTerminal::Id => seq![
            FollowItem::Terminal(Token::Oassign.kind()),
            FollowItem::Terminal(Token::Soparen.kind()),
            FollowItem::Terminal(Token::Sobracket.kind()),
            FollowItem::Terminal(Token::Omultiply.kind()),
            FollowItem::Terminal(Token::Odivide.kind()),
            FollowItem::Terminal(Token::Omod.kind()),
            FollowItem::Terminal(Token::Oplus.kind()),
            FollowItem::Terminal(Token::Ominus.kind()),
            FollowItem::Terminal(Token::Oequal.kind()),
            FollowItem::Terminal(Token::Olt.kind()),
            FollowItem::Terminal(Token::Ogt.kind()),
            FollowItem::Terminal(Token::Olte.kind()),
            FollowItem::Terminal(Token::Ogte.kind()),
            FollowItem::Terminal(Token::Onot.kind()),
            FollowItem::Terminal(Token::Kand.kind()),
            FollowItem::Terminal(Token::Kor.kind()),
            FollowItem::Terminal(Token::Speriod.kind()),
            FollowItem::Terminal(Token::Kfed.kind()),
            FollowItem::Terminal(Token::Kod.kind()),
            FollowItem::Terminal(Token::Kelse.kind()),
            FollowItem::Terminal(Token::Kfi.kind()),
            FollowItem::Terminal(Token::Ssemicolon.kind()),
            FollowItem::Terminal(Token::Kdo.kind()),
            FollowItem::Terminal(Token::Kthen.kind()),
            FollowItem::Terminal(Token::Scparen.kind()),
            FollowItem::Terminal(Token::Scomma.kind()),
            FollowItem::Terminal(Token::Scbracket.kind()),
        ],
        NonTerminal::Number => seq![
            FollowItem::Terminal(Token::Omultiply.kind()),
            FollowItem::Terminal(Token::Odivide.kind()),
            FollowItem::Terminal(Token::Omod.kind()),
            FollowItem::Terminal(Token::Oplus.kind()),
            FollowItem::Terminal(Token::Ominus.kind()),
            FollowItem::Terminal(Token::Oequal.kind()),
            FollowItem::Terminal(Token::Olt.kind()),
            FollowItem::Terminal(Token::Ogt.kind()),
            FollowItem::Terminal(Token::Olte.kind()),
            FollowItem::Terminal(Token::Ogte.kind()),
            FollowItem::Terminal(Token::Onot.kind()),
            FollowItem::Terminal(Token::Kand.kind()),
            FollowItem::Terminal(Token::Kor.kind()),
            FollowItem::Terminal(Token::Speriod.kind()),
            FollowItem::Terminal(Token::Kfed.kind()),
            FollowItem::Terminal(Token::Kod.kind()),
            FollowItem::Terminal(Token::Kelse.kind()),
            FollowItem::Terminal(Token::Kfi.kind()),
            FollowItem::Terminal(Token::Ssemicolon.kind()),
            FollowItem::Terminal(Token::Kdo.kind()),
            FollowItem::Terminal(Token::Kthen.kind()),
            FollowItem::Terminal(Token::Scparen.kind()),
            FollowItem::Terminal(Token::Scomma.kind()),
            FollowItem::Terminal(Token::Scbracket.kind()),
        ],
    }
}

/// The FOLLOW set of the non-terminal `n`.
pub fn follow_set_of(n: NonTerminal) -> (set: Vec<FollowSetType>)
    ensures
        follow_view(set@) == follow_of(n),
{
    let set = match n {
        NonTerminal::Program => vec![
            FollowSetType::EndOfInput,
        ],
        NonTerminal::Fdecls => vec![
            FollowSetType::Terminal(Token::Kint),
            FollowSetType::Terminal(Token::Kdouble),
            FollowSetType::Terminal(Token::Identifier(String::new())),
            FollowSetType::Terminal(Token::Kif),
            FollowSetType::Terminal(Token::Kwhile),
            FollowSetType::Terminal(Token::Kprint),
            FollowSetType::Terminal(Token::Kreturn),
            FollowSetType::Terminal(Token::Ssemicolon),
            FollowSetType::Terminal(Token::Speriod),
        ],
        NonTerminal::Fdec => vec![
            FollowSetType::Terminal(Token::Ssemicolon),
        ],
        NonTerminal::Params => vec![
            FollowSetType::Terminal(Token::Scparen),
        ],
        NonTerminal::Params2 => vec![
            FollowSetType::Terminal(Token::Scparen),
        ],
        NonTerminal::TypeVar => vec![
            FollowSetType::Terminal(Token::Scparen),
            FollowSetType::Terminal(Token::Scomma),
        ],
        NonTerminal::Fname => vec![
            FollowSetType::Terminal(Token::Soparen),
        ],
        NonTerminal::Declarations => vec![
            FollowSetType::Terminal(Token::Identifier(String::new())),
            FollowSetType::Terminal(Token::Kif),
            FollowSetType::Terminal(Token::Kwhile),
            FollowSetType::Terminal(Token::Kprint),
            FollowSetType::Terminal(Token::Kreturn),
            FollowSetType::Terminal(Token::Ssemicolon),
            FollowSetType::Terminal(Token::Speriod),
            FollowSetType::Terminal(Token::Kfed),
        ],
        NonTerminal::DeclarationsSeq => vec![
            FollowSetType::Terminal(Token::Speriod),
            FollowSetType::Terminal(Token::Kfed),
        ],
        NonTerminal::Decl => vec![
            FollowSetType::Terminal(Token::Ssemicolon),
        ],
        NonTerminal::Type => vec![
            FollowSetType::Terminal(Token::Identifier(String::new())),
        ],
        NonTerminal::VarList => vec![
            FollowSetType::Terminal(Token::Ssemicolon),
        ],
        NonTerminal::VarList2 => vec![
            FollowSetType::Terminal(Token::Ssemicolon),
        ],
        NonTerminal::StatementSeq => vec![
            FollowSetType::Terminal(Token::Speriod),
            FollowSetType::Terminal(Token::Kfed),
            FollowSetType::Terminal(Token::Kod),
            FollowSetType::Terminal(Token::Kelse),
            FollowSetType::Terminal(Token::Kfi),
        ],
        NonTerminal::StatementSeq2 => vec![
            FollowSetType::Terminal(Token::Speriod),
            FollowSetType::Terminal(Token::Kfed),
            FollowSetType::Terminal(Token::Kod),
            FollowSetType::Terminal(Token::Kelse),
            FollowSetType::Terminal(Token::Kfi),
        ],
        NonTerminal::Statement => vec![
            FollowSetType::Terminal(Token::Speriod),
            FollowSetType::Terminal(Token::Kfed),
            FollowSetType::Terminal(Token::Kod),
            FollowSetType::Terminal(Token::Kelse),
            FollowSetType::Terminal(Token::Kfi),
            FollowSetType::Terminal(Token::Ssemicolon),
        ],
        NonTerminal::If => vec![
            FollowSetType::Terminal(Token::Speriod),
            FollowSetType::Terminal(Token::Kfed),
            FollowSetType::Terminal(Token::Kod),
            FollowSetType::Terminal(Token::Kelse),
            FollowSetType::Terminal(Token::Kfi),
            FollowSetType::Terminal(Token::Ssemicolon),
        ],
        NonTerminal::Else => vec![
            FollowSetType::Terminal(Token::Kfi),
        ],
        NonTerminal::BuiltIn => vec![
            FollowSetType::Terminal(Token::Identifier(String::new())),
            FollowSetType::Terminal(Token::Tint(0)),
            FollowSetType::Terminal(Token::Tdouble(String::new())),
            FollowSetType::Terminal(Token::Soparen),
            FollowSetType::Terminal(Token::Knot),
        ],
        NonTerminal::Bexpr => vec![
            FollowSetType::Terminal(Token::Speriod),
            FollowSetType::Terminal(Token::Kfed),
            FollowSetType::Terminal(Token::Kod),
            FollowSetType::Terminal(Token::Kelse),
            FollowSetType::Terminal(Token::Kfi),
            FollowSetType::Terminal(Token::Ssemicolon),
            FollowSetType::Terminal(Token::Kdo),
            FollowSetType::Terminal(Token::Kthen),
            FollowSetType::Terminal(Token::Scparen),
            FollowSetType::Terminal(Token::Scomma),
            FollowSetType::Terminal(Token::Scbracket),
        ],
        NonTerminal::Bexpr2 => vec![
            FollowSetType::Terminal(Token::Speriod),
            FollowSetType::Terminal(Token::Kfed),
            FollowSetType::Terminal(Token::Kod),
            FollowSetType::Terminal(Token::Kelse),
            FollowSetType::Terminal(Token::Kfi),
            FollowSetType::Terminal(Token::Ssemicolon),
            FollowSetType::Terminal(Token::Kdo),
            FollowSetType::Terminal(Token::Kthen),
            FollowSetType::Terminal(Token::Scparen),
            FollowSetType::Terminal(Token::Scomma),
            FollowSetType::Terminal(Token::Scbracket),
        ],
        NonTerminal::Bterm => vec![
            FollowSetType::Terminal(Token::Kor),
            FollowSetType::Terminal(Token::Speriod),
            FollowSetType::Terminal(Token::Kfed),
            FollowSetType::Terminal(Token::Kod),
            FollowSetType::Terminal(Token::Kelse),
            FollowSetType::Terminal(Token::Kfi),
            FollowSetType::Terminal(Token::Ssemicolon),
            FollowSetType::Terminal(Token::Kdo),
            FollowSetType::Terminal(Token::Kthen),
            FollowSetType::Terminal(Token::Scparen),
            FollowSetType::Terminal(Token::Scomma),
            FollowSetType::Terminal(Token::Scbracket),
        ],
        NonTerminal::Bterm2 => vec![
            FollowSetType::Terminal(Token::Kor),
            FollowSetType::Terminal(Token::Speriod),
            FollowSetType::Terminal(Token::Kfed),
            FollowSetType::Terminal(Token::Kod),
            FollowSetType::Terminal(Token::Kelse),
            FollowSetType::Terminal(Token::Kfi),
            FollowSetType::Terminal(Token::Ssemicolon),
            FollowSetType::Terminal(Token::Kdo),
            FollowSetType::Terminal(Token::Kthen),
            FollowSetType::Terminal(Token::Scparen),
            FollowSetType::Terminal(Token::Scomma),
            FollowSetType::Terminal(Token::Scbracket),
        ],
        NonTerminal::Bfactor => vec![
            FollowSetType::Terminal(Token::Kand),
            FollowSetType::Terminal(Token::Kor),
            FollowSetType::Terminal(Token::Speriod),
            FollowSetType::Terminal(Token::Kfed),
            FollowSetType::Terminal(Token::Kod),
            FollowSetType::Terminal(Token::Kelse),
            FollowSetType::Terminal(Token::Kfi),
            FollowSetType::Terminal(Token::Ssemicolon),
            FollowSetType::Terminal(Token::Kdo),
            FollowSetType::Terminal(Token::Kthen),
            FollowSetType::Terminal(Token::Scparen),
            FollowSetType::Terminal(Token::Scomma),
            FollowSetType::Terminal(Token::Scbracket),
        ],
        NonTerminal::Bfactor2 => vec![
            FollowSetType::Terminal(Token::Kand),
            FollowSetType::Terminal(Token::Kor),
            FollowSetType::Terminal(Token::Speriod),
            FollowSetType::Terminal(Token::Kfed),
            FollowSetType::Terminal(Token::Kod),
            FollowSetType::Terminal(Token::Kelse),
            FollowSetType::Terminal(Token::Kfi),
            FollowSetType::Terminal(Token::Ssemicolon),
            FollowSetType::Terminal(Token::Kdo),
            FollowSetType::Terminal(Token::Kthen),
            FollowSetType::Terminal(Token::Scparen),
            FollowSetType::Terminal(Token::Scomma),
            FollowSetType::Terminal(Token::Scbracket),
        ],
        NonTerminal::Expr => vec![
            FollowSetType::Terminal(Token::Oequal),
            FollowSetType::Terminal(Token::Olt),
            FollowSetType::Terminal(Token::Ogt),
            FollowSetType::Terminal(Token::Olte),
            FollowSetType::Terminal(Token::Ogte),
            FollowSetType::Terminal(Token::Onot),
            FollowSetType::Terminal(Token::Kand),
            FollowSetType::Terminal(Token::Kor),
            FollowSetType::Terminal(Token::Speriod),
            FollowSetType::Terminal(Token::Kfed),
            FollowSetType::Terminal(Token::Kod),
            FollowSetType::Terminal(Token::Kelse),
            FollowSetType::Terminal(Token::Kfi),
            FollowSetType::Terminal(Token::Ssemicolon),
            FollowSetType::Terminal(Token::Kdo),
            FollowSetType::Terminal(Token::Kthen),
            FollowSetType::Terminal(Token::Scparen),
            FollowSetType::Terminal(Token::Scomma),
            FollowSetType::Terminal(Token::Scbracket),
        ],
        NonTerminal::Expr2 => vec![
            FollowSetType::Terminal(Token::Oequal),
            FollowSetType::Terminal(Token::Olt),
            FollowSetType::Terminal(Token::Ogt),
            FollowSetType::Terminal(Token::Olte),
            FollowSetType::Terminal(Token::Ogte),
            FollowSetType::Terminal(Token::Onot),
            FollowSetType::Terminal(Token::Kand),
            FollowSetType::Terminal(Token::Kor),
            FollowSetType::Terminal(Token::Speriod),
            FollowSetType::Terminal(Token::Kfed),
            FollowSetType::Terminal(Token::Kod),
            FollowSetType::Terminal(Token::Kelse),
            FollowSetType::Terminal(Token::Kfi),
            FollowSetType::Terminal(Token::Ssemicolon),
            FollowSetType::Terminal(Token::Kdo),
            FollowSetType::Terminal(Token::Kthen),
            FollowSetType::Terminal(Token::Scparen),
            FollowSetType::Terminal(Token::Scomma),
            FollowSetType::Terminal(Token::Scbracket),
        ],
        NonTerminal::Term => vec![
            FollowSetType::Terminal(Token::Oplus),
            FollowSetType::Terminal(Token::Ominus),
            FollowSetType::Terminal(Token::Oequal),
            FollowSetType::Terminal(Token::Olt),
            FollowSetType::Terminal(Token::Ogt),
            FollowSetType::Terminal(Token::Olte),
            FollowSetType::Terminal(Token::Ogte),
            FollowSetType::Terminal(Token::Onot),
            FollowSetType::Terminal(Token::Kand),
            FollowSetType::Terminal(Token::Kor),
            FollowSetType::Terminal(Token::Speriod),
            FollowSetType::Terminal(Token::Kfed),
            FollowSetType::Terminal(Token::Kod),
            FollowSetType::Terminal(Token::Kelse),
            FollowSetType::Terminal(Token::Kfi),
            FollowSetType::Terminal(Token::Ssemicolon),
            FollowSetType::Terminal(Token::Kdo),
            FollowSetType::Terminal(Token::Kthen),
            FollowSetType::Terminal(Token::Scparen),
            FollowSetType::Terminal(Token::Scomma),
            FollowSetType::Terminal(Token::Scbracket),
        ],
        NonTerminal::Term2 => vec![
            FollowSetType::Terminal(Token::Oplus),
            FollowSetType::Terminal(Token::Ominus),
            FollowSetType::Terminal(Token::Oequal),
            FollowSetType::Terminal(Token::Olt),
            FollowSetType::Terminal(Token::Ogt),
            FollowSetType::Terminal(Token::Olte),
            FollowSetType::Terminal(Token::Ogte),
            FollowSetType::Terminal(Token::Onot),
            FollowSetType::Terminal(Token::Kand),
            FollowSetType::Terminal(Token::Kor),
            FollowSetType::Terminal(Token::Speriod),
            FollowSetType::Terminal(Token::Kfed),
            FollowSetType::Terminal(Token::Kod),
            FollowSetType::Terminal(Token::Kelse),
            FollowSetType::Terminal(Token::Kfi),
            FollowSetType::Terminal(Token::Ssemicolon),
            FollowSetType::Terminal(Token::Kdo),
            FollowSetType::Terminal(Token::Kthen),
            FollowSetType::Terminal(Token::Scparen),
            FollowSetType::Terminal(Token::Scomma),
            FollowSetType::Terminal(Token::Scbracket),
        ],
        NonTerminal::NegFactor => vec![
            FollowSetType::Terminal(Token::Omultiply),
            FollowSetType::Terminal(Token::Odivide),
            FollowSetType::Terminal(Token::Omod),
            FollowSetType::Terminal(Token::Oplus),
            FollowSetType::Terminal(Token::Ominus),
            FollowSetType::Terminal(Token::Oequal),
            FollowSetType::Terminal(Token::Olt),
            FollowSetType::Terminal(Token::Ogt),
            FollowSetType::Terminal(Token::Olte),
            FollowSetType::Terminal(Token::Ogte),
            FollowSetType::Terminal(Token::Onot),
            FollowSetType::Terminal(Token::Kand),
            FollowSetType::Terminal(Token::Kor),
            FollowSetType::Terminal(Token::Speriod),
            FollowSetType::Terminal(Token::Kfed),
            FollowSetType::Terminal(Token::Kod),
            FollowSetType::Terminal(Token::Kelse),
            FollowSetType::Terminal(Token::Kfi),
            FollowSetType::Terminal(Token::Ssemicolon),
            FollowSetType::Terminal(Token::Kdo),
            FollowSetType::Terminal(Token::Kthen),
            FollowSetType::Terminal(Token::Scparen),
            FollowSetType::Terminal(Token::Scomma),
            FollowSetType::Terminal(Token::Scbracket),
        ],
        NonTerminal::Factor => vec![
            FollowSetType::Terminal(Token::Omultiply),
            FollowSetType::Terminal(Token::Odivide),
            FollowSetType::Terminal(Token::Omod),
            FollowSetType::Terminal(Token::Oplus),
            FollowSetType::Terminal(Token::Ominus),
            FollowSetType::Terminal(Token::Oequal),
            FollowSetType::Terminal(Token::Olt),
            FollowSetType::Terminal(Token::Ogt),
            FollowSetType::Terminal(Token::Olte),
            FollowSetType::Terminal(Token::Ogte),
            FollowSetType::Terminal(Token::Onot),
            FollowSetType::Terminal(Token::Kand),
            FollowSetType::Terminal(Token::Kor),
            FollowSetType::Terminal(Token::Speriod),
            FollowSetType::Terminal(Token::Kfed),
            FollowSetType::Terminal(Token::Kod),
            FollowSetType::Terminal(Token::Kelse),
            FollowSetType::Terminal(Token::Kfi),
            FollowSetType::Terminal(Token::Ssemicolon),
            FollowSetType::Terminal(Token::Kdo),
            FollowSetType::Terminal(Token::Kthen),
            FollowSetType::Terminal(Token::Scparen),
            FollowSetType::Terminal(Token::Scomma),
            FollowSetType::Terminal(Token::Scbracket),
        ],
        NonTerminal::Factor2 => vec![
            FollowSetType::Terminal(Token::Omultiply),
            FollowSetType::Terminal(Token::Odivide),
            FollowSetType::Terminal(Token::Omod),
            FollowSetType::Terminal(Token::Oplus),
            FollowSetType::Terminal(Token::Ominus),
            FollowSetType::Terminal(Token::Oequal),
            FollowSetType::Terminal(Token::Olt),
            FollowSetType::Terminal(Token::Ogt),
            FollowSetType::Terminal(Token::Olte),
            FollowSetType::Terminal(Token::Ogte),
            FollowSetType::Terminal(Token::Onot),
            FollowSetType::Terminal(Token::Kand),
            FollowSetType::Terminal(Token::Kor),
            FollowSetType::Terminal(Token::Speriod),
            FollowSetType::Terminal(Token::Kfed),
            FollowSetType::Terminal(Token::Kod),
            FollowSetType::Terminal(Token::Kelse),
            FollowSetType::Terminal(Token::Kfi),
            FollowSetType::Terminal(Token::Ssemicolon),
            FollowSetType::Terminal(Token::Kdo),
            FollowSetType::Terminal(Token::Kthen),
            FollowSetType::Terminal(Token::Scparen),
            FollowSetType::Terminal(Token::Scomma),
            FollowSetType::Terminal(Token::Scbracket),
        ],
        NonTerminal::ExprSeq => vec![
            FollowSetType::Terminal(Token::Scparen),
        ],
        NonTerminal::ExprSeq2 => vec![
            FollowSetType::Terminal(Token::Scparen),
        ],
        NonTerminal::Comp => vec![
            FollowSetType::Terminal(Token::Identifier(String::new())),
            FollowSetType::Terminal(Token::Tint(0)),
            FollowSetType::Terminal(Token::Tdouble(String::new())),
            FollowSetType::Terminal(Token::Soparen),
        ],
        NonTerminal::Var => vec![
            FollowSetType::Terminal(Token::Scparen),
            FollowSetType::Terminal(Token::Scomma),
            FollowSetType::Terminal(Token::Ssemicolon),
            FollowSetType::Terminal(Token::Oassign),
        ],
        NonTerminal::Var2 => vec![
            FollowSetType::Terminal(Token::Oassign),
            FollowSetType::Terminal(Token::Omultiply),
            FollowSetType::Terminal(Token::Odivide),
            FollowSetType::Terminal(Token::Omod),
            FollowSetType::Terminal(Token::Oplus),
            FollowSetType::Terminal(Token::Ominus),
            FollowSetType::Terminal(Token::Oequal),
            FollowSetType::Terminal(Token::Olt),
            FollowSetType::Terminal(Token::Ogt),
            FollowSetType::Terminal(Token::Olte),
            FollowSetType::Terminal(Token::Ogte),
            FollowSetType::Terminal(Token::Onot),
            FollowSetType::Terminal(Token::Kand),
            FollowSetType::Terminal(Token::Kor),
            FollowSetType::Terminal(Token::Speriod),
            FollowSetType::Terminal(Token::Kfed),
            FollowSetType::Terminal(Token::Kod),
            FollowSetType::Terminal(Token::Kelse),
            FollowSetType::Terminal(Token::Kfi),
            FollowSetType::Terminal(Token::Ssemicolon),
            FollowSetType::Terminal(Token::Kdo),
            FollowSetType::Terminal(Token::Kthen),
            FollowSetType::Terminal(Token::Scparen),
            FollowSetType::Terminal(Token::Scomma),
            FollowSetType::Terminal(Token::Scbracket),
        ],
        NonTerminal::Id => vec![
            FollowSetType::Terminal(Token::Oassign),
            FollowSetType::Terminal(Token::Soparen),
            FollowSetType::Terminal(Token::Sobracket),
            FollowSetType::Terminal(Token::Omultiply),
            FollowSetType::Terminal(Token::Odivide),
            FollowSetType::Terminal(Token::Omod),
            FollowSetType::Terminal(Token::Oplus),
            FollowSetType::Terminal(Token::Ominus),
            FollowSetType::Terminal(Token::Oequal),
            FollowSetType::Terminal(Token::Olt),
            FollowSetType::Terminal(Token::Ogt),
            FollowSetType::Terminal(Token::Olte),
            FollowSetType::Terminal(Token::Ogte),
            FollowSetType::Terminal(Token::Onot),
            FollowSetType::Terminal(Token::Kand),
            FollowSetType::Terminal(Token::Kor),
            FollowSetType::Terminal(Token::Speriod),
            FollowSetType::Terminal(Token::Kfed),
            FollowSetType::Terminal(Token::Kod),
            FollowSetType::Terminal(Token::Kelse),
            FollowSetType::Terminal(Token::Kfi),
            FollowSetType::Terminal(Token::Ssemicolon),
            FollowSetType::Terminal(Token::Kdo),
            FollowSetType::Terminal(Token::Kthen),
            FollowSetType::Terminal(Token::Scparen),
            FollowSetType::Terminal(Token::Scomma),
            FollowSetType::Terminal(Token::Scbracket),
        ],
        NonTerminal::Number => vec![
            FollowSetType::Terminal(Token::Omultiply),
            FollowSetType::Terminal(Token::Odivide),
            FollowSetType::Terminal(Token::Omod),
            FollowSetType::Terminal(Token::Oplus),
            FollowSetType::Terminal(Token::Ominus),
            FollowSetType::Terminal(Token::Oequal),
            FollowSetType::Terminal(Token::Olt),
            FollowSetType::Terminal(Token::Ogt),
            FollowSetType::Terminal(Token::Olte),
            FollowSetType::Terminal(Token::Ogte),
            FollowSetType::Terminal(Token::Onot),
            FollowSetType::Terminal(Token::Kand),
            FollowSetType::Terminal(Token::Kor),
            FollowSetType::Terminal(Token::Speriod),
            FollowSetType::Terminal(Token::Kfed),
            FollowSetType::Terminal(Token::Kod),
            FollowSetType::Terminal(Token::Kelse),
            FollowSetType::Terminal(Token::Kfi),
            FollowSetType::Terminal(Token::Ssemicolon),
            FollowSetType::Terminal(Token::Kdo),
            FollowSetType::Terminal(Token::Kthen),
            FollowSetType::Terminal(Token::Scparen),
            FollowSetType::Terminal(Token::Scomma),
            FollowSetType::Terminal(Token::Scbracket),
        ],
    };
    assert(follow_view(set@) =~= follow_of(n));
    set
}

/// The FOLLOW sets of all non-terminals, each at the place of its
/// non-terminal's ordinal.
pub fn get_constant_follow_sets() -> (sets: Vec<FollowSet>)
    ensures
        sets@.len() == NUM_NON_TERMINALS,
        forall|i: int|
            0 <= i < sets@.len() ==> (#[trigger] sets@[i]).non_terminal.index() == i && follow_view(
                sets@[i].follow_set@,
            ) == follow_of(sets@[i].non_terminal),
{
    let mut sets: Vec<FollowSet> = Vec::new();
    let mut i: usize = 0;
    while i < NUM_NON_TERMINALS
        invariant
            0 <= i <= NUM_NON_TERMINALS,
            sets@.len() == i,
            forall|j: int|
                0 <= j < sets@.len() ==> (#[trigger] sets@[j]).non_terminal.index() == j
                    && follow_view(sets@[j].follow_set@) == follow_of(sets@[j].non_terminal),
        decreases NUM_NON_TERMINALS - i,
    {
        let non_terminal = NonTerminal::from_index(i);
        sets.push(FollowSet { non_terminal, follow_set: follow_set_of(non_terminal) });
        i += 1;
    }
    sets
}

} // verus!
