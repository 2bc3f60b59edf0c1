//! The semantic actions that productions carry.

use vstd::prelude::*;

verus! {

/// A semantic action: a marker in the body of a production that the parser
/// hands to the semantic analyzer when it reaches it.
#[derive(Debug, PartialEq, Eq, Clone, Copy, Structural)]
pub enum SemanticAction {
    SetId,
    SetType,
    SetArray,
    SetLiteral,
    AddVarDecl,
    ClearVarDecl,
    NewScope,
    PopScope,
    SetFunc,
    AddParam,
    AddFuncDecl,
    StartTypeTree,
    AddTypeTree,
    SplitTree,
    AddOperator,
    CheckType,
    CheckVarType,
    AddFuncCheck,
    PopFuncCheck,
    CheckParamType,
    StartAssignment,
    AddAssignment,
    AddCondition,
    AddCondStatement,
    StartIf,
    StartElse,
    StartWhile,
    StartReturn,
    StartPrint,
}

} // verus!
