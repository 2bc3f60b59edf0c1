//! The builder of three-address code: function records with their
//! statements, the sizes of their variables and their counters of labels and
//! temporaries, and the lowering of expression trees into statements.

use vstd::prelude::*;
use vstd::string::StringExecFns;
use crate::statement_tree::{StatementSymbol, StatementTree};
use crate::symbol_declaration::{mangled, to_var_name, BasicType, SymbolDecl, TypeView};
use crate::symbol_table::{BuiltInFunc, BuiltInFuncType};
use crate::tac::{program_view, TacCommand, TacOperation, TacOperationView, TacProgram,
    TacStatement, TacStatementView, TacValue, TacValueView};
use crate::text::{append_decimal, decimal, lemma_lex_lt_asymmetric, lemma_lex_lt_irreflexive,
    lemma_lex_lt_total, lemma_lex_lt_transitive, lex_lt, string_lt};
use crate::token::Token;

verus! {

/// Why no code can be generated.
#[derive(Debug, PartialEq, Eq, Clone, Copy, Structural)]
pub enum TacError {
    /// A function needs more labels than its counter can number.
    TooManyLabels,
    /// A function needs more temporaries than its counter can number.
    TooManyTemporaries,
    /// A size does not fit in 64 bits.
    SizeOverflow,
    /// An expression tree has no root.
    NoStatement,
    /// A link of an expression tree leads outside the tree, or the
    /// expression is nested too deeply.
    BrokenLink,
    /// An operator lacks an operand.
    MissingOperand,
    /// A literal is neither an integer nor a decimal number.
    InvalidLiteral,
    /// A token that is no operator stands where one is expected.
    InvalidOperator,
    /// An `if` or a `while` has no condition.
    MissingCondition,
    /// A scope of the symbol table is missing.
    UnknownScope,
}

/// Size in storage units of a temporary that holds an index, a truth value
/// or the result of a call.
pub const WORD_SIZE: u64 = 4;

/// How many levels of an expression the generator descends.
pub const MAX_DEPTH: usize = 10000;

/// The sizes of a function's variables: name, size of one instance, number
/// of instances.
pub type VarSizes = Seq<(Seq<char>, (u64, u64))>;

/// A function record as a mathematical value.
pub struct FuncModel {
    pub name: Seq<char>,
    pub statements: Seq<TacStatementView>,
    pub var_sizes: VarSizes,
    pub params: Seq<(Seq<char>, u64)>,
    pub label_count: u16,
    pub temp_count: u16,
}

/// The place of `name` in the sorted list `vs`: the number of entries whose
/// names precede it.
pub open spec fn lower_bound(vs: VarSizes, name: Seq<char>) -> int
    decreases vs.len(),
{
    if vs.len() == 0 {
        0
    } else if lex_lt(vs.last().0, name) {
        vs.len() as int
    } else {
        lower_bound(vs.drop_last(), name)
    }
}

/// Whether `vs` is sorted by name without repetition and the total size of
/// each variable fits in 64 bits.
pub open spec fn sizes_wf(vs: VarSizes) -> bool {
    &&& forall|i: int, j: int| 0 <= i < j < vs.len() ==> lex_lt(#[trigger] vs[i].0, #[trigger] vs[j].0)
    &&& forall|i: int| 0 <= i < vs.len() ==> (#[trigger] vs[i]).1.0 * vs[i].1.1 <= u64::MAX
}

/// The sum of the total sizes of the variables.
pub open spec fn frame_size(vs: VarSizes) -> nat
    decreases vs.len(),
{
    if vs.len() == 0 {
        0
    } else {
        frame_size(vs.drop_last()) + (vs.last().1.0 * vs.last().1.1) as nat
    }
}

/// The size of the first parameter called `name`, zero where there is none.
pub open spec fn param_size(params: Seq<(Seq<char>, u64)>, name: Seq<char>) -> u64
    decreases params.len(),
{
    if params.len() == 0 {
        0
    } else if params[0].0 == name {
        params[0].1
    } else {
        param_size(params.drop_first(), name)
    }
}

/// The names that the strings `v` hold.
pub open spec fn names_view(v: Seq<String>) -> Seq<Seq<char>> {
    Seq::new(v.len(), |i: int| v[i]@)
}

/// The name of the temporary with number `n`.
pub open spec fn temp_name(n: nat) -> Seq<char> {
    "t"@ + decimal(n) + "_"@
}

/// A right-hand side that is the value `v` alone.
pub open spec fn plain(v: TacValueView) -> TacOperationView {
    TacOperationView { op: None, val1: v, val2: None }
}

/// A right-hand side that applies the operator spelled `op` to `l` and `r`.
pub open spec fn binary(op: Seq<char>, l: TacValueView, r: TacValueView) -> TacOperationView {
    TacOperationView { op: Some(op), val1: l, val2: Some(r) }
}

impl FuncModel {
    /// The record with the statement `s` appended.
    pub open spec fn emit(self, s: TacStatementView) -> FuncModel {
        FuncModel { statements: self.statements.push(s), ..self }
    }

    /// Mints the next label: `prefix` followed by the number of labels
    /// minted before in this function.
    pub open spec fn next_label(self, prefix: Seq<char>) -> Result<(FuncModel, Seq<char>), TacError> {
        if self.label_count == u16::MAX {
            Err(TacError::TooManyLabels)
        } else {
            Ok(
                (
                    FuncModel { label_count: (self.label_count + 1) as u16, ..self },
                    prefix + decimal(self.label_count as nat),
                ),
            )
        }
    }

    /// Records that `name` takes `size` units: a variable not yet known
    /// enters the list with `instances` instances, a known one keeps its
    /// instances and the larger of the two sizes.
    #[verifier::opaque]
    pub open spec fn sized(self, name: Seq<char>, size: u64, instances: u64) -> Result<
        FuncModel,
        TacError,
    > {
        let p = lower_bound(self.var_sizes, name);
        if p < self.var_sizes.len() && self.var_sizes[p].0 == name {
            let (unit, count) = self.var_sizes[p].1;
            if unit < size {
                if size * count > u64::MAX {
                    Err(TacError::SizeOverflow)
                } else {
                    Ok(
                        FuncModel {
                            var_sizes: self.var_sizes.update(p, (name, (size, count))),
                            ..self
                        },
                    )
                }
            } else {
                Ok(self)
            }
        } else if size * instances > u64::MAX {
            Err(TacError::SizeOverflow)
        } else {
            Ok(
                FuncModel {
                    var_sizes: self.var_sizes.insert(p, (name, (size, instances))),
                    ..self
                },
            )
        }
    }

    /// The size of a value: four units for a constant, the total size of a
    /// known variable, the size of a parameter, zero for anything else.
    #[verifier::opaque]
    pub open spec fn val_size(self, v: TacValueView) -> u64 {
        match v {
            TacValueView::Int(_) => 4,
            TacValueView::Double(_) => 4,
            TacValueView::Var(name) => {
                let p = lower_bound(self.var_sizes, name);
                if p < self.var_sizes.len() && self.var_sizes[p].0 == name {
                    (self.var_sizes[p].1.0 * self.var_sizes[p].1.1) as u64
                } else {
                    param_size(self.params, name)
                }
            },
            _ => 0,
        }
    }

    /// Mints the next temporary, of `size` units.
    #[verifier::opaque]
    pub open spec fn new_temp(self, size: u64) -> Result<(FuncModel, Seq<char>), TacError> {
        if self.temp_count == u16::MAX {
            Err(TacError::TooManyTemporaries)
        } else {
            let name = temp_name(self.temp_count as nat);
            match (FuncModel { temp_count: (self.temp_count + 1) as u16, ..self }).sized(
                name,
                size,
                1,
            ) {
                Ok(f) => Ok((f, name)),
                Err(e) => Err(e),
            }
        }
    }

    /// Appends the assignment of `op` to `var`, which takes the size of the
    /// first value of `op`.
    #[verifier::opaque]
    pub open spec fn assign(self, var: Seq<char>, op: TacOperationView) -> Result<
        FuncModel,
        TacError,
    > {
        match self.sized(var, self.val_size(op.val1), 1) {
            Ok(f) => Ok(f.emit(TacStatementView::Assignment(var, op))),
            Err(e) => Err(e),
        }
    }

    /// Appends a push of each of `params` from place `k` on and returns the
    /// sum of `total` and their sizes.
    pub open spec fn push_params(self, params: Seq<Seq<char>>, k: int, total: u64) -> Result<
        (FuncModel, u64),
        TacError,
    >
        decreases params.len() - k,
    {
        if k < 0 || k >= params.len() {
            Ok((self, total))
        } else {
            let size = self.val_size(TacValueView::Var(params[k]));
            if total + size > u64::MAX {
                Err(TacError::SizeOverflow)
            } else {
                self.emit(
                    TacStatementView::Command(
                        TacCommand::PushParam,
                        Some(TacValueView::Var(params[k])),
                    ),
                ).push_params(params, k + 1, (total + size) as u64)
            }
        }
    }

    /// Appends a call of `func_name` with the arguments `params`: a push of
    /// each argument, the call, the assignment of its result where
    /// `return_var` takes it, and the pop of the arguments' total size.
    #[verifier::opaque]
    pub open spec fn call(
        self,
        func_name: Seq<char>,
        params: Seq<Seq<char>>,
        return_var: Option<Seq<char>>,
    ) -> Result<FuncModel, TacError> {
        match self.push_params(params, 0, 0) {
            Err(e) => Err(e),
            Ok((f, size)) => {
                let made = f.emit(
                    TacStatementView::Command(
                        TacCommand::LCall,
                        Some(TacValueView::Label(func_name)),
                    ),
                );
                let called = match return_var {
                    Some(var) => made.assign(var, plain(TacValueView::LCallArgs(func_name))),
                    None => Ok(made),
                };
                match called {
                    Err(e) => Err(e),
                    Ok(g) => Ok(
                        g.emit(
                            TacStatementView::Command(
                                TacCommand::PopParams,
                                Some(TacValueView::Int(size)),
                            ),
                        ),
                    ),
                }
            },
        }
    }

    /// Appends the branch that leaves when `cond_var` is zero, and returns
    /// the label of the `else` part, empty where there is none, and the
    /// label of the end.
    #[verifier::opaque]
    pub open spec fn branch(self, cond_var: Seq<char>, has_else: bool) -> Result<
        (FuncModel, Seq<char>, Seq<char>),
        TacError,
    > {
        match self.next_label(if has_else { "else"@ } else { "fi"@ }) {
            Err(e) => Err(e),
            Ok((f, cond_label)) => {
                let g = f.emit(
                    TacStatementView::Command(
                        TacCommand::IfZ,
                        Some(TacValueView::IfArgs(cond_var, cond_label)),
                    ),
                );
                if has_else {
                    match g.next_label("fi"@) {
                        Err(e) => Err(e),
                        Ok((h, end_label)) => Ok((h, cond_label, end_label)),
                    }
                } else {
                    Ok((g, Seq::empty(), cond_label))
                }
            },
        }
    }
}

/// The constant zero of the type `t`.
pub open spec fn zero_of(t: Option<BasicType>) -> TacValueView {
    match t {
        Some(BasicType::Double) => TacValueView::Double("0"@),
        _ => TacValueView::Int(0),
    }
}

/// Whether `op` is an arithmetic or a comparison operator.
pub open spec fn is_plain_operator(op: Token) -> bool {
    op is Oplus || op is Ominus || op is Omultiply || op is Odivide || op is Omod || op is Oequal
        || op is Onot || op is Olt || op is Ogt || op is Olte || op is Ogte
}

/// The code of a choice between two values: after the branch on
/// `cond_var`, the temporary that is minted takes `first` where the
/// condition holds and `second` where it does not.
#[verifier::opaque]
pub open spec fn choose_value(
    f: FuncModel,
    cond_var: Seq<char>,
    first: TacOperationView,
    second: TacOperationView,
) -> Result<(FuncModel, TacOperationView), TacError> {
    match f.branch(cond_var, true) {
        Err(e) => Err(e),
        Ok((f1, else_label, end_label)) => match f1.new_temp(WORD_SIZE) {
            Err(e) => Err(e),
            Ok((f2, result)) => match f2.assign(result, first) {
                Err(e) => Err(e),
                Ok(f3) => match f3.emit(
                    TacStatementView::Command(
                        TacCommand::Goto,
                        Some(TacValueView::Label(end_label)),
                    ),
                ).emit(TacStatementView::Label(else_label)).assign(result, second) {
                    Err(e) => Err(e),
                    Ok(f4) => Ok(
                        (
                            f4.emit(TacStatementView::Label(end_label)),
                            plain(TacValueView::Var(result)),
                        ),
                    ),
                },
            },
        },
    }
}

/// The value of `op` as an operand: itself where it is a value alone, a
/// temporary that takes it where it has an operator.
#[verifier::opaque]
pub open spec fn as_value(f: FuncModel, op: TacOperationView) -> Result<
    (FuncModel, TacValueView),
    TacError,
> {
    if op.op is Some {
        match f.new_temp(f.val_size(op.val1)) {
            Err(e) => Err(e),
            Ok((f1, temp)) => match f1.assign(temp, op) {
                Err(e) => Err(e),
                Ok(f2) => Ok((f2, TacValueView::Var(temp))),
            },
        }
    } else {
        Ok((f, op.val1))
    }
}

/// The code of a test whether `v` is greater than zero, and the temporary
/// that takes the result.
#[verifier::opaque]
pub open spec fn test_positive(f: FuncModel, v: TacValueView) -> Result<
    (FuncModel, Seq<char>),
    TacError,
> {
    match f.new_temp(WORD_SIZE) {
        Err(e) => Err(e),
        Ok((f1, temp)) => match f1.assign(
            temp,
            binary(Token::Ogt.spelling(), v, TacValueView::Int(0)),
        ) {
            Err(e) => Err(e),
            Ok(f2) => Ok((f2, temp)),
        },
    }
}

/// The code of the unary operator `op` on the value held by `child_var`,
/// whose type is `child_type`.
#[verifier::opaque]
pub open spec fn lower_unary(
    f: FuncModel,
    op: Token,
    child_var: Seq<char>,
    child_type: Option<BasicType>,
) -> Result<(FuncModel, TacOperationView), TacError> {
    match op {
        Token::Ominus => Ok(
            (f, binary(op.spelling(), zero_of(child_type), TacValueView::Var(child_var))),
        ),
        Token::Soparen => Ok((f, plain(TacValueView::Var(child_var)))),
        Token::Knot => match test_positive(f, TacValueView::Var(child_var)) {
            Err(e) => Err(e),
            Ok((f1, temp)) => choose_value(
                f1,
                temp,
                plain(TacValueView::Int(0)),
                plain(TacValueView::Int(1)),
            ),
        },
        _ => Err(TacError::InvalidOperator),
    }
}

/// The code of the binary operator `op` on the values `l` and `r`.
#[verifier::opaque]
pub open spec fn lower_binary(f: FuncModel, op: Token, l: TacValueView, r: TacValueView) -> Result<
    (FuncModel, TacOperationView),
    TacError,
> {
    if is_plain_operator(op) {
        Ok((f, binary(op.spelling(), l, r)))
    } else if op is Kand {
        match test_positive(f, l) {
            Err(e) => Err(e),
            Ok((f1, temp)) => choose_value(
                f1,
                temp,
                binary(Token::Ogt.spelling(), r, TacValueView::Int(0)),
                plain(TacValueView::Int(0)),
            ),
        }
    } else if op is Kor {
        match test_positive(f, l) {
            Err(e) => Err(e),
            Ok((f1, temp)) => choose_value(
                f1,
                temp,
                plain(TacValueView::Int(1)),
                binary(Token::Ogt.spelling(), r, TacValueView::Int(0)),
            ),
        }
    } else {
        Err(TacError::InvalidOperator)
    }
}

/// The code that computes the expression rooted at node `node` of `tree`,
/// descending at most `depth` levels, and the right-hand side that stands
/// for its value.
pub open spec fn lower(f: FuncModel, tree: StatementTree, node: usize, depth: nat) -> Result<
    (FuncModel, TacOperationView),
    TacError,
>
    decreases depth, 0nat,
{
    if depth == 0 || node >= tree.nodes@.len() {
        Err(TacError::BrokenLink)
    } else {
        let n = tree.nodes@[node as int];
        match n.symbol {
            StatementSymbol::Decl(id) => Ok((f, plain(TacValueView::Var(mangled(id.0@, id.1 as nat))))),
            StatementSymbol::Literal(token) => match token {
                Token::Tint(v) => Ok((f, plain(TacValueView::Int(v as u64)))),
                Token::Tdouble(text) => Ok((f, plain(TacValueView::Double(text@)))),
                _ => Err(TacError::InvalidLiteral),
            },
            StatementSymbol::ArrayAccess(id, index) => match f.new_temp(WORD_SIZE) {
                Err(e) => Err(e),
                Ok((f1, temp)) => match assign_tree(f1, temp, index, (depth - 1) as nat) {
                    Err(e) => Err(e),
                    Ok(f2) => Ok(
                        (
                            f2,
                            plain(
                                TacValueView::PointerAccess(
                                    mangled(id.0@, id.1 as nat),
                                    Box::new(TacValueView::Var(temp)),
                                ),
                            ),
                        ),
                    ),
                },
            },
            StatementSymbol::FunctionCall(id, args) => match lower_args(
                f,
                args@,
                0,
                Seq::empty(),
                (depth - 1) as nat,
            ) {
                Err(e) => Err(e),
                Ok((f1, temps)) => match f1.new_temp(WORD_SIZE) {
                    Err(e) => Err(e),
                    Ok((f2, result)) => match f2.call(
                        mangled(id.0@, id.1 as nat),
                        temps,
                        Some(result),
                    ) {
                        Err(e) => Err(e),
                        Ok(f3) => Ok((f3, plain(TacValueView::Var(result)))),
                    },
                },
            },
            StatementSymbol::SingleChildOperator(op) => match n.left {
                None => Err(TacError::MissingOperand),
                Some(left) => match lower(f, tree, left, (depth - 1) as nat) {
                    Err(e) => Err(e),
                    Ok((f1, child)) => match f1.new_temp(f1.val_size(child.val1)) {
                        Err(e) => Err(e),
                        Ok((f2, child_var)) => match f2.assign(child_var, child) {
                            Err(e) => Err(e),
                            Ok(f3) => lower_unary(
                                f3,
                                op,
                                child_var,
                                if left < tree.nodes@.len() {
                                    tree.nodes@[left as int].node_type
                                } else {
                                    None
                                },
                            ),
                        },
                    },
                },
            },
            StatementSymbol::Operator(op) => if n.left is None || n.right is None {
                Err(TacError::MissingOperand)
            } else {
                match lower(f, tree, n.left->0, (depth - 1) as nat) {
                    Err(e) => Err(e),
                    Ok((f1, left_op)) => match lower(f1, tree, n.right->0, (depth - 1) as nat) {
                        Err(e) => Err(e),
                        Ok((f2, right_op)) => match as_value(f2, left_op) {
                            Err(e) => Err(e),
                            Ok((f3, l)) => match as_value(f3, right_op) {
                                Err(e) => Err(e),
                                Ok((f4, r)) => lower_binary(f4, op, l, r),
                            },
                        },
                    },
                }
            },
        }
    }
}

/// The code that computes the expression `tree` and assigns its value to
/// `var`.
pub open spec fn assign_tree(f: FuncModel, var: Seq<char>, tree: StatementTree, depth: nat) -> Result<
    FuncModel,
    TacError,
>
    decreases depth, 1nat,
{
    match tree.start {
        None => Err(TacError::NoStatement),
        Some(start) => match lower(f, tree, start, depth) {
            Err(e) => Err(e),
            Ok((f1, op)) => f1.assign(var, op),
        },
    }
}

/// The code that computes each of `args` from place `k` on into a
/// temporary of its own, and `temps` followed by the names of those
/// temporaries.
pub open spec fn lower_args(
    f: FuncModel,
    args: Seq<StatementTree>,
    k: int,
    temps: Seq<Seq<char>>,
    depth: nat,
) -> Result<(FuncModel, Seq<Seq<char>>), TacError>
    decreases depth, 2 + args.len() - k,
{
    if k < 0 || k >= args.len() {
        Ok((f, temps))
    } else {
        match f.new_temp(args[k].type_size() as u64) {
            Err(e) => Err(e),
            Ok((f1, temp)) => match assign_tree(f1, temp, args[k], depth) {
                Err(e) => Err(e),
                Ok(f2) => lower_args(f2, args, k + 1, temps.push(temp), depth),
            },
        }
    }
}

/// The code of an assignment of the expression `statement` to element
/// `index` of the array `arr` of `arr_len` elements.
pub open spec fn assign_element(
    f: FuncModel,
    arr: Seq<char>,
    index: StatementTree,
    statement: StatementTree,
    arr_len: u64,
    depth: nat,
) -> Result<FuncModel, TacError> {
    match f.new_temp(WORD_SIZE) {
        Err(e) => Err(e),
        Ok((f1, temp)) => match assign_tree(f1, temp, index, depth) {
            Err(e) => Err(e),
            Ok(f2) => match statement.start {
                None => Err(TacError::NoStatement),
                Some(start) => match lower(f2, statement, start, depth) {
                    Err(e) => Err(e),
                    Ok((f3, op)) => match f3.sized(arr, f3.val_size(op.val1), arr_len) {
                        Err(e) => Err(e),
                        Ok(f4) => Ok(
                            f4.emit(
                                TacStatementView::PointerAssignment(
                                    arr,
                                    TacValueView::Var(temp),
                                    op,
                                ),
                            ),
                        ),
                    },
                },
            },
        },
    }
}

/// The code of a built-in statement: its operand in a temporary, then the
/// return of the temporary, or the call of `print` with it.
pub open spec fn builtin_code(
    f: FuncModel,
    func_type: BuiltInFuncType,
    statement: StatementTree,
    depth: nat,
) -> Result<(FuncModel, Seq<char>), TacError> {
    match f.new_temp(statement.type_size() as u64) {
        Err(e) => Err(e),
        Ok((f1, temp)) => match assign_tree(f1, temp, statement, depth) {
            Err(e) => Err(e),
            Ok(f2) => match func_type {
                BuiltInFuncType::Return => Ok(
                    (
                        f2.emit(
                            TacStatementView::Command(
                                TacCommand::Return,
                                Some(TacValueView::Var(temp)),
                            ),
                        ),
                        temp,
                    ),
                ),
                BuiltInFuncType::Print => match f2.call("print"@, seq![temp], None) {
                    Err(e) => Err(e),
                    Ok(f3) => Ok((f3, temp)),
                },
            },
        },
    }
}

/// The code that opens an `if`: the condition in a temporary and the branch
/// on it.
pub open spec fn if_code(f: FuncModel, condition: StatementTree, has_else: bool, depth: nat) -> Result<
    (FuncModel, Seq<char>, Seq<char>),
    TacError,
> {
    match f.new_temp(condition.type_size() as u64) {
        Err(e) => Err(e),
        Ok((f1, cond_var)) => match assign_tree(f1, cond_var, condition, depth) {
            Err(e) => Err(e),
            Ok(f2) => f2.branch(cond_var, has_else),
        },
    }
}

/// The code that opens a `while`: the label of the loop, the condition in a
/// temporary and the branch to the label of the end. Returns both labels.
pub open spec fn while_code(f: FuncModel, condition: StatementTree, depth: nat) -> Result<
    (FuncModel, Seq<char>, Seq<char>),
    TacError,
> {
    match f.next_label("while"@) {
        Err(e) => Err(e),
        Ok((f1, while_label)) => match f1.emit(TacStatementView::Label(while_label)).next_label(
            "od"@,
        ) {
            Err(e) => Err(e),
            Ok((f2, end_label)) => match f2.new_temp(condition.type_size() as u64) {
                Err(e) => Err(e),
                Ok((f3, cond_var)) => match assign_tree(f3, cond_var, condition, depth) {
                    Err(e) => Err(e),
                    Ok(f4) => Ok(
                        (
                            f4.emit(
                                TacStatementView::Command(
                                    TacCommand::IfZ,
                                    Some(TacValueView::IfArgs(cond_var, end_label)),
                                ),
                            ),
                            while_label,
                            end_label,
                        ),
                    ),
                },
            },
        },
    }
}

/// A function record: its label, its statements, the sizes of its variables
/// sorted by name, its parameters in order, and its counters.
#[derive(Debug, PartialEq)]
pub struct TacFunctionInfo {
    pub name: String,
    pub statements: Vec<TacStatement>,
    pub var_sizes: Vec<(String, (u64, u64))>,
    pub params: Vec<(String, u64)>,
    pub label_count: u16,
    pub temp_count: u16,
}

impl View for TacFunctionInfo {
    type V = FuncModel;

    open spec fn view(&self) -> FuncModel {
        FuncModel {
            name: self.name@,
            statements: program_view(self.statements@),
            var_sizes: Seq::new(
                self.var_sizes@.len(),
                |i: int| (self.var_sizes@[i].0@, self.var_sizes@[i].1),
            ),
            params: Seq::new(self.params@.len(), |i: int| (self.params@[i].0@, self.params@[i].1)),
            label_count: self.label_count,
            temp_count: self.temp_count,
        }
    }
}

/// In a sorted list the binary search's bound is the place of the name.
pub proof fn lemma_lower_bound(vs: VarSizes, name: Seq<char>, low: int)
    requires
        0 <= low <= vs.len(),
        forall|k: int| 0 <= k < low ==> lex_lt(#[trigger] vs[k].0, name),
        forall|k: int| low <= k < vs.len() ==> !lex_lt(#[trigger] vs[k].0, name),
    ensures
        lower_bound(vs, name) == low,
    decreases vs.len(),
{
    if vs.len() > 0 {
        if lex_lt(vs.last().0, name) {
            assert(low == vs.len()) by {
                if low < vs.len() {
                    assert(!lex_lt(vs[vs.len() - 1].0, name));
                }
            }
        } else {
            assert(low < vs.len()) by {
                if low == vs.len() {
                    assert(lex_lt(vs[vs.len() - 1].0, name));
                }
            }
            let rest = vs.drop_last();
            assert forall|k: int| 0 <= k < low implies lex_lt(#[trigger] rest[k].0, name) by {
                assert(rest[k] == vs[k]);
            }
            assert forall|k: int| low <= k < rest.len() implies !lex_lt(#[trigger] rest[k].0, name) by {
                assert(rest[k] == vs[k]);
            }
            lemma_lower_bound(rest, name, low);
        }
    }
}

impl TacFunctionInfo {
    /// The list of sizes is sorted and each total size fits.
    pub open spec fn wf(self) -> bool {
        sizes_wf(self@.var_sizes)
    }

    /// An empty record for the function labelled `name`.
    pub fn new(name: String) -> (f: Self)
        ensures
            f.wf(),
            f@ == (FuncModel {
                name: name@,
                statements: Seq::empty(),
                var_sizes: Seq::empty(),
                params: Seq::empty(),
                label_count: 0,
                temp_count: 0,
            }),
    {
        let f = TacFunctionInfo {
            name,
            statements: Vec::new(),
            var_sizes: Vec::new(),
            params: Vec::new(),
            label_count: 0,
            temp_count: 0,
        };
        assert(f@.statements =~= Seq::empty());
        assert(f@.var_sizes =~= Seq::empty());
        assert(f@.params =~= Seq::empty());
        f
    }

    /// Appends the statement `s`.
    pub fn emit(&mut self, s: TacStatement)
        ensures
            final(self)@ == old(self)@.emit(s@),
            old(self).wf() ==> final(self).wf(),
    {
        self.statements.push(s);
        assert(self@.statements =~= old(self)@.statements.push(s@));
        assert(self@.var_sizes =~= old(self)@.var_sizes);
        assert(self@.params =~= old(self)@.params);
    }

    /// Mints the next label with the prefix `label`.
    pub fn get_next_label(&mut self, label: String) -> (r: Result<String, TacError>)
        ensures
            match old(self)@.next_label(label@) {
                Ok((f, l)) => r matches Ok(s) && s@ == l && final(self)@ == f,
                Err(e) => r == Err::<String, TacError>(e) && *final(self) == *old(self),
            },
            old(self).wf() ==> final(self).wf(),
    {
        if self.label_count == u16::MAX {
            return Err(TacError::TooManyLabels);
        }
        let mut label_with_count = label;
        append_decimal(&mut label_with_count, self.label_count as u64);
        self.label_count += 1;
        assert(self@.statements =~= old(self)@.statements);
        assert(self@.var_sizes =~= old(self)@.var_sizes);
        assert(self@.params =~= old(self)@.params);
        Ok(label_with_count)
    }

    /// The place of `var` in the list of sizes, and whether the list holds
    /// it there.
    fn find_size(&self, var: &String) -> (r: (usize, bool))
        requires
            self.wf(),
        ensures
            r.0 == lower_bound(self@.var_sizes, var@),
            r.0 <= self.var_sizes@.len(),
            r.1 == (r.0 < self.var_sizes@.len() && self@.var_sizes[r.0 as int].0 == var@),
    {
        let mut low: usize = 0;
        let mut high: usize = self.var_sizes.len();
        let ghost vs = self@.var_sizes;
        while low < high
            invariant
                self.wf(),
                vs == self@.var_sizes,
                0 <= low <= high <= self.var_sizes@.len(),
                forall|k: int| 0 <= k < low ==> lex_lt(#[trigger] vs[k].0, var@),
                forall|k: int| high <= k < vs.len() ==> lex_lt(var@, #[trigger] vs[k].0),
            decreases high - low,
        {
            let mid: usize = low + (high - low) / 2;
            assert(vs[mid as int].0 == self.var_sizes@[mid as int].0@);
            if self.var_sizes[mid].0 == *var {
                proof {
                    lemma_lex_lt_irreflexive(var@);
                    assert forall|k: int| mid <= k < vs.len() implies !lex_lt(
                        #[trigger] vs[k].0,
                        var@,
                    ) by {
                        if k > mid {
                            assert(lex_lt(vs[mid as int].0, vs[k].0));
                            lemma_lex_lt_asymmetric(var@, vs[k].0);
                        }
                    }
                    assert forall|k: int| 0 <= k < mid implies lex_lt(#[trigger] vs[k].0, var@) by {
                        assert(lex_lt(vs[k].0, vs[mid as int].0));
                    }
                    lemma_lower_bound(vs, var@, mid as int);
                }
                return (mid, true);
            } else if string_lt(self.var_sizes[mid].0.as_str(), var.as_str()) {
                proof {
                    assert forall|k: int| 0 <= k < mid + 1 implies lex_lt(#[trigger] vs[k].0, var@) by {
                        if k < mid {
                            assert(lex_lt(vs[k].0, vs[mid as int].0));
                            lemma_lex_lt_transitive(vs[k].0, vs[mid as int].0, var@);
                        }
                    }
                }
                low = mid + 1;
            } else {
                proof {
                    lemma_lex_lt_total(vs[mid as int].0, var@);
                    assert forall|k: int| mid <= k < vs.len() implies lex_lt(var@, #[trigger] vs[k].0) by {
                        if k > mid {
                            assert(lex_lt(vs[mid as int].0, vs[k].0));
                            lemma_lex_lt_transitive(var@, vs[mid as int].0, vs[k].0);
                        }
                    }
                }
                high = mid;
            }
        }
        proof {
            lemma_lex_lt_irreflexive(var@);
            assert forall|k: int| low <= k < vs.len() implies !lex_lt(#[trigger] vs[k].0, var@) by {
                lemma_lex_lt_asymmetric(var@, vs[k].0);
            }
            lemma_lower_bound(vs, var@, low as int);
        }
        (low, false)
    }

    /// Records that `var` takes `size` units: a variable not yet known
    /// enters the list with `instances` instances, a known one keeps its
    /// instances and the larger of the two sizes.
    pub fn set_size(&mut self, var: String, size: u64, instances: u64) -> (r: Result<(), TacError>)
        requires
            old(self).wf(),
        ensures
            final(self).wf(),
            match old(self)@.sized(var@, size, instances) {
                Ok(f) => r is Ok && final(self)@ == f,
                Err(e) => r == Err::<(), TacError>(e) && *final(self) == *old(self),
            },
    {
        proof {
            reveal(FuncModel::sized);
        }
        let (place, found) = self.find_size(&var);
        let ghost vs = self@.var_sizes;
        if found {
            let unit = self.var_sizes[place].1.0;
            let count = self.var_sizes[place].1.1;
            assert(vs[place as int].1 == (unit, count));
            if unit < size {
                if size.checked_mul(count).is_none() {
                    return Err(TacError::SizeOverflow);
                }
                self.var_sizes[place].1.0 = size;
                proof {
                    let after = self@.var_sizes;
                    assert(after =~= vs.update(place as int, (var@, (size, count))));
                    assert forall|i: int, j: int| 0 <= i < j < after.len() implies lex_lt(
                        #[trigger] after[i].0,
                        #[trigger] after[j].0,
                    ) by {
                        assert(after[i].0 == vs[i].0);
                        assert(after[j].0 == vs[j].0);
                    }
                    assert forall|i: int| 0 <= i < after.len() implies (#[trigger] after[i]).1.0
                        * after[i].1.1 <= u64::MAX by {
                        if i != place {
                            assert(after[i] == vs[i]);
                        }
                    }
                    assert(self@.statements =~= old(self)@.statements);
                    assert(self@.params =~= old(self)@.params);
                }
            }
            Ok(())
        } else {
            if size.checked_mul(instances).is_none() {
                return Err(TacError::SizeOverflow);
            }
            self.var_sizes.insert(place, (var, (size, instances)));
            proof {
                let after = self@.var_sizes;
                let entry = (var@, (size, instances));
                assert(after =~= vs.insert(place as int, entry));
                lemma_lex_lt_irreflexive(var@);
                Self::lemma_place(vs, var@, place as int);
                assert forall|i: int, j: int| 0 <= i < j < after.len() implies lex_lt(
                    #[trigger] after[i].0,
                    #[trigger] after[j].0,
                ) by {
                    let a = if i < place { i } else { i - 1 };
                    let b = if j < place { j } else { j - 1 };
                    if i != place {
                        assert(after[i] == vs[a]);
                    }
                    if j != place {
                        assert(after[j] == vs[b]);
                    }
                }
                assert forall|i: int| 0 <= i < after.len() implies (#[trigger] after[i]).1.0
                    * after[i].1.1 <= u64::MAX by {
                    let a = if i < place { i } else { i - 1 };
                    if i != place {
                        assert(after[i] == vs[a]);
                    }
                }
                assert(self@.statements =~= old(self)@.statements);
                assert(self@.params =~= old(self)@.params);
            }
            Ok(())
        }
    }

    /// The names before the place of `name` precede it, and no name from
    /// its place on does.
    proof fn lemma_bound(vs: VarSizes, name: Seq<char>)
        requires
            sizes_wf(vs),
        ensures
            0 <= lower_bound(vs, name) <= vs.len(),
            forall|k: int| 0 <= k < lower_bound(vs, name) ==> lex_lt(#[trigger] vs[k].0, name),
            forall|k: int| lower_bound(vs, name) <= k < vs.len() ==> !lex_lt(#[trigger] vs[k].0, name),
        decreases vs.len(),
    {
        if vs.len() > 0 {
            if lex_lt(vs.last().0, name) {
                assert forall|k: int| 0 <= k < vs.len() implies lex_lt(#[trigger] vs[k].0, name) by {
                    if k < vs.len() - 1 {
                        assert(lex_lt(vs[k].0, vs[vs.len() - 1].0));
                        lemma_lex_lt_transitive(vs[k].0, vs.last().0, name);
                    }
                }
            } else {
                let rest = vs.drop_last();
                assert forall|i: int, j: int| 0 <= i < j < rest.len() implies lex_lt(
                    #[trigger] rest[i].0,
                    #[trigger] rest[j].0,
                ) by {
                    assert(rest[i] == vs[i]);
                    assert(rest[j] == vs[j]);
                }
                assert forall|i: int| 0 <= i < rest.len() implies (#[trigger] rest[i]).1.0
                    * rest[i].1.1 <= u64::MAX by {
                    assert(rest[i] == vs[i]);
                }
                Self::lemma_bound(rest, name);
                let p = lower_bound(rest, name);
                assert forall|k: int| 0 <= k < p implies lex_lt(#[trigger] vs[k].0, name) by {
                    assert(rest[k] == vs[k]);
                }
                assert forall|k: int| p <= k < vs.len() implies !lex_lt(#[trigger] vs[k].0, name) by {
                    if k < rest.len() {
                        assert(rest[k] == vs[k]);
                    }
                }
            }
        }
    }

    /// In a sorted list without `name`, the names before its place precede
    /// it and those from its place on follow it.
    proof fn lemma_place(vs: VarSizes, name: Seq<char>, place: int)
        requires
            sizes_wf(vs),
            place == lower_bound(vs, name),
            !(0 <= place < vs.len() && vs[place].0 == name),
        ensures
            0 <= place <= vs.len(),
            forall|k: int| 0 <= k < place ==> lex_lt(#[trigger] vs[k].0, name),
            forall|k: int| place <= k < vs.len() ==> lex_lt(name, #[trigger] vs[k].0),
    {
        Self::lemma_bound(vs, name);
        assert forall|k: int| place <= k < vs.len() implies lex_lt(name, #[trigger] vs[k].0) by {
            lemma_lex_lt_total(vs[k].0, name);
            if vs[k].0 == name {
                assert(k > place);
                assert(lex_lt(vs[place].0, vs[k].0));
            }
        }
    }

    /// The size of the value `val`.
    pub fn get_val_size(&self, val: &TacValue) -> (r: u64)
        requires
            self.wf(),
        ensures
            r == self@.val_size(val@),
    {
        proof {
            reveal(FuncModel::val_size);
        }
        match val {
            TacValue::Int(_) => 4,
            TacValue::Double(_) => 4,
            TacValue::Var(var) => {
                let (place, found) = self.find_size(var);
                if found {
                    let size = self.var_sizes[place].1;
                    assert(self@.var_sizes[place as int].1 == size);
                    return size.0 * size.1;
                }
                let mut i: usize = 0;
                assert(self@.params.subrange(0, self@.params.len() as int) =~= self@.params);
                assert(self@.val_size(val@) == param_size(self@.params, var@));
                while i < self.params.len()
                    invariant
                        0 <= i <= self.params@.len(),
                        self@.val_size(val@) == param_size(self@.params, var@),
                        param_size(self@.params, var@) == param_size(
                            self@.params.subrange(i as int, self@.params.len() as int),
                            var@,
                        ),
                    decreases self.params@.len() - i,
                {
                    let ghost rest = self@.params.subrange(i as int, self@.params.len() as int);
                    assert(rest[0] == (self.params@[i as int].0@, self.params@[i as int].1));
                    assert(rest.drop_first() =~= self@.params.subrange(
                        i + 1,
                        self@.params.len() as int,
                    ));
                    if self.params[i].0 == *var {
                        assert(param_size(rest, var@) == rest[0].1);
                        return self.params[i].1;
                    }
                    i += 1;
                }
                assert(self@.params.subrange(i as int, self@.params.len() as int).len() == 0);
                0
            },
            _ => 0,
        }
    }

    /// Mints the next temporary, of `var_size` units, for use in scope
    /// `scope`.
    pub fn new_temp_var(&mut self, var_size: u64, scope: usize) -> (r: Result<SymbolDecl, TacError>)
        requires
            old(self).wf(),
        ensures
            final(self).wf(),
            match old(self)@.new_temp(var_size) {
                Ok((f, name)) => r matches Ok(d) && d.name@ == name && d.scope == scope
                    && d.var_type@ == TypeView::Int && final(self)@ == f,
                Err(e) => r == Err::<SymbolDecl, TacError>(e),
            },
    {
        proof {
            reveal(FuncModel::new_temp);
        }
        if self.temp_count == u16::MAX {
            return Err(TacError::TooManyTemporaries);
        }
        let mut name = String::from_str("t");
        append_decimal(&mut name, self.temp_count as u64);
        name.append("_");
        let temp_var = SymbolDecl { name, var_type: BasicType::Int, scope };
        self.temp_count += 1;
        proof {
            assert(self@.statements =~= old(self)@.statements);
            assert(self@.var_sizes =~= old(self)@.var_sizes);
            assert(self@.params =~= old(self)@.params);
            assert(self@ == (FuncModel { temp_count: (old(self).temp_count + 1) as u16, ..old(self)@ }));
        }
        self.set_size(temp_var.name.clone(), var_size, 1)?;
        Ok(temp_var)
    }

    /// Appends the assignment of `op` to `var`, which takes the size of the
    /// first value of `op`.
    pub fn add_assignment(&mut self, var: String, op: TacOperation) -> (r: Result<(), TacError>)
        requires
            old(self).wf(),
        ensures
            final(self).wf(),
            match old(self)@.assign(var@, op@) {
                Ok(f) => r is Ok && final(self)@ == f,
                Err(e) => r == Err::<(), TacError>(e) && *final(self) == *old(self),
            },
    {
        proof {
            reveal(FuncModel::assign);
        }
        let size = self.get_val_size(&op.val1);
        self.set_size(var.clone(), size, 1)?;
        self.emit(TacStatement::Assignment(var, op));
        Ok(())
    }

    /// Appends the push of the variable `var`.
    pub fn add_push_param(&mut self, var: String)
        ensures
            final(self)@ == old(self)@.emit(
                TacStatementView::Command(TacCommand::PushParam, Some(TacValueView::Var(var@))),
            ),
            old(self).wf() ==> final(self).wf(),
    {
        self.emit(TacStatement::Command(TacCommand::PushParam, Some(TacValue::Var(var))));
    }

    /// Appends the pop of `size` units of arguments.
    pub fn add_pop_params(&mut self, size: u64)
        ensures
            final(self)@ == old(self)@.emit(
                TacStatementView::Command(TacCommand::PopParams, Some(TacValueView::Int(size))),
            ),
            old(self).wf() ==> final(self).wf(),
    {
        self.emit(TacStatement::Command(TacCommand::PopParams, Some(TacValue::Int(size))));
    }

    /// Appends the jump to `label`.
    pub fn add_goto(&mut self, label: String)
        ensures
            final(self)@ == old(self)@.emit(
                TacStatementView::Command(TacCommand::Goto, Some(TacValueView::Label(label@))),
            ),
            old(self).wf() ==> final(self).wf(),
    {
        self.emit(TacStatement::Command(TacCommand::Goto, Some(TacValue::Label(label))));
    }

    /// Appends the label `label`.
    pub fn add_label(&mut self, label: String)
        ensures
            final(self)@ == old(self)@.emit(TacStatementView::Label(label@)),
            old(self).wf() ==> final(self).wf(),
    {
        self.emit(TacStatement::Label(label));
    }

    /// Appends a call of `func_name` with the arguments `params`: a push of
    /// each argument, the call, the assignment of its result where
    /// `return_var` takes it, and the pop of the arguments' total size.
    pub fn add_call_func(
        &mut self,
        func_name: String,
        params: Vec<String>,
        return_var: Option<String>,
    ) -> (r: Result<(), TacError>)
        requires
            old(self).wf(),
        ensures
            final(self).wf(),
            match old(self)@.call(
                func_name@,
                names_view(params@),
                match return_var {
                    Some(v) => Some(v@),
                    None => None,
                },
            ) {
                Ok(f) => r is Ok && final(self)@ == f,
                Err(e) => r == Err::<(), TacError>(e),
            },
    {
        proof {
            reveal(FuncModel::call);
        }
        let ghost names = names_view(params@);
        let mut params_size: u64 = 0;
        let mut i: usize = 0;
        while i < params.len()
            invariant
                self.wf(),
                0 <= i <= params@.len(),
                names == names_view(params@),
                old(self)@.push_params(names, 0, 0) == self@.push_params(names, i as int, params_size),
            decreases params@.len() - i,
        {
            let size = self.get_val_size(&TacValue::Var(params[i].clone()));
            assert(names[i as int] == params@[i as int]@);
            let total = match params_size.checked_add(size) {
                Some(t) => t,
                None => {
                    proof {
                        reveal(FuncModel::call);
                    }
                    return Err(TacError::SizeOverflow);
                },
            };
            self.add_push_param(params[i].clone());
            params_size = total;
            i += 1;
        }
        self.emit(
            TacStatement::Command(TacCommand::LCall, Some(TacValue::Label(func_name.clone()))),
        );
        if let Some(var) = return_var {
            self.add_assignment(
                var,
                TacOperation { op: None, val1: TacValue::LCallArgs(func_name), val2: None },
            )?;
        }
        self.add_pop_params(params_size);
        Ok(())
    }

    /// Appends the branch that leaves when `cond_var` is zero, and returns
    /// the label of the `else` part, empty where there is none, and the
    /// label of the end.
    pub fn _add_if(&mut self, cond_var: String, has_else: bool) -> (r: Result<
        (String, String),
        TacError,
    >)
        requires
            old(self).wf(),
        ensures
            final(self).wf(),
            match old(self)@.branch(cond_var@, has_else) {
                Ok((f, else_label, end_label)) => r matches Ok(labels) && labels.0@ == else_label
                    && labels.1@ == end_label && final(self)@ == f,
                Err(e) => r == Err::<(String, String), TacError>(e),
            },
    {
        proof {
            reveal(FuncModel::branch);
        }
        let cond_label = if has_else {
            self.get_next_label(String::from_str("else"))?
        } else {
            self.get_next_label(String::from_str("fi"))?
        };
        self.emit(
            TacStatement::Command(
                TacCommand::IfZ,
                Some(TacValue::IfArgs(cond_var, cond_label.clone())),
            ),
        );
        if has_else {
            let end_label = self.get_next_label(String::from_str("fi"))?;
            Ok((cond_label, end_label))
        } else {
            Ok((String::new(), cond_label))
        }
    }

    /// The value of `op` as an operand: itself where it is a value alone, a
    /// temporary that takes it where it has an operator.
    fn as_value(&mut self, op: TacOperation, scope: usize) -> (r: Result<TacValue, TacError>)
        requires
            old(self).wf(),
        ensures
            final(self).wf(),
            match as_value(old(self)@, op@) {
                Ok((f, v)) => r matches Ok(x) && x@ == v && final(self)@ == f,
                Err(e) => r == Err::<TacValue, TacError>(e),
            },
    {
        proof {
            reveal(as_value);
        }
        if op.op.is_some() {
            let temp_var = self.new_temp_var(self.get_val_size(&op.val1), scope)?;
            self.add_assignment(temp_var.name.clone(), op)?;
            Ok(TacValue::Var(temp_var.name))
        } else {
            Ok(op.val1)
        }
    }

    /// Appends a test whether `v` is greater than zero and returns the
    /// temporary that takes the result.
    fn test_positive(&mut self, v: TacValue, scope: usize) -> (r: Result<String, TacError>)
        requires
            old(self).wf(),
        ensures
            final(self).wf(),
            match test_positive(old(self)@, v@) {
                Ok((f, temp)) => r matches Ok(x) && x@ == temp && final(self)@ == f,
                Err(e) => r == Err::<String, TacError>(e),
            },
    {
        proof {
            reveal(test_positive);
        }
        let temp_var = self.new_temp_var(WORD_SIZE, scope)?;
        let op = TacOperation { op: Some(Token::Ogt), val1: v, val2: Some(TacValue::Int(0)) };
        self.add_assignment(temp_var.name.clone(), op)?;
        Ok(temp_var.name)
    }

    /// Appends a choice between two values: after the branch on `cond_var`,
    /// a new temporary takes `first` where the condition holds and `second`
    /// where it does not. Returns the temporary as a right-hand side.
    fn choose_value(
        &mut self,
        cond_var: String,
        first: TacOperation,
        second: TacOperation,
        scope: usize,
    ) -> (r: Result<TacOperation, TacError>)
        requires
            old(self).wf(),
        ensures
            final(self).wf(),
            match choose_value(old(self)@, cond_var@, first@, second@) {
                Ok((f, op)) => r matches Ok(x) && x@ == op && final(self)@ == f,
                Err(e) => r == Err::<TacOperation, TacError>(e),
            },
    {
        proof {
            reveal(choose_value);
        }
        let (else_label, end_label) = self._add_if(cond_var, true)?;
        let result_var = self.new_temp_var(WORD_SIZE, scope)?;
        self.add_assignment(result_var.name.clone(), first)?;
        self.add_goto(end_label.clone());
        self.add_label(else_label);
        self.add_assignment(result_var.name.clone(), second)?;
        self.add_label(end_label);
        Ok(TacOperation { op: None, val1: TacValue::Var(result_var.name), val2: None })
    }

    /// Appends the code that computes the expression `statement_tree` and
    /// returns the right-hand side that stands for its value.
    pub fn add_statement(&mut self, statement_tree: &StatementTree, scope: usize) -> (r: Result<
        TacOperation,
        TacError,
    >)
        requires
            old(self).wf(),
        ensures
            final(self).wf(),
            match statement_tree.start {
                None => r == Err::<TacOperation, TacError>(TacError::NoStatement),
                Some(start) => match lower(old(self)@, *statement_tree, start, MAX_DEPTH as nat) {
                    Ok((f, op)) => r matches Ok(x) && x@ == op && final(self)@ == f,
                    Err(e) => r == Err::<TacOperation, TacError>(e),
                },
            },
    {
        match statement_tree.start {
            None => Err(TacError::NoStatement),
            Some(start) => self._add_statement(start, statement_tree, scope, MAX_DEPTH),
        }
    }

    /// Appends the code that computes the expression `statement` and
    /// assigns its value to `var`.
    pub fn add_assignment_statement(&mut self, var: String, statement: &StatementTree, scope: usize) -> (r:
        Result<(), TacError>)
        requires
            old(self).wf(),
        ensures
            final(self).wf(),
            match assign_tree(old(self)@, var@, *statement, MAX_DEPTH as nat) {
                Ok(f) => r is Ok && final(self)@ == f,
                Err(e) => r == Err::<(), TacError>(e),
            },
    {
        self.assign_tree(var, statement, scope, MAX_DEPTH)
    }

    /// Appends the code that computes `statement`, descending at most
    /// `depth` levels, and assigns its value to `var`.
    fn assign_tree(&mut self, var: String, statement: &StatementTree, scope: usize, depth: usize) -> (r:
        Result<(), TacError>)
        requires
            old(self).wf(),
        ensures
            final(self).wf(),
            match assign_tree(old(self)@, var@, *statement, depth as nat) {
                Ok(f) => r is Ok && final(self)@ == f,
                Err(e) => r == Err::<(), TacError>(e),
            },
        decreases depth, 1nat,
    {
        match statement.start {
            None => Err(TacError::NoStatement),
            Some(start) => {
                let op = self._add_statement(start, statement, scope, depth)?;
                self.add_assignment(var, op)
            },
        }
    }

    /// Appends the code that computes each of `args` into a temporary of
    /// its own and returns the names of the temporaries.
    fn lower_args(&mut self, args: &Vec<StatementTree>, scope: usize, depth: usize) -> (r: Result<
        Vec<String>,
        TacError,
    >)
        requires
            old(self).wf(),
        ensures
            final(self).wf(),
            match lower_args(old(self)@, args@, 0, Seq::empty(), depth as nat) {
                Ok((f, temps)) => r matches Ok(v) && names_view(v@) == temps
                    && final(self)@ == f,
                Err(e) => r == Err::<Vec<String>, TacError>(e),
            },
        decreases depth, 2nat,
    {
        let mut temp_vars: Vec<String> = Vec::new();
        let mut i: usize = 0;
        let ghost mut temps: Seq<Seq<char>> = Seq::empty();
        while i < args.len()
            invariant
                self.wf(),
                0 <= i <= args@.len(),
                temps == names_view(temp_vars@),
                lower_args(old(self)@, args@, 0, Seq::empty(), depth as nat) == lower_args(
                    self@,
                    args@,
                    i as int,
                    temps,
                    depth as nat,
                ),
            decreases args@.len() - i,
        {
            let temp_var = self.new_temp_var(args[i].get_type_size(), scope)?;
            self.assign_tree(temp_var.name.clone(), &args[i], scope, depth)?;
            proof {
                temps = temps.push(temp_var.name@);
            }
            temp_vars.push(temp_var.name);
            assert(temps =~= names_view(temp_vars@));
            i += 1;
        }
        Ok(temp_vars)
    }

    /// Appends the code of the unary operator `token` on the value held by
    /// `child_var`, whose type is `child_type`, and returns the right-hand
    /// side that stands for the result.
    fn lower_unary(
        &mut self,
        token: &Token,
        child_var: String,
        child_type: &Option<BasicType>,
        scope: usize,
    ) -> (r: Result<TacOperation, TacError>)
        requires
            old(self).wf(),
        ensures
            final(self).wf(),
            match lower_unary(old(self)@, *token, child_var@, *child_type) {
                Ok((f, op)) => r matches Ok(x) && x@ == op && final(self)@ == f,
                Err(e) => r == Err::<TacOperation, TacError>(e),
            },
    {
        proof {
            reveal(lower_unary);
        }
        match token {
            Token::Ominus => {
                let zero = match child_type {
                    Some(BasicType::Double) => TacValue::Double(String::from_str("0")),
                    _ => TacValue::Int(0),
                };
                Ok(
                    TacOperation {
                        op: Some(Token::Ominus),
                        val1: zero,
                        val2: Some(TacValue::Var(child_var)),
                    },
                )
            },
            Token::Soparen => Ok(TacOperation { op: None, val1: TacValue::Var(child_var), val2: None }),
            Token::Knot => {
                let temp = self.test_positive(TacValue::Var(child_var), scope)?;
                self.choose_value(
                    temp,
                    TacOperation { op: None, val1: TacValue::Int(0), val2: None },
                    TacOperation { op: None, val1: TacValue::Int(1), val2: None },
                    scope,
                )
            },
            _ => Err(TacError::InvalidOperator),
        }
    }

    /// Appends the code of the binary operator `token` on the values
    /// `left_val` and `right_val` and returns the right-hand side that
    /// stands for the result.
    fn lower_binary(&mut self, token: &Token, left_val: TacValue, right_val: TacValue, scope: usize) -> (r:
        Result<TacOperation, TacError>)
        requires
            old(self).wf(),
        ensures
            final(self).wf(),
            match lower_binary(old(self)@, *token, left_val@, right_val@) {
                Ok((f, op)) => r matches Ok(x) && x@ == op && final(self)@ == f,
                Err(e) => r == Err::<TacOperation, TacError>(e),
            },
    {
        proof {
            reveal(lower_binary);
        }
        match token {
            Token::Oplus
            | Token::Ominus
            | Token::Omultiply
            | Token::Odivide
            | Token::Omod
            | Token::Oequal
            | Token::Onot
            | Token::Olt
            | Token::Ogt
            | Token::Olte
            | Token::Ogte => Ok(
                TacOperation { op: Some(token.clone()), val1: left_val, val2: Some(right_val) },
            ),
            Token::Kand => {
                let temp = self.test_positive(left_val, scope)?;
                self.choose_value(
                    temp,
                    TacOperation { op: Some(Token::Ogt), val1: right_val, val2: Some(TacValue::Int(0)) },
                    TacOperation { op: None, val1: TacValue::Int(0), val2: None },
                    scope,
                )
            },
            Token::Kor => {
                let temp = self.test_positive(left_val, scope)?;
                self.choose_value(
                    temp,
                    TacOperation { op: None, val1: TacValue::Int(1), val2: None },
                    TacOperation { op: Some(Token::Ogt), val1: right_val, val2: Some(TacValue::Int(0)) },
                    scope,
                )
            },
            _ => Err(TacError::InvalidOperator),
        }
    }

    /// Appends the code that computes the expression rooted at node
    /// `curr_node` of `nodes`, descending at most `depth` levels, and
    /// returns the right-hand side that stands for its value.
    pub fn _add_statement(
        &mut self,
        curr_node: usize,
        nodes: &StatementTree,
        scope: usize,
        depth: usize,
    ) -> (r: Result<TacOperation, TacError>)
        requires
            old(self).wf(),
        ensures
            final(self).wf(),
            match lower(old(self)@, *nodes, curr_node, depth as nat) {
                Ok((f, op)) => r matches Ok(x) && x@ == op && final(self)@ == f,
                Err(e) => r == Err::<TacOperation, TacError>(e),
            },
        decreases depth, 0nat,
    {
        if depth == 0 || curr_node >= nodes.nodes.len() {
            return Err(TacError::BrokenLink);
        }
        let node = &nodes.nodes[curr_node];
        match &node.symbol {
            StatementSymbol::Decl(decl_id) => Ok(
                TacOperation { op: None, val1: TacValue::Var(to_var_name(decl_id)), val2: None },
            ),
            StatementSymbol::Literal(literal) => match literal {
                Token::Tint(value) => Ok(
                    TacOperation { op: None, val1: TacValue::Int(*value as u64), val2: None },
                ),
                Token::Tdouble(text) => Ok(
                    TacOperation { op: None, val1: TacValue::Double(text.clone()), val2: None },
                ),
                _ => Err(TacError::InvalidLiteral),
            },
            StatementSymbol::ArrayAccess(arr_id, index_statement) => {
                let temp_var = self.new_temp_var(WORD_SIZE, scope)?;
                self.assign_tree(temp_var.name.clone(), index_statement, scope, depth - 1)?;
                let index = TacValue::Var(temp_var.name);
                assert(index@ == TacValueView::Var(temp_var.name@));
                Ok(
                    TacOperation {
                        op: None,
                        val1: TacValue::PointerAccess(to_var_name(arr_id), Box::new(index)),
                        val2: None,
                    },
                )
            },
            StatementSymbol::FunctionCall(func_id, args) => {
                let temp_vars = self.lower_args(args, scope, depth - 1)?;
                let return_var = self.new_temp_var(WORD_SIZE, scope)?;
                self.add_call_func(to_var_name(func_id), temp_vars, Some(return_var.name.clone()))?;
                Ok(TacOperation { op: None, val1: TacValue::Var(return_var.name), val2: None })
            },
            StatementSymbol::SingleChildOperator(token) => {
                let left = match node.left {
                    Some(left) => left,
                    None => {
                        return Err(TacError::MissingOperand);
                    },
                };
                let child_op = self._add_statement(left, nodes, scope, depth - 1)?;
                let child_var = self.new_temp_var(self.get_val_size(&child_op.val1), scope)?;
                self.add_assignment(child_var.name.clone(), child_op)?;
                if left < nodes.nodes.len() {
                    self.lower_unary(token, child_var.name, &nodes.nodes[left].node_type, scope)
                } else {
                    self.lower_unary(token, child_var.name, &None, scope)
                }
            },
            StatementSymbol::Operator(token) => {
                if !node.has_both_children() {
                    return Err(TacError::MissingOperand);
                }
                let left_op = self._add_statement(node.left.unwrap(), nodes, scope, depth - 1)?;
                let right_op = self._add_statement(node.right.unwrap(), nodes, scope, depth - 1)?;
                let left_val = self.as_value(left_op, scope)?;
                let right_val = self.as_value(right_op, scope)?;
                self.lower_binary(token, left_val, right_val, scope)
            },
        }
    }

    /// Appends the assignment of the expression `statement` to element
    /// `index` of the array `arr` of `arr_len` elements.
    pub fn add_array_assignment(
        &mut self,
        arr: String,
        index: &StatementTree,
        statement: &StatementTree,
        arr_len: u32,
        scope: usize,
    ) -> (r: Result<(), TacError>)
        requires
            old(self).wf(),
        ensures
            final(self).wf(),
            match assign_element(
                old(self)@,
                arr@,
                *index,
                *statement,
                arr_len as u64,
                MAX_DEPTH as nat,
            ) {
                Ok(f) => r is Ok && final(self)@ == f,
                Err(e) => r == Err::<(), TacError>(e),
            },
    {
        let temp_var = self.new_temp_var(WORD_SIZE, scope)?;
        self.assign_tree(temp_var.name.clone(), index, scope, MAX_DEPTH)?;
        let statement_op = self.add_statement(statement, scope)?;
        let size = self.get_val_size(&statement_op.val1);
        self.set_size(arr.clone(), size, arr_len as u64)?;
        self.emit(TacStatement::PointerAssignment(arr, TacValue::Var(temp_var.name), statement_op));
        Ok(())
    }

    /// Appends the built-in statement `builtin_func`: its operand in a
    /// temporary, then the return of the temporary, or the call of `print`
    /// with it. Returns the temporary.
    pub fn add_builtin_func(&mut self, builtin_func: &BuiltInFunc, scope: usize) -> (r: Result<
        SymbolDecl,
        TacError,
    >)
        requires
            old(self).wf(),
        ensures
            final(self).wf(),
            match builtin_code(
                old(self)@,
                builtin_func.func_type,
                builtin_func.statement,
                MAX_DEPTH as nat,
            ) {
                Ok((f, temp)) => r matches Ok(d) && d.name@ == temp && final(self)@ == f,
                Err(e) => r == Err::<SymbolDecl, TacError>(e),
            },
    {
        let temp_var = self.new_temp_var(builtin_func.statement.get_type_size(), scope)?;
        self.assign_tree(temp_var.name.clone(), &builtin_func.statement, scope, MAX_DEPTH)?;
        match builtin_func.func_type {
            BuiltInFuncType::Return => {
                self.emit(
                    TacStatement::Command(
                        TacCommand::Return,
                        Some(TacValue::Var(temp_var.name.clone())),
                    ),
                );
            },
            BuiltInFuncType::Print => {
                let mut params: Vec<String> = Vec::new();
                params.push(temp_var.name.clone());
                assert(names_view(params@) =~= seq![temp_var.name@]);
                self.add_call_func(String::from_str("print"), params, None)?;
            },
        }
        Ok(temp_var)
    }

    /// Appends the code that opens an `if` on `condition` and returns the
    /// label of the `else` part, empty where there is none, and the label of
    /// the end.
    pub fn add_if(&mut self, condition: &StatementTree, scope: usize, has_else: bool) -> (r: Result<
        (String, String),
        TacError,
    >)
        requires
            old(self).wf(),
        ensures
            final(self).wf(),
            match if_code(old(self)@, *condition, has_else, MAX_DEPTH as nat) {
                Ok((f, else_label, end_label)) => r matches Ok(labels) && labels.0@ == else_label
                    && labels.1@ == end_label && final(self)@ == f,
                Err(e) => r == Err::<(String, String), TacError>(e),
            },
    {
        let cond_var = self.new_temp_var(condition.get_type_size(), scope)?;
        self.assign_tree(cond_var.name.clone(), condition, scope, MAX_DEPTH)?;
        self._add_if(cond_var.name, has_else)
    }

    /// Appends the code that opens a `while` on `condition` and returns the
    /// label of the loop and the label of its end.
    pub fn add_while_statement(&mut self, condition: &StatementTree, scope: usize) -> (r: Result<
        (String, String),
        TacError,
    >)
        requires
            old(self).wf(),
        ensures
            final(self).wf(),
            match while_code(old(self)@, *condition, MAX_DEPTH as nat) {
                Ok((f, while_label, end_label)) => r matches Ok(labels) && labels.0@ == while_label
                    && labels.1@ == end_label && final(self)@ == f,
                Err(e) => r == Err::<(String, String), TacError>(e),
            },
    {
        let while_label = self.get_next_label(String::from_str("while"))?;
        self.add_label(while_label.clone());
        let end_while_label = self.get_next_label(String::from_str("od"))?;
        let cond_var = self.new_temp_var(condition.get_type_size(), scope)?;
        self.assign_tree(cond_var.name.clone(), condition, scope, MAX_DEPTH)?;
        self.emit(
            TacStatement::Command(
                TacCommand::IfZ,
                Some(TacValue::IfArgs(cond_var.name, end_while_label.clone())),
            ),
        );
        Ok((while_label, end_while_label))
    }
}

/// A builder as a mathematical value: its function records and the index of
/// the record that statements go to.
pub struct BuilderModel {
    pub funcs: Seq<FuncModel>,
    pub curr_func: int,
}

/// The record of a function labelled `name` before any code.
pub open spec fn fresh_function(name: Seq<char>) -> FuncModel {
    FuncModel {
        name,
        statements: Seq::empty(),
        var_sizes: Seq::empty(),
        params: Seq::empty(),
        label_count: 0,
        temp_count: 0,
    }
}

impl BuilderModel {
    /// The record that statements go to.
    pub open spec fn curr(self) -> FuncModel {
        self.funcs[self.curr_func]
    }

    /// The builder with `f` in place of the current record.
    pub open spec fn with_curr(self, f: FuncModel) -> BuilderModel {
        BuilderModel { funcs: self.funcs.update(self.curr_func, f), ..self }
    }

    /// The builder with `out.0` in place of the current record, where `out`
    /// is no error.
    pub open spec fn apply<T>(self, out: Result<(FuncModel, T), TacError>) -> Result<
        (BuilderModel, T),
        TacError,
    > {
        match out {
            Ok((f, x)) => Ok((self.with_curr(f), x)),
            Err(e) => Err(e),
        }
    }

    /// The builder with `out` in place of the current record, where `out` is
    /// no error.
    pub open spec fn apply_unit(self, out: Result<FuncModel, TacError>) -> Result<
        BuilderModel,
        TacError,
    > {
        match out {
            Ok(f) => Ok(self.with_curr(f)),
            Err(e) => Err(e),
        }
    }

    /// The builder after a function labelled `name` was added and made
    /// current.
    pub open spec fn add_function(self, name: Seq<char>) -> BuilderModel {
        BuilderModel {
            funcs: self.funcs.push(fresh_function(name)),
            curr_func: self.funcs.len() as int,
        }
    }

    /// The builder with its first record current.
    pub open spec fn reset(self) -> BuilderModel {
        BuilderModel { curr_func: 0, ..self }
    }

    /// The builder after the current function got the parameter `name` of
    /// `size` units.
    pub open spec fn add_parameter(self, name: Seq<char>, size: u64) -> BuilderModel {
        self.with_curr(FuncModel { params: self.curr().params.push((name, size)), ..self.curr() })
    }
}

/// The fetches of the parameters, last parameter first.
pub open spec fn param_fetches(params: Seq<(Seq<char>, u64)>) -> Seq<TacStatementView>
    decreases params.len(),
{
    if params.len() == 0 {
        Seq::empty()
    } else {
        seq![
            TacStatementView::Assignment(
                params.last().0,
                plain(TacValueView::GetParams(params.last().1)),
            ),
        ] + param_fetches(params.drop_last())
    }
}

/// The code of one function: its label, the opening with the frame size,
/// which is the sum of the total sizes of its variables, the fetches of its
/// parameters, its statements and the closing.
pub open spec fn function_code(f: FuncModel) -> Result<Seq<TacStatementView>, TacError> {
    if frame_size(f.var_sizes) > u64::MAX {
        Err(TacError::SizeOverflow)
    } else {
        Ok(
            seq![
                TacStatementView::Label(f.name),
                TacStatementView::Command(
                    TacCommand::BeginFunc,
                    Some(TacValueView::Int(frame_size(f.var_sizes) as u64)),
                ),
            ] + param_fetches(f.params) + f.statements + seq![
                TacStatementView::Command(TacCommand::EndFunc, None),
            ],
        )
    }
}

/// The code of the functions, last function first.
pub open spec fn functions_code(funcs: Seq<FuncModel>) -> Result<Seq<TacStatementView>, TacError>
    decreases funcs.len(),
{
    if funcs.len() == 0 {
        Ok(Seq::empty())
    } else {
        match function_code(funcs.last()) {
            Err(e) => Err(e),
            Ok(code) => match functions_code(funcs.drop_last()) {
                Err(e) => Err(e),
                Ok(rest) => Ok(code + rest),
            },
        }
    }
}

/// The program of the functions: the jump to `main0`, then the code of the
/// functions, last function first.
pub open spec fn program_of(funcs: Seq<FuncModel>) -> Result<Seq<TacStatementView>, TacError> {
    match functions_code(funcs) {
        Err(e) => Err(e),
        Ok(code) => Ok(
            seq![
                TacStatementView::Command(TacCommand::Goto, Some(TacValueView::Label("main0"@))),
            ] + code,
        ),
    }
}

/// The opening of every function of a program carries the sum of the total
/// sizes of the function's variables.
pub proof fn lemma_frame_size_emitted(f: FuncModel)
    requires
        function_code(f) is Ok,
    ensures
        function_code(f)->Ok_0[1] == TacStatementView::Command(
            TacCommand::BeginFunc,
            Some(TacValueView::Int(frame_size(f.var_sizes) as u64)),
        ),
        frame_size(f.var_sizes) <= u64::MAX,
{
}

/// The builder of a program: function records, the first of which is that of
/// the main program, and the index of the record that statements go to.
#[derive(Debug, PartialEq)]
pub struct TacProgramBuilder {
    pub funcs: Vec<TacFunctionInfo>,
    pub curr_func: usize,
}

impl View for TacProgramBuilder {
    type V = BuilderModel;

    open spec fn view(&self) -> BuilderModel {
        BuilderModel {
            funcs: Seq::new(self.funcs@.len(), |i: int| self.funcs@[i]@),
            curr_func: self.curr_func as int,
        }
    }
}

impl TacProgramBuilder {
    /// The builder has a current record, and every record is well formed.
    pub open spec fn wf(self) -> bool {
        &&& self.curr_func < self.funcs@.len()
        &&& forall|i: int| 0 <= i < self.funcs@.len() ==> (#[trigger] self.funcs@[i]).wf()
    }

    /// What holds of a builder whose current record alone changed.
    proof fn lemma_curr_changed(before: TacProgramBuilder, after: TacProgramBuilder)
        requires
            before.wf(),
            after.curr_func == before.curr_func,
            after.funcs@.len() == before.funcs@.len(),
            forall|i: int|
                0 <= i < before.funcs@.len() && i != before.curr_func ==> after.funcs@[i]
                    == before.funcs@[i],
        ensures
            after@ == before@.with_curr(after.funcs@[after.curr_func as int]@),
            after.funcs@[after.curr_func as int].wf() ==> after.wf(),
            before@.curr() == before.funcs@[before.curr_func as int]@,
    {
        assert(after@.funcs =~= before@.funcs.update(
            before.curr_func as int,
            after.funcs@[after.curr_func as int]@,
        ));
    }

    /// The builder before any code: the empty record of the main program.
    pub open spec fn new_model() -> BuilderModel {
        BuilderModel { funcs: seq![fresh_function("main0"@)], curr_func: 0 }
    }

    /// A builder with the record of the main program, labelled `main0`.
    pub fn new() -> (b: Self)
        ensures
            b.wf(),
            b@ == Self::new_model(),
    {
        let mut funcs: Vec<TacFunctionInfo> = Vec::new();
        funcs.push(TacFunctionInfo::new(String::from_str("main0")));
        let b = TacProgramBuilder { funcs, curr_func: 0 };
        assert(b@.funcs =~= seq![fresh_function("main0"@)]);
        b
    }

    /// Adds the record of a function labelled `name`, makes it current and
    /// returns its index.
    pub fn add_function(&mut self, name: String) -> (r: usize)
        requires
            old(self).wf(),
        ensures
            final(self).wf(),
            final(self)@ == old(self)@.add_function(name@),
            r == final(self).curr_func,
    {
        self.funcs.push(TacFunctionInfo::new(name));
        self.curr_func = self.funcs.len() - 1;
        assert(self@.funcs =~= old(self)@.funcs.push(fresh_function(name@)));
        self.curr_func
    }

    /// Makes the record of the main program current.
    pub fn reset_curr_func(&mut self)
        requires
            old(self).wf(),
        ensures
            final(self).wf(),
            final(self)@ == old(self)@.reset(),
    {
        self.curr_func = 0;
        assert(self@.funcs =~= old(self)@.funcs);
    }

    /// Gives the current function the parameter that `decl` declares.
    pub fn add_parameter(&mut self, decl: &SymbolDecl)
        requires
            old(self).wf(),
        ensures
            final(self).wf(),
            final(self)@ == old(self)@.add_parameter(
                mangled(decl.name@, decl.scope as nat),
                decl.var_type@.size() as u64,
            ),
    {
        let name = decl.to_var_name();
        let size = decl.get_size();
        self.funcs[self.curr_func].params.push((name, size));
        proof {
            Self::lemma_curr_changed(*old(self), *self);
            let before = old(self).funcs@[self.curr_func as int];
            let after = self.funcs@[self.curr_func as int];
            assert(after@.params =~= before@.params.push((name@, size)));
            assert(after@.statements =~= before@.statements);
            assert(after@.var_sizes =~= before@.var_sizes);
        }
    }

    /// Mints the next label of the current function with the prefix
    /// `label`.
    pub fn get_next_label(&mut self, label: String) -> (r: Result<String, TacError>)
        requires
            old(self).wf(),
        ensures
            final(self).wf(),
            match old(self)@.apply(old(self)@.curr().next_label(label@)) {
                Ok((b, l)) => r matches Ok(s) && s@ == l && final(self)@ == b,
                Err(e) => r == Err::<String, TacError>(e),
            },
    {
        let r = self.funcs[self.curr_func].get_next_label(label);
        proof {
            Self::lemma_curr_changed(*old(self), *self);
        }
        r
    }

    /// Mints the next temporary of the current function, of `var_size`
    /// units, for use in scope `scope`.
    pub fn new_temp_var(&mut self, var_size: u64, scope: usize) -> (r: Result<SymbolDecl, TacError>)
        requires
            old(self).wf(),
        ensures
            final(self).wf(),
            match old(self)@.apply(old(self)@.curr().new_temp(var_size)) {
                Ok((b, name)) => r matches Ok(d) && d.name@ == name && d.scope == scope
                    && final(self)@ == b,
                Err(e) => r == Err::<SymbolDecl, TacError>(e),
            },
    {
        let r = self.funcs[self.curr_func].new_temp_var(var_size, scope);
        proof {
            Self::lemma_curr_changed(*old(self), *self);
        }
        r
    }

    /// Appends to the current function the code that computes the
    /// expression `statement_tree` and returns the right-hand side that
    /// stands for its value.
    pub fn add_statement(&mut self, statement_tree: &StatementTree, scope: usize) -> (r: Result<
        TacOperation,
        TacError,
    >)
        requires
            old(self).wf(),
        ensures
            final(self).wf(),
            match statement_tree.start {
                None => r == Err::<TacOperation, TacError>(TacError::NoStatement),
                Some(start) => match old(self)@.apply(
                    lower(old(self)@.curr(), *statement_tree, start, MAX_DEPTH as nat),
                ) {
                    Ok((b, op)) => r matches Ok(x) && x@ == op && final(self)@ == b,
                    Err(e) => r == Err::<TacOperation, TacError>(e),
                },
            },
    {
        let r = self.funcs[self.curr_func].add_statement(statement_tree, scope);
        proof {
            Self::lemma_curr_changed(*old(self), *self);
        }
        r
    }

    /// Appends to the current function the assignment of `op` to `var`.
    pub fn add_assignment(&mut self, var: String, op: TacOperation) -> (r: Result<(), TacError>)
        requires
            old(self).wf(),
        ensures
            final(self).wf(),
            match old(self)@.apply_unit(old(self)@.curr().assign(var@, op@)) {
                Ok(b) => r is Ok && final(self)@ == b,
                Err(e) => r == Err::<(), TacError>(e),
            },
    {
        let r = self.funcs[self.curr_func].add_assignment(var, op);
        proof {
            Self::lemma_curr_changed(*old(self), *self);
        }
        r
    }

    /// Appends to the current function the code that computes the
    /// expression `statement` and assigns its value to `var`.
    pub fn add_assignment_statement(&mut self, var: String, statement: &StatementTree, scope: usize) -> (r:
        Result<(), TacError>)
        requires
            old(self).wf(),
        ensures
            final(self).wf(),
            match old(self)@.apply_unit(
                assign_tree(old(self)@.curr(), var@, *statement, MAX_DEPTH as nat),
            ) {
                Ok(b) => r is Ok && final(self)@ == b,
                Err(e) => r == Err::<(), TacError>(e),
            },
    {
        let r = self.funcs[self.curr_func].add_assignment_statement(var, statement, scope);
        proof {
            Self::lemma_curr_changed(*old(self), *self);
        }
        r
    }

    /// Appends to the current function the assignment of the expression
    /// `statement` to element `index` of the array `arr` of `arr_len`
    /// elements.
    pub fn add_array_assignment(
        &mut self,
        arr: String,
        index: &StatementTree,
        statement: &StatementTree,
        arr_len: u32,
        scope: usize,
    ) -> (r: Result<(), TacError>)
        requires
            old(self).wf(),
        ensures
            final(self).wf(),
            match old(self)@.apply_unit(
                assign_element(
                    old(self)@.curr(),
                    arr@,
                    *index,
                    *statement,
                    arr_len as u64,
                    MAX_DEPTH as nat,
                ),
            ) {
                Ok(b) => r is Ok && final(self)@ == b,
                Err(e) => r == Err::<(), TacError>(e),
            },
    {
        let r = self.funcs[self.curr_func].add_array_assignment(arr, index, statement, arr_len, scope);
        proof {
            Self::lemma_curr_changed(*old(self), *self);
        }
        r
    }

    /// Appends to the current function the push of the variable `var`.
    pub fn add_push_param(&mut self, var: String)
        requires
            old(self).wf(),
        ensures
            final(self).wf(),
            final(self)@ == old(self)@.with_curr(
                old(self)@.curr().emit(
                    TacStatementView::Command(TacCommand::PushParam, Some(TacValueView::Var(var@))),
                ),
            ),
    {
        self.funcs[self.curr_func].add_push_param(var);
        proof {
            Self::lemma_curr_changed(*old(self), *self);
        }
    }

    /// Appends to the current function the pop of `size` units of
    /// arguments.
    pub fn add_pop_params(&mut self, size: u64)
        requires
            old(self).wf(),
        ensures
            final(self).wf(),
            final(self)@ == old(self)@.with_curr(
                old(self)@.curr().emit(
                    TacStatementView::Command(TacCommand::PopParams, Some(TacValueView::Int(size))),
                ),
            ),
    {
        self.funcs[self.curr_func].add_pop_params(size);
        proof {
            Self::lemma_curr_changed(*old(self), *self);
        }
    }

    /// Appends to the current function a call of `func_name` with the
    /// arguments `params`, whose result `return_var` takes where it is
    /// given.
    pub fn add_call_func(
        &mut self,
        func_name: String,
        params: Vec<String>,
        return_var: Option<String>,
    ) -> (r: Result<(), TacError>)
        requires
            old(self).wf(),
        ensures
            final(self).wf(),
            match old(self)@.apply_unit(
                old(self)@.curr().call(
                    func_name@,
                    names_view(params@),
                    match return_var {
                        Some(v) => Some(v@),
                        None => None,
                    },
                ),
            ) {
                Ok(b) => r is Ok && final(self)@ == b,
                Err(e) => r == Err::<(), TacError>(e),
            },
    {
        let r = self.funcs[self.curr_func].add_call_func(func_name, params, return_var);
        proof {
            Self::lemma_curr_changed(*old(self), *self);
        }
        r
    }

    /// Appends to the current function the built-in statement
    /// `builtin_func` and returns the temporary that holds its operand.
    pub fn add_builtin_func(&mut self, builtin_func: &BuiltInFunc, scope: usize) -> (r: Result<
        SymbolDecl,
        TacError,
    >)
        requires
            old(self).wf(),
        ensures
            final(self).wf(),
            match old(self)@.apply(
                builtin_code(
                    old(self)@.curr(),
                    builtin_func.func_type,
                    builtin_func.statement,
                    MAX_DEPTH as nat,
                ),
            ) {
                Ok((b, temp)) => r matches Ok(d) && d.name@ == temp && final(self)@ == b,
                Err(e) => r == Err::<SymbolDecl, TacError>(e),
            },
    {
        let r = self.funcs[self.curr_func].add_builtin_func(builtin_func, scope);
        proof {
            Self::lemma_curr_changed(*old(self), *self);
        }
        r
    }

    /// Appends to the current function the jump to `label`.
    pub fn add_goto(&mut self, label: String)
        requires
            old(self).wf(),
        ensures
            final(self).wf(),
            final(self)@ == old(self)@.with_curr(
                old(self)@.curr().emit(
                    TacStatementView::Command(TacCommand::Goto, Some(TacValueView::Label(label@))),
                ),
            ),
    {
        self.funcs[self.curr_func].add_goto(label);
        proof {
            Self::lemma_curr_changed(*old(self), *self);
        }
    }

    /// Appends to the current function the label `label`.
    pub fn add_label(&mut self, label: String)
        requires
            old(self).wf(),
        ensures
            final(self).wf(),
            final(self)@ == old(self)@.with_curr(
                old(self)@.curr().emit(TacStatementView::Label(label@)),
            ),
    {
        self.funcs[self.curr_func].add_label(label);
        proof {
            Self::lemma_curr_changed(*old(self), *self);
        }
    }

    /// Appends to the current function the code that opens an `if` on
    /// `condition` and returns the label of the `else` part, empty where
    /// there is none, and the label of the end.
    pub fn add_if(&mut self, condition: &StatementTree, scope: usize, has_else: bool) -> (r: Result<
        (String, String),
        TacError,
    >)
        requires
            old(self).wf(),
        ensures
            final(self).wf(),
            match if_code(old(self)@.curr(), *condition, has_else, MAX_DEPTH as nat) {
                Ok((f, else_label, end_label)) => r matches Ok(labels) && labels.0@ == else_label
                    && labels.1@ == end_label && final(self)@ == old(self)@.with_curr(f),
                Err(e) => r == Err::<(String, String), TacError>(e),
            },
    {
        let r = self.funcs[self.curr_func].add_if(condition, scope, has_else);
        proof {
            Self::lemma_curr_changed(*old(self), *self);
        }
        r
    }

    /// Appends to the current function the code that opens a `while` on
    /// `condition` and returns the label of the loop and the label of its
    /// end.
    pub fn add_while_statement(&mut self, condition: &StatementTree, scope: usize) -> (r: Result<
        (String, String),
        TacError,
    >)
        requires
            old(self).wf(),
        ensures
            final(self).wf(),
            match while_code(old(self)@.curr(), *condition, MAX_DEPTH as nat) {
                Ok((f, while_label, end_label)) => r matches Ok(labels) && labels.0@ == while_label
                    && labels.1@ == end_label && final(self)@ == old(self)@.with_curr(f),
                Err(e) => r == Err::<(String, String), TacError>(e),
            },
    {
        let r = self.funcs[self.curr_func].add_while_statement(condition, scope);
        proof {
            Self::lemma_curr_changed(*old(self), *self);
        }
        r
    }

    /// The size of the value `val` in the current function.
    pub fn get_val_size(&self, val: &TacValue) -> (r: u64)
        requires
            self.wf(),
        ensures
            r == self@.curr().val_size(val@),
    {
        self.funcs[self.curr_func].get_val_size(val)
    }

    /// The program: the jump to `main0`, then the code of each function,
    /// last function first.
    pub fn get_program(self) -> (r: Result<TacProgram, TacError>)
        requires
            self.wf(),
        ensures
            match program_of(self@.funcs) {
                Ok(code) => r matches Ok(p) && program_view(p@) == code,
                Err(e) => r == Err::<TacProgram, TacError>(e),
            },
    {
        let mut program: TacProgram = Vec::new();
        program.push(
            TacStatement::Command(TacCommand::Goto, Some(TacValue::Label(String::from_str("main0")))),
        );
        let ghost all = self@.funcs;
        let ghost head = program_view(program@);
        let mut funcs = self.funcs;
        assert(head =~= seq![
            TacStatementView::Command(TacCommand::Goto, Some(TacValueView::Label("main0"@))),
        ]);
        let ghost mut done: Seq<TacStatementView> = Seq::empty();
        assert(Seq::new(funcs@.len(), |i: int| funcs@[i]@) =~= all);
        while funcs.len() > 0
            invariant
                all == self@.funcs,
                forall|i: int| 0 <= i < funcs@.len() ==> (#[trigger] funcs@[i]).wf(),
                program_view(program@) == head + done,
                match functions_code(Seq::new(funcs@.len(), |i: int| funcs@[i]@)) {
                    Ok(rest) => functions_code(all) == Ok::<Seq<TacStatementView>, TacError>(
                        done + rest,
                    ),
                    Err(e) => functions_code(all) == Err::<Seq<TacStatementView>, TacError>(e),
                },
            decreases funcs@.len(),
        {
            let ghost before = Seq::new(funcs@.len(), |i: int| funcs@[i]@);
            let func = funcs.pop().unwrap();
            proof {
                assert(before.last() == func@);
                assert(before.drop_last() =~= Seq::new(funcs@.len(), |i: int| funcs@[i]@));
            }
            let code = function_statements(func)?;
            let ghost code_view = program_view(code@);
            let mut code = code;
            let ghost program_before = program@;
            program.append(&mut code);
            proof {
                assert(program_view(program@) =~= program_view(program_before) + code_view);
                assert(head + done + code_view =~= head + (done + code_view));
                match functions_code(before.drop_last()) {
                    Ok(rest) => {
                        assert(done + (code_view + rest) =~= (done + code_view) + rest);
                    },
                    Err(_) => {},
                }
                done = done + code_view;
            }
        }
        proof {
            assert(Seq::new(funcs@.len(), |i: int| funcs@[i]@) =~= Seq::<FuncModel>::empty());
            assert(done + Seq::<TacStatementView>::empty() =~= done);
        }
        Ok(program)
    }
}

/// The statements of the code of the function `func`.
pub fn function_statements(func: TacFunctionInfo) -> (r: Result<Vec<TacStatement>, TacError>)
    requires
        func.wf(),
    ensures
        match function_code(func@) {
            Ok(code) => r matches Ok(p) && program_view(p@) == code,
            Err(e) => r == Err::<Vec<TacStatement>, TacError>(e),
        },
{
    let ghost model = func@;
    let TacFunctionInfo { name, statements, var_sizes, params, label_count: _, temp_count: _ } = func;
    let mut total: u64 = 0;
    let mut i: usize = 0;
    while i < var_sizes.len()
        invariant
            0 <= i <= var_sizes@.len(),
            model == func@,
            sizes_wf(model.var_sizes),
            model.var_sizes == Seq::new(
                var_sizes@.len(),
                |i: int| (var_sizes@[i].0@, var_sizes@[i].1),
            ),
            total == frame_size(model.var_sizes.take(i as int)),
        decreases var_sizes@.len() - i,
    {
        let size = var_sizes[i].1;
        proof {
            let next = model.var_sizes.take(i + 1);
            assert(next.drop_last() =~= model.var_sizes.take(i as int));
            assert(next.last() == model.var_sizes[i as int]);
            assert(model.var_sizes[i as int].1 == size);
            lemma_frame_size_grows(model.var_sizes, i + 1);
        }
        let product = size.0 * size.1;
        total = match total.checked_add(product) {
            Some(t) => t,
            None => {
                return Err(TacError::SizeOverflow);
            },
        };
        i += 1;
    }
    assert(model.var_sizes.take(i as int) =~= model.var_sizes);
    let mut program: Vec<TacStatement> = Vec::new();
    program.push(TacStatement::Label(name));
    program.push(TacStatement::Command(TacCommand::BeginFunc, Some(TacValue::Int(total))));
    let ghost opening = program_view(program@);
    assert(opening =~= seq![
        TacStatementView::Label(model.name),
        TacStatementView::Command(TacCommand::BeginFunc, Some(TacValueView::Int(total))),
    ]);
    let mut params = params;
    let ghost mut fetched: Seq<TacStatementView> = Seq::empty();
    assert(Seq::new(params@.len(), |i: int| (params@[i].0@, params@[i].1)) =~= model.params);
    while params.len() > 0
        invariant
            program_view(program@) == opening + fetched,
            param_fetches(model.params) == fetched + param_fetches(
                Seq::new(params@.len(), |i: int| (params@[i].0@, params@[i].1)),
            ),
        decreases params@.len(),
    {
        let ghost before = Seq::new(params@.len(), |i: int| (params@[i].0@, params@[i].1));
        let param = params.pop().unwrap();
        let ghost fetch = TacStatementView::Assignment(
            param.0@,
            plain(TacValueView::GetParams(param.1)),
        );
        let ghost program_before = program@;
        program.push(
            TacStatement::Assignment(
                param.0,
                TacOperation { op: None, val1: TacValue::GetParams(param.1), val2: None },
            ),
        );
        proof {
            assert(before.last() == (param.0@, param.1));
            assert(before.drop_last() =~= Seq::new(
                params@.len(),
                |i: int| (params@[i].0@, params@[i].1),
            ));
            assert(program_view(program@) =~= program_view(program_before).push(fetch));
            assert(opening + fetched.push(fetch) =~= (opening + fetched).push(fetch));
            assert(fetched + (seq![fetch] + param_fetches(before.drop_last())) =~= fetched.push(fetch)
                + param_fetches(before.drop_last()));
            fetched = fetched.push(fetch);
        }
    }
    proof {
        assert(Seq::new(params@.len(), |i: int| (params@[i].0@, params@[i].1)) =~= Seq::<
            (Seq<char>, u64),
        >::empty());
        assert(fetched + Seq::<TacStatementView>::empty() =~= fetched);
    }
    let ghost program_before = program@;
    let mut statements = statements;
    let ghost body = program_view(statements@);
    program.append(&mut statements);
    assert(program_view(program@) =~= program_view(program_before) + body);
    let ghost program_before = program@;
    program.push(TacStatement::Command(TacCommand::EndFunc, None));
    assert(program_view(program@) =~= program_view(program_before) + seq![
        TacStatementView::Command(TacCommand::EndFunc, None),
    ]);
    Ok(program)
}

/// The sum over a longer prefix of the sizes is no smaller, and the sum over
/// any prefix is no larger than the sum over all.
pub proof fn lemma_frame_size_grows(vs: VarSizes, n: int)
    requires
        0 <= n <= vs.len(),
    ensures
        frame_size(vs.take(n)) <= frame_size(vs),
    decreases vs.len() - n,
{
    if n < vs.len() {
        let next = vs.take(n + 1);
        assert(next.drop_last() =~= vs.take(n));
        lemma_frame_size_grows(vs, n + 1);
    } else {
        assert(vs.take(n) =~= vs);
    }
}

} // verus!
