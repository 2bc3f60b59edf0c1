//! Labels and jumps of generated code: every label that the generator
//! mints for a function is placed once in the function, and every jump of
//! the function leads to one of them.

use vstd::prelude::*;
use crate::statement_tree::{StatementSymbol, StatementTree};
use crate::symbol_declaration::{mangled, BasicType};
use crate::intermediate_code_generation::{else_body, gen_entries, gen_entry, gen_if, gen_scope,
    gen_while, with_goto, with_label};
use crate::symbol_table::{BuiltInFuncType, ConditionalStatement, ConditionalStatementType,
    SymbolEntry, SymbolTable};
use crate::tac::{TacCommand, TacOperationView, TacStatementView, TacValueView};
use crate::tac_program_builder::{as_value, assign_element, assign_tree, binary, builtin_code,
    choose_value, if_code, lower, lower_args, lower_binary, lower_unary, plain, test_positive,
    while_code, BuilderModel, FuncModel, TacProgramBuilder, MAX_DEPTH, WORD_SIZE};
use crate::text::{decimal, digit_char};
use crate::token::Token;

verus! {

/// The label that a statement defines.
pub open spec fn defined_label(s: TacStatementView) -> Option<Seq<char>> {
    match s {
        TacStatementView::Label(l) => Some(l),
        _ => None,
    }
}

/// The label that a statement jumps to.
pub open spec fn jump_target(s: TacStatementView) -> Option<Seq<char>> {
    match s {
        TacStatementView::Command(TacCommand::Goto, Some(TacValueView::Label(l))) => Some(l),
        TacStatementView::Command(TacCommand::IfZ, Some(TacValueView::IfArgs(_, l))) => Some(l),
        _ => None,
    }
}

/// Whether a statement neither defines a label nor jumps.
pub open spec fn is_quiet(s: TacStatementView) -> bool {
    defined_label(s) is None && jump_target(s) is None
}

/// Whether `p` is a prefix that the generator mints labels with.
pub open spec fn is_prefix(p: Seq<char>) -> bool {
    p == "else"@ || p == "fi"@ || p == "while"@ || p == "od"@
}

/// Whether `l` is a label with number `k`.
pub open spec fn names(l: Seq<char>, k: nat) -> bool {
    exists|p: Seq<char>| is_prefix(p) && l == #[trigger] (p + decimal(k))
}

/// Whether the character is a decimal digit.
pub open spec fn is_digit(c: char) -> bool {
    0x30 <= c as u32 <= 0x39
}

/// A numeral ends in the digit of its number's remainder by ten, after the
/// numeral of the number's tenth where that is not zero.
pub proof fn lemma_decimal_shape(k: nat)
    ensures
        decimal(k).len() >= 1,
        decimal(k).last() == digit_char(k % 10),
        is_digit(decimal(k).last()),
        k >= 10 ==> decimal(k).drop_last() == decimal(k / 10),
        k < 10 ==> decimal(k).len() == 1,
{
    if k >= 10 {
        assert(decimal(k).drop_last() =~= decimal(k / 10));
    }
    let d = k % 10;
    assert(digit_char(d) as u32 == 0x30 + d) by {
        assert(0x30 + d < 256);
    }
}

/// A prefix is not empty and does not end in a digit.
pub proof fn lemma_prefix_shape(p: Seq<char>)
    requires
        is_prefix(p),
    ensures
        p.len() >= 1,
        !is_digit(p.last()),
{
    reveal_strlit("else");
    reveal_strlit("fi");
    reveal_strlit("while");
    reveal_strlit("od");
}

/// The digits of two numbers with one remainder by ten are the same only if
/// the remainders are.
proof fn lemma_digit_injective(a: nat, b: nat)
    requires
        a < 10,
        b < 10,
        digit_char(a) == digit_char(b),
    ensures
        a == b,
{
    assert(digit_char(a) as u32 == 0x30 + a) by {
        assert(0x30 + a < 256);
    }
    assert(digit_char(b) as u32 == 0x30 + b) by {
        assert(0x30 + b < 256);
    }
}

/// Two labels with different numbers differ, whatever their prefixes.
pub proof fn lemma_label_number(left: Seq<char>, k1: nat, right: Seq<char>, k2: nat)
    requires
        is_prefix(left),
        is_prefix(right),
        left + decimal(k1) == right + decimal(k2),
    ensures
        k1 == k2,
    decreases k1,
{
    lemma_decimal_shape(k1);
    lemma_decimal_shape(k2);
    lemma_prefix_shape(left);
    lemma_prefix_shape(right);
    let first = left + decimal(k1);
    let second = right + decimal(k2);
    assert(first.last() == decimal(k1).last());
    assert(second.last() == decimal(k2).last());
    lemma_digit_injective(k1 % 10, k2 % 10);
    assert(first.drop_last() =~= left + decimal(k1).drop_last());
    assert(second.drop_last() =~= right + decimal(k2).drop_last());
    if k1 >= 10 && k2 >= 10 {
        lemma_label_number(left, k1 / 10, right, k2 / 10);
    } else if k1 >= 10 {
        assert(decimal(k2).drop_last() =~= Seq::<char>::empty());
        assert(right + Seq::<char>::empty() =~= right);
        lemma_decimal_shape(k1 / 10);
        assert((left + decimal(k1 / 10)).last() == decimal(k1 / 10).last());
    } else if k2 >= 10 {
        assert(decimal(k1).drop_last() =~= Seq::<char>::empty());
        assert(left + Seq::<char>::empty() =~= left);
        lemma_decimal_shape(k2 / 10);
        assert((right + decimal(k2 / 10)).last() == decimal(k2 / 10).last());
    }
}

/// A label has one number only.
pub proof fn lemma_names_one_number(l: Seq<char>, k1: nat, k2: nat)
    requires
        names(l, k1),
        names(l, k2),
    ensures
        k1 == k2,
{
    let left = choose|p: Seq<char>| is_prefix(p) && l == #[trigger] (p + decimal(k1));
    let right = choose|p: Seq<char>| is_prefix(p) && l == #[trigger] (p + decimal(k2));
    lemma_label_number(left, k1, right, k2);
}

/// The labels that a function minted: the name of each, by number, and the
/// place of the statement that defines it, where it is placed.
pub struct Ledger {
    pub name: Seq<Seq<char>>,
    pub placed: Seq<Option<int>>,
}

/// Whether label `k` of the ledger is placed at statement `i`.
pub open spec fn placed_at(g: Ledger, k: int, i: int) -> bool {
    0 <= k < g.placed.len() && g.placed[k] == Some(i)
}

/// Whether label `k` of the ledger is called `l`.
pub open spec fn called(g: Ledger, k: int, l: Seq<char>) -> bool {
    0 <= k < g.name.len() && g.name[k] == l
}

/// Whether the ledger `g` accounts for the statements `stmts` of a function
/// that minted `count` labels: it has the name of each label, which carries
/// the label's number; a placed label is defined by the statement at its
/// place; every statement that defines a label is the place of a label; and
/// every jump leads to a label of the ledger.
pub open spec fn balanced(stmts: Seq<TacStatementView>, count: nat, g: Ledger) -> bool {
    &&& g.name.len() == count
    &&& g.placed.len() == count
    &&& forall|k: int| 0 <= k < count ==> names(#[trigger] g.name[k], k as nat)
    &&& forall|k: int, i: int| #[trigger]
        placed_at(g, k, i) ==> 0 <= i < stmts.len() && stmts[i] == TacStatementView::Label(
            g.name[k],
        )
    &&& forall|i: int|
        0 <= i < stmts.len() && defined_label(#[trigger] stmts[i]) is Some ==> exists|k: int|
            placed_at(g, k, i)
    &&& forall|i: int|
        0 <= i < stmts.len() && jump_target(#[trigger] stmts[i]) is Some ==> exists|k: int|
            called(g, k, jump_target(stmts[i])->0)
}

/// Whether every label of the ledger is placed.
pub open spec fn settled(g: Ledger) -> bool {
    forall|k: int| 0 <= k < g.placed.len() ==> (#[trigger] g.placed[k]) is Some
}

/// Whether the ledger `g2` continues the ledger `g`: it keeps the names and
/// the places of `g`, and every label it adds is placed.
pub open spec fn grows(g: Ledger, g2: Ledger) -> bool {
    &&& g.name.len() <= g2.name.len()
    &&& g.placed.len() <= g2.placed.len()
    &&& g.name.len() == g.placed.len()
    &&& g2.name.len() == g2.placed.len()
    &&& forall|k: int| 0 <= k < g.name.len() ==> #[trigger] g2.name[k] == g.name[k]
    &&& forall|k: int| 0 <= k < g.placed.len() ==> #[trigger] g2.placed[k] == g.placed[k]
    &&& forall|k: int| g.placed.len() <= k < g2.placed.len() ==> (#[trigger] g2.placed[k]) is Some
}

/// A ledger continues itself, and continuing is transitive.
pub proof fn lemma_grows(g: Ledger, g2: Ledger, g3: Ledger)
    requires
        grows(g, g2),
        grows(g2, g3),
    ensures
        grows(g, g3),
        grows(g2, g2),
{
}

/// A statement that neither defines a label nor jumps leaves the account
/// as it is.
pub proof fn lemma_quiet(stmts: Seq<TacStatementView>, count: nat, g: Ledger, s: TacStatementView)
    requires
        balanced(stmts, count, g),
        is_quiet(s),
    ensures
        balanced(stmts.push(s), count, g),
{
    let after = stmts.push(s);
    assert forall|k: int, i: int| #[trigger] placed_at(g, k, i) implies 0 <= i < after.len()
        && after[i] == TacStatementView::Label(g.name[k]) by {
        assert(after[i] == stmts[i]);
    }
    assert forall|i: int|
        0 <= i < after.len() && defined_label(#[trigger] after[i]) is Some implies exists|k: int|
        placed_at(g, k, i) by {
        assert(after[i] == stmts[i]);
    }
    assert forall|i: int|
        0 <= i < after.len() && jump_target(#[trigger] after[i]) is Some implies exists|k: int|
        called(g, k, jump_target(after[i])->0) by {
        assert(after[i] == stmts[i]);
    }
}

/// Statements that neither define labels nor jump leave the account as it
/// is.
pub proof fn lemma_quiet_tail(
    stmts: Seq<TacStatementView>,
    count: nat,
    g: Ledger,
    tail: Seq<TacStatementView>,
)
    requires
        balanced(stmts, count, g),
        forall|i: int| 0 <= i < tail.len() ==> is_quiet(#[trigger] tail[i]),
    ensures
        balanced(stmts + tail, count, g),
    decreases tail.len(),
{
    if tail.len() == 0 {
        assert(stmts + tail =~= stmts);
    } else {
        lemma_quiet_tail(stmts, count, g, tail.drop_last());
        lemma_quiet(stmts + tail.drop_last(), count, g, tail.last());
        assert((stmts + tail.drop_last()).push(tail.last()) =~= stmts + tail);
    }
}

/// A label that is minted enters the ledger unplaced.
pub proof fn lemma_mint(stmts: Seq<TacStatementView>, count: nat, g: Ledger, prefix: Seq<char>) -> (g2:
    Ledger)
    requires
        balanced(stmts, count, g),
        is_prefix(prefix),
    ensures
        balanced(stmts, count + 1, g2),
        g2 == (Ledger { name: g.name.push(prefix + decimal(count)), placed: g.placed.push(None) }),
{
    let label = prefix + decimal(count);
    let g2 = Ledger { name: g.name.push(label), placed: g.placed.push(None) };
    assert(names(label, count));
    assert forall|k: int| 0 <= k < count + 1 implies names(#[trigger] g2.name[k], k as nat) by {
        if k < count {
            assert(g2.name[k] == g.name[k]);
        }
    }
    assert forall|k: int, i: int| #[trigger] placed_at(g2, k, i) implies 0 <= i < stmts.len()
        && stmts[i] == TacStatementView::Label(g2.name[k]) by {
        assert(placed_at(g, k, i));
    }
    assert forall|i: int|
        0 <= i < stmts.len() && defined_label(#[trigger] stmts[i]) is Some implies exists|k: int|
        placed_at(g2, k, i) by {
        let k = choose|k: int| placed_at(g, k, i);
        assert(placed_at(g2, k, i));
    }
    assert forall|i: int|
        0 <= i < stmts.len() && jump_target(#[trigger] stmts[i]) is Some implies exists|k: int|
        called(g2, k, jump_target(stmts[i])->0) by {
        let k = choose|k: int| called(g, k, jump_target(stmts[i])->0);
        assert(called(g2, k, jump_target(stmts[i])->0));
    }
    g2
}

/// The statement that defines an unplaced label places it.
pub proof fn lemma_place(stmts: Seq<TacStatementView>, count: nat, g: Ledger, k: int) -> (g2: Ledger)
    requires
        balanced(stmts, count, g),
        0 <= k < count,
        g.placed[k] is None,
    ensures
        balanced(stmts.push(TacStatementView::Label(g.name[k])), count, g2),
        g2 == (Ledger { name: g.name, placed: g.placed.update(k, Some(stmts.len() as int)) }),
{
    let after = stmts.push(TacStatementView::Label(g.name[k]));
    let g2 = Ledger { name: g.name, placed: g.placed.update(k, Some(stmts.len() as int)) };
    assert forall|k2: int, i: int| #[trigger] placed_at(g2, k2, i) implies 0 <= i < after.len()
        && after[i] == TacStatementView::Label(g2.name[k2]) by {
        if k2 != k {
            assert(placed_at(g, k2, i));
            assert(after[i] == stmts[i]);
        }
    }
    assert forall|i: int|
        0 <= i < after.len() && defined_label(#[trigger] after[i]) is Some implies exists|k2: int|
        placed_at(g2, k2, i) by {
        if i < stmts.len() {
            assert(after[i] == stmts[i]);
            let k2 = choose|k2: int| placed_at(g, k2, i);
            assert(k2 != k);
            assert(placed_at(g2, k2, i));
        } else {
            assert(placed_at(g2, k, i));
        }
    }
    assert forall|i: int|
        0 <= i < after.len() && jump_target(#[trigger] after[i]) is Some implies exists|k2: int|
        called(g2, k2, jump_target(after[i])->0) by {
        assert(after[i] == stmts[i]);
        let k2 = choose|k2: int| called(g, k2, jump_target(stmts[i])->0);
        assert(called(g2, k2, jump_target(after[i])->0));
    }
    g2
}

/// A jump to a label of the ledger leaves the account as it is.
pub proof fn lemma_jump(stmts: Seq<TacStatementView>, count: nat, g: Ledger, s: TacStatementView, k: int)
    requires
        balanced(stmts, count, g),
        defined_label(s) is None,
        0 <= k < count,
        jump_target(s) == Some(g.name[k]),
    ensures
        balanced(stmts.push(s), count, g),
{
    let after = stmts.push(s);
    assert forall|k2: int, i: int| #[trigger] placed_at(g, k2, i) implies 0 <= i < after.len()
        && after[i] == TacStatementView::Label(g.name[k2]) by {
        assert(after[i] == stmts[i]);
    }
    assert forall|i: int|
        0 <= i < after.len() && defined_label(#[trigger] after[i]) is Some implies exists|k2: int|
        placed_at(g, k2, i) by {
        assert(after[i] == stmts[i]);
    }
    assert forall|i: int|
        0 <= i < after.len() && jump_target(#[trigger] after[i]) is Some implies exists|k2: int|
        called(g, k2, jump_target(after[i])->0) by {
        if i < stmts.len() {
            assert(after[i] == stmts[i]);
        } else {
            assert(called(g, k, jump_target(after[i])->0));
        }
    }
}

/// Whether statement `i` defines the label `l`.
pub open spec fn defines(stmts: Seq<TacStatementView>, i: int, l: Seq<char>) -> bool {
    0 <= i < stmts.len() && stmts[i] == TacStatementView::Label(l)
}

/// Whether no two statements define one label.
pub open spec fn labels_unique(stmts: Seq<TacStatementView>) -> bool {
    forall|i: int, j: int, l: Seq<char>|
        #![trigger defines(stmts, i, l), defines(stmts, j, l)]
        defines(stmts, i, l) && defines(stmts, j, l) ==> i == j
}

/// Whether every jump leads to a label that a statement defines.
pub open spec fn jumps_resolved(stmts: Seq<TacStatementView>) -> bool {
    forall|i: int|
        0 <= i < stmts.len() && jump_target(#[trigger] stmts[i]) is Some ==> exists|j: int|
            defines(stmts, j, jump_target(stmts[i])->0)
}

/// In statements with a settled account no two statements define one
/// label.
pub proof fn lemma_settled_unique(stmts: Seq<TacStatementView>, count: nat, g: Ledger)
    requires
        balanced(stmts, count, g),
    ensures
        labels_unique(stmts),
{
    assert forall|i: int, j: int, l: Seq<char>|
        #![trigger defines(stmts, i, l), defines(stmts, j, l)]
        defines(stmts, i, l) && defines(stmts, j, l) implies i == j by {
        assert(defined_label(stmts[i]) is Some);
        assert(defined_label(stmts[j]) is Some);
        let k1 = choose|k: int| placed_at(g, k, i);
        let k2 = choose|k: int| placed_at(g, k, j);
        assert(placed_at(g, k1, i));
        assert(placed_at(g, k2, j));
        assert(stmts[i] == TacStatementView::Label(g.name[k1]));
        assert(stmts[j] == TacStatementView::Label(g.name[k2]));
        assert(names(g.name[k1], k1 as nat));
        assert(names(g.name[k2], k2 as nat));
        lemma_names_one_number(l, k1 as nat, k2 as nat);
    }
}

/// In statements with a settled account every jump leads to a label that a
/// statement defines.
pub proof fn lemma_settled_resolved(stmts: Seq<TacStatementView>, count: nat, g: Ledger)
    requires
        balanced(stmts, count, g),
        settled(g),
    ensures
        jumps_resolved(stmts),
{
    assert forall|i: int|
        0 <= i < stmts.len() && jump_target(#[trigger] stmts[i]) is Some implies exists|j: int|
        defines(stmts, j, jump_target(stmts[i])->0) by {
        let l = jump_target(stmts[i])->0;
        let k = choose|k: int| called(g, k, l);
        assert(called(g, k, l));
        assert(g.placed[k] is Some);
        let j = g.placed[k]->0;
        assert(placed_at(g, k, j));
        assert(defines(stmts, j, l));
    }
}

/// Whether the ledger `g` accounts for the function `f`.
pub open spec fn ok(f: FuncModel, g: Ledger) -> bool {
    balanced(f.statements, f.label_count as nat, g)
}

/// Whether the function `f2` has the statements and the labels of `f`.
pub open spec fn same_code(f: FuncModel, f2: FuncModel) -> bool {
    f2.statements == f.statements && f2.label_count == f.label_count
}

/// Recording a size changes neither statements nor labels.
pub proof fn lemma_sized_shape(f: FuncModel, name: Seq<char>, size: u64, instances: u64)
    requires
        f.sized(name, size, instances) is Ok,
    ensures
        same_code(f, f.sized(name, size, instances)->Ok_0),
{
    reveal(FuncModel::sized);
}

/// Minting a temporary changes neither statements nor labels.
pub proof fn lemma_new_temp_shape(f: FuncModel, size: u64)
    requires
        f.new_temp(size) is Ok,
    ensures
        same_code(f, f.new_temp(size)->Ok_0.0),
{
    reveal(FuncModel::new_temp);
    reveal(FuncModel::sized);
}

/// An assignment adds its statement and no label.
pub proof fn lemma_assign_shape(f: FuncModel, var: Seq<char>, op: TacOperationView)
    requires
        f.assign(var, op) is Ok,
    ensures
        f.assign(var, op)->Ok_0.statements == f.statements.push(
            TacStatementView::Assignment(var, op),
        ),
        f.assign(var, op)->Ok_0.label_count == f.label_count,
{
    reveal(FuncModel::assign);
    reveal(FuncModel::sized);
}

/// An assignment leaves the account as it is.
pub proof fn lemma_assign(f: FuncModel, var: Seq<char>, op: TacOperationView, g: Ledger)
    requires
        ok(f, g),
        f.assign(var, op) is Ok,
    ensures
        ok(f.assign(var, op)->Ok_0, g),
{
    lemma_assign_shape(f, var, op);
    lemma_quiet(f.statements, f.label_count as nat, g, TacStatementView::Assignment(var, op));
}

/// The pushes of arguments leave the account as it is.
pub proof fn lemma_push_params(f: FuncModel, params: Seq<Seq<char>>, k: int, total: u64, g: Ledger)
    requires
        ok(f, g),
        f.push_params(params, k, total) is Ok,
    ensures
        ok(f.push_params(params, k, total)->Ok_0.0, g),
    decreases params.len() - k,
{
    if 0 <= k < params.len() {
        let pushed = f.emit(
            TacStatementView::Command(TacCommand::PushParam, Some(TacValueView::Var(params[k]))),
        );
        lemma_quiet(
            f.statements,
            f.label_count as nat,
            g,
            TacStatementView::Command(TacCommand::PushParam, Some(TacValueView::Var(params[k]))),
        );
        reveal(FuncModel::val_size);
        lemma_push_params(
            pushed,
            params,
            k + 1,
            (total + f.val_size(TacValueView::Var(params[k]))) as u64,
            g,
        );
    }
}

/// A call leaves the account as it is.
pub proof fn lemma_call(
    f: FuncModel,
    func_name: Seq<char>,
    params: Seq<Seq<char>>,
    return_var: Option<Seq<char>>,
    g: Ledger,
)
    requires
        ok(f, g),
        f.call(func_name, params, return_var) is Ok,
    ensures
        ok(f.call(func_name, params, return_var)->Ok_0, g),
{
    reveal(FuncModel::call);
    lemma_push_params(f, params, 0, 0, g);
    let (f1, size) = f.push_params(params, 0, 0)->Ok_0;
    lemma_quiet(
        f1.statements,
        f1.label_count as nat,
        g,
        TacStatementView::Command(TacCommand::LCall, Some(TacValueView::Label(func_name))),
    );
    let made = f1.emit(
        TacStatementView::Command(TacCommand::LCall, Some(TacValueView::Label(func_name))),
    );
    let f2 = match return_var {
        Some(var) => {
            lemma_assign(made, var, plain(TacValueView::LCallArgs(func_name)), g);
            made.assign(var, plain(TacValueView::LCallArgs(func_name)))->Ok_0
        },
        None => made,
    };
    lemma_quiet(
        f2.statements,
        f2.label_count as nat,
        g,
        TacStatementView::Command(TacCommand::PopParams, Some(TacValueView::Int(size))),
    );
}

/// Minting a temporary leaves the account as it is.
pub proof fn lemma_new_temp(f: FuncModel, size: u64, g: Ledger)
    requires
        ok(f, g),
        f.new_temp(size) is Ok,
    ensures
        ok(f.new_temp(size)->Ok_0.0, g),
{
    lemma_new_temp_shape(f, size);
}

/// The ledger `g` with the label `label` added unplaced.
pub open spec fn with_open(g: Ledger, label: Seq<char>) -> Ledger {
    Ledger { name: g.name.push(label), placed: g.placed.push(None) }
}

/// The ledger `g` with the labels of a branch added unplaced: that of the
/// `else` part, where there is one, and that of the end.
pub open spec fn with_branch(g: Ledger, else_label: Seq<char>, end_label: Seq<char>, has_else: bool) -> Ledger {
    if has_else {
        with_open(with_open(g, else_label), end_label)
    } else {
        with_open(g, end_label)
    }
}

/// A branch mints its labels, places none of them and jumps to the first.
pub proof fn lemma_branch(f: FuncModel, cond_var: Seq<char>, has_else: bool, g: Ledger)
    requires
        ok(f, g),
        f.branch(cond_var, has_else) is Ok,
    ensures
        ({
            let (f2, else_label, end_label) = f.branch(cond_var, has_else)->Ok_0;
            ok(f2, with_branch(g, else_label, end_label, has_else))
        }),
{
    reveal(FuncModel::branch);
    let (f2, else_label, end_label) = f.branch(cond_var, has_else)->Ok_0;
    let prefix = if has_else {
        "else"@
    } else {
        "fi"@
    };
    let (f1, cond_label) = f.next_label(prefix)->Ok_0;
    let g1 = lemma_mint(f.statements, f.label_count as nat, g, prefix);
    let jump = TacStatementView::Command(
        TacCommand::IfZ,
        Some(TacValueView::IfArgs(cond_var, cond_label)),
    );
    lemma_jump(f1.statements, f1.label_count as nat, g1, jump, f.label_count as int);
    let fj = f1.emit(jump);
    if has_else {
        let g2 = lemma_mint(fj.statements, fj.label_count as nat, g1, "fi"@);
    }
}

/// A choice between two values mints two labels and places both.
pub proof fn lemma_choose_value(
    f: FuncModel,
    cond_var: Seq<char>,
    first: TacOperationView,
    second: TacOperationView,
    g: Ledger,
) -> (g2: Ledger)
    requires
        ok(f, g),
        choose_value(f, cond_var, first, second) is Ok,
    ensures
        ok(choose_value(f, cond_var, first, second)->Ok_0.0, g2),
        grows(g, g2),
{
    reveal(choose_value);
    lemma_branch(f, cond_var, true, g);
    let (f1, else_label, end_label) = f.branch(cond_var, true)->Ok_0;
    let g1 = with_branch(g, else_label, end_label, true);
    let n = g.name.len() as int;
    lemma_new_temp(f1, WORD_SIZE, g1);
    let (f2, result) = f1.new_temp(WORD_SIZE)->Ok_0;
    lemma_assign(f2, result, first, g1);
    let f3 = f2.assign(result, first)->Ok_0;
    let goto = TacStatementView::Command(TacCommand::Goto, Some(TacValueView::Label(end_label)));
    lemma_jump(f3.statements, f3.label_count as nat, g1, goto, n + 1);
    let f4 = f3.emit(goto);
    let ga = lemma_place(f4.statements, f4.label_count as nat, g1, n);
    let f5 = f4.emit(TacStatementView::Label(else_label));
    lemma_assign(f5, result, second, ga);
    let f6 = f5.assign(result, second)->Ok_0;
    let gb = lemma_place(f6.statements, f6.label_count as nat, ga, n + 1);
    gb
}

/// Putting a value into a temporary leaves the account as it is.
pub proof fn lemma_as_value(f: FuncModel, op: TacOperationView, g: Ledger)
    requires
        ok(f, g),
        as_value(f, op) is Ok,
    ensures
        ok(as_value(f, op)->Ok_0.0, g),
{
    reveal(as_value);
    if op.op is Some {
        lemma_new_temp(f, f.val_size(op.val1), g);
        let (f1, temp) = f.new_temp(f.val_size(op.val1))->Ok_0;
        lemma_assign(f1, temp, op, g);
    }
}

/// A test of a value leaves the account as it is.
pub proof fn lemma_test_positive(f: FuncModel, v: TacValueView, g: Ledger)
    requires
        ok(f, g),
        test_positive(f, v) is Ok,
    ensures
        ok(test_positive(f, v)->Ok_0.0, g),
{
    reveal(test_positive);
    lemma_new_temp(f, WORD_SIZE, g);
    let (f1, temp) = f.new_temp(WORD_SIZE)->Ok_0;
    lemma_assign(f1, temp, binary(Token::Ogt.spelling(), v, TacValueView::Int(0)), g);
}

/// The code of a unary operator places the labels it mints.
pub proof fn lemma_lower_unary(
    f: FuncModel,
    op: Token,
    child_var: Seq<char>,
    child_type: Option<BasicType>,
    g: Ledger,
) -> (g2: Ledger)
    requires
        ok(f, g),
        lower_unary(f, op, child_var, child_type) is Ok,
    ensures
        ok(lower_unary(f, op, child_var, child_type)->Ok_0.0, g2),
        grows(g, g2),
{
    reveal(lower_unary);
    if op is Knot {
        lemma_test_positive(f, TacValueView::Var(child_var), g);
        let (f1, temp) = test_positive(f, TacValueView::Var(child_var))->Ok_0;
        lemma_choose_value(
            f1,
            temp,
            plain(TacValueView::Int(0)),
            plain(TacValueView::Int(1)),
            g,
        )
    } else {
        g
    }
}

/// The code of a binary operator places the labels it mints.
pub proof fn lemma_lower_binary(f: FuncModel, op: Token, l: TacValueView, r: TacValueView, g: Ledger) -> (g2:
    Ledger)
    requires
        ok(f, g),
        lower_binary(f, op, l, r) is Ok,
    ensures
        ok(lower_binary(f, op, l, r)->Ok_0.0, g2),
        grows(g, g2),
{
    reveal(lower_binary);
    if crate::tac_program_builder::is_plain_operator(op) {
        g
    } else if op is Kand {
        lemma_test_positive(f, l, g);
        let (f1, temp) = test_positive(f, l)->Ok_0;
        lemma_choose_value(
            f1,
            temp,
            binary(Token::Ogt.spelling(), r, TacValueView::Int(0)),
            plain(TacValueView::Int(0)),
            g,
        )
    } else {
        lemma_test_positive(f, l, g);
        let (f1, temp) = test_positive(f, l)->Ok_0;
        lemma_choose_value(
            f1,
            temp,
            plain(TacValueView::Int(1)),
            binary(Token::Ogt.spelling(), r, TacValueView::Int(0)),
            g,
        )
    }
}

/// The code of an expression places the labels it mints.
pub proof fn lemma_lower(f: FuncModel, tree: StatementTree, node: usize, depth: nat, g: Ledger) -> (g2:
    Ledger)
    requires
        ok(f, g),
        lower(f, tree, node, depth) is Ok,
    ensures
        ok(lower(f, tree, node, depth)->Ok_0.0, g2),
        grows(g, g2),
    decreases depth, 0nat,
{
    let n = tree.nodes@[node as int];
    match n.symbol {
        StatementSymbol::Decl(_) => g,
        StatementSymbol::Literal(_) => g,
        StatementSymbol::ArrayAccess(id, index) => {
            lemma_new_temp(f, WORD_SIZE, g);
            let (f1, temp) = f.new_temp(WORD_SIZE)->Ok_0;
            lemma_assign_tree(f1, temp, index, (depth - 1) as nat, g)
        },
        StatementSymbol::FunctionCall(id, args) => {
            let g1 = lemma_lower_args(f, args@, 0, Seq::empty(), (depth - 1) as nat, g);
            let (f1, temps) = lower_args(f, args@, 0, Seq::empty(), (depth - 1) as nat)->Ok_0;
            lemma_new_temp(f1, WORD_SIZE, g1);
            let (f2, result) = f1.new_temp(WORD_SIZE)->Ok_0;
            lemma_call(f2, mangled(id.0@, id.1 as nat), temps, Some(result), g1);
            g1
        },
        StatementSymbol::SingleChildOperator(op) => {
            let left = n.left->0;
            let g1 = lemma_lower(f, tree, left, (depth - 1) as nat, g);
            let (f1, child) = lower(f, tree, left, (depth - 1) as nat)->Ok_0;
            lemma_new_temp(f1, f1.val_size(child.val1), g1);
            let (f2, child_var) = f1.new_temp(f1.val_size(child.val1))->Ok_0;
            lemma_assign(f2, child_var, child, g1);
            let f3 = f2.assign(child_var, child)->Ok_0;
            let child_type = if left < tree.nodes@.len() {
                tree.nodes@[left as int].node_type
            } else {
                None
            };
            let g2 = lemma_lower_unary(f3, op, child_var, child_type, g1);
            lemma_grows(g, g1, g2);
            g2
        },
        StatementSymbol::Operator(op) => {
            let g1 = lemma_lower(f, tree, n.left->0, (depth - 1) as nat, g);
            let (f1, left_op) = lower(f, tree, n.left->0, (depth - 1) as nat)->Ok_0;
            let g2 = lemma_lower(f1, tree, n.right->0, (depth - 1) as nat, g1);
            let (f2, right_op) = lower(f1, tree, n.right->0, (depth - 1) as nat)->Ok_0;
            lemma_as_value(f2, left_op, g2);
            let (f3, l) = as_value(f2, left_op)->Ok_0;
            lemma_as_value(f3, right_op, g2);
            let (f4, r) = as_value(f3, right_op)->Ok_0;
            let g3 = lemma_lower_binary(f4, op, l, r, g2);
            lemma_grows(g, g1, g2);
            lemma_grows(g, g2, g3);
            g3
        },
    }
}

/// The code of an assignment of an expression places the labels it mints.
pub proof fn lemma_assign_tree(f: FuncModel, var: Seq<char>, tree: StatementTree, depth: nat, g: Ledger) -> (g2:
    Ledger)
    requires
        ok(f, g),
        assign_tree(f, var, tree, depth) is Ok,
    ensures
        ok(assign_tree(f, var, tree, depth)->Ok_0, g2),
        grows(g, g2),
    decreases depth, 1nat,
{
    let start = tree.start->0;
    let g1 = lemma_lower(f, tree, start, depth, g);
    let (f1, op) = lower(f, tree, start, depth)->Ok_0;
    lemma_assign(f1, var, op, g1);
    g1
}

/// The code of the arguments of a call places the labels it mints.
pub proof fn lemma_lower_args(
    f: FuncModel,
    args: Seq<StatementTree>,
    k: int,
    temps: Seq<Seq<char>>,
    depth: nat,
    g: Ledger,
) -> (g2: Ledger)
    requires
        ok(f, g),
        lower_args(f, args, k, temps, depth) is Ok,
    ensures
        ok(lower_args(f, args, k, temps, depth)->Ok_0.0, g2),
        grows(g, g2),
    decreases depth, 2 + args.len() - k,
{
    if k < 0 || k >= args.len() {
        g
    } else {
        lemma_new_temp(f, args[k].type_size() as u64, g);
        let (f1, temp) = f.new_temp(args[k].type_size() as u64)->Ok_0;
        let g1 = lemma_assign_tree(f1, temp, args[k], depth, g);
        let f2 = assign_tree(f1, temp, args[k], depth)->Ok_0;
        let g2 = lemma_lower_args(f2, args, k + 1, temps.push(temp), depth, g1);
        lemma_grows(g, g1, g2);
        g2
    }
}

/// Whether the ledger `g2` continues the ledger `g` but for the labels
/// `open`, which it adds unplaced.
pub open spec fn grows_but(g: Ledger, g2: Ledger, open: Set<int>) -> bool {
    &&& g.name.len() <= g2.name.len()
    &&& g.placed.len() <= g2.placed.len()
    &&& g.name.len() == g.placed.len()
    &&& g2.name.len() == g2.placed.len()
    &&& forall|k: int| 0 <= k < g.name.len() ==> #[trigger] g2.name[k] == g.name[k]
    &&& forall|k: int| 0 <= k < g.placed.len() ==> #[trigger] g2.placed[k] == g.placed[k]
    &&& forall|k: int|
        g.placed.len() <= k < g2.placed.len() ==> ((#[trigger] g2.placed[k]) is None
            <==> open.contains(k))
    &&& forall|k: int| open.contains(k) ==> g.placed.len() <= k < g2.placed.len()
}

/// A ledger that continues another but for some labels still does after it
/// was continued.
pub proof fn lemma_grows_but(g: Ledger, g1: Ledger, open: Set<int>, g2: Ledger)
    requires
        grows_but(g, g1, open),
        grows(g1, g2),
    ensures
        grows_but(g, g2, open),
{
}

/// The code of an assignment to an element of an array places the labels
/// it mints.
pub proof fn lemma_assign_element(
    f: FuncModel,
    arr: Seq<char>,
    index: StatementTree,
    statement: StatementTree,
    arr_len: u64,
    depth: nat,
    g: Ledger,
) -> (g2: Ledger)
    requires
        ok(f, g),
        assign_element(f, arr, index, statement, arr_len, depth) is Ok,
    ensures
        ok(assign_element(f, arr, index, statement, arr_len, depth)->Ok_0, g2),
        grows(g, g2),
{
    lemma_new_temp(f, WORD_SIZE, g);
    let (f1, temp) = f.new_temp(WORD_SIZE)->Ok_0;
    let g1 = lemma_assign_tree(f1, temp, index, depth, g);
    let f2 = assign_tree(f1, temp, index, depth)->Ok_0;
    let start = statement.start->0;
    let g2 = lemma_lower(f2, statement, start, depth, g1);
    let (f3, op) = lower(f2, statement, start, depth)->Ok_0;
    lemma_sized_shape(f3, arr, f3.val_size(op.val1), arr_len);
    let f4 = f3.sized(arr, f3.val_size(op.val1), arr_len)->Ok_0;
    lemma_quiet(
        f4.statements,
        f4.label_count as nat,
        g2,
        TacStatementView::PointerAssignment(arr, TacValueView::Var(temp), op),
    );
    lemma_grows(g, g1, g2);
    g2
}

/// The code of a built-in statement places the labels it mints.
pub proof fn lemma_builtin_code(
    f: FuncModel,
    func_type: BuiltInFuncType,
    statement: StatementTree,
    depth: nat,
    g: Ledger,
) -> (g2: Ledger)
    requires
        ok(f, g),
        builtin_code(f, func_type, statement, depth) is Ok,
    ensures
        ok(builtin_code(f, func_type, statement, depth)->Ok_0.0, g2),
        grows(g, g2),
{
    lemma_new_temp(f, statement.type_size() as u64, g);
    let (f1, temp) = f.new_temp(statement.type_size() as u64)->Ok_0;
    let g1 = lemma_assign_tree(f1, temp, statement, depth, g);
    let f2 = assign_tree(f1, temp, statement, depth)->Ok_0;
    match func_type {
        BuiltInFuncType::Return => {
            lemma_quiet(
                f2.statements,
                f2.label_count as nat,
                g1,
                TacStatementView::Command(TacCommand::Return, Some(TacValueView::Var(temp))),
            );
        },
        BuiltInFuncType::Print => {
            lemma_call(f2, "print"@, seq![temp], None, g1);
        },
    }
    g1
}

/// The opening of an `if` places the labels that its condition mints and
/// leaves its own unplaced, at the end of the ledger.
pub proof fn lemma_if_code(f: FuncModel, condition: StatementTree, has_else: bool, depth: nat, g: Ledger) -> (g1:
    Ledger)
    requires
        ok(f, g),
        if_code(f, condition, has_else, depth) is Ok,
    ensures
        grows(g, g1),
        ({
            let (f2, else_label, end_label) = if_code(f, condition, has_else, depth)->Ok_0;
            ok(f2, with_branch(g1, else_label, end_label, has_else))
        }),
{
    lemma_new_temp(f, condition.type_size() as u64, g);
    let (f1, cond_var) = f.new_temp(condition.type_size() as u64)->Ok_0;
    let g1 = lemma_assign_tree(f1, cond_var, condition, depth, g);
    let f2 = assign_tree(f1, cond_var, condition, depth)->Ok_0;
    lemma_branch(f2, cond_var, has_else, g1);
    g1
}

/// The opening of a `while` mints the label of the loop, which it places,
/// and the label of the end, which it leaves unplaced, and places the
/// labels that the condition mints.
pub proof fn lemma_while_code(f: FuncModel, condition: StatementTree, depth: nat, g: Ledger) -> (g2:
    Ledger)
    requires
        ok(f, g),
        while_code(f, condition, depth) is Ok,
    ensures
        ({
            let (f2, while_label, end_label) = while_code(f, condition, depth)->Ok_0;
            let n = g.name.len() as int;
            &&& ok(f2, g2)
            &&& grows_but(g, g2, set![n + 1])
            &&& g2.name[n] == while_label
            &&& g2.name[n + 1] == end_label
        }),
{
    let n = g.name.len() as int;
    let (f1, while_label) = f.next_label("while"@)->Ok_0;
    let ga = lemma_mint(f.statements, f.label_count as nat, g, "while"@);
    let gb = lemma_place(f1.statements, f1.label_count as nat, ga, n);
    let fl = f1.emit(TacStatementView::Label(while_label));
    let (f2, end_label) = fl.next_label("od"@)->Ok_0;
    let gc = lemma_mint(fl.statements, fl.label_count as nat, gb, "od"@);
    lemma_new_temp(f2, condition.type_size() as u64, gc);
    let (f3, cond_var) = f2.new_temp(condition.type_size() as u64)->Ok_0;
    let gd = lemma_assign_tree(f3, cond_var, condition, depth, gc);
    let f4 = assign_tree(f3, cond_var, condition, depth)->Ok_0;
    let jump = TacStatementView::Command(
        TacCommand::IfZ,
        Some(TacValueView::IfArgs(cond_var, end_label)),
    );
    assert(gd.name[n + 1] == gc.name[n + 1]);
    assert(gd.name[n] == gc.name[n]);
    lemma_jump(f4.statements, f4.label_count as nat, gd, jump, n + 1);
    assert(grows_but(g, gc, set![n + 1])) by {
        assert forall|k: int| g.placed.len() <= k < gc.placed.len() implies ((
        #[trigger] gc.placed[k]) is None <==> set![n + 1].contains(k)) by {}
    }
    lemma_grows_but(g, gc, set![n + 1], gd);
    gd
}

/// Whether no scope but the global scope declares a function, and no body
/// of a function or of a conditional statement and no scope inside another
/// is the global scope.
pub open spec fn nested_ok(table: SymbolTable) -> bool {
    forall|s: int, e: int|
        0 <= s < table.scopes@.len() && 0 <= e < table.scopes@[s].symbols@.len() ==> entry_ok(
            table,
            s,
            #[trigger] table.scopes@[s].symbols@[e],
        )
}

/// Whether entry `entry` of scope `s` keeps functions in the global scope
/// and the global scope out of bodies.
pub open spec fn entry_ok(table: SymbolTable, s: int, entry: SymbolEntry) -> bool {
    match entry {
        SymbolEntry::Decl(id) => match table.lookup(id.0@, id.1) {
            Some(decl) => match decl.var_type {
                BasicType::Function(info) => s == 0 && info.body_scope != 0,
                _ => true,
            },
            None => true,
        },
        SymbolEntry::Scope(inner) => inner != 0,
        SymbolEntry::ConditionalStatement(cond) => cond.body_scope != 0,
        _ => true,
    }
}

/// Whether the ledgers `gs` account for the functions of the builder `b`.
pub open spec fn inv(b: BuilderModel, gs: Seq<Ledger>) -> bool {
    &&& gs.len() == b.funcs.len()
    &&& 0 <= b.curr_func < b.funcs.len()
    &&& forall|j: int| 0 <= j < b.funcs.len() ==> ok(#[trigger] b.funcs[j], gs[j])
}

/// Whether the builder `b2` with the ledgers `gs2` continues the builder
/// `b` with the ledgers `gs`: it has the same current function, whose
/// ledger it continues; it keeps the other functions of `b` with their
/// ledgers; and the ledgers of the functions it adds are settled.
pub open spec fn carries(b: BuilderModel, gs: Seq<Ledger>, b2: BuilderModel, gs2: Seq<Ledger>) -> bool {
    &&& inv(b2, gs2)
    &&& b2.funcs.len() >= b.funcs.len()
    &&& b2.curr_func == b.curr_func
    &&& grows(gs[b.curr_func], gs2[b.curr_func])
    &&& forall|j: int|
        0 <= j < b.funcs.len() && j != b.curr_func ==> #[trigger] b2.funcs[j] == b.funcs[j]
            && gs2[j] == gs[j]
    &&& forall|j: int| b.funcs.len() <= j < b2.funcs.len() ==> settled(#[trigger] gs2[j])
}

/// Carrying on is transitive.
pub proof fn lemma_carries(
    b: BuilderModel,
    gs: Seq<Ledger>,
    b1: BuilderModel,
    gs1: Seq<Ledger>,
    b2: BuilderModel,
    gs2: Seq<Ledger>,
)
    requires
        inv(b, gs),
        carries(b, gs, b1, gs1),
        carries(b1, gs1, b2, gs2),
    ensures
        carries(b, gs, b2, gs2),
{
    let c = b.curr_func;
    lemma_grows(gs[c], gs1[c], gs2[c]);
    assert forall|j: int| b.funcs.len() <= j < b2.funcs.len() implies settled(
        #[trigger] gs2[j],
    ) by {
        if j < b1.funcs.len() {
            assert(settled(gs1[j]));
            assert(b2.funcs[j] == b1.funcs[j]);
            assert(gs2[j] == gs1[j]);
        }
    }
}

/// A change of the current function alone, with the ledger that continues
/// its ledger, carries the builder on.
pub proof fn lemma_step(b: BuilderModel, gs: Seq<Ledger>, f: FuncModel, g: Ledger)
    requires
        inv(b, gs),
        ok(f, g),
        grows(gs[b.curr_func], g),
    ensures
        carries(b, gs, b.with_curr(f), gs.update(b.curr_func, g)),
{
    let b2 = b.with_curr(f);
    let gs2 = gs.update(b.curr_func, g);
    assert forall|j: int| 0 <= j < b2.funcs.len() implies ok(#[trigger] b2.funcs[j], gs2[j]) by {
        if j != b.curr_func {
            assert(b2.funcs[j] == b.funcs[j]);
        }
    }
}

/// A ledger that continues the empty ledger is settled.
pub proof fn lemma_grows_from_empty(g: Ledger)
    requires
        grows(Ledger { name: Seq::empty(), placed: Seq::empty() }, g),
    ensures
        settled(g),
{
}

/// The code of a `while` carries the builder on.
pub proof fn lemma_gen_while(
    table: SymbolTable,
    cond: ConditionalStatement,
    depth: nat,
    b: BuilderModel,
    gs: Seq<Ledger>,
) -> (gs2: Seq<Ledger>)
    requires
        inv(b, gs),
        nested_ok(table),
        cond.body_scope != 0,
        gen_while(table, cond, depth, b) is Ok,
    ensures
        carries(b, gs, gen_while(table, cond, depth, b)->Ok_0, gs2),
    decreases depth, 1nat,
{
    let c = b.curr_func;
    let g = gs[c];
    let n = g.name.len() as int;
    let condition = cond.condition->0;
    let g1 = lemma_while_code(b.curr(), condition, MAX_DEPTH as nat, g);
    let (f, while_label, end_label) = while_code(b.curr(), condition, MAX_DEPTH as nat)->Ok_0;
    let b1 = b.with_curr(f);
    let gs1 = gs.update(c, g1);
    assert(inv(b1, gs1)) by {
        assert forall|j: int| 0 <= j < b1.funcs.len() implies ok(#[trigger] b1.funcs[j], gs1[j]) by {
            if j != c {
                assert(b1.funcs[j] == b.funcs[j]);
            }
        }
    }
    let gs2 = lemma_gen_scope(table, cond.body_scope, depth, b1, gs1);
    let b2 = gen_scope(table, cond.body_scope, depth, b1)->Ok_0;
    let g2 = gs2[c];
    assert(gs1[c] == g1);
    assert(grows(g1, g2));
    assert(set![n + 1].contains(n + 1));
    assert(n + 1 < g1.placed.len());
    lemma_grows_but(g, g1, set![n + 1], g2);
    let f2 = b2.curr();
    let goto = TacStatementView::Command(TacCommand::Goto, Some(TacValueView::Label(while_label)));
    assert(g2.name[n] == g1.name[n]);
    assert(g2.name[n + 1] == g1.name[n + 1]);
    assert(g2.placed[n + 1] == g1.placed[n + 1]);
    lemma_jump(f2.statements, f2.label_count as nat, g2, goto, n);
    let f3 = f2.emit(goto);
    let g3 = lemma_place(f3.statements, f3.label_count as nat, g2, n + 1);
    let f4 = f3.emit(TacStatementView::Label(end_label));
    let b3 = with_goto(b2, while_label);
    let b4 = with_label(b3, end_label);
    assert(b3.funcs =~= b2.funcs.update(c, f3));
    assert(b4.funcs =~= b2.funcs.update(c, f4));
    let gs4 = gs2.update(c, g3);
    assert(grows(g, g3)) by {
        assert forall|k: int| g.placed.len() <= k < g3.placed.len() implies (
        #[trigger] g3.placed[k]) is Some by {
            if k != n + 1 {
                assert(g3.placed[k] == g2.placed[k]);
                assert(!set![n + 1].contains(k));
            }
        }
        assert forall|k: int| 0 <= k < g.placed.len() implies #[trigger] g3.placed[k]
            == g.placed[k] by {
            assert(g3.placed[k] == g2.placed[k]);
        }
    }
    assert(carries(b, gs, b4, gs4)) by {
        assert forall|j: int| 0 <= j < b4.funcs.len() implies ok(#[trigger] b4.funcs[j], gs4[j]) by {
            if j != c {
                assert(b4.funcs[j] == b2.funcs[j]);
                assert(ok(b2.funcs[j], gs2[j]));
            }
        }
        assert forall|j: int| 0 <= j < b.funcs.len() && j != b.curr_func implies #[trigger] b4.funcs[j]
            == b.funcs[j] && gs4[j] == gs[j] by {
            assert(b2.funcs[j] == b1.funcs[j]);
            assert(b1.funcs[j] == b.funcs[j]);
        }
        assert forall|j: int| b.funcs.len() <= j < b4.funcs.len() implies settled(
            #[trigger] gs4[j],
        ) by {
            assert(settled(gs2[j]));
        }
    }
    gs4
}

/// The code of an `if` carries the builder on.
pub proof fn lemma_gen_if(
    table: SymbolTable,
    cond: ConditionalStatement,
    else_scope: Option<usize>,
    depth: nat,
    b: BuilderModel,
    gs: Seq<Ledger>,
) -> (gs2: Seq<Ledger>)
    requires
        inv(b, gs),
        nested_ok(table),
        cond.body_scope != 0,
        else_scope matches Some(scope) ==> scope != 0,
        gen_if(table, cond, else_scope, depth, b) is Ok,
    ensures
        carries(b, gs, gen_if(table, cond, else_scope, depth, b)->Ok_0, gs2),
    decreases depth, 1nat,
{
    let c = b.curr_func;
    let g = gs[c];
    let condition = cond.condition->0;
    let has_else = else_scope is Some;
    let g1 = lemma_if_code(b.curr(), condition, has_else, MAX_DEPTH as nat, g);
    let (f, else_label, end_label) = if_code(b.curr(), condition, has_else, MAX_DEPTH as nat)->Ok_0;
    let n = g1.name.len() as int;
    let gw = with_branch(g1, else_label, end_label, has_else);
    let b1 = b.with_curr(f);
    let gs1 = gs.update(c, gw);
    assert(inv(b1, gs1)) by {
        assert forall|j: int| 0 <= j < b1.funcs.len() implies ok(#[trigger] b1.funcs[j], gs1[j]) by {
            if j != c {
                assert(b1.funcs[j] == b.funcs[j]);
            }
        }
    }
    let gs2 = lemma_gen_scope(table, cond.body_scope, depth, b1, gs1);
    let b2 = gen_scope(table, cond.body_scope, depth, b1)->Ok_0;
    let g2 = gs2[c];
    let f2 = b2.curr();
    assert(gs1[c] == gw);
    assert(grows(gw, g2));
    match else_scope {
        None => {
            // the label of the end is label `n`
            assert(g2.name[n] == gw.name[n]);
            assert(g2.placed[n] == gw.placed[n]);
            let g3 = lemma_place(f2.statements, f2.label_count as nat, g2, n);
            let f3 = f2.emit(TacStatementView::Label(end_label));
            let b3 = with_label(b2, end_label);
            assert(b3.funcs =~= b2.funcs.update(c, f3));
            let gs3 = gs2.update(c, g3);
            assert(grows(g, g3)) by {
                assert forall|k: int| g.placed.len() <= k < g3.placed.len() implies (
                #[trigger] g3.placed[k]) is Some by {
                    if k < n {
                        assert(g3.placed[k] == g2.placed[k]);
                        assert(g2.placed[k] == gw.placed[k]);
                        assert(gw.placed[k] == g1.placed[k]);
                    } else if k > n {
                        assert(g3.placed[k] == g2.placed[k]);
                    }
                }
                assert forall|k: int| 0 <= k < g.placed.len() implies #[trigger] g3.placed[k]
                    == g.placed[k] by {
                    assert(g3.placed[k] == g2.placed[k]);
                    assert(g2.placed[k] == gw.placed[k]);
                    assert(gw.placed[k] == g1.placed[k]);
                }
                assert forall|k: int| 0 <= k < g.name.len() implies #[trigger] g3.name[k]
                    == g.name[k] by {
                    assert(g2.name[k] == gw.name[k]);
                    assert(gw.name[k] == g1.name[k]);
                }
            }
            assert(carries(b, gs, b3, gs3)) by {
                assert forall|j: int| 0 <= j < b3.funcs.len() implies ok(
                    #[trigger] b3.funcs[j],
                    gs3[j],
                ) by {
                    if j != c {
                        assert(b3.funcs[j] == b2.funcs[j]);
                        assert(ok(b2.funcs[j], gs2[j]));
                    }
                }
                assert forall|j: int|
                    0 <= j < b.funcs.len() && j != b.curr_func implies #[trigger] b3.funcs[j]
                    == b.funcs[j] && gs3[j] == gs[j] by {
                    assert(b2.funcs[j] == b1.funcs[j]);
                    assert(b1.funcs[j] == b.funcs[j]);
                }
                assert forall|j: int| b.funcs.len() <= j < b3.funcs.len() implies settled(
                    #[trigger] gs3[j],
                ) by {
                    assert(settled(gs2[j]));
                }
            }
            gs3
        },
        Some(scope) => {
            // the label of the `else` part is label `n`, that of the end
            // label `n + 1`
            assert(g2.name[n] == gw.name[n]);
            assert(g2.name[n + 1] == gw.name[n + 1]);
            assert(g2.placed[n] == gw.placed[n]);
            assert(g2.placed[n + 1] == gw.placed[n + 1]);
            let goto = TacStatementView::Command(
                TacCommand::Goto,
                Some(TacValueView::Label(end_label)),
            );
            lemma_jump(f2.statements, f2.label_count as nat, g2, goto, n + 1);
            let f3 = f2.emit(goto);
            let g3 = lemma_place(f3.statements, f3.label_count as nat, g2, n);
            let f4 = f3.emit(TacStatementView::Label(else_label));
            let b3 = with_goto(b2, end_label);
            let b4 = with_label(b3, else_label);
            assert(b3.funcs =~= b2.funcs.update(c, f3));
            assert(b4.funcs =~= b2.funcs.update(c, f4));
            let gs4 = gs2.update(c, g3);
            assert(inv(b4, gs4)) by {
                assert forall|j: int| 0 <= j < b4.funcs.len() implies ok(
                    #[trigger] b4.funcs[j],
                    gs4[j],
                ) by {
                    if j != c {
                        assert(b4.funcs[j] == b2.funcs[j]);
                        assert(ok(b2.funcs[j], gs2[j]));
                    }
                }
            }
            let gs5 = lemma_gen_scope(table, scope, depth, b4, gs4);
            let b5 = gen_scope(table, scope, depth, b4)->Ok_0;
            let g5 = gs5[c];
            let f5 = b5.curr();
            assert(g5.name[n + 1] == g3.name[n + 1]);
            assert(g5.placed[n + 1] == g3.placed[n + 1]);
            let g6 = lemma_place(f5.statements, f5.label_count as nat, g5, n + 1);
            let f6 = f5.emit(TacStatementView::Label(end_label));
            let b6 = with_label(b5, end_label);
            assert(b6.funcs =~= b5.funcs.update(c, f6));
            let gs6 = gs5.update(c, g6);
            assert(grows(g, g6)) by {
                assert forall|k: int| g.placed.len() <= k < g6.placed.len() implies (
                #[trigger] g6.placed[k]) is Some by {
                    if k < n {
                        assert(g6.placed[k] == g5.placed[k]);
                        assert(g5.placed[k] == g3.placed[k]);
                        assert(g3.placed[k] == g2.placed[k]);
                        assert(g2.placed[k] == gw.placed[k]);
                        assert(gw.placed[k] == g1.placed[k]);
                    } else if k == n {
                        assert(g6.placed[k] == g5.placed[k]);
                        assert(g5.placed[k] == g3.placed[k]);
                    } else if k > n + 1 {
                        assert(g6.placed[k] == g5.placed[k]);
                        if k < g3.placed.len() {
                            assert(g5.placed[k] == g3.placed[k]);
                            assert(g3.placed[k] == g2.placed[k]);
                        }
                    }
                }
                assert forall|k: int| 0 <= k < g.placed.len() implies #[trigger] g6.placed[k]
                    == g.placed[k] by {
                    assert(g6.placed[k] == g5.placed[k]);
                    assert(g5.placed[k] == g3.placed[k]);
                    assert(g3.placed[k] == g2.placed[k]);
                    assert(g2.placed[k] == gw.placed[k]);
                    assert(gw.placed[k] == g1.placed[k]);
                }
                assert forall|k: int| 0 <= k < g.name.len() implies #[trigger] g6.name[k]
                    == g.name[k] by {
                    assert(g5.name[k] == g3.name[k]);
                    assert(g2.name[k] == gw.name[k]);
                    assert(gw.name[k] == g1.name[k]);
                }
            }
            assert(carries(b, gs, b6, gs6)) by {
                assert forall|j: int| 0 <= j < b6.funcs.len() implies ok(
                    #[trigger] b6.funcs[j],
                    gs6[j],
                ) by {
                    if j != c {
                        assert(b6.funcs[j] == b5.funcs[j]);
                        assert(ok(b5.funcs[j], gs5[j]));
                    }
                }
                assert forall|j: int|
                    0 <= j < b.funcs.len() && j != b.curr_func implies #[trigger] b6.funcs[j]
                    == b.funcs[j] && gs6[j] == gs[j] by {
                    assert(b5.funcs[j] == b4.funcs[j]);
                    assert(b4.funcs[j] == b2.funcs[j]);
                    assert(b2.funcs[j] == b1.funcs[j]);
                    assert(b1.funcs[j] == b.funcs[j]);
                }
                assert forall|j: int| b.funcs.len() <= j < b6.funcs.len() implies settled(
                    #[trigger] gs6[j],
                ) by {
                    if j < b2.funcs.len() {
                        assert(settled(gs2[j]));
                        assert(b5.funcs[j] == b4.funcs[j]);
                        assert(gs5[j] == gs4[j]);
                    } else {
                        assert(settled(gs5[j]));
                    }
                }
            }
            gs6
        },
    }
}

/// The code of a function, made in a record of its own, carries the
/// builder on from the main program.
pub proof fn lemma_gen_function(
    table: SymbolTable,
    name: Seq<char>,
    body_scope: usize,
    depth: nat,
    b: BuilderModel,
    gs: Seq<Ledger>,
) -> (gs2: Seq<Ledger>)
    requires
        inv(b, gs),
        nested_ok(table),
        b.curr_func == 0,
        body_scope != 0,
        gen_scope(table, body_scope, depth, b.add_function(name)) is Ok,
    ensures
        carries(b, gs, gen_scope(table, body_scope, depth, b.add_function(name))->Ok_0.reset(), gs2),
    decreases depth, 1nat,
{
    let c = b.curr_func;
    let b1 = b.add_function(name);
    let empty = Ledger { name: Seq::empty(), placed: Seq::empty() };
    let gs1 = gs.push(empty);
    assert(inv(b1, gs1)) by {
        assert forall|j: int| 0 <= j < b1.funcs.len() implies ok(#[trigger] b1.funcs[j], gs1[j]) by {
            if j < b.funcs.len() {
                assert(b1.funcs[j] == b.funcs[j]);
            }
        }
    }
    let gs2 = lemma_gen_scope(table, body_scope, depth, b1, gs1);
    let b2 = gen_scope(table, body_scope, depth, b1)->Ok_0;
    let b3 = b2.reset();
    let added = b.funcs.len() as int;
    assert(gs1[added] == empty);
    assert(grows(empty, gs2[added]));
    lemma_grows_from_empty(gs2[added]);
    assert(ok(b.funcs[c], gs[c]));
    lemma_grows(gs[c], gs[c], gs[c]);
    assert(b2.funcs[c] == b1.funcs[c]);
    assert(gs2[c] == gs1[c]);
    assert forall|j: int| 0 <= j < b.funcs.len() && j != b.curr_func implies #[trigger] b3.funcs[j]
        == b.funcs[j] && gs2[j] == gs[j] by {
        assert(b2.funcs[j] == b1.funcs[j]);
        assert(gs2[j] == gs1[j]);
    }
    assert forall|j: int| b.funcs.len() <= j < b3.funcs.len() implies settled(#[trigger] gs2[j]) by {
        if j > added {
            assert(settled(gs2[j]));
        }
    }
    gs2
}

/// A change of the current function alone, with the ledger that continues
/// its ledger, carries the builder on; returns the ledgers.
pub proof fn lemma_step_to(b: BuilderModel, gs: Seq<Ledger>, f: FuncModel, g: Ledger) -> (gs2: Seq<
    Ledger,
>)
    requires
        inv(b, gs),
        ok(f, g),
        grows(gs[b.curr_func], g),
    ensures
        carries(b, gs, b.with_curr(f), gs2),
{
    lemma_step(b, gs, f, g);
    gs.update(b.curr_func, g)
}

/// Doing nothing carries the builder on.
pub proof fn lemma_stay(b: BuilderModel, gs: Seq<Ledger>)
    requires
        inv(b, gs),
    ensures
        carries(b, gs, b, gs),
{
    let c = b.curr_func;
    assert(ok(b.funcs[c], gs[c]));
    lemma_grows(gs[c], gs[c], gs[c]);
}

/// The code of an entry carries the builder on.
#[verifier::rlimit(60)]
pub proof fn lemma_gen_entry(
    table: SymbolTable,
    scope: usize,
    i: int,
    depth: nat,
    b: BuilderModel,
    gs: Seq<Ledger>,
) -> (gs2: Seq<Ledger>)
    requires
        inv(b, gs),
        nested_ok(table),
        scope < table.scopes@.len(),
        0 <= i < table.scopes@[scope as int].symbols@.len(),
        scope == 0 ==> b.curr_func == 0,
        gen_entry(table, scope, i, depth, b) is Ok,
    ensures
        carries(b, gs, gen_entry(table, scope, i, depth, b)->Ok_0.0, gs2),
    decreases depth, 2nat,
{
    let symbols = table.scopes@[scope as int].symbols@;
    let c = b.curr_func;
    assert(entry_ok(table, scope as int, symbols[i]));
    lemma_stay(b, gs);
    match symbols[i] {
        SymbolEntry::Decl(id) => match table.lookup(id.0@, id.1) {
            Some(decl) => match decl.var_type {
                BasicType::Function(info) => lemma_gen_function(
                    table,
                    mangled(decl.name@, decl.scope as nat),
                    info.body_scope,
                    depth,
                    b,
                    gs,
                ),
                _ => gs,
            },
            None => gs,
        },
        SymbolEntry::Parameter(id) => match table.lookup(id.0@, id.1) {
            Some(decl) => lemma_step_to(
                b,
                gs,
                FuncModel {
                    params: b.curr().params.push(
                        (mangled(decl.name@, decl.scope as nat), decl.var_type@.size() as u64),
                    ),
                    ..b.curr()
                },
                gs[c],
            ),
            None => gs,
        },
        SymbolEntry::Scope(inner) => lemma_gen_scope(table, inner, depth, b, gs),
        SymbolEntry::BuiltInFunction(func) => {
            let g = lemma_builtin_code(
                b.curr(),
                func.func_type,
                func.statement,
                MAX_DEPTH as nat,
                gs[c],
            );
            lemma_step_to(
                b,
                gs,
                builtin_code(b.curr(), func.func_type, func.statement, MAX_DEPTH as nat)->Ok_0.0,
                g,
            )
        },
        SymbolEntry::Assignment(info) => match info.index {
            Some(index) => match table.lookup(info.var.0@, info.var.1) {
                Some(arr) => match arr.var_type {
                    BasicType::Array(_, len) => {
                        let g = lemma_assign_element(
                            b.curr(),
                            mangled(info.var.0@, info.var.1 as nat),
                            index,
                            info.assignment,
                            len as u64,
                            MAX_DEPTH as nat,
                            gs[c],
                        );
                        lemma_step_to(
                            b,
                            gs,
                            assign_element(
                                b.curr(),
                                mangled(info.var.0@, info.var.1 as nat),
                                index,
                                info.assignment,
                                len as u64,
                                MAX_DEPTH as nat,
                            )->Ok_0,
                            g,
                        )
                    },
                    _ => gs,
                },
                None => gs,
            },
            None => {
                let g = lemma_assign_tree(
                    b.curr(),
                    mangled(info.var.0@, info.var.1 as nat),
                    info.assignment,
                    MAX_DEPTH as nat,
                    gs[c],
                );
                lemma_step_to(
                    b,
                    gs,
                    assign_tree(
                        b.curr(),
                        mangled(info.var.0@, info.var.1 as nat),
                        info.assignment,
                        MAX_DEPTH as nat,
                    )->Ok_0,
                    g,
                )
            },
        },
        SymbolEntry::ConditionalStatement(cond) => match cond.statement_type {
            ConditionalStatementType::While => lemma_gen_while(table, cond, depth, b, gs),
            ConditionalStatementType::If => {
                if else_body(symbols, i) is Some {
                    assert(entry_ok(table, scope as int, symbols[i + 1]));
                }
                lemma_gen_if(table, cond, else_body(symbols, i), depth, b, gs)
            },
            ConditionalStatementType::Else => gs,
        },
        SymbolEntry::StatementTree(_) => gs,
    }
}

/// The code of the entries of a scope carries the builder on.
pub proof fn lemma_gen_entries(
    table: SymbolTable,
    scope: usize,
    i: int,
    depth: nat,
    b: BuilderModel,
    gs: Seq<Ledger>,
) -> (gs2: Seq<Ledger>)
    requires
        inv(b, gs),
        nested_ok(table),
        scope < table.scopes@.len(),
        scope == 0 ==> b.curr_func == 0,
        gen_entries(table, scope, i, depth, b) is Ok,
    ensures
        carries(b, gs, gen_entries(table, scope, i, depth, b)->Ok_0, gs2),
    decreases depth, 3 + table.scopes@[scope as int].symbols@.len() - i,
{
    let c = b.curr_func;
    if i < 0 || i >= table.scopes@[scope as int].symbols@.len() {
        lemma_stay(b, gs);
        gs
    } else {
        let gs1 = lemma_gen_entry(table, scope, i, depth, b, gs);
        let (b1, step) = gen_entry(table, scope, i, depth, b)->Ok_0;
        let next = if step == 2 {
            i + 2
        } else {
            i + 1
        };
        let gs2 = lemma_gen_entries(table, scope, next, depth, b1, gs1);
        let b2 = gen_entries(table, scope, next, depth, b1)->Ok_0;
        lemma_carries(b, gs, b1, gs1, b2, gs2);
        gs2
    }
}

/// The code of a scope carries the builder on.
pub proof fn lemma_gen_scope(table: SymbolTable, scope: usize, depth: nat, b: BuilderModel, gs: Seq<Ledger>) -> (gs2:
    Seq<Ledger>)
    requires
        inv(b, gs),
        nested_ok(table),
        scope == 0 ==> b.curr_func == 0,
        gen_scope(table, scope, depth, b) is Ok,
    ensures
        carries(b, gs, gen_scope(table, scope, depth, b)->Ok_0, gs2),
    decreases depth, 0nat,
{
    lemma_gen_entries(table, scope, 0, (depth - 1) as nat, b, gs)
}

/// Where no scope but the global scope declares a function and the global
/// scope is no body, every function of the generated code defines each
/// label once, and each of its jumps leads to a label that it defines.
pub proof fn lemma_labels_and_jumps(table: SymbolTable)
    requires
        nested_ok(table),
        gen_scope(table, 0, table.scopes@.len(), TacProgramBuilder::new_model()) is Ok,
    ensures
        ({
            let b = gen_scope(table, 0, table.scopes@.len(), TacProgramBuilder::new_model())->Ok_0;
            forall|j: int|
                0 <= j < b.funcs.len() ==> labels_unique((#[trigger] b.funcs[j]).statements)
                    && jumps_resolved(b.funcs[j].statements)
        }),
{
    let b0 = TacProgramBuilder::new_model();
    let empty = Ledger { name: Seq::empty(), placed: Seq::empty() };
    let gs0 = seq![empty];
    assert(inv(b0, gs0));
    let gs = lemma_gen_scope(table, 0, table.scopes@.len(), b0, gs0);
    let b = gen_scope(table, 0, table.scopes@.len(), b0)->Ok_0;
    assert forall|j: int| 0 <= j < b.funcs.len() implies labels_unique(
        (#[trigger] b.funcs[j]).statements,
    ) && jumps_resolved(b.funcs[j].statements) by {
        assert(ok(b.funcs[j], gs[j]));
        if j == 0 {
            lemma_grows_from_empty(gs[0]);
        } else {
            assert(settled(gs[j]));
        }
        lemma_settled_unique(b.funcs[j].statements, b.funcs[j].label_count as nat, gs[j]);
        lemma_settled_resolved(b.funcs[j].statements, b.funcs[j].label_count as nat, gs[j]);
    }
}

} // verus!
