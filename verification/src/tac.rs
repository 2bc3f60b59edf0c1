//! Three-address code: its statements, their values as plain data, and the
//! text they are written as.

use vstd::prelude::*;
use vstd::string::StringExecFns;
use crate::text::{append_decimal, decimal};
use crate::token::Token;

verus! {

/// The commands of three-address code.
#[derive(Debug, PartialEq, Eq, Clone, Copy, Structural)]
pub enum TacCommand {
    BeginFunc,
    EndFunc,
    PushParam,
    PopParams,
    LCall,
    IfZ,
    Goto,
    Return,
}

/// An operand. A decimal constant carries its text.
#[derive(Debug, PartialEq)]
pub enum TacValue {
    Label(String),
    Var(String),
    Int(u64),
    Double(String),
    PointerAccess(String, Box<TacValue>),
    GetParams(u64),
    LCallArgs(String),
    IfArgs(String, String),
}

/// An operand as a mathematical value.
pub enum TacValueView {
    Label(Seq<char>),
    Var(Seq<char>),
    Int(u64),
    Double(Seq<char>),
    PointerAccess(Seq<char>, Box<TacValueView>),
    GetParams(u64),
    LCallArgs(Seq<char>),
    IfArgs(Seq<char>, Seq<char>),
}

/// The mathematical value of an operand.
pub open spec fn value_view(v: TacValue) -> TacValueView
    decreases v,
{
    match v {
        TacValue::Label(s) => TacValueView::Label(s@),
        TacValue::Var(s) => TacValueView::Var(s@),
        TacValue::Int(n) => TacValueView::Int(n),
        TacValue::Double(s) => TacValueView::Double(s@),
        TacValue::PointerAccess(base, index) => TacValueView::PointerAccess(
            base@,
            Box::new(value_view(*index)),
        ),
        TacValue::GetParams(n) => TacValueView::GetParams(n),
        TacValue::LCallArgs(s) => TacValueView::LCallArgs(s@),
        TacValue::IfArgs(cond, label) => TacValueView::IfArgs(cond@, label@),
    }
}

impl View for TacValue {
    type V = TacValueView;

    open spec fn view(&self) -> TacValueView {
        value_view(*self)
    }
}

/// The right-hand side of an assignment: one value, or two values under an
/// operator.
#[derive(Debug, PartialEq)]
pub struct TacOperation {
    pub op: Option<Token>,
    pub val1: TacValue,
    pub val2: Option<TacValue>,
}

/// A right-hand side as a mathematical value; the operator by its spelling.
pub struct TacOperationView {
    pub op: Option<Seq<char>>,
    pub val1: TacValueView,
    pub val2: Option<TacValueView>,
}

impl View for TacOperation {
    type V = TacOperationView;

    open spec fn view(&self) -> TacOperationView {
        TacOperationView {
            op: match self.op {
                Some(t) => Some(t.spelling()),
                None => None,
            },
            val1: self.val1@,
            val2: match self.val2 {
                Some(v) => Some(v@),
                None => None,
            },
        }
    }
}

/// A statement of three-address code.
#[derive(Debug, PartialEq)]
pub enum TacStatement {
    Label(String),
    Assignment(String, TacOperation),
    PointerAssignment(String, TacValue, TacOperation),
    Command(TacCommand, Option<TacValue>),
}

/// A statement as a mathematical value.
pub enum TacStatementView {
    Label(Seq<char>),
    Assignment(Seq<char>, TacOperationView),
    PointerAssignment(Seq<char>, TacValueView, TacOperationView),
    Command(TacCommand, Option<TacValueView>),
}

impl View for TacStatement {
    type V = TacStatementView;

    open spec fn view(&self) -> TacStatementView {
        match self {
            TacStatement::Label(l) => TacStatementView::Label(l@),
            TacStatement::Assignment(var, op) => TacStatementView::Assignment(var@, op@),
            TacStatement::PointerAssignment(base, index, op) => TacStatementView::PointerAssignment(
                base@,
                index@,
                op@,
            ),
            TacStatement::Command(c, v) => TacStatementView::Command(
                *c,
                match v {
                    Some(v) => Some(v@),
                    None => None,
                },
            ),
        }
    }
}

/// A program: its statements in order.
pub type TacProgram = Vec<TacStatement>;

/// The statements of a program as mathematical values.
pub open spec fn program_view(p: Seq<TacStatement>) -> Seq<TacStatementView> {
    Seq::new(p.len(), |i: int| p[i]@)
}

/// The name of a command.
pub open spec fn command_text(c: TacCommand) -> Seq<char> {
    match c {
        TacCommand::BeginFunc => "BeginFunc"@,
        TacCommand::EndFunc => "EndFunc"@,
        TacCommand::PushParam => "PushParam"@,
        TacCommand::PopParams => "PopParams"@,
        TacCommand::LCall => "LCall"@,
        TacCommand::IfZ => "IfZ"@,
        TacCommand::Goto => "Goto"@,
        TacCommand::Return => "Return"@,
    }
}

/// The text of an operand.
pub open spec fn value_text(v: TacValueView) -> Seq<char>
    decreases v,
{
    match v {
        TacValueView::Label(s) => s,
        TacValueView::Var(s) => s,
        TacValueView::Int(n) => decimal(n as nat),
        TacValueView::Double(s) => s,
        TacValueView::PointerAccess(base, index) => "*("@ + base + " + "@ + value_text(*index)
            + ")"@,
        TacValueView::GetParams(n) => "GetParams "@ + decimal(n as nat),
        TacValueView::LCallArgs(f) => "LCall "@ + f,
        TacValueView::IfArgs(cond, label) => cond + " Goto "@ + label,
    }
}

/// The text of a right-hand side: its first value, then, under an operator,
/// the operator and the second value between single spaces.
pub open spec fn operation_text(o: TacOperationView) -> Seq<char> {
    match o.op {
        Some(op) => value_text(o.val1) + " "@ + op + " "@ + (match o.val2 {
            Some(v) => value_text(v),
            None => Seq::empty(),
        }),
        None => value_text(o.val1),
    }
}

/// The line of a statement. A label stands at the line's start before a
/// colon; every other statement follows a tab and ends in a semicolon.
pub open spec fn statement_text(s: TacStatementView) -> Seq<char> {
    match s {
        TacStatementView::Label(l) => l + ":\n"@,
        TacStatementView::Assignment(var, op) => "\t"@ + var + " = "@ + operation_text(op)
            + ";\n"@,
        TacStatementView::PointerAssignment(base, index, op) => "\t*("@ + base + " + "@
            + value_text(index) + ") = "@ + operation_text(op) + ";\n"@,
        TacStatementView::Command(c, v) => match v {
            Some(v) => "\t"@ + command_text(c) + " "@ + value_text(v) + ";\n"@,
            None => "\t"@ + command_text(c) + ";\n"@,
        },
    }
}

/// The text of a program: the lines of its statements in order.
pub open spec fn program_text(p: Seq<TacStatementView>) -> Seq<char>
    decreases p.len(),
{
    if p.len() == 0 {
        Seq::empty()
    } else {
        program_text(p.drop_last()) + statement_text(p.last())
    }
}

/// What can be written to a log.
pub trait Loggable {
    /// The text that stands for the value.
    spec fn log_text(&self) -> Seq<char>;

    /// The text of the value.
    fn to_log_message(&self) -> (s: String)
        ensures
            s@ == self.log_text(),
    ;
}

impl Loggable for TacCommand {
    open spec fn log_text(&self) -> Seq<char> {
        command_text(*self)
    }

    fn to_log_message(&self) -> (s: String) {
        match self {
            TacCommand::BeginFunc => String::from_str("BeginFunc"),
            TacCommand::EndFunc => String::from_str("EndFunc"),
            TacCommand::PushParam => String::from_str("PushParam"),
            TacCommand::PopParams => String::from_str("PopParams"),
            TacCommand::LCall => String::from_str("LCall"),
            TacCommand::IfZ => String::from_str("IfZ"),
            TacCommand::Goto => String::from_str("Goto"),
            TacCommand::Return => String::from_str("Return"),
        }
    }
}

/// Appends the text of the operand `v` to `s`.
pub fn append_value(s: &mut String, v: &TacValue)
    ensures
        final(s)@ == old(s)@ + value_text(v@),
    decreases v,
{
    match v {
        TacValue::Label(val) => s.append(val.as_str()),
        TacValue::Var(val) => s.append(val.as_str()),
        TacValue::Int(n) => append_decimal(s, *n),
        TacValue::Double(val) => s.append(val.as_str()),
        TacValue::PointerAccess(base, index) => {
            s.append("*(");
            s.append(base.as_str());
            s.append(" + ");
            append_value(s, index);
            s.append(")");
            assert(s@ =~= old(s)@ + value_text(v@));
        },
        TacValue::GetParams(n) => {
            s.append("GetParams ");
            append_decimal(s, *n);
            assert(s@ =~= old(s)@ + value_text(v@));
        },
        TacValue::LCallArgs(f) => {
            s.append("LCall ");
            s.append(f.as_str());
            assert(s@ =~= old(s)@ + value_text(v@));
        },
        TacValue::IfArgs(cond, label) => {
            s.append(cond.as_str());
            s.append(" Goto ");
            s.append(label.as_str());
            assert(s@ =~= old(s)@ + value_text(v@));
        },
    }
}

/// Appends the text of the right-hand side `o` to `s`.
pub fn append_operation(s: &mut String, o: &TacOperation)
    ensures
        final(s)@ == old(s)@ + operation_text(o@),
{
    append_value(s, &o.val1);
    if let Some(token) = &o.op {
        s.append(" ");
        let spelling = token.to_string();
        s.append(spelling.as_str());
        s.append(" ");
        if let Some(v) = &o.val2 {
            append_value(s, v);
        }
        assert(s@ =~= old(s)@ + operation_text(o@));
    }
}

/// Appends the line of the statement `st` to `s`.
pub fn append_statement(s: &mut String, st: &TacStatement)
    ensures
        final(s)@ == old(s)@ + statement_text(st@),
{
    match st {
        TacStatement::Label(label) => {
            s.append(label.as_str());
            s.append(":\n");
            assert(s@ =~= old(s)@ + statement_text(st@));
        },
        TacStatement::Assignment(var, op) => {
            s.append("\t");
            s.append(var.as_str());
            s.append(" = ");
            append_operation(s, op);
            s.append(";\n");
            assert(s@ =~= old(s)@ + statement_text(st@));
        },
        TacStatement::PointerAssignment(base, index, op) => {
            s.append("\t*(");
            s.append(base.as_str());
            s.append(" + ");
            append_value(s, index);
            s.append(") = ");
            append_operation(s, op);
            s.append(";\n");
            assert(s@ =~= old(s)@ + statement_text(st@));
        },
        TacStatement::Command(command, val) => {
            s.append("\t");
            let name = command.to_log_message();
            s.append(name.as_str());
            match val {
                Some(v) => {
                    s.append(" ");
                    append_value(s, v);
                },
                None => {},
            }
            s.append(";\n");
            assert(s@ =~= old(s)@ + statement_text(st@));
        },
    }
}

impl Loggable for TacValue {
    open spec fn log_text(&self) -> Seq<char> {
        value_text(self@)
    }

    fn to_log_message(&self) -> (s: String) {
        let mut s = String::new();
        append_value(&mut s, self);
        assert(s@ =~= value_text(self@));
        s
    }
}

impl Loggable for TacOperation {
    open spec fn log_text(&self) -> Seq<char> {
        operation_text(self@)
    }

    fn to_log_message(&self) -> (s: String) {
        let mut s = String::new();
        append_operation(&mut s, self);
        assert(s@ =~= operation_text(self@));
        s
    }
}

impl Loggable for TacStatement {
    open spec fn log_text(&self) -> Seq<char> {
        statement_text(self@)
    }

    fn to_log_message(&self) -> (s: String) {
        let mut s = String::new();
        append_statement(&mut s, self);
        assert(s@ =~= statement_text(self@));
        s
    }
}

impl Loggable for Vec<TacStatement> {
    open spec fn log_text(&self) -> Seq<char> {
        program_text(program_view(self@))
    }

    fn to_log_message(&self) -> (s: String) {
        let mut s = String::new();
        let mut i: usize = 0;
        while i < self.len()
            invariant
                0 <= i <= self@.len(),
                s@ == program_text(program_view(self@.take(i as int))),
            decreases self@.len() - i,
        {
            append_statement(&mut s, &self[i]);
            proof {
                let next = program_view(self@.take(i + 1));
                assert(next.drop_last() =~= program_view(self@.take(i as int)));
                assert(next.last() == self@[i as int]@);
            }
            i += 1;
        }
        assert(self@.take(i as int) =~= self@);
        s
    }
}

} // verus!
