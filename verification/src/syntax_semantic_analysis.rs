//! The parser: a pushdown automaton over the parsing table that hands the
//! semantic actions it meets to the semantic analyzer.

use vstd::prelude::*;
use crate::first_set::{first_of, first_view, get_constant_first_sets, FirstSet};
use crate::follow_set::{follow_of, follow_view, get_constant_follow_sets, FollowItem, FollowSet,
    FollowSetType};
use crate::ll1_table::{cells_of, cells_view, follows_view, generate_ll1_table, grammar_view,
    lemma_cells_of, table_wf, GrammarView, LL1Table};
use crate::non_terminals::{NonTerminal, NUM_NON_TERMINALS};
use crate::productions::{get_constant_productions, grammar, productions_view, rhs_view,
    Production, ProductionType, ProductionView, SymbolView};
use crate::semantic_analysis::{SemanticError, SemanticInfo};
use crate::semantic_model::{SemView, SemanticErrorView};
use crate::stack::{stack_view, Stack};
use crate::symbol_table::{SymbolTable, TableView};
use crate::syntax_analysis::{errors_view, SyntaxError, SyntaxErrorKind, SyntaxErrorType,
    SyntaxErrorView};
use crate::token::{ParsedToken, Token};

verus! {

/// The errors of the syntax and semantic phases.
#[derive(Debug, PartialEq)]
pub struct SyntaxSemanticErrors {
    pub syntax_errors: Vec<SyntaxError>,
    pub semantic_errors: Vec<SemanticError>,
}

/// What the automaton works with, as mathematical values.
pub struct ParserView {
    pub productions: Seq<ProductionView>,
    pub table: Seq<Seq<Option<usize>>>,
    pub follows: Seq<Seq<FollowItem>>,
    pub tokens: Seq<ParsedToken>,
}

/// The semantic errors `errors` as mathematical values, each with its
/// line.
pub open spec fn semantic_view(errors: Seq<SemanticError>) -> Seq<(SemanticErrorView, usize)> {
    Seq::new(errors.len(), |i: int| (errors[i].error_type@, errors[i].line))
}

/// How many steps the automaton takes on `count` tokens before it gives
/// up.
pub open spec fn step_budget(count: nat) -> nat {
    if count * 1024 + 1024 <= usize::MAX {
        count * 1024 + 1024
    } else {
        usize::MAX as nat
    }
}

/// Whether the set `follow` holds the terminal of kind `kind`.
pub open spec fn follow_has_kind(follow: Seq<FollowItem>, kind: nat) -> bool {
    follow.contains(FollowItem::Terminal(kind))
}

/// The place of the first token from place `from` on whose kind is in
/// `follow`, where there is one.
pub open spec fn resume_at(follow: Seq<FollowItem>, tokens: Seq<ParsedToken>, from: int) -> Option<int>
    decreases tokens.len() - from,
{
    if from < 0 || from >= tokens.len() {
        None
    } else if follow_has_kind(follow, tokens[from].token.kind()) {
        Some(from)
    } else {
        resume_at(follow, tokens, from + 1)
    }
}

/// The symbols of `rhs` in reverse order.
pub open spec fn reversed(rhs: Seq<SymbolView>) -> Seq<SymbolView> {
    Seq::new(rhs.len(), |i: int| rhs[rhs.len() - 1 - i])
}

/// An error of kind `kind` on the line of the token at place `at`.
pub open spec fn error_at(tokens: Seq<ParsedToken>, at: int, kind: SyntaxErrorKind) -> SyntaxErrorView {
    SyntaxErrorView { kind, line: tokens[at].line }
}

impl ParserView {
    /// The syntax errors that the automaton reports from the state with the
    /// stack `stack`, the current token at place `curr` and the next token
    /// to read at place `next`, in at most `steps` steps.
    ///
    /// With an empty stack it ends, and reports tokens that are left. A
    /// terminal on top must be of the kind of the current token, else both
    /// are reported; the automaton moves to the next token, and reports the
    /// end of input and stops where there is none while the stack holds
    /// more. A non-terminal on top is replaced by the body of the
    /// production that the table names for it and the current token, or
    /// taken off where the table names the empty word; where the table
    /// names nothing, the token is reported, and the automaton resumes at
    /// the next token whose kind is in the FOLLOW set of the non-terminal,
    /// or stops where there is none while the stack holds more. A semantic
    /// action on top is taken off.
    pub open spec fn run(self, stack: Seq<SymbolView>, curr: int, next: int, steps: nat) -> Seq<
        SyntaxErrorView,
    >
        decreases steps,
    {
        if stack.len() == 0 {
            if next < self.tokens.len() {
                seq![error_at(self.tokens, curr, SyntaxErrorKind::UnexpectedEndOfFile)]
            } else {
                Seq::empty()
            }
        } else if steps == 0 {
            seq![error_at(self.tokens, curr, SyntaxErrorKind::TooManySteps)]
        } else {
            let rest = stack.drop_last();
            let token = self.tokens[curr].token;
            match stack.last() {
                SymbolView::Terminal(kind) => {
                    let found = if kind != token.kind() {
                        seq![
                            error_at(
                                self.tokens,
                                curr,
                                SyntaxErrorKind::ExpectedToken(kind, token@),
                            ),
                        ]
                    } else {
                        Seq::empty()
                    };
                    if next < self.tokens.len() {
                        found + self.run(rest, next, next + 1, (steps - 1) as nat)
                    } else if rest.len() > 0 {
                        found + seq![
                            error_at(self.tokens, curr, SyntaxErrorKind::UnexpectedEndOfFile),
                        ]
                    } else {
                        found + self.run(rest, curr, next, (steps - 1) as nat)
                    }
                },
                SymbolView::NonTerminal(n) => match self.table[n.index() as int][token.kind() as int] {
                    Some(entry) => if entry >= self.productions.len() {
                        self.run(rest, curr, next, (steps - 1) as nat)
                    } else {
                        self.run(
                            rest + reversed(self.productions[entry as int].1),
                            curr,
                            next,
                            (steps - 1) as nat,
                        )
                    },
                    None => {
                        let found = seq![
                            error_at(self.tokens, curr, SyntaxErrorKind::UnexpectedToken(token@)),
                        ];
                        match resume_at(self.follows[n.index() as int], self.tokens, next) {
                            Some(at) => found + self.run(rest, at, at + 1, (steps - 1) as nat),
                            None => if rest.len() > 0 {
                                found
                            } else {
                                found + self.run(
                                    rest,
                                    curr,
                                    self.tokens.len() as int,
                                    (steps - 1) as nat,
                                )
                            },
                        }
                    },
                },
                SymbolView::Action(_) => self.run(rest, curr, next, (steps - 1) as nat),
            }
        }
    }

    /// What the semantic analyzer arrives at while the automaton runs from
    /// the state with the stack `stack`, the current token at place `curr`,
    /// the next token to read at place `next` and the latest terminal
    /// `prev`, in at most `steps` steps: its state, from `state` on, and the
    /// errors it reports, after `errors`.
    ///
    /// The automaton moves as it does for the syntax errors. A semantic
    /// action on top is performed on the state after the latest terminal;
    /// an error it reports is on the line of the current token.
    pub open spec fn analyze(
        self,
        stack: Seq<SymbolView>,
        curr: int,
        next: int,
        steps: nat,
        prev: Option<Token>,
        state: SemView,
        errors: Seq<(SemanticErrorView, usize)>,
    ) -> (SemView, Seq<(SemanticErrorView, usize)>)
        decreases steps,
    {
        if stack.len() == 0 || steps == 0 {
            (state, errors)
        } else {
            let rest = stack.drop_last();
            let token = self.tokens[curr].token;
            let left = (steps - 1) as nat;
            match stack.last() {
                SymbolView::Terminal(_) => if next < self.tokens.len() {
                    self.analyze(rest, next, next + 1, left, Some(token), state, errors)
                } else if rest.len() > 0 {
                    (state, errors)
                } else {
                    self.analyze(rest, curr, next, left, Some(token), state, errors)
                },
                SymbolView::NonTerminal(n) => match self.table[n.index() as int][token.kind() as int] {
                    Some(entry) => if entry >= self.productions.len() {
                        self.analyze(rest, curr, next, left, prev, state, errors)
                    } else {
                        self.analyze(
                            rest + reversed(self.productions[entry as int].1),
                            curr,
                            next,
                            left,
                            prev,
                            state,
                            errors,
                        )
                    },
                    None => match resume_at(self.follows[n.index() as int], self.tokens, next) {
                        Some(at) => self.analyze(rest, at, at + 1, left, prev, state, errors),
                        None => if rest.len() > 0 {
                            (state, errors)
                        } else {
                            self.analyze(
                                rest,
                                curr,
                                self.tokens.len() as int,
                                left,
                                prev,
                                state,
                                errors,
                            )
                        },
                    },
                },
                SymbolView::Action(action) => {
                    let stepped = state.step(action, prev);
                    self.analyze(
                        rest,
                        curr,
                        next,
                        left,
                        prev,
                        stepped.0,
                        match stepped.1 {
                            Some(error) => errors.push((error, self.tokens[curr].line)),
                            None => errors,
                        },
                    )
                },
            }
        }
    }

    /// The state of the semantic analyzer at the end of the tokens, and the
    /// semantic errors.
    pub open spec fn analysis(self) -> (SemView, Seq<(SemanticErrorView, usize)>) {
        self.analyze(
            seq![SymbolView::NonTerminal(NonTerminal::Program)],
            0,
            1,
            step_budget(self.tokens.len()),
            None,
            SemView::initial(),
            Seq::empty(),
        )
    }

    /// The symbol table of the tokens.
    pub open spec fn symbol_table(self) -> TableView {
        self.analysis().0.table
    }

    /// The semantic errors of the tokens, each with its line.
    pub open spec fn semantic_errors(self) -> Seq<(SemanticErrorView, usize)> {
        self.analysis().1
    }

    /// The syntax errors of the tokens: those that the automaton reports
    /// from the start symbol on the stack and the first token.
    pub open spec fn syntax_errors(self) -> Seq<SyntaxErrorView> {
        self.run(
            seq![SymbolView::NonTerminal(NonTerminal::Program)],
            0,
            1,
            step_budget(self.tokens.len()),
        )
    }
}

/// The automaton's tables and tokens as mathematical values.
pub open spec fn parser_view(
    tokens: Seq<ParsedToken>,
    productions: Seq<Production>,
    table: Seq<Vec<Option<usize>>>,
    follow_sets: Seq<FollowSet>,
) -> ParserView {
    ParserView {
        productions: productions_view(productions),
        table: cells_view(table),
        follows: follows_view(follow_sets),
        tokens,
    }
}

/// Whether the set `set` holds the terminal of kind `kind`.
fn follow_has_terminal(set: &Vec<FollowSetType>, kind: usize) -> (r: bool)
    ensures
        r == follow_has_kind(follow_view(set@), kind as nat),
{
    let mut i: usize = 0;
    while i < set.len()
        invariant
            0 <= i <= set@.len(),
            forall|j: int| 0 <= j < i ==> follow_view(set@)[j] != FollowItem::Terminal(kind as nat),
        decreases set@.len() - i,
    {
        if let FollowSetType::Terminal(token) = &set[i] {
            if token.to_index() == kind {
                assert(follow_view(set@)[i as int] == FollowItem::Terminal(kind as nat));
                return true;
            }
        }
        i += 1;
    }
    false
}

/// The place of the first token from place `from` on whose kind is in the
/// set `set`.
fn find_resume(set: &Vec<FollowSetType>, tokens: &Vec<ParsedToken>, from: usize) -> (r: Option<usize>)
    ensures
        match resume_at(follow_view(set@), tokens@, from as int) {
            Some(at) => r == Some(at as usize) && from <= at < tokens@.len(),
            None => r is None,
        },
{
    let mut i: usize = from;
    while i < tokens.len()
        invariant
            from <= i,
            resume_at(follow_view(set@), tokens@, from as int) == resume_at(
                follow_view(set@),
                tokens@,
                i as int,
            ),
        decreases tokens@.len() - i,
    {
        if follow_has_terminal(set, tokens[i].token.to_index()) {
            return Some(i);
        }
        i += 1;
    }
    None
}

/// Puts the body `right` on the stack, last symbol first.
fn push_reversed(stack: &mut Stack, right: &Vec<ProductionType>)
    ensures
        stack_view(final(stack)@) == stack_view(old(stack)@) + reversed(rhs_view(right@)),
{
    let mut i: usize = right.len();
    let ghost rhs = rhs_view(right@);
    assert(stack_view(stack@) + Seq::<SymbolView>::empty() =~= stack_view(stack@));
    while i > 0
        invariant
            0 <= i <= right@.len(),
            rhs == rhs_view(right@),
            stack_view(stack@) == stack_view(old(stack)@) + reversed(rhs).take(right@.len() - i),
        decreases i,
    {
        i -= 1;
        let ghost before = stack@;
        stack.push(right[i].clone());
        proof {
            let done = reversed(rhs).take(right@.len() - i - 1);
            let next = reversed(rhs).take(right@.len() - i);
            assert(next =~= done.push(rhs[i as int]));
            assert(stack_view(stack@) =~= stack_view(before).push(rhs[i as int]));
            assert((stack_view(old(stack)@) + done).push(rhs[i as int]) =~= stack_view(
                old(stack)@,
            ) + next);
        }
    }
    assert(reversed(rhs).take(right@.len() as int) =~= reversed(rhs));
}

/// The number of steps the automaton takes on `count` tokens before it
/// gives up.
fn budget(count: usize) -> (r: usize)
    ensures
        r == step_budget(count as nat),
{
    match count.checked_mul(1024) {
        Some(product) => match product.checked_add(1024) {
            Some(sum) => sum,
            None => usize::MAX,
        },
        None => usize::MAX,
    }
}

/// What the parser returns for the automaton `p`: where neither the
/// automaton nor the semantic analyzer reports an error, the symbol table
/// of the tokens, well formed; else the syntax errors of the automaton and
/// the semantic errors.
pub open spec fn parse_result(p: ParserView, r: Result<SymbolTable, SyntaxSemanticErrors>) -> bool {
    match r {
        Ok(symbol_table) => {
            &&& symbol_table.wf()
            &&& symbol_table@ == p.symbol_table()
            &&& p.syntax_errors().len() == 0
            &&& p.semantic_errors().len() == 0
        },
        Err(errors) => {
            &&& errors_view(errors.syntax_errors@) == p.syntax_errors()
            &&& semantic_view(errors.semantic_errors@) == p.semantic_errors()
            &&& errors.syntax_errors@.len() + errors.semantic_errors@.len() > 0
        },
    }
}

/// The grammar of the language with its FIRST sets and FOLLOW sets.
pub open spec fn language_grammar() -> GrammarView {
    GrammarView {
        productions: grammar(),
        firsts: Seq::new(NUM_NON_TERMINALS as nat, |i: int| first_of(NonTerminal::at(i))),
        follows: Seq::new(NUM_NON_TERMINALS as nat, |i: int| follow_of(NonTerminal::at(i))),
    }
}

/// The tables of the language hold the grammar of the language.
pub proof fn lemma_language_grammar(
    productions: Seq<Production>,
    first_sets: Seq<FirstSet>,
    follow_sets: Seq<FollowSet>,
)
    requires
        productions_view(productions) == grammar(),
        first_sets.len() == NUM_NON_TERMINALS,
        follow_sets.len() == NUM_NON_TERMINALS,
        forall|i: int|
            0 <= i < first_sets.len() ==> (#[trigger] first_sets[i]).non_terminal.index() == i
                && first_view(first_sets[i].first_set@) == first_of(first_sets[i].non_terminal),
        forall|i: int|
            0 <= i < follow_sets.len() ==> (#[trigger] follow_sets[i]).non_terminal.index() == i
                && follow_view(follow_sets[i].follow_set@) == follow_of(follow_sets[i].non_terminal),
    ensures
        grammar_view(productions, first_sets, follow_sets) == language_grammar(),
{
    let g = grammar_view(productions, first_sets, follow_sets);
    assert forall|i: int| 0 <= i < NUM_NON_TERMINALS implies g.firsts[i]
        == language_grammar().firsts[i] && g.follows[i] == language_grammar().follows[i] by {
        NonTerminal::lemma_index_one(first_sets[i].non_terminal, first_sets[i].non_terminal);
        NonTerminal::lemma_index_one(follow_sets[i].non_terminal, follow_sets[i].non_terminal);
    }
    assert(g.firsts =~= language_grammar().firsts);
    assert(g.follows =~= language_grammar().follows);
}

/// What the analysis returns where the grammar of the language is not
/// LL(1) by its sets: one syntax error that says so, on the line of the
/// first token.
pub open spec fn grammar_refused(
    tokens: Seq<ParsedToken>,
    r: Result<SymbolTable, SyntaxSemanticErrors>,
) -> bool {
    r matches Err(errors) && errors.semantic_errors@.len() == 0 && errors.syntax_errors@.len() == 1
        && errors.syntax_errors@[0].error_type is InvalidGrammar && errors.syntax_errors@[0].line
        == tokens[0].line
}

/// The automaton of the language on `tokens`: the productions of the
/// grammar, its parsing table and the FOLLOW sets of its non-terminals.
pub open spec fn language_parser(tokens: Seq<ParsedToken>) -> ParserView {
    ParserView {
        productions: grammar(),
        table: cells_of(language_grammar()),
        follows: language_grammar().follows,
        tokens,
    }
}

/// Parsing the same tokens with the same tables again gives the same: a
/// symbol table both times, and then the same one, or errors both times,
/// and then the same errors.
pub proof fn lemma_parse_repeatable(
    p: ParserView,
    first: Result<SymbolTable, SyntaxSemanticErrors>,
    second: Result<SymbolTable, SyntaxSemanticErrors>,
)
    requires
        parse_result(p, first),
        parse_result(p, second),
    ensures
        first is Ok == second is Ok,
        first is Ok ==> first->Ok_0@ == second->Ok_0@,
        first is Err ==> errors_view(first->Err_0.syntax_errors@) == errors_view(
            second->Err_0.syntax_errors@,
        ) && semantic_view(first->Err_0.semantic_errors@) == semantic_view(
            second->Err_0.semantic_errors@,
        ),
{
}

/// Parses `tokens` with the given tables and analyzes them. Returns the
/// symbol table where neither phase reports an error, and the errors of
/// both phases otherwise; the syntax errors are those of the automaton.
pub fn parse(
    tokens: &Vec<ParsedToken>,
    productions: &Vec<Production>,
    table: &LL1Table,
    follow_sets: &Vec<FollowSet>,
) -> (r: Result<SymbolTable, SyntaxSemanticErrors>)
    requires
        tokens@.len() > 0,
        table_wf(table@),
        follow_sets@.len() == NUM_NON_TERMINALS,
    ensures
        parse_result(parser_view(tokens@, productions@, table@, follow_sets@), r),
{
    let ghost p = parser_view(tokens@, productions@, table@, follow_sets@);
    let mut semantic_info = SemanticInfo::new();
    let mut errors = SyntaxSemanticErrors { syntax_errors: Vec::new(), semantic_errors: Vec::new() };
    let mut stack = Stack::new();
    stack.push(ProductionType::NonTerminal(NonTerminal::Program));
    let mut curr: usize = 0;
    let mut next: usize = 1;
    let mut prev_terminal: Option<Token> = None;
    let mut steps: usize = budget(tokens.len());
    proof {
        assert(stack_view(stack@) =~= seq![SymbolView::NonTerminal(NonTerminal::Program)]);
        assert(errors_view(errors.syntax_errors@) =~= Seq::empty());
        assert(Seq::<SyntaxErrorView>::empty() + p.syntax_errors() =~= p.syntax_errors());
        assert(semantic_view(errors.semantic_errors@) =~= Seq::empty());
    }
    while !stack.is_empty()
        invariant
            p == parser_view(tokens@, productions@, table@, follow_sets@),
            tokens@.len() > 0,
            table_wf(table@),
            follow_sets@.len() == NUM_NON_TERMINALS,
            semantic_info.wf(),
            curr < tokens@.len(),
            curr < next <= tokens@.len(),
            p.syntax_errors() == errors_view(errors.syntax_errors@) + p.run(
                stack_view(stack@),
                curr as int,
                next as int,
                steps as nat,
            ),
            p.analysis() == p.analyze(
                stack_view(stack@),
                curr as int,
                next as int,
                steps as nat,
                prev_terminal,
                semantic_info@,
                semantic_view(errors.semantic_errors@),
            ),
        decreases steps,
    {
        let ghost before_errors = errors_view(errors.syntax_errors@);
        let ghost before_semantic = semantic_view(errors.semantic_errors@);
        let ghost before_stack = stack_view(stack@);
        let ghost old_curr = curr as int;
        if steps == 0 {
            errors.syntax_errors.push(SyntaxError::new(SyntaxErrorType::TooManySteps, tokens[curr].line));
            proof {
                assert(errors_view(errors.syntax_errors@) =~= before_errors + seq![
                    error_at(tokens@, curr as int, SyntaxErrorKind::TooManySteps),
                ]);
            }
            return Err(errors);
        }
        steps -= 1;
        let top = stack.pop().unwrap();
        assert(stack_view(stack@) =~= before_stack.drop_last());
        assert(before_stack.last() == top@);
        match top {
            ProductionType::Terminal(token) => {
                let mismatch = !token.equals_type(&tokens[curr].token);
                if mismatch {
                    errors.syntax_errors.push(
                        SyntaxError::new(
                            SyntaxErrorType::ExpectedToken(token, tokens[curr].token.clone()),
                            tokens[curr].line,
                        ),
                    );
                }
                let ghost found = errors_view(errors.syntax_errors@);
                proof {
                    if mismatch {
                        assert(found =~= before_errors + seq![
                            error_at(
                                tokens@,
                                curr as int,
                                SyntaxErrorKind::ExpectedToken(
                                    before_stack.last()->Terminal_0,
                                    tokens@[curr as int].token@,
                                ),
                            ),
                        ]);
                    } else {
                        assert(found =~= before_errors + Seq::<SyntaxErrorView>::empty());
                    }
                }
                prev_terminal = Some(tokens[curr].token.clone());
                if next < tokens.len() {
                    curr = next;
                    next = next + 1;
                    proof {
                        let tail = p.run(stack_view(stack@), curr as int, next as int, steps as nat);
                        if mismatch {
                            assert(before_errors + (seq![
                                error_at(
                                    tokens@,
                                    old_curr,
                                    SyntaxErrorKind::ExpectedToken(
                                        before_stack.last()->Terminal_0,
                                        tokens@[old_curr].token@,
                                    ),
                                ),
                            ] + tail) =~= found + tail);
                        } else {
                            assert(before_errors + (Seq::<SyntaxErrorView>::empty() + tail) =~= found
                                + tail);
                        }
                    }
                } else if !stack.is_empty() {
                    errors.syntax_errors.push(
                        SyntaxError::new(SyntaxErrorType::UnexpectedEndOfFile, tokens[curr].line),
                    );
                    proof {
                        let end = seq![
                            error_at(tokens@, curr as int, SyntaxErrorKind::UnexpectedEndOfFile),
                        ];
                        assert(errors_view(errors.syntax_errors@) =~= found + end);
                        assert(found + end =~= before_errors + ((if mismatch {
                            seq![
                                error_at(
                                    tokens@,
                                    curr as int,
                                    SyntaxErrorKind::ExpectedToken(
                                        before_stack.last()->Terminal_0,
                                        tokens@[curr as int].token@,
                                    ),
                                ),
                            ]
                        } else {
                            Seq::<SyntaxErrorView>::empty()
                        }) + end));
                    }
                    return Err(errors);
                } else {
                    proof {
                        let tail = p.run(stack_view(stack@), curr as int, next as int, steps as nat);
                        assert(before_errors + ((if mismatch {
                            seq![
                                error_at(
                                    tokens@,
                                    curr as int,
                                    SyntaxErrorKind::ExpectedToken(
                                        before_stack.last()->Terminal_0,
                                        tokens@[curr as int].token@,
                                    ),
                                ),
                            ]
                        } else {
                            Seq::<SyntaxErrorView>::empty()
                        }) + tail) =~= found + tail);
                    }
                }
                assert(p.syntax_errors() == errors_view(errors.syntax_errors@) + p.run(
                    stack_view(stack@),
                    curr as int,
                    next as int,
                    steps as nat,
                ));
            },
            ProductionType::NonTerminal(non_terminal) => {
                let row = non_terminal.to_index();
                let column = tokens[curr].token.to_index();
                assert(p.table[row as int][column as int] == table@[row as int]@[column as int]);
                match table[row][column] {
                    Some(production_index) => {
                        assert(p.productions.len() == productions@.len());
                        assert(stack_view(stack@) + Seq::<SymbolView>::empty() =~= stack_view(
                            stack@,
                        ));
                        if production_index < productions.len() {
                            assert(p.productions[production_index as int].1 == rhs_view(
                                productions@[production_index as int].right@,
                            ));
                            push_reversed(&mut stack, &productions[production_index].right);
                        }
                        assert(p.syntax_errors() == errors_view(errors.syntax_errors@) + p.run(
                    stack_view(stack@),
                    curr as int,
                    next as int,
                    steps as nat,
                ));
                    },
                    None => {
                        errors.syntax_errors.push(
                            SyntaxError::new(
                                SyntaxErrorType::UnexpectedToken(tokens[curr].token.clone()),
                                tokens[curr].line,
                            ),
                        );
                        let ghost found = seq![
                            error_at(
                                tokens@,
                                curr as int,
                                SyntaxErrorKind::UnexpectedToken(tokens@[curr as int].token@),
                            ),
                        ];
                        assert(errors_view(errors.syntax_errors@) =~= before_errors + found);
                        assert(p.follows[row as int] == follow_view(
                            follow_sets@[row as int].follow_set@,
                        ));
                        match find_resume(&follow_sets[row].follow_set, tokens, next) {
                            Some(at) => {
                                let count = tokens.len();
                                assert(at < count);
                                curr = at;
                                next = at + 1;
                                proof {
                                    let tail = p.run(
                                        stack_view(stack@),
                                        curr as int,
                                        next as int,
                                        steps as nat,
                                    );
                                    assert(before_errors + (found + tail) =~= (before_errors + found)
                                        + tail);
                                }
                            },
                            None => {
                                if !stack.is_empty() {
                                    return Err(errors);
                                }
                                next = tokens.len();
                                proof {
                                    let tail = p.run(
                                        stack_view(stack@),
                                        curr as int,
                                        next as int,
                                        steps as nat,
                                    );
                                    assert(before_errors + (found + tail) =~= (before_errors + found)
                                        + tail);
                                }
                            },
                        }
                    },
                }
            },
            ProductionType::Action(action) => {
                match semantic_info.perform_action(&action, &prev_terminal) {
                    Ok(()) => {},
                    Err(error) => {
                        errors.semantic_errors.push(SemanticError::new(error, tokens[curr].line));
                        assert(semantic_view(errors.semantic_errors@) =~= before_semantic.push(
                            (error@, tokens@[curr as int].line),
                        ));
                    },
                }
                assert(p.syntax_errors() == errors_view(errors.syntax_errors@) + p.run(
                    stack_view(stack@),
                    curr as int,
                    next as int,
                    steps as nat,
                ));
            },
        }
    }
    if next < tokens.len() {
        let ghost before_errors = errors_view(errors.syntax_errors@);
        errors.syntax_errors.push(
            SyntaxError::new(SyntaxErrorType::UnexpectedEndOfFile, tokens[curr].line),
        );
        assert(errors_view(errors.syntax_errors@) =~= before_errors + seq![
            error_at(tokens@, curr as int, SyntaxErrorKind::UnexpectedEndOfFile),
        ]);
    } else {
        assert(errors_view(errors.syntax_errors@) + Seq::<SyntaxErrorView>::empty()
            =~= errors_view(errors.syntax_errors@));
    }
    if errors.syntax_errors.len() > 0 || errors.semantic_errors.len() > 0 {
        return Err(errors);
    }
    Ok(semantic_info.symbol_table)
}

/// Parses and analyzes `tokens` with the grammar of the language: with the
/// parsing table of the grammar where it is LL(1) by its sets.
pub fn perform_syntax_semantic_analysis(tokens: Vec<ParsedToken>) -> (r: Result<
    SymbolTable,
    SyntaxSemanticErrors,
>)
    requires
        tokens@.len() > 0,
    ensures
        language_grammar().ll1() ==> parse_result(language_parser(tokens@), r),
        !language_grammar().ll1() ==> grammar_refused(tokens@, r),
{
    let productions = get_constant_productions();
    let first_sets = get_constant_first_sets();
    let follow_sets = get_constant_follow_sets();
    proof {
        lemma_language_grammar(productions@, first_sets@, follow_sets@);
    }
    match generate_ll1_table(&productions, &first_sets, &follow_sets) {
        Ok(table) => {
            let r = parse(&tokens, &productions, &table, &follow_sets);
            proof {
                lemma_cells_of(table@, language_grammar());
                assert(parser_view(tokens@, productions@, table@, follow_sets@) == language_parser(
                    tokens@,
                ));
            }
            r
        },
        Err(_) => {
            let mut syntax_errors: Vec<SyntaxError> = Vec::new();
            syntax_errors.push(SyntaxError::new(SyntaxErrorType::InvalidGrammar, tokens[0].line));
            Err(SyntaxSemanticErrors { syntax_errors, semantic_errors: Vec::new() })
        },
    }
}

} // verus!
