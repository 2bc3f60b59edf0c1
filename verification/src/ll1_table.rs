//! The parsing table of the predictive parser: for a non-terminal and the
//! kind of the next token, the production to expand.

use vstd::prelude::*;
use crate::first_set::{first_view, FirstItem, FirstSet, FirstSetType};
use crate::follow_set::{follow_view, FollowItem, FollowSet, FollowSetType};
use crate::non_terminals::{NonTerminal, NUM_NON_TERMINALS, NUM_TERMINALS};
use crate::productions::{productions_view, rhs_view, Production, ProductionType, ProductionView,
    SymbolView};

verus! {

/// The parsing table: a row for each non-terminal, a column for each kind of
/// terminal and a last column for the end of input. An entry below the
/// number of productions names a production; an entry equal to it says that
/// the non-terminal derives the empty word here.
pub type LL1Table = Vec<Vec<Option<usize>>>;

/// Number of columns of the parsing table.
pub const NUM_COLUMNS: usize = 40;

/// Why a grammar has no parsing table.
#[derive(Debug, PartialEq, Eq, Clone, Copy, Structural)]
pub enum GrammarError {
    /// Two productions claim one entry.
    Conflict,
    /// A terminal of a FIRST set begins no production of its non-terminal.
    NoProduction,
    /// A non-terminal lacks its FIRST set or its FOLLOW set.
    MissingSets,
}

/// A grammar as mathematical values: its productions and, for each
/// non-terminal by ordinal, its FIRST set and its FOLLOW set.
pub struct GrammarView {
    pub productions: Seq<ProductionView>,
    pub firsts: Seq<Seq<FirstItem>>,
    pub follows: Seq<Seq<FollowItem>>,
}

/// The FIRST sets as mathematical values.
pub open spec fn firsts_view(first_sets: Seq<FirstSet>) -> Seq<Seq<FirstItem>> {
    Seq::new(first_sets.len(), |i: int| first_view(first_sets[i].first_set@))
}

/// The FOLLOW sets as mathematical values.
pub open spec fn follows_view(follow_sets: Seq<FollowSet>) -> Seq<Seq<FollowItem>> {
    Seq::new(follow_sets.len(), |i: int| follow_view(follow_sets[i].follow_set@))
}

/// The column of a member of a FOLLOW set.
pub open spec fn follow_column(item: FollowItem) -> nat {
    match item {
        FollowItem::Terminal(kind) => kind,
        FollowItem::EndOfInput => NUM_TERMINALS as nat,
    }
}

/// Whether a member of `follow` has column `column`.
pub open spec fn follow_has(follow: Seq<FollowItem>, column: nat) -> bool {
    exists|i: int| 0 <= i < follow.len() && follow_column(#[trigger] follow[i]) == column
}

/// Whether what the body `rhs` derives can begin with the terminal of kind
/// `t`: semantic actions are passed over, a terminal decides, and a
/// non-terminal decides by its FIRST set unless that holds the empty word
/// and not `t`.
pub open spec fn can_start(firsts: Seq<Seq<FirstItem>>, rhs: Seq<SymbolView>, t: nat) -> bool
    decreases rhs.len(),
{
    if rhs.len() == 0 {
        false
    } else {
        match rhs[0] {
            SymbolView::Action(_) => can_start(firsts, rhs.drop_first(), t),
            SymbolView::Terminal(kind) => kind == t,
            SymbolView::NonTerminal(m) => firsts[m.index() as int].contains(FirstItem::Terminal(t))
                || (firsts[m.index() as int].contains(FirstItem::Epsilon) && can_start(
                firsts,
                rhs.drop_first(),
                t,
            )),
        }
    }
}

impl GrammarView {
    /// Whether the entry for the non-terminal with ordinal `row` and the
    /// column `column` is owed to `entry`: to a production of the
    /// non-terminal whose body can begin with the column's terminal, which
    /// is in the FIRST set; or to the empty word, where the FIRST set holds
    /// it and the FOLLOW set holds the column.
    pub open spec fn claims(self, row: int, column: nat, entry: int) -> bool {
        if entry == self.productions.len() {
            self.firsts[row].contains(FirstItem::Epsilon) && follow_has(self.follows[row], column)
        } else {
            0 <= entry < self.productions.len() && self.productions[entry].0.index() == row
                && self.firsts[row].contains(FirstItem::Terminal(column)) && can_start(
                self.firsts,
                self.productions[entry].1,
                column,
            )
        }
    }

    /// Whether one claim at most is laid to the entry, and a claim of a
    /// production where the FIRST set holds the column's terminal.
    pub open spec fn cell_ok(self, row: int, column: nat) -> bool {
        &&& forall|a: int, b: int|
            self.claims(row, column, a) && self.claims(row, column, b) ==> a == b
        &&& self.firsts[row].contains(FirstItem::Terminal(column)) ==> exists|entry: int|
            0 <= entry < self.productions.len() && self.claims(row, column, entry)
    }

    /// Whether the grammar is LL(1) by its sets: every entry is in order.
    pub open spec fn ll1(self) -> bool {
        forall|row: int, column: nat|
            0 <= row < NUM_NON_TERMINALS && column < NUM_COLUMNS ==> #[trigger] self.cell_ok(
                row,
                column,
            )
    }

    /// Whether every non-terminal has its sets.
    pub open spec fn complete(self) -> bool {
        self.firsts.len() == NUM_NON_TERMINALS && self.follows.len() == NUM_NON_TERMINALS
    }
}

/// Whether the table has its rows and columns.
pub open spec fn table_wf(table: Seq<Vec<Option<usize>>>) -> bool {
    &&& table.len() == NUM_NON_TERMINALS
    &&& forall|row: int| 0 <= row < table.len() ==> (#[trigger] table[row])@.len() == NUM_COLUMNS
}

/// Whether the table holds exactly the claims of the grammar `g`.
pub open spec fn table_of(table: Seq<Vec<Option<usize>>>, g: GrammarView) -> bool {
    &&& table_wf(table)
    &&& forall|row: int, column: int|
        0 <= row < NUM_NON_TERMINALS && 0 <= column < NUM_COLUMNS ==> (
        #[trigger] table[row]@[column] matches Some(entry) ==> g.claims(
            row,
            column as nat,
            entry as int,
        ))
    &&& forall|row: int, column: int, entry: usize|
        0 <= row < NUM_NON_TERMINALS && 0 <= column < NUM_COLUMNS && #[trigger] g.claims(
            row,
            column as nat,
            entry as int,
        ) ==> table[row]@[column] == Some(entry)
}

/// The entries of the table `table`, row by row.
pub open spec fn cells_view(table: Seq<Vec<Option<usize>>>) -> Seq<Seq<Option<usize>>> {
    Seq::new(table.len(), |row: int| table[row]@)
}

/// Whether the production `entry` lays claim to the entry of non-terminal
/// `row` and column `column` in the grammar `g`.
pub open spec fn claimed(g: GrammarView, row: int, column: int, entry: usize) -> bool {
    g.claims(row, column as nat, entry as int)
}

/// The entries of the parsing table of the grammar `g`: for each
/// non-terminal and column the production that lays claim to the entry,
/// where one does.
pub open spec fn cells_of(g: GrammarView) -> Seq<Seq<Option<usize>>> {
    Seq::new(
        NUM_NON_TERMINALS as nat,
        |row: int|
            Seq::new(
                NUM_COLUMNS as nat,
                |column: int|
                    if exists|entry: usize| claimed(g, row, column, entry) {
                        Some(choose|entry: usize| claimed(g, row, column, entry))
                    } else {
                        None
                    },
            ),
    )
}

/// A table of a grammar holds the entries of the parsing table of the
/// grammar.
pub proof fn lemma_cells_of(table: Seq<Vec<Option<usize>>>, g: GrammarView)
    requires
        table_of(table, g),
    ensures
        cells_view(table) == cells_of(g),
{
    assert forall|row: int| 0 <= row < NUM_NON_TERMINALS implies cells_view(table)[row] == cells_of(
        g,
    )[row] by {
        assert forall|column: int| 0 <= column < NUM_COLUMNS implies table[row]@[column]
            == cells_of(g)[row][column] by {
            if exists|entry: usize| claimed(g, row, column, entry) {
                let entry = choose|entry: usize| claimed(g, row, column, entry);
                assert(g.claims(row, column as nat, entry as int));
            } else {
                if let Some(entry) = table[row]@[column] {
                    assert(claimed(g, row, column, entry));
                }
            }
        }
        assert(table[row]@ =~= cells_of(g)[row]);
    }
    assert(cells_view(table) =~= cells_of(g));
}

/// In a table of a grammar one production at most stands for a non-terminal
/// and a terminal, and whatever lays claim to an entry is found in it.
pub proof fn lemma_one_production(
    table: Seq<Vec<Option<usize>>>,
    g: GrammarView,
    row: int,
    column: int,
    a: int,
    b: int,
)
    requires
        table_of(table, g),
        0 <= row < NUM_NON_TERMINALS,
        0 <= column < NUM_COLUMNS,
        g.claims(row, column as nat, a),
        g.claims(row, column as nat, b),
        g.productions.len() <= usize::MAX,
    ensures
        a == b,
        0 <= a <= usize::MAX,
        table[row]@[column] == Some(a as usize),
{
    assert(g.claims(row, column as nat, a as usize as int));
    assert(g.claims(row, column as nat, b as usize as int));
    assert(table[row]@[column] == Some(a as usize));
    assert(table[row]@[column] == Some(b as usize));
}

/// Whether the set `set` holds the terminal of kind `kind`.
fn first_has_terminal(set: &Vec<FirstSetType>, kind: usize) -> (r: bool)
    ensures
        r == first_view(set@).contains(FirstItem::Terminal(kind as nat)),
{
    let mut i: usize = 0;
    while i < set.len()
        invariant
            0 <= i <= set@.len(),
            forall|j: int| 0 <= j < i ==> first_view(set@)[j] != FirstItem::Terminal(kind as nat),
        decreases set@.len() - i,
    {
        if let FirstSetType::Terminal(token) = &set[i] {
            if token.to_index() == kind {
                assert(first_view(set@)[i as int] == FirstItem::Terminal(kind as nat));
                return true;
            }
        }
        i += 1;
    }
    false
}

/// Whether the set `set` holds the empty word.
fn first_has_epsilon(set: &Vec<FirstSetType>) -> (r: bool)
    ensures
        r == first_view(set@).contains(FirstItem::Epsilon),
{
    let mut i: usize = 0;
    while i < set.len()
        invariant
            0 <= i <= set@.len(),
            forall|j: int| 0 <= j < i ==> first_view(set@)[j] != FirstItem::Epsilon,
        decreases set@.len() - i,
    {
        if let FirstSetType::Epsilon = &set[i] {
            assert(first_view(set@)[i as int] == FirstItem::Epsilon);
            return true;
        }
        i += 1;
    }
    false
}

/// Whether a member of the set `set` has column `column`.
fn follow_has_column(set: &Vec<FollowSetType>, column: usize) -> (r: bool)
    ensures
        r == follow_has(follow_view(set@), column as nat),
{
    let mut i: usize = 0;
    while i < set.len()
        invariant
            0 <= i <= set@.len(),
            forall|j: int| 0 <= j < i ==> follow_column(#[trigger] follow_view(set@)[j]) != column,
        decreases set@.len() - i,
    {
        let item_column = match &set[i] {
            FollowSetType::Terminal(token) => token.to_index(),
            FollowSetType::EndOfInput => NUM_TERMINALS,
        };
        if item_column == column {
            assert(follow_column(follow_view(set@)[i as int]) == column);
            return true;
        }
        i += 1;
    }
    false
}

/// Whether what the body `right` derives can begin with the terminal of
/// kind `kind`.
fn starts_with(first_sets: &Vec<FirstSet>, right: &Vec<ProductionType>, kind: usize) -> (r: bool)
    requires
        first_sets@.len() == NUM_NON_TERMINALS,
    ensures
        r == can_start(firsts_view(first_sets@), rhs_view(right@), kind as nat),
{
    let ghost firsts = firsts_view(first_sets@);
    let ghost rhs = rhs_view(right@);
    let mut i: usize = 0;
    assert(rhs.subrange(0, rhs.len() as int) =~= rhs);
    while i < right.len()
        invariant
            0 <= i <= right@.len(),
            first_sets@.len() == NUM_NON_TERMINALS,
            firsts == firsts_view(first_sets@),
            rhs == rhs_view(right@),
            can_start(firsts, rhs, kind as nat) == can_start(
                firsts,
                rhs.subrange(i as int, rhs.len() as int),
                kind as nat,
            ),
        decreases right@.len() - i,
    {
        let ghost rest = rhs.subrange(i as int, rhs.len() as int);
        assert(rest[0] == right@[i as int]@);
        assert(rest.drop_first() =~= rhs.subrange(i + 1, rhs.len() as int));
        match &right[i] {
            ProductionType::Action(_) => {},
            ProductionType::Terminal(token) => {
                return token.to_index() == kind;
            },
            ProductionType::NonTerminal(m) => {
                let set = &first_sets[m.to_index()].first_set;
                assert(firsts[m.index() as int] == first_view(set@));
                if first_has_terminal(set, kind) {
                    return true;
                }
                if !first_has_epsilon(set) {
                    return false;
                }
            },
        }
        i += 1;
    }
    false
}

/// Enters the production `production_index` for the non-terminal
/// `non_terminal` and the column `token_index`, unless the entry is taken.
pub fn set_table_entry(
    table: &mut LL1Table,
    non_terminal: &NonTerminal,
    token_index: usize,
    production_index: usize,
) -> (r: Result<(), GrammarError>)
    requires
        table_wf(old(table)@),
        token_index < NUM_COLUMNS,
    ensures
        table_wf(final(table)@),
        r is Err <==> old(table)@[non_terminal.index() as int]@[token_index as int] is Some,
        r matches Err(e) ==> e == GrammarError::Conflict && final(table)@ == old(table)@,
        r is Ok ==> final(table)@[non_terminal.index() as int]@ == old(
            table,
        )@[non_terminal.index() as int]@.update(token_index as int, Some(production_index)),
        forall|row: int|
            0 <= row < NUM_NON_TERMINALS && row != non_terminal.index() ==> final(table)@[row] == old(
                table,
            )@[row],
{
    let row = non_terminal.to_index();
    if table[row][token_index].is_some() {
        return Err(GrammarError::Conflict);
    }
    table[row][token_index] = Some(production_index);
    Ok(())
}

/// A table without entries.
fn empty_table() -> (table: LL1Table)
    ensures
        table_wf(table@),
        forall|row: int, column: int|
            0 <= row < NUM_NON_TERMINALS && 0 <= column < NUM_COLUMNS ==> table@[row]@[column] is None,
{
    let mut table: LL1Table = Vec::new();
    let mut row: usize = 0;
    while row < NUM_NON_TERMINALS
        invariant
            0 <= row <= NUM_NON_TERMINALS,
            table@.len() == row,
            forall|r: int| 0 <= r < row ==> (#[trigger] table@[r])@.len() == NUM_COLUMNS,
            forall|r: int, c: int| 0 <= r < row && 0 <= c < NUM_COLUMNS ==> table@[r]@[c] is None,
        decreases NUM_NON_TERMINALS - row,
    {
        let mut columns: Vec<Option<usize>> = Vec::new();
        let mut column: usize = 0;
        while column < NUM_COLUMNS
            invariant
                0 <= column <= NUM_COLUMNS,
                columns@.len() == column,
                forall|c: int| 0 <= c < column ==> columns@[c] is None,
            decreases NUM_COLUMNS - column,
        {
            columns.push(None);
            column += 1;
        }
        table.push(columns);
        row += 1;
    }
    table
}

/// Fills the entry of the non-terminal with ordinal `row` and the column
/// `column`, which is empty, with what lays claim to it.
fn fill_cell(
    table: &mut LL1Table,
    productions: &Vec<Production>,
    first_sets: &Vec<FirstSet>,
    follow_sets: &Vec<FollowSet>,
    row: usize,
    column: usize,
) -> (r: Result<(), GrammarError>)
    requires
        table_wf(old(table)@),
        first_sets@.len() == NUM_NON_TERMINALS,
        follow_sets@.len() == NUM_NON_TERMINALS,
        row < NUM_NON_TERMINALS,
        column < NUM_COLUMNS,
        old(table)@[row as int]@[column as int] is None,
    ensures
        table_wf(final(table)@),
        r is Ok <==> grammar_view(productions@, first_sets@, follow_sets@).cell_ok(
            row as int,
            column as nat,
        ),
        r matches Err(e) ==> e != GrammarError::MissingSets,
        r is Ok ==> (final(table)@[row as int]@[column as int] matches Some(entry) ==> grammar_view(
            productions@,
            first_sets@,
            follow_sets@,
        ).claims(row as int, column as nat, entry as int)),
        r is Ok ==> forall|entry: usize| #[trigger]
            grammar_view(productions@, first_sets@, follow_sets@).claims(
                row as int,
                column as nat,
                entry as int,
            ) ==> final(table)@[row as int]@[column as int] == Some(entry),
        forall|r2: int, c2: int|
            0 <= r2 < NUM_NON_TERMINALS && 0 <= c2 < NUM_COLUMNS && !(r2 == row && c2 == column)
                ==> final(table)@[r2]@[c2] == old(table)@[r2]@[c2],
{
    let ghost g = grammar_view(productions@, first_sets@, follow_sets@);
    let non_terminal = NonTerminal::from_index(row);
    let in_first = first_has_terminal(&first_sets[row].first_set, column);
    assert(g.firsts[row as int] == first_view(first_sets@[row as int].first_set@));
    assert(g.follows[row as int] == follow_view(follow_sets@[row as int].follow_set@));
    if in_first {
        let mut i: usize = 0;
        while i < productions.len()
            invariant
                0 <= i <= productions@.len(),
                table_wf(table@),
                first_sets@.len() == NUM_NON_TERMINALS,
                g == grammar_view(productions@, first_sets@, follow_sets@),
                row < NUM_NON_TERMINALS,
                column < NUM_COLUMNS,
                non_terminal.index() == row,
                g.firsts[row as int].contains(FirstItem::Terminal(column as nat)),
                table@[row as int]@[column as int] matches Some(entry) ==> entry < i && g.claims(
                    row as int,
                    column as nat,
                    entry as int,
                ),
                forall|entry: usize|
                    entry < i && #[trigger] g.claims(row as int, column as nat, entry as int)
                        ==> table@[row as int]@[column as int] == Some(entry),
                forall|r2: int, c2: int|
                    0 <= r2 < NUM_NON_TERMINALS && 0 <= c2 < NUM_COLUMNS && !(r2 == row && c2
                        == column) ==> table@[r2]@[c2] == old(table)@[r2]@[c2],
            decreases productions@.len() - i,
        {
            let production = &productions[i];
            assert(g.productions[i as int] == (production.left, rhs_view(production.right@)));
            if production.left.to_index() == row && starts_with(first_sets, &production.right, column) {
                assert(g.claims(row as int, column as nat, i as int));
                let ghost before = table@;
                match set_table_entry(table, &non_terminal, column, i) {
                    Ok(()) => {},
                    Err(e) => {
                        proof {
                            let other = before[row as int]@[column as int]->0;
                            assert(g.claims(row as int, column as nat, other as int));
                            assert(other != i);
                        }
                        return Err(e);
                    },
                }
            } else {
                assert(!g.claims(row as int, column as nat, i as int));
            }
            i += 1;
        }
        if table[row][column].is_none() {
            proof {
                assert forall|entry: int| 0 <= entry < g.productions.len() implies !g.claims(
                    row as int,
                    column as nat,
                    entry,
                ) by {
                    if g.claims(row as int, column as nat, entry) {
                        assert(table@[row as int]@[column as int] == Some(entry as usize));
                    }
                }
                assert(!g.cell_ok(row as int, column as nat));
            }
            return Err(GrammarError::NoProduction);
        }
        assert(i == productions@.len());
    } else {
        assert(table@[row as int]@[column as int] is None);
        assert forall|entry: usize| entry < productions@.len() implies !#[trigger] g.claims(
            row as int,
            column as nat,
            entry as int,
        ) by {}
    }
    let ghost mid = table@;
    assert(g.productions.len() == productions@.len());
    assert(mid[row as int]@[column as int] matches Some(entry) ==> entry < productions@.len()
        && g.claims(row as int, column as nat, entry as int));
    assert(forall|entry: usize|
        entry < productions@.len() && #[trigger] g.claims(row as int, column as nat, entry as int)
            ==> mid[row as int]@[column as int] == Some(entry));
    assert(in_first ==> mid[row as int]@[column as int] is Some);
    if first_has_epsilon(&first_sets[row].first_set) && follow_has_column(
        &follow_sets[row].follow_set,
        column,
    ) {
        assert(g.claims(row as int, column as nat, productions@.len() as int));
        match set_table_entry(table, &non_terminal, column, productions.len()) {
            Ok(()) => {},
            Err(e) => {
                proof {
                    let other = mid[row as int]@[column as int]->0;
                    assert(g.claims(row as int, column as nat, other as int));
                    assert(other != productions@.len());
                }
                return Err(e);
            },
        }
    }
    proof {
        assert forall|entry: usize| #[trigger]
            g.claims(row as int, column as nat, entry as int) implies table@[row as int]@[column as int]
            == Some(entry) by {}
        assert forall|a: int, b: int|
            g.claims(row as int, column as nat, a) && g.claims(row as int, column as nat, b) implies a
            == b by {
            assert(g.claims(row as int, column as nat, a as usize as int));
            assert(g.claims(row as int, column as nat, b as usize as int));
        }
        if in_first {
            let entry = mid[row as int]@[column as int]->0;
            assert(g.claims(row as int, column as nat, entry as int));
        }
    }
    Ok(())
}

/// The grammar of the given productions and sets as mathematical values.
pub open spec fn grammar_view(
    productions: Seq<Production>,
    first_sets: Seq<FirstSet>,
    follow_sets: Seq<FollowSet>,
) -> GrammarView {
    GrammarView {
        productions: productions_view(productions),
        firsts: firsts_view(first_sets),
        follows: follows_view(follow_sets),
    }
}

/// The parsing table of a grammar. There is one exactly when every
/// non-terminal has its sets and the grammar is LL(1) by them; it holds the
/// claims of the grammar and nothing else.
pub fn generate_ll1_table(
    productions: &Vec<Production>,
    first_sets: &Vec<FirstSet>,
    follow_sets: &Vec<FollowSet>,
) -> (r: Result<LL1Table, GrammarError>)
    ensures
        r is Ok <==> grammar_view(productions@, first_sets@, follow_sets@).complete()
            && grammar_view(productions@, first_sets@, follow_sets@).ll1(),
        r matches Ok(table) ==> table_of(
            table@,
            grammar_view(productions@, first_sets@, follow_sets@),
        ),
        r == Err::<LL1Table, GrammarError>(GrammarError::MissingSets) <==> !grammar_view(
            productions@,
            first_sets@,
            follow_sets@,
        ).complete(),
{
    let ghost g = grammar_view(productions@, first_sets@, follow_sets@);
    if first_sets.len() != NUM_NON_TERMINALS || follow_sets.len() != NUM_NON_TERMINALS {
        return Err(GrammarError::MissingSets);
    }
    let mut table = empty_table();
    let mut row: usize = 0;
    while row < NUM_NON_TERMINALS
        invariant
            0 <= row <= NUM_NON_TERMINALS,
            table_wf(table@),
            first_sets@.len() == NUM_NON_TERMINALS,
            follow_sets@.len() == NUM_NON_TERMINALS,
            g == grammar_view(productions@, first_sets@, follow_sets@),
            forall|r2: int, c2: nat| 0 <= r2 < row && c2 < NUM_COLUMNS ==> #[trigger] g.cell_ok(r2, c2),
            forall|r2: int, c2: int|
                0 <= r2 < row && 0 <= c2 < NUM_COLUMNS ==> (
                #[trigger] table@[r2]@[c2] matches Some(entry) ==> g.claims(
                    r2,
                    c2 as nat,
                    entry as int,
                )),
            forall|r2: int, c2: int, entry: usize|
                0 <= r2 < row && 0 <= c2 < NUM_COLUMNS && #[trigger] g.claims(
                    r2,
                    c2 as nat,
                    entry as int,
                ) ==> table@[r2]@[c2] == Some(entry),
            forall|r2: int, c2: int|
                row <= r2 < NUM_NON_TERMINALS && 0 <= c2 < NUM_COLUMNS ==> table@[r2]@[c2] is None,
        decreases NUM_NON_TERMINALS - row,
    {
        let mut column: usize = 0;
        while column < NUM_COLUMNS
            invariant
                0 <= row < NUM_NON_TERMINALS,
                0 <= column <= NUM_COLUMNS,
                table_wf(table@),
                first_sets@.len() == NUM_NON_TERMINALS,
                follow_sets@.len() == NUM_NON_TERMINALS,
                g == grammar_view(productions@, first_sets@, follow_sets@),
                forall|r2: int, c2: nat|
                    (0 <= r2 < row && c2 < NUM_COLUMNS) || (r2 == row && c2 < column)
                        ==> #[trigger] g.cell_ok(r2, c2),
                forall|r2: int, c2: int|
                    (0 <= r2 < row && 0 <= c2 < NUM_COLUMNS) || (r2 == row && 0 <= c2 < column) ==> (
                    #[trigger] table@[r2]@[c2] matches Some(entry) ==> g.claims(
                        r2,
                        c2 as nat,
                        entry as int,
                    )),
                forall|r2: int, c2: int, entry: usize|
                    ((0 <= r2 < row && 0 <= c2 < NUM_COLUMNS) || (r2 == row && 0 <= c2 < column))
                        && #[trigger] g.claims(r2, c2 as nat, entry as int) ==> table@[r2]@[c2]
                        == Some(entry),
                forall|r2: int, c2: int|
                    (row < r2 < NUM_NON_TERMINALS && 0 <= c2 < NUM_COLUMNS) || (r2 == row && column
                        <= c2 < NUM_COLUMNS) ==> table@[r2]@[c2] is None,
            decreases NUM_COLUMNS - column,
        {
            match fill_cell(&mut table, productions, first_sets, follow_sets, row, column) {
                Ok(()) => {},
                Err(e) => {
                    assert(!g.cell_ok(row as int, column as nat));
                    return Err(e);
                },
            }
            column += 1;
        }
        row += 1;
    }
    Ok(table)
}

} // verus!
