//! The composition of automata as a function: the transition table as a
//! mathematical value, and what entering an automaton makes of it.

use vstd::prelude::*;
use crate::dfa::{column, merged, no_row, DfaView, ALPHA, DIGIT};
use crate::transition_table::{is_digit_code, is_letter_code, is_meta, mapped_path, mapped_state,
    states_hash, TableError, MAX_SLOTS};

verus! {

/// A token by its kind with the path of states that yields it.
pub type PathEntry = (nat, Seq<usize>);

/// The transition table as a mathematical value.
pub struct TransitionView {
    pub rows: Seq<Seq<Option<usize>>>,
    pub accepting: Seq<bool>,
    pub alphabet: Seq<char>,
    pub indexes: Seq<usize>,
    pub start: usize,
    pub slots: Seq<Option<Seq<Option<PathEntry>>>>,
}

/// The number of states of a table of the automata `dfas` from place `d`
/// on, after `count` states: each automaton adds its states but the start
/// state.
pub open spec fn counted(dfas: Seq<DfaView>, d: int, count: int) -> Result<int, TableError>
    decreases dfas.len() - d,
{
    if d < 0 || d >= dfas.len() {
        Ok(count)
    } else if dfas[d].rows.len() == 0 {
        Err(TableError::AcceptingMismatch)
    } else if count + dfas[d].rows.len() - 1 > usize::MAX {
        Err(TableError::TooManyStates)
    } else {
        counted(dfas, d + 1, count + dfas[d].rows.len() - 1)
    }
}

/// The alphabets of the automata `dfas`.
pub open spec fn alphabets(dfas: Seq<DfaView>) -> Seq<Seq<char>> {
    Seq::new(dfas.len(), |d: int| dfas[d].alphabet)
}

/// The least and the greatest code among `smallest`, `largest` and the
/// codes of the characters of `alphabet` from place `i` on that stand for
/// themselves.
pub open spec fn code_range(alphabet: Seq<char>, i: int, smallest: u32, largest: u32) -> (u32, u32)
    decreases alphabet.len() - i,
{
    if i < 0 || i >= alphabet.len() {
        (smallest, largest)
    } else if is_meta(alphabet[i]) {
        code_range(alphabet, i + 1, smallest, largest)
    } else if (alphabet[i] as u32) < smallest {
        code_range(alphabet, i + 1, alphabet[i] as u32, largest)
    } else if alphabet[i] as u32 > largest {
        code_range(alphabet, i + 1, smallest, alphabet[i] as u32)
    } else {
        code_range(alphabet, i + 1, smallest, largest)
    }
}

/// Whether place `j` of the alphabet holds the character of code `code`,
/// which stands for itself.
pub open spec fn holds_code(alphabet: Seq<char>, j: int, code: int) -> bool {
    0 <= j < alphabet.len() && !is_meta(alphabet[j]) && alphabet[j] as u32 == code
}

/// The entry of the table of columns for the code `code`: one more than the
/// column of its character where the alphabet holds the character, else one
/// more than the column of the letters for a letter, or of the digits for a
/// digit, where the alphabet has such a column; else zero.
pub open spec fn index_of_code(alphabet: Seq<char>, code: int) -> int {
    if exists|j: int| holds_code(alphabet, j, code) {
        (choose|j: int| holds_code(alphabet, j, code)) + 1
    } else if is_letter_code(code) && alphabet.contains(ALPHA) {
        column(alphabet, ALPHA) + 1
    } else if is_digit_code(code) && alphabet.contains(DIGIT) {
        column(alphabet, DIGIT) + 1
    } else {
        0
    }
}

/// The table of columns of the alphabet for the codes from `smallest` to
/// `largest`.
pub open spec fn indexed(alphabet: Seq<char>, smallest: u32, largest: u32) -> Seq<usize> {
    Seq::new(
        (largest - smallest + 1) as nat,
        |k: int| index_of_code(alphabet, smallest + k) as usize,
    )
}

/// The token that the table `list` holds under the path `path`, by its
/// kind.
pub open spec fn found(list: Seq<Option<PathEntry>>, path: Seq<usize>) -> Option<nat> {
    if list.len() == 0 {
        None
    } else {
        match list[states_hash(path, list.len()) as int] {
            Some(entry) => if entry.1 == path {
                Some(entry.0)
            } else {
                None
            },
            None => None,
        }
    }
}

/// A table of `size` empty slots.
pub open spec fn no_slots(size: nat) -> Seq<Option<PathEntry>> {
    Seq::new(size, |i: int| None)
}

/// The table `spread` with the entries of `list` from place `i` on, each in
/// the slot of its path; none where a slot is taken.
pub open spec fn spread(
    list: Seq<Option<PathEntry>>,
    i: int,
    spread_so_far: Seq<Option<PathEntry>>,
) -> Option<Seq<Option<PathEntry>>>
    decreases list.len() - i,
{
    if i < 0 || i >= list.len() {
        Some(spread_so_far)
    } else {
        match list[i] {
            None => spread(list, i + 1, spread_so_far),
            Some(entry) => {
                let slot = states_hash(entry.1, spread_so_far.len()) as int;
                if spread_so_far[slot] is Some {
                    None
                } else {
                    spread(list, i + 1, spread_so_far.update(slot, Some(entry)))
                }
            },
        }
    }
}

/// The table of the least size from `size` on over which `entry` and the
/// entries of `list` spread, each in the slot of its path.
pub open spec fn grown(list: Seq<Option<PathEntry>>, entry: PathEntry, size: nat) -> Result<
    Seq<Option<PathEntry>>,
    TableError,
>
    decreases MAX_SLOTS + 1 - size,
{
    if size == 0 || size > MAX_SLOTS {
        Err(TableError::UnresolvableCollision)
    } else {
        match spread(
            list,
            0,
            no_slots(size).update(states_hash(entry.1, size) as int, Some(entry)),
        ) {
            Some(table) => Ok(table),
            None => grown(list, entry, size + 1),
        }
    }
}

/// The table `list` with `entry` added: one slot for the first entry,
/// else the table of the least size above that of `list` over which the
/// entries spread.
pub open spec fn placed(list: Option<Seq<Option<PathEntry>>>, entry: PathEntry) -> Result<
    Seq<Option<PathEntry>>,
    TableError,
> {
    match list {
        None => Ok(seq![Some(entry)]),
        Some(list) => grown(list, entry, list.len() + 1),
    }
}

impl TransitionView {
    /// The column of the character `c`, where it has one.
    pub open spec fn column_of(self, c: char) -> Option<usize> {
        let code = c as u32 as int;
        if code < self.start || code - self.start >= self.indexes.len() {
            None
        } else {
            let index = self.indexes[code - self.start];
            if index == 0 {
                None
            } else {
                Some((index - 1) as usize)
            }
        }
    }

    /// The state that follows `state` on the character `c`, where there is
    /// one.
    pub open spec fn next_state(self, state: usize, c: char) -> Option<usize> {
        match self.column_of(c) {
            Some(column) => self.rows[state as int][column as int],
            None => None,
        }
    }

    /// The kind of the token of the path `path`: that of the token under
    /// the path itself in the table of its last state, else that of the
    /// token that the table holds for every path to that state.
    pub open spec fn lookup(self, path: Seq<usize>) -> Option<nat> {
        if path.len() == 0 || path.last() >= self.slots.len() {
            None
        } else {
            match self.slots[path.last() as int] {
                Some(list) => match found(list, path) {
                    Some(kind) => Some(kind),
                    None => found(list, seq![0usize, path.last()]),
                },
                None => None,
            }
        }
    }

    /// The table before an automaton has entered it: `count` states without
    /// transitions, accepting bits and tokens, over the alphabet
    /// `alphabet` with the codes from `smallest` to `largest`.
    pub open spec fn blank(
        count: nat,
        alphabet: Seq<char>,
        smallest: u32,
        largest: u32,
    ) -> TransitionView {
        TransitionView {
            rows: Seq::new(count, |s: int| no_row(alphabet.len())),
            accepting: Seq::new(count, |s: int| false),
            alphabet,
            indexes: indexed(alphabet, smallest, largest),
            start: smallest as usize,
            slots: Seq::new(count, |s: int| None),
        }
    }

    /// The rows after the transitions of the automaton `dfa` from column
    /// `c` of row `r` on have entered. A row must span the alphabet of the
    /// automaton; a transition must lead to a state of the automaton, on a
    /// character that the table has a column for, and its place between the
    /// states that stand for its states must be free.
    pub open spec fn with_transitions(self, dfa: DfaView, start_state: usize, r: int, c: int) -> Result<
        Seq<Seq<Option<usize>>>,
        TableError,
    >
        decreases dfa.rows.len() - r, dfa.alphabet.len() - c,
    {
        if r < 0 || r >= dfa.rows.len() || c < 0 {
            Ok(self.rows)
        } else if dfa.rows[r].len() != dfa.alphabet.len() {
            Err(TableError::MalformedRow)
        } else if c >= dfa.alphabet.len() {
            self.with_transitions(dfa, start_state, r + 1, 0)
        } else {
            match dfa.rows[r][c] {
                None => self.with_transitions(dfa, start_state, r, c + 1),
                Some(state) => if state >= dfa.rows.len() {
                    Err(TableError::StateOutOfBounds)
                } else if !self.alphabet.contains(dfa.alphabet[c]) {
                    Err(TableError::MalformedRow)
                } else {
                    let s = mapped_state(r as usize, start_state);
                    let k = column(self.alphabet, dfa.alphabet[c]);
                    if self.rows[s][k] is Some {
                        Err(TableError::DuplicateEntry)
                    } else {
                        (TransitionView {
                            rows: self.rows.update(
                                s,
                                self.rows[s].update(
                                    k,
                                    Some(mapped_state(state, start_state) as usize),
                                ),
                            ),
                            ..self
                        }).with_transitions(dfa, start_state, r, c + 1)
                    }
                },
            }
        }
    }

    /// The accepting bits after those of the automaton `dfa` have entered.
    pub open spec fn with_accepting(self, dfa: DfaView, start_state: usize) -> Seq<bool> {
        Seq::new(
            self.accepting.len(),
            |s: int|
                if start_state <= s < start_state + dfa.accepting.len() {
                    dfa.accepting[s - start_state]
                } else {
                    self.accepting[s]
                },
        )
    }

    /// The tables of tokens after the tokens of the automaton `dfa` from
    /// place `i` on have entered, each under its path between the states
    /// that stand for its states, in the table of the last of them. A path
    /// must not be empty, must lead through states of the automaton, and
    /// must not stand in its table already.
    pub open spec fn with_tokens(self, dfa: DfaView, start_state: usize, i: int) -> Result<
        Seq<Option<Seq<Option<PathEntry>>>>,
        TableError,
    >
        decreases dfa.tokens.len() - i,
    {
        if i < 0 || i >= dfa.tokens.len() {
            Ok(self.slots)
        } else {
            let path = dfa.tokens[i].1;
            if path.len() == 0 {
                Err(TableError::EmptyTokenPath)
            } else if exists|j: int| 0 <= j < path.len() && #[trigger] path[j] >= dfa.rows.len() {
                Err(TableError::StateOutOfBounds)
            } else {
                let mapped = mapped_path(path, start_state);
                let last = mapped.last() as int;
                if self.slots[last] matches Some(list) && found(list, mapped) is Some {
                    Err(TableError::DuplicateToken)
                } else {
                    match placed(self.slots[last], (dfa.tokens[i].0, mapped)) {
                        Err(e) => Err(e),
                        Ok(list) => (TransitionView {
                            slots: self.slots.update(last, Some(list)),
                            ..self
                        }).with_tokens(dfa, start_state, i + 1),
                    }
                }
            }
        }
    }

    /// The table after the automaton `dfa` has entered, its states but the
    /// start state from `start_state` on, and the number after them. The
    /// automaton must say of each state but the start state whether it
    /// accepts, and the table must have its states.
    pub open spec fn with_dfa(self, dfa: DfaView, start_state: usize) -> Result<
        (TransitionView, usize),
        TableError,
    > {
        if dfa.rows.len() == 0 || dfa.accepting.len() != dfa.rows.len() - 1 {
            Err(TableError::AcceptingMismatch)
        } else if start_state + dfa.rows.len() - 1 > self.rows.len() {
            Err(TableError::TooManyStates)
        } else {
            match self.with_transitions(dfa, start_state, 0, 0) {
                Err(e) => Err(e),
                Ok(rows) => {
                    let entered = TransitionView {
                        rows,
                        accepting: self.with_accepting(dfa, start_state),
                        ..self
                    };
                    match entered.with_tokens(dfa, start_state, 0) {
                        Err(e) => Err(e),
                        Ok(slots) => Ok(
                            (
                                TransitionView { slots, ..entered },
                                (start_state + dfa.rows.len() - 1) as usize,
                            ),
                        ),
                    }
                },
            }
        }
    }

    /// The table after the automata `dfas` from place `d` on have entered,
    /// one after the other, the states of the first from `start_state` on.
    pub open spec fn with_dfas(self, dfas: Seq<DfaView>, d: int, start_state: usize) -> Result<
        TransitionView,
        TableError,
    >
        decreases dfas.len() - d,
    {
        if d < 0 || d >= dfas.len() {
            Ok(self)
        } else {
            match self.with_dfa(dfas[d], start_state) {
                Err(e) => Err(e),
                Ok((table, next)) => table.with_dfas(dfas, d + 1, next),
            }
        }
    }
}

/// The table of the automata `dfas`: the start state and the states of
/// each automaton but its start state, over the alphabet of all their
/// characters, with the automata entered one after the other. The character
/// zero must not be in the alphabet.
pub open spec fn composition(dfas: Seq<DfaView>) -> Result<TransitionView, TableError> {
    match counted(dfas, 0, 1) {
        Err(e) => Err(e),
        Ok(count) => {
            let alphabet = merged(alphabets(dfas), 0, 0, Seq::empty());
            let range = code_range(alphabet, 0, 0x30, 0x7a);
            if range.0 == 0 {
                Err(TableError::NulCharacter)
            } else if alphabet.len() >= usize::MAX {
                Err(TableError::TooManyStates)
            } else {
                TransitionView::blank(count as nat, alphabet, range.0, range.1).with_dfas(dfas, 0, 1)
            }
        },
    }
}

} // verus!
