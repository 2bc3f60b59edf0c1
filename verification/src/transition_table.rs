//! The transition table of the lexer: the automata of the lexical
//! categories composed into one.

use vstd::prelude::*;
use crate::dfa::{column, dfas_view, get_constant_dfas, language_automata, language_dfas,
    lemma_language_automata, merged, position, rows_view, Dfa, ALPHA, DIGIT};
use crate::table_model::{alphabets, code_range, composition, counted, found, grown, holds_code,
    index_of_code, indexed, no_slots, placed, spread, PathEntry, TransitionView};
use crate::token::Token;

verus! {

/// A token with the path of states that yields it.
#[derive(Debug, PartialEq)]
pub struct TokenStates {
    pub token: Token,
    pub states: Vec<usize>,
}

impl View for TokenStates {
    type V = PathEntry;

    open spec fn view(&self) -> PathEntry {
        (self.token.kind(), self.states@)
    }
}

/// The table `list` as a mathematical value.
pub open spec fn list_view(list: Seq<Option<TokenStates>>) -> Seq<Option<PathEntry>> {
    Seq::new(
        list.len(),
        |i: int|
            match list[i] {
                Some(entry) => Some(entry@),
                None => None,
            },
    )
}

/// The table `list` as a mathematical value, where there is one.
pub open spec fn list_option_view(list: Option<Vec<Option<TokenStates>>>) -> Option<
    Seq<Option<PathEntry>>,
> {
    match list {
        Some(list) => Some(list_view(list@)),
        None => None,
    }
}

/// The tables of tokens `map` as mathematical values.
pub open spec fn slots_view(map: Seq<Option<Vec<Option<TokenStates>>>>) -> Seq<
    Option<Seq<Option<PathEntry>>>,
> {
    Seq::new(map.len(), |s: int| list_option_view(map[s]))
}

impl Clone for TokenStates {
    fn clone(&self) -> (r: Self)
        ensures
            r.token == self.token,
            r.states@ == self.states@,
            r@ == self@,
    {
        let mut states: Vec<usize> = Vec::new();
        let mut i: usize = 0;
        while i < self.states.len()
            invariant
                0 <= i <= self.states@.len(),
                states@ == self.states@.take(i as int),
            decreases self.states@.len() - i,
        {
            states.push(self.states[i]);
            assert(states@ =~= self.states@.take(i + 1));
            i += 1;
        }
        assert(self.states@.take(self.states@.len() as int) =~= self.states@);
        TokenStates { token: self.token.clone(), states }
    }
}

/// Why automata do not compose into a table.
#[derive(Debug, PartialEq, Eq, Clone, Copy, Structural)]
pub enum TableError {
    /// An automaton does not say of each state but the start state whether
    /// it accepts.
    AcceptingMismatch,
    /// A transition or a path leads to a state that the automaton lacks.
    StateOutOfBounds,
    /// Two automata leave one state on one character.
    DuplicateEntry,
    /// A token has an empty path.
    EmptyTokenPath,
    /// A token stands twice under one path.
    DuplicateToken,
    /// The paths of one accepting state do not spread over any table of the
    /// size allowed.
    UnresolvableCollision,
    /// The automata have more states than can be numbered.
    TooManyStates,
    /// A row of an automaton does not span its alphabet, or the table
    /// lacks a character of the alphabet.
    MalformedRow,
    /// The alphabet holds the character zero, which ends the input.
    NulCharacter,
}

/// The largest table that the paths of one accepting state are spread
/// over.
pub const MAX_SLOTS: usize = 4096;

/// The slot of the path `states` in a table of `slots` slots: the value of
/// the path as a numeral of base seven, least digit first, modulo the
/// number of slots.
pub open spec fn states_hash(states: Seq<usize>, slots: nat) -> nat
    decreases states.len(),
{
    if states.len() == 0 || slots == 0 {
        0
    } else {
        ((states[0] as nat) % slots + 7 * states_hash(states.drop_first(), slots)) % slots
    }
}

/// The slot of the path `states` in a table of `state_mod` slots.
pub fn get_states_hash(states: &Vec<usize>, state_mod: usize) -> (r: usize)
    requires
        0 < state_mod <= MAX_SLOTS,
    ensures
        r == states_hash(states@, state_mod as nat),
        r < state_mod,
{
    let mut index: usize = 0;
    let mut i: usize = states.len();
    assert(states@.subrange(states@.len() as int, states@.len() as int) =~= Seq::<usize>::empty());
    while i > 0
        invariant
            0 <= i <= states@.len(),
            0 < state_mod <= MAX_SLOTS,
            index < state_mod,
            index == states_hash(states@.subrange(i as int, states@.len() as int), state_mod as nat),
        decreases i,
    {
        i -= 1;
        let ghost rest = states@.subrange(i as int, states@.len() as int);
        assert(rest.drop_first() =~= states@.subrange(i + 1, states@.len() as int));
        assert(rest[0] == states@[i as int]);
        index = (states[i] % state_mod + 7 * index) % state_mod;
    }
    assert(states@.subrange(0, states@.len() as int) =~= states@);
    index
}

/// Whether each entry of the table `list` lies in the slot of its path,
/// which is not empty.
pub open spec fn slots_ok(list: Seq<Option<TokenStates>>) -> bool {
    &&& 0 < list.len() <= MAX_SLOTS
    &&& forall|i: int|
        0 <= i < list.len() ==> (#[trigger] list[i] matches Some(entry) ==> entry.states@.len() > 0
            && states_hash(entry.states@, list.len()) == i)
}

/// The token that the table `list` holds under the path `path`.
pub open spec fn find(list: Seq<Option<TokenStates>>, path: Seq<usize>) -> Option<Token> {
    if list.len() == 0 {
        None
    } else {
        match list[states_hash(path, list.len()) as int] {
            Some(entry) => if entry.states@ == path {
                Some(entry.token)
            } else {
                None
            },
            None => None,
        }
    }
}

/// The transition table: for each state a row of next states by column, for
/// each state whether it accepts and the tokens of the paths that end in
/// it, the characters of the columns, and for each character from
/// `alphabet_start` on its column plus one, or zero where it has none.
#[derive(Debug, PartialEq)]
pub struct TransitionTable {
    pub table: Vec<Vec<Option<usize>>>,
    pub accepting: Vec<bool>,
    pub alphabet: Vec<char>,
    pub alphabet_indexes: Vec<usize>,
    pub alphabet_start: usize,
    pub token_map: Vec<Option<Vec<Option<TokenStates>>>>,
}

impl View for TransitionTable {
    type V = TransitionView;

    open spec fn view(&self) -> TransitionView {
        TransitionView {
            rows: rows_view(self.table@),
            accepting: self.accepting@,
            alphabet: self.alphabet@,
            indexes: self.alphabet_indexes@,
            start: self.alphabet_start,
            slots: slots_view(self.token_map@),
        }
    }
}

impl TransitionTable {
    /// Every state has its row, its accepting bit and its place in the map
    /// of tokens; rows span the alphabet and lead to states of the table;
    /// columns are columns of the alphabet; the entries of the map of tokens
    /// lie in their slots; and the character zero has no column.
    pub open spec fn wf(self) -> bool {
        &&& self.table@.len() >= 1
        &&& self.accepting@.len() == self.table@.len()
        &&& self.token_map@.len() == self.table@.len()
        &&& self.alphabet_start > 0
        &&& forall|s: int|
            0 <= s < self.table@.len() ==> (#[trigger] self.table@[s])@.len() == self.alphabet@.len()
        &&& forall|s: int, c: int|
            0 <= s < self.table@.len() && 0 <= c < self.alphabet@.len() ==> (
            #[trigger] self.table@[s]@[c] matches Some(t) ==> t < self.table@.len())
        &&& forall|i: int|
            0 <= i < self.alphabet_indexes@.len() ==> #[trigger] self.alphabet_indexes@[i]
                <= self.alphabet@.len()
        &&& forall|s: int|
            0 <= s < self.token_map@.len() ==> (#[trigger] self.token_map@[s] matches Some(list)
                ==> slots_ok(list@))
    }

    /// The column of the character `c`, where it has one.
    pub open spec fn column_of(self, c: char) -> Option<usize> {
        self@.column_of(c)
    }

    /// The state that follows `state` on the character `c`, where there is
    /// one.
    pub open spec fn next_state(self, state: usize, c: char) -> Option<usize> {
        self@.next_state(state, c)
    }

    /// The token of the path `path`: the token under the path itself in the
    /// map of its last state, else the token that the map holds for every
    /// path to that state.
    pub open spec fn lookup(self, path: Seq<usize>) -> Option<Token> {
        if path.len() == 0 || path.last() >= self.token_map@.len() {
            None
        } else {
            match self.token_map@[path.last() as int] {
                Some(list) => match find(list@, path) {
                    Some(token) => Some(token),
                    None => find(list@, seq![0usize, path.last()]),
                },
                None => None,
            }
        }
    }

    /// The column of the character `input`.
    pub fn get_alphabet_index(&self, input: char) -> (r: Option<usize>)
        requires
            self.wf(),
        ensures
            r == self.column_of(input),
            r matches Some(column) ==> column < self.alphabet@.len(),
    {
        let input_int = input as u32 as usize;
        if input_int < self.alphabet_start {
            return None;
        }
        let offset = input_int - self.alphabet_start;
        if offset >= self.alphabet_indexes.len() {
            return None;
        }
        let index = self.alphabet_indexes[offset];
        if index == 0 {
            return None;
        }
        Some(index - 1)
    }

    /// The state that follows `state` on the character `input`.
    pub fn get_next_state(&self, state: usize, input: char) -> (r: Option<usize>)
        requires
            self.wf(),
            state < self.table@.len(),
        ensures
            r == self.next_state(state, input),
            r matches Some(next) ==> next < self.table@.len(),
            input as u32 == 0 ==> r is None,
    {
        match self.get_alphabet_index(input) {
            Some(column) => self.table[state][column],
            None => None,
        }
    }

    /// Whether `state` accepts.
    pub fn is_accepting(&self, state: usize) -> (r: bool)
        requires
            self.wf(),
            state < self.table@.len(),
        ensures
            r == self.accepting@[state as int],
    {
        self.accepting[state]
    }

    /// The token that the table `list` holds under the path `path`.
    fn find_token(list: &Vec<Option<TokenStates>>, path: &Vec<usize>) -> (r: Option<Token>)
        requires
            slots_ok(list@),
        ensures
            r is Some == find(list@, path@) is Some,
            r matches Some(token) ==> token@ == find(list@, path@)->0@,
            r is Some == found(list_view(list@), path@) is Some,
            r matches Some(token) ==> token.kind() == found(list_view(list@), path@)->0,
    {
        let slot = get_states_hash(path, list.len());
        match &list[slot] {
            Some(entry) => {
                if same_path(&entry.states, path) {
                    Some(entry.token.clone())
                } else {
                    None
                }
            },
            None => None,
        }
    }

    /// The token of the path `states`.
    pub fn get_token(&self, states: &Vec<usize>) -> (r: Option<Token>)
        requires
            self.wf(),
        ensures
            r is Some == self.lookup(states@) is Some,
            r matches Some(token) ==> token@ == self.lookup(states@)->0@,
            r is Some == self@.lookup(states@) is Some,
            r matches Some(token) ==> token.kind() == self@.lookup(states@)->0,
    {
        if states.len() == 0 {
            return None;
        }
        let last = states[states.len() - 1];
        if last >= self.token_map.len() {
            return None;
        }
        match &self.token_map[last] {
            Some(list) => match Self::find_token(list, states) {
                Some(token) => Some(token),
                None => {
                    let mut ending: Vec<usize> = Vec::new();
                    ending.push(0);
                    ending.push(last);
                    assert(ending@ =~= seq![0usize, last]);
                    Self::find_token(list, &ending)
                },
            },
            None => None,
        }
    }

    /// The table of `old_list` with `new_token_states` added: a table with
    /// one slot more than `old_list` has, or with as many more as it takes
    /// until no two paths share a slot; none where no table of the size
    /// allowed will do.
    pub fn add_token_state(
        curr_token_states: &Option<Vec<Option<TokenStates>>>,
        new_token_states: TokenStates,
    ) -> (r: Result<Vec<Option<TokenStates>>, TableError>)
        requires
            new_token_states.states@.len() > 0,
            curr_token_states matches Some(list) ==> slots_ok(list@),
        ensures
            r matches Ok(list) ==> slots_ok(list@) && holds_entry(list@, new_token_states) && (
            curr_token_states matches Some(old_list) ==> forall|i: int|
                0 <= i < old_list@.len() ==> (#[trigger] old_list@[i] matches Some(entry)
                    ==> holds_entry(list@, entry))),
            match placed(list_option_view(*curr_token_states), new_token_states@) {
                Ok(list) => r matches Ok(table) && list_view(table@) == list,
                Err(e) => r == Err::<Vec<Option<TokenStates>>, TableError>(e),
            },
            r matches Err(e) ==> e == TableError::UnresolvableCollision,
    {
        let old_list = match curr_token_states {
            Some(list) => list,
            None => {
                let mut list: Vec<Option<TokenStates>> = Vec::new();
                list.push(Some(new_token_states));
                assert(states_hash(new_token_states.states@, 1) == 0);
                assert(entry_at(list@, 0, new_token_states));
                assert(list_view(list@) =~= seq![Some(new_token_states@)]);
                return Ok(list);
            },
        };
        if old_list.len() >= MAX_SLOTS {
            return Err(TableError::UnresolvableCollision);
        }
        let mut size: usize = old_list.len() + 1;
        while size <= MAX_SLOTS
            invariant
                0 < size <= MAX_SLOTS + 1,
                *curr_token_states == Some(*old_list),
                slots_ok(old_list@),
                new_token_states.states@.len() > 0,
                placed(list_option_view(*curr_token_states), new_token_states@) == grown(
                    list_view(old_list@),
                    new_token_states@,
                    size as nat,
                ),
            decreases MAX_SLOTS + 1 - size,
        {
            let mut new_states: Vec<Option<TokenStates>> = empty_slots(size);
            let hash = get_states_hash(&new_token_states.states, size);
            assert(list_view(new_states@) =~= no_slots(size as nat));
            new_states[hash] = Some(new_token_states.clone());
            assert(entry_at(new_states@, hash as int, new_token_states));
            let ghost first = no_slots(size as nat).update(hash as int, Some(new_token_states@));
            assert(list_view(new_states@) =~= first);
            let mut collision = false;
            let mut i: usize = 0;
            while i < old_list.len() && !collision
                invariant
                    0 <= i <= old_list@.len(),
                    0 < size <= MAX_SLOTS,
                    new_states@.len() == size,
                    slots_ok(old_list@),
                    slots_ok(new_states@),
                    spread(list_view(old_list@), 0, first) == (if collision {
                        None
                    } else {
                        spread(list_view(old_list@), i as int, list_view(new_states@))
                    }),
                    !collision ==> holds_entry(new_states@, new_token_states),
                    !collision ==> forall|j: int|
                        0 <= j < i ==> (#[trigger] old_list@[j] matches Some(entry) ==> holds_entry(
                            new_states@,
                            entry,
                        )),
                decreases old_list@.len() - i + (if collision { 0int } else { 1int }),
            {
                if let Some(token_states) = &old_list[i] {
                    let slot = get_states_hash(&token_states.states, size);
                    if new_states[slot].is_some() {
                        collision = true;
                    } else {
                        let ghost before = new_states@;
                        new_states[slot] = Some(token_states.clone());
                        assert(list_view(new_states@) =~= list_view(before).update(
                            slot as int,
                            Some(token_states@),
                        ));
                        proof {
                            assert forall|j: int|
                                0 <= j < i + 1 && old_list@[j] is Some implies holds_entry(
                                new_states@,
                                (#[trigger] old_list@[j])->0,
                            ) by {
                                if j < i {
                                    let k = choose|k: int|
                                        0 <= k < before.len() && entry_at(
                                            before,
                                            k,
                                            old_list@[j]->0,
                                        );
                                    assert(entry_at(new_states@, k, old_list@[j]->0));
                                } else {
                                    assert(entry_at(new_states@, slot as int, old_list@[j]->0));
                                }
                            }
                            let k = choose|k: int|
                                0 <= k < before.len() && entry_at(before, k, new_token_states);
                            assert(entry_at(new_states@, k, new_token_states));
                        }
                    }
                }
                if !collision {
                    i += 1;
                }
            }
            if !collision {
                assert(i == old_list@.len());
                assert(*curr_token_states == Some(*old_list));
                return Ok(new_states);
            }
            size += 1;
        }
        Err(TableError::UnresolvableCollision)
    }
}

/// The state of the table that stands for state `state` of an automaton
/// whose states but the start state begin at `start_state`: the start state
/// for the start state.
pub open spec fn mapped_state(state: usize, start_state: usize) -> int {
    if state == 0 {
        0
    } else {
        state + start_state - 1
    }
}

/// The number of states that the automata `dfas` from place `k` on add to a
/// table.
pub open spec fn added_states(dfas: Seq<Dfa>, k: int) -> int
    decreases dfas.len() - k,
{
    if k < 0 || k >= dfas.len() {
        0
    } else {
        dfas[k].dfa@.len() - 1 + added_states(dfas, k + 1)
    }
}

/// Whether the rows `after` hold every transition of the rows `before`.
pub open spec fn keeps_transitions(before: Seq<Vec<Option<usize>>>, after: Seq<Vec<Option<usize>>>) -> bool {
    &&& after.len() == before.len()
    &&& forall|s: int, k: int|
        0 <= s < before.len() && 0 <= k < before[s]@.len() && (#[trigger] before[s]@[k]) is Some
            ==> k < after[s]@.len() && after[s]@[k] == before[s]@[k]
}

/// Whether the rows `rows` over the alphabet `alphabet` hold the
/// transitions of the first `upto` rows of the automaton `dfa` and of the
/// first `columns` entries of the row after them, each between the states
/// that stand for its states and on the column of its character.
pub open spec fn holds_transitions(
    rows: Seq<Vec<Option<usize>>>,
    alphabet: Seq<char>,
    dfa: Dfa,
    start_state: usize,
    upto: int,
    columns: int,
) -> bool {
    forall|r: int, c: int|
        0 <= r < dfa.dfa@.len() && 0 <= c < dfa.dfa@[r]@.len() && c < dfa.alphabet@.len() && (r
            < upto || (r == upto && c < columns)) && (#[trigger] dfa.dfa@[r]@[c]) is Some ==> {
            let s = mapped_state(r as usize, start_state);
            let k = column(alphabet, dfa.alphabet@[c]);
            &&& 0 <= s < rows.len()
            &&& 0 <= k < rows[s]@.len()
            &&& rows[s]@[k] == Some(mapped_state(dfa.dfa@[r]@[c]->0, start_state) as usize)
        }
}

/// Whether the tables of tokens `after` hold every entry of the tables
/// `before`.
pub open spec fn keeps_tokens(
    before: Seq<Option<Vec<Option<TokenStates>>>>,
    after: Seq<Option<Vec<Option<TokenStates>>>>,
) -> bool {
    &&& after.len() == before.len()
    &&& forall|s: int, i: int|
        0 <= s < before.len() && before[s] is Some && 0 <= i < before[s]->0@.len() && (
        #[trigger] before[s]->0@[i]) is Some ==> after[s] is Some && holds_entry(
            after[s]->0@,
            before[s]->0@[i]->0,
        )
}

/// The path `path` of an automaton in the states of the table.
pub open spec fn mapped_path(path: Seq<usize>, start_state: usize) -> Seq<usize> {
    Seq::new(path.len(), |j: int| mapped_state(path[j], start_state) as usize)
}

/// Whether the tables of tokens `map` hold the first `upto` tokens of the
/// automaton `dfa`, each in the table of the last state of its path.
pub open spec fn holds_tokens(
    map: Seq<Option<Vec<Option<TokenStates>>>>,
    dfa: Dfa,
    start_state: usize,
    upto: int,
) -> bool {
    dfa.token_map matches Some(tokens) ==> forall|i: int|
        0 <= i < upto && i < tokens@.len() ==> {
            let path = mapped_path((#[trigger] tokens@[i]).1@, start_state);
            &&& path.len() > 0
            &&& path.last() < map.len()
            &&& map[path.last() as int] matches Some(list) && exists|k: int|
                0 <= k < list@.len() && (#[trigger] list@[k] matches Some(found) && found.token@
                    == tokens@[i].0@ && found.states@ == path)
        }
}

/// Whether the character stands for a class of characters.
pub open spec fn is_meta(c: char) -> bool {
    c == ALPHA || c == DIGIT
}

/// Whether the alphabet holds no character twice.
pub open spec fn no_duplicates(alphabet: Seq<char>) -> bool {
    forall|i: int, j: int| 0 <= i < j < alphabet.len() ==> alphabet[i] != alphabet[j]
}

/// Whether the code is that of an ASCII letter.
pub open spec fn is_letter_code(code: int) -> bool {
    (0x41 <= code <= 0x5A) || (0x61 <= code <= 0x7A)
}

/// Whether the code is that of an ASCII digit.
pub open spec fn is_digit_code(code: int) -> bool {
    0x30 <= code <= 0x39
}

/// The column of the character `c` by the alphabet: its own column where
/// the alphabet holds it, else the column of the letters where it is a
/// letter, or of the digits where it is a digit, where the alphabet has
/// such a column.
pub open spec fn class_column(alphabet: Seq<char>, c: char) -> Option<usize> {
    let code = c as u32 as int;
    if !is_meta(c) && alphabet.contains(c) {
        Some(column(alphabet, c) as usize)
    } else if is_letter_code(code) && alphabet.contains(ALPHA) {
        Some(column(alphabet, ALPHA) as usize)
    } else if is_digit_code(code) && alphabet.contains(DIGIT) {
        Some(column(alphabet, DIGIT) as usize)
    } else {
        None
    }
}

/// The entry of the table of columns for a column: one more than the
/// column, zero for none.
pub open spec fn slot_of(column: Option<usize>) -> int {
    match column {
        Some(k) => k + 1,
        None => 0,
    }
}

/// Whether `indexes` is the table of columns of the alphabet for the codes
/// from `smallest` to `largest`.
pub open spec fn indexes_alphabet(indexes: Seq<usize>, alphabet: Seq<char>, smallest: u32, largest: u32) -> bool {
    &&& indexes.len() == largest - smallest + 1
    &&& forall|c: char|
        smallest <= c as u32 <= largest ==> indexes[c as u32 - smallest] == slot_of(
            #[trigger] class_column(alphabet, c),
        )
}

/// In an alphabet without repetition a character stands in its column.
pub proof fn lemma_column_of_place(alphabet: Seq<char>, j: int)
    requires
        no_duplicates(alphabet),
        0 <= j < alphabet.len(),
    ensures
        column(alphabet, alphabet[j]) == j,
        alphabet.contains(alphabet[j]),
{
    crate::dfa::lemma_column(alphabet, alphabet[j], j);
}

/// The code of a character is no surrogate and lies below the end of the
/// code space, and different characters have different codes.
pub proof fn lemma_char_codes(a: char, b: char)
    ensures
        a as u32 <= 0x10ffff,
        a as u32 == b as u32 ==> a == b,
{
    vstd::utf8::char_is_scalar(a);
    vstd::utf8::char_u32_cast(a, a as u32);
    vstd::utf8::char_u32_cast(b, b as u32);
}

/// The characters of the alphabets of `dfas`, each once, in the order in
/// which they first occur.
fn collect_alphabet(dfas: &Vec<Dfa>) -> (alphabet: Vec<char>)
    ensures
        no_duplicates(alphabet@),
        forall|d: int, c: int|
            0 <= d < dfas@.len() && 0 <= c < dfas@[d].alphabet@.len() ==> alphabet@.contains(
                #[trigger] dfas@[d].alphabet@[c],
            ),
        alphabet@ == merged(alphabets(dfas_view(dfas@)), 0, 0, Seq::empty()),
{
    let mut alphabet: Vec<char> = Vec::new();
    let mut d: usize = 0;
    let ghost whole = merged(alphabets(dfas_view(dfas@)), 0, 0, Seq::empty());
    while d < dfas.len()
        invariant
            whole == merged(alphabets(dfas_view(dfas@)), d as int, 0, alphabet@),
            0 <= d <= dfas@.len(),
            no_duplicates(alphabet@),
            forall|e: int, c: int|
                0 <= e < d && 0 <= c < dfas@[e].alphabet@.len() ==> alphabet@.contains(
                    #[trigger] dfas@[e].alphabet@[c],
                ),
        decreases dfas@.len() - d,
    {
        let mut c: usize = 0;
        while c < dfas[d].alphabet.len()
            invariant
                whole == merged(alphabets(dfas_view(dfas@)), d as int, c as int, alphabet@),
                0 <= d < dfas@.len(),
                0 <= c <= dfas@[d as int].alphabet@.len(),
                no_duplicates(alphabet@),
                forall|e: int, k: int|
                    0 <= e < d && 0 <= k < dfas@[e].alphabet@.len() ==> alphabet@.contains(
                        #[trigger] dfas@[e].alphabet@[k],
                    ),
                forall|k: int|
                    0 <= k < c ==> alphabet@.contains(#[trigger] dfas@[d as int].alphabet@[k]),
            decreases dfas@[d as int].alphabet@.len() - c,
        {
            let character = dfas[d].alphabet[c];
            let ghost before = alphabet@;
            match position(&alphabet, character) {
                Some(place) => {
                    assert(alphabet@[place as int] == character);
                },
                None => {
                    alphabet.push(character);
                    proof {
                        assert(alphabet@[before.len() as int] == character);
                        assert forall|e: int, k: int|
                            0 <= e < d && 0 <= k < dfas@[e].alphabet@.len() implies alphabet@.contains(
                            #[trigger] dfas@[e].alphabet@[k],
                        ) by {
                            let ch = dfas@[e].alphabet@[k];
                            let at = choose|at: int| 0 <= at < before.len() && before[at] == ch;
                            assert(alphabet@[at] == ch);
                        }
                        assert forall|k: int| 0 <= k < c implies alphabet@.contains(
                            #[trigger] dfas@[d as int].alphabet@[k],
                        ) by {
                            let ch = dfas@[d as int].alphabet@[k];
                            let at = choose|at: int| 0 <= at < before.len() && before[at] == ch;
                            assert(alphabet@[at] == ch);
                        }
                    }
                },
            }
            c += 1;
        }
        d += 1;
    }
    alphabet
}

/// The least and the greatest code of the characters of the alphabet that
/// stand for themselves, and of the digits and the small letters.
fn char_range(alphabet: &Vec<char>) -> (r: (u32, u32))
    ensures
        r.0 <= 0x30,
        0x7a <= r.1 <= 0x10ffff,
        forall|i: int|
            0 <= i < alphabet@.len() && !is_meta(#[trigger] alphabet@[i]) ==> r.0
                <= alphabet@[i] as u32 <= r.1,
        r == code_range(alphabet@, 0, 0x30, 0x7a),
{
    let mut smallest: u32 = 0x30;
    let mut largest: u32 = 0x7a;
    let mut i: usize = 0;
    while i < alphabet.len()
        invariant
            code_range(alphabet@, 0, 0x30, 0x7a) == code_range(
                alphabet@,
                i as int,
                smallest,
                largest,
            ),
            0 <= i <= alphabet@.len(),
            smallest <= 0x30,
            0x7a <= largest <= 0x10ffff,
            forall|j: int|
                0 <= j < i && !is_meta(#[trigger] alphabet@[j]) ==> smallest
                    <= alphabet@[j] as u32 <= largest,
        decreases alphabet@.len() - i,
    {
        let character = alphabet[i];
        if character != ALPHA && character != DIGIT {
            let code = character as u32;
            proof {
                lemma_char_codes(character, character);
            }
            if code < smallest {
                smallest = code;
            } else if code > largest {
                largest = code;
            }
        }
        i += 1;
    }
    (smallest, largest)
}

/// The table of columns of the alphabet for the codes from `smallest` to
/// `largest`.
fn index_alphabet(alphabet: &Vec<char>, smallest: u32, largest: u32) -> (indexes: Vec<usize>)
    requires
        no_duplicates(alphabet@),
        alphabet@.len() < usize::MAX,
        1 <= smallest <= 0x30,
        0x7a <= largest <= 0x10ffff,
        forall|i: int|
            0 <= i < alphabet@.len() && !is_meta(#[trigger] alphabet@[i]) ==> smallest
                <= alphabet@[i] as u32 <= largest,
    ensures
        indexes@.len() == largest - smallest + 1,
        forall|k: int| 0 <= k < indexes@.len() ==> #[trigger] indexes@[k] <= alphabet@.len(),
        indexes_alphabet(indexes@, alphabet@, smallest, largest),
        indexes@ == indexed(alphabet@, smallest, largest),
{
    let span = (largest - smallest) as usize + 1;
    let start = smallest as usize;
    let width = alphabet.len();
    let mut indexes: Vec<usize> = Vec::new();
    let mut i: usize = 0;
    while i < span
        invariant
            0 <= i <= span,
            indexes@.len() == i,
            forall|k: int| 0 <= k < i ==> indexes@[k] == 0,
        decreases span - i,
    {
        indexes.push(0);
        i += 1;
    }
    let mut i: usize = 0;
    while i < width
        invariant
            0 <= i <= width,
            width == alphabet@.len(),
            width < usize::MAX,
            no_duplicates(alphabet@),
            start == smallest,
            span == largest - smallest + 1,
            indexes@.len() == span,
            forall|j: int|
                0 <= j < alphabet@.len() && !is_meta(#[trigger] alphabet@[j]) ==> smallest
                    <= alphabet@[j] as u32 <= largest,
            forall|j: int|
                0 <= j < i && !is_meta(#[trigger] alphabet@[j]) ==> indexes@[alphabet@[j] as u32
                    - smallest] == j + 1,
            forall|k: int|
                0 <= k < span ==> #[trigger] indexes@[k] == 0 || exists|j: int|
                    0 <= j < i && !is_meta(#[trigger] alphabet@[j]) && alphabet@[j] as u32 - smallest
                        == k && indexes@[k] == j + 1,
        decreases width - i,
    {
        let character = alphabet[i];
        if character != ALPHA && character != DIGIT {
            let code = character as u32 as usize;
            let ghost before = indexes@;
            indexes[code - start] = i + 1;
            proof {
                assert forall|j: int| 0 <= j < i + 1 && !is_meta(#[trigger] alphabet@[j]) implies indexes@[alphabet@[j] as u32
                    - smallest] == j + 1 by {
                    if j < i {
                        lemma_char_codes(alphabet@[j], character);
                    }
                }
                assert forall|k: int| 0 <= k < span implies #[trigger] indexes@[k] == 0 || exists|
                    j: int,
                |
                    0 <= j < i + 1 && !is_meta(#[trigger] alphabet@[j]) && alphabet@[j] as u32
                        - smallest == k && indexes@[k] == j + 1 by {
                    if k == code - start {
                        assert(!is_meta(alphabet@[i as int]) && alphabet@[i as int] as u32 - smallest
                            == k && indexes@[k] == i + 1);
                    } else if before[k] != 0 {
                        let j = choose|j: int|
                            0 <= j < i && !is_meta(#[trigger] alphabet@[j]) && alphabet@[j] as u32
                                - smallest == k && before[k] == j + 1;
                        assert(!is_meta(alphabet@[j]) && alphabet@[j] as u32 - smallest == k
                            && indexes@[k] == j + 1);
                    }
                }
            }
        }
        i += 1;
    }
    let alpha = position(alphabet, ALPHA);
    let digit = position(alphabet, DIGIT);
    let ghost own = indexes@;
    let mut i: usize = 0;
    while i < span
        invariant
            0 <= i <= span,
            width == alphabet@.len(),
            width < usize::MAX,
            start == smallest,
            span == largest - smallest + 1,
            span <= 0x110000,
            indexes@.len() == span,
            own.len() == span,
            alpha matches Some(a) ==> a < width && a == column(alphabet@, ALPHA),
            digit matches Some(a) ==> a < width && a == column(alphabet@, DIGIT),
            forall|k: int| i <= k < span ==> #[trigger] indexes@[k] == own[k],
            forall|k: int|
                0 <= k < i ==> #[trigger] indexes@[k] == (if own[k] != 0 {
                    own[k] as int
                } else if is_letter_code(k + smallest) && alpha is Some {
                    alpha->0 + 1
                } else if is_digit_code(k + smallest) && digit is Some {
                    digit->0 + 1
                } else {
                    0
                }),
        decreases span - i,
    {
        if indexes[i] == 0 {
            let char_index = i + start;
            let is_letter = (char_index >= 0x41 && char_index <= 0x5A) || (char_index >= 0x61
                && char_index <= 0x7A);
            let is_digit = char_index >= 0x30 && char_index <= 0x39;
            match (alpha, digit) {
                (Some(a), _) if is_letter => {
                    indexes[i] = a + 1;
                },
                (_, Some(a)) if !is_letter && is_digit => {
                    indexes[i] = a + 1;
                },
                _ => {},
            }
        }
        i += 1;
    }
    proof {
        assert forall|k: int| 0 <= k < indexes@.len() implies #[trigger] indexes@[k]
            <= alphabet@.len() by {
            if own[k] != 0 {
                let j = choose|j: int|
                    0 <= j < width && !is_meta(#[trigger] alphabet@[j]) && alphabet@[j] as u32
                        - smallest == k && own[k] == j + 1;
            }
        }
        assert forall|c: char| smallest <= c as u32 <= largest implies indexes@[c as u32
            - smallest] == slot_of(#[trigger] class_column(alphabet@, c)) by {
            let k = c as u32 - smallest;
            if !is_meta(c) && alphabet@.contains(c) {
                let j = choose|j: int| 0 <= j < alphabet@.len() && alphabet@[j] == c;
                lemma_column_of_place(alphabet@, j);
                assert(own[k] == j + 1);
            } else {
                if own[k] != 0 {
                    let j = choose|j: int|
                        0 <= j < width && !is_meta(#[trigger] alphabet@[j]) && alphabet@[j] as u32
                            - smallest == k && own[k] == j + 1;
                    lemma_char_codes(alphabet@[j], c);
                    assert(alphabet@[j] == c);
                    assert(alphabet@.contains(c));
                }
                if alpha is None {
                    assert(!alphabet@.contains(ALPHA));
                }
                if digit is None {
                    assert(!alphabet@.contains(DIGIT));
                }
            }
        }
        assert forall|k: int| 0 <= k < span implies indexes@[k] == index_of_code(
            alphabet@,
            smallest + k,
        ) by {
            let code = smallest + k;
            if exists|j: int| holds_code(alphabet@, j, code) {
                let j = choose|j: int| holds_code(alphabet@, j, code);
                assert(!is_meta(alphabet@[j]));
                assert(own[alphabet@[j] as u32 - smallest] == j + 1);
            } else {
                if own[k] != 0 {
                    let j = choose|j: int|
                        0 <= j < width && !is_meta(#[trigger] alphabet@[j]) && alphabet@[j] as u32
                            - smallest == k && own[k] == j + 1;
                    assert(holds_code(alphabet@, j, code));
                }
                if alpha is None {
                    assert(!alphabet@.contains(ALPHA));
                }
                if digit is None {
                    assert(!alphabet@.contains(DIGIT));
                }
            }
        }
        assert(indexes@ =~= indexed(alphabet@, smallest, largest));
    }
    indexes
}

/// The number that the states of automaton `d` of `dfas` but its start
/// state begin at: one more than the number of such states of the automata
/// before it.
pub open spec fn start_of(dfas: Seq<Dfa>, d: int) -> int {
    1 + added_states(dfas, 0) - added_states(dfas, d)
}

/// The number of tokens of the automaton `dfa`.
pub open spec fn token_count(dfa: Dfa) -> int {
    match dfa.token_map {
        Some(tokens) => tokens@.len() as int,
        None => 0,
    }
}

/// Whether the table holds the automaton `dfa` from state `start_state`
/// on: its transitions, its tokens and its accepting bits.
pub open spec fn entered(table: TransitionTable, dfa: Dfa, start_state: usize) -> bool {
    &&& holds_transitions(
        table.table@,
        table.alphabet@,
        dfa,
        start_state,
        dfa.dfa@.len() as int,
        0,
    )
    &&& holds_tokens(table.token_map@, dfa, start_state, token_count(dfa))
    &&& start_state + dfa.accepting@.len() <= table.accepting@.len()
    &&& forall|s: int|
        start_state <= s < start_state + dfa.accepting@.len() ==> #[trigger] table.accepting@[s]
            == dfa.accepting@[s - start_state]
}

/// A table that keeps the transitions, the tokens and the accepting bits of
/// another holds the automata that the other holds.
pub proof fn lemma_stays_entered(before: TransitionTable, after: TransitionTable, dfa: Dfa, start_state: usize)
    requires
        entered(before, dfa, start_state),
        after.alphabet == before.alphabet,
        keeps_transitions(before.table@, after.table@),
        keeps_tokens(before.token_map@, after.token_map@),
        after.accepting@.len() == before.accepting@.len(),
        forall|s: int|
            start_state <= s < start_state + dfa.accepting@.len() ==> #[trigger] after.accepting@[s]
                == before.accepting@[s],
    ensures
        entered(after, dfa, start_state),
{
    assert forall|r: int, c: int|
        0 <= r < dfa.dfa@.len() && 0 <= c < dfa.dfa@[r]@.len() && c < dfa.alphabet@.len() && (r
            < dfa.dfa@.len() || (r == dfa.dfa@.len() && c < 0)) && (#[trigger] dfa.dfa@[r]@[c]) is Some implies {
        let s = mapped_state(r as usize, start_state);
        let k = column(after.alphabet@, dfa.alphabet@[c]);
        &&& 0 <= s < after.table@.len()
        &&& 0 <= k < after.table@[s]@.len()
        &&& after.table@[s]@[k] == Some(mapped_state(dfa.dfa@[r]@[c]->0, start_state) as usize)
    } by {
        let s = mapped_state(r as usize, start_state);
        let k = column(before.alphabet@, dfa.alphabet@[c]);
        assert(before.table@[s]@[k] is Some);
    }
    assert forall|s: int|
        start_state <= s < start_state + dfa.accepting@.len() implies #[trigger] after.accepting@[s]
        == dfa.accepting@[s - start_state] by {
        assert(before.accepting@[s] == dfa.accepting@[s - start_state]);
    }
    assert(holds_transitions(
        after.table@,
        after.alphabet@,
        dfa,
        start_state,
        dfa.dfa@.len() as int,
        0,
    ));
    if dfa.token_map is Some {
        let tokens = dfa.token_map->0;
        assert forall|i: int| 0 <= i < token_count(dfa) && i < tokens@.len() implies {
            let path = mapped_path((#[trigger] tokens@[i]).1@, start_state);
            &&& path.len() > 0
            &&& path.last() < after.token_map@.len()
            &&& after.token_map@[path.last() as int] matches Some(list) && exists|k: int|
                0 <= k < list@.len() && (#[trigger] list@[k] matches Some(found) && found.token@
                    == tokens@[i].0@ && found.states@ == path)
        } by {
            let path = mapped_path(tokens@[i].1@, start_state);
            let t = path.last() as int;
            let list = before.token_map@[t]->0;
            let k = choose|k: int|
                0 <= k < list@.len() && (#[trigger] list@[k] matches Some(found) && found.token@
                    == tokens@[i].0@ && found.states@ == path);
            let found = list@[k]->0;
            assert(holds_entry(after.token_map@[t]->0@, found));
            let after_list = after.token_map@[t]->0;
            let k2 = choose|k2: int| 0 <= k2 < after_list@.len() && entry_at(after_list@, k2, found);
            assert(after_list@[k2] matches Some(f2) && f2.token@ == tokens@[i].0@ && f2.states@
                == path);
        }
    }
    assert(holds_tokens(after.token_map@, dfa, start_state, token_count(dfa)));
}

/// Whether `table` is the table of the automata `dfas`: it has the start
/// state and the states of each automaton but its start state; it holds
/// each automaton from the number on that its states begin at; its
/// alphabet holds the characters of the alphabets of the automata, each
/// once; and it gives every character the column that it has by the
/// alphabet.
pub open spec fn composed(table: TransitionTable, dfas: Seq<Dfa>) -> bool {
    &&& table.wf()
    &&& table.table@.len() == 1 + added_states(dfas, 0)
    &&& forall|d: int|
        0 <= d < dfas.len() ==> 1 <= start_of(dfas, d) <= usize::MAX && entered(
            table,
            #[trigger] dfas[d],
            start_of(dfas, d) as usize,
        )
    &&& no_duplicates(table.alphabet@)
    &&& forall|d: int, c: int|
        0 <= d < dfas.len() && 0 <= c < dfas[d].alphabet@.len() ==> table.alphabet@.contains(
            #[trigger] dfas[d].alphabet@[c],
        )
    &&& forall|c: char| #[trigger] table.column_of(c) == class_column(table.alphabet@, c)
}

impl TransitionTable {
    /// Enters the transitions of the automaton `dfa`.
    fn add_transitions(&mut self, dfa: &Dfa, start_state: usize) -> (r: Result<(), TableError>)
        requires
            old(self).wf(),
            start_state >= 1,
            dfa.dfa@.len() >= 1,
            start_state + dfa.dfa@.len() - 1 <= old(self).table@.len(),
        ensures
            final(self).wf(),
            final(self).accepting == old(self).accepting,
            final(self).alphabet == old(self).alphabet,
            final(self).alphabet_indexes == old(self).alphabet_indexes,
            final(self).alphabet_start == old(self).alphabet_start,
            final(self).token_map == old(self).token_map,
            keeps_transitions(old(self).table@, final(self).table@),
            r is Ok ==> holds_transitions(
                final(self).table@,
                final(self).alphabet@,
                *dfa,
                start_state,
                dfa.dfa@.len() as int,
                0,
            ),
            match old(self)@.with_transitions(dfa@, start_state, 0, 0) {
                Ok(rows) => r is Ok && final(self)@.rows == rows,
                Err(e) => r == Err::<(), TableError>(e),
            },
            r matches Err(e) ==> e == TableError::MalformedRow || e == TableError::StateOutOfBounds
                || e == TableError::DuplicateEntry,
    {
        let count = dfa.dfa.len();
        let limit = self.table.len();
        let ghost whole = self@.with_transitions(dfa@, start_state, 0, 0);
        let mut row_i: usize = 0;
        while row_i < count
            invariant
                whole == old(self)@.with_transitions(dfa@, start_state, 0, 0),
                whole == self@.with_transitions(dfa@, start_state, row_i as int, 0),
                0 <= row_i <= count,
                count == dfa.dfa@.len(),
                start_state >= 1,
                limit == self.table@.len(),
                start_state + count - 1 <= limit,
                self.wf(),
                self.accepting == old(self).accepting,
                self.alphabet == old(self).alphabet,
                self.alphabet_indexes == old(self).alphabet_indexes,
                self.alphabet_start == old(self).alphabet_start,
                self.token_map == old(self).token_map,
                keeps_transitions(old(self).table@, self.table@),
                holds_transitions(self.table@, self.alphabet@, *dfa, start_state, row_i as int, 0),
            decreases count - row_i,
        {
            let table_state = if row_i == 0 {
                0
            } else {
                start_state + row_i - 1
            };
            if dfa.dfa[row_i].len() != dfa.alphabet.len() {
                return Err(TableError::MalformedRow);
            }
            let mut col_i: usize = 0;
            while col_i < dfa.alphabet.len()
                invariant
                    whole == old(self)@.with_transitions(dfa@, start_state, 0, 0),
                    whole == self@.with_transitions(dfa@, start_state, row_i as int, col_i as int),
                    0 <= col_i <= dfa.alphabet@.len(),
                    0 <= row_i < count,
                    count == dfa.dfa@.len(),
                    dfa.dfa@[row_i as int]@.len() == dfa.alphabet@.len(),
                    start_state >= 1,
                    limit == self.table@.len(),
                    start_state + count - 1 <= limit,
                    table_state == mapped_state(row_i, start_state),
                    table_state < self.table@.len(),
                    self.wf(),
                    self.accepting == old(self).accepting,
                    self.alphabet == old(self).alphabet,
                    self.alphabet_indexes == old(self).alphabet_indexes,
                    self.alphabet_start == old(self).alphabet_start,
                    self.token_map == old(self).token_map,
                    keeps_transitions(old(self).table@, self.table@),
                    holds_transitions(
                        self.table@,
                        self.alphabet@,
                        *dfa,
                        start_state,
                        row_i as int,
                        col_i as int,
                    ),
                decreases dfa.alphabet@.len() - col_i,
            {
                if let Some(state) = dfa.dfa[row_i][col_i] {
                    if state >= count {
                        return Err(TableError::StateOutOfBounds);
                    }
                    let alpha_index = match position(&self.alphabet, dfa.alphabet[col_i]) {
                        Some(index) => index,
                        None => {
                            return Err(TableError::MalformedRow);
                        },
                    };
                    if self.table[table_state][alpha_index].is_some() {
                        return Err(TableError::DuplicateEntry);
                    }
                    let target = if state == 0 {
                        0
                    } else {
                        state + start_state - 1
                    };
                    let ghost before = self.table@;
                    let ghost model = self@;
                    self.table[table_state][alpha_index] = Some(target);
                    proof {
                        assert(self@.rows =~= model.rows.update(
                            table_state as int,
                            model.rows[table_state as int].update(alpha_index as int, Some(target)),
                        )) by {
                            assert forall|s: int| 0 <= s < self.table@.len() && s
                                != table_state implies self.table@[s] == before[s] by {}
                        }
                        assert(self@ == (TransitionView { rows: self@.rows, ..model }));
                        assert forall|s: int, c: int|
                            0 <= s < self.table@.len() && 0 <= c < self.alphabet@.len() implies (
                        #[trigger] self.table@[s]@[c] matches Some(t) ==> t < self.table@.len()) by {
                            if s != table_state {
                                assert(self.table@[s] == before[s]);
                            } else if c != alpha_index {
                                assert(self.table@[s]@[c] == before[s]@[c]);
                            }
                        }
                        assert forall|s: int| 0 <= s < self.table@.len() implies (
                        #[trigger] self.table@[s])@.len() == self.alphabet@.len() by {
                            if s != table_state {
                                assert(self.table@[s] == before[s]);
                            }
                        }
                        assert forall|s: int, k: int|
                            0 <= s < before.len() && 0 <= k < before[s]@.len() && (
                            #[trigger] before[s]@[k]) is Some implies k < self.table@[s]@.len()
                            && self.table@[s]@[k] == before[s]@[k] by {
                            if s != table_state {
                                assert(self.table@[s] == before[s]);
                            }
                        }
                        assert forall|s: int, k: int|
                            0 <= s < old(self).table@.len() && 0 <= k < old(self).table@[s]@.len()
                                && (#[trigger] old(self).table@[s]@[k]) is Some implies k
                            < self.table@[s]@.len() && self.table@[s]@[k] == old(self).table@[s]@[k] by {
                            assert(before[s]@[k] == old(self).table@[s]@[k]);
                        }
                        assert forall|r: int, c: int|
                            0 <= r < dfa.dfa@.len() && 0 <= c < dfa.dfa@[r]@.len() && c
                                < dfa.alphabet@.len() && (r < row_i || (r == row_i && c < col_i
                                + 1)) && (#[trigger] dfa.dfa@[r]@[c]) is Some implies {
                            let s = mapped_state(r as usize, start_state);
                            let k = column(self.alphabet@, dfa.alphabet@[c]);
                            &&& 0 <= s < self.table@.len()
                            &&& 0 <= k < self.table@[s]@.len()
                            &&& self.table@[s]@[k] == Some(
                                mapped_state(dfa.dfa@[r]@[c]->0, start_state) as usize,
                            )
                        } by {
                            let s = mapped_state(r as usize, start_state);
                            let k = column(self.alphabet@, dfa.alphabet@[c]);
                            if r == row_i && c == col_i {
                            } else {
                                assert(before[s]@[k] is Some);
                                if s != table_state {
                                    assert(self.table@[s] == before[s]);
                                }
                            }
                        }
                    }
                }
                col_i += 1;
            }
            row_i += 1;
        }
        Ok(())
    }

    /// Enters the accepting bits of the automaton `dfa`.
    fn add_accepting(&mut self, dfa: &Dfa, start_state: usize)
        requires
            old(self).wf(),
            start_state >= 1,
            dfa.dfa@.len() >= 1,
            dfa.accepting@.len() == dfa.dfa@.len() - 1,
            start_state + dfa.dfa@.len() - 1 <= old(self).table@.len(),
        ensures
            final(self).wf(),
            final(self).table == old(self).table,
            final(self).alphabet == old(self).alphabet,
            final(self).alphabet_indexes == old(self).alphabet_indexes,
            final(self).alphabet_start == old(self).alphabet_start,
            final(self).token_map == old(self).token_map,
            final(self).accepting@.len() == old(self).accepting@.len(),
            forall|s: int|
                start_state <= s < start_state + dfa.accepting@.len() ==> #[trigger] final(self).accepting@[s] == dfa.accepting@[s - start_state],
            forall|s: int|
                0 <= s < old(self).accepting@.len() && !(start_state <= s < start_state
                    + dfa.accepting@.len()) ==> #[trigger] final(self).accepting@[s] == old(self).accepting@[s],
            final(self).accepting@ == old(self)@.with_accepting(dfa@, start_state),
    {
        let limit = self.table.len();
        let mut accept_i: usize = 0;
        while accept_i < dfa.accepting.len()
            invariant
                0 <= accept_i <= dfa.accepting@.len(),
                dfa.dfa@.len() >= 1,
                dfa.accepting@.len() == dfa.dfa@.len() - 1,
                start_state >= 1,
                limit == self.table@.len(),
                start_state + dfa.dfa@.len() - 1 <= limit,
                self.wf(),
                self.table == old(self).table,
                self.alphabet == old(self).alphabet,
                self.alphabet_indexes == old(self).alphabet_indexes,
                self.alphabet_start == old(self).alphabet_start,
                self.token_map == old(self).token_map,
                self.accepting@.len() == old(self).accepting@.len(),
                forall|s: int|
                    start_state <= s < start_state + accept_i ==> #[trigger] self.accepting@[s]
                        == dfa.accepting@[s - start_state],
                forall|s: int|
                    0 <= s < old(self).accepting@.len() && !(start_state <= s < start_state
                        + accept_i) ==> #[trigger] self.accepting@[s] == old(self).accepting@[s],
            decreases dfa.accepting@.len() - accept_i,
        {
            self.accepting[start_state + accept_i] = dfa.accepting[accept_i];
            accept_i += 1;
        }
        assert(self.accepting@ =~= old(self)@.with_accepting(dfa@, start_state));
    }

    /// Enters the tokens of the automaton `dfa`, each with its path.
    fn add_tokens(&mut self, dfa: &Dfa, start_state: usize) -> (r: Result<(), TableError>)
        requires
            old(self).wf(),
            start_state >= 1,
            dfa.dfa@.len() >= 1,
            start_state + dfa.dfa@.len() - 1 <= old(self).table@.len(),
        ensures
            final(self).wf(),
            final(self).table == old(self).table,
            final(self).accepting == old(self).accepting,
            final(self).alphabet == old(self).alphabet,
            final(self).alphabet_indexes == old(self).alphabet_indexes,
            final(self).alphabet_start == old(self).alphabet_start,
            keeps_tokens(old(self).token_map@, final(self).token_map@),
            r is Ok ==> holds_tokens(
                final(self).token_map@,
                *dfa,
                start_state,
                match dfa.token_map {
                    Some(tokens) => tokens@.len() as int,
                    None => 0,
                },
            ),
            r matches Err(e) ==> e == TableError::EmptyTokenPath || e == TableError::StateOutOfBounds
                || e == TableError::DuplicateToken || e == TableError::UnresolvableCollision,
            match old(self)@.with_tokens(dfa@, start_state, 0) {
                Ok(slots) => r is Ok && final(self)@.slots == slots,
                Err(e) => r == Err::<(), TableError>(e),
            },
    {
        let count = dfa.dfa.len();
        let limit = self.table.len();
        let ghost whole = self@.with_tokens(dfa@, start_state, 0);
        proof {
            Self::lemma_keeps_tokens_refl(self.token_map@);
        }
        if let Some(token_map) = &dfa.token_map {
            let mut i: usize = 0;
            while i < token_map.len()
                invariant
                    whole == old(self)@.with_tokens(dfa@, start_state, 0),
                    whole == self@.with_tokens(dfa@, start_state, i as int),
                    0 <= i <= token_map@.len(),
                    dfa.token_map == Some(*token_map),
                    count == dfa.dfa@.len(),
                    count >= 1,
                    start_state >= 1,
                    limit == self.table@.len(),
                    start_state + count - 1 <= limit,
                    self.wf(),
                    self.table == old(self).table,
                    self.accepting == old(self).accepting,
                    self.alphabet == old(self).alphabet,
                    self.alphabet_indexes == old(self).alphabet_indexes,
                    self.alphabet_start == old(self).alphabet_start,
                    keeps_tokens(old(self).token_map@, self.token_map@),
                    holds_tokens(self.token_map@, *dfa, start_state, i as int),
                decreases token_map@.len() - i,
            {
                let states = &token_map[i].1;
                if states.len() == 0 {
                    return Err(TableError::EmptyTokenPath);
                }
                let mut mapped_states: Vec<usize> = Vec::new();
                let mut j: usize = 0;
                while j < states.len()
                    invariant
                        whole == old(self)@.with_tokens(dfa@, start_state, 0),
                        whole == self@.with_tokens(dfa@, start_state, i as int),
                        0 <= i < token_map@.len(),
                        dfa.token_map == Some(*token_map),
                        states@ == token_map@[i as int].1@,
                        states@.len() > 0,
                        forall|k: int| 0 <= k < j ==> #[trigger] states@[k] < count,
                        0 <= j <= states@.len(),
                        mapped_states@.len() == j,
                        start_state >= 1,
                        count == dfa.dfa@.len(),
                        limit == self.table@.len(),
                        start_state + count - 1 <= limit,
                        self.wf(),
                        self.table == old(self).table,
                        self.accepting == old(self).accepting,
                        self.alphabet == old(self).alphabet,
                        self.alphabet_indexes == old(self).alphabet_indexes,
                        self.alphabet_start == old(self).alphabet_start,
                        keeps_tokens(old(self).token_map@, self.token_map@),
                        forall|k: int|
                            0 <= k < j ==> #[trigger] mapped_states@[k] == mapped_state(
                                states@[k],
                                start_state,
                            ) && mapped_states@[k] < limit,
                    decreases states@.len() - j,
                {
                    let state = states[j];
                    if state >= count {
                        assert(dfa@.tokens[i as int].1[j as int] >= dfa@.rows.len());
                        return Err(TableError::StateOutOfBounds);
                    }
                    let target = if state == 0 {
                        0
                    } else {
                        state + start_state - 1
                    };
                    mapped_states.push(target);
                    j += 1;
                }
                assert(mapped_states@ =~= mapped_path(states@, start_state));
                let last_state = mapped_states[mapped_states.len() - 1];
                if let Some(token_list) = &self.token_map[last_state] {
                    if Self::find_token(token_list, &mapped_states).is_some() {
                        return Err(TableError::DuplicateToken);
                    }
                }
                let entry = TokenStates { token: token_map[i].0.clone(), states: mapped_states };
                let new_token_states = Self::add_token_state(&self.token_map[last_state], entry)?;
                let ghost before = self.token_map@;
                let ghost added = new_token_states@;
                let ghost model = self@;
                self.token_map[last_state] = Some(new_token_states);
                proof {
                    assert(self@.slots =~= model.slots.update(
                        last_state as int,
                        Some(list_view(added)),
                    ));
                    assert(self@ == (TransitionView { slots: self@.slots, ..model }));
                    Self::lemma_tokens_added(
                        old(self).token_map@,
                        before,
                        self.token_map@,
                        last_state as int,
                        added,
                        entry,
                        *dfa,
                        start_state,
                        i as int,
                    );
                }
                i += 1;
            }
        }
        Ok(())
    }

    /// Tables of tokens hold their own entries.
    proof fn lemma_keeps_tokens_refl(map: Seq<Option<Vec<Option<TokenStates>>>>)
        ensures
            keeps_tokens(map, map),
    {
        assert forall|s: int, i: int|
            0 <= s < map.len() && map[s] is Some && 0 <= i < map[s]->0@.len() && (
            #[trigger] map[s]->0@[i]) is Some implies map[s] is Some && holds_entry(
            map[s]->0@,
            map[s]->0@[i]->0,
        ) by {
            assert(entry_at(map[s]->0@, i, map[s]->0@[i]->0));
        }
    }

    /// What holds after the table of state `s` was replaced by the table
    /// `added`, which holds what it held and the entry of token `i` of the
    /// automaton.
    proof fn lemma_tokens_added(
        first: Seq<Option<Vec<Option<TokenStates>>>>,
        before: Seq<Option<Vec<Option<TokenStates>>>>,
        after: Seq<Option<Vec<Option<TokenStates>>>>,
        s: int,
        added: Seq<Option<TokenStates>>,
        entry: TokenStates,
        dfa: Dfa,
        start_state: usize,
        i: int,
    )
        requires
            keeps_tokens(first, before),
            holds_tokens(before, dfa, start_state, i),
            0 <= s < before.len(),
            after.len() == before.len(),
            forall|t: int| 0 <= t < before.len() && t != s ==> after[t] == before[t],
            after[s] matches Some(list) && list@ == added,
            holds_entry(added, entry),
            before[s] matches Some(old_list) ==> forall|j: int|
                0 <= j < old_list@.len() ==> (#[trigger] old_list@[j] matches Some(e)
                    ==> holds_entry(added, e)),
            dfa.token_map matches Some(tokens) && 0 <= i < tokens@.len() && entry.token@
                == tokens@[i].0@ && entry.states@ == mapped_path(tokens@[i].1@, start_state)
                && entry.states@.len() > 0 && entry.states@.last() == s,
        ensures
            keeps_tokens(first, after),
            holds_tokens(after, dfa, start_state, i + 1),
    {
        assert forall|t: int, j: int|
            0 <= t < first.len() && first[t] is Some && 0 <= j < first[t]->0@.len() && (
            #[trigger] first[t]->0@[j]) is Some implies after[t] is Some && holds_entry(
            after[t]->0@,
            first[t]->0@[j]->0,
        ) by {
            let e = first[t]->0@[j]->0;
            assert(holds_entry(before[t]->0@, e));
            if t == s {
                let k = choose|k: int| 0 <= k < before[t]->0@.len() && entry_at(before[t]->0@, k, e);
                let found = before[t]->0@[k]->0;
                assert(holds_entry(added, found));
                let k2 = choose|k2: int| 0 <= k2 < added.len() && entry_at(added, k2, found);
                assert(entry_at(added, k2, e));
            }
        }
        let tokens = dfa.token_map->0;
        assert forall|a: int| 0 <= a < i + 1 && a < tokens@.len() implies {
            let path = mapped_path((#[trigger] tokens@[a]).1@, start_state);
            &&& path.len() > 0
            &&& path.last() < after.len()
            &&& after[path.last() as int] matches Some(list) && exists|k: int|
                0 <= k < list@.len() && (#[trigger] list@[k] matches Some(found) && found.token@
                    == tokens@[a].0@ && found.states@ == path)
        } by {
            let path = mapped_path(tokens@[a].1@, start_state);
            if a < i {
                let t = path.last() as int;
                let list = before[t]->0;
                let k = choose|k: int|
                    0 <= k < list@.len() && (#[trigger] list@[k] matches Some(found) && found.token@
                        == tokens@[a].0@ && found.states@ == path);
                if t == s {
                    let found = list@[k]->0;
                    assert(holds_entry(added, found));
                    let k2 = choose|k2: int| 0 <= k2 < added.len() && entry_at(added, k2, found);
                    assert(added[k2] matches Some(f2) && f2.token@ == tokens@[a].0@ && f2.states@
                        == path);
                } else {
                    assert(after[t] == before[t]);
                }
            } else {
                let k2 = choose|k2: int| 0 <= k2 < added.len() && entry_at(added, k2, entry);
                assert(added[k2] matches Some(f2) && f2.token@ == tokens@[a].0@ && f2.states@
                    == path);
            }
        }
    }

    /// Enters the automaton `dfa`, whose states but the start state take
    /// the numbers from `start_state` on, and returns the number after
    /// them. The table keeps the transitions and the tokens that it holds
    /// and takes those of the automaton, between the states that stand for
    /// the states of the automaton, with its accepting bits.
    pub fn add_dfa(&mut self, dfa: &Dfa, start_state: usize) -> (r: Result<usize, TableError>)
        requires
            old(self).wf(),
            start_state >= 1,
        ensures
            final(self).wf(),
            final(self).table@.len() == old(self).table@.len(),
            final(self).alphabet == old(self).alphabet,
            final(self).alphabet_indexes == old(self).alphabet_indexes,
            final(self).alphabet_start == old(self).alphabet_start,
            r matches Ok(next) ==> next == start_state + dfa.dfa@.len() - 1 && next <= final(self).table@.len(),
            r == Err::<usize, TableError>(TableError::AcceptingMismatch) <==> (dfa.dfa@.len() == 0
                || dfa.accepting@.len() != dfa.dfa@.len() - 1),
            dfa.dfa@.len() > 0 && dfa.accepting@.len() == dfa.dfa@.len() - 1 && start_state
                + dfa.dfa@.len() - 1 > old(self).table@.len() ==> r == Err::<usize, TableError>(
                TableError::TooManyStates,
            ),
            keeps_transitions(old(self).table@, final(self).table@),
            keeps_tokens(old(self).token_map@, final(self).token_map@),
            r is Ok ==> holds_transitions(
                final(self).table@,
                final(self).alphabet@,
                *dfa,
                start_state,
                dfa.dfa@.len() as int,
                0,
            ),
            r is Ok ==> holds_tokens(
                final(self).token_map@,
                *dfa,
                start_state,
                match dfa.token_map {
                    Some(tokens) => tokens@.len() as int,
                    None => 0,
                },
            ),
            r is Ok ==> forall|s: int|
                start_state <= s < start_state + dfa.accepting@.len() ==> #[trigger] final(self).accepting@[s] == dfa.accepting@[s - start_state],
            forall|s: int|
                0 <= s < old(self).accepting@.len() && !(start_state <= s < start_state
                    + dfa.accepting@.len()) ==> #[trigger] final(self).accepting@[s] == old(self).accepting@[s],
            match old(self)@.with_dfa(dfa@, start_state) {
                Ok((table, next)) => r == Ok::<usize, TableError>(next) && final(self)@ == table,
                Err(e) => r == Err::<usize, TableError>(e),
            },
    {
        proof {
            Self::lemma_keeps_tokens_refl(self.token_map@);
        }
        if dfa.dfa.len() == 0 || dfa.accepting.len() != dfa.dfa.len() - 1 {
            return Err(TableError::AcceptingMismatch);
        }
        let count = dfa.dfa.len();
        let limit = self.table.len();
        if count - 1 > limit || start_state > limit - (count - 1) {
            return Err(TableError::TooManyStates);
        }
        let next = start_state + (count - 1);
        self.add_transitions(dfa, start_state)?;
        self.add_accepting(dfa, start_state);
        self.add_tokens(dfa, start_state)?;
        Ok(next)
    }

    /// The table of the automata `dfas`: the start state, then the states
    /// of each automaton but its start state, over the alphabet of all
    /// their characters, with the automata entered one after the other;
    /// or the first reason why they do not compose.
    pub fn init(dfas: &Vec<Dfa>) -> (r: Result<TransitionTable, TableError>)
        ensures
            composed_from(dfas@, r),
    {
        let ghost views = dfas_view(dfas@);
        let mut state_count: usize = 1;
        let mut d: usize = 0;
        while d < dfas.len()
            invariant
                views == dfas_view(dfas@),
                counted(views, 0, 1) == counted(views, d as int, state_count as int),
                0 <= d <= dfas@.len(),
                state_count + added_states(dfas@, d as int) == 1 + added_states(dfas@, 0),
                state_count >= 1,
            decreases dfas@.len() - d,
        {
            if dfas[d].dfa.len() == 0 {
                return Err(TableError::AcceptingMismatch);
            }
            state_count = match state_count.checked_add(dfas[d].dfa.len() - 1) {
                Some(sum) => sum,
                None => {
                    return Err(TableError::TooManyStates);
                },
            };
            d += 1;
        }
        let temp_alphabet = collect_alphabet(dfas);
        let (smallest, largest) = char_range(&temp_alphabet);
        if smallest == 0 {
            return Err(TableError::NulCharacter);
        }
        let alphabet_start = smallest as usize;
        let width = temp_alphabet.len();
        if width == usize::MAX {
            return Err(TableError::TooManyStates);
        }
        let alphabet_indexes = index_alphabet(&temp_alphabet, smallest, largest);
        let ghost letters = temp_alphabet@;
        let ghost columns = alphabet_indexes@;
        let mut rows: Vec<Vec<Option<usize>>> = Vec::new();
        let mut accepting: Vec<bool> = Vec::new();
        let mut token_map: Vec<Option<Vec<Option<TokenStates>>>> = Vec::new();
        let mut s: usize = 0;
        while s < state_count
            invariant
                forall|k: int| 0 <= k < s ==> !(#[trigger] accepting@[k]),
                0 <= s <= state_count,
                width == temp_alphabet@.len(),
                letters == temp_alphabet@,
                columns == alphabet_indexes@,
                no_duplicates(letters),
                indexes_alphabet(columns, letters, smallest, largest),
                0x7a <= largest,
                1 <= smallest <= 0x30,
                forall|j: int|
                    0 <= j < letters.len() && !is_meta(#[trigger] letters[j]) ==> smallest
                        <= letters[j] as u32 <= largest,
                forall|d: int, c: int|
                    0 <= d < dfas@.len() && 0 <= c < dfas@[d].alphabet@.len() ==> letters.contains(
                        #[trigger] dfas@[d].alphabet@[c],
                    ),
                rows@.len() == s,
                accepting@.len() == s,
                token_map@.len() == s,
                forall|k: int| 0 <= k < s ==> (#[trigger] rows@[k])@.len() == width,
                forall|k: int, c: int| 0 <= k < s && 0 <= c < width ==> #[trigger] rows@[k]@[c] is None,
                forall|k: int| 0 <= k < s ==> #[trigger] token_map@[k] is None,
            decreases state_count - s,
        {
            let mut columns: Vec<Option<usize>> = Vec::new();
            let mut c: usize = 0;
            while c < width
                invariant
                    0 <= c <= width,
                    columns@.len() == c,
                    forall|k: int| 0 <= k < c ==> columns@[k] is None,
                decreases width - c,
            {
                columns.push(None);
                c += 1;
            }
            rows.push(columns);
            accepting.push(false);
            token_map.push(None);
            s += 1;
        }
        let mut table = TransitionTable {
            table: rows,
            accepting,
            alphabet: temp_alphabet,
            alphabet_indexes,
            alphabet_start,
            token_map,
        };
        proof {
            let blank = TransitionView::blank(state_count as nat, letters, smallest, largest);
            assert forall|k: int| 0 <= k < state_count implies table@.rows[k] == blank.rows[k] by {
                assert(table.table@[k]@ =~= crate::dfa::no_row(width as nat));
            }
            assert(table@.rows =~= blank.rows);
            assert(table@.accepting =~= blank.accepting);
            assert(table@.slots =~= blank.slots);
            assert(table@ == blank);
        }
        let ghost whole = composition(views);
        let mut start_state: usize = 1;
        let mut d: usize = 0;
        while d < dfas.len()
            invariant
                views == dfas_view(dfas@),
                whole == composition(views),
                whole == table@.with_dfas(views, d as int, start_state),
                0 <= d <= dfas@.len(),
                table.wf(),
                table.table@.len() == state_count,
                state_count == 1 + added_states(dfas@, 0),
                start_state >= 1,
                start_state == start_of(dfas@, d as int),
                table.alphabet@ == letters,
                table.alphabet_indexes@ == columns,
                table.alphabet_start == smallest,
                no_duplicates(letters),
                indexes_alphabet(columns, letters, smallest, largest),
                0x7a <= largest,
                1 <= smallest <= 0x30,
                forall|j: int|
                    0 <= j < letters.len() && !is_meta(#[trigger] letters[j]) ==> smallest
                        <= letters[j] as u32 <= largest,
                forall|d: int, c: int|
                    0 <= d < dfas@.len() && 0 <= c < dfas@[d].alphabet@.len() ==> letters.contains(
                        #[trigger] dfas@[d].alphabet@[c],
                    ),
                forall|e: int|
                    0 <= e < d ==> 1 <= start_of(dfas@, e) && start_of(dfas@, e) + dfas@[e].dfa@.len()
                        - 1 <= start_state && dfas@[e].accepting@.len() == dfas@[e].dfa@.len() - 1
                        && entered(table, #[trigger] dfas@[e], start_of(dfas@, e) as usize),
            decreases dfas@.len() - d,
        {
            let ghost before = table;
            let next = table.add_dfa(&dfas[d], start_state)?;
            proof {
                assert forall|e: int| 0 <= e < d + 1 implies 1 <= start_of(dfas@, e) && start_of(
                    dfas@,
                    e,
                ) + dfas@[e].dfa@.len() - 1 <= next && dfas@[e].accepting@.len()
                    == dfas@[e].dfa@.len() - 1 && entered(
                    table,
                    #[trigger] dfas@[e],
                    start_of(dfas@, e) as usize,
                ) by {
                    if e < d {
                        let first = start_of(dfas@, e) as usize;
                        assert(entered(before, dfas@[e], first));
                        assert forall|s: int|
                            first <= s < first + dfas@[e].accepting@.len() implies #[trigger] table.accepting@[s]
                            == before.accepting@[s] by {
                            assert(s < start_state);
                        }
                        lemma_stays_entered(before, table, dfas@[e], first);
                    }
                }
            }
            start_state = next;
            d += 1;
        }
        proof {
            assert forall|c: char| #[trigger]
                table.column_of(c) == class_column(table.alphabet@, c) by {
                let code = c as u32 as int;
                lemma_char_codes(c, c);
                if smallest <= code <= largest {
                    assert(columns[c as u32 - smallest] == slot_of(class_column(letters, c)));
                } else {
                    if !is_meta(c) && letters.contains(c) {
                        let j = choose|j: int| 0 <= j < letters.len() && letters[j] == c;
                        assert(!is_meta(letters[j]));
                    }
                }
            }
        }
        Ok(table)
    }
}

/// Whether `r` is what composing the automata `dfas` gives: their table,
/// which holds each of them, or the first reason why they do not compose.
pub open spec fn composed_from(dfas: Seq<Dfa>, r: Result<TransitionTable, TableError>) -> bool {
    match composition(dfas_view(dfas)) {
        Ok(table) => r matches Ok(found) && found@ == table && composed(found, dfas),
        Err(e) => r == Err::<TransitionTable, TableError>(e),
    }
}

/// The transition table of the language: the table of its automata, or the
/// first reason why they do not compose.
pub fn init_transition_table() -> (r: Result<TransitionTable, TableError>)
    ensures
        match composition(language_automata()) {
            Ok(table) => r matches Ok(found) && found@ == table && found.wf(),
            Err(e) => r == Err::<TransitionTable, TableError>(e),
        },
        r matches Ok(table) ==> exists|dfas: Seq<Dfa>|
            language_dfas(dfas) && #[trigger] composed(table, dfas),
{
    let dfas = get_constant_dfas();
    let r = TransitionTable::init(&dfas);
    proof {
        lemma_language_automata(dfas@);
        if r is Ok {
            assert(language_dfas(dfas@) && composed(r->Ok_0, dfas@));
        }
    }
    r
}

/// Whether slot `k` of the table `list` holds the token and the path of
/// `entry`.
pub open spec fn entry_at(list: Seq<Option<TokenStates>>, k: int, entry: TokenStates) -> bool {
    list[k] matches Some(found) && found.token@ == entry.token@ && found.states@ == entry.states@
}

/// Whether the table `list` holds the token and the path of `entry`.
pub open spec fn holds_entry(list: Seq<Option<TokenStates>>, entry: TokenStates) -> bool {
    exists|k: int| 0 <= k < list.len() && entry_at(list, k, entry)
}

/// A table of `size` empty slots.
fn empty_slots(size: usize) -> (list: Vec<Option<TokenStates>>)
    requires
        0 < size <= MAX_SLOTS,
    ensures
        list@.len() == size,
        forall|i: int| 0 <= i < size ==> list@[i] is None,
        slots_ok(list@),
{
    let mut list: Vec<Option<TokenStates>> = Vec::new();
    let mut i: usize = 0;
    while i < size
        invariant
            0 <= i <= size,
            list@.len() == i,
            forall|j: int| 0 <= j < i ==> list@[j] is None,
        decreases size - i,
    {
        list.push(None);
        i += 1;
    }
    list
}

/// Whether two paths are the same.
fn same_path(a: &Vec<usize>, b: &Vec<usize>) -> (r: bool)
    ensures
        r == (a@ == b@),
{
    if a.len() != b.len() {
        return false;
    }
    let mut i: usize = 0;
    while i < a.len()
        invariant
            0 <= i <= a@.len(),
            a@.len() == b@.len(),
            forall|j: int| 0 <= j < i ==> a@[j] == b@[j],
        decreases a@.len() - i,
    {
        if a[i] != b[i] {
            return false;
        }
        i += 1;
    }
    assert(a@ =~= b@);
    true
}

} // verus!
