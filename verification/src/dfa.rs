//! The automata of the lexical categories: keywords and identifiers,
//! numbers, comparison operators, separators and arithmetic operators.

use vstd::prelude::*;
use crate::token::Token;

verus! {

/// The column of any letter that has no column of its own.
pub const ALPHA: char = '\u{1}';

/// The column of any digit.
pub const DIGIT: char = '\u{2}';

/// A deterministic automaton: for each state a row that gives, for each
/// character of the alphabet, the next state; for each state but the start
/// state whether it accepts; and the tokens, each with the path of states
/// that yields it. A path that begins with the start state stands for every
/// path with the same last state.
#[derive(Debug, PartialEq)]
pub struct Dfa {
    pub dfa: Vec<Vec<Option<usize>>>,
    pub accepting: Vec<bool>,
    pub alphabet: Vec<char>,
    pub token_map: Option<Vec<(Token, Vec<usize>)>>,
}

/// An automaton as a mathematical value: its rows, its accepting bits, its
/// alphabet, and its tokens by kind, each with its path.
pub struct DfaView {
    pub rows: Seq<Seq<Option<usize>>>,
    pub accepting: Seq<bool>,
    pub alphabet: Seq<char>,
    pub tokens: Seq<(nat, Seq<usize>)>,
}

/// The rows `rows` as mathematical values.
pub open spec fn rows_view(rows: Seq<Vec<Option<usize>>>) -> Seq<Seq<Option<usize>>> {
    Seq::new(rows.len(), |i: int| rows[i]@)
}

/// The tokens `tokens` by kind, each with its path.
pub open spec fn paths_view(tokens: Seq<(Token, Vec<usize>)>) -> Seq<(nat, Seq<usize>)> {
    Seq::new(tokens.len(), |i: int| (tokens[i].0.kind(), tokens[i].1@))
}

impl View for Dfa {
    type V = DfaView;

    open spec fn view(&self) -> DfaView {
        DfaView {
            rows: rows_view(self.dfa@),
            accepting: self.accepting@,
            alphabet: self.alphabet@,
            tokens: match self.token_map {
                Some(map) => paths_view(map@),
                None => Seq::empty(),
            },
        }
    }
}

/// A row of `width` entries without a transition.
pub open spec fn no_row(width: nat) -> Seq<Option<usize>> {
    Seq::new(width, |i: int| None)
}

/// The automaton of numbers.
pub open spec fn number_dfa() -> DfaView {
    DfaView {
        rows: seq![
            seq![Some(1usize), None, None, Some(2usize), None, None],
            seq![Some(1usize), None, None, Some(6usize), None, None],
            seq![None, None, None, None, None, None],
            seq![Some(3usize), None, None, None, Some(4usize), Some(4usize)],
            seq![Some(5usize), Some(7usize), Some(7usize), None, None, None],
            seq![Some(5usize), None, None, None, None, None],
            seq![Some(3usize), None, None, None, None, None],
            seq![Some(5usize), None, None, None, None, None],
        ],
        accepting: seq![true, true, true, false, true, false, false],
        alphabet: seq![DIGIT, '-', '+', '.', 'E', 'e'],
        tokens: seq![
            (Token::Tint(0).kind(), seq![1usize]),
            (Token::Speriod.kind(), seq![2usize]),
            (2nat, seq![0usize, 3usize]),
            (2nat, seq![0usize, 5usize]),
        ],
    }
}

/// The automaton of the assignment and the comparison operators.
pub open spec fn comparator_dfa() -> DfaView {
    DfaView {
        rows: seq![
            seq![Some(1usize), Some(3usize), Some(5usize)],
            seq![Some(2usize), None, None],
            seq![None, None, None],
            seq![Some(2usize), None, Some(4usize)],
            seq![None, None, None],
            seq![Some(2usize), None, None],
        ],
        accepting: seq![true, true, true, true, true],
        alphabet: seq!['=', '<', '>'],
        tokens: seq![
            (Token::Oassign.kind(), seq![1usize]),
            (Token::Oequal.kind(), seq![1usize, 2usize]),
            (Token::Olt.kind(), seq![3usize]),
            (Token::Olte.kind(), seq![3usize, 2usize]),
            (Token::Ogt.kind(), seq![5usize]),
            (Token::Ogte.kind(), seq![5usize, 2usize]),
            (Token::Onot.kind(), seq![3usize, 4usize]),
        ],
    }
}

/// The automaton of the separators.
pub open spec fn separator_dfa() -> DfaView {
    DfaView {
        rows: seq![
            seq![Some(1usize), Some(2usize), Some(3usize), Some(4usize), Some(5usize), Some(6usize)],
            no_row(6),
            no_row(6),
            no_row(6),
            no_row(6),
            no_row(6),
            no_row(6),
        ],
        accepting: seq![true, true, true, true, true, true],
        alphabet: seq![';', ',', '(', ')', '[', ']'],
        tokens: seq![
            (Token::Ssemicolon.kind(), seq![1usize]),
            (Token::Scomma.kind(), seq![2usize]),
            (Token::Soparen.kind(), seq![3usize]),
            (Token::Scparen.kind(), seq![4usize]),
            (Token::Sobracket.kind(), seq![5usize]),
            (Token::Scbracket.kind(), seq![6usize]),
        ],
    }
}

/// The automaton of the arithmetic operators.
pub open spec fn operator_dfa() -> DfaView {
    DfaView {
        rows: seq![
            seq![Some(1usize), Some(2usize), Some(3usize), Some(4usize), Some(5usize)],
            no_row(5),
            no_row(5),
            no_row(5),
            no_row(5),
            no_row(5),
        ],
        accepting: seq![true, true, true, true, true],
        alphabet: seq!['+', '-', '*', '/', '%'],
        tokens: seq![
            (Token::Oplus.kind(), seq![1usize]),
            (Token::Ominus.kind(), seq![2usize]),
            (Token::Omultiply.kind(), seq![3usize]),
            (Token::Odivide.kind(), seq![4usize]),
            (Token::Omod.kind(), seq![5usize]),
        ],
    }
}

/// The characters of `s` as a vector.
fn chars_of(s: &str) -> (v: Vec<char>)
    ensures
        v@ == s@,
{
    let mut v: Vec<char> = Vec::new();
    let n = s.unicode_len();
    let mut i: usize = 0;
    while i < n
        invariant
            0 <= i <= n,
            n == s@.len(),
            v@ == s@.take(i as int),
        decreases n - i,
    {
        v.push(s.get_char(i));
        assert(v@ =~= s@.take(i + 1));
        i += 1;
    }
    assert(s@.take(n as int) =~= s@);
    v
}

/// The keywords, each with its token.
pub fn keywords() -> (list: Vec<(Vec<char>, Token)>)
    ensures
        list@.len() == 16,
        forall|i: int| 0 <= i < list@.len() ==> (#[trigger] list@[i]).0@ == list@[i].1.spelling(),
        forall|i: int|
            0 <= i < list@.len() ==> (#[trigger] list@[i]).1.kind() == keyword_kinds()[i],
        words_view(list@) == keyword_words(),
{
    let mut list: Vec<(Vec<char>, Token)> = Vec::new();
    list.push((chars_of("if"), Token::Kif));
    list.push((chars_of("then"), Token::Kthen));
    list.push((chars_of("fi"), Token::Kfi));
    list.push((chars_of("else"), Token::Kelse));
    list.push((chars_of("while"), Token::Kwhile));
    list.push((chars_of("do"), Token::Kdo));
    list.push((chars_of("od"), Token::Kod));
    list.push((chars_of("def"), Token::Kdef));
    list.push((chars_of("fed"), Token::Kfed));
    list.push((chars_of("return"), Token::Kreturn));
    list.push((chars_of("and"), Token::Kand));
    list.push((chars_of("or"), Token::Kor));
    list.push((chars_of("not"), Token::Knot));
    list.push((chars_of("int"), Token::Kint));
    list.push((chars_of("double"), Token::Kdouble));
    list.push((chars_of("print"), Token::Kprint));
    assert(words_view(list@) =~= keyword_words());
    list
}

/// The keywords `list` as mathematical values, each with the kind of its
/// token.
pub open spec fn words_view(list: Seq<(Vec<char>, Token)>) -> Seq<(Seq<char>, nat)> {
    Seq::new(list.len(), |i: int| (list[i].0@, list[i].1.kind()))
}

/// The keywords, each with the kind of its token.
pub open spec fn keyword_words() -> Seq<(Seq<char>, nat)> {
    seq![
        ("if"@, Token::Kif.kind()),
        ("then"@, Token::Kthen.kind()),
        ("fi"@, Token::Kfi.kind()),
        ("else"@, Token::Kelse.kind()),
        ("while"@, Token::Kwhile.kind()),
        ("do"@, Token::Kdo.kind()),
        ("od"@, Token::Kod.kind()),
        ("def"@, Token::Kdef.kind()),
        ("fed"@, Token::Kfed.kind()),
        ("return"@, Token::Kreturn.kind()),
        ("and"@, Token::Kand.kind()),
        ("or"@, Token::Kor.kind()),
        ("not"@, Token::Knot.kind()),
        ("int"@, Token::Kint.kind()),
        ("double"@, Token::Kdouble.kind()),
        ("print"@, Token::Kprint.kind()),
    ]
}

/// The alphabet `alphabet` with the characters of `lists` from character
/// `c` of list `d` on, each once, in the order in which they first occur.
pub open spec fn merged(lists: Seq<Seq<char>>, d: int, c: int, alphabet: Seq<char>) -> Seq<char>
    decreases lists.len() - d, lists[d].len() - c,
{
    if d < 0 || d >= lists.len() || c < 0 {
        alphabet
    } else if c >= lists[d].len() {
        merged(lists, d + 1, 0, alphabet)
    } else if alphabet.contains(lists[d][c]) {
        merged(lists, d, c + 1, alphabet)
    } else {
        merged(lists, d, c + 1, alphabet.push(lists[d][c]))
    }
}

/// The spellings of the keywords `words`.
pub open spec fn spellings(words: Seq<(Seq<char>, nat)>) -> Seq<Seq<char>> {
    Seq::new(words.len(), |k: int| words[k].0)
}

/// The row of the start state of the automaton of keywords and
/// identifiers over `width` columns: on the underscore, a letter or `E` it
/// leaves for state 1, on a digit it does not leave, and on a character of
/// a keyword it leaves for the state of the character, two below its
/// column.
pub open spec fn start_row(width: nat) -> Seq<Option<usize>> {
    Seq::new(
        width,
        |c: int|
            if c == 2 {
                None
            } else if c < 4 {
                Some(1usize)
            } else {
                Some((c - 2) as usize)
            },
    )
}

/// The rows and the path after the characters of `word` from place `j` on
/// were spelled out: each character with a state of its own is entered from
/// the state of the character before it, which joins the path; the state of
/// the last character ends the path.
pub open spec fn spelled(
    rows: Seq<Seq<Option<usize>>>,
    alphabet: Seq<char>,
    word: Seq<char>,
    j: int,
    prev: Option<usize>,
    path: Seq<usize>,
) -> (Seq<Seq<Option<usize>>>, Seq<usize>)
    decreases word.len() - j,
{
    if j < 0 || j >= word.len() {
        (
            rows,
            match prev {
                Some(p) => path.push(p),
                None => path,
            },
        )
    } else {
        let k = column(alphabet, word[j]);
        if 4 <= k < alphabet.len() {
            let state = (k - 2) as usize;
            match prev {
                Some(p) => spelled(
                    rows.update(p as int, rows[p as int].update(k, Some(state))),
                    alphabet,
                    word,
                    j + 1,
                    Some(state),
                    path.push(p),
                ),
                None => spelled(rows, alphabet, word, j + 1, Some(state), path),
            }
        } else {
            spelled(rows, alphabet, word, j + 1, prev, path)
        }
    }
}

/// The rows and the tokens after the keywords `words` from place `k` on
/// were spelled out, each the token of its path.
pub open spec fn keyed(
    rows: Seq<Seq<Option<usize>>>,
    tokens: Seq<(nat, Seq<usize>)>,
    alphabet: Seq<char>,
    words: Seq<(Seq<char>, nat)>,
    k: int,
) -> (Seq<Seq<Option<usize>>>, Seq<(nat, Seq<usize>)>)
    decreases words.len() - k,
{
    if k < 0 || k >= words.len() {
        (rows, tokens)
    } else {
        let word = spelled(rows, alphabet, words[k].0, 0, None, Seq::empty());
        keyed(
            word.0,
            if word.1.len() > 0 {
                tokens.push((words[k].1, word.1))
            } else {
                tokens
            },
            alphabet,
            words,
            k + 1,
        )
    }
}

/// The automaton of keywords and identifiers. Its alphabet is the
/// underscore, the columns of letters and digits, `E`, and each character
/// of a keyword. Every state but the start state accepts and leaves for
/// state 1, the state of identifiers, but where a keyword goes on; each
/// state stands for an identifier under the path of the start state and
/// itself, and the path of a keyword for the keyword.
pub open spec fn keyword_dfa() -> DfaView {
    let alphabet = merged(spellings(keyword_words()), 0, 0, seq!['_', ALPHA, DIGIT, 'E']);
    let width = alphabet.len();
    let count = (width - 2) as nat;
    let spelled_out = keyed(
        Seq::new(
            count,
            |s: int|
                if s == 0 {
                    start_row(width)
                } else {
                    Seq::new(width, |c: int| Some(1usize))
                },
        ),
        Seq::new((count - 1) as nat, |a: int| (0nat, seq![0usize, (a + 1) as usize])),
        alphabet,
        keyword_words(),
        0,
    );
    DfaView {
        rows: spelled_out.0,
        accepting: Seq::new((count - 1) as nat, |a: int| true),
        alphabet,
        tokens: spelled_out.1,
    }
}

/// The kinds of the keywords in the order of the list of keywords.
pub open spec fn keyword_kinds() -> Seq<nat> {
    seq![
        Token::Kif.kind(),
        Token::Kthen.kind(),
        Token::Kfi.kind(),
        Token::Kelse.kind(),
        Token::Kwhile.kind(),
        Token::Kdo.kind(),
        Token::Kod.kind(),
        Token::Kdef.kind(),
        Token::Kfed.kind(),
        Token::Kreturn.kind(),
        Token::Kand.kind(),
        Token::Kor.kind(),
        Token::Knot.kind(),
        Token::Kint.kind(),
        Token::Kdouble.kind(),
        Token::Kprint.kind(),
    ]
}

/// The first place of `c` in `alphabet`; the length of the alphabet where
/// it has none.
pub open spec fn column(alphabet: Seq<char>, c: char) -> int
    decreases alphabet.len(),
{
    if alphabet.len() == 0 {
        0
    } else if alphabet[0] == c {
        0
    } else {
        1 + column(alphabet.drop_first(), c)
    }
}

/// The first place of a character is the place before which the alphabet
/// lacks it.
pub proof fn lemma_column(alphabet: Seq<char>, c: char, i: int)
    requires
        0 <= i <= alphabet.len(),
        forall|j: int| 0 <= j < i ==> alphabet[j] != c,
        i < alphabet.len() ==> alphabet[i] == c,
    ensures
        column(alphabet, c) == i,
    decreases alphabet.len(),
{
    if alphabet.len() > 0 && i > 0 {
        let rest = alphabet.drop_first();
        assert forall|j: int| 0 <= j < i - 1 implies rest[j] != c by {
            assert(rest[j] == alphabet[j + 1]);
        }
        lemma_column(rest, c, i - 1);
    }
}

/// The place of `c` in `alphabet`, where it has one.
pub fn position(alphabet: &Vec<char>, c: char) -> (r: Option<usize>)
    ensures
        r matches Some(i) ==> i < alphabet@.len() && alphabet@[i as int] == c && forall|j: int|
            0 <= j < i ==> alphabet@[j] != c,
        r is None ==> !alphabet@.contains(c),
        r matches Some(i) ==> i == column(alphabet@, c),
        r is None ==> column(alphabet@, c) == alphabet@.len(),
{
    let mut i: usize = 0;
    while i < alphabet.len()
        invariant
            0 <= i <= alphabet@.len(),
            forall|j: int| 0 <= j < i ==> alphabet@[j] != c,
        decreases alphabet@.len() - i,
    {
        if alphabet[i] == c {
            proof {
                lemma_column(alphabet@, c, i as int);
            }
            return Some(i);
        }
        i += 1;
    }
    proof {
        lemma_column(alphabet@, c, alphabet@.len() as int);
    }
    None
}

/// A row of `width` entries that all lead to `target`.
fn row_to(target: Option<usize>, width: usize) -> (row: Vec<Option<usize>>)
    ensures
        row@.len() == width,
        forall|i: int| 0 <= i < width ==> row@[i] == target,
        target is None ==> row@ == no_row(width as nat),
{
    let mut row: Vec<Option<usize>> = Vec::new();
    let mut i: usize = 0;
    while i < width
        invariant
            0 <= i <= width,
            row@.len() == i,
            forall|j: int| 0 <= j < i ==> row@[j] == target,
        decreases width - i,
    {
        row.push(target);
        i += 1;
    }
    assert(target is None ==> row@ =~= no_row(width as nat));
    row
}

/// Whether every row of the automaton spans the alphabet and leads to
/// states of the automaton, every state but the start state says whether it
/// accepts, and every path of a token is a path of states.
pub open spec fn dfa_wf(d: Dfa) -> bool {
    &&& d.dfa@.len() >= 1
    &&& d.accepting@.len() == d.dfa@.len() - 1
    &&& forall|s: int| 0 <= s < d.dfa@.len() ==> (#[trigger] d.dfa@[s])@.len() == d.alphabet@.len()
    &&& forall|s: int, c: int|
        0 <= s < d.dfa@.len() && 0 <= c < d.alphabet@.len() ==> (
        #[trigger] d.dfa@[s]@[c] matches Some(t) ==> t < d.dfa@.len())
    &&& d.token_map matches Some(map) ==> forall|i: int, j: int|
        0 <= i < map@.len() && 0 <= j < map@[i].1@.len() ==> #[trigger] map@[i].1@[j] < d.dfa@.len()
}

/// Whether `d` has the shape of the automaton of keywords and
/// identifiers: its alphabet begins with the underscore, the columns of
/// letters and digits and `E`, and holds no character twice; each further
/// character has a state of its own, two below its column; every state but
/// the start state accepts; the start state leaves on a character for the
/// state of the character, on the underscore, a letter or `E` for state 1,
/// and not on a digit; any other state leaves on a character for the state
/// of the character or for state 1; and each state but the start state
/// stands for an identifier under the path of the start state and itself.
pub open spec fn keyword_dfa_shape(d: Dfa) -> bool {
    let width = d.alphabet@.len();
    &&& width >= 4
    &&& d.alphabet@[0] == '_'
    &&& d.alphabet@[1] == ALPHA
    &&& d.alphabet@[2] == DIGIT
    &&& d.alphabet@[3] == 'E'
    &&& forall|i: int, j: int| 0 <= i < j < width ==> d.alphabet@[i] != d.alphabet@[j]
    &&& d.dfa@.len() == width - 2
    &&& d.accepting@.len() == width - 3
    &&& forall|i: int| 0 <= i < d.accepting@.len() ==> d.accepting@[i]
    &&& forall|c: int|
        0 <= c < width ==> #[trigger] d.dfa@[0]@[c] == (if c == 2 {
            None
        } else if c < 4 {
            Some(1usize)
        } else {
            Some((c - 2) as usize)
        })
    &&& forall|s: int, c: int|
        1 <= s < d.dfa@.len() && 0 <= c < width ==> (#[trigger] d.dfa@[s]@[c] == Some(1usize) || (c
            >= 4 && d.dfa@[s]@[c] == Some((c - 2) as usize)))
    &&& d.token_map matches Some(map) && map@.len() >= width - 3 && forall|i: int|
        0 <= i < width - 3 ==> (#[trigger] map@[i]).0.kind() == 0 && map@[i].1@ == seq![
            0usize,
            (i + 1) as usize,
        ]
}

/// The automaton of keywords and identifiers. Its alphabet is the
/// underscore, the columns of letters and digits, `E`, and each character of
/// a keyword. State 1 accepts identifiers; each character of a keyword has a
/// state of its own, which is entered from the start state and from the
/// state of the character before it in a keyword, and which any other
/// character of an identifier leaves for state 1. A keyword is the token of
/// the path of the states of its characters; an identifier is the token of
/// every other path.
pub fn get_keyword_identifier_dfa() -> (d: Dfa)
    ensures
        dfa_wf(d),
        keyword_dfa_shape(d),
        d@ == keyword_dfa(),
{
    let mut key_id_alphabet: Vec<char> = Vec::new();
    key_id_alphabet.push('_');
    key_id_alphabet.push(ALPHA);
    key_id_alphabet.push(DIGIT);
    key_id_alphabet.push('E');
    let mut first_row: Vec<Option<usize>> = Vec::new();
    first_row.push(Some(1));
    first_row.push(Some(1));
    first_row.push(None);
    first_row.push(Some(1));
    let words = keywords();
    let ghost lists = spellings(keyword_words());
    let ghost alphabet = merged(lists, 0, 0, seq!['_', ALPHA, DIGIT, 'E']);
    assert(key_id_alphabet@ =~= seq!['_', ALPHA, DIGIT, 'E']);
    let mut k: usize = 0;
    while k < words.len()
        invariant
            words_view(words@) == keyword_words(),
            lists == spellings(keyword_words()),
            alphabet == merged(lists, k as int, 0, key_id_alphabet@),
            0 <= k <= words@.len(),
            key_id_alphabet@.len() >= 4,
            key_id_alphabet@[0] == '_',
            key_id_alphabet@[1] == ALPHA,
            key_id_alphabet@[2] == DIGIT,
            key_id_alphabet@[3] == 'E',
            forall|i: int, j: int|
                0 <= i < j < key_id_alphabet@.len() ==> key_id_alphabet@[i] != key_id_alphabet@[j],
            first_row@.len() == key_id_alphabet@.len(),
            forall|c: int|
                0 <= c < first_row@.len() ==> #[trigger] first_row@[c] == (if c == 2 {
                    None
                } else if c < 4 {
                    Some(1usize)
                } else {
                    Some((c - 2) as usize)
                }),
        decreases words@.len() - k,
    {
        let mut j: usize = 0;
        assert(lists[k as int] == words_view(words@)[k as int].0);
        while j < words[k].0.len()
            invariant
                lists[k as int] == words@[k as int].0@,
                lists.len() == words@.len(),
                alphabet == merged(lists, k as int, j as int, key_id_alphabet@),
                0 <= k < words@.len(),
                0 <= j <= words@[k as int].0@.len(),
                key_id_alphabet@.len() >= 4,
                key_id_alphabet@[0] == '_',
                key_id_alphabet@[1] == ALPHA,
                key_id_alphabet@[2] == DIGIT,
                key_id_alphabet@[3] == 'E',
                forall|i: int, j: int|
                    0 <= i < j < key_id_alphabet@.len() ==> key_id_alphabet@[i]
                        != key_id_alphabet@[j],
                first_row@.len() == key_id_alphabet@.len(),
                forall|c: int|
                    0 <= c < first_row@.len() ==> #[trigger] first_row@[c] == (if c == 2 {
                        None
                    } else if c < 4 {
                        Some(1usize)
                    } else {
                        Some((c - 2) as usize)
                    }),
            decreases words@[k as int].0@.len() - j,
        {
            let c = words[k].0[j];
            if position(&key_id_alphabet, c).is_none() {
                let state = key_id_alphabet.len() - 2;
                key_id_alphabet.push(c);
                first_row.push(Some(state));
            }
            j += 1;
        }
        k += 1;
    }
    let width = key_id_alphabet.len();
    let count = width - 2;
    assert(first_row@ =~= start_row(width as nat));
    let mut key_id_states: Vec<Vec<Option<usize>>> = Vec::new();
    key_id_states.push(first_row);
    let mut s: usize = 1;
    while s < count
        invariant
            1 <= s <= count,
            count == width - 2,
            width == key_id_alphabet@.len(),
            width >= 4,
            key_id_states@.len() == s,
            key_id_states@[0] == first_row,
            first_row@.len() == width,
            forall|r: int| 0 <= r < s ==> (#[trigger] key_id_states@[r])@.len() == width,
            forall|r: int, c: int|
                1 <= r < s && 0 <= c < width ==> #[trigger] key_id_states@[r]@[c] == Some(1usize),
        decreases count - s,
    {
        key_id_states.push(row_to(Some(1), width));
        s += 1;
    }
    let mut key_id_accepting: Vec<bool> = Vec::new();
    let mut key_id_token_map: Vec<(Token, Vec<usize>)> = Vec::new();
    let mut i: usize = 1;
    while i < count
        invariant
            1 <= i <= count,
            key_id_accepting@.len() == i - 1,
            forall|a: int| 0 <= a < key_id_accepting@.len() ==> key_id_accepting@[a],
            key_id_token_map@.len() == i - 1,
            forall|a: int|
                0 <= a < i - 1 ==> (#[trigger] key_id_token_map@[a]).0.kind() == 0
                    && key_id_token_map@[a].1@ == seq![0usize, (a + 1) as usize],
            forall|a: int, b: int|
                0 <= a < key_id_token_map@.len() && 0 <= b < key_id_token_map@[a].1@.len()
                    ==> #[trigger] key_id_token_map@[a].1@[b] < count,
        decreases count - i,
    {
        key_id_accepting.push(true);
        let mut path: Vec<usize> = Vec::new();
        path.push(0);
        path.push(i);
        assert(path@ =~= seq![0usize, i]);
        key_id_token_map.push((Token::Identifier(String::new()), path));
        i += 1;
    }
    let ghost whole = keyed(
        rows_view(key_id_states@),
        paths_view(key_id_token_map@),
        alphabet,
        keyword_words(),
        0,
    );
    proof {
        assert(rows_view(key_id_states@) =~= Seq::new(
            count as nat,
            |s: int|
                if s == 0 {
                    start_row(width as nat)
                } else {
                    Seq::new(width as nat, |c: int| Some(1usize))
                },
        )) by {
            assert forall|r: int| 1 <= r < count implies key_id_states@[r]@ =~= Seq::new(
                width as nat,
                |c: int| Some(1usize),
            ) by {}
        }
        assert(paths_view(key_id_token_map@) =~= Seq::new(
            (count - 1) as nat,
            |a: int| (0nat, seq![0usize, (a + 1) as usize]),
        ));
        assert(key_id_accepting@ =~= Seq::new((count - 1) as nat, |a: int| true));
    }
    let mut k: usize = 0;
    while k < words.len()
        invariant
            words_view(words@) == keyword_words(),
            key_id_alphabet@ == alphabet,
            whole == keyed(
                rows_view(key_id_states@),
                paths_view(key_id_token_map@),
                alphabet,
                keyword_words(),
                k as int,
            ),
            0 <= k <= words@.len(),
            count == width - 2,
            width == key_id_alphabet@.len(),
            width >= 4,
            key_id_states@.len() == count,
            key_id_states@[0]@ == first_row@,
            forall|r: int| 0 <= r < count ==> (#[trigger] key_id_states@[r])@.len() == width,
            forall|r: int, c: int|
                1 <= r < count && 0 <= c < width ==> (#[trigger] key_id_states@[r]@[c] == Some(
                    1usize,
                ) || (c >= 4 && key_id_states@[r]@[c] == Some((c - 2) as usize))),
            key_id_token_map@.len() >= width - 3,
            forall|a: int|
                0 <= a < width - 3 ==> (#[trigger] key_id_token_map@[a]).0.kind() == 0
                    && key_id_token_map@[a].1@ == seq![0usize, (a + 1) as usize],
            forall|a: int, b: int|
                0 <= a < key_id_token_map@.len() && 0 <= b < key_id_token_map@[a].1@.len()
                    ==> #[trigger] key_id_token_map@[a].1@[b] < count,
        decreases words@.len() - k,
    {
        let word = &words[k].0;
        let mut state_transitions: Vec<usize> = Vec::new();
        let mut prev_state: Option<usize> = None;
        let mut j: usize = 0;
        let ghost spelled_out = spelled(
            rows_view(key_id_states@),
            alphabet,
            word@,
            0,
            None,
            Seq::empty(),
        );
        assert(word@ == words_view(words@)[k as int].0);
        while j < word.len()
            invariant
                key_id_alphabet@ == alphabet,
                spelled_out == spelled(
                    rows_view(key_id_states@),
                    alphabet,
                    word@,
                    j as int,
                    prev_state,
                    state_transitions@,
                ),
                0 <= j <= word@.len(),
                count == width - 2,
                width == key_id_alphabet@.len(),
                width >= 4,
                key_id_states@.len() == count,
                key_id_states@[0]@ == first_row@,
                forall|r: int| 0 <= r < count ==> (#[trigger] key_id_states@[r])@.len() == width,
                forall|r: int, c: int|
                    1 <= r < count && 0 <= c < width ==> (#[trigger] key_id_states@[r]@[c] == Some(
                        1usize,
                    ) || (c >= 4 && key_id_states@[r]@[c] == Some((c - 2) as usize))),
                prev_state matches Some(p) ==> 2 <= p < count,
                forall|b: int| 0 <= b < state_transitions@.len() ==> state_transitions@[b] < count,
            decreases word@.len() - j,
        {
            if let Some(char_index) = position(&key_id_alphabet, word[j]) {
                if char_index >= 4 {
                    let state = char_index - 2;
                    if let Some(prev) = prev_state {
                        let ghost before = key_id_states@;
                        key_id_states[prev][char_index] = Some(state);
                        proof {
                            assert(rows_view(key_id_states@) =~= rows_view(before).update(
                                prev as int,
                                rows_view(before)[prev as int].update(char_index as int, Some(state)),
                            )) by {
                                assert forall|r: int| 0 <= r < count && r != prev implies key_id_states@[r]
                                    == before[r] by {}
                            }
                            assert forall|r: int, c: int|
                                1 <= r < count && 0 <= c < width implies (
                            #[trigger] key_id_states@[r]@[c] == Some(1usize) || (c >= 4
                                && key_id_states@[r]@[c] == Some((c - 2) as usize))) by {
                                if r != prev {
                                    assert(key_id_states@[r] == before[r]);
                                } else if c != char_index {
                                    assert(key_id_states@[r]@[c] == before[r]@[c]);
                                }
                            }
                            assert forall|r: int| 0 <= r < count implies (
                            #[trigger] key_id_states@[r])@.len() == width by {
                                if r != prev {
                                    assert(key_id_states@[r] == before[r]);
                                }
                            }
                            assert(key_id_states@[0] == before[0]);
                        }
                        state_transitions.push(prev);
                    }
                    prev_state = Some(state);
                }
            }
            j += 1;
        }
        if let Some(prev) = prev_state {
            state_transitions.push(prev);
        }
        assert(state_transitions@ == spelled_out.1);
        assert(words[k as int].1.kind() == words_view(words@)[k as int].1);
        if state_transitions.len() > 0 {
            let ghost before = key_id_token_map@;
            key_id_token_map.push((words[k].1.clone(), state_transitions));
            assert(paths_view(key_id_token_map@) =~= paths_view(before).push(
                (keyword_words()[k as int].1, spelled_out.1),
            ));
        }
        k += 1;
    }
    let d = Dfa {
        dfa: key_id_states,
        accepting: key_id_accepting,
        alphabet: key_id_alphabet,
        token_map: Some(key_id_token_map),
    };
    proof {
        assert forall|s: int, c: int|
            0 <= s < d.dfa@.len() && 0 <= c < d.alphabet@.len() implies (
        #[trigger] d.dfa@[s]@[c] matches Some(t) ==> t < d.dfa@.len()) by {
            if s == 0 {
                assert(d.dfa@[0]@[c] == first_row@[c]);
            }
        }
        assert forall|c: int| 0 <= c < width implies #[trigger] d.dfa@[0]@[c] == (if c == 2 {
            None
        } else if c < 4 {
            Some(1usize)
        } else {
            Some((c - 2) as usize)
        }) by {
            assert(d.dfa@[0]@[c] == first_row@[c]);
        }
    }
    d
}

/// A row with the entries `entries`.
fn row(entries: &[Option<usize>]) -> (r: Vec<Option<usize>>)
    ensures
        r@ == entries@,
{
    let mut r: Vec<Option<usize>> = Vec::new();
    let mut i: usize = 0;
    while i < entries.len()
        invariant
            0 <= i <= entries@.len(),
            r@ == entries@.take(i as int),
        decreases entries@.len() - i,
    {
        r.push(entries[i]);
        assert(r@ =~= entries@.take(i + 1));
        i += 1;
    }
    assert(entries@.take(entries@.len() as int) =~= entries@);
    r
}

/// The automaton of numbers: an integer is a run of digits; a decimal
/// number is a run of digits, a dot and a run of digits, and may go on with
/// an exponent: `E` or `e`, a sign or none, and a run of digits. A dot alone
/// is the period.
pub fn get_number_dfa() -> (d: Dfa)
    ensures
        dfa_wf(d),
        d@ == number_dfa(),
{
    let alphabet: Vec<char> = vec![DIGIT, '-', '+', '.', 'E', 'e'];
    let states: Vec<Vec<Option<usize>>> = vec![
        row(&[Some(1), None, None, Some(2), None, None]),
        row(&[Some(1), None, None, Some(6), None, None]),
        row(&[None, None, None, None, None, None]),
        row(&[Some(3), None, None, None, Some(4), Some(4)]),
        row(&[Some(5), Some(7), Some(7), None, None, None]),
        row(&[Some(5), None, None, None, None, None]),
        row(&[Some(3), None, None, None, None, None]),
        row(&[Some(5), None, None, None, None, None]),
    ];
    let accepting: Vec<bool> = vec![true, true, true, false, true, false, false];
    let token_map: Vec<(Token, Vec<usize>)> = vec![
        (Token::Tint(0), vec![1]),
        (Token::Speriod, vec![2]),
        (Token::Tdouble(String::new()), vec![0, 3]),
        (Token::Tdouble(String::new()), vec![0, 5]),
    ];
    let d = Dfa { dfa: states, accepting, alphabet, token_map: Some(token_map) };
    proof {
        assert(d@.rows =~~= number_dfa().rows);
        assert(d@.accepting =~= number_dfa().accepting);
        assert(d@.alphabet =~= number_dfa().alphabet);
        assert(d@.tokens =~~= number_dfa().tokens);
    }
    d
}

/// The automaton of the assignment and the comparison operators.
pub fn get_comparator_dfa() -> (d: Dfa)
    ensures
        dfa_wf(d),
        d@ == comparator_dfa(),
{
    let alphabet: Vec<char> = vec!['=', '<', '>'];
    let states: Vec<Vec<Option<usize>>> = vec![
        row(&[Some(1), Some(3), Some(5)]),
        row(&[Some(2), None, None]),
        row(&[None, None, None]),
        row(&[Some(2), None, Some(4)]),
        row(&[None, None, None]),
        row(&[Some(2), None, None]),
    ];
    let accepting: Vec<bool> = vec![true, true, true, true, true];
    let token_map: Vec<(Token, Vec<usize>)> = vec![
        (Token::Oassign, vec![1]),
        (Token::Oequal, vec![1, 2]),
        (Token::Olt, vec![3]),
        (Token::Olte, vec![3, 2]),
        (Token::Ogt, vec![5]),
        (Token::Ogte, vec![5, 2]),
        (Token::Onot, vec![3, 4]),
    ];
    let d = Dfa { dfa: states, accepting, alphabet, token_map: Some(token_map) };
    proof {
        assert(d@.rows =~~= comparator_dfa().rows);
        assert(d@.accepting =~= comparator_dfa().accepting);
        assert(d@.alphabet =~= comparator_dfa().alphabet);
        assert(d@.tokens =~~= comparator_dfa().tokens);
    }
    d
}

/// The automaton of the separators.
pub fn get_separator_dfa() -> (d: Dfa)
    ensures
        dfa_wf(d),
        d@ == separator_dfa(),
{
    let alphabet: Vec<char> = vec![';', ',', '(', ')', '[', ']'];
    let states: Vec<Vec<Option<usize>>> = vec![
        row(&[Some(1), Some(2), Some(3), Some(4), Some(5), Some(6)]),
        row_to(None, 6),
        row_to(None, 6),
        row_to(None, 6),
        row_to(None, 6),
        row_to(None, 6),
        row_to(None, 6),
    ];
    let accepting: Vec<bool> = vec![true, true, true, true, true, true];
    let token_map: Vec<(Token, Vec<usize>)> = vec![
        (Token::Ssemicolon, vec![1]),
        (Token::Scomma, vec![2]),
        (Token::Soparen, vec![3]),
        (Token::Scparen, vec![4]),
        (Token::Sobracket, vec![5]),
        (Token::Scbracket, vec![6]),
    ];
    let d = Dfa { dfa: states, accepting, alphabet, token_map: Some(token_map) };
    proof {
        assert(d@.rows =~~= separator_dfa().rows);
        assert(d@.accepting =~= separator_dfa().accepting);
        assert(d@.alphabet =~= separator_dfa().alphabet);
        assert(d@.tokens =~~= separator_dfa().tokens);
    }
    d
}

/// The automaton of the arithmetic operators.
pub fn get_operator_dfa() -> (d: Dfa)
    ensures
        dfa_wf(d),
        d@ == operator_dfa(),
{
    let alphabet: Vec<char> = vec!['+', '-', '*', '/', '%'];
    let states: Vec<Vec<Option<usize>>> = vec![
        row(&[Some(1), Some(2), Some(3), Some(4), Some(5)]),
        row_to(None, 5),
        row_to(None, 5),
        row_to(None, 5),
        row_to(None, 5),
        row_to(None, 5),
    ];
    let accepting: Vec<bool> = vec![true, true, true, true, true];
    let token_map: Vec<(Token, Vec<usize>)> = vec![
        (Token::Oplus, vec![1]),
        (Token::Ominus, vec![2]),
        (Token::Omultiply, vec![3]),
        (Token::Odivide, vec![4]),
        (Token::Omod, vec![5]),
    ];
    let d = Dfa { dfa: states, accepting, alphabet, token_map: Some(token_map) };
    proof {
        assert(d@.rows =~~= operator_dfa().rows);
        assert(d@.accepting =~= operator_dfa().accepting);
        assert(d@.alphabet =~= operator_dfa().alphabet);
        assert(d@.tokens =~~= operator_dfa().tokens);
    }
    d
}

/// The automata of the lexical categories of the language as mathematical
/// values: keywords and identifiers, numbers, comparison operators,
/// separators, arithmetic operators.
pub open spec fn language_automata() -> Seq<DfaView> {
    seq![keyword_dfa(), number_dfa(), comparator_dfa(), separator_dfa(), operator_dfa()]
}

/// The automata `dfas` as mathematical values.
pub open spec fn dfas_view(dfas: Seq<Dfa>) -> Seq<DfaView> {
    Seq::new(dfas.len(), |d: int| dfas[d]@)
}

/// Automata of the language are the automata of the language.
pub proof fn lemma_language_automata(dfas: Seq<Dfa>)
    requires
        language_dfas(dfas),
    ensures
        dfas_view(dfas) == language_automata(),
{
    assert(dfas_view(dfas) =~= language_automata());
}

/// Whether `dfas` are the automata of the lexical categories of the
/// language: keywords and identifiers, numbers, comparison operators,
/// separators, arithmetic operators.
pub open spec fn language_dfas(dfas: Seq<Dfa>) -> bool {
    &&& dfas.len() == 5
    &&& forall|i: int| 0 <= i < dfas.len() ==> dfa_wf(#[trigger] dfas[i])
    &&& keyword_dfa_shape(dfas[0])
    &&& dfas[0]@ == keyword_dfa()
    &&& dfas[1]@ == number_dfa()
    &&& dfas[2]@ == comparator_dfa()
    &&& dfas[3]@ == separator_dfa()
    &&& dfas[4]@ == operator_dfa()
}

/// The automata of the lexical categories: keywords and identifiers,
/// numbers, comparison operators, separators, arithmetic operators.
pub fn get_constant_dfas() -> (dfas: Vec<Dfa>)
    ensures
        language_dfas(dfas@),
{
    let mut dfas: Vec<Dfa> = Vec::new();
    dfas.push(get_keyword_identifier_dfa());
    dfas.push(get_number_dfa());
    dfas.push(get_comparator_dfa());
    dfas.push(get_separator_dfa());
    dfas.push(get_operator_dfa());
    dfas
}

} // verus!
