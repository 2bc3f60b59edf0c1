use cp_compiler::dfa::{get_constant_dfas, get_keyword_identifier_dfa, Dfa, ALPHA, DIGIT};
use cp_compiler::token::Token;
use cp_compiler::transition_table::{
    get_states_hash, init_transition_table, TableError, TokenStates, TransitionTable,
};

fn small_dfa() -> Dfa {
    Dfa {
        dfa: vec![vec![Some(1), None], vec![None, Some(2)], vec![None, None]],
        accepting: vec![false, true],
        alphabet: vec!['a', 'b'],
        token_map: Some(vec![(Token::Kif, vec![1, 2])]),
    }
}

#[test]
fn the_slot_of_a_path_is_its_value_in_base_seven() {
    assert_eq!(get_states_hash(&vec![3, 5], 4), 2);
    assert_eq!(get_states_hash(&vec![3, 5], 100), 38);
    assert_eq!(get_states_hash(&vec![1, 2, 3], 1000), 162);
    assert_eq!(get_states_hash(&vec![6], 5), 1);
    assert_eq!(get_states_hash(&vec![], 5), 0);
    assert_eq!(get_states_hash(&vec![9, 9], 1), 0);
}

#[test]
fn automata_enter_the_table_side_by_side() {
    let first = small_dfa();
    let second = Dfa {
        dfa: vec![vec![Some(1)], vec![Some(1)]],
        accepting: vec![true],
        alphabet: vec![DIGIT],
        token_map: Some(vec![(Token::Tint(0), vec![1])]),
    };
    let table = TransitionTable::init(&vec![first, second]).expect("table");
    assert_eq!(table.table.len(), 4);
    assert_eq!(table.alphabet, vec!['a', 'b', DIGIT]);
    assert_eq!(table.get_next_state(0, 'a'), Some(1));
    assert_eq!(table.get_next_state(1, 'b'), Some(2));
    assert_eq!(table.get_next_state(1, 'a'), None);
    assert_eq!(table.get_next_state(0, '7'), Some(3));
    assert_eq!(table.get_next_state(3, '0'), Some(3));
    assert_eq!(table.get_next_state(0, 'c'), None);
    assert_eq!(table.get_next_state(0, '\0'), None);
    assert_eq!(table.get_next_state(0, '\u{e9}'), None);
    assert_eq!(table.accepting, vec![false, false, true, true]);
    assert!(table.is_accepting(2));
    assert!(!table.is_accepting(1));
    assert_eq!(table.get_token(&vec![1, 2]), Some(Token::Kif));
    assert_eq!(table.get_token(&vec![2]), None);
    assert_eq!(table.get_token(&vec![3]), Some(Token::Tint(0)));
    assert_eq!(table.get_token(&vec![]), None);
    assert_eq!(table.get_token(&vec![9]), None);
}

#[test]
fn letters_and_digits_share_columns() {
    let table = init_transition_table().expect("table");
    let letters = table.get_alphabet_index('x').expect("letters");
    assert_eq!(table.alphabet[letters], ALPHA);
    assert_eq!(table.get_alphabet_index('Q'), Some(letters));
    let digits = table.get_alphabet_index('5').expect("digits");
    assert_eq!(table.alphabet[digits], DIGIT);
    assert_eq!(table.get_alphabet_index('0'), Some(digits));
    let own = table.get_alphabet_index('i').expect("i");
    assert_eq!(table.alphabet[own], 'i');
    assert_eq!(table.get_alphabet_index('#'), None);
    assert_eq!(table.get_alphabet_index(' '), None);
    assert_eq!(table.get_alphabet_index(ALPHA), None);
}

#[test]
fn an_identifier_is_the_token_of_every_path_to_its_state() {
    let table = init_transition_table().expect("table");
    let mut state = 0;
    let mut path = Vec::new();
    for c in "ifx".chars() {
        state = table.get_next_state(state, c).expect("state");
        if path.last() != Some(&state) {
            path.push(state);
        }
    }
    assert_eq!(state, 1);
    assert_eq!(table.get_token(&path), Some(Token::Identifier(String::new())));
    assert_eq!(table.get_token(&path[..2].to_vec()), Some(Token::Kif));
}

#[test]
fn the_automata_of_the_language() {
    let dfas = get_constant_dfas();
    assert_eq!(dfas.len(), 5);
    assert_eq!(&dfas[0].alphabet[..4], &['_', ALPHA, DIGIT, 'E']);
    assert_eq!(dfas[0].dfa.len(), dfas[0].alphabet.len() - 2);
    assert!(dfas[0].accepting.iter().all(|a| *a));
    assert_eq!(dfas[1].accepting, vec![true, true, true, false, true, false, false]);
    assert_eq!(dfas[3].alphabet, vec![';', ',', '(', ')', '[', ']']);
    assert_eq!(dfas[4].dfa[0], vec![Some(1), Some(2), Some(3), Some(4), Some(5)]);
}

#[test]
fn automata_that_do_not_compose() {
    let mut table = TransitionTable::init(&vec![small_dfa()]).expect("table");

    let mut unmarked = small_dfa();
    unmarked.accepting.pop();
    assert_eq!(table.add_dfa(&unmarked, 1), Err(TableError::AcceptingMismatch));

    assert_eq!(TransitionTable::init(&vec![small_dfa(), small_dfa()]), Err(TableError::DuplicateEntry));
    assert_eq!(table.add_dfa(&small_dfa(), 2), Err(TableError::TooManyStates));

    let mut astray = small_dfa();
    astray.dfa[2][0] = Some(3);
    assert_eq!(TransitionTable::init(&vec![astray]), Err(TableError::StateOutOfBounds));

    let mut short = small_dfa();
    short.dfa[1].pop();
    assert_eq!(TransitionTable::init(&vec![short]), Err(TableError::MalformedRow));

    let mut pathless = small_dfa();
    pathless.token_map = Some(vec![(Token::Kif, vec![])]);
    assert_eq!(TransitionTable::init(&vec![pathless]), Err(TableError::EmptyTokenPath));

    let mut twice = small_dfa();
    twice.token_map = Some(vec![(Token::Kif, vec![1, 2]), (Token::Kfi, vec![1, 2])]);
    assert_eq!(TransitionTable::init(&vec![twice]), Err(TableError::DuplicateToken));

    let mut ended = small_dfa();
    ended.alphabet[0] = '\0';
    assert_eq!(TransitionTable::init(&vec![ended]), Err(TableError::NulCharacter));
}

#[test]
fn paths_spread_over_a_larger_table_until_none_collide() {
    let one = TokenStates { token: Token::Kif, states: vec![2, 1] };
    let single = TransitionTable::add_token_state(&None, one.clone()).expect("table");
    assert_eq!(single, vec![Some(one.clone())]);

    let two = TokenStates { token: Token::Kfi, states: vec![4, 1] };
    let both = TransitionTable::add_token_state(&Some(single), two.clone()).expect("table");
    // the values 9 and 11 collide in a table of two slots
    assert_eq!(both.len(), 3);
    assert_eq!(both[0], Some(one));
    assert_eq!(both[2], Some(two));
    assert_eq!(both[1], None);
}

#[test]
fn paths_of_one_value_never_spread() {
    let list = TransitionTable::add_token_state(
        &None,
        TokenStates { token: Token::Kif, states: vec![49, 1] },
    )
    .expect("table");
    assert_eq!(
        TransitionTable::add_token_state(
            &Some(list),
            TokenStates { token: Token::Kfi, states: vec![0, 1, 1] },
        ),
        Err(TableError::UnresolvableCollision)
    );
}

#[test]
fn keywords_are_spelled_out_in_their_automaton() {
    let d = get_keyword_identifier_dfa();
    let letters: String = d.alphabet[4..].iter().collect();
    assert_eq!(letters, "ifthenlswdoruabp");
    assert_eq!(d.dfa[2][5], Some(3));
    assert_eq!(d.dfa[2][4], Some(1));
    let tokens = d.token_map.expect("tokens");
    assert_eq!(tokens.len(), d.dfa.len() - 1 + 16);
    assert_eq!(tokens[0], (Token::Identifier(String::new()), vec![0, 1]));
    assert!(tokens.contains(&(Token::Kif, vec![2, 3])));
    assert!(tokens.contains(&(Token::Kfi, vec![3, 2])));
    assert!(tokens.contains(&(Token::Kwhile, vec![10, 5, 2, 8, 6])));
}
