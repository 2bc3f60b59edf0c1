//! The lexical phase: the tokens of an input, or the text in it that is no
//! token.

use vstd::prelude::*;
use vstd::string::StringExecFns;
use crate::token::{InvalidToken, LexicalError, ParsedToken, TokenView};
use crate::token_buffer::{lex_step, Lexed, TokenBuffer, BUFFER_SIZE};
use crate::dfa::{language_automata, DfaView};
use crate::table_model::{composition, TransitionView};
use crate::transition_table::{init_transition_table, TransitionTable};

verus! {

/// What an input holds: its tokens and the text in it that is no token,
/// each with its line.
pub struct LexedInput {
    pub tokens: Seq<(TokenView, int)>,
    pub invalid: Seq<(Seq<char>, int)>,
}

/// What the input holds from place `pos` on, read through buffers of `size`
/// bytes.
pub open spec fn lex_all(
    table: TransitionView,
    input: Seq<u8>,
    size: int,
    pos: int,
    base: int,
    lines: int,
) -> LexedInput
    decreases input.len() - pos,
{
    if pos < 0 || pos >= input.len() {
        LexedInput { tokens: Seq::empty(), invalid: Seq::empty() }
    } else {
        let step = lex_step(table, input, size, pos, base, lines);
        if step.pos <= pos || step.pos > input.len() || step.found is End {
            LexedInput { tokens: Seq::empty(), invalid: Seq::empty() }
        } else {
            let rest = lex_all(table, input, size, step.pos, step.base, step.lines);
            match step.found {
                Lexed::Token(token, line) => LexedInput {
                    tokens: seq![(token, line)] + rest.tokens,
                    invalid: rest.invalid,
                },
                Lexed::Invalid(lexeme, line) => LexedInput {
                    tokens: rest.tokens,
                    invalid: seq![(lexeme, line)] + rest.invalid,
                },
                Lexed::End => rest,
            }
        }
    }
}

/// The tokens `tokens` as mathematical values.
pub open spec fn tokens_view(tokens: Seq<ParsedToken>) -> Seq<(TokenView, int)> {
    Seq::new(tokens.len(), |i: int| (tokens[i].token@, tokens[i].line as int))
}

/// The invalid texts `invalid` as mathematical values.
pub open spec fn invalid_view(invalid: Seq<InvalidToken>) -> Seq<(Seq<char>, int)> {
    Seq::new(invalid.len(), |i: int| (invalid[i].lexeme@, invalid[i].line as int))
}

/// Whether the buffers can hold the input: they have two bytes at least,
/// and the places of the input can be counted.
pub open spec fn fits(input: Seq<u8>, size: int) -> bool {
    size >= 2 && input.len() + 3 * size <= usize::MAX
}

/// The result of the lexical phase on `input` with the automaton `table`
/// and buffers of `size` bytes: no tokens of an empty input; the invalid
/// text where there is any; the tokens where there are any and no invalid
/// text.
pub open spec fn lexed_result(table: TransitionView, input: Seq<u8>, size: int, r: Result<
    Vec<ParsedToken>,
    LexicalError,
>) -> bool {
    let all = lex_all(table, input, size, 0, 0, 0);
    if input.len() == 0 {
        r == Err::<Vec<ParsedToken>, LexicalError>(LexicalError::EmptyFile)
    } else if !fits(input, size) {
        r matches Err(LexicalError::FileReadError(_))
    } else if all.invalid.len() > 0 {
        r matches Err(LexicalError::InvalidTokens(list)) && invalid_view(list@) == all.invalid
    } else if all.tokens.len() == 0 {
        r == Err::<Vec<ParsedToken>, LexicalError>(LexicalError::NoValidTokens)
    } else {
        r matches Ok(tokens) && tokens_view(tokens@) == all.tokens
    }
}

/// The tokens of `input`, read with the automaton `table` through buffers
/// of `size` bytes.
pub fn lexical_analysis(input: Vec<u8>, table: &TransitionTable, size: usize) -> (r: Result<
    Vec<ParsedToken>,
    LexicalError,
>)
    requires
        table.wf(),
    ensures
        lexed_result(table@, input@, size as int, r),
{
    if input.len() == 0 {
        return Err(LexicalError::EmptyFile);
    }
    let ghost source = input@;
    let mut token_buffer = match TokenBuffer::with_size(size, input) {
        Some(buffer) => buffer,
        None => {
            return Err(LexicalError::FileReadError(String::from_str("input too large")));
        },
    };
    let mut tokens: Vec<ParsedToken> = Vec::new();
    let mut invalid_tokens: Vec<InvalidToken> = Vec::new();
    let ghost all = lex_all(table@, source, size as int, 0, 0, 0);
    proof {
        assert(tokens_view(tokens@) =~= Seq::empty());
        assert(invalid_view(invalid_tokens@) =~= Seq::empty());
        assert(Seq::<(TokenView, int)>::empty() + all.tokens =~= all.tokens);
        assert(Seq::<(Seq<char>, int)>::empty() + all.invalid =~= all.invalid);
    }
    loop
        invariant
            table.wf(),
            token_buffer.wf(),
            token_buffer.source@ == source,
            token_buffer.size() == size,
            token_buffer.begin() == token_buffer.forward_pos(),
            all == lex_all(table@, source, size as int, 0, 0, 0),
            all.tokens == tokens_view(tokens@) + lex_all(
                table@,
                source,
                size as int,
                token_buffer.begin(),
                token_buffer.base as int,
                token_buffer.lines_read as int,
            ).tokens,
            all.invalid == invalid_view(invalid_tokens@) + lex_all(
                table@,
                source,
                size as int,
                token_buffer.begin(),
                token_buffer.base as int,
                token_buffer.lines_read as int,
            ).invalid,
        ensures
            all.tokens == tokens_view(tokens@),
            all.invalid == invalid_view(invalid_tokens@),
        decreases source.len() - token_buffer.begin(),
    {
        let ghost before_tokens = tokens_view(tokens@);
        let ghost before_invalid = invalid_view(invalid_tokens@);
        let ghost rest = lex_all(
            table@,
            source,
            size as int,
            token_buffer.begin(),
            token_buffer.base as int,
            token_buffer.lines_read as int,
        );
        match token_buffer.get_next_token(table) {
            Ok(token) => {
                tokens.push(token);
                proof {
                    let after = lex_all(
                        table@,
                        source,
                        size as int,
                        token_buffer.begin(),
                        token_buffer.base as int,
                        token_buffer.lines_read as int,
                    );
                    let one = seq![(token.token@, token.line as int)];
                    assert(tokens_view(tokens@) =~= before_tokens + one);
                    assert(before_tokens + (one + after.tokens) =~= (before_tokens + one)
                        + after.tokens);
                }
            },
            Err(e) => match e {
                LexicalError::EndOfFile => {
                    proof {
                        assert(before_tokens + Seq::<(TokenView, int)>::empty() =~= before_tokens);
                        assert(before_invalid + Seq::<(Seq<char>, int)>::empty()
                            =~= before_invalid);
                    }
                    break ;
                },
                LexicalError::InvalidTokens(list) => {
                    let mut list = list;
                    let ghost single = list@[0];
                    invalid_tokens.append(&mut list);
                    proof {
                        let after = lex_all(
                            table@,
                            source,
                            size as int,
                            token_buffer.begin(),
                            token_buffer.base as int,
                            token_buffer.lines_read as int,
                        );
                        let one = seq![(single.lexeme@, single.line as int)];
                        assert(invalid_view(invalid_tokens@) =~= before_invalid + one);
                        assert(before_invalid + (one + after.invalid) =~= (before_invalid + one)
                            + after.invalid);
                    }
                },
                other => {
                    return Err(other);
                },
            },
        }
    }
    if invalid_tokens.len() > 0 {
        return Err(LexicalError::InvalidTokens(invalid_tokens));
    }
    if tokens.len() == 0 {
        return Err(LexicalError::NoValidTokens);
    }
    Ok(tokens)
}

/// The result of the lexical phase on `input` with the table of the
/// automata `dfas` and buffers of the standard size; where the automata do
/// not compose, that the table is invalid.
pub open spec fn lexed_with(dfas: Seq<DfaView>, input: Seq<u8>, r: Result<
    Vec<ParsedToken>,
    LexicalError,
>) -> bool {
    match composition(dfas) {
        Ok(table) => lexed_result(table, input, BUFFER_SIZE as int, r),
        Err(_) => r == Err::<Vec<ParsedToken>, LexicalError>(LexicalError::InvalidTable),
    }
}

/// The tokens of `input`, read with the automaton of the language through
/// buffers of the standard size.
pub fn perform_lexical_analysis(input: Vec<u8>) -> (r: Result<Vec<ParsedToken>, LexicalError>)
    ensures
        input@.len() == 0 ==> r == Err::<Vec<ParsedToken>, LexicalError>(LexicalError::EmptyFile),
        r matches Ok(tokens) ==> tokens@.len() > 0,
        r matches Err(LexicalError::InvalidTokens(list)) ==> list@.len() > 0,
        input@.len() > 0 ==> lexed_with(language_automata(), input@, r),
{
    if input.len() == 0 {
        return Err(LexicalError::EmptyFile);
    }
    let table = match init_transition_table() {
        Ok(table) => table,
        Err(_) => {
            return Err(LexicalError::InvalidTable);
        },
    };
    let r = lexical_analysis(input, &table, BUFFER_SIZE);
    proof {
        if r is Ok {
            assert(tokens_view(r->Ok_0@).len() == r->Ok_0@.len());
        }
        if r is Err && r->Err_0 is InvalidTokens {
            let list = r->Err_0->InvalidTokens_0;
            assert(invalid_view(list@).len() == list@.len());
        }
    }
    r
}

} // verus!
