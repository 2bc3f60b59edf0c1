//! The double buffer of the lexer: two buffers that hold consecutive chunks
//! of the input, a sentinel at the start of the lexeme and one at the
//! character read next.

use vstd::prelude::*;
use vstd::string::StrSliceExecFns;
use crate::text::push_char;
use crate::token::{InvalidToken, LexicalError, ParsedToken, Token, TokenView};
use crate::table_model::TransitionView;
use crate::transition_table::TransitionTable;

verus! {

/// Size of each buffer.
pub const BUFFER_SIZE: usize = 1024;

/// The byte of `input` at place `i`; zero, which ends the input, beyond its
/// end.
pub open spec fn byte_at(input: Seq<u8>, i: int) -> u8 {
    if 0 <= i < input.len() {
        input[i]
    } else {
        0
    }
}

/// Whether the byte is white space: a tab, a line feed, a vertical tab, a
/// form feed, a carriage return, a space, a next-line or a no-break space.
pub open spec fn is_space(c: u8) -> bool {
    c == 9 || c == 10 || c == 11 || c == 12 || c == 13 || c == 32 || c == 0x85 || c == 0xA0
}

/// Whether the byte is white space.
pub fn is_whitespace(c: u8) -> (r: bool)
    ensures
        r == is_space(c),
{
    c == 9 || c == 10 || c == 11 || c == 12 || c == 13 || c == 32 || c == 0x85 || c == 0xA0
}

/// What the lexer is passing over.
#[derive(Debug, PartialEq, Eq, Clone, Copy, Structural)]
pub enum SkipMode {
    /// White space between tokens.
    Code,
    /// A comment that ends with its line.
    Line,
    /// A comment that ends with `*/`.
    Block,
}

/// Where the lexer stands after it passed over white space and comments:
/// the place of the next character, the start of the chunk in the buffer of
/// the lexeme, and the number of lines read.
pub struct Skipped {
    pub pos: int,
    pub base: int,
    pub lines: int,
}

/// The start of the chunk in the buffer of the lexeme after the lexeme
/// moved to `pos`: the next chunk where `pos` lies beyond the chunk at
/// `base`.
pub open spec fn rebase(base: int, pos: int, size: int) -> int {
    if pos >= base + size {
        base + size
    } else {
        base
    }
}

/// Passes over white space and comments from place `pos` on. A comment
/// begins with `//` and ends with its line, or begins with `/*` and ends
/// with `*/`; each line feed counts as a line; the end of the input ends
/// everything.
pub open spec fn skip(input: Seq<u8>, size: int, pos: int, base: int, mode: SkipMode, lines: int) -> Skipped
    decreases input.len() - pos,
{
    let c = byte_at(input, pos);
    let next = byte_at(input, pos + 1);
    let counted = if c == 10 {
        lines + 1
    } else {
        lines
    };
    if c == 0 {
        Skipped { pos, base, lines }
    } else {
        match mode {
            SkipMode::Line => skip(
                input,
                size,
                pos + 1,
                rebase(base, pos + 1, size),
                if c == 10 {
                    SkipMode::Code
                } else {
                    SkipMode::Line
                },
                counted,
            ),
            SkipMode::Block => if c == 42 && next == 47 {
                skip(input, size, pos + 2, rebase(base, pos + 2, size), SkipMode::Code, lines)
            } else {
                skip(input, size, pos + 1, rebase(base, pos + 1, size), SkipMode::Block, counted)
            },
            SkipMode::Code => if c == 47 && next == 47 {
                skip(input, size, pos + 2, rebase(base, pos + 2, size), SkipMode::Line, lines)
            } else if c == 47 && next == 42 {
                skip(input, size, pos + 2, rebase(base, pos + 2, size), SkipMode::Block, lines)
            } else if is_space(c) {
                skip(input, size, pos + 1, rebase(base, pos + 1, size), SkipMode::Code, counted)
            } else {
                Skipped { pos, base, lines }
            },
        }
    }
}

/// Where the automaton stands after it read as far as it could: the place
/// it stopped at, the state reached, the states passed through, each once
/// where it repeats, and the place and the path of the last accepting
/// state, where it passed one.
pub struct Scanned {
    pub end: int,
    pub state: usize,
    pub path: Seq<usize>,
    pub accepted: Option<(int, Seq<usize>)>,
}

/// The path `path` after the state `next` was entered.
pub open spec fn path_with(path: Seq<usize>, next: usize) -> Seq<usize> {
    if path.len() == 0 || path.last() != next {
        path.push(next)
    } else {
        path
    }
}

/// Runs the automaton of `table` from place `pos` in state `state`, as long
/// as the next character has a transition, the input goes on and `limit`
/// is not reached, and keeps the last accepting state it enters.
pub open spec fn scan(
    table: TransitionView,
    input: Seq<u8>,
    pos: int,
    state: usize,
    path: Seq<usize>,
    accepted: Option<(int, Seq<usize>)>,
    limit: int,
) -> Scanned
    decreases limit - pos,
{
    let c = byte_at(input, pos);
    if pos >= limit || c == 0 {
        Scanned { end: pos, state, path, accepted }
    } else {
        match table.next_state(state, c as char) {
            Some(next) => scan(
                table,
                input,
                pos + 1,
                next,
                path_with(path, next),
                if next < table.accepting.len() && table.accepting[next as int] {
                    Some((pos + 1, path_with(path, next)))
                } else {
                    accepted
                },
                limit,
            ),
            None => Scanned { end: pos, state, path, accepted },
        }
    }
}

/// The characters of the input from place `from` to place `to`.
pub open spec fn slice_text(input: Seq<u8>, from: int, to: int) -> Seq<char> {
    Seq::new((to - from) as nat, |i: int| byte_at(input, from + i) as char)
}

/// The value of the decimal numeral `text`, where it is one.
pub open spec fn decimal_value(text: Seq<char>) -> Option<nat>
    decreases text.len(),
{
    if text.len() == 0 {
        None
    } else {
        let digit = text.last() as u32;
        if digit < 0x30 || digit > 0x39 {
            None
        } else if text.len() == 1 {
            Some((digit - 0x30) as nat)
        } else {
            match decimal_value(text.drop_last()) {
                Some(rest) => Some(rest * 10 + (digit - 0x30) as nat),
                None => None,
            }
        }
    }
}

/// The token of kind `kind` that the lexeme `lexeme` stands for: an
/// identifier or a decimal literal carries the lexeme, an integer literal
/// its value, which must fit in 32 bits; any other token is its kind alone.
pub open spec fn token_for(kind: nat, lexeme: Seq<char>) -> Option<TokenView> {
    if kind == 0 {
        Some(TokenView { kind: 0, name: lexeme, value: 0 })
    } else if kind == 1 {
        match decimal_value(lexeme) {
            Some(v) => if v <= u32::MAX {
                Some(TokenView { kind: 1, name: Seq::empty(), value: v as u32 })
            } else {
                None
            },
            None => None,
        }
    } else if kind == 2 {
        Some(TokenView { kind: 2, name: lexeme, value: 0 })
    } else {
        Some(TokenView { kind, name: Seq::empty(), value: 0 })
    }
}

/// What the lexer finds next.
pub enum Lexed {
    /// A token, on a line.
    Token(TokenView, int),
    /// Text that is no token, on a line.
    Invalid(Seq<char>, int),
    /// The end of the input.
    End,
}

/// What the lexer finds at a place, and where it stands after it.
pub struct LexStep {
    pub found: Lexed,
    pub pos: int,
    pub base: int,
    pub lines: int,
}

/// The next step of the lexer from place `pos`: it passes over white space
/// and comments and lets the automaton read as far as it follows the input
/// within the two buffers. The lexeme ends where the automaton last entered
/// an accepting state; it is the token of its path, or invalid text where
/// the path has none. Where the automaton entered no accepting state, all
/// it read is invalid text; where it follows no character, that character
/// alone is.
pub open spec fn lex_step(
    table: TransitionView,
    input: Seq<u8>,
    size: int,
    pos: int,
    base: int,
    lines: int,
) -> LexStep {
    let start = skip(input, size, pos, base, SkipMode::Code, lines);
    if byte_at(input, start.pos) == 0 {
        LexStep { found: Lexed::End, pos: start.pos, base: start.base, lines: start.lines }
    } else {
        let scanned = scan(
            table,
            input,
            start.pos,
            0,
            Seq::empty(),
            None,
            start.base + 2 * size - 1,
        );
        let line = start.lines + 1;
        if scanned.end == start.pos {
            LexStep {
                found: Lexed::Invalid(slice_text(input, start.pos, start.pos + 1), line),
                pos: start.pos + 1,
                base: rebase(start.base, start.pos + 1, size),
                lines: start.lines,
            }
        } else {
            match scanned.accepted {
                Some((end, path)) => {
                    let lexeme = slice_text(input, start.pos, end);
                    LexStep {
                        found: match table.lookup(path) {
                            Some(kind) => match token_for(kind, lexeme) {
                                Some(token) => Lexed::Token(token, line),
                                None => Lexed::Invalid(lexeme, line),
                            },
                            None => Lexed::Invalid(lexeme, line),
                        },
                        pos: end,
                        base: rebase(start.base, end, size),
                        lines: start.lines,
                    }
                },
                None => LexStep {
                    found: Lexed::Invalid(slice_text(input, start.pos, scanned.end), line),
                    pos: scanned.end,
                    base: rebase(start.base, scanned.end, size),
                    lines: start.lines,
                },
            }
        }
    }
}

/// Where the lexer stands after white space and comments does not depend
/// on the buffers, but for the chunk that the buffer of the lexeme holds.
pub proof fn lemma_skip_any_buffers(
    input: Seq<u8>,
    size1: int,
    base1: int,
    size2: int,
    base2: int,
    pos: int,
    mode: SkipMode,
    lines: int,
)
    ensures
        skip(input, size1, pos, base1, mode, lines).pos == skip(
            input,
            size2,
            pos,
            base2,
            mode,
            lines,
        ).pos,
        skip(input, size1, pos, base1, mode, lines).lines == skip(
            input,
            size2,
            pos,
            base2,
            mode,
            lines,
        ).lines,
    decreases input.len() - pos,
{
    let c = byte_at(input, pos);
    let next = byte_at(input, pos + 1);
    let counted = if c == 10 {
        lines + 1
    } else {
        lines
    };
    if c != 0 {
        match mode {
            SkipMode::Line => {
                lemma_skip_any_buffers(
                    input,
                    size1,
                    rebase(base1, pos + 1, size1),
                    size2,
                    rebase(base2, pos + 1, size2),
                    pos + 1,
                    if c == 10 {
                        SkipMode::Code
                    } else {
                        SkipMode::Line
                    },
                    counted,
                );
            },
            SkipMode::Block => {
                if c == 42 && next == 47 {
                    lemma_skip_any_buffers(
                        input,
                        size1,
                        rebase(base1, pos + 2, size1),
                        size2,
                        rebase(base2, pos + 2, size2),
                        pos + 2,
                        SkipMode::Code,
                        lines,
                    );
                } else {
                    lemma_skip_any_buffers(
                        input,
                        size1,
                        rebase(base1, pos + 1, size1),
                        size2,
                        rebase(base2, pos + 1, size2),
                        pos + 1,
                        SkipMode::Block,
                        counted,
                    );
                }
            },
            SkipMode::Code => {
                if c == 47 && next == 47 {
                    lemma_skip_any_buffers(
                        input,
                        size1,
                        rebase(base1, pos + 2, size1),
                        size2,
                        rebase(base2, pos + 2, size2),
                        pos + 2,
                        SkipMode::Line,
                        lines,
                    );
                } else if c == 47 && next == 42 {
                    lemma_skip_any_buffers(
                        input,
                        size1,
                        rebase(base1, pos + 2, size1),
                        size2,
                        rebase(base2, pos + 2, size2),
                        pos + 2,
                        SkipMode::Block,
                        lines,
                    );
                } else if is_space(c) {
                    lemma_skip_any_buffers(
                        input,
                        size1,
                        rebase(base1, pos + 1, size1),
                        size2,
                        rebase(base2, pos + 1, size2),
                        pos + 1,
                        SkipMode::Code,
                        counted,
                    );
                }
            },
        }
    }
}

/// A comment that is not closed ends with the input.
pub proof fn lemma_unclosed_comment(input: Seq<u8>, size: int, pos: int, base: int, lines: int)
    requires
        forall|i: int| pos <= i ==> !(byte_at(input, i) == 42 && #[trigger] byte_at(input, i + 1) == 47),
    ensures
        byte_at(input, skip(input, size, pos, base, SkipMode::Block, lines).pos) == 0,
    decreases input.len() - pos,
{
    let c = byte_at(input, pos);
    if c != 0 {
        assert(!(byte_at(input, pos) == 42 && byte_at(input, pos + 1) == 47));
        lemma_unclosed_comment(
            input,
            size,
            pos + 1,
            rebase(base, pos + 1, size),
            if c == 10 {
                lines + 1
            } else {
                lines
            },
        );
    }
}

/// An automaton that stops before a limit stops at the same place before
/// any limit farther on.
pub proof fn lemma_scan_any_limit(
    table: TransitionView,
    input: Seq<u8>,
    pos: int,
    state: usize,
    path: Seq<usize>,
    accepted: Option<(int, Seq<usize>)>,
    limit1: int,
    limit2: int,
)
    requires
        limit1 <= limit2,
        scan(table, input, pos, state, path, accepted, limit1).end < limit1,
    ensures
        scan(table, input, pos, state, path, accepted, limit2) == scan(
            table,
            input,
            pos,
            state,
            path,
            accepted,
            limit1,
        ),
    decreases limit1 - pos,
{
    let c = byte_at(input, pos);
    if pos < limit1 && c != 0 {
        match table.next_state(state, c as char) {
            Some(next) => {
                lemma_scan_any_limit(
                    table,
                    input,
                    pos + 1,
                    next,
                    path_with(path, next),
                    if next < table.accepting.len() && table.accepting[next as int] {
                        Some((pos + 1, path_with(path, next)))
                    } else {
                        accepted
                    },
                    limit1,
                    limit2,
                );
            },
            None => {},
        }
    }
}

/// What the lexer finds, and where, does not depend on the size of the
/// buffers as long as the automaton stops before their end: a token that
/// lies across two buffers is the token that lies in one.
pub proof fn lemma_buffers_do_not_matter(
    table: TransitionView,
    input: Seq<u8>,
    size1: int,
    base1: int,
    size2: int,
    base2: int,
    pos: int,
    lines: int,
)
    requires
        ({
            let start1 = skip(input, size1, pos, base1, SkipMode::Code, lines);
            let start2 = skip(input, size2, pos, base2, SkipMode::Code, lines);
            let limit1 = start1.base + 2 * size1 - 1;
            let limit2 = start2.base + 2 * size2 - 1;
            &&& scan(table, input, start1.pos, 0, Seq::empty(), None, limit1).end < limit1
            &&& scan(table, input, start2.pos, 0, Seq::empty(), None, limit2).end < limit2
        }),
    ensures
        lex_step(table, input, size1, pos, base1, lines).found == lex_step(
            table,
            input,
            size2,
            pos,
            base2,
            lines,
        ).found,
        lex_step(table, input, size1, pos, base1, lines).pos == lex_step(
            table,
            input,
            size2,
            pos,
            base2,
            lines,
        ).pos,
        lex_step(table, input, size1, pos, base1, lines).lines == lex_step(
            table,
            input,
            size2,
            pos,
            base2,
            lines,
        ).lines,
{
    lemma_skip_any_buffers(input, size1, base1, size2, base2, pos, SkipMode::Code, lines);
    let start1 = skip(input, size1, pos, base1, SkipMode::Code, lines);
    let start2 = skip(input, size2, pos, base2, SkipMode::Code, lines);
    let limit1 = start1.base + 2 * size1 - 1;
    let limit2 = start2.base + 2 * size2 - 1;
    if limit1 <= limit2 {
        lemma_scan_any_limit(table, input, start1.pos, 0, Seq::empty(), None, limit1, limit2);
    } else {
        lemma_scan_any_limit(table, input, start1.pos, 0, Seq::empty(), None, limit2, limit1);
    }
}

/// The double buffer with its sentinels, over the input `source`. The
/// buffer of the lexeme holds the chunk of the input that begins at `base`,
/// the other buffer the chunk after it.
#[derive(Debug, PartialEq)]
pub struct TokenBuffer {
    pub buffers: Vec<Vec<u8>>,
    pub lexeme_begin: usize,
    pub forward: usize,
    pub lb_buffer: usize,
    pub f_buffer: usize,
    pub lines_read: usize,
    pub source: Vec<u8>,
    pub base: usize,
}

impl TokenBuffer {
    /// The size of each buffer.
    pub open spec fn size(self) -> int {
        self.buffers@[0]@.len() as int
    }

    /// The place in the input of the start of the lexeme.
    pub open spec fn begin(self) -> int {
        self.base + self.lexeme_begin
    }

    /// The place in the input of the character read next.
    pub open spec fn forward_pos(self) -> int {
        if self.f_buffer == self.lb_buffer {
            self.base + self.forward
        } else {
            self.base + self.size() + self.forward
        }
    }

    /// The buffers hold the two chunks of the input from `base` on, and the
    /// sentinels lie in them, the start of the lexeme not after the
    /// character read next and neither beyond the end of the input.
    pub open spec fn wf(self) -> bool {
        &&& self.buffers@.len() == 2
        &&& self.size() >= 2
        &&& self.buffers@[1]@.len() == self.size()
        &&& self.lexeme_begin < self.size()
        &&& self.forward < self.size()
        &&& self.lb_buffer < 2
        &&& self.f_buffer < 2
        &&& self.source@.len() + 3 * self.size() <= usize::MAX
        &&& self.begin() <= self.forward_pos() <= self.source@.len()
        &&& self.lines_read <= self.begin()
        &&& forall|b: int, i: int|
            0 <= b < 2 && 0 <= i < self.size() ==> #[trigger] self.buffers@[b]@[i] == byte_at(
                self.source@,
                self.base + (if b == self.lb_buffer {
                    0
                } else {
                    self.size()
                }) + i,
            )
    }

    /// A double buffer with buffers of the standard size over an empty
    /// input.
    pub fn new() -> (b: TokenBuffer)
        ensures
            b.wf(),
            b.size() == BUFFER_SIZE,
            b.source@.len() == 0,
            b.begin() == 0,
            b.forward_pos() == 0,
            b.base == 0,
            b.lines_read == 0,
    {
        let b = Self::with_size(BUFFER_SIZE, Vec::new());
        b.unwrap()
    }

    /// A double buffer with buffers of `size` bytes at the start of the
    /// input `source`; none where the buffers are shorter than two bytes or
    /// the input is too long for its places to be counted.
    pub fn with_size(size: usize, source: Vec<u8>) -> (r: Option<TokenBuffer>)
        ensures
            r is Some <==> size >= 2 && source@.len() + 3 * size <= usize::MAX,
            r matches Some(b) ==> b.wf() && b.size() == size && b.source == source && b.begin() == 0
                && b.forward_pos() == 0 && b.base == 0 && b.lines_read == 0,
    {
        if size < 2 || size > usize::MAX / 3 || source.len() > usize::MAX - 3 * size {
            return None;
        }
        let first = chunk(&source, 0, size);
        let second = chunk(&source, size, size);
        let mut buffers: Vec<Vec<u8>> = Vec::new();
        buffers.push(first);
        buffers.push(second);
        Some(
            TokenBuffer {
                buffers,
                lexeme_begin: 0,
                forward: 0,
                lb_buffer: 0,
                f_buffer: 0,
                lines_read: 0,
                source,
                base: 0,
            },
        )
    }

    /// The character read next.
    pub fn get_forward_char(&self) -> (c: char)
        requires
            self.wf(),
        ensures
            c == byte_at(self.source@, self.forward_pos()) as char,
    {
        self.buffers[self.f_buffer][self.forward] as char
    }

    /// The character after the character read next, where the buffers hold
    /// it; the character zero where they do not.
    pub fn get_char_after_forward(&self) -> (c: char)
        requires
            self.wf(),
        ensures
            c == (if self.forward_pos() + 1 < self.base + 2 * self.size() {
                byte_at(self.source@, self.forward_pos() + 1)
            } else {
                0u8
            }) as char,
    {
        let size = self.buffers[0].len();
        let mut next_forward = self.forward + 1;
        let mut next_buffer = self.f_buffer;
        if next_forward == size {
            if self.f_buffer != self.lb_buffer {
                return 0u8 as char;
            }
            next_forward = 0;
            next_buffer = 1 - next_buffer;
        }
        self.buffers[next_buffer][next_forward] as char
    }

    /// Moves the sentinel of the character read next by one and returns
    /// the character there.
    pub fn advance_forward(&mut self) -> (c: char)
        requires
            old(self).wf(),
            old(self).forward_pos() + 1 < old(self).base + 2 * old(self).size(),
            old(self).forward_pos() < old(self).source@.len(),
        ensures
            final(self).wf(),
            final(self).forward_pos() == old(self).forward_pos() + 1,
            final(self).begin() == old(self).begin(),
            final(self).lb_buffer == old(self).lb_buffer,
            final(self).base == old(self).base,
            final(self).size() == old(self).size(),
            final(self).source == old(self).source,
            final(self).lines_read == old(self).lines_read,
            c == byte_at(final(self).source@, final(self).forward_pos()) as char,
    {
        let size = self.buffers[0].len();
        self.forward += 1;
        if self.forward == size {
            self.forward = 0;
            self.f_buffer = 1 - self.f_buffer;
        }
        self.get_forward_char()
    }

    /// Moves both sentinels to place `loc` of the chunk that holds the
    /// character read next, which may lie one place or two beyond the chunk,
    /// and returns the character there. Where the lexeme leaves its buffer,
    /// that buffer takes the chunk after the other one.
    pub fn set_sentinels(&mut self, loc: usize) -> (c: char)
        requires
            old(self).wf(),
            old(self).forward_pos() - old(self).forward + loc < old(self).base + 2 * old(self).size(),
            old(self).begin() <= old(self).forward_pos() - old(self).forward + loc <= old(self).source@.len(),
        ensures
            final(self).wf(),
            final(self).begin() == old(self).forward_pos() - old(self).forward + loc,
            final(self).forward_pos() == final(self).begin(),
            final(self).base == rebase(
                old(self).base as int,
                final(self).begin(),
                old(self).size(),
            ),
            final(self).size() == old(self).size(),
            final(self).source == old(self).source,
            final(self).lines_read == old(self).lines_read,
            c == byte_at(final(self).source@, final(self).begin()) as char,
    {
        let size = self.buffers[0].len();
        let in_other = self.f_buffer != self.lb_buffer;
        let wraps = loc >= size;
        let place = if wraps {
            loc - size
        } else {
            loc
        };
        if in_other || wraps {
            // the lexeme moves to the other buffer
            let vacated = self.lb_buffer;
            self.lb_buffer = 1 - self.lb_buffer;
            self.base = self.base + size;
            let next = chunk(&self.source, self.base + size, size);
            self.buffers[vacated] = next;
        }
        self.lexeme_begin = place;
        self.forward = place;
        self.f_buffer = self.lb_buffer;
        self.get_forward_char()
    }

    /// Moves both sentinels to the character after the character read next.
    pub fn advance_sentinels(&mut self) -> (c: char)
        requires
            old(self).wf(),
            old(self).f_buffer == old(self).lb_buffer,
            old(self).forward_pos() < old(self).source@.len(),
        ensures
            final(self).wf(),
            final(self).begin() == old(self).forward_pos() + 1,
            final(self).forward_pos() == final(self).begin(),
            final(self).base == rebase(
                old(self).base as int,
                final(self).begin(),
                old(self).size(),
            ),
            final(self).size() == old(self).size(),
            final(self).source == old(self).source,
            final(self).lines_read == old(self).lines_read,
            c == byte_at(final(self).source@, final(self).begin()) as char,
    {
        self.set_sentinels(self.forward + 1)
    }

    /// The lexeme between the sentinels, or the character read next where
    /// both are at one place; the start of the lexeme moves to the
    /// character read next.
    pub fn get_lexeme(&mut self) -> (lexeme: String)
        requires
            old(self).wf(),
        ensures
            final(self).wf(),
            lexeme@ == (if old(self).begin() == old(self).forward_pos() {
                slice_text(old(self).source@, old(self).begin(), old(self).begin() + 1)
            } else {
                slice_text(old(self).source@, old(self).begin(), old(self).forward_pos())
            }),
            final(self).begin() == old(self).forward_pos(),
            final(self).forward_pos() == final(self).begin(),
            final(self).base == rebase(
                old(self).base as int,
                final(self).begin(),
                old(self).size(),
            ),
            final(self).size() == old(self).size(),
            final(self).source == old(self).source,
            final(self).lines_read == old(self).lines_read,
    {
        let size = self.buffers[0].len();
        let mut lexeme = String::new();
        let ghost start = self.begin();
        let ghost end = self.forward_pos();
        if self.lb_buffer == self.f_buffer && self.lexeme_begin == self.forward {
            push_char(&mut lexeme, self.get_forward_char());
            assert(lexeme@ =~= slice_text(self.source@, start, start + 1));
        } else {
            let first_end = if self.lb_buffer == self.f_buffer {
                self.forward
            } else {
                size
            };
            let mut i: usize = self.lexeme_begin;
            assert(lexeme@ =~= slice_text(self.source@, start, start));
            while i < first_end
                invariant
                    self.wf(),
                    *self == *old(self),
                    size == self.size(),
                    start == self.begin(),
                    self.lexeme_begin <= i <= first_end <= size,
                    lexeme@ == slice_text(self.source@, start, self.base + i),
                decreases first_end - i,
            {
                push_char(&mut lexeme, self.buffers[self.lb_buffer][i] as char);
                assert(lexeme@ =~= slice_text(self.source@, start, self.base + i + 1));
                i += 1;
            }
            if self.lb_buffer != self.f_buffer {
                let mut j: usize = 0;
                while j < self.forward
                    invariant
                        self.wf(),
                        *self == *old(self),
                        size == self.size(),
                        start == self.begin(),
                        self.lb_buffer != self.f_buffer,
                        0 <= j <= self.forward,
                        lexeme@ == slice_text(self.source@, start, self.base + size + j),
                    decreases self.forward - j,
                {
                    push_char(&mut lexeme, self.buffers[self.f_buffer][j] as char);
                    assert(lexeme@ =~= slice_text(self.source@, start, self.base + size + j + 1));
                    j += 1;
                }
            }
        }
        self.set_sentinels(self.forward);
        lexeme
    }

    /// The byte read next.
    fn forward_byte(&self) -> (c: u8)
        requires
            self.wf(),
        ensures
            c == byte_at(self.source@, self.forward_pos()),
    {
        self.buffers[self.f_buffer][self.forward]
    }

    /// The byte after the byte read next, while the lexeme is empty.
    fn byte_after_forward(&self) -> (c: u8)
        requires
            self.wf(),
            self.f_buffer == self.lb_buffer,
        ensures
            c == byte_at(self.source@, self.forward_pos() + 1),
    {
        let size = self.buffers[0].len();
        if self.forward + 1 == size {
            self.buffers[1 - self.f_buffer][0]
        } else {
            self.buffers[self.f_buffer][self.forward + 1]
        }
    }

    /// Passes over white space and comments.
    fn skip_blanks(&mut self)
        requires
            old(self).wf(),
            old(self).begin() == old(self).forward_pos(),
        ensures
            final(self).wf(),
            final(self).size() == old(self).size(),
            final(self).source == old(self).source,
            final(self).begin() == final(self).forward_pos(),
            final(self).begin() >= old(self).begin(),
            skip(
                old(self).source@,
                old(self).size(),
                old(self).begin(),
                old(self).base as int,
                SkipMode::Code,
                old(self).lines_read as int,
            ) == (Skipped {
                pos: final(self).begin(),
                base: final(self).base as int,
                lines: final(self).lines_read as int,
            }),
    {
        let mut mode = SkipMode::Code;
        loop
            invariant
                self.wf(),
                self.size() == old(self).size(),
                self.source == old(self).source,
                self.begin() == self.forward_pos(),
                self.begin() >= old(self).begin(),
                skip(
                    old(self).source@,
                    old(self).size(),
                    old(self).begin(),
                    old(self).base as int,
                    SkipMode::Code,
                    old(self).lines_read as int,
                ) == skip(
                    self.source@,
                    self.size(),
                    self.begin(),
                    self.base as int,
                    mode,
                    self.lines_read as int,
                ),
            ensures
                self.wf(),
                self.size() == old(self).size(),
                self.source == old(self).source,
                self.begin() == self.forward_pos(),
                self.begin() >= old(self).begin(),
                skip(
                    old(self).source@,
                    old(self).size(),
                    old(self).begin(),
                    old(self).base as int,
                    SkipMode::Code,
                    old(self).lines_read as int,
                ) == (Skipped {
                    pos: self.begin(),
                    base: self.base as int,
                    lines: self.lines_read as int,
                }),
            decreases self.source@.len() - self.begin(),
        {
            let c = self.forward_byte();
            if c == 0 {
                break ;
            }
            let next = self.byte_after_forward();
            match mode {
                SkipMode::Line => {
                    self.advance_sentinels();
                    if c == 10 {
                        mode = SkipMode::Code;
                        self.lines_read += 1;
                    }
                },
                SkipMode::Block => {
                    if c == 42 && next == 47 {
                        mode = SkipMode::Code;
                        self.set_sentinels(self.forward + 2);
                    } else {
                        self.advance_sentinels();
                        if c == 10 {
                            self.lines_read += 1;
                        }
                    }
                },
                SkipMode::Code => {
                    if c == 47 && next == 47 {
                        mode = SkipMode::Line;
                        self.set_sentinels(self.forward + 2);
                    } else if c == 47 && next == 42 {
                        mode = SkipMode::Block;
                        self.set_sentinels(self.forward + 2);
                    } else if is_whitespace(c) {
                        self.advance_sentinels();
                        if c == 10 {
                            self.lines_read += 1;
                        }
                    } else {
                        break ;
                    }
                },
            }
        }
    }

    /// The place in the input of place `forward` of the buffer `f_buffer`.
    pub open spec fn place(self, forward: usize, f_buffer: usize) -> int {
        if f_buffer == self.lb_buffer {
            self.base + forward
        } else {
            self.base + self.size() + forward
        }
    }

    /// Moves the sentinel of the character read next back to place
    /// `forward` of the buffer `f_buffer`.
    fn retract(&mut self, forward: usize, f_buffer: usize)
        requires
            old(self).wf(),
            forward < old(self).size(),
            f_buffer < 2,
            old(self).begin() <= old(self).place(forward, f_buffer) <= old(self).forward_pos(),
        ensures
            final(self).wf(),
            final(self).forward_pos() == old(self).place(forward, f_buffer),
            final(self).begin() == old(self).begin(),
            final(self).base == old(self).base,
            final(self).size() == old(self).size(),
            final(self).source == old(self).source,
            final(self).lines_read == old(self).lines_read,
    {
        self.forward = forward;
        self.f_buffer = f_buffer;
    }

    /// Runs the automaton of `transition_table` over the input from the
    /// character read next on. Returns the path of states and, where the
    /// automaton entered an accepting state, the place in the buffers after
    /// the last such state and the length of the path up to it.
    fn scan_lexeme(&mut self, transition_table: &TransitionTable) -> (r: (
        Vec<usize>,
        Option<(usize, usize, usize)>,
    ))
        requires
            old(self).wf(),
            transition_table.wf(),
            old(self).begin() == old(self).forward_pos(),
        ensures
            final(self).wf(),
            final(self).size() == old(self).size(),
            final(self).source == old(self).source,
            final(self).base == old(self).base,
            final(self).lb_buffer == old(self).lb_buffer,
            final(self).lines_read == old(self).lines_read,
            final(self).begin() == old(self).begin(),
            ({
                let scanned = scan(
                    transition_table@,
                    old(self).source@,
                    old(self).begin(),
                    0,
                    Seq::empty(),
                    None,
                    old(self).base + 2 * old(self).size() - 1,
                );
                &&& scanned.end == final(self).forward_pos()
                &&& scanned.path == r.0@
                &&& match r.1 {
                    Some((forward, f_buffer, length)) => forward < final(self).size() && f_buffer < 2
                        && length <= r.0@.len() && final(self).begin() < final(self).place(
                        forward,
                        f_buffer,
                    ) <= final(self).forward_pos() && scanned.accepted == Some(
                        (final(self).place(forward, f_buffer), r.0@.take(length as int)),
                    ),
                    None => scanned.accepted is None,
                }
            }),
    {
        let size = self.buffers[0].len();
        let mut states: Vec<usize> = Vec::new();
        let mut state: usize = 0;
        let mut best: Option<(usize, usize, usize)> = None;
        let ghost limit = self.base + 2 * self.size() - 1;
        let ghost mut accepted: Option<(int, Seq<usize>)> = None;
        loop
            invariant
                self.wf(),
                transition_table.wf(),
                size == self.size(),
                self.size() == old(self).size(),
                self.source == old(self).source,
                self.base == old(self).base,
                self.lb_buffer == old(self).lb_buffer,
                self.lines_read == old(self).lines_read,
                self.begin() == old(self).begin(),
                limit == self.base + 2 * self.size() - 1,
                self.forward_pos() <= limit,
                state < transition_table.table@.len(),
                match best {
                    Some((forward, f_buffer, length)) => forward < size && f_buffer < 2 && length
                        <= states@.len() && self.begin() < self.place(forward, f_buffer)
                        <= self.forward_pos() && accepted == Some(
                        (self.place(forward, f_buffer), states@.take(length as int)),
                    ),
                    None => accepted is None,
                },
                scan(
                    transition_table@,
                    old(self).source@,
                    old(self).begin(),
                    0,
                    Seq::empty(),
                    None,
                    limit,
                ) == scan(
                    transition_table@,
                    self.source@,
                    self.forward_pos(),
                    state,
                    states@,
                    accepted,
                    limit,
                ),
            ensures
                self.wf(),
                size == self.size(),
                self.size() == old(self).size(),
                self.source == old(self).source,
                self.base == old(self).base,
                self.lb_buffer == old(self).lb_buffer,
                self.lines_read == old(self).lines_read,
                self.begin() == old(self).begin(),
                limit == old(self).base + 2 * old(self).size() - 1,
                match best {
                    Some((forward, f_buffer, length)) => forward < size && f_buffer < 2 && length
                        <= states@.len() && self.begin() < self.place(forward, f_buffer)
                        <= self.forward_pos() && accepted == Some(
                        (self.place(forward, f_buffer), states@.take(length as int)),
                    ),
                    None => accepted is None,
                },
                scan(
                    transition_table@,
                    old(self).source@,
                    old(self).begin(),
                    0,
                    Seq::empty(),
                    None,
                    limit,
                ) == (Scanned { end: self.forward_pos(), state, path: states@, accepted }),
            decreases limit - self.forward_pos(),
        {
            if self.f_buffer != self.lb_buffer && self.forward + 1 == size {
                break ;
            }
            let c = self.forward_byte();
            if c == 0 {
                break ;
            }
            match transition_table.get_next_state(state, c as char) {
                Some(new_state) => {
                    let ghost before = states@;
                    state = new_state;
                    if states.len() == 0 || states[states.len() - 1] != state {
                        states.push(state);
                    }
                    self.advance_forward();
                    proof {
                        assert(states@ == path_with(before, state));
                        if best is Some {
                            let kept = best->0;
                            let length = kept.2 as int;
                            assert(states@.take(length) =~= before.take(length));
                        }
                    }
                    if transition_table.is_accepting(state) {
                        best = Some((self.forward, self.f_buffer, states.len()));
                        proof {
                            accepted = Some((self.forward_pos(), states@));
                            assert(states@.take(states@.len() as int) =~= states@);
                        }
                    }
                },
                None => {
                    break ;
                },
            }
        }
        (states, best)
    }

    /// The next token of the input, with its line; the text that is no
    /// token; or the end of the input.
    pub fn get_next_token(&mut self, transition_table: &TransitionTable) -> (r: Result<
        ParsedToken,
        LexicalError,
    >)
        requires
            old(self).wf(),
            transition_table.wf(),
            old(self).begin() == old(self).forward_pos(),
        ensures
            final(self).wf(),
            final(self).size() == old(self).size(),
            final(self).source == old(self).source,
            final(self).begin() == final(self).forward_pos(),
            ({
                let step = lex_step(
                    transition_table@,
                    old(self).source@,
                    old(self).size(),
                    old(self).begin(),
                    old(self).base as int,
                    old(self).lines_read as int,
                );
                &&& final(self).begin() == step.pos
                &&& final(self).base == step.base
                &&& final(self).lines_read == step.lines
                &&& match step.found {
                    Lexed::Token(token, line) => r matches Ok(parsed) && parsed.token@ == token
                        && parsed.line == line,
                    Lexed::Invalid(lexeme, line) => r matches Err(LexicalError::InvalidTokens(list))
                        && list@.len() == 1 && list@[0].lexeme@ == lexeme && list@[0].line == line,
                    Lexed::End => r == Err::<ParsedToken, LexicalError>(LexicalError::EndOfFile),
                }
                &&& !(step.found is End) ==> step.pos > old(self).begin()
            }),
    {
        self.skip_blanks();
        if self.forward_byte() == 0 {
            return Err(LexicalError::EndOfFile);
        }
        let line = self.lines_read + 1;
        let (states, best) = self.scan_lexeme(transition_table);
        if self.lb_buffer == self.f_buffer && self.lexeme_begin == self.forward {
            let lexeme = self.get_lexeme();
            self.advance_sentinels();
            return Err(LexicalError::InvalidTokens(one_invalid(lexeme, line)));
        }
        let mut states = states;
        match best {
            Some((forward, f_buffer, length)) => {
                self.retract(forward, f_buffer);
                states.truncate(length);
            },
            None => {
                let lexeme = self.get_lexeme();
                return Err(LexicalError::InvalidTokens(one_invalid(lexeme, line)));
            },
        }
        let lexeme = self.get_lexeme();
        match transition_table.get_token(&states) {
            Some(token) => match token {
                Token::Identifier(_) => Ok(ParsedToken { token: Token::Identifier(lexeme), line }),
                Token::Tint(_) => match parse_decimal(lexeme.as_str()) {
                    Some(value) => Ok(ParsedToken { token: Token::Tint(value), line }),
                    None => Err(LexicalError::InvalidTokens(one_invalid(lexeme, line))),
                },
                Token::Tdouble(_) => Ok(ParsedToken { token: Token::Tdouble(lexeme), line }),
                other => Ok(ParsedToken { token: other, line }),
            },
            None => Err(LexicalError::InvalidTokens(one_invalid(lexeme, line))),
        }
    }
}

/// The `size` bytes of `source` from place `start` on, with zeros beyond
/// its end.
fn chunk(source: &Vec<u8>, start: usize, size: usize) -> (r: Vec<u8>)
    requires
        start + size <= usize::MAX,
    ensures
        r@.len() == size,
        forall|i: int| 0 <= i < size ==> #[trigger] r@[i] == byte_at(source@, start + i),
{
    let mut r: Vec<u8> = Vec::new();
    let mut i: usize = 0;
    while i < size
        invariant
            0 <= i <= size,
            start + size <= usize::MAX,
            r@.len() == i,
            forall|j: int| 0 <= j < i ==> #[trigger] r@[j] == byte_at(source@, start + j),
        decreases size - i,
    {
        let place = start + i;
        if place < source.len() {
            r.push(source[place]);
        } else {
            r.push(0);
        }
        i += 1;
    }
    r
}

/// A list with the invalid text `lexeme` of line `line` alone.
fn one_invalid(lexeme: String, line: usize) -> (list: Vec<InvalidToken>)
    ensures
        list@.len() == 1,
        list@[0].lexeme == lexeme,
        list@[0].line == line,
{
    let mut list: Vec<InvalidToken> = Vec::new();
    list.push(InvalidToken { lexeme, line });
    list
}

/// A numeral with a character that is no digit has no value.
proof fn lemma_not_decimal(text: Seq<char>, i: int)
    requires
        0 <= i < text.len(),
        (text[i] as u32) < 0x30 || (text[i] as u32) > 0x39,
    ensures
        decimal_value(text) is None,
    decreases text.len(),
{
    if i < text.len() - 1 {
        lemma_not_decimal(text.drop_last(), i);
    }
}

/// The value of a numeral is no smaller than the value of its beginning.
proof fn lemma_decimal_grows(text: Seq<char>, n: int)
    requires
        1 <= n <= text.len(),
        decimal_value(text) is Some,
    ensures
        decimal_value(text.take(n)) is Some,
        decimal_value(text.take(n))->0 <= decimal_value(text)->0,
    decreases text.len() - n,
{
    if n == text.len() {
        assert(text.take(n) =~= text);
    } else {
        assert(text.drop_last().take(n) =~= text.take(n));
        lemma_decimal_grows(text.drop_last(), n);
    }
}

/// The value of the decimal numeral `text`, where it is one and fits in 32
/// bits.
pub fn parse_decimal(text: &str) -> (r: Option<u32>)
    ensures
        r == (match decimal_value(text@) {
            Some(v) => if v <= u32::MAX {
                Some(v as u32)
            } else {
                None
            },
            None => None,
        }),
{
    let n = text.unicode_len();
    if n == 0 {
        return None;
    }
    let mut value: u32 = 0;
    let mut i: usize = 0;
    while i < n
        invariant
            0 <= i <= n,
            n == text@.len(),
            i > 0 ==> decimal_value(text@.take(i as int)) == Some(value as nat),
            i == 0 ==> value == 0,
        decreases n - i,
    {
        let c = text.get_char(i);
        let code = c as u32;
        if code < 0x30 || code > 0x39 {
            proof {
                lemma_not_decimal(text@, i as int);
            }
            return None;
        }
        let digit = code - 0x30;
        let ghost next = text@.take(i + 1);
        proof {
            assert(next.drop_last() =~= text@.take(i as int));
            assert(next.last() == c);
        }
        let grown = match value.checked_mul(10) {
            Some(product) => product.checked_add(digit),
            None => None,
        };
        match grown {
            Some(sum) => {
                value = sum;
            },
            None => {
                proof {
                    assert(decimal_value(next) matches Some(v) ==> v > u32::MAX);
                    if decimal_value(text@) is Some {
                        lemma_decimal_grows(text@, i + 1);
                    }
                }
                return None;
            },
        }
        i += 1;
    }
    assert(text@.take(n as int) =~= text@);
    Some(value)
}

} // verus!
