//! The instruction tokens of the machine, and the specification of how a
//! source text maps to a token sequence.

use vstd::prelude::*;

verus! {

/// One instruction of the fixed eight-instruction alphabet. Each variant
/// corresponds one-to-one with a single source character.
#[derive(Clone, Copy, PartialEq, Eq, Structural, Debug)]
pub enum BrainfuckToken {
    /// `>`: move the data pointer one cell to the right.
    IncMemoryPointer,
    /// `<`: move the data pointer one cell to the left.
    DecMemoryPointer,
    /// `+`: increment the current cell, wrapping modulo 256.
    IncMemory,
    /// `-`: decrement the current cell, wrapping modulo 256.
    DecMemory,
    /// `.`: emit the current cell to the output.
    Output,
    /// `,`: read one byte of input into the current cell.
    Input,
    /// `[`: record the following address on the address stack.
    LoopStart,
    /// `]`: jump back while the current cell is non-zero.
    LoopEnd,
}

/// The fixed character-to-token table: the token a character maps to, or
/// `None` for a character outside the instruction alphabet.
pub open spec fn token_of(c: char) -> Option<BrainfuckToken> {
    if c == '<' {
        Some(BrainfuckToken::DecMemoryPointer)
    } else if c == '>' {
        Some(BrainfuckToken::IncMemoryPointer)
    } else if c == '+' {
        Some(BrainfuckToken::IncMemory)
    } else if c == '-' {
        Some(BrainfuckToken::DecMemory)
    } else if c == '.' {
        Some(BrainfuckToken::Output)
    } else if c == ',' {
        Some(BrainfuckToken::Input)
    } else if c == '[' {
        Some(BrainfuckToken::LoopStart)
    } else if c == ']' {
        Some(BrainfuckToken::LoopEnd)
    } else {
        None
    }
}

/// Whether a character belongs to the instruction alphabet.
pub open spec fn is_instruction_char(c: char) -> bool {
    token_of(c) is Some
}

/// The token sequence of a source text: each character that maps to a token
/// contributes that token, in source order; every other character is dropped.
pub open spec fn tokens_of(s: Seq<char>) -> Seq<BrainfuckToken>
    decreases s.len(),
{
    if s.len() == 0 {
        Seq::empty()
    } else {
        let rest = tokens_of(s.drop_last());
        match token_of(s.last()) {
            Some(t) => rest.push(t),
            None => rest,
        }
    }
}

/// Appending one character appends its token, or nothing.
pub proof fn lemma_tokens_of_push(s: Seq<char>, c: char)
    ensures
        tokens_of(s.push(c)) == (match token_of(c) {
            Some(t) => tokens_of(s).push(t),
            None => tokens_of(s),
        }),
{
    assert(s.push(c).drop_last() =~= s);
    assert(s.push(c).last() == c);
}

/// Law: the tokenizer yields exactly one token per character of the
/// instruction alphabet, so the number of tokens equals the number of
/// instruction characters in the source; all other characters are dropped
/// and do not disturb the count.
pub proof fn lemma_token_count(s: Seq<char>)
    ensures
        tokens_of(s).len() == s.filter(|c: char| is_instruction_char(c)).len(),
    decreases s.len(),
{
    reveal(Seq::filter);
    if s.len() == 0 {
    } else {
        lemma_token_count(s.drop_last());
    }
}

} // verus!
