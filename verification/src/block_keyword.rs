//! Scope markers: the pairs of tokens and of delimiters that open and
//! close a block.

use vstd::prelude::*;
use crate::keyword::Keyword;
use crate::text::same_text;
use crate::token::TokenKind;

verus! {

/// The marker under which `do` opens a block and `end` closes it.
pub const DO: &'static str = "do";

pub const END: &'static str = "end";

/// The marker under which parentheses open and close a block.
pub const OPEN_PAREN: &'static str = "(";

pub const CLOSE_PAREN: &'static str = ")";

pub const OPEN_BRACKET: &'static str = "[";

pub const CLOSE_BRACKET: &'static str = "]";

pub const OPEN_BRACE: &'static str = "{";

pub const CLOSE_BRACE: &'static str = "}";

/// Whether a token of kind `kind` opens a block under the marker `mark`:
/// the `do` keyword under `"do"`, an opening parenthesis under `"("`.
pub open spec fn opens_block(kind: TokenKind, mark: Seq<char>) -> bool {
    ||| kind == TokenKind::Keyword(Keyword::Do) && mark == DO@
    ||| kind == TokenKind::OpenParen && mark == OPEN_PAREN@
}

/// Whether a token of kind `kind` closes a block under the marker `mark`:
/// the `end` keyword under `"do"`, a closing parenthesis under `"("`.
pub open spec fn closes_block(kind: TokenKind, mark: Seq<char>) -> bool {
    ||| kind == TokenKind::Keyword(Keyword::End) && mark == DO@
    ||| kind == TokenKind::CloseParen && mark == OPEN_PAREN@
}

/// Tests whether a token of kind `token_kind` opens a block under
/// `begin_mark`.
pub fn match_block_begin(token_kind: &TokenKind, begin_mark: &str) -> (opens: bool)
    ensures
        opens == opens_block(*token_kind, begin_mark@),
{
    (*token_kind == TokenKind::Keyword(Keyword::Do) && same_text(begin_mark, DO))
        || (*token_kind == TokenKind::OpenParen && same_text(begin_mark, OPEN_PAREN))
}

/// Tests whether a token of kind `token_kind` closes a block under
/// `begin_mark`.
pub fn match_block_end(token_kind: &TokenKind, begin_mark: &str) -> (closes: bool)
    ensures
        closes == closes_block(*token_kind, begin_mark@),
{
    (*token_kind == TokenKind::Keyword(Keyword::End) && same_text(begin_mark, DO))
        || (*token_kind == TokenKind::CloseParen && same_text(begin_mark, OPEN_PAREN))
}

/// The delimiter that closes `open`, for the three bracket pairs.
pub open spec fn closing_of(open: char) -> Option<char> {
    if open == '(' {
        Some(')')
    } else if open == '[' {
        Some(']')
    } else if open == '{' {
        Some('}')
    } else {
        None
    }
}

/// Gives the delimiter that closes `open`.
pub fn end_character(open: char) -> (close: Option<char>)
    ensures
        close == closing_of(open),
{
    if open == '(' {
        Some(')')
    } else if open == '[' {
        Some(']')
    } else if open == '{' {
        Some('}')
    } else {
        None
    }
}

} // verus!
