//! The pattern bank: an ordered list of recognizers, each trying to
//! match a prefix of the remaining input. The first that matches wins.

use vstd::prelude::*;
use crate::error::{Failure, ParseError, ParseErrorKind};
use crate::keyword::Keyword;
use crate::lexeme::Lexeme;
use crate::pattern::{captures_of, parse};
use crate::text::splits_into;
use crate::token::{Collection, LiteralKind, Operator, Span, Token, TokenKind};

verus! {

// The patterns of the recognizers that stand alone, in the order in which
// the tokenizer tries them. Every pattern is anchored at the start of the
// remaining input; its first group is the text of the token, its second
// group the rest of the input.

pub const HASH_MAP: &'static str = "^(=\\s*\\{.*,.*\\}\\n?)(?s)(\\s.*)$";

pub const ARRAY: &'static str = "^(\\[.*,.*\\]\\n?)(?s)(\\s.*)$";

pub const TUPLE: &'static str = "^(\\(.*,.*\\)\\n?)(?s)(\\s.*)$";

pub const DERIVE: &'static str = "^(derive\\(.*\\))(?s)(.*)$";

pub const MACRO_RULES: &'static str = "^(macro_rules!\\s[A-Za-z_0-9]+)(?s)(.*)$";

pub const MACRO: &'static str = "^([A-Za-z_0-9]+!)(?s)(.*)$";

pub const FUNCTION_CALL: &'static str = "^([A-Za-z_0-9]+\\s*\\()(?s)(.*)$";

pub const BORROW: &'static str = "^(borrow\\s)(?s)(.*)$";

pub const OWN: &'static str = "^(own\\s)(?s)(.*)$";

pub const NAMESPACE_SEPARATOR: &'static str = "^(::)(?s)(.*)$";

pub const AS: &'static str = "^(\\sas)(?s)(.*)$";

pub const NOT_OPERATOR: &'static str = "^(not\\s)(?s)(.*)$";

pub const TYPE_WITH_GENERICS: &'static str = "^([A-Za-z0-9]+<.*>\\n?)(?s)(.*)$";

pub const STRING: &'static str = "^(?s)(\".*?\")(.*)$";

pub const IDENTIFIER: &'static str = "^([A-Za-z_0-9]+\\n?)(?s)(\\s|\\(|.*)$";

pub const LINE_COMMENT: &'static str = "^(//.*)(?s)(.*)$";

pub const BLOCK_COMMENT: &'static str = "^(?s)(/\\*.*\\*/)(.*)$";

pub const OPEN_PARENS: &'static str = "^(\\()(?s)(.*)$";

pub const CLOSE_PARENS: &'static str = "^(\\)\\n?)(?s)(.*)$";

pub const DOT: &'static str = "^(\\.)(?s)(.*)$";

pub const COMMA: &'static str = "^(,)(?s)(.*)$";

pub const WHITESPACE: &'static str = "^([[:blank:]]+)(?s)(.*)$";

pub const NEWLINE: &'static str = "^(\\n)(?s)(.*)$";

/// What a recognizer yields, as values: the token, then the text it matched
/// and the text that remains.
pub open spec fn lexed<'a>(found: Option<(Token, (&'a str, &'a str))>) -> Option<
    (Token, (Seq<char>, Seq<char>)),
> {
    match found {
        Some((token, (matched, rest))) => Some((token, (matched@, rest@))),
        None => None,
    }
}

/// What the tokenizer makes of the two texts a pattern captured in `text`:
/// they are accepted as matched text and remainder when the matched text
/// is not empty and `text` is the matched text directly followed by the
/// remainder, and refused otherwise. An accepted match is thus anchored at
/// the start of `text`, skips nothing, and leaves less than it was given.
pub open spec fn accepted(groups: Option<(Seq<char>, Seq<char>)>, text: Seq<char>) -> Option<
    (Seq<char>, Seq<char>),
> {
    match groups {
        Some((matched, rest)) => if matched.len() > 0 && matched + rest == text {
            Some((matched, rest))
        } else {
            None
        },
        None => None,
    }
}

/// A pattern recognizes `text` when what it captures there is accepted; the
/// result is the matched text and the remainder.
pub open spec fn recognized(pattern: Seq<char>, text: Seq<char>) -> Option<(Seq<char>, Seq<char>)> {
    accepted(captures_of(pattern, text), text)
}

/// The token of kind `kind` for accepted captures, on line `line`.
pub open spec fn token_of(groups: Option<(Seq<char>, Seq<char>)>, kind: TokenKind, line: i32) -> Option<
    (Token, (Seq<char>, Seq<char>)),
> {
    match groups {
        Some(groups) => Some((Token { kind, span: Span { line }, eos: false }, groups)),
        None => None,
    }
}

/// The token of kind `kind` that `pattern` recognizes at the start of
/// `text`, on line `line`.
pub open spec fn lexed_by(pattern: Seq<char>, kind: TokenKind, text: Seq<char>, line: i32) -> Option<
    (Token, (Seq<char>, Seq<char>)),
> {
    token_of(recognized(pattern, text), kind, line)
}

/// Turns what a pattern captured in `syntax` into a token of kind `kind`.
/// Captures that do not tile the input, or that match nothing, are refused.
pub fn accept<'a>(
    groups: Option<(&'a str, &'a str)>,
    kind: TokenKind,
    syntax: &str,
    line_number: i32,
) -> (found: Option<(Token, (&'a str, &'a str))>)
    ensures
        lexed(found) == token_of(
            accepted(
                match groups {
                    Some((matched, rest)) => Some((matched@, rest@)),
                    None => None,
                },
                syntax@,
            ),
            kind,
            line_number,
        ),
{
    match groups {
        Some((matched, rest)) => {
            if !matched.is_empty() && splits_into(syntax, matched, rest) {
                Some((Token::new(kind, line_number, false), (matched, rest)))
            } else {
                None
            }
        },
        None => None,
    }
}

/// Tries one pattern on `syntax`.
pub fn capture<'a>(pattern: &str, kind: TokenKind, syntax: &'a str, line_number: i32) -> (found:
    Option<(Token, (&'a str, &'a str))>)
    ensures
        lexed(found) == lexed_by(pattern@, kind, syntax@, line_number),
{
    accept(parse(pattern, syntax), kind, syntax, line_number)
}

pub const KEYWORD_COUNT: usize = 34;

/// The keyword table in priority order: entry `i` as the surface word,
/// written as a pattern fragment, and the token kind it stands for. A
/// compound word stands before the word it begins with.
pub open spec fn keyword_entry(i: int) -> (Seq<char>, TokenKind) {
    if i == 0 {
        ("module"@, TokenKind::Keyword(Keyword::Module))
    } else if i == 1 {
        ("let"@, TokenKind::Keyword(Keyword::Let))
    } else if i == 2 {
        ("do"@, TokenKind::Keyword(Keyword::Do))
    } else if i == 3 {
        ("end"@, TokenKind::Keyword(Keyword::End))
    } else if i == 4 {
        ("trait"@, TokenKind::Keyword(Keyword::Trait))
    } else if i == 5 {
        ("match"@, TokenKind::Keyword(Keyword::Match))
    } else if i == 6 {
        ("enum"@, TokenKind::Keyword(Keyword::Enum))
    } else if i == 7 {
        ("use"@, TokenKind::Keyword(Keyword::Use))
    } else if i == 8 {
        ("extern crate"@, TokenKind::Keyword(Keyword::ExternCrate))
    } else if i == 9 {
        ("struct"@, TokenKind::Keyword(Keyword::Struct))
    } else if i == 10 {
        ("public struct"@, TokenKind::Keyword(Keyword::PublicStruct))
    } else if i == 11 {
        ("public trait"@, TokenKind::Keyword(Keyword::PublicTrait))
    } else if i == 12 {
        ("public use"@, TokenKind::Keyword(Keyword::PublicUse))
    } else if i == 13 {
        ("public module"@, TokenKind::Keyword(Keyword::PublicModule))
    } else if i == 14 {
        ("function"@, TokenKind::Keyword(Keyword::Function))
    } else if i == 15 {
        ("public function"@, TokenKind::Keyword(Keyword::PublicFunction))
    } else if i == 16 {
        ("public enum"@, TokenKind::Keyword(Keyword::PublicEnum))
    } else if i == 17 {
        ("public"@, TokenKind::Keyword(Keyword::Public))
    } else if i == 18 {
        ("implements"@, TokenKind::Keyword(Keyword::Implements))
    } else if i == 19 {
        ("inherits"@, TokenKind::Keyword(Keyword::Inherits))
    } else if i == 20 {
        ("if"@, TokenKind::Keyword(Keyword::If))
    } else if i == 21 {
        ("then"@, TokenKind::Keyword(Keyword::Then))
    } else if i == 22 {
        ("else"@, TokenKind::Keyword(Keyword::Else))
    } else if i == 23 {
        ("for"@, TokenKind::Keyword(Keyword::For))
    } else if i == 24 {
        ("in"@, TokenKind::Keyword(Keyword::In))
    } else if i == 25 {
        ("equal"@, TokenKind::Equal)
    } else if i == 26 {
        ("not equal"@, TokenKind::NotEqual)
    } else if i == 27 {
        ("mutable"@, TokenKind::Keyword(Keyword::Mutable))
    } else if i == 28 {
        ("own"@, TokenKind::Keyword(Keyword::Own))
    } else if i == 29 {
        ("return"@, TokenKind::Keyword(Keyword::Return))
    } else if i == 30 {
        ("="@, TokenKind::Assign)
    } else if i == 31 {
        (":"@, TokenKind::DoubleDot)
    } else if i == 32 {
        ("=>"@, TokenKind::FatArrow)
    } else {
        ("\\|>"@, TokenKind::PipeLine)
    }
}

/// The word of entry `i`.
pub open spec fn keyword_word(i: int) -> Seq<char> {
    keyword_entry(i).0
}

/// The token kind of entry `i`.
pub open spec fn keyword_kind(i: int) -> TokenKind {
    keyword_entry(i).1
}

/// Entry `i` of the table.
pub fn keyword_at(i: usize) -> (entry: (&'static str, TokenKind))
    requires
        i < KEYWORD_COUNT,
    ensures
        entry.0@ == keyword_word(i as int),
        entry.1 == keyword_kind(i as int),
{
    if i == 0 {
        ("module", TokenKind::Keyword(Keyword::Module))
    } else if i == 1 {
        ("let", TokenKind::Keyword(Keyword::Let))
    } else if i == 2 {
        ("do", TokenKind::Keyword(Keyword::Do))
    } else if i == 3 {
        ("end", TokenKind::Keyword(Keyword::End))
    } else if i == 4 {
        ("trait", TokenKind::Keyword(Keyword::Trait))
    } else if i == 5 {
        ("match", TokenKind::Keyword(Keyword::Match))
    } else if i == 6 {
        ("enum", TokenKind::Keyword(Keyword::Enum))
    } else if i == 7 {
        ("use", TokenKind::Keyword(Keyword::Use))
    } else if i == 8 {
        ("extern crate", TokenKind::Keyword(Keyword::ExternCrate))
    } else if i == 9 {
        ("struct", TokenKind::Keyword(Keyword::Struct))
    } else if i == 10 {
        ("public struct", TokenKind::Keyword(Keyword::PublicStruct))
    } else if i == 11 {
        ("public trait", TokenKind::Keyword(Keyword::PublicTrait))
    } else if i == 12 {
        ("public use", TokenKind::Keyword(Keyword::PublicUse))
    } else if i == 13 {
        ("public module", TokenKind::Keyword(Keyword::PublicModule))
    } else if i == 14 {
        ("function", TokenKind::Keyword(Keyword::Function))
    } else if i == 15 {
        ("public function", TokenKind::Keyword(Keyword::PublicFunction))
    } else if i == 16 {
        ("public enum", TokenKind::Keyword(Keyword::PublicEnum))
    } else if i == 17 {
        ("public", TokenKind::Keyword(Keyword::Public))
    } else if i == 18 {
        ("implements", TokenKind::Keyword(Keyword::Implements))
    } else if i == 19 {
        ("inherits", TokenKind::Keyword(Keyword::Inherits))
    } else if i == 20 {
        ("if", TokenKind::Keyword(Keyword::If))
    } else if i == 21 {
        ("then", TokenKind::Keyword(Keyword::Then))
    } else if i == 22 {
        ("else", TokenKind::Keyword(Keyword::Else))
    } else if i == 23 {
        ("for", TokenKind::Keyword(Keyword::For))
    } else if i == 24 {
        ("in", TokenKind::Keyword(Keyword::In))
    } else if i == 25 {
        ("equal", TokenKind::Equal)
    } else if i == 26 {
        ("not equal", TokenKind::NotEqual)
    } else if i == 27 {
        ("mutable", TokenKind::Keyword(Keyword::Mutable))
    } else if i == 28 {
        ("own", TokenKind::Keyword(Keyword::Own))
    } else if i == 29 {
        ("return", TokenKind::Keyword(Keyword::Return))
    } else if i == 30 {
        ("=", TokenKind::Assign)
    } else if i == 31 {
        (":", TokenKind::DoubleDot)
    } else if i == 32 {
        ("=>", TokenKind::FatArrow)
    } else {
        ("\\|>", TokenKind::PipeLine)
    }
}

pub const OPERATOR_COUNT: usize = 5;

/// The operator table in priority order: entry `i` as the pattern fragment
/// of the operator and its token kind.
pub open spec fn operator_entry(i: int) -> (Seq<char>, TokenKind) {
    if i == 0 {
        ("\\+"@, TokenKind::Operator(Operator::Add))
    } else if i == 1 {
        ("-"@, TokenKind::Operator(Operator::Minus))
    } else if i == 2 {
        ("\\*"@, TokenKind::Operator(Operator::Multiply))
    } else if i == 3 {
        ("/"@, TokenKind::Operator(Operator::Divide))
    } else {
        ("%"@, TokenKind::Operator(Operator::Mod))
    }
}

/// The pattern fragment of entry `i`.
pub open spec fn operator_word(i: int) -> Seq<char> {
    operator_entry(i).0
}

/// The token kind of entry `i`.
pub open spec fn operator_kind(i: int) -> TokenKind {
    operator_entry(i).1
}

/// Entry `i` of the table.
pub fn operator_at(i: usize) -> (entry: (&'static str, TokenKind))
    requires
        i < OPERATOR_COUNT,
    ensures
        entry.0@ == operator_word(i as int),
        entry.1 == operator_kind(i as int),
{
    if i == 0 {
        ("\\+", TokenKind::Operator(Operator::Add))
    } else if i == 1 {
        ("-", TokenKind::Operator(Operator::Minus))
    } else if i == 2 {
        ("\\*", TokenKind::Operator(Operator::Multiply))
    } else if i == 3 {
        ("/", TokenKind::Operator(Operator::Divide))
    } else {
        ("%", TokenKind::Operator(Operator::Mod))
    }
}

pub const TYPE_NAME_COUNT: usize = 12;

/// The type-name table in priority order: entry `i` as the source name of
/// the type and its token kind.
pub open spec fn type_name_entry(i: int) -> (Seq<char>, TokenKind) {
    if i == 0 {
        ("Boolean"@, TokenKind::Literal(LiteralKind::Boolean))
    } else if i == 1 {
        ("String"@, TokenKind::Literal(LiteralKind::String))
    } else if i == 2 {
        ("Int32"@, TokenKind::Literal(LiteralKind::Int32))
    } else if i == 3 {
        ("Int64"@, TokenKind::Literal(LiteralKind::Int64))
    } else if i == 4 {
        ("UInt32"@, TokenKind::Literal(LiteralKind::UInt32))
    } else if i == 5 {
        ("UInt64"@, TokenKind::Literal(LiteralKind::UInt64))
    } else if i == 6 {
        ("Float64"@, TokenKind::Literal(LiteralKind::Float64))
    } else if i == 7 {
        ("Float32"@, TokenKind::Literal(LiteralKind::Float32))
    } else if i == 8 {
        ("Usize"@, TokenKind::Literal(LiteralKind::Usize))
    } else if i == 9 {
        ("Isize"@, TokenKind::Literal(LiteralKind::Isize))
    } else if i == 10 {
        ("Char"@, TokenKind::Literal(LiteralKind::Char))
    } else {
        ("Byte"@, TokenKind::Literal(LiteralKind::Byte))
    }
}

/// The source name of entry `i`.
pub open spec fn type_name_word(i: int) -> Seq<char> {
    type_name_entry(i).0
}

/// The token kind of entry `i`.
pub open spec fn type_name_kind(i: int) -> TokenKind {
    type_name_entry(i).1
}

/// Entry `i` of the table.
pub fn type_name_at(i: usize) -> (entry: (&'static str, TokenKind))
    requires
        i < TYPE_NAME_COUNT,
    ensures
        entry.0@ == type_name_word(i as int),
        entry.1 == type_name_kind(i as int),
{
    if i == 0 {
        ("Boolean", TokenKind::Literal(LiteralKind::Boolean))
    } else if i == 1 {
        ("String", TokenKind::Literal(LiteralKind::String))
    } else if i == 2 {
        ("Int32", TokenKind::Literal(LiteralKind::Int32))
    } else if i == 3 {
        ("Int64", TokenKind::Literal(LiteralKind::Int64))
    } else if i == 4 {
        ("UInt32", TokenKind::Literal(LiteralKind::UInt32))
    } else if i == 5 {
        ("UInt64", TokenKind::Literal(LiteralKind::UInt64))
    } else if i == 6 {
        ("Float64", TokenKind::Literal(LiteralKind::Float64))
    } else if i == 7 {
        ("Float32", TokenKind::Literal(LiteralKind::Float32))
    } else if i == 8 {
        ("Usize", TokenKind::Literal(LiteralKind::Usize))
    } else if i == 9 {
        ("Isize", TokenKind::Literal(LiteralKind::Isize))
    } else if i == 10 {
        ("Char", TokenKind::Literal(LiteralKind::Char))
    } else {
        ("Byte", TokenKind::Literal(LiteralKind::Byte))
    }
}

/// The pattern for a keyword or an operator: the word, then a white-space
/// character that stays in the remainder.
pub open spec fn word_pattern(word: Seq<char>) -> Seq<char> {
    "^("@ + word + ")(?s)(\\s.*)$"@
}

/// The pattern for a type name: the name together with the `,`, `|`, `>`,
/// `)` or line break that follows it.
pub open spec fn type_pattern(name: Seq<char>) -> Seq<char> {
    "^("@ + name + "[,|>|)|\\n])(?s)(.*)$"@
}

fn build_word_pattern(word: &str) -> (pattern: String)
    ensures
        pattern@ == word_pattern(word@),
{
    let mut pattern = String::from_str("^(");
    pattern.append(word);
    pattern.append(")(?s)(\\s.*)$");
    pattern
}

fn build_type_pattern(name: &str) -> (pattern: String)
    ensures
        pattern@ == type_pattern(name@),
{
    let mut pattern = String::from_str("^(");
    pattern.append(name);
    pattern.append("[,|>|)|\\n])(?s)(.*)$");
    pattern
}

/// The first keyword entry, from entry `from` on, that recognizes `text`.
pub open spec fn keyword_token(text: Seq<char>, line: i32, from: int) -> Option<
    (Token, (Seq<char>, Seq<char>)),
>
    decreases KEYWORD_COUNT - from,
{
    if from < 0 || from >= KEYWORD_COUNT {
        None
    } else {
        match lexed_by(word_pattern(keyword_word(from)), keyword_kind(from), text, line) {
            Some(found) => Some(found),
            None => keyword_token(text, line, from + 1),
        }
    }
}

/// The first operator entry, from entry `from` on, that recognizes `text`.
pub open spec fn operator_token(text: Seq<char>, line: i32, from: int) -> Option<
    (Token, (Seq<char>, Seq<char>)),
>
    decreases OPERATOR_COUNT - from,
{
    if from < 0 || from >= OPERATOR_COUNT {
        None
    } else {
        match lexed_by(word_pattern(operator_word(from)), operator_kind(from), text, line) {
            Some(found) => Some(found),
            None => operator_token(text, line, from + 1),
        }
    }
}

/// The first type-name entry, from entry `from` on, that recognizes `text`.
pub open spec fn type_token(text: Seq<char>, line: i32, from: int) -> Option<
    (Token, (Seq<char>, Seq<char>)),
>
    decreases TYPE_NAME_COUNT - from,
{
    if from < 0 || from >= TYPE_NAME_COUNT {
        None
    } else {
        match lexed_by(type_pattern(type_name_word(from)), type_name_kind(from), text, line) {
            Some(found) => Some(found),
            None => type_token(text, line, from + 1),
        }
    }
}

/// Recognizes a keyword: the first entry of the keyword table whose pattern
/// matches wins.
pub fn parse_to_token<'a>(syntax: &'a str, line_number: i32) -> (found: Option<
    (Token, (&'a str, &'a str)),
>)
    ensures
        lexed(found) == keyword_token(syntax@, line_number, 0),
{
    let mut i: usize = 0;
    while i < KEYWORD_COUNT
        invariant
            i <= KEYWORD_COUNT,
            keyword_token(syntax@, line_number, 0) == keyword_token(syntax@, line_number, i as int),
        decreases KEYWORD_COUNT - i,
    {
        let (word, kind) = keyword_at(i);
        let pattern = build_word_pattern(word);
        let found = capture(pattern.as_str(), kind, syntax, line_number);
        if found.is_some() {
            return found;
        }
        i = i + 1;
    }
    None
}

/// Recognizes an arithmetic operator: the first entry of the operator table
/// whose pattern matches wins.
pub fn parse_operator<'a>(syntax: &'a str, line_number: i32) -> (found: Option<
    (Token, (&'a str, &'a str)),
>)
    ensures
        lexed(found) == operator_token(syntax@, line_number, 0),
{
    let mut i: usize = 0;
    while i < OPERATOR_COUNT
        invariant
            i <= OPERATOR_COUNT,
            operator_token(syntax@, line_number, 0) == operator_token(syntax@, line_number, i as int),
        decreases OPERATOR_COUNT - i,
    {
        let (word, kind) = operator_at(i);
        let pattern = build_word_pattern(word);
        let found = capture(pattern.as_str(), kind, syntax, line_number);
        if found.is_some() {
            return found;
        }
        i = i + 1;
    }
    None
}

/// Recognizes a type name with the delimiter that follows it: the first
/// entry of the type-name table whose pattern matches wins.
pub fn parse_type<'a>(syntax: &'a str, line_number: i32) -> (found: Option<
    (Token, (&'a str, &'a str)),
>)
    ensures
        lexed(found) == type_token(syntax@, line_number, 0),
{
    let mut i: usize = 0;
    while i < TYPE_NAME_COUNT
        invariant
            i <= TYPE_NAME_COUNT,
            type_token(syntax@, line_number, 0) == type_token(syntax@, line_number, i as int),
        decreases TYPE_NAME_COUNT - i,
    {
        let (name, kind) = type_name_at(i);
        let pattern = build_type_pattern(name);
        let found = capture(pattern.as_str(), kind, syntax, line_number);
        if found.is_some() {
            return found;
        }
        i = i + 1;
    }
    None
}

/// Recognizes a hash-map literal: `=`, then braces that hold a comma.
pub fn parse_hash_map<'a>(syntax: &'a str, line_number: i32) -> (found: Option<
    (Token, (&'a str, &'a str)),
>)
    ensures
        lexed(found) == lexed_by(HASH_MAP@, TokenKind::Collection(Collection::HashMap), syntax@, line_number),
{
    capture(HASH_MAP, TokenKind::Collection(Collection::HashMap), syntax, line_number)
}

/// Recognizes a derive annotation with its argument list.
pub fn parse_derive<'a>(syntax: &'a str, line_number: i32) -> (found: Option<
    (Token, (&'a str, &'a str)),
>)
    ensures
        lexed(found) == lexed_by(DERIVE@, TokenKind::Keyword(Keyword::Derive), syntax@, line_number),
{
    capture(DERIVE, TokenKind::Keyword(Keyword::Derive), syntax, line_number)
}

/// Recognizes the header of a macro definition.
pub fn parse_macro_rules<'a>(syntax: &'a str, line_number: i32) -> (found: Option<
    (Token, (&'a str, &'a str)),
>)
    ensures
        lexed(found) == lexed_by(MACRO_RULES@, TokenKind::MacroRules, syntax@, line_number),
{
    capture(MACRO_RULES, TokenKind::MacroRules, syntax, line_number)
}

/// Recognizes the name of a macro invocation, up to its `!`.
pub fn parse_macro<'a>(syntax: &'a str, line_number: i32) -> (found: Option<
    (Token, (&'a str, &'a str)),
>)
    ensures
        lexed(found) == lexed_by(MACRO@, TokenKind::Macro, syntax@, line_number),
{
    capture(MACRO, TokenKind::Macro, syntax, line_number)
}

/// Recognizes the head of a function call: a name and its opening parenthesis.
pub fn parse_function_call<'a>(syntax: &'a str, line_number: i32) -> (found: Option<
    (Token, (&'a str, &'a str)),
>)
    ensures
        lexed(found) == lexed_by(FUNCTION_CALL@, TokenKind::FunctionCall, syntax@, line_number),
{
    capture(FUNCTION_CALL, TokenKind::FunctionCall, syntax, line_number)
}

/// Recognizes the `borrow` keyword with the white space after it.
pub fn parse_borrow<'a>(syntax: &'a str, line_number: i32) -> (found: Option<
    (Token, (&'a str, &'a str)),
>)
    ensures
        lexed(found) == lexed_by(BORROW@, TokenKind::Keyword(Keyword::Borrow), syntax@, line_number),
{
    capture(BORROW, TokenKind::Keyword(Keyword::Borrow), syntax, line_number)
}

/// Recognizes the `own` keyword with the white space after it.
pub fn parse_own<'a>(syntax: &'a str, line_number: i32) -> (found: Option<
    (Token, (&'a str, &'a str)),
>)
    ensures
        lexed(found) == lexed_by(OWN@, TokenKind::Keyword(Keyword::Own), syntax@, line_number),
{
    capture(OWN, TokenKind::Keyword(Keyword::Own), syntax, line_number)
}

/// Recognizes the namespace separator `::`.
pub fn parse_namespace_separator<'a>(syntax: &'a str, line_number: i32) -> (found: Option<
    (Token, (&'a str, &'a str)),
>)
    ensures
        lexed(found) == lexed_by(NAMESPACE_SEPARATOR@, TokenKind::NamespaceSeparator, syntax@, line_number),
{
    capture(NAMESPACE_SEPARATOR, TokenKind::NamespaceSeparator, syntax, line_number)
}

/// Recognizes the `as` keyword with the white space before it.
pub fn parse_as<'a>(syntax: &'a str, line_number: i32) -> (found: Option<
    (Token, (&'a str, &'a str)),
>)
    ensures
        lexed(found) == lexed_by(AS@, TokenKind::Keyword(Keyword::As), syntax@, line_number),
{
    capture(AS, TokenKind::Keyword(Keyword::As), syntax, line_number)
}

/// Recognizes the `not` operator with the white space after it.
pub fn parse_not_operator<'a>(syntax: &'a str, line_number: i32) -> (found: Option<
    (Token, (&'a str, &'a str)),
>)
    ensures
        lexed(found) == lexed_by(NOT_OPERATOR@, TokenKind::Not, syntax@, line_number),
{
    capture(NOT_OPERATOR, TokenKind::Not, syntax, line_number)
}

/// Recognizes a type name with generic arguments in angle brackets.
pub fn parse_type_with_generics<'a>(syntax: &'a str, line_number: i32) -> (found: Option<
    (Token, (&'a str, &'a str)),
>)
    ensures
        lexed(found) == lexed_by(TYPE_WITH_GENERICS@, TokenKind::TypeWithGeneric, syntax@, line_number),
{
    capture(TYPE_WITH_GENERICS, TokenKind::TypeWithGeneric, syntax, line_number)
}

/// Recognizes a string literal, up to the next double quote.
pub fn parse_string<'a>(syntax: &'a str, line_number: i32) -> (found: Option<
    (Token, (&'a str, &'a str)),
>)
    ensures
        lexed(found) == lexed_by(STRING@, TokenKind::Lexeme(Lexeme::String), syntax@, line_number),
{
    capture(STRING, TokenKind::Lexeme(Lexeme::String), syntax, line_number)
}

/// Recognizes an array literal: square brackets that hold a comma.
pub fn parse_array<'a>(syntax: &'a str, line_number: i32) -> (found: Option<
    (Token, (&'a str, &'a str)),
>)
    ensures
        lexed(found) == lexed_by(ARRAY@, TokenKind::Collection(Collection::Array), syntax@, line_number),
{
    capture(ARRAY, TokenKind::Collection(Collection::Array), syntax, line_number)
}

/// Recognizes a tuple literal: parentheses that hold a comma.
pub fn parse_tuple<'a>(syntax: &'a str, line_number: i32) -> (found: Option<
    (Token, (&'a str, &'a str)),
>)
    ensures
        lexed(found) == lexed_by(TUPLE@, TokenKind::Collection(Collection::Tuple), syntax@, line_number),
{
    capture(TUPLE, TokenKind::Collection(Collection::Tuple), syntax, line_number)
}

/// Recognizes a line comment, up to the end of its line.
pub fn parse_line_comment<'a>(syntax: &'a str, line_number: i32) -> (found: Option<
    (Token, (&'a str, &'a str)),
>)
    ensures
        lexed(found) == lexed_by(LINE_COMMENT@, TokenKind::LineComment, syntax@, line_number),
{
    capture(LINE_COMMENT, TokenKind::LineComment, syntax, line_number)
}

/// Recognizes a block comment, which may span lines.
pub fn parse_block_comment<'a>(syntax: &'a str, line_number: i32) -> (found: Option<
    (Token, (&'a str, &'a str)),
>)
    ensures
        lexed(found) == lexed_by(BLOCK_COMMENT@, TokenKind::BlockComment, syntax@, line_number),
{
    capture(BLOCK_COMMENT, TokenKind::BlockComment, syntax, line_number)
}

/// Recognizes an opening parenthesis.
pub fn parse_open_parens<'a>(syntax: &'a str, line_number: i32) -> (found: Option<
    (Token, (&'a str, &'a str)),
>)
    ensures
        lexed(found) == lexed_by(OPEN_PARENS@, TokenKind::OpenParen, syntax@, line_number),
{
    capture(OPEN_PARENS, TokenKind::OpenParen, syntax, line_number)
}

/// Recognizes a closing parenthesis with the line break after it, if any.
pub fn parse_close_parens<'a>(syntax: &'a str, line_number: i32) -> (found: Option<
    (Token, (&'a str, &'a str)),
>)
    ensures
        lexed(found) == lexed_by(CLOSE_PARENS@, TokenKind::CloseParen, syntax@, line_number),
{
    capture(CLOSE_PARENS, TokenKind::CloseParen, syntax, line_number)
}

/// Recognizes a dot.
pub fn parse_dot<'a>(syntax: &'a str, line_number: i32) -> (found: Option<
    (Token, (&'a str, &'a str)),
>)
    ensures
        lexed(found) == lexed_by(DOT@, TokenKind::Dot, syntax@, line_number),
{
    capture(DOT, TokenKind::Dot, syntax, line_number)
}

/// Recognizes a comma.
pub fn parse_comma<'a>(syntax: &'a str, line_number: i32) -> (found: Option<
    (Token, (&'a str, &'a str)),
>)
    ensures
        lexed(found) == lexed_by(COMMA@, TokenKind::Comma, syntax@, line_number),
{
    capture(COMMA, TokenKind::Comma, syntax, line_number)
}

/// Recognizes a run of blanks.
pub fn parse_whitespace<'a>(syntax: &'a str, line_number: i32) -> (found: Option<
    (Token, (&'a str, &'a str)),
>)
    ensures
        lexed(found) == lexed_by(WHITESPACE@, TokenKind::Whitespace, syntax@, line_number),
{
    capture(WHITESPACE, TokenKind::Whitespace, syntax, line_number)
}

/// Recognizes a line break.
pub fn parse_newline<'a>(syntax: &'a str, line_number: i32) -> (found: Option<
    (Token, (&'a str, &'a str)),
>)
    ensures
        lexed(found) == lexed_by(NEWLINE@, TokenKind::NewLine, syntax@, line_number),
{
    capture(NEWLINE, TokenKind::NewLine, syntax, line_number)
}

/// Whether `matched` ends with a line break.
pub open spec fn ends_line(matched: Seq<char>) -> bool {
    matched.len() > 0 && matched.last() == '\n'
}

/// The identifier that begins `text`. Its token closes a statement when the
/// match takes in the line break after the name.
pub open spec fn identifier_token(text: Seq<char>, line: i32) -> Option<
    (Token, (Seq<char>, Seq<char>)),
> {
    match recognized(IDENTIFIER@, text) {
        Some(groups) => Some(
            (Token { kind: TokenKind::Identifier, span: Span { line }, eos: ends_line(groups.0) }, groups),
        ),
        None => None,
    }
}

/// Recognizes a bare identifier with the line break after it, if any.
pub fn parse_identifier<'a>(syntax: &'a str, line_number: i32) -> (found: Option<
    (Token, (&'a str, &'a str)),
>)
    ensures
        lexed(found) == identifier_token(syntax@, line_number),
{
    match capture(IDENTIFIER, TokenKind::Identifier, syntax, line_number) {
        Some((_, (matched, rest))) => {
            let length: usize = matched.unicode_len();
            let eos = length > 0 && matched.get_char(length - 1) == '\n';
            Some((Token::new(TokenKind::Identifier, line_number, eos), (matched, rest)))
        },
        None => None,
    }
}

/// The first result if it recognized anything, else the second.
pub open spec fn or_else(
    first: Option<(Token, (Seq<char>, Seq<char>))>,
    second: Option<(Token, (Seq<char>, Seq<char>))>,
) -> Option<(Token, (Seq<char>, Seq<char>))> {
    if first is Some {
        first
    } else {
        second
    }
}

/// The token at the start of `text`: the result of the first recognizer of
/// the bank, in the priority order written here, that accepts; `None` when
/// none does.
pub open spec fn next_token(text: Seq<char>, line: i32) -> Option<(Token, (Seq<char>, Seq<char>))> {
    or_else(lexed_by(HASH_MAP@, TokenKind::Collection(Collection::HashMap), text, line),
    or_else(lexed_by(ARRAY@, TokenKind::Collection(Collection::Array), text, line),
    or_else(lexed_by(TUPLE@, TokenKind::Collection(Collection::Tuple), text, line),
    or_else(keyword_token(text, line, 0),
    or_else(lexed_by(DERIVE@, TokenKind::Keyword(Keyword::Derive), text, line),
    or_else(lexed_by(MACRO_RULES@, TokenKind::MacroRules, text, line),
    or_else(lexed_by(MACRO@, TokenKind::Macro, text, line),
    or_else(lexed_by(FUNCTION_CALL@, TokenKind::FunctionCall, text, line),
    or_else(lexed_by(BORROW@, TokenKind::Keyword(Keyword::Borrow), text, line),
    or_else(lexed_by(OWN@, TokenKind::Keyword(Keyword::Own), text, line),
    or_else(lexed_by(NAMESPACE_SEPARATOR@, TokenKind::NamespaceSeparator, text, line),
    or_else(operator_token(text, line, 0),
    or_else(type_token(text, line, 0),
    or_else(lexed_by(AS@, TokenKind::Keyword(Keyword::As), text, line),
    or_else(lexed_by(NOT_OPERATOR@, TokenKind::Not, text, line),
    or_else(lexed_by(TYPE_WITH_GENERICS@, TokenKind::TypeWithGeneric, text, line),
    or_else(lexed_by(STRING@, TokenKind::Lexeme(Lexeme::String), text, line),
    or_else(identifier_token(text, line),
    or_else(lexed_by(LINE_COMMENT@, TokenKind::LineComment, text, line),
    or_else(lexed_by(BLOCK_COMMENT@, TokenKind::BlockComment, text, line),
    or_else(lexed_by(OPEN_PARENS@, TokenKind::OpenParen, text, line),
    or_else(lexed_by(CLOSE_PARENS@, TokenKind::CloseParen, text, line),
    or_else(lexed_by(DOT@, TokenKind::Dot, text, line),
    or_else(lexed_by(COMMA@, TokenKind::Comma, text, line),
    or_else(lexed_by(WHITESPACE@, TokenKind::Whitespace, text, line),
    lexed_by(NEWLINE@, TokenKind::NewLine, text, line))))))))))))))))))))))))))
}

/// What holds of every token a recognizer yields on `text`: it carries the
/// line asked for, its raw text is not empty, and `text` is that raw text
/// directly followed by the remainder.
pub open spec fn sound_token(found: (Token, (Seq<char>, Seq<char>)), text: Seq<char>, line: i32) -> bool {
    &&& found.0.span.line == line
    &&& (found.1).0.len() > 0
    &&& (found.1).0 + (found.1).1 == text
}

proof fn lemma_keyword_sound(text: Seq<char>, line: i32, from: int)
    ensures
        keyword_token(text, line, from) matches Some(found) ==> sound_token(found, text, line),
    decreases KEYWORD_COUNT - from,
{
    if 0 <= from < KEYWORD_COUNT {
        lemma_keyword_sound(text, line, from + 1);
    }
}

proof fn lemma_operator_sound(text: Seq<char>, line: i32, from: int)
    ensures
        operator_token(text, line, from) matches Some(found) ==> sound_token(found, text, line),
    decreases OPERATOR_COUNT - from,
{
    if 0 <= from < OPERATOR_COUNT {
        lemma_operator_sound(text, line, from + 1);
    }
}

proof fn lemma_type_sound(text: Seq<char>, line: i32, from: int)
    ensures
        type_token(text, line, from) matches Some(found) ==> sound_token(found, text, line),
    decreases TYPE_NAME_COUNT - from,
{
    if 0 <= from < TYPE_NAME_COUNT {
        lemma_type_sound(text, line, from + 1);
    }
}

/// Every token consumes input. Whatever recognizer accepts, its match
/// stands at the very start of the text and is not empty, and the remainder
/// is all that follows the match: nothing is skipped, and the remainder is
/// strictly shorter than the text, so that tokenizing the remainders of a
/// text over and over comes to an end.
pub proof fn lemma_token_consumes(text: Seq<char>, line: i32)
    ensures
        next_token(text, line) matches Some(found) ==> sound_token(found, text, line)
            && (found.1).1.len() < text.len(),
{
    lemma_keyword_sound(text, line, 0);
    lemma_operator_sound(text, line, 0);
    lemma_type_sound(text, line, 0);
}

proof fn lemma_keyword_is_no_body(text: Seq<char>, line: i32, from: int)
    ensures
        keyword_token(text, line, from) matches Some(found) ==> found.0.kind
            != TokenKind::MacroBody,
    decreases KEYWORD_COUNT - from,
{
    if 0 <= from < KEYWORD_COUNT {
        lemma_keyword_is_no_body(text, line, from + 1);
    }
}

proof fn lemma_operator_is_no_body(text: Seq<char>, line: i32, from: int)
    ensures
        operator_token(text, line, from) matches Some(found) ==> found.0.kind
            != TokenKind::MacroBody,
    decreases OPERATOR_COUNT - from,
{
    if 0 <= from < OPERATOR_COUNT {
        lemma_operator_is_no_body(text, line, from + 1);
    }
}

proof fn lemma_type_is_no_body(text: Seq<char>, line: i32, from: int)
    ensures
        type_token(text, line, from) matches Some(found) ==> found.0.kind != TokenKind::MacroBody,
    decreases TYPE_NAME_COUNT - from,
{
    if 0 <= from < TYPE_NAME_COUNT {
        lemma_type_is_no_body(text, line, from + 1);
    }
}

/// No recognizer yields a macro body: bodies come from delimiter scanning
/// alone.
pub proof fn lemma_token_is_no_body(text: Seq<char>, line: i32)
    ensures
        next_token(text, line) matches Some(found) ==> found.0.kind != TokenKind::MacroBody,
{
    lemma_keyword_is_no_body(text, line, 0);
    lemma_operator_is_no_body(text, line, 0);
    lemma_type_is_no_body(text, line, 0);
}

/// What `tokenize_one` returns on `text`: the token that begins it, or the
/// failure that reports `text` and `line` when no recognizer matches.
pub open spec fn tokenized(text: Seq<char>, line: i32) -> Result<
    (Token, (Seq<char>, Seq<char>)),
    Failure,
> {
    match next_token(text, line) {
        Some(found) => Ok(found),
        None => Err(Failure { kind: ParseErrorKind::Unrecognized, unconsumed_text: text, line }),
    }
}

/// Reads one token from the start of `remaining`: the recognizers are tried
/// in their fixed order and the first that matches commits. Returns the
/// token, the text it matched and the text that remains; fails when no
/// recognizer matches.
pub fn tokenize_one<'a>(remaining: &'a str, line_number: i32) -> (outcome: Result<
    (Token, (&'a str, &'a str)),
    ParseError,
>)
    ensures
        match tokenized(remaining@, line_number) {
            Ok(found) => outcome matches Ok(token) && lexed(Some(token)) == Some(found)
                && sound_token(found, remaining@, line_number),
            Err(failure) => outcome matches Err(error) && error@ == failure,
        },
{
    proof {
        lemma_token_consumes(remaining@, line_number);
    }
    let mut result = parse_hash_map(remaining, line_number);
    if result.is_none() {
        result = parse_array(remaining, line_number);
    }
    if result.is_none() {
        result = parse_tuple(remaining, line_number);
    }
    if result.is_none() {
        result = parse_to_token(remaining, line_number);
    }
    if result.is_none() {
        result = parse_derive(remaining, line_number);
    }
    if result.is_none() {
        result = parse_macro_rules(remaining, line_number);
    }
    if result.is_none() {
        result = parse_macro(remaining, line_number);
    }
    if result.is_none() {
        result = parse_function_call(remaining, line_number);
    }
    if result.is_none() {
        result = parse_borrow(remaining, line_number);
    }
    if result.is_none() {
        result = parse_own(remaining, line_number);
    }
    if result.is_none() {
        result = parse_namespace_separator(remaining, line_number);
    }
    if result.is_none() {
        result = parse_operator(remaining, line_number);
    }
    if result.is_none() {
        result = parse_type(remaining, line_number);
    }
    if result.is_none() {
        result = parse_as(remaining, line_number);
    }
    if result.is_none() {
        result = parse_not_operator(remaining, line_number);
    }
    if result.is_none() {
        result = parse_type_with_generics(remaining, line_number);
    }
    if result.is_none() {
        result = parse_string(remaining, line_number);
    }
    if result.is_none() {
        result = parse_identifier(remaining, line_number);
    }
    if result.is_none() {
        result = parse_line_comment(remaining, line_number);
    }
    if result.is_none() {
        result = parse_block_comment(remaining, line_number);
    }
    if result.is_none() {
        result = parse_open_parens(remaining, line_number);
    }
    if result.is_none() {
        result = parse_close_parens(remaining, line_number);
    }
    if result.is_none() {
        result = parse_dot(remaining, line_number);
    }
    if result.is_none() {
        result = parse_comma(remaining, line_number);
    }
    if result.is_none() {
        result = parse_whitespace(remaining, line_number);
    }
    if result.is_none() {
        result = parse_newline(remaining, line_number);
    }
    match result {
        Some(token) => Ok(token),
        None => Err(ParseError::new(ParseErrorKind::Unrecognized, remaining, line_number)),
    }
}


proof fn lemma_keyword_first(text: Seq<char>, line: i32, from: int, entry: int)
    requires
        0 <= from <= entry < KEYWORD_COUNT,
        recognized(word_pattern(keyword_word(entry)), text) is Some,
    ensures
        keyword_token(text, line, from) matches Some(found) && exists|k: int|
            from <= k <= entry && found.0.kind == #[trigger] keyword_kind(k),
    decreases entry - from,
{
    if lexed_by(word_pattern(keyword_word(from)), keyword_kind(from), text, line) is None {
        lemma_keyword_first(text, line, from + 1, entry);
    }
}

/// Priority among keywords. When the pattern of keyword entry `entry`
/// recognizes `text`, the tokenizer yields a token, and it is either one of
/// the structural literals, which alone are tried before the keywords, or
/// the keyword of an entry at or before `entry`: no recognizer that stands
/// later in the order can take the input.
pub proof fn lemma_keyword_priority(text: Seq<char>, line: i32, entry: int)
    requires
        0 <= entry < KEYWORD_COUNT,
        recognized(word_pattern(keyword_word(entry)), text) is Some,
    ensures
        next_token(text, line) matches Some(found) && (found.0.kind is Collection || exists|k: int|
            0 <= k <= entry && found.0.kind == #[trigger] keyword_kind(k)),
{
    lemma_keyword_first(text, line, 0, entry);
}

/// Whether keyword entry `entry` is one of the compounds that begin with
/// `public`: `public struct`, `public trait`, `public use`,
/// `public module`, `public function`, `public enum`.
pub open spec fn begins_with_public(entry: int) -> bool {
    10 <= entry <= 13 || entry == 15 || entry == 16
}

/// The entry of the compound `not equal`.
pub open spec fn is_not_equal(entry: int) -> bool {
    entry == 26
}

/// A compound keyword is never cut short. When the pattern of a compound
/// that begins with `public` recognizes `text`, the token is not the bare
/// `public` keyword; when the pattern of `not equal` recognizes `text`, the
/// token is not the `not` operator.
pub proof fn lemma_compound_before_prefix(text: Seq<char>, line: i32, entry: int)
    requires
        begins_with_public(entry) || is_not_equal(entry),
        recognized(word_pattern(keyword_word(entry)), text) is Some,
    ensures
        next_token(text, line) is Some,
        begins_with_public(entry) ==> next_token(text, line).unwrap().0.kind != TokenKind::Keyword(
            Keyword::Public,
        ),
        is_not_equal(entry) ==> next_token(text, line).unwrap().0.kind != TokenKind::Not,
{
    lemma_keyword_priority(text, line, entry);
}

} // verus!
