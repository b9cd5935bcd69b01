//! The code generator: a depth-first walk that maps each token to target
//! text and infers statement terminators from line breaks.

use vstd::prelude::*;
use crate::ast::{lemma_trees_of_index, trees_of, Node, Tree};
use crate::keyword::Keyword;
use crate::lexeme::Lexeme;
use crate::text::{
    find_from, has_newline, index_of, lemma_newlines_bound, match_newlines, replace, replaced,
    trim, trimmed,
};
use crate::token::{Collection, LiteralKind, Operator, Token, TokenKind};

verus! {

/// The target text of a token kind whose output does not depend on its raw
/// text; `None` for every other kind.
pub open spec fn fixed_text(kind: TokenKind) -> Option<Seq<char>> {
    match kind {
        TokenKind::Keyword(Keyword::Module) => Some("mod"@),
        TokenKind::Keyword(Keyword::Public) => Some("pub"@),
        TokenKind::Keyword(Keyword::Trait) => Some("trait"@),
        TokenKind::Keyword(Keyword::PublicTrait) => Some("pub trait"@),
        TokenKind::Keyword(Keyword::Struct) => Some("#[derive(Debug, Clone, Default, PartialEq)]\nstruct"@),
        TokenKind::Keyword(Keyword::PublicStruct) => Some("#[derive(Debug, Clone, Default, PartialEq)]\npub struct"@),
        TokenKind::Keyword(Keyword::Enum) => Some("#[derive(Debug, Clone, Default, PartialEq, Eq, PartialOrd, Ord)]\nenum"@),
        TokenKind::Keyword(Keyword::PublicEnum) => Some("#[derive(Debug, Clone, Default, PartialEq, Eq, PartialOrd, Ord)]\npub enum"@),
        TokenKind::Keyword(Keyword::As) => Some(":"@),
        TokenKind::Keyword(Keyword::If) => Some("if"@),
        TokenKind::Keyword(Keyword::Else) => Some("} else"@),
        TokenKind::Keyword(Keyword::Do) => Some("{"@),
        TokenKind::Keyword(Keyword::End) => Some("}"@),
        TokenKind::Keyword(Keyword::Implements) => Some("impl"@),
        TokenKind::Keyword(Keyword::For) => Some("for"@),
        TokenKind::Keyword(Keyword::Function) => Some("fn"@),
        TokenKind::Keyword(Keyword::PublicFunction) => Some("pub fn"@),
        TokenKind::Keyword(Keyword::Let) => Some("let"@),
        TokenKind::Keyword(Keyword::Borrow) => Some("&"@),
        TokenKind::Keyword(Keyword::Own) => Some("*"@),
        TokenKind::Equal => Some("=="@),
        TokenKind::Not => Some("!"@),
        TokenKind::NotEqual => Some("!="@),
        TokenKind::OpenParen => Some("("@),
        TokenKind::Dot => Some("."@),
        TokenKind::Whitespace => Some(" "@),
        TokenKind::NewLine => Some("\n"@),
        TokenKind::Comma => Some(","@),
        TokenKind::Assign => Some("="@),
        TokenKind::DoubleDot => Some(":"@),
        TokenKind::NamespaceSeparator => Some("::"@),
        TokenKind::Operator(Operator::Add) => Some("+"@),
        TokenKind::Operator(Operator::Minus) => Some("-"@),
        TokenKind::Operator(Operator::Multiply) => Some("*"@),
        TokenKind::Operator(Operator::Divide) => Some("/"@),
        TokenKind::Operator(Operator::Mod) => Some("%"@),
        _ => None,
    }
}

/// Looks up the fixed target text of `kind`.
pub fn fixed_fragment(kind: TokenKind) -> (text: Option<&'static str>)
    ensures
        match fixed_text(kind) {
            Some(fixed) => text matches Some(found) && found@ == fixed,
            None => text is None,
        },
{
    match kind {
        TokenKind::Keyword(Keyword::Module) => Some("mod"),
        TokenKind::Keyword(Keyword::Public) => Some("pub"),
        TokenKind::Keyword(Keyword::Trait) => Some("trait"),
        TokenKind::Keyword(Keyword::PublicTrait) => Some("pub trait"),
        TokenKind::Keyword(Keyword::Struct) => Some("#[derive(Debug, Clone, Default, PartialEq)]\nstruct"),
        TokenKind::Keyword(Keyword::PublicStruct) => Some("#[derive(Debug, Clone, Default, PartialEq)]\npub struct"),
        TokenKind::Keyword(Keyword::Enum) => Some("#[derive(Debug, Clone, Default, PartialEq, Eq, PartialOrd, Ord)]\nenum"),
        TokenKind::Keyword(Keyword::PublicEnum) => Some("#[derive(Debug, Clone, Default, PartialEq, Eq, PartialOrd, Ord)]\npub enum"),
        TokenKind::Keyword(Keyword::As) => Some(":"),
        TokenKind::Keyword(Keyword::If) => Some("if"),
        TokenKind::Keyword(Keyword::Else) => Some("} else"),
        TokenKind::Keyword(Keyword::Do) => Some("{"),
        TokenKind::Keyword(Keyword::End) => Some("}"),
        TokenKind::Keyword(Keyword::Implements) => Some("impl"),
        TokenKind::Keyword(Keyword::For) => Some("for"),
        TokenKind::Keyword(Keyword::Function) => Some("fn"),
        TokenKind::Keyword(Keyword::PublicFunction) => Some("pub fn"),
        TokenKind::Keyword(Keyword::Let) => Some("let"),
        TokenKind::Keyword(Keyword::Borrow) => Some("&"),
        TokenKind::Keyword(Keyword::Own) => Some("*"),
        TokenKind::Equal => Some("=="),
        TokenKind::Not => Some("!"),
        TokenKind::NotEqual => Some("!="),
        TokenKind::OpenParen => Some("("),
        TokenKind::Dot => Some("."),
        TokenKind::Whitespace => Some(" "),
        TokenKind::NewLine => Some("\n"),
        TokenKind::Comma => Some(","),
        TokenKind::Assign => Some("="),
        TokenKind::DoubleDot => Some(":"),
        TokenKind::NamespaceSeparator => Some("::"),
        TokenKind::Operator(Operator::Add) => Some("+"),
        TokenKind::Operator(Operator::Minus) => Some("-"),
        TokenKind::Operator(Operator::Multiply) => Some("*"),
        TokenKind::Operator(Operator::Divide) => Some("/"),
        TokenKind::Operator(Operator::Mod) => Some("%"),
        _ => None,
    }
}

/// The name of a type in the source language.
pub open spec fn source_type(kind: LiteralKind) -> Seq<char> {
    match kind {
        LiteralKind::Boolean => "Boolean"@,
        LiteralKind::String => "String"@,
        LiteralKind::Int32 => "Int32"@,
        LiteralKind::Int64 => "Int64"@,
        LiteralKind::UInt32 => "UInt32"@,
        LiteralKind::UInt64 => "UInt64"@,
        LiteralKind::Float64 => "Float64"@,
        LiteralKind::Float32 => "Float32"@,
        LiteralKind::Usize => "Usize"@,
        LiteralKind::Isize => "Isize"@,
        LiteralKind::Char => "Char"@,
        LiteralKind::Byte => "Byte"@,
    }
}

/// The name of the same type in the target language.
pub open spec fn target_type(kind: LiteralKind) -> Seq<char> {
    match kind {
        LiteralKind::Boolean => "bool"@,
        LiteralKind::String => "String"@,
        LiteralKind::Int32 => "i32"@,
        LiteralKind::Int64 => "i64"@,
        LiteralKind::UInt32 => "u32"@,
        LiteralKind::UInt64 => "u64"@,
        LiteralKind::Float64 => "f64"@,
        LiteralKind::Float32 => "f32"@,
        LiteralKind::Usize => "usize"@,
        LiteralKind::Isize => "isize"@,
        LiteralKind::Char => "char"@,
        LiteralKind::Byte => "u8"@,
    }
}

/// The source and target names of the type `kind`.
pub fn type_names(kind: LiteralKind) -> (names: (&'static str, &'static str))
    ensures
        names.0@ == source_type(kind),
        names.1@ == target_type(kind),
{
    match kind {
        LiteralKind::Boolean => ("Boolean", "bool"),
        LiteralKind::String => ("String", "String"),
        LiteralKind::Int32 => ("Int32", "i32"),
        LiteralKind::Int64 => ("Int64", "i64"),
        LiteralKind::UInt32 => ("UInt32", "u32"),
        LiteralKind::UInt64 => ("UInt64", "u64"),
        LiteralKind::Float64 => ("Float64", "f64"),
        LiteralKind::Float32 => ("Float32", "f32"),
        LiteralKind::Usize => ("Usize", "usize"),
        LiteralKind::Isize => ("Isize", "isize"),
        LiteralKind::Char => ("Char", "char"),
        LiteralKind::Byte => ("Byte", "u8"),
    }
}

/// `data` with each line break turned into a statement terminator and the
/// line break.
pub open spec fn terminated(data: Seq<char>) -> Seq<char> {
    replaced(data, "\n"@, ";\n"@)
}

/// The text of a typed literal: its line breaks become statement
/// terminators, then the source type name becomes the target type name.
pub open spec fn literal_text(kind: LiteralKind, data: Seq<char>) -> Seq<char> {
    replaced(terminated(data), source_type(kind), target_type(kind))
}

/// The text of a fragment that may close a statement, under the
/// statement-pending flag: with the flag set its line breaks get their
/// terminators, without it the fragment stands as it is.
pub open spec fn pending_text(pending: bool, data: Seq<char>) -> Seq<char> {
    if pending {
        terminated(data)
    } else {
        data
    }
}

/// Emits a fragment that may close a statement and latches the flag: once
/// a fragment with a line break has been seen, the flag stays set.
pub fn handle_new_line(new_line: &mut bool, data: &str) -> (text: String)
    ensures
        text@ == pending_text(*old(new_line), data@),
        *final(new_line) == (*old(new_line) || has_newline(data@)),
{
    if *new_line {
        replace(data, "\n", ";\n")
    } else {
        proof {
            lemma_newlines_bound(data@);
        }
        if match_newlines(data) > 0 {
            *new_line = true;
        }
        String::from_str(data)
    }
}


/// The part of `s` before its first `c`: all of `s` when it holds none.
pub open spec fn before_first(s: Seq<char>, c: char) -> Seq<char> {
    s.subrange(0, index_of(s, c))
}

/// The part of `s` after its first `c`: empty when it holds none.
pub open spec fn after_first(s: Seq<char>, c: char) -> Seq<char> {
    if index_of(s, c) < s.len() {
        s.subrange(index_of(s, c) + 1, s.len() as int)
    } else {
        Seq::empty()
    }
}

/// One entry of a hash-map literal, freed of `=`, `{` and `}` and of the
/// white space around it.
pub open spec fn stripped(item: Seq<char>) -> Seq<char> {
    trimmed(replaced(replaced(replaced(item, "="@, ""@), "{"@, ""@), "}"@, ""@))
}

/// The key/value pair for one entry `key: value` of a hash-map literal:
/// the key is what stands before the first colon, the value what stands
/// between the first colon and the second. An entry without a colon has an
/// empty value.
pub open spec fn pair_text(item: Seq<char>) -> Seq<char> {
    let entry = stripped(item);
    "(\""@ + before_first(entry, ':') + "\", "@ + before_first(after_first(entry, ':'), ':')
        + ")"@
}

/// The pairs for the entries of `items`, which commas separate, themselves
/// joined by commas.
pub open spec fn pairs_text(items: Seq<char>) -> Seq<char>
    decreases items.len(),
{
    let at = index_of(items, ',');
    if 0 <= at < items.len() {
        pair_text(items.subrange(0, at)) + ","@ + pairs_text(
            items.subrange(at + 1, items.len() as int),
        )
    } else {
        pair_text(items)
    }
}

/// The construction expression for a hash-map literal, closed by a
/// statement terminator when the literal's raw text holds a line break.
pub open spec fn hash_map_text(data: Seq<char>) -> Seq<char> {
    ": std::collections::HashMap<&str, _> = ["@ + pairs_text(data)
        + "].iter().cloned().collect()"@ + if has_newline(data) {
        ";\n"@
    } else {
        Seq::empty()
    }
}

/// Writes the key/value pair for one entry of a hash-map literal.
pub fn pair(item: &str) -> (text: String)
    ensures
        text@ == pair_text(item@),
{
    let without_assign = replace(item, "=", "");
    let without_open = replace(without_assign.as_str(), "{", "");
    let without_close = replace(without_open.as_str(), "}", "");
    let entry = trim(without_close.as_str());
    let length: usize = entry.unicode_len();
    let colon: usize = find_from(entry, ':', 0);
    proof {
        assert(entry@.subrange(0, length as int) =~= entry@);
    }
    let mut text = String::from_str("(\"");
    text.append(entry.substring_char(0, colon));
    text.append("\", ");
    if colon < length {
        let second: usize = find_from(entry, ':', colon + 1);
        text.append(entry.substring_char(colon + 1, second));
    }
    text.append(")");
    text
}

/// Writes the pairs for all entries of a hash-map literal.
pub fn pairs(data: &str) -> (text: String)
    ensures
        text@ == pairs_text(data@),
{
    let length: usize = data.unicode_len();
    let mut text = String::new();
    let mut start: usize = 0;
    proof {
        assert(data@.subrange(0, length as int) =~= data@);
    }
    loop
        invariant
            length == data@.len(),
            start <= length,
            pairs_text(data@) == text@ + pairs_text(data@.subrange(start as int, length as int)),
        decreases length - start,
    {
        let ghost tail = data@.subrange(start as int, length as int);
        let at: usize = find_from(data, ',', start);
        let entry = pair(data.substring_char(start, at));
        proof {
            assert(tail.subrange(0, at - start) =~= data@.subrange(start as int, at as int));
        }
        text.append(entry.as_str());
        if at >= length {
            return text;
        }
        text.append(",");
        proof {
            let next = data@.subrange(at + 1, length as int);
            assert(tail.subrange(at - start + 1, tail.len() as int) =~= next);
        }
        start = at + 1;
    }
}

/// Rewrites a hash-map literal as a typed construction expression.
pub fn hash_map(data: &str) -> (text: String)
    ensures
        text@ == hash_map_text(data@),
{
    let entries = pairs(data);
    let mut text = String::from_str(": std::collections::HashMap<&str, _> = [");
    text.append(entries.as_str());
    text.append("].iter().cloned().collect()");
    proof {
        lemma_newlines_bound(data@);
    }
    if match_newlines(data) > 0 {
        text.append(";\n");
    }
    text
}

/// Whether the text of a token of this kind depends on the
/// statement-pending flag and latches it.
pub open spec fn closes_statement(kind: TokenKind) -> bool {
    ||| kind == TokenKind::Identifier
    ||| kind == TokenKind::CloseParen
    ||| kind == TokenKind::Lexeme(Lexeme::String)
    ||| kind == TokenKind::Collection(Collection::Array)
    ||| kind == TokenKind::Collection(Collection::Tuple)
}

/// The target text of one token of kind `kind` with raw text `data`, under
/// the statement-pending flag `pending`. A kind that the mapping does not
/// cover yields the empty text.
pub open spec fn fragment(kind: TokenKind, data: Seq<char>, pending: bool) -> Seq<char> {
    match fixed_text(kind) {
        Some(fixed) => fixed,
        None => match kind {
            TokenKind::Keyword(Keyword::Derive) => "#["@ + data + "]"@,
            TokenKind::TypeWithGeneric => terminated(data),
            TokenKind::Macro => data,
            TokenKind::Collection(Collection::HashMap) => hash_map_text(data),
            TokenKind::Literal(literal) => literal_text(literal, data),
            _ => if closes_statement(kind) {
                pending_text(pending, data)
            } else {
                Seq::empty()
            },
        },
    }
}

/// The statement-pending flag after a token of kind `kind` with raw text
/// `data`: `return` clears it, a fragment that may close a statement sets
/// it when it holds a line break, every other token leaves it.
pub open spec fn pending_after(kind: TokenKind, data: Seq<char>, pending: bool) -> bool {
    if kind == TokenKind::Keyword(Keyword::Return) {
        false
    } else if closes_statement(kind) {
        pending || has_newline(data)
    } else {
        pending
    }
}

/// Emits the target text of one token and updates the statement-pending
/// flag.
pub fn emit(kind: TokenKind, data: &str, pending: &mut bool) -> (text: String)
    ensures
        text@ == fragment(kind, data@, *old(pending)),
        *final(pending) == pending_after(kind, data@, *old(pending)),
{
    match fixed_fragment(kind) {
        Some(fixed) => String::from_str(fixed),
        None => match kind {
            TokenKind::Keyword(Keyword::Derive) => {
                let mut text = String::from_str("#[");
                text.append(data);
                text.append("]");
                text
            },
            TokenKind::Keyword(Keyword::Return) => {
                *pending = false;
                String::new()
            },
            TokenKind::TypeWithGeneric => replace(data, "\n", ";\n"),
            TokenKind::Macro => String::from_str(data),
            TokenKind::Collection(Collection::HashMap) => hash_map(data),
            TokenKind::Literal(literal) => {
                let (source, target) = type_names(literal);
                let ended = replace(data, "\n", ";\n");
                replace(ended.as_str(), source, target)
            },
            TokenKind::Identifier => handle_new_line(pending, data),
            TokenKind::CloseParen => handle_new_line(pending, data),
            TokenKind::Lexeme(Lexeme::String) => handle_new_line(pending, data),
            TokenKind::Collection(Collection::Array) => handle_new_line(pending, data),
            TokenKind::Collection(Collection::Tuple) => handle_new_line(pending, data),
            _ => String::new(),
        },
    }
}

/// The text of one node by itself, without its children: empty for a node
/// that holds no raw text.
pub open spec fn node_text(node: Tree, pending: bool) -> Seq<char> {
    match node.data {
        Some(data) => fragment(node.token.kind, data, pending),
        None => Seq::empty(),
    }
}

/// The statement-pending flag after `node`.
pub open spec fn node_pending(node: Tree, pending: bool) -> bool {
    match node.data {
        Some(data) => pending_after(node.token.kind, data, pending),
        None => pending,
    }
}

/// The target text of one tree level, from its first node on: each node's
/// own text, directly followed by the text of its children, which start
/// with a flag of their own, set. The flag `pending` runs through the
/// siblings from left to right.
pub open spec fn level_text(nodes: Seq<Tree>, pending: bool) -> Seq<char>
    decreases nodes,
{
    if nodes.len() == 0 {
        Seq::empty()
    } else {
        node_text(nodes[0], pending) + level_text(nodes[0].children, true) + level_text(
            nodes.subrange(1, nodes.len() as int),
            node_pending(nodes[0], pending),
        )
    }
}

/// The target text of a whole tree: the text of the level under its root.
pub open spec fn generated(tree: Tree) -> Seq<char> {
    level_text(tree.children, true)
}

/// Generation has no hidden state. The text of a tree is determined by the
/// nodes under its root alone, so generating twice from the same tree
/// gives the same text. And the text of what stands under a node does not
/// depend on the statement-pending flag of the level the node stands on:
/// every level starts with a flag of its own, set.
pub proof fn lemma_generation_has_no_hidden_state(
    first: Tree,
    second: Tree,
    node: Tree,
    pending: bool,
)
    requires
        first.children == second.children,
    ensures
        generated(first) == generated(second),
        level_text(seq![node], pending) == node_text(node, pending) + level_text(
            node.children,
            true,
        ),
{
    assert(seq![node].subrange(1, 1) =~= Seq::<Tree>::empty());
    assert(level_text(Seq::<Tree>::empty(), node_pending(node, pending)) =~= Seq::<char>::empty());
}

/// Generates the text of one tree level, starting with the
/// statement-pending flag set.
pub fn transpile_level(nodes: &Vec<Node>) -> (text: String)
    ensures
        text@ == level_text(trees_of(nodes@), true),
    decreases nodes,
{
    let count: usize = nodes.len();
    let ghost trees = trees_of(nodes@);
    let mut text = String::new();
    let mut pending = true;
    let mut i: usize = 0;
    proof {
        lemma_trees_of_index(nodes@);
        assert(trees.subrange(0, count as int) =~= trees);
    }
    while i < count
        invariant
            count == nodes@.len(),
            i <= count,
            trees == trees_of(nodes@),
            trees.len() == count,
            forall|k: int| 0 <= k < count ==> (#[trigger] trees[k]) == nodes@[k]@,
            level_text(trees, true) == text@ + level_text(
                trees.subrange(i as int, count as int),
                pending,
            ),
        decreases count - i,
    {
        let node = &nodes[i];
        let ghost tail = trees.subrange(i as int, count as int);
        proof {
            assert(tail.subrange(1, tail.len() as int) =~= trees.subrange(i + 1, count as int));
        }
        match &node.data {
            Some(data) => {
                let piece = emit(node.token.kind, data.as_str(), &mut pending);
                text.append(piece.as_str());
            },
            None => {},
        }
        let below = transpile_level(&node.children);
        text.append(below.as_str());
        i = i + 1;
    }
    text
}

/// Generates the target text of the tree under `ast`. The walk is
/// depth-first: each node's text is followed at once by the text of its
/// children. The root's own token is not emitted.
pub fn transpile(ast: Node) -> (text: String)
    ensures
        text@ == generated(ast@),
{
    transpile_level(&ast.children)
}

/// Whether the mapping from token kinds to target text covers `kind`. A
/// kind that it does not cover is emitted as the empty text.
pub open spec fn is_mapped(kind: TokenKind) -> bool {
    ||| fixed_text(kind) is Some
    ||| closes_statement(kind)
    ||| kind is Literal
    ||| kind == TokenKind::Keyword(Keyword::Derive)
    ||| kind == TokenKind::Keyword(Keyword::Return)
    ||| kind == TokenKind::TypeWithGeneric
    ||| kind == TokenKind::Macro
    ||| kind == TokenKind::Collection(Collection::HashMap)
}

/// Tests whether the mapping covers `kind`.
pub fn covers(kind: TokenKind) -> (mapped: bool)
    ensures
        mapped == is_mapped(kind),
{
    match fixed_fragment(kind) {
        Some(_) => true,
        None => match kind {
            TokenKind::Keyword(Keyword::Derive) => true,
            TokenKind::Keyword(Keyword::Return) => true,
            TokenKind::TypeWithGeneric => true,
            TokenKind::Macro => true,
            TokenKind::Collection(Collection::HashMap) => true,
            TokenKind::Literal(_) => true,
            TokenKind::Identifier => true,
            TokenKind::CloseParen => true,
            TokenKind::Lexeme(Lexeme::String) => true,
            TokenKind::Collection(Collection::Array) => true,
            TokenKind::Collection(Collection::Tuple) => true,
            _ => false,
        },
    }
}

/// The first token, in the order of the depth-first walk, that holds raw
/// text and whose kind the mapping does not cover.
pub open spec fn first_unmapped(nodes: Seq<Tree>) -> Option<Token>
    decreases nodes,
{
    if nodes.len() == 0 {
        None
    } else if nodes[0].data is Some && !is_mapped(nodes[0].token.kind) {
        Some(nodes[0].token)
    } else {
        match first_unmapped(nodes[0].children) {
            Some(token) => Some(token),
            None => first_unmapped(nodes.subrange(1, nodes.len() as int)),
        }
    }
}

/// A token that strict generation refuses: its kind and its line.
#[derive(Clone, Copy, Debug, PartialEq, Eq, Structural)]
pub struct GenerateError {
    pub kind: TokenKind,
    pub line: i32,
}

/// Finds the first node of these levels that strict generation refuses.
pub fn find_unmapped(nodes: &Vec<Node>) -> (found: Option<Token>)
    ensures
        found == first_unmapped(trees_of(nodes@)),
    decreases nodes,
{
    let count: usize = nodes.len();
    let ghost trees = trees_of(nodes@);
    let mut i: usize = 0;
    proof {
        lemma_trees_of_index(nodes@);
        assert(trees.subrange(0, count as int) =~= trees);
    }
    while i < count
        invariant
            count == nodes@.len(),
            i <= count,
            trees == trees_of(nodes@),
            trees.len() == count,
            forall|k: int| 0 <= k < count ==> (#[trigger] trees[k]) == nodes@[k]@,
            first_unmapped(trees) == first_unmapped(trees.subrange(i as int, count as int)),
        decreases count - i,
    {
        let node = &nodes[i];
        let ghost tail = trees.subrange(i as int, count as int);
        proof {
            assert(tail.subrange(1, tail.len() as int) =~= trees.subrange(i + 1, count as int));
        }
        if node.data.is_some() && !covers(node.token.kind) {
            return Some(node.token);
        }
        match find_unmapped(&node.children) {
            Some(token) => {
                return Some(token);
            },
            None => {},
        }
        i = i + 1;
    }
    None
}

/// Generates the target text of the tree under `ast`, or refuses: where
/// `transpile` would drop a token because the mapping does not cover its
/// kind, this function fails and names the first such token.
pub fn transpile_strict(ast: &Node) -> (outcome: Result<String, GenerateError>)
    ensures
        match first_unmapped(ast@.children) {
            Some(token) => outcome == Err::<String, GenerateError>(
                GenerateError { kind: token.kind, line: token.span.line },
            ),
            None => outcome matches Ok(text) && text@ == generated(ast@),
        },
{
    match find_unmapped(&ast.children) {
        Some(token) => Err(GenerateError { kind: token.kind, line: token.span.line }),
        None => Ok(transpile_level(&ast.children)),
    }
}

} // verus!



