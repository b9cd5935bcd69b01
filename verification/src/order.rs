//! The order of a parsed tree: its raw texts spell the source from left to
//! right.

use vstd::prelude::*;
use crate::ast::Tree;
use crate::block_keyword::{closing_of, DO};
use crate::macro_body::{
    balance_end, body_at, lemma_balance_end_on_delimiter, with_child, LEADING_SPACE,
};
use crate::parser::{
    begins_after, ends_after, introduces_function, introduces_macro, leaf, lemma_node_consumes,
    lemma_scope_consumes, parsed_node, parsed_scope, parsed_source,
};
use crate::pattern::captures_of;
use crate::text::{lemma_line_after_concat, line_after};
use crate::token::TokenKind;
use crate::tokenizer::{lemma_token_consumes, lemma_token_is_no_body, next_token};

verus! {

/// The piece of source that a node's own token stands for: its raw text,
/// without the statement terminator that the parser adds to a macro body.
pub open spec fn source_text(node: Tree) -> Seq<char> {
    match node.data {
        Some(data) => if node.token.kind == TokenKind::MacroBody && data.len() > 0 && data.last()
            == ';' {
            data.drop_last()
        } else {
            data
        },
        None => Seq::empty(),
    }
}

/// Whether `text` spells `nodes`: read from left to right, it is the
/// source text of the first node, then what spells the children of that
/// node, then what spells the nodes after it. Text that belongs to no node
/// stands only before a macro body.
pub open spec fn spells(text: Seq<char>, nodes: Seq<Tree>) -> bool
    decreases nodes,
{
    if nodes.len() == 0 {
        text.len() == 0
    } else {
        exists|gap: int, inner: int, end: int|
            {
                &&& 0 <= gap <= inner <= end <= text.len()
                &&& gap > 0 ==> nodes[0].token.kind == TokenKind::MacroBody
                &&& #[trigger] text.subrange(gap, inner) == source_text(nodes[0])
                &&& spells(#[trigger] text.subrange(inner, end), nodes[0].children)
                &&& spells(
                    text.subrange(end, text.len() as int),
                    nodes.subrange(1, nodes.len() as int),
                )
            }
    }
}

/// The rule by which `spells` is shown for a level that begins with `node`.
proof fn lemma_spells_first(
    text: Seq<char>,
    node: Tree,
    others: Seq<Tree>,
    gap: int,
    inner: int,
    end: int,
)
    requires
        0 <= gap <= inner <= end <= text.len(),
        gap > 0 ==> node.token.kind == TokenKind::MacroBody,
        text.subrange(gap, inner) == source_text(node),
        spells(text.subrange(inner, end), node.children),
        spells(text.subrange(end, text.len() as int), others),
    ensures
        spells(text, seq![node] + others),
{
    let nodes = seq![node] + others;
    assert(nodes.subrange(1, nodes.len() as int) =~= others);
}

/// Texts that spell two runs of nodes spell, put together, the two runs put
/// together.
proof fn lemma_spells_concat(first: Seq<char>, nodes: Seq<Tree>, second: Seq<char>, more: Seq<Tree>)
    requires
        spells(first, nodes),
        spells(second, more),
    ensures
        spells(first + second, nodes + more),
    decreases nodes.len(),
{
    if nodes.len() > 0 {
        let (gap, inner, end) = choose|gap: int, inner: int, end: int|
            {
                &&& 0 <= gap <= inner <= end <= first.len()
                &&& gap > 0 ==> nodes[0].token.kind == TokenKind::MacroBody
                &&& #[trigger] first.subrange(gap, inner) == source_text(nodes[0])
                &&& spells(#[trigger] first.subrange(inner, end), nodes[0].children)
                &&& spells(
                    first.subrange(end, first.len() as int),
                    nodes.subrange(1, nodes.len() as int),
                )
            };
        let whole = first + second;
        let others = nodes.subrange(1, nodes.len() as int);
        lemma_spells_concat(first.subrange(end, first.len() as int), others, second, more);
        assert(whole.subrange(gap, inner) =~= first.subrange(gap, inner));
        assert(whole.subrange(inner, end) =~= first.subrange(inner, end));
        assert(whole.subrange(end, whole.len() as int) =~= first.subrange(end, first.len() as int)
            + second);
        lemma_spells_first(whole, nodes[0], others + more, gap, inner, end);
        assert(seq![nodes[0]] + (others + more) =~= nodes + more);
    }
}

/// Whether `text` ends with `rest`.
pub open spec fn ends_with(text: Seq<char>, rest: Seq<char>) -> bool {
    rest.len() <= text.len() && text.subrange(text.len() - rest.len(), text.len() as int) == rest
}

/// What was read of `text` when `rest` is left of it.
pub open spec fn consumed(text: Seq<char>, rest: Seq<char>) -> Seq<char> {
    text.subrange(0, text.len() - rest.len())
}

/// A text ends with its second half, and what was read is its first.
proof fn lemma_ends_with_half(head: Seq<char>, tail: Seq<char>)
    ensures
        ends_with(head + tail, tail),
        consumed(head + tail, tail) == head,
{
    let whole = head + tail;
    assert(whole.subrange(whole.len() - tail.len(), whole.len() as int) =~= tail);
}

/// The end of an end is an end, and what was read adds up.
proof fn lemma_ends_with_chain(text: Seq<char>, middle: Seq<char>, rest: Seq<char>)
    requires
        ends_with(text, middle),
        ends_with(middle, rest),
    ensures
        ends_with(text, rest),
        consumed(text, rest) == consumed(text, middle) + consumed(middle, rest),
{
    assert(text.subrange(text.len() - rest.len(), text.len() as int) =~= middle.subrange(
        middle.len() - rest.len(),
        middle.len() as int,
    ));
}

proof fn lemma_spells_nothing(text: Seq<char>)
    requires
        text.len() == 0,
    ensures
        spells(text, Seq::empty()),
{
}

proof fn lemma_spells_leaf(matched: Seq<char>, node: Tree)
    requires
        node.children.len() == 0,
        source_text(node) == matched,
    ensures
        spells(matched, seq![node]),
{
    let end = matched.len() as int;
    assert(matched.subrange(0, end) =~= matched);
    lemma_spells_nothing(matched.subrange(end, end));
    lemma_spells_first(matched, node, Seq::empty(), 0, end, end);
}

/// A macro body is spelled by the white space skipped before it and its
/// span.
proof fn lemma_body_spelled(space: Seq<char>, text: Seq<char>, line: i32)
    ensures
        body_at(text, line) matches Some(body) ==> {
            &&& ends_with(text, body.rest)
            &&& spells(space + consumed(text, body.rest), seq![body.node])
            &&& body.line == line_after(line, consumed(text, body.rest))
        },
{
    if text.len() > 0 && closing_of(text[0]) is Some {
        let close = closing_of(text[0]).unwrap();
        lemma_balance_end_on_delimiter(text, text[0], close, 0, 0, 0);
        match balance_end(text, text[0], close, 0, 0, 0) {
            Some(end) => {
                let body = body_at(text, line).unwrap();
                let span = text.subrange(0, end);
                let whole = space + span;
                lemma_ends_with_half(span, body.rest);
                assert(span.push(';').drop_last() =~= span);
                let from = space.len() as int;
                let to = whole.len() as int;
                assert(whole.subrange(from, to) =~= span);
                lemma_spells_nothing(whole.subrange(to, to));
                lemma_spells_first(whole, body.node, Seq::empty(), from, to, to);
            },
            None => {},
        }
    }
}

/// A node that has `matched` as its own text and, as children, nodes that
/// `below` spells, is spelled by the two put together.
proof fn lemma_spells_parent(matched: Seq<char>, below: Seq<char>, node: Tree)
    requires
        source_text(node) == matched,
        spells(below, node.children),
    ensures
        spells(matched + below, seq![node]),
{
    let read = matched + below;
    let width = matched.len() as int;
    assert(read.subrange(0, width) =~= matched);
    assert(read.subrange(width, read.len() as int) =~= below);
    lemma_spells_nothing(read.subrange(read.len() as int, read.len() as int));
    lemma_spells_first(read, node, Seq::empty(), 0, width, read.len() as int);
}

/// A node is spelled by what was read for it.
pub proof fn lemma_node_spelled(text: Seq<char>, line: i32)
    ensures
        parsed_node(text, line) matches Ok(unit) ==> ends_with(text, unit.rest) && spells(
            consumed(text, unit.rest),
            seq![unit.node],
        ),
    decreases text.len(), 0int,
{
    lemma_token_consumes(text, line);
    lemma_token_is_no_body(text, line);
    match next_token(text, line) {
        None => {},
        Some((token, (matched, after))) => {
            let here = line_after(line, matched);
            let head = leaf(token, matched);
            lemma_ends_with_half(matched, after);
            if introduces_macro(token.kind) {
                match captures_of(LEADING_SPACE@, after) {
                    Some((space, inside)) => {
                        if space + inside == after {
                            let there = line_after(here, space);
                            lemma_body_spelled(space, inside, there);
                            match body_at(inside, there) {
                                Some(body) => {
                                    let node = with_child(head, body.node);
                                    lemma_ends_with_half(space, inside);
                                    lemma_ends_with_chain(after, inside, body.rest);
                                    lemma_ends_with_chain(text, after, body.rest);
                                    lemma_spells_parent(matched, consumed(after, body.rest), node);
                                },
                                None => {},
                            }
                        }
                    },
                    None => {},
                }
            } else if introduces_function(token.kind) {
                lemma_scope_spelled(after, here, DO@, 0, 0);
                match parsed_scope(after, here, DO@, 0, 0) {
                    Ok(scope) => {
                        let node = Tree { children: scope.nodes, ..head };
                        lemma_ends_with_chain(text, after, scope.rest);
                        lemma_spells_parent(matched, consumed(after, scope.rest), node);
                    },
                    Err(_) => {},
                }
            } else {
                lemma_spells_leaf(matched, head);
            }
        },
    }
}

/// The nodes of a scope are spelled by what the scope read.
pub proof fn lemma_scope_spelled(text: Seq<char>, line: i32, mark: Seq<char>, begins: int, ends: int)
    ensures
        parsed_scope(text, line, mark, begins, ends) matches Ok(parsed) ==> ends_with(
            text,
            parsed.rest,
        ) && spells(consumed(text, parsed.rest), parsed.nodes),
    decreases text.len(), 1int,
{
    if text.len() == 0 {
        lemma_ends_with_half(Seq::empty(), text);
        lemma_spells_nothing(consumed(text, text));
    } else {
        lemma_node_spelled(text, line);
        lemma_node_consumes(text, line);
        match parsed_node(text, line) {
            Err(_) => {},
            Ok(unit) => {
                let begins_now = begins_after(unit.node.token.kind, mark, begins);
                let ends_now = ends_after(unit.node.token.kind, mark, ends);
                if !(begins_now == ends_now && begins_now > 0) {
                    lemma_scope_spelled(unit.rest, unit.line, mark, begins_now, ends_now);
                    match parsed_scope(unit.rest, unit.line, mark, begins_now, ends_now) {
                        Ok(parsed) => {
                            lemma_ends_with_chain(text, unit.rest, parsed.rest);
                            lemma_spells_concat(
                                consumed(text, unit.rest),
                                seq![unit.node],
                                consumed(unit.rest, parsed.rest),
                                parsed.nodes,
                            );
                        },
                        Err(_) => {},
                    }
                }
            },
        }
    }
}

/// A tree spells its source. Read in the order of the depth-first walk,
/// the raw texts of a parsed tree are the source from its first character
/// to its last: each node's text stands where the text of the nodes
/// before it ends, children directly after their node, and nothing of the
/// source is left out but the white space between a macro marker and its
/// body. So the order of the children is the order of the source.
pub proof fn lemma_tree_spells_source(source: Seq<char>, line: i32)
    ensures
        parsed_source(source, line) matches Ok(nodes) ==> spells(source, nodes),
    decreases source.len(),
{
    if source.len() == 0 {
        lemma_spells_nothing(source);
    } else {
        lemma_scope_spelled(source, line, DO@, 0, 0);
        lemma_scope_consumes(source, line, DO@, 0, 0);
        match parsed_scope(source, line, DO@, 0, 0) {
            Err(_) => {},
            Ok(scope) => {
                lemma_tree_spells_source(scope.rest, scope.line);
                match parsed_source(scope.rest, scope.line) {
                    Ok(more) => {
                        lemma_spells_concat(
                            consumed(source, scope.rest),
                            scope.nodes,
                            scope.rest,
                            more,
                        );
                        assert(consumed(source, scope.rest) + scope.rest =~= source);
                    },
                    Err(_) => {},
                }
            },
        }
    }
}

/// The line reached after a node is the line it began on, advanced by the
/// line breaks of what was read for it.
pub proof fn lemma_node_line(text: Seq<char>, line: i32)
    ensures
        parsed_node(text, line) matches Ok(unit) ==> unit.line == line_after(
            line,
            consumed(text, unit.rest),
        ),
    decreases text.len(), 0int,
{
    lemma_token_consumes(text, line);
    lemma_node_spelled(text, line);
    match next_token(text, line) {
        None => {},
        Some((token, (matched, after))) => {
            let here = line_after(line, matched);
            lemma_ends_with_half(matched, after);
            if introduces_macro(token.kind) {
                match captures_of(LEADING_SPACE@, after) {
                    Some((space, inside)) => {
                        if space + inside == after {
                            let there = line_after(here, space);
                            lemma_body_spelled(space, inside, there);
                            match body_at(inside, there) {
                                Some(body) => {
                                    lemma_ends_with_half(space, inside);
                                    lemma_ends_with_chain(after, inside, body.rest);
                                    lemma_ends_with_chain(text, after, body.rest);
                                    lemma_line_after_concat(here, space, consumed(inside, body.rest));
                                    lemma_line_after_concat(line, matched, consumed(after, body.rest));
                                },
                                None => {},
                            }
                        }
                    },
                    None => {},
                }
            } else if introduces_function(token.kind) {
                lemma_scope_line(after, here, DO@, 0, 0);
                lemma_scope_spelled(after, here, DO@, 0, 0);
                match parsed_scope(after, here, DO@, 0, 0) {
                    Ok(scope) => {
                        lemma_ends_with_chain(text, after, scope.rest);
                        lemma_line_after_concat(line, matched, consumed(after, scope.rest));
                    },
                    Err(_) => {},
                }
            }
        },
    }
}

/// Line breaks are counted once each. The line that a scope reports at
/// its end is the line it was entered on, advanced by the line breaks of
/// all the text it read, those inside macro bodies and function scopes
/// included.
pub proof fn lemma_scope_line(text: Seq<char>, line: i32, mark: Seq<char>, begins: int, ends: int)
    ensures
        parsed_scope(text, line, mark, begins, ends) matches Ok(parsed) ==> parsed.line
            == line_after(line, consumed(text, parsed.rest)),
    decreases text.len(), 1int,
{
    if text.len() > 0 {
        lemma_node_line(text, line);
        lemma_node_spelled(text, line);
        lemma_node_consumes(text, line);
        match parsed_node(text, line) {
            Err(_) => {},
            Ok(unit) => {
                let begins_now = begins_after(unit.node.token.kind, mark, begins);
                let ends_now = ends_after(unit.node.token.kind, mark, ends);
                if !(begins_now == ends_now && begins_now > 0) {
                    lemma_scope_line(unit.rest, unit.line, mark, begins_now, ends_now);
                    lemma_scope_spelled(unit.rest, unit.line, mark, begins_now, ends_now);
                    match parsed_scope(unit.rest, unit.line, mark, begins_now, ends_now) {
                        Ok(parsed) => {
                            lemma_ends_with_chain(text, unit.rest, parsed.rest);
                            lemma_line_after_concat(
                                line,
                                consumed(text, unit.rest),
                                consumed(unit.rest, parsed.rest),
                            );
                        },
                        Err(_) => {},
                    }
                }
            },
        }
    }
}

} // verus!
