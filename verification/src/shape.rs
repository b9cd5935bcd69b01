//! The shape of parsed trees: which nodes have children, and which.

use vstd::prelude::*;
use crate::ast::Tree;
use crate::block_keyword::{closes_block, opens_block, DO};
use crate::macro_body::{macro_body, with_child};
use crate::parser::{
    begins_after, ends_after, introduces_function, introduces_macro, leaf, lemma_node_consumes,
    lemma_scope_consumes, parsed_node, parsed_scope, parsed_source,
};
use crate::text::line_after;
use crate::token::TokenKind;
use crate::tokenizer::{lemma_token_consumes, next_token};

verus! {

/// Whether a token of kind `kind` opens or closes a block under `mark`.
pub open spec fn is_marker(kind: TokenKind, mark: Seq<char>) -> bool {
    opens_block(kind, mark) || closes_block(kind, mark)
}

/// Whether `nodes` have the shape that parsing gives a tree level.
///
/// Every node holds raw text. A macro marker has exactly one child, a
/// macro body without children. A function keyword has its scope as
/// children: a level of the same shape that ends with the `do` or `end`
/// that closed it. Every other node is a leaf, so that the opener and the
/// closer of an ordinary block stand side by side on one level.
pub open spec fn well_shaped(nodes: Seq<Tree>) -> bool
    decreases nodes,
{
    if nodes.len() == 0 {
        true
    } else {
        let node = nodes[0];
        &&& node.data is Some
        &&& introduces_macro(node.token.kind) ==> {
            &&& node.children.len() == 1
            &&& node.children[0].token.kind == TokenKind::MacroBody
            &&& node.children[0].data is Some
            &&& node.children[0].children.len() == 0
        }
        &&& introduces_function(node.token.kind) ==> {
            &&& node.children.len() > 0
            &&& is_marker(node.children.last().token.kind, DO@)
            &&& well_shaped(node.children)
        }
        &&& !introduces_macro(node.token.kind) && !introduces_function(node.token.kind)
            ==> node.children.len() == 0
        &&& well_shaped(nodes.subrange(1, nodes.len() as int))
    }
}

proof fn lemma_shaped_concat(first: Seq<Tree>, second: Seq<Tree>)
    requires
        well_shaped(first),
        well_shaped(second),
    ensures
        well_shaped(first + second),
    decreases first.len(),
{
    if first.len() == 0 {
    } else {
        let rest = first.subrange(1, first.len() as int);
        lemma_shaped_concat(rest, second);
        assert((first + second).subrange(1, (first + second).len() as int) =~= rest + second);
    }
}

proof fn lemma_shaped_single(node: Tree)
    ensures
        well_shaped(seq![node]) <==> {
            &&& node.data is Some
            &&& introduces_macro(node.token.kind) ==> {
                &&& node.children.len() == 1
                &&& node.children[0].token.kind == TokenKind::MacroBody
                &&& node.children[0].data is Some
                &&& node.children[0].children.len() == 0
            }
            &&& introduces_function(node.token.kind) ==> {
                &&& node.children.len() > 0
                &&& is_marker(node.children.last().token.kind, DO@)
                &&& well_shaped(node.children)
            }
            &&& !introduces_macro(node.token.kind) && !introduces_function(node.token.kind)
                ==> node.children.len() == 0
        },
{
    assert(seq![node].subrange(1, 1) =~= Seq::<Tree>::empty());
    assert(well_shaped(Seq::<Tree>::empty()));
}

/// A parsed node has the shape of its kind.
pub proof fn lemma_node_shaped(text: Seq<char>, line: i32)
    ensures
        parsed_node(text, line) matches Ok(unit) ==> well_shaped(seq![unit.node]),
    decreases text.len(), 0int,
{
    lemma_token_consumes(text, line);
    match next_token(text, line) {
        None => {},
        Some((token, (matched, after))) => {
            let here = line_after(line, matched);
            let head = leaf(token, matched);
            if introduces_macro(token.kind) {
                match macro_body(after, here) {
                    Ok(body) => {
                        let node = with_child(head, body.node);
                        lemma_shaped_single(node);
                    },
                    Err(_) => {},
                }
            } else if introduces_function(token.kind) {
                lemma_scope_shaped(after, here, DO@, 0, 0);
                match parsed_scope(after, here, DO@, 0, 0) {
                    Ok(scope) => {
                        lemma_shaped_single(Tree { children: scope.nodes, ..head });
                    },
                    Err(_) => {},
                }
            } else {
                lemma_shaped_single(head);
            }
        },
    }
}

/// The nodes of a scope have the shape of a tree level, and a scope that
/// was closed ends with the marker that closed it.
pub proof fn lemma_scope_shaped(text: Seq<char>, line: i32, mark: Seq<char>, begins: int, ends: int)
    requires
        !(begins == ends && begins > 0),
    ensures
        parsed_scope(text, line, mark, begins, ends) matches Ok(parsed) ==> {
            &&& well_shaped(parsed.nodes)
            &&& parsed.closed ==> parsed.nodes.len() > 0 && is_marker(
                parsed.nodes.last().token.kind,
                mark,
            )
        },
    decreases text.len(), 1int,
{
    if text.len() > 0 {
        lemma_node_shaped(text, line);
        lemma_node_consumes(text, line);
        match parsed_node(text, line) {
            Err(_) => {},
            Ok(unit) => {
                let begins_now = begins_after(unit.node.token.kind, mark, begins);
                let ends_now = ends_after(unit.node.token.kind, mark, ends);
                if !(begins_now == ends_now && begins_now > 0) {
                    lemma_scope_shaped(unit.rest, unit.line, mark, begins_now, ends_now);
                    match parsed_scope(unit.rest, unit.line, mark, begins_now, ends_now) {
                        Ok(parsed) => {
                            lemma_shaped_concat(seq![unit.node], parsed.nodes);
                        },
                        Err(_) => {},
                    }
                }
            },
        }
    }
}

/// Only functions and macros nest. In a parsed tree every node holds raw
/// text; a macro marker has its body as its one child; a function keyword
/// has its whole scope as children, the closing marker last; and every
/// other node is a leaf, whatever blocks the source opens and closes.
pub proof fn lemma_tree_shaped(source: Seq<char>, line: i32)
    ensures
        parsed_source(source, line) matches Ok(nodes) ==> well_shaped(nodes),
    decreases source.len(),
{
    if source.len() > 0 {
        lemma_scope_shaped(source, line, DO@, 0, 0);
        lemma_scope_consumes(source, line, DO@, 0, 0);
        match parsed_scope(source, line, DO@, 0, 0) {
            Err(_) => {},
            Ok(scope) => {
                lemma_tree_shaped(scope.rest, scope.line);
                match parsed_source(scope.rest, scope.line) {
                    Ok(more) => {
                        lemma_shaped_concat(scope.nodes, more);
                    },
                    Err(_) => {},
                }
            },
        }
    }
}

} // verus!
