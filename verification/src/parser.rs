//! The scope-aware parser: it drives the tokenizer, builds the tree, and
//! counts block openers and closers to tell where a scope ends.

use vstd::prelude::*;
use crate::ast::{lemma_trees_of_push, trees_of, Node, Tree};
use crate::block_keyword::{closes_block, match_block_begin, match_block_end, opens_block, DO};
use crate::error::{Failure, ParseError, ParseErrorKind};
use crate::keyword::Keyword;
use crate::macro_body::{lemma_macro_body_consumes, macro_body, parse_macro_body, with_child};
use crate::text::{advance_line, line_after};
use crate::token::{Span, Token, TokenKind};
use crate::tokenizer::{lemma_token_consumes, next_token, tokenize_one};

verus! {

/// One node with everything nested under it, the text after it, and the
/// line reached there.
pub ghost struct Unit {
    pub node: Tree,
    pub rest: Seq<char>,
    pub line: i32,
}

/// What one scope activation yields: the nodes of its level in source
/// order, the unconsumed remainder, the line reached, and whether it ended
/// on the closer that brought openers and closers level (`closed`) or on
/// the end of the input.
pub ghost struct Parsed {
    pub nodes: Seq<Tree>,
    pub rest: Seq<char>,
    pub line: i32,
    pub closed: bool,
}

/// A node without children that holds `matched` as its raw text.
pub open spec fn leaf(token: Token, matched: Seq<char>) -> Tree {
    Tree { token, children: Seq::empty(), data: Some(matched) }
}

/// Whether a token of this kind is followed by a macro body.
pub open spec fn introduces_macro(kind: TokenKind) -> bool {
    kind == TokenKind::Macro || kind == TokenKind::MacroRules
}

/// Whether a token of this kind is followed by a function, parsed as a
/// scope of its own.
pub open spec fn introduces_function(kind: TokenKind) -> bool {
    kind == TokenKind::Keyword(Keyword::Function) || kind == TokenKind::Keyword(
        Keyword::PublicFunction,
    )
}

/// The count of openers once a token of kind `kind` has been seen under
/// `mark`.
pub open spec fn begins_after(kind: TokenKind, mark: Seq<char>, begins: int) -> int {
    if opens_block(kind, mark) {
        begins + 1
    } else {
        begins
    }
}

/// The count of closers once a token of kind `kind` has been seen under
/// `mark`.
pub open spec fn ends_after(kind: TokenKind, mark: Seq<char>, ends: int) -> int {
    if closes_block(kind, mark) {
        ends + 1
    } else {
        ends
    }
}

/// The node that begins `text` on line `line`.
///
/// The tokenizer yields the token and its raw text. A macro marker takes
/// the macro body that follows as its one child. A function keyword takes
/// as children the whole scope that follows, up to and including the `end`
/// that closes its `do`; a function whose scope the input ends before
/// closing is an `UnbalancedScope` failure. Any other token is a leaf.
pub open spec fn parsed_node(text: Seq<char>, line: i32) -> Result<Unit, Failure>
    decreases text.len(), 0int,
{
    match next_token(text, line) {
        None => Err(Failure { kind: ParseErrorKind::Unrecognized, unconsumed_text: text, line }),
        Some((token, (matched, after))) => {
            let here = line_after(line, matched);
            if introduces_macro(token.kind) {
                match macro_body(after, here) {
                    Ok(body) => Ok(
                        Unit {
                            node: with_child(leaf(token, matched), body.node),
                            rest: body.rest,
                            line: body.line,
                        },
                    ),
                    Err(failure) => Err(failure),
                }
            } else if introduces_function(token.kind) {
                proof {
                    lemma_token_consumes(text, line);
                }
                match parsed_scope(after, here, DO@, 0, 0) {
                    Ok(scope) => if scope.closed {
                        Ok(
                            Unit {
                                node: Tree { children: scope.nodes, ..leaf(token, matched) },
                                rest: scope.rest,
                                line: scope.line,
                            },
                        )
                    } else {
                        Err(
                            Failure {
                                kind: ParseErrorKind::UnbalancedScope,
                                unconsumed_text: scope.rest,
                                line: scope.line,
                            },
                        )
                    },
                    Err(failure) => Err(failure),
                }
            } else {
                Ok(Unit { node: leaf(token, matched), rest: after, line: here })
            }
        },
    }
}

/// One scope activation on `text`, entered on line `line` under the block
/// marker `mark` with `begins` openers and `ends` closers counted so far.
///
/// Nodes are read one after the other. Each opener and closer of `mark`
/// among them is counted, and the activation returns the moment the two
/// counts are equal and not zero, the closing node included. When the input
/// ends first, the activation succeeds if the counts are equal and fails
/// with `UnbalancedScope` if they are not.
///
/// A node always leaves less text than it was given
/// (`lemma_node_consumes`), so the last branch is never taken.
pub open spec fn parsed_scope(text: Seq<char>, line: i32, mark: Seq<char>, begins: int, ends: int) -> Result<
    Parsed,
    Failure,
>
    decreases text.len(), 1int,
{
    if text.len() == 0 {
        if begins == ends {
            Ok(Parsed { nodes: Seq::empty(), rest: text, line, closed: false })
        } else {
            Err(Failure { kind: ParseErrorKind::UnbalancedScope, unconsumed_text: text, line })
        }
    } else {
        match parsed_node(text, line) {
            Err(failure) => Err(failure),
            Ok(unit) => {
                let begins_now = begins_after(unit.node.token.kind, mark, begins);
                let ends_now = ends_after(unit.node.token.kind, mark, ends);
                if begins_now == ends_now && begins_now > 0 {
                    Ok(Parsed { nodes: seq![unit.node], rest: unit.rest, line: unit.line, closed: true })
                } else if unit.rest.len() < text.len() {
                    after_nodes(
                        seq![unit.node],
                        parsed_scope(unit.rest, unit.line, mark, begins_now, ends_now),
                    )
                } else {
                    Err(Failure { kind: ParseErrorKind::Unrecognized, unconsumed_text: text, line })
                }
            },
        }
    }
}

/// The outcome `then`, with `nodes` standing before its nodes.
pub open spec fn after_nodes(nodes: Seq<Tree>, then: Result<Parsed, Failure>) -> Result<
    Parsed,
    Failure,
> {
    match then {
        Ok(parsed) => Ok(Parsed { nodes: nodes + parsed.nodes, ..parsed }),
        Err(failure) => Err(failure),
    }
}

/// A node consumes input: the text after it is strictly shorter than the
/// text it began.
pub proof fn lemma_node_consumes(text: Seq<char>, line: i32)
    ensures
        parsed_node(text, line) matches Ok(unit) ==> unit.rest.len() < text.len(),
    decreases text.len(), 0int,
{
    lemma_token_consumes(text, line);
    match next_token(text, line) {
        None => {},
        Some((token, (matched, after))) => {
            let here = line_after(line, matched);
            if introduces_macro(token.kind) {
                lemma_macro_body_consumes(after, here);
            } else if introduces_function(token.kind) {
                lemma_scope_consumes(after, here, DO@, 0, 0);
            }
        },
    }
}

/// A scope never leaves more text than it was given, and leaves less when
/// it was given any.
pub proof fn lemma_scope_consumes(text: Seq<char>, line: i32, mark: Seq<char>, begins: int, ends: int)
    ensures
        parsed_scope(text, line, mark, begins, ends) matches Ok(parsed) ==> parsed.rest.len()
            <= text.len() && (text.len() > 0 ==> parsed.rest.len() < text.len()),
    decreases text.len(), 1int,
{
    if text.len() > 0 {
        lemma_node_consumes(text, line);
        match parsed_node(text, line) {
            Err(_) => {},
            Ok(unit) => {
                let begins_now = begins_after(unit.node.token.kind, mark, begins);
                let ends_now = ends_after(unit.node.token.kind, mark, ends);
                if !(begins_now == ends_now && begins_now > 0) {
                    lemma_scope_consumes(unit.rest, unit.line, mark, begins_now, ends_now);
                }
            },
        }
    }
}

/// The values of two runs of nodes put together are the values of each.
pub proof fn lemma_trees_of_concat(first: Seq<Node>, second: Seq<Node>)
    ensures
        trees_of(first + second) == trees_of(first) + trees_of(second),
    decreases second.len(),
{
    if second.len() > 0 {
        lemma_trees_of_concat(first, second.drop_last());
        assert((first + second).drop_last() =~= first + second.drop_last());
        assert((trees_of(first) + trees_of(second.drop_last())).push(second.last()@) =~= trees_of(
            first,
        ) + trees_of(second.drop_last()).push(second.last()@));
    }
}

/// Reads the node that begins `syntax`, with its macro body or function
/// scope where it has one.
pub fn parse_node<'a>(syntax: &'a str, line_number: i32) -> (outcome: Result<
    (Node, &'a str, i32),
    ParseError,
>)
    ensures
        match parsed_node(syntax@, line_number) {
            Ok(unit) => outcome matches Ok(parts) && parts.0@ == unit.node && parts.1@ == unit.rest
                && parts.2 == unit.line,
            Err(failure) => outcome matches Err(error) && error@ == failure,
        },
    decreases syntax@.len(), 0int,
{
    match tokenize_one(syntax, line_number) {
        Err(error) => Err(error),
        Ok((token, (matched, after))) => {
            let here = advance_line(line_number, matched);
            let mut node = Node { token, children: Vec::new(), data: Some(String::from_str(matched)) };
            if token.kind == TokenKind::Macro || token.kind == TokenKind::MacroRules {
                match parse_macro_body(after, &mut node, here) {
                    Ok((rest, line)) => Ok((node, rest, line)),
                    Err(error) => Err(error),
                }
            } else if token.kind == TokenKind::Keyword(Keyword::Function) || token.kind
                == TokenKind::Keyword(Keyword::PublicFunction) {
                match parse_scope(after, here, DO) {
                    Ok((nodes, rest, line, closed)) => {
                        if closed {
                            node.children = nodes;
                            Ok((node, rest, line))
                        } else {
                            Err(ParseError::new(ParseErrorKind::UnbalancedScope, rest, line))
                        }
                    },
                    Err(error) => Err(error),
                }
            } else {
                Ok((node, after, here))
            }
        },
    }
}

/// Runs one scope activation on `syntax` under the marker `begin_mark`.
/// Returns the nodes of the level, the unconsumed remainder, the line
/// reached, and whether the scope was closed.
pub fn parse_scope<'a>(syntax: &'a str, line_number: i32, begin_mark: &str) -> (outcome: Result<
    (Vec<Node>, &'a str, i32, bool),
    ParseError,
>)
    ensures
        match parsed_scope(syntax@, line_number, begin_mark@, 0, 0) {
            Ok(parsed) => outcome matches Ok(parts) && trees_of(parts.0@) == parsed.nodes
                && parts.1@ == parsed.rest && parts.2 == parsed.line && parts.3 == parsed.closed,
            Err(failure) => outcome matches Err(error) && error@ == failure,
        },
    decreases syntax@.len(), 1int,
{
    let total: usize = syntax.unicode_len();
    let mut rest: &'a str = syntax;
    let mut line: i32 = line_number;
    let mut begins: usize = 0;
    let mut ends: usize = 0;
    let mut nodes: Vec<Node> = Vec::new();
    while !rest.is_empty()
        invariant
            total == syntax@.len(),
            rest@.len() <= syntax@.len(),
            begins + rest@.len() <= total,
            ends + rest@.len() <= total,
            parsed_scope(syntax@, line_number, begin_mark@, 0, 0) == after_nodes(
                trees_of(nodes@),
                parsed_scope(rest@, line, begin_mark@, begins as int, ends as int),
            ),
        decreases rest@.len(),
    {
        proof {
            lemma_node_consumes(rest@, line);
        }
        let ghost nodes_before = trees_of(nodes@);
        match parse_node(rest, line) {
            Err(error) => {
                return Err(error);
            },
            Ok((node, after, reached)) => {
                if match_block_begin(&node.token.kind, begin_mark) {
                    begins = begins + 1;
                }
                if match_block_end(&node.token.kind, begin_mark) {
                    ends = ends + 1;
                }
                proof {
                    lemma_trees_of_push(nodes@, node);
                    assert(nodes_before.push(node@) =~= nodes_before + seq![node@]);
                    match parsed_scope(after@, reached, begin_mark@, begins as int, ends as int) {
                        Ok(parsed) => {
                            assert(nodes_before + (seq![node@] + parsed.nodes) =~= (nodes_before
                                + seq![node@]) + parsed.nodes);
                        },
                        Err(_) => {},
                    }
                }
                nodes.push(node);
                rest = after;
                line = reached;
                if begins == ends && begins > 0 {
                    return Ok((nodes, rest, line, true));
                }
            },
        }
    }
    if begins == ends {
        Ok((nodes, rest, line, false))
    } else {
        Err(ParseError::new(ParseErrorKind::UnbalancedScope, rest, line))
    }
}

/// What `tree` is once `nodes` have been added after its children.
pub open spec fn with_children(tree: Tree, nodes: Seq<Tree>) -> Tree {
    Tree { children: tree.children + nodes, ..tree }
}

/// Parses one scope of `syntax` under `begin_mark` and appends its nodes to
/// the children of `tree`. Returns the unconsumed remainder: the text after
/// the closer that brought the markers into balance, or the empty text when
/// the input ended with no marker open. On failure `tree` is left as it
/// was.
pub fn complete_parse<'a>(syntax: &'a str, tree: &mut Node, line_number: i32, begin_mark: &str) -> (outcome:
    Result<&'a str, ParseError>)
    ensures
        match parsed_scope(syntax@, line_number, begin_mark@, 0, 0) {
            Ok(parsed) => outcome matches Ok(rest) && rest@ == parsed.rest && final(tree)@
                == with_children(old(tree)@, parsed.nodes),
            Err(failure) => outcome matches Err(error) && error@ == failure && *final(tree) == *old(
                tree,
            ),
        },
{
    match parse_scope(syntax, line_number, begin_mark) {
        Ok((nodes, rest, _, _)) => {
            let mut nodes = nodes;
            proof {
                lemma_trees_of_concat(tree.children@, nodes@);
            }
            tree.children.append(&mut nodes);
            Ok(rest)
        },
        Err(error) => Err(error),
    }
}

/// The nodes of a whole source text that begins on line `line`: scope
/// activations under the `do` marker, one after the other, until the text
/// is used up.
pub open spec fn parsed_source(text: Seq<char>, line: i32) -> Result<Seq<Tree>, Failure>
    decreases text.len(),
{
    if text.len() == 0 {
        Ok(Seq::empty())
    } else {
        proof {
            lemma_scope_consumes(text, line, DO@, 0, 0);
        }
        match parsed_scope(text, line, DO@, 0, 0) {
            Err(failure) => Err(failure),
            Ok(scope) => match parsed_source(scope.rest, scope.line) {
                Ok(more) => Ok(scope.nodes + more),
                Err(failure) => Err(failure),
            },
        }
    }
}

/// The synthetic root over the nodes of a program.
pub open spec fn root_over(nodes: Seq<Tree>) -> Tree {
    Tree {
        token: Token { kind: TokenKind::Root, span: Span { line: 0 }, eos: false },
        children: nodes,
        data: None,
    }
}

/// Parses a whole source text into the tree under a synthetic root. Either
/// all of the text parses, or the parse fails: with `Unrecognized` where no
/// recognizer matches, with `UnbalancedMacro` where a macro body does not
/// close, with `UnbalancedScope` where the text ends inside a function or
/// with block openers and closers out of balance.
pub fn parse_source(source: &str) -> (outcome: Result<Node, ParseError>)
    ensures
        match parsed_source(source@, 1) {
            Ok(nodes) => outcome matches Ok(root) && root@ == root_over(nodes),
            Err(failure) => outcome matches Err(error) && error@ == failure,
        },
{
    let mut root = Node { token: Token::new(TokenKind::Root, 0, false), children: Vec::new(), data: None };
    let mut rest: &str = source;
    let mut line: i32 = 1;
    while !rest.is_empty()
        invariant
            root.token == (Token { kind: TokenKind::Root, span: Span { line: 0 }, eos: false }),
            root.data is None,
            match parsed_source(rest@, line) {
                Ok(more) => parsed_source(source@, 1) == Ok::<Seq<Tree>, Failure>(
                    trees_of(root.children@) + more,
                ),
                Err(failure) => parsed_source(source@, 1) == Err::<Seq<Tree>, Failure>(failure),
            },
        decreases rest@.len(),
    {
        proof {
            lemma_scope_consumes(rest@, line, DO@, 0, 0);
        }
        let ghost before = trees_of(root.children@);
        match parse_scope(rest, line, DO) {
            Err(error) => {
                return Err(error);
            },
            Ok((nodes, after, reached, _)) => {
                let mut nodes = nodes;
                proof {
                    lemma_trees_of_concat(root.children@, nodes@);
                    match parsed_source(after@, reached) {
                        Ok(more) => {
                            assert(before + (trees_of(nodes@) + more) =~= (before + trees_of(nodes@))
                                + more);
                        },
                        Err(_) => {},
                    }
                }
                root.children.append(&mut nodes);
                rest = after;
                line = reached;
            },
        }
    }
    Ok(root)
}

/// The number of nodes among `nodes` that open a block under `mark`.
pub open spec fn openers(nodes: Seq<Tree>, mark: Seq<char>) -> int
    decreases nodes.len(),
{
    if nodes.len() == 0 {
        0
    } else {
        begins_after(nodes[0].token.kind, mark, openers(nodes.drop_first(), mark))
    }
}

/// The number of nodes among `nodes` that close a block under `mark`.
pub open spec fn closers(nodes: Seq<Tree>, mark: Seq<char>) -> int
    decreases nodes.len(),
{
    if nodes.len() == 0 {
        0
    } else {
        ends_after(nodes[0].token.kind, mark, closers(nodes.drop_first(), mark))
    }
}

proof fn lemma_counts_prepend(node: Tree, nodes: Seq<Tree>, mark: Seq<char>)
    ensures
        openers(seq![node] + nodes, mark) == begins_after(node.token.kind, mark, openers(nodes, mark)),
        closers(seq![node] + nodes, mark) == ends_after(node.token.kind, mark, closers(nodes, mark)),
{
    assert((seq![node] + nodes).drop_first() =~= nodes);
}

/// Scope balance. A scope activation that succeeds has seen as many
/// openers as closers of its marker, counting those it was entered with
/// and those among the nodes of its own level. It reports `closed` only
/// when there was at least one pair, and ends unclosed only on the end of
/// the input. So an input whose openers and closers differ in number at
/// the level of the activation never parses as a closed or complete scope.
pub proof fn lemma_scope_balance(text: Seq<char>, line: i32, mark: Seq<char>, begins: int, ends: int)
    requires
        0 <= begins,
        0 <= ends,
    ensures
        parsed_scope(text, line, mark, begins, ends) matches Ok(parsed) ==> {
            &&& begins + openers(parsed.nodes, mark) == ends + closers(parsed.nodes, mark)
            &&& parsed.closed ==> begins + openers(parsed.nodes, mark) > 0
            &&& !parsed.closed ==> parsed.rest.len() == 0
        },
    decreases text.len(),
{
    if text.len() > 0 {
        match parsed_node(text, line) {
            Err(_) => {},
            Ok(unit) => {
                let begins_now = begins_after(unit.node.token.kind, mark, begins);
                let ends_now = ends_after(unit.node.token.kind, mark, ends);
                lemma_counts_prepend(unit.node, Seq::empty(), mark);
                if !(begins_now == ends_now && begins_now > 0) && unit.rest.len() < text.len() {
                    lemma_scope_balance(unit.rest, unit.line, mark, begins_now, ends_now);
                    match parsed_scope(unit.rest, unit.line, mark, begins_now, ends_now) {
                        Ok(parsed) => {
                            lemma_counts_prepend(unit.node, parsed.nodes, mark);
                        },
                        Err(_) => {},
                    }
                }
            },
        }
    }
}

} // verus!
