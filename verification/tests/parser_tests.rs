use am_transpiler::ast::Node;
use am_transpiler::block_keyword::{DO, OPEN_PAREN};
use am_transpiler::error::ParseErrorKind;
use am_transpiler::keyword::Keyword;
use am_transpiler::macro_body::{extract_body, parse_macro_body};
use am_transpiler::parser::{complete_parse, parse_node, parse_scope, parse_source};
use am_transpiler::token::{Collection, LiteralKind, Token, TokenKind};

fn root() -> Node {
    Node { token: Token::new(TokenKind::Root, 0, false), children: vec![], data: None }
}

fn kinds(nodes: &[Node]) -> Vec<TokenKind> {
    nodes.iter().map(|node| node.token.kind).collect()
}

fn texts(nodes: &[Node]) -> Vec<&str> {
    nodes.iter().map(|node| node.data.as_deref().unwrap_or("<none>")).collect()
}

fn depth(node: &Node) -> usize {
    1 + node.children.iter().map(depth).max().unwrap_or(0)
}

const KW_DO: TokenKind = TokenKind::Keyword(Keyword::Do);
const KW_END: TokenKind = TokenKind::Keyword(Keyword::End);
const KW_FUNCTION: TokenKind = TokenKind::Keyword(Keyword::Function);

#[test]
fn struct_declaration_builds_a_flat_level() {
    let tree = parse_source("public struct Animal do\n  public sound as String\nend\n").unwrap();
    assert_eq!(tree.token, Token::new(TokenKind::Root, 0, false));
    assert_eq!(tree.data, None);
    assert_eq!(
        kinds(&tree.children),
        vec![
            TokenKind::Keyword(Keyword::PublicStruct),
            TokenKind::Whitespace,
            TokenKind::Identifier,
            TokenKind::Whitespace,
            KW_DO,
            TokenKind::NewLine,
            TokenKind::Whitespace,
            TokenKind::Keyword(Keyword::Public),
            TokenKind::Whitespace,
            TokenKind::Identifier,
            TokenKind::Keyword(Keyword::As),
            TokenKind::Whitespace,
            TokenKind::Literal(LiteralKind::String),
            KW_END,
            TokenKind::NewLine,
        ]
    );
    assert_eq!(
        texts(&tree.children),
        vec![
            "public struct", " ", "Animal", " ", "do", "\n", "  ", "public", " ", "sound", " as",
            " ", "String\n", "end", "\n",
        ]
    );
    assert!(tree.children.iter().all(|node| node.children.is_empty()));
}

#[test]
fn raw_texts_of_a_flat_level_spell_the_source() {
    let source = "derive(Debug, Clone)\nstruct Point do\n  x as Int32\nend\n";
    let tree = parse_source(source).unwrap();
    assert_eq!(texts(&tree.children).concat(), source);
    assert_eq!(tree.children[0].token.kind, TokenKind::Keyword(Keyword::Derive));
    assert_eq!(tree.children[0].data.as_deref(), Some("derive(Debug, Clone)"));
    assert_eq!(tree.children[2].token.kind, TokenKind::Keyword(Keyword::Struct));
}

#[test]
fn tokens_carry_the_line_they_began_on() {
    let tree = parse_source("struct P do\n  x as Int32\nend\n").unwrap();
    let lines: Vec<i32> = tree.children.iter().map(|node| node.token.span.line).collect();
    assert_eq!(lines, vec![1, 1, 1, 1, 1, 1, 2, 2, 2, 2, 2, 3, 3]);
    let tree = parse_source("/* a\n\n b */ x").unwrap();
    assert_eq!(kinds(&tree.children), vec![TokenKind::BlockComment, TokenKind::Whitespace, TokenKind::Identifier]);
    assert_eq!(tree.children[2].token.span.line, 3);
}

#[test]
fn nested_functions_close_inner_before_outer() {
    let tree = parse_source("function outer() do\n  function inner() do\n  end\nend\n").unwrap();
    assert_eq!(kinds(&tree.children), vec![KW_FUNCTION, TokenKind::NewLine]);
    let outer = &tree.children[0];
    assert_eq!(outer.data.as_deref(), Some("function"));
    assert_eq!(
        kinds(&outer.children),
        vec![
            TokenKind::Whitespace,
            TokenKind::FunctionCall,
            TokenKind::CloseParen,
            TokenKind::Whitespace,
            KW_DO,
            TokenKind::NewLine,
            TokenKind::Whitespace,
            KW_FUNCTION,
            TokenKind::NewLine,
            KW_END,
        ]
    );
    let inner = &outer.children[7];
    assert_eq!(
        kinds(&inner.children),
        vec![
            TokenKind::Whitespace,
            TokenKind::FunctionCall,
            TokenKind::CloseParen,
            TokenKind::Whitespace,
            KW_DO,
            TokenKind::NewLine,
            TokenKind::Whitespace,
            KW_END,
        ]
    );
    assert_eq!(inner.children[1].data.as_deref(), Some("inner("));
    assert_eq!(inner.children[7].token.span.line, 3);
    assert_eq!(outer.children[9].token.span.line, 4);
    assert!(inner.children.iter().all(|node| node.children.is_empty()));
    assert_eq!(tree.children.len(), 2);
    assert_eq!(outer.children.len(), 10);
    assert_eq!(inner.children.len(), 8);
    assert_eq!(depth(&tree), 4);
}

#[test]
fn public_function_takes_its_scope_as_children() {
    let tree = parse_source("public function f() do\nend\nx").unwrap();
    assert_eq!(
        kinds(&tree.children),
        vec![TokenKind::Keyword(Keyword::PublicFunction), TokenKind::NewLine, TokenKind::Identifier]
    );
    assert_eq!(tree.children[0].children.len(), 7);
    assert_eq!(tree.children[0].children[6].token.kind, KW_END);
}

#[test]
fn opener_and_closer_are_siblings() {
    let tree = parse_source("module a do\n  module b do\n  end\nend\n").unwrap();
    let level = kinds(&tree.children);
    assert_eq!(level.iter().filter(|kind| **kind == KW_DO).count(), 2);
    assert_eq!(level.iter().filter(|kind| **kind == KW_END).count(), 2);
    assert!(tree.children.iter().all(|node| node.children.is_empty()));
}

#[test]
fn complete_parse_returns_at_the_first_balanced_scope() {
    let mut tree = root();
    let rest = complete_parse("module a do\nend\nmodule b do\nend\n", &mut tree, 1, DO).unwrap();
    assert_eq!(rest, "\nmodule b do\nend\n");
    assert_eq!(
        kinds(&tree.children),
        vec![
            TokenKind::Keyword(Keyword::Module),
            TokenKind::Whitespace,
            TokenKind::Identifier,
            TokenKind::Whitespace,
            KW_DO,
            TokenKind::NewLine,
            KW_END,
        ]
    );
}

#[test]
fn complete_parse_counts_nested_pairs() {
    let mut tree = root();
    let rest = complete_parse("do do\nend end\nx", &mut tree, 1, DO).unwrap();
    assert_eq!(rest, "\nx");
    let level = kinds(&tree.children);
    assert_eq!(level.iter().filter(|kind| **kind == KW_DO).count(), 2);
    assert_eq!(level.iter().filter(|kind| **kind == KW_END).count(), 2);
}

#[test]
fn complete_parse_appends_after_existing_children() {
    let mut tree = root();
    complete_parse("a ", &mut tree, 1, DO).unwrap();
    let rest = complete_parse("b ", &mut tree, 1, DO).unwrap();
    assert_eq!(rest, "");
    assert_eq!(texts(&tree.children), vec!["a", " ", "b", " "]);
    assert_eq!(tree.token.kind, TokenKind::Root);
}

#[test]
fn complete_parse_without_markers_runs_to_the_end() {
    let mut tree = root();
    assert_eq!(complete_parse("let x = 1 ", &mut tree, 1, DO), Ok(""));
    assert_eq!(tree.children.len(), 8);
    let mut tree = root();
    assert_eq!(complete_parse("", &mut tree, 1, DO), Ok(""));
    assert!(tree.children.is_empty());
}

#[test]
fn complete_parse_under_the_parenthesis_marker() {
    let mut tree = root();
    let rest = complete_parse("((b) c) d", &mut tree, 1, OPEN_PAREN).unwrap();
    assert_eq!(rest, " d");
    assert_eq!(
        kinds(&tree.children),
        vec![
            TokenKind::OpenParen,
            TokenKind::OpenParen,
            TokenKind::Identifier,
            TokenKind::CloseParen,
            TokenKind::Whitespace,
            TokenKind::Identifier,
            TokenKind::CloseParen,
        ]
    );
}

#[test]
fn call_head_is_no_opener_under_the_parenthesis_marker() {
    let mut tree = root();
    let rest = complete_parse("(a (b) c) d", &mut tree, 1, OPEN_PAREN).unwrap();
    assert_eq!(rest, " c) d");
    assert_eq!(
        kinds(&tree.children),
        vec![
            TokenKind::OpenParen,
            TokenKind::FunctionCall,
            TokenKind::Identifier,
            TokenKind::CloseParen,
        ]
    );
}

#[test]
fn do_and_end_do_not_count_under_the_parenthesis_marker() {
    let mut tree = root();
    assert_eq!(complete_parse("do\nend\n", &mut tree, 1, OPEN_PAREN), Ok(""));
    assert_eq!(tree.children.len(), 4);
}

#[test]
fn unknown_marker_counts_nothing() {
    let mut tree = root();
    assert_eq!(complete_parse("do\n(x) end\n", &mut tree, 1, "["), Ok(""));
    assert_eq!(tree.children.len(), 8);
}

#[test]
fn unrecognized_text_fails_with_the_remainder_and_the_line() {
    let error = parse_source("let x\n@ y").unwrap_err();
    assert_eq!(error.kind, ParseErrorKind::Unrecognized);
    assert_eq!(error.unconsumed_text, "@ y");
    assert_eq!(error.line, 2);
    assert_eq!(error.message(), "pattern not recognized");
}

#[test]
fn failed_parse_leaves_the_tree_untouched() {
    let mut tree = root();
    complete_parse("a ", &mut tree, 1, DO).unwrap();
    let error = complete_parse("b c @", &mut tree, 1, DO).unwrap_err();
    assert_eq!(error.kind, ParseErrorKind::Unrecognized);
    assert_eq!(error.unconsumed_text, "@");
    assert_eq!(texts(&tree.children), vec!["a", " "]);
}

#[test]
fn more_openers_than_closers_is_an_error() {
    let error = parse_source("module a do\n").unwrap_err();
    assert_eq!(error.kind, ParseErrorKind::UnbalancedScope);
    assert_eq!(error.unconsumed_text, "");
    assert_eq!(error.line, 2);
    let mut tree = root();
    let error = complete_parse("do do\nend\n", &mut tree, 1, DO).unwrap_err();
    assert_eq!(error.kind, ParseErrorKind::UnbalancedScope);
    assert!(tree.children.is_empty());
}

#[test]
fn more_closers_than_openers_is_an_error() {
    let error = parse_source("x\nend\n").unwrap_err();
    assert_eq!(error.kind, ParseErrorKind::UnbalancedScope);
    assert_eq!(error.line, 3);
    let mut tree = root();
    let error = complete_parse("(a))\n", &mut tree, 1, OPEN_PAREN);
    assert_eq!(error, Ok(")\n"));
    let mut tree = root();
    let error = complete_parse(")\n", &mut tree, 1, OPEN_PAREN).unwrap_err();
    assert_eq!(error.kind, ParseErrorKind::UnbalancedScope);
}

#[test]
fn function_without_a_closed_body_is_an_error() {
    let error = parse_source("function f() do\n  x\n").unwrap_err();
    assert_eq!(error.kind, ParseErrorKind::UnbalancedScope);
    assert_eq!(error.message(), "block markers do not balance");
    let error = parse_source("function f() ").unwrap_err();
    assert_eq!(error.kind, ParseErrorKind::UnbalancedScope);
}

#[test]
fn error_inside_a_function_body_fails_the_whole_parse() {
    let error = parse_source("function f() do\n  @\nend\n").unwrap_err();
    assert_eq!(error.kind, ParseErrorKind::Unrecognized);
    assert_eq!(error.unconsumed_text, "@\nend\n");
    assert_eq!(error.line, 2);
}

#[test]
fn parse_node_reads_one_leaf() {
    let (node, rest, line) = parse_node("name\nnext", 3).unwrap();
    assert_eq!(node.token, Token::new(TokenKind::Identifier, 3, true));
    assert_eq!(node.data.as_deref(), Some("name\n"));
    assert!(node.children.is_empty());
    assert_eq!(rest, "next");
    assert_eq!(line, 4);
}

#[test]
fn parse_scope_reports_whether_it_was_closed() {
    let (nodes, rest, line, closed) = parse_scope("do\nend x", 1, DO).unwrap();
    assert_eq!(nodes.len(), 3);
    assert_eq!(rest, " x");
    assert_eq!(line, 2);
    assert!(closed);
    let (nodes, rest, line, closed) = parse_scope("a\nb\n", 5, DO).unwrap();
    assert_eq!(nodes.len(), 2);
    assert_eq!(rest, "");
    assert_eq!(line, 7);
    assert!(!closed);
}

#[test]
fn parse_source_covers_several_scopes() {
    let tree = parse_source("module a do\nend\nmodule b do\nend\n").unwrap();
    let level = kinds(&tree.children);
    assert_eq!(level.len(), 16);
    assert_eq!(level.iter().filter(|kind| **kind == KW_END).count(), 2);
    assert_eq!(tree.children[15].token.span.line, 4);
    assert_eq!(tree.children[8].token.span.line, 3);
}

#[test]
fn parse_source_of_nothing_is_a_bare_root() {
    let tree = parse_source("").unwrap();
    assert_eq!(tree, root());
}

#[test]
fn macro_body_is_the_same_for_each_delimiter() {
    for (open, close) in [('(', ')'), ('[', ']'), ('{', '}')] {
        let inner = format!("a {open}b\n{close} c\n");
        let source = format!("name!{open}{inner}{close} tail");
        let tree = parse_source(&source).unwrap();
        assert_eq!(kinds(&tree.children), vec![TokenKind::Macro, TokenKind::Whitespace, TokenKind::Identifier]);
        let marker = &tree.children[0];
        assert_eq!(marker.data.as_deref(), Some("name!"));
        assert_eq!(kinds(&marker.children), vec![TokenKind::MacroBody]);
        let body = marker.children[0].data.clone().unwrap();
        assert_eq!(body, format!("{open}{inner}{close}"));
        assert_eq!(&body[1..body.len() - 1], inner);
        assert_eq!(marker.children[0].token.span.line, 1);
        assert_eq!(tree.children[1].token.span.line, 3);
    }
}

#[test]
fn macro_body_ignores_the_other_delimiters() {
    let (node, rest, line) = extract_body("(a ] } [ { b) c", 1).unwrap();
    assert_eq!(node.data.as_deref(), Some("(a ] } [ { b)"));
    assert_eq!(node.token, Token::new(TokenKind::MacroBody, 1, false));
    assert!(node.children.is_empty());
    assert_eq!(rest, " c");
    assert_eq!(line, 1);
}

#[test]
fn macro_body_gets_a_terminator_before_a_line_break() {
    let (node, rest, line) = extract_body("(a\n(b))\nrest", 5).unwrap();
    assert_eq!(node.data.as_deref(), Some("(a\n(b));"));
    assert_eq!(rest, "\nrest");
    assert_eq!(line, 6);
    let (node, rest, _) = extract_body("[1] x", 5).unwrap();
    assert_eq!(node.data.as_deref(), Some("[1]"));
    assert_eq!(rest, " x");
    let (node, rest, _) = extract_body("{}", 5).unwrap();
    assert_eq!(node.data.as_deref(), Some("{}"));
    assert_eq!(rest, "");
}

#[test]
fn macro_body_that_never_balances_is_refused() {
    assert!(extract_body("(a (b)", 1).is_none());
    assert!(extract_body("", 1).is_none());
    assert!(extract_body("a(b)", 1).is_none());
    assert!(extract_body(")(", 1).is_none());
}

#[test]
fn parse_macro_body_skips_white_space_and_adds_a_child() {
    let mut marker = Node { token: Token::new(TokenKind::Macro, 2, false), children: vec![], data: Some("m!".to_string()) };
    let (rest, line) = parse_macro_body(" \n  { x }\ny", &mut marker, 2).unwrap();
    assert_eq!(rest, "\ny");
    assert_eq!(line, 3);
    assert_eq!(marker.children.len(), 1);
    assert_eq!(marker.children[0].token, Token::new(TokenKind::MacroBody, 3, false));
    assert_eq!(marker.children[0].data.as_deref(), Some("{ x };"));
    assert_eq!(marker.data.as_deref(), Some("m!"));
}

#[test]
fn unbalanced_macro_is_an_error_of_its_own() {
    let error = parse_source("x\nfoo!(a").unwrap_err();
    assert_eq!(error.kind, ParseErrorKind::UnbalancedMacro);
    assert_eq!(error.unconsumed_text, "(a");
    assert_eq!(error.line, 2);
    assert_eq!(error.message(), "macro body delimiters do not balance");
    let mut marker = root();
    let error = parse_macro_body("  x", &mut marker, 1).unwrap_err();
    assert_eq!(error.kind, ParseErrorKind::UnbalancedMacro);
    assert_eq!(error.unconsumed_text, "  x");
    assert!(marker.children.is_empty());
}

#[test]
fn macro_definition_header_takes_a_body() {
    let tree = parse_source("macro_rules! twice {\n ($x:expr) => { $x }\n}\n").unwrap();
    assert_eq!(kinds(&tree.children), vec![TokenKind::MacroRules, TokenKind::NewLine]);
    assert_eq!(tree.children[0].data.as_deref(), Some("macro_rules! twice"));
    assert_eq!(
        tree.children[0].children[0].data.as_deref(),
        Some("{\n ($x:expr) => { $x }\n};")
    );
    assert_eq!(tree.children[1].token.span.line, 3);
}

#[test]
fn hash_map_literal_is_one_token() {
    let tree = parse_source("let m = { a: 1, b: 2 }\n\n").unwrap();
    assert_eq!(
        kinds(&tree.children),
        vec![
            TokenKind::Keyword(Keyword::Let),
            TokenKind::Whitespace,
            TokenKind::Identifier,
            TokenKind::Whitespace,
            TokenKind::Collection(Collection::HashMap),
            TokenKind::NewLine,
        ]
    );
    assert_eq!(tree.children[4].data.as_deref(), Some("= { a: 1, b: 2 }\n"));
    assert_eq!(tree.children[5].token.span.line, 2);
}

#[test]
fn cloned_tree_equals_the_tree() {
    let tree = parse_source("function f() do\n  m!(a)\nend\n").unwrap();
    let copy = tree.clone();
    assert_eq!(copy, tree);
    assert_eq!(copy.children[0].children.len(), tree.children[0].children.len());
    assert_eq!(copy.children[0].children[7].children[0].data.as_deref(), Some("(a);"));
}

#[test]
fn keyword_needs_white_space_after_it_to_close_a_scope() {
    let error = parse_source("module a do\nend").unwrap_err();
    assert_eq!(error.kind, ParseErrorKind::UnbalancedScope);
    let mut tree = root();
    assert_eq!(complete_parse("end", &mut tree, 1, "none"), Ok(""));
    assert_eq!(kinds(&tree.children), vec![TokenKind::Identifier]);
}

#[test]
fn comments_and_blanks_never_count_as_markers() {
    let mut tree = root();
    let rest = complete_parse("do // end\n/* do do */ end x", &mut tree, 1, DO).unwrap();
    assert_eq!(rest, " x");
    assert_eq!(
        kinds(&tree.children),
        vec![
            KW_DO,
            TokenKind::Whitespace,
            TokenKind::LineComment,
            TokenKind::NewLine,
            TokenKind::BlockComment,
            TokenKind::Whitespace,
            KW_END,
        ]
    );
    assert_eq!(tree.children[2].data.as_deref(), Some("// end"));
    assert_eq!(tree.children[4].data.as_deref(), Some("/* do do */"));
}

#[test]
fn only_functions_and_macros_have_children() {
    let tree = parse_source("module a do\n  function f() do\n    m!(x)\n  end\nend\n").unwrap();
    fn check(nodes: &[Node]) {
        for node in nodes {
            assert!(node.data.is_some());
            match node.token.kind {
                TokenKind::Macro | TokenKind::MacroRules => {
                    assert_eq!(node.children.len(), 1);
                    assert_eq!(node.children[0].token.kind, TokenKind::MacroBody);
                    assert!(node.children[0].children.is_empty());
                }
                TokenKind::Keyword(Keyword::Function) | TokenKind::Keyword(Keyword::PublicFunction) => {
                    assert_eq!(node.children.last().unwrap().token.kind, KW_END);
                    check(&node.children);
                }
                _ => assert!(node.children.is_empty()),
            }
        }
    }
    check(&tree.children);
    assert_eq!(depth(&tree), 4);
}

fn spell(nodes: &[Node], out: &mut String) {
    for node in nodes {
        out.push_str(node.data.as_deref().unwrap_or(""));
        spell(&node.children, out);
    }
}

#[test]
fn depth_first_walk_spells_the_source() {
    let source = "module a do\n  function f(x as Int32) do\n    y = [1, 2] \n    return x\n  end\nend\n";
    let tree = parse_source(source).unwrap();
    let mut spelled = String::new();
    spell(&tree.children, &mut spelled);
    assert_eq!(spelled, source);
}

#[test]
fn only_white_space_before_a_macro_body_is_left_out() {
    let tree = parse_source("m! \n (a) b").unwrap();
    let mut spelled = String::new();
    spell(&tree.children, &mut spelled);
    assert_eq!(spelled, "m!(a) b");
    assert_eq!(tree.children[0].children[0].token.span.line, 2);
    assert_eq!(tree.children[2].token.span.line, 2);
}
