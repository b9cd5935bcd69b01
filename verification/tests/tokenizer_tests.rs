use am_transpiler::error::ParseErrorKind;
use am_transpiler::keyword::Keyword;
use am_transpiler::lexeme::Lexeme;
use am_transpiler::token::{Collection, LiteralKind, Operator, Token, TokenKind};
use am_transpiler::tokenizer::{
    accept, capture, keyword_at, operator_at, parse_array, parse_as, parse_block_comment, parse_borrow,
    parse_close_parens, parse_comma, parse_derive, parse_dot, parse_function_call, parse_hash_map,
    parse_identifier, parse_line_comment, parse_macro, parse_macro_rules,
    parse_namespace_separator, parse_newline, parse_not_operator, parse_open_parens,
    parse_operator, parse_own, parse_string, parse_to_token, parse_tuple, parse_type,
    parse_type_with_generics, parse_whitespace, tokenize_one, type_name_at, KEYWORD_COUNT,
    OPERATOR_COUNT, TYPE_NAME_COUNT,
};

fn token(kind: TokenKind, line: i32) -> Token {
    Token::new(kind, line, false)
}

#[test]
fn capture_splits_into_match_and_remainder() {
    let found = capture("^(ab+)(?s)(.*)$", TokenKind::Unknown, "abbbc\nd", 9);
    assert_eq!(found, Some((token(TokenKind::Unknown, 9), ("abbb", "c\nd"))));
    assert_eq!(capture("^(x)(?s)(.*)$", TokenKind::Unknown, "abc", 1), None);
}

#[test]
fn capture_refuses_a_match_that_consumes_nothing() {
    assert_eq!(capture("^(a*)(?s)(.*)$", TokenKind::Unknown, "bbb", 1), None);
    assert_eq!(capture("^()(?s)(.*)$", TokenKind::Unknown, "", 1), None);
}

#[test]
fn capture_refuses_groups_that_do_not_tile_the_input() {
    assert_eq!(capture("^(a)b(?s)(.*)$", TokenKind::Unknown, "abc", 1), None);
    assert_eq!(capture("(b)(?s)(.*)$", TokenKind::Unknown, "abc", 1), None);
    assert_eq!(capture("^(a)(b)", TokenKind::Unknown, "abc", 1), None);
    assert_eq!(capture("^(?s)(.*)(c)$", TokenKind::Unknown, "abc", 1), Some((token(TokenKind::Unknown, 1), ("ab", "c"))));
}

#[test]
fn accept_takes_only_a_match_followed_by_the_remainder() {
    assert_eq!(
        accept(Some(("ab", "c")), TokenKind::Dot, "abc", 3),
        Some((token(TokenKind::Dot, 3), ("ab", "c")))
    );
    assert_eq!(accept(Some(("abc", "")), TokenKind::Dot, "abc", 3).unwrap().1, ("abc", ""));
    assert_eq!(accept(Some(("", "abc")), TokenKind::Dot, "abc", 3), None);
    assert_eq!(accept(Some(("a", "c")), TokenKind::Dot, "abc", 3), None);
    assert_eq!(accept(Some(("b", "c")), TokenKind::Dot, "abc", 3), None);
    assert_eq!(accept(Some(("ab", "cd")), TokenKind::Dot, "abc", 3), None);
    assert_eq!(accept(None, TokenKind::Dot, "abc", 3), None);
}

#[test]
fn capture_without_a_valid_pattern_matches_nothing() {
    assert_eq!(capture("^(a", TokenKind::Unknown, "a", 1), None);
}

#[test]
fn punctuation_recognizers() {
    assert_eq!(parse_open_parens("(x", 3), Some((token(TokenKind::OpenParen, 3), ("(", "x"))));
    assert_eq!(parse_open_parens("x(", 3), None);
    assert_eq!(parse_close_parens(")x", 1), Some((token(TokenKind::CloseParen, 1), (")", "x"))));
    assert_eq!(
        parse_close_parens(")\nx", 1),
        Some((token(TokenKind::CloseParen, 1), (")\n", "x")))
    );
    assert_eq!(parse_dot(".a", 1), Some((token(TokenKind::Dot, 1), (".", "a"))));
    assert_eq!(parse_comma(", b", 1), Some((token(TokenKind::Comma, 1), (",", " b"))));
    assert_eq!(
        parse_namespace_separator("::new", 2),
        Some((token(TokenKind::NamespaceSeparator, 2), ("::", "new")))
    );
}

#[test]
fn blank_and_newline_recognizers() {
    assert_eq!(
        parse_whitespace(" \t x", 1),
        Some((token(TokenKind::Whitespace, 1), (" \t ", "x")))
    );
    assert_eq!(parse_whitespace("\n x", 1), None);
    assert_eq!(parse_newline("\n x", 1), Some((token(TokenKind::NewLine, 1), ("\n", " x"))));
    assert_eq!(parse_newline(" \n", 1), None);
}

#[test]
fn comment_recognizers() {
    assert_eq!(
        parse_line_comment("// note\nx", 1),
        Some((token(TokenKind::LineComment, 1), ("// note", "\nx")))
    );
    assert_eq!(
        parse_block_comment("/* a\n b */ x", 1),
        Some((token(TokenKind::BlockComment, 1), ("/* a\n b */", " x")))
    );
    assert_eq!(parse_block_comment("/* open", 1), None);
}

#[test]
fn identifier_takes_the_line_break_and_flags_the_statement_end() {
    assert_eq!(
        parse_identifier("name rest", 4),
        Some((Token::new(TokenKind::Identifier, 4, false), ("name", " rest")))
    );
    assert_eq!(
        parse_identifier("name\nrest", 4),
        Some((Token::new(TokenKind::Identifier, 4, true), ("name\n", "rest")))
    );
    assert_eq!(parse_identifier("snake_case9.x", 1).unwrap().1, ("snake_case9", ".x"));
    assert_eq!(parse_identifier(" name", 1), None);
}

#[test]
fn only_the_identifier_recognizer_flags_the_statement_end() {
    assert!(!parse_close_parens(")\nx", 1).unwrap().0.eos);
    assert!(!parse_type("String\nx", 1).unwrap().0.eos);
    assert!(!parse_newline("\nx", 1).unwrap().0.eos);
    assert!(tokenize_one("x\ny", 1).unwrap().0.eos);
}

#[test]
fn keyword_recognizer_needs_white_space_after_the_word() {
    assert_eq!(
        parse_to_token("module a", 1),
        Some((token(TokenKind::Keyword(Keyword::Module), 1), ("module", " a")))
    );
    assert_eq!(
        parse_to_token("end\n", 7),
        Some((token(TokenKind::Keyword(Keyword::End), 7), ("end", "\n")))
    );
    assert_eq!(parse_to_token("modules a", 1), None);
    assert_eq!(parse_to_token("end", 1), None);
}

#[test]
fn keyword_table_words_all_tokenize_to_their_kind() {
    for i in 0..KEYWORD_COUNT {
        let (word, kind) = keyword_at(i);
        let text = if word == "\\|>" { "|> x".to_string() } else { format!("{} x", word) };
        let found = parse_to_token(&text, 1).unwrap();
        assert_eq!(found.0.kind, kind);
        assert_eq!((found.1).1, " x");
    }
    assert_eq!(KEYWORD_COUNT, 34);
}

#[test]
fn compound_keyword_wins_over_its_first_word() {
    let cases = [
        ("public struct A", Keyword::PublicStruct, "public struct"),
        ("public trait A", Keyword::PublicTrait, "public trait"),
        ("public use a", Keyword::PublicUse, "public use"),
        ("public module a", Keyword::PublicModule, "public module"),
        ("public function f", Keyword::PublicFunction, "public function"),
        ("public enum E", Keyword::PublicEnum, "public enum"),
        ("extern crate regex", Keyword::ExternCrate, "extern crate"),
    ];
    for (text, keyword, matched) in cases {
        let found = tokenize_one(text, 1).unwrap();
        assert_eq!(found.0.kind, TokenKind::Keyword(keyword));
        assert_eq!((found.1).0, matched);
    }
    let found = tokenize_one("public sound", 1).unwrap();
    assert_eq!(found.0.kind, TokenKind::Keyword(Keyword::Public));
    assert_eq!(found.1, ("public", " sound"));
}

#[test]
fn not_equal_wins_over_not() {
    let found = tokenize_one("not equal b", 1).unwrap();
    assert_eq!(found.0.kind, TokenKind::NotEqual);
    assert_eq!(found.1, ("not equal", " b"));
    let found = tokenize_one("not b", 1).unwrap();
    assert_eq!(found.0.kind, TokenKind::Not);
    assert_eq!(found.1, ("not ", "b"));
    let found = tokenize_one("equal b", 1).unwrap();
    assert_eq!(found.0.kind, TokenKind::Equal);
}

#[test]
fn symbol_keywords() {
    assert_eq!(tokenize_one("= 1", 1).unwrap().0.kind, TokenKind::Assign);
    assert_eq!(tokenize_one(": 1", 1).unwrap().0.kind, TokenKind::DoubleDot);
    assert_eq!(tokenize_one("=> 1", 1).unwrap().0.kind, TokenKind::FatArrow);
    assert_eq!(tokenize_one("|> f", 1).unwrap().0.kind, TokenKind::PipeLine);
}

#[test]
fn operator_recognizer() {
    let expected = [
        ("+ 1", Operator::Add, "+"),
        ("- 1", Operator::Minus, "-"),
        ("* 1", Operator::Multiply, "*"),
        ("/ 1", Operator::Divide, "/"),
        ("% 1", Operator::Mod, "%"),
    ];
    for (text, operator, matched) in expected {
        assert_eq!(
            parse_operator(text, 2),
            Some((token(TokenKind::Operator(operator), 2), (matched, " 1")))
        );
    }
    assert_eq!(parse_operator("+1", 2), None);
    assert_eq!(OPERATOR_COUNT, 5);
    assert_eq!(operator_at(3), ("/", TokenKind::Operator(Operator::Divide)));
}

#[test]
fn type_recognizer_takes_the_delimiter_after_the_name() {
    assert_eq!(
        parse_type("String\nend", 2),
        Some((token(TokenKind::Literal(LiteralKind::String), 2), ("String\n", "end")))
    );
    assert_eq!(
        parse_type("Int32, b", 1),
        Some((token(TokenKind::Literal(LiteralKind::Int32), 1), ("Int32,", " b")))
    );
    assert_eq!(parse_type("Boolean) do", 1).unwrap().1, ("Boolean)", " do"));
    assert_eq!(parse_type("Byte> x", 1).unwrap().1, ("Byte>", " x"));
    assert_eq!(parse_type("Char| x", 1).unwrap().1, ("Char|", " x"));
    assert_eq!(parse_type("String x", 1), None);
    assert_eq!(parse_type("String", 1), None);
}

#[test]
fn type_table_names_all_tokenize_to_their_kind() {
    for i in 0..TYPE_NAME_COUNT {
        let (name, kind) = type_name_at(i);
        let text = format!("{},", name);
        let found = parse_type(&text, 1).unwrap();
        assert_eq!(found.0.kind, kind);
        assert_eq!((found.1).0, text);
    }
    assert_eq!(TYPE_NAME_COUNT, 12);
    assert_eq!(type_name_at(4), ("UInt32", TokenKind::Literal(LiteralKind::UInt32)));
}

#[test]
fn keyword_like_recognizers() {
    assert_eq!(
        parse_borrow("borrow x", 1),
        Some((token(TokenKind::Keyword(Keyword::Borrow), 1), ("borrow ", "x")))
    );
    assert_eq!(
        parse_own("own x", 1),
        Some((token(TokenKind::Keyword(Keyword::Own), 1), ("own ", "x")))
    );
    assert_eq!(
        parse_as(" as String", 1),
        Some((token(TokenKind::Keyword(Keyword::As), 1), (" as", " String")))
    );
    assert_eq!(parse_as("as String", 1), None);
    assert_eq!(
        parse_not_operator("not x", 1),
        Some((token(TokenKind::Not, 1), ("not ", "x")))
    );
    assert_eq!(
        parse_derive("derive(Debug, Clone)\nstruct", 1),
        Some((token(TokenKind::Keyword(Keyword::Derive), 1), ("derive(Debug, Clone)", "\nstruct")))
    );
}

#[test]
fn macro_and_call_recognizers() {
    assert_eq!(
        parse_macro("println!(\"a\")", 1),
        Some((token(TokenKind::Macro, 1), ("println!", "(\"a\")")))
    );
    assert_eq!(
        parse_macro_rules("macro_rules! twice { }", 1),
        Some((token(TokenKind::MacroRules, 1), ("macro_rules! twice", " { }")))
    );
    assert_eq!(
        parse_function_call("foo (a)", 1),
        Some((token(TokenKind::FunctionCall, 1), ("foo (", "a)")))
    );
    assert_eq!(parse_function_call("foo bar(", 1), None);
}

#[test]
fn literal_recognizers() {
    assert_eq!(
        parse_string("\"a\" + \"b\"", 1),
        Some((token(TokenKind::Lexeme(Lexeme::String), 1), ("\"a\"", " + \"b\"")))
    );
    assert_eq!(parse_string("\"a\nb\" x", 1).unwrap().1, ("\"a\nb\"", " x"));
    assert_eq!(
        parse_type_with_generics("Vec<Int32>\nx", 1),
        Some((token(TokenKind::TypeWithGeneric, 1), ("Vec<Int32>\n", "x")))
    );
    assert_eq!(
        parse_array("[1, 2] x", 1),
        Some((token(TokenKind::Collection(Collection::Array), 1), ("[1, 2]", " x")))
    );
    assert_eq!(parse_array("[1] x", 1), None);
    assert_eq!(
        parse_tuple("(a, b)\n x", 1),
        Some((token(TokenKind::Collection(Collection::Tuple), 1), ("(a, b)\n", " x")))
    );
    assert_eq!(
        parse_hash_map("= { a: 1, b: 2 }\n\n", 1),
        Some((token(TokenKind::Collection(Collection::HashMap), 1), ("= { a: 1, b: 2 }\n", "\n")))
    );
    assert_eq!(parse_hash_map("= { a: 1, b: 2 }", 1), None);
}

#[test]
fn tokenizer_priorities() {
    assert_eq!(
        tokenize_one("= { a: 1, b: 2 } ", 1).unwrap().0.kind,
        TokenKind::Collection(Collection::HashMap)
    );
    assert_eq!(tokenize_one("= x", 1).unwrap().0.kind, TokenKind::Assign);
    assert_eq!(
        tokenize_one("derive(Debug)\n", 1).unwrap().0.kind,
        TokenKind::Keyword(Keyword::Derive)
    );
    assert_eq!(tokenize_one("foo(a)", 1).unwrap().0.kind, TokenKind::FunctionCall);
    assert_eq!(tokenize_one("foo!(a)", 1).unwrap().0.kind, TokenKind::Macro);
    assert_eq!(tokenize_one("macro_rules! m {}", 1).unwrap().0.kind, TokenKind::MacroRules);
    assert_eq!(tokenize_one("(a, b) ", 1).unwrap().0.kind, TokenKind::Collection(Collection::Tuple));
    assert_eq!(tokenize_one("(a) ", 1).unwrap().0.kind, TokenKind::OpenParen);
    assert_eq!(tokenize_one("Vec<Int32> ", 1).unwrap().0.kind, TokenKind::TypeWithGeneric);
    assert_eq!(tokenize_one("foo", 1).unwrap().0.kind, TokenKind::Identifier);
    assert_eq!(tokenize_one("end", 1).unwrap().0.kind, TokenKind::Identifier);
    assert_eq!(tokenize_one("/* c */", 1).unwrap().0.kind, TokenKind::BlockComment);
    assert_eq!(tokenize_one("// c", 1).unwrap().0.kind, TokenKind::LineComment);
    assert_eq!(tokenize_one("/ 2", 1).unwrap().0.kind, TokenKind::Operator(Operator::Divide));
}

#[test]
fn tokenizer_fails_on_what_no_pattern_matches() {
    for text in ["", "@", "#[x]"] {
        let error = tokenize_one(text, 6).unwrap_err();
        assert_eq!(error.kind, ParseErrorKind::Unrecognized);
        assert_eq!(error.unconsumed_text, text);
        assert_eq!(error.line, 6);
        assert_eq!(error.message(), "pattern not recognized");
    }
}

#[test]
fn tokenizer_carries_the_line_it_is_given() {
    assert_eq!(tokenize_one("foo", 12).unwrap().0.span.line, 12);
    assert_eq!(tokenize_one("module a", -3).unwrap().0.span.line, -3);
}

#[test]
fn every_token_shortens_the_input() {
    let mut rest = "let x = foo(a, b)\n";
    let mut steps = 0;
    while let Ok((_, (matched, after))) = tokenize_one(rest, 1) {
        assert!(after.len() < rest.len());
        assert_eq!(format!("{}{}", matched, after), rest);
        rest = after;
        steps += 1;
    }
    assert_eq!(rest, "");
    assert_eq!(steps, 12);
}
