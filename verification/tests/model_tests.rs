use am_transpiler::block_keyword::{
    end_character, match_block_begin, match_block_end, CLOSE_BRACE, CLOSE_BRACKET, CLOSE_PAREN, DO,
    END, OPEN_BRACE, OPEN_BRACKET, OPEN_PAREN,
};
use am_transpiler::error::{ParseError, ParseErrorKind};
use am_transpiler::keyword::Keyword;
use am_transpiler::text::{
    advance_line, find_from, is_whitespace, match_newlines, replace, same_text, splits_into,
    starts_at, trim,
};
use am_transpiler::token::{Span, Token, TokenKind};

#[test]
fn token_new_keeps_kind_line_and_flag() {
    let token = Token::new(TokenKind::Root, 0, false);
    assert_eq!(token, Token { kind: TokenKind::Root, span: Span { line: 0 }, eos: false });
    let token = Token::new(TokenKind::Keyword(Keyword::Do), 17, true);
    assert_eq!(token.kind, TokenKind::Keyword(Keyword::Do));
    assert_eq!(token.span.line, 17);
    assert!(token.eos);
}

#[test]
fn block_begin_matches_do_under_do_marker() {
    assert!(match_block_begin(&TokenKind::Keyword(Keyword::Do), DO));
    assert!(!match_block_begin(&TokenKind::Keyword(Keyword::End), DO));
    assert!(!match_block_begin(&TokenKind::OpenParen, DO));
    assert!(!match_block_begin(&TokenKind::Keyword(Keyword::Do), OPEN_PAREN));
}

#[test]
fn block_begin_matches_paren_under_paren_marker() {
    assert!(match_block_begin(&TokenKind::OpenParen, OPEN_PAREN));
    assert!(!match_block_begin(&TokenKind::CloseParen, OPEN_PAREN));
    assert!(!match_block_begin(&TokenKind::OpenParen, "["));
}

#[test]
fn block_end_matches_end_and_close_paren() {
    assert!(match_block_end(&TokenKind::Keyword(Keyword::End), DO));
    assert!(!match_block_end(&TokenKind::Keyword(Keyword::Do), DO));
    assert!(match_block_end(&TokenKind::CloseParen, OPEN_PAREN));
    assert!(!match_block_end(&TokenKind::CloseParen, DO));
    assert!(!match_block_end(&TokenKind::Keyword(Keyword::End), OPEN_PAREN));
    assert!(!match_block_end(&TokenKind::Keyword(Keyword::End), END));
}

#[test]
fn end_character_pairs_the_three_brackets() {
    assert_eq!(end_character('('), Some(')'));
    assert_eq!(end_character('['), Some(']'));
    assert_eq!(end_character('{'), Some('}'));
    assert_eq!(end_character(')'), None);
    assert_eq!(end_character('a'), None);
    assert_eq!(format!("{}{}{}", OPEN_PAREN, OPEN_BRACKET, OPEN_BRACE), "([{");
    assert_eq!(format!("{}{}{}", CLOSE_PAREN, CLOSE_BRACKET, CLOSE_BRACE), ")]}");
}

#[test]
fn parse_error_carries_kind_message_text_and_line() {
    let error = ParseError::new(ParseErrorKind::Unrecognized, "@ rest", 4);
    assert_eq!(error.kind, ParseErrorKind::Unrecognized);
    assert_eq!(error.message(), "pattern not recognized");
    assert_eq!(error.unconsumed_text, "@ rest");
    assert_eq!(error.line, 4);
    assert_eq!(
        ParseError::new(ParseErrorKind::UnbalancedScope, "", 1).message(),
        "block markers do not balance"
    );
    assert_eq!(
        ParseError::new(ParseErrorKind::UnbalancedMacro, "", 1).message(),
        "macro body delimiters do not balance"
    );
}

#[test]
fn match_newlines_counts_line_breaks() {
    assert_eq!(match_newlines(""), 0);
    assert_eq!(match_newlines("abc"), 0);
    assert_eq!(match_newlines("\n"), 1);
    assert_eq!(match_newlines("a\nb\n\nc"), 3);
    assert_eq!(match_newlines("é\nü"), 1);
}

#[test]
fn advance_line_adds_line_breaks() {
    assert_eq!(advance_line(1, "no break"), 1);
    assert_eq!(advance_line(1, "a\nb\n"), 3);
    assert_eq!(advance_line(-2, "\n"), -1);
}

#[test]
fn advance_line_stops_at_the_largest_line() {
    assert_eq!(advance_line(i32::MAX, "\n"), i32::MAX);
    assert_eq!(advance_line(i32::MAX - 1, "\n\n\n"), i32::MAX);
    assert_eq!(advance_line(i32::MAX - 1, "\n"), i32::MAX);
    assert_eq!(advance_line(i32::MAX - 2, "\n"), i32::MAX - 1);
}

#[test]
fn replace_rewrites_every_occurrence() {
    assert_eq!(replace("a\nb\n", "\n", ";\n"), "a;\nb;\n");
    assert_eq!(replace("Boolean,", "Boolean", "bool"), "bool,");
    assert_eq!(replace("= { a", "=", ""), " { a");
    assert_eq!(replace("abc", "x", "y"), "abc");
    assert_eq!(replace("", "x", "y"), "");
}

#[test]
fn replace_passes_over_what_it_replaced() {
    assert_eq!(replace("aaa", "aa", "b"), "ba");
    assert_eq!(replace("aaaa", "aa", "a"), "aa");
    assert_eq!(replace("abab", "ab", "ba"), "baba");
}

#[test]
fn replace_with_empty_pattern_changes_nothing() {
    assert_eq!(replace("abc", "", "x"), "abc");
}

#[test]
fn starts_at_compares_at_a_position() {
    assert!(starts_at("hello", "ell", 1));
    assert!(!starts_at("hello", "ell", 0));
    assert!(starts_at("hello", "", 5));
    assert!(!starts_at("hello", "lox", 3));
    assert!(starts_at("héllo", "llo", 2));
}

#[test]
fn find_from_gives_first_position_or_length() {
    assert_eq!(find_from("a,b,c", ',', 0), 1);
    assert_eq!(find_from("a,b,c", ',', 2), 3);
    assert_eq!(find_from("a,b,c", ',', 4), 5);
    assert_eq!(find_from("", ',', 0), 0);
}

#[test]
fn trim_strips_both_ends() {
    assert_eq!(trim("  a b \n"), "a b");
    assert_eq!(trim("a"), "a");
    assert_eq!(trim(" \t\n"), "");
    assert_eq!(trim(""), "");
    assert_eq!(trim("\u{a0}x\u{2003}"), "x");
}

#[test]
fn is_whitespace_follows_unicode_white_space() {
    for c in [' ', '\t', '\n', '\r', '\u{b}', '\u{c}', '\u{85}', '\u{a0}', '\u{1680}', '\u{2000}', '\u{200a}', '\u{2028}', '\u{2029}', '\u{202f}', '\u{205f}', '\u{3000}'] {
        assert!(is_whitespace(c));
        assert!(c.is_whitespace());
    }
    for c in ['a', '0', '_', '\u{200b}', '\u{feff}', '\u{8}', '\u{e}'] {
        assert!(!is_whitespace(c));
        assert!(!c.is_whitespace());
    }
}

#[test]
fn same_text_compares_contents() {
    assert!(same_text("do", "do"));
    assert!(!same_text("do", "("));
    assert!(!same_text("do", "don"));
    assert!(same_text("", ""));
}

#[test]
fn splits_into_tests_head_then_tail() {
    assert!(splits_into("abc", "a", "bc"));
    assert!(splits_into("abc", "", "abc"));
    assert!(splits_into("abc", "abc", ""));
    assert!(splits_into("", "", ""));
    assert!(splits_into("héllo", "hé", "llo"));
    assert!(!splits_into("abc", "a", "c"));
    assert!(!splits_into("abc", "ab", "bc"));
    assert!(!splits_into("abc", "b", "c"));
    assert!(!splits_into("abc", "abcd", ""));
    assert!(!splits_into("abc", "x", "bc"));
    assert!(!splits_into("abc", "a", "bx"));
}
